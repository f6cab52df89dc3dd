//! Extraction of at most one link from each message.

use crate::calendar::{format_utc, has_utc_date, utc_date_text, DATE_PATTERN};
use crate::model::{LinkInfo, LinkInfoView, Message, MessageView};
use crate::text::{is_substring, split_whitespace, str_contains, whitespace_tokens};
use vstd::prelude::*;

verus! {

/// The text holds `http://` or `https://`.
pub open spec fn has_url_marker(text: Seq<char>) -> bool {
    is_substring("http://"@, text) || is_substring("https://"@, text)
}

/// The first of `tokens` that holds a URL marker, if any does.
pub open spec fn first_url_token(tokens: Seq<Seq<char>>) -> Option<Seq<char>>
    decreases tokens.len(),
{
    if tokens.len() == 0 {
        None
    } else if has_url_marker(tokens[0]) {
        Some(tokens[0])
    } else {
        first_url_token(tokens.drop_first())
    }
}

/// The link that a free text yields: its first token with a URL marker.
pub open spec fn content_link(text: Seq<char>) -> Option<Seq<char>> {
    first_url_token(whitespace_tokens(text))
}

/// The link that a message yields. A share decides alone, with or without a
/// link of its own; only a message without share is searched in its content.
pub open spec fn extracted_link(message: MessageView) -> Option<Seq<char>> {
    match message.share {
        Some(share) => share.link,
        None => match message.content {
            Some(text) => if has_url_marker(text) {
                content_link(text)
            } else {
                None
            },
            None => None,
        },
    }
}

/// The record of a link sent by `sender_name` at `timestamp_ms`.
pub open spec fn link_info_of(sender_name: Seq<char>, timestamp_ms: i64, link: Seq<char>) -> LinkInfoView {
    LinkInfoView { sender_name, date: utc_date_text(timestamp_ms, DATE_PATTERN@), link }
}

/// The record of `link`, if there is one, as found in `message`.
pub open spec fn info_of_link(message: MessageView, link: Option<Seq<char>>) -> Option<LinkInfoView> {
    match link {
        Some(l) => Some(link_info_of(message.sender_name, message.timestamp_ms, l)),
        None => None,
    }
}

/// The record that a message yields, if it yields a link.
pub open spec fn extracted_info(message: MessageView) -> Option<LinkInfoView> {
    info_of_link(message, extracted_link(message))
}

impl LinkInfo {
    /// A record of the three texts as they are given.
    pub fn new(sender_name: String, date: String, link: String) -> (info: LinkInfo)
        ensures
            info.sender_name == sender_name,
            info.date == date,
            info.link == link,
    {
        LinkInfo { sender_name, date, link }
    }
}

/// Whether the text holds `http://` or `https://`.
pub fn mentions_url(text: &str) -> (found: bool)
    ensures
        found == has_url_marker(text@),
{
    str_contains(text, "http://") || str_contains(text, "https://")
}

/// Annotates a link with its sender and with the UTC date of `timestamp`.
pub fn create_link_info(sender_name: String, timestamp: i64, link: String) -> (info: LinkInfo)
    requires
        has_utc_date(timestamp),
    ensures
        info@ == link_info_of(sender_name@, timestamp, link@),
{
    let date = format_utc(timestamp, DATE_PATTERN);
    LinkInfo::new(sender_name, date, link)
}

/// The link of the message's share, annotated; nothing when the share holds
/// no link.
pub fn search_in_share(message: Message) -> (found: Option<LinkInfo>)
    requires
        message.share is Some,
        message@.share->0.link is Some ==> has_utc_date(message.timestamp_ms),
    ensures
        found.deep_view() == info_of_link(message@, message@.share->0.link),
{
    let share = message.share.unwrap();
    match share.link {
        Some(link) => Some(create_link_info(message.sender_name, message.timestamp_ms, link)),
        None => None,
    }
}

/// The first token with a URL marker among `tokens`.
pub fn find_url_token<'a>(tokens: &Vec<&'a str>) -> (found: Option<&'a str>)
    ensures
        found.deep_view() == first_url_token(tokens.deep_view()),
{
    let ghost all = tokens.deep_view();
    let mut i: usize = 0;
    assert(all.skip(0) =~= all);
    while i < tokens.len()
        invariant
            i <= tokens.len(),
            all == tokens.deep_view(),
            first_url_token(all) == first_url_token(all.skip(i as int)),
        decreases tokens.len() - i,
    {
        let token = tokens[i];
        assert(all.skip(i as int)[0] == token@);
        if mentions_url(token) {
            return Some(token);
        }
        assert(all.skip(i as int).drop_first() =~= all.skip(i as int + 1));
        i += 1;
    }
    assert(all.skip(i as int).len() == 0);
    None
}

/// The first token of the message's content that holds a URL marker,
/// annotated; nothing when no token holds one.
pub fn search_in_content(message: Message) -> (found: Option<LinkInfo>)
    requires
        message.content is Some,
        content_link(message@.content->0) is Some ==> has_utc_date(message.timestamp_ms),
    ensures
        found.deep_view() == info_of_link(message@, content_link(message@.content->0)),
{
    let content = message.content.unwrap();
    let tokens = split_whitespace(content.as_str());
    match find_url_token(&tokens) {
        Some(word) => Some(
            create_link_info(message.sender_name, message.timestamp_ms, word.to_owned()),
        ),
        None => None,
    }
}

/// The link of one message, annotated: that of its share if it has a share,
/// else the first URL in its content.
pub fn extract_link(message: Message) -> (found: Option<LinkInfo>)
    requires
        extracted_link(message@) is Some ==> has_utc_date(message.timestamp_ms),
    ensures
        found.deep_view() == extracted_info(message@),
{
    if message.share.is_some() {
        search_in_share(message)
    } else {
        let url_in_content = match &message.content {
            Some(text) => mentions_url(text.as_str()),
            None => false,
        };
        if url_in_content {
            search_in_content(message)
        } else {
            None
        }
    }
}

} // verus!
