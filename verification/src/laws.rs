//! What holds of the filters, of extraction and of the pipeline as a whole.

use crate::calendar::has_utc_date;
use crate::extract::{content_link, extracted_info, extracted_link, first_url_token, has_url_marker};
use crate::filter::{all_have_dates, messages_from, messages_on, sent_by, sent_on};
use crate::model::{DateFilter, LinkInfoView, MessageView};
use crate::order::{
    is_ordered_selection, kept_where, lemma_filter_as_filter_map, lemma_filter_map_selects,
    lemma_filter_map_then_filter, lemma_filter_retains, lemma_filter_then_filter_map,
    lemma_filters_commute, picked_if, picked_positions, picked_where,
};
use crate::pipeline::{dates_suffice, messages_from_any, pipeline_links, selected_messages};
use crate::search::{link_of, link_on_site, links_have_dates, links_of, links_on_site, on_site};
use crate::text::{
    is_substring, is_word, lemma_substring_transitive, lemma_tokens_within_text,
    lemma_word_within_token, whitespace_tokens,
};
use vstd::prelude::*;

verus! {

/// The sender filter keeps the order of the messages: what it returns are
/// the messages at ascending positions of the input, and no position whose
/// sender name contains `sender` is left out.
pub proof fn lemma_sender_filter_keeps_order(messages: Seq<MessageView>, sender: Seq<char>)
    ensures
        is_ordered_selection(
            messages,
            messages_from(messages, sender),
            picked_positions(messages, kept_where(sent_by(sender))),
            kept_where(sent_by(sender)),
        ),
{
    lemma_filter_as_filter_map(messages, sent_by(sender));
    lemma_filter_map_selects(messages, kept_where(sent_by(sender)));
}

/// The sender filter retains a message exactly when its sender name
/// contains `sender`.
pub proof fn lemma_sender_filter_retains(messages: Seq<MessageView>, sender: Seq<char>)
    ensures
        forall|m: MessageView| #[trigger]
            messages_from(messages, sender).contains(m) <==> messages.contains(m) && is_substring(
                sender,
                m.sender_name,
            ),
{
    lemma_filter_retains(messages, sent_by(sender));
}

/// A date filter with a year keeps the order of the messages: what it
/// returns are the messages at ascending positions of the input, and no
/// position whose date passes the filter is left out.
pub proof fn lemma_date_filter_keeps_order(messages: Seq<MessageView>, filter: DateFilter)
    requires
        filter.year is Some,
    ensures
        is_ordered_selection(
            messages,
            messages_on(messages, filter),
            picked_positions(messages, kept_where(sent_on(filter))),
            kept_where(sent_on(filter)),
        ),
{
    lemma_filter_as_filter_map(messages, sent_on(filter));
    lemma_filter_map_selects(messages, kept_where(sent_on(filter)));
}

/// A date filter without a year changes nothing, whatever its month and its
/// day are, neither in the messages nor in the links of the pipeline.
pub proof fn lemma_date_filter_without_year(
    messages: Seq<MessageView>,
    site: Option<Seq<char>>,
    sender: Option<Seq<char>>,
    filter: DateFilter,
)
    requires
        filter.year is None,
    ensures
        messages_on(messages, filter) == messages,
        selected_messages(messages, sender, Some(filter)) == selected_messages(messages, sender, None),
        pipeline_links(messages, site, sender, Some(filter)) == pipeline_links(
            messages,
            site,
            sender,
            None,
        ),
{
}

/// The sender filter and the date filter may be applied in either order.
pub proof fn lemma_sender_and_date_filters_commute(
    messages: Seq<MessageView>,
    sender: Seq<char>,
    filter: DateFilter,
)
    ensures
        messages_on(messages_from(messages, sender), filter) == messages_from(
            messages_on(messages, filter),
            sender,
        ),
{
    if filter.year is Some {
        lemma_filters_commute(messages, sent_by(sender), sent_on(filter));
    }
}

/// A share decides alone: the link of a message with a share is the link of
/// that share, or none where the share has none, whatever `content` the
/// message is given.
pub proof fn lemma_share_takes_precedence(message: MessageView, content: Option<Seq<char>>)
    requires
        message.share is Some,
    ensures
        extracted_link(message) == message.share->0.link,
        extracted_link(MessageView { content, ..message }) == message.share->0.link,
{
}

/// The first token with a URL marker is a token with a URL marker that no
/// such token precedes, and there is one as soon as any token has a marker.
pub proof fn lemma_first_url_token(tokens: Seq<Seq<char>>)
    ensures
        first_url_token(tokens) is Some <==> exists|k: int|
            0 <= k < tokens.len() && has_url_marker(#[trigger] tokens[k]),
        first_url_token(tokens) is Some ==> exists|k: int|
            0 <= k < tokens.len() && first_url_token(tokens) == Some(#[trigger] tokens[k])
                && has_url_marker(tokens[k]) && forall|j: int|
                0 <= j < k ==> !has_url_marker(#[trigger] tokens[j]),
    decreases tokens.len(),
{
    if tokens.len() > 0 {
        if has_url_marker(tokens[0]) {
            assert(first_url_token(tokens) == Some(tokens[0]));
        } else {
            let later = tokens.drop_first();
            lemma_first_url_token(later);
            if first_url_token(later) is Some {
                let k = choose|k: int|
                    0 <= k < later.len() && first_url_token(later) == Some(#[trigger] later[k])
                        && has_url_marker(later[k]) && forall|j: int|
                        0 <= j < k ==> !has_url_marker(#[trigger] later[j]);
                assert(tokens[k + 1] == later[k]);
                assert forall|j: int| 0 <= j < k + 1 implies !has_url_marker(
                    #[trigger] tokens[j],
                ) by {
                    if j > 0 {
                        assert(tokens[j] == later[j - 1]);
                    }
                }
            }
            if exists|k: int| 0 <= k < tokens.len() && has_url_marker(#[trigger] tokens[k]) {
                let k = choose|k: int| 0 <= k < tokens.len() && has_url_marker(#[trigger] tokens[k]);
                assert(later[k - 1] == tokens[k]);
            }
        }
    }
}

/// A text yields a link exactly when it holds a URL marker, and the link is
/// then a token of the text that holds a marker: it has no whitespace and
/// occurs in the text.
pub proof fn lemma_content_link(text: Seq<char>)
    ensures
        content_link(text) is Some <==> has_url_marker(text),
        content_link(text) is Some ==> {
            let link = content_link(text)->0;
            &&& has_url_marker(link)
            &&& is_word(link)
            &&& is_substring(link, text)
        },
{
    let tokens = whitespace_tokens(text);
    lemma_first_url_token(tokens);
    lemma_tokens_within_text(text);
    if content_link(text) is Some {
        let k = choose|k: int|
            0 <= k < tokens.len() && first_url_token(tokens) == Some(#[trigger] tokens[k])
                && has_url_marker(tokens[k]);
        lemma_marker_in_part(tokens[k], text);
    }
    if has_url_marker(text) {
        reveal_strlit("http://");
        reveal_strlit("https://");
        let marker = if is_substring("http://"@, text) {
            "http://"@
        } else {
            "https://"@
        };
        assert(is_word(marker));
        lemma_word_within_token(marker, text);
        let k = choose|k: int|
            0 <= k < tokens.len() && is_substring(marker, #[trigger] tokens[k]);
        assert(has_url_marker(tokens[k]));
    }
}

/// A URL marker in a part of a text is a URL marker in the text.
proof fn lemma_marker_in_part(part: Seq<char>, text: Seq<char>)
    requires
        has_url_marker(part),
        is_substring(part, text),
    ensures
        has_url_marker(text),
{
    if is_substring("http://"@, part) {
        lemma_substring_transitive("http://"@, part, text);
    } else {
        lemma_substring_transitive("https://"@, part, text);
    }
}

/// The check of a content for a URL marker, made before its tokens are
/// searched, never hides a link: a message without share yields the first
/// token of its content that holds a marker.
pub proof fn lemma_content_is_searched(message: MessageView)
    requires
        message.share is None,
        message.content is Some,
    ensures
        extracted_link(message) == content_link(message.content->0),
{
    lemma_content_link(message.content->0);
}

/// Extraction keeps the order of the messages: the links are what the
/// messages at ascending positions yield, and no message that yields a link
/// is left out.
pub proof fn lemma_links_keep_order(messages: Seq<MessageView>)
    ensures
        is_ordered_selection(
            messages,
            links_of(messages),
            picked_positions(messages, link_of()),
            link_of(),
        ),
{
    lemma_filter_map_selects(messages, link_of());
}

/// Extraction with a site keeps the order of the messages: the links are
/// what the messages at ascending positions yield, and no message whose
/// link contains `site` is left out.
pub proof fn lemma_links_on_site_keep_order(messages: Seq<MessageView>, site: Seq<char>)
    ensures
        is_ordered_selection(
            messages,
            links_on_site(messages, site),
            picked_positions(messages, link_on_site(site)),
            link_on_site(site),
        ),
{
    lemma_filter_map_selects(messages, link_on_site(site));
}

/// The test that a link contains `site`.
pub open spec fn link_contains(site: Seq<char>) -> spec_fn(LinkInfoView) -> bool {
    |info: LinkInfoView| is_substring(site, info.link)
}

/// The site filter comes after extraction: the links on a site are the
/// links of all messages, narrowed to those that contain `site`. So it
/// retains an extracted link exactly when the link contains `site`.
pub proof fn lemma_site_filter_follows_extraction(messages: Seq<MessageView>, site: Seq<char>)
    ensures
        links_on_site(messages, site) == links_of(messages).filter(link_contains(site)),
        forall|info: LinkInfoView| #[trigger]
            links_on_site(messages, site).contains(info) <==> links_of(messages).contains(info)
                && is_substring(site, info.link),
{
    lemma_filter_map_then_filter(messages, link_of(), link_contains(site));
    assert(picked_if(link_of(), link_contains(site)) =~= link_on_site(site));
    lemma_filter_retains(links_of(messages), link_contains(site));
}

/// The verdict of the whole pipeline on one message: its link, if the
/// message passes the sender filter and the date filter and the link passes
/// the site filter.
pub open spec fn pipeline_pick(
    site: Option<Seq<char>>,
    sender: Option<Seq<char>>,
    date_filter: Option<DateFilter>,
) -> spec_fn(MessageView) -> Option<LinkInfoView> {
    |m: MessageView|
        {
            let from_sender = sender matches Some(s) ==> is_substring(s, m.sender_name);
            let on_date = date_filter matches Some(f) ==> sent_on(f)(m);
            if from_sender && on_date {
                match site {
                    Some(s) => on_site(extracted_info(m), s),
                    None => extracted_info(m),
                }
            } else {
                None
            }
        }
}

/// The pipeline judges each message on its own and keeps the order of the
/// messages: its links are what the messages at ascending positions yield
/// under [`pipeline_pick`], and no message that yields one is left out.
pub proof fn lemma_pipeline_keeps_order(
    messages: Seq<MessageView>,
    site: Option<Seq<char>>,
    sender: Option<Seq<char>>,
    date_filter: Option<DateFilter>,
)
    ensures
        pipeline_links(messages, site, sender, date_filter) == messages.filter_map(
            pipeline_pick(site, sender, date_filter),
        ),
        is_ordered_selection(
            messages,
            pipeline_links(messages, site, sender, date_filter),
            picked_positions(messages, pipeline_pick(site, sender, date_filter)),
            pipeline_pick(site, sender, date_filter),
        ),
{
    let verdict = pipeline_pick(site, sender, date_filter);
    let pick = match site {
        Some(s) => link_on_site(s),
        None => link_of(),
    };
    let always = |m: MessageView| true;
    let by_sender = match sender {
        Some(s) => sent_by(s),
        None => always,
    };
    let by_date = match date_filter {
        Some(f) => sent_on(f),
        None => always,
    };
    lemma_filter_all(messages, always);
    let from_sender = messages_from_any(messages, sender);
    assert(from_sender == messages.filter(by_sender));
    lemma_filter_all(from_sender, always);
    let selected = selected_messages(messages, sender, date_filter);
    assert(selected == from_sender.filter(by_date)) by {
        if let Some(f) = date_filter {
            if f.year is None {
                assert(sent_on(f) =~= always);
            }
        }
    }
    lemma_filter_then_filter_map(from_sender, by_date, pick);
    lemma_filter_then_filter_map(messages, by_sender, picked_where(by_date, pick));
    assert(picked_where(by_sender, picked_where(by_date, pick)) =~= verdict);
    lemma_filter_map_selects(messages, verdict);
}

/// Where every message has a timestamp with a calendar date, every step of
/// the pipeline can turn the timestamps it meets into dates, whatever the
/// criteria are.
pub proof fn lemma_dates_suffice(
    messages: Seq<MessageView>,
    sender: Option<Seq<char>>,
    date_filter: Option<DateFilter>,
)
    requires
        all_have_dates(messages),
    ensures
        links_have_dates(messages),
        all_have_dates(messages_from_any(messages, sender)),
        all_have_dates(selected_messages(messages, sender, date_filter)),
        dates_suffice(messages, sender, date_filter),
{
    let from_sender = messages_from_any(messages, sender);
    if let Some(s) = sender {
        lemma_filter_keeps_dates(messages, sent_by(s));
    }
    let selected = selected_messages(messages, sender, date_filter);
    if let Some(f) = date_filter {
        if f.year is Some {
            lemma_filter_keeps_dates(from_sender, sent_on(f));
        }
    }
}

/// What a filter keeps of messages with dates are messages with dates.
proof fn lemma_filter_keeps_dates(messages: Seq<MessageView>, keep: spec_fn(MessageView) -> bool)
    requires
        all_have_dates(messages),
    ensures
        all_have_dates(messages.filter(keep)),
{
    let kept = messages.filter(keep);
    assert forall|k: int| 0 <= k < kept.len() implies has_utc_date(#[trigger] kept[k].timestamp_ms) by {
        assert(kept.contains(kept[k]));
        messages.lemma_filter_contains_rev(keep, kept[k]);
        let i = choose|i: int| 0 <= i < messages.len() && messages[i] == kept[k];
        assert(has_utc_date(messages[i].timestamp_ms));
    }
}

/// A filter whose test always holds changes nothing.
proof fn lemma_filter_all<A>(input: Seq<A>, keep: spec_fn(A) -> bool)
    requires
        forall|i: int| 0 <= i < input.len() ==> keep(#[trigger] input[i]),
    ensures
        input.filter(keep) == input,
    decreases input.len(),
{
    reveal(Seq::filter);
    if input.len() > 0 {
        let shorter = input.drop_last();
        assert forall|i: int| 0 <= i < shorter.len() implies keep(#[trigger] shorter[i]) by {
            assert(shorter[i] == input[i]);
        }
        lemma_filter_all(shorter, keep);
        assert(shorter.push(input.last()) =~= input);
    }
}

} // verus!
