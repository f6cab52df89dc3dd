//! Link extraction over a message sequence, with and without a site filter.

use crate::calendar::has_utc_date;
use crate::extract::{extract_link, extracted_info, extracted_link};
use crate::model::{LinkInfo, LinkInfoView, Message, MessageView};
use crate::text::{is_substring, str_contains};
use vstd::prelude::*;

verus! {

/// The extraction of one message, as a function.
pub open spec fn link_of() -> spec_fn(MessageView) -> Option<LinkInfoView> {
    |m: MessageView| extracted_info(m)
}

/// A record, if there is one and if its link contains `site`.
pub open spec fn on_site(info: Option<LinkInfoView>, site: Seq<char>) -> Option<LinkInfoView> {
    match info {
        Some(i) => if is_substring(site, i.link) {
            info
        } else {
            None
        },
        None => None,
    }
}

/// The extraction of one message followed by the site test, as a function.
pub open spec fn link_on_site(site: Seq<char>) -> spec_fn(MessageView) -> Option<LinkInfoView> {
    |m: MessageView| on_site(extracted_info(m), site)
}

/// The links of `messages`: one for each message that yields one, in order.
pub open spec fn links_of(messages: Seq<MessageView>) -> Seq<LinkInfoView> {
    messages.filter_map(link_of())
}

/// The links of `messages` whose text contains `site`, in order.
pub open spec fn links_on_site(messages: Seq<MessageView>, site: Seq<char>) -> Seq<LinkInfoView> {
    messages.filter_map(link_on_site(site))
}

/// Every message that yields a link has a timestamp with a calendar date.
pub open spec fn links_have_dates(messages: Seq<MessageView>) -> bool {
    forall|i: int|
        0 <= i < messages.len() && extracted_link(#[trigger] messages[i]) is Some ==> has_utc_date(
            messages[i].timestamp_ms,
        )
}

/// Whether the record's link contains `site`.
pub fn link_is_on_site(info: &LinkInfo, site: &str) -> (kept: bool)
    ensures
        kept == is_substring(site@, info@.link),
{
    str_contains(info.link.as_str(), site)
}

/// Extracts the link of each message and keeps, in order, those that
/// contain `filter_site`.
pub fn search_links_with_site_filter(messages: &[Message], filter_site: String) -> (links: Vec<LinkInfo>)
    requires
        links_have_dates(messages.deep_view()),
    ensures
        links.deep_view() == links_on_site(messages.deep_view(), filter_site@),
{
    let ghost all = messages.deep_view();
    let ghost pick = link_on_site(filter_site@);
    let mut links_info: Vec<LinkInfo> = Vec::new();
    let mut i: usize = 0;
    assert(all.take(0) =~= Seq::<MessageView>::empty());
    while i < messages.len()
        invariant
            i <= messages.len(),
            all == messages.deep_view(),
            links_have_dates(all),
            pick == link_on_site(filter_site@),
            links_info.deep_view() == all.take(i as int).filter_map(pick),
        decreases messages.len() - i,
    {
        let ghost before = links_info.deep_view();
        proof {
            all.lemma_filter_map_take_succ(pick, i as int);
        }
        assert(messages[i as int].deep_view() == all[i as int]);
        if let Some(link_info) = extract_link(messages[i].clone()) {
            if link_is_on_site(&link_info, filter_site.as_str()) {
                links_info.push(link_info);
                assert(links_info.deep_view() =~= before.push(link_info.deep_view()));
            }
        }
        i += 1;
    }
    assert(all.take(all.len() as int) =~= all);
    links_info
}

/// Extracts the link of each message and keeps them all, in order.
pub fn search_links_without_filter(messages: &[Message]) -> (links: Vec<LinkInfo>)
    requires
        links_have_dates(messages.deep_view()),
    ensures
        links.deep_view() == links_of(messages.deep_view()),
{
    let ghost all = messages.deep_view();
    let ghost pick = link_of();
    let mut links_info: Vec<LinkInfo> = Vec::new();
    let mut i: usize = 0;
    assert(all.take(0) =~= Seq::<MessageView>::empty());
    while i < messages.len()
        invariant
            i <= messages.len(),
            all == messages.deep_view(),
            links_have_dates(all),
            pick == link_of(),
            links_info.deep_view() == all.take(i as int).filter_map(pick),
        decreases messages.len() - i,
    {
        let ghost before = links_info.deep_view();
        proof {
            all.lemma_filter_map_take_succ(pick, i as int);
        }
        assert(messages[i as int].deep_view() == all[i as int]);
        if let Some(link_info) = extract_link(messages[i].clone()) {
            links_info.push(link_info);
            assert(links_info.deep_view() =~= before.push(link_info.deep_view()));
        }
        i += 1;
    }
    assert(all.take(all.len() as int) =~= all);
    links_info
}

} // verus!
