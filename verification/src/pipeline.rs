//! The whole pipeline: sender filter, date filter, extraction, site filter.

use crate::filter::{all_have_dates, filter_date, filter_sender, messages_from, messages_on};
use crate::model::{Config, DateFilter, JsonValue, LinkInfo, LinkInfoView, MessageView};
use crate::search::{
    links_have_dates, links_of, links_on_site, search_links_with_site_filter,
    search_links_without_filter,
};
use vstd::prelude::*;

verus! {

/// The messages left by the sender filter, where one is asked for.
pub open spec fn messages_from_any(messages: Seq<MessageView>, sender: Option<Seq<char>>) -> Seq<
    MessageView,
> {
    match sender {
        Some(s) => messages_from(messages, s),
        None => messages,
    }
}

/// The messages left by the sender filter and then the date filter, where
/// they are asked for.
pub open spec fn selected_messages(
    messages: Seq<MessageView>,
    sender: Option<Seq<char>>,
    date_filter: Option<DateFilter>,
) -> Seq<MessageView> {
    let from_sender = messages_from_any(messages, sender);
    match date_filter {
        Some(filter) => messages_on(from_sender, filter),
        None => from_sender,
    }
}

/// The links of the selected messages, narrowed to `site` where one is
/// asked for.
pub open spec fn pipeline_links(
    messages: Seq<MessageView>,
    site: Option<Seq<char>>,
    sender: Option<Seq<char>>,
    date_filter: Option<DateFilter>,
) -> Seq<LinkInfoView> {
    let selected = selected_messages(messages, sender, date_filter);
    match site {
        Some(s) => links_on_site(selected, s),
        None => links_of(selected),
    }
}

/// The timestamps that the pipeline has to turn into dates can be: those of
/// the messages that reach a date filter with a year, and those of the
/// selected messages that yield a link.
pub open spec fn dates_suffice(
    messages: Seq<MessageView>,
    sender: Option<Seq<char>>,
    date_filter: Option<DateFilter>,
) -> bool {
    &&& (date_filter is Some && date_filter->0.year is Some) ==> all_have_dates(
        messages_from_any(messages, sender),
    )
    &&& links_have_dates(selected_messages(messages, sender, date_filter))
}

/// Runs the pipeline on a parsed archive: narrows the messages by sender and
/// by date, extracts at most one link from each, and narrows the links by
/// site. A criterion that is absent leaves everything through.
pub fn parse_messages(json_value: JsonValue, config: Config, date_filter: Option<DateFilter>) -> (links:
    Vec<LinkInfo>)
    requires
        dates_suffice(json_value.messages.deep_view(), config.sender.deep_view(), date_filter),
    ensures
        links.deep_view() == pipeline_links(
            json_value.messages.deep_view(),
            config.site.deep_view(),
            config.sender.deep_view(),
            date_filter,
        ),
{
    let mut messages = json_value.messages;
    if let Some(sender) = config.sender {
        messages = filter_sender(messages, sender.as_str());
    }
    if let Some(filter) = date_filter {
        messages = filter_date(messages, filter);
    }
    match config.site {
        Some(filter_site) => search_links_with_site_filter(messages.as_slice(), filter_site),
        None => search_links_without_filter(messages.as_slice()),
    }
}

} // verus!
