//! Narrowing a message sequence by sender and by calendar date.

use crate::calendar::{
    has_utc_date, timestamp_has_utc_date, utc_day, utc_day_of, utc_month, utc_month_of, utc_year,
    utc_year_of,
};
use crate::model::{DateFilter, Message, MessageView};
use crate::order::lemma_filter_take_next;
use crate::text::{is_substring, str_contains};
use vstd::prelude::*;

verus! {

/// The test that a message's sender name contains `sender`.
pub open spec fn sent_by(sender: Seq<char>) -> spec_fn(MessageView) -> bool {
    |m: MessageView| is_substring(sender, m.sender_name)
}

/// The messages of `messages` whose sender name contains `sender`.
pub open spec fn messages_from(messages: Seq<MessageView>, sender: Seq<char>) -> Seq<MessageView> {
    messages.filter(sent_by(sender))
}

/// Keeps, in order, the messages whose sender name contains `sender`.
pub fn filter_sender(messages: Vec<Message>, sender: &str) -> (kept: Vec<Message>)
    ensures
        kept.deep_view() == messages_from(messages.deep_view(), sender@),
{
    let ghost all = messages.deep_view();
    let ghost from = sent_by(sender@);
    let mut kept: Vec<Message> = Vec::new();
    for message in it: messages
        invariant
            it.seq().len() == all.len(),
            forall|i: int| 0 <= i < all.len() ==> (#[trigger] it.seq()[i]).deep_view() == all[i],
            from == sent_by(sender@),
            kept.deep_view() == all.take(it.index() as int).filter(from),
    {
        let ghost before = kept.deep_view();
        proof {
            lemma_filter_take_next(all, from, it.index() as int);
        }
        if str_contains(message.sender_name.as_str(), sender) {
            kept.push(message);
            assert(kept.deep_view() =~= before.push(message.deep_view()));
        }
    }
    assert(all.take(all.len() as int) =~= all);
    kept
}

impl DateFilter {
    /// A calendar date passes the filter: with no year set every date does,
    /// and with a year set each field that is set equals the date's.
    pub open spec fn accepts(self, year: i32, month: u32, day: u32) -> bool {
        match self.year {
            None => true,
            Some(y) => {
                &&& y == year
                &&& (self.month matches Some(m) ==> m == month)
                &&& (self.day matches Some(d) ==> d == day)
            },
        }
    }

    /// Whether the calendar date `year`, `month`, `day` passes the filter.
    pub fn accepts_date(&self, year: i32, month: u32, day: u32) -> (accepted: bool)
        ensures
            accepted == self.accepts(year, month, day),
    {
        match self.year {
            None => true,
            Some(y) => {
                let month_fits = match self.month {
                    Some(m) => m == month,
                    None => true,
                };
                let day_fits = match self.day {
                    Some(d) => d == day,
                    None => true,
                };
                y == year && month_fits && day_fits
            },
        }
    }
}

/// The test that the UTC calendar date of a message passes `filter`.
pub open spec fn sent_on(filter: DateFilter) -> spec_fn(MessageView) -> bool {
    |m: MessageView|
        filter.accepts(
            utc_year_of(m.timestamp_ms),
            utc_month_of(m.timestamp_ms),
            utc_day_of(m.timestamp_ms),
        )
}

/// The messages of `messages` that `filter` lets through: all of them when
/// it sets no year, else those whose UTC calendar date passes it.
pub open spec fn messages_on(messages: Seq<MessageView>, filter: DateFilter) -> Seq<MessageView> {
    if filter.year is None {
        messages
    } else {
        messages.filter(sent_on(filter))
    }
}

/// Every message has a timestamp with a calendar date.
pub open spec fn all_have_dates(messages: Seq<MessageView>) -> bool {
    forall|i: int| 0 <= i < messages.len() ==> has_utc_date(#[trigger] messages[i].timestamp_ms)
}

/// Whether every message has a timestamp with a calendar date.
pub fn have_dates(messages: &[Message]) -> (all: bool)
    ensures
        all == all_have_dates(messages.deep_view()),
{
    let mut i: usize = 0;
    while i < messages.len()
        invariant
            i <= messages.len(),
            forall|j: int| 0 <= j < i ==> has_utc_date(#[trigger] messages.deep_view()[j].timestamp_ms),
        decreases messages.len() - i,
    {
        assert(messages.deep_view()[i as int].timestamp_ms == messages[i as int].timestamp_ms);
        if !timestamp_has_utc_date(messages[i].timestamp_ms) {
            return false;
        }
        i += 1;
    }
    true
}

/// Keeps, in order, the messages whose UTC calendar date matches every field
/// that `date_filter` sets. A filter without a year keeps every message,
/// whatever its month and day say.
pub fn filter_date(messages: Vec<Message>, date_filter: DateFilter) -> (kept: Vec<Message>)
    requires
        date_filter.year is Some ==> all_have_dates(messages.deep_view()),
    ensures
        kept.deep_view() == messages_on(messages.deep_view(), date_filter),
        date_filter.year is None ==> kept == messages,
{
    if date_filter.year.is_none() {
        return messages;
    }
    let ghost all = messages.deep_view();
    let ghost on = sent_on(date_filter);
    let mut kept: Vec<Message> = Vec::new();
    for message in it: messages
        invariant
            it.seq().len() == all.len(),
            forall|i: int| 0 <= i < all.len() ==> (#[trigger] it.seq()[i]).deep_view() == all[i],
            all_have_dates(all),
            on == sent_on(date_filter),
            kept.deep_view() == all.take(it.index() as int).filter(on),
    {
        let ghost before = kept.deep_view();
        proof {
            lemma_filter_take_next(all, on, it.index() as int);
        }
        let year = utc_year(message.timestamp_ms);
        let month = utc_month(message.timestamp_ms);
        let day = utc_day(message.timestamp_ms);
        if date_filter.accepts_date(year, month, day) {
            kept.push(message);
            assert(kept.deep_view() =~= before.push(message.deep_view()));
        }
    }
    assert(all.take(all.len() as int) =~= all);
    kept
}

} // verus!
