use messenger_parser::{filter_date, filter_sender, have_dates, DateFilter, Message};

fn message(sender: &str, timestamp_ms: i64) -> Message {
    Message {
        sender_name: String::from(sender),
        content: None,
        timestamp_ms,
        share: None,
    }
}

// 11 February 2018, 17:33:08.967 UTC
const FEB_11_2018: i64 = 1518370388967;
// 3 June 2015, 15:40:00.259 UTC
const JUN_03_2015: i64 = 1433346000259;
// 11 June 2018, 00:00:00.000 UTC
const JUN_11_2018: i64 = 1528675200000;
// 28 February 2018, 23:59:59.999 UTC
const FEB_28_2018: i64 = 1519862399999;

fn archive() -> Vec<Message> {
    vec![
        message("alice", FEB_11_2018),
        message("bob", JUN_03_2015),
        message("alice", JUN_11_2018),
        message("carol", FEB_28_2018),
    ]
}

#[test]
fn sender_filter_keeps_matching_messages_in_order() {
    let messages = vec![
        message("toto", 1),
        message("foo", 2),
        message("le toto", 3),
        message("tot", 4),
        message("toto2", 5),
    ];
    let kept = filter_sender(messages, "toto");
    let stamps: Vec<i64> = kept.iter().map(|m| m.timestamp_ms).collect();
    assert_eq!(stamps, vec![1, 3, 5]);
}

#[test]
fn sender_filter_retains_exactly_the_senders_that_contain_the_text() {
    let messages = vec![message("Anna", 1), message("Hanna", 2), message("anna", 3), message("Ann", 4)];
    let input = messages.clone();
    let kept = filter_sender(messages, "nna");
    for m in &input {
        assert_eq!(kept.contains(m), m.sender_name.contains("nna"));
    }
    assert_eq!(kept.len(), 3);
}

#[test]
fn sender_filter_is_case_sensitive() {
    let kept = filter_sender(vec![message("Toto", 1), message("toto", 2)], "toto");
    assert_eq!(kept, vec![message("toto", 2)]);
}

#[test]
fn sender_filter_without_match_is_empty() {
    let kept = filter_sender(vec![message("toto", 1), message("foo", 2)], "bar");
    assert!(kept.is_empty());
}

#[test]
fn sender_filter_with_empty_text_keeps_all() {
    let kept = filter_sender(archive(), "");
    assert_eq!(kept, archive());
}

#[test]
fn sender_filter_on_empty_input() {
    assert!(filter_sender(Vec::new(), "toto").is_empty());
}

#[test]
fn date_filter_without_year_is_identity() {
    let filter = DateFilter { year: None, month: Some(2), day: Some(11) };
    assert_eq!(filter_date(archive(), filter), archive());
    let filter = DateFilter { year: None, month: None, day: Some(3) };
    assert_eq!(filter_date(archive(), filter), archive());
    let filter = DateFilter { year: None, month: Some(6), day: None };
    assert_eq!(filter_date(archive(), filter), archive());
    let filter = DateFilter { year: None, month: None, day: None };
    assert_eq!(filter_date(archive(), filter), archive());
}

#[test]
fn date_filter_without_year_needs_no_calendar_date() {
    let messages = vec![message("a", i64::MAX), message("b", i64::MIN)];
    let filter = DateFilter { year: None, month: Some(1), day: Some(1) };
    assert_eq!(filter_date(messages.clone(), filter), messages);
}

#[test]
fn date_filter_by_year_only() {
    let filter = DateFilter { year: Some(2018), month: None, day: None };
    assert_eq!(
        filter_date(archive(), filter),
        vec![message("alice", FEB_11_2018), message("alice", JUN_11_2018), message("carol", FEB_28_2018)]
    );
}

#[test]
fn date_filter_by_year_and_month() {
    let filter = DateFilter { year: Some(2018), month: Some(2), day: None };
    assert_eq!(
        filter_date(archive(), filter),
        vec![message("alice", FEB_11_2018), message("carol", FEB_28_2018)]
    );
}

#[test]
fn date_filter_by_year_and_day() {
    let filter = DateFilter { year: Some(2018), month: None, day: Some(11) };
    assert_eq!(
        filter_date(archive(), filter),
        vec![message("alice", FEB_11_2018), message("alice", JUN_11_2018)]
    );
}

#[test]
fn date_filter_by_year_month_and_day() {
    let filter = DateFilter { year: Some(2018), month: Some(6), day: Some(11) };
    assert_eq!(filter_date(archive(), filter), vec![message("alice", JUN_11_2018)]);
    let filter = DateFilter { year: Some(2015), month: Some(6), day: Some(3) };
    assert_eq!(filter_date(archive(), filter), vec![message("bob", JUN_03_2015)]);
}

#[test]
fn date_filter_without_match_is_empty() {
    let filter = DateFilter { year: Some(2017), month: None, day: None };
    assert!(filter_date(archive(), filter).is_empty());
    let filter = DateFilter { year: Some(2018), month: Some(2), day: Some(29) };
    assert!(filter_date(archive(), filter).is_empty());
}

#[test]
fn date_filter_uses_the_utc_date() {
    // one millisecond before and at midnight UTC between 28 February and 1 March 2018
    let messages = vec![message("a", FEB_28_2018), message("b", FEB_28_2018 + 1)];
    let february = DateFilter { year: Some(2018), month: Some(2), day: Some(28) };
    assert_eq!(filter_date(messages.clone(), february), vec![message("a", FEB_28_2018)]);
    let march = DateFilter { year: Some(2018), month: Some(3), day: Some(1) };
    assert_eq!(filter_date(messages, march), vec![message("b", FEB_28_2018 + 1)]);
}

#[test]
fn date_filter_before_the_epoch() {
    let messages = vec![message("a", -1), message("b", 0)];
    let filter = DateFilter { year: Some(1969), month: Some(12), day: Some(31) };
    assert_eq!(filter_date(messages, filter), vec![message("a", -1)]);
}

#[test]
fn date_filter_accepts_date_by_each_policy() {
    let all = DateFilter { year: Some(2018), month: Some(2), day: Some(11) };
    assert!(all.accepts_date(2018, 2, 11));
    assert!(!all.accepts_date(2017, 2, 11));
    assert!(!all.accepts_date(2018, 3, 11));
    assert!(!all.accepts_date(2018, 2, 12));
    let year_month = DateFilter { year: Some(2018), month: Some(2), day: None };
    assert!(year_month.accepts_date(2018, 2, 28));
    assert!(!year_month.accepts_date(2018, 1, 28));
    let year_day = DateFilter { year: Some(2018), month: None, day: Some(11) };
    assert!(year_day.accepts_date(2018, 7, 11));
    assert!(!year_day.accepts_date(2018, 7, 12));
    let year = DateFilter { year: Some(2018), month: None, day: None };
    assert!(year.accepts_date(2018, 12, 31));
    assert!(!year.accepts_date(2019, 1, 1));
    let none = DateFilter { year: None, month: Some(2), day: Some(11) };
    assert!(none.accepts_date(1999, 9, 9));
}

#[test]
fn sender_and_date_filters_commute() {
    let filter = DateFilter { year: Some(2018), month: None, day: None };
    let one = filter_date(filter_sender(archive(), "alice"), filter);
    let other = filter_sender(filter_date(archive(), filter), "alice");
    assert_eq!(one, other);
    assert_eq!(one, vec![message("alice", FEB_11_2018), message("alice", JUN_11_2018)]);
}

#[test]
fn have_dates_tells_timestamps_outside_the_calendar() {
    assert!(have_dates(&archive()));
    assert!(have_dates(&[]));
    let mut messages = archive();
    messages.push(message("late", i64::MAX));
    assert!(!have_dates(&messages));
}
