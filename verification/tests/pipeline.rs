use chrono::{TimeZone, Utc};
use messenger_parser::{
    create_link_info, filter_date, filter_sender, search_links_with_site_filter,
    search_links_without_filter, DateFilter, LinkInfo, Message, Share,
};

#[test]
#[allow(deprecated)]
fn search_without_filter() {
    let share1 = Share {
        link: Some(String::from("https://www.youtube.com/watch?v=aJUQO9l7k5s")),
    };
    let share2 = Share {
        link: Some(String::from("https://www.youtube.com/watch?v=dazedazed")),
    };
    let message1 = Message {
        sender_name: String::from("toto"),
        share: Some(share1),
        content: Some(String::from("")),
        timestamp_ms: 122,
    };
    let message2 = Message {
        sender_name: String::from("toto"),
        share: None,
        content: Some(String::from("")),
        timestamp_ms: 122,
    };
    let message3 = Message {
        sender_name: String::from("toto"),
        share: Some(share2),
        content: Some(String::from("")),
        timestamp_ms: 122,
    };
    let link1 = LinkInfo {
        sender_name: String::from("toto"),
        date: Utc.timestamp_millis(122).format("%d-%m-%Y %H:%M:%S").to_string(),
        link: String::from("https://www.youtube.com/watch?v=aJUQO9l7k5s"),
    };
    let link2 = LinkInfo {
        sender_name: String::from("toto"),
        date: Utc.timestamp_millis(122).format("%d-%m-%Y %H:%M:%S").to_string(),
        link: String::from("https://www.youtube.com/watch?v=dazedazed"),
    };

    assert_eq!(
        vec![link1, link2],
        search_links_without_filter(&vec![message1, message2, message3])
    );
}

#[test]
#[allow(deprecated)]
fn search_with_filter() {
    let share1 = Share {
        link: Some(String::from("https://www.youtube.com/watch?v=aJUQO9l7k5s")),
    };
    let share2 = Share {
        link: Some(String::from("https://www.reddit.com/r/france")),
    };
    let message1 = Message {
        sender_name: String::from("toto"),
        share: Some(share1),
        content: Some(String::from("")),
        timestamp_ms: 122,
    };
    let message2 = Message {
        sender_name: String::from("toto"),
        share: None,
        content: Some(String::from("")),
        timestamp_ms: 122,
    };
    let message3 = Message {
        sender_name: String::from("toto"),
        share: Some(share2),
        content: Some(String::from("")),
        timestamp_ms: 122,
    };
    let link1 = LinkInfo {
        sender_name: String::from("toto"),
        date: Utc.timestamp_millis(122).format("%d-%m-%Y %H:%M:%S").to_string(),
        link: String::from("https://www.reddit.com/r/france"),
    };

    assert_eq!(
        vec![link1],
        search_links_with_site_filter(
            &vec![message1, message2, message3],
            String::from("reddit")
        )
    );
}

#[test]
fn filter_sender_test() {
    let message1 = Message {
        sender_name: String::from("toto"),
        share: None,
        content: Some(String::from("")),
        timestamp_ms: 122,
    };
    let message2 = Message {
        sender_name: String::from("foo"),
        share: None,
        content: Some(String::from("")),
        timestamp_ms: 122,
    };
    let message3 = Message {
        sender_name: String::from("toto"),
        share: None,
        content: Some(String::from("")),
        timestamp_ms: 122,
    };

    assert_eq!(
        vec![message1.clone(), message3.clone()],
        filter_sender(vec![message1, message2, message3], "toto")
    );
}

#[test]
fn filter_date_test() {
    let message1 = Message {
        sender_name: String::from("toto"),
        share: None,
        content: Some(String::from("")),
        timestamp_ms: 1518370388967,
    };
    let message2 = Message {
        sender_name: String::from("foo"),
        share: None,
        content: Some(String::from("")),
        timestamp_ms: 1433346000259,
    };
    let message3 = Message {
        sender_name: String::from("toto"),
        share: None,
        content: Some(String::from("")),
        timestamp_ms: 1518370850974,
    };
    let date_filter = DateFilter {
        year: Some(2018),
        month: Some(2),
        day: Some(11),
    };

    assert_eq!(
        vec![message1.clone(), message3.clone()],
        filter_date(vec![message1, message2, message3], date_filter)
    );
}

#[test]
#[allow(deprecated)]
fn create_link_info_test() {
    let link = LinkInfo {
        sender_name: String::from("toto"),
        date: Utc.timestamp_millis(122).format("%d-%m-%Y %H:%M:%S").to_string(),
        link: String::from("https://www.youtube.com/watch?v=aJUQO9l7k5s"),
    };

    assert_eq!(
        link,
        create_link_info(
            String::from("toto"),
            122,
            String::from("https://www.youtube.com/watch?v=aJUQO9l7k5s")
        )
    );
}
