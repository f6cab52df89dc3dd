use messenger_parser::{
    parse_launching_mode, parse_messages, Config, DateFilter, JsonValue, LaunchingMode, LinkInfo,
    Message, Share, MISSING_FILENAME,
};

fn words(list: &[&str]) -> Vec<String> {
    list.iter().map(|w| String::from(*w)).collect()
}

#[test]
fn config_new_keeps_what_it_is_given() {
    let made = Config::new(String::from("message.json"), Some(String::from("reddit")), None)
        .expect("a configuration");
    assert_eq!(made.filename, "message.json");
    assert_eq!(made.site, Some(String::from("reddit")));
    assert_eq!(made.sender, None);
}

#[test]
fn config_from_command_line_with_site() {
    let made = Config::new_cli(
        words(&["prog", "cli", "message.json", "reddit", "ignored"]),
        Some(String::from("toto")),
    )
    .expect("a configuration");
    assert_eq!(made.filename, "message.json");
    assert_eq!(made.site, Some(String::from("reddit")));
    assert_eq!(made.sender, Some(String::from("toto")));
}

#[test]
fn config_from_command_line_without_site() {
    let made = Config::new_cli(words(&["prog", "cli", "message.json"]), None).expect("a configuration");
    assert_eq!(made.filename, "message.json");
    assert_eq!(made.site, None);
    assert_eq!(made.sender, None);
}

#[test]
fn config_from_command_line_without_filename() {
    let failed = Config::new_cli(words(&["prog", "cli"]), Some(String::from("toto")));
    assert_eq!(failed.err(), Some("Didn't get a query string"));
    assert_eq!(Config::new_cli(words(&["prog"]), None).err(), Some(MISSING_FILENAME));
    assert_eq!(Config::new_cli(Vec::new(), None).err(), Some(MISSING_FILENAME));
}

#[test]
fn launching_mode_is_the_second_word() {
    assert_eq!(parse_launching_mode(&words(&["prog", "server"])), Some(LaunchingMode::Server));
    assert_eq!(parse_launching_mode(&words(&["prog", "cli", "message.json"])), Some(LaunchingMode::Cli));
    assert_eq!(parse_launching_mode(&words(&["server", "other"])), None);
    assert_eq!(parse_launching_mode(&words(&["prog", "Server"])), None);
    assert_eq!(parse_launching_mode(&words(&["prog", ""])), None);
    assert_eq!(parse_launching_mode(&words(&["prog"])), None);
    assert_eq!(parse_launching_mode(&Vec::new()), None);
}

#[test]
fn date_filter_is_requested_when_a_field_is_set() {
    let none = DateFilter { year: None, month: None, day: None };
    assert!(none.requested().is_none());
    let day = DateFilter { year: None, month: None, day: Some(3) };
    let asked = day.requested().expect("a criterion");
    assert_eq!((asked.year, asked.month, asked.day), (None, None, Some(3)));
    let month = DateFilter { year: None, month: Some(2), day: None };
    assert!(month.requested().is_some());
    let year = DateFilter { year: Some(2018), month: None, day: None };
    let asked = year.requested().expect("a criterion");
    assert_eq!((asked.year, asked.month, asked.day), (Some(2018), None, None));
}

// 11 February 2018, 17:33:08.967 UTC
const FEB_11_2018: i64 = 1518370388967;
// 3 June 2015, 15:40:00.259 UTC
const JUN_03_2015: i64 = 1433346000259;

fn archive() -> JsonValue {
    JsonValue {
        messages: vec![
            Message {
                sender_name: String::from("alice"),
                content: None,
                timestamp_ms: FEB_11_2018,
                share: Some(Share { link: Some(String::from("https://www.reddit.com/r/rust")) }),
            },
            Message {
                sender_name: String::from("bob"),
                content: Some(String::from("look at https://www.youtube.com/watch?v=1 please")),
                timestamp_ms: FEB_11_2018,
                share: None,
            },
            Message {
                sender_name: String::from("alice"),
                content: Some(String::from("and http://reddit.com/old http://b.com")),
                timestamp_ms: JUN_03_2015,
                share: None,
            },
            Message {
                sender_name: String::from("bob"),
                content: Some(String::from("no link")),
                timestamp_ms: JUN_03_2015,
                share: None,
            },
            Message {
                sender_name: String::from("alice bob"),
                content: Some(String::from("https://hidden.example")),
                timestamp_ms: JUN_03_2015,
                share: Some(Share { link: None }),
            },
        ],
    }
}

fn config(site: Option<&str>, sender: Option<&str>) -> Config {
    Config {
        filename: String::from("message.json"),
        site: site.map(String::from),
        sender: sender.map(String::from),
    }
}

fn link(sender: &str, date: &str, link: &str) -> LinkInfo {
    LinkInfo {
        sender_name: String::from(sender),
        date: String::from(date),
        link: String::from(link),
    }
}

#[test]
fn pipeline_without_criteria_extracts_every_link() {
    assert_eq!(
        parse_messages(archive(), config(None, None), None),
        vec![
            link("alice", "11-02-2018 17:33:08", "https://www.reddit.com/r/rust"),
            link("bob", "11-02-2018 17:33:08", "https://www.youtube.com/watch?v=1"),
            link("alice", "03-06-2015 15:40:00", "http://reddit.com/old"),
        ]
    );
}

#[test]
fn pipeline_with_site() {
    assert_eq!(
        parse_messages(archive(), config(Some("reddit"), None), None),
        vec![
            link("alice", "11-02-2018 17:33:08", "https://www.reddit.com/r/rust"),
            link("alice", "03-06-2015 15:40:00", "http://reddit.com/old"),
        ]
    );
}

#[test]
fn pipeline_with_sender() {
    assert_eq!(
        parse_messages(archive(), config(None, Some("bob")), None),
        vec![link("bob", "11-02-2018 17:33:08", "https://www.youtube.com/watch?v=1")]
    );
}

#[test]
fn pipeline_with_date() {
    let filter = DateFilter { year: Some(2015), month: Some(6), day: None };
    assert_eq!(
        parse_messages(archive(), config(None, None), Some(filter)),
        vec![link("alice", "03-06-2015 15:40:00", "http://reddit.com/old")]
    );
}

#[test]
fn pipeline_with_all_criteria() {
    let filter = DateFilter { year: Some(2018), month: None, day: Some(11) };
    assert_eq!(
        parse_messages(archive(), config(Some("reddit"), Some("alice")), Some(filter)),
        vec![link("alice", "11-02-2018 17:33:08", "https://www.reddit.com/r/rust")]
    );
    let filter = DateFilter { year: Some(2018), month: None, day: Some(11) };
    assert!(parse_messages(archive(), config(Some("reddit"), Some("bob")), Some(filter)).is_empty());
}

#[test]
fn pipeline_with_date_filter_without_year_is_as_without_date_filter() {
    let filter = DateFilter { year: None, month: Some(6), day: Some(3) };
    assert_eq!(
        parse_messages(archive(), config(Some("reddit"), Some("alice")), Some(filter)),
        parse_messages(archive(), config(Some("reddit"), Some("alice")), None)
    );
    assert_eq!(
        parse_messages(archive(), config(None, None), Some(filter)),
        parse_messages(archive(), config(None, None), None)
    );
}

#[test]
fn pipeline_without_match_is_empty() {
    assert!(parse_messages(archive(), config(Some("example.net"), None), None).is_empty());
    assert!(parse_messages(archive(), config(None, Some("carol")), None).is_empty());
    assert!(parse_messages(JsonValue { messages: Vec::new() }, config(None, None), None).is_empty());
}
