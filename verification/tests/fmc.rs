use captracker::fmc::{
    find_payload, parse_page, read_outcome, space, subscribe, PollError, PollerAction,
    SLEEP_SECONDS,
};
use captracker::text::chars_of;
use captracker::Update;

fn by_the_standard_library(text: &str) -> Option<String> {
    text.lines()
        .find_map(|line| line.trim().strip_prefix("var ridersArray = "))
        .map(|s| s.to_owned())
}

fn value(text: &str) -> serde_json::Value {
    serde_json::from_str(text).unwrap()
}

#[test]
fn chars_of_gives_every_character() {
    assert_eq!(chars_of(""), Vec::<char>::new());
    assert_eq!(chars_of("aé\u{3000}z"), vec!['a', 'é', '\u{3000}', 'z']);
}

#[test]
fn space_agrees_with_the_standard_library() {
    let mut n: u32 = 0;
    while n <= 0x11_0000 {
        if let Some(c) = char::from_u32(n) {
            assert_eq!(space(c), c.is_whitespace(), "{:x}", n);
        }
        n += 1;
    }
}

#[test]
fn find_payload_cuts_the_rest_of_the_line() {
    assert_eq!(
        find_payload("<script>\n  var ridersArray = {\"r1\":{}};  \r\n</script>"),
        Some("{\"r1\":{}};".to_owned())
    );
    assert_eq!(find_payload("var ridersArray = 1"), Some("1".to_owned()));
    assert_eq!(find_payload("var ridersArray =  x"), Some(" x".to_owned()));
    assert_eq!(find_payload("var ridersArray = "), None);
    assert_eq!(find_payload("var ridersArray = \n"), None);
    assert_eq!(find_payload("var ridersArray ="), None);
    assert_eq!(find_payload(""), None);
    assert_eq!(find_payload("x var ridersArray = 1"), None);
    assert_eq!(
        find_payload("var ridersArray = first\nvar ridersArray = second"),
        Some("first".to_owned())
    );
}

#[test]
fn find_payload_agrees_with_the_standard_library() {
    let samples = [
        "",
        "\n",
        "\n\n",
        "var ridersArray = {}",
        "var ridersArray = {}\n",
        "\nvar ridersArray = {}",
        "a\nb\nvar ridersArray = [1, 2]\nc",
        "a\r\n\t var ridersArray = {\"a\": 1} \t\r\nb",
        "\u{a0}\u{2003}var ridersArray = é\u{3000}\u{85}",
        "var ridersArray = \u{200b}",
        "var ridersArray = a\rb",
        "var ridersArray =\n{}",
        "var ridersArray = \u{1680}\n  var ridersArray = later",
        "var  ridersArray = {}",
        "Var ridersArray = {}",
        "var ridersArray = ",
        " var ridersArray = x",
        "var ridersArray = x ",
        "var ridersArray = var ridersArray = ",
        "\u{b}var ridersArray = vt\u{c}",
        "\u{1c}var ridersArray = fs",
    ];
    for s in samples {
        assert_eq!(find_payload(s), by_the_standard_library(s), "{:?}", s);
    }
}

#[test]
fn parse_page_reads_the_riders() {
    let page = "<html>\nvar x = 1;\n   var ridersArray = {\"r1\": {\"teamNumber\": \"7\", \"latitude\": 45.0, \"longitude\": 6.0}}; // live\n</html>";
    let expected = value("{\"r1\": {\"teamNumber\": \"7\", \"latitude\": 45.0, \"longitude\": 6.0}}");
    assert_eq!(parse_page(page), Ok(expected));
    assert_eq!(parse_page("var ridersArray = [1, 2] [3]"), Ok(value("[1, 2]")));
    assert_eq!(parse_page("var ridersArray = null"), Ok(serde_json::Value::Null));
}

#[test]
fn parse_page_says_why_there_is_no_snapshot() {
    assert_eq!(parse_page("<html></html>"), Err(PollError::MissingLine));
    assert_eq!(parse_page(""), Err(PollError::MissingLine));
    assert_eq!(parse_page("var ridersArray = "), Err(PollError::MissingLine));
    assert_eq!(parse_page("var ridersArray = {\"r1\": "), Err(PollError::Malformed));
    assert_eq!(parse_page("var ridersArray = nothing"), Err(PollError::Malformed));
    assert_eq!(parse_page("var ridersArray = 12x"), Err(PollError::Malformed));
}

#[test]
fn read_outcome_maps_each_case() {
    assert_eq!(read_outcome(None), Err(PollError::NoJson));
    assert_eq!(read_outcome(Some(Ok(value("3")))), Ok(value("3")));
    let failure = serde_json::from_str::<serde_json::Value>("{").unwrap_err();
    assert_eq!(read_outcome(Some(Err(failure))), Err(PollError::Malformed));
}

#[test]
fn subscribe_starts_with_a_fetch_of_the_live_page() {
    let poller = subscribe("tour2024");
    assert_eq!(poller.url(), "https://www2.followmychallenge.com/live/tour2024/");
    assert_eq!(poller.next(), PollerAction::Fetch);
    assert_eq!(*poller.current(), Update::Pending);
    assert_eq!(subscribe("").url(), "https://www2.followmychallenge.com/live//");
}

#[test]
fn every_fetch_is_followed_by_the_same_pause() {
    assert_eq!(SLEEP_SECONDS, 60);
    let mut poller = subscribe("tour2024");
    for round in 0..5 {
        assert_eq!(poller.next(), PollerAction::Fetch);
        if round % 2 == 0 {
            assert!(!poller.fetched(Err(PollError::Malformed)));
        } else {
            assert!(poller.fetched(Ok(value("{}"))));
        }
        assert_eq!(poller.next(), PollerAction::Sleep(60));
        poller.woke();
    }
    assert_eq!(poller.next(), PollerAction::Fetch);
}

#[test]
fn failed_fetches_leave_the_snapshot_as_it_was() {
    let mut poller = subscribe("tour2024");
    let first = value("{\"r1\": {\"teamNumber\": \"7\"}}");
    assert!(poller.fetched(Ok(first.clone())));
    assert_eq!(*poller.current(), Update::New(first.clone()));
    poller.woke();
    for why in [PollError::MissingLine, PollError::NoJson, PollError::Malformed] {
        assert_eq!(poller.next(), PollerAction::Fetch);
        assert!(!poller.fetched(Err(why)));
        assert_eq!(*poller.current(), Update::New(first.clone()));
        assert_eq!(poller.next(), PollerAction::Sleep(SLEEP_SECONDS));
        poller.woke();
    }
    let second = value("{\"r1\": {\"teamNumber\": \"8\"}}");
    assert!(poller.fetched(Ok(second.clone())));
    assert_eq!(*poller.current(), Update::New(second));
}

#[test]
fn failed_fetches_before_the_first_snapshot_leave_pending() {
    let mut poller = subscribe("tour2024");
    for _ in 0..3 {
        assert!(!poller.fetched(Err(PollError::MissingLine)));
        assert_eq!(*poller.current(), Update::Pending);
        poller.woke();
    }
    assert!(poller.fetched(Ok(value("[]"))));
    assert_eq!(*poller.current(), Update::New(value("[]")));
}

#[test]
fn an_outcome_that_comes_during_the_pause_is_dropped() {
    let mut poller = subscribe("tour2024");
    assert!(poller.fetched(Ok(value("1"))));
    assert!(!poller.fetched(Ok(value("2"))));
    assert_eq!(*poller.current(), Update::New(value("1")));
    assert_eq!(poller.next(), PollerAction::Sleep(60));
}
