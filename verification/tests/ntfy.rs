use algotrap::ext::ntfy::join;
use algotrap::ext::ntfy::NtfyError;
use algotrap::ext::ntfy::NtfyMessage;
use algotrap::ext::ntfy::NtfyRequest;
use algotrap::ext::yfinance::YfinanceInterval;

fn minimal() -> NtfyMessage {
    NtfyMessage::default().topic("alerts").title("BTC-USDT notable movements").message("{}")
}

#[test]
fn a_minimal_message_goes_to_the_public_server() {
    assert_eq!(
        minimal().request(),
        Ok(NtfyRequest {
            uri: "https://ntfy.sh/alerts".to_string(),
            body: "{}".to_string(),
            title: "BTC-USDT notable movements".to_string(),
            priority: None,
            tags: None,
            actions: None,
        })
    );
}

#[test]
fn a_full_message_fills_every_header() {
    let request = NtfyMessage::new("https://ntfy.example.org")
        .topic("alerts")
        .title("BTC-USDT notable movements")
        .message_template("Last stats:\n{{ range . }}- {{.}}{{ end }}")
        .message("{\"1h\":[]}")
        .priority(5)
        .tags(vec!["BTC-USDT".to_string(), "chart".to_string()])
        .actions(vec![
            vec!["view".to_string(), "Open chart".to_string(), "https://x.pages.dev/".to_string()],
            vec!["http".to_string(), "Mute".to_string()],
        ])
        .request();
    assert_eq!(
        request,
        Ok(NtfyRequest {
            uri: "https://ntfy.example.org/alerts?tpl=1&m=Last+stats%3A%0A%7B%7B+range+.+%7D%7D-+%7B%7B.%7D%7D%7B%7B+end+%7D%7D"
                .to_string(),
            body: "{\"1h\":[]}".to_string(),
            title: "BTC-USDT notable movements".to_string(),
            priority: Some("5".to_string()),
            tags: Some("BTC-USDT,chart".to_string()),
            actions: Some("view, Open chart, https://x.pages.dev/; http, Mute".to_string()),
        })
    );
}

#[test]
fn the_template_is_written_in_form_encoding() {
    let request = minimal().message_template("a b&c=d/é*-._~").request().unwrap();
    assert_eq!(request.uri, "https://ntfy.sh/alerts?tpl=1&m=a+b%26c%3Dd%2F%C3%A9*-._%7E");
    let request = minimal().message_template("").request().unwrap();
    assert_eq!(request.uri, "https://ntfy.sh/alerts?tpl=1&m=");
}

#[test]
fn compose_takes_the_template_as_it_is_given() {
    let request = minimal().compose(true, Some("x+y".to_string())).unwrap();
    assert_eq!(request.uri, "https://ntfy.sh/alerts?tpl=1&m=x+y");
    let request = minimal().message_template("ignored").compose(true, None).unwrap();
    assert_eq!(request.uri, "https://ntfy.sh/alerts");
    assert_eq!(
        minimal().compose(false, None),
        Err(NtfyError::Invalid { url: true, priority: false })
    );
}

#[test]
fn every_priority_from_1_to_5_is_written_as_its_digit() {
    for (priority, text) in [(1, "1"), (2, "2"), (3, "3"), (4, "4"), (5, "5")] {
        let request = minimal().priority(priority).request().unwrap();
        assert_eq!(request.priority, Some(text.to_string()));
    }
}

#[test]
fn a_priority_outside_1_to_5_is_refused() {
    for priority in [0, 6, 255] {
        assert_eq!(
            minimal().priority(priority).request(),
            Err(NtfyError::Invalid { url: false, priority: true })
        );
    }
}

#[test]
fn an_address_that_is_no_url_is_refused() {
    assert_eq!(
        minimal().url("not a url").request(),
        Err(NtfyError::Invalid { url: true, priority: false })
    );
    assert_eq!(
        NtfyMessage::new("").topic("t").title("t").message("m").request(),
        Err(NtfyError::Invalid { url: true, priority: false })
    );
    assert_eq!(
        minimal().url("ntfy.sh").priority(9).request(),
        Err(NtfyError::Invalid { url: true, priority: true })
    );
    // validity is checked before anything is missed
    assert_eq!(
        NtfyMessage::new("nowhere").request(),
        Err(NtfyError::Invalid { url: true, priority: false })
    );
    assert!(minimal().url("http://localhost:8080").request().is_ok());
}

#[test]
fn topic_title_and_message_are_missed_in_that_order() {
    assert_eq!(NtfyMessage::default().request(), Err(NtfyError::MissingTopic));
    assert_eq!(
        NtfyMessage::default().title("t").message("m").request(),
        Err(NtfyError::MissingTopic)
    );
    assert_eq!(NtfyMessage::default().topic("t").request(), Err(NtfyError::MissingTitle));
    assert_eq!(
        NtfyMessage::default().topic("t").message("m").request(),
        Err(NtfyError::MissingTitle)
    );
    assert_eq!(
        NtfyMessage::default().topic("t").title("t").request(),
        Err(NtfyError::MissingMessage)
    );
}

#[test]
fn a_later_setting_replaces_an_earlier_one() {
    let request = minimal()
        .topic("second")
        .title("other")
        .message("body")
        .priority(1)
        .priority(2)
        .tags(vec!["a".to_string()])
        .tags(vec![])
        .url("https://one.example")
        .url("https://two.example")
        .request()
        .unwrap();
    assert_eq!(request.uri, "https://two.example/second");
    assert_eq!(request.title, "other");
    assert_eq!(request.body, "body");
    assert_eq!(request.priority, Some("2".to_string()));
    assert_eq!(request.tags, Some("".to_string()));
}

#[test]
fn empty_lists_give_empty_headers() {
    let request = minimal().tags(vec![]).actions(vec![]).request().unwrap();
    assert_eq!(request.tags, Some("".to_string()));
    assert_eq!(request.actions, Some("".to_string()));
    let request = minimal().actions(vec![vec![], vec!["a".to_string()], vec![]]).request().unwrap();
    assert_eq!(request.actions, Some("; a; ".to_string()));
}

#[test]
fn join_puts_the_separator_between() {
    assert_eq!(join(&vec![], ","), "");
    assert_eq!(join(&vec!["a".to_string()], ","), "a");
    assert_eq!(join(&vec!["a".to_string(), "b".to_string(), "c".to_string()], ", "), "a, b, c");
    assert_eq!(join(&vec!["".to_string(), "".to_string()], ";"), ";");
    assert_eq!(join(&vec!["a".to_string(), "b".to_string()], ""), "ab");
}

#[test]
fn intervals_have_their_text_form() {
    let cases = [
        (YfinanceInterval::D1, "1d"),
        (YfinanceInterval::D5, "5d"),
        (YfinanceInterval::Mo1, "1mo"),
        (YfinanceInterval::Mo3, "3mo"),
        (YfinanceInterval::Mo6, "6mo"),
        (YfinanceInterval::Y1, "1y"),
        (YfinanceInterval::Y2, "2y"),
        (YfinanceInterval::Y5, "5y"),
        (YfinanceInterval::Y10, "10y"),
        (YfinanceInterval::Ytd, "ytd"),
        (YfinanceInterval::Max, "max"),
    ];
    for (interval, label) in cases {
        assert_eq!(interval.label(), label);
    }
}
