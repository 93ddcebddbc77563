use cordial_runtime::bloxstrap_rpc::{envelope_command, parse_envelope, rich_presence};
use cordial_runtime::bloxstrap_rpc::{
    parse_line, Command, Image, Presence, RichPresence, Slot, Update, TEXT_FIELD_LIMIT,
};
use cordial_runtime::json::Json;

fn one(body: &str) -> Command {
    parse_line(&format!("[BloxstrapRPC] {body}")).unwrap().unwrap()
}

fn rich(line: &str) -> RichPresence {
    match parse_line(line).unwrap() {
        Some(Command::SetRichPresence(rp)) => *rp,
        other => panic!("expected a rich presence command, got {other:?}"),
    }
}

/// The marker never arrives at the start of a line in practice: the engine
/// has already prefixed its timestamp and channel by then.
#[test]
fn finds_the_marker_after_the_engines_own_prefix() {
    let line = "2026-08-30T00:24:05.123Z,0.123456,f1d57,6 [FLog::Output] \
                [BloxstrapRPC] {\"command\":\"SetRichPresence\",\"data\":{\"details\":\"Room 2\"}}";
    let rp = rich(line);
    assert_eq!(rp.details, Update::SetTo("Room 2".into()));
}

#[test]
fn a_line_without_the_marker_is_not_an_error() {
    assert_eq!(parse_line("[FLog::Output] just a game printing").unwrap(), None);
}

/// The three string states the protocol distinguishes, and the fourth that
/// comes from the field being absent.
#[test]
fn absent_empty_and_reset_are_three_different_things() {
    let mut p = Presence::default();

    let cmd = one(r#"{"command":"SetRichPresence","data":{"details":"In the lobby"}}"#);
    p.apply(cmd);
    assert_eq!(p.details, Slot::Value("In the lobby".into()));

    // Absent: the previous value stands.
    p.apply(one(r#"{"command":"SetRichPresence","data":{"state":"Team A"}}"#));
    assert_eq!(p.details, Slot::Value("In the lobby".into()));
    assert_eq!(p.state, Slot::Value("Team A".into()));

    // Empty string: show nothing.
    p.apply(one(r#"{"command":"SetRichPresence","data":{"details":""}}"#));
    assert_eq!(p.details, Slot::Empty);

    // The sentinel: back to Cordial's own value.
    p.apply(one(r#"{"command":"SetRichPresence","data":{"details":"<reset>"}}"#));
    assert_eq!(p.details, Slot::Default);
}

#[test]
fn images_clear_and_reset_by_flag_rather_than_by_sentinel() {
    let mut p = Presence::default();
    p.apply(one(
        r#"{"command":"SetRichPresence","data":{"largeImage":{"assetId":10630555127,"hoverText":"hi"}}}"#,
    ));
    assert_eq!(
        p.large_image,
        Slot::Value(Image { asset_id: "10630555127".into(), hover_text: Some("hi".into()) })
    );

    p.apply(one(r#"{"command":"SetRichPresence","data":{"largeImage":{"clear":true}}}"#));
    assert_eq!(p.large_image, Slot::Empty);

    // Cleared stays cleared through a command that does not mention it.
    p.apply(one(r#"{"command":"SetRichPresence","data":{"state":"x"}}"#));
    assert_eq!(p.large_image, Slot::Empty);

    p.apply(one(r#"{"command":"SetRichPresence","data":{"largeImage":{"reset":true}}}"#));
    assert_eq!(p.large_image, Slot::Default);
}

/// An asset id is a path component downstream, so it is digits or nothing.
#[test]
fn a_non_numeric_asset_id_is_refused() {
    let err = parse_line(
        r#"[BloxstrapRPC] {"command":"SetRichPresence","data":{"largeImage":{"assetId":"../../etc"}}}"#,
    )
    .unwrap_err();
    assert!(err.contains("assetId"), "{err}");
}

#[test]
fn the_string_form_of_an_asset_id_is_accepted() {
    let rp = rich(
        r#"[BloxstrapRPC] {"command":"SetRichPresence","data":{"smallImage":{"assetId":"13409122839"}}}"#,
    );
    assert_eq!(
        rp.small_image,
        Update::SetTo(Image { asset_id: "13409122839".into(), hover_text: None })
    );
}

/// A byte-slice behind a length check panics on a multi-byte boundary; the
/// clamp counts characters.
#[test]
fn an_over_long_field_is_clamped_on_a_character_boundary() {
    let long = "é".repeat(200);
    let line = format!(
        r#"[BloxstrapRPC] {{"command":"SetRichPresence","data":{{"details":"{long}"}}}}"#
    );
    let rp = rich(&line);
    let Update::SetTo(details) = &rp.details else { panic!("expected a set") };
    assert_eq!(details.chars().count(), TEXT_FIELD_LIMIT);
    assert_eq!(rp.clamped, vec!["details"]);
}

#[test]
fn launch_data_comes_through_untouched() {
    let Some(Command::SetLaunchData(d)) = parse_line(
        r#"[BloxstrapRPC] {"command":"SetLaunchData","data":"{\"roomId\": 2}"}"#,
    )
    .unwrap() else {
        panic!("expected launch data");
    };
    assert_eq!(d, r#"{"roomId": 2}"#);
}

/// A typo has to fail as unknown rather than fall through to something that
/// happens to pass.
#[test]
fn an_unknown_command_is_refused() {
    let err = parse_line(r#"[BloxstrapRPC] {"command":"SetRichPresense","data":{}}"#)
        .unwrap_err();
    assert!(err.contains("SetRichPresense"), "{err}");
}

#[test]
fn malformed_json_is_refused_rather_than_ignored() {
    assert!(parse_line("[BloxstrapRPC] not json at all").is_err());
    assert!(parse_line("[BloxstrapRPC]").is_err());
}

#[test]
fn a_command_that_asks_for_nothing_is_recognisable_as_such() {
    let rp = rich(r#"[BloxstrapRPC] {"command":"SetRichPresence","data":{}}"#);
    assert!(rp.is_empty());
}

// ---------------------------------------------------------------- more cases

#[test]
fn each_refusal_says_what_was_wrong() {
    let cases = [
        ("[BloxstrapRPC]   ", "marker with no envelope".to_string()),
        ("[BloxstrapRPC] [1, 2]", "envelope is not an object".to_string()),
        ("[BloxstrapRPC] {\"command\": 3}", "envelope has no string command".to_string()),
        (
            "[BloxstrapRPC] {\"command\":\"SetRichPresence\",\"data\":[]}",
            "data is not an object".to_string(),
        ),
        ("[BloxstrapRPC] {\"command\":\"SetLaunchData\"}", "SetLaunchData with no data".to_string()),
        (
            "[BloxstrapRPC] {\"command\":\"SetLaunchData\",\"data\":{}}",
            "SetLaunchData data is not a string".to_string(),
        ),
        (
            "[BloxstrapRPC] {\"command\":\"Nope\"}",
            "unknown command \"Nope\"".to_string(),
        ),
        (
            "[BloxstrapRPC] {\"command\":\"SetRichPresence\",\"data\":{\"details\":5}}",
            "details is a number, expected a string".to_string(),
        ),
        (
            "[BloxstrapRPC] {\"command\":\"SetRichPresence\",\"data\":{\"timeStart\":1.5}}",
            "timeStart is not a whole number of seconds".to_string(),
        ),
        (
            "[BloxstrapRPC] {\"command\":\"SetRichPresence\",\"data\":{\"timeEnd\":\"soon\"}}",
            "timeEnd is a string, expected a number".to_string(),
        ),
        (
            "[BloxstrapRPC] {\"command\":\"SetRichPresence\",\"data\":{\"timeEnd\":true}}",
            "timeEnd is a boolean, expected a number".to_string(),
        ),
        (
            "[BloxstrapRPC] {\"command\":\"SetRichPresence\",\"data\":{\"largeImage\":7}}",
            "largeImage is not an object".to_string(),
        ),
        (
            "[BloxstrapRPC] {\"command\":\"SetRichPresence\",\"data\":{\"smallImage\":{\"assetId\":[]}}}",
            "smallImage.assetId is an array, expected a number or string".to_string(),
        ),
        (
            "[BloxstrapRPC] {\"command\":\"SetRichPresence\",\"data\":{\"smallImage\":{\"assetId\":\"\"}}}",
            "smallImage.assetId is not an asset id".to_string(),
        ),
        (
            "[BloxstrapRPC] {\"command\":\"SetRichPresence\",\"data\":{\"smallImage\":{\"assetId\":1,\"hoverText\":null,\"x\":1}}}",
            String::new(),
        ),
        (
            "[BloxstrapRPC] {\"command\":\"SetRichPresence\",\"data\":{\"smallImage\":{\"assetId\":1,\"hoverText\":false}}}",
            "smallImage.hoverText is a boolean, expected a string".to_string(),
        ),
    ];
    for (line, want) in cases {
        match parse_line(line) {
            Err(e) => assert_eq!(e, want, "{line}"),
            Ok(c) => assert!(want.is_empty(), "{line} parsed as {c:?}"),
        }
    }
    let bad = parse_line("[BloxstrapRPC] not json").unwrap_err();
    assert!(bad.starts_with("bad envelope: "), "{bad}");
}

#[test]
fn times_take_numbers_and_the_two_string_sentinels() {
    let rp = rich(
        "[BloxstrapRPC] {\"command\":\"SetRichPresence\",\"data\":{\"timeStart\":-5,\"timeEnd\":\"<reset>\"}}",
    );
    assert_eq!(rp.time_start, Update::SetTo(-5));
    assert_eq!(rp.time_end, Update::Reset);
    let rp = rich("[BloxstrapRPC] {\"command\":\"SetRichPresence\",\"data\":{\"timeStart\":\"\"}}");
    assert_eq!(rp.time_start, Update::Clear);
    assert!(!rp.is_empty());
}

#[test]
fn a_null_data_asks_for_nothing() {
    let rp = rich("[BloxstrapRPC] {\"command\":\"SetRichPresence\",\"data\":null}");
    assert!(rp.is_empty());
    assert!(rp.clamped.is_empty());
    let rp = rich("[BloxstrapRPC] {\"command\":\"SetRichPresence\"}");
    assert!(rp.is_empty());
}

#[test]
fn a_hover_text_is_clamped_and_an_empty_one_is_none() {
    let long = "x".repeat(300);
    let line = format!(
        "[BloxstrapRPC] {{\"command\":\"SetRichPresence\",\"data\":{{\"largeImage\":{{\"assetId\":\"1\",\"hoverText\":\"{long}\"}},\"smallImage\":{{\"assetId\":2,\"hoverText\":\"\"}}}}}}"
    );
    let rp = rich(&line);
    let Update::SetTo(large) = &rp.large_image else { panic!("expected a set") };
    assert_eq!(large.hover_text.as_deref().map(|h| h.chars().count()), Some(TEXT_FIELD_LIMIT));
    assert_eq!(rp.small_image, Update::SetTo(Image { asset_id: "2".into(), hover_text: None }));
    assert!(rp.clamped.is_empty(), "a hover text is not reported as clamped");
}

#[test]
fn clear_wins_over_reset_on_an_image() {
    let rp = rich(
        "[BloxstrapRPC] {\"command\":\"SetRichPresence\",\"data\":{\"largeImage\":{\"clear\":true,\"reset\":true}}}",
    );
    assert_eq!(rp.large_image, Update::Clear);
    let rp = rich(
        "[BloxstrapRPC] {\"command\":\"SetRichPresence\",\"data\":{\"largeImage\":{\"hoverText\":\"x\"}}}",
    );
    assert_eq!(rp.large_image, Update::Keep, "no asset id keeps the image");
}

#[test]
fn launch_data_is_returned_and_leaves_the_presence_alone() {
    let mut p = Presence::new();
    p.apply(one(r#"{"command":"SetRichPresence","data":{"details":"d"}}"#));
    let before = p.clone();
    let got = p.apply(one(r#"{"command":"SetLaunchData","data":"abc"}"#));
    assert_eq!(got, Some("abc".to_string()));
    assert_eq!(p, before);
}

#[test]
fn applying_the_same_command_twice_is_applying_it_once() {
    let body = r#"{"command":"SetRichPresence","data":{"details":"a","state":"","timeStart":3,"largeImage":{"reset":true}}}"#;
    let mut once = Presence::new();
    once.apply(one(body));
    let mut twice = once.clone();
    twice.apply(one(body));
    assert_eq!(once, twice);
}

#[test]
fn a_slot_reads_as_text_and_as_a_value() {
    let d: Slot<String> = Slot::Default;
    let e: Slot<String> = Slot::Empty;
    let v: Slot<String> = Slot::Value("hi".into());
    assert_eq!(d.as_text(), None);
    assert_eq!(e.as_text(), Some(""));
    assert_eq!(v.as_text(), Some("hi"));
    assert_eq!(d.value(), None);
    assert_eq!(e.value(), None);
    assert_eq!(v.value(), Some(&"hi".to_string()));
}

fn member<'a>(payload: &'a Json, key: &str) -> Option<&'a Json> {
    match payload {
        Json::Object(members) => members.iter().find(|(k, _)| k == key).map(|(_, v)| v),
        _ => panic!("a payload is an object"),
    }
}

#[test]
fn a_payload_carries_only_what_the_game_set() {
    let mut p = Presence::new();
    p.apply(one(r#"{"command":"SetRichPresence","data":{"details":"Fighting","state":"","timeStart":1788200000,"timeEnd":-1,"largeImage":{"assetId":1}}}"#));
    let payload = p.to_payload();
    assert_eq!(member(&payload, "details"), Some(&Json::String("Fighting".into())));
    assert_eq!(member(&payload, "state"), Some(&Json::String(String::new())));
    assert_eq!(
        member(&payload, "start"),
        Some(&Json::Number("1788200000".into(), Some(1788200000)))
    );
    assert_eq!(member(&payload, "end"), Some(&Json::Number("-1".into(), Some(-1))));
    assert_eq!(member(&payload, "largeImage"), None);
    assert_eq!(Presence::new().to_payload(), Json::Object(Vec::new()));
}

#[test]
fn a_parsed_envelope_is_read_as_the_text_one_is() {
    let body = r#"{"command":"SetRichPresence","data":{"details":"Exploring","timeStart":5}}"#;
    let value = Json::Object(vec![
        ("command".to_string(), Json::String("SetRichPresence".to_string())),
        (
            "data".to_string(),
            Json::Object(vec![
                ("details".to_string(), Json::String("Exploring".to_string())),
                ("timeStart".to_string(), Json::Number("5".to_string(), Some(5))),
            ]),
        ),
    ]);
    assert_eq!(envelope_command(&value), parse_envelope(body));
    let Ok(Command::SetRichPresence(rp)) = envelope_command(&value) else { panic!() };
    assert_eq!(rp.details, Update::SetTo("Exploring".to_string()));
    assert_eq!(rp.time_start, Update::SetTo(5));
    assert_eq!(rp.state, Update::Keep);
    assert_eq!(
        rich_presence(&vec![("timeEnd".to_string(), Json::Bool(true))]).err(),
        Some("timeEnd is a boolean, expected a number".to_string())
    );
    assert_eq!(
        envelope_command(&Json::Array(Vec::new())).err(),
        Some("envelope is not an object".to_string())
    );
}
