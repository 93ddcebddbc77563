use cordial_runtime::client_settings::set_overrides;
use cordial_runtime::client_settings::{
    apply_overrides, first_step, is_roblox_flag, load, load_reporting, merge, next_step,
    plausible, Source, Step, URL,
};
use cordial_runtime::json::Json;

#[test]
fn cordial_owned_keys_do_not_reach_roblox_settings() {
    // `CordialGraphicsBackend` asks Cordial whether to offer the engine a
    // Vulkan loader; it rides the flag layering, it is not a FastFlag.
    assert!(!is_roblox_flag("CordialGraphicsBackend"));
    // Roblox's own prefixes are untouched.
    for key in ["DFFlagRbxTransportUseRtcioRna", "FFlagDebugDisplayFPS", "FStringTest"] {
        assert!(is_roblox_flag(key), "{key}");
    }
}

fn pairs(list: Vec<(&str, Json)>) -> Vec<(String, Json)> {
    list.into_iter().map(|(k, v)| (k.to_string(), v)).collect()
}

#[test]
fn an_override_replaces_an_existing_flag() {
    let doc = r#"{"applicationSettings":{"DFFlagX":"True","FFlagY":"False"}}"#;
    let (out, n) = merge(doc, pairs(vec![("DFFlagX", Json::Bool(false))])).unwrap();
    assert_eq!(n, 1);
    let v: serde_json::Value = serde_json::from_str(&out).unwrap();
    assert_eq!(v["applicationSettings"]["DFFlagX"], "false");
    // untouched flags survive
    assert_eq!(v["applicationSettings"]["FFlagY"], "False");
}

#[test]
fn non_string_values_are_converted_rather_than_rejected() {
    // Roblox stores every value as a string, so a bare `7` or `true` has to
    // work rather than be a silent no-op.
    let doc = r#"{"applicationSettings":{}}"#;
    let (out, _) = merge(
        doc,
        pairs(vec![
            ("FIntA", Json::Number("7".to_string(), Some(7))),
            ("FFlagB", Json::Bool(true)),
        ]),
    )
    .unwrap();
    let v: serde_json::Value = serde_json::from_str(&out).unwrap();
    assert_eq!(v["applicationSettings"]["FIntA"], "7");
    assert_eq!(v["applicationSettings"]["FFlagB"], "true");
}

#[test]
fn a_document_without_application_settings_is_refused() {
    assert!(merge(
        r#"{"nope":{}}"#,
        pairs(vec![("FFlagX", Json::Number("1".to_string(), Some(1)))])
    )
    .is_err());
}

#[test]
fn an_error_body_is_not_mistaken_for_settings() {
    // What the CDN actually returns for a bad application name. It is valid
    // JSON, so only the shape check distinguishes it.
    let err = r#"{"errors":[{"code":1,"message":"The application name is invalid."}]}"#;
    assert!(!plausible(err));
    assert!(plausible(r#"{"applicationSettings":{"FFlagX":"True"}}"#));
}

/// Path versus network: an explicit path is read and nothing else is tried.
#[test]
fn an_explicit_path_bypasses_the_network() {
    let path = "/tmp/cordial-cs-test/settings.json";
    let (body, source) = load_reporting(Some(path), &Vec::new(), |step: &Step| match step {
        Step::ReadExplicit(p) if p == path => Ok(r#"{"applicationSettings":{}}"#.to_string()),
        _ => panic!("only the explicit path may be read"),
    });
    assert_eq!(body.as_deref(), Some(r#"{"applicationSettings":{}}"#));
    assert!(matches!(source, Source::Explicit));
}

/// An unreadable explicit path says why, rather than coming back as a bare
/// `None` indistinguishable from an unreachable CDN.
#[test]
fn an_unreadable_explicit_path_says_why_rather_than_just_no() {
    let path = "/nonexistent/cordial-cs-test-path.json";
    let (body, source) = load_reporting(Some(path), &Vec::new(), |step: &Step| match step {
        Step::ReadExplicit(_) => Err("No such file or directory (os error 2)".to_string()),
        _ => panic!("only the explicit path may be read"),
    });
    assert_eq!(body, None);
    match source {
        Source::Nothing(why) => assert!(why.contains("/nonexistent/cordial-cs-test-path.json")),
        _ => panic!("expected Source::Nothing, got a different source"),
    }
}

// ---------------------------------------------------------------- more cases

#[test]
fn a_fresh_cache_answers_without_a_fetch() {
    let got = load(None, &Vec::new(), |step: &Step| match step {
        Step::ReadFreshCache => Ok("cached".to_string()),
        _ => panic!("nothing else may be asked"),
    });
    assert_eq!(got.as_deref(), Some("cached"));
}

#[test]
fn a_fetch_is_cached_and_reported() {
    let body = r#"{"applicationSettings":{"FFlagX":"True"}}"#;
    let stored = std::cell::RefCell::new(Vec::new());
    let (got, source) = load_reporting(None, &Vec::new(), |step: &Step| match step {
        Step::ReadFreshCache => Err("too old".to_string()),
        Step::Fetch => Ok(body.to_string()),
        Step::StoreCache(b) => {
            stored.borrow_mut().push(b.clone());
            Err("disk full".to_string())
        }
        _ => panic!("unexpected step"),
    });
    assert_eq!(got.as_deref(), Some(body));
    assert!(matches!(source, Source::Fetched));
    assert_eq!(stored.into_inner(), vec![body.to_string()], "a failed write changes nothing");
}

#[test]
fn an_error_page_falls_back_to_the_stale_cache_and_is_never_stored() {
    let (got, source) = load_reporting(None, &Vec::new(), |step: &Step| match step {
        Step::ReadFreshCache => Err("absent".to_string()),
        Step::Fetch => Ok(r#"{"errors":[]}"#.to_string()),
        Step::ReadStaleCache(_) => Ok("old".to_string()),
        _ => panic!("an error page must not be stored"),
    });
    assert_eq!(got.as_deref(), Some("old"));
    assert!(matches!(source, Source::StaleCache));
    assert_eq!(source.describe(), "stale cache, fetch failed");
}

#[test]
fn nothing_at_all_reports_the_fetch_failure() {
    let (got, source) = load_reporting(None, &Vec::new(), |step: &Step| match step {
        Step::Fetch => Ok("<html>".to_string()),
        _ => Err("no".to_string()),
    });
    assert_eq!(got, None);
    let why = format!("{URL} answered with something that is not a settings document");
    assert_eq!(source.describe(), format!("nothing: {why}"));
    let (_, source) = load_reporting(None, &Vec::new(), |step: &Step| match step {
        Step::Fetch => Err("timed out".to_string()),
        _ => Err("no".to_string()),
    });
    assert_eq!(source.describe(), "nothing: timed out");
}

#[test]
fn every_source_has_its_words() {
    assert_eq!(Source::Explicit.describe(), "--client-settings");
    assert_eq!(Source::FreshCache.describe(), "cache");
    assert_eq!(Source::Fetched.describe(), "fetched");
    assert_eq!(Source::Nothing("x".into()).describe(), "nothing: x");
}

#[test]
fn the_steps_follow_one_another() {
    assert!(matches!(first_step(None), Step::ReadFreshCache));
    match next_step(first_step(Some("p")), Err("gone".to_string())) {
        Step::Done(None, Source::Nothing(why)) => assert_eq!(why, "--client-settings p: gone"),
        _ => panic!("an unreadable path is final"),
    }
    assert!(matches!(next_step(Step::ReadFreshCache, Err(String::new())), Step::Fetch));
    assert!(next_step(Step::StoreCache("b".into()), Ok(String::new())).is_done());
}

#[test]
fn overrides_are_merged_and_cordials_own_keys_left_out() {
    let doc = r#"{"applicationSettings":{"FFlagA":"False"}}"#.to_string();
    let resolved = vec![
        ("FFlagA".to_string(), "True".to_string()),
        ("CordialGraphicsBackend".to_string(), "vulkan".to_string()),
    ];
    let out = apply_overrides(doc.clone(), &resolved);
    let v: serde_json::Value = serde_json::from_str(&out).unwrap();
    assert_eq!(v["applicationSettings"]["FFlagA"], "True");
    assert!(v["applicationSettings"].get("CordialGraphicsBackend").is_none());
    assert_eq!(apply_overrides(doc.clone(), &Vec::new()), doc, "nothing resolved, nothing touched");
    assert_eq!(
        apply_overrides("not json".to_string(), &resolved),
        "not json",
        "a refused merge keeps the document"
    );
}

#[test]
fn every_refusal_of_a_merge_has_its_reason() {
    assert_eq!(merge("{", Vec::new()), Err("the settings document did not parse"));
    assert_eq!(merge("[1]", Vec::new()), Err("no applicationSettings object"));
    assert_eq!(
        merge(r#"{"applicationSettings":3}"#, Vec::new()),
        Err("no applicationSettings object")
    );
    let (out, n) = merge(r#"{"b":1,"applicationSettings":{"x":"y"}}"#, Vec::new()).unwrap();
    assert_eq!(n, 0);
    assert_eq!(out, r#"{"applicationSettings":{"x":"y"},"b":1}"#);
}

#[test]
fn overrides_set_into_the_settings_members() {
    let mut app = pairs(vec![("A", Json::String("1".into())), ("B", Json::String("2".into()))]);
    set_overrides(
        &mut app,
        pairs(vec![("B", Json::Number("7".into(), Some(7))), ("C", Json::Bool(true))]),
    );
    assert_eq!(
        app,
        pairs(vec![
            ("A", Json::String("1".into())),
            ("B", Json::String("7".into())),
            ("C", Json::String("true".into())),
        ])
    );
}

#[test]
fn a_float_survives_a_merge_exactly() {
    let doc = r#"{"applicationSettings":{"FFloat":0.30000000000000004,"FBig":1.7976931348623157e308}}"#;
    let (out, _) = merge(doc, Vec::new()).unwrap();
    let before: serde_json::Value = serde_json::from_str(doc).unwrap();
    let after: serde_json::Value = serde_json::from_str(&out).unwrap();
    assert_eq!(before, after);
}

#[test]
fn a_flag_resolved_twice_is_merged_once_with_its_later_value() {
    let doc = r#"{"applicationSettings":{}}"#.to_string();
    let resolved = vec![
        ("FFlagX".to_string(), "1".to_string()),
        ("FFlagX".to_string(), "2".to_string()),
    ];
    let out = apply_overrides(doc, &resolved);
    let v: serde_json::Value = serde_json::from_str(&out).unwrap();
    assert_eq!(v["applicationSettings"]["FFlagX"], "2");
}
