use cordial_runtime::deeplink::{escape_json, percent_decode, translate, validate, Translated, MAX_LEN};

/// A link of the shape the web site emits, with a place that belongs to
/// nobody. No real account, server or access code appears in this file.
const SAMPLE: &str = "roblox-player://placeId=1818&launchData=hello";

#[test]
fn accepts_both_schemes() {
    assert_eq!(validate(SAMPLE).unwrap().scheme(), "roblox-player");
    assert_eq!(validate("roblox://placeId=1818").unwrap().scheme(), "roblox");
}

#[test]
fn scheme_is_case_insensitive() {
    assert_eq!(validate("ROBLOX-PLAYER://placeId=1").unwrap().scheme(), "roblox-player");
}

#[test]
fn rejects_other_schemes() {
    for bad in ["http://roblox.com", "file:///etc/passwd", "javascript:alert(1)"] {
        assert!(validate(bad).is_err(), "{bad} should not be accepted");
    }
}

#[test]
fn rejects_a_missing_scheme() {
    assert!(validate("placeId=1818").is_err());
}

#[test]
fn rejects_control_characters() {
    assert!(validate("roblox://placeId=1\n[deeplink] joined").is_err());
    assert!(validate("roblox://place\0id=1").is_err());
    assert!(validate("roblox://placeId=1 2").is_err());
}

#[test]
fn rejects_an_overlong_url() {
    let long = format!("roblox://launchData={}", "a".repeat(MAX_LEN));
    assert!(validate(&long).is_err());
}

#[test]
fn rejects_an_empty_url() {
    assert!(validate("").is_err());
}

#[test]
fn describe_never_shows_a_value() {
    let u = validate("roblox-player://placeId=1818&accessCode=SECRETVALUE").unwrap();
    let d = u.describe();
    assert!(d.contains("placeId"), "{d}");
    assert!(d.contains("accessCode"), "{d}");
    assert!(!d.contains("SECRETVALUE"), "{d}");
    assert!(!d.contains("1818"), "{d}");
    assert!(!format!("{u:?}").contains("SECRETVALUE"));
}

#[test]
fn expose_returns_the_url_unchanged() {
    assert_eq!(validate(SAMPLE).unwrap().expose(), SAMPLE);
}

#[test]
fn a_quote_cannot_add_a_field_to_the_payload() {
    let url = validate(r#"roblox://placeId=1","evil":"yes"#).unwrap();
    let payload = format!("{{\"url\":\"{}\"}}", escape_json(url.expose()));
    assert!(!payload.contains(r#","evil":"yes""#), "{payload}");
    assert!(payload.contains(r#"\"evil\""#), "{payload}");
    assert_eq!(payload.matches("\":\"").count(), 1, "{payload}");
}

#[test]
fn a_backslash_cannot_escape_the_closing_quote() {
    assert_eq!(escape_json(r"a\"), r"a\\");
}

/// A desktop link of the shape roblox.com's play button emits, built here
/// rather than captured.
fn desktop(launcher_query: &str) -> String {
    let encoded = launcher_query
        .replace('%', "%25")
        .replace(':', "%3A")
        .replace('/', "%2F")
        .replace('?', "%3F")
        .replace('&', "%26")
        .replace('=', "%3D");
    format!(
        "roblox-player:1+launchmode:play+gameinfo:SYNTHETIC-NOT-A-TICKET\
         +placelauncherurl:{encoded}+launchtime:1754179200000+browsertrackerid:1\
         +robloxLocale:en_us+gameLocale:en_us"
    )
}

const LAUNCHER: &str = "https://assetgame.roblox.com/game/PlaceLauncher.ashx?request=RequestGame\
     &browserTrackerId=1&placeId=1818&isPlayTogetherGame=false";

#[test]
fn a_desktop_link_never_prints_its_ticket() {
    let u = validate(&desktop(LAUNCHER)).unwrap();
    for rendered in [u.describe(), format!("{u:?}")] {
        assert!(!rendered.contains("SYNTHETIC"), "{rendered}");
        assert!(!rendered.contains("1818"), "{rendered}");
        assert!(!rendered.contains("assetgame"), "{rendered}");
        assert!(rendered.contains("gameinfo"), "{rendered}");
        assert!(rendered.contains("placelauncherurl"), "{rendered}");
        assert!(rendered.contains("launchmode"), "{rendered}");
    }
}

#[test]
fn a_plus_inside_a_ticket_does_not_become_a_parameter_name() {
    let u = validate("roblox-player:1+gameinfo:AAAA+BBBB==+launchmode:play").unwrap();
    let d = u.describe();
    assert!(!d.contains("BBBB"), "{d}");
    assert!(d.contains("gameinfo") && d.contains("launchmode"), "{d}");
}

#[test]
fn a_desktop_link_becomes_the_mobile_link_that_was_measured_to_work() {
    match translate(&validate(&desktop(LAUNCHER)).unwrap()) {
        Translated::To { url, dropped } => {
            assert_eq!(url.expose(), "roblox://experiences/start?placeId=1818");
            assert_eq!(url.scheme(), "roblox");
            assert!(dropped.contains(&"request".to_string()), "{dropped:?}");
            assert!(dropped.contains(&"browserTrackerId".to_string()), "{dropped:?}");
            assert!(!dropped.contains(&"placeId".to_string()), "{dropped:?}");
        }
        other => panic!("a plain play link should translate: {other:?}"),
    }
}

#[test]
fn a_desktop_link_reshaped_into_a_url_still_translates() {
    let reshaped = desktop(LAUNCHER).replacen("roblox-player:", "roblox-player:///", 1);
    match translate(&validate(&reshaped).unwrap()) {
        Translated::To { url, .. } => {
            assert_eq!(url.expose(), "roblox://experiences/start?placeId=1818")
        }
        other => panic!("{other:?}"),
    }
}

#[test]
fn a_link_that_picks_a_particular_server_is_refused_by_name() {
    for (query, named) in [
        ("https://x/PlaceLauncher.ashx?placeId=1818&accessCode=abc", "accesscode"),
        ("https://x/PlaceLauncher.ashx?placeId=1818&linkCode=abc", "linkcode"),
        ("https://x/PlaceLauncher.ashx?placeId=1818&gameId=abc", "gameid"),
        ("https://x/PlaceLauncher.ashx?placeId=1818&jobId=abc", "jobid"),
        (
            "https://x/PlaceLauncher.ashx?placeId=1818&reservedServerAccessCode=abc",
            "reservedserveraccesscode",
        ),
    ] {
        match translate(&validate(&desktop(query)).unwrap()) {
            Translated::Refused(why) => {
                assert!(why.contains(named), "{why}");
                assert!(!why.contains("abc"), "the reason must not carry a value: {why}");
            }
            other => panic!("{query} should be refused: {other:?}"),
        }
    }
}

#[test]
fn a_launcher_url_with_no_place_id_is_refused_rather_than_invented() {
    let l = "https://x/PlaceLauncher.ashx?request=RequestFollowUser&userId=1";
    assert!(matches!(translate(&validate(&desktop(l)).unwrap()), Translated::Refused(_)));
}

#[test]
fn a_place_id_that_is_not_a_number_is_refused() {
    for bad in ["1818x", "1818%26accessCode%3Dabc", "", "9".repeat(21).as_str()] {
        let l = format!("https://x/PlaceLauncher.ashx?placeId={bad}");
        match translate(&validate(&desktop(&l)).unwrap()) {
            Translated::Refused(_) => {}
            other => panic!("placeId={bad:?} should be refused: {other:?}"),
        }
    }
}

#[test]
fn a_link_that_is_not_asking_to_play_is_refused() {
    let link = desktop(LAUNCHER).replace("launchmode:play", "launchmode:edit");
    match translate(&validate(&link).unwrap()) {
        Translated::Refused(why) => assert!(why.contains("launchmode"), "{why}"),
        other => panic!("{other:?}"),
    }
}

#[test]
fn a_desktop_link_without_a_launcher_url_is_refused() {
    let link = "roblox-player:1+launchmode:play+gameinfo:SYNTHETIC-NOT-A-TICKET";
    match translate(&validate(link).unwrap()) {
        Translated::Refused(why) => assert!(why.contains("placelauncherurl"), "{why}"),
        other => panic!("{other:?}"),
    }
}

#[test]
fn a_mobile_link_is_left_alone() {
    for link in ["roblox://experiences/start?placeId=1818", "roblox-player://placeId=1818"] {
        assert!(matches!(translate(&validate(link).unwrap()), Translated::AsIs), "{link}");
    }
}

#[test]
fn a_malformed_percent_escape_refuses_rather_than_salvages() {
    for launcher in ["https%3A%2F%2Fx%3FplaceId%3D1818%2", "https%3A%2Fx%3FplaceId%3D18%ZZ"] {
        let link = format!("roblox-player:1+launchmode:play+placelauncherurl:{launcher}");
        assert!(matches!(translate(&validate(&link).unwrap()), Translated::Refused(_)));
    }
}

#[test]
fn percent_decoding_is_exact() {
    assert_eq!(percent_decode("a%3Db%26c").unwrap(), "a=b&c");
    assert_eq!(percent_decode("%25").unwrap(), "%");
    assert_eq!(percent_decode("plain").unwrap(), "plain");
    assert!(percent_decode("a%0Ab").is_err());
    assert!(percent_decode("a%00b").is_err());
}

#[test]
fn the_translated_link_survives_the_payload_builder() {
    let Translated::To { url, .. } = translate(&validate(&desktop(LAUNCHER)).unwrap()) else {
        panic!("should translate");
    };
    let payload = format!("{{\"url\":\"{}\"}}", escape_json(url.expose()));
    assert_eq!(payload, r#"{"url":"roblox://experiences/start?placeId=1818"}"#);
}

// ---------------------------------------------------------------- delivery

use cordial_runtime::deeplink::{
    delivery_outcome, dropped_note, expects_no_experience, last_payload, launch_report,
    link_to_deliver, native_symbol, url_payload, LaunchReport, Outcome,
};

#[test]
fn a_native_is_looked_up_by_its_jni_name() {
    assert_eq!(
        native_symbol("com/roblox/universalapp/linking/JNIBaseUrlProtocol", "init"),
        "Java_com_roblox_universalapp_linking_JNIBaseUrlProtocol_init"
    );
}

#[test]
fn the_translated_link_is_the_one_delivered() {
    let desktop = validate(
        "roblox-player:1+launchmode:play+placelauncherurl:https%3A%2F%2Fwww.roblox.com%2FGame%2FPlaceLauncher.ashx%3Frequest%3DRequestGame%26placeId%3D1818",
    )
    .unwrap();
    let t = translate(&desktop);
    let chosen = link_to_deliver(&desktop, &t);
    assert_eq!(chosen.scheme(), "roblox");
    assert!(!expects_no_experience(chosen));
    let refused = Translated::Refused("x".into());
    assert_eq!(link_to_deliver(&desktop, &refused).scheme(), "roblox-player");
    assert!(expects_no_experience(&desktop));
}

#[test]
fn dropped_parameters_are_named() {
    assert_eq!(dropped_note(&Vec::new()), None);
    assert_eq!(
        dropped_note(&vec!["linkCode".to_string(), "accessCode".to_string()]).unwrap(),
        "its launcher URL also carried linkCode, accessCode, which Cordial does not carry across"
    );
}

#[test]
fn the_report_after_app_ready_says_how_far_the_link_got() {
    assert_eq!(launch_report(true, Some(false)), LaunchReport::Launched);
    assert_eq!(launch_report(false, Some(true)), LaunchReport::RegisteredOnly);
    assert_eq!(launch_report(false, None), LaunchReport::NotReached);
    assert!(LaunchReport::NotReached.message().contains("Signing in is required"));
    assert_eq!(last_payload(String::new()), None);
    assert_eq!(last_payload("{}".into()), Some("{}".to_string()));
}

#[test]
fn a_delivery_ends_claimed_published_or_with_no_surface() {
    assert_eq!(delivery_outcome(Some("JNIBaseUrlProtocol"), true, true), Outcome::Claimed("JNIBaseUrlProtocol"));
    assert_eq!(delivery_outcome(None, true, false), Outcome::Published);
    assert_eq!(delivery_outcome(None, false, true), Outcome::Published);
    assert_eq!(delivery_outcome(None, false, false), Outcome::NoSurface);
}

#[test]
fn the_bus_payload_reads_back_as_the_link_and_nothing_more() {
    let raw = r#"roblox://placeId=1","evil":"yes\"#;
    let url = validate(raw).unwrap();
    let payload = url_payload(&url);
    let v: serde_json::Value = serde_json::from_str(&payload).unwrap();
    let obj = v.as_object().unwrap();
    assert_eq!(obj.len(), 1, "{payload}");
    assert_eq!(obj["url"], raw);
}

#[test]
fn debug_prints_the_description_inside_the_type_name() {
    let u = validate(&desktop(LAUNCHER)).unwrap();
    assert_eq!(format!("{u:?}"), format!("JoinUrl({})", u.describe()));
    assert_eq!(u.debug_line(), format!("JoinUrl({})", u.describe()));
    assert!(!u.debug_line().contains("SYNTHETIC"));
}

#[test]
fn a_translated_link_is_final() {
    let Translated::To { url, dropped } = translate(&validate(&desktop(LAUNCHER)).unwrap()) else {
        panic!("a plain play link should translate");
    };
    assert_eq!(url.scheme(), "roblox");
    assert_eq!(url.expose(), "roblox://experiences/start?placeId=1818");
    assert!(matches!(translate(&url), Translated::AsIs), "a second translation changes nothing");
    assert!(dropped.iter().all(|k| k.chars().all(|c| c.is_ascii_alphanumeric() || c == '_' || c == '-')));
}

#[test]
fn the_last_place_id_in_the_launcher_query_is_the_one_carried() {
    let launcher = "https://assetgame.roblox.com/game/PlaceLauncher.ashx?placeId=1&PLACEID=22";
    let Translated::To { url, .. } = translate(&validate(&desktop(launcher)).unwrap()) else {
        panic!("should translate");
    };
    assert_eq!(url.expose(), "roblox://experiences/start?placeId=22");
}
