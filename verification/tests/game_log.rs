use cordial_runtime::bloxstrap_rpc::{self, Presence};
use cordial_runtime::game_log::{close_on_leave_for, parse_line, Event, Watcher, RESCAN_MS};
use cordial_runtime::json::Json;

/// Lines in the shape of a real capture.
const JOIN: &str = "2026-08-31T03:14:18.878Z,159.878708,bf08c6c0,6 [FLog::GameJoinLoadTime] \
     Report game_join_loadtime: sid:6baeb082-4060-42cf-85f4-e8282c7a8bfd, \
     clienttime:1788146058.128000021, join_time:1.2011154180000005454, referral_page:, \
     placeid:17625359962, userid:1826805362, universeid:6035872082, ";
const UDMUX: &str = "2026-08-31T03:14:18.884Z,159.884491,bf08c6c0,7 [FLog::Network] \
     UDMUX Address = 128.116.51.33, Port = 50363 | RCC Server Address = 10.60.2.168, Port = 50363";
const LEAVE: &str =
    "2026-08-31T03:14:53.310Z,194.310760,bd3bd6c0,6 [FLog::SingleSurfaceApp] leaveUGCGameInternal";

#[test]
fn a_join_yields_both_ids() {
    assert_eq!(
        parse_line(JOIN),
        Some(Event::Joined { place_id: 17625359962, universe_id: 6035872082 })
    );
}

/// The public address, not the private one on the same line.
#[test]
fn the_server_is_the_udmux_address_and_not_the_rcc_one() {
    assert_eq!(
        parse_line(UDMUX),
        Some(Event::Server { address: "128.116.51.33".into(), port: 50363 })
    );
}

#[test]
fn leaving_is_recognised() {
    assert_eq!(parse_line(LEAVE), Some(Event::Left));
}

/// A disconnect is not a leave, and confusing them closes the client during
/// a teleport.
#[test]
fn a_disconnect_is_not_a_leave() {
    for line in [
        "2026-08-31T03:11:44.510Z,5.510133,409d16c0,6 [DFLog::SignalRCoreError] ID: 1 \
         Disconnected - Websocket error: 401 Unauthorized",
        "2026-08-31T03:14:53.338Z,194.338837,bf08c6c0,6,Info [DFLog::NetworkClient] \
         Client:Disconnect",
        "2026-08-31T03:16:55.333Z,316.333099,5b43f6c0,7 [FLog::Network] Connection lost: \
         connectMode: Peer Disconnected, timeMS:316332, connectionTime 200359",
        "2026-08-31T03:16:55.333Z,316.333221,5b43f6c0,7 [FLog::Network] Disconnection \
         Notification. Reason: 267",
        "2026-08-31T03:14:54.395Z,195.395447,bf08c6c0,7 \
         [DFLog::MegaReplicatorLogDisconnectCleanUpLog] Destroying MegaReplicator.",
    ] {
        assert_eq!(parse_line(line), None, "{line}");
    }
}

#[test]
fn an_uninteresting_line_is_uninteresting() {
    for line in ["", "   ", "not a log line at all", "[FLog::Output] hello"] {
        assert_eq!(parse_line(line), None, "{line:?}");
    }
}

#[test]
fn an_rpc_line_is_passed_through_for_the_protocol_module() {
    let line = "2026-08-31T03:14:18.878Z,1,a,6 [FLog::Output] [BloxstrapRPC] {\"command\":\"x\"}";
    assert_eq!(parse_line(line), Some(Event::Rpc(line.to_owned())));
}

#[test]
fn a_join_line_without_both_ids_is_not_a_join() {
    let no_universe = "[FLog::GameJoinLoadTime] Report game_join_loadtime: placeid:1, userid:2,";
    assert_eq!(parse_line(no_universe), None);
}

/// A line split across two reads must still be seen.
#[test]
fn a_line_that_arrives_in_two_pieces_is_still_parsed() {
    let (head, tail) = JOIN.split_at(60);
    let mut w = Watcher::new("/logs".to_string());
    w.adopt(Some("/logs/session.log".to_string()));
    assert_eq!(w.take_lines(vec![head.to_string()]), Vec::new(), "half a line is not an event yet");
    assert_eq!(
        w.take_lines(vec![format!("{tail}\n")]),
        vec![Event::Joined { place_id: 17625359962, universe_id: 6035872082 }],
        "the two halves must join up"
    );
    let total = (JOIN.len() + 1) as u64;
    assert_eq!(w.following(), Some(("/logs/session.log".to_string(), total)));
}

/// Close-on-leave is off unless asked for, and only the explicit words turn
/// it on.
#[test]
fn closing_on_leave_is_opt_in() {
    assert!(!close_on_leave_for(None), "absent means no");
    assert!(!close_on_leave_for(Some("0")));
    assert!(!close_on_leave_for(Some("")));
    assert!(!close_on_leave_for(Some("off")));
    assert!(!close_on_leave_for(Some("no")));
    for on in ["1", "true", "yes"] {
        assert!(close_on_leave_for(Some(on)), "{on} should turn it on");
    }
}

fn member<'a>(payload: &'a Json, key: &str) -> Option<&'a Json> {
    match payload {
        Json::Object(members) => members.iter().find(|(k, _)| k == key).map(|(_, v)| v),
        _ => panic!("a payload is an object"),
    }
}

/// A game's own presence, from the line it printed to the payload a plugin
/// receives.
#[test]
fn a_games_bloxstrap_rpc_becomes_a_presence_payload() {
    let printed = [
        r#"2026-09-01T00:10:00.000Z,1,a,6 [FLog::Output] [BloxstrapRPC] {"command":"SetRichPresence","data":{"details":"Fighting the Boss","state":"Round 3 of 5"}}"#,
        r#"2026-09-01T00:10:05.000Z,1,a,6 [FLog::Output] [BloxstrapRPC] {"command":"SetRichPresence","data":{"timeStart":1788200000}}"#,
    ];
    let mut merged = Presence::new();
    for line in printed {
        let Some(Event::Rpc(raw)) = parse_line(line) else {
            panic!("the watcher did not recognise {line}");
        };
        let command = bloxstrap_rpc::parse_line(&raw).expect("parses").expect("is a command");
        assert!(merged.apply(command).is_none(), "neither line is launch data");
    }

    let payload = merged.to_payload();
    assert_eq!(member(&payload, "details"), Some(&Json::String("Fighting the Boss".into())));
    assert_eq!(
        member(&payload, "state"),
        Some(&Json::String("Round 3 of 5".into())),
        "the first line must survive the second"
    );
    assert_eq!(
        member(&payload, "start"),
        Some(&Json::Number("1788200000".into(), Some(1788200000)))
    );
    assert!(member(&payload, "end").is_none(), "a field the game never set is absent, not null");
}

/// Leaving clears it, so one experience's presence does not outlive it.
#[test]
fn a_fresh_presence_carries_nothing() {
    let payload = Presence::new().to_payload();
    assert_eq!(payload, Json::Object(Vec::new()));
}

/// An absent directory is silence, not an error: with no log to follow there
/// is nothing to read and nothing is reported.
#[test]
fn nothing_to_watch_is_not_a_failure() {
    let mut w = Watcher::new("/nonexistent/cordial/logs".to_string());
    w.adopt(None);
    assert_eq!(w.following(), None);
    assert!(!w.observe_length(10));
    assert_eq!(w.take_lines(Vec::new()), Vec::new());
}

// ---------------------------------------------------------------- more cases

#[test]
fn the_directory_is_rescanned_at_most_once_a_second() {
    let mut w = Watcher::new("/d".to_string());
    assert_eq!(w.dir(), "/d");
    assert!(w.rescan_if_due(5_000), "the first scan is always due");
    assert!(!w.rescan_if_due(5_000 + RESCAN_MS - 1));
    assert!(w.rescan_if_due(5_000 + RESCAN_MS));
    assert!(!w.rescan_if_due(1), "a clock that went backwards waits");
}

#[test]
fn a_truncated_log_is_read_again_from_the_start() {
    let mut w = Watcher::new("/d".to_string());
    w.adopt(Some("/d/a.log".to_string()));
    w.take_lines(vec!["hello\n".to_string(), "partial".to_string()]);
    assert_eq!(w.following(), Some(("/d/a.log".to_string(), 13)));
    assert!(!w.observe_length(13), "nothing new");
    assert!(w.observe_length(20), "more to read");
    assert!(!w.observe_length(3), "shorter means replaced");
    assert_eq!(w.following(), Some(("/d/a.log".to_string(), 0)));
    assert_eq!(w.take_lines(vec![format!("{LEAVE}\n")]), vec![Event::Left]);
}

#[test]
fn a_newer_log_is_adopted_and_the_same_one_is_not() {
    let mut w = Watcher::new("/d".to_string());
    w.adopt(Some("/d/a.log".to_string()));
    w.take_lines(vec!["x\n".to_string()]);
    w.adopt(Some("/d/a.log".to_string()));
    assert_eq!(w.following(), Some(("/d/a.log".to_string(), 2)));
    w.adopt(Some("/d/b.log".to_string()));
    assert_eq!(w.following(), Some(("/d/b.log".to_string(), 0)));
}

#[test]
fn a_crlf_line_is_trimmed_before_it_is_parsed() {
    let mut w = Watcher::new("/d".to_string());
    w.adopt(Some("/d/a.log".to_string()));
    assert_eq!(
        w.take_lines(vec![format!("{UDMUX}\r\n")]),
        vec![Event::Server { address: "128.116.51.33".into(), port: 50363 }]
    );
}

// ---------------------------------------------------------------- reactions

use cordial_runtime::game_log::{react, Reaction};

#[test]
fn joins_and_servers_are_reported() {
    let mut p = Presence::new();
    assert_eq!(
        react(&mut p, Event::Joined { place_id: 17625359962, universe_id: 6035872082 }, false),
        vec![Reaction::Say(
            "[cordial] game: joined place 17625359962 (universe 6035872082)".to_string()
        )]
    );
    assert_eq!(
        react(&mut p, Event::Server { address: "128.116.51.33".into(), port: 50363 }, false),
        vec![Reaction::Say("[cordial] game: server 128.116.51.33:50363".to_string())]
    );
}

#[test]
fn leaving_clears_the_presence_and_closes_only_when_asked() {
    let mut p = Presence::new();
    react(
        &mut p,
        Event::Rpc(r#"[BloxstrapRPC] {"command":"SetRichPresence","data":{"details":"x"}}"#.into()),
        false,
    );
    assert_ne!(p, Presence::new());
    let r = react(&mut p, Event::Left, false);
    assert_eq!(p, Presence::new());
    assert_eq!(
        r,
        vec![
            Reaction::Say("[cordial] game: left".to_string()),
            Reaction::Publish(Json::Object(Vec::new())),
        ]
    );
    let r = react(&mut p, Event::Left, true);
    assert_eq!(r.last(), Some(&Reaction::Quit));
}

#[test]
fn an_rpc_line_publishes_the_merged_presence() {
    let mut p = Presence::new();
    let r = react(
        &mut p,
        Event::Rpc(r#"[BloxstrapRPC] {"command":"SetRichPresence","data":{"state":"s"}}"#.into()),
        false,
    );
    assert_eq!(r, vec![Reaction::Publish(p.to_payload())]);
    let r = react(
        &mut p,
        Event::Rpc(r#"[BloxstrapRPC] {"command":"SetLaunchData","data":"abcd"}"#.into()),
        false,
    );
    assert_eq!(r, vec![Reaction::Say("[cordial] game: BloxstrapRPC launch data (4 bytes)".to_string())]);
    let r = react(&mut p, Event::Rpc("[BloxstrapRPC] nope".into()), false);
    assert_eq!(r.len(), 1);
    assert!(matches!(&r[0], Reaction::Say(s) if s.starts_with("[cordial] game: unusable BloxstrapRPC line: bad envelope")));
    assert_eq!(react(&mut p, Event::Rpc("no marker".into()), false), Vec::new());
}

#[test]
fn successive_polls_give_the_events_of_one_poll() {
    let text = format!("{JOIN}\n{UDMUX}\n{LEAVE}\n");
    let mut once = Watcher::new("/d".to_string());
    once.adopt(Some("/d/a.log".to_string()));
    let whole: Vec<String> = text.split_inclusive('\n').map(|l| l.to_string()).collect();
    let all = once.take_lines(whole);
    assert_eq!(all.len(), 3);

    // The same text, cut at arbitrary places that are not inside a line's
    // trailing blanks, across three polls.
    let mut w = Watcher::new("/d".to_string());
    w.adopt(Some("/d/a.log".to_string()));
    let (a, rest) = JOIN.split_at(40);
    let (b, c) = UDMUX.split_at(30);
    let mut got = w.take_lines(vec![a.to_string()]);
    got.extend(w.take_lines(vec![format!("{rest}\n"), b.to_string()]));
    got.extend(w.take_lines(vec![format!("{c}\n"), format!("{LEAVE}\n")]));
    assert_eq!(got, all);
    assert_eq!(w.following(), once.following());
}
