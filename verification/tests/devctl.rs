use cordial_runtime::devctl::{pointer_events, PointerEvent};
use cordial_runtime::devctl::{
    enabled_for, natives_reply, parse_request, screenshot_reply, Pointer, Query, Queued, Request,
};

fn reply(s: &str) -> Request {
    Request::Reply(s.to_string())
}

#[test]
fn an_empty_line_and_ping_are_ok() {
    assert_eq!(parse_request(""), reply("ok"));
    assert_eq!(parse_request("ping"), reply("ok"));
    assert_eq!(parse_request("ping extra words"), reply("ok"));
}

#[test]
fn questions_are_answered_from_the_clients_own_state() {
    assert_eq!(parse_request("info"), Request::Ask(Query::Info));
    assert_eq!(parse_request("textbox"), Request::Ask(Query::Textbox));
    assert_eq!(parse_request("pointerlock"), Request::Ask(Query::PointerLock));
    assert_eq!(parse_request("loopers"), Request::Ask(Query::Loopers));
    assert_eq!(
        parse_request("natives com/roblox/X"),
        Request::Ask(Query::Natives("com/roblox/X".to_string()))
    );
    assert_eq!(parse_request("natives"), reply("err natives <java/class/Name>"));
    assert_eq!(
        parse_request("screenshot /tmp/a.png"),
        Request::Ask(Query::Screenshot("/tmp/a.png".to_string()))
    );
    assert_eq!(parse_request("screenshot"), reply("err screenshot <path>"));
}

#[test]
fn the_engine_lock_seam_takes_three_words() {
    assert_eq!(
        parse_request("fakeenginelock true"),
        Request::FakeEngineLock { code: 2, reply: "ok fakeenginelock=true".to_string() }
    );
    assert_eq!(
        parse_request("fakeenginelock false"),
        Request::FakeEngineLock { code: 1, reply: "ok fakeenginelock=false".to_string() }
    );
    assert_eq!(
        parse_request("fakeenginelock clear"),
        Request::FakeEngineLock { code: 0, reply: "ok fakeenginelock=clear".to_string() }
    );
    assert_eq!(parse_request("fakeenginelock maybe"), reply("err fakeenginelock <true|false|clear>"));
}

#[test]
fn pointer_requests_carry_their_coordinates_and_usage() {
    assert_eq!(
        parse_request("move 10 20.5"),
        Request::Pointer {
            request: Pointer::Move { x: "10".into(), y: "20.5".into() },
            usage: "err move <x> <y>".into()
        }
    );
    assert_eq!(parse_request("move 10"), reply("err move <x> <y>"));
    assert_eq!(
        parse_request("click 1 2"),
        Request::Pointer {
            request: Pointer::Click { x: "1".into(), y: "2".into(), button: 1 },
            usage: "err click <x> <y> [button]".into()
        }
    );
    assert_eq!(
        parse_request("click 1 2 notabutton"),
        Request::Pointer {
            request: Pointer::Click { x: "1".into(), y: "2".into(), button: 1 },
            usage: "err click <x> <y> [button]".into()
        }
    );
    assert_eq!(
        parse_request("up 1 2 3"),
        Request::Pointer {
            request: Pointer::Button { x: "1".into(), y: "2".into(), down: false, button: 3 },
            usage: "err up <x> <y> [button]".into()
        }
    );
    assert_eq!(parse_request("down"), reply("err down <x> <y> [button]"));
    assert_eq!(
        parse_request("scroll 1 2 -3"),
        Request::Pointer {
            request: Pointer::Scroll { x: "1".into(), y: "2".into(), detents: "-3".into() },
            usage: "err scroll <x> <y> <detents>".into()
        }
    );
    assert_eq!(parse_request("scroll 1 2"), reply("err scroll <x> <y> <detents>"));
}

#[test]
fn keys_are_evdev_codes() {
    assert_eq!(
        parse_request("key down 30 4096"),
        Request::Queue(vec![Queued::Key { down: true, evdev: 30, modifiers: 4096 }])
    );
    assert_eq!(
        parse_request("key up 30"),
        Request::Queue(vec![Queued::Key { down: false, evdev: 30, modifiers: 0 }])
    );
    assert_eq!(
        parse_request("key sideways -2 x"),
        Request::Queue(vec![Queued::Key { down: false, evdev: -2, modifiers: 0 }])
    );
    assert_eq!(parse_request("key down A"), reply("err key <down|up> <evdev-code> [modifiers]"));
    assert_eq!(
        parse_request("tap 1 +1"),
        Request::Queue(vec![
            Queued::Key { down: true, evdev: 1, modifiers: 1 },
            Queued::Key { down: false, evdev: 1, modifiers: 1 },
        ])
    );
    assert_eq!(parse_request("tap 99999999999"), reply("err tap <evdev-code> [modifiers]"));
}

#[test]
fn text_takes_the_rest_of_the_line() {
    assert_eq!(
        parse_request("text  hello   world "),
        Request::Queue(vec![Queued::Text("hello   world".to_string())])
    );
    assert_eq!(parse_request("text"), reply("err text <string>"));
    assert_eq!(parse_request("text   "), reply("err text <string>"));
}

#[test]
fn windows_and_unknown_verbs() {
    assert_eq!(parse_request("fullscreen"), Request::Queue(vec![Queued::Fullscreen(true)]));
    assert_eq!(parse_request("windowed"), Request::Queue(vec![Queued::Fullscreen(false)]));
    assert_eq!(parse_request("jump high"), reply("err unknown verb \"jump\""));
    assert_eq!(parse_request("Ping"), reply("err unknown verb \"Ping\""));
}

#[test]
fn answers_to_natives_and_screenshots() {
    assert_eq!(natives_reply("a/B", ""), "ok class=a/B natives=0");
    assert_eq!(natives_reply("a/B", "f1 f2  f3"), "ok class=a/B natives=3 f1 f2  f3");
    assert_eq!(screenshot_reply(Ok("640x480".into())), "ok 640x480");
    assert_eq!(screenshot_reply(Err("no surface".into())), "err no surface");
}

#[test]
fn the_surface_is_off_unless_asked_for() {
    assert!(!enabled_for(None));
    assert!(!enabled_for(Some("")));
    assert!(!enabled_for(Some("0")));
    assert!(enabled_for(Some("1")));
    assert!(enabled_for(Some("yes")));
}

#[test]
fn a_click_is_a_move_a_press_and_a_release() {
    let events = pointer_events(Pointer::Click { x: "1".into(), y: "2".into(), button: 3 });
    assert_eq!(
        events,
        vec![
            PointerEvent::Move { x: "1".into(), y: "2".into() },
            PointerEvent::Button { x: "1".into(), y: "2".into(), down: true, button: 3 },
            PointerEvent::Button { x: "1".into(), y: "2".into(), down: false, button: 3 },
        ]
    );
    assert_eq!(
        pointer_events(Pointer::Scroll { x: "0".into(), y: "0".into(), detents: "-1".into() }),
        vec![PointerEvent::Scroll { x: "0".into(), y: "0".into(), detents: "-1".into() }]
    );
}
