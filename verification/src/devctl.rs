//! The development control surface's protocol: one line in, one line out,
//! `ok` or `err <why>`.
//!
//! A socket drives Cordial's own input so an agent can test the client
//! without a human at the keyboard. This module is the grammar of what it
//! accepts: which verb, how many arguments, which sentence a bad line is
//! answered with, and what is to be queued for the pump. Pointer coordinates
//! are carried as the text that was sent: whether a coordinate is a number is
//! the caller's to decide, and a line whose coordinates are not is answered
//! with the usage the request carries.

use vstd::prelude::*;
use crate::text::{
    after_first_whitespace, after_first_whitespace_exec, chars_of, debug_text, decimal, eq_str,
    parse_i32, parse_signed, push_all, push_decimal, push_str, starts_with, str_debug, string_of,
    trim, trim_exec, views, words, words_exec,
};

verus! {

/// Something the pump is to do, in the order queued.
#[derive(Debug, PartialEq, Eq)]
pub enum Queued {
    /// A key by its evdev code.
    Key { down: bool, evdev: i32, modifiers: i32 },
    /// Typed text, per character through the keystroke path.
    Text(String),
    /// Fullscreen the window, or restore it.
    Fullscreen(bool),
}

/// A pointer request, its coordinates as sent.
#[derive(Debug, PartialEq, Eq)]
pub enum Pointer {
    Move { x: String, y: String },
    /// A move, a press and a release, at one place.
    Click { x: String, y: String, button: i32 },
    Button { x: String, y: String, down: bool, button: i32 },
    Scroll { x: String, y: String, detents: String },
}

/// A question answered from the client's own state.
#[derive(Debug, PartialEq, Eq)]
pub enum Query {
    Info,
    Textbox,
    PointerLock,
    /// What the engine registered on a Java class.
    Natives(String),
    Loopers,
    /// Capture the framebuffer to a path.
    Screenshot(String),
}

/// What one line asks for.
#[derive(Debug, PartialEq, Eq)]
pub enum Request {
    /// Answer with this line and do nothing else.
    Reply(String),
    /// Answer from the client's own state.
    Ask(Query),
    /// Set the test seam for the engine's lock answer (2 true, 1 false, 0
    /// clear), and answer with `reply`.
    FakeEngineLock { code: u8, reply: String },
    /// Queue these and answer `ok`.
    Queue(Vec<Queued>),
    /// Queue this pointer request if every coordinate is a number and answer
    /// `ok`; otherwise answer with `usage`.
    Pointer { request: Pointer, usage: String },
}

pub enum QueuedView {
    Key(bool, i32, i32),
    Text(Seq<char>),
    Fullscreen(bool),
}

pub enum PointerView {
    Move(Seq<char>, Seq<char>),
    Click(Seq<char>, Seq<char>, i32),
    Button(Seq<char>, Seq<char>, bool, i32),
    Scroll(Seq<char>, Seq<char>, Seq<char>),
}

pub enum QueryView {
    Info,
    Textbox,
    PointerLock,
    Natives(Seq<char>),
    Loopers,
    Screenshot(Seq<char>),
}

pub enum RequestView {
    Reply(Seq<char>),
    Ask(QueryView),
    FakeEngineLock(u8, Seq<char>),
    Queue(Seq<QueuedView>),
    Pointer(PointerView, Seq<char>),
}

impl View for Queued {
    type V = QueuedView;

    open spec fn view(&self) -> QueuedView {
        match self {
            Queued::Key { down, evdev, modifiers } => QueuedView::Key(*down, *evdev, *modifiers),
            Queued::Text(t) => QueuedView::Text(t@),
            Queued::Fullscreen(on) => QueuedView::Fullscreen(*on),
        }
    }
}

impl View for Pointer {
    type V = PointerView;

    open spec fn view(&self) -> PointerView {
        match self {
            Pointer::Move { x, y } => PointerView::Move(x@, y@),
            Pointer::Click { x, y, button } => PointerView::Click(x@, y@, *button),
            Pointer::Button { x, y, down, button } => PointerView::Button(x@, y@, *down, *button),
            Pointer::Scroll { x, y, detents } => PointerView::Scroll(x@, y@, detents@),
        }
    }
}

impl View for Query {
    type V = QueryView;

    open spec fn view(&self) -> QueryView {
        match self {
            Query::Info => QueryView::Info,
            Query::Textbox => QueryView::Textbox,
            Query::PointerLock => QueryView::PointerLock,
            Query::Natives(c) => QueryView::Natives(c@),
            Query::Loopers => QueryView::Loopers,
            Query::Screenshot(p) => QueryView::Screenshot(p@),
        }
    }
}

pub open spec fn queued_views(v: Seq<Queued>) -> Seq<QueuedView> {
    Seq::new(v.len(), |i: int| v[i]@)
}

impl View for Request {
    type V = RequestView;

    open spec fn view(&self) -> RequestView {
        match self {
            Request::Reply(r) => RequestView::Reply(r@),
            Request::Ask(q) => RequestView::Ask(q@),
            Request::FakeEngineLock { code, reply } => RequestView::FakeEngineLock(*code, reply@),
            Request::Queue(v) => RequestView::Queue(queued_views(v@)),
            Request::Pointer { request, usage } => RequestView::Pointer(request@, usage@),
        }
    }
}

/// One event a pointer request puts on the queue, its coordinates as sent.
#[derive(Debug, PartialEq, Eq)]
pub enum PointerEvent {
    Move { x: String, y: String },
    Button { x: String, y: String, down: bool, button: i32 },
    Scroll { x: String, y: String, detents: String },
}

pub enum PointerEventView {
    Move(Seq<char>, Seq<char>),
    Button(Seq<char>, Seq<char>, bool, i32),
    Scroll(Seq<char>, Seq<char>, Seq<char>),
}

impl View for PointerEvent {
    type V = PointerEventView;

    open spec fn view(&self) -> PointerEventView {
        match self {
            PointerEvent::Move { x, y } => PointerEventView::Move(x@, y@),
            PointerEvent::Button { x, y, down, button } => PointerEventView::Button(
                x@,
                y@,
                *down,
                *button,
            ),
            PointerEvent::Scroll { x, y, detents } => PointerEventView::Scroll(x@, y@, detents@),
        }
    }
}

pub open spec fn pointer_event_views(v: Seq<PointerEvent>) -> Seq<PointerEventView> {
    Seq::new(v.len(), |i: int| v[i]@)
}

/// The events a pointer request queues, in order: a click is a move to the
/// place, a press and a release there; the others are one event each.
pub open spec fn spec_pointer_events(p: PointerView) -> Seq<PointerEventView> {
    match p {
        PointerView::Move(x, y) => seq![PointerEventView::Move(x, y)],
        PointerView::Click(x, y, button) => seq![
            PointerEventView::Move(x, y),
            PointerEventView::Button(x, y, true, button),
            PointerEventView::Button(x, y, false, button),
        ],
        PointerView::Button(x, y, down, button) => seq![
            PointerEventView::Button(x, y, down, button),
        ],
        PointerView::Scroll(x, y, detents) => seq![PointerEventView::Scroll(x, y, detents)],
    }
}

/// The events a pointer request queues, in order.
pub fn pointer_events(p: Pointer) -> (v: Vec<PointerEvent>)
    ensures
        pointer_event_views(v@) == spec_pointer_events(p@),
{
    let mut v: Vec<PointerEvent> = Vec::new();
    match p {
        Pointer::Move { x, y } => {
            v.push(PointerEvent::Move { x, y });
        },
        Pointer::Click { x, y, button } => {
            v.push(PointerEvent::Move { x: x.clone(), y: y.clone() });
            v.push(PointerEvent::Button { x: x.clone(), y: y.clone(), down: true, button });
            v.push(PointerEvent::Button { x, y, down: false, button });
        },
        Pointer::Button { x, y, down, button } => {
            v.push(PointerEvent::Button { x, y, down, button });
        },
        Pointer::Scroll { x, y, detents } => {
            v.push(PointerEvent::Scroll { x, y, detents });
        },
    }
    assert(pointer_event_views(v@) =~= spec_pointer_events(p@));
    v
}

/// The `i`th word, if there is one.
pub open spec fn word(w: Seq<Seq<char>>, i: int) -> Option<Seq<char>> {
    if 0 <= i < w.len() {
        Some(w[i])
    } else {
        None
    }
}

/// An optional integer argument as `str::parse::<i32>` reads it, or the
/// default when it is missing or not one.
pub open spec fn int_or(a: Option<Seq<char>>, default: i32) -> i32 {
    match a {
        Some(t) => match parse_signed(t, i32::MIN as int, i32::MAX as int) {
            Some(v) => v as i32,
            None => default,
        },
        None => default,
    }
}

/// A required integer argument.
pub open spec fn int_arg(a: Option<Seq<char>>) -> Option<i32> {
    match a {
        Some(t) => match parse_signed(t, i32::MIN as int, i32::MAX as int) {
            Some(v) => Some(v as i32),
            None => None,
        },
        None => None,
    }
}

/// The usage answer for a pointer verb.
pub open spec fn button_usage(verb: Seq<char>) -> Seq<char> {
    "err "@ + verb + " <x> <y> [button]"@
}

/// What a line asks for. The line is split into whitespace-separated words;
/// the first is the verb and the rest its arguments, extra ones ignored.
/// `text` takes everything after the first whitespace character, trimmed.
pub open spec fn spec_request(line: Seq<char>) -> RequestView {
    let w = words(line);
    if w.len() == 0 {
        RequestView::Reply("ok"@)
    } else {
        let verb = w[0];
        if verb == "ping"@ {
            RequestView::Reply("ok"@)
        } else if verb == "info"@ {
            RequestView::Ask(QueryView::Info)
        } else if verb == "textbox"@ {
            RequestView::Ask(QueryView::Textbox)
        } else if verb == "pointerlock"@ {
            RequestView::Ask(QueryView::PointerLock)
        } else if verb == "fakeenginelock"@ {
            match word(w, 1) {
                Some(v) => if v == "true"@ {
                    RequestView::FakeEngineLock(2, "ok fakeenginelock=true"@)
                } else if v == "false"@ {
                    RequestView::FakeEngineLock(1, "ok fakeenginelock=false"@)
                } else if v == "clear"@ {
                    RequestView::FakeEngineLock(0, "ok fakeenginelock=clear"@)
                } else {
                    RequestView::Reply("err fakeenginelock <true|false|clear>"@)
                },
                None => RequestView::Reply("err fakeenginelock <true|false|clear>"@),
            }
        } else if verb == "natives"@ {
            match word(w, 1) {
                Some(class) => RequestView::Ask(QueryView::Natives(class)),
                None => RequestView::Reply("err natives <java/class/Name>"@),
            }
        } else if verb == "loopers"@ {
            RequestView::Ask(QueryView::Loopers)
        } else if verb == "move"@ {
            match (word(w, 1), word(w, 2)) {
                (Some(x), Some(y)) => RequestView::Pointer(PointerView::Move(x, y), "err move <x> <y>"@),
                _ => RequestView::Reply("err move <x> <y>"@),
            }
        } else if verb == "click"@ {
            match (word(w, 1), word(w, 2)) {
                (Some(x), Some(y)) => RequestView::Pointer(
                    PointerView::Click(x, y, int_or(word(w, 3), 1)),
                    "err click <x> <y> [button]"@,
                ),
                _ => RequestView::Reply("err click <x> <y> [button]"@),
            }
        } else if verb == "down"@ || verb == "up"@ {
            match (word(w, 1), word(w, 2)) {
                (Some(x), Some(y)) => RequestView::Pointer(
                    PointerView::Button(x, y, verb == "down"@, int_or(word(w, 3), 1)),
                    button_usage(verb),
                ),
                _ => RequestView::Reply(button_usage(verb)),
            }
        } else if verb == "key"@ {
            match int_arg(word(w, 2)) {
                Some(evdev) => RequestView::Queue(
                    seq![QueuedView::Key(word(w, 1) == Some("down"@), evdev, int_or(word(w, 3), 0))],
                ),
                None => RequestView::Reply("err key <down|up> <evdev-code> [modifiers]"@),
            }
        } else if verb == "tap"@ {
            match int_arg(word(w, 1)) {
                Some(evdev) => {
                    let m = int_or(word(w, 2), 0);
                    RequestView::Queue(
                        seq![QueuedView::Key(true, evdev, m), QueuedView::Key(false, evdev, m)],
                    )
                },
                None => RequestView::Reply("err tap <evdev-code> [modifiers]"@),
            }
        } else if verb == "text"@ {
            let rest = trim(
                match after_first_whitespace(line) {
                    Some(r) => r,
                    None => seq![],
                },
            );
            if rest.len() == 0 {
                RequestView::Reply("err text <string>"@)
            } else {
                RequestView::Queue(seq![QueuedView::Text(rest)])
            }
        } else if verb == "fullscreen"@ || verb == "windowed"@ {
            RequestView::Queue(seq![QueuedView::Fullscreen(verb == "fullscreen"@)])
        } else if verb == "scroll"@ {
            match (word(w, 1), word(w, 2), word(w, 3)) {
                (Some(x), Some(y), Some(d)) => RequestView::Pointer(
                    PointerView::Scroll(x, y, d),
                    "err scroll <x> <y> <detents>"@,
                ),
                _ => RequestView::Reply("err scroll <x> <y> <detents>"@),
            }
        } else if verb == "screenshot"@ {
            match word(w, 1) {
                Some(path) => RequestView::Ask(QueryView::Screenshot(path)),
                None => RequestView::Reply("err screenshot <path>"@),
            }
        } else {
            RequestView::Reply("err unknown verb "@ + str_debug(verb))
        }
    }
}

fn reply(s: &str) -> (r: Request)
    ensures
        r@ == RequestView::Reply(s@),
{
    Request::Reply(String::from_str(s))
}

fn word_at(w: &Vec<Vec<char>>, i: usize) -> (r: Option<String>)
    ensures
        match word(views(w@), i as int) {
            Some(t) => r matches Some(s) && s@ == t,
            None => r is None,
        },
{
    if i < w.len() {
        Some(string_of(w[i].as_slice()))
    } else {
        None
    }
}

fn int_or_exec(a: &Option<String>, default: i32) -> (v: i32)
    ensures
        v == int_or(
            match a {
                Some(s) => Some(s@),
                None => None,
            },
            default,
        ),
{
    match a {
        Some(s) => {
            let cs = chars_of(s.as_str());
            match parse_i32(cs.as_slice()) {
                Some(v) => v,
                None => default,
            }
        },
        None => default,
    }
}

fn int_arg_exec(a: &Option<String>) -> (v: Option<i32>)
    ensures
        v == int_arg(
            match a {
                Some(s) => Some(s@),
                None => None,
            },
        ),
{
    match a {
        Some(s) => {
            let cs = chars_of(s.as_str());
            parse_i32(cs.as_slice())
        },
        None => None,
    }
}

fn usage_for(verb: &str) -> (u: String)
    ensures
        u@ == button_usage(verb@),
{
    let mut out: Vec<char> = Vec::new();
    push_str(&mut out, "err ");
    push_str(&mut out, verb);
    push_str(&mut out, " <x> <y> [button]");
    string_of(out.as_slice())
}

/// What a line asks for.
pub fn parse_request(line: &str) -> (r: Request)
    ensures
        r@ == spec_request(line@),
{
    let cs = chars_of(line);
    let w = words_exec(cs.as_slice());
    let ghost wv = views(w@);
    if w.len() == 0 {
        return reply("ok");
    }
    assert(wv[0] == w@[0]@);
    let verb = string_of(w[0].as_slice());
    let v = w[0].as_slice();
    if eq_str(v, "ping") {
        reply("ok")
    } else if eq_str(v, "info") {
        Request::Ask(Query::Info)
    } else if eq_str(v, "textbox") {
        Request::Ask(Query::Textbox)
    } else if eq_str(v, "pointerlock") {
        Request::Ask(Query::PointerLock)
    } else if eq_str(v, "fakeenginelock") {
        match word_at(&w, 1) {
            Some(a) => {
                let ac = chars_of(a.as_str());
                if eq_str(ac.as_slice(), "true") {
                    Request::FakeEngineLock { code: 2, reply: String::from_str("ok fakeenginelock=true") }
                } else if eq_str(ac.as_slice(), "false") {
                    Request::FakeEngineLock { code: 1, reply: String::from_str("ok fakeenginelock=false") }
                } else if eq_str(ac.as_slice(), "clear") {
                    Request::FakeEngineLock { code: 0, reply: String::from_str("ok fakeenginelock=clear") }
                } else {
                    reply("err fakeenginelock <true|false|clear>")
                }
            },
            None => reply("err fakeenginelock <true|false|clear>"),
        }
    } else if eq_str(v, "natives") {
        match word_at(&w, 1) {
            Some(class) => Request::Ask(Query::Natives(class)),
            None => reply("err natives <java/class/Name>"),
        }
    } else if eq_str(v, "loopers") {
        Request::Ask(Query::Loopers)
    } else if eq_str(v, "move") {
        match (word_at(&w, 1), word_at(&w, 2)) {
            (Some(x), Some(y)) => Request::Pointer {
                request: Pointer::Move { x, y },
                usage: String::from_str("err move <x> <y>"),
            },
            _ => reply("err move <x> <y>"),
        }
    } else if eq_str(v, "click") {
        match (word_at(&w, 1), word_at(&w, 2)) {
            (Some(x), Some(y)) => {
                let button = int_or_exec(&word_at(&w, 3), 1);
                Request::Pointer {
                    request: Pointer::Click { x, y, button },
                    usage: String::from_str("err click <x> <y> [button]"),
                }
            },
            _ => reply("err click <x> <y> [button]"),
        }
    } else if eq_str(v, "down") || eq_str(v, "up") {
        let down = eq_str(v, "down");
        match (word_at(&w, 1), word_at(&w, 2)) {
            (Some(x), Some(y)) => {
                let button = int_or_exec(&word_at(&w, 3), 1);
                Request::Pointer {
                    request: Pointer::Button { x, y, down, button },
                    usage: usage_for(verb.as_str()),
                }
            },
            _ => Request::Reply(usage_for(verb.as_str())),
        }
    } else if eq_str(v, "key") {
        let down_word = word_at(&w, 1);
        let down = match &down_word {
            Some(d) => {
                let dc = chars_of(d.as_str());
                eq_str(dc.as_slice(), "down")
            },
            None => false,
        };
        proof {
            reveal_strlit("down");
        }
        match int_arg_exec(&word_at(&w, 2)) {
            Some(evdev) => {
                let modifiers = int_or_exec(&word_at(&w, 3), 0);
                let mut q: Vec<Queued> = Vec::new();
                q.push(Queued::Key { down, evdev, modifiers });
                assert(queued_views(q@) =~= seq![QueuedView::Key(down, evdev, modifiers)]);
                Request::Queue(q)
            },
            None => reply("err key <down|up> <evdev-code> [modifiers]"),
        }
    } else if eq_str(v, "tap") {
        match int_arg_exec(&word_at(&w, 1)) {
            Some(evdev) => {
                let modifiers = int_or_exec(&word_at(&w, 2), 0);
                let mut q: Vec<Queued> = Vec::new();
                q.push(Queued::Key { down: true, evdev, modifiers });
                q.push(Queued::Key { down: false, evdev, modifiers });
                assert(queued_views(q@) =~= seq![
                    QueuedView::Key(true, evdev, modifiers),
                    QueuedView::Key(false, evdev, modifiers),
                ]);
                Request::Queue(q)
            },
            None => reply("err tap <evdev-code> [modifiers]"),
        }
    } else if eq_str(v, "text") {
        let rest = match after_first_whitespace_exec(cs.as_slice()) {
            Some(r) => trim_exec(r.as_slice()),
            None => {
                let empty: Vec<char> = Vec::new();
                assert(trim(empty@) =~= Seq::<char>::empty()) by {
                    assert(empty@ =~= Seq::<char>::empty());
                }
                trim_exec(empty.as_slice())
            },
        };
        if rest.len() == 0 {
            reply("err text <string>")
        } else {
            let mut q: Vec<Queued> = Vec::new();
            q.push(Queued::Text(string_of(rest.as_slice())));
            assert(queued_views(q@) =~= seq![QueuedView::Text(rest@)]);
            Request::Queue(q)
        }
    } else if eq_str(v, "fullscreen") || eq_str(v, "windowed") {
        let on = eq_str(v, "fullscreen");
        let mut q: Vec<Queued> = Vec::new();
        q.push(Queued::Fullscreen(on));
        assert(queued_views(q@) =~= seq![QueuedView::Fullscreen(on)]);
        Request::Queue(q)
    } else if eq_str(v, "scroll") {
        match (word_at(&w, 1), word_at(&w, 2), word_at(&w, 3)) {
            (Some(x), Some(y), Some(detents)) => Request::Pointer {
                request: Pointer::Scroll { x, y, detents },
                usage: String::from_str("err scroll <x> <y> <detents>"),
            },
            _ => reply("err scroll <x> <y> <detents>"),
        }
    } else if eq_str(v, "screenshot") {
        match word_at(&w, 1) {
            Some(path) => Request::Ask(Query::Screenshot(path)),
            None => reply("err screenshot <path>"),
        }
    } else {
        let shown = debug_text(verb.as_str());
        let mut out: Vec<char> = Vec::new();
        push_str(&mut out, "err unknown verb ");
        push_str(&mut out, shown.as_str());
        Request::Reply(string_of(out.as_slice()))
    }
}

// ------------------------------------------------------------ answers

/// `natives <class>`'s answer, given the space-separated list the engine
/// registered: the class, how many, and the list itself.
pub open spec fn spec_natives_reply(class: Seq<char>, list: Seq<char>) -> Seq<char> {
    if list.len() == 0 {
        "ok class="@ + class + " natives=0"@
    } else {
        "ok class="@ + class + " natives="@ + decimal(words(list).len()) + " "@ + list
    }
}

pub fn natives_reply(class: &str, list: &str) -> (r: String)
    ensures
        r@ == spec_natives_reply(class@, list@),
{
    let lc = chars_of(list);
    let mut out: Vec<char> = Vec::new();
    push_str(&mut out, "ok class=");
    push_str(&mut out, class);
    if lc.len() == 0 {
        push_str(&mut out, " natives=0");
    } else {
        let n = words_exec(lc.as_slice()).len();
        push_str(&mut out, " natives=");
        push_decimal(&mut out, n as u64);
        push_str(&mut out, " ");
        push_all(&mut out, lc.as_slice());
    }
    string_of(out.as_slice())
}

/// `screenshot <path>`'s answer: `ok` and the capture's description, or
/// `err` and why.
pub fn screenshot_reply(result: Result<String, String>) -> (r: String)
    ensures
        match result {
            Ok(desc) => r@ == "ok "@ + desc@,
            Err(e) => r@ == "err "@ + e@,
        },
{
    let (head, tail) = match &result {
        Ok(desc) => ("ok ", desc.as_str()),
        Err(e) => ("err ", e.as_str()),
    };
    let mut out: Vec<char> = Vec::new();
    push_str(&mut out, head);
    push_str(&mut out, tail);
    string_of(out.as_slice())
}

/// `CORDIAL_DEV_CONTROL`: asked for when set to anything but empty or `0`.
pub fn enabled_for(v: Option<&str>) -> (on: bool)
    ensures
        on == (v matches Some(t) && t@ != "0"@ && t@.len() > 0),
{
    match v {
        Some(t) => {
            let cs = chars_of(t);
            !eq_str(cs.as_slice(), "0") && cs.len() > 0
        },
        None => false,
    }
}

// ------------------------------------------------------------ laws

proof fn lemma_starts_with_prefix(a: Seq<char>, b: Seq<char>, p: Seq<char>)
    requires
        starts_with(a, p),
    ensures
        starts_with(a + b, p),
{
    assert((a + b).subrange(0, p.len() as int) =~= a.subrange(0, p.len() as int));
}

/// A pointer button request carries the button it names: `click`, `down`
/// and `up` with a place take their fourth word as the button whenever it
/// reads as an `i32`, and only a missing or unreadable one means button 1. The
/// place is carried as the two words after the verb, and `down` presses while
/// `up` releases.
pub proof fn law_a_pointer_request_carries_its_button(line: Seq<char>)
    requires
        words(line).len() >= 3,
        words(line)[0] == "click"@ || words(line)[0] == "down"@ || words(line)[0] == "up"@,
    ensures
        ({
            let w = words(line);
            let named = if w.len() >= 4 {
                parse_signed(w[3], -2147483648, 2147483647)
            } else {
                None
            };
            let button: i32 = match named {
                Some(n) => n as i32,
                None => 1,
            };
            spec_request(line) matches RequestView::Pointer(p, _) && p == if w[0] == "click"@ {
                PointerView::Click(w[1], w[2], button)
            } else {
                PointerView::Button(w[1], w[2], w[0] == "down"@, button)
            }
        }),
{
    reveal_strlit("ping");
    reveal_strlit("info");
    reveal_strlit("textbox");
    reveal_strlit("pointerlock");
    reveal_strlit("fakeenginelock");
    reveal_strlit("natives");
    reveal_strlit("loopers");
    reveal_strlit("move");
    reveal_strlit("click");
    reveal_strlit("down");
    reveal_strlit("up");
    assert("down"@ != "ping"@) by {
        assert("down"@[0] != "ping"@[0]);
    }
    assert("down"@ != "info"@) by {
        assert("down"@[0] != "info"@[0]);
    }
    assert("down"@ != "move"@) by {
        assert("down"@[0] != "move"@[0]);
    }
}

/// A key request queues the key it names: `key <down|up> <code> [modifiers]`
/// one event, pressed exactly when the second word is `down`; `tap <code>
/// [modifiers]` a press and then a release of it. The modifiers are the next
/// word when it reads as an `i32`, and none otherwise.
pub proof fn law_a_key_request_queues_its_key(line: Seq<char>)
    requires
        words(line).len() >= 1,
        words(line)[0] == "key"@ || words(line)[0] == "tap"@,
    ensures
        ({
            let w = words(line);
            let at = if w[0] == "key"@ { 2int } else { 1int };
            let code = if w.len() > at {
                parse_signed(w[at], -2147483648, 2147483647)
            } else {
                None
            };
            let named = if w.len() > at + 1 {
                parse_signed(w[at + 1], -2147483648, 2147483647)
            } else {
                None
            };
            let modifiers: i32 = match named {
                Some(n) => n as i32,
                None => 0,
            };
            code matches Some(c) ==> spec_request(line) == RequestView::Queue(
                if w[0] == "key"@ {
                    seq![QueuedView::Key(w[1] == "down"@, c as i32, modifiers)]
                } else {
                    seq![QueuedView::Key(true, c as i32, modifiers), QueuedView::Key(false, c as i32, modifiers)]
                },
            )
        }),
{
    reveal_strlit("ping");
    reveal_strlit("info");
    reveal_strlit("textbox");
    reveal_strlit("pointerlock");
    reveal_strlit("fakeenginelock");
    reveal_strlit("natives");
    reveal_strlit("loopers");
    reveal_strlit("move");
    reveal_strlit("click");
    reveal_strlit("down");
    reveal_strlit("up");
    reveal_strlit("key");
    reveal_strlit("tap");
    assert("key"@ != "tap"@) by {
        assert("key"@[0] != "tap"@[0]);
    }
}

/// What the protocol answers on its own: `ok` or `err` leading every line.
pub open spec fn ok_or_err(r: Seq<char>) -> bool {
    starts_with(r, "ok"@) || starts_with(r, "err"@)
}

/// One line in, one line out, `ok` or `err <why>`: every answer this module
/// gives itself — a reply, the engine-lock seam's answer, and the usage a
/// pointer request falls back to — leads with one of the two.
pub proof fn law_every_answer_is_ok_or_err(line: Seq<char>)
    ensures
        match spec_request(line) {
            RequestView::Reply(r) => ok_or_err(r),
            RequestView::FakeEngineLock(_, r) => ok_or_err(r),
            RequestView::Pointer(_, usage) => ok_or_err(usage),
            _ => true,
        },
{
    reveal_strlit("ok");
    reveal_strlit("err");
    reveal_strlit("err fakeenginelock <true|false|clear>");
    reveal_strlit("err natives <java/class/Name>");
    reveal_strlit("err move <x> <y>");
    reveal_strlit("err click <x> <y> [button]");
    reveal_strlit("err key <down|up> <evdev-code> [modifiers]");
    reveal_strlit("err tap <evdev-code> [modifiers]");
    reveal_strlit("err text <string>");
    reveal_strlit("err scroll <x> <y> <detents>");
    reveal_strlit("err screenshot <path>");
    reveal_strlit("err unknown verb ");
    reveal_strlit("err ");
    reveal_strlit("ok fakeenginelock=true");
    reveal_strlit("ok fakeenginelock=false");
    reveal_strlit("ok fakeenginelock=clear");
    assert("err fakeenginelock <true|false|clear>"@.subrange(0, 3) =~= "err"@);
    assert("err natives <java/class/Name>"@.subrange(0, 3) =~= "err"@);
    assert("err move <x> <y>"@.subrange(0, 3) =~= "err"@);
    assert("err click <x> <y> [button]"@.subrange(0, 3) =~= "err"@);
    assert("err key <down|up> <evdev-code> [modifiers]"@.subrange(0, 3) =~= "err"@);
    assert("err tap <evdev-code> [modifiers]"@.subrange(0, 3) =~= "err"@);
    assert("err text <string>"@.subrange(0, 3) =~= "err"@);
    assert("err scroll <x> <y> <detents>"@.subrange(0, 3) =~= "err"@);
    assert("err screenshot <path>"@.subrange(0, 3) =~= "err"@);
    assert("err unknown verb "@.subrange(0, 3) =~= "err"@);
    assert("err "@.subrange(0, 3) =~= "err"@);
    assert("ok"@.subrange(0, 2) =~= "ok"@);
    assert("ok fakeenginelock=true"@.subrange(0, 2) =~= "ok"@);
    assert("ok fakeenginelock=false"@.subrange(0, 2) =~= "ok"@);
    assert("ok fakeenginelock=clear"@.subrange(0, 2) =~= "ok"@);
    let w = words(line);
    if w.len() > 0 {
        let verb = w[0];
        lemma_starts_with_prefix("err "@, verb + " <x> <y> [button]"@, "err"@);
        assert("err "@ + verb + " <x> <y> [button]"@ =~= "err "@ + (verb + " <x> <y> [button]"@));
        lemma_starts_with_prefix("err unknown verb "@, str_debug(verb), "err"@);
    }
}

} // verus!
