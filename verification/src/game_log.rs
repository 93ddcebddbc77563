//! What the engine's own log says about joining and leaving a game.
//!
//! The engine writes a log into a directory Cordial created, and Cordial
//! reads it. The markers below were read off a real capture rather than
//! guessed:
//!
//! ```text
//! [FLog::GameJoinLoadTime] Report game_join_loadtime: sid:..., \
//!     placeid:17625359962, userid:1826805362, universeid:6035872082,
//! [FLog::Network] UDMUX Address = 128.116.51.33, Port = 50363 | \
//!     RCC Server Address = 10.60.2.168, Port = 50363
//! [FLog::SingleSurfaceApp] leaveUGCGameInternal
//! ```
//!
//! The log carries no game name, and this module does not invent one. The
//! `UDMUX Address` is the server's address and not its location.

use vstd::prelude::*;
use crate::bloxstrap_rpc::{
    fresh_presence, payload_value, presence_apply, CommandView, Presence, PresenceView, MARKER,
};
use crate::bloxstrap_rpc::parse_line as parse_rpc_line;
use crate::bloxstrap_rpc::spec_parse_line as spec_parse_rpc_line;
use crate::json::{
    Json, JsonValue,
};
use crate::text::{
    byte_len, chars_of, decimal, push_decimal, push_str, contains, contains_exec, eq_str, find_in,
    first_in, is_digit, is_digit_exec, is_whitespace, join, lemma_first_in_bounds, parse_u64,
    parse_unsigned, push_all, seq_eq, slice_of, split_once, split_once_str, string_of, trim_end,
    trim_end_exec, utf8_len,
};

verus! {

/// Something worth knowing that happened in a game.
#[derive(Debug, Clone, PartialEq, Eq)]
pub enum Event {
    /// A game was joined. Both ids come off the same line.
    Joined { place_id: u64, universe_id: u64 },
    /// The address the client is connected through, from the same join.
    Server { address: String, port: u16 },
    /// The user left the game and went back to the app: `leaveUGCGameInternal`,
    /// not a disconnect.
    Left,
    /// A `[BloxstrapRPC]` line, handed on verbatim for
    /// [`crate::bloxstrap_rpc::parse_line`] to decode.
    Rpc(String),
}

pub enum EventView {
    Joined(u64, u64),
    Server(Seq<char>, u16),
    Left,
    Rpc(Seq<char>),
}

impl View for Event {
    type V = EventView;

    open spec fn view(&self) -> EventView {
        match self {
            Event::Joined { place_id, universe_id } => EventView::Joined(*place_id, *universe_id),
            Event::Server { address, port } => EventView::Server(address@, *port),
            Event::Left => EventView::Left,
            Event::Rpc(line) => EventView::Rpc(line@),
        }
    }
}

pub open spec fn option_event_view(e: Option<Event>) -> Option<EventView> {
    match e {
        Some(ev) => Some(ev@),
        None => None,
    }
}

/// The run of digits `s` starts with.
pub open spec fn leading_digits(s: Seq<char>) -> Seq<char>
    decreases s.len(),
{
    if s.len() > 0 && is_digit(s[0]) {
        seq![s[0]] + leading_digits(s.drop_first())
    } else {
        seq![]
    }
}

/// The number in the digits following `key`, stopping at the first non-digit.
pub open spec fn spec_field_u64(line: Seq<char>, key: Seq<char>) -> Option<nat> {
    match split_once(line, key) {
        Some(parts) => parse_unsigned(leading_digits(parts.1), u64::MAX as nat),
        None => None,
    }
}

/// The characters that end a field on the network line.
pub open spec fn field_stops() -> Seq<char> {
    seq![',', ' ', '|']
}

/// The text following `key`, up to any of `stop`; never empty.
pub open spec fn spec_field_after(line: Seq<char>, key: Seq<char>, stop: Seq<char>) -> Option<
    Seq<char>,
> {
    match split_once(line, key) {
        Some(parts) => {
            let rest = parts.1;
            let end = match first_in(rest, stop) {
                Some(i) => i,
                None => rest.len() as int,
            };
            if end > 0 {
                Some(rest.subrange(0, end))
            } else {
                None
            }
        },
        None => None,
    }
}

/// One log line, or `None` if it is not one of the four.
pub open spec fn spec_parse_line(line: Seq<char>) -> Option<EventView> {
    if contains(line, MARKER@) {
        Some(EventView::Rpc(line))
    } else if contains(line, "[FLog::SingleSurfaceApp] leaveUGCGameInternal"@) {
        Some(EventView::Left)
    } else if contains(line, "[FLog::GameJoinLoadTime]"@) && contains(line, "game_join_loadtime"@) {
        match (spec_field_u64(line, "placeid:"@), spec_field_u64(line, "universeid:"@)) {
            (Some(place), Some(universe)) => Some(EventView::Joined(place as u64, universe as u64)),
            _ => None,
        }
    } else if contains(line, "[FLog::Network] UDMUX Address"@) {
        match spec_field_after(line, "UDMUX Address = "@, field_stops()) {
            None => None,
            Some(address) => match split_once(line, "UDMUX Address"@) {
                None => None,
                Some(parts) => match spec_field_after(parts.1, "Port = "@, field_stops()) {
                    None => None,
                    Some(p) => match parse_unsigned(p, u16::MAX as nat) {
                        Some(port) => Some(EventView::Server(address, port as u16)),
                        None => None,
                    },
                },
            },
        }
    } else {
        None
    }
}

/// One log line, or `None` if it is not one of the four.
///
/// Every field is found by name rather than by position, so a build that adds
/// a field to the join line does not shift the meaning of the others.
pub fn parse_line(line: &str) -> (e: Option<Event>)
    ensures
        option_event_view(e) == spec_parse_line(line@),
{
    let cs = chars_of(line);
    if contains_exec(cs.as_slice(), MARKER) {
        return Some(Event::Rpc(String::from_str(line)));
    }
    if contains_exec(cs.as_slice(), "[FLog::SingleSurfaceApp] leaveUGCGameInternal") {
        return Some(Event::Left);
    }
    if contains_exec(cs.as_slice(), "[FLog::GameJoinLoadTime]") && contains_exec(
        cs.as_slice(),
        "game_join_loadtime",
    ) {
        // Both or neither: a join with one id and not the other is a line this
        // parser does not understand.
        let place_id = match field_u64(cs.as_slice(), "placeid:") {
            Some(v) => v,
            None => return None,
        };
        let universe_id = match field_u64(cs.as_slice(), "universeid:") {
            Some(v) => v,
            None => return None,
        };
        return Some(Event::Joined { place_id, universe_id });
    }
    if contains_exec(cs.as_slice(), "[FLog::Network] UDMUX Address") {
        // The UDMUX address, not the "RCC Server Address" later on the same
        // line, which is private to Roblox's own network.
        let stops = vec![',', ' ', '|'];
        assert(stops@ =~= field_stops());
        let address = match field_after(cs.as_slice(), "UDMUX Address = ", stops.as_slice()) {
            Some(a) => a,
            None => return None,
        };
        let rest = match split_once_str(cs.as_slice(), "UDMUX Address") {
            Some((_, r)) => r,
            None => return None,
        };
        let port_text = match field_after(rest.as_slice(), "Port = ", stops.as_slice()) {
            Some(p) => p,
            None => return None,
        };
        let port = match parse_u64(port_text.as_slice()) {
            Some(v) => {
                if v > 65535 {
                    return None;
                }
                v as u16
            },
            None => return None,
        };
        return Some(Event::Server { address: string_of(address.as_slice()), port });
    }
    None
}

fn leading_digits_exec(s: &[char]) -> (d: Vec<char>)
    ensures
        d@ == leading_digits(s@),
{
    let n = s.len();
    let mut i: usize = 0;
    assert(s@.subrange(0, n as int) =~= s@);
    while i < n && is_digit_exec(s[i])
        invariant
            n == s@.len(),
            i <= n,
            forall|j: int| 0 <= j < i ==> is_digit(#[trigger] s@[j]),
            leading_digits(s@) == s@.subrange(0, i as int) + leading_digits(
                s@.subrange(i as int, n as int),
            ),
        decreases n - i,
    {
        let ghost rest = s@.subrange(i as int, n as int);
        assert(rest.drop_first() =~= s@.subrange(i + 1, n as int));
        assert(s@.subrange(0, i + 1) =~= s@.subrange(0, i as int) + seq![s@[i as int]]);
        i = i + 1;
    }
    assert(leading_digits(s@.subrange(i as int, n as int)) =~= Seq::<char>::empty());
    slice_of(s, 0, i)
}

/// The digits following `key`, stopping at the first non-digit.
fn field_u64(line: &[char], key: &str) -> (v: Option<u64>)
    ensures
        v matches Some(x) ==> spec_field_u64(line@, key@) == Some(x as nat),
        v is None ==> spec_field_u64(line@, key@) is None,
{
    let rest = match split_once_str(line, key) {
        Some((_, r)) => r,
        None => return None,
    };
    let digits = leading_digits_exec(rest.as_slice());
    parse_u64(digits.as_slice())
}

/// The text following `key`, up to any of `stop`.
fn field_after(line: &[char], key: &str, stop: &[char]) -> (v: Option<Vec<char>>)
    ensures
        v matches Some(x) ==> spec_field_after(line@, key@, stop@) == Some(x@),
        v is None ==> spec_field_after(line@, key@, stop@) is None,
{
    let rest = match split_once_str(line, key) {
        Some((_, r)) => r,
        None => return None,
    };
    let end = match find_in(rest.as_slice(), stop) {
        Some(i) => i,
        None => rest.len(),
    };
    proof {
        lemma_first_in_bounds(rest@, stop@);
    }
    if end > 0 {
        Some(slice_of(rest.as_slice(), 0, end))
    } else {
        None
    }
}

/// `CORDIAL_CLOSE_ON_LEAVE`'s decision: exactly `1`, `true` or `yes` turns it
/// on, and anything else — absence included — leaves it off.
pub fn close_on_leave_for(v: Option<&str>) -> (on: bool)
    ensures
        on == (v matches Some(s) && (s@ == "1"@ || s@ == "true"@ || s@ == "yes"@)),
{
    match v {
        Some(s) => {
            let cs = chars_of(s);
            eq_str(cs.as_slice(), "1") || eq_str(cs.as_slice(), "true") || eq_str(
                cs.as_slice(),
                "yes",
            )
        },
        None => false,
    }
}


// ------------------------------------------------------------ the watcher

/// How often the directory is re-scanned for a newer log file, in
/// milliseconds.
pub const RESCAN_MS: u64 = 1000;

/// Tails the newest log in a directory, reporting whole lines as they land.
///
/// This is the decision half: which file is being followed, how far into it,
/// when to look for a newer one, and what to do with a partial final line.
/// The caller reads the directory and the file and hands over what it found.
pub struct Watcher {
    dir: String,
    /// The file being followed, and how far into it has been read.
    ///
    /// The offset is kept rather than a handle so that a truncated or rotated
    /// file is noticed.
    current: Option<(String, u64)>,
    /// When the directory was last scanned, in milliseconds on the caller's
    /// monotonic clock.
    last_scan: Option<u64>,
    /// A partial final line, held until its newline arrives. Handing half a
    /// join line to `parse_line` would miss the join for good.
    partial: String,
}

pub struct WatcherView {
    pub dir: Seq<char>,
    pub current: Option<(Seq<char>, u64)>,
    pub last_scan: Option<u64>,
    pub partial: Seq<char>,
}

impl View for Watcher {
    type V = WatcherView;

    closed spec fn view(&self) -> WatcherView {
        WatcherView {
            dir: self.dir@,
            current: match self.current {
                Some(c) => Some((c.0@, c.1)),
                None => None,
            },
            last_scan: self.last_scan,
            partial: self.partial@,
        }
    }
}

/// What one line, as `read_line` returned it, does to the partial line: a
/// newline completes it (trailing whitespace trimmed) and it is parsed; no
/// newline means the writer is mid-line and the text is held.
pub open spec fn feed_line(partial: Seq<char>, line: Seq<char>) -> (Seq<char>, Option<EventView>) {
    if line.len() > 0 && line.last() == '\n' {
        (seq![], spec_parse_line(partial + trim_end(line)))
    } else {
        (partial + line, None)
    }
}

/// Every line in turn: the partial line left at the end, and the events.
pub open spec fn feed_lines(partial: Seq<char>, lines: Seq<Seq<char>>) -> (
    Seq<char>,
    Seq<EventView>,
)
    decreases lines.len(),
{
    if lines.len() == 0 {
        (partial, seq![])
    } else {
        let before = feed_lines(partial, lines.drop_last());
        let step = feed_line(before.0, lines.last());
        match step.1 {
            Some(e) => (step.0, before.1.push(e)),
            None => (step.0, before.1),
        }
    }
}

/// How many bytes the lines are, together.
pub open spec fn total_bytes(lines: Seq<Seq<char>>) -> nat
    decreases lines.len(),
{
    if lines.len() == 0 {
        0
    } else {
        total_bytes(lines.drop_last()) + utf8_len(lines.last())
    }
}

pub open spec fn event_views(v: Seq<Event>) -> Seq<EventView> {
    Seq::new(v.len(), |i: int| v[i]@)
}

impl Watcher {
    pub fn new(dir: String) -> (w: Watcher)
        ensures
            w@ == (WatcherView {
                dir: dir@,
                current: None,
                last_scan: None,
                partial: seq![],
            }),
    {
        Watcher { dir, current: None, last_scan: None, partial: String::new() }
    }

    /// The directory being watched.
    pub fn dir(&self) -> (d: &str)
        ensures
            d@ == self@.dir,
    {
        self.dir.as_str()
    }

    /// The file being followed and the offset read up to, if any.
    pub fn following(&self) -> (f: Option<(String, u64)>)
        ensures
            f matches Some(c) ==> self@.current == Some((c.0@, c.1)),
            f is None ==> self@.current is None,
    {
        match &self.current {
            Some((p, off)) => Some((p.clone(), *off)),
            None => None,
        }
    }

    /// Whether a directory scan is due at `now_ms`: none has run yet, or the
    /// last one was at least [`RESCAN_MS`] ago. A due scan is recorded as
    /// having happened now.
    pub fn rescan_if_due(&mut self, now_ms: u64) -> (due: bool)
        ensures
            due == (old(self)@.last_scan matches Some(t) ==> (if now_ms >= t {
                now_ms - t
            } else {
                0
            }) >= RESCAN_MS),
            final(self)@ == (if due {
                WatcherView { last_scan: Some(now_ms), ..old(self)@ }
            } else {
                old(self)@
            }),
    {
        if let Some(t) = self.last_scan {
            let elapsed = if now_ms >= t {
                now_ms - t
            } else {
                0
            };
            if elapsed < RESCAN_MS {
                return false;
            }
        }
        self.last_scan = Some(now_ms);
        true
    }

    /// Adopt `newest` — the most recently modified log in the directory — if
    /// it is not the one already being followed. A newly adopted log is read
    /// from its start: a join during startup is still this session's join.
    pub fn adopt(&mut self, newest: Option<String>)
        ensures
            final(self)@ == (match newest {
                None => old(self)@,
                Some(n) => if old(self)@.current matches Some(c) && c.0 == n@ {
                    old(self)@
                } else {
                    WatcherView { current: Some((n@, 0)), partial: seq![], ..old(self)@ }
                },
            }),
    {
        let newest = match newest {
            Some(n) => n,
            None => return,
        };
        if let Some((p, _)) = &self.current {
            let a = chars_of(p.as_str());
            let b = chars_of(newest.as_str());
            if seq_eq(a.as_slice(), b.as_slice()) {
                return;
            }
        }
        self.current = Some((newest, 0));
        self.partial = String::new();
    }

    /// Weigh the followed file's length against the offset read up to.
    /// Shorter means it was truncated or replaced under the same name, and
    /// reading restarts from zero; equal means nothing new. Answers whether
    /// there is anything to read.
    pub fn observe_length(&mut self, len: u64) -> (more: bool)
        ensures
            match old(self)@.current {
                None => !more && final(self)@ == old(self)@,
                Some(c) => if len < c.1 {
                    !more && final(self)@ == (WatcherView {
                        current: Some((c.0, 0)),
                        partial: seq![],
                        ..old(self)@
                    })
                } else {
                    more == (len > c.1) && final(self)@ == old(self)@
                },
            },
    {
        match &self.current {
            None => false,
            Some((p, off)) => {
                if len < *off {
                    let p = p.clone();
                    self.current = Some((p, 0));
                    self.partial = String::new();
                    false
                } else {
                    len > *off
                }
            },
        }
    }

    /// Take what was read from the followed file, as `read_line` returned
    /// it: every line but perhaps the last ends in a newline. Whole lines are
    /// parsed, a trailing partial one is held for the next call, and the
    /// offset moves past every byte.
    pub fn take_lines(&mut self, lines: Vec<String>) -> (events: Vec<Event>)
        requires
            old(self)@.current matches Some(c) ==> c.1 + total_bytes(string_views(lines@))
                <= u64::MAX,
        ensures
            ({
                let fed = feed_lines(old(self)@.partial, string_views(lines@));
                &&& event_views(events@) == fed.1
                &&& final(self)@.partial == fed.0
                &&& final(self)@.dir == old(self)@.dir
                &&& final(self)@.last_scan == old(self)@.last_scan
                &&& final(self)@.current == (match old(self)@.current {
                    Some(c) => Some(
                        (c.0, (c.1 + total_bytes(string_views(lines@))) as u64),
                    ),
                    None => None,
                })
            }),
    {
        let ghost start = self@;
        let ghost all = string_views(lines@);
        let mut events: Vec<Event> = Vec::new();
        let mut partial = chars_of(self.partial.as_str());
        let mut read: u64 = match &self.current {
            Some((_, off)) => *off,
            None => 0,
        };
        let mut i: usize = 0;
        while i < lines.len()
            invariant
                i <= lines@.len(),
                self@ == start,
                all == string_views(lines@),
                start.current matches Some(c) ==> c.1 + total_bytes(all) <= u64::MAX,
                ({
                    let fed = feed_lines(start.partial, all.subrange(0, i as int));
                    &&& event_views(events@) == fed.1
                    &&& partial@ == fed.0
                }),
                start.current matches Some(c) ==> read == c.1 + total_bytes(
                    all.subrange(0, i as int),
                ),
            decreases lines@.len() - i,
        {
            let ghost prefix = all.subrange(0, i + 1);
            assert(prefix.drop_last() =~= all.subrange(0, i as int));
            assert(prefix.last() == lines@[i as int]@);
            proof {
                lemma_total_bytes_prefix(all, i + 1);
            }
            let line = chars_of(lines[i].as_str());
            let n = byte_len(lines[i].as_str());
            assert(total_bytes(prefix) == total_bytes(all.subrange(0, i as int)) + n);
            if self.current.is_some() {
                read = read + n as u64;
            }
            let ln = line.len();
            if ln > 0 && line[ln - 1] == '\n' {
                let mut whole = partial;
                let trimmed = trim_end_exec(line.as_slice());
                push_all(&mut whole, trimmed.as_slice());
                let text = string_of(whole.as_slice());
                let ev = parse_line(text.as_str());
                match ev {
                    Some(e) => {
                        let ghost before = event_views(events@);
                        events.push(e);
                        assert(event_views(events@) =~= before.push(e@));
                    },
                    None => {},
                }
                partial = Vec::new();
            } else {
                push_all(&mut partial, line.as_slice());
            }
            i = i + 1;
        }
        assert(all.subrange(0, lines@.len() as int) =~= all);
        self.partial = string_of(partial.as_slice());
        match &self.current {
            Some((p, _)) => {
                let p = p.clone();
                self.current = Some((p, read));
            },
            None => {},
        }
        events
    }
}

proof fn lemma_total_bytes_prefix(all: Seq<Seq<char>>, k: int)
    requires
        0 <= k <= all.len(),
    ensures
        total_bytes(all.subrange(0, k)) <= total_bytes(all),
    decreases all.len() - k,
{
    if k < all.len() {
        lemma_total_bytes_prefix(all, k + 1);
        assert(all.subrange(0, k + 1).drop_last() =~= all.subrange(0, k));
    } else {
        assert(all.subrange(0, k) =~= all);
    }
}

pub open spec fn string_views(v: Seq<String>) -> Seq<Seq<char>> {
    Seq::new(v.len(), |i: int| v[i]@)
}


proof fn lemma_trim_end_concat(a: Seq<char>, b: Seq<char>)
    requires
        trim_end(b).len() > 0 || a.len() == 0 || !is_whitespace(a.last()),
    ensures
        trim_end(a + b) == a + trim_end(b),
    decreases b.len(),
{
    if b.len() == 0 {
        assert(a + b =~= a);
        if a.len() > 0 {
            assert(trim_end(a) == a);
        } else {
            assert(trim_end(a) == a);
        }
        assert(a + trim_end(b) =~= a);
    } else if is_whitespace(b.last()) {
        assert((a + b).drop_last() =~= a + b.drop_last());
        assert((a + b).last() == b.last());
        lemma_trim_end_concat(a, b.drop_last());
    } else {
        assert((a + b).last() == b.last());
        assert(trim_end(a + b) == a + b);
    }
}

/// A line that arrives in two pieces — the first without its newline, the
/// second finishing it — yields the same event as the whole line read at
/// once, and leaves nothing held. The one exception is a split that falls
/// inside whitespace trailing the line: the first piece is kept verbatim, so
/// its trailing blanks are not trimmed.
pub proof fn law_a_split_line_is_still_parsed(partial: Seq<char>, head: Seq<char>, tail: Seq<char>)
    requires
        forall|i: int| 0 <= i < head.len() ==> #[trigger] head[i] != '\n',
        tail.len() > 0,
        tail.last() == '\n',
        trim_end(tail).len() > 0 || head.len() == 0 || !is_whitespace(head.last()),
    ensures
        ({
            let first = feed_lines(partial, seq![head]);
            let second = feed_lines(first.0, seq![tail]);
            let whole = feed_lines(partial, seq![head + tail]);
            &&& first.1.len() == 0
            &&& first.1 + second.1 == whole.1
            &&& second.0 == whole.0
            &&& whole.0.len() == 0
        }),
{
    assert(seq![head].drop_last() =~= Seq::<Seq<char>>::empty());
    assert(seq![tail].drop_last() =~= Seq::<Seq<char>>::empty());
    assert(seq![head + tail].drop_last() =~= Seq::<Seq<char>>::empty());
    if head.len() > 0 {
        assert(head.last() != '\n');
    }
    assert((head + tail).last() == '\n');
    lemma_trim_end_concat(head, tail);
    assert(partial + head + trim_end(tail) =~= partial + trim_end(head + tail));
    assert(feed_lines(partial, Seq::<Seq<char>>::empty()) == (partial, Seq::<EventView>::empty()));
    assert(feed_lines(partial + head, Seq::<Seq<char>>::empty()) == (
        partial + head,
        Seq::<EventView>::empty(),
    ));
    assert(seq![head].last() == head);
    assert(seq![tail].last() == tail);
    assert(seq![head + tail].last() == head + tail);
    let first = feed_lines(partial, seq![head]);
    assert(first.0 == partial + head);
    assert(first.1 =~= Seq::<EventView>::empty());
    let second = feed_lines(first.0, seq![tail]);
    let whole = feed_lines(partial, seq![head + tail]);
    assert(first.1 + second.1 =~= second.1);
}

/// Feeding two runs of lines one after the other is feeding them at once:
/// the events of the second follow those of the first, and the line held at
/// the end is the same. So successive polls of a [`Watcher`] lose, repeat and
/// reorder nothing.
pub proof fn law_successive_takes_are_one_take(
    partial: Seq<char>,
    first: Seq<Seq<char>>,
    second: Seq<Seq<char>>,
)
    ensures
        ({
            let a = feed_lines(partial, first);
            let b = feed_lines(a.0, second);
            feed_lines(partial, first + second) == (b.0, a.1 + b.1)
        }),
    decreases second.len(),
{
    let a = feed_lines(partial, first);
    if second.len() == 0 {
        assert(first + second =~= first);
        assert(a.1 + Seq::<EventView>::empty() =~= a.1);
    } else {
        assert((first + second).drop_last() =~= first + second.drop_last());
        assert((first + second).last() == second.last());
        law_successive_takes_are_one_take(partial, first, second.drop_last());
        let b = feed_lines(a.0, second.drop_last());
        let step = feed_line(b.0, second.last());
        match step.1 {
            Some(e) => {
                assert(a.1 + b.1.push(e) =~= (a.1 + b.1).push(e));
            },
            None => {},
        }
    }
}

/// The text of a run of lines, end to end.
pub open spec fn concat_lines(lines: Seq<Seq<char>>) -> Seq<char>
    decreases lines.len(),
{
    if lines.len() == 0 {
        seq![]
    } else {
        concat_lines(lines.drop_last()) + lines.last()
    }
}

/// Where the last newline of `t` sits, or -1.
pub open spec fn last_newline(t: Seq<char>) -> int
    decreases t.len(),
{
    if t.len() == 0 {
        -1
    } else if t.last() == '\n' {
        t.len() - 1
    } else {
        last_newline(t.drop_last())
    }
}

pub proof fn lemma_last_newline(t: Seq<char>)
    ensures
        -1 <= last_newline(t) < t.len(),
        last_newline(t) >= 0 ==> t[last_newline(t)] == '\n',
        forall|k: int| last_newline(t) < k < t.len() ==> t[k] != '\n',
    decreases t.len(),
{
    if t.len() > 0 && t.last() != '\n' {
        lemma_last_newline(t.drop_last());
        assert forall|k: int| last_newline(t) < k < t.len() implies t[k] != '\n' by {
            if k < t.len() - 1 {
                assert(t.drop_last()[k] == t[k]);
            }
        }
    }
}

/// A text cut into its lines: each piece but the last ends in a newline and
/// holds no other; the last is what follows the final newline, if anything.
pub open spec fn lines_of(t: Seq<char>) -> Seq<Seq<char>>
    decreases t.len(),
{
    if t.len() == 0 {
        seq![]
    } else {
        let j = last_newline(t.drop_last());
        proof {
            lemma_last_newline(t.drop_last());
        }
        lines_of(t.subrange(0, j + 1)).push(t.subrange(j + 1, t.len() as int))
    }
}

/// What `read_line` hands back: no newline but perhaps a last one.
pub open spec fn is_read_line(line: Seq<char>) -> bool {
    forall|i: int| 0 <= i < line.len() - 1 ==> #[trigger] line[i] != '\n'
}

/// No line that a run completes has its trailing blanks cut in two: each
/// completed line trims as its held part followed by its trimmed last piece.
pub open spec fn trims_whole(partial: Seq<char>, lines: Seq<Seq<char>>) -> bool
    decreases lines.len(),
{
    if lines.len() == 0 {
        true
    } else {
        let held = feed_lines(partial, lines.drop_last()).0;
        let last = lines.last();
        &&& trims_whole(partial, lines.drop_last())
        &&& (last.len() > 0 && last.last() == '\n') ==> trim_end(held + last) == held + trim_end(
            last,
        )
    }
}

proof fn lemma_last_newline_append(t: Seq<char>, s: Seq<char>)
    requires
        forall|i: int| 0 <= i < s.len() ==> #[trigger] s[i] != '\n',
    ensures
        last_newline(t + s) == last_newline(t),
    decreases s.len(),
{
    if s.len() == 0 {
        assert(t + s =~= t);
    } else {
        assert((t + s).drop_last() =~= t + s.drop_last());
        lemma_last_newline_append(t, s.drop_last());
    }
}

proof fn lemma_lines_of_fed(t: Seq<char>)
    ensures
        ({
            let j = last_newline(t);
            let fed = feed_lines(seq![], lines_of(t));
            &&& -1 <= j < t.len()
            &&& fed.0 == t.subrange(j + 1, t.len() as int)
            &&& fed.1 == feed_lines(seq![], lines_of(t.subrange(0, j + 1))).1
        }),
    decreases t.len(),
{
    lemma_last_newline(t);
    if t.len() == 0 {
        assert(t.subrange(0, 0) =~= t);
    } else {
        let j2 = last_newline(t.drop_last());
        lemma_last_newline(t.drop_last());
        let head = t.subrange(0, j2 + 1);
        let rest = t.subrange(j2 + 1, t.len() as int);
        let pieces = lines_of(t);
        assert(pieces == lines_of(head).push(rest));
        assert(pieces.drop_last() =~= lines_of(head));
        assert(pieces.last() == rest);
        lemma_lines_of_fed(head);
        lemma_last_newline(head);
        if j2 >= 0 {
            assert(head.last() == '\n');
            assert(last_newline(head) == j2);
        }
        assert(head.subrange(last_newline(head) + 1, head.len() as int) =~= Seq::<char>::empty());
        assert(rest.len() > 0);
        assert(rest.last() == t.last());
        if t.last() == '\n' {
            assert(t.subrange(0, t.len() as int) =~= t);
            assert(t.subrange(t.len() as int, t.len() as int) =~= Seq::<char>::empty());
        } else {
            assert(last_newline(t) == j2);
            assert(Seq::<char>::empty() + rest =~= rest);
        }
    }
}

/// Wherever a poll's reads stopped — between lines or in the middle of one —
/// the events of the whole run are those of the text's own lines, each
/// trimmed and parsed in order, and the line held at the end is the text
/// after its last newline. The one exception is a stop inside the blanks
/// that end a line: the held part is kept as it is, so those blanks are not
/// trimmed.
pub proof fn law_events_follow_the_files_lines(partial: Seq<char>, lines: Seq<Seq<char>>)
    requires
        forall|i: int| 0 <= i < partial.len() ==> #[trigger] partial[i] != '\n',
        forall|k: int| 0 <= k < lines.len() ==> is_read_line(#[trigger] lines[k]),
        trims_whole(partial, lines),
    ensures
        feed_lines(partial, lines) == feed_lines(seq![], lines_of(partial + concat_lines(lines))),
    decreases lines.len(),
{
    if lines.len() == 0 {
        assert(partial + concat_lines(lines) =~= partial);
        lemma_lines_of_fed(partial);
        lemma_last_newline_append(seq![], partial);
        assert(Seq::<char>::empty() + partial =~= partial);
        assert(partial.subrange(0, 0) =~= Seq::<char>::empty());
        assert(partial.subrange(0, partial.len() as int) =~= partial);
        assert(lines_of(Seq::<char>::empty()) =~= Seq::<Seq<char>>::empty());
    } else {
        let before = lines.drop_last();
        let c = lines.last();
        assert forall|k: int| 0 <= k < before.len() implies is_read_line(#[trigger] before[k]) by {
            assert(before[k] == lines[k]);
        }
        law_events_follow_the_files_lines(partial, before);
        let t = partial + concat_lines(before);
        assert(partial + concat_lines(lines) =~= t + c);
        lemma_lines_of_fed(t);
        let j = last_newline(t);
        let h = t.subrange(j + 1, t.len() as int);
        let head = t.subrange(0, j + 1);
        assert(is_read_line(lines[lines.len() - 1]));
        if c.len() == 0 {
            assert(t + c =~= t);
            assert(h + c =~= h);
        } else {
            let tc = t + c;
            assert(tc.drop_last() =~= t + c.drop_last());
            assert forall|i: int| 0 <= i < c.drop_last().len() implies #[trigger] c.drop_last()[i]
                != '\n' by {
                assert(c.drop_last()[i] == c[i]);
            }
            lemma_last_newline_append(t, c.drop_last());
            lemma_last_newline(t);
            assert(tc.subrange(0, j + 1) =~= head);
            assert(tc.subrange(j + 1, tc.len() as int) =~= h + c);
            let pieces = lines_of(tc);
            assert(pieces == lines_of(head).push(h + c));
            assert(pieces.drop_last() =~= lines_of(head));
            assert(pieces.last() == h + c);
            lemma_lines_of_fed(head);
            lemma_last_newline(head);
            if j >= 0 {
                assert(head.last() == '\n');
                assert(last_newline(head) == j);
            }
            assert(head.subrange(last_newline(head) + 1, head.len() as int) =~= Seq::<char>::empty());
            assert(head.subrange(0, last_newline(head) + 1) =~= head);
            assert(Seq::<char>::empty() + (h + c) =~= h + c);
            assert((h + c).last() == c.last());
            assert(Seq::<char>::empty() + trim_end(h + c) =~= trim_end(h + c));
        }
    }
}

// ------------------------------------------------------------ reacting

/// What the log poll does about one event.
#[derive(Debug, PartialEq)]
pub enum Reaction {
    /// Say this line in the launcher's log.
    Say(String),
    /// Hand this game-presence payload to subscribers.
    Publish(Json),
    /// Close the client, through the same door the window's close button uses.
    Quit,
}

pub enum ReactionView {
    Say(Seq<char>),
    Publish(JsonValue),
    Quit,
}

impl View for Reaction {
    type V = ReactionView;

    open spec fn view(&self) -> ReactionView {
        match self {
            Reaction::Say(s) => ReactionView::Say(s@),
            Reaction::Publish(j) => ReactionView::Publish(j@),
            Reaction::Quit => ReactionView::Quit,
        }
    }
}

pub open spec fn reaction_views(v: Seq<Reaction>) -> Seq<ReactionView> {
    Seq::new(v.len(), |i: int| v[i]@)
}

/// The game's presence after an event, and what is done about the event.
///
/// A join and a server are reported. Leaving is reported, the presence goes
/// with the experience — reset, and the empty payload published — and the
/// client closes if close-on-leave was asked for. A `[BloxstrapRPC]` line is
/// decoded and folded into the presence: launch data is reported by its size
/// only, a rich presence publishes the merged payload, a line with no command
/// does nothing, and an unusable one is reported with why.
pub open spec fn spec_react(p: PresenceView, e: EventView, close_on_leave: bool) -> (
    PresenceView,
    Seq<ReactionView>,
) {
    match e {
        EventView::Joined(place, universe) => (
            p,
            seq![
                ReactionView::Say(
                    "[cordial] game: joined place "@ + decimal(place as nat) + " (universe "@
                        + decimal(universe as nat) + ")"@,
                ),
            ],
        ),
        EventView::Server(address, port) => (
            p,
            seq![
                ReactionView::Say(
                    "[cordial] game: server "@ + address + ":"@ + decimal(port as nat),
                ),
            ],
        ),
        EventView::Left => (
            fresh_presence(),
            seq![
                ReactionView::Say("[cordial] game: left"@),
                ReactionView::Publish(payload_value(fresh_presence())),
            ] + if close_on_leave {
                seq![
                    ReactionView::Say(
                        "[cordial] game: CORDIAL_CLOSE_ON_LEAVE is set; closing"@,
                    ),
                    ReactionView::Quit,
                ]
            } else {
                seq![]
            },
        ),
        EventView::Rpc(line) => match spec_parse_rpc_line(line) {
            Ok(Some(CommandView::SetLaunchData(d))) => (
                p,
                seq![
                    ReactionView::Say(
                        "[cordial] game: BloxstrapRPC launch data ("@ + decimal(utf8_len(d))
                            + " bytes)"@,
                    ),
                ],
            ),
            Ok(Some(CommandView::SetRichPresence(rp))) => (
                presence_apply(p, rp),
                seq![ReactionView::Publish(payload_value(presence_apply(p, rp)))],
            ),
            Ok(None) => (p, seq![]),
            Err(why) => (
                p,
                seq![ReactionView::Say("[cordial] game: unusable BloxstrapRPC line: "@ + why)],
            ),
        },
    }
}

fn say(parts: Vec<char>) -> (r: Reaction)
    ensures
        r@ == ReactionView::Say(parts@),
{
    Reaction::Say(string_of(parts.as_slice()))
}

/// Act on one event: update the game's presence and say what is to be done.
pub fn react(presence: &mut Presence, event: Event, close_on_leave: bool) -> (r: Vec<Reaction>)
    ensures
        (final(presence)@, reaction_views(r@)) == spec_react(old(presence)@, event@, close_on_leave),
{
    let ghost e = event@;
    let mut out: Vec<Reaction> = Vec::new();
    match event {
        Event::Joined { place_id, universe_id } => {
            let mut m: Vec<char> = Vec::new();
            push_str(&mut m, "[cordial] game: joined place ");
            push_decimal(&mut m, place_id);
            push_str(&mut m, " (universe ");
            push_decimal(&mut m, universe_id);
            push_str(&mut m, ")");
            out.push(say(m));
        },
        Event::Server { address, port } => {
            let mut m: Vec<char> = Vec::new();
            push_str(&mut m, "[cordial] game: server ");
            push_str(&mut m, address.as_str());
            push_str(&mut m, ":");
            push_decimal(&mut m, port as u64);
            out.push(say(m));
        },
        Event::Left => {
            out.push(Reaction::Say(String::from_str("[cordial] game: left")));
            *presence = Presence::new();
            out.push(Reaction::Publish(presence.to_payload()));
            if close_on_leave {
                out.push(
                    Reaction::Say(
                        String::from_str("[cordial] game: CORDIAL_CLOSE_ON_LEAVE is set; closing"),
                    ),
                );
                out.push(Reaction::Quit);
            }
        },
        Event::Rpc(line) => match parse_rpc_line(line.as_str()) {
            Ok(Some(command)) => match presence.apply(command) {
                Some(launch) => {
                    let mut m: Vec<char> = Vec::new();
                    push_str(&mut m, "[cordial] game: BloxstrapRPC launch data (");
                    let n = byte_len(launch.as_str());
                    push_decimal(&mut m, n as u64);
                    push_str(&mut m, " bytes)");
                    out.push(say(m));
                },
                None => {
                    out.push(Reaction::Publish(presence.to_payload()));
                },
            },
            Ok(None) => {},
            Err(why) => {
                let mut m: Vec<char> = Vec::new();
                push_str(&mut m, "[cordial] game: unusable BloxstrapRPC line: ");
                push_str(&mut m, why.as_str());
                out.push(say(m));
            },
        },
    }
    assert(reaction_views(out@) =~= spec_react(old(presence)@, e, close_on_leave).1);
    out
}

/// Leaving ends the game's presence: whatever was folded before, the
/// presence afterwards is fresh and subscribers are handed the empty payload.
pub proof fn law_leaving_clears_the_presence(p: PresenceView, close_on_leave: bool)
    ensures
        spec_react(p, EventView::Left, close_on_leave).0 == fresh_presence(),
        spec_react(p, EventView::Left, close_on_leave).1[1] == ReactionView::Publish(
            JsonValue::Object(seq![]),
        ),
        spec_react(p, EventView::Left, close_on_leave).1.contains(ReactionView::Quit)
            == close_on_leave,
{
    let r = spec_react(p, EventView::Left, close_on_leave).1;
    assert(payload_value(fresh_presence()) == JsonValue::Object(seq![])) by {
        assert(seq![] + seq![] + seq![] + seq![] =~= Seq::<(Seq<char>, JsonValue)>::empty());
    }
    if close_on_leave {
        assert(r[3] == ReactionView::Quit);
    } else {
        assert forall|i: int| 0 <= i < r.len() implies r[i] != ReactionView::Quit by {}
    }
}

/// Only leaving closes the client: no other event, however the presence
/// stands, asks to quit.
pub proof fn law_only_leaving_closes_the_client(p: PresenceView, e: EventView, close_on_leave: bool)
    requires
        !(e is Left),
    ensures
        !spec_react(p, e, close_on_leave).1.contains(ReactionView::Quit),
{
    let r = spec_react(p, e, close_on_leave).1;
    assert forall|i: int| 0 <= i < r.len() implies r[i] != ReactionView::Quit by {}
}

} // verus!
