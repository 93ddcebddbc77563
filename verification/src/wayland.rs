//! The decisions inside the Wayland window, apart from the window.
//!
//! The window itself is GTK's and the protocol objects are libwayland's; what
//! is here is what those callbacks decide: which Android button a Linux
//! button is, how a modifier key's own event is corrected, whether a key may
//! be seen at all and which keys are held, and where a composing string is
//! shown inside committed text.

use vstd::prelude::*;
use crate::text::{
    byte_len, chars_of, string_of, utf8_len, utf8_width, utf8_width_exec,
};

verus! {

// ------------------------------------------------------------ the editor

/// Which source put the editor where it is.
///
/// Three, not two, because the middle one is the difference between a smooth
/// focus and a visible flinch.
#[derive(Debug, Clone, Copy, PartialEq, Eq)]
pub enum Placed {
    /// The engine said where this box is, and it is there.
    Engine,
    /// The engine has not said yet, so the editor is held where the last box
    /// was until it does.
    Carried,
    /// Nothing has ever said, so the editor is in a bar Cordial positions.
    Fallback,
}

impl Placed {
    /// For the log, where a sentence reads better than a word.
    pub fn source(self) -> (s: &'static str)
        ensures
            s@ == (match self {
                Placed::Engine => "engine geometry"@,
                Placed::Carried => "the previous box, while this one lays out"@,
                Placed::Fallback => "fallback bar"@,
            }),
    {
        match self {
            Placed::Engine => "engine geometry",
            Placed::Carried => "the previous box, while this one lays out",
            Placed::Fallback => "fallback bar",
        }
    }

    /// For the control socket, whose replies are whitespace-separated fields
    /// and cannot carry a sentence.
    pub fn token(self) -> (s: &'static str)
        ensures
            s@ == (match self {
                Placed::Engine => "engine"@,
                Placed::Carried => "carried"@,
                Placed::Fallback => "fallback"@,
            }),
    {
        match self {
            Placed::Engine => "engine",
            Placed::Carried => "carried",
            Placed::Fallback => "fallback",
        }
    }
}

// ------------------------------------------------------------ text input

/// The `zwp_text_input_manager_v3` version bound: what GNOME's mutter
/// advertises, measured on the wire. Raising it means adding the new
/// version's events to the listener table first.
pub const TEXT_INPUT_MANAGER_VERSION: i32 = 2;

/// The `zwp_text_input_v3` version declared. A text input is created by the
/// manager and so *is* whatever version the manager was bound at; the two
/// drifting apart is the bug this pins.
pub const TEXT_INPUT_VERSION: i32 = TEXT_INPUT_MANAGER_VERSION;

// ------------------------------------------------------------ buttons

/// Android's `MotionEvent.BUTTON_PRIMARY`.
pub const BUTTON_PRIMARY: i32 = 1;
/// Android's `MotionEvent.BUTTON_SECONDARY`.
pub const BUTTON_SECONDARY: i32 = 2;
/// Android's `MotionEvent.BUTTON_TERTIARY`.
pub const BUTTON_TERTIARY: i32 = 4;
/// Android's `MotionEvent.BUTTON_BACK`.
pub const BUTTON_BACK: i32 = 8;
/// Android's `MotionEvent.BUTTON_FORWARD`.
pub const BUTTON_FORWARD: i32 = 16;

/// Linux `input-event-codes.h` `BTN_*` values, which is what
/// `wl_pointer.button` reports.
pub const BTN_LEFT: u32 = 0x110;
pub const BTN_RIGHT: u32 = 0x111;
pub const BTN_MIDDLE: u32 = 0x112;
pub const BTN_SIDE: u32 = 0x113;
pub const BTN_EXTRA: u32 = 0x114;

/// The Android button a Linux button code stands for: left, right and middle
/// are primary, secondary and tertiary; the two side buttons are back and
/// forward; anything else is not a button Android has.
pub open spec fn android_button(button: u32) -> Option<i32> {
    if button == BTN_LEFT {
        Some(BUTTON_PRIMARY)
    } else if button == BTN_RIGHT {
        Some(BUTTON_SECONDARY)
    } else if button == BTN_MIDDLE {
        Some(BUTTON_TERTIARY)
    } else if button == BTN_SIDE {
        Some(BUTTON_BACK)
    } else if button == BTN_EXTRA {
        Some(BUTTON_FORWARD)
    } else {
        None
    }
}

/// `wl_pointer.button`'s evdev code as Android's button bit. X11 numbers
/// buttons in click order; Wayland reports the evdev code directly.
pub fn linux_button_to_android(button: u32) -> (b: Option<i32>)
    ensures
        b == android_button(button),
{
    match button {
        BTN_LEFT => Some(BUTTON_PRIMARY),
        BTN_RIGHT => Some(BUTTON_SECONDARY),
        BTN_MIDDLE => Some(BUTTON_TERTIARY),
        BTN_SIDE => Some(BUTTON_BACK),
        BTN_EXTRA => Some(BUTTON_FORWARD),
        _ => None,
    }
}

// ------------------------------------------------------------ modifiers

/// Android's `KeyEvent.META_SHIFT_ON`.
pub const META_SHIFT_ON: i32 = 0x1;
/// Android's `KeyEvent.META_ALT_ON`.
pub const META_ALT_ON: i32 = 0x2;
/// Android's `KeyEvent.META_CTRL_ON`.
pub const META_CTRL_ON: i32 = 0x1000;
/// Android's `KeyEvent.META_CAPS_LOCK_ON`.
pub const META_CAPS_LOCK_ON: i32 = 0x100000;

/// Linux evdev codes for the keys this window treats specially.
pub const KEY_ESC: u32 = 1;
pub const KEY_LEFTCTRL: u32 = 29;
pub const KEY_LEFTSHIFT: u32 = 42;
pub const KEY_RIGHTSHIFT: u32 = 54;
pub const KEY_LEFTALT: u32 = 56;
pub const KEY_F11: u32 = 87;
pub const KEY_RIGHTCTRL: u32 = 97;
pub const KEY_RIGHTALT: u32 = 100;

/// The meta bit a modifier key stands for, or 0 for any other key.
pub open spec fn modifier_bit(key: u32) -> i32 {
    if key == KEY_LEFTSHIFT || key == KEY_RIGHTSHIFT {
        META_SHIFT_ON
    } else if key == KEY_LEFTCTRL || key == KEY_RIGHTCTRL {
        META_CTRL_ON
    } else if key == KEY_LEFTALT || key == KEY_RIGHTALT {
        META_ALT_ON
    } else {
        0
    }
}

/// The Android meta state for the modifiers xkb reports active.
pub open spec fn meta_mask(shift: bool, ctrl: bool, alt: bool, caps: bool) -> i32 {
    (if shift {
        META_SHIFT_ON
    } else {
        0
    }) | (if ctrl {
        META_CTRL_ON
    } else {
        0
    }) | (if alt {
        META_ALT_ON
    } else {
        0
    }) | (if caps {
        META_CAPS_LOCK_ON
    } else {
        0
    })
}

/// The Android meta state for the modifiers xkb reports active.
pub fn meta_state(shift: bool, ctrl: bool, alt: bool, caps: bool) -> (m: i32)
    ensures
        m == meta_mask(shift, ctrl, alt, caps),
{
    let shift_bit: i32 = if shift {
        META_SHIFT_ON
    } else {
        0
    };
    let ctrl_bit: i32 = if ctrl {
        META_CTRL_ON
    } else {
        0
    };
    let alt_bit: i32 = if alt {
        META_ALT_ON
    } else {
        0
    };
    let caps_bit: i32 = if caps {
        META_CAPS_LOCK_ON
    } else {
        0
    };
    shift_bit | ctrl_bit | alt_bit | caps_bit
}

/// The meta bit a modifier key stands for, or 0 for any other key.
pub fn own_modifier_bit(key: u32) -> (b: i32)
    ensures
        b == modifier_bit(key),
{
    match key {
        KEY_LEFTSHIFT | KEY_RIGHTSHIFT => META_SHIFT_ON,
        KEY_LEFTCTRL | KEY_RIGHTCTRL => META_CTRL_ON,
        KEY_LEFTALT | KEY_RIGHTALT => META_ALT_ON,
        _ => 0,
    }
}

/// A modifier key's own event carries the mask from before itself: Wayland
/// sends `key` and only then `modifiers`. This sets the key's own bit on a
/// press and clears it on a release, and leaves every other bit — and every
/// other key's mask — as it was.
pub fn correct_meta(meta: i32, key: u32, down: bool) -> (m: i32)
    ensures
        modifier_bit(key) == 0 ==> m == meta,
        modifier_bit(key) != 0 ==> ((m & modifier_bit(key)) != 0) == down,
        m & !modifier_bit(key) == meta & !modifier_bit(key),
{
    let bit = own_modifier_bit(key);
    if bit == 0 {
        assert(meta & !0i32 == meta) by (bit_vector);
        return meta;
    }
    let m = if down {
        meta | bit
    } else {
        meta & !bit
    };
    assert(((m & bit) != 0) == down && (m & !bit) == (meta & !bit)) by (bit_vector)
        requires
            bit == 1i32 || bit == 2i32 || bit == 0x1000i32,
            m == (if down {
                meta | bit
            } else {
                meta & !bit
            }),
    ;
    m
}


// ------------------------------------------------------------ the keyboard

/// Where a key is in a list of held keys.
pub open spec fn position(held: Seq<u32>, key: u32) -> int {
    choose|i: int| 0 <= i < held.len() && held[i] == key
}

/// What one key event does to the keys held down: a press records the key
/// once (key repeat re-sends a press for a key already down); a release
/// removes it, the last key taking its place.
pub open spec fn track(held: Seq<u32>, key: u32, pressed: bool) -> Seq<u32> {
    if pressed {
        if held.contains(key) {
            held
        } else {
            held.push(key)
        }
    } else {
        if held.contains(key) {
            let i = position(held, key);
            held.update(i, held.last()).drop_last()
        } else {
            held
        }
    }
}

/// What the seat has said about keyboard focus, and which keys are down.
pub struct Keyboard {
    /// Whether the compositor gives this window keyboard focus.
    focused: bool,
    /// The surface `wl_keyboard.enter` last named, 0 for none — remembered
    /// even when there was no window yet to compare it with.
    entered: usize,
    /// Keys the compositor has said are down and not yet said are up, each
    /// once.
    held: Vec<u32>,
}

pub struct KeyboardView {
    pub focused: bool,
    pub entered: usize,
    pub held: Seq<u32>,
}

impl View for Keyboard {
    type V = KeyboardView;

    closed spec fn view(&self) -> KeyboardView {
        KeyboardView { focused: self.focused, entered: self.entered, held: self.held@ }
    }
}

/// Whether a key may be seen: focus was observed, or an `enter` that arrived
/// before the window named the window's own surface.
pub open spec fn reconciled(k: KeyboardView, window: Option<usize>) -> bool {
    k.focused || (k.entered != 0 && window == Some(k.entered))
}

/// The keyboard after `wl_keyboard.enter` names `surface`.
pub open spec fn entered_view(k: KeyboardView, surface: usize, window: Option<usize>) -> KeyboardView {
    KeyboardView {
        focused: k.focused || window == Some(surface),
        entered: surface,
        held: k.held,
    }
}

/// The keyboard after `wl_keyboard.leave`: nothing focused, nothing entered,
/// nothing held.
pub open spec fn left_view(k: KeyboardView) -> KeyboardView {
    KeyboardView { focused: false, entered: 0, held: seq![] }
}

/// The keyboard after a key event with `window`'s surface (if there is a
/// window) to reconcile against: whether the key is passed on, and the state
/// after.
pub open spec fn key_view(k: KeyboardView, key: u32, pressed: bool, window: Option<usize>) -> (
    bool,
    KeyboardView,
) {
    let focused = reconciled(k, window);
    if focused && window is Some {
        (true, KeyboardView { focused, held: track(k.held, key, pressed), ..k })
    } else {
        (false, KeyboardView { focused, ..k })
    }
}

impl Keyboard {
    #[verifier::type_invariant]
    closed spec fn wf(self) -> bool {
        self.held@.no_duplicates()
    }

    /// No focus seen, no key held.
    pub fn new() -> (k: Keyboard)
        ensures
            k@ == (KeyboardView { focused: false, entered: 0, held: seq![] }),
    {
        Keyboard { focused: false, entered: 0, held: Vec::new() }
    }

    /// Whether a key delivered now would be seen.
    pub fn is_focused(&self) -> (f: bool)
        ensures
            f == self@.focused,
    {
        self.focused
    }

    /// The keys held down, each once.
    pub fn held(&self) -> (h: &[u32])
        ensures
            h@ == self@.held,
            h@.no_duplicates(),
    {
        proof {
            use_type_invariant(self);
        }
        self.held.as_slice()
    }

    /// `wl_keyboard.enter` named `surface`; `window` is the window's own
    /// surface if the window exists yet. Remembered whatever the answer, since
    /// `enter` fires on a change and may arrive before the window does.
    pub fn enter(&mut self, surface: usize, window: Option<usize>)
        ensures
            final(self)@ == entered_view(old(self)@, surface, window),
    {
        proof {
            use_type_invariant(&*self);
        }
        self.entered = surface;
        if let Some(w) = window {
            if w == surface {
                self.focused = true;
            }
        }
    }

    /// Settle an `enter` that arrived before the window did.
    pub fn reconcile(&mut self, window: Option<usize>)
        ensures
            final(self)@ == (KeyboardView { focused: reconciled(old(self)@, window), ..old(self)@ }),
    {
        proof {
            use_type_invariant(&*self);
        }
        if self.focused || self.entered == 0 {
            return;
        }
        if let Some(w) = window {
            if w == self.entered {
                self.focused = true;
            }
        }
    }

    /// `wl_keyboard.key`. Reconciled first, because "focus was never
    /// observed" and "focus is not held" are different states and only the
    /// second should drop a key. Answers whether the key is passed on; a key
    /// passed on is tracked so that `leave` can release it.
    pub fn key(&mut self, key: u32, pressed: bool, window: Option<usize>) -> (seen: bool)
        ensures
            (seen, final(self)@) == key_view(old(self)@, key, pressed, window),
            final(self)@.held.no_duplicates(),
    {
        proof {
            use_type_invariant(&*self);
        }
        self.reconcile(window);
        if !self.focused || window.is_none() {
            return false;
        }
        let mut held: Vec<u32> = Vec::new();
        std::mem::swap(&mut held, &mut self.held);
        let ghost before = held@;
        let mut at: Option<usize> = None;
        let mut i: usize = 0;
        while i < held.len()
            invariant
                i <= held@.len(),
                held@ == before,
                at is None ==> forall|j: int| 0 <= j < i ==> held@[j] != key,
                at matches Some(p) ==> p < held@.len() && held@[p as int] == key,
            decreases held@.len() - i,
        {
            if at.is_none() && held[i] == key {
                at = Some(i);
            }
            i = i + 1;
        }
        match (pressed, at) {
            (true, None) => {
                assert(!before.contains(key));
                held.push(key);
                assert(held@ == track(before, key, true));
            },
            (false, Some(p)) => {
                assert(before.contains(key));
                assert(position(before, key) == p as int) by {
                    let q = position(before, key);
                    assert(0 <= q < before.len() && before[q] == key);
                }
                let ghost removed = before.update(p as int, before.last()).drop_last();
                held.swap_remove(p);
                assert(held@ =~= removed);
                assert forall|x: int, y: int| 0 <= x < y < removed.len() implies removed[x]
                    != removed[y] by {
                    if x == p {
                        assert(removed[x] == before[before.len() - 1]);
                    } else if y == p {
                        assert(removed[y] == before[before.len() - 1]);
                    }
                }
            },
            (true, Some(p)) => {
                assert(before.contains(key));
            },
            (false, None) => {
                assert(!before.contains(key));
            },
        }
        self.held = held;
        true
    }

    /// `wl_keyboard.leave`. Every held key is forgotten either way, and the
    /// ones that were down are returned for release unless `hold_keys` asks
    /// for them to stay held. Focus goes, and so does the surface `enter`
    /// named, or the next reconcile would hand focus straight back.
    pub fn leave(&mut self, hold_keys: bool) -> (stranded: Vec<u32>)
        ensures
            final(self)@ == left_view(old(self)@),
            stranded@ == (if hold_keys {
                seq![]
            } else {
                old(self)@.held
            }),
    {
        let mut stranded: Vec<u32> = Vec::new();
        std::mem::swap(&mut stranded, &mut self.held);
        self.focused = false;
        self.entered = 0;
        if hold_keys {
            Vec::new()
        } else {
            stranded
        }
    }
}


// ------------------------------------------------------------ composing text

/// How many whole characters of `p` fit in its first `budget` bytes.
pub open spec fn chars_within(p: Seq<char>, budget: int) -> nat
    decreases p.len(),
{
    if p.len() == 0 || utf8_width(p[0]) > budget {
        0
    } else {
        1 + chars_within(p.drop_first(), budget - utf8_width(p[0]))
    }
}

/// The character index a caret stands at in text of `len` characters: a
/// negative caret is the start, one past the end is the end.
pub open spec fn caret_index(len: nat, caret: int) -> int {
    if caret <= 0 {
        0
    } else if caret >= len {
        len as int
    } else {
        caret
    }
}

/// The preedit's cursor, in bytes into the preedit: `-1` means the input
/// method gave none and is taken as the end; past the end is the end.
pub open spec fn cursor_bytes(preedit: Seq<char>, cursor_begin: int) -> int {
    if cursor_begin < 0 || cursor_begin > utf8_len(preedit) {
        utf8_len(preedit) as int
    } else {
        cursor_begin
    }
}

/// Committed text with the composing text spliced in at the caret, and where
/// the caret then appears: after the committed characters before it and the
/// preedit characters before the preedit's own cursor (a cursor inside a
/// character counts up to the character before it).
pub open spec fn spliced(committed: Seq<char>, caret: int, preedit: Option<(Seq<char>, int)>) -> (
    Seq<char>,
    int,
) {
    match preedit {
        None => (committed, caret),
        Some((p, cursor_begin)) => {
            let at = caret_index(committed.len(), caret);
            (
                committed.subrange(0, at) + p + committed.subrange(at, committed.len() as int),
                caret + chars_within(p, cursor_bytes(p, cursor_begin)),
            )
        },
    }
}

pub open spec fn preedit_view(preedit: Option<&(String, i32, i32)>) -> Option<(Seq<char>, int)> {
    match preedit {
        None => None,
        Some(p) => Some((p.0@, p.1 as int)),
    }
}

proof fn lemma_chars_within_bound(p: Seq<char>, budget: int)
    ensures
        chars_within(p, budget) <= p.len(),
    decreases p.len(),
{
    if p.len() > 0 && utf8_width(p[0]) <= budget {
        lemma_chars_within_bound(p.drop_first(), budget - utf8_width(p[0]));
    }
}

/// The characters of `p` that fit in `budget` bytes, counted.
fn count_chars_within(p: &[char], budget: usize) -> (n: usize)
    ensures
        n == chars_within(p@, budget as int),
{
    let mut i: usize = 0;
    let mut left: usize = budget;
    assert(p@.subrange(0, p@.len() as int) =~= p@);
    while i < p.len() && utf8_width_exec(p[i]) <= left
        invariant
            i <= p@.len(),
            chars_within(p@, budget as int) == i + chars_within(
                p@.subrange(i as int, p@.len() as int),
                left as int,
            ),
        decreases p@.len() - i,
    {
        let ghost rest = p@.subrange(i as int, p@.len() as int);
        assert(rest[0] == p@[i as int]);
        assert(rest.drop_first() =~= p@.subrange(i + 1, p@.len() as int));
        left = left - utf8_width_exec(p[i]);
        i = i + 1;
    }
    let ghost rest = p@.subrange(i as int, p@.len() as int);
    if i < p.len() {
        assert(rest[0] == p@[i as int]);
    }
    i
}

/// Splice a composing string into committed text at the caret, and report
/// where the caret should now appear to be. `committed_caret_chars` counts
/// characters; the preedit's `cursor_begin` counts bytes into the preedit, as
/// the protocol has it, and its `cursor_end` is not used.
pub fn splice_preedit(
    committed: &str,
    committed_caret_chars: i32,
    preedit: Option<&(String, i32, i32)>,
) -> (r: (String, i32))
    requires
        preedit matches Some(p) ==> committed_caret_chars + chars_within(
            p.0@,
            cursor_bytes(p.0@, p.1 as int),
        ) <= i32::MAX,
        preedit matches Some(p) ==> chars_within(p.0@, cursor_bytes(p.0@, p.1 as int))
            <= i32::MAX,
    ensures
        (r.0@, r.1 as int) == spliced(committed@, committed_caret_chars as int, preedit_view(preedit)),
{
    let (text, cursor_begin) = match preedit {
        None => return (String::from_str(committed), committed_caret_chars),
        Some(p) => (&p.0, p.1),
    };
    let cs = chars_of(committed);
    let at: usize = if committed_caret_chars <= 0 {
        0
    } else if committed_caret_chars as usize >= cs.len() {
        cs.len()
    } else {
        committed_caret_chars as usize
    };
    let ps = chars_of(text.as_str());
    let mut out: Vec<char> = Vec::new();
    let mut i: usize = 0;
    while i < at
        invariant
            at <= cs@.len(),
            i <= at,
            out@ == cs@.subrange(0, i as int),
        decreases at - i,
    {
        out.push(cs[i]);
        i = i + 1;
        assert(out@ =~= cs@.subrange(0, i as int));
    }
    let mut j: usize = 0;
    while j < ps.len()
        invariant
            j <= ps@.len(),
            out@ == cs@.subrange(0, at as int) + ps@.subrange(0, j as int),
        decreases ps@.len() - j,
    {
        out.push(ps[j]);
        j = j + 1;
        assert(out@ =~= cs@.subrange(0, at as int) + ps@.subrange(0, j as int));
    }
    let mut k: usize = at;
    while k < cs.len()
        invariant
            at <= k <= cs@.len(),
            out@ == cs@.subrange(0, at as int) + ps@ + cs@.subrange(at as int, k as int),
        decreases cs@.len() - k,
    {
        assert(ps@.subrange(0, ps@.len() as int) =~= ps@);
        out.push(cs[k]);
        k = k + 1;
        assert(out@ =~= cs@.subrange(0, at as int) + ps@ + cs@.subrange(at as int, k as int));
    }
    assert(ps@.subrange(0, ps@.len() as int) =~= ps@);
    let total = byte_len(text.as_str());
    let want: usize = if cursor_begin < 0 || cursor_begin as usize > total {
        total
    } else {
        cursor_begin as usize
    };
    assert(want as int == cursor_bytes(ps@, cursor_begin as int));
    let n = count_chars_within(ps.as_slice(), want);
    assert(at as int == caret_index(cs@.len(), committed_caret_chars as int));
    assert(out@ == cs@.subrange(0, at as int) + ps@ + cs@.subrange(at as int, cs@.len() as int));
    (string_of(out.as_slice()), committed_caret_chars + n as i32)
}


/// Whether a key dropped for want of an activity handle is reported: only the
/// first time for each key, since a held key repeats and one line per frame
/// would bury what it is trying to show.
pub fn first_report(seen: &mut Vec<u32>, key: u32) -> (first: bool)
    ensures
        first == !old(seen)@.contains(key),
        final(seen)@ == (if first {
            old(seen)@.push(key)
        } else {
            old(seen)@
        }),
{
    let mut i: usize = 0;
    while i < seen.len()
        invariant
            i <= seen@.len(),
            forall|j: int| 0 <= j < i ==> seen@[j] != key,
        decreases seen@.len() - i,
    {
        if seen[i] == key {
            assert(seen@.contains(key)) by {
                assert(seen@[i as int] == key);
            }
            return false;
        }
        i = i + 1;
    }
    seen.push(key);
    true
}

// ------------------------------------------------------------ the input method

/// A composing string and its cursor range, in bytes into the string.
pub type Preedit = (String, i32, i32);

pub open spec fn preedit_opt(p: Option<Preedit>) -> Option<(Seq<char>, i32, i32)> {
    match p {
        Some(t) => Some((t.0@, t.1, t.2)),
        None => None,
    }
}

/// What `zwp_text_input_v3` has said and not yet applied, and what it
/// applied last. Every text-input event only records into the pending group;
/// `done` applies it.
pub struct Ime {
    /// The composing string shown now, spliced into the committed text at the
    /// caret.
    preedit: Option<Preedit>,
    /// Whether `commit_string` arrived this group, and its nullable text.
    pending_commit: Option<Option<String>>,
    /// Whether `preedit_string` arrived this group, and its nullable text and
    /// cursor range.
    pending_preedit: Option<Option<Preedit>>,
    /// Whether `delete_surrounding_text` arrived this group: bytes before and
    /// after the cursor.
    pending_delete: Option<(u32, u32)>,
    /// Whether the text input is enabled for the focused box.
    enabled: bool,
    /// The focus generation last synchronised against.
    synced_generation: Option<u32>,
    /// Whether the input method has produced text this focus session; while
    /// it has, the keyboard path inserts no text, or every character would
    /// arrive twice.
    producing: bool,
}

pub struct ImeView {
    pub preedit: Option<(Seq<char>, i32, i32)>,
    pub pending_commit: Option<Option<Seq<char>>>,
    pub pending_preedit: Option<Option<(Seq<char>, i32, i32)>>,
    pub pending_delete: Option<(u32, u32)>,
    pub enabled: bool,
    pub synced_generation: Option<u32>,
    pub producing: bool,
}

impl View for Ime {
    type V = ImeView;

    closed spec fn view(&self) -> ImeView {
        ImeView {
            preedit: preedit_opt(self.preedit),
            pending_commit: match self.pending_commit {
                Some(c) => Some(
                    match c {
                        Some(t) => Some(t@),
                        None => None,
                    },
                ),
                None => None,
            },
            pending_preedit: match self.pending_preedit {
                Some(p) => Some(preedit_opt(p)),
                None => None,
            },
            pending_delete: self.pending_delete,
            enabled: self.enabled,
            synced_generation: self.synced_generation,
            producing: self.producing,
        }
    }
}

/// The same input method with nothing pending.
pub open spec fn cleared(m: ImeView) -> ImeView {
    ImeView { pending_commit: None, pending_preedit: None, pending_delete: None, ..m }
}

/// What applying a group does to the field, in protocol order: delete around
/// the cursor as it stood before the group, then insert the committed text.
#[derive(Debug, PartialEq, Eq)]
pub struct ImeEdits {
    pub delete: Option<(u32, u32)>,
    /// The committed text, when there was some; an empty or null commit
    /// inserts nothing.
    pub insert: Option<String>,
}

/// What `done` applies: nothing for a group with nothing in it (an
/// acknowledgement, which must not push an empty field to the engine) or
/// with no box focused to apply it to; otherwise the deletion and the
/// non-empty commit.
pub open spec fn spec_done(m: ImeView, focused: bool) -> (ImeView, Option<(Option<(u32, u32)>, Option<Seq<char>>)>) {
    if !focused || (m.pending_delete is None && m.pending_commit is None && m.pending_preedit is None) {
        (cleared(m), None)
    } else {
        (
            ImeView {
                preedit: match m.pending_preedit {
                    Some(p) => p,
                    None => m.preedit,
                },
                ..cleared(m)
            },
            Some(
                (
                    m.pending_delete,
                    match m.pending_commit {
                        Some(Some(t)) => if t.len() > 0 {
                            Some(t)
                        } else {
                            None
                        },
                        _ => None,
                    },
                ),
            ),
        )
    }
}

/// How focus moved when the focus generation changed.
#[derive(Debug, PartialEq, Eq)]
pub enum FocusChange {
    Unchanged,
    /// A box gained focus: enable the text input.
    Focused,
    /// The box lost focus: disable it.
    Blurred,
}

impl Ime {
    pub fn new() -> (m: Ime)
        ensures
            m@ == (ImeView {
                preedit: None,
                pending_commit: None,
                pending_preedit: None,
                pending_delete: None,
                enabled: false,
                synced_generation: None,
                producing: false,
            }),
    {
        Ime {
            preedit: None,
            pending_commit: None,
            pending_preedit: None,
            pending_delete: None,
            enabled: false,
            synced_generation: None,
            producing: false,
        }
    }

    /// The composing string shown now.
    pub fn preedit(&self) -> (p: Option<&Preedit>)
        ensures
            match p {
                Some(t) => self@.preedit == Some((t.0@, t.1, t.2)),
                None => self@.preedit is None,
            },
    {
        match &self.preedit {
            Some(t) => Some(t),
            None => None,
        }
    }

    /// Whether the input method owns the text this focus session.
    pub fn owns_text(&self) -> (b: bool)
        ensures
            b == self@.producing,
    {
        self.producing
    }

    /// `preedit_string`: replaces any preedit already pending — an
    /// assignment, not an append — and marks the input method as producing.
    pub fn preedit_string(&mut self, text: Option<String>, cursor_begin: i32, cursor_end: i32)
        ensures
            final(self)@ == (ImeView {
                pending_preedit: Some(
                    match text {
                        Some(t) => Some((t@, cursor_begin, cursor_end)),
                        None => None,
                    },
                ),
                producing: true,
                ..old(self)@
            }),
    {
        self.producing = true;
        self.pending_preedit = Some(
            match text {
                Some(t) => Some((t, cursor_begin, cursor_end)),
                None => None,
            },
        );
    }

    /// `commit_string`: recorded, not yet applied.
    pub fn commit_string(&mut self, text: Option<String>)
        ensures
            final(self)@ == (ImeView {
                pending_commit: Some(
                    match text {
                        Some(t) => Some(t@),
                        None => None,
                    },
                ),
                ..old(self)@
            }),
    {
        self.pending_commit = Some(text);
    }

    /// `delete_surrounding_text`: recorded, not yet applied.
    pub fn delete_surrounding(&mut self, before: u32, after: u32)
        ensures
            final(self)@ == (ImeView { pending_delete: Some((before, after)), ..old(self)@ }),
    {
        self.pending_delete = Some((before, after));
    }

    /// `done`: take the pending group and apply it, `focused` saying whether
    /// a box is focused to apply it to.
    pub fn done(&mut self, focused: bool) -> (edits: Option<ImeEdits>)
        ensures
            (final(self)@, match edits {
                Some(e) => Some(
                    (
                        e.delete,
                        match e.insert {
                            Some(t) => Some(t@),
                            None => None,
                        },
                    ),
                ),
                None => None,
            }) == spec_done(old(self)@, focused),
    {
        let delete = self.pending_delete;
        let mut commit: Option<Option<String>> = None;
        std::mem::swap(&mut commit, &mut self.pending_commit);
        let mut preedit: Option<Option<Preedit>> = None;
        std::mem::swap(&mut preedit, &mut self.pending_preedit);
        self.pending_delete = None;
        if !focused || (delete.is_none() && commit.is_none() && preedit.is_none()) {
            return None;
        }
        let insert = match commit {
            Some(Some(t)) => if t.as_str().unicode_len() > 0 {
                Some(t)
            } else {
                None
            },
            _ => None,
        };
        if let Some(p) = preedit {
            self.preedit = p;
        }
        Some(ImeEdits { delete, insert })
    }

    /// The text input left the surface: the keyboard takes the text back
    /// until an input method speaks again, and nothing is composing.
    pub fn leave(&mut self)
        ensures
            final(self)@ == (ImeView { producing: false, preedit: None, ..old(self)@ }),
    {
        self.producing = false;
        self.preedit = None;
    }

    /// Follow the focus generation: when it moved, whether a box is focused
    /// now; a change of focus forgets what was composing and pending.
    pub fn sync_focus(&mut self, generation: u32, now_focused: bool) -> (c: FocusChange)
        ensures
            old(self)@.synced_generation == Some(generation) ==> c == FocusChange::Unchanged
                && final(self)@ == old(self)@,
            old(self)@.synced_generation != Some(generation) ==> {
                let was = old(self)@.enabled;
                let moved = ImeView {
                    synced_generation: Some(generation),
                    enabled: now_focused,
                    ..old(self)@
                };
                &&& c == (if now_focused && !was {
                    FocusChange::Focused
                } else if !now_focused && was {
                    FocusChange::Blurred
                } else {
                    FocusChange::Unchanged
                })
                &&& final(self)@ == (if now_focused != was {
                    ImeView { preedit: None, ..cleared(moved) }
                } else {
                    moved
                })
            },
    {
        if let Some(g) = self.synced_generation {
            if g == generation {
                return FocusChange::Unchanged;
            }
        }
        self.synced_generation = Some(generation);
        let was = self.enabled;
        self.enabled = now_focused;
        if now_focused != was {
            self.preedit = None;
            self.pending_commit = None;
            self.pending_preedit = None;
            self.pending_delete = None;
        }
        if now_focused && !was {
            FocusChange::Focused
        } else if !now_focused && was {
            FocusChange::Blurred
        } else {
            FocusChange::Unchanged
        }
    }
}

// ------------------------------------------------------------ typing

/// An edit the keyboard path makes to a focused field.
#[derive(Debug, PartialEq, Eq)]
pub enum TextEdit {
    Backspace,
    Delete,
    Left,
    Right,
    Home,
    End,
    Insert(String),
}

pub enum TextEditView {
    Backspace,
    Delete,
    Left,
    Right,
    Home,
    End,
    Insert(Seq<char>),
}

impl View for TextEdit {
    type V = TextEditView;

    open spec fn view(&self) -> TextEditView {
        match self {
            TextEdit::Backspace => TextEditView::Backspace,
            TextEdit::Delete => TextEditView::Delete,
            TextEdit::Left => TextEditView::Left,
            TextEdit::Right => TextEditView::Right,
            TextEdit::Home => TextEditView::Home,
            TextEdit::End => TextEditView::End,
            TextEdit::Insert(t) => TextEditView::Insert(t@),
        }
    }
}

pub const XK_BACKSPACE: u64 = 0xff08;
pub const XK_DELETE: u64 = 0xffff;
pub const XK_LEFT: u64 = 0xff51;
pub const XK_RIGHT: u64 = 0xff53;
pub const XK_HOME: u64 = 0xff50;
pub const XK_END: u64 = 0xff57;

/// The edit a pressed key makes to a focused field: six keysyms edit; any
/// other key inserts the text it typed — unless an input method owns the
/// text this session, when it inserts nothing.
pub open spec fn spec_text_edit(keysym: u64, ime_owns_text: bool, typed: Seq<char>) -> Option<TextEditView> {
    if keysym == XK_BACKSPACE {
        Some(TextEditView::Backspace)
    } else if keysym == XK_DELETE {
        Some(TextEditView::Delete)
    } else if keysym == XK_LEFT {
        Some(TextEditView::Left)
    } else if keysym == XK_RIGHT {
        Some(TextEditView::Right)
    } else if keysym == XK_HOME {
        Some(TextEditView::Home)
    } else if keysym == XK_END {
        Some(TextEditView::End)
    } else if ime_owns_text {
        None
    } else {
        Some(TextEditView::Insert(typed))
    }
}

pub fn text_edit(keysym: u64, ime_owns_text: bool, typed: String) -> (e: Option<TextEdit>)
    ensures
        match e {
            Some(x) => spec_text_edit(keysym, ime_owns_text, typed@) == Some(x@),
            None => spec_text_edit(keysym, ime_owns_text, typed@) is None,
        },
{
    match keysym {
        XK_BACKSPACE => Some(TextEdit::Backspace),
        XK_DELETE => Some(TextEdit::Delete),
        XK_LEFT => Some(TextEdit::Left),
        XK_RIGHT => Some(TextEdit::Right),
        XK_HOME => Some(TextEdit::Home),
        XK_END => Some(TextEdit::End),
        _ => if ime_owns_text {
            None
        } else {
            Some(TextEdit::Insert(typed))
        },
    }
}

/// Where one physical key event goes, before any editing of a text box.
#[derive(Debug, Clone, Copy, PartialEq, Eq)]
pub struct KeyRoute {
    /// Escape went down: the pointer lock is asked to give the cursor back.
    /// The key still reaches the engine.
    pub release_lock: bool,
    /// F11 went down: fullscreen is flipped.
    pub toggle_fullscreen: bool,
    /// The engine's own key path gets the evdev code: every key but F11,
    /// both halves of which are consumed so the engine never sees an
    /// unmatched function-key event.
    pub pass_to_engine: bool,
    /// The activity's key path gets this Android keycode: a key the keymap
    /// maps, while there is an activity to deliver to.
    pub deliver: Option<i32>,
    /// A key the keymap maps, with no activity to deliver it to: dropped on
    /// that path, which is worth saying.
    pub dropped: bool,
    /// A press that reached the engine, which may go on to edit a text box.
    pub may_edit: bool,
}

pub open spec fn spec_route_key(evdev: u32, down: bool, android: Option<i32>, has_handle: bool) -> KeyRoute {
    if evdev == KEY_F11 {
        KeyRoute {
            release_lock: false,
            toggle_fullscreen: down,
            pass_to_engine: false,
            deliver: None,
            dropped: false,
            may_edit: false,
        }
    } else {
        KeyRoute {
            release_lock: down && evdev == KEY_ESC,
            toggle_fullscreen: false,
            pass_to_engine: true,
            deliver: if has_handle {
                android
            } else {
                None
            },
            dropped: android is Some && !has_handle,
            may_edit: down,
        }
    }
}

/// Route a key event: `android` is the keymap's Android keycode for it, if it
/// has one, and `has_handle` whether there is an activity to deliver to.
pub fn route_key(evdev: u32, down: bool, android: Option<i32>, has_handle: bool) -> (r: KeyRoute)
    ensures
        r == spec_route_key(evdev, down, android, has_handle),
{
    if evdev == KEY_F11 {
        return KeyRoute {
            release_lock: false,
            toggle_fullscreen: down,
            pass_to_engine: false,
            deliver: None,
            dropped: false,
            may_edit: false,
        };
    }
    KeyRoute {
        release_lock: down && evdev == KEY_ESC,
        toggle_fullscreen: false,
        pass_to_engine: true,
        deliver: if has_handle {
            android
        } else {
            None
        },
        dropped: android.is_some() && !has_handle,
        may_edit: down,
    }
}

// ------------------------------------------------------------ the pointer lock

/// The buttons whose drag is a camera gesture: right and middle, and
/// emphatically not left, which drags sliders and scrollbars.
pub const CAMERA_BUTTONS: i32 = 6;

/// Everything the pointer-lock decision reads, once per pump.
#[derive(Debug, Clone, Copy, PartialEq, Eq)]
pub struct LockInputs {
    /// The engine answered that it wants the mouse locked to the centre.
    pub engine_wants: bool,
    /// No lock is possible or wanted: the compositor has no pointer
    /// constraints, or `CORDIAL_NO_POINTER_LOCK` is the control run.
    pub unavailable: bool,
    /// `CORDIAL_NO_DRAG_LOCK`: only the engine's request captures.
    pub no_drag_lock: bool,
    /// `CORDIAL_FORCE_POINTER_LOCK`: capture whatever anyone says.
    pub forced: bool,
    /// The Android button bits held now.
    pub buttons: i32,
    /// The pointer is over the engine's canvas.
    pub on_canvas: bool,
    /// A dialog or the text editor of Cordial's own is in front of the canvas.
    pub ui_in_front: bool,
    /// Escape gave the cursor back and nothing has stopped asking since.
    pub suppressed: bool,
    /// Cordial holds a lock object.
    pub held: bool,
    /// That lock was deactivated by the compositor and has stayed off for over
    /// a second with the pointer over the canvas.
    pub went_dead: bool,
}

/// What to do about the lock this pump.
#[derive(Debug, Clone, Copy, PartialEq, Eq)]
pub enum LockAction {
    Nothing,
    Lock,
    Release,
    /// Drop a lock the compositor switched off and never back on, so the next
    /// pump asks afresh.
    Renew,
}

/// Whether anything asks for the lock: the engine, a camera drag over the
/// canvas (unless drag locking is off), or the force switch — and nothing of
/// Cordial's own is in front of the canvas.
pub open spec fn asked(i: LockInputs) -> bool {
    (i.engine_wants || (!i.no_drag_lock && (i.buttons & CAMERA_BUTTONS) != 0 && i.on_canvas)
        || i.forced) && !i.ui_in_front
}

/// The Escape latch after this pump, and what to do: the latch lifts only
/// when nothing asks; the lock is wanted when asked and not latched; taken
/// when wanted and not held, released when held and not wanted, and renewed
/// when wanted, held and dead. When no lock is available nothing changes.
pub open spec fn spec_lock_decision(i: LockInputs) -> (bool, LockAction) {
    if i.unavailable {
        (i.suppressed, LockAction::Nothing)
    } else {
        let suppressed = asked(i) && i.suppressed;
        let want = asked(i) && !suppressed;
        (
            suppressed,
            if want && !i.held {
                LockAction::Lock
            } else if !want && i.held {
                LockAction::Release
            } else if want && i.held && i.went_dead {
                LockAction::Renew
            } else {
                LockAction::Nothing
            },
        )
    }
}

pub fn decide_pointer_lock(i: LockInputs) -> (r: (bool, LockAction))
    ensures
        r == spec_lock_decision(i),
{
    if i.unavailable {
        return (i.suppressed, LockAction::Nothing);
    }
    let dragging = !i.no_drag_lock && (i.buttons & CAMERA_BUTTONS) != 0 && i.on_canvas;
    let asked = (i.engine_wants || dragging || i.forced) && !i.ui_in_front;
    let suppressed = asked && i.suppressed;
    let want = asked && !suppressed;
    let action = if want && !i.held {
        LockAction::Lock
    } else if !want && i.held {
        LockAction::Release
    } else if want && i.held && i.went_dead {
        LockAction::Renew
    } else {
        LockAction::Nothing
    };
    (suppressed, action)
}

/// Whether a lock deactivated at `inactive_since_ms` has been off long enough
/// to treat as gone: over a second, with no activation since and the pointer
/// over the canvas.
pub fn lock_went_dead(active: bool, on_canvas: bool, inactive_since_ms: Option<u64>, now_ms: u64) -> (d: bool)
    ensures
        d == (!active && on_canvas && (inactive_since_ms matches Some(at) && now_ms >= at && now_ms
            - at > 1000)),
{
    if active || !on_canvas {
        return false;
    }
    match inactive_since_ms {
        Some(at) => now_ms >= at && now_ms - at > 1000,
        None => false,
    }
}

/// `CORDIAL_POINTER_ACCEL`: only `always` passes the compositor's accelerated
/// deltas to the camera.
pub fn pointer_acceleration_for(v: Option<&str>) -> (on: bool)
    ensures
        on == (v matches Some(t) && t@ == "always"@),
{
    match v {
        Some(t) => {
            let cs = chars_of(t);
            crate::text::eq_str(cs.as_slice(), "always")
        },
        None => false,
    }
}

/// Whether to constrain the toplevel rather than the canvas subsurface:
/// `CORDIAL_POINTER_LOCK_SURFACE` decides when it says `toplevel` or
/// `canvas`; otherwise only on KDE, named in either desktop variable, in any
/// case.
pub open spec fn spec_constrain_toplevel(surface: Option<Seq<char>>, desktop: Seq<char>, session: Seq<char>) -> bool {
    if surface == Some("toplevel"@) {
        true
    } else if surface == Some("canvas"@) {
        false
    } else {
        ||| crate::text::contains(crate::text::ascii_lower(desktop), "kde"@)
        ||| crate::text::contains(crate::text::ascii_lower(desktop), "plasma"@)
        ||| crate::text::contains(crate::text::ascii_lower(session), "kde"@)
        ||| crate::text::contains(crate::text::ascii_lower(session), "plasma"@)
    }
}

pub fn constrain_toplevel_for(surface: Option<&str>, desktop: &str, session: &str) -> (on: bool)
    ensures
        on == spec_constrain_toplevel(
            match surface {
                Some(s) => Some(s@),
                None => None,
            },
            desktop@,
            session@,
        ),
{
    proof {
        reveal_strlit("toplevel");
        reveal_strlit("canvas");
    }
    if let Some(s) = surface {
        let cs = chars_of(s);
        if crate::text::eq_str(cs.as_slice(), "toplevel") {
            return true;
        }
        if crate::text::eq_str(cs.as_slice(), "canvas") {
            return false;
        }
    }
    let d = crate::text::ascii_lower_exec(chars_of(desktop).as_slice());
    let e = crate::text::ascii_lower_exec(chars_of(session).as_slice());
    crate::text::contains_exec(d.as_slice(), "kde") || crate::text::contains_exec(d.as_slice(), "plasma")
        || crate::text::contains_exec(e.as_slice(), "kde") || crate::text::contains_exec(
        e.as_slice(),
        "plasma",
    )
}

// ------------------------------------------------------------ the canvas

/// What a requested surface size does.
#[derive(Debug, Clone, Copy, PartialEq, Eq)]
pub enum Resize {
    /// A zero or negative size: refused.
    Refused,
    /// Already this size: nothing to tell the engine.
    Unchanged,
    /// A new size, recorded: tell the engine and resize the EGL window.
    Accepted,
}

/// Where the engine's canvas subsurface has been put, and at what size.
pub struct Canvas {
    placed_at: (i32, i32),
    /// Whether the subsurface has ever been positioned. Bookkeeping that
    /// agrees with itself is not a placement: a subsurface never positioned
    /// and committed does not display.
    ever_placed: bool,
    size: (i32, i32),
}

pub struct CanvasView {
    pub placed_at: (i32, i32),
    pub ever_placed: bool,
    pub size: (i32, i32),
}

impl View for Canvas {
    type V = CanvasView;

    closed spec fn view(&self) -> CanvasView {
        CanvasView { placed_at: self.placed_at, ever_placed: self.ever_placed, size: self.size }
    }
}

impl Canvas {
    /// A canvas never placed, at the size the window opened with.
    pub fn new(width: i32, height: i32) -> (c: Canvas)
        ensures
            c@ == (CanvasView { placed_at: (0, 0), ever_placed: false, size: (width, height) }),
    {
        Canvas { placed_at: (0, 0), ever_placed: false, size: (width, height) }
    }

    /// The content area is at `(x, y)`: whether the subsurface must be
    /// positioned there — when it moved, and always the first time.
    pub fn place(&mut self, x: i32, y: i32) -> (position: bool)
        ensures
            position == (!old(self)@.ever_placed || old(self)@.placed_at != (x, y)),
            final(self)@ == (CanvasView { placed_at: (x, y), ever_placed: true, ..old(self)@ }),
    {
        let moved = self.placed_at.0 != x || self.placed_at.1 != y;
        let first = !self.ever_placed;
        self.placed_at = (x, y);
        self.ever_placed = true;
        moved || first
    }

    /// The surface is to be `width` by `height`.
    pub fn resize(&mut self, width: i32, height: i32) -> (r: Resize)
        ensures
            r == (if width <= 0 || height <= 0 {
                Resize::Refused
            } else if old(self)@.size == (width, height) {
                Resize::Unchanged
            } else {
                Resize::Accepted
            }),
            final(self)@ == (if r == Resize::Accepted {
                CanvasView { size: (width, height), ..old(self)@ }
            } else {
                old(self)@
            }),
    {
        if width <= 0 || height <= 0 {
            return Resize::Refused;
        }
        if self.size.0 == width && self.size.1 == height {
            return Resize::Unchanged;
        }
        self.size = (width, height);
        Resize::Accepted
    }

    /// The size the engine was last told.
    pub fn size(&self) -> (s: (i32, i32))
        ensures
            s == self@.size,
    {
        self.size
    }
}

// ------------------------------------------------------------ pointer buttons

/// One button bit, if `held` has it.
pub open spec fn if_held(held: i32, button: i32) -> Seq<i32> {
    if held & button != 0 {
        seq![button]
    } else {
        seq![]
    }
}

/// The held buttons, primary first, that a pointer leaving the canvas must
/// release — the compositor will never send their releases.
pub open spec fn held_buttons(held: i32) -> Seq<i32> {
    if_held(held, BUTTON_PRIMARY) + if_held(held, BUTTON_SECONDARY) + if_held(held, BUTTON_TERTIARY)
        + if_held(held, BUTTON_BACK) + if_held(held, BUTTON_FORWARD)
}

pub fn buttons_to_release(held: i32) -> (v: Vec<i32>)
    ensures
        v@ == held_buttons(held),
{
    let mut v: Vec<i32> = Vec::new();
    if held & BUTTON_PRIMARY != 0 {
        v.push(BUTTON_PRIMARY);
    }
    if held & BUTTON_SECONDARY != 0 {
        v.push(BUTTON_SECONDARY);
    }
    if held & BUTTON_TERTIARY != 0 {
        v.push(BUTTON_TERTIARY);
    }
    if held & BUTTON_BACK != 0 {
        v.push(BUTTON_BACK);
    }
    if held & BUTTON_FORWARD != 0 {
        v.push(BUTTON_FORWARD);
    }
    assert(v@ =~= held_buttons(held));
    v
}

/// A button pressed: the buttons held after, and whether this press began a
/// gesture (nothing was held before), which is when its down time is taken.
pub fn press_button(held: i32, button: i32) -> (r: (i32, bool))
    ensures
        r == (held | button, held == 0),
{
    (held | button, held == 0)
}

/// A button released: the buttons still held.
pub fn release_button(held: i32, button: i32) -> (r: i32)
    ensures
        r == held & !button,
{
    held & !button
}

// ------------------------------------------------------------ in front of the engine

/// What of Cordial's own is drawn over the engine: web-view dialogs, counted
/// — two can be open at once — and the text editor. Only the edges restack
/// the engine: the first thing in front lowers it below the window, the last
/// one gone raises it again.
pub struct Front {
    dialogs: i32,
    editor: bool,
}

pub struct FrontView {
    pub dialogs: i32,
    pub editor: bool,
}

impl View for Front {
    type V = FrontView;

    closed spec fn view(&self) -> FrontView {
        FrontView { dialogs: self.dialogs, editor: self.editor }
    }
}

/// The count after one more opens, wrapping as the atomic counter does.
pub open spec fn one_more(n: i32) -> i32 {
    if n == i32::MAX {
        i32::MIN
    } else {
        (n + 1) as i32
    }
}

/// The count after one closes, wrapping as the atomic counter does.
pub open spec fn one_fewer(n: i32) -> i32 {
    if n == i32::MIN {
        i32::MAX
    } else {
        (n - 1) as i32
    }
}

/// How a change restacks the engine: `Some(false)` lowers it below the
/// window, `Some(true)` raises it, `None` leaves it.
pub type Restack = Option<bool>;

pub open spec fn spec_dialog_opened(f: FrontView) -> (FrontView, Restack) {
    (
        FrontView { dialogs: one_more(f.dialogs), ..f },
        if f.dialogs == 0 && !f.editor {
            Some(false)
        } else {
            None
        },
    )
}

pub open spec fn spec_dialog_closed(f: FrontView) -> (FrontView, Restack) {
    (
        FrontView { dialogs: one_fewer(f.dialogs), ..f },
        if f.dialogs == 1 && !f.editor {
            Some(true)
        } else {
            None
        },
    )
}

pub open spec fn spec_editor_shown(f: FrontView) -> (FrontView, Restack) {
    (
        FrontView { editor: true, ..f },
        if !f.editor && f.dialogs == 0 {
            Some(false)
        } else {
            None
        },
    )
}

pub open spec fn spec_editor_hidden(f: FrontView) -> (FrontView, Restack) {
    (
        FrontView { editor: false, ..f },
        if f.editor && f.dialogs == 0 {
            Some(true)
        } else {
            None
        },
    )
}

impl Front {
    pub fn new() -> (f: Front)
        ensures
            f@ == (FrontView { dialogs: 0, editor: false }),
    {
        Front { dialogs: 0, editor: false }
    }

    /// A dialog is in front, so pointer input does not reach the engine.
    pub fn dialog_in_front(&self) -> (b: bool)
        ensures
            b == (self@.dialogs > 0),
    {
        self.dialogs > 0
    }

    /// Anything of Cordial's own is in front, so the cursor is drawn.
    pub fn ui_in_front(&self) -> (b: bool)
        ensures
            b == (self@.dialogs > 0 || self@.editor),
    {
        self.dialogs > 0 || self.editor
    }

    pub fn dialog_opened(&mut self) -> (r: Restack)
        ensures
            (final(self)@, r) == spec_dialog_opened(old(self)@),
    {
        let before = self.dialogs;
        self.dialogs = if before == i32::MAX {
            i32::MIN
        } else {
            before + 1
        };
        if before == 0 && !self.editor {
            Some(false)
        } else {
            None
        }
    }

    /// A dialog closed. The window stays claimed for dialogs while any is
    /// left; `dialog_in_front` says when none is.
    pub fn dialog_closed(&mut self) -> (r: Restack)
        ensures
            (final(self)@, r) == spec_dialog_closed(old(self)@),
    {
        let before = self.dialogs;
        self.dialogs = if before == i32::MIN {
            i32::MAX
        } else {
            before - 1
        };
        if before == 1 && !self.editor {
            Some(true)
        } else {
            None
        }
    }

    /// The text editor is placed over a focused box.
    pub fn editor_shown(&mut self) -> (r: Restack)
        ensures
            (final(self)@, r) == spec_editor_shown(old(self)@),
    {
        let before = self.editor;
        self.editor = true;
        if !before && self.dialogs == 0 {
            Some(false)
        } else {
            None
        }
    }

    /// The text editor is taken down: no box is focused.
    pub fn editor_hidden(&mut self) -> (r: Restack)
        ensures
            (final(self)@, r) == spec_editor_hidden(old(self)@),
    {
        let before = self.editor;
        self.editor = false;
        if before && self.dialogs == 0 {
            Some(true)
        } else {
            None
        }
    }
}

// ------------------------------------------------------------ routing the pointer

/// Whether pointer motion and wheel events reach the engine: only over its
/// canvas, and never while a dialog of Cordial's own is in front of it.
pub fn pointer_reaches_engine(on_canvas: bool, dialog_in_front: bool) -> (b: bool)
    ensures
        b == (on_canvas && !dialog_in_front),
{
    on_canvas && !dialog_in_front
}

/// The Android button a `wl_pointer.button` event is passed on as, if it is
/// passed on at all: over the canvas, with no dialog in front, and a button
/// Android has.
pub open spec fn routed_button(on_canvas: bool, dialog_in_front: bool, button: u32) -> Option<i32> {
    if on_canvas && !dialog_in_front {
        android_button(button)
    } else {
        None
    }
}

pub fn route_button(on_canvas: bool, dialog_in_front: bool, button: u32) -> (b: Option<i32>)
    ensures
        b == routed_button(on_canvas, dialog_in_front, button),
{
    if !pointer_reaches_engine(on_canvas, dialog_in_front) {
        return None;
    }
    linux_button_to_android(button)
}

// ------------------------------------------------------------ stacking

/// One step of moving the engine's canvas above or below the window.
#[derive(Debug, Clone, Copy, PartialEq, Eq)]
pub enum StackStep {
    /// Make the window's background transparent, or opaque again.
    SeeThrough(bool),
    /// Ask GTK for a frame now.
    Repaint,
    /// Restack the subsurface above or below its parent.
    Place { above: bool },
    /// Have GTK commit the parent on its next frame.
    QueueCommit,
    /// Drop the parent's opaque region.
    ClearOpaqueRegion,
    /// Commit the parent now, so the restack takes effect.
    CommitParent,
}

/// The steps, in order. Going down, the background is transparent before
/// the restack lands, or the engine vanishes for a frame; going up, the
/// canvas is restacked and committed before the background turns opaque, so
/// the desktop never shows through.
pub open spec fn spec_stacking(above: bool) -> Seq<StackStep> {
    if above {
        seq![
            StackStep::Place { above: true },
            StackStep::QueueCommit,
            StackStep::CommitParent,
            StackStep::SeeThrough(false),
        ]
    } else {
        seq![
            StackStep::SeeThrough(true),
            StackStep::Repaint,
            StackStep::Place { above: false },
            StackStep::QueueCommit,
            StackStep::ClearOpaqueRegion,
            StackStep::CommitParent,
        ]
    }
}

pub fn stacking(above: bool) -> (steps: Vec<StackStep>)
    ensures
        steps@ == spec_stacking(above),
{
    let mut v: Vec<StackStep> = Vec::new();
    if !above {
        v.push(StackStep::SeeThrough(true));
        v.push(StackStep::Repaint);
    }
    v.push(StackStep::Place { above });
    v.push(StackStep::QueueCommit);
    if !above {
        v.push(StackStep::ClearOpaqueRegion);
    }
    v.push(StackStep::CommitParent);
    if above {
        v.push(StackStep::SeeThrough(false));
    }
    assert(v@ =~= spec_stacking(above));
    v
}

// ------------------------------------------------------------ the seat

/// `wl_seat`'s touch capability bit.
pub const WL_SEAT_CAPABILITY_TOUCH: u32 = 4;

/// What a `wl_seat.capabilities` event means for touch.
#[derive(Debug, Clone, Copy, PartialEq, Eq)]
pub enum TouchChange {
    /// The same capabilities as before: nothing to do.
    Unchanged,
    /// Touch is offered: bind it (again).
    Bind,
    /// Touch was offered and is withdrawn: cancel whatever is on the glass.
    Withdrawn,
    /// Something else changed.
    Other,
}

pub fn touch_change(previous: u32, caps: u32) -> (c: TouchChange)
    ensures
        c == (if previous == caps {
            TouchChange::Unchanged
        } else if caps & WL_SEAT_CAPABILITY_TOUCH != 0 {
            TouchChange::Bind
        } else if previous & WL_SEAT_CAPABILITY_TOUCH != 0 {
            TouchChange::Withdrawn
        } else {
            TouchChange::Other
        }),
{
    if previous == caps {
        TouchChange::Unchanged
    } else if caps & WL_SEAT_CAPABILITY_TOUCH != 0 {
        TouchChange::Bind
    } else if previous & WL_SEAT_CAPABILITY_TOUCH != 0 {
        TouchChange::Withdrawn
    } else {
        TouchChange::Other
    }
}

// ------------------------------------------------------------ laws

/// After `leave`, no key is seen, whatever surface the window has, until a
/// new `enter`: keystrokes aimed at another application stay unseen.
pub proof fn law_a_key_after_leave_is_not_seen(
    k: KeyboardView,
    key: u32,
    pressed: bool,
    window: Option<usize>,
)
    ensures
        !key_view(left_view(k), key, pressed, window).0,
{
}

/// An `enter` that arrived before the window existed is honoured once the
/// window does: the first key for that surface is seen.
pub proof fn law_an_early_enter_is_honoured_once_the_window_exists(
    k: KeyboardView,
    surface: usize,
    key: u32,
    pressed: bool,
)
    requires
        surface != 0,
    ensures
        key_view(entered_view(k, surface, None), key, pressed, Some(surface)).0,
{
}

/// A key pressed and released within one focus leaves the held keys exactly
/// as they were.
pub proof fn law_a_tap_leaves_nothing_held(held: Seq<u32>, key: u32)
    requires
        held.no_duplicates(),
        !held.contains(key),
    ensures
        track(track(held, key, true), key, false) == held,
{
    let pressed = held.push(key);
    assert(pressed[held.len() as int] == key);
    assert(pressed.contains(key));
    let i = position(pressed, key);
    assert(0 <= i < pressed.len() && pressed[i] == key);
    if i < held.len() {
        assert(held[i] == key);
        assert(held.contains(key));
    }
    assert(pressed.update(i, pressed.last()).drop_last() =~= held);
}

/// Key repeat re-sends a press for a key already down; it is recorded once,
/// and every key is held at most once.
pub proof fn law_a_repeated_press_is_held_once(held: Seq<u32>, key: u32)
    requires
        held.no_duplicates(),
    ensures
        track(track(held, key, true), key, true) == track(held, key, true),
        track(held, key, true).no_duplicates(),
        track(held, key, true).contains(key),
{
    let pressed = track(held, key, true);
    if !held.contains(key) {
        assert(held.push(key)[held.len() as int] == key);
    }
}

/// A release forgets the key, and no other.
pub proof fn law_a_release_forgets_the_key(held: Seq<u32>, key: u32, other: u32)
    requires
        held.no_duplicates(),
        other != key,
    ensures
        !track(held, key, false).contains(key),
        track(held, key, false).contains(other) == held.contains(other),
{
    if held.contains(key) {
        let i = position(held, key);
        assert(0 <= i < held.len() && held[i] == key);
        let r = held.update(i, held.last()).drop_last();
        if r.contains(key) {
            let j = choose|j: int| 0 <= j < r.len() && r[j] == key;
            if j == i {
                assert(held[held.len() - 1] == key);
            } else {
                assert(held[j] == key);
            }
        }
        if held.contains(other) {
            let j = choose|j: int| 0 <= j < held.len() && held[j] == other;
            if j == held.len() - 1 {
                assert(r[i] == other);
            } else {
                assert(r[j] == other);
            }
        }
        if r.contains(other) {
            let j = choose|j: int| 0 <= j < r.len() && r[j] == other;
            if j == i {
                assert(held[held.len() - 1] == other);
            } else {
                assert(held[j] == other);
            }
        }
    }
}

/// An empty composing string shows nothing: the committed text and caret
/// come back as they were, exactly as with no preedit at all.
pub proof fn law_an_empty_preedit_changes_nothing(committed: Seq<char>, caret: int, cursor_begin: int)
    ensures
        spliced(committed, caret, Some((seq![], cursor_begin))) == spliced(committed, caret, None),
{
    let at = caret_index(committed.len(), caret);
    assert(committed.subrange(0, at) + seq![] + committed.subrange(at, committed.len() as int)
        =~= committed);
}

/// Splicing never loses committed text: what is before the caret stays
/// before the preedit and what is after stays after it.
pub proof fn law_the_preedit_sits_between_the_committed_halves(
    committed: Seq<char>,
    caret: int,
    p: Seq<char>,
    cursor_begin: int,
)
    ensures
        ({
            let at = caret_index(committed.len(), caret);
            let text = spliced(committed, caret, Some((p, cursor_begin))).0;
            &&& text.len() == committed.len() + p.len()
            &&& text.subrange(0, at) == committed.subrange(0, at)
            &&& text.subrange(at, at + p.len()) == p
            &&& text.subrange(at + p.len(), text.len() as int) == committed.subrange(
                at,
                committed.len() as int,
            )
        }),
{
    let at = caret_index(committed.len(), caret);
    let text = spliced(committed, caret, Some((p, cursor_begin))).0;
    assert(text.subrange(0, at) =~= committed.subrange(0, at));
    assert(text.subrange(at, at + p.len()) =~= p);
    assert(text.subrange(at + p.len(), text.len() as int) =~= committed.subrange(
        at,
        committed.len() as int,
    ));
}

/// A `done` with nothing in its group is an acknowledgement: it applies no
/// edit and changes nothing.
pub proof fn law_an_empty_group_is_only_an_acknowledgement(m: ImeView, focused: bool)
    requires
        m.pending_commit is None,
        m.pending_preedit is None,
        m.pending_delete is None,
    ensures
        spec_done(m, focused) == (m, None::<(Option<(u32, u32)>, Option<Seq<char>>)>),
{
}

/// The preedit a group carries replaces the one shown, whatever was shown
/// before; a group without one leaves it.
pub proof fn law_the_groups_preedit_replaces_the_shown_one(
    m: ImeView,
    p: Option<(Seq<char>, i32, i32)>,
)
    ensures
        spec_done(ImeView { pending_preedit: Some(p), ..m }, true).0.preedit == p,
        m.pending_preedit is None ==> spec_done(m, true).0.preedit == m.preedit,
{
}

/// While an input method owns the text, the keyboard path never inserts it:
/// only the six editing keys still edit.
pub proof fn law_the_keyboard_never_types_over_an_input_method(keysym: u64, typed: Seq<char>)
    ensures
        !(spec_text_edit(keysym, true, typed) matches Some(TextEditView::Insert(_))),
{
}

/// Escape gives the cursor back for as long as anything keeps asking: while
/// the latch is set the lock is never taken.
pub proof fn law_escape_holds_until_nothing_asks(i: LockInputs)
    requires
        i.suppressed,
        asked(i),
    ensures
        spec_lock_decision(i).0 || i.unavailable,
        spec_lock_decision(i).1 != LockAction::Lock,
{
}

/// Something of Cordial's own in front of the canvas takes the cursor back,
/// whatever the engine wants.
pub proof fn law_a_dialog_in_front_takes_the_cursor_back(i: LockInputs)
    requires
        i.ui_in_front,
        i.held,
        !i.unavailable,
    ensures
        spec_lock_decision(i).1 == LockAction::Release,
{
}

/// A left-button drag never captures the pointer: only the engine, a right
/// or middle drag, or the force switch do.
pub proof fn law_a_left_drag_never_captures(i: LockInputs)
    requires
        i.buttons == BUTTON_PRIMARY,
        !i.engine_wants,
        !i.forced,
        !i.held,
    ensures
        spec_lock_decision(i).1 == LockAction::Nothing,
{
    assert(1i32 & 6i32 == 0i32) by (bit_vector);
}

/// Each modifier is reported to the engine as its own Android bit and no
/// other: Shift as `0x1`, Alt as `0x2`, Ctrl as `0x1000`, Caps Lock as
/// `0x100000`, and nothing else is ever set.
pub proof fn law_each_modifier_is_its_own_android_bit(shift: bool, ctrl: bool, alt: bool, caps: bool)
    ensures
        (meta_mask(shift, ctrl, alt, caps) & 0x1i32 != 0) == shift,
        (meta_mask(shift, ctrl, alt, caps) & 0x2i32 != 0) == alt,
        (meta_mask(shift, ctrl, alt, caps) & 0x1000i32 != 0) == ctrl,
        (meta_mask(shift, ctrl, alt, caps) & 0x100000i32 != 0) == caps,
        meta_mask(shift, ctrl, alt, caps) & !0x101003i32 == 0,
{
    let m = meta_mask(shift, ctrl, alt, caps);
    let a: i32 = if shift { 1 } else { 0 };
    let b: i32 = if ctrl { 0x1000 } else { 0 };
    let c: i32 = if alt { 2 } else { 0 };
    let d: i32 = if caps { 0x100000 } else { 0 };
    assert(m == a | b | c | d);
    assert(((a | b | c | d) & 1 != 0) == (a == 1) && ((a | b | c | d) & 2 != 0) == (c == 2) && ((
    a | b | c | d) & 0x1000 != 0) == (b == 0x1000) && ((a | b | c | d) & 0x100000 != 0) == (d
        == 0x100000) && (a | b | c | d) & !0x101003i32 == 0) by (bit_vector)
        requires
            a == 1 || a == 0,
            b == 0x1000 || b == 0,
            c == 2 || c == 0,
            d == 0x100000 || d == 0,
    ;
}

/// How a key is routed, key by key: a key the keymap maps reaches the
/// activity whenever there is one, on the way down and on the way up alike —
/// so nothing is left held there — and is reported dropped exactly when there
/// is none; F11 (evdev 87) never reaches either path and flips fullscreen on
/// its press; Escape (evdev 1) asks for the cursor back on its press; every
/// other press may go on to edit a text box.
pub proof fn law_a_key_reaches_the_activity_both_ways(
    evdev: u32,
    down: bool,
    android: Option<i32>,
    has_handle: bool,
)
    ensures
        spec_route_key(evdev, down, android, has_handle).deliver == (if evdev != 87 && has_handle {
            android
        } else {
            None
        }),
        spec_route_key(evdev, true, android, has_handle).deliver == spec_route_key(
            evdev,
            false,
            android,
            has_handle,
        ).deliver,
        spec_route_key(evdev, down, android, has_handle).dropped == (evdev != 87 && android is Some
            && !has_handle),
        spec_route_key(evdev, down, android, has_handle).pass_to_engine == (evdev != 87),
        spec_route_key(evdev, down, android, has_handle).toggle_fullscreen == (evdev == 87 && down),
        spec_route_key(evdev, down, android, has_handle).release_lock == (evdev == 1 && down),
        spec_route_key(evdev, down, android, has_handle).may_edit == (evdev != 87 && down),
{
}

/// Linux's buttons reach Android as the buttons they are: left (`0x110`) as
/// primary (`1`), right (`0x111`) as secondary (`2`), middle (`0x112`) as
/// tertiary (`4`), the side buttons (`0x113`, `0x114`) as back (`8`) and
/// forward (`16`); no other code is a button, and no two codes share a bit.
pub proof fn law_each_button_is_its_own_android_button(a: u32, b: u32)
    ensures
        android_button(0x110) == Some(1i32),
        android_button(0x111) == Some(2i32),
        android_button(0x112) == Some(4i32),
        android_button(0x113) == Some(8i32),
        android_button(0x114) == Some(16i32),
        android_button(a) is Some <==> 0x110 <= a <= 0x114,
        a != b && android_button(a) is Some ==> android_button(a) != android_button(b),
{
}

/// A modifier key's own bit is the bit of the modifier it is: either Shift
/// (evdev 42, 54) is `0x1`, either Ctrl (29, 97) is `0x1000`, either Alt
/// (56, 100) is `0x2`, and every other key has none.
pub proof fn law_a_modifier_key_owns_its_modifiers_bit(key: u32)
    ensures
        modifier_bit(key) == (if key == 42 || key == 54 {
            0x1i32
        } else if key == 29 || key == 97 {
            0x1000i32
        } else if key == 56 || key == 100 {
            0x2i32
        } else {
            0i32
        }),
{
}

/// Whether the engine sits below the window after a restack.
pub open spec fn lowered_after(lowered: bool, r: Restack) -> bool {
    match r {
        Some(above) => !above,
        None => lowered,
    }
}

/// The engine is below the window exactly when something of Cordial's own
/// is in front of it.
pub open spec fn stacked_right(f: FrontView, lowered: bool) -> bool {
    f.dialogs >= 0 && lowered == (f.dialogs > 0 || f.editor)
}

/// The engine is lowered exactly while something of Cordial's own is in
/// front of it — whatever order dialogs open and close and the editor comes
/// and goes, as long as a dialog only closes after it opened. With two
/// dialogs up, closing one leaves the engine hidden behind the other.
pub proof fn law_the_engine_is_lowered_exactly_while_something_is_in_front(
    f: FrontView,
    lowered: bool,
)
    requires
        stacked_right(f, lowered),
        f.dialogs < i32::MAX,
    ensures
        stacked_right(
            spec_dialog_opened(f).0,
            lowered_after(lowered, spec_dialog_opened(f).1),
        ),
        f.dialogs > 0 ==> stacked_right(
            spec_dialog_closed(f).0,
            lowered_after(lowered, spec_dialog_closed(f).1),
        ),
        stacked_right(spec_editor_shown(f).0, lowered_after(lowered, spec_editor_shown(f).1)),
        stacked_right(spec_editor_hidden(f).0, lowered_after(lowered, spec_editor_hidden(f).1)),
{
}

/// A button pressed and released leaves the held buttons as they were when
/// it was not held before.
pub proof fn law_a_click_leaves_the_buttons_as_they_were(held: i32, button: i32)
    requires
        button == BUTTON_PRIMARY || button == BUTTON_SECONDARY || button == BUTTON_TERTIARY
            || button == BUTTON_BACK || button == BUTTON_FORWARD,
        held & button == 0,
    ensures
        (held | button) & !button == held,
{
    assert((held & button) == 0 ==> ((held | button) & !button) == held) by (bit_vector);
}

/// A click on a dialog never reaches the engine underneath it.
pub proof fn law_a_click_on_a_dialog_stays_with_the_dialog(on_canvas: bool, button: u32)
    ensures
        routed_button(on_canvas, true, button) is None,
{
}

/// Lowering the engine makes the window see-through before the restack, and
/// raising it restacks and commits before the window turns opaque: whichever
/// way, the see-through change and the restack come in the order that shows
/// no empty frame.
pub proof fn law_stacking_shows_no_empty_frame(above: bool)
    ensures
        !above ==> spec_stacking(above).index_of(StackStep::SeeThrough(true))
            < spec_stacking(above).index_of(StackStep::Place { above: false }),
        above ==> spec_stacking(above).index_of(StackStep::CommitParent)
            < spec_stacking(above).index_of(StackStep::SeeThrough(false)),
{
    let s = spec_stacking(above);
    if above {
        assert(s[2] == StackStep::CommitParent);
        assert(s[3] == StackStep::SeeThrough(false));
        assert(s.index_of(StackStep::CommitParent) == 2) by {
            assert(s.contains(StackStep::CommitParent));
        }
        assert(s.index_of(StackStep::SeeThrough(false)) == 3) by {
            assert(s.contains(StackStep::SeeThrough(false)));
        }
    } else {
        assert(s[0] == StackStep::SeeThrough(true));
        assert(s[2] == StackStep::Place { above: false });
        assert(s.index_of(StackStep::SeeThrough(true)) == 0) by {
            assert(s.contains(StackStep::SeeThrough(true)));
        }
        assert(s.index_of(StackStep::Place { above: false }) == 2) by {
            assert(s.contains(StackStep::Place { above: false }));
        }
    }
}

} // verus!
