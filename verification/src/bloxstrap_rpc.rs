//! BloxstrapRPC: the protocol a Roblox game uses to drive the launcher's own
//! Discord presence from inside the experience.
//!
//! A game calls Lua's `print` with a marker and a JSON envelope. The engine
//! writes that to its own log under `[FLog::Output]`, and a launcher that is
//! watching the log picks it up. Nothing is injected and nothing is hooked.
//!
//! The protocol is Bloxstrap's; what is followed here is its documented shape
//! — the marker, the envelope, the field names and the persist rules.
//!
//! This module is the protocol and nothing else: it opens no socket, resolves
//! no asset id to a URL and decides nothing about what Cordial publishes.

use vstd::prelude::*;
use crate::json::{
    Json, JsonValue, get, json_document, kind, member, members_value, parse_json, spec_kind,
};
use crate::text::{
    push_signed_decimal, signed_decimal,
    debug_text, str_debug, all_digits, all_digits_exec, chars_of, decimal, eq_str, find, find_exec,
    join, lemma_find_facts, occurs_at, push_decimal, slice_of, string_of, trim, trim_exec,
};

verus! {

/// The marker a game prints ahead of the envelope.
///
/// Matched anywhere in the line rather than at its start, because by the time
/// the line reaches the log the engine has already put its own timestamp,
/// channel and thread id in front of it.
pub const MARKER: &'static str = "[BloxstrapRPC]";

/// Discord's limit on `details` and `state`, in characters. An over-long
/// field is clamped where it arrives rather than rejected downstream.
pub const TEXT_FIELD_LIMIT: usize = 128;

/// The sentinel that returns a field to the launcher's own value.
pub const RESET: &'static str = "<reset>";

/// What one field was asked to become.
///
/// Four states rather than `Option`, because the protocol distinguishes "say
/// nothing about this field" from "make this field empty" from "put this field
/// back to the launcher's own value".
#[derive(Debug, Clone, PartialEq)]
pub enum Update<T> {
    /// Absent or null. The previous value stands.
    Keep,
    /// The empty string, or an image's `clear`. Show nothing.
    Clear,
    /// The literal `<reset>`, or an image's `reset`.
    Reset,
    SetTo(T),
}

impl<T: View> View for Update<T> {
    type V = Update<T::V>;

    open spec fn view(&self) -> Update<T::V> {
        match self {
            Update::Keep => Update::Keep,
            Update::Clear => Update::Clear,
            Update::Reset => Update::Reset,
            Update::SetTo(v) => Update::SetTo(v@),
        }
    }
}

impl<T> Update<T> {
    pub fn is_keep(&self) -> (b: bool)
        ensures
            b == (self is Keep),
    {
        match self {
            Update::Keep => true,
            _ => false,
        }
    }
}

impl<T> Default for Update<T> {
    fn default() -> (u: Self)
        ensures
            u is Keep,
    {
        Update::Keep
    }
}

/// One of the two image slots Discord shows beside an activity.
#[derive(Debug, Clone, PartialEq)]
pub struct Image {
    /// A Roblox asset id, kept as text; digits only.
    pub asset_id: String,
    pub hover_text: Option<String>,
}

pub struct ImageView {
    pub asset_id: Seq<char>,
    pub hover_text: Option<Seq<char>>,
}

impl View for Image {
    type V = ImageView;

    open spec fn view(&self) -> ImageView {
        ImageView {
            asset_id: self.asset_id@,
            hover_text: match self.hover_text {
                Some(h) => Some(h@),
                None => None,
            },
        }
    }
}

/// A field's settled value.
#[derive(Debug, Clone, PartialEq)]
pub enum Slot<T> {
    /// Cordial's own value stands. The starting state, and where `<reset>`
    /// returns a field to.
    Default,
    /// The game asked for nothing to be shown here.
    Empty,
    Value(T),
}

impl<T: View> View for Slot<T> {
    type V = Slot<T::V>;

    open spec fn view(&self) -> Slot<T::V> {
        match self {
            Slot::Default => Slot::Default,
            Slot::Empty => Slot::Empty,
            Slot::Value(v) => Slot::Value(v@),
        }
    }
}

impl<T> Default for Slot<T> {
    fn default() -> (s: Self)
        ensures
            s is Default,
    {
        Slot::Default
    }
}

/// What a slot becomes under an update.
pub open spec fn slot_apply<V>(s: Slot<V>, u: Update<V>) -> Slot<V> {
    match u {
        Update::Keep => s,
        Update::Clear => Slot::Empty,
        Update::Reset => Slot::Default,
        Update::SetTo(v) => Slot::Value(v),
    }
}

impl Slot<String> {
    /// The string to publish, or `None` when the game never mentioned it.
    /// `Empty` becomes `""`: the game clearing a field is a statement.
    pub fn as_text(&self) -> (t: Option<&str>)
        ensures
            match self@ {
                Slot::Default => t is None,
                Slot::Empty => t matches Some(s) && s@.len() == 0,
                Slot::Value(v) => t matches Some(s) && s@ == v,
            },
    {
        match self {
            Slot::Default => None,
            Slot::Empty => {
                proof {
                    reveal_strlit("");
                }
                Some("")
            },
            Slot::Value(v) => Some(v.as_str()),
        }
    }
}

impl<T: View> Slot<T> {
    /// Fold one update in.
    pub fn apply(&mut self, update: Update<T>)
        ensures
            final(self)@ == slot_apply(old(self)@, update@),
    {
        match update {
            Update::Keep => {},
            Update::Clear => *self = Slot::Empty,
            Update::Reset => *self = Slot::Default,
            Update::SetTo(v) => *self = Slot::Value(v),
        }
    }

    /// The value, if the game set one. `Default` and `Empty` both answer `None`.
    pub fn value(&self) -> (v: Option<&T>)
        ensures
            match self@ {
                Slot::Value(x) => v matches Some(r) && r@ == x,
                _ => v is None,
            },
    {
        match self {
            Slot::Value(v) => Some(v),
            _ => None,
        }
    }
}

/// The accumulated presence, after every command seen so far.
#[derive(Debug, Clone, Default, PartialEq)]
pub struct Presence {
    pub details: Slot<String>,
    pub state: Slot<String>,
    pub time_start: Slot<i64>,
    pub time_end: Slot<i64>,
    pub large_image: Slot<Image>,
    pub small_image: Slot<Image>,
}

pub struct PresenceView {
    pub details: Slot<Seq<char>>,
    pub state: Slot<Seq<char>>,
    pub time_start: Slot<i64>,
    pub time_end: Slot<i64>,
    pub large_image: Slot<ImageView>,
    pub small_image: Slot<ImageView>,
}

impl View for Presence {
    type V = PresenceView;

    open spec fn view(&self) -> PresenceView {
        PresenceView {
            details: self.details@,
            state: self.state@,
            time_start: self.time_start@,
            time_end: self.time_end@,
            large_image: self.large_image@,
            small_image: self.small_image@,
        }
    }
}

/// A parsed command.
#[derive(Debug, Clone, PartialEq)]
pub enum Command {
    SetRichPresence(Box<RichPresence>),
    /// The payload behind the join button, carried through as the game sent it.
    SetLaunchData(String),
}

/// The field-by-field intent of one `SetRichPresence`.
#[derive(Debug, Clone, PartialEq, Default)]
pub struct RichPresence {
    pub details: Update<String>,
    pub state: Update<String>,
    pub time_start: Update<i64>,
    pub time_end: Update<i64>,
    pub large_image: Update<Image>,
    pub small_image: Update<Image>,
    /// Fields the game sent longer than Discord accepts, clamped rather than
    /// refused.
    pub clamped: Vec<&'static str>,
}

pub struct RichPresenceView {
    pub details: Update<Seq<char>>,
    pub state: Update<Seq<char>>,
    pub time_start: Update<i64>,
    pub time_end: Update<i64>,
    pub large_image: Update<ImageView>,
    pub small_image: Update<ImageView>,
    pub clamped: Seq<Seq<char>>,
}

pub open spec fn str_views(v: Seq<&'static str>) -> Seq<Seq<char>> {
    Seq::new(v.len(), |i: int| v[i]@)
}

impl View for RichPresence {
    type V = RichPresenceView;

    open spec fn view(&self) -> RichPresenceView {
        RichPresenceView {
            details: self.details@,
            state: self.state@,
            time_start: self.time_start@,
            time_end: self.time_end@,
            large_image: self.large_image@,
            small_image: self.small_image@,
            clamped: str_views(self.clamped@),
        }
    }
}

pub enum CommandView {
    SetRichPresence(RichPresenceView),
    SetLaunchData(Seq<char>),
}

impl View for Command {
    type V = CommandView;

    open spec fn view(&self) -> CommandView {
        match self {
            Command::SetRichPresence(rp) => CommandView::SetRichPresence((**rp)@),
            Command::SetLaunchData(d) => CommandView::SetLaunchData(d@),
        }
    }
}

/// A presence with every field folded through one `SetRichPresence`.
pub open spec fn presence_apply(p: PresenceView, rp: RichPresenceView) -> PresenceView {
    PresenceView {
        details: slot_apply(p.details, rp.details),
        state: slot_apply(p.state, rp.state),
        time_start: slot_apply(p.time_start, rp.time_start),
        time_end: slot_apply(p.time_end, rp.time_end),
        large_image: slot_apply(p.large_image, rp.large_image),
        small_image: slot_apply(p.small_image, rp.small_image),
    }
}

/// The presence before any command: every field Cordial's own.
pub open spec fn fresh_presence() -> PresenceView {
    PresenceView {
        details: Slot::Default,
        state: Slot::Default,
        time_start: Slot::Default,
        time_end: Slot::Default,
        large_image: Slot::Default,
        small_image: Slot::Default,
    }
}

/// A command that says nothing about any field.
pub open spec fn asks_nothing(rp: RichPresenceView) -> bool {
    &&& rp.details is Keep
    &&& rp.state is Keep
    &&& rp.time_start is Keep
    &&& rp.time_end is Keep
    &&& rp.large_image is Keep
    &&& rp.small_image is Keep
}

impl Presence {
    /// An empty presence: every field still Cordial's own.
    pub fn new() -> (p: Presence)
        ensures
            p@ == fresh_presence(),
    {
        Presence {
            details: Slot::Default,
            state: Slot::Default,
            time_start: Slot::Default,
            time_end: Slot::Default,
            large_image: Slot::Default,
            small_image: Slot::Default,
        }
    }

    /// Fold a command in. Returns the launch data if that is what it was, so
    /// a caller driving both from one stream does not need to match twice.
    pub fn apply(&mut self, command: Command) -> (launch: Option<String>)
        ensures
            match command@ {
                CommandView::SetLaunchData(d) => {
                    &&& launch matches Some(l) && l@ == d
                    &&& final(self)@ == old(self)@
                },
                CommandView::SetRichPresence(rp) => {
                    &&& launch is None
                    &&& final(self)@ == presence_apply(old(self)@, rp)
                },
            },
    {
        match command {
            Command::SetLaunchData(d) => Some(d),
            Command::SetRichPresence(rp) => {
                let rp = *rp;
                self.details.apply(rp.details);
                self.state.apply(rp.state);
                self.time_start.apply(rp.time_start);
                self.time_end.apply(rp.time_end);
                self.large_image.apply(rp.large_image);
                self.small_image.apply(rp.small_image);
                None
            },
        }
    }
}

/// The member a text slot contributes to a payload: none for `Default`, an
/// empty string for `Empty`.
pub open spec fn text_member(key: Seq<char>, s: Slot<Seq<char>>) -> Seq<(Seq<char>, JsonValue)> {
    match s {
        Slot::Default => seq![],
        Slot::Empty => seq![(key, JsonValue::Str(seq![]))],
        Slot::Value(v) => seq![(key, JsonValue::Str(v))],
    }
}

/// The member a time slot contributes: only a value the game set.
pub open spec fn time_member(key: Seq<char>, s: Slot<i64>) -> Seq<(Seq<char>, JsonValue)> {
    match s {
        Slot::Value(t) => seq![(key, JsonValue::Number(signed_decimal(t as int), Some(t)))],
        _ => seq![],
    }
}

/// What a subscriber receives for a presence: the fields the game set, and no
/// image.
pub open spec fn payload_value(p: PresenceView) -> JsonValue {
    JsonValue::Object(
        text_member("details"@, p.details) + text_member("state"@, p.state) + time_member(
            "start"@,
            p.time_start,
        ) + time_member("end"@, p.time_end),
    )
}

proof fn lemma_members_value_push(m: Seq<(String, Json)>, e: (String, Json))
    ensures
        members_value(m.push(e)) == members_value(m) + seq![(e.0@, e.1@)],
    decreases m.len(),
{
    if m.len() == 0 {
        let pushed = m.push(e);
        assert(pushed[0] == e);
        assert(pushed.drop_first() =~= Seq::<(String, Json)>::empty());
        assert(members_value(pushed.drop_first()) =~= Seq::<(Seq<char>, JsonValue)>::empty());
        assert(members_value(pushed) =~= seq![(e.0@, e.1@)]);
    } else {
        lemma_members_value_push(m.drop_first(), e);
        assert(m.push(e).drop_first() =~= m.drop_first().push(e));
        assert(members_value(m.push(e)) =~= members_value(m) + seq![(e.0@, e.1@)]);
    }
}

fn decimal_text(t: i64) -> (s: String)
    ensures
        s@ == signed_decimal(t as int),
{
    let mut cs: Vec<char> = Vec::new();
    push_signed_decimal(&mut cs, t);
    string_of(cs.as_slice())
}

fn push_text_member(members: &mut Vec<(String, Json)>, key: &str, slot: &Slot<String>)
    ensures
        members_value(final(members)@) == members_value(old(members)@) + text_member(key@, slot@),
{
    proof {
        reveal_strlit("");
    }
    match slot {
        Slot::Default => {
            assert(members_value(members@) + Seq::<(Seq<char>, JsonValue)>::empty() =~= members_value(members@));
        },
        Slot::Empty => {
            let e = (String::from_str(key), Json::String(String::new()));
            proof {
                lemma_members_value_push(members@, e);
            }
            members.push(e);
        },
        Slot::Value(v) => {
            let e = (String::from_str(key), Json::String(v.clone()));
            proof {
                lemma_members_value_push(members@, e);
            }
            members.push(e);
        },
    }
}

fn push_time_member(members: &mut Vec<(String, Json)>, key: &str, slot: &Slot<i64>)
    ensures
        members_value(final(members)@) == members_value(old(members)@) + time_member(key@, slot@),
{
    match slot {
        Slot::Value(t) => {
            let e = (String::from_str(key), Json::Number(decimal_text(*t), Some(*t)));
            proof {
                lemma_members_value_push(members@, e);
            }
            members.push(e);
        },
        _ => {
            assert(members_value(members@) + Seq::<(Seq<char>, JsonValue)>::empty() =~= members_value(members@));
        },
    }
}

impl Presence {
    /// What a subscriber to the game-presence event receives.
    ///
    /// **Only fields the game actually set.** `Slot::Default` is omitted
    /// rather than sent as null; `Slot::Empty` *is* sent, as an empty string,
    /// because the game explicitly cleared it. Images are not carried: their
    /// keys belong to the game's own application, not the launcher's.
    pub fn to_payload(&self) -> (j: Json)
        ensures
            j@ == payload_value(self@),
    {
        let mut members: Vec<(String, Json)> = Vec::new();
        assert(members_value(members@) =~= Seq::<(Seq<char>, JsonValue)>::empty());
        push_text_member(&mut members, "details", &self.details);
        push_text_member(&mut members, "state", &self.state);
        push_time_member(&mut members, "start", &self.time_start);
        push_time_member(&mut members, "end", &self.time_end);
        assert(members_value(members@) =~= text_member("details"@, self@.details) + text_member(
            "state"@,
            self@.state,
        ) + time_member("start"@, self@.time_start) + time_member("end"@, self@.time_end));
        Json::Object(members)
    }
}

impl RichPresence {
    /// Whether this command asked for anything at all.
    pub fn is_empty(&self) -> (b: bool)
        ensures
            b == asks_nothing(self@),
    {
        self.details.is_keep() && self.state.is_keep() && self.time_start.is_keep()
            && self.time_end.is_keep() && self.large_image.is_keep()
            && self.small_image.is_keep()
    }
}

// ------------------------------------------------------------ parsing

/// The first `n` characters of `s`, or all of it.
pub open spec fn first_chars(s: Seq<char>, n: nat) -> Seq<char> {
    if s.len() > n {
        s.take(n as int)
    } else {
        s
    }
}

pub open spec fn is_null_or_absent(v: Option<JsonValue>) -> bool {
    v is None || v == Some(JsonValue::Null)
}

/// A text field: the update it asks for, and whether it was clamped.
pub open spec fn spec_text_update(v: Option<JsonValue>, field: Seq<char>) -> Result<
    (Update<Seq<char>>, bool),
    Seq<char>,
> {
    if is_null_or_absent(v) {
        Ok((Update::Keep, false))
    } else {
        match v->0 {
            JsonValue::Str(s) => if s.len() == 0 {
                Ok((Update::Clear, false))
            } else if s == RESET@ {
                Ok((Update::Reset, false))
            } else if s.len() > TEXT_FIELD_LIMIT {
                Ok((Update::SetTo(first_chars(s, TEXT_FIELD_LIMIT as nat)), true))
            } else {
                Ok((Update::SetTo(s), false))
            },
            other => Err(field + " is "@ + spec_kind(other) + ", expected a string"@),
        }
    }
}

/// A time field. There is no empty integer, so the string sentinels are how
/// a time is unset.
pub open spec fn spec_int_update(v: Option<JsonValue>, field: Seq<char>) -> Result<
    Update<i64>,
    Seq<char>,
> {
    if is_null_or_absent(v) {
        Ok(Update::Keep)
    } else {
        match v->0 {
            JsonValue::Str(s) => if s == RESET@ {
                Ok(Update::Reset)
            } else if s.len() == 0 {
                Ok(Update::Clear)
            } else {
                Err(field + " is a string, expected a number"@)
            },
            JsonValue::Number(_, whole) => match whole {
                Some(n) => Ok(Update::SetTo(n)),
                None => Err(field + " is not a whole number of seconds"@),
            },
            other => Err(field + " is "@ + spec_kind(other) + ", expected a number"@),
        }
    }
}

/// An image field: `clear` beats `reset`, and an asset id is digits or
/// nothing.
pub open spec fn spec_image_update(v: Option<JsonValue>, field: Seq<char>) -> Result<
    Update<ImageView>,
    Seq<char>,
> {
    if is_null_or_absent(v) {
        Ok(Update::Keep)
    } else {
        match v->0 {
            JsonValue::Object(m) => if member(m, "clear"@) == Some(JsonValue::Bool(true)) {
                Ok(Update::Clear)
            } else if member(m, "reset"@) == Some(JsonValue::Bool(true)) {
                Ok(Update::Reset)
            } else {
                let asset = member(m, "assetId"@);
                if is_null_or_absent(asset) {
                    Ok(Update::Keep)
                } else {
                    let id: Option<Seq<char>> = match asset->0 {
                        JsonValue::Number(text, _) => Some(text),
                        JsonValue::Str(s) => Some(s),
                        _ => None,
                    };
                    match id {
                        None => Err(field + ".assetId is "@ + spec_kind(asset->0)
                            + ", expected a number or string"@),
                        Some(a) => if a.len() == 0 || !all_digits(a) {
                            Err(field + ".assetId is not an asset id"@)
                        } else {
                            let hover = member(m, "hoverText"@);
                            if is_null_or_absent(hover) {
                                Ok(Update::SetTo(ImageView { asset_id: a, hover_text: None }))
                            } else {
                                match hover->0 {
                                    JsonValue::Str(h) => Ok(
                                        Update::SetTo(
                                            ImageView {
                                                asset_id: a,
                                                hover_text: if h.len() == 0 {
                                                    None
                                                } else {
                                                    Some(first_chars(h, TEXT_FIELD_LIMIT as nat))
                                                },
                                            },
                                        ),
                                    ),
                                    other => Err(field + ".hoverText is "@ + spec_kind(other)
                                        + ", expected a string"@),
                                }
                            }
                        },
                    }
                }
            },
            _ => Err(field + " is not an object"@),
        }
    }
}

/// A `SetRichPresence` that asks for nothing.
pub open spec fn empty_rich_presence() -> RichPresenceView {
    RichPresenceView {
        details: Update::Keep,
        state: Update::Keep,
        time_start: Update::Keep,
        time_end: Update::Keep,
        large_image: Update::Keep,
        small_image: Update::Keep,
        clamped: seq![],
    }
}

/// The fields of a `SetRichPresence`, each in turn; the first bad one is the
/// answer.
pub open spec fn spec_rich_presence(d: Seq<(Seq<char>, JsonValue)>) -> Result<
    RichPresenceView,
    Seq<char>,
> {
    match spec_text_update(member(d, "details"@), "details"@) {
        Err(e) => Err(e),
        Ok(details) => match spec_text_update(member(d, "state"@), "state"@) {
            Err(e) => Err(e),
            Ok(state) => match spec_int_update(member(d, "timeStart"@), "timeStart"@) {
                Err(e) => Err(e),
                Ok(time_start) => match spec_int_update(member(d, "timeEnd"@), "timeEnd"@) {
                    Err(e) => Err(e),
                    Ok(time_end) => match spec_image_update(
                        member(d, "largeImage"@),
                        "largeImage"@,
                    ) {
                        Err(e) => Err(e),
                        Ok(large_image) => match spec_image_update(
                            member(d, "smallImage"@),
                            "smallImage"@,
                        ) {
                            Err(e) => Err(e),
                            Ok(small_image) => Ok(
                                RichPresenceView {
                                    details: details.0,
                                    state: state.0,
                                    time_start,
                                    time_end,
                                    large_image,
                                    small_image,
                                    clamped: (if details.1 {
                                        seq!["details"@]
                                    } else {
                                        seq![]
                                    }) + (if state.1 {
                                        seq!["state"@]
                                    } else {
                                        seq![]
                                    }),
                                },
                            ),
                        },
                    },
                },
            },
        },
    }
}

/// The command a parsed envelope carries, or why there is none.
pub open spec fn spec_envelope_command(value: JsonValue) -> Result<CommandView, Seq<char>> {
    match value {
            JsonValue::Object(m) => match member(m, "command"@) {
                Some(JsonValue::Str(command)) => {
                    let data = member(m, "data"@);
                    if command == "SetRichPresence"@ {
                        if is_null_or_absent(data) {
                            Ok(CommandView::SetRichPresence(empty_rich_presence()))
                        } else {
                            match data->0 {
                                JsonValue::Object(d) => match spec_rich_presence(d) {
                                    Ok(rp) => Ok(CommandView::SetRichPresence(rp)),
                                    Err(e) => Err(e),
                                },
                                _ => Err("data is not an object"@),
                            }
                        }
                    } else if command == "SetLaunchData"@ {
                        match data {
                            None => Err("SetLaunchData with no data"@),
                            Some(JsonValue::Str(text)) => Ok(CommandView::SetLaunchData(text)),
                            Some(_) => Err("SetLaunchData data is not a string"@),
                        }
                    } else {
                        Err("unknown command "@ + str_debug(command))
                    }
                },
                _ => Err("envelope has no string command"@),
            },
            _ => Err("envelope is not an object"@),
    }
}

/// The command in an envelope, or why there is none.
pub open spec fn spec_parse_envelope(body: Seq<char>) -> Result<CommandView, Seq<char>> {
    match json_document(body) {
        Err(e) => Err("bad envelope: "@ + e),
        Ok(value) => spec_envelope_command(value),
    }
}

/// The command one log line carries, if it carries one: `Ok(None)` for a line
/// with no marker, which is almost every line.
pub open spec fn spec_parse_line(line: Seq<char>) -> Result<Option<CommandView>, Seq<char>> {
    match find(line, MARKER@) {
        None => Ok(None),
        Some(at) => {
            let body = trim(line.subrange(at + MARKER@.len(), line.len() as int));
            if body.len() == 0 {
                Err("marker with no envelope"@)
            } else {
                match spec_parse_envelope(body) {
                    Ok(c) => Ok(Some(c)),
                    Err(e) => Err(e),
                }
            }
        },
    }
}

fn text_of(parts: &[char]) -> (s: String)
    ensures
        s@ == parts@,
{
    string_of(parts)
}

/// `field` followed by `rest`, as a message.
fn message(field: &str, rest: &str) -> (m: String)
    ensures
        m@ == field@ + rest@,
{
    let mut m = String::from_str(field);
    m.append(rest);
    m
}

/// `field`, ` is `, a kind, and `tail`, as a message.
fn kind_message(field: &str, v: &Json, tail: &str) -> (m: String)
    ensures
        m@ == field@ + " is "@ + spec_kind(v@) + tail@,
{
    let mut m = String::from_str(field);
    m.append(" is ");
    m.append(kind(v));
    m.append(tail);
    m
}

pub open spec fn opt_view(v: Option<&Json>) -> Option<JsonValue> {
    match v {
        Some(j) => Some(j@),
        None => None,
    }
}

fn null_or_absent(v: Option<&Json>) -> (b: bool)
    ensures
        b == is_null_or_absent(opt_view(v)),
{
    match v {
        None => true,
        Some(Json::Null) => true,
        Some(_) => false,
    }
}

/// One text field, as [`spec_text_update`] reads it; a value cut to the limit
/// has `field` noted in `clamped`.
pub fn text_update(v: Option<&Json>, field: &'static str, clamped: &mut Vec<&'static str>) -> (r:
    Result<Update<String>, String>)
    ensures
        match spec_text_update(opt_view(v), field@) {
            Ok(u) => {
                &&& r matches Ok(x) && x@ == u.0
                &&& str_views(final(clamped)@) == str_views(old(clamped)@) + (if u.1 {
                    seq![field@]
                } else {
                    seq![]
                })
            },
            Err(e) => r matches Err(x) && x@ == e && final(clamped)@ == old(clamped)@,
        },
{
    if null_or_absent(v) {
        assert(str_views(clamped@) + Seq::<Seq<char>>::empty() =~= str_views(clamped@));
        return Ok(Update::Keep);
    }
    let j = v.unwrap();
    match j {
        Json::String(s) => {
            let cs = chars_of(s.as_str());
            if cs.len() == 0 {
                assert(str_views(clamped@) + Seq::<Seq<char>>::empty() =~= str_views(clamped@));
                Ok(Update::Clear)
            } else if eq_str(cs.as_slice(), RESET) {
                assert(str_views(clamped@) + Seq::<Seq<char>>::empty() =~= str_views(clamped@));
                Ok(Update::Reset)
            } else if cs.len() > TEXT_FIELD_LIMIT {
                let ghost before = str_views(clamped@);
                clamped.push(field);
                assert(str_views(clamped@) =~= before + seq![field@]);
                let kept = slice_of(cs.as_slice(), 0, TEXT_FIELD_LIMIT);
                assert(kept@ =~= first_chars(s@, TEXT_FIELD_LIMIT as nat));
                Ok(Update::SetTo(text_of(kept.as_slice())))
            } else {
                assert(str_views(clamped@) + Seq::<Seq<char>>::empty() =~= str_views(clamped@));
                Ok(Update::SetTo(s.clone()))
            }
        },
        other => Err(kind_message(field, other, ", expected a string")),
    }
}

/// One time field, as [`spec_int_update`] reads it.
pub fn int_update(v: Option<&Json>, field: &'static str) -> (r: Result<Update<i64>, String>)
    ensures
        match spec_int_update(opt_view(v), field@) {
            Ok(u) => r matches Ok(x) && x@ == u,
            Err(e) => r matches Err(x) && x@ == e,
        },
{
    if null_or_absent(v) {
        return Ok(Update::Keep);
    }
    let j = v.unwrap();
    match j {
        Json::String(s) => {
            let cs = chars_of(s.as_str());
            if eq_str(cs.as_slice(), RESET) {
                Ok(Update::Reset)
            } else if cs.len() == 0 {
                Ok(Update::Clear)
            } else {
                Err(message(field, " is a string, expected a number"))
            }
        },
        Json::Number(_, whole) => match whole {
            Some(n) => Ok(Update::SetTo(*n)),
            None => Err(message(field, " is not a whole number of seconds")),
        },
        other => Err(kind_message(field, other, ", expected a number")),
    }
}

fn is_true(v: Option<&Json>) -> (b: bool)
    ensures
        b == (opt_view(v) == Some(JsonValue::Bool(true))),
{
    match v {
        Some(Json::Bool(b)) => *b,
        _ => false,
    }
}

/// One image field, as [`spec_image_update`] reads it.
pub fn image_update(v: Option<&Json>, field: &'static str) -> (r: Result<Update<Image>, String>)
    ensures
        match spec_image_update(opt_view(v), field@) {
            Ok(u) => r matches Ok(x) && x@ == u,
            Err(e) => r matches Err(x) && x@ == e,
        },
{
    if null_or_absent(v) {
        return Ok(Update::Keep);
    }
    let j = v.unwrap();
    let members = match j {
        Json::Object(m) => m,
        _ => return Err(message(field, " is not an object")),
    };
    if is_true(get(members, "clear")) {
        return Ok(Update::Clear);
    }
    if is_true(get(members, "reset")) {
        return Ok(Update::Reset);
    }
    let asset = get(members, "assetId");
    if null_or_absent(asset) {
        return Ok(Update::Keep);
    }
    let asset = asset.unwrap();
    let asset_id = match asset {
        Json::Number(text, _) => text.clone(),
        Json::String(s) => s.clone(),
        other => {
            let mut m = String::from_str(field);
            m.append(".assetId is ");
            m.append(kind(other));
            m.append(", expected a number or string");
            return Err(m);
        },
    };
    let id = chars_of(asset_id.as_str());
    if id.len() == 0 || !all_digits_exec(id.as_slice()) {
        return Err(message(field, ".assetId is not an asset id"));
    }
    let hover = get(members, "hoverText");
    let hover_text = if null_or_absent(hover) {
        None
    } else {
        match hover.unwrap() {
            Json::String(h) => {
                let hc = chars_of(h.as_str());
                if hc.len() == 0 {
                    None
                } else {
                    let n = if hc.len() > TEXT_FIELD_LIMIT {
                        TEXT_FIELD_LIMIT
                    } else {
                        hc.len()
                    };
                    let kept = slice_of(hc.as_slice(), 0, n);
                    assert(kept@ =~= first_chars(h@, TEXT_FIELD_LIMIT as nat));
                    Some(text_of(kept.as_slice()))
                }
            },
            other => {
                let mut m = String::from_str(field);
                m.append(".hoverText is ");
                m.append(kind(other));
                m.append(", expected a string");
                return Err(m);
            },
        }
    };
    Ok(Update::SetTo(Image { asset_id, hover_text }))
}

/// The fields of a `SetRichPresence` envelope's `data` object, each read as
/// an update, or the first one that is malformed.
pub fn rich_presence(d: &Vec<(String, Json)>) -> (r: Result<RichPresence, String>)
    ensures
        match spec_rich_presence(members_value(d@)) {
            Ok(rp) => r matches Ok(x) && x@ == rp,
            Err(e) => r matches Err(x) && x@ == e,
        },
{
    let mut clamped: Vec<&'static str> = Vec::new();
    assert(str_views(clamped@) =~= Seq::<Seq<char>>::empty());
    let details = match text_update(get(d, "details"), "details", &mut clamped) {
        Ok(u) => u,
        Err(e) => return Err(e),
    };
    let state = match text_update(get(d, "state"), "state", &mut clamped) {
        Ok(u) => u,
        Err(e) => return Err(e),
    };
    let time_start = match int_update(get(d, "timeStart"), "timeStart") {
        Ok(u) => u,
        Err(e) => return Err(e),
    };
    let time_end = match int_update(get(d, "timeEnd"), "timeEnd") {
        Ok(u) => u,
        Err(e) => return Err(e),
    };
    let large_image = match image_update(get(d, "largeImage"), "largeImage") {
        Ok(u) => u,
        Err(e) => return Err(e),
    };
    let small_image = match image_update(get(d, "smallImage"), "smallImage") {
        Ok(u) => u,
        Err(e) => return Err(e),
    };
    let rp = RichPresence { details, state, time_start, time_end, large_image, small_image, clamped };
    proof {
        let dv = members_value(d@);
        let det = spec_text_update(member(dv, "details"@), "details"@);
        let st = spec_text_update(member(dv, "state"@), "state"@);
        assert(rp@.clamped =~= (if det->Ok_0.1 {
            seq!["details"@]
        } else {
            seq![]
        }) + (if st->Ok_0.1 {
            seq!["state"@]
        } else {
            seq![]
        }));
    }
    Ok(rp)
}

/// Read an envelope's JSON, then the command in it.
pub fn parse_envelope(body: &str) -> (r: Result<Command, String>)
    ensures
        match spec_parse_envelope(body@) {
            Ok(c) => r matches Ok(x) && x@ == c,
            Err(e) => r matches Err(x) && x@ == e,
        },
{
    let value = match parse_json(body) {
        Ok(v) => v,
        Err(e) => return Err(message("bad envelope: ", e.as_str())),
    };
    envelope_command(&value)
}

/// The command a parsed envelope carries: `SetRichPresence` with its fields,
/// `SetLaunchData` with its text, or why neither.
pub fn envelope_command(value: &Json) -> (r: Result<Command, String>)
    ensures
        match spec_envelope_command(value@) {
            Ok(c) => r matches Ok(x) && x@ == c,
            Err(e) => r matches Err(x) && x@ == e,
        },
{
    let m = match value {
        Json::Object(m) => m,
        _ => return Err(String::from_str("envelope is not an object")),
    };
    let command = match get(m, "command") {
        Some(Json::String(c)) => c,
        _ => return Err(String::from_str("envelope has no string command")),
    };
    let data = get(m, "data");
    let cc = chars_of(command.as_str());
    if eq_str(cc.as_slice(), "SetRichPresence") {
        if null_or_absent(data) {
            let rp = RichPresence {
                details: Update::Keep,
                state: Update::Keep,
                time_start: Update::Keep,
                time_end: Update::Keep,
                large_image: Update::Keep,
                small_image: Update::Keep,
                clamped: Vec::new(),
            };
            assert(rp@.clamped =~= Seq::<Seq<char>>::empty());
            return Ok(Command::SetRichPresence(Box::new(rp)));
        }
        match data.unwrap() {
            Json::Object(d) => match rich_presence(d) {
                Ok(rp) => Ok(Command::SetRichPresence(Box::new(rp))),
                Err(e) => Err(e),
            },
            _ => Err(String::from_str("data is not an object")),
        }
    } else if eq_str(cc.as_slice(), "SetLaunchData") {
        match data {
            None => Err(String::from_str("SetLaunchData with no data")),
            Some(Json::String(t)) => Ok(Command::SetLaunchData(t.clone())),
            Some(_) => Err(String::from_str("SetLaunchData data is not a string")),
        }
    } else {
        let shown = debug_text(command.as_str());
        Err(message("unknown command ", shown.as_str()))
    }
}

/// Pull a command out of one log line, if it carries one.
///
/// `Ok(None)` for a line with no marker, which is almost every line; that is
/// not an error.
pub fn parse_line(line: &str) -> (r: Result<Option<Command>, String>)
    ensures
        match spec_parse_line(line@) {
            Ok(None) => r matches Ok(None),
            Ok(Some(c)) => r matches Ok(Some(x)) && x@ == c,
            Err(e) => r matches Err(x) && x@ == e,
        },
{
    let cs = chars_of(line);
    let marker = chars_of(MARKER);
    let at = match find_exec(cs.as_slice(), marker.as_slice()) {
        None => return Ok(None),
        Some(at) => at,
    };
    assert(at + marker@.len() <= cs@.len());
    assert(marker.len() == marker@.len());
    let n = cs.len();
    assert(n == cs@.len());
    let end: usize = at + marker.len();
    let after = slice_of(cs.as_slice(), end, n);
    let body = trim_exec(after.as_slice());
    if body.len() == 0 {
        return Err(String::from_str("marker with no envelope"));
    }
    let text = text_of(body.as_slice());
    match parse_envelope(text.as_str()) {
        Ok(c) => Ok(Some(c)),
        Err(e) => Err(e),
    }
}

// ------------------------------------------------------------ laws

/// Folding the same command in twice leaves the presence as folding it once.
pub proof fn law_applying_a_command_twice_changes_nothing_more(
    p: PresenceView,
    rp: RichPresenceView,
)
    ensures
        presence_apply(presence_apply(p, rp), rp) == presence_apply(p, rp),
{
}

/// A field a command does not mention keeps its value — a cleared image
/// stays cleared, a set detail stays set — whatever the command says about
/// the other fields.
pub proof fn law_an_unmentioned_field_keeps_its_value(p: PresenceView, rp: RichPresenceView)
    ensures
        rp.details is Keep ==> presence_apply(p, rp).details == p.details,
        rp.state is Keep ==> presence_apply(p, rp).state == p.state,
        rp.time_start is Keep ==> presence_apply(p, rp).time_start == p.time_start,
        rp.time_end is Keep ==> presence_apply(p, rp).time_end == p.time_end,
        rp.large_image is Keep ==> presence_apply(p, rp).large_image == p.large_image,
        rp.small_image is Keep ==> presence_apply(p, rp).small_image == p.small_image,
{
}

/// A command that asks for nothing leaves every field as it was — a cleared
/// field stays cleared through a command that does not mention it.
pub proof fn law_a_command_that_asks_nothing_changes_nothing(p: PresenceView, rp: RichPresenceView)
    requires
        asks_nothing(rp),
    ensures
        presence_apply(p, rp) == p,
{
}

/// `<reset>` (or an image's `reset`) returns a field to Cordial's own value
/// whatever the game said before.
pub proof fn law_reset_forgets_history(s: Slot<Seq<char>>, t: Slot<Seq<char>>)
    ensures
        slot_apply(s, Update::Reset) == slot_apply(t, Update::Reset),
        slot_apply(s, Update::Reset) == Slot::<Seq<char>>::Default,
{
}

} // verus!
