//! Roblox's client settings — the FastFlag document the engine runs on.
//!
//! The host application fetches the document and hands it to the engine; the
//! document goes in whole, `applicationSettings` wrapper and all. This module
//! is the part of that which decides: whether a body is a settings document
//! at all, which source answers, whose flags reach Roblox, and how overrides
//! are merged into the document. Reading files and the network is the
//! caller's.

use vstd::prelude::*;
use crate::json::{
    get, json_document, json_text, lemma_members_value, member, members_value, parse_json,
    write_json, Json, JsonValue,
};
use crate::text::{
    chars_of, contains, contains_exec, seq_eq, starts_with, starts_with_exec,
};

verus! {

/// Roblox's settings CDN, for the `AndroidApp` application.
pub const URL: &'static str = "https://clientsettingscdn.roblox.com/v2/settings/application/AndroidApp";

/// How long a cached copy is used before refetching, in seconds: six hours.
pub const MAX_AGE_SECS: u64 = 21600;

/// Keys in the flag layers that belong to Cordial rather than to Roblox.
pub const CORDIAL_KEY_PREFIX: &'static str = "Cordial";

/// Looks like a settings document rather than an error page: the CDN answers
/// a bad application name with well-formed JSON too, so only the shape tells.
pub fn plausible(body: &str) -> (b: bool)
    ensures
        b == contains(body@, "\"applicationSettings\""@),
{
    let cs = chars_of(body);
    contains_exec(cs.as_slice(), "\"applicationSettings\"")
}

/// Whether a resolved flag key is Roblox's to receive: every key that does
/// not start with Cordial's own prefix.
pub fn is_roblox_flag(key: &str) -> (b: bool)
    ensures
        b == !starts_with(key@, CORDIAL_KEY_PREFIX@),
{
    let cs = chars_of(key);
    !starts_with_exec(cs.as_slice(), CORDIAL_KEY_PREFIX)
}

// ------------------------------------------------------------ merging

/// Where the first member named `key` is, or the number of members if none
/// is.
pub open spec fn key_index(m: Seq<(Seq<char>, JsonValue)>, key: Seq<char>) -> nat
    decreases m.len(),
{
    if m.len() == 0 || m[0].0 == key {
        0
    } else {
        1 + key_index(m.drop_first(), key)
    }
}

/// `Map::insert`: the member named `key` takes `v`, or is added at the end.
pub open spec fn set_member(m: Seq<(Seq<char>, JsonValue)>, key: Seq<char>, v: JsonValue) -> Seq<
    (Seq<char>, JsonValue),
> {
    let i = key_index(m, key);
    if i < m.len() {
        m.update(i as int, (key, v))
    } else {
        m.push((key, v))
    }
}

/// Each key names one member: what a `serde_json::Map` guarantees.
pub open spec fn distinct_keys(m: Seq<(Seq<char>, JsonValue)>) -> bool {
    forall|i: int, j: int| 0 <= i < j < m.len() ==> m[i].0 != m[j].0
}

/// The text an override is stored as: a string as itself, anything else as
/// its JSON text — Roblox stores every value as a string, so a bare `7` or
/// `true` in a config file is converted rather than refused.
pub open spec fn override_text(v: JsonValue) -> Seq<char> {
    match v {
        JsonValue::Str(s) => s,
        other => json_text(other),
    }
}

/// The settings with every override set in turn, each as a string.
pub open spec fn with_overrides(
    app: Seq<(Seq<char>, JsonValue)>,
    overrides: Seq<(Seq<char>, JsonValue)>,
) -> Seq<(Seq<char>, JsonValue)>
    decreases overrides.len(),
{
    if overrides.len() == 0 {
        app
    } else {
        set_member(
            with_overrides(app, overrides.drop_last()),
            overrides.last().0,
            JsonValue::Str(override_text(overrides.last().1)),
        )
    }
}

pub const NOT_PARSED: &'static str = "the settings document did not parse";

pub const NO_SETTINGS: &'static str = "no applicationSettings object";

/// The merged document and how many overrides were applied, or why not.
pub open spec fn spec_merge(doc: Seq<char>, overrides: Seq<(Seq<char>, JsonValue)>) -> Result<
    (Seq<char>, nat),
    Seq<char>,
> {
    match json_document(doc) {
        Err(_) => Err(NOT_PARSED@),
        Ok(JsonValue::Object(m)) => {
            let i = key_index(m, "applicationSettings"@);
            if i < m.len() && m[i as int].1 is Object {
                let app = with_overrides(m[i as int].1->Object_0, overrides);
                Ok(
                    (
                        json_text(
                            JsonValue::Object(
                                m.update(i as int, ("applicationSettings"@, JsonValue::Object(app))),
                            ),
                        ),
                        overrides.len(),
                    ),
                )
            } else {
                Err(NO_SETTINGS@)
            }
        },
        Ok(_) => Err(NO_SETTINGS@),
    }
}

proof fn lemma_key_index(m: Seq<(Seq<char>, JsonValue)>, key: Seq<char>, i: int)
    requires
        0 <= i <= m.len(),
        forall|j: int| 0 <= j < i ==> #[trigger] m[j].0 != key,
        i == m.len() || m[i].0 == key,
    ensures
        key_index(m, key) == i,
    decreases m.len(),
{
    if m.len() > 0 && i > 0 {
        assert forall|j: int| 0 <= j < i - 1 implies #[trigger] m.drop_first()[j].0 != key by {
            assert(m.drop_first()[j] == m[j + 1]);
        }
        if i < m.len() {
            assert(m.drop_first()[i - 1] == m[i]);
        }
        assert(m[0].0 != key);
        lemma_key_index(m.drop_first(), key, i - 1);
    }
}

proof fn lemma_members_value_update(m: Seq<(String, Json)>, i: int, e: (String, Json))
    requires
        0 <= i < m.len(),
    ensures
        members_value(m.update(i, e)) == members_value(m).update(i, (e.0@, e.1@)),
{
    lemma_members_value(m);
    lemma_members_value(m.update(i, e));
    assert(members_value(m.update(i, e)) =~= members_value(m).update(i, (e.0@, e.1@)));
}

proof fn lemma_members_value_push(m: Seq<(String, Json)>, e: (String, Json))
    ensures
        members_value(m.push(e)) == members_value(m).push((e.0@, e.1@)),
{
    lemma_members_value(m);
    lemma_members_value(m.push(e));
    assert(members_value(m.push(e)) =~= members_value(m).push((e.0@, e.1@)));
}

/// Where the first member named `key` is, or the number of members.
fn find_member(m: &Vec<(String, Json)>, key: &str) -> (i: usize)
    ensures
        i == key_index(members_value(m@), key@),
{
    proof {
        lemma_members_value(m@);
    }
    let k = chars_of(key);
    let mut i: usize = 0;
    while i < m.len()
        invariant
            i <= m@.len(),
            k@ == key@,
            members_value(m@).len() == m@.len(),
            forall|j: int|
                0 <= j < m@.len() ==> #[trigger] members_value(m@)[j] == (
                    m@[j].0@,
                    m@[j].1@,
                ),
            forall|j: int| 0 <= j < i ==> #[trigger] members_value(m@)[j].0 != key@,
        decreases m@.len() - i,
    {
        let name = chars_of(m[i].0.as_str());
        if seq_eq(name.as_slice(), k.as_slice()) {
            proof {
                lemma_key_index(members_value(m@), key@, i as int);
            }
            return i;
        }
        i = i + 1;
    }
    proof {
        lemma_key_index(members_value(m@), key@, i as int);
    }
    i
}

/// `Map::insert` on an object's members.
fn set_member_exec(m: &mut Vec<(String, Json)>, key: String, v: Json)
    ensures
        members_value(final(m)@) == set_member(members_value(old(m)@), key@, v@),
{
    let i = find_member(m, key.as_str());
    proof {
        lemma_members_value(m@);
    }
    if i < m.len() {
        proof {
            lemma_members_value_update(m@, i as int, (key, v));
        }
        m.set(i, (key, v));
    } else {
        proof {
            lemma_members_value_push(m@, (key, v));
        }
        m.push((key, v));
    }
}

/// The text an override is stored as.
fn override_text_exec(v: Json) -> (t: String)
    ensures
        t@ == override_text(v@),
{
    match v {
        Json::String(s) => s,
        other => write_json(&other),
    }
}

/// Every override set into the members of `applicationSettings` in turn, each
/// as a string: a key already there is replaced, a new one is added.
pub fn set_overrides(app: &mut Vec<(String, Json)>, overrides: Vec<(String, Json)>)
    ensures
        members_value(final(app)@) == with_overrides(
            members_value(old(app)@),
            members_value(overrides@),
        ),
{
    let ghost ov = members_value(overrides@);
    proof {
        lemma_members_value(overrides@);
    }
    let ghost start = members_value(app@);
    assert(ov.subrange(0, 0) =~= Seq::<(Seq<char>, JsonValue)>::empty());
    for e in it: overrides
        invariant
            ov == members_value(overrides@),
            ov.len() == overrides@.len(),
            forall|j: int|
                0 <= j < overrides@.len() ==> #[trigger] ov[j] == (
                    overrides@[j].0@,
                    overrides@[j].1@,
                ),
            it.seq() == overrides@,
            start == members_value(old(app)@),
            with_overrides(start, ov.subrange(0, it.index() as int)) == members_value(app@),
    {
        let ghost k = it.index() as int;
        let ghost prefix = ov.subrange(0, k + 1);
        assert(prefix.drop_last() =~= ov.subrange(0, k));
        assert(prefix.last() == ov[k]);
        let (key, value) = e;
        let text = override_text_exec(value);
        set_member_exec(app, key, Json::String(text));
    }
    assert(ov.subrange(0, ov.len() as int) =~= ov);
}

/// Merge overrides into `applicationSettings`, returning the document and how
/// many were applied. Every value goes in as a string; a key already there is
/// replaced and every other flag survives.
pub fn merge(doc: &str, overrides: Vec<(String, Json)>) -> (r: Result<(String, usize), &'static str>)
    requires
        distinct_keys(members_value(overrides@)),
    ensures
        match spec_merge(doc@, members_value(overrides@)) {
            Ok((text, n)) => r matches Ok((t, k)) && t@ == text && k == n,
            Err(e) => r matches Err(x) && x@ == e,
        },
{
    let parsed = match parse_json(doc) {
        Ok(v) => v,
        Err(_) => return Err(NOT_PARSED),
    };
    let mut top = match parsed {
        Json::Object(m) => m,
        _ => return Err(NO_SETTINGS),
    };
    let ghost m0 = members_value(top@);
    let i = find_member(&top, "applicationSettings");
    proof {
        lemma_members_value(top@);
    }
    if i >= top.len() {
        return Err(NO_SETTINGS);
    }
    let ghost top0 = top@;
    let mut slot = (String::new(), Json::Null);
    top.set_and_swap(i, &mut slot);
    assert(slot == top0[i as int]);
    let mut app = match slot.1 {
        Json::Object(a) => a,
        _ => return Err(NO_SETTINGS),
    };
    let ghost app0 = members_value(app@);
    assert(m0[i as int].1 == JsonValue::Object(app0));
    let applied = overrides.len();
    proof {
        lemma_members_value(overrides@);
    }
    set_overrides(&mut app, overrides);
    let entry = (String::from_str("applicationSettings"), Json::Object(app));
    proof {
        reveal_strlit("applicationSettings");
        lemma_members_value_update(top@, i as int, entry);
        lemma_members_value_update(top0, i as int, entry);
        assert(top@ =~= top0.update(i as int, top@[i as int]));
        assert(top@.update(i as int, entry) =~= top0.update(i as int, entry));
    }
    top.set(i, entry);
    assert(members_value(top@) == m0.update(i as int, ("applicationSettings"@, JsonValue::Object(members_value(app@)))));
    let merged = Json::Object(top);
    assert(json_document(doc@) == Ok::<JsonValue, Seq<char>>(JsonValue::Object(m0)));
    assert(key_index(m0, "applicationSettings"@) == i);
    assert(merged@ == JsonValue::Object(m0.update(i as int, ("applicationSettings"@, JsonValue::Object(members_value(app@))))));
    Ok((write_json(&merged), applied))
}

// ------------------------------------------------------------ overrides

/// The resolved flags that are Roblox's, each as a string value, collected as
/// a map collects them: a key met again takes its later value.
pub open spec fn roblox_overrides(resolved: Seq<(Seq<char>, Seq<char>)>) -> Seq<
    (Seq<char>, JsonValue),
>
    decreases resolved.len(),
{
    if resolved.len() == 0 {
        seq![]
    } else {
        let rest = roblox_overrides(resolved.drop_last());
        let (k, v) = resolved.last();
        if starts_with(k, CORDIAL_KEY_PREFIX@) {
            rest
        } else {
            set_member(rest, k, JsonValue::Str(v))
        }
    }
}

/// The document with the resolved flags merged in: unchanged when nothing was
/// resolved, and unchanged when the merge is refused.
pub open spec fn spec_apply_overrides(doc: Seq<char>, resolved: Seq<(Seq<char>, Seq<char>)>) -> Seq<
    char,
> {
    if resolved.len() == 0 {
        doc
    } else {
        match spec_merge(doc, roblox_overrides(resolved)) {
            Ok((text, _)) => text,
            Err(_) => doc,
        }
    }
}

proof fn lemma_set_member_keys(m: Seq<(Seq<char>, JsonValue)>, key: Seq<char>, v: JsonValue)
    ensures
        distinct_keys(m) ==> distinct_keys(set_member(m, key, v)),
        forall|i: int|
            0 <= i < set_member(m, key, v).len() ==> #[trigger] set_member(m, key, v)[i].0 == key
                || (i < m.len() && set_member(m, key, v)[i].0 == m[i].0),
{
    lemma_key_index_facts(m, key);
    let n = set_member(m, key, v);
    let k = key_index(m, key) as int;
    if distinct_keys(m) {
        assert forall|i: int, j: int| 0 <= i < j < n.len() implies n[i].0 != n[j].0 by {
            if k < m.len() {
                assert(m[k].0 == key);
            } else {
                if j == m.len() {
                    assert(m[i].0 != key);
                }
            }
        }
    }
}

proof fn lemma_roblox_overrides_distinct(resolved: Seq<(Seq<char>, Seq<char>)>)
    ensures
        distinct_keys(roblox_overrides(resolved)),
    decreases resolved.len(),
{
    if resolved.len() > 0 {
        lemma_roblox_overrides_distinct(resolved.drop_last());
        let rest = roblox_overrides(resolved.drop_last());
        let (k, v) = resolved.last();
        lemma_set_member_keys(rest, k, JsonValue::Str(v));
    }
}

pub open spec fn pair_views(v: Seq<(String, String)>) -> Seq<(Seq<char>, Seq<char>)> {
    Seq::new(v.len(), |i: int| (v[i].0@, v[i].1@))
}

/// Merge every resolved flag override into the settings document. Cordial's
/// own keys ride the flag layering for its precedence and are not Roblox
/// flags, so they are left out of Roblox's document.
pub fn apply_overrides(doc: String, resolved: &Vec<(String, String)>) -> (out: String)
    ensures
        out@ == spec_apply_overrides(doc@, pair_views(resolved@)),
{
    if resolved.len() == 0 {
        return doc;
    }
    let mut overrides: Vec<(String, Json)> = Vec::new();
    let mut i: usize = 0;
    while i < resolved.len()
        invariant
            i <= resolved@.len(),
            members_value(overrides@) == roblox_overrides(pair_views(resolved@).subrange(0, i as int)),
        decreases resolved@.len() - i,
    {
        let ghost prefix = pair_views(resolved@).subrange(0, i + 1);
        assert(prefix.drop_last() =~= pair_views(resolved@).subrange(0, i as int));
        assert(prefix.last() == pair_views(resolved@)[i as int]);
        if is_roblox_flag(resolved[i].0.as_str()) {
            set_member_exec(&mut overrides, resolved[i].0.clone(), Json::String(resolved[i].1.clone()));
        }
        i = i + 1;
    }
    assert(pair_views(resolved@).subrange(0, resolved@.len() as int) =~= pair_views(resolved@));
    proof {
        lemma_roblox_overrides_distinct(pair_views(resolved@));
    }
    match merge(doc.as_str(), overrides) {
        Ok((merged, _)) => merged,
        Err(_) => doc,
    }
}

// ------------------------------------------------------------ loading

/// Where the document handed to the engine came from, or why there is none.
pub enum Source {
    /// `--client-settings <path>`, and it read.
    Explicit,
    /// The on-disk cache, still inside its age.
    FreshCache,
    /// A live fetch from the CDN.
    Fetched,
    /// The fetch failed and a stale cache answered in its place.
    StaleCache,
    /// Nothing did. The engine gets no document and resolves almost every
    /// flag to its own compiled default — this is why.
    Nothing(String),
}

pub enum SourceView {
    Explicit,
    FreshCache,
    Fetched,
    StaleCache,
    Nothing(Seq<char>),
}

impl View for Source {
    type V = SourceView;

    open spec fn view(&self) -> SourceView {
        match self {
            Source::Explicit => SourceView::Explicit,
            Source::FreshCache => SourceView::FreshCache,
            Source::Fetched => SourceView::Fetched,
            Source::StaleCache => SourceView::StaleCache,
            Source::Nothing(why) => SourceView::Nothing(why@),
        }
    }
}

/// How a source is reported in a launch log.
pub open spec fn source_text(s: SourceView) -> Seq<char> {
    match s {
        SourceView::Explicit => "--client-settings"@,
        SourceView::FreshCache => "cache"@,
        SourceView::Fetched => "fetched"@,
        SourceView::StaleCache => "stale cache, fetch failed"@,
        SourceView::Nothing(why) => "nothing: "@ + why,
    }
}

impl Source {
    /// How this source is reported in a launch log.
    pub fn describe(&self) -> (t: String)
        ensures
            t@ == source_text(self@),
    {
        match self {
            Source::Explicit => String::from_str("--client-settings"),
            Source::FreshCache => String::from_str("cache"),
            Source::Fetched => String::from_str("fetched"),
            Source::StaleCache => String::from_str("stale cache, fetch failed"),
            Source::Nothing(why) => {
                let mut t = String::from_str("nothing: ");
                t.append(why.as_str());
                t
            },
        }
    }
}

/// What loading the document needs done next.
pub enum Step {
    /// Read the file at this path: `--client-settings`.
    ReadExplicit(String),
    /// Read the cache, if it is younger than [`MAX_AGE_SECS`].
    ReadFreshCache,
    /// Fetch [`URL`].
    Fetch,
    /// Write this fetched body to the cache; whether that works changes
    /// nothing.
    StoreCache(String),
    /// Read the cache whatever its age, because the fetch failed for this
    /// reason.
    ReadStaleCache(String),
    /// Finished: the document, if any, and where it came from.
    Done(Option<String>, Source),
}

pub enum StepView {
    ReadExplicit(Seq<char>),
    ReadFreshCache,
    Fetch,
    StoreCache(Seq<char>),
    ReadStaleCache(Seq<char>),
    Done(Option<Seq<char>>, SourceView),
}

pub open spec fn opt_string_view(o: Option<String>) -> Option<Seq<char>> {
    match o {
        Some(s) => Some(s@),
        None => None,
    }
}

impl View for Step {
    type V = StepView;

    open spec fn view(&self) -> StepView {
        match self {
            Step::ReadExplicit(p) => StepView::ReadExplicit(p@),
            Step::ReadFreshCache => StepView::ReadFreshCache,
            Step::Fetch => StepView::Fetch,
            Step::StoreCache(b) => StepView::StoreCache(b@),
            Step::ReadStaleCache(why) => StepView::ReadStaleCache(why@),
            Step::Done(body, source) => StepView::Done(opt_string_view(*body), source@),
        }
    }
}

/// The first step: an explicit path is read and nothing else is tried;
/// otherwise the cache is tried first.
pub open spec fn spec_first_step(explicit: Option<Seq<char>>) -> StepView {
    match explicit {
        Some(path) => StepView::ReadExplicit(path),
        None => StepView::ReadFreshCache,
    }
}

/// Why a fetch that answered is not used: it answered with something that
/// is not a settings document.
pub open spec fn not_settings() -> Seq<char> {
    URL@ + " answered with something that is not a settings document"@
}

/// The step after `s`, given what doing it gave: the text read or fetched,
/// or why it failed.
pub open spec fn spec_next_step(s: StepView, outcome: Result<Seq<char>, Seq<char>>) -> StepView {
    match s {
        StepView::ReadExplicit(path) => match outcome {
            Ok(body) => StepView::Done(Some(body), SourceView::Explicit),
            Err(e) => StepView::Done(
                None,
                SourceView::Nothing("--client-settings "@ + path + ": "@ + e),
            ),
        },
        StepView::ReadFreshCache => match outcome {
            Ok(body) => StepView::Done(Some(body), SourceView::FreshCache),
            Err(_) => StepView::Fetch,
        },
        StepView::Fetch => match outcome {
            Ok(body) => if contains(body, "\"applicationSettings\""@) {
                StepView::StoreCache(body)
            } else {
                StepView::ReadStaleCache(not_settings())
            },
            Err(why) => StepView::ReadStaleCache(why),
        },
        StepView::StoreCache(body) => StepView::Done(Some(body), SourceView::Fetched),
        StepView::ReadStaleCache(why) => match outcome {
            Ok(body) => StepView::Done(Some(body), SourceView::StaleCache),
            Err(_) => StepView::Done(None, SourceView::Nothing(why)),
        },
        StepView::Done(body, source) => StepView::Done(body, source),
    }
}

/// The step reached from `s` through every outcome in turn.
pub open spec fn run(s: StepView, outcomes: Seq<Result<Seq<char>, Seq<char>>>) -> StepView
    decreases outcomes.len(),
{
    if outcomes.len() == 0 {
        s
    } else {
        spec_next_step(run(s, outcomes.drop_last()), outcomes.last())
    }
}

pub open spec fn result_view(r: Result<String, String>) -> Result<Seq<char>, Seq<char>> {
    match r {
        Ok(s) => Ok(s@),
        Err(e) => Err(e@),
    }
}

impl Step {
    /// Whether loading has finished.
    pub fn is_done(&self) -> (b: bool)
        ensures
            b == (self@ is Done),
    {
        match self {
            Step::Done(_, _) => true,
            _ => false,
        }
    }
}

pub open spec fn explicit_view(explicit: Option<&str>) -> Option<Seq<char>> {
    match explicit {
        Some(p) => Some(p@),
        None => None,
    }
}

/// The first step of loading.
pub fn first_step(explicit: Option<&str>) -> (s: Step)
    ensures
        s@ == spec_first_step(explicit_view(explicit)),
{
    match explicit {
        Some(p) => Step::ReadExplicit(String::from_str(p)),
        None => Step::ReadFreshCache,
    }
}

/// The step after `step`, given what doing it gave.
pub fn next_step(step: Step, outcome: Result<String, String>) -> (s: Step)
    ensures
        s@ == spec_next_step(step@, result_view(outcome)),
{
    match step {
        Step::ReadExplicit(path) => match outcome {
            Ok(body) => Step::Done(Some(body), Source::Explicit),
            Err(e) => {
                let mut why = String::from_str("--client-settings ");
                why.append(path.as_str());
                why.append(": ");
                why.append(e.as_str());
                Step::Done(None, Source::Nothing(why))
            },
        },
        Step::ReadFreshCache => match outcome {
            Ok(body) => Step::Done(Some(body), Source::FreshCache),
            Err(_) => Step::Fetch,
        },
        Step::Fetch => match outcome {
            Ok(body) => if plausible(body.as_str()) {
                Step::StoreCache(body)
            } else {
                let mut why = String::from_str(URL);
                why.append(" answered with something that is not a settings document");
                Step::ReadStaleCache(why)
            },
            Err(why) => Step::ReadStaleCache(why),
        },
        Step::StoreCache(body) => Step::Done(Some(body), Source::Fetched),
        Step::ReadStaleCache(why) => match outcome {
            Ok(body) => Step::Done(Some(body), Source::StaleCache),
            Err(_) => Step::Done(None, Source::Nothing(why)),
        },
        Step::Done(body, source) => Step::Done(body, source),
    }
}

/// How many steps at most remain after `s`.
pub open spec fn steps_left(s: StepView) -> nat {
    match s {
        StepView::ReadExplicit(_) => 1,
        StepView::ReadFreshCache => 4,
        StepView::Fetch => 3,
        StepView::StoreCache(_) => 1,
        StepView::ReadStaleCache(_) => 1,
        StepView::Done(_, _) => 0,
    }
}

pub open spec fn map_overrides(body: Option<Seq<char>>, resolved: Seq<(Seq<char>, Seq<char>)>) -> Option<
    Seq<char>,
> {
    match body {
        Some(b) => Some(spec_apply_overrides(b, resolved)),
        None => None,
    }
}

pub open spec fn outcome_views(o: Seq<Result<String, String>>) -> Seq<Result<Seq<char>, Seq<char>>> {
    Seq::new(o.len(), |i: int| result_view(o[i]))
}

/// `io` was handed each step of a run in turn, starting from the first step
/// for `explicit`, and answered each with the outcome at its place.
pub open spec fn answered_by<F: Fn(&Step) -> Result<String, String>>(
    io: F,
    explicit: Option<Seq<char>>,
    steps: Seq<Step>,
    outcomes: Seq<Result<String, String>>,
) -> bool {
    &&& steps.len() == outcomes.len()
    &&& forall|i: int|
        0 <= i < steps.len() ==> (#[trigger] steps[i])@ == run(
            spec_first_step(explicit),
            outcome_views(outcomes).take(i),
        ) && call_ensures(io, (&steps[i],), outcomes[i])
}

/// The client settings document and where it came from (or why there is
/// none), with the resolved flag overrides merged in. `io` does each step —
/// reads a file, fetches, writes the cache — and answers with the text or
/// why not; what it answers is the caller's world and nothing is assumed of
/// it. The answer is what the steps give for the outcomes `io` answered, each
/// step handed to `io` in turn.
///
/// Never fails the launch: a client that starts without flags is more useful
/// than one that refuses to start because a CDN was unreachable.
pub fn load_reporting<F: Fn(&Step) -> Result<String, String>>(
    explicit: Option<&str>,
    resolved: &Vec<(String, String)>,
    io: F,
) -> (r: (Option<String>, Source))
    requires
        forall|s: &Step| io.requires((s,)),
    ensures
        exists|steps: Seq<Step>, outcomes: Seq<Result<String, String>>|
            #![trigger answered_by(io, explicit_view(explicit), steps, outcomes)]
            {
                &&& answered_by(io, explicit_view(explicit), steps, outcomes)
                &&& run(spec_first_step(explicit_view(explicit)), outcome_views(outcomes)) matches StepView::Done(body, source)
                &&& source == r.1@
                &&& map_overrides(body, pair_views(resolved@)) == opt_string_view(r.0)
            },
{
    let ghost start = spec_first_step(explicit_view(explicit));
    let mut step = first_step(explicit);
    let ghost mut steps: Seq<Step> = seq![];
    let ghost mut outcomes: Seq<Result<String, String>> = seq![];
    while !step.is_done()
        invariant
            forall|s: &Step| io.requires((s,)),
            step@ == run(start, outcome_views(outcomes)),
            start == spec_first_step(explicit_view(explicit)),
            answered_by(io, explicit_view(explicit), steps, outcomes),
        decreases steps_left(step@),
    {
        let ghost asked = step;
        let outcome = io(&step);
        let ghost before = outcomes;
        let ghost steps_before = steps;
        proof {
            outcomes = outcomes.push(outcome);
            steps = steps.push(asked);
            assert(outcome_views(outcomes).drop_last() =~= outcome_views(before));
            assert forall|i: int| 0 <= i < steps.len() implies (#[trigger] steps[i])@ == run(
                start,
                outcome_views(outcomes).take(i),
            ) && call_ensures(io, (&steps[i],), outcomes[i]) by {
                if i < steps_before.len() {
                    assert(steps[i] == steps_before[i]);
                    assert(outcomes[i] == before[i]);
                    assert(outcome_views(outcomes).take(i) =~= outcome_views(before).take(i));
                } else {
                    assert(outcome_views(outcomes).take(i) =~= outcome_views(before));
                }
            }
        }
        step = next_step(step, outcome);
    }
    match step {
        Step::Done(body, source) => {
            let out = match body {
                Some(b) => Some(apply_overrides(b, resolved)),
                None => None,
            };
            (out, source)
        },
        _ => (None, Source::Nothing(String::new())),
    }
}

/// The client settings document, from cache when it is fresh and from Roblox
/// otherwise, with the overrides merged in; `None` rather than a failed
/// launch when nothing answers.
pub fn load<F: Fn(&Step) -> Result<String, String>>(
    explicit: Option<&str>,
    resolved: &Vec<(String, String)>,
    io: F,
) -> (r: Option<String>)
    requires
        forall|s: &Step| io.requires((s,)),
    ensures
        exists|steps: Seq<Step>, outcomes: Seq<Result<String, String>>|
            #![trigger answered_by(io, explicit_view(explicit), steps, outcomes)]
            {
                &&& answered_by(io, explicit_view(explicit), steps, outcomes)
                &&& run(spec_first_step(explicit_view(explicit)), outcome_views(outcomes)) matches StepView::Done(body, _)
                &&& map_overrides(body, pair_views(resolved@)) == opt_string_view(r)
            },
{
    load_reporting(explicit, resolved, io).0
}

// ------------------------------------------------------------ laws

/// What holds of every step loading can reach: a cached body is a settings
/// document, a fetched answer is one, and there is no document exactly when
/// the source is `Nothing`.
pub open spec fn sound_step(s: StepView) -> bool {
    match s {
        StepView::StoreCache(b) => contains(b, "\"applicationSettings\""@),
        StepView::Done(body, source) => {
            &&& (body is None <==> source is Nothing)
            &&& (source is Fetched ==> (body matches Some(b) && contains(b, "\"applicationSettings\""@)))
        },
        _ => true,
    }
}

proof fn lemma_sound_run(s: StepView, outcomes: Seq<Result<Seq<char>, Seq<char>>>)
    requires
        sound_step(s),
    ensures
        sound_step(run(s, outcomes)),
    decreases outcomes.len(),
{
    if outcomes.len() > 0 {
        lemma_sound_run(s, outcomes.drop_last());
    }
}

/// Whatever the files and the network answer, a body that is cached — and a
/// document reported as fetched — looks like a settings document, never an
/// error page; and the document is missing exactly when the source says
/// `Nothing`, with its reason.
pub proof fn law_an_error_body_is_never_cached(
    explicit: Option<Seq<char>>,
    outcomes: Seq<Result<Seq<char>, Seq<char>>>,
)
    ensures
        sound_step(run(spec_first_step(explicit), outcomes)),
{
    lemma_sound_run(spec_first_step(explicit), outcomes);
}

/// A step reached from an explicit path: the read itself, or its answer.
pub open spec fn from_explicit(s: StepView) -> bool {
    ||| s is ReadExplicit
    ||| (s matches StepView::Done(_, source) && (source is Explicit || source is Nothing))
}

proof fn lemma_explicit_run(s: StepView, outcomes: Seq<Result<Seq<char>, Seq<char>>>)
    requires
        from_explicit(s),
    ensures
        from_explicit(run(s, outcomes)),
    decreases outcomes.len(),
{
    if outcomes.len() > 0 {
        lemma_explicit_run(s, outcomes.drop_last());
    }
}

/// An explicit path bypasses the network and the cache: whatever happens,
/// loading never fetches, and what it reports is the file or why it could
/// not be read.
pub proof fn law_an_explicit_path_bypasses_the_network(
    path: Seq<char>,
    outcomes: Seq<Result<Seq<char>, Seq<char>>>,
)
    ensures
        from_explicit(run(spec_first_step(Some(path)), outcomes)),
{
    lemma_explicit_run(spec_first_step(Some(path)), outcomes);
}

/// Cordial's own keys never reach Roblox's settings.
pub proof fn law_cordial_keys_do_not_reach_roblox(resolved: Seq<(Seq<char>, Seq<char>)>)
    ensures
        forall|i: int|
            0 <= i < roblox_overrides(resolved).len() ==> !starts_with(
                #[trigger] roblox_overrides(resolved)[i].0,
                CORDIAL_KEY_PREFIX@,
            ),
    decreases resolved.len(),
{
    if resolved.len() > 0 {
        law_cordial_keys_do_not_reach_roblox(resolved.drop_last());
        let rest = roblox_overrides(resolved.drop_last());
        let (k, v) = resolved.last();
        lemma_set_member_keys(rest, k, JsonValue::Str(v));
        let r = roblox_overrides(resolved);
        assert forall|i: int| 0 <= i < r.len() implies !starts_with(
            #[trigger] r[i].0,
            CORDIAL_KEY_PREFIX@,
        ) by {
            if r != rest && r[i].0 != k {
                assert(r[i].0 == rest[i].0);
            }
        }
    }
}

proof fn lemma_key_index_facts(m: Seq<(Seq<char>, JsonValue)>, key: Seq<char>)
    ensures
        key_index(m, key) <= m.len(),
        key_index(m, key) < m.len() ==> m[key_index(m, key) as int].0 == key,
        forall|j: int| 0 <= j < key_index(m, key) ==> #[trigger] m[j].0 != key,
    decreases m.len(),
{
    if m.len() > 0 && m[0].0 != key {
        lemma_key_index_facts(m.drop_first(), key);
        assert forall|j: int| 0 <= j < key_index(m, key) implies #[trigger] m[j].0 != key by {
            if j > 0 {
                assert(m[j] == m.drop_first()[j - 1]);
            }
        }
    }
}

proof fn lemma_member_is_first(m: Seq<(Seq<char>, JsonValue)>, key: Seq<char>)
    ensures
        member(m, key) == (if key_index(m, key) < m.len() {
            Some(m[key_index(m, key) as int].1)
        } else {
            None::<JsonValue>
        }),
    decreases m.len(),
{
    if m.len() > 0 && m[0].0 != key {
        lemma_member_is_first(m.drop_first(), key);
    }
}

/// An override replaces the flag it names, and every other flag survives as
/// it was.
pub proof fn law_an_override_replaces_only_its_own_flag(
    m: Seq<(Seq<char>, JsonValue)>,
    key: Seq<char>,
    v: JsonValue,
    other: Seq<char>,
)
    requires
        other != key,
    ensures
        member(set_member(m, key, v), key) == Some(v),
        member(set_member(m, key, v), other) == member(m, other),
{
    let n = set_member(m, key, v);
    lemma_key_index_facts(m, key);
    lemma_key_index_facts(m, other);
    lemma_key_index_facts(n, key);
    lemma_key_index_facts(n, other);
    lemma_member_is_first(n, key);
    lemma_member_is_first(n, other);
    lemma_member_is_first(m, other);
    let i = key_index(m, key) as int;
    let ki = key_index(n, key) as int;
    if i < m.len() {
        assert(n[i].0 == key);
        if ki < i {
            assert(n[ki] == m[ki]);
        }
        if ki > i {
            assert(n[i].0 != key);
        }
    } else {
        assert(n[m.len() as int].0 == key);
        if ki < m.len() {
            assert(n[ki] == m[ki]);
        }
    }
    let ko = key_index(m, other) as int;
    let no = key_index(n, other) as int;
    if ko < no && ko < m.len() {
        if ko == i {
            assert(m[i].0 == key);
        } else {
            assert(n[ko] == m[ko]);
        }
    }
    if no < ko {
        if no == i || no == m.len() {
            assert(n[no].0 == key);
        } else {
            assert(n[no] == m[no]);
        }
    }
    if no == ko && ko < m.len() && ko != i {
        assert(n[no] == m[ko]);
    }
}

} // verus!
