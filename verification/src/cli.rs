//! The loader's command line and environment, read into plain values.
//!
//! Each argument is decided on its own: which option it sets, what it needs
//! next, and the sentence a bad one ends the launch with. Resolving a profile
//! and reading an overrides file are the caller's, done in the order the
//! arguments ask for them.

use vstd::prelude::*;
use crate::deeplink::{
    spec_validate, validate, JoinUrl,
};
use crate::text::{
    decimal, push_decimal, push_signed_decimal, push_str, signed_decimal, string_of,
    chars_of, eq_str, parse_u64, parse_unsigned, split_by, split_exec, trim, trim_exec, views,
};

verus! {

/// The render resolution used when none, or no sensible one, is asked for.
pub const DEFAULT_WIDTH: u32 = 1280;
pub const DEFAULT_HEIGHT: u32 = 720;

/// How long Roblox runs after handover unless `--run` says otherwise.
pub const DEFAULT_RUN_SECONDS: u64 = 15;

/// What the loader was asked to do.
pub struct Options {
    pub lib_dir: String,
    pub library: String,
    pub apk: Option<String>,
    pub read_asset: Option<String>,
    pub client_settings: Option<String>,
    /// The overrides document itself, read from the path `--flag-overrides`
    /// named.
    pub flag_overrides: Option<String>,
    pub gl_probe: bool,
    pub window_seconds: Option<u64>,
    pub game_activity: bool,
    pub join_url: Option<JoinUrl>,
    pub run_seconds: u64,
    pub host_libc: bool,
    pub jni_onload: bool,
    pub dump_classes: Option<String>,
    pub verbose: bool,
}

pub struct OptionsView {
    pub lib_dir: Seq<char>,
    pub library: Seq<char>,
    pub apk: Option<Seq<char>>,
    pub read_asset: Option<Seq<char>>,
    pub client_settings: Option<Seq<char>>,
    pub flag_overrides: Option<Seq<char>>,
    pub gl_probe: bool,
    pub window_seconds: Option<u64>,
    pub game_activity: bool,
    pub join_url: Option<(Seq<char>, Seq<char>)>,
    pub run_seconds: u64,
    pub host_libc: bool,
    pub jni_onload: bool,
    pub dump_classes: Option<Seq<char>>,
    pub verbose: bool,
}

pub open spec fn text_opt(o: Option<String>) -> Option<Seq<char>> {
    match o {
        Some(s) => Some(s@),
        None => None,
    }
}

impl View for Options {
    type V = OptionsView;

    open spec fn view(&self) -> OptionsView {
        OptionsView {
            lib_dir: self.lib_dir@,
            library: self.library@,
            apk: text_opt(self.apk),
            read_asset: text_opt(self.read_asset),
            client_settings: text_opt(self.client_settings),
            flag_overrides: text_opt(self.flag_overrides),
            gl_probe: self.gl_probe,
            window_seconds: self.window_seconds,
            game_activity: self.game_activity,
            join_url: match self.join_url {
                Some(u) => Some(u@),
                None => None,
            },
            run_seconds: self.run_seconds,
            host_libc: self.host_libc,
            jni_onload: self.jni_onload,
            dump_classes: text_opt(self.dump_classes),
            verbose: self.verbose,
        }
    }
}

/// Nothing asked for yet: `libroblox.so`, fifteen seconds, every switch off.
pub open spec fn default_options() -> OptionsView {
    OptionsView {
        lib_dir: seq![],
        library: "libroblox.so"@,
        apk: None,
        read_asset: None,
        client_settings: None,
        flag_overrides: None,
        gl_probe: false,
        window_seconds: None,
        game_activity: false,
        join_url: None,
        run_seconds: DEFAULT_RUN_SECONDS,
        host_libc: false,
        jni_onload: false,
        dump_classes: None,
        verbose: false,
    }
}

impl Options {
    pub fn new() -> (o: Options)
        ensures
            o@ == default_options(),
    {
        Options {
            lib_dir: String::new(),
            library: String::from_str("libroblox.so"),
            apk: None,
            read_asset: None,
            client_settings: None,
            flag_overrides: None,
            gl_probe: false,
            window_seconds: None,
            game_activity: false,
            join_url: None,
            run_seconds: DEFAULT_RUN_SECONDS,
            host_libc: false,
            jni_onload: false,
            dump_classes: None,
            verbose: false,
        }
    }
}

/// What the caller must do for an argument once it is decided.
#[derive(Debug, PartialEq, Eq)]
pub enum ArgEffect {
    /// Nothing: the options say it all.
    Nothing,
    /// Make the named profile the active one, before anything reads it.
    Profile(String),
    /// Read the overrides document at this path into `flag_overrides`.
    ReadOverrides(String),
}

pub enum ArgEffectView {
    Nothing,
    Profile(Seq<char>),
    ReadOverrides(Seq<char>),
}

impl View for ArgEffect {
    type V = ArgEffectView;

    open spec fn view(&self) -> ArgEffectView {
        match self {
            ArgEffect::Nothing => ArgEffectView::Nothing,
            ArgEffect::Profile(p) => ArgEffectView::Profile(p@),
            ArgEffect::ReadOverrides(p) => ArgEffectView::ReadOverrides(p@),
        }
    }
}

/// The options that take the argument after them as their value.
pub open spec fn spec_takes_value(arg: Seq<char>) -> bool {
    ||| arg == "--lib-dir"@
    ||| arg == "--library"@
    ||| arg == "--apk"@
    ||| arg == "--profile"@
    ||| arg == "--read-asset"@
    ||| arg == "--flag-overrides"@
    ||| arg == "--client-settings"@
    ||| arg == "--window"@
    ||| arg == "--run"@
    ||| arg == "--join-url"@
    ||| arg == "--dump-classes"@
}

/// Whether `arg` takes the next argument as its value.
pub fn takes_value(arg: &str) -> (b: bool)
    ensures
        b == spec_takes_value(arg@),
{
    let a = chars_of(arg);
    let s = a.as_slice();
    eq_str(s, "--lib-dir") || eq_str(s, "--library") || eq_str(s, "--apk") || eq_str(s, "--profile")
        || eq_str(s, "--read-asset") || eq_str(s, "--flag-overrides") || eq_str(
        s,
        "--client-settings",
    ) || eq_str(s, "--window") || eq_str(s, "--run") || eq_str(s, "--join-url") || eq_str(
        s,
        "--dump-classes",
    )
}

pub type ArgResult = Result<(OptionsView, ArgEffectView), Seq<char>>;

/// A value-taking option: the sentence when the value is missing, else the
/// options `set` makes of it.
pub open spec fn needs(value: Option<Seq<char>>, missing: Seq<char>, set: spec_fn(Seq<char>) -> OptionsView) -> ArgResult {
    match value {
        None => Err(missing),
        Some(v) => Ok((set(v), ArgEffectView::Nothing)),
    }
}

/// What one argument does to the options, given the argument after it when
/// it takes one: the new options and what the caller must do, or the
/// sentence the launch ends with. `-h`/`--help` ends it with an empty one.
pub open spec fn spec_parse_arg(o: OptionsView, arg: Seq<char>, value: Option<Seq<char>>) -> ArgResult {
    if arg == "--lib-dir"@ {
        needs(value, "--lib-dir needs a value"@, |v: Seq<char>| OptionsView { lib_dir: v, ..o })
    } else if arg == "--library"@ {
        needs(value, "--library needs a value"@, |v: Seq<char>| OptionsView { library: v, ..o })
    } else if arg == "--apk"@ {
        needs(value, "--apk needs a path"@, |v: Seq<char>| OptionsView { apk: Some(v), ..o })
    } else if arg == "--profile"@ {
        match value {
            None => Err("--profile needs a name"@),
            Some(v) => Ok((o, ArgEffectView::Profile(v))),
        }
    } else if arg == "--read-asset"@ {
        needs(
            value,
            "--read-asset needs a name"@,
            |v: Seq<char>| OptionsView { read_asset: Some(v), ..o },
        )
    } else if arg == "--flag-overrides"@ {
        match value {
            None => Err("--flag-overrides needs a path"@),
            Some(v) => Ok((o, ArgEffectView::ReadOverrides(v))),
        }
    } else if arg == "--client-settings"@ {
        needs(
            value,
            "--client-settings needs a path"@,
            |v: Seq<char>| OptionsView { client_settings: Some(v), ..o },
        )
    } else if arg == "--gl-probe"@ {
        Ok((OptionsView { gl_probe: true, ..o }, ArgEffectView::Nothing))
    } else if arg == "--window"@ {
        match value {
            None => Err("--window needs a duration in seconds"@),
            Some(v) => match parse_unsigned(v, u64::MAX as nat) {
                None => Err("--window wants a number"@),
                Some(n) => Ok((OptionsView { window_seconds: Some(n as u64), ..o }, ArgEffectView::Nothing)),
            },
        }
    } else if arg == "--host-libc"@ {
        Ok((OptionsView { host_libc: true, ..o }, ArgEffectView::Nothing))
    } else if arg == "--jni-onload"@ {
        Ok((OptionsView { jni_onload: true, ..o }, ArgEffectView::Nothing))
    } else if arg == "--run"@ {
        match value {
            None => Err("--run needs a duration in seconds"@),
            Some(v) => match parse_unsigned(v, u64::MAX as nat) {
                None => Err("--run wants a number"@),
                Some(n) => Ok((OptionsView { run_seconds: n as u64, ..o }, ArgEffectView::Nothing)),
            },
        }
    } else if arg == "--game-activity"@ {
        Ok((OptionsView { jni_onload: true, game_activity: true, ..o }, ArgEffectView::Nothing))
    } else if arg == "--join-url"@ {
        match value {
            None => Err("--join-url needs a URL"@),
            Some(v) => match spec_validate(v) {
                Ok(scheme) => Ok(
                    (OptionsView { join_url: Some((v, scheme)), ..o }, ArgEffectView::Nothing),
                ),
                Err(e) => Err(e),
            },
        }
    } else if arg == "--dump-classes"@ {
        match value {
            None => Err("--dump-classes needs a path"@),
            Some(v) => Ok(
                (OptionsView { jni_onload: true, dump_classes: Some(v), ..o }, ArgEffectView::Nothing),
            ),
        }
    } else if arg == "-v"@ || arg == "--verbose"@ {
        Ok((OptionsView { verbose: true, ..o }, ArgEffectView::Nothing))
    } else if arg == "-h"@ || arg == "--help"@ {
        Err(seq![])
    } else {
        Err("unrecognised argument: "@ + arg)
    }
}

fn missing(msg: &str) -> (r: Result<ArgEffect, String>)
    ensures
        r matches Err(m) && m@ == msg@,
{
    Err(String::from_str(msg))
}

/// Decide one argument: set what it sets in `opt`, and say what the caller
/// must do next; or the sentence the launch ends with, leaving `opt` as it
/// was. `value` is the argument after it, for an option that takes one.
pub fn parse_arg(opt: &mut Options, arg: &str, value: Option<String>) -> (r: Result<ArgEffect, String>)
    ensures
        match spec_parse_arg(old(opt)@, arg@, text_opt(value)) {
            Ok((o, effect)) => r matches Ok(e) && e@ == effect && final(opt)@ == o,
            Err(msg) => r matches Err(m) && m@ == msg && final(opt)@ == old(opt)@,
        },
{
    let a = chars_of(arg);
    let s = a.as_slice();
    if eq_str(s, "--lib-dir") {
        match value {
            None => missing("--lib-dir needs a value"),
            Some(v) => {
                opt.lib_dir = v;
                Ok(ArgEffect::Nothing)
            },
        }
    } else if eq_str(s, "--library") {
        match value {
            None => missing("--library needs a value"),
            Some(v) => {
                opt.library = v;
                Ok(ArgEffect::Nothing)
            },
        }
    } else if eq_str(s, "--apk") {
        match value {
            None => missing("--apk needs a path"),
            Some(v) => {
                opt.apk = Some(v);
                Ok(ArgEffect::Nothing)
            },
        }
    } else if eq_str(s, "--profile") {
        match value {
            None => missing("--profile needs a name"),
            Some(v) => Ok(ArgEffect::Profile(v)),
        }
    } else if eq_str(s, "--read-asset") {
        match value {
            None => missing("--read-asset needs a name"),
            Some(v) => {
                opt.read_asset = Some(v);
                Ok(ArgEffect::Nothing)
            },
        }
    } else if eq_str(s, "--flag-overrides") {
        match value {
            None => missing("--flag-overrides needs a path"),
            Some(v) => Ok(ArgEffect::ReadOverrides(v)),
        }
    } else if eq_str(s, "--client-settings") {
        match value {
            None => missing("--client-settings needs a path"),
            Some(v) => {
                opt.client_settings = Some(v);
                Ok(ArgEffect::Nothing)
            },
        }
    } else if eq_str(s, "--gl-probe") {
        opt.gl_probe = true;
        Ok(ArgEffect::Nothing)
    } else if eq_str(s, "--window") {
        match value {
            None => missing("--window needs a duration in seconds"),
            Some(v) => {
                let d = chars_of(v.as_str());
                match parse_u64(d.as_slice()) {
                    None => missing("--window wants a number"),
                    Some(n) => {
                        opt.window_seconds = Some(n);
                        Ok(ArgEffect::Nothing)
                    },
                }
            },
        }
    } else if eq_str(s, "--host-libc") {
        opt.host_libc = true;
        Ok(ArgEffect::Nothing)
    } else if eq_str(s, "--jni-onload") {
        opt.jni_onload = true;
        Ok(ArgEffect::Nothing)
    } else if eq_str(s, "--run") {
        match value {
            None => missing("--run needs a duration in seconds"),
            Some(v) => {
                let d = chars_of(v.as_str());
                match parse_u64(d.as_slice()) {
                    None => missing("--run wants a number"),
                    Some(n) => {
                        opt.run_seconds = n;
                        Ok(ArgEffect::Nothing)
                    },
                }
            },
        }
    } else if eq_str(s, "--game-activity") {
        opt.jni_onload = true;
        opt.game_activity = true;
        Ok(ArgEffect::Nothing)
    } else if eq_str(s, "--join-url") {
        match value {
            None => missing("--join-url needs a URL"),
            Some(v) => match validate(v.as_str()) {
                Ok(u) => {
                    opt.join_url = Some(u);
                    Ok(ArgEffect::Nothing)
                },
                Err(e) => Err(e),
            },
        }
    } else if eq_str(s, "--dump-classes") {
        match value {
            None => missing("--dump-classes needs a path"),
            Some(v) => {
                opt.jni_onload = true;
                opt.dump_classes = Some(v);
                Ok(ArgEffect::Nothing)
            },
        }
    } else if eq_str(s, "-v") || eq_str(s, "--verbose") {
        opt.verbose = true;
        Ok(ArgEffect::Nothing)
    } else if eq_str(s, "-h") || eq_str(s, "--help") {
        Err(String::new())
    } else {
        let mut m = String::from_str("unrecognised argument: ");
        m.append(arg);
        Err(m)
    }
}

/// The options once every argument is in: `--lib-dir` is the one that must
/// have been given.
pub fn finish(opt: Options) -> (r: Result<Options, String>)
    ensures
        opt@.lib_dir.len() == 0 ==> (r matches Err(m) && m@ == "--lib-dir is required"@),
        opt@.lib_dir.len() > 0 ==> (r matches Ok(o) && o@ == opt@),
{
    if opt.lib_dir.as_str().unicode_len() == 0 {
        Err(String::from_str("--lib-dir is required"))
    } else {
        Ok(opt)
    }
}

// ------------------------------------------------------------ resolution

/// `str::parse::<u32>`.
pub fn parse_u32(s: &[char]) -> (r: Option<u32>)
    ensures
        r matches Some(v) ==> parse_unsigned(s@, u32::MAX as nat) == Some(v as nat),
        r is None ==> parse_unsigned(s@, u32::MAX as nat) is None,
{
    match parse_u64(s) {
        Some(v) => if v <= 0xffff_ffffu64 {
            Some(v as u32)
        } else {
            None
        },
        None => None,
    }
}

/// Whether a requested resolution is within reason: 320x240 up to 7680x4320.
pub open spec fn within_reason(w: nat, h: nat) -> bool {
    320 <= w <= 7680 && 240 <= h <= 4320
}

/// The render resolution `CORDIAL_RESOLUTION` asks for: `<w>x<h>` (either
/// case of `x`, blanks around each number allowed), within reason; anything
/// else, and no setting at all, is 1280x720. `Err` carries the setting that
/// was refused, for the caller to say so.
pub open spec fn spec_resolution(v: Option<Seq<char>>) -> Result<(u32, u32), Seq<char>> {
    match v {
        None => Ok((DEFAULT_WIDTH, DEFAULT_HEIGHT)),
        Some(text) => {
            let parts = split_by(text, seq!['x', 'X']);
            if parts.len() >= 2 {
                match (
                    parse_unsigned(trim(parts[0]), u32::MAX as nat),
                    parse_unsigned(trim(parts[1]), u32::MAX as nat),
                ) {
                    (Some(w), Some(h)) => if within_reason(w, h) {
                        Ok((w as u32, h as u32))
                    } else {
                        Err(text)
                    },
                    _ => Err(text),
                }
            } else {
                Err(text)
            }
        },
    }
}

/// The render resolution asked for, or why the default is used instead.
pub fn requested_resolution(v: Option<&str>) -> (r: Result<(u32, u32), String>)
    ensures
        match spec_resolution(match v {
            Some(t) => Some(t@),
            None => None,
        }) {
            Ok(wh) => r == Ok::<(u32, u32), String>(wh),
            Err(text) => r matches Err(t) && t@ == text,
        },
{
    let text = match v {
        None => return Ok((DEFAULT_WIDTH, DEFAULT_HEIGHT)),
        Some(t) => t,
    };
    let cs = chars_of(text);
    let set: Vec<char> = vec!['x', 'X'];
    let parts = split_exec(cs.as_slice(), set.as_slice());
    assert(set@ =~= seq!['x', 'X']);
    if parts.len() >= 2 {
        assert(views(parts@)[0] == parts@[0]@);
        assert(views(parts@)[1] == parts@[1]@);
        let w = parse_u32(trim_exec(parts[0].as_slice()).as_slice());
        let h = parse_u32(trim_exec(parts[1].as_slice()).as_slice());
        if let (Some(w), Some(h)) = (w, h) {
            if 320 <= w && w <= 7680 && 240 <= h && h <= 4320 {
                return Ok((w, h));
            }
        }
    }
    Err(String::from_str(text))
}

// ------------------------------------------------------------ GameMode

/// `CORDIAL_GAMEMODE`: on unless it says `0`, `off`, `false` or `no`, blanks
/// around it ignored; absent means on.
pub open spec fn spec_gamemode_enabled(v: Option<Seq<char>>) -> bool {
    let t = match v {
        Some(s) => trim(s),
        None => seq![],
    };
    !(t == "0"@ || t == "off"@ || t == "false"@ || t == "no"@)
}

pub fn gamemode_enabled(v: Option<&str>) -> (on: bool)
    ensures
        on == spec_gamemode_enabled(
            match v {
                Some(s) => Some(s@),
                None => None,
            },
        ),
{
    let t = match v {
        Some(s) => trim_exec(chars_of(s).as_slice()),
        None => {
            let empty: Vec<char> = Vec::new();
            assert(empty@ =~= Seq::<char>::empty());
            empty
        },
    };
    let s = t.as_slice();
    !(eq_str(s, "0") || eq_str(s, "off") || eq_str(s, "false") || eq_str(s, "no"))
}

/// What `RegisterGame`'s answer means and how it is reported: `0` is
/// registered; any other number is the daemon declining, which is said
/// apart from its not being there at all.
pub open spec fn spec_register_report(reply: Result<i32, Seq<char>>, pid: u32) -> (bool, Seq<char>) {
    match reply {
        Ok(rc) => if rc == 0 {
            (
                true,
                "[gamemode] registered pid "@ + decimal(pid as nat)
                    + ": performance governor, raised priority, GPU performance profile, screensaver inhibited"@,
            )
        } else {
            (
                false,
                "[gamemode] gamemoded declined to register this process (rc "@ + signed_decimal(
                    rc as int,
                ) + ")"@,
            )
        },
        Err(e) => (false, "[gamemode] not available, continuing without it: "@ + e),
    }
}

pub open spec fn reply_view(r: Result<i32, String>) -> Result<i32, Seq<char>> {
    match r {
        Ok(v) => Ok(v),
        Err(e) => Err(e@),
    }
}

pub fn register_report(reply: Result<i32, String>, pid: u32) -> (r: (bool, String))
    ensures
        (r.0, r.1@) == spec_register_report(reply_view(reply), pid),
{
    let mut out: Vec<char> = Vec::new();
    let registered = match &reply {
        Ok(rc) => if *rc == 0 {
            push_str(&mut out, "[gamemode] registered pid ");
            push_decimal(&mut out, pid as u64);
            push_str(
                &mut out,
                ": performance governor, raised priority, GPU performance profile, screensaver inhibited",
            );
            true
        } else {
            push_str(&mut out, "[gamemode] gamemoded declined to register this process (rc ");
            push_signed_decimal(&mut out, *rc as i64);
            push_str(&mut out, ")");
            false
        },
        Err(e) => {
            push_str(&mut out, "[gamemode] not available, continuing without it: ");
            push_str(&mut out, e.as_str());
            false
        },
    };
    (registered, string_of(out.as_slice()))
}

/// How `UnregisterGame`'s answer is reported.
pub open spec fn spec_unregister_report(reply: Result<i32, Seq<char>>) -> Seq<char> {
    match reply {
        Ok(rc) => if rc == 0 {
            "[gamemode] unregistered"@
        } else {
            "[gamemode] UnregisterGame returned "@ + signed_decimal(rc as int)
        },
        Err(e) => "[gamemode] UnregisterGame failed: "@ + e,
    }
}

pub fn unregister_report(reply: Result<i32, String>) -> (r: String)
    ensures
        r@ == spec_unregister_report(reply_view(reply)),
{
    let mut out: Vec<char> = Vec::new();
    match &reply {
        Ok(rc) => if *rc == 0 {
            push_str(&mut out, "[gamemode] unregistered");
        } else {
            push_str(&mut out, "[gamemode] UnregisterGame returned ");
            push_signed_decimal(&mut out, *rc as i64);
        },
        Err(e) => {
            push_str(&mut out, "[gamemode] UnregisterGame failed: ");
            push_str(&mut out, e.as_str());
        },
    }
    string_of(out.as_slice())
}

// ------------------------------------------------------------ laws

/// The option names are pairwise different words.
proof fn lemma_arg_names()
    ensures
        "--lib-dir"@ != "--library"@,
        "--lib-dir"@ != "--apk"@,
        "--lib-dir"@ != "--profile"@,
        "--lib-dir"@ != "--read-asset"@,
        "--lib-dir"@ != "--flag-overrides"@,
        "--lib-dir"@ != "--client-settings"@,
        "--lib-dir"@ != "--gl-probe"@,
        "--lib-dir"@ != "--window"@,
        "--lib-dir"@ != "--host-libc"@,
        "--lib-dir"@ != "--jni-onload"@,
        "--lib-dir"@ != "--run"@,
        "--lib-dir"@ != "--game-activity"@,
        "--lib-dir"@ != "--join-url"@,
        "--lib-dir"@ != "--dump-classes"@,
        "--lib-dir"@ != "-v"@,
        "--lib-dir"@ != "--verbose"@,
        "--library"@ != "--apk"@,
        "--library"@ != "--profile"@,
        "--library"@ != "--read-asset"@,
        "--library"@ != "--flag-overrides"@,
        "--library"@ != "--client-settings"@,
        "--library"@ != "--gl-probe"@,
        "--library"@ != "--window"@,
        "--library"@ != "--host-libc"@,
        "--library"@ != "--jni-onload"@,
        "--library"@ != "--run"@,
        "--library"@ != "--game-activity"@,
        "--library"@ != "--join-url"@,
        "--library"@ != "--dump-classes"@,
        "--library"@ != "-v"@,
        "--library"@ != "--verbose"@,
        "--apk"@ != "--profile"@,
        "--apk"@ != "--read-asset"@,
        "--apk"@ != "--flag-overrides"@,
        "--apk"@ != "--client-settings"@,
        "--apk"@ != "--gl-probe"@,
        "--apk"@ != "--window"@,
        "--apk"@ != "--host-libc"@,
        "--apk"@ != "--jni-onload"@,
        "--apk"@ != "--run"@,
        "--apk"@ != "--game-activity"@,
        "--apk"@ != "--join-url"@,
        "--apk"@ != "--dump-classes"@,
        "--apk"@ != "-v"@,
        "--apk"@ != "--verbose"@,
        "--profile"@ != "--read-asset"@,
        "--profile"@ != "--flag-overrides"@,
        "--profile"@ != "--client-settings"@,
        "--profile"@ != "--gl-probe"@,
        "--profile"@ != "--window"@,
        "--profile"@ != "--host-libc"@,
        "--profile"@ != "--jni-onload"@,
        "--profile"@ != "--run"@,
        "--profile"@ != "--game-activity"@,
        "--profile"@ != "--join-url"@,
        "--profile"@ != "--dump-classes"@,
        "--profile"@ != "-v"@,
        "--profile"@ != "--verbose"@,
        "--read-asset"@ != "--flag-overrides"@,
        "--read-asset"@ != "--client-settings"@,
        "--read-asset"@ != "--gl-probe"@,
        "--read-asset"@ != "--window"@,
        "--read-asset"@ != "--host-libc"@,
        "--read-asset"@ != "--jni-onload"@,
        "--read-asset"@ != "--run"@,
        "--read-asset"@ != "--game-activity"@,
        "--read-asset"@ != "--join-url"@,
        "--read-asset"@ != "--dump-classes"@,
        "--read-asset"@ != "-v"@,
        "--read-asset"@ != "--verbose"@,
        "--flag-overrides"@ != "--client-settings"@,
        "--flag-overrides"@ != "--gl-probe"@,
        "--flag-overrides"@ != "--window"@,
        "--flag-overrides"@ != "--host-libc"@,
        "--flag-overrides"@ != "--jni-onload"@,
        "--flag-overrides"@ != "--run"@,
        "--flag-overrides"@ != "--game-activity"@,
        "--flag-overrides"@ != "--join-url"@,
        "--flag-overrides"@ != "--dump-classes"@,
        "--flag-overrides"@ != "-v"@,
        "--flag-overrides"@ != "--verbose"@,
        "--client-settings"@ != "--gl-probe"@,
        "--client-settings"@ != "--window"@,
        "--client-settings"@ != "--host-libc"@,
        "--client-settings"@ != "--jni-onload"@,
        "--client-settings"@ != "--run"@,
        "--client-settings"@ != "--game-activity"@,
        "--client-settings"@ != "--join-url"@,
        "--client-settings"@ != "--dump-classes"@,
        "--client-settings"@ != "-v"@,
        "--client-settings"@ != "--verbose"@,
        "--gl-probe"@ != "--window"@,
        "--gl-probe"@ != "--host-libc"@,
        "--gl-probe"@ != "--jni-onload"@,
        "--gl-probe"@ != "--run"@,
        "--gl-probe"@ != "--game-activity"@,
        "--gl-probe"@ != "--join-url"@,
        "--gl-probe"@ != "--dump-classes"@,
        "--gl-probe"@ != "-v"@,
        "--gl-probe"@ != "--verbose"@,
        "--window"@ != "--host-libc"@,
        "--window"@ != "--jni-onload"@,
        "--window"@ != "--run"@,
        "--window"@ != "--game-activity"@,
        "--window"@ != "--join-url"@,
        "--window"@ != "--dump-classes"@,
        "--window"@ != "-v"@,
        "--window"@ != "--verbose"@,
        "--host-libc"@ != "--jni-onload"@,
        "--host-libc"@ != "--run"@,
        "--host-libc"@ != "--game-activity"@,
        "--host-libc"@ != "--join-url"@,
        "--host-libc"@ != "--dump-classes"@,
        "--host-libc"@ != "-v"@,
        "--host-libc"@ != "--verbose"@,
        "--jni-onload"@ != "--run"@,
        "--jni-onload"@ != "--game-activity"@,
        "--jni-onload"@ != "--join-url"@,
        "--jni-onload"@ != "--dump-classes"@,
        "--jni-onload"@ != "-v"@,
        "--jni-onload"@ != "--verbose"@,
        "--run"@ != "--game-activity"@,
        "--run"@ != "--join-url"@,
        "--run"@ != "--dump-classes"@,
        "--run"@ != "-v"@,
        "--run"@ != "--verbose"@,
        "--game-activity"@ != "--join-url"@,
        "--game-activity"@ != "--dump-classes"@,
        "--game-activity"@ != "-v"@,
        "--game-activity"@ != "--verbose"@,
        "--join-url"@ != "--dump-classes"@,
        "--join-url"@ != "-v"@,
        "--join-url"@ != "--verbose"@,
        "--dump-classes"@ != "-v"@,
        "--dump-classes"@ != "--verbose"@,
        "-v"@ != "--verbose"@,
{
    reveal_strlit("--lib-dir");
    reveal_strlit("--library");
    reveal_strlit("--apk");
    reveal_strlit("--profile");
    reveal_strlit("--read-asset");
    reveal_strlit("--flag-overrides");
    reveal_strlit("--client-settings");
    reveal_strlit("--gl-probe");
    reveal_strlit("--window");
    reveal_strlit("--host-libc");
    reveal_strlit("--jni-onload");
    reveal_strlit("--run");
    reveal_strlit("--game-activity");
    reveal_strlit("--join-url");
    reveal_strlit("--dump-classes");
    reveal_strlit("-v");
    reveal_strlit("--verbose");
    assert("--lib-dir"@.len() == 9);
    assert("--library"@.len() == 9);
    assert("--apk"@.len() == 5);
    assert("--profile"@.len() == 9);
    assert("--read-asset"@.len() == 12);
    assert("--flag-overrides"@.len() == 16);
    assert("--client-settings"@.len() == 17);
    assert("--gl-probe"@.len() == 10);
    assert("--window"@.len() == 8);
    assert("--host-libc"@.len() == 11);
    assert("--jni-onload"@.len() == 12);
    assert("--run"@.len() == 5);
    assert("--game-activity"@.len() == 15);
    assert("--join-url"@.len() == 10);
    assert("--dump-classes"@.len() == 14);
    assert("-v"@.len() == 2);
    assert("--verbose"@.len() == 9);
    assert("--lib-dir"@ != "--library"@) by {
        assert("--lib-dir"@[5] != "--library"@[5]);
    }
    assert("--lib-dir"@ != "--profile"@) by {
        assert("--lib-dir"@[2] != "--profile"@[2]);
    }
    assert("--lib-dir"@ != "--verbose"@) by {
        assert("--lib-dir"@[2] != "--verbose"@[2]);
    }
    assert("--library"@ != "--profile"@) by {
        assert("--library"@[2] != "--profile"@[2]);
    }
    assert("--library"@ != "--verbose"@) by {
        assert("--library"@[2] != "--verbose"@[2]);
    }
    assert("--apk"@ != "--run"@) by {
        assert("--apk"@[2] != "--run"@[2]);
    }
    assert("--profile"@ != "--verbose"@) by {
        assert("--profile"@[2] != "--verbose"@[2]);
    }
    assert("--read-asset"@ != "--jni-onload"@) by {
        assert("--read-asset"@[2] != "--jni-onload"@[2]);
    }
    assert("--gl-probe"@ != "--join-url"@) by {
        assert("--gl-probe"@[2] != "--join-url"@[2]);
    }
}

/// Every switch sets the option it names and nothing else, whatever follows
/// it: `--gl-probe`, `--host-libc`, `--jni-onload` and `-v`/`--verbose` their
/// own flag, and `--game-activity` its own flag together with `--jni-onload`,
/// which the activity path needs.
pub proof fn law_a_switch_sets_what_it_names(o: OptionsView, value: Option<Seq<char>>)
    ensures
        spec_parse_arg(o, "--gl-probe"@, value) == Ok::<(OptionsView, ArgEffectView), Seq<char>>(
            (OptionsView { gl_probe: true, ..o }, ArgEffectView::Nothing),
        ),
        spec_parse_arg(o, "--host-libc"@, value) == Ok::<(OptionsView, ArgEffectView), Seq<char>>(
            (OptionsView { host_libc: true, ..o }, ArgEffectView::Nothing),
        ),
        spec_parse_arg(o, "--jni-onload"@, value) == Ok::<(OptionsView, ArgEffectView), Seq<char>>(
            (OptionsView { jni_onload: true, ..o }, ArgEffectView::Nothing),
        ),
        spec_parse_arg(o, "--game-activity"@, value) == Ok::<
            (OptionsView, ArgEffectView),
            Seq<char>,
        >((OptionsView { jni_onload: true, game_activity: true, ..o }, ArgEffectView::Nothing)),
        spec_parse_arg(o, "-v"@, value) == Ok::<(OptionsView, ArgEffectView), Seq<char>>(
            (OptionsView { verbose: true, ..o }, ArgEffectView::Nothing),
        ),
        spec_parse_arg(o, "--verbose"@, value) == Ok::<(OptionsView, ArgEffectView), Seq<char>>(
            (OptionsView { verbose: true, ..o }, ArgEffectView::Nothing),
        ),
{
    lemma_arg_names();
    assert(spec_parse_arg(o, "--gl-probe"@, value) == Ok::<(OptionsView, ArgEffectView), Seq<char>>(
        (OptionsView { gl_probe: true, ..o }, ArgEffectView::Nothing),
    ));
    assert(spec_parse_arg(o, "--host-libc"@, value) == Ok::<(OptionsView, ArgEffectView), Seq<char>>(
        (OptionsView { host_libc: true, ..o }, ArgEffectView::Nothing),
    ));
}

/// Every option that takes a value puts that value where it names: a path or
/// name in its own field, `--profile` and `--flag-overrides` as the caller's
/// next step, a duration as the number it reads as, and `--join-url` as the
/// link it validates to. `--dump-classes` also turns on `--jni-onload`, which
/// the class dump needs.
pub proof fn law_an_option_takes_its_value(o: OptionsView, v: Seq<char>)
    ensures
        spec_parse_arg(o, "--lib-dir"@, Some(v)) == Ok::<(OptionsView, ArgEffectView), Seq<char>>(
            (OptionsView { lib_dir: v, ..o }, ArgEffectView::Nothing),
        ),
        spec_parse_arg(o, "--library"@, Some(v)) == Ok::<(OptionsView, ArgEffectView), Seq<char>>(
            (OptionsView { library: v, ..o }, ArgEffectView::Nothing),
        ),
        spec_parse_arg(o, "--apk"@, Some(v)) == Ok::<(OptionsView, ArgEffectView), Seq<char>>(
            (OptionsView { apk: Some(v), ..o }, ArgEffectView::Nothing),
        ),
        spec_parse_arg(o, "--read-asset"@, Some(v)) == Ok::<(OptionsView, ArgEffectView), Seq<char>>(
            (OptionsView { read_asset: Some(v), ..o }, ArgEffectView::Nothing),
        ),
        spec_parse_arg(o, "--client-settings"@, Some(v)) == Ok::<
            (OptionsView, ArgEffectView),
            Seq<char>,
        >((OptionsView { client_settings: Some(v), ..o }, ArgEffectView::Nothing)),
        spec_parse_arg(o, "--profile"@, Some(v)) == Ok::<(OptionsView, ArgEffectView), Seq<char>>(
            (o, ArgEffectView::Profile(v)),
        ),
        spec_parse_arg(o, "--flag-overrides"@, Some(v)) == Ok::<
            (OptionsView, ArgEffectView),
            Seq<char>,
        >((o, ArgEffectView::ReadOverrides(v))),
        spec_parse_arg(o, "--dump-classes"@, Some(v)) == Ok::<
            (OptionsView, ArgEffectView),
            Seq<char>,
        >((OptionsView { jni_onload: true, dump_classes: Some(v), ..o }, ArgEffectView::Nothing)),
        parse_unsigned(v, u64::MAX as nat) matches Some(n) ==> spec_parse_arg(o, "--window"@, Some(v))
            == Ok::<(OptionsView, ArgEffectView), Seq<char>>(
            (OptionsView { window_seconds: Some(n as u64), ..o }, ArgEffectView::Nothing),
        ),
        parse_unsigned(v, u64::MAX as nat) matches Some(n) ==> spec_parse_arg(o, "--run"@, Some(v))
            == Ok::<(OptionsView, ArgEffectView), Seq<char>>(
            (OptionsView { run_seconds: n as u64, ..o }, ArgEffectView::Nothing),
        ),
        spec_validate(v) matches Ok(scheme) ==> spec_parse_arg(o, "--join-url"@, Some(v))
            == Ok::<(OptionsView, ArgEffectView), Seq<char>>(
            (OptionsView { join_url: Some((v, scheme)), ..o }, ArgEffectView::Nothing),
        ),
{
    lemma_arg_names();
}

} // verus!
