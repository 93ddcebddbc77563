use cordial_runtime::cli::{
    finish, gamemode_enabled, parse_arg, parse_u32, register_report, requested_resolution,
    takes_value, unregister_report, ArgEffect, Options,
};

fn run(args: &[&str]) -> Result<(Options, Vec<ArgEffect>), String> {
    let mut opt = Options::new();
    let mut effects = Vec::new();
    let mut it = args.iter().map(|a| a.to_string());
    while let Some(arg) = it.next() {
        let value = if takes_value(&arg) { it.next() } else { None };
        effects.push(parse_arg(&mut opt, &arg, value)?);
    }
    Ok((finish(opt)?, effects))
}

#[test]
fn the_defaults_are_libroblox_and_fifteen_seconds() {
    let (o, effects) = run(&["--lib-dir", "/x"]).unwrap();
    assert_eq!(o.lib_dir, "/x");
    assert_eq!(o.library, "libroblox.so");
    assert_eq!(o.run_seconds, 15);
    assert!(!o.jni_onload && !o.game_activity && !o.verbose && !o.gl_probe);
    assert_eq!(effects, vec![ArgEffect::Nothing], "one option, one value");
}

#[test]
fn lib_dir_is_required() {
    assert_eq!(run(&["--gl-probe"]).err().unwrap(), "--lib-dir is required");
}

#[test]
fn each_option_sets_what_it_names() {
    let (o, effects) = run(&[
        "--lib-dir", "/l", "--library", "libx.so", "--apk", "a.apk", "--read-asset", "r",
        "--client-settings", "c.json", "--window", "5", "--run", "+0", "--host-libc",
        "--dump-classes", "d.txt", "-v", "--profile", "work", "--flag-overrides", "f.json",
    ])
    .unwrap();
    assert_eq!(o.library, "libx.so");
    assert_eq!(o.apk.as_deref(), Some("a.apk"));
    assert_eq!(o.read_asset.as_deref(), Some("r"));
    assert_eq!(o.client_settings.as_deref(), Some("c.json"));
    assert_eq!(o.window_seconds, Some(5));
    assert_eq!(o.run_seconds, 0);
    assert!(o.host_libc && o.jni_onload && o.verbose);
    assert_eq!(o.dump_classes.as_deref(), Some("d.txt"));
    assert_eq!(o.flag_overrides, None, "read by the caller, not here");
    assert!(effects.contains(&ArgEffect::Profile("work".to_string())));
    assert!(effects.contains(&ArgEffect::ReadOverrides("f.json".to_string())));
}

#[test]
fn game_activity_implies_jni_onload() {
    let (o, _) = run(&["--game-activity", "--lib-dir", "/l"]).unwrap();
    assert!(o.game_activity && o.jni_onload);
}

#[test]
fn a_missing_or_bad_value_ends_the_launch_with_a_sentence() {
    assert_eq!(run(&["--lib-dir"]).err().unwrap(), "--lib-dir needs a value");
    assert_eq!(run(&["--apk"]).err().unwrap(), "--apk needs a path");
    assert_eq!(run(&["--profile"]).err().unwrap(), "--profile needs a name");
    assert_eq!(run(&["--run"]).err().unwrap(), "--run needs a duration in seconds");
    assert_eq!(run(&["--run", "soon"]).err().unwrap(), "--run wants a number");
    assert_eq!(run(&["--window", "-1"]).err().unwrap(), "--window wants a number");
    assert_eq!(run(&["--join-url"]).err().unwrap(), "--join-url needs a URL");
    assert_eq!(run(&["--frobnicate"]).err().unwrap(), "unrecognised argument: --frobnicate");
    assert_eq!(run(&["-h"]).err().unwrap(), "");
}

#[test]
fn a_join_url_is_validated_at_the_edge() {
    let (o, _) = run(&["--lib-dir", "/l", "--join-url", "roblox://placeId=1"]).unwrap();
    assert_eq!(o.join_url.unwrap().scheme(), "roblox");
    assert_eq!(
        run(&["--join-url", "http://example.com"]).err().unwrap(),
        "--join-url has scheme \"http\"; Cordial handles roblox-player and roblox"
    );
}

#[test]
fn the_resolution_is_read_within_reason() {
    assert_eq!(requested_resolution(None), Ok((1280, 720)));
    assert_eq!(requested_resolution(Some("1920x1200")), Ok((1920, 1200)));
    assert_eq!(requested_resolution(Some(" 2560 X 1440 ")), Ok((2560, 1440)));
    assert_eq!(requested_resolution(Some("320x240")), Ok((320, 240)));
    assert_eq!(requested_resolution(Some("7680x4320")), Ok((7680, 4320)));
    assert_eq!(requested_resolution(Some("100x100")), Err("100x100".to_string()));
    assert_eq!(requested_resolution(Some("8000x4000")), Err("8000x4000".to_string()));
    assert_eq!(requested_resolution(Some("1920")), Err("1920".to_string()));
    assert_eq!(requested_resolution(Some("wide")), Err("wide".to_string()));
}

#[test]
fn u32_parsing_matches_str_parse() {
    let p = |s: &str| parse_u32(&s.chars().collect::<Vec<_>>());
    assert_eq!(p("4294967295"), Some(u32::MAX));
    assert_eq!(p("4294967296"), None);
    assert_eq!(p("+7"), Some(7));
    assert_eq!(p(""), None);
    assert_eq!(p("+"), None);
    assert_eq!(p("1 "), None);
}

#[test]
fn gamemode_is_on_unless_switched_off() {
    assert!(gamemode_enabled(None));
    assert!(gamemode_enabled(Some("1")));
    assert!(gamemode_enabled(Some("")));
    for off in ["0", "off", " false ", "no"] {
        assert!(!gamemode_enabled(Some(off)), "{off:?}");
    }
    assert!(gamemode_enabled(Some("OFF")), "only the exact words switch it off");
}

#[test]
fn a_declining_daemon_is_told_apart_from_an_absent_one() {
    assert_eq!(
        register_report(Ok(0), 42),
        (
            true,
            "[gamemode] registered pid 42: performance governor, raised priority, GPU performance profile, screensaver inhibited".to_string()
        )
    );
    assert_eq!(
        register_report(Ok(-2), 42),
        (false, "[gamemode] gamemoded declined to register this process (rc -2)".to_string())
    );
    assert_eq!(
        register_report(Err("no session bus".into()), 42),
        (false, "[gamemode] not available, continuing without it: no session bus".to_string())
    );
    assert_eq!(unregister_report(Ok(0)), "[gamemode] unregistered");
    assert_eq!(unregister_report(Ok(-1)), "[gamemode] UnregisterGame returned -1");
    assert_eq!(unregister_report(Err("gone".into())), "[gamemode] UnregisterGame failed: gone");
}
