use cordial_runtime::wayland::{route_key, KeyRoute, KEY_ESC, KEY_F11};
use cordial_runtime::wayland::{
    buttons_to_release, constrain_toplevel_for, correct_meta, decide_pointer_lock, first_report,
    linux_button_to_android, lock_went_dead, meta_state, own_modifier_bit, pointer_acceleration_for,
    pointer_reaches_engine, press_button, release_button, route_button, splice_preedit, stacking,
    text_edit, touch_change, Canvas, FocusChange, Front, Ime, ImeEdits, Keyboard, LockAction,
    LockInputs, Placed, Resize, StackStep, TextEdit, TouchChange, BUTTON_BACK, BUTTON_FORWARD,
    BUTTON_PRIMARY, BUTTON_SECONDARY, BUTTON_TERTIARY, KEY_LEFTALT, KEY_LEFTCTRL, KEY_LEFTSHIFT,
    KEY_RIGHTSHIFT, META_ALT_ON, META_CAPS_LOCK_ON, META_CTRL_ON, META_SHIFT_ON,
    TEXT_INPUT_MANAGER_VERSION, TEXT_INPUT_VERSION,
};

#[test]
fn no_preedit_leaves_committed_text_untouched() {
    let (text, caret) = splice_preedit("hello", 5, None);
    assert_eq!(text, "hello");
    assert_eq!(caret, 5);
}

#[test]
fn preedit_is_spliced_at_the_caret_not_appended() {
    // The caret is mid-string (after "he"), not at the end.
    let (text, caret) = splice_preedit("hello", 2, Some(&("XX".to_string(), 2, 2)));
    assert_eq!(text, "heXXllo");
    // Two committed chars before the caret, plus both preedit chars.
    assert_eq!(caret, 4);
}

#[test]
fn preedit_cursor_can_land_inside_the_composing_text() {
    let (text, caret) = splice_preedit("run", 3, Some(&("ning".to_string(), 0, 0)));
    assert_eq!(text, "running");
    // cursor_begin=0 keeps the displayed caret at the committed caret.
    assert_eq!(caret, 3);
}

#[test]
fn preedit_replaces_rather_than_appends_to_the_previous_one() {
    let after_first = splice_preedit("x", 1, Some(&("a".to_string(), 1, 1)));
    assert_eq!(after_first.0, "xa");
    let after_second = splice_preedit("x", 1, Some(&("ab".to_string(), 2, 2)));
    assert_eq!(after_second.0, "xab");
}

#[test]
fn an_empty_preedit_still_splices_as_a_real_value() {
    let (text, caret) = splice_preedit("hi", 2, Some(&(String::new(), 0, 0)));
    assert_eq!(text, "hi");
    assert_eq!(caret, 2);
}

#[test]
fn preedit_splicing_counts_the_committed_caret_in_characters() {
    // A multi-byte character before the caret must not shift where the
    // preedit lands.
    let (text, caret) = splice_preedit("héllo", 2, Some(&("X".to_string(), 0, 0)));
    assert_eq!(text, "héXllo");
    assert_eq!(caret, 2);
}

// ---------------------------------------------------------------- more cases

#[test]
fn a_preedit_cursor_of_minus_one_is_the_end_and_one_inside_a_character_stops_before_it() {
    // -1: the input method gave no cursor, taken as the end of "日本".
    let (text, caret) = splice_preedit("ab", 1, Some(&("日本".to_string(), -1, -1)));
    assert_eq!(text, "a日本b");
    assert_eq!(caret, 3);
    // Byte 4 is inside the second character: only the first counts.
    let (_, caret) = splice_preedit("ab", 1, Some(&("日本".to_string(), 4, 4)));
    assert_eq!(caret, 2);
    // Past the end is the end.
    let (_, caret) = splice_preedit("ab", 1, Some(&("日本".to_string(), 99, 99)));
    assert_eq!(caret, 3);
}

#[test]
fn a_caret_outside_the_text_splices_at_the_nearest_end() {
    let (text, caret) = splice_preedit("ab", -3, Some(&("X".to_string(), 1, 1)));
    assert_eq!(text, "Xab");
    assert_eq!(caret, -2);
    let (text, caret) = splice_preedit("ab", 9, Some(&("X".to_string(), 1, 1)));
    assert_eq!(text, "abX");
    assert_eq!(caret, 10);
}

#[test]
fn side_buttons_keep_their_meaning() {
    assert_eq!(linux_button_to_android(0x110), Some(BUTTON_PRIMARY));
    assert_eq!(linux_button_to_android(0x111), Some(BUTTON_SECONDARY));
    assert_eq!(linux_button_to_android(0x112), Some(BUTTON_TERTIARY));
    assert_eq!(linux_button_to_android(0x113), Some(BUTTON_BACK));
    assert_eq!(linux_button_to_android(0x114), Some(BUTTON_FORWARD));
    assert_eq!(linux_button_to_android(0x115), None);
    assert_eq!((BUTTON_PRIMARY, BUTTON_SECONDARY, BUTTON_TERTIARY), (1, 2, 4));
    assert_eq!((BUTTON_BACK, BUTTON_FORWARD), (8, 16));
}

#[test]
fn where_the_editor_came_from_reads_as_a_sentence_and_as_a_token() {
    assert_eq!(Placed::Engine.source(), "engine geometry");
    assert_eq!(Placed::Carried.source(), "the previous box, while this one lays out");
    assert_eq!(Placed::Fallback.source(), "fallback bar");
    assert_eq!(Placed::Engine.token(), "engine");
    assert_eq!(Placed::Carried.token(), "carried");
    assert_eq!(Placed::Fallback.token(), "fallback");
}

/// The measured chord: every modifier event one behind in both directions
/// before the correction.
#[test]
fn a_modifier_keys_own_event_carries_its_own_bit() {
    assert_eq!(correct_meta(0x0000, KEY_LEFTCTRL, true), 0x1000);
    assert_eq!(correct_meta(0x1000, KEY_LEFTALT, true), 0x1002);
    assert_eq!(correct_meta(0x1002, KEY_LEFTSHIFT, true), 0x1003);
    assert_eq!(correct_meta(0x1003, KEY_RIGHTSHIFT, false), 0x1002);
    // An ordinary key is left alone.
    assert_eq!(correct_meta(0x1003, 30, true), 0x1003);
    assert_eq!(own_modifier_bit(30), 0);
    assert_eq!(own_modifier_bit(97), META_CTRL_ON);
    assert_eq!(own_modifier_bit(100), META_ALT_ON);
}

#[test]
fn the_meta_state_is_one_bit_per_active_modifier() {
    assert_eq!(meta_state(false, false, false, false), 0);
    assert_eq!(meta_state(true, false, false, false), META_SHIFT_ON);
    assert_eq!(meta_state(true, true, true, true), 0x101003);
    assert_eq!(meta_state(false, false, false, true), META_CAPS_LOCK_ON);
}

#[test]
fn a_key_after_leave_is_not_seen_and_held_keys_are_released() {
    let window = Some(0x5000usize);
    let mut k = Keyboard::new();
    assert!(!k.key(17, true, window), "no focus yet");
    k.enter(0x5000, window);
    assert!(k.is_focused());
    assert!(k.key(17, true, window));
    assert!(k.key(30, true, window));
    assert!(k.key(17, true, window), "a repeat is still passed on");
    assert_eq!(k.held(), &[17, 30][..], "but recorded once");
    assert_eq!(k.leave(false), vec![17, 30]);
    assert!(k.held().is_empty());
    assert!(!k.key(17, false, window), "focus went with the leave");
    assert!(!k.is_focused());
}

#[test]
fn keys_held_through_a_leave_can_be_left_held() {
    let mut k = Keyboard::new();
    k.enter(7, Some(7));
    k.key(17, true, Some(7));
    assert_eq!(k.leave(true), Vec::<u32>::new());
    assert!(k.held().is_empty(), "forgotten either way");
}

#[test]
fn an_enter_before_the_window_is_honoured_once_it_exists() {
    let mut k = Keyboard::new();
    k.enter(9, None);
    assert!(!k.is_focused());
    assert!(!k.key(1, true, None), "no window to pass it to");
    assert!(k.key(1, true, Some(9)));
    assert!(k.is_focused());
    let mut other = Keyboard::new();
    other.enter(9, None);
    assert!(!other.key(1, true, Some(8)), "a different surface is not ours");
}

#[test]
fn a_release_removes_the_key_and_moves_the_last_into_its_place() {
    let mut k = Keyboard::new();
    k.enter(3, Some(3));
    for key in [1, 2, 3, 4] {
        k.key(key, true, Some(3));
    }
    k.key(2, false, Some(3));
    assert_eq!(k.held(), &[1, 4, 3][..]);
    k.key(9, false, Some(3));
    assert_eq!(k.held(), &[1, 4, 3][..], "releasing a key never pressed changes nothing");
}

/// A `zwp_text_input_v3` is whatever version its manager was bound at; the
/// two drifting apart is the whole bug.
#[test]
fn the_text_input_and_its_manager_declare_the_same_version() {
    assert_eq!(TEXT_INPUT_VERSION, TEXT_INPUT_MANAGER_VERSION);
    // Version 2 is what GNOME's mutter advertises, measured on the wire.
    assert_eq!(TEXT_INPUT_VERSION, 2);
}

// ---------------------------------------------------------------- input method

#[test]
fn an_empty_done_is_an_acknowledgement_not_an_edit() {
    let mut ime = Ime::new();
    assert_eq!(ime.done(true), None);
    assert_eq!(ime.preedit(), None);
}

#[test]
fn a_group_is_applied_only_at_done_and_in_protocol_order() {
    let mut ime = Ime::new();
    ime.delete_surrounding(1, 0);
    ime.commit_string(Some("é".to_string()));
    ime.preedit_string(Some("ab".to_string()), 1, 1);
    ime.preedit_string(Some("abc".to_string()), 3, 3);
    assert_eq!(ime.preedit(), None, "nothing shown before done");
    assert!(ime.owns_text());
    assert_eq!(
        ime.done(true),
        Some(ImeEdits { delete: Some((1, 0)), insert: Some("é".to_string()) })
    );
    assert_eq!(ime.preedit(), Some(&("abc".to_string(), 3, 3)), "the last preedit wins");
    ime.commit_string(Some(String::new()));
    assert_eq!(ime.done(true), Some(ImeEdits { delete: None, insert: None }));
    ime.preedit_string(None, 0, 0);
    ime.done(true);
    assert_eq!(ime.preedit(), None, "a null preedit clears composition");
}

#[test]
fn a_group_with_no_focused_box_is_dropped() {
    let mut ime = Ime::new();
    ime.commit_string(Some("x".to_string()));
    assert_eq!(ime.done(false), None);
    assert_eq!(ime.done(true), None, "and does not come back later");
}

#[test]
fn leaving_hands_the_text_back_to_the_keyboard() {
    let mut ime = Ime::new();
    ime.preedit_string(Some("a".to_string()), 1, 1);
    ime.done(true);
    ime.leave();
    assert!(!ime.owns_text());
    assert_eq!(ime.preedit(), None);
}

#[test]
fn focus_changes_are_reported_once_per_generation() {
    let mut ime = Ime::new();
    assert_eq!(ime.sync_focus(1, true), FocusChange::Focused);
    assert_eq!(ime.sync_focus(1, false), FocusChange::Unchanged, "same generation");
    ime.preedit_string(Some("a".to_string()), 0, 0);
    ime.done(true);
    assert_eq!(ime.sync_focus(2, true), FocusChange::Unchanged);
    assert_eq!(ime.preedit(), Some(&("a".to_string(), 0, 0)), "no change, nothing forgotten");
    assert_eq!(ime.sync_focus(3, false), FocusChange::Blurred);
    assert_eq!(ime.preedit(), None);
}

#[test]
fn the_keyboard_edits_and_types_unless_an_input_method_owns_the_text() {
    assert_eq!(text_edit(0xff08, false, String::new()), Some(TextEdit::Backspace));
    assert_eq!(text_edit(0xffff, true, String::new()), Some(TextEdit::Delete));
    assert_eq!(text_edit(0xff51, true, String::new()), Some(TextEdit::Left));
    assert_eq!(text_edit(0xff53, false, String::new()), Some(TextEdit::Right));
    assert_eq!(text_edit(0xff50, false, String::new()), Some(TextEdit::Home));
    assert_eq!(text_edit(0xff57, false, String::new()), Some(TextEdit::End));
    assert_eq!(text_edit(0x61, false, "a".to_string()), Some(TextEdit::Insert("a".to_string())));
    assert_eq!(text_edit(0x61, true, "a".to_string()), None);
}

// ---------------------------------------------------------------- pointer lock

fn inputs() -> LockInputs {
    LockInputs {
        engine_wants: false,
        unavailable: false,
        no_drag_lock: false,
        forced: false,
        buttons: 0,
        on_canvas: true,
        ui_in_front: false,
        suppressed: false,
        held: false,
        went_dead: false,
    }
}

#[test]
fn a_right_drag_or_the_engine_captures_and_a_left_drag_does_not() {
    assert_eq!(decide_pointer_lock(LockInputs { buttons: 2, ..inputs() }), (false, LockAction::Lock));
    assert_eq!(decide_pointer_lock(LockInputs { buttons: 4, ..inputs() }), (false, LockAction::Lock));
    assert_eq!(decide_pointer_lock(LockInputs { buttons: BUTTON_PRIMARY, ..inputs() }), (false, LockAction::Nothing));
    assert_eq!(
        decide_pointer_lock(LockInputs { buttons: 2, on_canvas: false, ..inputs() }),
        (false, LockAction::Nothing)
    );
    assert_eq!(
        decide_pointer_lock(LockInputs { buttons: 2, no_drag_lock: true, ..inputs() }),
        (false, LockAction::Nothing)
    );
    assert_eq!(decide_pointer_lock(LockInputs { engine_wants: true, ..inputs() }), (false, LockAction::Lock));
    assert_eq!(decide_pointer_lock(LockInputs { forced: true, ..inputs() }), (false, LockAction::Lock));
}

#[test]
fn escape_and_dialogs_give_the_cursor_back() {
    let asking = LockInputs { engine_wants: true, held: true, ..inputs() };
    assert_eq!(decide_pointer_lock(LockInputs { suppressed: true, ..asking }), (true, LockAction::Release));
    assert_eq!(
        decide_pointer_lock(LockInputs { suppressed: true, engine_wants: false, held: false, ..inputs() }),
        (false, LockAction::Nothing),
        "the latch lifts once nothing asks"
    );
    assert_eq!(decide_pointer_lock(LockInputs { ui_in_front: true, ..asking }), (false, LockAction::Release));
    assert_eq!(decide_pointer_lock(LockInputs { went_dead: true, ..asking }), (false, LockAction::Renew));
    assert_eq!(decide_pointer_lock(asking), (false, LockAction::Nothing));
    assert_eq!(
        decide_pointer_lock(LockInputs { unavailable: true, suppressed: true, ..asking }),
        (true, LockAction::Nothing)
    );
}

#[test]
fn a_lock_is_dead_after_a_second_off_over_the_canvas() {
    assert!(!lock_went_dead(false, true, Some(1000), 2000));
    assert!(lock_went_dead(false, true, Some(1000), 2001));
    assert!(!lock_went_dead(true, true, Some(1000), 9000));
    assert!(!lock_went_dead(false, false, Some(1000), 9000));
    assert!(!lock_went_dead(false, true, None, 9000));
}

#[test]
fn acceleration_and_the_constrained_surface_follow_their_settings() {
    assert!(pointer_acceleration_for(Some("always")));
    assert!(!pointer_acceleration_for(Some("unlocked")));
    assert!(!pointer_acceleration_for(None));
    assert!(constrain_toplevel_for(Some("toplevel"), "GNOME", ""));
    assert!(!constrain_toplevel_for(Some("canvas"), "KDE", "plasma"));
    assert!(constrain_toplevel_for(None, "KDE", ""));
    assert!(constrain_toplevel_for(Some("other"), "", "Plasmawayland"));
    assert!(!constrain_toplevel_for(None, "GNOME", "gnome"));
}

// ---------------------------------------------------------------- canvas

#[test]
fn the_first_placement_happens_even_when_nothing_moved() {
    let mut c = Canvas::new(1280, 720);
    assert!(c.place(0, 0), "never placed, so placed now");
    assert!(!c.place(0, 0));
    assert!(c.place(25, 71));
}

#[test]
fn a_resize_is_refused_unchanged_or_accepted() {
    let mut c = Canvas::new(1280, 720);
    assert_eq!(c.resize(0, 720), Resize::Refused);
    assert_eq!(c.resize(1280, 720), Resize::Unchanged);
    assert_eq!(c.resize(1920, 1080), Resize::Accepted);
    assert_eq!(c.size(), (1920, 1080));
    assert_eq!(c.resize(-1, 5), Resize::Refused);
    assert_eq!(c.size(), (1920, 1080));
}

// ---------------------------------------------------------------- buttons and dialogs

#[test]
fn every_held_button_is_released_primary_first() {
    assert_eq!(buttons_to_release(0), Vec::<i32>::new());
    assert_eq!(buttons_to_release(2 | 16 | 1), vec![1, 2, 16]);
    assert_eq!(buttons_to_release(31), vec![1, 2, 4, 8, 16]);
    assert_eq!(press_button(0, 2), (2, true), "the first button starts the gesture");
    assert_eq!(press_button(2, 4), (6, false));
    assert_eq!(release_button(6, 2), 4);
    assert_eq!(release_button(4, 2), 4);
}

#[test]
fn only_the_edges_of_what_is_in_front_restack_the_engine() {
    let mut f = Front::new();
    assert!(!f.dialog_in_front() && !f.ui_in_front());
    assert_eq!(f.dialog_opened(), Some(false), "the first dialog lowers the engine");
    assert_eq!(f.dialog_opened(), None, "the second does not");
    assert!(f.dialog_in_front());
    assert_eq!(f.dialog_closed(), None, "one still open");
    assert!(f.dialog_in_front());
    assert_eq!(f.dialog_closed(), Some(true), "the last close raises it");
    assert!(!f.dialog_in_front());
    assert_eq!(f.editor_shown(), Some(false));
    assert!(f.ui_in_front() && !f.dialog_in_front());
    assert_eq!(f.dialog_opened(), None, "the editor already lowered it");
    assert_eq!(f.editor_hidden(), None, "a dialog is still in front");
    assert_eq!(f.editor_hidden(), None, "hiding twice changes nothing");
    assert_eq!(f.dialog_closed(), Some(true));
}

#[test]
fn touch_is_bound_when_offered_and_cancelled_when_withdrawn() {
    assert_eq!(touch_change(4, 4), TouchChange::Unchanged);
    assert_eq!(touch_change(3, 7), TouchChange::Bind);
    assert_eq!(touch_change(7, 3), TouchChange::Withdrawn);
    assert_eq!(touch_change(1, 3), TouchChange::Other);
}

#[test]
fn a_click_reaches_the_engine_only_over_its_canvas_with_no_dialog_in_front() {
    assert_eq!(route_button(true, false, 0x111), Some(BUTTON_SECONDARY));
    assert_eq!(route_button(true, true, 0x111), None);
    assert_eq!(route_button(false, false, 0x111), None);
    assert_eq!(route_button(true, false, 0x200), None);
    assert!(pointer_reaches_engine(true, false));
    assert!(!pointer_reaches_engine(true, true));
}

#[test]
fn lowering_and_raising_the_engine_happen_in_the_order_that_shows_no_gap() {
    assert_eq!(
        stacking(false),
        vec![
            StackStep::SeeThrough(true),
            StackStep::Repaint,
            StackStep::Place { above: false },
            StackStep::QueueCommit,
            StackStep::ClearOpaqueRegion,
            StackStep::CommitParent,
        ]
    );
    assert_eq!(
        stacking(true),
        vec![
            StackStep::Place { above: true },
            StackStep::QueueCommit,
            StackStep::CommitParent,
            StackStep::SeeThrough(false),
        ]
    );
}

#[test]
fn a_dropped_key_is_reported_once() {
    let mut seen = Vec::new();
    assert!(first_report(&mut seen, 30));
    assert!(!first_report(&mut seen, 30));
    assert!(first_report(&mut seen, 31));
    assert_eq!(seen, vec![30, 31]);
}

#[test]
fn f11_is_consumed_and_escape_still_reaches_the_engine() {
    let f11 = route_key(KEY_F11, true, Some(141), true);
    assert!(f11.toggle_fullscreen && !f11.pass_to_engine && f11.deliver.is_none() && !f11.may_edit);
    assert!(!route_key(KEY_F11, false, Some(141), true).toggle_fullscreen);
    let esc = route_key(KEY_ESC, true, Some(111), true);
    assert_eq!(
        esc,
        KeyRoute {
            release_lock: true,
            toggle_fullscreen: false,
            pass_to_engine: true,
            deliver: Some(111),
            dropped: false,
            may_edit: true,
        }
    );
    let no_activity = route_key(30, true, Some(29), false);
    assert!(no_activity.dropped && no_activity.deliver.is_none() && no_activity.pass_to_engine);
    let unmapped = route_key(59, false, None, true);
    assert!(!unmapped.dropped && unmapped.deliver.is_none() && !unmapped.may_edit);
}
