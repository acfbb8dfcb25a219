use hush::config::{ModKey, Shortcut};
use hush::pipeline::Trigger;
use hush::shortcut::{
    bind_satisfied, is_modkey_pressed, keycode_label, keycode_to_modkey, label_from_upper, special_name,
    EngineAction, KeyEventKind, MonitorState, RecordingBuf, SessionMods, ShortcutEngine,
    FLAG_COMMAND, FLAG_FUNCTION, FLAG_OPTION, FLAG_SHIFT, KVK_ESCAPE, KVK_FUNCTION, KVK_OPTION,
    KVK_RIGHT_OPTION, KVK_SHIFT,
};

fn is_trigger(a: &EngineAction, t: Trigger) -> bool {
    matches!(a, EngineAction::Trigger(x) if *x == t)
}

fn is_nothing(a: &EngineAction) -> bool {
    matches!(a, EngineAction::Nothing)
}

#[test]
fn keycodes_map_to_sided_modifiers() {
    assert_eq!(keycode_to_modkey(0x37), Some(ModKey::LeftCommand));
    assert_eq!(keycode_to_modkey(0x36), Some(ModKey::RightCommand));
    assert_eq!(keycode_to_modkey(0x3D), Some(ModKey::RightOption));
    assert_eq!(keycode_to_modkey(0x3F), Some(ModKey::Fn));
    assert_eq!(keycode_to_modkey(0x31), None);
}

#[test]
fn session_mods_held_in_fixed_order() {
    let mut s = SessionMods::default();
    assert!(s.held().is_empty());
    s.set(ModKey::CapsLock, true);
    s.set(ModKey::Fn, true);
    s.set(ModKey::RightShift, true);
    assert_eq!(s.held(), vec![ModKey::Fn, ModKey::RightShift, ModKey::CapsLock]);
    assert!(s.contains(ModKey::Fn));
    s.set(ModKey::Fn, false);
    assert!(!s.contains(ModKey::Fn));
    assert_eq!(s.held(), vec![ModKey::RightShift, ModKey::CapsLock]);
}

#[test]
fn modifier_press_follows_flag_bit_and_side() {
    let s = SessionMods::default();
    assert!(is_modkey_pressed(ModKey::LeftOption, FLAG_OPTION, KVK_OPTION, &s));
    assert!(!is_modkey_pressed(ModKey::LeftOption, 0, KVK_OPTION, &s));
    // The other side's key with the bit set leaves this side as it was.
    assert!(!is_modkey_pressed(ModKey::LeftOption, FLAG_OPTION, KVK_RIGHT_OPTION, &s));
    let mut held = SessionMods::default();
    held.set(ModKey::LeftOption, true);
    assert!(is_modkey_pressed(ModKey::LeftOption, FLAG_OPTION, KVK_RIGHT_OPTION, &held));
    assert!(!is_modkey_pressed(ModKey::LeftOption, 0, KVK_RIGHT_OPTION, &held));
}

#[test]
fn bind_satisfied_needs_all_parts() {
    let bind = Shortcut { mods: vec![ModKey::LeftCommand, ModKey::LeftOption], key: Some(49), key_label: None };
    let mut st = MonitorState { held_mods: vec![ModKey::LeftCommand], key_down: true, chord_active: false };
    assert!(!bind_satisfied(&bind, &st));
    st.held_mods.push(ModKey::LeftOption);
    assert!(bind_satisfied(&bind, &st));
    st.key_down = false;
    assert!(!bind_satisfied(&bind, &st));
    let empty = Shortcut { mods: vec![], key: None, key_label: None };
    assert!(!bind_satisfied(&empty, &st));
}

#[test]
fn fn_key_starts_and_stops() {
    let mut e = ShortcutEngine::new(Shortcut::fn_only());
    let a = e.handle_event(KeyEventKind::FlagsChanged, KVK_FUNCTION, FLAG_FUNCTION, None);
    assert!(is_trigger(&a, Trigger::Start));
    assert!(e.is_chord_active());
    let a = e.handle_event(KeyEventKind::FlagsChanged, KVK_FUNCTION, FLAG_FUNCTION, None);
    assert!(is_nothing(&a));
    let a = e.handle_event(KeyEventKind::FlagsChanged, KVK_FUNCTION, 0, None);
    assert!(is_trigger(&a, Trigger::Stop));
    assert!(!e.is_chord_active());
}

#[test]
fn chord_with_key_fires_on_key_and_stops_on_release() {
    let bind = Shortcut { mods: vec![ModKey::LeftOption], key: Some(49), key_label: Some("Space".to_string()) };
    let mut e = ShortcutEngine::new(bind);
    let a = e.handle_event(KeyEventKind::FlagsChanged, KVK_OPTION, FLAG_OPTION, None);
    assert!(is_nothing(&a));
    let a = e.handle_event(KeyEventKind::KeyDown, 49, FLAG_OPTION, Some(" "));
    assert!(is_trigger(&a, Trigger::Start));
    let a = e.handle_event(KeyEventKind::KeyUp, 49, FLAG_OPTION, None);
    assert!(is_trigger(&a, Trigger::Stop));
}

#[test]
fn other_events_are_ignored() {
    let mut e = ShortcutEngine::new(Shortcut::fn_only());
    let a = e.handle_event(KeyEventKind::Other, KVK_FUNCTION, FLAG_FUNCTION, None);
    assert!(is_nothing(&a));
    assert!(!e.is_chord_active());
}

#[test]
fn set_binding_resets_chord() {
    let mut e = ShortcutEngine::new(Shortcut::fn_only());
    e.handle_event(KeyEventKind::FlagsChanged, KVK_FUNCTION, FLAG_FUNCTION, None);
    assert!(e.is_chord_active());
    e.set_binding(Shortcut { mods: vec![ModKey::LeftShift], key: None, key_label: None });
    assert!(!e.is_chord_active());
    assert_eq!(e.binding().mods, vec![ModKey::LeftShift]);
}

#[test]
fn recording_captures_rolled_chord_on_full_release() {
    let mut e = ShortcutEngine::new(Shortcut::fn_only());
    e.start_recording();
    assert!(e.is_recording());
    let a = e.handle_event(KeyEventKind::FlagsChanged, 0x37, FLAG_COMMAND, None);
    assert!(is_nothing(&a));
    let a = e.handle_event(KeyEventKind::FlagsChanged, KVK_OPTION, FLAG_COMMAND | FLAG_OPTION, None);
    assert!(is_nothing(&a));
    let a = e.handle_event(KeyEventKind::FlagsChanged, 0x37, FLAG_OPTION, None);
    assert!(is_nothing(&a));
    let a = e.handle_event(KeyEventKind::KeyDown, 0x00, FLAG_OPTION, Some("a"));
    assert!(is_nothing(&a));
    let a = e.handle_event(KeyEventKind::KeyUp, 0x00, FLAG_OPTION, None);
    assert!(is_nothing(&a));
    let a = e.handle_event(KeyEventKind::FlagsChanged, KVK_OPTION, 0, None);
    match a {
        EngineAction::Recorded(Some(sc)) => {
            assert_eq!(sc.mods, vec![ModKey::LeftCommand, ModKey::LeftOption]);
            assert_eq!(sc.key, Some(0x00));
            assert_eq!(sc.key_label, Some("A".to_string()));
            assert_eq!(sc.to_token(), "left_cmd+left_option+key:0:A");
        }
        _ => panic!("expected a recorded shortcut"),
    }
    assert!(!e.is_recording());
}

#[test]
fn recording_is_cancelled_by_escape() {
    let mut e = ShortcutEngine::new(Shortcut::fn_only());
    e.start_recording();
    let a = e.handle_event(KeyEventKind::KeyDown, KVK_ESCAPE, 0, Some("\u{1b}"));
    assert!(matches!(a, EngineAction::Recorded(None)));
    assert!(!e.is_recording());
}

#[test]
fn recording_never_triggers_dictation() {
    let mut e = ShortcutEngine::new(Shortcut::fn_only());
    e.start_recording();
    let a = e.handle_event(KeyEventKind::FlagsChanged, KVK_FUNCTION, FLAG_FUNCTION, None);
    assert!(is_nothing(&a));
    assert!(!e.is_chord_active());
}

#[test]
fn recording_buffer_commits_modifier_only_chord() {
    let mut b = RecordingBuf::default();
    let mut s = SessionMods::default();
    s.set(ModKey::LeftShift, true);
    assert!(b.feed(KeyEventKind::FlagsChanged, KVK_SHIFT, None, s).is_none());
    let got = b.feed(KeyEventKind::FlagsChanged, KVK_SHIFT, None, SessionMods::default());
    let sc = got.expect("a shortcut");
    assert_eq!(sc.mods, vec![ModKey::LeftShift]);
    assert_eq!(sc.key, None);
}

#[test]
fn key_labels() {
    assert_eq!(keycode_label(0x00, Some("a")), "A");
    assert_eq!(keycode_label(0x31, Some(" ")), "Space");
    assert_eq!(keycode_label(0x7B, Some("\u{f702}")), "←");
    assert_eq!(keycode_label(0x24, Some("\r")), "key0x24");
    assert_eq!(keycode_label(0x05, None), "key0x05");
    assert_eq!(keycode_label(0x7A, Some("")), "key0x7A");
    assert_eq!(keycode_label(0x2B, Some("ß")), "SS");
}

#[test]
fn special_names() {
    assert_eq!(special_name("X", 0x24), Some("Return".to_string()));
    assert_eq!(special_name(" ", 0x99), Some("Space".to_string()));
    assert_eq!(special_name("X", 0x99), None);
    assert_eq!(special_name("", 0x7E), Some("↑".to_string()));
}

#[test]
fn shift_bit_is_independent_of_side() {
    let mut e = ShortcutEngine::new(Shortcut { mods: vec![ModKey::RightShift], key: None, key_label: None });
    let a = e.handle_event(KeyEventKind::FlagsChanged, KVK_SHIFT, FLAG_SHIFT, None);
    assert!(is_nothing(&a));
    let a = e.handle_event(KeyEventKind::FlagsChanged, 0x3C, FLAG_SHIFT, None);
    assert!(is_trigger(&a, Trigger::Start));
}

#[test]
fn edges_alternate_over_a_run_of_events() {
    let bind = Shortcut { mods: vec![ModKey::LeftOption], key: Some(49), key_label: Some("Space".to_string()) };
    let mut e = ShortcutEngine::new(bind);
    let events: Vec<(KeyEventKind, u16, u64, Option<&str>)> = vec![
        (KeyEventKind::KeyDown, 49, 0, Some(" ")),
        (KeyEventKind::FlagsChanged, KVK_OPTION, FLAG_OPTION, None),
        (KeyEventKind::KeyDown, 49, FLAG_OPTION, Some(" ")),
        (KeyEventKind::KeyDown, 49, FLAG_OPTION, Some(" ")),
        (KeyEventKind::FlagsChanged, KVK_OPTION, 0, None),
        (KeyEventKind::Other, 0, 0, None),
        (KeyEventKind::FlagsChanged, KVK_OPTION, FLAG_OPTION, None),
        (KeyEventKind::KeyUp, 49, FLAG_OPTION, None),
        (KeyEventKind::KeyDown, 49, FLAG_OPTION, Some(" ")),
    ];
    let mut edges = Vec::new();
    for (kind, code, flags, chars) in events {
        if let EngineAction::Trigger(t) = e.handle_event(kind, code, flags, chars) {
            edges.push(t);
        }
    }
    assert_eq!(edges, vec![Trigger::Start, Trigger::Stop, Trigger::Start, Trigger::Stop, Trigger::Start]);
    assert!(e.is_chord_active());
}

#[test]
fn labels_from_uppercased_text() {
    assert_eq!(label_from_upper(0x00, Some("A")), "A");
    assert_eq!(label_from_upper(0x31, Some(" ")), "Space");
    assert_eq!(label_from_upper(0x24, Some("\r")), "key0x24");
    assert_eq!(label_from_upper(0x05, None), "key0x05");
    assert_eq!(label_from_upper(0x2B, Some("SS")), "SS");
}

#[test]
fn recording_buffer_run_commits_on_release_with_first_key_and_label() {
    let mut b = RecordingBuf::default();
    let mut cmd = SessionMods::default();
    cmd.set(ModKey::LeftCommand, true);
    let mut both = cmd;
    both.set(ModKey::LeftOption, true);
    let mut opt = SessionMods::default();
    opt.set(ModKey::LeftOption, true);
    let none = SessionMods::default();
    assert!(b.feed(KeyEventKind::FlagsChanged, 0x37, None, cmd).is_none());
    assert!(b.feed(KeyEventKind::FlagsChanged, 0x3A, None, both).is_none());
    assert!(b.feed(KeyEventKind::KeyDown, 0x00, Some("A".to_string()), both).is_none());
    assert!(b.feed(KeyEventKind::KeyDown, 0x0B, Some("B".to_string()), both).is_none());
    assert!(b.feed(KeyEventKind::FlagsChanged, 0x37, None, opt).is_none());
    assert!(b.feed(KeyEventKind::FlagsChanged, 0x3A, None, none).is_none());
    let sc = b.feed(KeyEventKind::KeyUp, 0x0B, None, none).expect("a shortcut");
    assert_eq!(sc.mods, vec![ModKey::LeftCommand, ModKey::LeftOption]);
    assert_eq!(sc.key, Some(0x00));
    assert_eq!(sc.key_label, Some("A".to_string()));
}
