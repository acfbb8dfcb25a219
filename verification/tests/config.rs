use hush::config::{config_path, BackendKind, Config, ModKey, ParakeetModel, Shortcut};

#[test]
fn modkey_names_and_aliases() {
    assert_eq!(ModKey::LeftOption.as_str(), "left_option");
    assert_eq!(ModKey::parse("lalt"), Some(ModKey::LeftOption));
    assert_eq!(ModKey::parse("caps"), Some(ModKey::CapsLock));
    assert_eq!(ModKey::parse("LEFT_CMD"), None);
    assert_eq!(ModKey::RightCommand.pretty(), "R⌘");
    for m in [
        ModKey::Fn,
        ModKey::LeftCommand,
        ModKey::RightCommand,
        ModKey::LeftOption,
        ModKey::RightOption,
        ModKey::LeftControl,
        ModKey::RightControl,
        ModKey::LeftShift,
        ModKey::RightShift,
        ModKey::CapsLock,
    ] {
        assert_eq!(ModKey::parse(m.as_str()), Some(m));
    }
}

#[test]
fn shortcut_pretty() {
    assert_eq!(Shortcut::fn_only().pretty(), "fn");
    let sc = Shortcut { mods: vec![ModKey::LeftCommand], key: Some(49), key_label: Some("Space".to_string()) };
    assert_eq!(sc.pretty(), "L⌘ + Space");
    let none = Shortcut { mods: vec![], key: Some(3), key_label: None };
    assert_eq!(none.pretty(), "(none)");
}

#[test]
fn shortcut_tokens() {
    let sc = Shortcut { mods: vec![ModKey::LeftOption], key: Some(49), key_label: Some("Space".to_string()) };
    assert_eq!(sc.to_token(), "left_option+key:49:Space");
    assert_eq!(Shortcut::from_token("left_option+key:49:Space"), Some(sc));
    assert_eq!(Shortcut::fn_only().to_token(), "fn");
    let two = Shortcut::from_token(" left_cmd + right_cmd + lcmd ").unwrap();
    assert_eq!(two.mods, vec![ModKey::LeftCommand, ModKey::RightCommand]);
    assert_eq!(Shortcut::from_token("key:7"), Some(Shortcut { mods: vec![], key: Some(7), key_label: None }));
    assert_eq!(Shortcut::from_token("key:65536"), None);
    assert_eq!(Shortcut::from_token("hyper"), None);
    assert_eq!(Shortcut::from_token(" + "), None);
    assert_eq!(Shortcut::from_token(""), None);
}

#[test]
fn token_round_trip_example() {
    let sc = Shortcut {
        mods: vec![ModKey::RightShift, ModKey::Fn],
        key: Some(122),
        key_label: Some("F1".to_string()),
    };
    assert_eq!(Shortcut::from_token(&sc.to_token()), Some(sc));
}

#[test]
fn backend_names() {
    assert_eq!(BackendKind::Whisper.as_str(), "whisper");
    assert_eq!(BackendKind::parse("parakeet"), Some(BackendKind::Parakeet));
    assert_eq!(BackendKind::parse("Whisper"), None);
}

#[test]
fn config_defaults_and_stored_fields() {
    let d = Config::default();
    assert_eq!(d.shortcut, Shortcut::fn_only());
    assert_eq!(d.backend, BackendKind::Parakeet);
    assert_eq!(d.parakeet_model, ParakeetModel::V06b);
    let c = Config::from_stored(Some("left_cmd+key:49:Space"), None, Some("whisper"));
    assert_eq!(c.backend, BackendKind::Whisper);
    assert_eq!(c.shortcut.to_token(), "left_cmd+key:49:Space");
    let c = Config::from_stored(Some("nonsense"), Some("parakeet"), Some("whisper"));
    assert_eq!(c.shortcut, Shortcut::fn_only());
    assert_eq!(c.backend, BackendKind::Parakeet);
    let c = Config::from_stored(None, Some("bogus"), Some("bogus"));
    assert_eq!(c.backend, BackendKind::Parakeet);
    let (token, backend) = c.stored_fields();
    assert_eq!(token, "fn");
    assert_eq!(backend, "parakeet");
}

#[test]
fn config_path_under_home() {
    assert_eq!(config_path("/Users/ann"), "/Users/ann/.config/hush/config.toml");
    assert_eq!(config_path("/Users/ann/"), "/Users/ann/.config/hush/config.toml");
}

#[test]
fn space_names_the_space_bar() {
    let sc = Shortcut::from_token("left_cmd+space").unwrap();
    assert_eq!(sc.mods, vec![ModKey::LeftCommand]);
    assert_eq!(sc.key, Some(49));
    assert_eq!(sc.key_label, Some("Space".to_string()));
    assert_eq!(sc.to_token(), "left_cmd+key:49:Space");
    assert_eq!(Shortcut::from_token("left_option+space").unwrap().pretty(), "L⌥ + Space");
    assert_eq!(Shortcut::from_token("Space"), None);
}
