use tattoy::config_input::{load_keybindings, KeyName, KeyPress, KeybindingConfigRaw, KeybindingError};
use tattoy::terminal_proxy::{KeybindingAction, Proxy};
use termwiz::input::Modifiers;

fn run(mods: Option<&str>, key: &str) -> KeyPress {
    let parsed = KeybindingConfigRaw { mods: mods.map(|m| m.to_string()), key: key.to_string() };
    parsed.try_into_key_event().unwrap()
}

fn named(name: &str) -> KeyName {
    KeyName::Named(name.to_string())
}

#[test]
fn keybinding_x() {
    // key = "x"
    let expected = KeyPress { modifiers: Modifiers::NONE.bits(), key: KeyName::Char('x') };

    let actual = run(None, "x");
    assert_eq!(actual, expected);
}

#[test]
fn keybinding_home() {
    // key = "Home"
    let expected = KeyPress { modifiers: Modifiers::NONE.bits(), key: named("Home") };
    let actual = run(None, "Home");
    assert_eq!(actual, expected);
}

#[test]
fn keybinding_shift_x() {
    // mods = "SHIFT", key = "x"
    let expected = KeyPress { modifiers: Modifiers::SHIFT.bits(), key: KeyName::Char('x') };
    let actual = run(Some("SHIFT"), "x");
    assert_eq!(actual, expected);
}

#[test]
fn keybinding_capital_x() {
    // key = "X"
    let expected = KeyPress { modifiers: Modifiers::NONE.bits(), key: KeyName::Char('X') };
    let actual = run(None, "X");
    assert_eq!(actual, expected);
}

#[test]
fn keybinding_ctrl_home() {
    // mods = "ALT", key = "Home"
    let expected = KeyPress { modifiers: Modifiers::ALT.bits(), key: named("Home") };
    let actual = run(Some("ALT"), "Home");
    assert_eq!(actual, expected);
}

#[test]
fn keybinding_ctrl_shift_x() {
    // mods = "CTRL|SHIFT", key = "x"
    let expected = KeyPress {
        modifiers: (Modifiers::CTRL | Modifiers::SHIFT).bits(),
        key: KeyName::Char('x'),
    };
    let actual = run(Some("CTRL|SHIFT"), "x");
    assert_eq!(actual, expected);
}

#[test]
fn keybinding_text_is_toml() {
    let binding = KeybindingConfigRaw { mods: None, key: "x".to_string() };
    let text: String = binding.key_event_toml().into_iter().collect();
    assert_eq!(text, "\n                modifiers = { bits = 0 }\n                key = { Char = \"x\" }\n            ");
    let named = KeybindingConfigRaw { mods: None, key: "PageUp".to_string() };
    let text: String = named.key_event_toml().into_iter().collect();
    assert!(text.contains("key = \"PageUp\""));
}

#[test]
fn bad_keybindings_are_refused() {
    let bad_modifier = KeybindingConfigRaw { mods: Some("CTRL|HYPER".to_string()), key: "x".to_string() };
    assert!(matches!(bad_modifier.try_into_key_event(), Err(KeybindingError::InvalidModifier(_))));
    let bad_key = KeybindingConfigRaw { mods: None, key: "NotAKey".to_string() };
    assert!(matches!(bad_key.try_into_key_event(), Err(KeybindingError::InvalidKey(_))));
    // Modifiers may have white space around the separators, and have aliases.
    assert_eq!(run(Some("CTRL | SHIFT"), "x").modifiers, 8 | 2);
    assert_eq!(run(Some("OPT|CMD|LEADER|NONE"), "x").modifiers, 4 | 16 | 128);
}

#[test]
fn other_key_codes_are_named_by_termwiz() {
    assert_eq!(run(None, "PageUp").key, named("PageUp"));
    assert_eq!(run(None, "Escape").key, named("Escape"));
}

#[test]
fn modifiers_are_applied_to_a_deserialised_key() {
    let refused = KeybindingConfigRaw::with_modifiers(Err("unknown key".to_string()), Some("ALT".to_string()));
    assert!(matches!(refused, Err(KeybindingError::InvalidKey(message)) if message == "unknown key"));

    let event = KeyPress { modifiers: Modifiers::SHIFT.bits(), key: named("Home") };
    let bad = KeybindingConfigRaw::with_modifiers(Ok(event.clone()), Some("HYPER".to_string()));
    assert!(matches!(bad, Err(KeybindingError::InvalidModifier(_))));

    let alt = KeybindingConfigRaw::with_modifiers(Ok(event.clone()), Some("ALT".to_string())).unwrap();
    assert_eq!(alt, KeyPress { modifiers: Modifiers::ALT.bits(), key: named("Home") });

    let plain = KeybindingConfigRaw::with_modifiers(Ok(event.clone()), None).unwrap();
    assert_eq!(plain, event);
}

fn binding(mods: Option<&str>, key: &str) -> KeybindingConfigRaw {
    KeybindingConfigRaw { mods: mods.map(|m| m.to_string()), key: key.to_string() }
}

#[test]
fn user_keybindings_take_effect() {
    let defaults = vec![
        (KeybindingAction::ToggleTattoy, binding(Some("CTRL"), "t")),
        (KeybindingAction::ScrollUp, binding(None, "PageUp")),
    ];
    let user = vec![
        (KeybindingAction::ToggleTattoy, binding(None, "x")),
        (KeybindingAction::ScrollExit, binding(None, "Escape")),
    ];
    let bound = load_keybindings(&defaults, &user).unwrap();
    let actions: Vec<KeybindingAction> = bound.iter().map(|b| b.0).collect();
    assert_eq!(
        actions,
        vec![KeybindingAction::ToggleTattoy, KeybindingAction::ScrollUp, KeybindingAction::ScrollExit]
    );
    assert_eq!(bound[0].1, KeyPress { modifiers: 0, key: KeyName::Char('x') });
    assert_eq!(bound[1].1, KeyPress { modifiers: 0, key: named("PageUp") });
    assert_eq!(bound[2].1, KeyPress { modifiers: 0, key: named("Escape") });
}

#[test]
fn every_keybinding_must_be_valid() {
    let defaults = vec![(KeybindingAction::ToggleTattoy, binding(Some("CTRL"), "t"))];
    let user = vec![(KeybindingAction::ToggleTattoy, binding(Some("HYPER"), "x"))];
    assert!(matches!(load_keybindings(&defaults, &user), Err(KeybindingError::InvalidModifier(_))));
    let bad_default = vec![(KeybindingAction::ScrollUp, binding(None, "NotAKey"))];
    assert!(matches!(load_keybindings(&bad_default, &Vec::new()), Err(KeybindingError::InvalidKey(_))));
}

#[test]
fn key_presses_find_their_action() {
    let bound = load_keybindings(
        &vec![
            (KeybindingAction::ToggleTattoy, binding(Some("CTRL"), "t")),
            (KeybindingAction::ScrollUp, binding(None, "PageUp")),
        ],
        &Vec::new(),
    )
    .unwrap();
    let page_up = KeyPress { modifiers: 0, key: named("PageUp") };
    assert_eq!(Proxy::keybinding_action(&bound, &page_up), Some(KeybindingAction::ScrollUp));
    let ctrl_t = KeyPress { modifiers: Modifiers::CTRL.bits(), key: KeyName::Char('t') };
    assert_eq!(Proxy::keybinding_action(&bound, &ctrl_t), Some(KeybindingAction::ToggleTattoy));
    let plain_t = KeyPress { modifiers: 0, key: KeyName::Char('t') };
    assert_eq!(Proxy::keybinding_action(&bound, &plain_t), None);
}
