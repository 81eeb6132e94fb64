use simple_wm::{
    Action, BuiltinCommand, Config, DisplayCommand, Key, KeyBinding, KeyCombination, Modifier,
    WindowManager, WmEvent,
};

const SHIFT: u32 = 1;
const ALT: u32 = 8;
const SUPER: u32 = 64;

fn manager_with(bindings: Vec<KeyBinding>) -> WindowManager {
    let config = Config { gaps: 8, shift_by: 10, key_bindings: bindings };
    WindowManager::new(config, 999, 800, 600)
}

#[test]
fn modifier_masks_are_the_x_bits() {
    assert_eq!(Modifier::Shift.mask(), SHIFT);
    assert_eq!(Modifier::Alt.mask(), ALT);
    assert_eq!(Modifier::Super.mask(), SUPER);
}

#[test]
fn from_event_reads_the_state_bits() {
    let mods = Modifier::from_event(ALT | SHIFT | SUPER);
    assert_eq!(mods, vec![Modifier::Alt, Modifier::Shift, Modifier::Super]);
    let mods = Modifier::from_event(SUPER);
    assert_eq!(mods, vec![Modifier::Super]);
    let mods = Modifier::from_event(0);
    assert!(mods.is_empty());
}

#[test]
fn mask_ignores_modifier_order() {
    // A binding registered with {Super, Shift} matches an observed set
    // enumerated as {Shift, Super}.
    let a = KeyCombination { modifiers: vec![Modifier::Super, Modifier::Shift], key: Key::Q };
    let b = KeyCombination { modifiers: vec![Modifier::Shift, Modifier::Super], key: Key::Q };
    assert_eq!(a.get_mask(), b.get_mask());
}

#[test]
fn mask_ignores_duplicates() {
    let a = KeyCombination { modifiers: vec![Modifier::Alt, Modifier::Alt], key: Key::H };
    let b = KeyCombination { modifiers: vec![Modifier::Alt], key: Key::H };
    assert_eq!(a.get_mask(), b.get_mask());
}

#[test]
fn binding_with_reordered_modifiers_still_matches() {
    let binding = KeyBinding {
        modifiers: vec![Modifier::Super, Modifier::Shift],
        key: Key::Q,
        action: Action::Builtin(BuiltinCommand::Close),
    };
    let mut wm = manager_with(vec![binding]);
    // Focus some window so Close has something to kill.
    let _ = wm.handle_event(WmEvent::EnterNotify { window: 5 });
    // The event reports the same set in the other order: Shift before Super.
    let cmds = wm.handle_event(WmEvent::KeyPress { keysym: Key::Q.keysym(), state: SHIFT | SUPER });
    assert_eq!(cmds, vec![DisplayCommand::Kill { window: 5 }]);
}

#[test]
fn unmatched_key_does_nothing() {
    let binding = KeyBinding {
        modifiers: vec![Modifier::Super],
        key: Key::H,
        action: Action::Builtin(BuiltinCommand::Close),
    };
    let mut wm = manager_with(vec![binding]);
    let _ = wm.handle_event(WmEvent::EnterNotify { window: 5 });
    // Wrong key.
    let cmds = wm.handle_event(WmEvent::KeyPress { keysym: Key::L.keysym(), state: SUPER });
    assert!(cmds.is_empty());
    // Wrong modifiers.
    let cmds = wm.handle_event(WmEvent::KeyPress { keysym: Key::H.keysym(), state: ALT });
    assert!(cmds.is_empty());
}

#[test]
fn last_registered_binding_wins() {
    let first = KeyBinding {
        modifiers: vec![Modifier::Super],
        key: Key::H,
        action: Action::Builtin(BuiltinCommand::MoveLeft),
    };
    let second = KeyBinding {
        modifiers: vec![Modifier::Super],
        key: Key::H,
        action: Action::Builtin(BuiltinCommand::Close),
    };
    let mut wm = manager_with(vec![first, second]);
    let _ = wm.handle_event(WmEvent::EnterNotify { window: 5 });
    let cmds = wm.handle_event(WmEvent::KeyPress { keysym: Key::H.keysym(), state: SUPER });
    // The later binding (Close) is the one that runs.
    assert_eq!(cmds, vec![DisplayCommand::Kill { window: 5 }]);
}

#[test]
fn default_config_holds_the_four_bindings() {
    let config = Config::new();
    assert_eq!(config.gaps, 8);
    assert_eq!(config.shift_by, 10);
    assert_eq!(config.key_bindings.len(), 4);
    let b = &config.key_bindings[0];
    assert_eq!(b.modifiers, vec![Modifier::Alt, Modifier::Shift]);
    assert_eq!(b.key, Key::Q);
    assert!(matches!(b.action, Action::Builtin(BuiltinCommand::Close)));
    let b = &config.key_bindings[1];
    assert_eq!(b.modifiers, vec![Modifier::Super]);
    assert_eq!(b.key, Key::H);
    assert!(matches!(b.action, Action::Builtin(BuiltinCommand::MoveLeft)));
    let b = &config.key_bindings[2];
    assert_eq!(b.modifiers, vec![Modifier::Super]);
    assert_eq!(b.key, Key::L);
    assert!(matches!(b.action, Action::Builtin(BuiltinCommand::MoveRight)));
    let b = &config.key_bindings[3];
    assert_eq!(b.modifiers, vec![Modifier::Alt, Modifier::Shift]);
    assert_eq!(b.key, Key::F);
    match &b.action {
        Action::Custom(items) => assert_eq!(items, &vec![String::from("dolphin")]),
        _ => panic!("expected a custom action"),
    }
}

#[test]
fn grab_list_pairs_keysyms_with_masks() {
    let config = Config::new();
    let grabs = config.grab_list();
    // Alt|Shift is mask 9, Super is mask 64.
    assert_eq!(grabs, vec![(0x71, 9), (0x68, 64), (0x6c, 64), (0x66, 9)]);
}

#[test]
fn keysyms_are_the_latin_codes() {
    assert_eq!(Key::Q.keysym(), 0x71);
    assert_eq!(Key::H.keysym(), 0x68);
    assert_eq!(Key::L.keysym(), 0x6c);
    assert_eq!(Key::F.keysym(), 0x66);
}
