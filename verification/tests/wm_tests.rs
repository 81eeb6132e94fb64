use simple_wm::{
    Action, BuiltinCommand, Config, DisplayCommand, Key, KeyBinding, Modifier, WindowManager,
    WmEvent, MAX_WORKSPACES,
};

const ROOT: u64 = 999;

fn fresh() -> WindowManager {
    WindowManager::new(Config::new(), ROOT, 800, 600)
}

#[test]
fn starts_empty_on_workspace_zero() {
    let wm = fresh();
    assert_eq!(wm.tags.len(), MAX_WORKSPACES);
    assert_eq!(wm.current_workspace, 0);
    assert_eq!(wm.current_window, None);
    for tag in &wm.tags {
        assert!(tag.get_windows().is_empty());
    }
}

#[test]
fn configure_tracks_and_tiles_the_window() {
    let mut wm = fresh();
    let cmds = wm.handle_event(WmEvent::ConfigureRequest { window: 1 });
    assert_eq!(
        cmds,
        vec![DisplayCommand::MoveResize { window: 1, x: 8, y: 8, width: 784, height: 584 }]
    );
    assert!(wm.tags[0].window_contained(1));
    // Placement does not assign focus.
    assert_eq!(wm.current_window, None);
}

#[test]
fn configure_twice_keeps_one_client() {
    let mut wm = fresh();
    let first = wm.handle_event(WmEvent::ConfigureRequest { window: 1 });
    let second = wm.handle_event(WmEvent::ConfigureRequest { window: 1 });
    assert_eq!(wm.tags[0].get_windows().len(), 1);
    assert_eq!(first, second);
}

#[test]
fn map_request_maps_and_focuses_a_member() {
    let mut wm = fresh();
    let _ = wm.handle_event(WmEvent::ConfigureRequest { window: 1 });
    let cmds = wm.handle_event(WmEvent::MapRequest { window: 1 });
    assert_eq!(
        cmds,
        vec![
            DisplayCommand::MapWindow { window: 1 },
            DisplayCommand::SetFocus { window: 1 },
            DisplayCommand::SetFocus { window: 1 },
        ]
    );
    assert_eq!(wm.current_window, Some(1));
}

#[test]
fn map_request_for_unknown_window_does_nothing() {
    let mut wm = fresh();
    let cmds = wm.handle_event(WmEvent::MapRequest { window: 77 });
    assert!(cmds.is_empty());
    assert_eq!(wm.current_window, None);
}

#[test]
fn unmap_scrubs_the_handle_from_every_workspace() {
    let mut wm = fresh();
    let _ = wm.handle_event(WmEvent::ConfigureRequest { window: 1 });
    let _ = wm.handle_event(WmEvent::MapRequest { window: 1 });
    let _ = wm.handle_event(WmEvent::UnmapNotify { window: 1 });
    for tag in &wm.tags {
        assert!(!tag.window_contained(1));
    }
}

#[test]
fn unmap_of_last_client_clears_the_focus() {
    let mut wm = fresh();
    let _ = wm.handle_event(WmEvent::ConfigureRequest { window: 1 });
    let _ = wm.handle_event(WmEvent::MapRequest { window: 1 });
    assert_eq!(wm.current_window, Some(1));
    let cmds = wm.handle_event(WmEvent::UnmapNotify { window: 1 });
    assert!(cmds.is_empty());
    assert_eq!(wm.current_window, None);
    // A Close on the empty workspace is a no-op, not an error.
    let cmds = wm.handle_event(WmEvent::KeyPress { keysym: Key::Q.keysym(), state: 8 | 1 });
    assert!(cmds.is_empty());
    assert_eq!(wm.current_window, None);
}

#[test]
fn unmap_refocuses_the_master() {
    let mut wm = fresh();
    let _ = wm.handle_event(WmEvent::ConfigureRequest { window: 1 });
    let _ = wm.handle_event(WmEvent::ConfigureRequest { window: 2 });
    let _ = wm.handle_event(WmEvent::ConfigureRequest { window: 3 });
    let cmds = wm.handle_event(WmEvent::UnmapNotify { window: 3 });
    // The remaining clients are re-tiled and the master (client 2) regains
    // the focus.
    assert_eq!(wm.current_window, Some(2));
    assert_eq!(
        cmds,
        vec![
            DisplayCommand::MoveResize { window: 2, x: 8, y: 8, width: 388, height: 584 },
            DisplayCommand::MoveResize { window: 1, x: 404, y: 8, width: 388, height: 584 },
            DisplayCommand::SetFocus { window: 2 },
        ]
    );
}

#[test]
fn unmap_of_unknown_window_retiles_and_refocuses() {
    let mut wm = fresh();
    let _ = wm.handle_event(WmEvent::ConfigureRequest { window: 1 });
    let cmds = wm.handle_event(WmEvent::UnmapNotify { window: 55 });
    assert_eq!(
        cmds,
        vec![
            DisplayCommand::MoveResize { window: 1, x: 8, y: 8, width: 784, height: 584 },
            DisplayCommand::SetFocus { window: 1 },
        ]
    );
}

#[test]
fn enter_notify_focuses_the_entered_window() {
    let mut wm = fresh();
    let cmds = wm.handle_event(WmEvent::EnterNotify { window: 12 });
    assert!(cmds.is_empty());
    assert_eq!(wm.current_window, Some(12));
}

#[test]
fn close_kills_the_focused_window() {
    let mut wm = fresh();
    let _ = wm.handle_event(WmEvent::EnterNotify { window: 5 });
    // Alt+Shift+q is the default Close binding.
    let cmds = wm.handle_event(WmEvent::KeyPress { keysym: Key::Q.keysym(), state: 8 | 1 });
    assert_eq!(cmds, vec![DisplayCommand::Kill { window: 5 }]);
}

#[test]
fn move_left_rotates_the_visible_workspace() {
    let mut wm = fresh();
    let _ = wm.handle_event(WmEvent::ConfigureRequest { window: 1 });
    let _ = wm.handle_event(WmEvent::ConfigureRequest { window: 2 });
    // Super+h is the default MoveLeft binding.
    let cmds = wm.handle_event(WmEvent::KeyPress { keysym: Key::H.keysym(), state: 64 });
    let wins = wm.tags[0].get_windows();
    assert_eq!(wins[0].window, 2);
    assert_eq!(wins[1].window, 1);
    assert_eq!(
        cmds,
        vec![
            DisplayCommand::MoveResize { window: 1, x: 8, y: 8, width: 388, height: 584 },
            DisplayCommand::MoveResize { window: 2, x: 404, y: 8, width: 388, height: 584 },
        ]
    );
}

#[test]
fn custom_action_only_requests_a_spawn() {
    let binding = KeyBinding {
        modifiers: vec![Modifier::Super],
        key: Key::F,
        action: Action::Custom(vec![String::from("surely-not-an-installed-command")]),
    };
    let config = Config { gaps: 8, shift_by: 10, key_bindings: vec![binding] };
    let mut wm = WindowManager::new(config, ROOT, 800, 600);
    let _ = wm.handle_event(WmEvent::ConfigureRequest { window: 1 });
    let before = wm.tags[0].get_windows().clone();
    let cmds = wm.handle_event(WmEvent::KeyPress { keysym: Key::F.keysym(), state: 64 });
    // The manager only hands back the spawn request; launching (and any
    // failure of it) is the shell's business and cannot stall the loop.
    assert_eq!(
        cmds,
        vec![DisplayCommand::Spawn {
            items: vec![String::from("surely-not-an-installed-command")],
        }]
    );
    assert_eq!(wm.tags[0].get_windows(), &before);
    // The next event is processed as usual.
    let cmds = wm.handle_event(WmEvent::ConfigureRequest { window: 2 });
    assert_eq!(cmds.len(), 2);
}

#[test]
fn empty_custom_command_line_is_ignored() {
    let binding = KeyBinding {
        modifiers: vec![Modifier::Super],
        key: Key::F,
        action: Action::Custom(Vec::new()),
    };
    let config = Config { gaps: 8, shift_by: 10, key_bindings: vec![binding] };
    let mut wm = WindowManager::new(config, ROOT, 800, 600);
    let cmds = wm.handle_event(WmEvent::KeyPress { keysym: Key::F.keysym(), state: 64 });
    assert!(cmds.is_empty());
}

#[test]
fn ignored_events_change_nothing() {
    let mut wm = fresh();
    let _ = wm.handle_event(WmEvent::ConfigureRequest { window: 1 });
    let cmds = wm.handle_event(WmEvent::Other);
    assert!(cmds.is_empty());
    assert_eq!(wm.tags[0].get_windows().len(), 1);
}

#[test]
fn root_window_never_takes_client_focus_on_unmap() {
    let mut wm = fresh();
    // Track the root handle itself in the workspace (degenerate but possible),
    // plus a normal window, then unmap the normal one: the master left behind
    // is the root, so the recorded focus must not change.
    let _ = wm.handle_event(WmEvent::ConfigureRequest { window: 1 });
    let _ = wm.handle_event(WmEvent::ConfigureRequest { window: ROOT });
    let _ = wm.handle_event(WmEvent::EnterNotify { window: 1 });
    let cmds = wm.handle_event(WmEvent::UnmapNotify { window: 1 });
    assert_eq!(wm.current_window, Some(1));
    assert_eq!(
        cmds,
        vec![DisplayCommand::MoveResize { window: ROOT, x: 8, y: 8, width: 784, height: 584 }]
    );
}
