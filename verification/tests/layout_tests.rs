use simple_wm::{Client, Config, DisplayCommand, StackLayout, Tag};

fn bare_config(gaps: usize) -> Config {
    Config { gaps, shift_by: 10, key_bindings: Vec::new() }
}

fn tag_of(handles: &[u64]) -> Tag {
    let mut tag = Tag::new();
    for &h in handles {
        tag.add_new_window_if_not_exists(Client::new(h));
    }
    tag
}

#[test]
fn one_client_fills_the_screen_minus_gaps() {
    // gaps = 8, screen 800x600: bounds (8, 8, 784, 584).
    let mut layout = StackLayout::new();
    let mut tag = tag_of(&[1]);
    let cmds = layout.resize(&mut tag, &bare_config(8), 800, 600);
    assert_eq!(
        cmds,
        vec![DisplayCommand::MoveResize { window: 1, x: 8, y: 8, width: 784, height: 584 }]
    );
    let wins = tag.get_windows();
    assert_eq!((wins[0].x, wins[0].y, wins[0].width, wins[0].height), (8, 8, 784, 584));
}

#[test]
fn two_clients_split_into_master_and_stack() {
    // gaps = 8, screen 800x600: master (8, 8, 388, 584), stack (404, 8, 388, 584).
    let mut layout = StackLayout::new();
    let mut tag = tag_of(&[1, 2]);
    let cmds = layout.resize(&mut tag, &bare_config(8), 800, 600);
    // The master (most recently inserted) is placed first, then the stack.
    assert_eq!(
        cmds,
        vec![
            DisplayCommand::MoveResize { window: 2, x: 8, y: 8, width: 388, height: 584 },
            DisplayCommand::MoveResize { window: 1, x: 404, y: 8, width: 388, height: 584 },
        ]
    );
}

#[test]
fn three_clients_stack_two_on_the_right() {
    // gaps = 8, screen 800x400: two stack clients of height (400 - 24) / 2 = 188,
    // at y = 8 and y = 8 + 188 + 8 = 204.
    let mut layout = StackLayout::new();
    let mut tag = tag_of(&[1, 2, 3]);
    let cmds = layout.resize(&mut tag, &bare_config(8), 800, 400);
    let master_width = 800 / 2 - 8 / 2 - 8;
    assert_eq!(
        cmds,
        vec![
            DisplayCommand::MoveResize { window: 3, x: 8, y: 8, width: master_width, height: 384 },
            DisplayCommand::MoveResize {
                window: 2,
                x: master_width + 16,
                y: 8,
                width: master_width,
                height: 188,
            },
            DisplayCommand::MoveResize {
                window: 1,
                x: master_width + 16,
                y: 204,
                width: master_width,
                height: 188,
            },
        ]
    );
}

#[test]
fn empty_tag_issues_nothing() {
    let mut layout = StackLayout::new();
    let mut tag = Tag::new();
    let cmds = layout.resize(&mut tag, &bare_config(8), 800, 600);
    assert!(cmds.is_empty());
}

#[test]
fn oversized_gaps_skip_the_relayout() {
    // The gaps cannot fit the screen twice: no geometry is requested and the
    // clients keep their old bounds.
    let mut layout = StackLayout::new();
    let mut tag = tag_of(&[1]);
    let cmds = layout.resize(&mut tag, &bare_config(500), 800, 600);
    assert!(cmds.is_empty());
    let wins = tag.get_windows();
    assert_eq!((wins[0].x, wins[0].y, wins[0].width, wins[0].height), (0, 0, 0, 0));
}

#[test]
fn shift_left_rotates_and_retiles() {
    let mut layout = StackLayout::new();
    let mut tag = tag_of(&[1, 2]);
    let cmds = layout.shift_left(&mut tag, &bare_config(8), 10, 800, 600, None);
    // After the rotation the order is [2, 1]: client 1 is now the master.
    let wins = tag.get_windows();
    assert_eq!(wins[0].window, 2);
    assert_eq!(wins[1].window, 1);
    assert_eq!(
        cmds,
        vec![
            DisplayCommand::MoveResize { window: 1, x: 8, y: 8, width: 388, height: 584 },
            DisplayCommand::MoveResize { window: 2, x: 404, y: 8, width: 388, height: 584 },
        ]
    );
}

#[test]
fn shift_right_is_the_inverse_of_shift_left() {
    let mut layout = StackLayout::new();
    let mut tag = tag_of(&[1, 2, 3]);
    let _ = layout.shift_left(&mut tag, &bare_config(8), 10, 800, 600, None);
    let _ = layout.shift_right(&mut tag, &bare_config(8), 10, 800, 600, None);
    let wins = tag.get_windows();
    assert_eq!(wins[0].window, 1);
    assert_eq!(wins[1].window, 2);
    assert_eq!(wins[2].window, 3);
}
