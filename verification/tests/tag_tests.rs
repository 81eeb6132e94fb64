use simple_wm::{Client, Tag};

#[test]
fn add_same_handle_twice_keeps_one_member() {
    let mut tag = Tag::new();
    tag.add_new_window_if_not_exists(Client::new(42));
    tag.add_new_window_if_not_exists(Client::new(42));
    let wins = tag.get_windows();
    assert_eq!(wins.len(), 1);
    assert_eq!(wins[0].window, 42);
}

#[test]
fn add_keeps_insertion_order() {
    let mut tag = Tag::new();
    tag.add_new_window_if_not_exists(Client::new(1));
    tag.add_new_window_if_not_exists(Client::new(2));
    tag.add_new_window_if_not_exists(Client::new(3));
    let wins = tag.get_windows();
    assert_eq!(wins.len(), 3);
    assert_eq!(wins[0].window, 1);
    assert_eq!(wins[1].window, 2);
    assert_eq!(wins[2].window, 3);
}

#[test]
fn window_contained_reports_membership() {
    let mut tag = Tag::new();
    assert!(!tag.window_contained(7));
    tag.add_new_window_if_not_exists(Client::new(7));
    assert!(tag.window_contained(7));
    assert!(!tag.window_contained(8));
}

#[test]
fn remove_deletes_the_member() {
    let mut tag = Tag::new();
    tag.add_new_window_if_not_exists(Client::new(1));
    tag.add_new_window_if_not_exists(Client::new(2));
    tag.remove_window(1);
    let wins = tag.get_windows();
    assert_eq!(wins.len(), 1);
    assert_eq!(wins[0].window, 2);
}

#[test]
fn remove_absent_handle_is_a_noop() {
    let mut tag = Tag::new();
    tag.add_new_window_if_not_exists(Client::new(1));
    tag.remove_window(99);
    assert_eq!(tag.get_windows().len(), 1);
}

#[test]
fn rotate_left_moves_oldest_to_master() {
    let mut tag = Tag::new();
    tag.add_new_window_if_not_exists(Client::new(1));
    tag.add_new_window_if_not_exists(Client::new(2));
    tag.add_new_window_if_not_exists(Client::new(3));
    tag.rotate_left();
    let wins = tag.get_windows();
    assert_eq!(wins[0].window, 2);
    assert_eq!(wins[1].window, 3);
    assert_eq!(wins[2].window, 1);
}

#[test]
fn rotate_right_undoes_rotate_left() {
    let mut tag = Tag::new();
    tag.add_new_window_if_not_exists(Client::new(1));
    tag.add_new_window_if_not_exists(Client::new(2));
    tag.add_new_window_if_not_exists(Client::new(3));
    tag.rotate_left();
    tag.rotate_right();
    let wins = tag.get_windows();
    assert_eq!(wins[0].window, 1);
    assert_eq!(wins[1].window, 2);
    assert_eq!(wins[2].window, 3);
}
