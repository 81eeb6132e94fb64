use simple_wm::{Client, EventHandler, Position, Size, Vector2D};

#[test]
fn new_client_has_zero_geometry() {
    let c = Client::new(17);
    assert_eq!(c.window, 17);
    assert_eq!((c.x, c.y, c.width, c.height), (0, 0, 0, 0));
}

#[test]
fn set_bounds_records_and_requests_the_geometry() {
    let mut c = Client::new(17);
    let cmd = c.set_bounds(10, 20, 300, 400);
    assert_eq!((c.x, c.y, c.width, c.height), (10, 20, 300, 400));
    assert_eq!(
        cmd,
        simple_wm::DisplayCommand::MoveResize { window: 17, x: 10, y: 20, width: 300, height: 400 }
    );
}

#[test]
fn move_horizontal_widens_and_optionally_slides() {
    let mut c = Client::new(1);
    let _ = c.set_bounds(10, 10, 100, 100);
    let _ = c.move_horizontal(5, false);
    assert_eq!((c.x, c.width), (10, 105));
    let cmd = c.move_horizontal(5, true);
    assert_eq!((c.x, c.width), (15, 110));
    assert_eq!(
        cmd,
        simple_wm::DisplayCommand::MoveResize { window: 1, x: 15, y: 10, width: 110, height: 100 }
    );
}

#[test]
fn positions_subtract_into_vectors() {
    let a = Position::new(10, 20);
    let b = Position::new(3, 5);
    let v = a.sub(b);
    assert_eq!((v.x, v.y), (7, 15));
}

#[test]
fn position_add_vec_translates() {
    let p = Position::new(10, 20).add_vec(&Vector2D::new(-3, 4));
    assert_eq!((p.x, p.y), (7, 24));
}

#[test]
fn size_add_vec_grows_both_components() {
    let s = Size::new(100, 50).add_vec(&Vector2D::new(10, 20));
    assert_eq!(s.width, 110);
    assert_eq!(s.height, 70);
}

#[test]
fn defaults_are_zero() {
    let s: Size = Default::default();
    assert_eq!((s.width, s.height), (0, 0));
    let p: Position = Default::default();
    assert_eq!((p.x, p.y), (0, 0));
}

#[test]
fn drag_destination_follows_the_pointer() {
    let start_frame = Position::new(100, 100);
    let drag_start = Position::new(500, 500);
    let pointer = Position::new(510, 480);
    let p = EventHandler::drag_destination(&start_frame, &drag_start, &pointer);
    assert_eq!((p.x, p.y), (110, 80));
}
