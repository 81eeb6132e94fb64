use crate::data::Position;
use vstd::prelude::*;

verus! {

/// Pointer-drag arithmetic: the pure part of handling button and motion
/// events. The shell records the positions at the start of a drag and asks
/// here where the dragged frame belongs as the pointer moves.
pub struct EventHandler;

impl EventHandler {
    /// Where a dragged frame should be moved: the frame's position at the
    /// start of the drag, offset by how far the pointer has travelled since.
    pub fn drag_destination(
        drag_start_frame: &Position,
        drag_start: &Position,
        pointer: &Position,
    ) -> (p: Position)
        requires
            i32::MIN <= pointer.x - drag_start.x <= i32::MAX,
            i32::MIN <= pointer.y - drag_start.y <= i32::MAX,
            i32::MIN <= drag_start_frame.x + (pointer.x - drag_start.x) <= i32::MAX,
            i32::MIN <= drag_start_frame.y + (pointer.y - drag_start.y) <= i32::MAX,
        ensures
            p.x == drag_start_frame.x + (pointer.x - drag_start.x),
            p.y == drag_start_frame.y + (pointer.y - drag_start.y),
    {
        let delta = pointer.sub(*drag_start);
        drag_start_frame.add_vec(&delta)
    }
}

} // verus!
