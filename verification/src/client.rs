use crate::display::{CommandView, DisplayCommand};
use vstd::prelude::*;

verus! {

/// One managed window: its handle and the geometry last assigned to it.
///
/// Identity is the window handle; geometry starts at zero and is rewritten
/// only by the layout engine.
#[derive(Clone, Copy, PartialEq, Eq, Structural, Debug, Hash)]
pub struct Client {
    /// The handle the display server uses for this window.
    pub window: u64,
    pub x: i32,
    pub y: i32,
    pub width: i32,
    pub height: i32,
}

impl Client {
    /// A freshly tracked window: the given handle with zero geometry.
    pub fn new(window: u64) -> (c: Client)
        ensures
            c == (Client { window, x: 0, y: 0, width: 0, height: 0 }),
    {
        Client { window, x: 0, y: 0, width: 0, height: 0 }
    }

    /// Records new geometry and returns the one move-resize request that
    /// pushes it to the display server.
    pub fn set_bounds(&mut self, x: i32, y: i32, width: i32, height: i32) -> (cmd: DisplayCommand)
        ensures
            *final(self) == (Client { window: old(self).window, x, y, width, height }),
            cmd@ == (CommandView::MoveResize {
                window: old(self).window,
                x: x as int,
                y: y as int,
                width: width as int,
                height: height as int,
            }),
    {
        self.x = x;
        self.y = y;
        self.width = width;
        self.height = height;
        DisplayCommand::MoveResize { window: self.window, x, y, width, height }
    }

    /// Widens the window by `amount` and, when `move_x` is set, also slides it
    /// right by the same amount; returns the move-resize request.
    pub fn move_horizontal(&mut self, amount: i32, move_x: bool) -> (cmd: DisplayCommand)
        requires
            i32::MIN <= old(self).width + amount <= i32::MAX,
            move_x ==> i32::MIN <= old(self).x + amount <= i32::MAX,
        ensures
            final(self).window == old(self).window,
            final(self).width == old(self).width + amount,
            final(self).x == if move_x { old(self).x + amount } else { old(self).x as int },
            final(self).y == old(self).y,
            final(self).height == old(self).height,
            cmd@ == (CommandView::MoveResize {
                window: old(self).window,
                x: final(self).x as int,
                y: final(self).y as int,
                width: final(self).width as int,
                height: final(self).height as int,
            }),
    {
        self.width = self.width + amount;
        if move_x {
            self.x = self.x + amount;
        }
        DisplayCommand::MoveResize {
            window: self.window,
            x: self.x,
            y: self.y,
            width: self.width,
            height: self.height,
        }
    }

    /// The request that makes this window visible.
    pub fn map(&self) -> (cmd: DisplayCommand)
        ensures
            cmd@ == (CommandView::MapWindow { window: self.window }),
    {
        DisplayCommand::MapWindow { window: self.window }
    }

    /// The request that hides this window.
    pub fn unmap(&self) -> (cmd: DisplayCommand)
        ensures
            cmd@ == (CommandView::UnmapWindow { window: self.window }),
    {
        DisplayCommand::UnmapWindow { window: self.window }
    }
}

} // verus!
