//! The cursor on the screen of a peer, as the machine that controls it tracks it.
use crate::protocol::MouseMoveEvent;
use crate::scale;
use vstd::prelude::*;

verus! {

/// A position on a screen.
#[derive(Debug, Clone, Copy, PartialEq, Eq, Structural)]
pub struct Point {
    pub x: i32,
    pub y: i32,
}

/// A cursor on a remote screen, and the bounds of that screen.
#[derive(Debug, Clone, Copy, PartialEq, Eq, Structural)]
pub struct RemoteCursor {
    pub x: i32,
    pub y: i32,
    pub left: i32,
    pub top: i32,
    /// One beyond the rightmost column.
    pub right: i32,
    /// One beyond the lowest row.
    pub bottom: i32,
}

impl RemoteCursor {
    /// There is a pixel on the screen.
    pub open spec fn has_room(self) -> bool {
        self.left < self.right && self.top < self.bottom
    }

    /// The cursor is on the screen.
    pub open spec fn on_screen(self) -> bool {
        self.left <= self.x < self.right && self.top <= self.y < self.bottom
    }

    /// The cursor after a movement, held on the screen.
    pub open spec fn moved(self, dx: int, dy: int) -> RemoteCursor {
        RemoteCursor {
            x: scale::clamp(self.x + dx, self.left as int, self.right - 1) as i32,
            y: scale::clamp(self.y + dy, self.top as int, self.bottom - 1) as i32,
            ..self
        }
    }

    /// A cursor before any screen is known.
    pub fn new() -> (r: Self)
        ensures
            r == (RemoteCursor { x: 0, y: 0, left: 0, top: 0, right: 1920, bottom: 1080 }),
            r.has_room(),
    {
        RemoteCursor { x: 0, y: 0, left: 0, top: 0, right: 1920, bottom: 1080 }
    }

    /// A cursor at its entry point on a screen.
    pub fn at(entry_x: i32, entry_y: i32, x: i32, y: i32, width: i32, height: i32) -> (r: Self)
        requires
            i32::MIN <= x + width <= i32::MAX,
            i32::MIN <= y + height <= i32::MAX,
        ensures
            r.x == entry_x,
            r.y == entry_y,
            r.left == x,
            r.top == y,
            r.right == x + width,
            r.bottom == y + height,
    {
        RemoteCursor {
            x: entry_x,
            y: entry_y,
            left: x,
            top: y,
            right: x + width,
            bottom: y + height,
        }
    }

    /// Whether there is a pixel on the screen.
    pub fn is_roomy(&self) -> (r: bool)
        ensures
            r == self.has_room(),
    {
        self.left < self.right && self.top < self.bottom
    }

    /// Move the cursor, held on the screen. Returns where it is.
    pub fn move_by(&mut self, dx: i64, dy: i64) -> (r: MouseMoveEvent)
        requires
            old(self).has_room(),
            -0x1_0000_0000 <= dx <= 0x1_0000_0000,
            -0x1_0000_0000 <= dy <= 0x1_0000_0000,
        ensures
            *final(self) == old(self).moved(dx as int, dy as int),
            final(self).on_screen(),
            r == (MouseMoveEvent { x: final(self).x, y: final(self).y }),
    {
        let x: i64 = self.x as i64 + dx;
        let y: i64 = self.y as i64 + dy;
        self.x = hold(x, self.left, self.right);
        self.y = hold(y, self.top, self.bottom);
        MouseMoveEvent { x: self.x, y: self.y }
    }
}

fn hold(v: i64, low: i32, end: i32) -> (r: i32)
    requires
        low < end,
    ensures
        r == scale::clamp(v as int, low as int, end - 1),
        low <= r < end,
{
    if v < low as i64 {
        low
    } else if v >= end as i64 {
        end - 1
    } else {
        v as i32
    }
}

/// The cursor goes as far as it is moved, as long as it stays on the screen, and else to the side
/// that it would have gone beyond. The two directions do not affect each other, and the screen
/// stays what it is.
pub proof fn lemma_cursor_moves(c: RemoteCursor, dx: int, dy: int)
    requires
        c.has_room(),
    ensures
        c.left <= c.x + dx < c.right ==> c.moved(dx, dy).x == c.x + dx,
        c.x + dx < c.left ==> c.moved(dx, dy).x == c.left,
        c.x + dx >= c.right ==> c.moved(dx, dy).x == c.right - 1,
        c.top <= c.y + dy < c.bottom ==> c.moved(dx, dy).y == c.y + dy,
        c.y + dy < c.top ==> c.moved(dx, dy).y == c.top,
        c.y + dy >= c.bottom ==> c.moved(dx, dy).y == c.bottom - 1,
        c.moved(dx, dy).left == c.left && c.moved(dx, dy).right == c.right,
        c.moved(dx, dy).top == c.top && c.moved(dx, dy).bottom == c.bottom,
{
}

/// A cursor is on the screen from the first column and row up to the last ones, and where one is
/// there is room.
pub proof fn lemma_on_screen(c: RemoteCursor)
    ensures
        c.on_screen() <==> c.left <= c.x && c.x < c.right && c.top <= c.y && c.y < c.bottom,
        c.on_screen() ==> c.has_room(),
        c.has_room() <==> c.right - c.left >= 1 && c.bottom - c.top >= 1,
{
}

} // verus!
