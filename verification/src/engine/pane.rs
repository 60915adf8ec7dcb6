//! Panes: a cursor inside bounds, and the rules by which it moves and the
//! view scrolls. A pane supplies its cursor and bounds; the traits' default
//! methods move the cursor by the rules here.
use vstd::prelude::*;
use crate::engine::mode::Mode;
use crate::ui::key::Keys;
use crate::ui::layout::{Pos, Rect, Size};
use crate::ui::widget::BoxWidget;

verus! {

/// A cursor: where it is, the furthest column it has reached on the lines
/// it moved through, and how far the view is scrolled.
#[derive(Debug, Clone, Copy, PartialEq, Eq, Structural)]
pub struct Cursor {
    pub pos: Pos,
    pub max: Pos,
    pub scroll: Pos,
}

impl Default for Cursor {
    fn default() -> (c: Cursor)
        ensures
            c == (Cursor {
                pos: Pos { x: 0, y: 0 },
                max: Pos { x: 0, y: 0 },
                scroll: Pos { x: 0, y: 0 },
            }),
    {
        Cursor { pos: Pos { x: 0, y: 0 }, max: Pos { x: 0, y: 0 }, scroll: Pos { x: 0, y: 0 } }
    }
}

/// The larger of two numbers.
pub open spec fn max_u16(a: u16, b: u16) -> u16 {
    if a >= b { a } else { b }
}

/// The smaller of two numbers.
pub open spec fn min_u16(a: u16, b: u16) -> u16 {
    if a <= b { a } else { b }
}

/// The cursor one line up: its furthest column kept, its column the
/// furthest one cut to the width of the line above when that is known; a
/// cursor on the pane's top row stays and asks for a scroll instead.
pub open spec fn moved_up(c: Cursor, bounds: Rect, above: Option<Rect>) -> (Cursor, bool) {
    let mx = max_u16(c.pos.x, c.max.x);
    let x = match above {
        Some(a) => min_u16(mx, a.width),
        None => c.pos.x,
    };
    if c.pos.y > bounds.y {
        (Cursor { pos: Pos { x, y: (c.pos.y - 1) as u16 }, max: Pos { x: mx, y: c.max.y }, ..c }, false)
    } else {
        (Cursor { pos: Pos { x, y: c.pos.y }, max: Pos { x: mx, y: c.max.y }, ..c }, true)
    }
}

/// The cursor one line down: as up, with the line below; a cursor on the
/// pane's last row stays and asks for a scroll instead.
pub open spec fn moved_down(c: Cursor, bounds: Rect, below: Option<Rect>) -> (Cursor, bool) {
    let mx = max_u16(c.pos.x, c.max.x);
    let x = match below {
        Some(b) => min_u16(mx, min_u16(b.width, mx)),
        None => c.pos.x,
    };
    if c.pos.y < bounds.height {
        (Cursor { pos: Pos { x, y: (c.pos.y + 1) as u16 }, max: Pos { x: mx, y: c.max.y }, ..c }, false)
    } else {
        (Cursor { pos: Pos { x, y: c.pos.y }, max: Pos { x: mx, y: c.max.y }, ..c }, true)
    }
}

/// The cursor one column left, not left of the pane; its furthest column
/// brought back to it.
pub open spec fn moved_left(c: Cursor, bounds: Rect) -> Cursor {
    let x = max_u16(if c.pos.x > 0 { (c.pos.x - 1) as u16 } else { 0 }, bounds.x);
    Cursor { pos: Pos { x, y: c.pos.y }, max: Pos { x: min_u16(x, c.max.x), y: c.max.y }, ..c }
}

/// The cursor one column right, not past the pane's width; its furthest
/// column pushed on to it.
pub open spec fn moved_right(c: Cursor, bounds: Rect) -> Cursor {
    let x = min_u16(if c.pos.x < u16::MAX { (c.pos.x + 1) as u16 } else { u16::MAX }, bounds.width);
    Cursor { pos: Pos { x, y: c.pos.y }, max: Pos { x: max_u16(x, c.max.x), y: c.max.y }, ..c }
}

/// The view scrolled one line up, not above the top.
pub open spec fn scrolled_up(c: Cursor) -> Cursor {
    Cursor {
        scroll: Pos { x: c.scroll.x, y: if c.scroll.y > 0 { (c.scroll.y - 1) as u16 } else { 0 } },
        ..c
    }
}

/// The view scrolled one line down while the cursor's line in the text is
/// above the second-last line of a text `height` lines long.
pub open spec fn scrolled_down(c: Cursor, height: u16) -> Cursor {
    let limit: int = if height >= 2 { height - 2 } else { 0 };
    if c.scroll.y + c.pos.y < limit {
        Cursor { scroll: Pos { x: c.scroll.x, y: (c.scroll.y + 1) as u16 }, ..c }
    } else {
        c
    }
}

impl Cursor {
    /// This cursor moved one line up, and whether the view must scroll up.
    pub fn up(self, bounds: Rect, above: Option<Rect>) -> (r: (Cursor, bool))
        ensures
            r == moved_up(self, bounds, above),
    {
        let mut cursor = self;
        cursor.max.x = if cursor.pos.x >= cursor.max.x {
            cursor.pos.x
        } else {
            cursor.max.x
        };
        if let Some(above) = above {
            cursor.pos.x = if cursor.max.x <= above.width {
                cursor.max.x
            } else {
                above.width
            };
        }
        if cursor.pos.y > bounds.y {
            cursor.pos.y = cursor.pos.y - 1;
            (cursor, false)
        } else {
            (cursor, true)
        }
    }

    /// This cursor moved one line down, and whether the view must scroll
    /// down.
    pub fn down(self, bounds: Rect, below: Option<Rect>) -> (r: (Cursor, bool))
        ensures
            r == moved_down(self, bounds, below),
    {
        let mut cursor = self;
        cursor.max.x = if cursor.pos.x >= cursor.max.x {
            cursor.pos.x
        } else {
            cursor.max.x
        };
        if let Some(below) = below {
            let w = if below.width <= cursor.max.x {
                below.width
            } else {
                cursor.max.x
            };
            cursor.pos.x = if cursor.max.x <= w {
                cursor.max.x
            } else {
                w
            };
        }
        if cursor.pos.y < bounds.height {
            cursor.pos.y = cursor.pos.y + 1;
            (cursor, false)
        } else {
            (cursor, true)
        }
    }

    /// This cursor moved one column left.
    pub fn left(self, bounds: Rect) -> (r: Cursor)
        ensures
            r == moved_left(self, bounds),
    {
        let mut cursor = self;
        let x = cursor.pos.x.saturating_sub(1);
        cursor.pos.x = if x >= bounds.x {
            x
        } else {
            bounds.x
        };
        cursor.max.x = if cursor.pos.x <= cursor.max.x {
            cursor.pos.x
        } else {
            cursor.max.x
        };
        cursor
    }

    /// This cursor moved one column right.
    pub fn right(self, bounds: Rect) -> (r: Cursor)
        ensures
            r == moved_right(self, bounds),
    {
        let mut cursor = self;
        let x = cursor.pos.x.saturating_add(1);
        cursor.pos.x = if x <= bounds.width {
            x
        } else {
            bounds.width
        };
        cursor.max.x = if cursor.pos.x >= cursor.max.x {
            cursor.pos.x
        } else {
            cursor.max.x
        };
        cursor
    }

    /// This cursor with its view scrolled one line up.
    pub fn scrolled_up(self) -> (r: Cursor)
        ensures
            r == scrolled_up(self),
    {
        let mut c = self;
        c.scroll.y = c.scroll.y.saturating_sub(1);
        c
    }

    /// This cursor with its view scrolled one line down, in a text
    /// `bounds.height` lines long.
    pub fn scrolled_down(self, bounds: Size) -> (r: Cursor)
        ensures
            r == scrolled_down(self, bounds.height),
    {
        let mut c = self;
        let limit = bounds.height.saturating_sub(2);
        if (c.scroll.y as u32) + (c.pos.y as u32) < limit as u32 {
            c.scroll.y = c.scroll.y + 1;
        }
        c
    }
}

/// Where a pane keeps its cursor, and the bounds of the lines around it.
pub trait CursorPos: Sized {
    /// The pane's cursor, if it keeps one.
    spec fn cursor_of(&self) -> Option<Cursor>;

    /// This pane with `c` as its cursor; a pane that keeps none stays as
    /// it is.
    spec fn with_cursor(&self, c: Cursor) -> Self;

    /// The bounds of the line above the cursor, if any.
    spec fn above_of(&self) -> Option<Rect>;

    /// The bounds of the line below the cursor, if any.
    spec fn below_of(&self) -> Option<Rect>;

    /// When the bounds of the lines around the cursor can be computed.
    spec fn around_ok(&self) -> bool;

    /// The pane's cursor, if it has one.
    fn get_cursor_pos(&self) -> (r: Option<Cursor>)
        ensures
            r == self.cursor_of(),
    ;

    /// Replaces the pane's cursor.
    fn set_cursor_pos(&mut self, cursor: Cursor)
        ensures
            *final(self) == old(self).with_cursor(cursor),
            final(self).cursor_of() == if old(self).cursor_of() is Some {
                Some(cursor)
            } else {
                None
            },
    ;

    /// The bounds of the line above the cursor.
    fn get_line_above_bounds(&self) -> (r: Option<Rect>)
        requires
            self.around_ok(),
        ensures
            r == self.above_of(),
    ;

    /// The bounds of the line below the cursor.
    fn get_line_below_bounds(&self) -> (r: Option<Rect>)
        requires
            self.around_ok(),
        ensures
            r == self.below_of(),
    ;
}

/// The bounds of a pane on the screen.
pub trait PaneBounds {
    /// The bounds the cursor moves in, if any.
    spec fn pane_bounds_of(&self) -> Option<Rect>;

    /// When those bounds can be computed.
    spec fn pane_bounds_ok(&self) -> bool;

    fn get_pane_bounds(&self) -> (r: Option<Rect>)
        requires
            self.pane_bounds_ok(),
        ensures
            r == self.pane_bounds_of(),
    ;
}

/// The size of a pane's text.
pub trait BufferBounds {
    /// The size of the text, if known.
    spec fn buffer_bounds_of(&self) -> Option<Size>;

    /// When that size can be computed.
    spec fn buffer_bounds_ok(&self) -> bool;

    fn get_buffer_bounds(&self) -> (r: Option<Size>)
        requires
            self.buffer_bounds_ok(),
        ensures
            r == self.buffer_bounds_of(),
    ;
}

/// The pane with its view scrolled one line up.
pub open spec fn pane_scrolled_up<P: CursorPos>(p: P) -> P {
    match p.cursor_of() {
        Some(c) => p.with_cursor(scrolled_up(c)),
        None => p,
    }
}

/// The pane with its view scrolled one line down, within its text.
pub open spec fn pane_scrolled_down<P: CursorPos + BufferBounds>(p: P) -> P {
    match (p.cursor_of(), p.buffer_bounds_of()) {
        (Some(c), Some(b)) => p.with_cursor(scrolled_down(c, b.height)),
        _ => p,
    }
}

/// The pane with its cursor moved one line up, scrolling at the top.
pub open spec fn pane_moved_up<P: CursorPos + PaneBounds>(p: P) -> P {
    match (p.pane_bounds_of(), p.cursor_of()) {
        (Some(b), Some(c)) => {
            let (m, s) = moved_up(c, b, p.above_of());
            if s {
                pane_scrolled_up(p.with_cursor(m))
            } else {
                p.with_cursor(m)
            }
        },
        _ => p,
    }
}

/// The pane with its cursor moved one line down, scrolling at the bottom.
pub open spec fn pane_moved_down<P: CursorPos + PaneBounds + BufferBounds>(p: P) -> P {
    match (p.pane_bounds_of(), p.cursor_of()) {
        (Some(b), Some(c)) => {
            let (m, s) = moved_down(c, b, p.below_of());
            if s {
                pane_scrolled_down(p.with_cursor(m))
            } else {
                p.with_cursor(m)
            }
        },
        _ => p,
    }
}

/// When moving a pane's cursor down can be done: its bounds and the lines
/// around the cursor can be computed, and so can the size of its text once
/// the cursor moved, where it must scroll.
pub open spec fn moved_down_ok<P: CursorPos + PaneBounds + BufferBounds>(p: P) -> bool {
    &&& p.pane_bounds_ok()
    &&& p.around_ok()
    &&& match (p.pane_bounds_of(), p.cursor_of()) {
        (Some(b), Some(c)) => moved_down(c, b, p.below_of()).1 ==> p.with_cursor(
            moved_down(c, b, p.below_of()).0,
        ).buffer_bounds_ok(),
        _ => true,
    }
}

/// The pane with its cursor moved one column left.
pub open spec fn pane_moved_left<P: CursorPos + PaneBounds>(p: P) -> P {
    match (p.pane_bounds_of(), p.cursor_of()) {
        (Some(b), Some(c)) => p.with_cursor(moved_left(c, b)),
        _ => p,
    }
}

/// The pane with its cursor moved one column right.
pub open spec fn pane_moved_right<P: CursorPos + PaneBounds>(p: P) -> P {
    match (p.pane_bounds_of(), p.cursor_of()) {
        (Some(b), Some(c)) => p.with_cursor(moved_right(c, b)),
        _ => p,
    }
}

/// Scrolling a pane's view.
pub trait Scrollable: BufferBounds + CursorPos {
    fn scroll_up(&mut self)
        ensures
            *final(self) == pane_scrolled_up(*old(self)),
    {
        if let Some(c) = self.get_cursor_pos() {
            self.set_cursor_pos(c.scrolled_up());
        }
    }

    fn scroll_down(&mut self)
        requires
            old(self).buffer_bounds_ok(),
        ensures
            *final(self) == pane_scrolled_down(*old(self)),
    {
        let bounds = self.get_buffer_bounds();
        let Some(cursor) = self.get_cursor_pos() else {
            return;
        };
        let Some(bounds) = bounds else {
            return;
        };
        self.set_cursor_pos(cursor.scrolled_down(bounds));
    }

    /// Scrolling sideways does nothing.
    fn scroll_left(&mut self)
        ensures
            *final(self) == *old(self),
    {
    }

    /// Scrolling sideways does nothing.
    fn scroll_right(&mut self)
        ensures
            *final(self) == *old(self),
    {
    }
}

/// Moving a pane's cursor, scrolling its view at its edges.
pub trait CursorMovement: CursorPos + PaneBounds + Scrollable {
    fn move_cursor_up(&mut self)
        requires
            old(self).pane_bounds_ok(),
            old(self).around_ok(),
        ensures
            *final(self) == pane_moved_up(*old(self)),
    {
        let Some(bounds) = self.get_pane_bounds() else {
            return;
        };
        let above = self.get_line_above_bounds();
        let Some(cursor) = self.get_cursor_pos() else {
            return;
        };
        let (moved, scroll) = cursor.up(bounds, above);
        self.set_cursor_pos(moved);
        if scroll {
            self.scroll_up();
        }
    }

    fn move_cursor_down(&mut self)
        requires
            moved_down_ok(*old(self)),
        ensures
            *final(self) == pane_moved_down(*old(self)),
    {
        let Some(bounds) = self.get_pane_bounds() else {
            return;
        };
        let below = self.get_line_below_bounds();
        let Some(cursor) = self.get_cursor_pos() else {
            return;
        };
        let (moved, scroll) = cursor.down(bounds, below);
        self.set_cursor_pos(moved);
        if scroll {
            self.scroll_down();
        }
    }

    fn move_cursor_left(&mut self)
        requires
            old(self).pane_bounds_ok(),
        ensures
            *final(self) == pane_moved_left(*old(self)),
    {
        let Some(bounds) = self.get_pane_bounds() else {
            return;
        };
        let Some(cursor) = self.get_cursor_pos() else {
            return;
        };
        self.set_cursor_pos(cursor.left(bounds));
    }

    fn move_cursor_right(&mut self)
        requires
            old(self).pane_bounds_ok(),
        ensures
            *final(self) == pane_moved_right(*old(self)),
    {
        let Some(bounds) = self.get_pane_bounds() else {
            return;
        };
        let Some(cursor) = self.get_cursor_pos() else {
            return;
        };
        self.set_cursor_pos(cursor.right(bounds));
    }
}

/// Editing a pane's text.
pub trait BufferMut {
    /// Whether typing `c` at the cursor can be done.
    spec fn insert_ok(&self, c: char) -> bool;

    /// Types `c` at the cursor.
    fn insert_char(&mut self, c: char)
        requires
            old(self).insert_ok(c),
    ;
}

/// A pane of the editor: it moves a cursor, scrolls, takes text, draws
/// itself and reacts to keys.
pub trait Pane: CursorMovement + Scrollable + BufferMut {
    /// Whether the pane can be drawn.
    spec fn view_ok(&self) -> bool;

    /// The widget that draws the pane.
    fn view(&self) -> BoxWidget
        requires
            self.view_ok(),
    ;

    /// Reacts to a key press in `mode`.
    fn update(&mut self, mode: Mode, keys: Keys);

    /// Gives the pane the focus, or takes it away.
    fn set_focused(&mut self, focused: bool);

    /// Whether the pane has the focus.
    fn is_active(&self) -> bool;
}

} // verus!
