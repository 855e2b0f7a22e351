//! Where the login box goes on the screen: centred, when the screen is
//! large enough, by ratatui's layout solver.
use vstd::prelude::*;
use ratatui::layout::{Constraint, Direction, Layout, Rect};

verus! {

/// A rectangle of terminal cells.
#[derive(Clone, Copy, PartialEq, Eq, Structural)]
pub struct Area {
    pub x: u16,
    pub y: u16,
    pub width: u16,
    pub height: u16,
}

impl View for Area {
    type V = (u16, u16, u16, u16);

    open spec fn view(&self) -> (u16, u16, u16, u16) {
        (self.x, self.y, self.width, self.height)
    }
}

/// Rectangles by their views.
pub open spec fn areas_view(v: Seq<Area>) -> Seq<(u16, u16, u16, u16)> {
    v.map_values(|a: Area| a@)
}

/// What ratatui's `Layout::split` makes of an area split vertically (or
/// horizontally) by the constraints `Length(first)`, `Length(second)`,
/// `Min(0)`, each rectangle as `(x, y, width, height)`.
pub uninterp spec fn layout_split(
    area: (u16, u16, u16, u16),
    vertical: bool,
    first: u16,
    second: u16,
) -> Seq<(u16, u16, u16, u16)>;

/// The two lengths fit in the area along the split, and the area does not
/// reach past the last cell coordinate in that direction.
pub open spec fn lengths_fit(area: (u16, u16, u16, u16), vertical: bool, first: u16, second: u16) -> bool {
    if vertical {
        first + second <= area.3 && area.1 + area.3 <= u16::MAX
    } else {
        first + second <= area.2 && area.0 + area.2 <= u16::MAX
    }
}

/// The rectangle of `size` cells that starts `offset` cells into the area
/// along the split and spans the whole area across it.
pub open spec fn band(area: (u16, u16, u16, u16), vertical: bool, offset: u16, size: u16) -> (
    u16,
    u16,
    u16,
    u16,
) {
    if vertical {
        (area.0, (area.1 + offset) as u16, area.2, size)
    } else {
        ((area.0 + offset) as u16, area.1, size, area.3)
    }
}

/// Wraps `Layout::split` for the constraints `Length(first)`,
/// `Length(second)`, `Min(0)` in the given direction (default `Flex::Start`,
/// no margin, no spacing). The contract claims that the result is
/// `layout_split` of the arguments; that, as the solver gives one rectangle
/// per constraint, there are three; and that where both lengths fit, the
/// first two rectangles take exactly those lengths from the start of the
/// area, one after the other, as the required length and empty-spacer
/// constraints then leave no other solution.
#[verifier::external_body]
fn split_lengths(area: Area, vertical: bool, first: u16, second: u16) -> (r: Vec<Area>)
    ensures
        areas_view(r@) == layout_split(area@, vertical, first, second),
        r@.len() == 3,
        lengths_fit(area@, vertical, first, second) ==> r@[0]@ == band(area@, vertical, 0, first),
        lengths_fit(area@, vertical, first, second) ==> r@[1]@ == band(
            area@,
            vertical,
            first,
            second,
        ),
{
    let direction = if vertical {
        Direction::Vertical
    } else {
        Direction::Horizontal
    };
    let rect = Rect { x: area.x, y: area.y, width: area.width, height: area.height };
    Layout::default().direction(direction).constraints(
        [Constraint::Length(first), Constraint::Length(second), Constraint::Min(0)],
    ).split(rect).iter().map(|r| Area { x: r.x, y: r.y, width: r.width, height: r.height }).collect()
}

/// The area of `width` by `height` cells in the middle of `r`, as the
/// layout solver places it: the middle of three rows whose first is half
/// the spare height, then the middle of three columns whose first is half
/// the spare width. Where `r` is smaller than asked in either direction,
/// `r` itself.
pub open spec fn centered_rect_spec(width: u16, height: u16, r: (u16, u16, u16, u16)) -> (
    u16,
    u16,
    u16,
    u16,
) {
    if r.2 < width || r.3 < height {
        r
    } else {
        let rows = layout_split(r, true, ((r.3 - height) / 2) as u16, height);
        layout_split(rows[1], false, ((r.2 - width) / 2) as u16, width)[1]
    }
}

/// The box of `width` by `height` cells in the middle of `r`, half the
/// spare width (rounded down) from its left edge and half the spare height
/// from its top; `r` itself where it is too small.
pub open spec fn centered_box(width: u16, height: u16, r: (u16, u16, u16, u16)) -> (
    u16,
    u16,
    u16,
    u16,
) {
    if r.2 < width || r.3 < height {
        r
    } else {
        ((r.0 + (r.2 - width) / 2) as u16, (r.1 + (r.3 - height) / 2) as u16, width, height)
    }
}

/// The area where a box of `width` by `height` cells is drawn on `r`:
/// centred, where `r` does not reach past the last cell coordinate.
pub fn centered_rect(width: u16, height: u16, r: Area) -> (c: Area)
    ensures
        c@ == centered_rect_spec(width, height, r@),
        r.x + r.width <= u16::MAX && r.y + r.height <= u16::MAX ==> c@ == centered_box(
            width,
            height,
            r@,
        ),
{
    if r.width < width || r.height < height {
        return r;
    }
    let rows = split_lengths(r, true, (r.height - height) / 2, height);
    let middle = rows[1];
    assert(middle@ == areas_view(rows@)[1]);
    let columns = split_lengths(middle, false, (r.width - width) / 2, width);
    assert(columns[1]@ == areas_view(columns@)[1]);
    proof {
        if r.x + r.width <= u16::MAX && r.y + r.height <= u16::MAX {
            assert(lengths_fit(r@, true, ((r.height - height) / 2) as u16, height));
            assert(middle@ == band(r@, true, ((r.height - height) / 2) as u16, height));
            assert(lengths_fit(middle@, false, ((r.width - width) / 2) as u16, width));
        }
    }
    columns[1]
}

} // verus!
