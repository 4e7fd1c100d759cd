//! Areas of the screen, and how they are divided.

use vstd::prelude::*;

use ratatui::layout::{Constraint, Direction, Layout};

verus! {

/// A rectangle of character cells.
#[derive(Debug, Clone, Copy, PartialEq, Eq, Structural)]
pub struct Rect {
    pub x: u16,
    pub y: u16,
    pub width: u16,
    pub height: u16,
}

/// The direction in which an area is divided.
#[derive(Debug, Clone, Copy, PartialEq, Eq, Structural)]
pub enum Axis {
    Vertical,
    Horizontal,
}

/// How much of an area a part is meant to get.
#[derive(Debug, Clone, Copy, PartialEq, Eq, Structural)]
pub enum Part {
    Length(u16),
    Min(u16),
    Percentage(u16),
}

/// `n`, or the largest 16-bit number where it is larger.
pub open spec fn clamp_u16(n: int) -> int {
    if n > u16::MAX {
        u16::MAX as int
    } else {
        n
    }
}

impl Rect {
    /// The first column to the right.
    pub open spec fn right(self) -> int {
        clamp_u16(self.x + self.width)
    }

    /// The first row below.
    pub open spec fn bottom(self) -> int {
        clamp_u16(self.y + self.height)
    }

    /// Whether this lies within `outer`.
    pub open spec fn within(self, outer: Rect) -> bool {
        &&& outer.x <= self.x
        &&& outer.y <= self.y
        &&& self.x + self.width <= outer.x + outer.width
        &&& self.y + self.height <= outer.y + outer.height
    }
}

/// The divisions that `ratatui::layout::Layout::split` may come up with for an area, a direction
/// and constraints.
pub uninterp spec fn divisions(area: Rect, axis: Axis, parts: Seq<Part>) -> Set<Seq<Rect>>;

/// Whether `pieces` can come of dividing `area` along `axis` into `parts`: one of the divisions
/// that the solver may come up with, in which each part has one piece, of the full extent across
/// the axis, and between the edges of the area along it.
pub open spec fn is_split(area: Rect, axis: Axis, parts: Seq<Part>, pieces: Seq<Rect>) -> bool {
    &&& divisions(area, axis, parts).contains(pieces)
    &&& pieces.len() == parts.len()
    &&& forall|i: int|
        0 <= i < pieces.len() ==> match axis {
            Axis::Vertical => {
                &&& (#[trigger] pieces[i]).x == area.x
                &&& pieces[i].width == area.width
                &&& area.y <= pieces[i].y
                &&& pieces[i].y + pieces[i].height <= area.bottom()
            },
            Axis::Horizontal => {
                &&& pieces[i].y == area.y
                &&& pieces[i].height == area.height
                &&& area.x <= pieces[i].x
                &&& pieces[i].x + pieces[i].width <= area.right()
            },
        }
}

/// Calls `ratatui::layout::Layout::split` on a layout of the given direction and constraints,
/// without margin or spacing. Each constraint gets one piece; across the direction a piece is as
/// large as the area, and along it the piece lies between the edges of the area. How large the
/// pieces are is left open: where constraints compete, several divisions may be equally good, and
/// which of them the solver finds differs from process to process. So what is named is all that
/// it may find, and the result is one of these.
#[verifier::external_body]
pub(crate) fn split(area: Rect, axis: Axis, parts: &Vec<Part>) -> (r: Vec<Rect>)
    ensures
        divisions(area, axis, parts@).contains(r@),
        is_split(area, axis, parts@, r@),
{
    let wanted = parts.iter().map(|p| match *p {
        Part::Length(n) => Constraint::Length(n),
        Part::Min(n) => Constraint::Min(n),
        Part::Percentage(n) => Constraint::Percentage(n),
    });
    let direction = match axis {
        Axis::Vertical => Direction::Vertical,
        Axis::Horizontal => Direction::Horizontal,
    };
    let whole = ratatui::layout::Rect { x: area.x, y: area.y, width: area.width, height: area.height };
    let pieces = Layout::new(direction, wanted).split(whole);
    pieces.iter().map(|p| Rect { x: p.x, y: p.y, width: p.width, height: p.height }).collect()
}

/// The area inside a border of one cell: as `area`, but one cell smaller on each side where it
/// has them.
pub open spec fn bordered(area: Rect) -> Rect {
    Rect {
        x: if clamp_u16(area.x + 1) < area.right() {
            clamp_u16(area.x + 1) as u16
        } else {
            area.right() as u16
        },
        y: if clamp_u16(area.y + 1) < area.bottom() {
            clamp_u16(area.y + 1) as u16
        } else {
            area.bottom() as u16
        },
        width: if area.width >= 2 {
            (area.width - 2) as u16
        } else {
            0
        },
        height: if area.height >= 2 {
            (area.height - 2) as u16
        } else {
            0
        },
    }
}

/// Calls `ratatui::widgets::Block::inner` on a block with all four borders. The result begins one
/// cell further to the right and down, though not beyond the area's edges, and is two cells
/// narrower and lower, or empty.
#[verifier::external_body]
pub(crate) fn inside_border(area: Rect) -> (r: Rect)
    ensures
        r == bordered(area),
{
    let block = ratatui::widgets::Block::default().borders(ratatui::widgets::Borders::ALL);
    let inner = block.inner(
        ratatui::layout::Rect { x: area.x, y: area.y, width: area.width, height: area.height },
    );
    Rect { x: inner.x, y: inner.y, width: inner.width, height: inner.height }
}

/// The rows left free above something `content_height` rows high in the middle of `area`.
pub open spec fn padding_above(area: Rect, content_height: u16) -> int {
    if area.height > content_height {
        (area.height - content_height) / 2
    } else {
        0
    }
}

/// Whether the first row of something `content_height` rows high in the middle of `area` has a
/// coordinate.
pub open spec fn can_center(area: Rect, content_height: u16) -> bool {
    area.y + padding_above(area, content_height) <= u16::MAX
}

/// The part of `area` in its vertical middle that is `content_height` rows high, or as high as
/// the area allows.
pub open spec fn centered(area: Rect, content_height: u16) -> Rect {
    Rect {
        y: (area.y + padding_above(area, content_height)) as u16,
        height: if content_height < area.height {
            content_height
        } else {
            area.height
        },
        ..area
    }
}

/// The part of `area` in its vertical middle that is `content_height` rows high, or as high as
/// the area allows.
pub fn center_vertically(area: Rect, content_height: u16) -> (r: Rect)
    requires
        can_center(area, content_height),
    ensures
        r == centered(area, content_height),
{
    let pad: u16 = area.height.saturating_sub(content_height) / 2;
    let height: u16 = if content_height < area.height {
        content_height
    } else {
        area.height
    };
    Rect { x: area.x, y: area.y + pad, width: area.width, height }
}

/// What is centered in an area lies within it, with as many rows free above as below, or one
/// fewer.
pub proof fn lemma_centered_is_in_the_middle(area: Rect, content_height: u16)
    requires
        can_center(area, content_height),
    ensures
        centered(area, content_height).within(area),
        ({
            let r = centered(area, content_height);
            let above = r.y - area.y;
            let below = area.y + area.height - (r.y + r.height);
            above == below || above + 1 == below
        }),
{
}

/// The pieces of an area lie within it.
pub proof fn lemma_pieces_are_within(area: Rect, axis: Axis, parts: Seq<Part>, pieces: Seq<Rect>)
    requires
        is_split(area, axis, parts, pieces),
    ensures
        forall|i: int| 0 <= i < pieces.len() ==> (#[trigger] pieces[i]).within(area),
{
}

/// What is inside the border of an area lies within it.
pub proof fn lemma_inside_is_within(area: Rect)
    ensures
        bordered(area).within(area),
{
}

} // verus!
