//! Areas of the screen and marks on its cells.

use vstd::prelude::*;

verus! {

/// A rectangle of cells: its top left corner, its width and its height.
#[derive(Clone, Copy, Debug, PartialEq, Eq)]
pub struct Area {
    pub x: u16,
    pub y: u16,
    pub width: u16,
    pub height: u16,
}

impl Area {
    /// The coordinates just right of and just below the area are in range.
    pub open spec fn fits(self) -> bool {
        self.x + self.width <= u16::MAX && self.y + self.height <= u16::MAX
    }

    /// The area has a cell.
    pub open spec fn has_cells(self) -> bool {
        self.width > 0 && self.height > 0
    }

    /// The cell in column `x` and row `y` lies in the area.
    pub open spec fn contains(self, x: int, y: int) -> bool {
        self.x <= x < self.x + self.width && self.y <= y < self.y + self.height
    }

    /// The column of the area's last cells.
    pub open spec fn right(self) -> int {
        self.x + self.width - 1
    }

    /// The row of the area's last cells.
    pub open spec fn bottom(self) -> int {
        self.y + self.height - 1
    }

    /// The cell lies on the rim of the area.
    pub open spec fn on_rim(self, x: int, y: int) -> bool {
        self.contains(x, y) && (x == self.x || x == self.right() || y == self.y || y
            == self.bottom())
    }

    pub fn new(x: u16, y: u16, width: u16, height: u16) -> (area: Area)
        ensures
            area == (Area { x, y, width, height }),
    {
        Area { x, y, width, height }
    }

    /// Whether the coordinates just right of and just below the area are in range.
    pub fn is_in_range(&self) -> (ok: bool)
        ensures
            ok == self.fits(),
    {
        self.width <= u16::MAX - self.x && self.height <= u16::MAX - self.y
    }

    /// Whether the area has a cell.
    pub fn is_visible(&self) -> (ok: bool)
        ensures
            ok == self.has_cells(),
    {
        self.width > 0 && self.height > 0
    }
}

/// What a cell is made to show.
#[derive(Clone, Copy, Debug, PartialEq, Eq)]
pub enum Mark {
    /// A cell filled from edge to edge.
    Full,
    /// A single character.
    Char(char),
    /// A dot in the middle of the cell.
    Dot,
    Horizontal,
    Vertical,
    TopLeft,
    TopRight,
    BottomLeft,
    BottomRight,
}

impl Mark {
    /// The mark is part of a character of the countdown, not of an outline.
    pub open spec fn is_grapheme(self) -> bool {
        self is Full || self is Char
    }
}

/// The colour in which a mark is made.
#[derive(Clone, Copy, Debug, PartialEq, Eq)]
pub enum Ink {
    /// The colour that the cell already has.
    Keep,
    Gray,
    Red,
}

/// One mark on one cell.
#[derive(Clone, Copy, Debug, PartialEq, Eq)]
pub struct Stroke {
    pub x: u16,
    pub y: u16,
    pub mark: Mark,
    pub ink: Ink,
}

/// Every stroke is made in the colour `ink`.
pub open spec fn all_inked(strokes: Seq<Stroke>, ink: Ink) -> bool {
    forall|k: int| 0 <= k < strokes.len() ==> (#[trigger] strokes[k]).ink == ink
}

/// The strokes that are part of a character are made in the colour `ink`,
/// and the others in the colour that their cell already has.
pub open spec fn graphemes_inked(strokes: Seq<Stroke>, ink: Ink) -> bool {
    forall|k: int|
        0 <= k < strokes.len() ==> (#[trigger] strokes[k]).ink == (
        if strokes[k].mark.is_grapheme() {
            ink
        } else {
            Ink::Keep
        })
}

/// Every stroke lies in `area`.
pub open spec fn all_within(strokes: Seq<Stroke>, area: Area) -> bool {
    forall|k: int|
        0 <= k < strokes.len() ==> area.contains(
            (#[trigger] strokes[k]).x as int,
            strokes[k].y as int,
        )
}

/// What the cell in column `x` and row `y` shows once `strokes` were made in
/// order: the mark of the last stroke on it, or nothing if none touched it.
pub open spec fn painted(strokes: Seq<Stroke>, x: int, y: int) -> Option<Mark>
    decreases strokes.len(),
{
    if strokes.len() == 0 {
        None
    } else if strokes.last().x == x && strokes.last().y == y {
        Some(strokes.last().mark)
    } else {
        painted(strokes.drop_last(), x, y)
    }
}

/// One more stroke changes only the cell it is made on.
pub proof fn lemma_painted_push(strokes: Seq<Stroke>, stroke: Stroke)
    ensures
        forall|x: int, y: int| #[trigger]
            painted(strokes.push(stroke), x, y) == (if stroke.x == x && stroke.y == y {
                Some(stroke.mark)
            } else {
                painted(strokes, x, y)
            }),
{
    assert(strokes.push(stroke).drop_last() =~= strokes);
}

/// Strokes made after others decide what a cell shows wherever they touch it.
pub proof fn lemma_painted_concat(first: Seq<Stroke>, second: Seq<Stroke>)
    ensures
        forall|x: int, y: int| #[trigger]
            painted(first + second, x, y) == (match painted(second, x, y) {
                Some(mark) => Some(mark),
                None => painted(first, x, y),
            }),
    decreases second.len(),
{
    if second.len() == 0 {
        assert(first + second =~= first);
    } else {
        lemma_painted_concat(first, second.drop_last());
        assert((first + second).drop_last() =~= first + second.drop_last());
        assert((first + second).last() == second.last());
        assert forall|x: int, y: int| #[trigger]
            painted(first + second, x, y) == (match painted(second, x, y) {
                Some(mark) => Some(mark),
                None => painted(first, x, y),
            }) by {
            if !(second.last().x == x && second.last().y == y) {
                assert(painted(first + second, x, y) == painted(
                    first + second.drop_last(),
                    x,
                    y,
                ));
            }
        }
    }
}

} // verus!
