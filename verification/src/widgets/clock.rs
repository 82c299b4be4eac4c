//! A frame of dots round each part of a clock face.

use vstd::prelude::*;
use crate::widgets::paint::{
    graphemes_inked, lemma_painted_concat, lemma_painted_push, painted, Area, Ink, Mark, Stroke,
};

verus! {

/// The margin round the clock face and round its parts, in cells.
pub const CLOCK_MARGIN: u16 = 5;

/// The shares of the width, in hundredths, of the space left of the clock
/// face, of the face and of the space right of it.
pub const CLOCK_FRAME: [u16; 3] = [25, 50, 25];

/// The shares of the face's width, in hundredths, that its five parts take.
pub const CLOCK_LAYOUT: [u16; 5] = [23, 23, 8, 23, 23];

/// A widget that outlines the parts of a clock face with dots.
#[derive(Clone, Copy, Debug)]
pub struct Clock;

impl Default for Clock {
    fn default() -> (clock: Clock)
        ensures
            clock == Clock,
    {
        Clock
    }
}

/// What a frame of dots round `area` shows in the cell in column `x` and row
/// `y`: a dot on the rim, nothing elsewhere.
pub open spec fn dotted_mark(area: Area, x: int, y: int) -> Option<Mark> {
    if area.on_rim(x, y) {
        Some(Mark::Dot)
    } else {
        None
    }
}

/// What frames of dots round the first `shown` of `areas` show in the cell in
/// column `x` and row `y`.
pub open spec fn clock_mark(areas: Seq<Area>, shown: nat, x: int, y: int) -> Option<Mark>
    decreases shown,
{
    if shown == 0 {
        None
    } else {
        match dotted_mark(areas[shown - 1], x, y) {
            Some(mark) => Some(mark),
            None => clock_mark(areas, (shown - 1) as nat, x, y),
        }
    }
}

/// The strokes that put a dot in every cell on the rim of `area`.
pub fn get_rendering_instructions(area: Area) -> (vector: Vec<Stroke>)
    requires
        area.fits(),
        area.has_cells(),
    ensures
        forall|x: int, y: int| #[trigger] painted(vector@, x, y) == dotted_mark(area, x, y),
        graphemes_inked(vector@, Ink::Keep),
{
    let mut vector: Vec<Stroke> = Vec::new();
    let right: u16 = area.width + area.x - 1;
    let bottom: u16 = area.height + area.y - 1;
    let mut x: u16 = area.x;
    while x < area.width + area.x
        invariant
            area.fits(),
            area.has_cells(),
            right == area.right(),
            bottom == area.bottom(),
            area.x <= x <= area.x + area.width,
            graphemes_inked(vector@, Ink::Keep),
            forall|px: int, py: int| #[trigger]
                painted(vector@, px, py) == (if area.x <= px < x && (py == area.y || py
                    == bottom) {
                    Some(Mark::Dot)
                } else {
                    None
                }),
        decreases area.x + area.width - x,
    {
        let upper = Stroke { x, y: area.y, mark: Mark::Dot, ink: Ink::Keep };
        let lower = Stroke { x, y: bottom, mark: Mark::Dot, ink: Ink::Keep };
        proof {
            lemma_painted_push(vector@, upper);
            lemma_painted_push(vector@.push(upper), lower);
        }
        vector.push(upper);
        vector.push(lower);
        x += 1;
    }
    let mut y: u16 = area.y;
    while y < area.height + area.y
        invariant
            area.fits(),
            area.has_cells(),
            right == area.right(),
            bottom == area.bottom(),
            area.y <= y <= area.y + area.height,
            graphemes_inked(vector@, Ink::Keep),
            forall|px: int, py: int| #[trigger]
                painted(vector@, px, py) == (if area.contains(px, py) && (py == area.y || py
                    == bottom || (py < y && (px == area.x || px == right))) {
                    Some(Mark::Dot)
                } else {
                    None
                }),
        decreases area.y + area.height - y,
    {
        let left = Stroke { x: area.x, y, mark: Mark::Dot, ink: Ink::Keep };
        let opposite = Stroke { x: right, y, mark: Mark::Dot, ink: Ink::Keep };
        proof {
            lemma_painted_push(vector@, left);
            lemma_painted_push(vector@.push(left), opposite);
        }
        vector.push(left);
        vector.push(opposite);
        y += 1;
    }
    vector
}

/// Each of `chunks` can be framed: its coordinates are in range and it has a cell.
pub open spec fn can_frame(chunks: Seq<Area>) -> bool {
    forall|k: int| 0 <= k < chunks.len() ==> (#[trigger] chunks[k]).fits() && chunks[k].has_cells()
}

impl Clock {
    /// Whether each of `chunks` can be framed.
    pub fn can_render(&self, chunks: &Vec<Area>) -> (ok: bool)
        ensures
            ok == can_frame(chunks@),
    {
        let mut k: usize = 0;
        while k < chunks.len()
            invariant
                k <= chunks@.len(),
                forall|n: int|
                    0 <= n < k ==> (#[trigger] chunks@[n]).fits() && chunks@[n].has_cells(),
            decreases chunks@.len() - k,
        {
            if !chunks[k].is_in_range() || !chunks[k].is_visible() {
                return false;
            }
            k += 1;
        }
        true
    }

    /// The strokes that frame each of `chunks` with dots.
    pub fn render(&self, chunks: &Vec<Area>) -> (strokes: Vec<Stroke>)
        requires
            can_frame(chunks@),
        ensures
            forall|x: int, y: int| #[trigger]
                painted(strokes@, x, y) == clock_mark(chunks@, chunks@.len(), x, y),
            graphemes_inked(strokes@, Ink::Keep),
    {
        let mut strokes: Vec<Stroke> = Vec::new();
        let mut k: usize = 0;
        while k < chunks.len()
            invariant
                k <= chunks@.len(),
                can_frame(chunks@),
                graphemes_inked(strokes@, Ink::Keep),
                forall|x: int, y: int| #[trigger]
                    painted(strokes@, x, y) == clock_mark(chunks@, k as nat, x, y),
            decreases chunks@.len() - k,
        {
            let mut coords = get_rendering_instructions(chunks[k]);
            proof {
                lemma_painted_concat(strokes@, coords@);
            }
            strokes.append(&mut coords);
            k += 1;
        }
        strokes
    }
}

} // verus!
