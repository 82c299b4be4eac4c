//! The countdown in large digits.

use vstd::prelude::*;
use crate::widgets::paint::{
    all_inked, all_within, graphemes_inked, lemma_painted_concat, lemma_painted_push, painted,
    Area, Ink, Mark, Stroke,
};

verus! {

/// Width and height of a large digit, in cells.
pub const GRAPHEME_UNIT_SIZE: u16 = 5;

/// The shapes of the ten digits and, last, of the colon: five rows of five
/// cells each, 1 for a filled cell.
pub const GRAPHEME_DRAWING_MANUAL: [[[u8; 5]; 5]; 11] = [
    [[1, 1, 1, 1, 1], [1, 0, 0, 0, 1], [1, 0, 0, 0, 1], [1, 0, 0, 0, 1], [1, 1, 1, 1, 1]],
    [[0, 0, 1, 0, 0], [0, 0, 1, 0, 0], [0, 0, 1, 0, 0], [0, 0, 1, 0, 0], [0, 0, 1, 0, 0]],
    [[1, 1, 1, 1, 1], [0, 0, 0, 0, 1], [1, 1, 1, 1, 1], [1, 0, 0, 0, 0], [1, 1, 1, 1, 1]],
    [[1, 1, 1, 1, 1], [0, 0, 0, 0, 1], [1, 1, 1, 1, 1], [0, 0, 0, 0, 1], [1, 1, 1, 1, 1]],
    [[1, 0, 0, 0, 1], [1, 0, 0, 0, 1], [1, 1, 1, 1, 1], [0, 0, 0, 0, 1], [0, 0, 0, 0, 1]],
    [[1, 1, 1, 1, 1], [1, 0, 0, 0, 0], [1, 1, 1, 1, 1], [0, 0, 0, 0, 1], [1, 1, 1, 1, 1]],
    [[1, 1, 1, 1, 1], [1, 0, 0, 0, 0], [1, 1, 1, 1, 1], [1, 0, 0, 0, 1], [1, 1, 1, 1, 1]],
    [[1, 1, 1, 1, 1], [0, 0, 0, 0, 1], [0, 0, 0, 0, 1], [0, 0, 0, 0, 1], [0, 0, 0, 0, 1]],
    [[1, 1, 1, 1, 1], [1, 0, 0, 0, 1], [1, 1, 1, 1, 1], [1, 0, 0, 0, 1], [1, 1, 1, 1, 1]],
    [[1, 1, 1, 1, 1], [1, 0, 0, 0, 1], [1, 1, 1, 1, 1], [0, 0, 0, 0, 1], [0, 0, 0, 0, 1]],
    [[0, 0, 0, 0, 0], [0, 0, 1, 0, 0], [0, 0, 0, 0, 0], [0, 0, 1, 0, 0], [0, 0, 0, 0, 0]],
];

/// Whether the shape with the given number fills its cell in the given row and column.
pub open spec fn grapheme_fills(shape: int, row: int, column: int) -> bool {
    GRAPHEME_DRAWING_MANUAL[shape][row][column] == 1
}

fn fills(shape: usize, row: usize, column: usize) -> (filled: bool)
    requires
        shape < 11,
        row < 5,
        column < 5,
    ensures
        filled == grapheme_fills(shape as int, row as int, column as int),
{
    GRAPHEME_DRAWING_MANUAL[shape][row][column] == 1
}

/// The countdown widget: the text to show and how to show it.
#[derive(Clone, Copy, Debug)]
pub struct Timer<'a> {
    time_remaining: Option<&'a str>,
    draw_borders: bool,
    is_due: bool,
    is_paused: bool,
    has_been_paused_for: Option<u64>,
}

/// What the countdown widget was told to show.
pub struct TimerModel {
    /// The text of the countdown.
    pub time_remaining: Option<Seq<char>>,
    /// Whether the areas of the widget are outlined.
    pub draw_borders: bool,
    pub is_due: bool,
    pub is_paused: bool,
    pub has_been_paused_for: Option<u64>,
}

impl TimerModel {
    /// No text, no outlines, neither due nor paused.
    pub open spec fn blank() -> Self {
        TimerModel {
            time_remaining: None,
            draw_borders: false,
            is_due: false,
            is_paused: false,
            has_been_paused_for: None,
        }
    }

    /// A countdown that is due or paused is shown in red, any other in gray.
    pub open spec fn ink(self) -> Ink {
        if self.is_due || self.is_paused {
            Ink::Red
        } else {
            Ink::Gray
        }
    }
}

impl<'a> View for Timer<'a> {
    type V = TimerModel;

    closed spec fn view(&self) -> TimerModel {
        TimerModel {
            time_remaining: match self.time_remaining {
                Some(text) => Some(text@),
                None => None,
            },
            draw_borders: self.draw_borders,
            is_due: self.is_due,
            is_paused: self.is_paused,
            has_been_paused_for: self.has_been_paused_for,
        }
    }
}

impl<'a> Default for Timer<'a> {
    fn default() -> (timer: Timer<'a>)
        ensures
            timer@ == TimerModel::blank(),
    {
        Timer {
            time_remaining: None,
            draw_borders: false,
            is_due: false,
            is_paused: false,
            has_been_paused_for: None,
        }
    }
}

impl<'a> Timer<'a> {
    /// The widget with `timer` as the text of its countdown.
    pub fn time_remaining(self, timer: &'a str) -> (r: Timer<'a>)
        ensures
            r@ == (TimerModel { time_remaining: Some(timer@), ..self@ }),
    {
        Timer { time_remaining: Some(timer), ..self }
    }

    pub fn is_due(self, is_due: bool) -> (r: Timer<'a>)
        ensures
            r@ == (TimerModel { is_due, ..self@ }),
    {
        Timer { is_due, ..self }
    }

    pub fn is_paused(self, is_paused: bool) -> (r: Timer<'a>)
        ensures
            r@ == (TimerModel { is_paused, ..self@ }),
    {
        Timer { is_paused, ..self }
    }

    /// The widget with or without outlines round its areas.
    pub fn borders(self, draw_borders: bool) -> (r: Timer<'a>)
        ensures
            r@ == (TimerModel { draw_borders, ..self@ }),
    {
        Timer { draw_borders, ..self }
    }

    /// The colour of the countdown.
    pub fn ink(&self) -> (ink: Ink)
        ensures
            ink == self@.ink(),
    {
        if self.is_due || self.is_paused {
            Ink::Red
        } else {
            Ink::Gray
        }
    }
}

/// What the outline of `area` shows in the cell in column `x` and row `y`:
/// corners in the four corners, lines along the sides, nothing elsewhere. In
/// an area of one column the corners are those of the right side, and in one of
/// a single row those of the top.
pub open spec fn border_mark(area: Area, x: int, y: int) -> Option<Mark> {
    if !area.on_rim(x, y) {
        None
    } else if x == area.right() {
        if y == area.y {
            Some(Mark::TopRight)
        } else if y == area.bottom() {
            Some(Mark::BottomRight)
        } else {
            Some(Mark::Vertical)
        }
    } else if x == area.x {
        if y == area.y {
            Some(Mark::TopLeft)
        } else if y == area.bottom() {
            Some(Mark::BottomLeft)
        } else {
            Some(Mark::Vertical)
        }
    } else {
        Some(Mark::Horizontal)
    }
}

/// The strokes that outline `area`.
pub fn draw_borders(area: &Area) -> (strokes: Vec<Stroke>)
    requires
        area.fits(),
        area.has_cells(),
    ensures
        forall|x: int, y: int| #[trigger] painted(strokes@, x, y) == border_mark(*area, x, y),
        graphemes_inked(strokes@, Ink::Keep),
        forall|k: int| 0 <= k < strokes@.len() ==> !(#[trigger] strokes@[k]).mark.is_grapheme(),
        all_within(strokes@, *area),
{
    let mut strokes: Vec<Stroke> = Vec::new();
    let right: u16 = area.width + area.x - 1;
    let bottom: u16 = area.height + area.y - 1;
    let mut x: u16 = area.x;
    while x < area.width + area.x
        invariant
            area.fits(),
            area.has_cells(),
            right == area.right(),
            bottom == area.bottom(),
            area.x <= x <= area.x + area.width,
            all_inked(strokes@, Ink::Keep),
            forall|k: int| 0 <= k < strokes@.len() ==> !(#[trigger] strokes@[k]).mark.is_grapheme(),
            all_within(strokes@, *area),
            forall|px: int, py: int| #[trigger]
                painted(strokes@, px, py) == (if area.x <= px < x && (py == area.y || py
                    == bottom) {
                    Some(Mark::Horizontal)
                } else {
                    None
                }),
        decreases area.x + area.width - x,
    {
        let top_stroke = Stroke { x, y: area.y, mark: Mark::Horizontal, ink: Ink::Keep };
        let bottom_stroke = Stroke { x, y: bottom, mark: Mark::Horizontal, ink: Ink::Keep };
        proof {
            lemma_painted_push(strokes@, top_stroke);
            lemma_painted_push(strokes@.push(top_stroke), bottom_stroke);
        }
        strokes.push(top_stroke);
        strokes.push(bottom_stroke);
        x += 1;
    }
    let mut y: u16 = area.y;
    while y < area.height + area.y
        invariant
            area.fits(),
            area.has_cells(),
            right == area.right(),
            bottom == area.bottom(),
            area.y <= y <= area.y + area.height,
            all_inked(strokes@, Ink::Keep),
            forall|k: int| 0 <= k < strokes@.len() ==> !(#[trigger] strokes@[k]).mark.is_grapheme(),
            all_within(strokes@, *area),
            forall|px: int, py: int| #[trigger]
                painted(strokes@, px, py) == (if area.y <= py < y && (px == area.x || px
                    == right) {
                    border_mark(*area, px, py)
                } else if area.contains(px, py) && (py == area.y || py == bottom) {
                    Some(Mark::Horizontal)
                } else {
                    None
                }),
        decreases area.y + area.height - y,
    {
        let (left_mark, right_mark) = if y == area.y {
            (Mark::TopLeft, Mark::TopRight)
        } else if y == bottom {
            (Mark::BottomLeft, Mark::BottomRight)
        } else {
            (Mark::Vertical, Mark::Vertical)
        };
        let left_stroke = Stroke { x: area.x, y, mark: left_mark, ink: Ink::Keep };
        let right_stroke = Stroke { x: right, y, mark: right_mark, ink: Ink::Keep };
        proof {
            lemma_painted_push(strokes@, left_stroke);
            lemma_painted_push(strokes@.push(left_stroke), right_stroke);
        }
        strokes.push(left_stroke);
        strokes.push(right_stroke);
        y += 1;
    }
    strokes
}

/// The number of the shape that stands for `c`: its value for a digit, ten,
/// the colon, for any other character.
pub open spec fn shape_of(c: char) -> int {
    if c == '0' {
        0
    } else if c == '1' {
        1
    } else if c == '2' {
        2
    } else if c == '3' {
        3
    } else if c == '4' {
        4
    } else if c == '5' {
        5
    } else if c == '6' {
        6
    } else if c == '7' {
        7
    } else if c == '8' {
        8
    } else if c == '9' {
        9
    } else {
        10
    }
}

fn shape(c: char) -> (n: usize)
    ensures
        n == shape_of(c),
        n < 11,
{
    if c == '0' {
        0
    } else if c == '1' {
        1
    } else if c == '2' {
        2
    } else if c == '3' {
        3
    } else if c == '4' {
        4
    } else if c == '5' {
        5
    } else if c == '6' {
        6
    } else if c == '7' {
        7
    } else if c == '8' {
        8
    } else if c == '9' {
        9
    } else {
        10
    }
}

/// The area has room for a large digit.
pub open spec fn can_draw_grapheme(area: Area) -> bool {
    area.height >= GRAPHEME_UNIT_SIZE && area.width >= GRAPHEME_UNIT_SIZE
}

/// The column in which a large digit begins when it is centred in `area`.
pub open spec fn grapheme_left(area: Area) -> int {
    area.x + area.width / 2 - GRAPHEME_UNIT_SIZE / 2
}

/// The row in which a large digit begins when it is centred in `area`.
pub open spec fn grapheme_top(area: Area) -> int {
    area.y + area.height / 2 - GRAPHEME_UNIT_SIZE / 2
}

/// What the character `c`, drawn in `area`, shows in the cell in column `x`
/// and row `y`. Where the area has room, the shape of `c` is centred in it
/// and its filled cells are full, the others untouched. Where it has not, the
/// character itself stands in the middle cell.
pub open spec fn grapheme_mark(area: Area, c: char, x: int, y: int) -> Option<Mark> {
    if can_draw_grapheme(area) {
        let column = x - grapheme_left(area);
        let row = y - grapheme_top(area);
        if 0 <= column < GRAPHEME_UNIT_SIZE && 0 <= row < GRAPHEME_UNIT_SIZE && grapheme_fills(
            shape_of(c),
            row,
            column,
        ) {
            Some(Mark::Full)
        } else {
            None
        }
    } else if x == area.x + area.width / 2 && y == area.y + area.height / 2 {
        Some(Mark::Char(c))
    } else {
        None
    }
}

/// What the first `rows` rows of the shape and the first `columns` cells of
/// the row after them show in the cell in column `x` and row `y`.
spec fn grapheme_mark_upto(area: Area, c: char, rows: int, columns: int, x: int, y: int) -> Option<
    Mark,
> {
    let column = x - grapheme_left(area);
    let row = y - grapheme_top(area);
    if (row < rows || (row == rows && column < columns)) {
        grapheme_mark(area, c, x, y)
    } else {
        None
    }
}

/// The strokes that draw the character `c` in `area`, in the colour `ink`.
pub fn draw_grapheme(area: &Area, c: char, ink: Ink) -> (strokes: Vec<Stroke>)
    requires
        area.fits(),
    ensures
        forall|x: int, y: int| #[trigger]
            painted(strokes@, x, y) == grapheme_mark(*area, c, x, y),
        graphemes_inked(strokes@, ink),
        forall|k: int| 0 <= k < strokes@.len() ==> (#[trigger] strokes@[k]).mark.is_grapheme(),
        area.has_cells() ==> all_within(strokes@, *area),
{
    let mut strokes: Vec<Stroke> = Vec::new();
    if area.height >= GRAPHEME_UNIT_SIZE && area.width >= GRAPHEME_UNIT_SIZE {
        let drawing_instructions: usize = shape(c);
        let x0: u16 = area.x + (area.width / 2) - (GRAPHEME_UNIT_SIZE / 2);
        let y0: u16 = area.y + (area.height / 2) - (GRAPHEME_UNIT_SIZE / 2);
        let mut j: u16 = 0;
        while j < GRAPHEME_UNIT_SIZE
            invariant
                area.fits(),
                can_draw_grapheme(*area),
                drawing_instructions == shape_of(c),
                x0 == grapheme_left(*area),
                y0 == grapheme_top(*area),
                j <= GRAPHEME_UNIT_SIZE,
                all_inked(strokes@, ink),
                forall|k: int|
                    0 <= k < strokes@.len() ==> (#[trigger] strokes@[k]).mark.is_grapheme(),
                all_within(strokes@, *area),
                forall|x: int, y: int| #[trigger]
                    painted(strokes@, x, y) == grapheme_mark_upto(*area, c, j as int, 0, x, y),
            decreases GRAPHEME_UNIT_SIZE - j,
        {
            let mut i: u16 = 0;
            while i < GRAPHEME_UNIT_SIZE
                invariant
                    area.fits(),
                    can_draw_grapheme(*area),
                    drawing_instructions == shape_of(c),
                    x0 == grapheme_left(*area),
                    y0 == grapheme_top(*area),
                    j < GRAPHEME_UNIT_SIZE,
                    i <= GRAPHEME_UNIT_SIZE,
                    all_inked(strokes@, ink),
                    forall|k: int|
                        0 <= k < strokes@.len() ==> (#[trigger] strokes@[k]).mark.is_grapheme(),
                    all_within(strokes@, *area),
                    forall|x: int, y: int| #[trigger]
                        painted(strokes@, x, y) == grapheme_mark_upto(
                            *area,
                            c,
                            j as int,
                            i as int,
                            x,
                            y,
                        ),
                decreases GRAPHEME_UNIT_SIZE - i,
            {
                if fills(drawing_instructions, j as usize, i as usize) {
                    let stroke = Stroke { x: x0 + i, y: y0 + j, mark: Mark::Full, ink };
                    proof {
                        lemma_painted_push(strokes@, stroke);
                    }
                    strokes.push(stroke);
                }
                i += 1;
            }
            j += 1;
        }
    } else {
        let x: u16 = area.x + (area.width / 2);
        let y: u16 = area.y + (area.height / 2);
        let stroke = Stroke { x, y, mark: Mark::Char(c), ink };
        proof {
            lemma_painted_push(strokes@, stroke);
        }
        strokes.push(stroke);
    }
    strokes
}

/// The shares of the widget's width, in hundredths, that its seven parts
/// take from left to right: two digits, the colon and two digits, with gaps
/// between the digits.
pub const TIMER_LAYOUT: [u16; 7] = [22, 2, 22, 8, 22, 2, 22];

/// Of the seven parts of the widget, the five in which a character is drawn.
pub fn graphemes_areas(timer_areas: &Vec<Area>) -> (areas: Vec<Area>)
    requires
        timer_areas@.len() == 7,
    ensures
        areas@ == seq![
            timer_areas@[0],
            timer_areas@[2],
            timer_areas@[3],
            timer_areas@[4],
            timer_areas@[6],
        ],
{
    let mut areas: Vec<Area> = Vec::new();
    areas.push(timer_areas[0]);
    areas.push(timer_areas[2]);
    areas.push(timer_areas[3]);
    areas.push(timer_areas[4]);
    areas.push(timer_areas[6]);
    assert(areas@ =~= seq![
        timer_areas@[0],
        timer_areas@[2],
        timer_areas@[3],
        timer_areas@[4],
        timer_areas@[6],
    ]);
    areas
}

/// How many characters of the countdown are drawn: one for each area, as far
/// as the text goes.
pub open spec fn graphemes_shown(timer: TimerModel, graphemes_areas: Seq<Area>) -> nat {
    match timer.time_remaining {
        Some(text) => if text.len() <= graphemes_areas.len() {
            text.len()
        } else {
            graphemes_areas.len()
        },
        None => 0,
    }
}

/// The outline of `area` where outlines are wanted.
pub open spec fn outline_mark(timer: TimerModel, area: Area, x: int, y: int) -> Option<Mark> {
    if timer.draw_borders {
        border_mark(area, x, y)
    } else {
        None
    }
}

/// What the widget shows in the cell in column `x` and row `y` once the first
/// `shown` characters of its text are drawn, each in its area. A character
/// lies over the outline of its area, a later area over an earlier one, and
/// all of them over the outline of the widget.
pub open spec fn timer_mark(
    timer: TimerModel,
    area: Area,
    graphemes_areas: Seq<Area>,
    shown: nat,
    x: int,
    y: int,
) -> Option<Mark>
    decreases shown,
{
    if shown == 0 {
        outline_mark(timer, area, x, y)
    } else {
        let k = shown - 1;
        match grapheme_mark(graphemes_areas[k], timer.time_remaining.unwrap()[k], x, y) {
            Some(mark) => Some(mark),
            None => match outline_mark(timer, graphemes_areas[k], x, y) {
                Some(mark) => Some(mark),
                None => timer_mark(timer, area, graphemes_areas, k as nat, x, y),
            },
        }
    }
}

impl TimerModel {
    /// The widget can be drawn in `area` with its characters in
    /// `graphemes_areas`: the coordinates of all these areas are in range, and
    /// where outlines are wanted, each of them has a cell.
    pub open spec fn fits_in(self, area: Area, graphemes_areas: Seq<Area>) -> bool {
        &&& area.fits()
        &&& self.draw_borders ==> area.has_cells()
        &&& forall|k: int|
            0 <= k < graphemes_areas.len() ==> {
                &&& (#[trigger] graphemes_areas[k]).fits()
                &&& self.draw_borders ==> graphemes_areas[k].has_cells()
            }
    }
}

impl<'a> Timer<'a> {
    /// Whether the widget can be drawn in `area` with its characters in
    /// `graphemes_areas`.
    pub fn can_render(&self, area: &Area, graphemes_areas: &Vec<Area>) -> (ok: bool)
        ensures
            ok == self@.fits_in(*area, graphemes_areas@),
    {
        if !area.is_in_range() || (self.draw_borders && !area.is_visible()) {
            return false;
        }
        let mut k: usize = 0;
        while k < graphemes_areas.len()
            invariant
                k <= graphemes_areas@.len(),
                forall|n: int|
                    0 <= n < k ==> {
                        &&& (#[trigger] graphemes_areas@[n]).fits()
                        &&& self@.draw_borders ==> graphemes_areas@[n].has_cells()
                    },
            decreases graphemes_areas@.len() - k,
        {
            let part = &graphemes_areas[k];
            if !part.is_in_range() || (self.draw_borders && !part.is_visible()) {
                return false;
            }
            k += 1;
        }
        true
    }

    /// The strokes that draw the widget in `area`, with the characters of the
    /// countdown in `graphemes_areas`, one in each.
    pub fn render(&self, area: &Area, graphemes_areas: &Vec<Area>) -> (strokes: Vec<Stroke>)
        requires
            self@.fits_in(*area, graphemes_areas@),
        ensures
            forall|x: int, y: int| #[trigger]
                painted(strokes@, x, y) == timer_mark(
                    self@,
                    *area,
                    graphemes_areas@,
                    graphemes_shown(self@, graphemes_areas@),
                    x,
                    y,
                ),
            graphemes_inked(strokes@, self@.ink()),
    {
        let mut strokes: Vec<Stroke> = Vec::new();
        if self.draw_borders {
            strokes = draw_borders(area);
        }
        let time_remaining_str = match self.time_remaining {
            Some(text) => text,
            None => {
                return strokes;
            },
        };
        let style = self.ink();
        let length: usize = time_remaining_str.unicode_len();
        let mut k: usize = 0;
        while k < graphemes_areas.len() && k < length
            invariant
                self@.time_remaining == Some(time_remaining_str@),
                length == time_remaining_str@.len(),
                style == self@.ink(),
                k <= graphemes_areas@.len(),
                k <= length,
                self@.fits_in(*area, graphemes_areas@),
                graphemes_inked(strokes@, self@.ink()),
                forall|x: int, y: int| #[trigger]
                    painted(strokes@, x, y) == timer_mark(
                        self@,
                        *area,
                        graphemes_areas@,
                        k as nat,
                        x,
                        y,
                    ),
            decreases graphemes_areas@.len() - k,
        {
            let part = &graphemes_areas[k];
            let c = time_remaining_str.get_char(k);
            let ghost before = strokes@;
            let ghost mut outline: Seq<Stroke> = Seq::empty();
            if self.draw_borders {
                let mut border = draw_borders(part);
                proof {
                    outline = border@;
                }
                strokes.append(&mut border);
            }
            let mut grapheme = draw_grapheme(part, c, style);
            proof {
                assert(before + outline =~= strokes@);
                lemma_painted_concat(before, outline);
                lemma_painted_concat(before + outline, grapheme@);
            }
            strokes.append(&mut grapheme);
            k += 1;
        }
        strokes
    }
}

} // verus!
