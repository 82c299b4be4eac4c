use pomodoro::widgets::clock::{get_rendering_instructions, CLOCK_FRAME, CLOCK_LAYOUT, CLOCK_MARGIN};
use pomodoro::widgets::paint::{Area, Ink, Mark, Stroke};
use pomodoro::widgets::timer::{
    draw_borders, draw_grapheme, graphemes_areas, GRAPHEME_DRAWING_MANUAL, GRAPHEME_UNIT_SIZE,
    TIMER_LAYOUT,
};
use pomodoro::widgets::{Clock, Timer};

/// The screen after the strokes were made in order, row by row, '.' for an untouched cell.
fn screen(strokes: &[Stroke], width: u16, height: u16) -> Vec<String> {
    let mut rows = vec![vec!['.'; width as usize]; height as usize];
    for stroke in strokes {
        assert!(stroke.x < width && stroke.y < height);
        rows[stroke.y as usize][stroke.x as usize] = match stroke.mark {
            Mark::Full => '#',
            Mark::Char(c) => c,
            Mark::Dot => 'o',
            Mark::Horizontal => '-',
            Mark::Vertical => '|',
            Mark::TopLeft => 'a',
            Mark::TopRight => 'b',
            Mark::BottomLeft => 'c',
            Mark::BottomRight => 'd',
        };
    }
    rows.iter().map(|row| row.iter().collect()).collect()
}

#[test]
fn borders_outline_the_area() {
    let area = Area::new(1, 1, 5, 3);
    assert!(area.is_in_range() && area.is_visible());
    let strokes = draw_borders(&area);
    assert_eq!(
        screen(&strokes, 7, 5),
        vec![".......", ".a---b.", ".|...|.", ".c---d.", "......."]
    );
    assert!(strokes.iter().all(|s| s.ink == Ink::Keep));
    assert_eq!(strokes.len(), 2 * 5 + 2 * 3);
}

#[test]
fn borders_of_thin_areas() {
    assert_eq!(screen(&draw_borders(&Area::new(0, 0, 1, 1)), 2, 2), vec!["b.", ".."]);
    assert_eq!(screen(&draw_borders(&Area::new(0, 0, 3, 1)), 3, 1), vec!["a-b"]);
    assert_eq!(screen(&draw_borders(&Area::new(1, 0, 1, 3)), 3, 3), vec![".b.", ".|.", ".d."]);
    assert_eq!(screen(&draw_borders(&Area::new(0, 0, 2, 2)), 2, 2), vec!["ab", "cd"]);
}

#[test]
fn borders_reach_the_last_cell_in_range() {
    let area = Area::new(u16::MAX - 2, u16::MAX - 2, 2, 2);
    assert!(area.is_in_range());
    let strokes = draw_borders(&area);
    assert!(strokes.iter().any(|s| s.x == u16::MAX - 1 && s.y == u16::MAX - 1));
    assert!(!Area::new(u16::MAX - 2, 0, 3, 1).is_in_range());
    assert!(!Area::new(0, u16::MAX, 1, 1).is_in_range());
    assert!(!Area::new(0, 0, 0, 1).is_visible());
    assert!(!Area::new(0, 0, 1, 0).is_visible());
}

#[test]
fn large_digits_are_centred() {
    let area = Area::new(1, 0, 7, 6);
    let strokes = draw_grapheme(&area, '2', Ink::Gray);
    assert_eq!(
        screen(&strokes, 9, 7),
        vec![
            ".........",
            "..#####..",
            "......#..",
            "..#####..",
            "..#......",
            "..#####..",
            ".........",
        ]
    );
    assert!(strokes.iter().all(|s| s.ink == Ink::Gray && s.mark == Mark::Full));
}

#[test]
fn every_shape_is_drawn_as_the_manual_says() {
    let area = Area::new(0, 0, 5, 5);
    let characters = ['0', '1', '2', '3', '4', '5', '6', '7', '8', '9', ':'];
    for (shape, c) in characters.iter().enumerate() {
        let strokes = draw_grapheme(&area, *c, Ink::Red);
        let drawn = screen(&strokes, 5, 5);
        for row in 0..5 {
            let expected: String = GRAPHEME_DRAWING_MANUAL[shape][row]
                .iter()
                .map(|cell| if *cell == 1 { '#' } else { '.' })
                .collect();
            assert_eq!(drawn[row], expected);
        }
        assert!(strokes.iter().all(|s| s.ink == Ink::Red));
    }
    assert_eq!(GRAPHEME_UNIT_SIZE, 5);
}

#[test]
fn other_characters_are_drawn_as_the_colon() {
    let area = Area::new(0, 0, 5, 5);
    let colon = draw_grapheme(&area, ':', Ink::Gray);
    assert_eq!(screen(&colon, 5, 5), vec![".....", "..#..", ".....", "..#..", "....."]);
    assert_eq!(draw_grapheme(&area, 'x', Ink::Gray), colon);
    assert_eq!(draw_grapheme(&area, ' ', Ink::Gray), colon);
}

#[test]
fn small_areas_show_the_character_itself() {
    let strokes = draw_grapheme(&Area::new(2, 1, 4, 9), '7', Ink::Red);
    assert_eq!(strokes, vec![Stroke { x: 4, y: 5, mark: Mark::Char('7'), ink: Ink::Red }]);
    let strokes = draw_grapheme(&Area::new(2, 1, 9, 4), ':', Ink::Gray);
    assert_eq!(strokes, vec![Stroke { x: 6, y: 3, mark: Mark::Char(':'), ink: Ink::Gray }]);
    let strokes = draw_grapheme(&Area::new(3, 4, 0, 0), '1', Ink::Gray);
    assert_eq!(strokes, vec![Stroke { x: 3, y: 4, mark: Mark::Char('1'), ink: Ink::Gray }]);
}

#[test]
fn timer_parts() {
    assert_eq!(TIMER_LAYOUT, [22, 2, 22, 8, 22, 2, 22]);
    let parts: Vec<Area> = (0..7).map(|n| Area::new(n * 10, 0, 10, 5)).collect();
    let areas = graphemes_areas(&parts);
    assert_eq!(areas, vec![parts[0], parts[2], parts[3], parts[4], parts[6]]);
}

#[test]
fn timer_builders() {
    let timer = Timer::default();
    assert_eq!(timer.ink(), Ink::Gray);
    assert_eq!(timer.is_due(true).ink(), Ink::Red);
    assert_eq!(timer.is_paused(true).ink(), Ink::Red);
    assert_eq!(timer.is_due(true).is_due(false).ink(), Ink::Gray);
    assert_eq!(timer.is_paused(true).is_due(false).ink(), Ink::Red);

    let area = Area::new(0, 0, 3, 3);
    let nothing = timer.render(&area, &vec![area]);
    assert!(nothing.is_empty());
    let outlined = timer.borders(true).render(&area, &vec![area]);
    assert_eq!(screen(&outlined, 3, 3), vec!["a-b", "|.|", "c-d"]);
    let hidden = timer.borders(true).borders(false).render(&area, &vec![area]);
    assert!(hidden.is_empty());
}

#[test]
fn timer_draws_one_character_in_each_area() {
    let area = Area::new(0, 0, 27, 7);
    let areas: Vec<Area> = (0..5).map(|n| Area::new(1 + n * 5, 1, 5, 5)).collect();
    let timer = Timer::default().time_remaining("01:47");
    let strokes = timer.render(&area, &areas);
    assert_eq!(
        screen(&strokes, 27, 7),
        vec![
            "...........................",
            ".#####..#.......#...######.",
            ".#...#..#....#..#...#....#.",
            ".#...#..#.......#####....#.",
            ".#...#..#....#......#....#.",
            ".#####..#...........#....#.",
            "...........................",
        ]
    );
    assert!(strokes.iter().all(|s| s.ink == Ink::Gray));

    let red = timer.is_paused(true).render(&area, &areas);
    assert_eq!(red.len(), strokes.len());
    assert!(red.iter().all(|s| s.ink == Ink::Red));
}

#[test]
fn timer_stops_at_the_shorter_of_text_and_areas() {
    let area = Area::new(0, 0, 12, 5);
    let areas: Vec<Area> = (0..2).map(|n| Area::new(n * 6, 0, 5, 5)).collect();
    let long = Timer::default().time_remaining("11:11").render(&area, &areas);
    assert_eq!(
        screen(&long, 12, 5),
        vec![
            "..#.....#...",
            "..#.....#...",
            "..#.....#...",
            "..#.....#...",
            "..#.....#...",
        ]
    );
    let short = Timer::default().time_remaining("1").render(&area, &areas);
    assert_eq!(
        screen(&short, 12, 5),
        vec![
            "..#.........",
            "..#.........",
            "..#.........",
            "..#.........",
            "..#.........",
        ]
    );
    assert!(Timer::default().time_remaining("").render(&area, &areas).is_empty());
}

#[test]
fn timer_with_borders_draws_characters_over_outlines() {
    let area = Area::new(0, 0, 7, 7);
    let areas = vec![Area::new(1, 1, 5, 5)];
    let timer = Timer::default().time_remaining("0").borders(true).is_due(true);
    let strokes = timer.render(&area, &areas);
    assert_eq!(
        screen(&strokes, 7, 7),
        vec![
            "a-----b",
            "|#####|",
            "|#...#|",
            "|#...#|",
            "|#...#|",
            "|#####|",
            "c-----d",
        ]
    );
    for stroke in &strokes {
        let expected = if stroke.mark == Mark::Full { Ink::Red } else { Ink::Keep };
        assert_eq!(stroke.ink, expected);
    }
    let without_text = Timer::default().borders(true).render(&area, &areas);
    assert_eq!(
        screen(&without_text, 7, 7),
        vec![
            "a-----b",
            "|.....|",
            "|.....|",
            "|.....|",
            "|.....|",
            "|.....|",
            "c-----d",
        ]
    );
}

#[test]
fn clock_frames_its_parts_with_dots() {
    assert_eq!(CLOCK_MARGIN, 5);
    assert_eq!(CLOCK_FRAME, [25, 50, 25]);
    assert_eq!(CLOCK_LAYOUT, [23, 23, 8, 23, 23]);
    let dots = get_rendering_instructions(Area::new(1, 1, 4, 3));
    assert_eq!(screen(&dots, 6, 5), vec!["......", ".oooo.", ".o..o.", ".oooo.", "......"]);
    assert!(dots.iter().all(|s| s.ink == Ink::Keep && s.mark == Mark::Dot));
    assert_eq!(screen(&get_rendering_instructions(Area::new(0, 0, 1, 1)), 1, 1), vec!["o"]);

    let chunks = vec![Area::new(0, 0, 3, 3), Area::new(3, 0, 2, 3)];
    let strokes = Clock::default().render(&chunks);
    assert_eq!(screen(&strokes, 6, 3), vec!["ooooo.", "o.ooo.", "ooooo."]);
    assert!(Clock::default().render(&Vec::new()).is_empty());
}
