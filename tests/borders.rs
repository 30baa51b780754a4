use thatsit_widgets::{
    Area, Border, BorderChar, BorderStyle, BorderTheme, Color, Command, Flat, Inset, Label, Outset,
    ScrollVertical, Tall, Wide, Widget,
};

const BG: Option<Color> = Some(Color::AnsiValue(235));
const LIGHT: Option<Color> = Some(Color::AnsiValue(240));
const DARK: Option<Color> = Some(Color::AnsiValue(16));

fn cells<S: BorderStyle, U: BorderTheme>(theme: &U) -> Vec<BorderChar> {
    vec![
        S::top_left(theme),
        S::top(theme),
        S::top_right(theme),
        S::left(theme),
        S::right(theme),
        S::bottom_left(theme),
        S::bottom(theme),
        S::bottom_right(theme),
    ]
}

fn colors(fg: Option<Color>, bg: Option<Color>) -> Vec<Command> {
    let mut v = vec![Command::ResetColor];
    if let Some(c) = fg {
        v.push(Command::SetForeground(c));
    }
    if let Some(c) = bg {
        v.push(Command::SetBackground(c));
    }
    v
}

fn run(x: u16, y: u16, c: char, n: usize) -> Vec<Command> {
    vec![Command::MoveTo(x, y), Command::Print(vec![c; n])]
}

fn segment(cell: BorderChar, x: u16, y: u16, n: usize) -> Vec<Command> {
    let mut v = colors(cell.1, cell.2);
    v.extend(run(x, y, cell.0, n));
    v
}

fn text(s: &str) -> Vec<char> {
    s.chars().collect()
}

#[test]
fn test_borders() {
    let mut output: Vec<Command> = Vec::new();
    let layout = Border(Tall, Inset, Label::new("foo", None, false));
    let used = layout.render(&mut output, Area(0, 0, 5, 5));
    assert_eq!(used, (3, 1));
    let mut expected = Vec::new();
    expected.extend(segment(('▊', BG, DARK), 0, 0, 1));
    expected.extend(segment(('▇', BG, DARK), 1, 0, 3));
    expected.extend(segment(('▎', LIGHT, BG), 4, 0, 1));
    expected.extend(colors(BG, DARK));
    for y in 1..4 {
        expected.extend(run(0, y, '▊', 1));
    }
    expected.extend(colors(LIGHT, BG));
    for y in 1..4 {
        expected.extend(run(1, y, ' ', 3));
    }
    expected.extend(colors(LIGHT, BG));
    for y in 1..4 {
        expected.extend(run(4, y, '▎', 1));
    }
    expected.extend(segment(('▊', BG, DARK), 0, 4, 1));
    expected.extend(segment(('▁', LIGHT, BG), 1, 4, 3));
    expected.extend(segment(('▎', LIGHT, BG), 4, 4, 1));
    expected.extend(colors(None, BG));
    expected.extend(colors(None, None));
    expected.push(Command::MoveTo(1, 1));
    expected.push(Command::Print(text("foo")));
    assert_eq!(output, expected);

    let mut output: Vec<Command> = Vec::new();
    let layout = Border(Wide, Inset, Label::new("foo", None, false));
    layout.render(&mut output, Area(0, 0, 5, 5));
    assert_eq!(output[0..5], segment(('▁', DARK, BG), 0, 0, 1)[..]);
    assert_eq!(output.last(), Some(&Command::Print(text("foo"))));
}

#[test]
fn tall_style_cells() {
    assert_eq!(
        cells::<Tall, Inset>(&Inset),
        vec![
            ('▊', BG, DARK),
            ('▇', BG, DARK),
            ('▎', LIGHT, BG),
            ('▊', BG, DARK),
            ('▎', LIGHT, BG),
            ('▊', BG, DARK),
            ('▁', LIGHT, BG),
            ('▎', LIGHT, BG),
        ]
    );
    assert_eq!(
        cells::<Tall, Outset>(&Outset),
        vec![
            ('▊', BG, LIGHT),
            ('▇', BG, LIGHT),
            ('▎', DARK, BG),
            ('▊', BG, LIGHT),
            ('▎', DARK, BG),
            ('▊', BG, LIGHT),
            ('▁', DARK, BG),
            ('▎', DARK, BG),
        ]
    );
}

#[test]
fn wide_style_cells() {
    assert_eq!(
        cells::<Wide, Inset>(&Inset),
        vec![
            ('▁', DARK, BG),
            ('▁', DARK, BG),
            ('▁', DARK, BG),
            ('▎', DARK, BG),
            ('▊', BG, LIGHT),
            ('▇', BG, LIGHT),
            ('▇', BG, LIGHT),
            ('▇', BG, LIGHT),
        ]
    );
    assert_eq!(
        cells::<Wide, Outset>(&Outset),
        vec![
            ('▁', LIGHT, BG),
            ('▁', LIGHT, BG),
            ('▁', LIGHT, BG),
            ('▎', LIGHT, BG),
            ('▊', BG, DARK),
            ('▇', BG, DARK),
            ('▇', BG, DARK),
            ('▇', BG, DARK),
        ]
    );
}

#[test]
fn flat_style_cells() {
    assert_eq!(
        cells::<Flat, Inset>(&Inset),
        vec![
            ('┌', LIGHT, BG),
            ('─', LIGHT, BG),
            ('┐', LIGHT, BG),
            ('│', LIGHT, BG),
            ('│', LIGHT, BG),
            ('└', LIGHT, BG),
            ('─', LIGHT, BG),
            ('┘', LIGHT, BG),
        ]
    );
    assert_eq!(
        cells::<Flat, Outset>(&Outset),
        vec![
            ('┌', DARK, BG),
            ('─', DARK, BG),
            ('┐', DARK, BG),
            ('│', DARK, BG),
            ('│', DARK, BG),
            ('└', DARK, BG),
            ('─', DARK, BG),
            ('┘', DARK, BG),
        ]
    );
}

#[test]
fn style_cells_are_repeatable() {
    assert_eq!(cells::<Tall, Inset>(&Inset), cells::<Tall, Inset>(&Inset));
    assert_eq!(cells::<Wide, Outset>(&Outset), cells::<Wide, Outset>(&Outset));
    assert_eq!(cells::<Flat, Inset>(&Inset), cells::<Flat, Inset>(&Inset));
}

#[test]
fn theme_colors() {
    assert_eq!((Inset.out(), Inset.bg(), Inset.hi(), Inset.lo()), (None, BG, LIGHT, DARK));
    assert_eq!((Outset.out(), Outset.bg(), Outset.hi(), Outset.lo()), (None, BG, DARK, LIGHT));
}

#[test]
fn border_on_empty_area_draws_nothing() {
    for area in [Area(3, 4, 0, 5), Area(3, 4, 5, 0), Area(0, 0, 0, 0)] {
        let mut output: Vec<Command> = Vec::new();
        let used = Border(Flat, Outset, Label::new("foo", None, false)).render(&mut output, area);
        assert_eq!(used, (0, 0));
        assert!(output.is_empty());
    }
}

#[test]
fn border_five_by_five_rows_and_inner_area() {
    let mut output: Vec<Command> = Vec::new();
    Border(Flat, Inset, ScrollVertical::default()).render(&mut output, Area(0, 0, 5, 5));
    let moves: Vec<(u16, u16)> = output
        .iter()
        .filter_map(|c| match c {
            Command::MoveTo(x, y) => Some((*x, *y)),
            _ => None,
        })
        .collect();
    assert_eq!(
        moves,
        vec![
            (0, 0), (1, 0), (4, 0),
            (0, 1), (0, 2), (0, 3),
            (1, 1), (1, 2), (1, 3),
            (4, 1), (4, 2), (4, 3),
            (0, 4), (1, 4), (4, 4),
        ]
    );
    let mut inner: Vec<Command> = Vec::new();
    let used = Border(Flat, Inset, Label::new("abcdef", None, false)).render(&mut inner, Area(0, 0, 5, 5));
    assert_eq!(used, (3, 1));
    assert_eq!(inner[inner.len() - 2], Command::MoveTo(1, 1));
    assert_eq!(inner[inner.len() - 1], Command::Print(text("abc")));
}

#[test]
fn border_tall_inset_draw_order() {
    let mut output: Vec<Command> = Vec::new();
    let content = Label::new(" Inset Tall", Some(Color::Yellow), false);
    let used = Border(Tall, Inset, content).render(&mut output, Area(1, 1, 14, 3));
    assert_eq!(used, (11, 1));
    let mut expected = Vec::new();
    expected.extend(segment(('▊', BG, DARK), 1, 1, 1));
    expected.extend(segment(('▇', BG, DARK), 2, 1, 12));
    expected.extend(segment(('▎', LIGHT, BG), 14, 1, 1));
    expected.extend(segment(('▊', BG, DARK), 1, 2, 1));
    expected.extend(segment((' ', LIGHT, BG), 2, 2, 12));
    expected.extend(segment(('▎', LIGHT, BG), 14, 2, 1));
    expected.extend(segment(('▊', BG, DARK), 1, 3, 1));
    expected.extend(segment(('▁', LIGHT, BG), 2, 3, 12));
    expected.extend(segment(('▎', LIGHT, BG), 14, 3, 1));
    expected.extend(colors(None, BG));
    expected.extend(colors(Some(Color::Yellow), None));
    expected.push(Command::MoveTo(2, 2));
    expected.push(Command::Print(text(" Inset Tall")));
    assert_eq!(output, expected);
}

#[test]
fn border_narrower_than_its_corners() {
    let mut output: Vec<Command> = Vec::new();
    let used = Border(Flat, Inset, Label::new("x", None, false)).render(&mut output, Area(2, 2, 1, 1));
    assert_eq!(used, (0, 0));
    let prints: Vec<&Command> = output.iter().filter(|c| matches!(c, Command::Print(_))).collect();
    assert_eq!(
        prints,
        vec![
            &Command::Print(vec!['┌']),
            &Command::Print(vec![]),
            &Command::Print(vec!['┐']),
            &Command::Print(vec!['└']),
            &Command::Print(vec![]),
            &Command::Print(vec!['┘']),
        ]
    );
}
