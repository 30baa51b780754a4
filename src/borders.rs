use vstd::prelude::*;
use crate::geometry::Area;
use crate::sink::{
    Color, Command, Op, color_ops, emit, inside, lemma_inside_concat, lemma_inside_widen, ops,
    repeat_char, repeated, set_colors,
};
use crate::widget::{Event, Widget};

verus! {

/// A border glyph with its text and background colors; an unset color
/// leaves the terminal's current one in place.
pub type BorderChar = (char, Option<Color>, Option<Color>);

/// Which of a theme's colors a border glyph takes.
#[derive(Clone, Copy, Debug, PartialEq, Eq, Structural)]
pub enum Role {
    Bg,
    Hi,
    Lo,
}

/// The eight places of a frame.
#[derive(Clone, Copy, Debug, PartialEq, Eq, Structural)]
pub enum Edge {
    TopLeft,
    Top,
    TopRight,
    Left,
    Right,
    BottomLeft,
    Bottom,
    BottomRight,
}

/// A set of colors to use for rendering a border.
pub trait BorderTheme {
    spec fn out_color(&self) -> Option<Color>;

    spec fn bg_color(&self) -> Option<Color>;

    spec fn hi_color(&self) -> Option<Color>;

    spec fn lo_color(&self) -> Option<Color>;

    /// The color outside the box.
    fn out(&self) -> (r: Option<Color>)
        ensures
            r == self.out_color(),
    ;

    /// The background of the box.
    fn bg(&self) -> (r: Option<Color>)
        ensures
            r == self.bg_color(),
    ;

    /// One border color.
    fn hi(&self) -> (r: Option<Color>)
        ensures
            r == self.hi_color(),
    ;

    /// The other border color.
    fn lo(&self) -> (r: Option<Color>)
        ensures
            r == self.lo_color(),
    ;
}

/// The color that `role` stands for in `theme`.
pub open spec fn role_color<U: BorderTheme>(role: Role, theme: &U) -> Option<Color> {
    match role {
        Role::Bg => theme.bg_color(),
        Role::Hi => theme.hi_color(),
        Role::Lo => theme.lo_color(),
    }
}

/// A glyph with its two color roles, resolved against `theme`.
pub open spec fn resolve<U: BorderTheme>(g: (char, Role, Role), theme: &U) -> BorderChar {
    (g.0, role_color(g.1, theme), role_color(g.2, theme))
}

/// Colors for an inset grey border.
#[derive(Clone, Copy, Debug, Default)]
pub struct Inset;

impl BorderTheme for Inset {
    open spec fn out_color(&self) -> Option<Color> {
        None
    }

    open spec fn bg_color(&self) -> Option<Color> {
        Some(Color::AnsiValue(235))
    }

    open spec fn hi_color(&self) -> Option<Color> {
        Some(Color::AnsiValue(240))
    }

    open spec fn lo_color(&self) -> Option<Color> {
        Some(Color::AnsiValue(16))
    }

    fn out(&self) -> (r: Option<Color>) {
        None
    }

    fn bg(&self) -> (r: Option<Color>) {
        Some(Color::AnsiValue(235))
    }

    fn hi(&self) -> (r: Option<Color>) {
        Some(Color::AnsiValue(240))
    }

    fn lo(&self) -> (r: Option<Color>) {
        Some(Color::AnsiValue(16))
    }
}

/// Colors for an outset grey border.
#[derive(Clone, Copy, Debug, Default)]
pub struct Outset;

impl BorderTheme for Outset {
    open spec fn out_color(&self) -> Option<Color> {
        None
    }

    open spec fn bg_color(&self) -> Option<Color> {
        Some(Color::AnsiValue(235))
    }

    open spec fn hi_color(&self) -> Option<Color> {
        Some(Color::AnsiValue(16))
    }

    open spec fn lo_color(&self) -> Option<Color> {
        Some(Color::AnsiValue(240))
    }

    fn out(&self) -> (r: Option<Color>) {
        None
    }

    fn bg(&self) -> (r: Option<Color>) {
        Some(Color::AnsiValue(235))
    }

    fn hi(&self) -> (r: Option<Color>) {
        Some(Color::AnsiValue(16))
    }

    fn lo(&self) -> (r: Option<Color>) {
        Some(Color::AnsiValue(240))
    }
}

/// A set of characters to use for rendering a border: for each place of
/// the frame, a glyph and the theme colors it is drawn in.
pub trait BorderStyle {
    /// The glyph at `edge`, with the roles of its text and background colors.
    spec fn glyph(edge: Edge) -> (char, Role, Role);

    fn top<U: BorderTheme>(theme: &U) -> (r: BorderChar)
        ensures
            r == resolve(Self::glyph(Edge::Top), theme),
    ;

    fn top_left<U: BorderTheme>(theme: &U) -> (r: BorderChar)
        ensures
            r == resolve(Self::glyph(Edge::TopLeft), theme),
    ;

    fn top_right<U: BorderTheme>(theme: &U) -> (r: BorderChar)
        ensures
            r == resolve(Self::glyph(Edge::TopRight), theme),
    ;

    fn left<U: BorderTheme>(theme: &U) -> (r: BorderChar)
        ensures
            r == resolve(Self::glyph(Edge::Left), theme),
    ;

    fn right<U: BorderTheme>(theme: &U) -> (r: BorderChar)
        ensures
            r == resolve(Self::glyph(Edge::Right), theme),
    ;

    fn bottom<U: BorderTheme>(theme: &U) -> (r: BorderChar)
        ensures
            r == resolve(Self::glyph(Edge::Bottom), theme),
    ;

    fn bottom_left<U: BorderTheme>(theme: &U) -> (r: BorderChar)
        ensures
            r == resolve(Self::glyph(Edge::BottomLeft), theme),
    ;

    fn bottom_right<U: BorderTheme>(theme: &U) -> (r: BorderChar)
        ensures
            r == resolve(Self::glyph(Edge::BottomRight), theme),
    ;
}

/// A border with more vertical space.
#[derive(Clone, Copy, Debug, Default)]
pub struct Tall;

impl BorderStyle for Tall {
    open spec fn glyph(edge: Edge) -> (char, Role, Role) {
        match edge {
            Edge::Top => ('▇', Role::Bg, Role::Lo),
            Edge::TopLeft => ('▊', Role::Bg, Role::Lo),
            Edge::TopRight => ('▎', Role::Hi, Role::Bg),
            Edge::Left => ('▊', Role::Bg, Role::Lo),
            Edge::Right => ('▎', Role::Hi, Role::Bg),
            Edge::Bottom => ('▁', Role::Hi, Role::Bg),
            Edge::BottomLeft => ('▊', Role::Bg, Role::Lo),
            Edge::BottomRight => ('▎', Role::Hi, Role::Bg),
        }
    }

    fn top<U: BorderTheme>(theme: &U) -> (r: BorderChar) {
        ('▇', theme.bg(), theme.lo())
    }

    fn top_left<U: BorderTheme>(theme: &U) -> (r: BorderChar) {
        ('▊', theme.bg(), theme.lo())
    }

    fn top_right<U: BorderTheme>(theme: &U) -> (r: BorderChar) {
        ('▎', theme.hi(), theme.bg())
    }

    fn left<U: BorderTheme>(theme: &U) -> (r: BorderChar) {
        ('▊', theme.bg(), theme.lo())
    }

    fn right<U: BorderTheme>(theme: &U) -> (r: BorderChar) {
        ('▎', theme.hi(), theme.bg())
    }

    fn bottom<U: BorderTheme>(theme: &U) -> (r: BorderChar) {
        ('▁', theme.hi(), theme.bg())
    }

    fn bottom_left<U: BorderTheme>(theme: &U) -> (r: BorderChar) {
        ('▊', theme.bg(), theme.lo())
    }

    fn bottom_right<U: BorderTheme>(theme: &U) -> (r: BorderChar) {
        ('▎', theme.hi(), theme.bg())
    }
}

/// A border with more horizontal space.
#[derive(Clone, Copy, Debug, Default)]
pub struct Wide;

impl BorderStyle for Wide {
    open spec fn glyph(edge: Edge) -> (char, Role, Role) {
        match edge {
            Edge::Top => ('▁', Role::Lo, Role::Bg),
            Edge::TopLeft => ('▁', Role::Lo, Role::Bg),
            Edge::TopRight => ('▁', Role::Lo, Role::Bg),
            Edge::Left => ('▎', Role::Lo, Role::Bg),
            Edge::Right => ('▊', Role::Bg, Role::Hi),
            Edge::Bottom => ('▇', Role::Bg, Role::Hi),
            Edge::BottomLeft => ('▇', Role::Bg, Role::Hi),
            Edge::BottomRight => ('▇', Role::Bg, Role::Hi),
        }
    }

    fn top<U: BorderTheme>(theme: &U) -> (r: BorderChar) {
        ('▁', theme.lo(), theme.bg())
    }

    fn top_left<U: BorderTheme>(theme: &U) -> (r: BorderChar) {
        ('▁', theme.lo(), theme.bg())
    }

    fn top_right<U: BorderTheme>(theme: &U) -> (r: BorderChar) {
        ('▁', theme.lo(), theme.bg())
    }

    fn left<U: BorderTheme>(theme: &U) -> (r: BorderChar) {
        ('▎', theme.lo(), theme.bg())
    }

    fn right<U: BorderTheme>(theme: &U) -> (r: BorderChar) {
        ('▊', theme.bg(), theme.hi())
    }

    fn bottom<U: BorderTheme>(theme: &U) -> (r: BorderChar) {
        ('▇', theme.bg(), theme.hi())
    }

    fn bottom_left<U: BorderTheme>(theme: &U) -> (r: BorderChar) {
        ('▇', theme.bg(), theme.hi())
    }

    fn bottom_right<U: BorderTheme>(theme: &U) -> (r: BorderChar) {
        ('▇', theme.bg(), theme.hi())
    }
}

/// A border with the default border characters.
#[derive(Clone, Copy, Debug, Default)]
pub struct Flat;

impl BorderStyle for Flat {
    open spec fn glyph(edge: Edge) -> (char, Role, Role) {
        match edge {
            Edge::Top => ('─', Role::Hi, Role::Bg),
            Edge::TopLeft => ('┌', Role::Hi, Role::Bg),
            Edge::TopRight => ('┐', Role::Hi, Role::Bg),
            Edge::Left => ('│', Role::Hi, Role::Bg),
            Edge::Right => ('│', Role::Hi, Role::Bg),
            Edge::Bottom => ('─', Role::Hi, Role::Bg),
            Edge::BottomLeft => ('└', Role::Hi, Role::Bg),
            Edge::BottomRight => ('┘', Role::Hi, Role::Bg),
        }
    }

    fn top<U: BorderTheme>(theme: &U) -> (r: BorderChar) {
        ('─', theme.hi(), theme.bg())
    }

    fn top_left<U: BorderTheme>(theme: &U) -> (r: BorderChar) {
        ('┌', theme.hi(), theme.bg())
    }

    fn top_right<U: BorderTheme>(theme: &U) -> (r: BorderChar) {
        ('┐', theme.hi(), theme.bg())
    }

    fn left<U: BorderTheme>(theme: &U) -> (r: BorderChar) {
        ('│', theme.hi(), theme.bg())
    }

    fn right<U: BorderTheme>(theme: &U) -> (r: BorderChar) {
        ('│', theme.hi(), theme.bg())
    }

    fn bottom<U: BorderTheme>(theme: &U) -> (r: BorderChar) {
        ('─', theme.hi(), theme.bg())
    }

    fn bottom_left<U: BorderTheme>(theme: &U) -> (r: BorderChar) {
        ('└', theme.hi(), theme.bg())
    }

    fn bottom_right<U: BorderTheme>(theme: &U) -> (r: BorderChar) {
        ('┘', theme.hi(), theme.bg())
    }
}

/// `n` copies of `c` printed from column `x` of row `y`.
pub open spec fn run_at(x: int, y: int, c: char, n: nat) -> Seq<Op> {
    seq![Op::MoveTo(x as u16, y as u16), Op::Print(repeated(c, n))]
}

/// The same run printed from column `x` of each row from `y0` up to, not
/// including, `y1`, top to bottom.
pub open spec fn column_ops(x: int, y0: int, y1: int, c: char, n: nat) -> Seq<Op>
    decreases y1 - y0,
{
    if y1 <= y0 {
        Seq::<Op>::empty()
    } else {
        column_ops(x, y0, y1 - 1, c, n) + run_at(x, y1 - 1, c, n)
    }
}

/// The colors of `cell`, then what `body` draws.
pub open spec fn segment(cell: BorderChar, body: Seq<Op>) -> Seq<Op> {
    color_ops(cell.1, cell.2) + body
}

/// The glyph style `S` resolves for `edge` against `theme`.
pub open spec fn cell<S: BorderStyle, U: BorderTheme>(edge: Edge, theme: &U) -> BorderChar {
    resolve(S::glyph(edge), theme)
}

/// The top row of a frame in style `S` and theme `theme` around `area`,
/// left to right.
pub open spec fn top_ops<S: BorderStyle, U: BorderTheme>(theme: &U, area: Area) -> Seq<Op> {
    let (x, y, w) = (area.0 as int, area.1 as int, area.2 as int);
    let tl = cell::<S, U>(Edge::TopLeft, theme);
    let t = cell::<S, U>(Edge::Top, theme);
    let tr = cell::<S, U>(Edge::TopRight, theme);
    segment(tl, run_at(x, y, tl.0, 1))
        + segment(t, run_at(x + 1, y, t.0, span(area)))
        + segment(tr, run_at(x + w - 1, y, tr.0, 1))
}

/// The rows between the top and the bottom of a frame: the left side, the
/// inside in the theme's background, then the right side.
pub open spec fn side_ops<S: BorderStyle, U: BorderTheme>(theme: &U, area: Area) -> Seq<Op> {
    let (x, y, w, h) = (area.0 as int, area.1 as int, area.2 as int, area.3 as int);
    let l = cell::<S, U>(Edge::Left, theme);
    let r = cell::<S, U>(Edge::Right, theme);
    segment(l, column_ops(x, y + 1, y + h - 1, l.0, 1))
        + color_ops(theme.hi_color(), theme.bg_color())
        + column_ops(x + 1, y + 1, y + h - 1, ' ', span(area))
        + segment(r, column_ops(x + w - 1, y + 1, y + h - 1, r.0, 1))
}

/// The bottom row of a frame, left to right.
pub open spec fn bottom_ops<S: BorderStyle, U: BorderTheme>(theme: &U, area: Area) -> Seq<Op> {
    let (x, y, w, h) = (area.0 as int, area.1 as int, area.2 as int, area.3 as int);
    let bl = cell::<S, U>(Edge::BottomLeft, theme);
    let b = cell::<S, U>(Edge::Bottom, theme);
    let br = cell::<S, U>(Edge::BottomRight, theme);
    segment(bl, run_at(x, y + h - 1, bl.0, 1))
        + segment(b, run_at(x + 1, y + h - 1, b.0, span(area)))
        + segment(br, run_at(x + w - 1, y + h - 1, br.0, 1))
}

/// The number of cells between the two corners of a row.
pub open spec fn span(area: Area) -> nat {
    if area.2 >= 2 { (area.2 - 2) as nat } else { 0 }
}

/// What a frame in style `S` and theme `theme` draws around `area`, in
/// order: the top row, the rows between, then the bottom row.
pub open spec fn frame_ops<S: BorderStyle, U: BorderTheme>(theme: &U, area: Area) -> Seq<Op> {
    top_ops::<S, U>(theme, area) + side_ops::<S, U>(theme, area) + bottom_ops::<S, U>(theme, area)
}

/// Prints `n` copies of `c` from column `x` of row `y`.
fn draw_run(out: &mut Vec<Command>, x: u16, y: u16, c: char, n: u16)
    ensures
        ops(final(out)@) == ops(old(out)@) + run_at(x as int, y as int, c, n as nat),
{
    let ghost start = ops(out@);
    emit(out, Command::MoveTo(x, y));
    let text = repeat_char(c, n as usize);
    emit(out, Command::Print(text));
    assert(ops(out@) =~= start + run_at(x as int, y as int, c, n as nat));
}

/// Prints `n` copies of `c` from column `x` of each row from `y0` up to,
/// not including, `y1`.
fn draw_column(out: &mut Vec<Command>, x: u16, y0: u16, y1: u16, c: char, n: u16)
    ensures
        ops(final(out)@) == ops(old(out)@) + column_ops(x as int, y0 as int, y1 as int, c, n as nat),
{
    let ghost start = ops(out@);
    let mut row: u16 = y0;
    if y1 <= y0 {
        assert(ops(out@) =~= start + column_ops(x as int, y0 as int, y1 as int, c, n as nat));
        return;
    }
    assert(column_ops(x as int, y0 as int, y0 as int, c, n as nat) =~= Seq::<Op>::empty());
    assert(ops(out@) =~= start + column_ops(x as int, y0 as int, row as int, c, n as nat));
    while row < y1
        invariant
            y0 <= row <= y1,
            ops(out@) == start + column_ops(x as int, y0 as int, row as int, c, n as nat),
        decreases y1 - row,
    {
        draw_run(out, x, row, c, n);
        row = row + 1;
        assert(ops(out@) =~= start + column_ops(x as int, y0 as int, row as int, c, n as nat));
    }
}

/// Sets the colors of `cell`, then prints `n` copies of its glyph from
/// column `x` of row `y`.
fn draw_cell_run(out: &mut Vec<Command>, cell: BorderChar, x: u16, y: u16, n: u16)
    ensures
        ops(final(out)@) == ops(old(out)@) + segment(cell, run_at(x as int, y as int, cell.0, n as nat)),
{
    let ghost start = ops(out@);
    let (c, fg, bg) = cell;
    set_colors(out, &fg, &bg);
    draw_run(out, x, y, c, n);
    assert(ops(out@) =~= start + segment(cell, run_at(x as int, y as int, cell.0, n as nat)));
}

/// Sets the colors of `cell`, then prints `n` copies of its glyph from
/// column `x` of each row from `y0` up to, not including, `y1`.
fn draw_cell_column(out: &mut Vec<Command>, cell: BorderChar, x: u16, y0: u16, y1: u16, n: u16)
    ensures
        ops(final(out)@) == ops(old(out)@) + segment(
            cell,
            column_ops(x as int, y0 as int, y1 as int, cell.0, n as nat),
        ),
{
    let ghost start = ops(out@);
    let (c, fg, bg) = cell;
    set_colors(out, &fg, &bg);
    draw_column(out, x, y0, y1, c, n);
    assert(ops(out@) =~= start + segment(
        cell,
        column_ops(x as int, y0 as int, y1 as int, cell.0, n as nat),
    ));
}

/// A border around another widget: a frame in glyph style `S` and color
/// theme `U`, with the widget drawn inside it.
#[derive(Clone, Copy, Default)]
pub struct Border<S: BorderStyle, U: BorderTheme, W: Widget>(pub S, pub U, pub W);

impl<S: BorderStyle, U: BorderTheme, W: Widget> Border<S, U, W> {
    /// Draws the top row of the frame.
    fn draw_top(&self, out: &mut Vec<Command>, area: Area)
        requires
            area.fits(),
            !area.is_empty(),
        ensures
            ops(final(out)@) == ops(old(out)@) + top_ops::<S, U>(&self.1, area),
    {
        let ghost start = ops(out@);
        let Area(x, y, w, _) = area;
        let span = w.saturating_sub(2);
        draw_cell_run(out, S::top_left(&self.1), x, y, 1);
        draw_cell_run(out, S::top(&self.1), x + 1, y, span);
        draw_cell_run(out, S::top_right(&self.1), x + w - 1, y, 1);
        assert(ops(out@) =~= start + top_ops::<S, U>(&self.1, area));
    }

    /// Draws the rows between the top and the bottom of the frame.
    fn draw_sides(&self, out: &mut Vec<Command>, area: Area)
        requires
            area.fits(),
            !area.is_empty(),
        ensures
            ops(final(out)@) == ops(old(out)@) + side_ops::<S, U>(&self.1, area),
    {
        let ghost start = ops(out@);
        let Area(x, y, w, h) = area;
        let span = w.saturating_sub(2);
        let last = y + h - 1;
        draw_cell_column(out, S::left(&self.1), x, y + 1, last, 1);
        let hi = self.1.hi();
        let back = self.1.bg();
        set_colors(out, &hi, &back);
        draw_column(out, x + 1, y + 1, last, ' ', span);
        draw_cell_column(out, S::right(&self.1), x + w - 1, y + 1, last, 1);
        assert(ops(out@) =~= start + side_ops::<S, U>(&self.1, area));
    }

    /// Draws the bottom row of the frame.
    fn draw_bottom(&self, out: &mut Vec<Command>, area: Area)
        requires
            area.fits(),
            !area.is_empty(),
        ensures
            ops(final(out)@) == ops(old(out)@) + bottom_ops::<S, U>(&self.1, area),
    {
        let ghost start = ops(out@);
        let Area(x, y, w, h) = area;
        let span = w.saturating_sub(2);
        let last = y + h - 1;
        draw_cell_run(out, S::bottom_left(&self.1), x, last, 1);
        draw_cell_run(out, S::bottom(&self.1), x + 1, last, span);
        draw_cell_run(out, S::bottom_right(&self.1), x + w - 1, last, 1);
        assert(ops(out@) =~= start + bottom_ops::<S, U>(&self.1, area));
    }

    /// Draws the frame around `area`.
    fn draw_frame(&self, out: &mut Vec<Command>, area: Area)
        requires
            area.fits(),
            !area.is_empty(),
        ensures
            ops(final(out)@) == ops(old(out)@) + frame_ops::<S, U>(&self.1, area),
    {
        let ghost start = ops(out@);
        self.draw_top(out, area);
        self.draw_sides(out, area);
        self.draw_bottom(out, area);
        assert(ops(out@) =~= start + frame_ops::<S, U>(&self.1, area));
    }
}

impl<S: BorderStyle, U: BorderTheme, W: Widget> Widget for Border<S, U, W> {
    /// Nothing on an empty area; otherwise the frame, then the theme's
    /// background, then the inner widget one cell in from each side.
    open spec fn drawn(&self, area: Area) -> Seq<Op> {
        if area.is_empty() {
            Seq::<Op>::empty()
        } else {
            frame_ops::<S, U>(&self.1, area) + color_ops(None, self.1.bg_color()) + self.2.drawn(
                area.inset(),
            )
        }
    }

    open spec fn used(&self, area: Area) -> (u16, u16) {
        if area.is_empty() {
            (0, 0)
        } else {
            self.2.used(area.inset())
        }
    }

    /// Takes no event and stays as it was.
    open spec fn handled(&self, event: Event, next: Self, consumed: bool) -> bool {
        next == *self && !consumed
    }

    fn render(&self, out: &mut Vec<Command>, area: Area) -> (r: (u16, u16)) {
        if area.2 == 0 || area.3 == 0 {
            assert(ops(out@) =~= ops(old(out)@) + self.drawn(area));
            return (0, 0);
        }
        let ghost start = ops(out@);
        self.draw_frame(out, area);
        let back = self.1.bg();
        set_colors(out, &None, &back);
        let inner = area.inner();
        let r = self.2.render(out, inner);
        assert(ops(out@) =~= start + self.drawn(area));
        r
    }

    fn handle(&mut self, event: Event) -> (consumed: bool) {
        false
    }
}

/// A border given an area with no width or no height draws nothing and
/// uses no space.
pub proof fn lemma_border_empty_area<S: BorderStyle, U: BorderTheme, W: Widget>(
    b: Border<S, U, W>,
    area: Area,
)
    requires
        area.2 == 0 || area.3 == 0,
    ensures
        b.drawn(area) == Seq::<Op>::empty(),
        b.used(area) == (0u16, 0u16),
{
}

/// A border over the five-by-five area at the origin draws its top row,
/// each of the three rows between (left side, inside, right side), and its
/// bottom row, once each, then the inner widget in the three-by-three area
/// one cell in.
#[verifier::rlimit(40)]
pub proof fn lemma_border_five_by_five<S: BorderStyle, U: BorderTheme, W: Widget>(
    b: Border<S, U, W>,
)
    ensures
        ({
            let area = Area(0, 0, 5, 5);
            let l = cell::<S, U>(Edge::Left, &b.1);
            let r = cell::<S, U>(Edge::Right, &b.1);
            let tl = cell::<S, U>(Edge::TopLeft, &b.1);
            let t = cell::<S, U>(Edge::Top, &b.1);
            let tr = cell::<S, U>(Edge::TopRight, &b.1);
            let bl = cell::<S, U>(Edge::BottomLeft, &b.1);
            let bo = cell::<S, U>(Edge::Bottom, &b.1);
            let br = cell::<S, U>(Edge::BottomRight, &b.1);
            b.drawn(area) == segment(tl, run_at(0, 0, tl.0, 1))
                + segment(t, run_at(1, 0, t.0, 3))
                + segment(tr, run_at(4, 0, tr.0, 1))
                + segment(l, run_at(0, 1, l.0, 1) + run_at(0, 2, l.0, 1) + run_at(0, 3, l.0, 1))
                + color_ops(b.1.hi_color(), b.1.bg_color())
                + (run_at(1, 1, ' ', 3) + run_at(1, 2, ' ', 3) + run_at(1, 3, ' ', 3))
                + segment(r, run_at(4, 1, r.0, 1) + run_at(4, 2, r.0, 1) + run_at(4, 3, r.0, 1))
                + segment(bl, run_at(0, 4, bl.0, 1))
                + segment(bo, run_at(1, 4, bo.0, 3))
                + segment(br, run_at(4, 4, br.0, 1))
                + color_ops(None, b.1.bg_color())
                + b.2.drawn(Area(1, 1, 3, 3))
        }),
        b.used(Area(0, 0, 5, 5)) == b.2.used(Area(1, 1, 3, 3)),
{
    reveal_with_fuel(column_ops, 4);
    let area = Area(0, 0, 5, 5);
    assert(area.inset() == Area(1, 1, 3, 3));
    assert(column_ops(0, 1, 4, cell::<S, U>(Edge::Left, &b.1).0, 1) =~= run_at(
        0,
        1,
        cell::<S, U>(Edge::Left, &b.1).0,
        1,
    ) + run_at(0, 2, cell::<S, U>(Edge::Left, &b.1).0, 1) + run_at(
        0,
        3,
        cell::<S, U>(Edge::Left, &b.1).0,
        1,
    ));
    assert(column_ops(1, 1, 4, ' ', 3) =~= run_at(1, 1, ' ', 3) + run_at(1, 2, ' ', 3) + run_at(
        1,
        3,
        ' ',
        3,
    ));
    assert(column_ops(4, 1, 4, cell::<S, U>(Edge::Right, &b.1).0, 1) =~= run_at(
        4,
        1,
        cell::<S, U>(Edge::Right, &b.1).0,
        1,
    ) + run_at(4, 2, cell::<S, U>(Edge::Right, &b.1).0, 1) + run_at(
        4,
        3,
        cell::<S, U>(Edge::Right, &b.1).0,
        1,
    ));
}

/// Choosing colors prints nothing.
proof fn lemma_color_ops_inside(fg: Option<Color>, bg: Option<Color>, area: Area)
    ensures
        inside(color_ops(fg, bg), area),
{
    let ops = color_ops(fg, bg);
    assert forall|i: int| 0 <= i < ops.len() implies !(#[trigger] ops[i] is Print) by {
        if i > 0 {
            match fg {
                Some(c) => if i == 1 {
                    assert(ops[i] == Op::SetForeground(c));
                } else {
                    assert(ops[i] == Op::SetBackground(bg.unwrap()));
                },
                None => assert(ops[i] == Op::SetBackground(bg.unwrap())),
            }
        }
    }
}

/// A run that fits in a row of `area` draws inside it.
proof fn lemma_run_inside(x: int, y: int, c: char, n: nat, area: Area)
    requires
        area.fits(),
        area.0 <= x,
        x + n <= area.0 + area.2,
        area.1 <= y < area.1 + area.3,
    ensures
        inside(run_at(x, y, c, n), area),
{
}

/// A column of runs that fit in rows of `area` draws inside it.
proof fn lemma_column_inside(x: int, y0: int, y1: int, c: char, n: nat, area: Area)
    requires
        area.fits(),
        area.0 <= x,
        x + n <= area.0 + area.2,
        area.1 <= y0,
        y1 <= area.1 + area.3,
    ensures
        inside(column_ops(x, y0, y1, c, n), area),
    decreases y1 - y0,
{
    if y1 > y0 {
        lemma_column_inside(x, y0, y1 - 1, c, n, area);
        lemma_run_inside(x, y1 - 1, c, n, area);
        lemma_inside_concat(column_ops(x, y0, y1 - 1, c, n), run_at(x, y1 - 1, c, n), area);
    }
}

/// A segment whose body draws inside `area` does too, and starts with a
/// color reset.
proof fn lemma_segment_inside(cell: BorderChar, body: Seq<Op>, area: Area)
    requires
        inside(body, area),
    ensures
        inside(segment(cell, body), area),
{
    lemma_color_ops_inside(cell.1, cell.2, area);
    lemma_inside_concat(color_ops(cell.1, cell.2), body, area);
}

/// The top row of a frame draws only inside the frame's area.
proof fn lemma_top_inside<S: BorderStyle, U: BorderTheme>(theme: &U, area: Area)
    requires
        area.fits(),
        !area.is_empty(),
    ensures
        inside(top_ops::<S, U>(theme, area), area),
{
    let (x, y, w) = (area.0 as int, area.1 as int, area.2 as int);
    let tl = cell::<S, U>(Edge::TopLeft, theme);
    let t = cell::<S, U>(Edge::Top, theme);
    let tr = cell::<S, U>(Edge::TopRight, theme);
    lemma_run_inside(x, y, tl.0, 1, area);
    lemma_run_inside(x + 1, y, t.0, span(area), area);
    lemma_run_inside(x + w - 1, y, tr.0, 1, area);
    let s1 = segment(tl, run_at(x, y, tl.0, 1));
    let s2 = segment(t, run_at(x + 1, y, t.0, span(area)));
    let s3 = segment(tr, run_at(x + w - 1, y, tr.0, 1));
    lemma_segment_inside(tl, run_at(x, y, tl.0, 1), area);
    lemma_segment_inside(t, run_at(x + 1, y, t.0, span(area)), area);
    lemma_segment_inside(tr, run_at(x + w - 1, y, tr.0, 1), area);
    lemma_inside_concat(s1, s2, area);
    lemma_inside_concat(s1 + s2, s3, area);
}

/// The rows between the top and the bottom of a frame draw only inside
/// the frame's area.
proof fn lemma_sides_inside<S: BorderStyle, U: BorderTheme>(theme: &U, area: Area)
    requires
        area.fits(),
        !area.is_empty(),
    ensures
        inside(side_ops::<S, U>(theme, area), area),
{
    let (x, y, w, h) = (area.0 as int, area.1 as int, area.2 as int, area.3 as int);
    let l = cell::<S, U>(Edge::Left, theme);
    let r = cell::<S, U>(Edge::Right, theme);
    lemma_column_inside(x, y + 1, y + h - 1, l.0, 1, area);
    lemma_column_inside(x + 1, y + 1, y + h - 1, ' ', span(area), area);
    lemma_column_inside(x + w - 1, y + 1, y + h - 1, r.0, 1, area);
    let c1 = segment(l, column_ops(x, y + 1, y + h - 1, l.0, 1));
    let c2 = color_ops(theme.hi_color(), theme.bg_color());
    let c3 = column_ops(x + 1, y + 1, y + h - 1, ' ', span(area));
    let c4 = segment(r, column_ops(x + w - 1, y + 1, y + h - 1, r.0, 1));
    lemma_segment_inside(l, column_ops(x, y + 1, y + h - 1, l.0, 1), area);
    lemma_segment_inside(r, column_ops(x + w - 1, y + 1, y + h - 1, r.0, 1), area);
    lemma_color_ops_inside(theme.hi_color(), theme.bg_color(), area);
    lemma_inside_concat(c1, c2, area);
    lemma_inside_concat(c1 + c2, c3, area);
    lemma_inside_concat(c1 + c2 + c3, c4, area);
}

/// The bottom row of a frame draws only inside the frame's area.
proof fn lemma_bottom_inside<S: BorderStyle, U: BorderTheme>(theme: &U, area: Area)
    requires
        area.fits(),
        !area.is_empty(),
    ensures
        inside(bottom_ops::<S, U>(theme, area), area),
{
    let (x, y, w, h) = (area.0 as int, area.1 as int, area.2 as int, area.3 as int);
    let bl = cell::<S, U>(Edge::BottomLeft, theme);
    let b = cell::<S, U>(Edge::Bottom, theme);
    let br = cell::<S, U>(Edge::BottomRight, theme);
    lemma_run_inside(x, y + h - 1, bl.0, 1, area);
    lemma_run_inside(x + 1, y + h - 1, b.0, span(area), area);
    lemma_run_inside(x + w - 1, y + h - 1, br.0, 1, area);
    let b1 = segment(bl, run_at(x, y + h - 1, bl.0, 1));
    let b2 = segment(b, run_at(x + 1, y + h - 1, b.0, span(area)));
    let b3 = segment(br, run_at(x + w - 1, y + h - 1, br.0, 1));
    lemma_segment_inside(bl, run_at(x, y + h - 1, bl.0, 1), area);
    lemma_segment_inside(b, run_at(x + 1, y + h - 1, b.0, span(area)), area);
    lemma_segment_inside(br, run_at(x + w - 1, y + h - 1, br.0, 1), area);
    lemma_inside_concat(b1, b2, area);
    lemma_inside_concat(b1 + b2, b3, area);
}

/// A frame draws only inside the area it goes around.
pub proof fn lemma_frame_inside<S: BorderStyle, U: BorderTheme>(theme: &U, area: Area)
    requires
        area.fits(),
        !area.is_empty(),
    ensures
        inside(frame_ops::<S, U>(theme, area), area),
{
    let top = top_ops::<S, U>(theme, area);
    let sides = side_ops::<S, U>(theme, area);
    let bottom = bottom_ops::<S, U>(theme, area);
    lemma_top_inside::<S, U>(theme, area);
    lemma_sides_inside::<S, U>(theme, area);
    lemma_bottom_inside::<S, U>(theme, area);
    lemma_inside_concat(top, sides, area);
    lemma_inside_concat(top + sides, bottom, area);
}

/// A border draws only inside its area, as long as the widget it frames
/// draws only inside the area it is given.
pub proof fn lemma_border_inside<S: BorderStyle, U: BorderTheme, W: Widget>(b: Border<S, U, W>, area: Area)
    requires
        area.fits(),
        inside(b.2.drawn(area.inset()), area.inset()),
    ensures
        inside(b.drawn(area), area),
{
    if !area.is_empty() {
        lemma_frame_inside::<S, U>(&b.1, area);
        lemma_color_ops_inside(None, b.1.bg_color(), area);
        lemma_inside_widen(b.2.drawn(area.inset()), area.inset(), area);
        let frame = frame_ops::<S, U>(&b.1, area);
        let back = color_ops(None, b.1.bg_color());
        lemma_inside_concat(frame, back, area);
        lemma_inside_concat(frame + back, b.2.drawn(area.inset()), area);
    }
}

} // verus!
