use vstd::prelude::*;
use crate::geometry::Area;

verus! {

/// A terminal color.
#[derive(Clone, Copy, Debug, PartialEq, Eq, Structural)]
pub enum Color {
    Reset,
    Black,
    DarkGrey,
    Red,
    DarkRed,
    Green,
    DarkGreen,
    Yellow,
    DarkYellow,
    Blue,
    DarkBlue,
    Magenta,
    DarkMagenta,
    Cyan,
    DarkCyan,
    White,
    Grey,
    Rgb { r: u8, g: u8, b: u8 },
    AnsiValue(u8),
}

/// One operation on the output: the whole of what widgets draw with.
#[derive(Debug, PartialEq, Eq)]
pub enum Command {
    /// Move the cursor to a column and a row.
    MoveTo(u16, u16),
    /// Print text at the cursor.
    Print(Vec<char>),
    /// Return both colors to the terminal's defaults.
    ResetColor,
    /// Set the text color.
    SetForeground(Color),
    /// Set the color behind the text.
    SetBackground(Color),
    /// Print what follows in bold.
    Bold,
}

/// What a command does, with its text as a sequence of characters.
pub enum Op {
    MoveTo(u16, u16),
    Print(Seq<char>),
    ResetColor,
    SetForeground(Color),
    SetBackground(Color),
    Bold,
}

impl View for Command {
    type V = Op;

    open spec fn view(&self) -> Op {
        match self {
            Command::MoveTo(x, y) => Op::MoveTo(*x, *y),
            Command::Print(t) => Op::Print(t@),
            Command::ResetColor => Op::ResetColor,
            Command::SetForeground(c) => Op::SetForeground(*c),
            Command::SetBackground(c) => Op::SetBackground(*c),
            Command::Bold => Op::Bold,
        }
    }
}

/// The operations a list of commands performs, in order.
pub open spec fn ops(cmds: Seq<Command>) -> Seq<Op> {
    cmds.map_values(|c: Command| c@)
}

/// Every print in `ops` comes right after a move to a cell of `area`, and
/// its text ends within that row of the area.
pub open spec fn inside(ops: Seq<Op>, area: Area) -> bool {
    forall|i: int|
        0 <= i < ops.len() && (#[trigger] ops[i]) is Print ==> i > 0 && match (ops[i - 1], ops[i]) {
            (Op::MoveTo(x, y), Op::Print(t)) => {
                &&& area.0 <= x
                &&& x + t.len() <= area.0 + area.2
                &&& area.1 <= y < area.1 + area.3
            },
            _ => false,
        }
}

/// Two runs of operations that each draw inside `area` still do so one
/// after the other.
pub proof fn lemma_inside_concat(a: Seq<Op>, b: Seq<Op>, area: Area)
    requires
        inside(a, area),
        inside(b, area),
    ensures
        inside(a + b, area),
{
    let ab = a + b;
    assert forall|i: int| 0 <= i < ab.len() && (#[trigger] ab[i]) is Print implies i > 0 && match (
        ab[i - 1],
        ab[i],
    ) {
        (Op::MoveTo(x, y), Op::Print(t)) => {
            &&& area.0 <= x
            &&& x + t.len() <= area.0 + area.2
            &&& area.1 <= y < area.1 + area.3
        },
        _ => false,
    } by {
        if i < a.len() {
            assert(ab[i] == a[i]);
            assert(a[i] is Print);
            if i > 0 {
                assert(ab[i - 1] == a[i - 1]);
            }
        } else {
            let j = i - a.len();
            assert(ab[i] == b[j]);
            assert(b[j] is Print);
            assert(inside(b, area));
            assert(ab[i - 1] == b[j - 1]);
        }
    }
}

/// What draws inside an area also draws inside any area around it.
pub proof fn lemma_inside_widen(ops: Seq<Op>, small: Area, big: Area)
    requires
        inside(ops, small),
        big.0 <= small.0,
        small.0 + small.2 <= big.0 + big.2,
        big.1 <= small.1,
        small.1 + small.3 <= big.1 + big.3,
    ensures
        inside(ops, big),
{
    assert forall|i: int| 0 <= i < ops.len() && (#[trigger] ops[i]) is Print implies i > 0 && match (
        ops[i - 1],
        ops[i],
    ) {
        (Op::MoveTo(x, y), Op::Print(t)) => {
            &&& big.0 <= x
            &&& x + t.len() <= big.0 + big.2
            &&& big.1 <= y < big.1 + big.3
        },
        _ => false,
    } by {
        assert(inside(ops, small));
    }
}

/// `n` copies of `c`.
pub open spec fn repeated(c: char, n: nat) -> Seq<char> {
    Seq::new(n, |i: int| c)
}

/// Appends one command to the output.
pub fn emit(out: &mut Vec<Command>, c: Command)
    ensures
        ops(final(out)@) == ops(old(out)@).push(c@),
{
    let ghost v = c@;
    out.push(c);
    assert(ops(out@) =~= ops(old(out)@).push(v));
}

/// Text made of `n` copies of `c`; empty when `n` is zero.
pub fn repeat_char(c: char, n: usize) -> (r: Vec<char>)
    ensures
        r@ == repeated(c, n as nat),
{
    let mut r: Vec<char> = Vec::new();
    let mut i: usize = 0;
    while i < n
        invariant
            i <= n,
            r@ == repeated(c, i as nat),
        decreases n - i,
    {
        r.push(c);
        i = i + 1;
        assert(r@ =~= repeated(c, i as nat));
    }
    r
}

/// The operations that choose a segment's colors: a reset, then each color
/// that is set.
pub open spec fn color_ops(fg: Option<Color>, bg: Option<Color>) -> Seq<Op> {
    seq![Op::ResetColor] + match fg {
        Some(c) => seq![Op::SetForeground(c)],
        None => Seq::<Op>::empty(),
    } + match bg {
        Some(c) => seq![Op::SetBackground(c)],
        None => Seq::<Op>::empty(),
    }
}

/// Resets the colors, then sets each of `fg` and `bg` that is set.
pub fn set_colors(out: &mut Vec<Command>, fg: &Option<Color>, bg: &Option<Color>)
    ensures
        ops(final(out)@) == ops(old(out)@) + color_ops(*fg, *bg),
{
    let ghost start = ops(out@);
    emit(out, Command::ResetColor);
    if let Some(c) = fg {
        emit(out, Command::SetForeground(*c));
    }
    if let Some(c) = bg {
        emit(out, Command::SetBackground(*c));
    }
    assert(ops(out@) =~= start + color_ops(*fg, *bg));
}

} // verus!
