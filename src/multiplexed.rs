//! The 4-digit multiplexed display (3461BS): eight segment lines shared by
//! four digits, each digit with a common line of its own.
use crate::lines::{
    after, after_write, at_most_one_common_high, blank_writes, lemma_after_concat, lemma_after_twice,
    lemma_blank, lemma_no_common_high, lemma_segments_for, no_common_high, push_commons,
    push_segments_for, push_segments_unlit, segments_for, Levels, Line, PinWrite,
};
use crate::segment::{encode, level_for, pattern, Digit, InvalidValue, Segment};
use embedded_hal::digital::PinState;
use vstd::prelude::*;

verus! {

/// The number of digits, and so of common lines.
pub const POSITIONS: usize = 4;

/// Which of the four digits a write targets, from the left.
#[derive(Clone, Copy, Debug, PartialEq, Eq, Structural)]
pub enum Position {
    First,
    Second,
    Third,
    Fourth,
}

impl Position {
    /// The index of the position's common line.
    pub open spec fn common(self) -> usize {
        match self {
            Position::First => 0,
            Position::Second => 1,
            Position::Third => 2,
            Position::Fourth => 3,
        }
    }

    /// The index of the position's common line.
    pub fn common_index(&self) -> (r: usize)
        ensures
            r == self.common(),
    {
        match self {
            Position::First => 0,
            Position::Second => 1,
            Position::Third => 2,
            Position::Fourth => 3,
        }
    }
}

/// The writes that show the segments in `lit` on the digit at `position`:
/// blank everything, write the segment lines, and only then drive the
/// position's common line high.
pub open spec fn show_writes(position: Position, lit: Set<Segment>) -> Seq<PinWrite> {
    blank_writes(POSITIONS as nat) + segments_for(lit) + seq![
        PinWrite { line: Line::Common(position.common()), level: PinState::High },
    ]
}

/// Plans the pin writes of a 4-digit multiplexed display. Each operation
/// returns the writes to carry out, in order; a caller stops at the first
/// write that fails.
#[derive(Clone, Copy, Debug)]
pub struct Display3461bs {}

impl Display3461bs {
    pub fn new() -> (r: Self) {
        Display3461bs {}
    }

    /// Blanks every digit: all common lines low, then all segment lines high.
    pub fn clear(&self) -> (r: Vec<PinWrite>)
        ensures
            r@ == blank_writes(POSITIONS as nat),
    {
        let mut out: Vec<PinWrite> = Vec::new();
        push_commons(&mut out, POSITIONS, PinState::Low);
        push_segments_unlit(&mut out);
        proof {
            assert(out@ =~= blank_writes(POSITIONS as nat));
        }
        out
    }

    /// Shows `digit` on the digit at `position`, and on no other.
    pub fn show_digit(&self, position: Position, digit: Digit) -> (r: Vec<PinWrite>)
        ensures
            r@ == show_writes(position, digit.lit_segments()),
    {
        let mut out = self.clear();
        push_segments_for(&mut out, &digit);
        out.push(PinWrite { line: Line::Common(position.common_index()), level: PinState::High });
        out
    }

    /// Shows the decimal digit `number` at `position`; fails, with nothing to
    /// write, unless `number` is in `0..=9`.
    pub fn show_number(&self, position: Position, number: u8) -> (r: Result<
        Vec<PinWrite>,
        InvalidValue,
    >)
        ensures
            number <= 9 ==> r is Ok && r->Ok_0@ == show_writes(position, pattern(number as nat)),
            number > 9 ==> r == Err::<Vec<PinWrite>, InvalidValue>(InvalidValue { value: number }),
    {
        match encode(number) {
            Ok(digit) => {
                assert(digit.lit_segments() =~= pattern(number as nat));
                Ok(self.show_digit(position, digit))
            },
            Err(e) => Err(e),
        }
    }
}

/// Clearing leaves every common line low and every segment line unlit,
/// whatever the lines held before.
pub proof fn lemma_clear_levels(m: Levels)
    ensures
        forall|q: usize|
            q < POSITIONS ==> #[trigger] after(m, blank_writes(POSITIONS as nat))(Line::Common(q))
                == PinState::Low,
        forall|s: Segment|
            #[trigger] after(m, blank_writes(POSITIONS as nat))(Line::Segment(s)) == PinState::High,
{
    lemma_blank(m, POSITIONS as nat);
}

/// After showing a digit at `position`, that position's common line is the
/// one high common line, and each segment line is at its level for the
/// digit, whatever the lines held before.
pub proof fn lemma_show_levels(m: Levels, position: Position, lit: Set<Segment>)
    ensures
        after(m, show_writes(position, lit))(Line::Common(position.common())) == PinState::High,
        forall|q: usize|
            q < POSITIONS && q != position.common() ==> #[trigger] after(m, show_writes(position, lit))(
                Line::Common(q),
            ) == PinState::Low,
        forall|s: Segment|
            #[trigger] after(m, show_writes(position, lit))(Line::Segment(s)) == level_for(
                lit.contains(s),
            ),
{
    let b = blank_writes(POSITIONS as nat);
    let w = segments_for(lit);
    let sel = seq![PinWrite { line: Line::Common(position.common()), level: PinState::High }];
    lemma_after_concat(m, b, w);
    lemma_after_concat(m, b + w, sel);
    let mb = after(m, b);
    lemma_blank(m, POSITIONS as nat);
    lemma_segments_for(mb, lit);
    assert(sel.drop_last() =~= Seq::<PinWrite>::empty());
    assert(show_writes(position, lit) == b + w + sel);
    let mw = after(m, b + w);
    assert(after(mw, sel) == after_write(mw, sel[0])) by {
        reveal_with_fuel(after, 2);
    }
    assert forall|q: usize|
        q < POSITIONS && q != position.common() implies #[trigger] after(m, show_writes(position, lit))(
        Line::Common(q),
    ) == PinState::Low by {
        assert(mw(Line::Common(q)) == mb(Line::Common(q)));
    }
    assert forall|s: Segment|
        #[trigger] after(m, show_writes(position, lit))(Line::Segment(s)) == level_for(
            lit.contains(s),
        ) by {
        assert(mw(Line::Segment(s)) == after(mb, w)(Line::Segment(s)));
    }
}

/// While the writes that show a digit are carried out, at no point are two
/// common lines high, provided at most one was high before.
pub proof fn lemma_show_never_two_commons(m: Levels, position: Position, lit: Set<Segment>, k: int)
    requires
        at_most_one_common_high(m, POSITIONS as nat),
        0 <= k <= show_writes(position, lit).len(),
    ensures
        at_most_one_common_high(after(m, show_writes(position, lit).take(k)), POSITIONS as nat),
{
    let ws = show_writes(position, lit);
    let last = ws.len() - 1;
    if k <= last {
        let pre = ws.take(k);
        assert(no_common_high(pre)) by {
            assert forall|i: int| 0 <= i < pre.len() && pre[i].line is Common implies pre[i].level
                == PinState::Low by {
                assert(pre[i] == ws[i]);
            }
        }
        assert forall|p: usize, q: usize|
            p < POSITIONS && q < POSITIONS && after(m, pre)(Line::Common(p)) == PinState::High
                && after(m, pre)(Line::Common(q)) == PinState::High implies p == q by {
            lemma_no_common_high(m, pre, p);
            lemma_no_common_high(m, pre, q);
        }
    } else {
        assert(ws.take(k) =~= ws);
        lemma_show_levels(m, position, lit);
    }
}

/// Showing the same digit at the same position twice in a row leaves the
/// lines as showing it once.
pub proof fn lemma_show_twice(m: Levels, position: Position, lit: Set<Segment>)
    ensures
        after(after(m, show_writes(position, lit)), show_writes(position, lit)) == after(
            m,
            show_writes(position, lit),
        ),
{
    lemma_after_twice(m, show_writes(position, lit));
}

} // verus!
