//! The single-digit display (5161BS): eight segment lines and a pair of
//! common lines that both power the one digit.
use crate::lines::{
    after, blank_writes, commons_to, distinct_lines, lemma_after_concat, lemma_after_distinct,
    lemma_after_untouched, lemma_blank, lemma_segments_for, push_commons, push_segments_for,
    push_segments_unlit, segments_for, touches, Levels, Line, PinWrite,
};
use crate::segment::{encode, level_for, pattern, Digit, InvalidValue, Segment};
use embedded_hal::digital::PinState;
use vstd::prelude::*;

verus! {

/// The number of common lines; they are always driven together.
pub const COMMONS: usize = 2;

/// The writes that show the segments in `lit`: blank the digit, write the
/// segment lines, and only then drive the common lines high.
pub open spec fn single_show_writes(lit: Set<Segment>) -> Seq<PinWrite> {
    blank_writes(COMMONS as nat) + segments_for(lit) + commons_to(COMMONS as nat, PinState::High)
}

/// The segments lit to show `number`, with the dot lit as well if `with_dot`.
pub open spec fn number_segments(number: nat, with_dot: bool) -> Set<Segment> {
    if with_dot {
        pattern(number).insert(Segment::DP)
    } else {
        pattern(number)
    }
}

/// Plans the pin writes of a single-digit display. Each operation returns
/// the writes to carry out, in order; a caller stops at the first write that
/// fails.
#[derive(Clone, Copy, Debug)]
pub struct Display5161BS {}

impl Display5161BS {
    /// Sets up a display, which powers it on: returns the display together
    /// with the writes that drive both common lines high and touch no
    /// segment line.
    pub fn new() -> (r: (Self, Vec<PinWrite>))
        ensures
            r.1@ == commons_to(COMMONS as nat, PinState::High),
    {
        let display = Display5161BS {};
        let writes = display.toggle_on();
        (display, writes)
    }

    /// Powers the digit: both common lines high.
    pub fn toggle_on(&self) -> (r: Vec<PinWrite>)
        ensures
            r@ == commons_to(COMMONS as nat, PinState::High),
    {
        let mut out: Vec<PinWrite> = Vec::new();
        push_commons(&mut out, COMMONS, PinState::High);
        proof {
            assert(out@ =~= commons_to(COMMONS as nat, PinState::High));
        }
        out
    }

    /// Cuts the digit's power: both common lines low.
    pub fn toggle_off(&self) -> (r: Vec<PinWrite>)
        ensures
            r@ == commons_to(COMMONS as nat, PinState::Low),
    {
        let mut out: Vec<PinWrite> = Vec::new();
        push_commons(&mut out, COMMONS, PinState::Low);
        proof {
            assert(out@ =~= commons_to(COMMONS as nat, PinState::Low));
        }
        out
    }

    /// Blanks the digit: both common lines low, then all segment lines high.
    pub fn clear(&self) -> (r: Vec<PinWrite>)
        ensures
            r@ == blank_writes(COMMONS as nat),
    {
        let mut out: Vec<PinWrite> = Vec::new();
        push_commons(&mut out, COMMONS, PinState::Low);
        push_segments_unlit(&mut out);
        proof {
            assert(out@ =~= blank_writes(COMMONS as nat));
        }
        out
    }

    /// Shows `digit`.
    pub fn show_digit(&self, digit: Digit) -> (r: Vec<PinWrite>)
        ensures
            r@ == single_show_writes(digit.lit_segments()),
    {
        let mut out = self.clear();
        push_segments_for(&mut out, &digit);
        push_commons(&mut out, COMMONS, PinState::High);
        out
    }

    /// Shows the decimal digit `number`; fails, with nothing to write, unless
    /// `number` is in `0..=9`.
    pub fn show_number(&self, number: u8) -> (r: Result<Vec<PinWrite>, InvalidValue>)
        ensures
            number <= 9 ==> r is Ok && r->Ok_0@ == single_show_writes(pattern(number as nat)),
            number > 9 ==> r == Err::<Vec<PinWrite>, InvalidValue>(InvalidValue { value: number }),
    {
        self.show_number_dot(number, false)
    }

    /// Shows the decimal digit `number`, with the dot lit if `with_dot`;
    /// fails, with nothing to write, unless `number` is in `0..=9`.
    pub fn show_number_dot(&self, number: u8, with_dot: bool) -> (r: Result<
        Vec<PinWrite>,
        InvalidValue,
    >)
        ensures
            number <= 9 ==> r is Ok && r->Ok_0@ == single_show_writes(
                number_segments(number as nat, with_dot),
            ),
            number > 9 ==> r == Err::<Vec<PinWrite>, InvalidValue>(InvalidValue { value: number }),
    {
        match encode(number) {
            Ok(digit) => {
                let mut digit = digit;
                if with_dot {
                    digit.toggle_dp();
                }
                assert(digit.lit_segments() =~= number_segments(number as nat, with_dot));
                Ok(self.show_digit(digit))
            },
            Err(e) => Err(e),
        }
    }
}

/// After showing a digit, both common lines are high and each segment line
/// is at its level for the digit, whatever the lines held before.
pub proof fn lemma_single_show_levels(m: Levels, lit: Set<Segment>)
    ensures
        forall|q: usize|
            q < COMMONS ==> #[trigger] after(m, single_show_writes(lit))(Line::Common(q))
                == PinState::High,
        forall|s: Segment|
            #[trigger] after(m, single_show_writes(lit))(Line::Segment(s)) == level_for(
                lit.contains(s),
            ),
{
    let b = blank_writes(COMMONS as nat);
    let w = segments_for(lit);
    let on = commons_to(COMMONS as nat, PinState::High);
    lemma_after_concat(m, b, w);
    lemma_after_concat(m, b + w, on);
    let mb = after(m, b);
    let mw = after(m, b + w);
    lemma_blank(m, COMMONS as nat);
    lemma_segments_for(mb, lit);
    assert(distinct_lines(on));
    assert forall|q: usize| q < COMMONS implies #[trigger] after(m, single_show_writes(lit))(
        Line::Common(q),
    ) == PinState::High by {
        lemma_after_distinct(mw, on, q as int);
    }
    assert forall|s: Segment|
        #[trigger] after(m, single_show_writes(lit))(Line::Segment(s)) == level_for(
            lit.contains(s),
        ) by {
        assert(!touches(on, Line::Segment(s)));
        lemma_after_untouched(mw, on, Line::Segment(s));
    }
}

/// Clearing leaves both common lines low and every segment line unlit,
/// whatever the lines held before.
pub proof fn lemma_single_clear_levels(m: Levels)
    ensures
        forall|q: usize|
            q < COMMONS ==> #[trigger] after(m, blank_writes(COMMONS as nat))(Line::Common(q))
                == PinState::Low,
        forall|s: Segment|
            #[trigger] after(m, blank_writes(COMMONS as nat))(Line::Segment(s)) == PinState::High,
{
    lemma_blank(m, COMMONS as nat);
}

} // verus!
