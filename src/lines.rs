//! Output lines, pin writes, and the line levels that a sequence of writes
//! leaves behind.
use crate::segment::{level_for, Digit, Segment};
use embedded_hal::digital::PinState;
use vstd::prelude::*;

verus! {

/// One output line of a display: a segment line, or the common line of the
/// digit (or power gate) with the given index.
#[derive(Clone, Copy, Debug, PartialEq, Eq, Structural)]
pub enum Line {
    Segment(Segment),
    Common(usize),
}

/// Drive `line` to `level`.
#[derive(Clone, Copy, Debug)]
pub struct PinWrite {
    pub line: Line,
    pub level: PinState,
}

/// The level of every line.
pub type Levels = spec_fn(Line) -> PinState;

/// The levels after one write.
pub open spec fn after_write(m: Levels, w: PinWrite) -> Levels {
    |l: Line|
        if l == w.line {
            w.level
        } else {
            m(l)
        }
}

/// The levels after carrying out `ws` in order, starting from `m`.
pub open spec fn after(m: Levels, ws: Seq<PinWrite>) -> Levels
    decreases ws.len(),
{
    if ws.len() == 0 {
        m
    } else {
        after_write(after(m, ws.drop_last()), ws.last())
    }
}

/// Whether some write of `ws` drives `l`.
pub open spec fn touches(ws: Seq<PinWrite>, l: Line) -> bool {
    exists|i: int| 0 <= i < ws.len() && ws[i].line == l
}

/// No two writes of `ws` drive the same line.
pub open spec fn distinct_lines(ws: Seq<PinWrite>) -> bool {
    forall|i: int, j: int| 0 <= i < ws.len() && 0 <= j < ws.len() && i != j ==> ws[i].line != ws[j].line
}

/// No write of `ws` drives a common line high.
pub open spec fn no_common_high(ws: Seq<PinWrite>) -> bool {
    forall|i: int| 0 <= i < ws.len() && ws[i].line is Common ==> ws[i].level == PinState::Low
}

/// At most one of the common lines `0..n` is high.
pub open spec fn at_most_one_common_high(m: Levels, n: nat) -> bool {
    forall|p: usize, q: usize|
        p < n && q < n && m(Line::Common(p)) == PinState::High && m(Line::Common(q)) == PinState::High
            ==> p == q
}

/// The segments in the order in which they are written: A to G, then DP.
pub open spec fn segment_at(i: int) -> Segment {
    if i == 0 {
        Segment::A
    } else if i == 1 {
        Segment::B
    } else if i == 2 {
        Segment::C
    } else if i == 3 {
        Segment::D
    } else if i == 4 {
        Segment::E
    } else if i == 5 {
        Segment::F
    } else if i == 6 {
        Segment::G
    } else {
        Segment::DP
    }
}

pub open spec fn segment_index(s: Segment) -> int {
    match s {
        Segment::A => 0,
        Segment::B => 1,
        Segment::C => 2,
        Segment::D => 3,
        Segment::E => 4,
        Segment::F => 5,
        Segment::G => 6,
        Segment::DP => 7,
    }
}

/// Common lines `0..n` driven to `level`, in order.
pub open spec fn commons_to(n: nat, level: PinState) -> Seq<PinWrite> {
    Seq::new(n, |i: int| PinWrite { line: Line::Common(i as usize), level })
}

/// Every segment line driven high (unlit).
pub open spec fn segments_unlit() -> Seq<PinWrite> {
    Seq::new(8, |i: int| PinWrite { line: Line::Segment(segment_at(i)), level: PinState::High })
}

/// Every segment line driven to the level that shows the segments in `lit`
/// lit and the others unlit.
pub open spec fn segments_for(lit: Set<Segment>) -> Seq<PinWrite> {
    Seq::new(
        8,
        |i: int|
            PinWrite { line: Line::Segment(segment_at(i)), level: level_for(lit.contains(segment_at(i))) },
    )
}

/// Blanking a display with `n` common lines: every common low, then every
/// segment unlit.
pub open spec fn blank_writes(n: nat) -> Seq<PinWrite> {
    commons_to(n, PinState::Low) + segments_unlit()
}

/// A line that no write drives keeps its level.
pub proof fn lemma_after_untouched(m: Levels, ws: Seq<PinWrite>, l: Line)
    requires
        !touches(ws, l),
    ensures
        after(m, ws)(l) == m(l),
    decreases ws.len(),
{
    if ws.len() > 0 {
        let init = ws.drop_last();
        assert(!touches(init, l)) by {
            if touches(init, l) {
                let i = choose|i: int| 0 <= i < init.len() && init[i].line == l;
                assert(ws[i].line == l);
            }
        }
        lemma_after_untouched(m, init, l);
        assert(ws[ws.len() - 1].line != l);
    }
}

/// The level of a line that some write drives does not depend on where the
/// writes started from.
pub proof fn lemma_after_touched(m1: Levels, m2: Levels, ws: Seq<PinWrite>, l: Line)
    requires
        touches(ws, l),
    ensures
        after(m1, ws)(l) == after(m2, ws)(l),
    decreases ws.len(),
{
    let init = ws.drop_last();
    if ws.last().line != l {
        let i = choose|i: int| 0 <= i < ws.len() && ws[i].line == l;
        assert(init[i].line == l);
        lemma_after_touched(m1, m2, init, l);
    }
}

/// Within writes to distinct lines, each line ends at the level written to it.
pub proof fn lemma_after_distinct(m: Levels, ws: Seq<PinWrite>, i: int)
    requires
        distinct_lines(ws),
        0 <= i < ws.len(),
    ensures
        after(m, ws)(ws[i].line) == ws[i].level,
    decreases ws.len(),
{
    if i < ws.len() - 1 {
        let init = ws.drop_last();
        assert(init[i] == ws[i]);
        lemma_after_distinct(m, init, i);
    }
}

/// Carrying out `a` and then `b` is carrying out `a + b`.
pub proof fn lemma_after_concat(m: Levels, a: Seq<PinWrite>, b: Seq<PinWrite>)
    ensures
        after(m, a + b) == after(after(m, a), b),
    decreases b.len(),
{
    if b.len() == 0 {
        assert(a + b =~= a);
    } else {
        assert((a + b).drop_last() =~= a + b.drop_last());
        lemma_after_concat(m, a, b.drop_last());
    }
}

/// Carrying out the same writes twice leaves the lines as carrying them out once.
pub proof fn lemma_after_twice(m: Levels, ws: Seq<PinWrite>)
    ensures
        after(after(m, ws), ws) == after(m, ws),
{
    let once = after(m, ws);
    assert forall|l: Line| #[trigger] after(once, ws)(l) == once(l) by {
        if touches(ws, l) {
            lemma_after_touched(once, m, ws, l);
        } else {
            lemma_after_untouched(once, ws, l);
        }
    }
    assert(after(once, ws) =~= once);
}

/// Writes that drive no common line high never add a high common line.
pub proof fn lemma_no_common_high(m: Levels, ws: Seq<PinWrite>, q: usize)
    requires
        no_common_high(ws),
        after(m, ws)(Line::Common(q)) == PinState::High,
    ensures
        m(Line::Common(q)) == PinState::High,
    decreases ws.len(),
{
    if ws.len() > 0 {
        let init = ws.drop_last();
        assert(no_common_high(init)) by {
            assert forall|i: int| 0 <= i < init.len() && init[i].line is Common implies init[i].level
                == PinState::Low by {
                assert(init[i] == ws[i]);
            }
        }
        lemma_no_common_high(m, init, q);
    }
}

/// Blanking drives commons `0..n` low and every segment line high, whatever
/// the lines held before.
pub proof fn lemma_blank(m: Levels, n: nat)
    requires
        n <= usize::MAX,
    ensures
        forall|q: usize| q < n ==> #[trigger] after(m, blank_writes(n))(Line::Common(q)) == PinState::Low,
        forall|s: Segment| #[trigger] after(m, blank_writes(n))(Line::Segment(s)) == PinState::High,
        forall|q: usize| q >= n ==> #[trigger] after(m, blank_writes(n))(Line::Common(q)) == m(Line::Common(q)),
{
    let c = commons_to(n, PinState::Low);
    let u = segments_unlit();
    lemma_after_concat(m, c, u);
    assert(distinct_lines(c));
    assert forall|q: usize| q < n implies #[trigger] after(m, blank_writes(n))(Line::Common(q))
        == PinState::Low by {
        lemma_after_distinct(m, c, q as int);
        assert(!touches(u, Line::Common(q)));
        lemma_after_untouched(after(m, c), u, Line::Common(q));
    }
    assert forall|s: Segment| #[trigger] after(m, blank_writes(n))(Line::Segment(s)) == PinState::High by {
        assert(distinct_lines(u));
        lemma_after_distinct(after(m, c), u, segment_index(s));
    }
    assert forall|q: usize| q >= n implies #[trigger] after(m, blank_writes(n))(Line::Common(q))
        == m(Line::Common(q)) by {
        assert(!touches(c, Line::Common(q)));
        lemma_after_untouched(m, c, Line::Common(q));
        assert(!touches(u, Line::Common(q)));
        lemma_after_untouched(after(m, c), u, Line::Common(q));
    }
}

/// Writing the segments for `lit` leaves each segment at its level, and
/// touches no common line.
pub proof fn lemma_segments_for(m: Levels, lit: Set<Segment>)
    ensures
        forall|s: Segment| #[trigger] after(m, segments_for(lit))(Line::Segment(s)) == level_for(lit.contains(s)),
        forall|q: usize| #[trigger] after(m, segments_for(lit))(Line::Common(q)) == m(Line::Common(q)),
{
    let w = segments_for(lit);
    assert(distinct_lines(w));
    assert forall|s: Segment| #[trigger] after(m, w)(Line::Segment(s)) == level_for(lit.contains(s)) by {
        lemma_after_distinct(m, w, segment_index(s));
    }
    assert forall|q: usize| #[trigger] after(m, w)(Line::Common(q)) == m(Line::Common(q)) by {
        assert(!touches(w, Line::Common(q)));
        lemma_after_untouched(m, w, Line::Common(q));
    }
}

/// Appends writes that drive common lines `0..n` to `level`, in order.
pub fn push_commons(out: &mut Vec<PinWrite>, n: usize, level: PinState)
    ensures
        final(out)@ == old(out)@ + commons_to(n as nat, level),
{
    let ghost start = out@;
    let mut i: usize = 0;
    while i < n
        invariant
            i <= n,
            out@ == start + commons_to(i as nat, level),
        decreases n - i,
    {
        out.push(PinWrite { line: Line::Common(i), level });
        i = i + 1;
        assert(out@ =~= start + commons_to(i as nat, level));
    }
}

/// Appends writes that drive every segment line high (unlit), A to G, then DP.
pub fn push_segments_unlit(out: &mut Vec<PinWrite>)
    ensures
        final(out)@ == old(out)@ + segments_unlit(),
{
    let ghost start = out@;
    out.push(PinWrite { line: Line::Segment(Segment::A), level: PinState::High });
    out.push(PinWrite { line: Line::Segment(Segment::B), level: PinState::High });
    out.push(PinWrite { line: Line::Segment(Segment::C), level: PinState::High });
    out.push(PinWrite { line: Line::Segment(Segment::D), level: PinState::High });
    out.push(PinWrite { line: Line::Segment(Segment::E), level: PinState::High });
    out.push(PinWrite { line: Line::Segment(Segment::F), level: PinState::High });
    out.push(PinWrite { line: Line::Segment(Segment::G), level: PinState::High });
    out.push(PinWrite { line: Line::Segment(Segment::DP), level: PinState::High });
    assert(out@ =~= start + segments_unlit());
}

/// Appends writes that drive every segment line to its level for `digit`,
/// A to G, then DP.
pub fn push_segments_for(out: &mut Vec<PinWrite>, digit: &Digit)
    ensures
        final(out)@ == old(out)@ + segments_for(digit.lit_segments()),
{
    let ghost start = out@;
    out.push(PinWrite { line: Line::Segment(Segment::A), level: digit.segment_pin_state(Segment::A) });
    out.push(PinWrite { line: Line::Segment(Segment::B), level: digit.segment_pin_state(Segment::B) });
    out.push(PinWrite { line: Line::Segment(Segment::C), level: digit.segment_pin_state(Segment::C) });
    out.push(PinWrite { line: Line::Segment(Segment::D), level: digit.segment_pin_state(Segment::D) });
    out.push(PinWrite { line: Line::Segment(Segment::E), level: digit.segment_pin_state(Segment::E) });
    out.push(PinWrite { line: Line::Segment(Segment::F), level: digit.segment_pin_state(Segment::F) });
    out.push(PinWrite { line: Line::Segment(Segment::G), level: digit.segment_pin_state(Segment::G) });
    out.push(
        PinWrite { line: Line::Segment(Segment::DP), level: digit.segment_pin_state(Segment::DP) },
    );
    assert(out@ =~= start + segments_for(digit.lit_segments()));
}

} // verus!
