//! Segments, digit patterns and the pin level that lights a segment.
use embedded_hal::digital::PinState;
use vstd::prelude::*;

verus! {

/// Relies on embedded_hal's `PinState`: a fieldless enum with the variants
/// `Low` and `High`.
#[verifier::external_type_specification]
pub struct ExPinState(PinState);

/// Relies on embedded_hal's `From<bool> for PinState`: `false` gives `Low`
/// and `true` gives `High`.
pub assume_specification[ <PinState as core::convert::From<bool>>::from ](value: bool) -> (r:
    PinState)
    ensures
        r == (if value {
            PinState::High
        } else {
            PinState::Low
        }),
;

/// One segment of a 7-segment digit.
///
/// ```text
///       A
///     -----
///    |     |
///  F |     | B
///    |  G  |
///     -----
///    |     |
///  E |     | C
///    |  D  |
///     -----    o DP
/// ```
#[derive(Clone, Copy, Debug, PartialEq, Eq, Structural)]
pub enum Segment {
    /// Top
    A,
    /// Top right
    B,
    /// Bottom right
    C,
    /// Bottom
    D,
    /// Bottom left
    E,
    /// Top left
    F,
    /// Middle
    G,
    /// Dot
    DP,
}

/// The pin level that realises a segment's lit state: segments are active-low.
pub open spec fn level_for(lit: bool) -> PinState {
    if lit {
        PinState::Low
    } else {
        PinState::High
    }
}

/// Which segments each decimal digit lights.
pub open spec fn pattern(value: nat) -> Set<Segment> {
    if value == 0 {
        set![Segment::A, Segment::B, Segment::C, Segment::D, Segment::E, Segment::F]
    } else if value == 1 {
        set![Segment::B, Segment::C]
    } else if value == 2 {
        set![Segment::A, Segment::B, Segment::D, Segment::E, Segment::G]
    } else if value == 3 {
        set![Segment::A, Segment::B, Segment::C, Segment::D, Segment::G]
    } else if value == 4 {
        set![Segment::B, Segment::C, Segment::F, Segment::G]
    } else if value == 5 {
        set![Segment::A, Segment::C, Segment::D, Segment::F, Segment::G]
    } else if value == 6 {
        set![Segment::A, Segment::C, Segment::D, Segment::E, Segment::F, Segment::G]
    } else if value == 7 {
        set![Segment::A, Segment::B, Segment::C]
    } else if value == 8 {
        set![Segment::A, Segment::B, Segment::C, Segment::D, Segment::E, Segment::F, Segment::G]
    } else {
        set![Segment::A, Segment::B, Segment::C, Segment::D, Segment::F, Segment::G]
    }
}

/// Whether each of the eight segments appears lit (`true` means lit).
#[derive(Clone, Copy, Debug)]
pub struct Digit {
    a: bool,
    b: bool,
    c: bool,
    d: bool,
    e: bool,
    f: bool,
    g: bool,
    dp: bool,
}

/// A value outside `0..=9` was given where a decimal digit was expected.
#[derive(Clone, Copy, Debug, PartialEq, Eq, Structural)]
pub struct InvalidValue {
    pub value: u8,
}

impl Digit {
    /// Whether segment `s` is lit.
    pub closed spec fn lit(self, s: Segment) -> bool {
        match s {
            Segment::A => self.a,
            Segment::B => self.b,
            Segment::C => self.c,
            Segment::D => self.d,
            Segment::E => self.e,
            Segment::F => self.f,
            Segment::G => self.g,
            Segment::DP => self.dp,
        }
    }

    /// The set of lit segments.
    pub open spec fn lit_segments(self) -> Set<Segment> {
        Set::new(|s: Segment| self.lit(s))
    }

    pub fn new(a: bool, b: bool, c: bool, d: bool, e: bool, f: bool, g: bool, dp: bool) -> (r:
        Self)
        ensures
            r.lit(Segment::A) == a,
            r.lit(Segment::B) == b,
            r.lit(Segment::C) == c,
            r.lit(Segment::D) == d,
            r.lit(Segment::E) == e,
            r.lit(Segment::F) == f,
            r.lit(Segment::G) == g,
            r.lit(Segment::DP) == dp,
    {
        Digit { a, b, c, d, e, f, g, dp }
    }

    /// Whether segment `segment` is lit.
    pub fn is_lit(&self, segment: Segment) -> (r: bool)
        ensures
            r == self.lit(segment),
    {
        match segment {
            Segment::A => self.a,
            Segment::B => self.b,
            Segment::C => self.c,
            Segment::D => self.d,
            Segment::E => self.e,
            Segment::F => self.f,
            Segment::G => self.g,
            Segment::DP => self.dp,
        }
    }

    /// The pin level to drive a segment's line to: a lit segment is driven
    /// low and an unlit one high.
    pub fn segment_pin_state(&self, segment: Segment) -> (r: PinState)
        ensures
            r == level_for(self.lit(segment)),
    {
        PinState::from(!self.is_lit(segment))
    }

    /// Turns the dot on if it was off, and off if it was on.
    pub fn toggle_dp(&mut self)
        ensures
            *final(self) == old(self).with_dp_toggled(),
            final(self).lit(Segment::DP) == !old(self).lit(Segment::DP),
            forall|s: Segment| s != Segment::DP ==> final(self).lit(s) == old(self).lit(s),
    {
        self.dp = !self.dp;
    }

    /// This digit with the dot flipped and every other segment kept.
    pub closed spec fn with_dp_toggled(self) -> Digit {
        Digit { dp: !self.dp, ..self }
    }

    /// Flipping the dot changes no other segment, and flipping it twice gives
    /// back the digit it started from.
    pub proof fn lemma_toggle_dp_involution(d: Digit)
        ensures
            d.with_dp_toggled().with_dp_toggled() == d,
            d.with_dp_toggled().lit(Segment::DP) == !d.lit(Segment::DP),
            forall|s: Segment| s != Segment::DP ==> d.with_dp_toggled().lit(s) == d.lit(s),
    {
    }
}

impl Default for Digit {
    /// The blank digit: no segment lit.
    fn default() -> (r: Self)
        ensures
            forall|s: Segment| !r.lit(s),
    {
        Digit { a: false, b: false, c: false, d: false, e: false, f: false, g: false, dp: false }
    }
}

/// The segment pattern of a decimal digit, or `InvalidValue` for a value
/// outside `0..=9`.
pub fn encode(value: u8) -> (r: Result<Digit, InvalidValue>)
    ensures
        value <= 9 ==> r is Ok && forall|s: Segment| r->Ok_0.lit(s) == pattern(value as nat).contains(s),
        value > 9 <==> r == Err::<Digit, InvalidValue>(InvalidValue { value }),
{
    let (a, b, c, d, e, f, g) = match value {
        0 => (true, true, true, true, true, true, false),
        1 => (false, true, true, false, false, false, false),
        2 => (true, true, false, true, true, false, true),
        3 => (true, true, true, true, false, false, true),
        4 => (false, true, true, false, false, true, true),
        5 => (true, false, true, true, false, true, true),
        6 => (true, false, true, true, true, true, true),
        7 => (true, true, true, false, false, false, false),
        8 => (true, true, true, true, true, true, true),
        9 => (true, true, true, true, false, true, true),
        _ => {
            return Err(InvalidValue { value });
        },
    };
    Ok(Digit::new(a, b, c, d, e, f, g, false))
}

} // verus!
