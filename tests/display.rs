use embedded_hal::digital::PinState;
use embedded_hal::digital::PinState::{High, Low};
use segment_display::Segment::{A, B, C, D, E, F, G};
use segment_display::{
    encode, Digit, Display3461bs, Display5161BS, InvalidValue, Line, PinWrite, Position, Segment,
};

const ALL: [Segment; 8] = [
    Segment::A,
    Segment::B,
    Segment::C,
    Segment::D,
    Segment::E,
    Segment::F,
    Segment::G,
    Segment::DP,
];

fn seg_index(s: Segment) -> usize {
    ALL.iter().position(|x| *x == s).unwrap()
}

/// Line levels after carrying out `writes`, starting with every line at `start`.
fn run(start: PinState, commons: usize, writes: &[PinWrite]) -> ([PinState; 8], Vec<PinState>) {
    let mut segs = [start; 8];
    let mut coms = vec![start; commons];
    for w in writes {
        match w.line {
            Line::Segment(s) => segs[seg_index(s)] = w.level,
            Line::Common(i) => coms[i] = w.level,
        }
    }
    (segs, coms)
}

fn lit_set(d: &Digit) -> Vec<Segment> {
    ALL.iter().copied().filter(|s| d.is_lit(*s)).collect()
}

fn expected_levels(lit: &[Segment]) -> [PinState; 8] {
    let mut out = [PinState::High; 8];
    for s in lit {
        out[seg_index(*s)] = PinState::Low;
    }
    out
}

#[test]
fn encode_table() {
    let table: [&[Segment]; 10] = [
        &[A, B, C, D, E, F],
        &[B, C],
        &[A, B, D, E, G],
        &[A, B, C, D, G],
        &[B, C, F, G],
        &[A, C, D, F, G],
        &[A, C, D, E, F, G],
        &[A, B, C],
        &[A, B, C, D, E, F, G],
        &[A, B, C, D, F, G],
    ];
    for (v, want) in table.iter().enumerate() {
        let d = encode(v as u8).unwrap();
        assert_eq!(lit_set(&d), want.to_vec(), "value {}", v);
    }
}

#[test]
fn encode_rejects_out_of_range() {
    for v in [10u8, 11, 42, 200, 255] {
        assert_eq!(encode(v).unwrap_err(), InvalidValue { value: v });
    }
}

#[test]
fn pin_state_is_negation_of_lit() {
    let d = Digit::new(true, false, true, false, true, false, true, false);
    for s in ALL {
        let want = if d.is_lit(s) { PinState::Low } else { PinState::High };
        assert_eq!(d.segment_pin_state(s), want);
    }
    assert_eq!(d.segment_pin_state(Segment::A), PinState::Low);
    assert_eq!(d.segment_pin_state(Segment::B), PinState::High);
}

#[test]
fn zero_polarities() {
    let d = encode(0).unwrap();
    let got: Vec<PinState> = ALL.iter().map(|s| d.segment_pin_state(*s)).collect();
    assert_eq!(got, vec![Low, Low, Low, Low, Low, Low, High, High]);
}

#[test]
fn toggle_dp_twice_is_identity() {
    let original = Digit::new(true, true, false, false, true, false, true, false);
    let mut d = original;
    d.toggle_dp();
    assert!(d.is_lit(Segment::DP));
    for s in ALL.iter().filter(|s| **s != Segment::DP) {
        assert_eq!(d.is_lit(*s), original.is_lit(*s));
    }
    d.toggle_dp();
    assert_eq!(lit_set(&d), lit_set(&original));
}

#[test]
fn default_digit_is_blank() {
    let d = Digit::default();
    assert!(lit_set(&d).is_empty());
}

#[test]
fn multiplexed_show_selects_one_common() {
    let display = Display3461bs::new();
    let positions = [Position::First, Position::Second, Position::Third, Position::Fourth];
    let d = encode(5).unwrap();
    for (i, p) in positions.iter().enumerate() {
        for start in [PinState::Low, PinState::High] {
            let (segs, coms) = run(start, 4, &display.show_digit(*p, d));
            for (j, c) in coms.iter().enumerate() {
                assert_eq!(*c, if i == j { PinState::High } else { PinState::Low });
            }
            assert_eq!(segs, expected_levels(&lit_set(&d)));
        }
    }
}

#[test]
fn multiplexed_clear_blanks_everything() {
    let display = Display3461bs::new();
    let (segs, coms) = run(PinState::Low, 4, &display.clear());
    assert_eq!(segs, [PinState::High; 8]);
    assert_eq!(coms, vec![PinState::Low; 4]);
}

#[test]
fn multiplexed_show_twice_same_as_once() {
    let display = Display3461bs::new();
    let d = Digit::new(false, true, true, false, false, true, true, true);
    let once = display.show_digit(Position::Second, d);
    let mut twice = once.clone();
    twice.extend(display.show_digit(Position::Second, d));
    assert_eq!(run(PinState::High, 4, &once), run(PinState::High, 4, &twice));
}

#[test]
fn multiplexed_show_number_third_seven() {
    let display = Display3461bs::new();
    let writes = display.show_number(Position::Third, 7).unwrap();
    let (segs, coms) = run(PinState::High, 4, &writes);
    assert_eq!(coms, vec![Low, Low, High, Low]);
    assert_eq!(segs, [Low, Low, Low, High, High, High, High, High]);
}

#[test]
fn multiplexed_common_is_driven_last() {
    let display = Display3461bs::new();
    let writes = display.show_digit(Position::Fourth, encode(8).unwrap());
    assert_eq!(writes.len(), 4 + 8 + 8 + 1);
    let highs: Vec<usize> = writes
        .iter()
        .enumerate()
        .filter(|(_, w)| matches!(w.line, Line::Common(_)) && w.level == PinState::High)
        .map(|(i, _)| i)
        .collect();
    assert_eq!(highs, vec![writes.len() - 1]);
    assert!(matches!(writes[writes.len() - 1].line, Line::Common(3)));
    for (i, w) in writes.iter().take(4).enumerate() {
        assert!(matches!(w.line, Line::Common(c) if c == i));
        assert_eq!(w.level, PinState::Low);
    }
}

#[test]
fn multiplexed_show_number_rejects_ten() {
    let display = Display3461bs::new();
    assert_eq!(
        display.show_number(Position::First, 10).unwrap_err(),
        InvalidValue { value: 10 }
    );
}

#[test]
fn single_show_number_dot() {
    let (display, _) = Display5161BS::new();
    let writes = display.show_number_dot(1, true).unwrap();
    let (segs, coms) = run(PinState::Low, 2, &writes);
    assert_eq!(coms, vec![High, High]);
    assert_eq!(segs, [High, Low, Low, High, High, High, High, Low]);
    let (segs, _) = run(PinState::Low, 2, &display.show_number_dot(1, false).unwrap());
    assert_eq!(segs, [High, Low, Low, High, High, High, High, High]);
}

#[test]
fn single_show_number_and_errors() {
    let (display, _) = Display5161BS::new();
    let (segs, coms) = run(PinState::High, 2, &display.show_number(4).unwrap());
    assert_eq!(coms, vec![High, High]);
    assert_eq!(segs, [High, Low, Low, High, High, Low, Low, High]);
    assert_eq!(display.show_number(12).unwrap_err(), InvalidValue { value: 12 });
    assert_eq!(display.show_number_dot(99, true).unwrap_err(), InvalidValue { value: 99 });
}

#[test]
fn single_power_and_clear() {
    let (display, _) = Display5161BS::new();
    let (_, coms) = run(PinState::Low, 2, &display.toggle_on());
    assert_eq!(coms, vec![PinState::High; 2]);
    let (_, coms) = run(PinState::High, 2, &display.toggle_off());
    assert_eq!(coms, vec![PinState::Low; 2]);
    let (segs, coms) = run(PinState::Low, 2, &display.clear());
    assert_eq!(segs, [PinState::High; 8]);
    assert_eq!(coms, vec![PinState::Low; 2]);
    let shown = display.show_digit(Digit::new(true, false, false, false, false, false, false, false));
    assert_eq!(shown.len(), 2 + 8 + 8 + 2);
}

#[test]
fn single_new_powers_on() {
    let (_, writes) = Display5161BS::new();
    assert_eq!(writes.len(), 2);
    assert!(writes.iter().all(|w| matches!(w.line, Line::Common(_))));
    assert!(matches!(writes[0].line, Line::Common(0)));
    assert!(matches!(writes[1].line, Line::Common(1)));
    let (segs, coms) = run(PinState::Low, 2, &writes);
    assert_eq!(coms, vec![High, High]);
    assert_eq!(segs, [Low; 8]);
}
