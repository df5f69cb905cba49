use keyboard_pins::{KeyboardPins, Pin, PortRegs};

const AT_CLK: u8 = 0x01;
const XT_SENSE: u8 = 0x02;
const XT_CLK: u8 = 0x04;
const XT_DATA: u8 = 0x08;
const AT_DATA: u8 = 0x10;

fn seeded(seed: u8) -> PortRegs {
    PortRegs {
        p1in: seed ^ 0x5A,
        p1out: seed,
        p1dir: seed.rotate_left(2) ^ 0x93,
        p1ifg: seed.rotate_left(4) ^ 0x2D,
        p1ies: !seed,
        p1ie: seed.wrapping_mul(13),
    }
}

#[test]
fn new_wires_the_five_lines() {
    let pins = KeyboardPins::new();
    assert_eq!(pins.at_clk.bitmask(), AT_CLK);
    assert_eq!(pins.at_data.bitmask(), AT_DATA);
    assert_eq!(pins.xt_clk.bitmask(), XT_CLK);
    assert_eq!(pins.xt_data.bitmask(), XT_DATA);
    assert_eq!(pins.xt_sense.bitmask(), XT_SENSE);
}

#[test]
fn new_gives_each_line_its_own_bit() {
    let pins = KeyboardPins::new();
    let masks = [
        pins.at_clk.bitmask(),
        pins.at_data.bitmask(),
        pins.xt_clk.bitmask(),
        pins.xt_data.bitmask(),
        pins.xt_sense.bitmask(),
    ];
    for first in 0..masks.len() {
        for second in 0..masks.len() {
            if first != second {
                assert_eq!(masks[first] & masks[second], 0);
            }
        }
    }
}

#[test]
fn idle_writes_the_whole_direction_register() {
    let pins = KeyboardPins::new();
    for seed in 0..=255u8 {
        let before = seeded(seed);
        let mut regs = before;
        pins.idle(&mut regs);
        assert_eq!(regs.p1dir, 0x00);
        let expected = PortRegs {
            p1dir: 0x00,
            p1ifg: before.p1ifg & !AT_CLK,
            p1ies: before.p1ies | AT_CLK,
            p1ie: before.p1ie | AT_CLK,
            ..before
        };
        assert_eq!(regs, expected);
    }
}

#[test]
fn idle_on_concrete_registers() {
    let pins = KeyboardPins::new();
    let mut regs =
        PortRegs { p1in: 0xA5, p1out: 0x3C, p1dir: 0xFF, p1ifg: 0xFF, p1ies: 0x00, p1ie: 0x80 };
    pins.idle(&mut regs);
    assert_eq!(
        regs,
        PortRegs { p1in: 0xA5, p1out: 0x3C, p1dir: 0x00, p1ifg: 0xFE, p1ies: 0x01, p1ie: 0x81 }
    );
}

#[test]
fn disable_clears_only_the_clock_enable_bit() {
    let pins = KeyboardPins::new();
    for seed in 0..=255u8 {
        let before = PortRegs { p1ie: seed, ..seeded(seed) };
        let mut regs = before;
        pins.disable_at_clk_int(&mut regs);
        assert_eq!(regs, PortRegs { p1ie: seed & 0xFE, ..before });
    }
}

#[test]
fn enable_sets_only_the_clock_enable_bit() {
    let pins = KeyboardPins::new();
    for seed in 0..=255u8 {
        let before = PortRegs { p1ie: seed, ..seeded(seed) };
        let mut regs = before;
        pins.enable_at_clk_int(&mut regs);
        assert_eq!(regs, PortRegs { p1ie: seed | 0x01, ..before });
    }
}

#[test]
fn enable_then_disable_toggles_the_clock_enable_bit() {
    let pins = KeyboardPins::new();
    let mut regs = seeded(0x76);
    regs.p1ie = 0xB2;
    pins.enable_at_clk_int(&mut regs);
    assert_eq!(regs.p1ie, 0xB3);
    pins.disable_at_clk_int(&mut regs);
    assert_eq!(regs.p1ie, 0xB2);
    pins.disable_at_clk_int(&mut regs);
    assert_eq!(regs.p1ie, 0xB2);
}

#[test]
fn clear_acknowledges_only_the_clock_flag() {
    let pins = KeyboardPins::new();
    for seed in 0..=255u8 {
        let before = PortRegs { p1ifg: seed, ..seeded(seed) };
        let mut regs = before;
        pins.clear_at_clk_int(&mut regs);
        assert_eq!(regs, PortRegs { p1ifg: seed & 0xFE, ..before });
    }
}

#[test]
fn clear_on_concrete_flags() {
    let pins = KeyboardPins::new();
    let mut regs = seeded(0x00);
    regs.p1ifg = 0x1F;
    let before = regs;
    pins.clear_at_clk_int(&mut regs);
    assert_eq!(regs.p1ifg, 0x1E);
    assert_eq!(regs.p1ie, before.p1ie);
    assert_eq!(regs.p1ies, before.p1ies);
}

#[test]
fn at_idle_releases_both_lines_with_outputs_high() {
    let pins = KeyboardPins::new();
    for seed in 0..=255u8 {
        let before = seeded(seed);
        let mut regs = before;
        pins.at_idle(&mut regs);
        assert_eq!(regs.p1dir & (AT_CLK | AT_DATA), 0);
        assert_eq!(regs.p1out & (AT_CLK | AT_DATA), AT_CLK | AT_DATA);
        let expected = PortRegs {
            p1out: before.p1out | 0x11,
            p1dir: before.p1dir & 0xEE,
            ..before
        };
        assert_eq!(regs, expected);
    }
}

#[test]
fn at_inhibit_holds_clock_low_and_releases_data() {
    let pins = KeyboardPins::new();
    for seed in 0..=255u8 {
        let before = seeded(seed);
        let mut regs = before;
        pins.at_inhibit(&mut regs);
        assert_eq!(regs.p1out & AT_CLK, 0);
        assert_eq!(regs.p1dir & AT_CLK, AT_CLK);
        assert_eq!(regs.p1out & AT_DATA, AT_DATA);
        assert_eq!(regs.p1dir & AT_DATA, 0);
        let expected = PortRegs {
            p1out: (before.p1out & 0xFE) | 0x10,
            p1dir: (before.p1dir | 0x01) & 0xEF,
            ..before
        };
        assert_eq!(regs, expected);
    }
}

#[test]
fn at_inhibit_on_concrete_registers() {
    let pins = KeyboardPins::new();
    let mut regs =
        PortRegs { p1in: 0x11, p1out: 0xEF, p1dir: 0xF0, p1ifg: 0x01, p1ies: 0x01, p1ie: 0x01 };
    pins.at_inhibit(&mut regs);
    assert_eq!(
        regs,
        PortRegs { p1in: 0x11, p1out: 0xFE, p1dir: 0xE1, p1ifg: 0x01, p1ies: 0x01, p1ie: 0x01 }
    );
}

#[test]
fn at_send_releases_clock_and_drives_data() {
    let pins = KeyboardPins::new();
    for seed in 0..=255u8 {
        let before = seeded(seed);
        let mut regs = before;
        pins.at_send(&mut regs);
        assert_eq!(regs.p1out & (AT_CLK | AT_DATA), AT_CLK | AT_DATA);
        assert_eq!(regs.p1dir & AT_CLK, 0);
        assert_eq!(regs.p1dir & AT_DATA, AT_DATA);
        let expected = PortRegs {
            p1out: before.p1out | 0x11,
            p1dir: (before.p1dir & 0xFE) | 0x10,
            ..before
        };
        assert_eq!(regs, expected);
    }
}

#[test]
fn xt_out_drives_both_lines_high() {
    let pins = KeyboardPins::new();
    for seed in 0..=255u8 {
        let before = seeded(seed);
        let mut regs = before;
        pins.xt_out(&mut regs);
        assert_eq!(regs.p1out & (XT_CLK | XT_DATA), XT_CLK | XT_DATA);
        assert_eq!(regs.p1dir & (XT_CLK | XT_DATA), XT_CLK | XT_DATA);
        let expected = PortRegs {
            p1out: before.p1out | 0x0C,
            p1dir: before.p1dir | 0x0C,
            ..before
        };
        assert_eq!(regs, expected);
    }
}

#[test]
fn xt_in_releases_both_lines_and_presets_data_only() {
    let pins = KeyboardPins::new();
    for seed in 0..=255u8 {
        let before = seeded(seed);
        let mut regs = before;
        pins.xt_in(&mut regs);
        assert_eq!(regs.p1dir & (XT_CLK | XT_DATA), 0);
        assert_eq!(regs.p1out & XT_DATA, XT_DATA);
        assert_eq!(regs.p1out & XT_CLK, before.p1out & XT_CLK);
        let expected = PortRegs {
            p1out: before.p1out | 0x08,
            p1dir: before.p1dir & 0xF3,
            ..before
        };
        assert_eq!(regs, expected);
    }
}

#[test]
fn xt_in_leaves_a_low_clock_output_bit_low() {
    let pins = KeyboardPins::new();
    let mut regs =
        PortRegs { p1in: 0x00, p1out: 0x00, p1dir: 0x0C, p1ifg: 0x00, p1ies: 0x00, p1ie: 0x00 };
    pins.xt_in(&mut regs);
    assert_eq!(regs.p1out, 0x08);
    assert_eq!(regs.p1dir, 0x00);
}

#[test]
fn bus_states_leave_the_sense_line_alone() {
    let pins = KeyboardPins::new();
    for seed in 0..=255u8 {
        let before = seeded(seed);
        let mut regs = before;
        pins.at_idle(&mut regs);
        pins.at_inhibit(&mut regs);
        pins.at_send(&mut regs);
        pins.xt_out(&mut regs);
        pins.xt_in(&mut regs);
        assert_eq!(regs.p1out & XT_SENSE, before.p1out & XT_SENSE);
        assert_eq!(regs.p1dir & XT_SENSE, before.p1dir & XT_SENSE);
        assert_eq!(regs.p1out & 0xE0, before.p1out & 0xE0);
        assert_eq!(regs.p1dir & 0xE0, before.p1dir & 0xE0);
        assert_eq!(regs.p1in, before.p1in);
        assert_eq!(regs.p1ifg, before.p1ifg);
        assert_eq!(regs.p1ies, before.p1ies);
        assert_eq!(regs.p1ie, before.p1ie);
    }
}

#[test]
fn at_states_leave_the_xt_lines_alone() {
    let pins = KeyboardPins::new();
    let before = seeded(0xC3);
    let mut regs = before;
    pins.at_idle(&mut regs);
    pins.at_inhibit(&mut regs);
    pins.at_send(&mut regs);
    assert_eq!(regs.p1out & (XT_CLK | XT_DATA), before.p1out & (XT_CLK | XT_DATA));
    assert_eq!(regs.p1dir & (XT_CLK | XT_DATA), before.p1dir & (XT_CLK | XT_DATA));
}

#[test]
fn idle_then_inhibit_then_send() {
    let pins = KeyboardPins::new();
    let mut regs =
        PortRegs { p1in: 0x00, p1out: 0x00, p1dir: 0xFF, p1ifg: 0x01, p1ies: 0x00, p1ie: 0x00 };
    pins.idle(&mut regs);
    pins.at_idle(&mut regs);
    assert_eq!((regs.p1out, regs.p1dir), (0x11, 0x00));
    pins.at_inhibit(&mut regs);
    assert_eq!((regs.p1out, regs.p1dir), (0x10, 0x01));
    pins.at_send(&mut regs);
    assert_eq!((regs.p1out, regs.p1dir), (0x11, 0x10));
    assert_eq!((regs.p1ifg, regs.p1ies, regs.p1ie), (0x00, 0x01, 0x01));
}

#[test]
fn sense_line_is_read_from_the_input_register() {
    let pins = KeyboardPins::new();
    let mut regs = seeded(0x00);
    regs.p1in = 0x02;
    assert!(pins.xt_sense.is_set(&regs));
    assert!(pins.at_clk.is_unset(&regs));
    regs.p1in = 0xFD;
    assert!(pins.xt_sense.is_unset(&regs));
    assert!(pins.at_data.is_set(&regs));
}

#[test]
fn bus_states_follow_another_wiring() {
    let pins = KeyboardPins {
        at_clk: Pin::new(7),
        at_data: Pin::new(6),
        xt_clk: Pin::new(5),
        xt_data: Pin::new(1),
        xt_sense: Pin::new(0),
    };
    let before = seeded(0x3A);

    let mut regs = before;
    pins.at_inhibit(&mut regs);
    assert_eq!(regs.p1out, (before.p1out & 0x7F) | 0x40);
    assert_eq!(regs.p1dir, (before.p1dir | 0x80) & 0xBF);

    let mut regs = before;
    pins.xt_in(&mut regs);
    assert_eq!(regs.p1out, before.p1out | 0x02);
    assert_eq!(regs.p1dir, before.p1dir & 0xDD);

    let mut regs = before;
    pins.idle(&mut regs);
    assert_eq!(regs.p1dir, 0x00);
    assert_eq!(regs.p1ifg, before.p1ifg & 0x7F);
    assert_eq!(regs.p1ies, before.p1ies | 0x80);
    assert_eq!(regs.p1ie, before.p1ie | 0x80);
}

#[test]
fn one_line_wired_as_clock_and_data_ends_as_the_data_line() {
    let pins = KeyboardPins {
        at_clk: Pin::new(3),
        at_data: Pin::new(3),
        xt_clk: Pin::new(2),
        xt_data: Pin::new(2),
        xt_sense: Pin::new(1),
    };
    let before =
        PortRegs { p1in: 0x00, p1out: 0x00, p1dir: 0xFF, p1ifg: 0x00, p1ies: 0x00, p1ie: 0x00 };

    let mut regs = before;
    pins.at_inhibit(&mut regs);
    assert_eq!((regs.p1out, regs.p1dir), (0x08, 0xF7));

    let mut regs = before;
    pins.at_send(&mut regs);
    assert_eq!((regs.p1out, regs.p1dir), (0x08, 0xFF));

    let mut regs = before;
    pins.xt_in(&mut regs);
    assert_eq!((regs.p1out, regs.p1dir), (0x04, 0xFB));
}
