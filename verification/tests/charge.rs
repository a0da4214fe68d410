use little_bat::charge::{Charge, Fraction};

fn charge(x: f32) -> Charge {
    Charge::from_bits(x.to_bits())
}

/// Patterns to sweep: a stride over all of them, and the neighbours of
/// every multiple of a quarter up to 130.
fn samples() -> Vec<u32> {
    let mut v: Vec<u32> = Vec::new();
    let mut bits: u64 = 0;
    while bits <= 0xffff_ffff {
        v.push(bits as u32);
        bits += 65_521;
    }
    let mut q: u32 = 0;
    while q <= 520 {
        let x = q as f32 / 4.0;
        for d in 0..4u32 {
            v.push(x.to_bits().wrapping_add(d));
            v.push(x.to_bits().wrapping_sub(d));
            v.push((-x).to_bits().wrapping_add(d));
        }
        q += 1;
    }
    for special in [
        0u32, 1, 2, 0x007f_ffff, 0x0080_0000, 0x3f00_0000, 0x3eff_ffff, 0x3f00_0001, 0x4b00_0000,
        0x4b7f_ffff, 0x4b80_0000, 0x7f7f_ffff, 0x7f80_0000, 0x7f80_0001, 0x7fc0_0000, 0xff80_0000,
        0xffc0_0000, 0x8000_0000, 0x8000_0001, 0xff7f_ffff,
    ] {
        v.push(special);
    }
    v
}

#[test]
fn bits_round_trip() {
    for bits in samples() {
        assert_eq!(Charge::from_bits(bits).to_bits(), bits);
    }
    assert_eq!(charge(75.0).to_bits(), 0x4296_0000);
}

#[test]
fn classes_agree_with_the_number() {
    for bits in samples() {
        let x = f32::from_bits(bits);
        let c = Charge::from_bits(bits);
        assert_eq!(c.is_nan(), x.is_nan(), "{bits:#x}");
        assert_eq!(c.is_finite(), x.is_finite(), "{bits:#x}");
        assert_eq!(c.is_negative(), x.is_sign_negative(), "{bits:#x}");
    }
}

#[test]
fn parts_cut_at_the_decimal_point() {
    for bits in samples() {
        let x = f32::from_bits(bits);
        if !x.is_finite() {
            continue;
        }
        let m = (x as f64).abs();
        let p = Charge::from_bits(bits).parts();
        assert_eq!(p.whole as f64, m.floor(), "{bits:#x}");
        let rest = m - m.floor();
        let expected = if rest == 0.0 {
            Fraction::Exact
        } else if rest < 0.5 {
            Fraction::BelowHalf
        } else if rest == 0.5 {
            Fraction::Half
        } else {
            Fraction::AboveHalf
        };
        assert_eq!(p.fraction, expected, "{bits:#x}");
    }
}

#[test]
fn parts_of_chosen_values() {
    let p = charge(75.0).parts();
    assert_eq!((p.whole, p.fraction), (75, Fraction::Exact));
    let p = charge(0.5).parts();
    assert_eq!((p.whole, p.fraction), (0, Fraction::Half));
    let p = charge(12.25).parts();
    assert_eq!((p.whole, p.fraction), (12, Fraction::BelowHalf));
    let p = charge(99.75).parts();
    assert_eq!((p.whole, p.fraction), (99, Fraction::AboveHalf));
    let p = charge(f32::MAX).parts();
    assert_eq!((p.whole, p.fraction), (340282346638528859811704183484516925440, Fraction::Exact));
    let p = charge(f32::from_bits(1)).parts();
    assert_eq!((p.whole, p.fraction), (0, Fraction::BelowHalf));
    let p = charge(-3.5).parts();
    assert_eq!((p.whole, p.fraction), (3, Fraction::Half));
}

#[test]
fn exceeds_is_greater_than() {
    for bits in samples() {
        let x = f32::from_bits(bits);
        let c = Charge::from_bits(bits);
        for n in [0u32, 1, 20, 50, 100, 105, 16_777_216, 4_000_000_000] {
            assert_eq!(c.exceeds(n), x as f64 > n as f64, "{bits:#x} > {n}");
        }
    }
}

#[test]
fn exceeds_at_the_boundaries() {
    assert!(!charge(50.0).exceeds(50));
    assert!(charge(f32::from_bits(50.0f32.to_bits() + 1)).exceeds(50));
    assert!(!charge(f32::from_bits(50.0f32.to_bits() - 1)).exceeds(50));
    assert!(!charge(20.0).exceeds(20));
    assert!(charge(f32::INFINITY).exceeds(50));
    assert!(!charge(f32::NEG_INFINITY).exceeds(0));
    assert!(!charge(f32::NAN).exceeds(0));
    assert!(!charge(-0.0).exceeds(0));
    assert!(!charge(0.0).exceeds(0));
    assert!(charge(f32::from_bits(1)).exceeds(0));
}

#[test]
fn round_goes_to_the_even_neighbour_on_a_tie() {
    assert_eq!(charge(0.5).round(), 0);
    assert_eq!(charge(1.5).round(), 2);
    assert_eq!(charge(2.5).round(), 2);
    assert_eq!(charge(3.5).round(), 4);
    assert_eq!(charge(74.5).round(), 74);
    assert_eq!(charge(75.5).round(), 76);
    assert_eq!(charge(75.0).round(), 75);
    assert_eq!(charge(14.49).round(), 14);
    assert_eq!(charge(14.51).round(), 15);
    assert_eq!(charge(-2.5).round(), 2);
    assert_eq!(charge(f32::MAX).round(), 340282346638528859811704183484516925440);
}

#[test]
fn round_agrees_with_the_formatter() {
    for bits in samples() {
        let x = f32::from_bits(bits);
        if !x.is_finite() {
            continue;
        }
        let text = format!("{:.0}", x.abs());
        assert_eq!(Charge::from_bits(bits).round().to_string(), text, "{bits:#x}");
    }
}

#[test]
fn gauge_cells_round_a_tenth_with_ties_up() {
    assert_eq!(charge(0.0).gauge_cells(), Some(0));
    assert_eq!(charge(4.99).gauge_cells(), Some(0));
    assert_eq!(charge(5.0).gauge_cells(), Some(1));
    assert_eq!(charge(14.99).gauge_cells(), Some(1));
    assert_eq!(charge(15.0).gauge_cells(), Some(2));
    assert_eq!(charge(25.0).gauge_cells(), Some(3));
    assert_eq!(charge(50.0).gauge_cells(), Some(5));
    assert_eq!(charge(94.99).gauge_cells(), Some(9));
    assert_eq!(charge(95.0).gauge_cells(), Some(10));
    assert_eq!(charge(100.0).gauge_cells(), Some(10));
    assert_eq!(charge(104.99).gauge_cells(), Some(10));
    assert_eq!(charge(105.0).gauge_cells(), None);
    assert_eq!(charge(1.0e9).gauge_cells(), None);
    assert_eq!(charge(f32::INFINITY).gauge_cells(), None);
    assert_eq!(charge(f32::NAN).gauge_cells(), Some(0));
    assert_eq!(charge(-40.0).gauge_cells(), Some(0));
    assert_eq!(charge(f32::NEG_INFINITY).gauge_cells(), Some(0));
}

#[test]
fn gauge_cells_agree_with_rounding_the_quotient() {
    for bits in samples() {
        let x = f32::from_bits(bits);
        let cells = (x / 10.0).round() as usize;
        let expected = if cells <= 10 { Some(cells) } else { None };
        assert_eq!(Charge::from_bits(bits).gauge_cells(), expected, "{bits:#x}");
    }
}

#[test]
fn filled_and_empty_cells_make_the_gauge() {
    let mut bits = 0u32;
    while bits <= 100.0f32.to_bits() {
        let filled = Charge::from_bits(bits).gauge_cells().expect("in range");
        assert!(filled <= 10);
        assert_eq!(filled + (10 - filled), 10);
        bits += 40_009;
    }
}
