use fx_collection::single::{Single, INFINITY_BITS, SIGN_BIT};

fn samples() -> Vec<f32> {
    vec![
        1.0,
        1. / 16.,
        0.01,
        f32::MIN_POSITIVE,
        f32::from_bits(1),
        f32::MAX,
        f32::INFINITY,
        0.,
        -0.,
        -1. / 16.,
        -0.01,
        -f32::MIN_POSITIVE,
        f32::from_bits(SIGN_BIT + 1),
        f32::MIN,
        f32::NEG_INFINITY,
        f32::NAN,
        -f32::NAN,
        f32::from_bits(INFINITY_BITS + 1),
        f32::from_bits(0x7FFF_FFFF),
        f32::from_bits(SIGN_BIT + INFINITY_BITS + 1),
        f32::from_bits(u32::MAX),
    ]
}

#[test]
fn single_keeps_its_bits() {
    for value in samples() {
        assert_eq!(Single::from_bits(value.to_bits()).to_bits(), value.to_bits());
        assert_eq!(Single::from_bits(value.to_bits()).bits, value.to_bits());
    }
    assert_eq!(f32::from_bits(INFINITY_BITS), f32::INFINITY);
    assert_eq!(f32::from_bits(SIGN_BIT).to_bits(), (-0.0f32).to_bits());
}

#[test]
fn single_is_greater_than_zero_as_the_number_is() {
    for value in samples() {
        let number = Single::from_bits(value.to_bits());
        assert_eq!(number.is_greater_than_zero(), value > 0., "{}", value);
    }
}

#[test]
fn single_equals_as_the_numbers_do() {
    for a in samples() {
        for b in samples() {
            let left = Single::from_bits(a.to_bits());
            let right = Single::from_bits(b.to_bits());
            assert_eq!(left.equals(&right), a == b, "{} {}", a, b);
        }
    }
}

fn exact_units(value: f32) -> u32 {
    if value > 0. {
        ((value as f64).min(1.) * 1e9 + 0.5).floor() as u32
    } else {
        0
    }
}

#[test]
fn single_to_fixed_of_chosen_numbers() {
    let cases: [(f32, u32); 16] = [
        (0., 0),
        (-0., 0),
        (0.25, 250_000_000),
        (0.5, 500_000_000),
        (0.75, 750_000_000),
        (1., 1_000_000_000),
        (2., 1_000_000_000),
        (f32::MAX, 1_000_000_000),
        (f32::INFINITY, 1_000_000_000),
        (0.01, 10_000_000),
        (0.02, 20_000_000),
        (0.3, 300_000_012),
        (-0.25, 0),
        (f32::NEG_INFINITY, 0),
        (f32::NAN, 0),
        (f32::MIN_POSITIVE, 0),
    ];
    for (value, units) in cases {
        assert_eq!(Single::from_bits(value.to_bits()).to_fixed(), units, "{}", value);
    }
    assert_eq!(Single::from_bits(0x3F7F_FFFF).to_fixed(), 999_999_940);
    assert_eq!(Single::from_bits(0x3F80_0000).to_fixed(), 1_000_000_000);
    assert_eq!(Single::from_bits(1).to_fixed(), 0);
}

#[test]
fn single_to_fixed_rounds_halves_up() {
    let half_unit = 0.5e-9f32;
    assert!((half_unit as f64) * 1e9 < 0.5);
    assert_eq!(Single::from_bits(half_unit.to_bits()).to_fixed(), 0);
    let above = f32::from_bits(half_unit.to_bits() + 1);
    assert!((above as f64) * 1e9 > 0.5);
    assert_eq!(Single::from_bits(above.to_bits()).to_fixed(), 1);
    let exact_half = 2.5f32 * 0.00390625;
    assert_eq!(exact_half, 0.009765625);
    assert_eq!(Single::from_bits(exact_half.to_bits()).to_fixed(), 9_765_625);
    let tie = 1.5f32 / 1024. / 1024. / 1024.;
    assert_eq!((tie as f64) * 1e9, 1.3969838619232178);
    assert_eq!(Single::from_bits(tie.to_bits()).to_fixed(), 1);
}

#[test]
fn single_to_fixed_is_the_nearest_unit_everywhere() {
    let mut bits: u32 = 0;
    let mut count = 0;
    while bits <= 0x4000_0000 {
        let value = f32::from_bits(bits);
        assert_eq!(Single::from_bits(bits).to_fixed(), exact_units(value), "{:#x}", bits);
        assert_eq!(Single::from_bits(bits + SIGN_BIT).to_fixed(), 0, "{:#x}", bits);
        bits += 104_729;
        count += 1;
    }
    assert!(count > 10_000);
    for bits in 0x3000_0000u32..0x3000_4000 {
        assert_eq!(Single::from_bits(bits).to_fixed(), exact_units(f32::from_bits(bits)));
    }
    for bits in 0x3F7F_F000u32..0x3F80_1000 {
        assert_eq!(Single::from_bits(bits).to_fixed(), exact_units(f32::from_bits(bits)));
    }
}

#[test]
fn single_to_fixed_never_goes_down_as_the_number_goes_up() {
    let mut last = 0;
    let mut bits: u32 = 0x2F00_0000;
    while bits <= 0x3F80_0000 {
        let units = Single::from_bits(bits).to_fixed();
        assert!(units >= last);
        last = units;
        bits += 7919;
    }
    assert_eq!(last, 999_552_965);
    assert!(Single::from_bits(0x3F80_0000).to_fixed() >= last);
}
