use cfst::single::Single;

fn single(x: f32) -> Single {
    Single { bits: x.to_bits() }
}

fn samples() -> Vec<f32> {
    vec![
        0.0,
        -0.0,
        1.0,
        -1.0,
        0.1,
        0.100000024,
        f32::MIN_POSITIVE,
        f32::from_bits(1),
        f32::from_bits(0x007f_ffff),
        f32::from_bits(0x8000_0001),
        f32::MAX,
        f32::MIN,
        f32::INFINITY,
        f32::NEG_INFINITY,
        f32::NAN,
        f32::from_bits(0xffc0_0000),
        123.45,
        -123.45,
        16_777_216.0,
    ]
}

#[test]
fn comparisons_are_those_of_the_numbers() {
    for a in samples() {
        for b in samples() {
            assert_eq!(single(a).gt(single(b)), a > b, "{} {}", a, b);
            assert_eq!(single(a).ge(single(b)), a >= b, "{} {}", a, b);
            assert_eq!(single(a).le(single(b)), a <= b, "{} {}", a, b);
        }
    }
}

#[test]
fn zero_is_zero() {
    assert_eq!(f32::from_bits(Single::zero().bits), 0.0);
}
