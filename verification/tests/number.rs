use lox::number::{Arithmetic, Number, Operation};

fn num(x: f32) -> Number {
    Number::from_bits(x.to_bits())
}

fn samples() -> Vec<f32> {
    vec![
        0.0,
        -0.0,
        1.0,
        -1.0,
        0.5,
        -0.5,
        2.0,
        123.0,
        45.67,
        -45.67,
        1.0e-45,
        -1.0e-45,
        1.17549435e-38,
        3.4028235e38,
        -3.4028235e38,
        f32::INFINITY,
        f32::NEG_INFINITY,
        f32::NAN,
        -f32::NAN,
        f32::from_bits(0x7f80_0001),
        f32::from_bits(0xffff_ffff),
        f32::EPSILON,
        16777216.0,
        16777217.0,
    ]
}

#[test]
fn bits_go_in_and_out_unchanged() {
    for bits in [0u32, 1, 0x3f80_0000, 0x7f80_0000, 0x7fc0_0000, 0x8000_0000, 0xffff_ffff] {
        assert_eq!(Number::from_bits(bits).to_bits(), bits);
        assert_eq!(Number::from_bits(bits).bits, bits);
    }
    assert_eq!(num(1.0).to_bits(), 0x3f80_0000);
}

#[test]
fn negation_flips_the_sign_alone() {
    for x in samples() {
        assert_eq!(num(x).negated().to_bits(), (-x).to_bits(), "{}", x);
        assert_eq!(num(x).negated().negated(), num(x));
    }
    assert_eq!(num(0.0).negated().to_bits(), 0x8000_0000);
    assert_eq!(num(9.0).negated(), num(-9.0));
}

#[test]
fn classes_agree_with_the_machine() {
    for x in samples() {
        assert_eq!(num(x).is_not_a_number(), x.is_nan(), "{}", x);
        assert_eq!(num(x).is_zero_value(), x == 0.0, "{}", x);
    }
    assert!(num(0.0).is_zero_value());
    assert!(num(-0.0).is_zero_value());
    assert!(!num(1.0e-45).is_zero_value());
    assert!(!num(f32::INFINITY).is_not_a_number());
    assert!(Number::from_bits(0x7f80_0001).is_not_a_number());
}

#[test]
fn order_agrees_with_the_machine() {
    for x in samples() {
        for y in samples() {
            let (a, b) = (num(x), num(y));
            assert_eq!(a.less_than(b), x < y, "{} < {}", x, y);
            assert_eq!(a.less_or_equal(b), x <= y, "{} <= {}", x, y);
            assert_eq!(a.greater_than(b), x > y, "{} > {}", x, y);
            assert_eq!(a.greater_or_equal(b), x >= y, "{} >= {}", x, y);
            assert_eq!(a.equals(b), x == y, "{} == {}", x, y);
        }
    }
}

#[test]
fn zeros_are_equal_and_a_nan_equals_nothing() {
    assert!(num(0.0).equals(num(-0.0)));
    assert!(!num(0.0).less_than(num(-0.0)));
    assert!(num(0.0).less_or_equal(num(-0.0)));
    assert!(!num(f32::NAN).equals(num(f32::NAN)));
    assert!(!num(f32::NAN).less_or_equal(num(f32::NAN)));
    assert!(!num(f32::NAN).greater_or_equal(num(1.0)));
    assert!(num(f32::NEG_INFINITY).less_than(num(-3.4028235e38)));
    assert!(num(-1.0e-45).less_than(num(0.0)));
    assert!(num(1.0).less_than(num(2.0)));
    assert!(!num(2.0).less_than(num(1.0)));
}

#[test]
fn a_request_is_plain_data() {
    let request = Arithmetic { operation: Operation::Divide, left: num(1.0), right: num(3.0) };
    assert_eq!(request, request.clone());
    assert_ne!(request.operation, Operation::Multiply);
}
