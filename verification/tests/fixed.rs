use chariot::fixed::{Fixed, ToFixed, FIXED_PI, FIXED_TWO_PI, ONE_HALF, SCALE_BITS};

/// The fixed-point number nearest below `v`, as a conversion from `f64` gives it.
fn fx(v: f64) -> Fixed {
    Fixed::new((v * ((1i64 << 24) as f64)) as i64)
}

#[test]
fn test_const() {
    let test_const_1 = fx(5.2);
    let test_const_2 = fx(5.0);
    let test_const_3 = fx(-5.0);
    assert_eq!(fx(5.2), test_const_1);
    assert_eq!(Fixed::from(5), test_const_2);
    assert_eq!(Fixed::from(-5), test_const_3);
}

#[test]
fn test_add() {
    assert_eq!(Fixed::new(20000), Fixed::new(5000) + Fixed::new(15000));
    assert_eq!(Fixed::new(5000), Fixed::new(-5000) + Fixed::new(10000));

    let mut a = Fixed::new(1000);
    a = a + Fixed::new(500);
    assert_eq!(Fixed::new(1500), a);
}

#[test]
fn test_sub() {
    assert_eq!(Fixed::new(-10000), Fixed::new(5000) - Fixed::new(15000));
    assert_eq!(Fixed::new(-20000), Fixed::new(-5000) - Fixed::new(15000));

    let mut a = Fixed::new(1000);
    a = a - Fixed::new(500);
    assert_eq!(Fixed::new(500), a);
}

#[test]
fn test_mul() {
    assert_eq!(50.to_fixed(), 5.to_fixed() * 10.to_fixed());
    assert_eq!((-50).to_fixed(), 5.to_fixed() * (-10).to_fixed());
    assert_eq!(55.to_fixed(), fx(5.5) * 10.to_fixed());
    assert_eq!(fx(2.5), 5.to_fixed() * fx(0.5));

    let mut a = Fixed::from(5);
    a = a * Fixed::from(2);
    assert_eq!(Fixed::from(10), a);
}

#[test]
fn test_div() {
    assert_eq!(2.to_fixed(), 10.to_fixed() / 5.to_fixed());
    assert_eq!(4.to_fixed(), 1.to_fixed() / fx(0.25));
    assert_eq!((-2).to_fixed(), 10.to_fixed() / (-5).to_fixed());
    assert_eq!(fx(0.5), 1.to_fixed() / 2.to_fixed());
    assert_eq!(fx(2.5), 5.to_fixed() / 2.to_fixed());

    let mut a = Fixed::from(10);
    a = a / Fixed::from(2);
    assert_eq!(Fixed::from(5), a);
}

#[test]
fn test_rem() {
    assert_eq!(2.to_fixed(), 10.to_fixed() % 8.to_fixed());
    assert_eq!(0.to_fixed(), 10.to_fixed() % 10.to_fixed());
    assert_eq!(9.to_fixed(), 9.to_fixed() % 10.to_fixed());
}

#[test]
fn test_zero() {
    assert_eq!(0, Fixed::zero().scaled);
    assert!(Fixed::is_zero(&Fixed::zero()));
}

#[test]
fn test_one() {
    assert_eq!(1, Fixed::one().to_i32().unwrap());
}

#[test]
fn test_bounded() {
    assert_eq!(Fixed::new(i64::min_value()), Fixed::min_value());
    assert_eq!(Fixed::new(i64::max_value()), Fixed::max_value());
}

#[test]
fn test_neg() {
    assert_eq!(Fixed::from(-5), -Fixed::from(5));
    assert_eq!(Fixed::from(5), -Fixed::from(-5));
}

#[test]
fn test_compare() {
    assert!(Fixed::from(5) > Fixed::from(4));
    assert!(Fixed::from(4) < Fixed::from(5));
    assert!(Fixed::from(4) <= Fixed::from(4));
    assert!(Fixed::from(4) >= Fixed::from(4));
    assert!(Fixed::from(4) == Fixed::from(4));
    assert!(Fixed::from(5) != Fixed::from(4));
}

#[test]
fn test_sqrt() {
    assert_eq!(Fixed::from(1), Fixed::from(1).sqrt());
    assert_eq!(Fixed::from(2), Fixed::from(4).sqrt());
    assert_eq!(Fixed::from(3), Fixed::from(9).sqrt());
    assert_eq!(Fixed::from(11), Fixed::from(121).sqrt());
    assert_eq!(Fixed::from(100), Fixed::from(10000).sqrt());
    assert_eq!(fx(0.5), fx(0.25).sqrt());
}

#[test]
fn test_fraction() {
    assert_eq!(fx(0.5), fx(1.5).fraction());
    assert_eq!(fx(-0.5), fx(-1.5).fraction());
}

#[test]
fn test_truncate() {
    assert_eq!(Fixed::from(1), fx(1.5).truncate());
    assert_eq!(Fixed::from(-1), fx(-1.5).truncate());
}

#[test]
fn test_round() {
    assert_eq!(Fixed::from(2), fx(1.5).round());
    assert_eq!(Fixed::from(1), fx(1.4).round());
    assert_eq!(Fixed::from(-2), fx(-1.6).round());
    assert_eq!(Fixed::from(-1), fx(-1.3).round());
}

#[test]
fn test_convert() {
    let verify = |f: Fixed| assert_eq!(5 << SCALE_BITS, f.scaled);
    verify(Fixed::from_i32(5).unwrap());
    verify(Fixed::from_i64(5).unwrap());
    verify(fx(5.0));
    verify(Fixed::from(5i32));
    verify(Fixed::from(5i64));
    verify(5i32.into());
    verify(5i64.into());

    let verify = |f: Fixed| assert_eq!(-5 << SCALE_BITS, f.scaled);
    verify(Fixed::from_i32(-5).unwrap());
    verify(Fixed::from_i64(-5).unwrap());
    verify(fx(-5.0));

    let verify = |f: Fixed| assert_eq!((5i64 << SCALE_BITS) + ONE_HALF, f.scaled);
    verify(fx(5.5));
}

#[test]
fn test_pi() {
    assert_eq!("3.1415925", format!("{}", (Fixed::pi().scaled as f32) / ((1 << SCALE_BITS) as f32)));
    assert_eq!(FIXED_PI, Fixed::pi().scaled);
}

#[test]
fn test_two_pi() {
    assert_eq!("6.2831855", format!("{}", (Fixed::two_pi().scaled as f32) / ((1 << SCALE_BITS) as f32)));
    assert_eq!(FIXED_TWO_PI, Fixed::two_pi().scaled);
}

#[test]
fn fixed_test_bench_wrapper() {}

#[test]
fn sqrt_of_non_square_settles_near_the_root() {
    // 2.0: the iteration settles within the epsilon of the true root 1.41421356...
    let r = Fixed::from(2).sqrt();
    let exact = (2.0f64.sqrt() * 16777216.0) as i64;
    assert!((r.scaled - exact).abs() <= 1677 + 1);
}

#[test]
fn to_integer_conversions_round_down() {
    assert_eq!(Some(1), fx(1.5).to_i32());
    assert_eq!(Some(-2), fx(-1.5).to_i32());
    assert_eq!(Some(7), Fixed::from(7).to_i64());
    assert_eq!(Some(7), Fixed::from(7).to_u64());
}

#[test]
fn abs_of_negative() {
    assert_eq!(Fixed::from(3), Fixed::from(-3).abs());
    assert_eq!(Fixed::from(3), Fixed::from(3).abs());
}

#[test]
fn assign_operators_match_the_binary_ones() {
    let mut a = Fixed::from(6);
    a += Fixed::from(2);
    assert_eq!(Fixed::from(8), a);
    a -= Fixed::from(3);
    assert_eq!(Fixed::from(5), a);
    a *= Fixed::from(4);
    assert_eq!(Fixed::from(20), a);
    a /= Fixed::from(8);
    assert_eq!(fx(2.5), a);
    a %= Fixed::from(1);
    assert_eq!(fx(0.5), a);
}

#[test]
fn sqrt_beyond_the_exact_range_follows_the_fixed_arithmetic() {
    // The shift of the division drops high bits here, so the iteration runs
    // on a different dividend and settles on a negative guess.
    assert_eq!(Fixed::new(-4194304), Fixed::new(0x100_0010_0000).sqrt());
    assert_eq!(Fixed::new(7235), Fixed::new(0x200_0000_0003).sqrt());
}
