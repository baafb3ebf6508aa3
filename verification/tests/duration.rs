use time::Duration;

#[test]
fn zero_is_zero_seconds() {
    assert_eq!(Duration::zero(), Duration::seconds(0));
    assert_eq!(Duration::default(), Duration::zero());
}

#[test]
fn sign_checks() {
    assert!(Duration::seconds(0).is_zero());
    assert!(!Duration::nanoseconds(1).is_zero());
    assert!(Duration::seconds(-1).is_negative());
    assert!(!Duration::seconds(0).is_negative());
    assert!(!Duration::seconds(1).is_negative());
    assert!(Duration::nanoseconds(-1).is_negative());
    assert!(Duration::seconds(1).is_positive());
    assert!(!Duration::seconds(0).is_positive());
    assert!(!Duration::seconds(-1).is_positive());
}

#[test]
fn abs_of_durations() {
    assert_eq!(Duration::seconds(1).abs(), Duration::seconds(1));
    assert_eq!(Duration::seconds(0).abs(), Duration::seconds(0));
    assert_eq!(Duration::seconds(-1).abs(), Duration::seconds(1));
    assert_eq!(Duration::new(-3, -500).abs(), Duration::new(3, 500));
}

#[test]
fn abs_saturates_whole_seconds() {
    assert_eq!(Duration::minimum().abs(), Duration::maximum());
    assert_eq!(Duration::seconds(i64::MIN).abs(), Duration::seconds(i64::MAX));
}

#[test]
fn new_normalizes() {
    assert_eq!(Duration::new(1, 0), Duration::seconds(1));
    assert_eq!(Duration::new(-1, 0), Duration::seconds(-1));
    assert_eq!(Duration::new(1, 2_000_000_000), Duration::seconds(3));
    assert_eq!(Duration::new(1, -1), Duration::nanoseconds(999_999_999));
    assert_eq!(Duration::new(-1, 1), Duration::nanoseconds(-999_999_999));
    assert_eq!(Duration::new(0, -2_100_000_000), Duration::new(-2, -100_000_000));
}

#[test]
fn unit_constructors() {
    assert_eq!(Duration::weeks(1), Duration::seconds(604_800));
    assert_eq!(Duration::days(1), Duration::seconds(86_400));
    assert_eq!(Duration::hours(1), Duration::seconds(3_600));
    assert_eq!(Duration::minutes(1), Duration::seconds(60));
    assert_eq!(Duration::seconds(1), Duration::milliseconds(1_000));
    assert_eq!(Duration::milliseconds(1), Duration::microseconds(1_000));
    assert_eq!(Duration::milliseconds(-1), Duration::microseconds(-1_000));
    assert_eq!(Duration::microseconds(1), Duration::nanoseconds(1_000));
    assert_eq!(Duration::microseconds(-1), Duration::nanoseconds(-1_000));
    assert_eq!(Duration::nanoseconds(1), Duration::microseconds(1) / 1_000);
    assert_eq!(Duration::nanoseconds(-1), Duration::microseconds(-1) / 1_000);
    assert_eq!(Duration::milliseconds(-1_500), Duration::new(-1, -500_000_000));
}

#[test]
fn whole_units() {
    assert_eq!(Duration::weeks(1).whole_weeks(), 1);
    assert_eq!(Duration::weeks(-1).whole_weeks(), -1);
    assert_eq!(Duration::days(6).whole_weeks(), 0);
    assert_eq!(Duration::days(-6).whole_weeks(), 0);
    assert_eq!(Duration::days(1).whole_days(), 1);
    assert_eq!(Duration::days(-1).whole_days(), -1);
    assert_eq!(Duration::hours(23).whole_days(), 0);
    assert_eq!(Duration::hours(-23).whole_days(), 0);
    assert_eq!(Duration::hours(1).whole_hours(), 1);
    assert_eq!(Duration::hours(-1).whole_hours(), -1);
    assert_eq!(Duration::minutes(59).whole_hours(), 0);
    assert_eq!(Duration::minutes(-59).whole_hours(), 0);
    assert_eq!(Duration::minutes(1).whole_minutes(), 1);
    assert_eq!(Duration::minutes(-1).whole_minutes(), -1);
    assert_eq!(Duration::seconds(59).whole_minutes(), 0);
    assert_eq!(Duration::seconds(-59).whole_minutes(), 0);
    assert_eq!(Duration::seconds(1).whole_seconds(), 1);
    assert_eq!(Duration::seconds(-1).whole_seconds(), -1);
    assert_eq!(Duration::minutes(1).whole_seconds(), 60);
    assert_eq!(Duration::minutes(-1).whole_seconds(), -60);
}

#[test]
fn sub_second_units() {
    assert_eq!(Duration::seconds(1).whole_milliseconds(), 1_000);
    assert_eq!(Duration::seconds(-1).whole_milliseconds(), -1_000);
    assert_eq!(Duration::milliseconds(1).whole_milliseconds(), 1);
    assert_eq!(Duration::milliseconds(-1).whole_milliseconds(), -1);
    assert_eq!(Duration::new(1, 400_000_000).subsec_milliseconds(), 400);
    assert_eq!(Duration::new(-1, -400_000_000).subsec_milliseconds(), -400);
    assert_eq!(Duration::milliseconds(1).whole_microseconds(), 1_000);
    assert_eq!(Duration::milliseconds(-1).whole_microseconds(), -1_000);
    assert_eq!(Duration::microseconds(1).whole_microseconds(), 1);
    assert_eq!(Duration::microseconds(-1).whole_microseconds(), -1);
    assert_eq!(Duration::new(1, 400_000).subsec_microseconds(), 400);
    assert_eq!(Duration::new(-1, -400_000).subsec_microseconds(), -400);
    assert_eq!(Duration::microseconds(1).whole_nanoseconds(), 1_000);
    assert_eq!(Duration::microseconds(-1).whole_nanoseconds(), -1_000);
    assert_eq!(Duration::nanoseconds(1).whole_nanoseconds(), 1);
    assert_eq!(Duration::nanoseconds(-1).whole_nanoseconds(), -1);
    assert_eq!(Duration::new(1, 400).subsec_nanoseconds(), 400);
    assert_eq!(Duration::new(-1, -400).subsec_nanoseconds(), -400);
    assert_eq!(Duration::maximum().whole_nanoseconds(), 9_223_372_036_854_775_807_999_999_999);
}

#[test]
fn whole_units_of_extremes() {
    assert_eq!(Duration::maximum().whole_weeks(), 15_250_284_452_471);
    assert_eq!(Duration::minimum().whole_seconds(), i64::MIN);
    assert_eq!(Duration::minimum().subsec_nanoseconds(), -999_999_999);
}

#[test]
fn checked_add_examples() {
    assert_eq!(Duration::seconds(5).checked_add(Duration::seconds(5)), Some(Duration::seconds(10)));
    assert_eq!(Duration::maximum().checked_add(Duration::nanoseconds(1)), None);
    assert_eq!(Duration::seconds(-5).checked_add(Duration::seconds(5)), Some(Duration::seconds(0)));
    assert_eq!(
        Duration::new(1, 600_000_000).checked_add(Duration::new(0, 600_000_000)),
        Some(Duration::new(2, 200_000_000))
    );
    assert_eq!(
        Duration::new(-1, -600_000_000).checked_add(Duration::new(3, 0)),
        Some(Duration::new(1, 400_000_000))
    );
}

#[test]
fn checked_sub_examples() {
    assert_eq!(Duration::seconds(5).checked_sub(Duration::seconds(5)), Some(Duration::zero()));
    assert_eq!(Duration::minimum().checked_sub(Duration::nanoseconds(1)), None);
    assert_eq!(Duration::seconds(5).checked_sub(Duration::seconds(10)), Some(Duration::seconds(-5)));
}

#[test]
fn checked_sub_near_the_bounds() {
    // The whole seconds of the operands alone overflow, but the exact difference,
    // i64::MAX seconds and one nanosecond, is in range.
    assert_eq!(
        Duration::nanoseconds(-999_999_999).checked_sub(Duration::seconds(i64::MIN)),
        Some(Duration::new(i64::MAX, 1))
    );
    assert_eq!(Duration::zero().checked_sub(Duration::minimum()), None);
}

#[test]
fn checked_mul_examples() {
    assert_eq!(Duration::seconds(5).checked_mul(2), Some(Duration::seconds(10)));
    assert_eq!(Duration::seconds(5).checked_mul(-2), Some(Duration::seconds(-10)));
    assert_eq!(Duration::seconds(5).checked_mul(0), Some(Duration::seconds(0)));
    assert_eq!(Duration::maximum().checked_mul(2), None);
    assert_eq!(Duration::minimum().checked_mul(2), None);
    assert_eq!(Duration::new(1, 600_000_000).checked_mul(3), Some(Duration::new(4, 800_000_000)));
}

#[test]
fn checked_div_examples() {
    assert_eq!(Duration::seconds(10).checked_div(2), Some(Duration::seconds(5)));
    assert_eq!(Duration::seconds(10).checked_div(-2), Some(Duration::seconds(-5)));
    assert_eq!(Duration::seconds(1).checked_div(0), None);
    assert_eq!(Duration::minimum().checked_div(-1), None);
    assert_eq!(Duration::seconds(1).checked_div(4), Some(Duration::milliseconds(250)));
}

#[test]
fn checked_div_rounds_the_quotient_toward_zero() {
    // (1 s + 2 ns) / 3 is 333_333_334 ns rounded toward zero.
    assert_eq!(Duration::new(1, 2).checked_div(3), Some(Duration::nanoseconds(333_333_334)));
    assert_eq!(Duration::new(-1, -2).checked_div(3), Some(Duration::nanoseconds(-333_333_334)));
    assert_eq!(Duration::new(1, 2) / 3, Duration::nanoseconds(333_333_334));
}

#[test]
fn saturating_add_examples() {
    assert_eq!(Duration::seconds(5).saturating_add(Duration::seconds(5)), Duration::seconds(10));
    assert_eq!(Duration::maximum().saturating_add(Duration::nanoseconds(1)), Duration::maximum());
    assert_eq!(Duration::minimum().saturating_add(Duration::nanoseconds(-1)), Duration::minimum());
    assert_eq!(Duration::seconds(-5).saturating_add(Duration::seconds(5)), Duration::zero());
    assert_eq!(Duration::maximum().saturating_add(Duration::maximum()), Duration::maximum());
}

#[test]
fn saturating_sub_examples() {
    assert_eq!(Duration::seconds(5).saturating_sub(Duration::seconds(5)), Duration::zero());
    assert_eq!(Duration::minimum().saturating_sub(Duration::nanoseconds(1)), Duration::minimum());
    assert_eq!(Duration::maximum().saturating_sub(Duration::nanoseconds(-1)), Duration::maximum());
    assert_eq!(Duration::seconds(5).saturating_sub(Duration::seconds(10)), Duration::seconds(-5));
}

#[test]
fn saturating_sub_saturates_toward_the_difference() {
    assert_eq!(Duration::zero().saturating_sub(Duration::minimum()), Duration::maximum());
    assert_eq!(
        Duration::nanoseconds(-999_999_999).saturating_sub(Duration::seconds(i64::MIN)),
        Duration::new(i64::MAX, 1)
    );
}

#[test]
fn saturating_mul_examples() {
    assert_eq!(Duration::seconds(5).saturating_mul(2), Duration::seconds(10));
    assert_eq!(Duration::seconds(5).saturating_mul(-2), Duration::seconds(-10));
    assert_eq!(Duration::seconds(5).saturating_mul(0), Duration::zero());
    assert_eq!(Duration::maximum().saturating_mul(2), Duration::maximum());
    assert_eq!(Duration::minimum().saturating_mul(2), Duration::minimum());
    assert_eq!(Duration::maximum().saturating_mul(-2), Duration::minimum());
    assert_eq!(Duration::minimum().saturating_mul(-2), Duration::maximum());
}

#[test]
fn saturating_mul_saturates_toward_the_product() {
    let d = Duration::new(-3_074_457_345_618_258_602, -999_999_999);
    assert_eq!(d.checked_mul(-3), None);
    assert_eq!(d.saturating_mul(-3), Duration::maximum());
}

#[test]
fn operators() {
    assert_eq!(Duration::seconds(1) + Duration::seconds(2), Duration::seconds(3));
    assert_eq!(Duration::seconds(1) - Duration::seconds(2), Duration::seconds(-1));
    assert_eq!(-Duration::seconds(1), Duration::seconds(-1));
    assert_eq!(-Duration::new(1, 5), Duration::new(-1, -5));
    assert_eq!(Duration::seconds(2) * 3i8, Duration::seconds(6));
    assert_eq!(Duration::seconds(2) * 3i16, Duration::seconds(6));
    assert_eq!(Duration::seconds(2) * -3i32, Duration::seconds(-6));
    assert_eq!(Duration::seconds(2) * 3u8, Duration::seconds(6));
    assert_eq!(Duration::seconds(2) * 3u16, Duration::seconds(6));
    assert_eq!(Duration::seconds(2) * 3u32, Duration::seconds(6));
    assert_eq!(3i32 * Duration::seconds(2), Duration::seconds(6));
    assert_eq!(3u8 * Duration::milliseconds(500), Duration::new(1, 500_000_000));
    assert_eq!(Duration::seconds(7) / 2i8, Duration::new(3, 500_000_000));
    assert_eq!(Duration::seconds(7) / -2i16, Duration::new(-3, -500_000_000));
    assert_eq!(Duration::seconds(7) / 2u32, Duration::new(3, 500_000_000));
    assert_eq!(Duration::nanoseconds(7) / 2u16, Duration::nanoseconds(3));
    assert_eq!(Duration::nanoseconds(-7) / 2u8, Duration::nanoseconds(-3));
}

#[test]
fn add_then_sub_gives_back() {
    let a = Duration::new(12, 345_678_901);
    let b = Duration::new(-98, -765_432_109);
    assert_eq!((a + b) - b, a);
    assert_eq!((b + a) - a, b);
}

#[test]
fn neg_twice_gives_back() {
    let d = Duration::new(-4, -1);
    assert_eq!(-(-d), d);
}

#[test]
fn mul_agrees_with_checked_and_saturating() {
    let d = Duration::new(3, 700_000_000);
    assert_eq!(Some(d * 7i32), d.checked_mul(7));
    assert_eq!(d * 7i32, d.saturating_mul(7));
}

#[test]
fn saturating_add_agrees_with_checked_add() {
    let a = Duration::new(1, 900_000_000);
    let b = Duration::new(2, 200_000_000);
    assert_eq!(Some(a.saturating_add(b)), a.checked_add(b));
}

#[test]
fn whole_parts_recombine() {
    let d = Duration::new(-7_200, -123_456_789);
    assert_eq!(
        d.whole_seconds() as i128 * 1_000_000_000 + d.subsec_nanoseconds() as i128,
        d.whole_nanoseconds()
    );
    assert_eq!(d.whole_minutes(), d.whole_seconds() / 60);
    assert_eq!(d.whole_hours(), -2);
    assert_eq!(d.whole_milliseconds(), -7_200_123);
}

#[test]
fn checked_div_agrees_with_the_operator() {
    let d = Duration::new(-5, -7);
    let q = d.checked_div(-3).unwrap();
    assert_eq!(q.whole_nanoseconds(), d.whole_nanoseconds() / -3);
    assert_eq!(q, d / -3i32);
}

#[test]
fn std_parts() {
    assert_eq!(Duration::from_std_parts(5, 10), Ok(Duration::new(5, 10)));
    assert!(Duration::from_std_parts(u64::MAX, 0).is_err());
    assert_eq!(Duration::new(5, 10).to_std_parts(), Ok((5, 10)));
    assert!(Duration::nanoseconds(-1).to_std_parts().is_err());
    assert!(Duration::new(5, 10).eq_std_parts(5, 10));
    assert!(!Duration::new(5, 10).eq_std_parts(5, 11));
}

#[test]
fn debug_output() {
    assert_eq!(
        format!("{:?}", Duration::new(1, 5)),
        "Duration { seconds: 1, nanoseconds: 5 }"
    );
}

#[test]
fn sum_adds_in_order() {
    assert_eq!(Duration::sum(&[]), Duration::zero());
    assert_eq!(
        Duration::sum(&[Duration::seconds(1), Duration::milliseconds(500), Duration::seconds(-3)]),
        Duration::milliseconds(-1_500)
    );
    assert_eq!(Duration::sum(&[Duration::maximum(), Duration::minimum()]), Duration::seconds(-1));
}

#[test]
fn assignment_operators() {
    let mut d = Duration::seconds(1);
    d.add_assign(Duration::milliseconds(500));
    assert_eq!(d, Duration::milliseconds(1_500));
    d.sub_assign(Duration::seconds(2));
    assert_eq!(d, Duration::milliseconds(-500));
    d.mul_assign(-4);
    assert_eq!(d, Duration::seconds(2));
    d.mul_assign(u32::MAX as i64);
    assert_eq!(d, Duration::seconds(2 * u32::MAX as i64));
    d.div_assign(3);
    assert_eq!(d, Duration::seconds(2 * u32::MAX as i64 / 3));
    let mut e = Duration::new(1, 2);
    e.div_assign(3);
    assert_eq!(e, Duration::nanoseconds(333_333_334));
}
