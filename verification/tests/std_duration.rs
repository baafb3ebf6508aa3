use core::cmp::Ordering;
use core::convert::TryFrom;
use core::time::Duration as StdDuration;

use time::std_duration::compare_std_parts;
use time::Duration;

#[test]
fn from_std() {
    assert_eq!(Duration::try_from(StdDuration::new(5, 10)), Ok(Duration::new(5, 10)));
    assert!(Duration::try_from(StdDuration::new(u64::MAX, 0)).is_err());
}

#[test]
fn to_std() {
    assert_eq!(StdDuration::try_from(Duration::new(5, 10)), Ok(StdDuration::new(5, 10)));
    assert!(StdDuration::try_from(Duration::seconds(-1)).is_err());
    assert!(StdDuration::try_from(Duration::nanoseconds(-1)).is_err());
}

#[test]
fn equality_with_std() {
    assert!(Duration::new(5, 10) == StdDuration::new(5, 10));
    assert!(StdDuration::new(5, 10) == Duration::new(5, 10));
    assert!(Duration::seconds(-5) != StdDuration::new(5, 0));
    assert!(Duration::maximum() != StdDuration::new(u64::MAX, 0));
}

#[test]
fn ordering_with_std() {
    assert_eq!(Duration::seconds(1).partial_cmp(&StdDuration::new(2, 0)), Some(Ordering::Less));
    assert_eq!(Duration::seconds(3).partial_cmp(&StdDuration::new(2, 0)), Some(Ordering::Greater));
    assert_eq!(Duration::new(2, 1).partial_cmp(&StdDuration::new(2, 1)), Some(Ordering::Equal));
    assert_eq!(Duration::nanoseconds(-1).partial_cmp(&StdDuration::new(0, 0)), Some(Ordering::Less));
    assert_eq!(Duration::maximum().partial_cmp(&StdDuration::new(u64::MAX, 0)), Some(Ordering::Less));
    assert_eq!(StdDuration::new(2, 0).partial_cmp(&Duration::seconds(1)), Some(Ordering::Greater));
    assert!(Duration::seconds(1) < StdDuration::new(1, 1));
}

#[test]
fn compare_parts() {
    assert_eq!(compare_std_parts(Duration::new(0, -1), 0, 0), Ordering::Less);
    assert_eq!(compare_std_parts(Duration::new(7, 3), 7, 2), Ordering::Greater);
}

#[test]
fn arithmetic_with_std() {
    assert_eq!(Duration::seconds(1) + StdDuration::new(0, 500_000_000), Duration::milliseconds(1_500));
    assert_eq!(StdDuration::new(2, 0) + Duration::seconds(-3), Duration::seconds(-1));
    assert_eq!(Duration::seconds(1) - StdDuration::new(2, 0), Duration::seconds(-1));
    assert_eq!(StdDuration::new(2, 0) - Duration::milliseconds(500), Duration::milliseconds(1_500));
}

#[test]
fn assignment_with_std() {
    let mut d = Duration::seconds(1);
    d.add_assign_std(StdDuration::new(1, 5));
    assert_eq!(d, Duration::new(2, 5));
    d.sub_assign_std(StdDuration::new(3, 0));
    assert_eq!(d, Duration::new(-1, 5));
    let mut s = StdDuration::new(5, 0);
    time::std_duration::std_sub_assign(&mut s, Duration::seconds(2));
    assert_eq!(s, StdDuration::new(3, 0));
    s = StdDuration::new(5, 0);
    time::std_duration::std_sub_assign(&mut s, Duration::seconds(-2));
    assert_eq!(s, StdDuration::new(7, 0));
}
