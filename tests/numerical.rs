use smoke::generator::{NumBounds, NumRangeBounds};
use smoke::{Generator, NumPrimitive, Seed, R};
use std::ops::RangeBounds;

fn source() -> R {
    R::from_seed(Seed::from(0x5eed_0000_1234_5678_9abc_def0_0f1e_2d3c))
}

fn num_range_bounds<T, U>(range: U)
where
    T: NumPrimitive + PartialOrd + std::fmt::Debug,
    U: NumBounds<T> + RangeBounds<T> + Clone,
{
    let mut r = source();
    let num_range_bounds = NumRangeBounds::new(range.clone());

    for _ in 0..1024 {
        let v = num_range_bounds.gen(&mut r).unwrap();
        assert!(range.contains(&v));
    }
}

#[test]
fn i8_range_bounds() {
    num_range_bounds(1..=16i8);
}

#[test]
fn u8_range_bounds() {
    num_range_bounds(std::ops::Range::<u8> { start: 1, end: 16 });
}

#[test]
fn i16_range_bounds() {
    num_range_bounds(std::ops::RangeFrom::<i16> { start: 16 });
}

#[test]
fn u16_range_bounds() {
    num_range_bounds(1u16..16);
}

#[test]
fn i32_range_bounds() {
    num_range_bounds(std::ops::RangeTo::<i32> { end: 16 });
}

#[test]
fn u32_range_bounds() {
    num_range_bounds(1u32..=16);
}

#[test]
fn i64_range_bounds() {
    num_range_bounds(1i64..16);
}

#[test]
fn u64_range_bounds() {
    let mut r = source();
    let num_range_bounds: NumRangeBounds<u64, std::ops::RangeFull> = NumRangeBounds::new(..);

    for _ in 0..1024 {
        let v = num_range_bounds.gen(&mut r).unwrap();
        assert!(v <= u64::MAX);
        assert!(u64::MIN <= v);
    }
}

#[test]
fn i128_range_bounds() {
    num_range_bounds(1i128..16);
}

#[test]
fn u128_range_bounds() {
    num_range_bounds(std::ops::RangeInclusive::<u128>::new(1, 16));
}

#[test]
fn isize_range_bounds() {
    num_range_bounds(std::ops::RangeToInclusive::<isize> { end: 16 });
}

#[test]
fn usize_range_bounds() {
    num_range_bounds(1usize..16);
}

fn check_num_range<T: NumPrimitive + PartialOrd + std::fmt::Debug>(lo: T, hi: T) {
    let mut r = source();
    for _ in 0..2000 {
        let v: T = r.num_range(lo, hi);
        assert!(lo <= v && v <= hi, "{:?} outside [{:?}, {:?}]", v, lo, hi);
    }
}

#[test]
fn num_range_stays_in_bounds_for_every_type() {
    check_num_range(3u8, 9);
    check_num_range(0u8, 255);
    check_num_range(-128i8, 127);
    check_num_range(-5i8, 3);
    check_num_range(100u16, 60000);
    check_num_range(-30000i16, -2);
    check_num_range(0u32, u32::MAX);
    check_num_range(-7i32, 7);
    check_num_range(1u64 << 40, u64::MAX - 3);
    check_num_range(i64::MIN, i64::MAX);
    check_num_range(i64::MIN, -1);
    check_num_range(0u128, u128::MAX);
    check_num_range(5u128, 1u128 << 100);
    check_num_range(i128::MIN, i128::MAX);
    check_num_range(-(1i128 << 90), 1i128 << 90);
    check_num_range(0usize, usize::MAX);
    check_num_range(10usize, 20);
    check_num_range(isize::MIN, isize::MAX);
    check_num_range(-3isize, -3);
}

#[test]
fn num_range_with_equal_bounds_gives_that_value() {
    let mut r = source();
    assert_eq!(r.num_range(7u8, 7), 7);
    assert_eq!(r.num_range(-9i32, -9), -9);
    assert_eq!(r.num_range(u128::MAX, u128::MAX), u128::MAX);
    assert_eq!(r.num_range(i64::MIN, i64::MIN), i64::MIN);
}

#[test]
fn small_range_reduces_one_draw_modulo_width() {
    let mut a = source();
    let mut b = source();
    let raw = a.next();
    assert_eq!(b.num_range(10u32, 19), 10 + raw % 10);
    let raw = a.next();
    assert_eq!(b.num_range(0u8, 9), (raw as u8) % 10);
}

#[test]
fn wide_range_combines_two_draws() {
    let mut a = source();
    let mut b = source();
    let hi = a.next() as u64;
    let lo = a.next() as u64;
    let whole = (hi << 32) | lo;
    assert_eq!(b.num::<u64>(), whole);
    let mut c = source();
    assert_eq!(c.num_range(0u64, (1u64 << 40) - 1), whole % (1u64 << 40));
}

#[test]
fn signed_draw_is_the_unsigned_bit_pattern() {
    let mut a = source();
    let mut b = source();
    assert_eq!(a.num::<i32>(), b.num::<u32>() as i32);
}
