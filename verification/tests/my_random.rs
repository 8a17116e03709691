use random::digits::{char_digit, last_char_digit};
use random::my_random::{compose_decide, range_random, singl_random, Bound, Decision, Number, Range};

const DIVIDE: usize = 3;

fn show_bar_graph<const N: usize>(data: [usize; N]) {
    let mut bars = String::new();

    for (i, &value) in data.iter().enumerate() {
        let p = if i < 10 {
            format!(" {}: {}\n", i, "#".repeat(value / DIVIDE))
        } else {
            format!("{}: {}\n", i, "#".repeat(value / DIVIDE))
        };
        bars.push_str(&p);
    }

    println!("{}", bars);
}

fn singl_random_repeat<const MAX: usize>() -> [usize; 10] {
    let mut list = [0; 10];
    for _ in 0..MAX {
        list[singl_random::<usize>()] += 1;
    }
    list
}

fn range_random_repeat<const N: usize, const MAX: usize>() -> [usize; N] {
    let mut list = [0; N];
    for _ in 0..MAX {
        list[range_random(Bound::Included(0), Bound::Excluded(N))] += 1;
    }
    list
}

#[test]
fn singl_random_graph() {
    let data = singl_random_repeat::<1000>();
    show_bar_graph(data);
}

#[test]
fn range_random_graph() {
    let data = range_random_repeat::<15, 1000>();
    show_bar_graph(data);
}

#[test]
fn digit_chars_round_trip() {
    for (i, c) in "0123456789".chars().enumerate() {
        let parsed = char_digit(c);
        assert_eq!(parsed, Some(i as u8));
        assert_eq!(parsed.unwrap().to_string(), c.to_string());
    }
    assert_eq!(char_digit(':'), None);
    assert_eq!(char_digit(' '), None);
    assert_eq!(char_digit('a'), None);
}

#[test]
fn last_char_digit_cases() {
    assert_eq!(last_char_digit("12:34:56.789"), Some(9));
    assert_eq!(last_char_digit("0"), Some(0));
    assert_eq!(last_char_digit(""), None);
    assert_eq!(last_char_digit("12:34:"), None);
}

#[test]
fn is_range_boundaries() {
    let range: Range<u64> = Range::new(Bound::Included(4), Bound::Excluded(10));
    assert!(range.is_range(4));
    assert!(range.is_range(9));
    assert!(!range.is_range(10));

    let range: Range<u64> = Range::new(Bound::Included(10), Bound::Unbounded);
    assert!(!range.is_range(4));
    assert!(range.is_range(10));

    let range: Range<u64> = Range::new(Bound::Unbounded, Bound::Excluded(10));
    assert!(range.is_range(4));
    assert!(!range.is_range(10));

    let range: Range<u64> = Range::new(Bound::Included(4), Bound::Included(10));
    assert!(range.is_range(10));
    assert!(!range.is_range(11));

    let range: Range<u64> = Range::new(Bound::Unbounded, Bound::Unbounded);
    assert!(range.is_range(0));
    assert!(range.is_range(u64::MAX));
}

#[test]
fn normalization_idempotent() {
    let once: Range<u64> = Range::new(Bound::Included(4), Bound::Excluded(10));
    let again: Range<u64> = Range::new(Bound::Included(4), Bound::Included(9));
    for v in 0u64..12 {
        assert_eq!(once.is_range(v), again.is_range(v));
    }
}

#[test]
fn compose_boundaries() {
    for _ in 0..50 {
        let v: u64 = range_random(Bound::Included(4), Bound::Excluded(10));
        assert!(4 <= v && v < 10);
        let v: u64 = range_random(Bound::Included(10), Bound::Unbounded);
        assert!(v >= 10);
        let v: u64 = range_random(Bound::Unbounded, Bound::Excluded(10));
        assert!(v < 10);
    }
}

#[test]
fn compose_decisions_scripted() {
    // a range whose normalized end 9 has width one
    let range: Range<u64> = Range::new(Bound::Included(4), Bound::Excluded(10));
    // a stop digit below seven accepts a member and rejects a non-member
    assert_eq!(compose_decide(&range, 5, 1, 0), Decision::Accept(5));
    assert_eq!(compose_decide(&range, 15, 1, 3), Decision::Resample);
    // a candidate of the target width is decided by membership
    assert_eq!(compose_decide(&range, 5, 1, 9), Decision::Accept(5));
    assert_eq!(compose_decide(&range, 3, 1, 9), Decision::Resample);
    // one too wide loses its last digit before the membership test
    assert_eq!(compose_decide(&range, 57, 1, 9), Decision::Accept(5));
    assert_eq!(compose_decide(&range, 23, 1, 9), Decision::Resample);
    // a narrower candidate keeps growing
    assert_eq!(compose_decide(&range, 5, 2, 9), Decision::Grow);
}

#[test]
fn singl_random_distribution() {
    let data = singl_random_repeat::<1000>();
    let total: usize = data.iter().sum();
    assert_eq!(total, 1000);
    for &count in data.iter() {
        assert!(count > 0);
        assert!(count < 1000);
    }
}

#[test]
fn digit_count_examples() {
    assert_eq!(0u64.digit(), 1);
    assert_eq!(9u64.digit(), 1);
    assert_eq!(10u64.digit(), 2);
    assert_eq!(12345u64.digit(), 5);
    assert_eq!(u64::MAX.digit(), 20);
    assert_eq!(100usize.digit(), 3);
}

#[test]
fn add_digit_prepends() {
    assert_eq!(5u64.add_digit(3), Some(35));
    assert_eq!(5u64.add_digit(0), Some(5));
    assert_eq!(40u64.add_digit(7), Some(740));
    assert_eq!(u64::MAX.add_digit(9), None);
}

#[test]
fn add_digit_overflows_small_types() {
    // a three-digit value no longer fits an eight-bit type
    assert_eq!(25u8.add_digit(1), Some(125));
    assert_eq!(250u8.add_digit(1), None);
    assert_eq!(9999u16.add_digit(9), None);
    assert_eq!(999u16.add_digit(9), Some(9999));
    assert_eq!(7u32.add_digit(4), Some(47));
}

#[test]
fn small_type_samples_are_digits() {
    for _ in 0..20 {
        let d: u8 = singl_random();
        assert!(d <= 9);
        let v: u8 = range_random(Bound::Included(1), Bound::Included(100));
        assert!((1..=100).contains(&v));
    }
}

#[test]
fn sub_digit_truncates() {
    let mut n = 123u64;
    n.sub_digit();
    assert_eq!(n, 12);
    let mut n = 7u64;
    n.sub_digit();
    assert_eq!(n, 0);
}
