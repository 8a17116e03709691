//! Time-derived sampling: a single-digit sampler and a composition loop
//! that grows, shrinks and retries a digit string until it falls inside a
//! caller-supplied range.

use vstd::prelude::*;

use crate::clock::now_time_text;
use crate::digits::{digit_count, digit_count_u128, last_char_digit, prepend_u128, prepended};

verus! {

/// A numeric type that digit-wise sampling can produce: a non-negative
/// machine integer together with the decimal-digit operations the
/// composition loop needs.
pub trait Number: Sized + Copy {
    /// The mathematical value of `self`.
    spec fn v(self) -> int;

    /// The largest value the type can hold.
    spec fn max_spec() -> int;

    /// Every value is a non-negative integer within the type's bound.
    proof fn lemma_v_bounds(self)
        ensures
            0 <= self.v() <= Self::max_spec(),
    ;

    /// Every supported type holds at least one decimal digit.
    proof fn lemma_max_spec()
        ensures
            Self::max_spec() >= 9,
    ;

    /// Builds the value `n`.
    fn new(n: u128) -> (r: Self)
        requires
            n as int <= Self::max_spec(),
        ensures
            r.v() == n as int,
    ;

    fn le(self, other: Self) -> (r: bool)
        ensures
            r == (self.v() <= other.v()),
    ;

    fn lt(self, other: Self) -> (r: bool)
        ensures
            r == (self.v() < other.v()),
    ;

    /// One less than `self`.
    fn dec(self) -> (r: Self)
        requires
            self.v() >= 1,
        ensures
            r.v() == self.v() - 1,
    ;

    /// The number of decimal digits of `self`.
    fn digit(&self) -> (r: usize)
        ensures
            r == digit_count(self.v()),
    ;

    /// Writes the digit `rhs` in front of the decimal text of `self`;
    /// `None` when the type cannot hold the resulting value.
    fn add_digit(&self, rhs: Self) -> (r: Option<Self>)
        requires
            rhs.v() <= 9,
        ensures
            (match r {
                Some(x) => x.v() == prepended(rhs.v(), self.v()) && prepended(rhs.v(), self.v())
                    <= Self::max_spec(),
                None => prepended(rhs.v(), self.v()) > Self::max_spec(),
            }),
    ;

    /// Drops the last decimal digit of `self`.
    fn sub_digit(&mut self)
        ensures
            final(self).v() == old(self).v() / 10,
    ;
}

impl Number for u8 {
    open spec fn v(self) -> int {
        self as int
    }

    open spec fn max_spec() -> int {
        u8::MAX as int
    }

    proof fn lemma_v_bounds(self) {
    }

    proof fn lemma_max_spec() {
    }

    fn new(n: u128) -> (r: Self) {
        n as u8
    }

    fn le(self, other: Self) -> (r: bool) {
        self <= other
    }

    fn lt(self, other: Self) -> (r: bool) {
        self < other
    }

    fn dec(self) -> (r: Self) {
        self - 1
    }

    fn digit(&self) -> (r: usize) {
        digit_count_u128(*self as u128)
    }

    fn add_digit(&self, rhs: Self) -> (r: Option<Self>) {
        let val = prepend_u128(*self as u128, rhs as u128);
        if val <= u8::MAX as u128 {
            Some(val as u8)
        } else {
            None
        }
    }

    fn sub_digit(&mut self) {
        *self = *self / 10;
    }
}

impl Number for u16 {
    open spec fn v(self) -> int {
        self as int
    }

    open spec fn max_spec() -> int {
        u16::MAX as int
    }

    proof fn lemma_v_bounds(self) {
    }

    proof fn lemma_max_spec() {
    }

    fn new(n: u128) -> (r: Self) {
        n as u16
    }

    fn le(self, other: Self) -> (r: bool) {
        self <= other
    }

    fn lt(self, other: Self) -> (r: bool) {
        self < other
    }

    fn dec(self) -> (r: Self) {
        self - 1
    }

    fn digit(&self) -> (r: usize) {
        digit_count_u128(*self as u128)
    }

    fn add_digit(&self, rhs: Self) -> (r: Option<Self>) {
        let val = prepend_u128(*self as u128, rhs as u128);
        if val <= u16::MAX as u128 {
            Some(val as u16)
        } else {
            None
        }
    }

    fn sub_digit(&mut self) {
        *self = *self / 10;
    }
}

impl Number for u32 {
    open spec fn v(self) -> int {
        self as int
    }

    open spec fn max_spec() -> int {
        u32::MAX as int
    }

    proof fn lemma_v_bounds(self) {
    }

    proof fn lemma_max_spec() {
    }

    fn new(n: u128) -> (r: Self) {
        n as u32
    }

    fn le(self, other: Self) -> (r: bool) {
        self <= other
    }

    fn lt(self, other: Self) -> (r: bool) {
        self < other
    }

    fn dec(self) -> (r: Self) {
        self - 1
    }

    fn digit(&self) -> (r: usize) {
        digit_count_u128(*self as u128)
    }

    fn add_digit(&self, rhs: Self) -> (r: Option<Self>) {
        let val = prepend_u128(*self as u128, rhs as u128);
        if val <= u32::MAX as u128 {
            Some(val as u32)
        } else {
            None
        }
    }

    fn sub_digit(&mut self) {
        *self = *self / 10;
    }
}

impl Number for u64 {
    open spec fn v(self) -> int {
        self as int
    }

    open spec fn max_spec() -> int {
        u64::MAX as int
    }

    proof fn lemma_v_bounds(self) {
    }

    proof fn lemma_max_spec() {
    }

    fn new(n: u128) -> (r: Self) {
        n as u64
    }

    fn le(self, other: Self) -> (r: bool) {
        self <= other
    }

    fn lt(self, other: Self) -> (r: bool) {
        self < other
    }

    fn dec(self) -> (r: Self) {
        self - 1
    }

    fn digit(&self) -> (r: usize) {
        digit_count_u128(*self as u128)
    }

    fn add_digit(&self, rhs: Self) -> (r: Option<Self>) {
        let val = prepend_u128(*self as u128, rhs as u128);
        if val <= u64::MAX as u128 {
            Some(val as u64)
        } else {
            None
        }
    }

    fn sub_digit(&mut self) {
        *self = *self / 10;
    }
}

impl Number for usize {
    open spec fn v(self) -> int {
        self as int
    }

    open spec fn max_spec() -> int {
        usize::MAX as int
    }

    proof fn lemma_v_bounds(self) {
    }

    proof fn lemma_max_spec() {
    }

    fn new(n: u128) -> (r: Self) {
        n as usize
    }

    fn le(self, other: Self) -> (r: bool) {
        self <= other
    }

    fn lt(self, other: Self) -> (r: bool) {
        self < other
    }

    fn dec(self) -> (r: Self) {
        self - 1
    }

    fn digit(&self) -> (r: usize) {
        digit_count_u128(*self as u128)
    }

    fn add_digit(&self, rhs: Self) -> (r: Option<Self>) {
        let val = prepend_u128(*self as u128, rhs as u128);
        if val <= usize::MAX as u128 {
            Some(val as usize)
        } else {
            None
        }
    }

    fn sub_digit(&mut self) {
        *self = *self / 10;
    }
}

/// One edge of a caller-supplied interval, in any of the shapes the four
/// standard interval forms provide.
#[derive(Debug)]
pub enum Bound<N> {
    Included(N),
    Excluded(N),
    Unbounded,
}

/// The normalized inclusive start that a start bound denotes: an excluded
/// start is treated as included, an absent one as no constraint.
pub open spec fn norm_start<N: Number>(b: Bound<N>) -> Option<int> {
    match b {
        Bound::Included(n) => Some(n.v()),
        Bound::Excluded(n) => Some(n.v()),
        Bound::Unbounded => None,
    }
}

/// The normalized inclusive end that an end bound denotes: an excluded end
/// `b` becomes the inclusive end `b - 1`.
pub open spec fn norm_end<N: Number>(b: Bound<N>) -> Option<int> {
    match b {
        Bound::Included(n) => Some(n.v()),
        Bound::Excluded(n) => Some(n.v() - 1),
        Bound::Unbounded => None,
    }
}

/// Membership in the interval given by optional inclusive bounds; an
/// absent bound constrains nothing, so a fully unbounded interval holds
/// every value.
pub open spec fn bounds_contain(start: Option<int>, end: Option<int>, x: int) -> bool {
    &&& (match start {
        Some(s) => s <= x,
        None => true,
    })
    &&& (match end {
        Some(e) => x <= e,
        None => true,
    })
}

/// An interval normalized to an optional inclusive start and an optional
/// inclusive end.
#[derive(Debug)]
pub struct Range<N> {
    start: Option<N>,
    end: Option<N>,
}

impl<N: Number> Range<N> {
    /// The inclusive start, as a mathematical value.
    pub closed spec fn start_v(self) -> Option<int> {
        match self.start {
            Some(n) => Some(n.v()),
            None => None,
        }
    }

    /// The inclusive end, as a mathematical value.
    pub closed spec fn end_v(self) -> Option<int> {
        match self.end {
            Some(n) => Some(n.v()),
            None => None,
        }
    }

    /// Whether `x` lies in the range.
    pub open spec fn contains(self, x: int) -> bool {
        bounds_contain(self.start_v(), self.end_v(), x)
    }

    /// Normalizes a pair of interval edges: an excluded end `b` becomes
    /// the inclusive end `b - 1`, so the value zero cannot stand as an
    /// excluded end of these non-negative types.
    pub fn new(start: Bound<N>, end: Bound<N>) -> (r: Range<N>)
        requires
            (end matches Bound::Excluded(n) ==> n.v() >= 1),
        ensures
            r.start_v() == norm_start(start),
            r.end_v() == norm_end(end),
    {
        let s = match start {
            Bound::Included(n) => Some(n),
            Bound::Excluded(n) => Some(n),
            Bound::Unbounded => None,
        };
        let e = match end {
            Bound::Excluded(n) => Some(n.dec()),
            Bound::Included(n) => Some(n),
            Bound::Unbounded => None,
        };
        Range { start: s, end: e }
    }

    /// Tests membership: both bounds inclusive where present; a range with
    /// neither bound holds every value.
    pub fn is_range(&self, num: N) -> (r: bool)
        ensures
            r == self.contains(num.v()),
    {
        match self.start {
            Some(start) => match self.end {
                Some(end) => start.le(num) && num.le(end),
                None => start.le(num),
            },
            None => match self.end {
                Some(end) => num.le(end),
                None => true,
            },
        }
    }
}

/// An excluded end `b` normalizes to the inclusive end `b - 1`, an
/// included end `b` to `b` itself.
pub proof fn lemma_norm_end_shapes<N: Number>(b: N)
    ensures
        norm_end(Bound::Excluded(b)) == Some(b.v() - 1),
        norm_end(Bound::Included(b)) == Some(b.v()),
{
}

/// The inclusive bound that an optional normalized value denotes.
pub open spec fn bound_of<N: Number>(o: Option<N>) -> Bound<N> {
    match o {
        Some(n) => Bound::Included(n),
        None => Bound::Unbounded,
    }
}

/// The mathematical value of an optional bound value.
pub open spec fn opt_v<N: Number>(o: Option<N>) -> Option<int> {
    match o {
        Some(n) => Some(n.v()),
        None => None,
    }
}

/// Normalization is idempotent: feeding the inclusive bounds of a
/// normalized range back in as inclusive bounds yields the same start and
/// the same end.
pub proof fn lemma_normalize_idempotent<N: Number>(start: Option<N>, end: Option<N>)
    ensures
        norm_start(bound_of(start)) == opt_v(start),
        norm_end(bound_of(end)) == opt_v(end),
{
}

/// How many fresh clock readings a digit sample tries before it falls
/// back to the digit zero.
pub const CLOCK_ATTEMPTS: u64 = 64;

/// How many iterations the range composer tries before it falls back to
/// the smallest value the range admits.
pub const COMPOSE_ATTEMPTS: u64 = 1000000;

/// Samples one decimal digit from the time source: renders the current
/// time of day and parses its last character, retrying with a fresh
/// reading whenever that text does not end in a digit, and falling back
/// to the digit zero once the retry budget is spent.
pub fn singl_random<N: Number>() -> (r: N)
    ensures
        0 <= r.v() <= 9,
{
    let mut attempts: u64 = 0;
    let mut digit: u8 = 0;
    while attempts < CLOCK_ATTEMPTS
        invariant
            digit <= 9,
        ensures
            digit <= 9,
        decreases CLOCK_ATTEMPTS - attempts,
    {
        attempts = attempts + 1;
        let text = now_time_text();
        if let Some(d) = last_char_digit(text.as_str()) {
            digit = d;
            break;
        }
    }
    proof {
        N::lemma_max_spec();
    }
    N::new(digit as u128)
}

/// What one iteration of the composition loop decides for the current
/// candidate.
#[derive(PartialEq, Eq, Clone, Copy, Debug)]
pub enum Decision<N> {
    /// This value is a member of the range; composition ends with it.
    Accept(N),
    /// The candidate was rejected; composition starts over from a fresh
    /// single digit.
    Resample,
    /// The candidate is narrower than the target width; it gains a fresh
    /// leading digit.
    Grow,
}

/// One iteration of the composition loop, decided entirely by its
/// arguments: a `stop` digit below seven accepts the candidate if it is a
/// member, a candidate of the target width is accepted on membership, one
/// too wide loses its last digit and is accepted if the truncation is a
/// member, and a narrower one grows; every rejected candidate is
/// resampled.
pub fn compose_decide<N: Number>(range: &Range<N>, num: N, max_digit: usize, stop: N) -> (r:
    Decision<N>)
    ensures
        (r matches Decision::Accept(x) ==> range.contains(x.v())),
        ({
            let member = range.contains(num.v());
            let truncated = num.v() / 10;
            if stop.v() < 7 {
                if member {
                    r matches Decision::Accept(x) && x == num
                } else {
                    r is Resample
                }
            } else if digit_count(num.v()) == max_digit {
                if member {
                    r matches Decision::Accept(x) && x == num
                } else {
                    r is Resample
                }
            } else if (max_digit as int) < digit_count(num.v()) {
                if range.contains(truncated) {
                    r matches Decision::Accept(x) && x.v() == truncated
                } else {
                    r is Resample
                }
            } else {
                r is Grow
            }
        }),
{
    proof {
        N::lemma_max_spec();
    }
    if stop.lt(N::new(7)) {
        if range.is_range(num) {
            return Decision::Accept(num);
        } else {
            return Decision::Resample;
        }
    }
    if num.digit() == max_digit {
        if range.is_range(num) {
            Decision::Accept(num)
        } else {
            Decision::Resample
        }
    } else if max_digit < num.digit() {
        let mut truncated = num;
        truncated.sub_digit();
        if range.is_range(truncated) {
            Decision::Accept(truncated)
        } else {
            Decision::Resample
        }
    } else {
        Decision::Grow
    }
}

/// Samples a value that lies in the normalized range given by `start` and
/// `end`: a candidate digit string is grown toward the width of the end
/// bound, truncated when too wide, and resampled until membership holds.
/// Once the iteration budget is spent, the smallest value the range
/// admits is returned, so every call yields a member of the range.
pub fn range_random<N: Number>(start: Bound<N>, end: Bound<N>) -> (r: N)
    requires
        (end matches Bound::Excluded(n) ==> n.v() >= 1),
        (match (norm_start(start), norm_end(end)) {
            (Some(s), Some(e)) => s <= e,
            _ => true,
        }),
    ensures
        bounds_contain(norm_start(start), norm_end(end), r.v()),
{
    let range = Range::new(start, end);
    let mut num: N = singl_random::<N>();
    let max_digit: usize = match range.end {
        Some(max) => max.digit(),
        None => singl_random::<usize>(),
    };
    let mut found: bool = false;
    let mut attempts: u64 = 0;
    while attempts < COMPOSE_ATTEMPTS
        invariant_except_break
            !found,
        invariant
            range.start_v() == norm_start(start),
            range.end_v() == norm_end(end),
        ensures
            found ==> range.contains(num.v()),
        decreases COMPOSE_ATTEMPTS - attempts,
    {
        attempts = attempts + 1;
        let stop = singl_random::<N>();
        match compose_decide(&range, num, max_digit, stop) {
            Decision::Accept(accepted) => {
                num = accepted;
                found = true;
                break;
            },
            Decision::Resample => {
                num = singl_random::<N>();
            },
            Decision::Grow => {
                num = match num.add_digit(singl_random::<N>()) {
                    Some(grown) => grown,
                    None => singl_random::<N>(),
                };
            },
        }
    }
    if !found {
        proof {
            N::lemma_max_spec();
            match range.end {
                Some(e) => e.lemma_v_bounds(),
                None => {},
            }
        }
        num = match range.start {
            Some(s) => s,
            None => N::new(0),
        };
    }
    num
}

} // verus!
