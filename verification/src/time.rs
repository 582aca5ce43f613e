use vstd::arithmetic::div_mod::{
    lemma_div_multiples_vanish_fancy, lemma_fundamental_div_mod,
    lemma_mod_division_less_than_divisor,
};
use vstd::prelude::*;

verus! {

/// Nanoseconds per second.
pub const NANOS_PER_SEC: u32 = 1_000_000_000;

/// The widest second count, either side of the epoch, on which the
/// calendar arithmetic below is exercised: about a million years.
pub const MAX_ABS_SEC: i64 = 31_556_952_000_000;

/// Days from the civil date 0000-01-01 to the epoch 1970-01-01.
pub const DAYS_TO_EPOCH: i64 = 719_528;

/// A span of time: whole seconds and a sub-second nanosecond part.
#[derive(Clone, Copy, Debug, PartialEq, Eq, Structural)]
pub struct Span {
    pub secs: u64,
    pub nanos: u32,
}

impl Span {
    /// A valid span keeps its nanosecond part below one second.
    pub open spec fn wf(self) -> bool {
        self.nanos < NANOS_PER_SEC
    }

    /// The whole span in nanoseconds.
    pub open spec fn spec_nanos(self) -> int {
        self.secs * (NANOS_PER_SEC as int) + self.nanos
    }

    /// A span of whole seconds.
    pub fn from_secs(secs: u64) -> (r: Span)
        ensures
            r.secs == secs,
            r.nanos == 0,
            r.wf(),
    {
        Span { secs, nanos: 0 }
    }

    /// A span of milliseconds.
    pub fn from_millis(millis: u64) -> (r: Span)
        ensures
            r.wf(),
            r.spec_nanos() == millis * 1_000_000,
    {
        let secs = millis / 1000;
        let nanos = (millis % 1000) as u32 * 1_000_000;
        proof {
            lemma_fundamental_div_mod(millis as int, 1000);
            lemma_mod_division_less_than_divisor(millis as int, 1000);
        }
        Span { secs, nanos }
    }

    /// Whether the span is zero.
    pub fn is_zero(&self) -> (r: bool)
        ensures
            r == (self.secs == 0 && self.nanos == 0),
    {
        self.secs == 0 && self.nanos == 0
    }
}

/// Dividing out a multiple of the divisor shifts the quotient and
/// leaves the remainder alone.
pub proof fn lemma_div_shift(n: int, k: int, d: int)
    requires
        0 < d,
    ensures
        (d * k + n) / d == k + n / d,
        (d * k + n) % d == n % d,
{
    lemma_fundamental_div_mod(n, d);
    lemma_mod_division_less_than_divisor(n, d);
    assert(d * k + n == d * (k + n / d) + n % d) by (nonlinear_arith)
        requires
            n == d * (n / d) + n % d,
    ;
    lemma_div_multiples_vanish_fancy(k + n / d, n % d, d);
    lemma_fundamental_div_mod(d * k + n, d);
    lemma_mod_division_less_than_divisor(d * k + n, d);
    assert((d * k + n) % d == n % d) by (nonlinear_arith)
        requires
            d * k + n == d * ((d * k + n) / d) + (d * k + n) % d,
            d * k + n == d * (k + n / d) + n % d,
            (d * k + n) / d == k + n / d,
    ;
}

/// Floor division and the matching non-negative remainder, for a
/// possibly negative dividend.
fn div_mod_floor(a: i64, d: i64) -> (r: (i64, i64))
    requires
        1 <= d <= 0x1_0000_0000,
        -0x1000_0000_0000_0000 <= a <= 0x1000_0000_0000_0000,
    ensures
        r.0 == a as int / d as int,
        r.1 == a as int % d as int,
        a == d * r.0 + r.1,
        0 <= r.1 < d,
{
    let du: u64 = d as u64;
    let ku: u64 = 0x1000_0000_0000_0000u64 / du + 1;
    let k: i64 = ku as i64;
    proof {
        lemma_fundamental_div_mod(0x1000_0000_0000_0000int, d as int);
        lemma_mod_division_less_than_divisor(0x1000_0000_0000_0000int, d as int);
        assert(0x1000_0000_0000_0000int < d * (k as int) <= 0x1000_0000_0000_0000int + d)
            by (nonlinear_arith)
            requires
                k == 0x1000_0000_0000_0000int / (d as int) + 1,
                1 <= d,
                0x1000_0000_0000_0000int == d * (0x1000_0000_0000_0000int / (d as int))
                    + 0x1000_0000_0000_0000int % (d as int),
                0 <= 0x1000_0000_0000_0000int % (d as int) < d,
        ;
    }
    let shift: i64 = d * k;
    let s: i64 = a + shift;
    let su: u64 = s as u64;
    let q0: u64 = su / du;
    let r0: u64 = su % du;
    proof {
        assert(su == s as int);
        lemma_div_shift(a as int, k as int, d as int);
        lemma_fundamental_div_mod(a as int, d as int);
        lemma_mod_division_less_than_divisor(a as int, d as int);
        assert(q0 == k + a as int / d as int);
        assert(q0 <= su) by {
            vstd::arithmetic::div_mod::lemma_div_nonincreasing(su as int, du as int);
        }
    }
    ((q0 as i64) - k, r0 as i64)
}

/// A point in time: seconds since the epoch 1970-01-01T00:00:00 UTC
/// (rounded toward minus infinity), the nanosecond within that
/// second, and the local offset east of UTC in seconds.
#[derive(Clone, Copy, Debug, PartialEq, Eq, Structural)]
pub struct Time {
    pub sec: i64,
    pub nsec: u32,
    pub offset: i32,
}

impl Time {
    /// A valid time keeps its nanosecond part below one second, its
    /// offset within a day, and its second count within the range the
    /// calendar arithmetic is exercised on.
    pub open spec fn wf(self) -> bool {
        &&& self.nsec < NANOS_PER_SEC
        &&& -86_400 < self.offset < 86_400
        &&& -MAX_ABS_SEC <= self.sec <= MAX_ABS_SEC
    }

    /// The instant as a whole count of nanoseconds since the epoch.
    pub open spec fn spec_instant(self) -> int {
        self.sec * (NANOS_PER_SEC as int) + self.nsec
    }

    /// The second count of local civil time.
    pub open spec fn spec_local_sec(self) -> int {
        self.sec + self.offset
    }

    /// The local civil day number relative to the epoch.
    pub open spec fn spec_local_day(self) -> int {
        self.spec_local_sec() / 86_400
    }

    /// The second within the local civil day.
    pub open spec fn spec_local_tod(self) -> int {
        self.spec_local_sec() % 86_400
    }

    /// seconds since the epoch (Unix time).
    pub fn unix_timestamp(&self) -> (r: i64)
        ensures
            r == self.sec,
    {
        self.sec
    }

    /// nanoseconds since the epoch.
    pub fn unix_timestamp_nano(&self) -> (r: i64)
        requires
            -0x7000_0000_0000_0000 <= self.spec_instant() <= 0x7000_0000_0000_0000,
    ensures
            r == self.spec_instant(),
    {
        self.sec * (NANOS_PER_SEC as i64) + (self.nsec as i64)
    }

    /// seconds since the epoch (Unix time).
    pub fn unix(&self) -> (r: i64)
        ensures
            r == self.sec,
    {
        self.sec
    }

    /// nanoseconds since the epoch.
    pub fn unix_nano(&self) -> (r: i64)
        requires
            -0x7000_0000_0000_0000 <= self.spec_instant() <= 0x7000_0000_0000_0000,
        ensures
            r == self.spec_instant(),
    {
        self.sec * (NANOS_PER_SEC as i64) + (self.nsec as i64)
    }

    /// Moves the time forward by `d`.
    pub fn add(&mut self, d: Span)
        requires
            old(self).wf(),
            d.wf(),
            old(self).sec + d.secs + 1 <= MAX_ABS_SEC,
        ensures
            final(self).wf(),
            final(self).spec_instant() == old(self).spec_instant() + d.spec_nanos(),
            final(self).offset == old(self).offset,
    {
        let mut ns: u32 = self.nsec + d.nanos;
        let mut carry: i64 = 0;
        if ns >= NANOS_PER_SEC {
            ns = ns - NANOS_PER_SEC;
            carry = 1;
        }
        self.sec = self.sec + (d.secs as i64) + carry;
        self.nsec = ns;
    }

    /// Moves the time forward by `d` whole seconds (backward when `d`
    /// is negative).
    pub fn add_sec(&mut self, d: i64)
        requires
            old(self).wf(),
            -MAX_ABS_SEC <= old(self).sec + d <= MAX_ABS_SEC,
        ensures
            final(self).wf(),
            final(self).sec == old(self).sec + d,
            final(self).nsec == old(self).nsec,
            final(self).offset == old(self).offset,
    {
        self.sec = self.sec + d;
    }

    /// Changes the local offset associated with the time; the instant
    /// itself does not move.
    pub fn set_loc(&mut self, offset_sec: i32)
        requires
            -86_400 < offset_sec < 86_400,
        ensures
            final(self).sec == old(self).sec,
            final(self).nsec == old(self).nsec,
            final(self).offset == offset_sec,
    {
        self.offset = offset_sec;
    }

    /// Reports whether `self` lies strictly before the instant `u`.
    pub fn after(&self, u: &Time) -> (r: bool)
        requires
            self.wf(),
            u.wf(),
        ensures
            r == (self.spec_instant() < u.spec_instant()),
    {
        proof {
            assert(self.spec_instant() < u.spec_instant() <==> (self.sec < u.sec || (self.sec
                == u.sec && self.nsec < u.nsec))) by (nonlinear_arith)
                requires
                    self.nsec < NANOS_PER_SEC,
                    u.nsec < NANOS_PER_SEC,
            ;
        }
        self.sec < u.sec || (self.sec == u.sec && self.nsec < u.nsec)
    }

    /// Reports whether `self` lies strictly after the instant `u`.
    pub fn before(&self, u: &Time) -> (r: bool)
        requires
            self.wf(),
            u.wf(),
        ensures
            r == (self.spec_instant() > u.spec_instant()),
    {
        u.after(self)
    }

    /// Reports whether `self` and `u` are the same instant; the two
    /// may carry different offsets.
    pub fn equal(&self, u: &Time) -> (r: bool)
        requires
            self.wf(),
            u.wf(),
        ensures
            r == (self.spec_instant() == u.spec_instant()),
    {
        proof {
            assert(self.spec_instant() == u.spec_instant() <==> (self.sec == u.sec && self.nsec
                == u.nsec)) by (nonlinear_arith)
                requires
                    self.nsec < NANOS_PER_SEC,
                    u.nsec < NANOS_PER_SEC,
            ;
        }
        self.sec == u.sec && self.nsec == u.nsec
    }

    /// Reports whether the time is the epoch instant itself.
    pub fn is_zero(&self) -> (r: bool)
        ensures
            r == (self.sec == 0),
    {
        self.sec == 0
    }

    /// The hour within the local day, 0 to 23.
    pub fn hour(&self) -> (r: i32)
        requires
            self.wf(),
        ensures
            r == self.spec_local_tod() / 3600,
            0 <= r < 24,
    {
        let tod = self.local_tod();
        proof {
            lemma_div_bounds(tod as int, 3600, 24);
        }
        (tod / 3600) as i32
    }

    /// The minute within the local hour, 0 to 59.
    pub fn minute(&self) -> (r: i32)
        requires
            self.wf(),
        ensures
            r == (self.spec_local_tod() / 60) % 60,
            0 <= r < 60,
    {
        let tod = self.local_tod();
        proof {
            lemma_div_bounds(tod as int, 60, 1440);
            lemma_fundamental_div_mod(tod as int / 60, 60);
            lemma_mod_division_less_than_divisor(tod as int / 60, 60);
        }
        ((tod / 60) % 60) as i32
    }

    /// The second within the local minute, 0 to 59.
    pub fn second(&self) -> (r: i32)
        requires
            self.wf(),
        ensures
            r == self.spec_local_tod() % 60,
            0 <= r < 60,
    {
        let tod = self.local_tod();
        proof {
            lemma_mod_of_mod(self.spec_local_sec(), 60, 1440);
        }
        (tod % 60) as i32
    }

    /// The millisecond within the second, 0 to 999.
    pub fn millisecond(&self) -> (r: i32)
        requires
            self.wf(),
        ensures
            r == self.nsec / 1_000_000,
            0 <= r < 1000,
    {
        (self.nsec / 1_000_000) as i32
    }

    /// The microsecond within the second.
    pub fn microsecond(&self) -> (r: i32)
        requires
            self.wf(),
        ensures
            r == self.nsec / 1_000,
    {
        (self.nsec / 1_000) as i32
    }

    /// The nanosecond within the second.
    pub fn nanosecond(&self) -> (r: i32)
        requires
            self.wf(),
        ensures
            r == self.nsec,
    {
        self.nsec as i32
    }

    /// The second within the local day, computed once and shared by
    /// the clock accessors.
    fn local_tod(&self) -> (r: u32)
        requires
            self.wf(),
        ensures
            r == self.spec_local_tod(),
    {
        let (_, tod) = div_mod_floor(self.sec + (self.offset as i64), 86_400);
        tod as u32
    }
}

/// A non-negative dividend below `d * bound` has a quotient below
/// `bound`.
proof fn lemma_div_bounds(n: int, d: int, bound: int)
    requires
        0 < d,
        0 <= n < d * bound,
    ensures
        0 <= n / d < bound,
{
    lemma_fundamental_div_mod(n, d);
    lemma_mod_division_less_than_divisor(n, d);
    assert(0 <= n / d < bound) by (nonlinear_arith)
        requires
            n == d * (n / d) + n % d,
            0 <= n % d < d,
            0 <= n < d * bound,
            0 < d,
    ;
}

/// Taking a remainder by `d` commutes with first taking a remainder
/// by the multiple `d * k`.
proof fn lemma_mod_of_mod(n: int, d: int, k: int)
    requires
        0 < d,
        0 < k,
    ensures
        (n % (d * k)) % d == n % d,
{
    assert(0 < d * k) by (nonlinear_arith)
        requires
            0 < d,
            0 < k,
    ;
    lemma_fundamental_div_mod(n, d * k);
    lemma_mod_division_less_than_divisor(n, d * k);
    assert(n == d * (k * (n / (d * k))) + n % (d * k)) by (nonlinear_arith)
        requires
            n == (d * k) * (n / (d * k)) + n % (d * k),
    ;
    lemma_div_shift(n % (d * k), k * (n / (d * k)), d);
    assert(d * (k * (n / (d * k))) + n % (d * k) == n);
}


/// A proleptic Gregorian leap year.
pub open spec fn is_leap_year(y: int) -> bool {
    y % 4 == 0 && (y % 100 != 0 || y % 400 == 0)
}

/// The number of days in year `y`.
pub open spec fn days_in_year(y: int) -> int {
    if is_leap_year(y) {
        366
    } else {
        365
    }
}

/// The number of leap years in the range `[0, y)` (negated count of
/// the range `[y, 0)` when `y` is negative).
pub open spec fn leap_count(y: int) -> int {
    (y + 3) / 4 - (y + 99) / 100 + (y + 399) / 400
}

/// Days from the civil date 0000-01-01 to the date y-01-01 (negative
/// for years before year zero).
pub open spec fn days_before_year(y: int) -> int {
    365 * y + leap_count(y)
}

/// Days from y-01-01 to the first day of month `m` of year `y`.
pub open spec fn days_before_month(y: int, m: int) -> int {
    let base: int = if m <= 1 {
        0
    } else if m == 2 {
        31
    } else if m == 3 {
        59
    } else if m == 4 {
        90
    } else if m == 5 {
        120
    } else if m == 6 {
        151
    } else if m == 7 {
        181
    } else if m == 8 {
        212
    } else if m == 9 {
        243
    } else if m == 10 {
        273
    } else if m == 11 {
        304
    } else {
        334
    };
    base + if m > 2 && is_leap_year(y) {
        1int
    } else {
        0int
    }
}

/// The number of days in month `m` of year `y`.
pub open spec fn days_in_month(y: int, m: int) -> int {
    if m == 2 {
        if is_leap_year(y) {
            29
        } else {
            28
        }
    } else if m == 4 || m == 6 || m == 9 || m == 11 {
        30
    } else {
        31
    }
}

/// A well-formed civil date.
pub open spec fn valid_civil(y: int, m: int, d: int) -> bool {
    1 <= m <= 12 && 1 <= d <= days_in_month(y, m)
}

/// The day number, relative to the epoch 1970-01-01, of the civil
/// date (y, m, d).
pub open spec fn days_from_civil(y: int, m: int, d: int) -> int {
    days_before_year(y) + days_before_month(y, m) + d - 1 - DAYS_TO_EPOCH
}

/// A multiple of 400 is also a multiple of 100 and of 4, and a
/// multiple of 100 is a multiple of 4.
proof fn lemma_mod_cascade(y: int)
    ensures
        y % 400 == 0 ==> y % 100 == 0 && y % 4 == 0,
        y % 100 == 0 ==> y % 4 == 0,
{
    lemma_mod_of_mod(y, 100, 4);
    lemma_mod_of_mod(y, 4, 100);
    lemma_mod_of_mod(y, 4, 25);
    if y % 400 == 0 {
        assert((y % 400) % 100 == 0);
        assert((y % 400) % 4 == 0);
    }
    if y % 100 == 0 {
        assert((y % 100) % 4 == 0);
    }
}

/// One year of days separates the year starts of `y` and `y + 1`.
proof fn lemma_year_step(y: int)
    ensures
        days_before_year(y + 1) == days_before_year(y) + days_in_year(y),
{
    let q4 = y / 4;
    let r4 = y % 4;
    lemma_fundamental_div_mod(y, 4);
    lemma_mod_division_less_than_divisor(y, 4);
    lemma_div_shift(r4 + 3, q4, 4);
    lemma_div_shift(r4 + 4, q4, 4);
    assert((r4 + 3) / 4 == if r4 == 0 { 0int } else { 1int });
    assert((r4 + 4) / 4 == 1);
    let q100 = y / 100;
    let r100 = y % 100;
    lemma_fundamental_div_mod(y, 100);
    lemma_mod_division_less_than_divisor(y, 100);
    lemma_div_shift(r100 + 99, q100, 100);
    lemma_div_shift(r100 + 100, q100, 100);
    assert((r100 + 99) / 100 == if r100 == 0 { 0int } else { 1int });
    assert((r100 + 100) / 100 == 1);
    let q400 = y / 400;
    let r400 = y % 400;
    lemma_fundamental_div_mod(y, 400);
    lemma_mod_division_less_than_divisor(y, 400);
    lemma_div_shift(r400 + 399, q400, 400);
    lemma_div_shift(r400 + 400, q400, 400);
    assert((r400 + 399) / 400 == if r400 == 0 { 0int } else { 1int });
    assert((r400 + 400) / 400 == 1);
    lemma_mod_cascade(y);
}

/// Year starts repeat with a period of 400 years and 146097 days.
proof fn lemma_era_shift(e: int, t: int)
    ensures
        days_before_year(400 * e + t) == 146097 * e + days_before_year(t),
{
    lemma_div_shift(t + 3, 100 * e, 4);
    assert(4 * (100 * e) + (t + 3) == 400 * e + t + 3) by (nonlinear_arith);
    lemma_div_shift(t + 99, 4 * e, 100);
    assert(100 * (4 * e) + (t + 99) == 400 * e + t + 99) by (nonlinear_arith);
    lemma_div_shift(t + 399, e, 400);
    assert(400 * e + (t + 399) == 400 * e + t + 399);
}

/// Whether `y` is a leap year.
fn is_leap_exec(y: i64) -> (r: bool)
    requires
        -0x1000_0000_0000_0000 <= y <= 0x1000_0000_0000_0000,
    ensures
        r == is_leap_year(y as int),
{
    let (_, r4) = div_mod_floor(y, 4);
    let (_, r100) = div_mod_floor(y, 100);
    let (_, r400) = div_mod_floor(y, 400);
    r4 == 0 && (r100 != 0 || r400 == 0)
}

/// The number of days in year `y`.
fn days_in_year_exec(y: i64) -> (r: i64)
    requires
        -0x1000_0000_0000_0000 <= y <= 0x1000_0000_0000_0000,
    ensures
        r == days_in_year(y as int),
{
    if is_leap_exec(y) {
        366
    } else {
        365
    }
}

/// The number of days in month `m` of year `y`.
fn days_in_month_exec(y: i64, m: u8) -> (r: i64)
    requires
        -0x1000_0000_0000_0000 <= y <= 0x1000_0000_0000_0000,
    ensures
        r == days_in_month(y as int, m as int),
{
    if m == 2 {
        if is_leap_exec(y) {
            29
        } else {
            28
        }
    } else if m == 4 || m == 6 || m == 9 || m == 11 {
        30
    } else {
        31
    }
}

/// Recovers the civil date of an epoch-relative day number: the
/// returned triple is the valid date whose day number is `z`.
pub fn civil_from_days(z: i64) -> (r: (i64, u8, u8))
    requires
        -400_000_000 <= z <= 400_000_000,
    ensures
        valid_civil(r.0 as int, r.1 as int, r.2 as int),
        days_from_civil(r.0 as int, r.1 as int, r.2 as int) == z,
        -1_200_000 <= r.0 <= 1_200_000,
{
    let a: i64 = z + DAYS_TO_EPOCH;
    let (era, doe) = div_mod_floor(a, 146_097);
    let mut yoe: i64 = 0;
    let mut rem: i64 = doe;
    proof {
        lemma_era_shift(era as int, 0);
        assert(leap_count(0) == 0);
        assert(days_before_year(400 * era + 0) == 146097 * era + (doe - rem));
    }
    while rem >= days_in_year_exec(400 * era + yoe)
        invariant
            -2800 <= era <= 2800,
            0 <= yoe <= 400,
            0 <= rem <= doe < 146_097,
            days_before_year(400 * era + yoe) == 146097 * era + (doe - rem),
        decreases rem,
    {
        let n = days_in_year_exec(400 * era + yoe);
        proof {
            lemma_year_step(400 * era + yoe);
        }
        rem = rem - n;
        yoe = yoe + 1;
        proof {
            if yoe == 400 {
                lemma_era_shift(era + 1, 0);
                assert(days_before_year(400 * (era + 1)) == 146097 * (era + 1));
                assert(400 * (era as int) + 400 == 400 * (era + 1));
                assert(146097 * (era + 1) == 146097 * era + 146097) by (nonlinear_arith);
                assert(doe - rem == 146097);
                assert(false);
            }
        }
    }
    let y: i64 = 400 * era + yoe;
    let rem0: Ghost<int> = Ghost(rem as int);
    proof {
        assert(rem < days_in_year(y as int));
        assert(days_before_month(y as int, 1) == 0);
    }
    let mut m: u8 = 1;
    while m < 12 && rem >= days_in_month_exec(y, m)
        invariant
            -1_200_000 <= y <= 1_200_000,
            1 <= m <= 12,
            0 <= rem,
            rem + days_before_month(y as int, m as int) == rem0@,
            rem0@ < days_in_year(y as int),
        decreases 12 - m,
    {
        let n = days_in_month_exec(y, m);
        rem = rem - n;
        m = m + 1;
    }
    proof {
        assert(rem < days_in_month(y as int, m as int));
    }
    let d: u8 = (rem + 1) as u8;
    proof {
        lemma_era_shift(era as int, yoe as int);
    }
    (y, m, d)
}


/// A month of the year (January is month 1).
#[derive(Clone, Copy, Debug, PartialEq, Eq, Structural)]
pub enum Month {
    January,
    February,
    March,
    April,
    May,
    June,
    July,
    August,
    September,
    October,
    November,
    December,
}

/// The calendar position of a month: January is 1, December is 12.
pub open spec fn month_num(m: Month) -> int {
    match m {
        Month::January => 1,
        Month::February => 2,
        Month::March => 3,
        Month::April => 4,
        Month::May => 5,
        Month::June => 6,
        Month::July => 7,
        Month::August => 8,
        Month::September => 9,
        Month::October => 10,
        Month::November => 11,
        Month::December => 12,
    }
}

/// The value this library's numeric conversion gives a month: the
/// calendar position for January through November, and 23 for
/// December.
pub open spec fn month_i64(m: Month) -> int {
    if m == Month::December {
        23
    } else {
        month_num(m)
    }
}

/// The English name of a month.
pub open spec fn month_name(m: Month) -> Seq<char> {
    match m {
        Month::January => "January"@,
        Month::February => "February"@,
        Month::March => "March"@,
        Month::April => "April"@,
        Month::May => "May"@,
        Month::June => "June"@,
        Month::July => "July"@,
        Month::August => "August"@,
        Month::September => "September"@,
        Month::October => "October"@,
        Month::November => "November"@,
        Month::December => "December"@,
    }
}

/// The month at calendar position `m`, for 1 to 12.
pub open spec fn month_of_num(m: int) -> Month {
    if m == 2 {
        Month::February
    } else if m == 3 {
        Month::March
    } else if m == 4 {
        Month::April
    } else if m == 5 {
        Month::May
    } else if m == 6 {
        Month::June
    } else if m == 7 {
        Month::July
    } else if m == 8 {
        Month::August
    } else if m == 9 {
        Month::September
    } else if m == 10 {
        Month::October
    } else if m == 11 {
        Month::November
    } else if m == 12 {
        Month::December
    } else {
        Month::January
    }
}

impl Month {
    /// This library's numeric value of the month; see [`month_i64`].
    pub fn to_i64(&self) -> (r: i64)
        ensures
            r == month_i64(*self),
    {
        match self {
            Month::January => 1,
            Month::February => 2,
            Month::March => 3,
            Month::April => 4,
            Month::May => 5,
            Month::June => 6,
            Month::July => 7,
            Month::August => 8,
            Month::September => 9,
            Month::October => 10,
            Month::November => 11,
            Month::December => 23,
        }
    }

    /// The English name of the month.
    pub fn text(&self) -> (r: String)
        ensures
            r@ == month_name(*self),
    {
        let n: &str = match self {
            Month::January => "January",
            Month::February => "February",
            Month::March => "March",
            Month::April => "April",
            Month::May => "May",
            Month::June => "June",
            Month::July => "July",
            Month::August => "August",
            Month::September => "September",
            Month::October => "October",
            Month::November => "November",
            Month::December => "December",
        };
        n.to_owned()
    }
}

impl From<i64> for Month {
    /// The month at calendar position `arg`; any value outside 1 to
    /// 12 falls back to January.
    fn from(arg: i64) -> (r: Self)
        ensures
            r == month_of_num(arg as int),
    {
        if 1 <= arg && arg <= 12 {
            match arg {
                2 => Month::February,
                3 => Month::March,
                4 => Month::April,
                5 => Month::May,
                6 => Month::June,
                7 => Month::July,
                8 => Month::August,
                9 => Month::September,
                10 => Month::October,
                11 => Month::November,
                12 => Month::December,
                _ => Month::January,
            }
        } else {
            Month::January
        }
    }
}

impl vstd::std_specs::convert::FromSpecImpl<i64> for Month {
    open spec fn obeys_from_spec() -> bool {
        true
    }

    open spec fn from_spec(arg: i64) -> Month {
        month_of_num(arg as int)
    }
}

/// A day of the week (Sunday is day 0).
#[derive(Clone, Copy, Debug, PartialEq, Eq, Structural)]
pub enum Weekday {
    Sunday,
    Monday,
    Tuesday,
    Wednesday,
    Thursday,
    Friday,
    Saturday,
}

/// The position of a weekday: Sunday is 0, Saturday is 6.
pub open spec fn weekday_num(w: Weekday) -> int {
    match w {
        Weekday::Sunday => 0,
        Weekday::Monday => 1,
        Weekday::Tuesday => 2,
        Weekday::Wednesday => 3,
        Weekday::Thursday => 4,
        Weekday::Friday => 5,
        Weekday::Saturday => 6,
    }
}

/// The English name of a weekday.
pub open spec fn weekday_name(w: Weekday) -> Seq<char> {
    match w {
        Weekday::Sunday => "Sunday"@,
        Weekday::Monday => "Monday"@,
        Weekday::Tuesday => "Tuesday"@,
        Weekday::Wednesday => "Wednesday"@,
        Weekday::Thursday => "Thursday"@,
        Weekday::Friday => "Friday"@,
        Weekday::Saturday => "Saturday"@,
    }
}

impl Weekday {
    /// The position of the weekday: Sunday is 0.
    pub fn to_i64(&self) -> (r: i64)
        ensures
            r == weekday_num(*self),
    {
        match self {
            Weekday::Sunday => 0,
            Weekday::Monday => 1,
            Weekday::Tuesday => 2,
            Weekday::Wednesday => 3,
            Weekday::Thursday => 4,
            Weekday::Friday => 5,
            Weekday::Saturday => 6,
        }
    }

    /// The English name of the weekday.
    pub fn text(&self) -> (r: String)
        ensures
            r@ == weekday_name(*self),
    {
        let n: &str = match self {
            Weekday::Sunday => "Sunday",
            Weekday::Monday => "Monday",
            Weekday::Tuesday => "Tuesday",
            Weekday::Wednesday => "Wednesday",
            Weekday::Thursday => "Thursday",
            Weekday::Friday => "Friday",
            Weekday::Saturday => "Saturday",
        };
        n.to_owned()
    }
}

impl Time {
    /// The local civil date (year, month, day) in which the time
    /// falls: the one valid date whose day number is the time's local
    /// day.
    pub fn date(&self) -> (r: (i32, Month, i32))
        requires
            self.wf(),
        ensures
            valid_civil(r.0 as int, month_num(r.1), r.2 as int),
            days_from_civil(r.0 as int, month_num(r.1), r.2 as int) == self.spec_local_day(),
    {
        let (day, _) = div_mod_floor(self.sec + (self.offset as i64), 86_400);
        let (y, m, d) = civil_from_days(day);
        (y as i32, month_from_u8(m), d as i32)
    }

    /// The local calendar year.
    pub fn year(&self) -> (r: i32)
        requires
            self.wf(),
        ensures
            exists|m: int, d: int|
                valid_civil(r as int, m, d) && days_from_civil(r as int, m, d)
                    == self.spec_local_day(),
    {
        let (y, _, _) = self.date();
        y
    }

    /// The local calendar month.
    pub fn month(&self) -> (r: Month)
        requires
            self.wf(),
        ensures
            exists|y: int, d: int|
                valid_civil(y, month_num(r), d) && days_from_civil(y, month_num(r), d)
                    == self.spec_local_day(),
    {
        let (_, m, _) = self.date();
        m
    }

    /// The local day of the month.
    pub fn day(&self) -> (r: i32)
        requires
            self.wf(),
        ensures
            exists|y: int, m: int|
                valid_civil(y, m, r as int) && days_from_civil(y, m, r as int)
                    == self.spec_local_day(),
    {
        let (_, _, d) = self.date();
        d
    }

    /// The local day of the week; the epoch day 1970-01-01 was a
    /// Thursday.
    pub fn weekday(&self) -> (r: Weekday)
        requires
            self.wf(),
        ensures
            weekday_num(r) == (self.spec_local_day() + 4) % 7,
    {
        let (day, _) = div_mod_floor(self.sec + (self.offset as i64), 86_400);
        let (_, w) = div_mod_floor(day + 4, 7);
        match w {
            0 => Weekday::Sunday,
            1 => Weekday::Monday,
            2 => Weekday::Tuesday,
            3 => Weekday::Wednesday,
            4 => Weekday::Thursday,
            5 => Weekday::Friday,
            _ => Weekday::Saturday,
        }
    }
}

/// The month at calendar position `m`, for 1 to 12.
fn month_from_u8(m: u8) -> (r: Month)
    ensures
        r == month_of_num(m as int),
{
    match m {
        2 => Month::February,
        3 => Month::March,
        4 => Month::April,
        5 => Month::May,
        6 => Month::June,
        7 => Month::July,
        8 => Month::August,
        9 => Month::September,
        10 => Month::October,
        11 => Month::November,
        12 => Month::December,
        _ => Month::January,
    }
}


/// "Mon, 02 Jan 2006 15:04:05 GMT"
#[allow(non_upper_case_globals)]
pub const TimeFormat: &'static str = "[weekday], [day] [month] [year] [hour]:[minute]:[second] GMT";

/// "2006-01-02T15:04:05Z07:00"
pub const RFC3339: &'static str = "[year]-[month]-[day]T[hour]:[minute]:[second][offset_hour sign:mandatory]:[offset_minute]";

/// "2006-01-02T15:04:05.999999999Z07:00"
#[allow(non_upper_case_globals)]
pub const RFC3339Nano: &'static str = "[year]-[month]-[day]T[hour]:[minute]:[second].[subsecond][offset_hour sign:mandatory]:[offset_minute]";

/// "Mon, 02 Jan 2006 15:04:05 MST"
pub const RFC1123: &'static str = "[weekday repr:short], [day] [month repr:short] [year] [hour]:[minute]:[second] MST";

/// What the time crate renders for an instant and an offset under a
/// layout; `None` stands for a layout or range refused by that crate.
pub uninterp spec fn fmt_of(layout: Seq<char>, sec: i64, nsec: u32, off: i32) -> Option<
    Seq<char>,
>;

/// What the time crate reads back from a text under a layout: the
/// instant in nanoseconds and the offset in seconds, or `None` when
/// the layout or the text is refused.
pub uninterp spec fn parse_of(layout: Seq<char>, value: Seq<char>) -> Option<(i128, i32)>;

/// Relies on time's format_description::parse, OffsetDateTime
/// construction (checked at every step, so an instant or a shift
/// outside that crate's date range gives `None` rather than a panic)
/// and OffsetDateTime::format: renders the instant `sec`/`nsec`,
/// shifted to the offset `off`, under `layout`.  The result depends
/// on the arguments alone.
#[verifier::external_body]
fn format_datetime(layout: &str, sec: i64, nsec: u32, off: i32) -> (r: Option<String>)
    ensures
        r matches Some(s) ==> fmt_of(layout@, sec, nsec, off) == Some(s@),
        r is None ==> fmt_of(layout@, sec, nsec, off) is None,
{
    let items = ::time::format_description::parse(layout).ok()?;
    let t = ::time::OffsetDateTime::from_unix_timestamp(sec).ok()?;
    let t = t.checked_add(::time::Duration::nanoseconds(nsec as i64))?;
    let o = ::time::UtcOffset::from_whole_seconds(off).ok()?;
    t.checked_to_offset(o)?.format(&items).ok()
}

/// Relies on time's format_description::parse and
/// OffsetDateTime::parse: reads `value` under `layout` back into an
/// instant and an offset.  The instant stays within the ±9999 year
/// range of that crate's datetime type.  The result depends on the
/// arguments alone; an error carries that crate's message text, of
/// which nothing more is assumed.
#[verifier::external_body]
fn parse_datetime(layout: &str, value: &str) -> (r: Result<(i128, i32), String>)
    ensures
        r matches Ok(v) ==> parse_of(layout@, value@) == Some(v)
            && -0x10_0000_0000_0000_0000_0000 <= v.0 <= 0x10_0000_0000_0000_0000_0000,
        r is Err ==> parse_of(layout@, value@) is None,
{
    let items = match ::time::format_description::parse(layout) {
        Ok(v) => v,
        Err(e) => return Err(e.to_string()),
    };
    match ::time::OffsetDateTime::parse(value, &items) {
        Ok(t) => Ok((t.unix_timestamp_nanos(), t.offset().whole_seconds())),
        Err(e) => Err(e.to_string()),
    }
}

/// Relies on OffsetDateTime::now_utc and unix_timestamp_nanos: the
/// clock reading in nanoseconds; nothing is assumed of its value
/// beyond the ±9999 year range of that crate's datetime type.
#[verifier::external_body]
fn clock_now_nanos() -> (r: i128)
    ensures
        -0x10_0000_0000_0000_0000_0000 <= r <= 0x10_0000_0000_0000_0000_0000,
{
    ::time::OffsetDateTime::now_utc().unix_timestamp_nanos()
}

/// Relies on UtcOffset::current_local_offset and whole_seconds: the
/// machine's offset from UTC in seconds, 0 when it cannot be told;
/// the offset type stays within ±25:59:59.
#[verifier::external_body]
fn local_offset_seconds() -> (r: i32)
    ensures
        -93_600 < r < 93_600,
{
    match ::time::UtcOffset::current_local_offset() {
        Ok(o) => o.whole_seconds(),
        Err(_) => 0,
    }
}

/// Floor division and the matching non-negative remainder, for wide
/// dividends.
fn div_mod_floor_i128(a: i128, d: i128) -> (r: (i128, i128))
    requires
        1 <= d <= 0x1_0000_0000,
        -0x1000_0000_0000_0000_0000_0000 <= a <= 0x1000_0000_0000_0000_0000_0000,
    ensures
        r.0 == a as int / d as int,
        r.1 == a as int % d as int,
        a == d * r.0 + r.1,
        0 <= r.1 < d,
{
    let du: u128 = d as u128;
    let ku: u128 = 0x1000_0000_0000_0000_0000_0000u128 / du + 1;
    let k: i128 = ku as i128;
    proof {
        lemma_fundamental_div_mod(0x1000_0000_0000_0000_0000_0000int, d as int);
        lemma_mod_division_less_than_divisor(0x1000_0000_0000_0000_0000_0000int, d as int);
        assert(0x1000_0000_0000_0000_0000_0000int < d * (k as int)
            <= 0x1000_0000_0000_0000_0000_0000int + d) by (nonlinear_arith)
            requires
                k == 0x1000_0000_0000_0000_0000_0000int / (d as int) + 1,
                1 <= d,
                0x1000_0000_0000_0000_0000_0000int == d * (0x1000_0000_0000_0000_0000_0000int / (
                d as int)) + 0x1000_0000_0000_0000_0000_0000int % (d as int),
                0 <= 0x1000_0000_0000_0000_0000_0000int % (d as int) < d,
        ;
    }
    let shift: i128 = d * k;
    let s: i128 = a + shift;
    let su: u128 = s as u128;
    let q0: u128 = su / du;
    let r0: u128 = su % du;
    proof {
        assert(su == s as int);
        lemma_div_shift(a as int, k as int, d as int);
        lemma_fundamental_div_mod(a as int, d as int);
        lemma_mod_division_less_than_divisor(a as int, d as int);
        assert(q0 == k + a as int / d as int);
        assert(q0 <= su) by {
            vstd::arithmetic::div_mod::lemma_div_nonincreasing(su as int, du as int);
        }
    }
    ((q0 as i128) - k, r0 as i128)
}

/// Whether a parsed instant and offset fit the representation of
/// [`Time`].
pub open spec fn parse_fits(v: (i128, i32)) -> bool {
    &&& -MAX_ABS_SEC <= v.0 as int / (NANOS_PER_SEC as int) <= MAX_ABS_SEC
    &&& -86_400 < v.1 < 86_400
}

/// The time a parsed instant and offset stand for.
pub open spec fn time_of_parsed(v: (i128, i32)) -> Time {
    Time {
        sec: (v.0 as int / (NANOS_PER_SEC as int)) as i64,
        nsec: (v.0 as int % (NANOS_PER_SEC as int)) as u32,
        offset: v.1,
    }
}

impl Time {
    /// Renders the time under `layout` (the time crate's layout
    /// language); a refused layout gives empty text.
    pub fn format(&self, layout: &str) -> (r: String)
        ensures
            fmt_of(layout@, self.sec, self.nsec, self.offset) matches Some(t) ==> r@ == t,
            fmt_of(layout@, self.sec, self.nsec, self.offset) is None ==> r@.len() == 0,
    {
        match format_datetime(layout, self.sec, self.nsec, self.offset) {
            Some(s) => s,
            None => String::new(),
        }
    }

    /// Reads a time back from `value` under `layout`.  The result is
    /// `Ok` exactly when the time crate accepts the text and the
    /// instant fits this type's range; the error carries the message
    /// of the refusal, or names the range.
    pub fn parse(layout: &str, value: &str) -> (r: Result<Time, crate::errors::Error>)
        ensures
            r is Ok <==> (parse_of(layout@, value@) matches Some(v) && parse_fits(v)),
            r matches Ok(t) ==> t == time_of_parsed(parse_of(layout@, value@)->Some_0)
                && t.wf(),
    {
        match parse_datetime(layout, value) {
            Err(e) => Err(crate::errors::new(e)),
            Ok(v) => {
                let (sec_wide, nsec_wide) = div_mod_floor_i128(v.0, NANOS_PER_SEC as i128);
                if !(-MAX_ABS_SEC as i128 <= sec_wide && sec_wide <= MAX_ABS_SEC as i128) {
                    return Err(crate::errors::new("instant out of range".to_owned()));
                }
                if !(-86_400 < v.1 && v.1 < 86_400) {
                    return Err(crate::errors::new("offset out of range".to_owned()));
                }
                Ok(Time { sec: sec_wide as i64, nsec: nsec_wide as u32, offset: v.1 })
            },
        }
    }

    /// The current time, carrying the machine's local offset when it
    /// can be told and UTC otherwise.
    pub fn now() -> (r: Time)
        ensures
            r.wf(),
    {
        let mut t = Time::now_utc();
        let off = local_offset_seconds();
        if -86_400 < off && off < 86_400 {
            t.offset = off;
        }
        t
    }

    /// The current time in UTC.
    pub fn now_utc() -> (r: Time)
        ensures
            r.wf(),
            r.offset == 0,
    {
        let nanos = clock_now_nanos();
        let (sec_wide, nsec_wide) = div_mod_floor_i128(nanos, NANOS_PER_SEC as i128);
        let sec: i64 = if sec_wide > MAX_ABS_SEC as i128 {
            MAX_ABS_SEC
        } else if sec_wide < -MAX_ABS_SEC as i128 {
            -MAX_ABS_SEC
        } else {
            sec_wide as i64
        };
        Time { sec, nsec: nsec_wide as u32, offset: 0 }
    }
}


/// The day number of a civil date, computed by the closed formula
/// that [`days_from_civil`] states.
pub fn days_from_civil_exec(y: i64, m: u8, d: u8) -> (r: i64)
    requires
        -1_300_000 <= y <= 1_300_000,
        1 <= m <= 12,
        d <= 31,
    ensures
        r == days_from_civil(y as int, m as int, d as int),
{
    let (q4, _) = div_mod_floor(y + 3, 4);
    let (q100, _) = div_mod_floor(y + 99, 100);
    let (q400, _) = div_mod_floor(y + 399, 400);
    let before_year: i64 = 365 * y + q4 - q100 + q400;
    let base: i64 = if m == 1 {
        0
    } else if m == 2 {
        31
    } else if m == 3 {
        59
    } else if m == 4 {
        90
    } else if m == 5 {
        120
    } else if m == 6 {
        151
    } else if m == 7 {
        181
    } else if m == 8 {
        212
    } else if m == 9 {
        243
    } else if m == 10 {
        273
    } else if m == 11 {
        304
    } else {
        334
    };
    let leap_shift: i64 = if m > 2 && is_leap_exec(y) {
        1
    } else {
        0
    };
    before_year + base + leap_shift + (d as i64) - 1 - DAYS_TO_EPOCH
}

/// The day of the week in ISO numbering, Monday 1 to Sunday 7, of an
/// epoch-relative day number.
pub open spec fn iso_weekday_of(day: int) -> int {
    (day + 3) % 7 + 1
}

/// How many ISO weeks year `y` has: 53 when the year starts on a
/// Thursday, or on a Wednesday in a leap year; 52 otherwise.
pub open spec fn weeks_in_iso_year(y: int) -> int {
    let jan1 = iso_weekday_of(days_from_civil(y, 1, 1));
    if jan1 == 4 || (is_leap_year(y) && jan1 == 3) {
        53
    } else {
        52
    }
}

/// The ISO week number of the epoch-relative day `day` of year `y`:
/// the week count up to the Monday of its week, pushed into the
/// neighbouring year's numbering at the year's edges.
pub open spec fn iso_week_num(y: int, day: int) -> int {
    let ordinal = day - days_from_civil(y, 1, 1) + 1;
    let w = (10 + ordinal - iso_weekday_of(day)) / 7;
    if w < 1 {
        weeks_in_iso_year(y - 1)
    } else if w > weeks_in_iso_year(y) {
        1
    } else {
        w
    }
}

impl Time {
    /// The local calendar year, paired with the ISO week number of
    /// the local day.
    #[verifier::rlimit(100)]
    #[verifier::spinoff_prover]
    pub fn iso_week(&self) -> (r: (i32, i32))
        requires
            self.wf(),
        ensures
            exists|m: int, d: int|
                valid_civil(r.0 as int, m, d) && days_from_civil(r.0 as int, m, d)
                    == self.spec_local_day(),
            r.1 == iso_week_num(r.0 as int, self.spec_local_day()),
            1 <= r.1 <= 53,
    {
        let (day, _) = div_mod_floor(self.sec + (self.offset as i64), 86_400);
        let (y, mo, d) = self.date();
        proof {
            let m = month_num(mo);
            assert(days_from_civil(y as int, m, d as int) == day);
            assert(0 <= days_before_month(y as int, m) <= 335);
            assert(days_from_civil(y as int, 1, 1) == days_before_year(y as int) - 719_528);
            assert(days_from_civil(y as int, 1, 1) <= day <= days_from_civil(y as int, 1, 1)
                + 370);
            assert(valid_civil(y as int, m, d as int) && days_from_civil(y as int, m, d as int)
                == self.spec_local_day());
            assert(exists|m2: int, d2: int|
                valid_civil(y as int, m2, d2) && days_from_civil(y as int, m2, d2)
                    == self.spec_local_day()) by {
                assert(valid_civil(y as int, m, d as int) && days_from_civil(
                    y as int,
                    m,
                    d as int,
                ) == self.spec_local_day());
            }
        }
        let r1 = iso_week_exec(y as i64, day);
        let out = (y, r1 as i32);
        proof {
            assert(out.0 == y);
            assert(exists|m2: int, d2: int|
                valid_civil(out.0 as int, m2, d2) && days_from_civil(out.0 as int, m2, d2)
                    == self.spec_local_day()) by {
                assert(valid_civil(y as int, month_num(mo), d as int) && days_from_civil(
                    y as int,
                    month_num(mo),
                    d as int,
                ) == self.spec_local_day());
            }
        }
        out
    }
}

/// The day of the week in ISO numbering of an epoch-relative day
/// number.
fn iso_weekday_exec(day: i64) -> (r: i64)
    requires
        -0x1000_0000_0000 <= day <= 0x1000_0000_0000,
    ensures
        r == iso_weekday_of(day as int),
        1 <= r <= 7,
{
    let (_, w) = div_mod_floor(day + 3, 7);
    w + 1
}

/// How many ISO weeks year `y` has.
fn weeks_in_iso_year_exec(y: i64) -> (r: i64)
    requires
        -1_300_000 <= y <= 1_300_000,
    ensures
        r == weeks_in_iso_year(y as int),
{
    let jan1 = iso_weekday_exec(days_from_civil_exec(y, 1, 1));
    if jan1 == 4 || (is_leap_exec(y) && jan1 == 3) {
        53
    } else {
        52
    }
}

/// The ISO week number of the day `day`, which falls in calendar
/// year `y`.
fn iso_week_exec(y: i64, day: i64) -> (r: i64)
    requires
        -1_250_000 <= y <= 1_250_000,
        -500_000_000 <= day <= 500_000_000,
        days_from_civil(y as int, 1, 1) <= day <= days_from_civil(y as int, 1, 1) + 370,
    ensures
        r == iso_week_num(y as int, day as int),
        1 <= r <= 53,
{
    let jan1 = days_from_civil_exec(y, 1, 1);
    let ordinal = day - jan1 + 1;
    let wd = iso_weekday_exec(day);
    let (w, _) = div_mod_floor(10 + ordinal - wd, 7);
    proof {
        lemma_div_bounds(10 + ordinal - wd, 7, 56);
    }
    if w < 1 {
        weeks_in_iso_year_exec(y - 1)
    } else if w > weeks_in_iso_year_exec(y) {
        1
    } else {
        w
    }
}

} // verus!
