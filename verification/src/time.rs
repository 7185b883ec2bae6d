//! Plain-value time types: spans of elapsed time, instants and calendar days.
//!
//! The ledger reads very little of a point in time: which of two instants is
//! earlier, on which calendar day (UTC) an instant falls, and how an instant is
//! written as text. The types here hold exactly that as integers. Calendar
//! arithmetic proper (the text form of an instant) is left to `chrono`.

use vstd::prelude::*;

verus! {

/// Nanoseconds in one second.
pub const NANOS_PER_SEC: u32 = 1_000_000_000;

/// Nanoseconds in one millisecond.
pub const NANOS_PER_MILLI: u32 = 1_000_000;

/// Seconds in one calendar day.
pub const SECS_PER_DAY: i64 = 86_400;

/// A span of elapsed time: whole seconds plus a sub-second part in nanoseconds.
///
/// Spans are ordered by seconds first and nanoseconds second. Every
/// constructor yields a normalised value, whose nanosecond part is below one
/// second, and the operations keep it so.
#[derive(Clone, Copy, Debug, PartialEq, Eq, Structural)]
pub struct Duration {
    pub secs: u64,
    pub nanos: u32,
}

impl Duration {
    /// The sub-second part is below one second.
    pub open spec fn wf(self) -> bool {
        self.nanos < NANOS_PER_SEC
    }

    /// The length of the span in nanoseconds.
    pub open spec fn total_nanos(self) -> nat {
        (self.secs as nat) * (NANOS_PER_SEC as nat) + (self.nanos as nat)
    }

    /// The length of the span in whole milliseconds, rounding down.
    pub open spec fn total_millis(self) -> nat {
        (self.secs as nat) * 1000 + (self.nanos as nat) / (NANOS_PER_MILLI as nat)
    }

    /// Strict order: by seconds, then by nanoseconds.
    pub open spec fn lt(self, other: Duration) -> bool {
        self.secs < other.secs || (self.secs == other.secs && self.nanos < other.nanos)
    }

    /// The seconds of the sum of two spans, with the carry of the nanoseconds.
    pub open spec fn sum_secs(self, other: Duration) -> nat {
        (self.secs as nat) + (other.secs as nat) + ((self.nanos as nat) + (other.nanos as nat)) / (
        NANOS_PER_SEC as nat)
    }

    /// Whether the sum of two spans still fits the type.
    pub open spec fn can_add(self, other: Duration) -> bool {
        self.sum_secs(other) <= u64::MAX
    }

    /// The sum of two spans, where it fits.
    pub open spec fn plus(self, other: Duration) -> Duration
        recommends
            self.can_add(other),
    {
        Duration {
            secs: self.sum_secs(other) as u64,
            nanos: (((self.nanos as nat) + (other.nanos as nat)) % (NANOS_PER_SEC as nat)) as u32,
        }
    }

    /// The empty span.
    pub fn zero() -> (d: Duration)
        ensures
            d == (Duration { secs: 0, nanos: 0 }),
            d.wf(),
    {
        Duration { secs: 0, nanos: 0 }
    }

    /// A span of `secs` whole seconds.
    pub fn from_secs(secs: u64) -> (d: Duration)
        ensures
            d == (Duration { secs, nanos: 0 }),
            d.wf(),
    {
        Duration { secs, nanos: 0 }
    }

    /// A span of `secs` seconds and `nanos` nanoseconds; `None` where `nanos`
    /// is a whole second or more.
    pub fn new(secs: u64, nanos: u32) -> (d: Option<Duration>)
        ensures
            d == if nanos < NANOS_PER_SEC {
                Some(Duration { secs, nanos })
            } else {
                None
            },
            d is Some ==> d->0.wf(),
    {
        if nanos < NANOS_PER_SEC {
            Some(Duration { secs, nanos })
        } else {
            None
        }
    }

    /// The whole seconds of the span, rounding down.
    pub fn as_secs(&self) -> (s: u64)
        ensures
            s == self.secs,
    {
        self.secs
    }

    /// The sub-second part of the span, in nanoseconds.
    pub fn subsec_nanos(&self) -> (n: u32)
        ensures
            n == self.nanos,
    {
        self.nanos
    }

    /// The span in whole milliseconds, rounding down.
    pub fn as_millis(&self) -> (ms: u128)
        ensures
            ms == self.total_millis(),
    {
        let whole: u128 = (self.secs as u128) * 1000;
        whole + ((self.nanos / NANOS_PER_MILLI) as u128)
    }

    /// The span in whole milliseconds, held at `u64::MAX` where it would not
    /// fit.
    pub fn as_millis_saturating(&self) -> (ms: u64)
        ensures
            ms == if self.total_millis() <= u64::MAX {
                self.total_millis()
            } else {
                u64::MAX as nat
            },
    {
        let ms: u128 = self.as_millis();
        if ms <= u64::MAX as u128 {
            ms as u64
        } else {
            u64::MAX
        }
    }

    /// Whether `self` is strictly shorter than `other`.
    pub fn is_shorter_than(&self, other: &Duration) -> (b: bool)
        ensures
            b == self.lt(*other),
    {
        self.secs < other.secs || (self.secs == other.secs && self.nanos < other.nanos)
    }

    /// The sum of two spans; `None` where the seconds overflow.
    pub fn checked_add(&self, other: &Duration) -> (sum: Option<Duration>)
        ensures
            sum == if self.can_add(*other) {
                Some(self.plus(*other))
            } else {
                None::<Duration>
            },
            self.wf() && other.wf() && sum is Some ==> sum->0.wf(),
            sum is Some ==> sum->0.total_nanos() == self.total_nanos() + other.total_nanos(),
    {
        let nanos: u64 = self.nanos as u64 + other.nanos as u64;
        let carry: u64 = nanos / (NANOS_PER_SEC as u64);
        let rest: u64 = nanos % (NANOS_PER_SEC as u64);
        match self.secs.checked_add(other.secs) {
            Some(whole) => match whole.checked_add(carry) {
                Some(secs) => {
                    let sum = Duration { secs, nanos: rest as u32 };
                    assert(sum.total_nanos() == self.total_nanos() + other.total_nanos()) by {
                        let n = (self.nanos as nat) + (other.nanos as nat);
                        let q = NANOS_PER_SEC as nat;
                        assert(n == q * (n / q) + n % q) by (nonlinear_arith)
                            requires
                                q > 0,
                        ;
                        assert(((self.secs as nat) + (other.secs as nat) + n / q) * q == (
                        self.secs as nat) * q + (other.secs as nat) * q + q * (n / q))
                            by (nonlinear_arith);
                    }
                    Some(sum)
                },
                None => None,
            },
            None => None,
        }
    }
}

/// A calendar day, counted in days since 1 January 1970.
#[derive(Clone, Copy, Debug, PartialEq, Eq, Structural)]
pub struct Date {
    pub days: i64,
}

impl Date {
    /// The day `days` days after 1 January 1970 (before it, where negative).
    pub fn from_days(days: i64) -> (d: Date)
        ensures
            d.days == days,
    {
        Date { days }
    }

    /// The number of days since 1 January 1970.
    pub fn days(&self) -> (n: i64)
        ensures
            n == self.days,
    {
        self.days
    }

    /// Whether `self` lies more than one day after `earlier`.
    pub fn is_more_than_a_day_after(&self, earlier: &Date) -> (b: bool)
        ensures
            b == (self.days - earlier.days > 1),
    {
        earlier.days < i64::MAX && earlier.days + 1 < self.days
    }
}

/// An instant: seconds since 1 January 1970 0:00:00 UTC, leap seconds not
/// counted, plus nanoseconds since the last whole second.
///
/// Instants are ordered by seconds first and nanoseconds second.
#[derive(Clone, Copy, Debug, PartialEq, Eq, Structural)]
pub struct Timestamp {
    pub secs: i64,
    pub nanos: u32,
}

/// The calendar day, in days since 1 January 1970, on which the instant
/// `secs` seconds after the epoch falls.
pub open spec fn day_of_seconds(secs: int) -> int {
    secs / (SECS_PER_DAY as int)
}

impl Timestamp {
    /// The calendar day (UTC) of the instant, in days since 1 January 1970.
    pub open spec fn day(self) -> int {
        day_of_seconds(self.secs as int)
    }

    /// Strict order: by seconds, then by nanoseconds.
    pub open spec fn before(self, other: Timestamp) -> bool {
        self.secs < other.secs || (self.secs == other.secs && self.nanos < other.nanos)
    }

    /// The instant `secs` seconds and `nanos` nanoseconds after the epoch.
    pub fn new(secs: i64, nanos: u32) -> (t: Timestamp)
        ensures
            t == (Timestamp { secs, nanos }),
    {
        Timestamp { secs, nanos }
    }

    /// Seconds since the epoch.
    pub fn secs(&self) -> (s: i64)
        ensures
            s == self.secs,
    {
        self.secs
    }

    /// Nanoseconds since the last whole second.
    pub fn subsec_nanos(&self) -> (n: u32)
        ensures
            n == self.nanos,
    {
        self.nanos
    }

    /// Whether `self` is strictly earlier than `other`.
    pub fn is_before(&self, other: &Timestamp) -> (b: bool)
        ensures
            b == self.before(*other),
    {
        self.secs < other.secs || (self.secs == other.secs && self.nanos < other.nanos)
    }

    /// The calendar day (UTC) on which the instant falls.
    pub fn date(&self) -> (d: Date)
        ensures
            d.days == self.day(),
    {
        if self.secs >= 0 {
            Date { days: self.secs / SECS_PER_DAY }
        } else {
            let back: i64 = -(self.secs + 1);
            let whole: i64 = back / SECS_PER_DAY;
            assert(-1 - (back as int) / 86_400 == (-(back as int) - 1) / 86_400) by {
                lemma_floor_of_negative(back as int);
            }
            Date { days: -1 - whole }
        }
    }
}

/// The text of an instant in the form of RFC 3339, such as
/// `2025-01-15T10:30:00+00:00`, as `chrono` writes it; none for an instant
/// that `chrono` cannot hold.
pub uninterp spec fn rfc3339_text(secs: int, nanos: int) -> Option<Seq<char>>;

/// The text of an optional string.
pub open spec fn optional_text(text: Option<String>) -> Option<Seq<char>> {
    match text {
        Some(t) => Some(t@),
        None => None,
    }
}

/// The text of an instant in the form of RFC 3339.
///
/// Makes a `chrono::DateTime<Utc>` of the seconds and nanoseconds with
/// `DateTime::from_timestamp`, which gives none for an instant out of its
/// range or with nanoseconds that it does not take, and writes it with
/// `DateTime::to_rfc3339`. The result depends on the two numbers alone.
#[verifier::external_body]
fn rfc3339_string(instant: Timestamp) -> (text: Option<String>)
    ensures
        optional_text(text) == rfc3339_text(instant.secs as int, instant.nanos as int),
{
    chrono::DateTime::from_timestamp(instant.secs, instant.nanos).map(|dt| dt.to_rfc3339())
}

impl Timestamp {
    /// The text of the instant in the form of RFC 3339; none for an instant
    /// that cannot be written so.
    pub open spec fn rfc3339(self) -> Option<Seq<char>> {
        rfc3339_text(self.secs as int, self.nanos as int)
    }

    /// The text of the instant in the form of RFC 3339; none for an instant
    /// that cannot be written so.
    pub fn to_rfc3339(&self) -> (text: Option<String>)
        ensures
            optional_text(text) == self.rfc3339(),
    {
        rfc3339_string(*self)
    }

    /// The present instant, as the system clock tells it.
    pub fn now() -> (now: Timestamp) {
        current_time()
    }
}

/// The instant that a text in the form of RFC 3339 stands for, as `chrono`
/// reads it; none for a text that it does not take.
pub uninterp spec fn rfc3339_instant(text: Seq<char>) -> Option<Timestamp>;

/// The instant that a text in the form of RFC 3339 stands for.
///
/// Calls `chrono::DateTime::parse_from_rfc3339` and takes the instant apart
/// with `DateTime::timestamp` and `DateTime::timestamp_subsec_nanos`, which
/// count from the epoch in UTC whatever offset the text names. The result
/// depends on the text alone.
#[verifier::external_body]
fn parse_rfc3339(text: &str) -> (instant: Option<Timestamp>)
    ensures
        instant == rfc3339_instant(text@),
{
    chrono::DateTime::parse_from_rfc3339(text).ok().map(
        |at| Timestamp { secs: at.timestamp(), nanos: at.timestamp_subsec_nanos() },
    )
}

/// The text of a calendar day, such as `2025-01-15`, as `chrono` writes it;
/// none for a day that `chrono` cannot hold.
pub uninterp spec fn date_text(days: int) -> Option<Seq<char>>;

/// The text of a calendar day.
///
/// Makes a `chrono::NaiveDate` of the day number with
/// `NaiveDate::from_epoch_days`, which gives none for a day out of its range,
/// as does a day number beyond `i32`, and writes it with its `Display`. The
/// result depends on the day number alone.
#[verifier::external_body]
fn date_string(date: Date) -> (text: Option<String>)
    ensures
        optional_text(text) == date_text(date.days as int),
{
    i32::try_from(date.days).ok().and_then(chrono::NaiveDate::from_epoch_days).map(
        |day| day.to_string(),
    )
}

/// The calendar day that a text stands for when read by a format of
/// `chrono`, such as `%Y-%m-%d`; none for a text that does not fit.
pub uninterp spec fn date_of_text(text: Seq<char>, format: Seq<char>) -> Option<Date>;

/// The calendar day that a text stands for.
///
/// Calls `chrono::NaiveDate::parse_from_str` with the text and the format,
/// and takes the day number with `NaiveDate::to_epoch_days`. The result
/// depends on text and format alone.
#[verifier::external_body]
fn parse_date_text(text: &str, format: &str) -> (date: Option<Date>)
    ensures
        date == date_of_text(text@, format@),
{
    chrono::NaiveDate::parse_from_str(text, format).ok().map(
        |day| Date { days: i64::from(day.to_epoch_days()) },
    )
}

/// The format in which calendar days are written: year, month and day with
/// dashes between.
pub open spec fn date_format() -> Seq<char> {
    "%Y-%m-%d"@
}

impl Date {
    /// The text of the day, such as `2025-01-15`; none for a day that cannot
    /// be written so.
    pub fn to_text(&self) -> (text: Option<String>)
        ensures
            optional_text(text) == date_text(self.days as int),
    {
        date_string(*self)
    }

    /// The day that a text such as `2025-01-15` stands for.
    pub fn parse(text: &str) -> (date: Option<Date>)
        ensures
            date == date_of_text(text@, date_format()),
    {
        parse_date_text(text, "%Y-%m-%d")
    }
}

impl Timestamp {
    /// The instant that a text in the form of RFC 3339 stands for.
    pub fn parse_rfc3339(text: &str) -> (instant: Option<Timestamp>)
        ensures
            instant == rfc3339_instant(text@),
    {
        parse_rfc3339(text)
    }
}

/// The place of an instant on the time line as one number: instants are in
/// the order of their ranks.
pub open spec fn time_rank(instant: Timestamp) -> i128 {
    (instant.secs as int * 0x1_0000_0000 + instant.nanos as int) as i128
}

/// An instant is before another exactly when its rank is lower.
pub proof fn lemma_rank_orders(a: Timestamp, b: Timestamp)
    ensures
        a.before(b) <==> time_rank(a) < time_rank(b),
        a == b <==> time_rank(a) == time_rank(b),
        time_rank(a) == a.secs as int * 0x1_0000_0000 + a.nanos as int,
        -0x8000_0000_0000_0000_0000_0000 <= time_rank(a) < 0x8000_0000_0000_0000_0000_0000,
{
    let x = a.secs as int * 0x1_0000_0000 + a.nanos as int;
    let y = b.secs as int * 0x1_0000_0000 + b.nanos as int;
    assert(-0x8000_0000_0000_0000_0000_0000 <= x < 0x8000_0000_0000_0000_0000_0000);
    assert(-0x8000_0000_0000_0000_0000_0000 <= y < 0x8000_0000_0000_0000_0000_0000);
    if a.secs < b.secs {
        assert(x < y);
    } else if a.secs > b.secs {
        assert(x > y);
    }
}

impl Timestamp {
    /// The place of the instant on the time line as one number.
    pub fn rank(&self) -> (rank: i128)
        ensures
            rank == time_rank(*self),
    {
        proof {
            lemma_rank_orders(*self, *self);
        }
        (self.secs as i128) * 0x1_0000_0000 + (self.nanos as i128)
    }
}

/// The present instant.
///
/// Calls `chrono::Utc::now` and takes the result apart into its seconds since
/// the epoch and its nanoseconds. Nothing is claimed of the value: it is
/// whatever the system clock says.
#[verifier::external_body]
pub(crate) fn current_time() -> (now: Timestamp) {
    let now = chrono::Utc::now();
    Timestamp { secs: now.timestamp(), nanos: now.timestamp_subsec_nanos() }
}

/// Rounding down a negative quotient: for `b >= 0`, the floor of
/// `(-b - 1) / 86400` is `-1 - b / 86400`.
pub proof fn lemma_floor_of_negative(b: int)
    requires
        b >= 0,
    ensures
        (-b - 1) / 86_400 == -1 - b / 86_400,
{
    let q = b / 86_400;
    let r = b % 86_400;
    assert(b == 86_400 * q + r && 0 <= r < 86_400) by (nonlinear_arith)
        requires
            q == b / 86_400,
            r == b % 86_400,
    ;
    let x = -b - 1;
    assert(x == 86_400 * (-1 - q) + (86_399 - r));
    assert(x / 86_400 == -1 - q) by (nonlinear_arith)
        requires
            x == 86_400 * (-1 - q) + (86_399 - r),
            0 <= 86_399 - r < 86_400,
    ;
}

/// Every day on which an instant can fall lies strictly inside the range of
/// `i64`.
pub proof fn lemma_day_in_range(t: Timestamp)
    ensures
        i64::MIN < t.day() < i64::MAX,
{
    let s = t.secs as int;
    assert(i64::MIN < s / 86_400 < i64::MAX) by (nonlinear_arith)
        requires
            i64::MIN <= s <= i64::MAX,
    ;
}

} // verus!
