//! Moments in time.
use vstd::prelude::*;

verus! {

/// A moment: the seconds since the epoch, and the nanoseconds since then. A leap second has more
/// than a thousand million nanoseconds.
#[derive(Debug, Clone, Copy, PartialEq, Eq, Structural)]
pub struct Moment {
    pub secs: i64,
    pub nanos: u32,
}

/// The first second that the time crate can hold.
pub const FIRST_SECOND: i64 = -8_334_601_228_800;

/// The last second that the time crate can hold.
pub const LAST_SECOND: i64 = 8_210_266_876_799;

/// The first second of the year 0.
pub const YEAR_0: i64 = -62_167_219_200;

/// The last second of the year 9999.
pub const END_OF_YEAR_9999: i64 = 253_402_300_799;

/// Whether the time crate can hold a second.
pub open spec fn in_range(secs: int) -> bool {
    FIRST_SECOND <= secs <= LAST_SECOND
}

/// Whether a second lies in the years that are written with four digits.
pub open spec fn has_four_digit_year(secs: int) -> bool {
    YEAR_0 <= secs <= END_OF_YEAR_9999
}

/// Whether `a` is `b` or comes after it.
pub open spec fn not_before(a: Moment, b: Moment) -> bool {
    a.secs > b.secs || (a.secs == b.secs && a.nanos >= b.nanos)
}

/// Whether a clock may show this moment.
pub open spec fn clock_moment(m: Moment) -> bool {
    0 <= m.secs <= LAST_SECOND && m.nanos < 1_000_000_000
}

/// The moment that `chrono::DateTime::parse_from_rfc3339` reads out of a text; `None` where the
/// text is refused.
pub uninterp spec fn rfc3339_moment(text: Seq<char>) -> Option<Moment>;

/// What `to_rfc3339` of a `chrono::DateTime` in UTC writes for a moment.
pub uninterp spec fn rfc3339_text(m: Moment) -> Seq<char>;

/// Declares `chrono::ParseError`, what the time crate reports of a text that it refuses.
#[verifier::external_type_specification]
#[verifier::external_body]
pub struct ExParseError(chrono::ParseError);

/// `chrono::Utc::now`: the moment that the machine's clock shows. It is no earlier than the
/// epoch, no later than the last second that the crate can hold, and in no leap second.
#[verifier::external_body]
pub(crate) fn moment_now() -> (r: Moment)
    ensures
        clock_moment(r),
{
    let now = chrono::Utc::now();
    Moment { secs: now.timestamp(), nanos: now.timestamp_subsec_nanos() }
}

/// `chrono::DateTime::parse_from_rfc3339`: whether the text is accepted, and the moment that it
/// names, in whatever time zone, is a function of the text.
#[verifier::external_body]
fn parse_from_rfc3339(text: &str) -> (r: Result<Moment, chrono::ParseError>)
    ensures
        match r {
            Ok(m) => rfc3339_moment(text@) == Some(m),
            Err(_) => rfc3339_moment(text@) is None,
        },
{
    chrono::DateTime::parse_from_rfc3339(text).map(
        |t| Moment { secs: t.timestamp(), nanos: t.timestamp_subsec_nanos() },
    )
}

/// A moment as a `chrono::DateTime` in UTC, `chrono::TimeDelta::seconds` added to it, written by
/// `to_rfc3339`. The text is a function of the moment that many seconds later. Reading it gives
/// that moment back where the year has four digits; any other year is written with a sign, which
/// is refused. A moment that the crate cannot hold would panic.
#[verifier::external_body]
fn rfc3339_after(start: Moment, seconds: i64) -> (r: String)
    requires
        in_range(start.secs as int),
        in_range(start.secs + seconds),
        start.nanos < 1_000_000_000,
    ensures
        r@ == rfc3339_text(Moment { secs: (start.secs + seconds) as i64, nanos: start.nanos }),
        rfc3339_moment(r@) == if has_four_digit_year(start.secs + seconds) {
            Some(Moment { secs: (start.secs + seconds) as i64, nanos: start.nanos })
        } else {
            None
        },
{
    let start = chrono::DateTime::from_timestamp(start.secs, start.nanos).unwrap();
    (start + chrono::TimeDelta::seconds(seconds)).to_rfc3339()
}

impl Moment {
    /// The moment that a text in RFC 3339 form names; `None` where it names none.
    pub fn parse(text: &str) -> (r: Option<Moment>)
        ensures
            r == rfc3339_moment(text@),
    {
        match parse_from_rfc3339(text) {
            Ok(m) => Some(m),
            Err(_) => None,
        }
    }

    /// Whether this moment is `other` or comes after it.
    pub fn is_not_before(self, other: Moment) -> (r: bool)
        ensures
            r == not_before(self, other),
    {
        self.secs > other.secs || (self.secs == other.secs && self.nanos >= other.nanos)
    }

    /// The moment `seconds` later, in RFC 3339 form.
    pub fn text_after(self, seconds: i64) -> (r: String)
        requires
            in_range(self.secs as int),
            in_range(self.secs + seconds),
            self.nanos < 1_000_000_000,
        ensures
            r@ == rfc3339_text(Moment { secs: (self.secs + seconds) as i64, nanos: self.nanos }),
            rfc3339_moment(r@) == if has_four_digit_year(self.secs + seconds) {
                Some(Moment { secs: (self.secs + seconds) as i64, nanos: self.nanos })
            } else {
                None
            },
    {
        rfc3339_after(self, seconds)
    }
}

/// Moments are in order: by their seconds, and in the same second by their nanoseconds.
pub proof fn lemma_moments_are_in_order(a: Moment, b: Moment)
    ensures
        a.secs > b.secs ==> not_before(a, b) && !not_before(b, a),
        a.secs == b.secs && a.nanos > b.nanos ==> not_before(a, b) && !not_before(b, a),
        not_before(a, a),
{
}

/// The seconds that the time crate can hold, those with a year of four digits and those that a
/// clock may show lie one in the other, and each range ends where it says.
pub proof fn lemma_ranges(secs: i64, nanos: u32)
    ensures
        in_range(secs as int) <==> -8_334_601_228_800 <= secs <= 8_210_266_876_799,
        has_four_digit_year(secs as int) <==> -62_167_219_200 <= secs <= 253_402_300_799,
        clock_moment(Moment { secs, nanos }) <==> 0 <= secs <= 8_210_266_876_799 && nanos
            <= 999_999_999,
{
}

} // verus!
