//! Calendar dates as plain year/month/day values, derived from Unix
//! timestamps, and their encoding as cache keys.

use vstd::prelude::*;

use crate::digits::{int_dec_seq, pad2_seq, push_i32_dec, push_pad2};

verus! {

/// Smallest year a date produced by the timestamp conversion can carry.
pub const MIN_YEAR: i32 = -262144;

/// Largest year a date produced by the timestamp conversion can carry.
pub const MAX_YEAR: i32 = 262143;

/// A year-month-day value with no time component.
#[derive(Clone, Copy, PartialEq, Eq, Structural, Debug)]
pub struct CalendarDate {
    pub year: i32,
    pub month: u8,
    pub day: u8,
}

impl CalendarDate {
    /// Field bounds every date handled by this library satisfies.
    pub open spec fn wf(self) -> bool {
        &&& MIN_YEAR <= self.year <= MAX_YEAR
        &&& 1 <= self.month <= 12
        &&& 1 <= self.day <= 31
    }

    /// The date as a plain year-month-day triple.
    pub open spec fn triple(self) -> (int, int, int) {
        (self.year as int, self.month as int, self.day as int)
    }

    /// Encoding of a date as a single integer, used as the cache key.
    pub open spec fn key_spec(self) -> u64 {
        ((self.year - MIN_YEAR) * 512 + self.month * 32 + self.day) as u64
    }

    /// The integer the cache is keyed by for this date.
    pub fn key(&self) -> (k: u64)
        requires
            self.wf(),
        ensures
            k == self.key_spec(),
    {
        ((self.year - MIN_YEAR) as u64) * 512 + (self.month as u64) * 32 + (self.day as u64)
    }
}

/// The calendar date, in UTC, of the moment `secs` non-leap seconds after
/// the Unix epoch: a function of `secs` alone.
pub uninterp spec fn date_of_unix(secs: int) -> (int, int, int);

/// Largest timestamp the conversion is promised to accept: one second
/// past the end of year 9999.
pub const MAX_TIMESTAMP: i64 = 253402300800;

/// Relies on chrono's `DateTime::<Utc>::from_timestamp` together with the
/// `Datelike` accessors of the resulting date: the conversion depends on
/// the seconds value alone, yields in-range month and day numbers and a
/// year within `NaiveDate`'s documented range, and fails only on a
/// timestamp outside that range.
#[verifier::external_body]
pub fn date_from_timestamp(secs: i64) -> (r: Option<CalendarDate>)
    ensures
        0 <= secs < MAX_TIMESTAMP ==> r is Some,
        r matches Some(d) ==> d.wf() && d.triple() == date_of_unix(secs as int),
{
    match chrono::DateTime::<chrono::Utc>::from_timestamp(secs, 0) {
        Option::None => Option::None,
        Option::Some(dt) => {
            let nd = dt.date_naive();
            Option::Some(
                CalendarDate {
                    year: chrono::Datelike::year(&nd),
                    month: chrono::Datelike::month(&nd) as u8,
                    day: chrono::Datelike::day(&nd) as u8,
                },
            )
        },
    }
}

/// The `year-month-day` rendering of a date: the year unpadded, month and
/// day zero-padded to two digits.
pub open spec fn date_seq(d: CalendarDate) -> Seq<char> {
    int_dec_seq(d.year as int) + seq!['-'] + pad2_seq(d.month as nat) + seq!['-'] + pad2_seq(
        d.day as nat,
    )
}

/// Renders a date as `year-month-day` with zero-padded month and day.
pub fn date_string(d: &CalendarDate) -> (r: String)
    requires
        d.wf(),
    ensures
        r@ == date_seq(*d),
{
    proof {
        reveal_strlit("-");
        assert("-"@ =~= seq!['-']);
    }
    let mut r = String::new();
    push_i32_dec(&mut r, d.year);
    r.append("-");
    push_pad2(&mut r, d.month as u32);
    r.append("-");
    push_pad2(&mut r, d.day as u32);
    assert(r@ =~= date_seq(*d));
    r
}

/// Distinct well-formed dates are given distinct cache keys, so one cache
/// entry never serves two dates.
pub proof fn lemma_key_injective(a: CalendarDate, b: CalendarDate)
    requires
        a.wf(),
        b.wf(),
        a.key_spec() == b.key_spec(),
    ensures
        a == b,
{
    assert(a.year == b.year && a.month == b.month && a.day == b.day) by (nonlinear_arith)
        requires
            a.wf(),
            b.wf(),
            a.key_spec() == b.key_spec(),
    {
    }
}

} // verus!
