//! Naive (timezone-less) timestamps and their conversion to Unix epoch
//! seconds, interpreting the stored value as UTC.

use vstd::prelude::*;

verus! {

/// A naive calendar timestamp, as stored in the event table: a proleptic
/// Gregorian date with a time of day and no timezone, read as UTC.
#[derive(Clone, Copy, PartialEq, Eq, Structural)]
pub struct Timestamp {
    pub year: i32,
    pub month: u8,
    pub day: u8,
    pub hour: u8,
    pub minute: u8,
    pub second: u8,
}

impl Timestamp {
    /// Well-formedness: the fields name a calendar date in the common era
    /// with a valid time of day.
    pub open spec fn wf(self) -> bool {
        &&& 1 <= self.year
        &&& 1 <= self.month <= 12
        &&& 1 <= self.day <= 31
        &&& self.hour <= 23
        &&& self.minute <= 59
        &&& self.second <= 59
    }

    /// Unix epoch seconds of the timestamp read as UTC: the day count of the
    /// proleptic Gregorian date relative to 1970-01-01 (computed over the
    /// 400-year leap cycle), times 86400, plus the seconds of the day.
    pub open spec fn epoch(self) -> int {
        let m = self.month as int;
        let y = self.year as int - if m <= 2 { 1int } else { 0int };
        let era = y / 400;
        let yoe = y - era * 400;
        let mp = if m > 2 { m - 3 } else { m + 9 };
        let doy = (153 * mp + 2) / 5 + self.day as int - 1;
        let doe = yoe * 365 + yoe / 4 - yoe / 100 + doy;
        let days = era * 146097 + doe - 719468;
        days * 86400 + self.hour as int * 3600 + self.minute as int * 60 + self.second as int
    }

    /// Whether the fields are a well-formed timestamp, decided at run time.
    pub fn is_wf(&self) -> (r: bool)
        ensures
            r == self.wf(),
    {
        1 <= self.year && 1 <= self.month && self.month <= 12 && 1 <= self.day && self.day <= 31
            && self.hour <= 23 && self.minute <= 59 && self.second <= 59
    }
}

/// Computes the Unix epoch seconds of a well-formed timestamp.
pub fn epoch_seconds(ts: &Timestamp) -> (r: i64)
    requires
        ts.wf(),
    ensures
        r as int == ts.epoch(),
{
    let m: u64 = ts.month as u64;
    let y: u64 = (ts.year as u64) - if m <= 2 { 1 } else { 0 };
    let era: u64 = y / 400;
    proof {
        vstd::arithmetic::div_mod::lemma_fundamental_div_mod(y as int, 400);
        vstd::arithmetic::div_mod::lemma_mod_bound(y as int, 400);
        vstd::arithmetic::div_mod::lemma_div_pos_is_pos(y as int, 400);
        assert(era as int * 400 <= y as int);
    }
    let yoe: u64 = y - era * 400;
    let mp: u64 = if m > 2 { m - 3 } else { m + 9 };
    proof {
        vstd::arithmetic::div_mod::lemma_div_pos_is_pos(153 * mp as int + 2, 5);
        vstd::arithmetic::div_mod::lemma_div_is_ordered(153 * mp as int + 2, 1838, 5);
        vstd::arithmetic::div_mod::lemma_div_pos_is_pos(yoe as int, 4);
        vstd::arithmetic::div_mod::lemma_div_is_ordered(yoe as int, 399, 4);
        vstd::arithmetic::div_mod::lemma_div_pos_is_pos(yoe as int, 100);
        vstd::arithmetic::div_mod::lemma_div_is_ordered(yoe as int, 399, 100);
    }
    let doy: u64 = (153 * mp + 2) / 5 + ts.day as u64 - 1;
    let doe: u64 = yoe * 365 + yoe / 4 - yoe / 100 + doy;
    let days: i64 = (era * 146097 + doe) as i64 - 719468;
    days * 86400 + ts.hour as i64 * 3600 + ts.minute as i64 * 60 + ts.second as i64
}

} // verus!
