use vstd::prelude::*;

verus! {

/// Days in a full cycle of 400 years of the proleptic Gregorian calendar.
pub const DAYS_PER_ERA: i64 = 146097;

/// Days from 0000-03-01 to 1970-01-01.
pub const EPOCH_SHIFT: i64 = 719468;

/// The largest distance from the epoch, in days, for which dates are computed.
pub const MAX_DAYS: i64 = 0x8_0000_0000_0000;

/// The number of the day of a year that starts in March on which the month
/// that is `shifted` months after March starts.
pub open spec fn month_start(shifted: int) -> int {
    (153 * shifted + 2) / 5
}

/// The number of days since 1970-01-01 of a date of the proleptic Gregorian
/// calendar; negative before that day.
pub open spec fn day_number(year: int, month: int, day: int) -> int {
    let y = if month <= 2 {
        year - 1
    } else {
        year
    };
    let era = y / 400;
    let year_of_era = y - era * 400;
    let shifted = if month > 2 {
        month - 3
    } else {
        month + 9
    };
    let day_of_year = month_start(shifted) + day - 1;
    let day_of_era = year_of_era * 365 + year_of_era / 4 - year_of_era / 100 + day_of_year;
    era * 146097 + day_of_era - 719468
}

/// Whether a year is a leap year of the Gregorian calendar.
pub open spec fn is_leap(year: int) -> bool {
    year % 4 == 0 && (year % 100 != 0 || year % 400 == 0)
}

/// The number of days of a month.
pub open spec fn month_length(year: int, month: int) -> int {
    if month == 2 {
        if is_leap(year) {
            29
        } else {
            28
        }
    } else if month == 4 || month == 6 || month == 9 || month == 11 {
        30
    } else {
        31
    }
}

/// Whether year, month and day name a date.
pub open spec fn is_date(year: int, month: int, day: int) -> bool {
    1 <= month <= 12 && 1 <= day <= month_length(year, month)
}

/// A year is the sum of its era and its year of the era.
pub proof fn lemma_year_of_era(era: int, year_of_era: int)
    requires
        0 <= year_of_era <= 399,
    ensures
        (year_of_era + era * 400) / 400 == era,
        (year_of_era + era * 400) % 400 == year_of_era,
{
    vstd::arithmetic::div_mod::lemma_fundamental_div_mod_converse(
        year_of_era + era * 400,
        400,
        era,
        year_of_era,
    );
}

/// The year that follows year `year_of_era` of an era is a leap year exactly
/// if its number within the era says so.
pub proof fn lemma_leap_of_era(era: int, year_of_era: int)
    requires
        0 <= year_of_era <= 399,
    ensures
        is_leap(year_of_era + era * 400 + 1) <==> ((year_of_era + 1) % 4 == 0 && ((year_of_era
            + 1) % 100 != 0 || year_of_era == 399)),
{
    let y = year_of_era + era * 400 + 1;
    let k = year_of_era + 1;
    assert(y == k + 400 * era);
    vstd::arithmetic::div_mod::lemma_mod_multiples_vanish(era, k, 400);
    vstd::arithmetic::div_mod::lemma_mod_multiples_vanish(100 * era, k, 4);
    vstd::arithmetic::div_mod::lemma_mod_multiples_vanish(4 * era, k, 100);
    assert(400 * era == 4 * (100 * era) && 400 * era == 100 * (4 * era));
}

/// The day of a month that the month arithmetic yields is a day of that
/// month, for every month from March to January.
pub proof fn lemma_month_fits(day_of_year: int)
    requires
        0 <= day_of_year <= 365,
    ensures
        ({
            let shifted = (5 * day_of_year + 2) / 153;
            let day = day_of_year - month_start(shifted) + 1;
            &&& 0 <= shifted <= 11
            &&& 1 <= day
            &&& (shifted == 0 || shifted == 2 || shifted == 4 || shifted == 5 || shifted == 7
                || shifted == 9 || shifted == 10) ==> day <= 31
            &&& (shifted == 1 || shifted == 3 || shifted == 6 || shifted == 8) ==> day <= 30
            &&& shifted == 11 ==> day == day_of_year - 336
        }),
{
}

/// The last day of a year of an era is day 365 only where the year that
/// follows is a leap year; every other year ends on day 364.
pub proof fn lemma_last_day(day_of_era: int)
    requires
        0 <= day_of_era < 146097,
    ensures
        ({
            let year_of_era = (day_of_era - day_of_era / 1460 + day_of_era / 36524 - day_of_era
                / 146096) / 365;
            let day_of_year = day_of_era - (365 * year_of_era + year_of_era / 4 - year_of_era
                / 100);
            &&& 0 <= year_of_era <= 399
            &&& 0 <= day_of_year <= 365
            &&& day_of_year == 365 ==> ((year_of_era + 1) % 4 == 0 && ((year_of_era + 1) % 100
                != 0 || year_of_era == 399))
        }),
{
}

/// The date of the proleptic Gregorian calendar that is `days` days after
/// 1970-01-01, as year, month and day.
pub fn days_to_ymd(days: i64) -> (r: (i64, u32, u32))
    requires
        -MAX_DAYS <= days <= MAX_DAYS,
    ensures
        is_date(r.0 as int, r.1 as int, r.2 as int),
        day_number(r.0 as int, r.1 as int, r.2 as int) == days,
{
    let z: i64 = days + EPOCH_SHIFT;
    let era: i64 = if z >= 0 {
        z / DAYS_PER_ERA
    } else {
        (z - (DAYS_PER_ERA - 1)) / DAYS_PER_ERA
    };
    let doe: i64 = z - era * DAYS_PER_ERA;
    assert(0 <= doe < 146097);
    let yoe: i64 = (doe - doe / 1460 + doe / 36524 - doe / 146096) / 365;
    assert(0 <= yoe <= 399);
    let y: i64 = yoe + era * 400;
    let doy: i64 = doe - (365 * yoe + yoe / 4 - yoe / 100);
    assert(0 <= doy <= 365);
    let mp: i64 = (5 * doy + 2) / 153;
    assert(0 <= mp <= 11);
    let d: i64 = doy - (153 * mp + 2) / 5 + 1;
    assert(1 <= d <= 31);
    let m: i64 = if mp < 10 {
        mp + 3
    } else {
        mp - 9
    };
    let year: i64 = if m <= 2 {
        y + 1
    } else {
        y
    };
    proof {
        assert(y as int / 400 == era) by {
            lemma_year_of_era(era as int, yoe as int);
        }
        assert(month_start(mp as int) + d - 1 == doy);
        assert(day_number(year as int, m as int, d as int) == days);
        lemma_month_fits(doy as int);
        lemma_last_day(doe as int);
        if mp == 11 {
            lemma_leap_of_era(era as int, yoe as int);
        }
    }
    (year, m as u32, d as u32)
}

/// Milliseconds in a day.
pub const MILLIS_PER_DAY: i64 = 86_400_000;

/// An instant as a date of the proleptic Gregorian calendar and a time of
/// day, in UTC.
#[derive(Debug, Clone, Copy, PartialEq, Eq, Structural)]
pub struct CivilTime {
    pub year: i64,
    pub month: u32,
    pub day: u32,
    pub hour: u32,
    pub minute: u32,
    pub second: u32,
    pub millisecond: u32,
}

impl CivilTime {
    /// Whether the fields name a date and a time of day.
    pub open spec fn is_valid(self) -> bool {
        &&& is_date(self.year as int, self.month as int, self.day as int)
        &&& self.hour < 24
        &&& self.minute < 60
        &&& self.second < 60
        &&& self.millisecond < 1000
    }

    /// The instant in milliseconds since 1970-01-01T00:00:00Z.
    pub open spec fn epoch_millis(self) -> int {
        (((day_number(self.year as int, self.month as int, self.day as int) * 24 + self.hour) * 60
            + self.minute) * 60 + self.second) * 1000 + self.millisecond
    }
}

/// The date and time of day, in UTC, of an instant given in milliseconds
/// since the Unix epoch. Instants before the epoch count backwards from it.
pub fn civil_time(millis: i64) -> (t: CivilTime)
    ensures
        t.is_valid(),
        t.epoch_millis() == millis,
{
    let quotient: i64 = millis / MILLIS_PER_DAY;
    let remainder: i64 = millis - quotient * MILLIS_PER_DAY;
    let (days, of_day): (i64, i64) = if remainder < 0 {
        (quotient - 1, remainder + MILLIS_PER_DAY)
    } else {
        (quotient, remainder)
    };
    assert(0 <= of_day < 86_400_000);
    assert(millis == days * 86_400_000 + of_day);
    let (year, month, day) = days_to_ymd(days);
    let millisecond = of_day % 1000;
    let seconds = of_day / 1000;
    let second = seconds % 60;
    let minutes = seconds / 60;
    let minute = minutes % 60;
    let hour = minutes / 60;
    CivilTime {
        year,
        month,
        day,
        hour: hour as u32,
        minute: minute as u32,
        second: second as u32,
        millisecond: millisecond as u32,
    }
}

} // verus!
