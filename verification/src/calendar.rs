//! Proleptic Gregorian calendar arithmetic (Howard Hinnant's days-from-civil
//! and civil-from-days algorithms), shared by the ISO-8601 reader and the log
//! timestamp writer.
use vstd::prelude::*;

verus! {

/// Days from 1970-01-01 to the civil date `y-m-d` (month 1 to 12).
pub open spec fn days_from_civil(y: int, m: int, d: int) -> int {
    let y2 = if m <= 2 { y - 1 } else { y };
    let era = y2 / 400;
    let yoe = y2 - era * 400;
    let mp = if m > 2 { m - 3 } else { m + 9 };
    let doy = (153 * mp + 2) / 5 + d - 1;
    let doe = yoe * 365 + yoe / 4 - yoe / 100 + doy;
    era * 146097 + doe - 719468
}

/// The civil date (year, month, day) of the day `z` days after 1970-01-01.
pub open spec fn civil_from_days(days: int) -> (int, int, int) {
    let z = days + 719468;
    let era = z / 146097;
    let doe = z - era * 146097;
    let yoe = (doe - doe / 1460 + doe / 36524 - doe / 146096) / 365;
    let y = yoe + era * 400;
    let doy = doe - (365 * yoe + yoe / 4 - yoe / 100);
    let mp = (5 * doy + 2) / 153;
    let d = doy - (153 * mp + 2) / 5 + 1;
    let m = if mp < 10 { mp + 3 } else { mp - 9 };
    (if m <= 2 { y + 1 } else { y }, m, d)
}

} // verus!

verus! {

/// Within one 400-year era: the year of era a day of era maps to is 0 to
/// 399, and the day of year left over is 0 to 365.
proof fn lemma_year_of_era(doe: int, a: int, b: int, c: int, yoe: int, q4: int, q100: int)
    requires
        0 <= doe < 146097,
        1460 * a <= doe < 1460 * a + 1460,
        36524 * b <= doe < 36524 * b + 36524,
        146096 * c <= doe < 146096 * c + 146096,
        365 * yoe <= doe - a + b - c < 365 * yoe + 365,
        4 * q4 <= yoe < 4 * q4 + 4,
        100 * q100 <= yoe < 100 * q100 + 100,
    ensures
        0 <= yoe <= 399,
        0 <= doe - (365 * yoe + q4 - q100) <= 365,
{
}

} // verus!

verus! {

/// The month index and day of month a day of year maps to stay in range.
proof fn lemma_month_of_year(doy: int, mp: int, e: int)
    requires
        0 <= doy <= 365,
        153 * mp <= 5 * doy + 2 < 153 * mp + 153,
        5 * e <= 153 * mp + 2 < 5 * e + 5,
    ensures
        0 <= mp <= 11,
        1 <= doy - e + 1 <= 31,
{
}

/// For every day from 1970-01-01 to 9999-12-31: the civil date it falls on
/// is a real date of a four-digit year, and counting the days to that date
/// gives the day back.
pub proof fn lemma_civil_round_trip(days: int)
    requires
        0 <= days <= 2932896,
    ensures
        0 <= civil_from_days(days).0 <= 9999,
        1 <= civil_from_days(days).1 <= 12,
        1 <= civil_from_days(days).2 <= 31,
        days_from_civil(civil_from_days(days).0, civil_from_days(days).1, civil_from_days(days).2) == days,
{
    let z = days + 719468;
    let era = z / 146097;
    let doe = z - era * 146097;
    assert(4 <= era <= 24 && 0 <= doe < 146097) by (nonlinear_arith)
        requires z == days + 719468, era == z / 146097, doe == z - era * 146097, 0 <= days <= 2932896;
    let a = doe / 1460;
    let b = doe / 36524;
    let c = doe / 146096;
    let yoe = (doe - a + b - c) / 365;
    let q4 = yoe / 4;
    let q100 = yoe / 100;
    lemma_year_of_era(doe, a, b, c, yoe, q4, q100);
    let y = yoe + era * 400;
    let doy = doe - (365 * yoe + q4 - q100);
    let mp = (5 * doy + 2) / 153;
    let e = (153 * mp + 2) / 5;
    lemma_month_of_year(doy, mp, e);
    let d = doy - e + 1;
    let m = if mp < 10 { mp + 3 } else { mp - 9 };
    let year = if m <= 2 { y + 1 } else { y };
    assert(civil_from_days(days) == (year, m, d));
    if era == 24 && yoe == 399 {
        assert(doe <= 146036);
        assert(mp <= 9);
    }
    assert(y / 400 == era) by (nonlinear_arith)
        requires y == yoe + era * 400, 0 <= yoe <= 399;
    let y2 = if m <= 2 { year - 1 } else { year };
    assert(y2 == y);
    assert(days_from_civil(year, m, d) == era * 146097 + (yoe * 365 + yoe / 4 - yoe / 100 + ((153 * mp + 2) / 5 + d - 1)) - 719468);
}

} // verus!
