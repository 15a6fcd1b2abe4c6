//! The timestamp the companion's log lines carry: a unix time rendered as
//! `YYYY-MM-DD HH:MM:SS` UTC, with no date crate behind it.
use vstd::prelude::*;
use crate::calendar::civil_from_days;
use crate::text::{digits, digit_char, push_u64, push_char};

verus! {

/// `n` zeros.
pub open spec fn zeros(n: int) -> Seq<char> {
    Seq::new(if n > 0 { n as nat } else { 0nat }, |i: int| '0')
}

/// How `{:0w}` writes an integer: a minus sign for a negative value, then its
/// digits, zero-padded on the left so that sign and digits fill `width`.
pub open spec fn padded(i: int, width: int) -> Seq<char> {
    if i < 0 {
        seq!['-'] + zeros(width - 1 - digits((-i) as nat).len()) + digits((-i) as nat)
    } else {
        zeros(width - digits(i as nat).len()) + digits(i as nat)
    }
}

/// `secs` after the epoch as `YYYY-MM-DD HH:MM:SS` UTC (proleptic Gregorian,
/// days and seconds of the day split by floor division).
pub open spec fn utc_text(secs: int) -> Seq<char> {
    let days = secs / 86400;
    let sod = secs % 86400;
    let ymd = civil_from_days(days);
    padded(ymd.0, 4) + "-"@ + padded(ymd.1, 2) + "-"@ + padded(ymd.2, 2) + " "@
        + padded(sod / 3600, 2) + ":"@ + padded((sod % 3600) / 60, 2) + ":"@ + padded(sod % 60, 2)
}

/// The number of decimal digits of `n`.
fn digit_count(n: u64) -> (r: u64)
    ensures
        r == digits(n as nat).len(),
        r <= n + 1,
    decreases n,
{
    if n < 10 {
        1
    } else {
        1 + digit_count(n / 10)
    }
}

/// Appends `n`, zero-padded to `width` characters the way `{:0width}` does.
fn push_padded(out: &mut String, n: i64, width: u64)
    ensures
        final(out)@ == old(out)@ + padded(n as int, width as int),
{
    let neg = n < 0;
    let mag: u64 = if neg { (0i128 - n as i128) as u64 } else { n as u64 };
    assert(mag as nat == if n < 0 { (-n) as nat } else { n as nat });
    let count = digit_count(mag);
    let used: u64 = if neg { count + 1 } else { count };
    let ghost start = out@;
    if neg {
        push_char(out, '-');
    }
    let ghost after_sign = out@;
    let fill: u64 = if width > used { width - used } else { 0 };
    let mut k: u64 = 0;
    while k < fill
        invariant
            k <= fill,
            out@ == after_sign + zeros(k as int),
        decreases fill - k,
    {
        push_char(out, '0');
        assert(after_sign + zeros(k + 1) =~= (after_sign + zeros(k as int)).push('0'));
        k = k + 1;
    }
    push_u64(out, mag);
    assert(zeros(fill as int) =~= zeros(if neg { width - 1 - count } else { width - count }));
    if neg {
        assert(out@ =~= start + padded(n as int, width as int));
    } else {
        assert(out@ =~= start + padded(n as int, width as int));
    }
}

/// The civil date of the day `z` days after 1970-01-01, for any day a
/// 64-bit count of seconds reaches.
fn civil_from_days_exec(z0: i64) -> (r: (i64, i64, i64))
    requires
        -200_000_000_000_000 <= z0 <= 200_000_000_000_000,
    ensures
        (r.0 as int, r.1 as int, r.2 as int) == civil_from_days(z0 as int),
{
    let z: i64 = z0 + 719_468;
    let shifted: i64 = if z >= 0 { z } else { z - 146_096 };
    let era: i64 = shifted / 146_097;
    assert(era == (z as int) / 146097) by (nonlinear_arith)
        requires
            shifted == (if z >= 0 { z as int } else { z - 146096 }),
            era == (if shifted >= 0 { shifted / 146097 } else { -((-shifted) / 146097) }),
    ;
    let doe: i64 = z - era * 146_097;
    assert(0 <= doe < 146097) by (nonlinear_arith)
        requires era == (z as int) / 146097, doe == z - era * 146097;
    let yoe: i64 = (doe - doe / 1460 + doe / 36_524 - doe / 146_096) / 365;
    assert(0 <= yoe <= 401) by (nonlinear_arith)
        requires 0 <= doe < 146097, yoe == (doe - doe / 1460 + doe / 36_524 - doe / 146_096) / 365;
    let y: i64 = yoe + era * 400;
    let doy: i64 = doe - (365 * yoe + yoe / 4 - yoe / 100);
    let mp: i64 = (5 * doy + 2) / 153;
    let d: i64 = doy - (153 * mp + 2) / 5 + 1;
    let m: i64 = if mp < 10 { mp + 3 } else { mp - 9 };
    let year: i64 = if m <= 2 { y + 1 } else { y };
    (year, m, d)
}

/// Renders a unix timestamp as `YYYY-MM-DD HH:MM:SS` UTC.
pub fn format_unix_utc(secs: i64) -> (r: String)
    ensures
        r@ == utc_text(secs as int),
{
    let q: i64 = secs / 86_400;
    let rem: i64 = secs % 86_400;
    let days: i64 = if rem < 0 { q - 1 } else { q };
    let sod: i64 = if rem < 0 { rem + 86_400 } else { rem };
    assert(days == (secs as int) / 86400 && sod == (secs as int) % 86400) by (nonlinear_arith)
        requires
            q == (if secs >= 0 { secs / 86400 } else { -((-secs) / 86400) }),
            rem == secs - q * 86400,
            days == (if rem < 0 { q - 1 } else { q as int }),
            sod == (if rem < 0 { rem + 86400 } else { rem as int }),
    ;
    assert(-200_000_000_000_000 <= days <= 200_000_000_000_000) by (nonlinear_arith)
        requires days == (secs as int) / 86400;
    let ymd = civil_from_days_exec(days);
    let mut out = String::new();
    push_padded(&mut out, ymd.0, 4);
    out.append("-");
    push_padded(&mut out, ymd.1, 2);
    out.append("-");
    push_padded(&mut out, ymd.2, 2);
    out.append(" ");
    push_padded(&mut out, sod / 3600, 2);
    out.append(":");
    push_padded(&mut out, (sod % 3600) / 60, 2);
    out.append(":");
    push_padded(&mut out, sod % 60, 2);
    out
}

} // verus!

verus! {

/// A number below 100 written `{:02}` is its tens and units digit.
pub proof fn lemma_padded_two(n: int)
    requires
        0 <= n <= 99,
    ensures
        padded(n, 2) == seq![digit_char(n / 10), digit_char(n % 10)],
{
    reveal_with_fuel(digits, 3);
    if n < 10 {
        assert(digits(n as nat) == seq![digit_char(n)]);
        assert(zeros(1) =~= seq!['0']);
        assert(digit_char(0) == '0');
        assert(padded(n, 2) =~= seq![digit_char(n / 10), digit_char(n % 10)]);
    } else {
        assert(digits((n / 10) as nat) == seq![digit_char(n / 10)]);
        assert(digits(n as nat) =~= seq![digit_char(n / 10), digit_char(n % 10)]);
        assert(zeros(0) =~= Seq::<char>::empty());
        assert(padded(n, 2) =~= seq![digit_char(n / 10), digit_char(n % 10)]);
    }
}

/// A number below 10000 written `{:04}` is its four digits.
pub proof fn lemma_padded_four(n: int)
    requires
        0 <= n <= 9999,
    ensures
        padded(n, 4) == seq![digit_char(n / 1000), digit_char((n / 100) % 10), digit_char((n / 10) % 10), digit_char(n % 10)],
{
    reveal_with_fuel(digits, 5);
    let want = seq![digit_char(n / 1000), digit_char((n / 100) % 10), digit_char((n / 10) % 10), digit_char(n % 10)];
    assert(digit_char(0) == '0');
    if n < 10 {
        assert(digits(n as nat) == seq![digit_char(n)]);
        assert(zeros(3) =~= seq!['0', '0', '0']);
        assert(padded(n, 4) =~= want);
    } else if n < 100 {
        assert(digits((n / 10) as nat) == seq![digit_char(n / 10)]);
        assert(digits(n as nat) =~= seq![digit_char(n / 10), digit_char(n % 10)]);
        assert(zeros(2) =~= seq!['0', '0']);
        assert(padded(n, 4) =~= want);
    } else if n < 1000 {
        assert(digits((n / 100) as nat) == seq![digit_char(n / 100)]);
        assert((n / 10) / 10 == n / 100 && (n / 10) % 10 == (n / 10) % 10);
        assert(digits((n / 10) as nat) =~= seq![digit_char(n / 100), digit_char((n / 10) % 10)]);
        assert(digits(n as nat) =~= seq![digit_char(n / 100), digit_char((n / 10) % 10), digit_char(n % 10)]);
        assert(zeros(1) =~= seq!['0']);
        assert(padded(n, 4) =~= want);
    } else {
        assert(digits((n / 1000) as nat) == seq![digit_char(n / 1000)]);
        assert((n / 100) / 10 == n / 1000);
        assert(digits((n / 100) as nat) =~= seq![digit_char(n / 1000), digit_char((n / 100) % 10)]);
        assert((n / 10) / 10 == n / 100);
        assert(digits((n / 10) as nat) =~= seq![digit_char(n / 1000), digit_char((n / 100) % 10), digit_char((n / 10) % 10)]);
        assert(digits(n as nat) =~= want);
        assert(zeros(0) =~= Seq::<char>::empty());
        assert(padded(n, 4) =~= want);
    }
}

} // verus!
