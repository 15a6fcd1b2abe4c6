//! The consumed subset of the companion's ledger summary and the sale rows the
//! in-game Sold tab renders, plus the strict UTC ISO-8601 reader both this and
//! the buy-runs renderer use.
use vstd::prelude::*;
use crate::calendar::{civil_from_days, days_from_civil, lemma_civil_round_trip};
use crate::logging::{lemma_padded_four, lemma_padded_two, utc_text};
use crate::text::{all_digit_bytes, digit_char, digits_value, is_digit_byte, pow10, str_eq};

verus! {

/// The consumed subset of the companion's ledger summary. `lastUploadedAt` is
/// not consumed: the file's own `generatedAt` is the only age the tab needs.
#[derive(Debug)]
pub struct WireSummary {
    pub pro: bool,
    pub days: u32,
    pub totals: WireTotals,
    pub recent: Vec<WireRecent>,
}

#[derive(Debug)]
pub struct WireTotals {
    pub proceeds_copper: i64,
    pub spent_copper: i64,
    pub pending_proceeds_copper: i64,
    pub sales_count: i64,
    /// Pro-only; absent on the free tier, and absent it stays: never a fake 0.
    pub realized_copper: Option<i64>,
    pub median_hold_seconds: Option<i64>,
}

#[derive(Debug)]
pub struct WireRecent {
    pub kind: String,
    pub item_id: Option<i64>,
    pub item_name: Option<String>,
    pub quantity: i64,
    pub total_copper: i64,
    pub cut_copper: i64,
    pub pending: bool,
    pub occurred_at: String,
    pub basis: Option<WireBasis>,
}

#[derive(Debug, Clone, Copy, PartialEq, Eq, Structural)]
pub struct WireBasis {
    pub matched_quantity: i64,
    pub unmatched_quantity: i64,
    pub cost_copper: i64,
    pub profit_copper: i64,
}

/// One renderable sale row: a sale out of `recent`, its timestamp already unix.
#[derive(Debug)]
pub struct SaleRow {
    pub name: String,
    pub item_id: Option<i64>,
    pub qty: i64,
    pub total: i64,
    pub cut: i64,
    pub pending: bool,
    pub at: i64,
    pub basis: Option<WireBasis>,
}

/// A recent row becomes a sale row when it is a sale and its timestamp reads;
/// a row whose timestamp does not read is dropped, never guessed.
pub open spec fn is_sale_row(r: WireRecent) -> bool {
    r.kind@ == "sale"@ && iso_utc_spec(vstd::utf8::encode_utf8(r.occurred_at@)) is Some
}

/// The recent rows that become sale rows, in order.
pub open spec fn sale_sources(rs: Seq<WireRecent>) -> Seq<WireRecent>
    decreases rs.len(),
{
    if rs.len() == 0 {
        Seq::empty()
    } else if is_sale_row(rs.last()) {
        sale_sources(rs.drop_last()).push(rs.last())
    } else {
        sale_sources(rs.drop_last())
    }
}

/// `row` is what `r` renders as: its name (or "Unknown item"), its numbers and
/// flags, and its timestamp in unix seconds.
pub open spec fn renders_as(row: SaleRow, r: WireRecent) -> bool {
    &&& row.name@ == (match r.item_name {
        Some(n) => n@,
        None => "Unknown item"@,
    })
    &&& row.item_id == r.item_id
    &&& row.qty == r.quantity
    &&& row.total == r.total_copper
    &&& row.cut == r.cut_copper
    &&& row.pending == r.pending
    &&& Some(row.at) == iso_utc_spec(vstd::utf8::encode_utf8(r.occurred_at@))
    &&& row.basis == r.basis
}

/// The sales of `recent`, in order, each with its timestamp as unix seconds.
pub fn sale_rows(summary: &WireSummary) -> (r: Vec<SaleRow>)
    ensures
        r@.len() == sale_sources(summary.recent@).len(),
        forall|i: int| 0 <= i < r@.len() ==> renders_as(#[trigger] r@[i], sale_sources(summary.recent@)[i]),
{
    let mut out: Vec<SaleRow> = Vec::new();
    let mut i: usize = 0;
    while i < summary.recent.len()
        invariant
            i <= summary.recent@.len(),
            out@.len() == sale_sources(summary.recent@.take(i as int)).len(),
            forall|j: int| 0 <= j < out@.len() ==> renders_as(#[trigger] out@[j], sale_sources(summary.recent@.take(i as int))[j]),
        decreases summary.recent.len() - i,
    {
        let r = &summary.recent[i];
        assert(summary.recent@.take(i + 1).drop_last() =~= summary.recent@.take(i as int));
        assert(summary.recent@.take(i + 1).last() == *r);
        if str_eq(r.kind.as_str(), "sale") {
            match parse_iso_utc(r.occurred_at.as_str()) {
                Some(at) => {
                    let name = match &r.item_name {
                        Some(n) => n.clone(),
                        None => String::from_str("Unknown item"),
                    };
                    let row = SaleRow {
                        name,
                        item_id: r.item_id,
                        qty: r.quantity,
                        total: r.total_copper,
                        cut: r.cut_copper,
                        pending: r.pending,
                        at,
                        basis: r.basis,
                    };
                    let ghost before = out@;
                    out.push(row);
                    assert forall|j: int| 0 <= j < out@.len() implies renders_as(#[trigger] out@[j], sale_sources(summary.recent@.take(i + 1))[j]) by {
                        if j < before.len() {
                            assert(out@[j] == before[j]);
                        }
                    }
                },
                None => {},
            }
        }
        i = i + 1;
    }
    assert(summary.recent@.take(i as int) =~= summary.recent@);
    out
}

/// `b[from..to]` is all ASCII digits.
pub open spec fn digits_at(b: Seq<u8>, from: int, to: int) -> bool {
    all_digit_bytes(b.subrange(from, to))
}

/// The value of the digits `b[from..to]`.
pub open spec fn value_at(b: Seq<u8>, from: int, to: int) -> int {
    digits_value(b.subrange(from, to)) as int
}

/// Between the seconds and the final `Z`: nothing, or `.` and at least one
/// digit (fractional seconds, which are not read).
pub open spec fn fraction_ok(b: Seq<u8>) -> bool {
    let tail = b.subrange(19, b.len() - 1);
    tail.len() == 0 || (tail.len() >= 2 && tail[0] == 46u8 && all_digit_bytes(tail.skip(1)))
}

/// What `parse_iso_utc` reads from the UTF-8 bytes of a timestamp: exactly
/// `YYYY-MM-DDTHH:MM:SS[.fff]Z`, every field plain ASCII digits, month 1 to
/// 12, day 1 to 31, hour at most 23, minute and second at most 59; the
/// result in unix seconds, fractional seconds dropped. Anything else, an
/// offset form among them, is refused.
pub open spec fn iso_utc_spec(b: Seq<u8>) -> Option<i64> {
    if b.len() < 20 || b.last() != 90u8 {
        None
    } else if b[4] != 45u8 || b[7] != 45u8 || b[10] != 84u8 || b[13] != 58u8 || b[16] != 58u8 {
        None
    } else if !(digits_at(b, 0, 4) && digits_at(b, 5, 7) && digits_at(b, 8, 10) && digits_at(b, 11, 13)
        && digits_at(b, 14, 16) && digits_at(b, 17, 19)) {
        None
    } else if !fraction_ok(b) {
        None
    } else {
        let (y, mo, d, h, mi, se) = (value_at(b, 0, 4), value_at(b, 5, 7), value_at(b, 8, 10),
            value_at(b, 11, 13), value_at(b, 14, 16), value_at(b, 17, 19));
        if !(1 <= mo <= 12) || !(1 <= d <= 31) || h > 23 || mi > 59 || se > 59 {
            None
        } else {
            Some((days_from_civil(y, mo, d) * 86400 + h * 3600 + mi * 60 + se) as i64)
        }
    }
}

/// Reads `b[from..to]` (at most four bytes) as plain ASCII digits.
fn digits_in(b: &[u8], from: usize, to: usize) -> (r: Option<i64>)
    requires
        from <= to <= b@.len(),
        to - from <= 4,
    ensures
        match r {
            Some(v) => digits_at(b@, from as int, to as int) && v == value_at(b@, from as int, to as int)
                && 0 <= v < pow10((to - from) as nat),
            None => !digits_at(b@, from as int, to as int),
        },
{
    let mut acc: i64 = 0;
    let mut i: usize = from;
    while i < to
        invariant
            from <= i <= to <= b@.len(),
            to - from <= 4,
            all_digit_bytes(b@.subrange(from as int, i as int)),
            acc == digits_value(b@.subrange(from as int, i as int)),
            acc < pow10((i - from) as nat),
        decreases to - i,
    {
        let c = b[i];
        if !(48u8 <= c && c <= 57u8) {
            assert(b@.subrange(from as int, to as int)[i - from] == c);
            return None;
        }
        let ghost prev = b@.subrange(from as int, i as int);
        assert(b@.subrange(from as int, i + 1).drop_last() =~= prev);
        proof {
            reveal_with_fuel(pow10, 5);
            assert(acc * 10 + (c - 48) < pow10((i + 1 - from) as nat)) by (nonlinear_arith)
                requires acc < pow10((i - from) as nat), 0 <= c - 48 <= 9,
                    pow10((i + 1 - from) as nat) == 10 * pow10((i - from) as nat);
            assert(pow10((i - from) as nat) <= 1000);
        }
        acc = acc * 10 + (c - 48u8) as i64;
        i = i + 1;
        assert(all_digit_bytes(b@.subrange(from as int, i as int))) by {
            assert forall|k: int| 0 <= k < i - from implies is_digit_byte(#[trigger] b@.subrange(from as int, i as int)[k]) by {
                if k < i - 1 - from {
                    assert(b@.subrange(from as int, i as int)[k] == prev[k]);
                }
            }
        }
    }
    Some(acc)
}

/// Whether the bytes between the seconds and the final `Z` are empty or a `.`
/// followed by digits.
fn fraction_in(b: &[u8]) -> (r: bool)
    requires
        b@.len() >= 20,
    ensures
        r == fraction_ok(b@),
{
    let n = b.len();
    let ghost tail = b@.subrange(19, n - 1);
    if n == 20 {
        return true;
    }
    if n < 22 || b[19] != 46u8 {
        assert(tail.len() < 2 || tail[0] != 46u8);
        return false;
    }
    let mut i: usize = 20;
    while i < n - 1
        invariant
            20 <= i <= n - 1,
            n == b@.len(),
            tail == b@.subrange(19, n - 1),
            forall|k: int| 20 <= k < i ==> is_digit_byte(#[trigger] b@[k]),
        decreases n - 1 - i,
    {
        if !(48u8 <= b[i] && b[i] <= 57u8) {
            assert(tail.skip(1)[i - 20] == b@[i as int]);
            return false;
        }
        i = i + 1;
    }
    assert forall|k: int| 0 <= k < tail.skip(1).len() implies is_digit_byte(#[trigger] tail.skip(1)[k]) by {
        assert(tail.skip(1)[k] == b@[k + 20]);
    }
    true
}

/// Days from civil with exact integer steps, for a year in -1000..=10000.
fn days_from_civil_exec(y: i64, m: i64, d: i64) -> (r: i64)
    requires
        -1000 <= y <= 10000,
        1 <= m <= 12,
        1 <= d <= 31,
    ensures
        r == days_from_civil(y as int, m as int, d as int),
{
    let y2: i64 = if m <= 2 { y - 1 } else { y };
    let era: i64 = if y2 >= 0 { y2 / 400 } else { 0 - ((399 - y2) / 400) };
    assert(era == (y2 as int) / 400) by (nonlinear_arith)
        requires
            era == (if y2 >= 0 { y2 / 400 } else { 0 - ((399 - y2) / 400) }),
            -1001 <= y2 <= 10000,
    ;
    assert(-3 <= era <= 25) by (nonlinear_arith)
        requires era == (y2 as int) / 400, -1001 <= y2 <= 10000;
    let yoe: i64 = y2 - era * 400;
    assert(0 <= yoe < 400) by (nonlinear_arith)
        requires era == (y2 as int) / 400, yoe == y2 - era * 400;
    let mp: i64 = if m > 2 { m - 3 } else { m + 9 };
    let doy: i64 = (153 * mp + 2) / 5 + d - 1;
    let doe: i64 = yoe * 365 + yoe / 4 - yoe / 100 + doy;
    era * 146097 + doe - 719468
}

/// Parses the strict UTC ISO-8601 shape the API emits
/// (`YYYY-MM-DDTHH:MM:SS[.fff]Z`) to unix seconds; fractional seconds are
/// ignored and offset forms are refused.
pub fn parse_iso_utc(s: &str) -> (r: Option<i64>)
    ensures
        r == iso_utc_spec(vstd::utf8::encode_utf8(s@)),
{
    let b = s.as_bytes();
    let n = b.len();
    if n < 20 || b[n - 1] != 90u8 {
        return None;
    }
    if b[4] != 45u8 || b[7] != 45u8 || b[10] != 84u8 || b[13] != 58u8 || b[16] != 58u8 {
        return None;
    }
    let y = match digits_in(b, 0, 4) { Some(v) => v, None => { return None; } };
    let mo = match digits_in(b, 5, 7) { Some(v) => v, None => { return None; } };
    let d = match digits_in(b, 8, 10) { Some(v) => v, None => { return None; } };
    let h = match digits_in(b, 11, 13) { Some(v) => v, None => { return None; } };
    let mi = match digits_in(b, 14, 16) { Some(v) => v, None => { return None; } };
    let se = match digits_in(b, 17, 19) { Some(v) => v, None => { return None; } };
    if !fraction_in(b) {
        return None;
    }
    proof {
        reveal_with_fuel(pow10, 5);
    }
    if !(1 <= mo && mo <= 12) || !(1 <= d && d <= 31) || h > 23 || mi > 59 || se > 59 {
        return None;
    }
    let days = days_from_civil_exec(y, mo, d);
    Some(days * 86400 + h * 3600 + mi * 60 + se)
}

} // verus!

verus! {

/// A decimal digit is one ASCII byte, its value plus 48.
proof fn lemma_digit_char_byte(k: int)
    requires
        0 <= k <= 9,
    ensures
        digit_char(k) as u8 == 48 + k,
        '\0' <= digit_char(k) <= '\u{7f}',
{
}

/// Two bytes holding the tens and units digit of `n` read back as `n`.
proof fn lemma_two_digit_bytes(b: Seq<u8>, from: int, n: int)
    requires
        0 <= n <= 99,
        0 <= from,
        from + 2 <= b.len(),
        b[from] == 48 + n / 10,
        b[from + 1] == 48 + n % 10,
    ensures
        digits_at(b, from, from + 2),
        value_at(b, from, from + 2) == n,
{
    let s = b.subrange(from, from + 2);
    assert(s.drop_last().drop_last() =~= Seq::<u8>::empty());
    reveal_with_fuel(digits_value, 3);
    assert(digits_value(s) == (n / 10) * 10 + n % 10);
}

/// Four bytes holding the digits of `n` read back as `n`.
proof fn lemma_four_digit_bytes(b: Seq<u8>, from: int, n: int)
    requires
        0 <= n <= 9999,
        0 <= from,
        from + 4 <= b.len(),
        b[from] == 48 + n / 1000,
        b[from + 1] == 48 + (n / 100) % 10,
        b[from + 2] == 48 + (n / 10) % 10,
        b[from + 3] == 48 + n % 10,
    ensures
        digits_at(b, from, from + 4),
        value_at(b, from, from + 4) == n,
{
    let s = b.subrange(from, from + 4);
    assert(s.drop_last().drop_last().drop_last().drop_last() =~= Seq::<u8>::empty());
    reveal_with_fuel(digits_value, 5);
    assert(((n / 1000) * 10 + (n / 100) % 10) * 10 + (n / 10) % 10 == n / 10);
    assert(digits_value(s) == (n / 10) * 10 + n % 10);
}

/// The ISO form of a time in four-digit years, character by character.
pub open spec fn iso_chars(y: int, m: int, d: int, h: int, mi: int, se: int) -> Seq<char> {
    seq![digit_char(y / 1000), digit_char((y / 100) % 10), digit_char((y / 10) % 10), digit_char(y % 10), '-',
        digit_char(m / 10), digit_char(m % 10), '-', digit_char(d / 10), digit_char(d % 10), 'T',
        digit_char(h / 10), digit_char(h % 10), ':', digit_char(mi / 10), digit_char(mi % 10), ':',
        digit_char(se / 10), digit_char(se % 10), 'Z']
}

/// The UTF-8 bytes of those characters: one byte each, the separators in
/// place and every field the digits of its value.
proof fn lemma_iso_bytes(y: int, m: int, d: int, h: int, mi: int, se: int)
    requires
        0 <= y <= 9999,
        0 <= m <= 99,
        0 <= d <= 99,
        0 <= h <= 99,
        0 <= mi <= 99,
        0 <= se <= 99,
    ensures
        ({
            let b = vstd::utf8::encode_utf8(iso_chars(y, m, d, h, mi, se));
            &&& b.len() == 20
            &&& b[4] == 45 && b[7] == 45 && b[10] == 84 && b[13] == 58 && b[16] == 58 && b[19] == 90
            &&& digits_at(b, 0, 4) && value_at(b, 0, 4) == y
            &&& digits_at(b, 5, 7) && value_at(b, 5, 7) == m
            &&& digits_at(b, 8, 10) && value_at(b, 8, 10) == d
            &&& digits_at(b, 11, 13) && value_at(b, 11, 13) == h
            &&& digits_at(b, 14, 16) && value_at(b, 14, 16) == mi
            &&& digits_at(b, 17, 19) && value_at(b, 17, 19) == se
        }),
{
    let c = iso_chars(y, m, d, h, mi, se);
    let ks = seq![y / 1000, (y / 100) % 10, (y / 10) % 10, y % 10, m / 10, m % 10, d / 10, d % 10,
        h / 10, h % 10, mi / 10, mi % 10, se / 10, se % 10];
    assert forall|j: int| 0 <= j < 14 implies digit_char(#[trigger] ks[j]) as u8 == 48 + ks[j]
        && '\0' <= digit_char(ks[j]) <= '\u{7f}' by {
        lemma_digit_char_byte(ks[j]);
    }
    assert(c[0] == digit_char(ks[0]) && c[1] == digit_char(ks[1]) && c[2] == digit_char(ks[2]) && c[3] == digit_char(ks[3]));
    assert(c[5] == digit_char(ks[4]) && c[6] == digit_char(ks[5]) && c[8] == digit_char(ks[6]) && c[9] == digit_char(ks[7]));
    assert(c[11] == digit_char(ks[8]) && c[12] == digit_char(ks[9]) && c[14] == digit_char(ks[10]) && c[15] == digit_char(ks[11]));
    assert(c[17] == digit_char(ks[12]) && c[18] == digit_char(ks[13]));
    assert(vstd::utf8::is_ascii_chars(c));
    vstd::utf8::is_ascii_chars_encode_utf8(c);
    let b = vstd::utf8::encode_utf8(c);
    assert(b[0] == c[0] as u8 && b[1] == c[1] as u8 && b[2] == c[2] as u8 && b[3] == c[3] as u8);
    assert(b[5] == c[5] as u8 && b[6] == c[6] as u8 && b[8] == c[8] as u8 && b[9] == c[9] as u8);
    assert(b[11] == c[11] as u8 && b[12] == c[12] as u8 && b[14] == c[14] as u8 && b[15] == c[15] as u8);
    assert(b[17] == c[17] as u8 && b[18] == c[18] as u8);
    assert(b[4] == c[4] as u8 && b[7] == c[7] as u8 && b[10] == c[10] as u8);
    assert(b[13] == c[13] as u8 && b[16] == c[16] as u8 && b[19] == c[19] as u8);
    lemma_four_digit_bytes(b, 0, y);
    lemma_two_digit_bytes(b, 5, m);
    lemma_two_digit_bytes(b, 8, d);
    lemma_two_digit_bytes(b, 11, h);
    lemma_two_digit_bytes(b, 14, mi);
    lemma_two_digit_bytes(b, 17, se);
}

/// A 20-byte timestamp of that shape, with its fields in range, is read as
/// the instant its fields name.
proof fn lemma_iso_accepts(b: Seq<u8>, y: int, m: int, d: int, h: int, mi: int, se: int, secs: int)
    requires
        b.len() == 20,
        b[4] == 45 && b[7] == 45 && b[10] == 84 && b[13] == 58 && b[16] == 58 && b[19] == 90,
        digits_at(b, 0, 4) && value_at(b, 0, 4) == y,
        digits_at(b, 5, 7) && value_at(b, 5, 7) == m,
        digits_at(b, 8, 10) && value_at(b, 8, 10) == d,
        digits_at(b, 11, 13) && value_at(b, 11, 13) == h,
        digits_at(b, 14, 16) && value_at(b, 14, 16) == mi,
        digits_at(b, 17, 19) && value_at(b, 17, 19) == se,
        1 <= m <= 12 && 1 <= d <= 31 && 0 <= h <= 23 && 0 <= mi <= 59 && 0 <= se <= 59,
        secs == days_from_civil(y, m, d) * 86400 + h * 3600 + mi * 60 + se,
    ensures
        iso_utc_spec(b) == Some(secs as i64),
{
    assert(b.subrange(19, 19).len() == 0);
    assert(fraction_ok(b));
}

/// A second of the day split into hour, minute and second.
proof fn lemma_split_day(sod: int)
    requires
        0 <= sod < 86400,
    ensures
        0 <= sod / 3600 <= 23,
        0 <= (sod % 3600) / 60 <= 59,
        0 <= sod % 60 <= 59,
        sod == (sod / 3600) * 3600 + ((sod % 3600) / 60) * 60 + sod % 60,
{
    assert(sod % 60 == (sod % 3600) % 60) by (nonlinear_arith)
        requires 0 <= sod < 86400;
}

/// The log timestamp of `t` with `T` and `Z` put in is the ISO form of its
/// date and time of day, whose fields name `t` again.
proof fn lemma_stamp_chars(t: int) -> (f: (int, int, int, int, int, int))
    requires
        0 <= t <= 253402300799,
    ensures
        utc_text(t).update(10, 'T').push('Z') == iso_chars(f.0, f.1, f.2, f.3, f.4, f.5),
        0 <= f.0 <= 9999 && 1 <= f.1 <= 12 && 1 <= f.2 <= 31,
        0 <= f.3 <= 23 && 0 <= f.4 <= 59 && 0 <= f.5 <= 59,
        t == days_from_civil(f.0, f.1, f.2) * 86400 + f.3 * 3600 + f.4 * 60 + f.5,
{
    let days = t / 86400;
    let sod = t % 86400;
    lemma_civil_round_trip(days);
    let ymd = civil_from_days(days);
    let (y, m, d) = (ymd.0, ymd.1, ymd.2);
    lemma_split_day(sod);
    let h = sod / 3600;
    let mi = (sod % 3600) / 60;
    let se = sod % 60;
    lemma_padded_four(y);
    lemma_padded_two(m);
    lemma_padded_two(d);
    lemma_padded_two(h);
    lemma_padded_two(mi);
    lemma_padded_two(se);
    reveal_strlit("-");
    reveal_strlit(" ");
    reveal_strlit(":");
    let u = utc_text(t);
    assert(u =~= seq![digit_char(y / 1000), digit_char((y / 100) % 10), digit_char((y / 10) % 10),
        digit_char(y % 10), '-', digit_char(m / 10), digit_char(m % 10), '-', digit_char(d / 10),
        digit_char(d % 10), ' ', digit_char(h / 10), digit_char(h % 10), ':', digit_char(mi / 10),
        digit_char(mi % 10), ':', digit_char(se / 10), digit_char(se % 10)]);
    assert(u.update(10, 'T').push('Z') =~= iso_chars(y, m, d, h, mi, se));
    (y, m, d, h, mi, se)
}

/// What the log timestamp writer renders, with `T` between date and time
/// and a final `Z`, reads back as the same instant: for every time from
/// 1970-01-01T00:00:00Z to 9999-12-31T23:59:59Z.
pub proof fn lemma_iso_round_trip(t: int)
    requires
        0 <= t <= 253402300799,
    ensures
        iso_utc_spec(vstd::utf8::encode_utf8(utc_text(t).update(10, 'T').push('Z'))) == Some(t as i64),
{
    let f = lemma_stamp_chars(t);
    lemma_iso_bytes(f.0, f.1, f.2, f.3, f.4, f.5);
    lemma_iso_accepts(vstd::utf8::encode_utf8(iso_chars(f.0, f.1, f.2, f.3, f.4, f.5)), f.0, f.1, f.2, f.3, f.4, f.5, t);
}

} // verus!
