//! Character-level text helpers shared by the renderers and parsers: reading a
//! string as its characters, appending to an output string, and the decimal
//! forms of integers.
use vstd::prelude::*;

verus! {

broadcast use vstd::string::group_string_axioms;

/// The characters of `s`, in order.
pub fn chars_of(s: &str) -> (v: Vec<char>)
    ensures
        v@ == s@,
{
    let mut v: Vec<char> = Vec::new();
    for c in it: s.chars()
        invariant
            it.seq() == s@,
            v@ == it.seq().take(it.index()),
    {
        v.push(c);
    }
    v
}

/// Appends one character to `s` (std's `String::push`).
#[verifier::external_body]
pub(crate) fn push_char(s: &mut String, c: char)
    ensures
        final(s)@ == old(s)@.push(c),
{
    s.push(c);
}

/// The ASCII digit for `d` (0 to 9).
pub open spec fn digit_char(d: int) -> char {
    (48 + d) as char
}

/// The decimal digits of `n`, most significant first, with no leading zeros.
pub open spec fn digits(n: nat) -> Seq<char>
    decreases n,
{
    if n < 10 {
        seq![digit_char(n as int)]
    } else {
        digits(n / 10).push(digit_char((n % 10) as int))
    }
}

/// How Rust's `Display` writes an integer: a minus sign for a negative value,
/// then its digits.
pub open spec fn int_text(i: int) -> Seq<char> {
    if i < 0 {
        seq!['-'] + digits((-i) as nat)
    } else {
        digits(i as nat)
    }
}

/// Appends the decimal digits of `n`.
pub fn push_u64(out: &mut String, n: u64)
    ensures
        final(out)@ == old(out)@ + digits(n as nat),
{
    push_digits(out, n);
}

fn push_digits(out: &mut String, n: u64)
    ensures
        final(out)@ == old(out)@ + digits(n as nat),
    decreases n,
{
    if n >= 10 {
        push_digits(out, n / 10);
    }
    let d: u64 = n % 10;
    let c: char = if d == 0 { '0' } else if d == 1 { '1' } else if d == 2 { '2' } else if d == 3 { '3' }
        else if d == 4 { '4' } else if d == 5 { '5' } else if d == 6 { '6' } else if d == 7 { '7' }
        else if d == 8 { '8' } else { '9' };
    push_char(out, c);
    assert(out@ =~= old(out)@ + digits(n as nat));
}

/// Appends the decimal form of `n`.
pub fn push_i64(out: &mut String, n: i64)
    ensures
        final(out)@ == old(out)@ + int_text(n as int),
{
    if n < 0 {
        push_char(out, '-');
        let m: u64 = (0i128 - n as i128) as u64;
        push_digits(out, m);
        assert(out@ =~= old(out)@ + int_text(n as int));
    } else {
        push_digits(out, n as u64);
    }
}

} // verus!

verus! {

/// Whether `b` is an ASCII decimal digit.
pub open spec fn is_digit_byte(b: u8) -> bool {
    48 <= b <= 57
}

pub open spec fn all_digit_bytes(s: Seq<u8>) -> bool {
    forall|i: int| 0 <= i < s.len() ==> is_digit_byte(#[trigger] s[i])
}

/// The value of a run of ASCII digits, most significant first.
pub open spec fn digits_value(s: Seq<u8>) -> nat
    decreases s.len(),
{
    if s.len() == 0 {
        0
    } else {
        digits_value(s.drop_last()) * 10 + (s.last() - 48) as nat
    }
}

/// What std's integer `FromStr` reads from these bytes, before the range
/// check: one optional leading `+` or `-`, then at least one ASCII digit and
/// nothing else.
pub open spec fn parse_int_spec(s: Seq<u8>) -> Option<int> {
    if s.len() == 0 {
        None
    } else if s[0] == 45u8 || s[0] == 43u8 {
        let t = s.skip(1);
        if t.len() > 0 && all_digit_bytes(t) {
            if s[0] == 45u8 {
                Some(-(digits_value(t) as int))
            } else {
                Some(digits_value(t) as int)
            }
        } else {
            None
        }
    } else if all_digit_bytes(s) {
        Some(digits_value(s) as int)
    } else {
        None
    }
}

/// `str::parse::<i64>` on these bytes: `None` on a malformed number and on one
/// that does not fit in an `i64`.
pub open spec fn parse_i64_spec(s: Seq<u8>) -> Option<i64> {
    match parse_int_spec(s) {
        Some(v) => if i64::MIN <= v <= i64::MAX {
            Some(v as i64)
        } else {
            None
        },
        None => None,
    }
}

spec fn capped(x: int, cap: int) -> int {
    if x < cap {
        x
    } else {
        cap
    }
}

proof fn lemma_digits_value_step(s: Seq<u8>, k: int)
    requires
        0 <= k < s.len(),
    ensures
        digits_value(s.subrange(0, k + 1)) == digits_value(s.subrange(0, k)) * 10 + (s[k] - 48) as nat,
{
    assert(s.subrange(0, k + 1).drop_last() =~= s.subrange(0, k));
}

/// Reads `s[from..to]` as std's `str::parse::<i64>` would.
pub fn parse_i64_bytes(s: &[u8], from: usize, to: usize) -> (r: Option<i64>)
    requires
        from <= to <= s@.len(),
    ensures
        r == parse_i64_spec(s@.subrange(from as int, to as int)),
{
    let ghost whole = s@.subrange(from as int, to as int);
    if from == to {
        return None;
    }
    let first = s[from];
    let mut start = from;
    if first == 45u8 || first == 43u8 {
        start = from + 1;
        if start == to {
            return None;
        }
    }
    let ghost body = s@.subrange(start as int, to as int);
    assert(whole[0] == first);
    assert(start > from ==> body =~= whole.skip(1));
    assert(start == from ==> body =~= whole);
    assert(start == from ==> !(first == 45u8 || first == 43u8));
    // 2^63 + 1: any magnitude at or above it fits neither sign.
    let cap: u128 = 9223372036854775809u128;
    let mut acc: u128 = 0;
    let mut i = start;
    while i < to
        invariant
            start <= i <= to,
            from <= start < to,
            to <= s@.len(),
            cap == 9223372036854775809u128,
            body == s@.subrange(start as int, to as int),
            whole == s@.subrange(from as int, to as int),
            whole[0] == first,
            start == from ==> body == whole && !(first == 45u8 || first == 43u8),
            start > from ==> body == whole.skip(1) && (first == 45u8 || first == 43u8),
            all_digit_bytes(s@.subrange(start as int, i as int)),
            acc as int == capped(digits_value(s@.subrange(start as int, i as int)) as int, cap as int),
        decreases to - i,
    {
        let b = s[i];
        if !(48u8 <= b && b <= 57u8) {
            assert(body[i - start] == b);
            assert(!all_digit_bytes(body));
            return None;
        }
        proof {
            lemma_digits_value_step(s@.subrange(start as int, to as int), (i - start) as int);
            assert(s@.subrange(start as int, to as int).subrange(0, (i - start) as int)
                =~= s@.subrange(start as int, i as int));
            assert(s@.subrange(start as int, to as int).subrange(0, (i - start + 1) as int)
                =~= s@.subrange(start as int, i + 1));
        }
        let d = (b - 48u8) as u128;
        let next = acc * 10 + d;
        acc = if next < cap { next } else { cap };
        i = i + 1;
        assert(all_digit_bytes(s@.subrange(start as int, i as int)));
    }
    assert(s@.subrange(start as int, i as int) =~= body);
    if first == 45u8 {
        if acc <= 9223372036854775808u128 {
            let v: i128 = 0i128 - acc as i128;
            Some(v as i64)
        } else {
            None
        }
    } else {
        if acc <= 9223372036854775807u128 {
            Some(acc as i64)
        } else {
            None
        }
    }
}

} // verus!

verus! {

pub open spec fn pow10(n: nat) -> nat
    decreases n,
{
    if n == 0 {
        1
    } else {
        10 * pow10((n - 1) as nat)
    }
}

/// A run of `n` digits is worth less than `10^n`.
pub proof fn lemma_digits_value_bound(s: Seq<u8>)
    requires
        all_digit_bytes(s),
    ensures
        digits_value(s) < pow10(s.len()),
    decreases s.len(),
{
    if s.len() > 0 {
        let t = s.drop_last();
        assert(all_digit_bytes(t)) by {
            assert forall|i: int| 0 <= i < t.len() implies is_digit_byte(#[trigger] t[i]) by {
                assert(t[i] == s[i]);
            }
        }
        lemma_digits_value_bound(t);
        assert(is_digit_byte(s[s.len() - 1]));
        let a = digits_value(t);
        let p = pow10(t.len());
        assert(a * 10 + (s.last() - 48) < p * 10) by (nonlinear_arith)
            requires a < p, s.last() - 48 <= 9, s.last() - 48 >= 0;
    }
}

/// What a field of `n` bytes can parse to: a magnitude below `10^n`, or
/// `10^(n-1)` with a sign in front.
pub proof fn lemma_parse_bound(s: Seq<u8>)
    requires
        parse_int_spec(s) is Some,
    ensures
        s[0] == 45u8 || s[0] == 43u8 ==> -(pow10((s.len() - 1) as nat) as int) < parse_int_spec(s)->0 < pow10((s.len() - 1) as nat),
        !(s[0] == 45u8 || s[0] == 43u8) ==> 0 <= parse_int_spec(s)->0 < pow10(s.len()),
{
    if s[0] == 45u8 || s[0] == 43u8 {
        lemma_digits_value_bound(s.skip(1));
    } else {
        lemma_digits_value_bound(s);
    }
}

} // verus!

verus! {

/// Unicode `White_Space`, which is what `char::is_whitespace` and `str::trim` go by.
pub open spec fn is_whitespace_spec(c: char) -> bool {
    c == ' ' || ('\t' <= c && c <= '\r') || c == '\u{85}' || c == '\u{a0}' || c == '\u{1680}'
        || ('\u{2000}' <= c && c <= '\u{200a}') || c == '\u{2028}' || c == '\u{2029}'
        || c == '\u{202f}' || c == '\u{205f}' || c == '\u{3000}'
}

/// `char::is_whitespace`.
pub fn is_whitespace(c: char) -> (r: bool)
    ensures
        r == is_whitespace_spec(c),
{
    c == ' ' || ('\t' <= c && c <= '\r') || c == '\u{85}' || c == '\u{a0}' || c == '\u{1680}'
        || ('\u{2000}' <= c && c <= '\u{200a}') || c == '\u{2028}' || c == '\u{2029}'
        || c == '\u{202f}' || c == '\u{205f}' || c == '\u{3000}'
}

/// `s` without its leading whitespace.
pub open spec fn trim_start_seq(s: Seq<char>) -> Seq<char>
    decreases s.len(),
{
    if s.len() > 0 && is_whitespace_spec(s[0]) {
        trim_start_seq(s.drop_first())
    } else {
        s
    }
}

/// `s` without its trailing whitespace.
pub open spec fn trim_end_seq(s: Seq<char>) -> Seq<char>
    decreases s.len(),
{
    if s.len() > 0 && is_whitespace_spec(s.last()) {
        trim_end_seq(s.drop_last())
    } else {
        s
    }
}

/// `str::trim`: whitespace removed from both ends.
pub open spec fn trim_seq(s: Seq<char>) -> Seq<char> {
    trim_end_seq(trim_start_seq(s))
}

/// The bounds of `v` with whitespace trimmed from both ends.
pub fn trim_bounds(v: &Vec<char>) -> (r: (usize, usize))
    ensures
        r.0 <= r.1 <= v@.len(),
        v@.subrange(r.0 as int, r.1 as int) == trim_seq(v@),
{
    let n = v.len();
    let mut a: usize = 0;
    assert(v@.subrange(0, n as int) =~= v@);
    while a < n && is_whitespace(v[a])
        invariant
            a <= n == v@.len(),
            trim_start_seq(v@) == trim_start_seq(v@.subrange(a as int, n as int)),
        decreases n - a,
    {
        assert(v@.subrange(a as int, n as int).drop_first() =~= v@.subrange(a + 1, n as int));
        a = a + 1;
    }
    assert(trim_start_seq(v@.subrange(a as int, n as int)) == v@.subrange(a as int, n as int));
    let mut b: usize = n;
    while b > a && is_whitespace(v[b - 1])
        invariant
            a <= b <= n == v@.len(),
            trim_seq(v@) == trim_end_seq(v@.subrange(a as int, b as int)),
        decreases b - a,
    {
        assert(v@.subrange(a as int, b as int).drop_last() =~= v@.subrange(a as int, b - 1));
        b = b - 1;
    }
    (a, b)
}

/// Comma-separated concatenation, the way the Lua renderers join table items.
pub open spec fn join(parts: Seq<Seq<char>>) -> Seq<char>
    decreases parts.len(),
{
    if parts.len() == 0 {
        Seq::empty()
    } else if parts.len() == 1 {
        parts[0]
    } else {
        join(parts.drop_last()) + ", "@ + parts.last()
    }
}

pub proof fn lemma_join_push(parts: Seq<Seq<char>>, p: Seq<char>)
    ensures
        join(parts.push(p)) == if parts.len() == 0 {
            p
        } else {
            join(parts) + ", "@ + p
        },
{
    assert(parts.push(p).drop_last() =~= parts);
}

/// How `Display` writes a `bool`.
pub open spec fn bool_text(b: bool) -> Seq<char> {
    if b {
        "true"@
    } else {
        "false"@
    }
}

pub fn push_bool(out: &mut String, b: bool)
    ensures
        final(out)@ == old(out)@ + bool_text(b),
{
    if b {
        out.append("true");
    } else {
        out.append("false");
    }
}

/// What `format!("{:?}", s)` writes for a string: its quoted, escaped form.
pub uninterp spec fn debug_text(s: Seq<char>) -> Seq<char>;

/// The `Debug` form of a string (std's `<str as Debug>::fmt` via `format!`).
#[verifier::external_body]
pub(crate) fn debug_quoted(s: &str) -> (r: String)
    ensures
        r@ == debug_text(s@),
{
    format!("{:?}", s)
}

} // verus!

verus! {

/// Whether two strings hold the same characters.
pub fn str_eq(a: &str, b: &str) -> (r: bool)
    ensures
        r == (a@ == b@),
{
    let x = chars_of(a);
    let y = chars_of(b);
    if x.len() != y.len() {
        return false;
    }
    let mut i: usize = 0;
    while i < x.len()
        invariant
            i <= x@.len() == y@.len(),
            x@ == a@,
            y@ == b@,
            forall|j: int| 0 <= j < i ==> x@[j] == y@[j],
        decreases x.len() - i,
    {
        if x[i] != y[i] {
            assert(x@[i as int] != y@[i as int]);
            return false;
        }
        i = i + 1;
    }
    assert(x@ =~= y@);
    true
}

} // verus!

verus! {

/// `char::to_ascii_lowercase`.
pub open spec fn ascii_lower_char(c: char) -> char {
    if 'A' <= c && c <= 'Z' {
        ((c as u32) + 32) as char
    } else {
        c
    }
}

/// `str::to_ascii_lowercase`.
pub open spec fn ascii_lower(s: Seq<char>) -> Seq<char> {
    s.map_values(|c: char| ascii_lower_char(c))
}

/// The string with ASCII letters lowercased and everything else kept.
pub fn to_ascii_lowercase(s: &str) -> (r: String)
    ensures
        r@ == ascii_lower(s@),
{
    let v = chars_of(s);
    let mut out = String::new();
    let mut i: usize = 0;
    while i < v.len()
        invariant
            i <= v@.len(),
            v@ == s@,
            out@ == ascii_lower(v@.take(i as int)),
        decreases v.len() - i,
    {
        let c = v[i];
        let l = if 'A' <= c && c <= 'Z' { ((c as u32) + 32) as u8 as char } else { c };
        assert(l == ascii_lower_char(c)) by {
            if 'A' <= c && c <= 'Z' {
                assert(((c as u32) + 32) as u8 as char == ((c as u32) + 32) as char);
            }
        }
        push_char(&mut out, l);
        assert(ascii_lower(v@.take(i + 1)) =~= ascii_lower(v@.take(i as int)).push(l));
        i = i + 1;
    }
    assert(v@.take(i as int) =~= v@);
    out
}

/// Whether `s` is empty after trimming whitespace from both ends.
pub fn is_blank(s: &str) -> (r: bool)
    ensures
        r == (trim_seq(s@).len() == 0),
{
    let v = chars_of(s);
    let (a, b) = trim_bounds(&v);
    a == b
}

} // verus!

verus! {

/// `t` occurs in `s` as a contiguous run, starting at `i`.
pub open spec fn infix_at(s: Seq<char>, t: Seq<char>, i: int) -> bool {
    0 <= i && i + t.len() <= s.len() && s.subrange(i, i + t.len()) == t
}

/// `t` occurs somewhere in `s` as a contiguous run.
pub open spec fn has_infix(s: Seq<char>, t: Seq<char>) -> bool {
    exists|i: int| infix_at(s, t, i)
}

/// `line` is one whole line of `s`: it starts `s` or follows a newline, and
/// ends `s` or is followed by one.
pub open spec fn has_line(s: Seq<char>, line: Seq<char>) -> bool {
    exists|i: int| #![trigger infix_at(s, line, i)]
        infix_at(s, line, i) && (i == 0 || s[i - 1] == '\n') && (i + line.len() == s.len() || s[i + line.len()] == '\n')
}

} // verus!
