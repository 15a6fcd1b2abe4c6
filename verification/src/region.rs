//! The whole-market region payload (GCM1): the header check and item count,
//! and the rules for what stays kept between ticks and what gets written.
//! Fetching is the caller's job; every rule about keeping and dropping lives
//! here.
use vstd::prelude::*;
use crate::text::{chars_of, push_i64, push_u64, int_text, parse_i64_bytes, parse_i64_spec, str_eq};

verus! {

/// A body larger than this is never kept.
pub const MAX_BODY_BYTES: usize = 8388608;

/// Older than this, by the payload's own snapshot time, and it is not written.
pub const MAX_AGE_SECS: i64 = 10800;

/// How many items a payload carries and its snapshot time.
#[derive(Debug, Clone, Copy, PartialEq, Eq, Default)]
pub struct RegionSummary {
    pub items: u32,
    pub ts: i64,
}

/// The last good payload: the region it was fetched for, its body and ETag,
/// and its summary.
#[derive(Debug, Clone, PartialEq)]
pub struct KeptPayload {
    pub region: String,
    pub body: String,
    pub etag: Option<String>,
    pub summary: RegionSummary,
}

/// What one fetch brought back.
#[derive(Debug, PartialEq)]
pub enum Fetched {
    Fresh { body: String, etag: Option<String> },
    NotModified,
}

/// The index of the first `b` in `s` at or after `from`, or `s.len()`.
pub open spec fn next_index(s: Seq<u8>, b: u8, from: int) -> int
    decreases s.len() - from,
{
    if from < 0 || from >= s.len() {
        s.len() as int
    } else if s[from] == b {
        from
    } else {
        next_index(s, b, from + 1)
    }
}

/// How many `b` bytes `s` holds.
pub open spec fn count_byte(s: Seq<u8>, b: u8) -> nat
    decreases s.len(),
{
    if s.len() == 0 {
        0
    } else {
        count_byte(s.drop_last(), b) + if s.last() == b { 1nat } else { 0nat }
    }
}

/// A `;`-separated section of `sec` starts at `p` with `I:`.
pub open spec fn item_piece_at(sec: Seq<u8>, p: int) -> bool {
    &&& 0 <= p
    &&& p + 2 <= sec.len()
    &&& sec[p] == 73u8
    &&& sec[p + 1] == 58u8
    &&& (p == 0 || sec[p - 1] == 59u8)
}

/// The first `I:` section at or after `p`.
pub open spec fn next_item_piece(sec: Seq<u8>, p: int) -> Option<int>
    decreases sec.len() - p,
{
    if p < 0 || p + 2 > sec.len() {
        None
    } else if item_piece_at(sec, p) {
        Some(p)
    } else {
        next_item_piece(sec, p + 1)
    }
}

/// The number of comma-separated tokens in the first `I:` section, 0 when
/// there is no such section or it is empty.
pub open spec fn items_spec(sec: Seq<u8>) -> nat {
    match next_item_piece(sec, 0) {
        None => 0,
        Some(p) => {
            let e = next_index(sec, 59u8, p + 2);
            if e == p + 2 {
                0
            } else {
                1 + count_byte(sec.subrange(p + 2, e), 44u8)
            }
        },
    }
}

/// `GCM1;<region>;` as bytes.
pub open spec fn gcm1_prefix(region: Seq<u8>) -> Seq<u8> {
    seq![71u8, 67u8, 77u8, 49u8, 59u8] + region + seq![59u8]
}

/// What `summarize` answers for a body and region: the header check
/// (`GCM1;<region>;<ts>;`) and the item count, with the reason for each
/// refusal.
pub open spec fn summarize_spec(body: Seq<char>, region: Seq<char>) -> Result<RegionSummary, Seq<char>> {
    let b = vstd::utf8::encode_utf8(body);
    let pre = gcm1_prefix(vstd::utf8::encode_utf8(region));
    if b.len() > MAX_BODY_BYTES {
        Err("region data too large ("@ + int_text(b.len() as int) + " bytes)"@)
    } else if !pre.is_prefix_of(b) {
        Err("response was not GCM1 region data for "@ + region)
    } else {
        let k = next_index(b, 59u8, pre.len() as int);
        if k == b.len() {
            Err("region data has no sections"@)
        } else {
            match parse_i64_spec(b.subrange(pre.len() as int, k)) {
                None => Err("region data has no snapshot time"@),
                Some(ts) => {
                    let items = items_spec(b.subrange(k + 1, b.len() as int)) as u32;
                    if items == 0 {
                        Err("region data carried no items"@)
                    } else {
                        Ok(RegionSummary { items, ts })
                    }
                },
            }
        }
    }
}

fn copy_range(b: &[u8], from: usize, to: usize) -> (v: Vec<u8>)
    requires
        from <= to <= b@.len(),
    ensures
        v@ == b@.subrange(from as int, to as int),
{
    let mut v: Vec<u8> = Vec::new();
    let mut i = from;
    while i < to
        invariant
            from <= i <= to <= b@.len(),
            v@ == b@.subrange(from as int, i as int),
        decreases to - i,
    {
        v.push(b[i]);
        i = i + 1;
        assert(v@ =~= b@.subrange(from as int, i as int));
    }
    v
}

fn find_byte(s: &Vec<u8>, b: u8, from: usize) -> (r: usize)
    requires
        from <= s@.len(),
    ensures
        r == next_index(s@, b, from as int),
        from <= r <= s@.len(),
{
    let mut i = from;
    while i < s.len() && s[i] != b
        invariant
            from <= i <= s@.len(),
            next_index(s@, b, from as int) == next_index(s@, b, i as int),
        decreases s.len() - i,
    {
        i = i + 1;
    }
    i
}

fn count_commas(s: &Vec<u8>, from: usize, to: usize) -> (r: usize)
    requires
        from <= to <= s@.len(),
    ensures
        r == count_byte(s@.subrange(from as int, to as int), 44u8),
        r <= to - from,
{
    let mut i = from;
    let mut c: usize = 0;
    while i < to
        invariant
            from <= i <= to <= s@.len(),
            c == count_byte(s@.subrange(from as int, i as int), 44u8),
            c <= i - from,
        decreases to - i,
    {
        assert(s@.subrange(from as int, i + 1).drop_last() =~= s@.subrange(from as int, i as int));
        if s[i] == 44u8 {
            c = c + 1;
        }
        i = i + 1;
    }
    c
}

fn count_items(sec: &Vec<u8>) -> (r: usize)
    ensures
        r == items_spec(sec@),
        r <= sec@.len(),
{
    let n = sec.len();
    let mut p: usize = 0;
    while n >= 2 && p <= n - 2 && !(sec[p] == 73u8 && sec[p + 1] == 58u8 && (p == 0 || sec[p - 1] == 59u8))
        invariant
            p <= n == sec@.len(),
            next_item_piece(sec@, 0) == next_item_piece(sec@, p as int),
        decreases n - p,
    {
        p = p + 1;
    }
    if n < 2 || p > n - 2 {
        return 0;
    }
    let e = find_byte(sec, 59u8, p + 2);
    if e == p + 2 {
        0
    } else {
        1 + count_commas(sec, p + 2, e)
    }
}

/// Header check and item count: `GCM1;<region>;<ts>;` with at least one `I`
/// token and at most `MAX_BODY_BYTES`. Anything else (another region, a
/// buy-run string, an error page) is refused with its reason.
pub fn summarize(body: &str, region: &str) -> (r: Result<RegionSummary, String>)
    ensures
        match summarize_spec(body@, region@) {
            Ok(s) => r == Ok::<RegionSummary, String>(s),
            Err(e) => r matches Err(m) && m@ == e,
        },
{
    let b = body.as_bytes();
    let n = b.len();
    if n > MAX_BODY_BYTES {
        let mut msg = String::new();
        msg.append("region data too large (");
        push_u64(&mut msg, n as u64);
        msg.append(" bytes)");
        return Err(msg);
    }
    let rb = region.as_bytes();
    let ghost pre = gcm1_prefix(rb@);
    let mut matches = rb.len() <= n && rb.len() + 6 <= n;
    let plen = if matches { rb.len() + 6 } else { 0 };
    if matches {
        let head = b[0] == 71u8 && b[1] == 67u8 && b[2] == 77u8 && b[3] == 49u8 && b[4] == 59u8 && b[plen - 1] == 59u8;
        matches = head;
        let mut j: usize = 0;
        while matches && j < rb.len()
            invariant
                j <= rb@.len(),
                plen == rb@.len() + 6,
                plen <= b@.len(),
                matches ==> head,
                head ==> b@[0] == 71u8 && b@[1] == 67u8 && b@[2] == 77u8 && b@[3] == 49u8 && b@[4] == 59u8 && b@[plen - 1] == 59u8,
                matches ==> forall|q: int| 0 <= q < j ==> b@[5 + q] == rb@[q],
                head && !matches ==> exists|q: int| 0 <= q < rb@.len() && b@[5 + q] != rb@[q],
            decreases rb.len() - j,
        {
            if b[5 + j] != rb[j] {
                assert(b@[5 + j as int] != rb@[j as int]);
                matches = false;
            }
            j = j + 1;
        }
        proof {
            if matches {
                assert(b@.subrange(0, plen as int) =~= pre);
            } else {
                if b@.subrange(0, plen as int) == pre {
                    assert(b@[0] == pre[0] && b@[1] == pre[1] && b@[2] == pre[2] && b@[3] == pre[3]);
                    assert(b@[4] == pre[4] && b@[plen - 1] == pre[plen - 1]);
                    if head {
                        let q = choose|q: int| 0 <= q < rb@.len() && b@[5 + q] != rb@[q];
                        assert(b@[5 + q] == b@.subrange(0, plen as int)[5 + q]);
                        assert(pre[5 + q] == rb@[q]);
                    }
                }
            }
        }
    }
    assert(pre.len() == rb@.len() + 6);
    if !matches {
        proof {
            if b@.len() >= pre.len() && b@.subrange(0, pre.len() as int) == pre {
                assert(rb.len() + 6 <= n);
            }
        }
        let mut msg = String::new();
        msg.append("response was not GCM1 region data for ");
        msg.append(region);
        return Err(msg);
    }
    let mut k = plen;
    while k < n && b[k] != 59u8
        invariant
            plen <= k <= n == b@.len(),
            next_index(b@, 59u8, plen as int) == next_index(b@, 59u8, k as int),
        decreases n - k,
    {
        k = k + 1;
    }
    if k == n {
        return Err(String::from_str("region data has no sections"));
    }
    let ts = match parse_i64_bytes(b, plen, k) {
        Some(t) => t,
        None => {
            return Err(String::from_str("region data has no snapshot time"));
        },
    };
    let sec = copy_range(b, k + 1, n);
    let count = count_items(&sec);
    let items = count as u32;
    if items == 0 {
        return Err(String::from_str("region data carried no items"));
    }
    Ok(RegionSummary { items, ts })
}

} // verus!

verus! {

/// The kept payload, when it was kept for `region`; a payload kept for another
/// region is as good as none.
pub open spec fn kept_for(kept: Option<KeptPayload>, region: Seq<char>) -> Option<KeptPayload> {
    match kept {
        Some(k) => if k.region@ == region {
            Some(k)
        } else {
            None
        },
        None => None,
    }
}

/// What one tick leaves kept and what it reports, given what was kept before
/// and what the fetch returned.
pub open spec fn settle_spec(
    kept: Option<KeptPayload>,
    fetched: Result<Fetched, String>,
    region: Seq<char>,
    r: (Option<KeptPayload>, Result<RegionSummary, String>),
) -> bool {
    let here = kept_for(kept, region);
    match fetched {
        Ok(Fetched::Fresh { body, etag }) => match summarize_spec(body@, region) {
            Ok(s) => r.1 == Ok::<RegionSummary, String>(s) && (r.0 matches Some(k) && k.region@ == region
                && k.body == body && k.etag == etag && k.summary == s),
            Err(e) => r.0 == here && (r.1 matches Err(m) && m@ == e),
        },
        Ok(Fetched::NotModified) => match here {
            Some(k) => r.0 == Some(k) && r.1 == Ok::<RegionSummary, String>(k.summary),
            None => r.0 is None && (r.1 matches Err(m) && m@ == "304 with no region data kept"@),
        },
        Err(e) => r.0 == here && r.1 == Err::<RegionSummary, String>(e),
    }
}

/// What this tick leaves kept, given what was kept before and what the fetch
/// returned: a fresh body that passes `summarize` replaces what was kept, a 304
/// reuses it, and a failure keeps the last good body. A payload kept for
/// another region is dropped: the setting changed under it.
pub fn settle(kept: Option<KeptPayload>, fetched: Result<Fetched, String>, region: &str) -> (r: (
    Option<KeptPayload>,
    Result<RegionSummary, String>,
))
    ensures
        settle_spec(kept, fetched, region@, r),
{
    let here = match kept {
        Some(k) => if str_eq(k.region.as_str(), region) {
            Some(k)
        } else {
            None
        },
        None => None,
    };
    match fetched {
        Ok(Fetched::Fresh { body, etag }) => match summarize(body.as_str(), region) {
            Ok(summary) => (
                Some(KeptPayload { region: String::from_str(region), body, etag, summary }),
                Ok(summary),
            ),
            Err(e) => (here, Err(e)),
        },
        Ok(Fetched::NotModified) => match here {
            Some(k) => {
                let summary = k.summary;
                (Some(k), Ok(summary))
            },
            None => (None, Err(String::from_str("304 with no region data kept"))),
        },
        Err(e) => (here, Err(e)),
    }
}

/// The ETag to revalidate with: only while a body is kept for this region.
pub fn if_none_match<'a>(kept: Option<&'a KeptPayload>, region: &str) -> (r: Option<&'a str>)
    ensures
        match kept {
            Some(k) => if k.region@ == region@ {
                match k.etag {
                    Some(e) => r matches Some(t) && t@ == e@,
                    None => r is None,
                }
            } else {
                r is None
            },
            None => r is None,
        },
{
    match kept {
        Some(k) => if str_eq(k.region.as_str(), region) {
            match &k.etag {
                Some(e) => Some(e.as_str()),
                None => None,
            }
        } else {
            None
        },
        None => None,
    }
}

/// The body to write into `AppData.lua` this tick: the kept one for this
/// region, unless its snapshot is more than `MAX_AGE_SECS` older than `now`.
pub fn to_write<'a>(kept: Option<&'a KeptPayload>, region: &str, now: i64) -> (r: Option<&'a str>)
    requires
        kept matches Some(k) ==> i64::MIN <= now - k.summary.ts <= i64::MAX,
    ensures
        match kept {
            Some(k) => if k.region@ == region@ && now - k.summary.ts <= MAX_AGE_SECS {
                r matches Some(t) && t@ == k.body@
            } else {
                r is None
            },
            None => r is None,
        },
{
    match kept {
        Some(k) => if str_eq(k.region.as_str(), region) && now - k.summary.ts <= MAX_AGE_SECS {
            Some(k.body.as_str())
        } else {
            None
        },
        None => None,
    }
}

/// Whatever a tick brings, what it leaves kept belongs to the region it ran for.
pub proof fn law_settle_keeps_only_this_region(
    kept: Option<KeptPayload>,
    fetched: Result<Fetched, String>,
    region: Seq<char>,
    r: (Option<KeptPayload>, Result<RegionSummary, String>),
)
    requires
        settle_spec(kept, fetched, region, r),
    ensures
        r.0 matches Some(k) ==> k.region@ == region,
{
}

/// A failed fetch never costs the last good payload for the same region.
pub proof fn law_failure_keeps_last_good(
    k: KeptPayload,
    e: String,
    region: Seq<char>,
    r: (Option<KeptPayload>, Result<RegionSummary, String>),
)
    requires
        k.region@ == region,
        settle_spec(Some(k), Err(e), region, r),
    ensures
        r.0 == Some(k),
{
}

/// A 304 answered while a payload is kept for this region hands back that
/// payload and its summary unchanged.
pub proof fn law_not_modified_reuses_kept(
    k: KeptPayload,
    region: Seq<char>,
    r: (Option<KeptPayload>, Result<RegionSummary, String>),
)
    requires
        k.region@ == region,
        settle_spec(Some(k), Ok(Fetched::NotModified), region, r),
    ensures
        r.0 == Some(k),
        r.1 == Ok::<RegionSummary, String>(k.summary),
{
}

} // verus!

verus! {

/// What a region-data answer's HTTP status means: `Ok(true)` for a 304 (the
/// kept body is still current), `Ok(false)` for a 200 whose body is to be
/// read, and any other status is a failure.
pub fn classify_status(code: u16) -> (r: Result<bool, String>)
    ensures
        code == 304 ==> r == Ok::<bool, String>(true),
        code == 200 ==> r == Ok::<bool, String>(false),
        code != 304 && code != 200 ==> (r matches Err(m) && m@ == "unexpected status "@ + crate::text::digits(code as nat)),
{
    if code == 304 {
        Ok(true)
    } else if code == 200 {
        Ok(false)
    } else {
        let mut m = String::from_str("unexpected status ");
        push_u64(&mut m, code as u64);
        Err(m)
    }
}

/// Whether `more` bytes still fit after `have` under the body cap. A body is
/// read under a running cap, so a chunked answer cannot buffer without bound.
pub fn within_cap(have: u64, more: u64) -> (r: bool)
    ensures
        r == (have + more <= MAX_BODY_BYTES),
{
    have <= MAX_BODY_BYTES as u64 && more <= MAX_BODY_BYTES as u64 - have
}

} // verus!
