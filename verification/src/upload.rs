//! What has already been uploaded, and what is still pending. The set of sent
//! fingerprints lives in the companion's own state, never in the addon's
//! SavedVariables; losing it costs one redundant re-send, which the server
//! absorbs on the dedupe key. Sending is the caller's job.
use vstd::prelude::*;
use crate::text::{int_text, bool_text, push_i64, push_bool, push_char};
use crate::savedvars::{LedgerEntry, GoldPoint, LedgerData, LiveObservation};

verus! {

/// Must not exceed the API's own per-request cap.
pub const MAX_BATCH: usize = 500;

/// Must not exceed the live-observations endpoint's per-request cap.
pub const MAX_OBSERVATION_BATCH: usize = 200;

/// What the Status screen shows for the ledger stage.
#[derive(Debug, Clone, PartialEq)]
pub struct UploadStats {
    pub total_sent: u64,
    pub last_upload_at: Option<i64>,
    /// Rows read out of SavedVariables that the server has not accepted yet.
    pub pending: u64,
    pub last_error: Option<String>,
}

impl Default for UploadStats {
    fn default() -> (r: UploadStats)
        ensures
            r.total_sent == 0,
            r.last_upload_at is None,
            r.pending == 0,
            r.last_error is None,
    {
        UploadStats { total_sent: 0, last_upload_at: None, pending: 0, last_error: None }
    }
}

/// `old` with each of `new` appended in turn unless already present.
pub open spec fn merge_keys(old: Seq<Seq<char>>, new: Seq<Seq<char>>) -> Seq<Seq<char>>
    decreases new.len(),
{
    if new.len() == 0 {
        old
    } else {
        let m = merge_keys(old, new.drop_last());
        if m.contains(new.last()) {
            m
        } else {
            m.push(new.last())
        }
    }
}

/// `s` with its oldest entries dropped until at most `max` are left.
pub open spec fn evict_oldest(s: Seq<Seq<char>>, max: nat) -> Seq<Seq<char>> {
    if s.len() > max {
        s.skip(s.len() - max)
    } else {
        s
    }
}

pub open spec fn views(ss: Seq<String>) -> Seq<Seq<char>> {
    ss.map_values(|s: String| s@)
}

pub open spec fn distinct(s: Seq<Seq<char>>) -> bool {
    forall|i: int, j: int| 0 <= i < j < s.len() ==> s[i] != s[j]
}

/// Sent fingerprints (oldest first, no repeats) and the ledger-stage counters.
#[derive(Debug)]
pub struct UploadState {
    uploaded: Vec<String>,
    stats: UploadStats,
}

impl UploadState {
    /// How many fingerprints the state keeps before the oldest are dropped:
    /// live observations add up to a batch of keys per scan on top of ledger
    /// and gold, and a dropped ledger key only costs a harmless re-send.
    pub const MAX_KEYS: usize = 20000;

    #[verifier::type_invariant]
    spec fn inv(&self) -> bool {
        distinct(views(self.uploaded@))
    }

    /// The fingerprints already sent, oldest first.
    pub closed spec fn key_seq(&self) -> Seq<Seq<char>> {
        views(self.uploaded@)
    }

    pub closed spec fn stats_spec(&self) -> UploadStats {
        self.stats
    }

    /// An empty state.
    pub fn new() -> (r: UploadState)
        ensures
            r.key_seq().len() == 0,
            distinct(r.key_seq()),
            r.stats_spec() == UploadStats::default_spec(),
    {
        let v: Vec<String> = Vec::new();
        assert(views(v@) =~= Seq::<Seq<char>>::empty());
        assert(distinct(views(v@)));
        UploadState { uploaded: v, stats: UploadStats::default() }
    }

    /// A state rebuilt from stored keys (repeats dropped, first kept) and counters.
    pub fn from_parts(keys: Vec<String>, stats: UploadStats) -> (r: UploadState)
        ensures
            r.key_seq() == merge_keys(Seq::empty(), views(keys@)),
            distinct(r.key_seq()),
            r.stats_spec() == stats,
    {
        let v: Vec<String> = Vec::new();
        assert(views(v@) =~= Seq::<Seq<char>>::empty());
        assert(distinct(views(v@)));
        let mut s = UploadState { uploaded: v, stats };
        assert(views(s.uploaded@) =~= merge_keys(Seq::empty(), views(keys@.take(0))));
        let mut i: usize = 0;
        while i < keys.len()
            invariant
                i <= keys@.len(),
                s.key_seq() == merge_keys(Seq::empty(), views(keys@.take(i as int))),
                s.stats_spec() == stats,
            decreases keys.len() - i,
        {
            s.insert_new(&keys[i]);
            assert(views(keys@.take(i + 1)).drop_last() =~= views(keys@.take(i as int)));
            i = i + 1;
        }
        assert(keys@.take(i as int) =~= keys@);
        proof {
            use_type_invariant(&s);
        }
        s
    }

    /// The stored fingerprints, oldest first, for writing back to disk.
    pub fn keys(&self) -> (r: Vec<String>)
        ensures
            views(r@) == self.key_seq(),
            distinct(views(r@)),
    {
        proof {
            use_type_invariant(self);
        }
        self.uploaded.clone()
    }

    pub fn stats(&self) -> (r: &UploadStats)
        ensures
            *r == self.stats_spec(),
    {
        &self.stats
    }

    /// Adds `rows` to the sent counter and stamps the upload time.
    pub fn record_upload(&mut self, rows: u64, at: i64)
        requires
            old(self).stats_spec().total_sent + rows <= u64::MAX,
        ensures
            final(self).key_seq() == old(self).key_seq(),
            distinct(final(self).key_seq()),
            final(self).stats_spec() == (UploadStats {
                total_sent: (old(self).stats_spec().total_sent + rows) as u64,
                last_upload_at: Some(at),
                ..old(self).stats_spec()
            }),
    {
        proof {
            use_type_invariant(&*self);
        }
        self.stats.total_sent = self.stats.total_sent + rows;
        self.stats.last_upload_at = Some(at);
        proof {
            use_type_invariant(&*self);
        }
    }

    pub fn set_pending(&mut self, pending: u64)
        ensures
            final(self).key_seq() == old(self).key_seq(),
            distinct(final(self).key_seq()),
            final(self).stats_spec() == (UploadStats { pending, ..old(self).stats_spec() }),
    {
        proof {
            use_type_invariant(&*self);
        }
        self.stats.pending = pending;
        proof {
            use_type_invariant(&*self);
        }
    }

    pub fn set_last_error(&mut self, error: Option<String>)
        ensures
            final(self).key_seq() == old(self).key_seq(),
            distinct(final(self).key_seq()),
            final(self).stats_spec() == (UploadStats { last_error: error, ..old(self).stats_spec() }),
    {
        proof {
            use_type_invariant(&*self);
        }
        self.stats.last_error = error;
        proof {
            use_type_invariant(&*self);
        }
    }

    /// Whether this fingerprint has been sent.
    pub fn contains(&self, key: &str) -> (r: bool)
        ensures
            r == self.key_seq().contains(key@),
    {
        let k = String::from_str(key);
        let mut i: usize = 0;
        while i < self.uploaded.len()
            invariant
                i <= self.uploaded@.len(),
                k@ == key@,
                forall|j: int| 0 <= j < i ==> self.uploaded@[j]@ != key@,
            decreases self.uploaded.len() - i,
        {
            if self.uploaded[i] == k {
                assert(self.key_seq()[i as int] == key@);
                return true;
            }
            i = i + 1;
        }
        assert forall|j: int| 0 <= j < self.key_seq().len() implies self.key_seq()[j] != key@ by {
            assert(self.key_seq()[j] == self.uploaded@[j]@);
        }
        false
    }

    pub fn is_empty(&self) -> (r: bool)
        ensures
            r == (self.key_seq().len() == 0),
    {
        self.uploaded.len() == 0
    }

    pub fn len(&self) -> (r: usize)
        ensures
            r == self.key_seq().len(),
    {
        self.uploaded.len()
    }

    fn insert_new(&mut self, key: &String)
        ensures
            final(self).key_seq() == (if old(self).key_seq().contains(key@) {
                old(self).key_seq()
            } else {
                old(self).key_seq().push(key@)
            }),
            final(self).stats_spec() == old(self).stats_spec(),
    {
        proof {
            use_type_invariant(&*self);
        }
        if !self.contains(key.as_str()) {
            let ghost before = views(self.uploaded@);
            proof {
                let after = before.push(key@);
                assert forall|i: int, j: int| 0 <= i < j < after.len() implies after[i] != after[j] by {
                    if j == after.len() - 1 {
                        assert(after[i] == before[i]);
                    }
                }
            }
            let copy = key.clone();
            proof {
                assert(views(self.uploaded@.push(copy)) =~= before.push(key@));
            }
            let mut v: Vec<String> = Vec::new();
            std::mem::swap(&mut v, &mut self.uploaded);
            v.push(copy);
            self.uploaded = v;
        }
    }

    /// Marks these fingerprints sent. Once more than `MAX_KEYS` are kept, the
    /// oldest are dropped.
    pub fn remember(&mut self, keys: &[String])
        ensures
            final(self).key_seq() == evict_oldest(merge_keys(old(self).key_seq(), views(keys@)), UploadState::MAX_KEYS as nat),
            distinct(final(self).key_seq()),
            final(self).stats_spec() == old(self).stats_spec(),
    {
        let ghost start = self.key_seq();
        let mut i: usize = 0;
        while i < keys.len()
            invariant
                i <= keys@.len(),
                self.key_seq() == merge_keys(start, views(keys@.take(i as int))),
                self.stats_spec() == old(self).stats_spec(),
            decreases keys.len() - i,
        {
            self.insert_new(&keys[i]);
            assert(views(keys@.take(i + 1)).drop_last() =~= views(keys@.take(i as int)));
            i = i + 1;
        }
        assert(keys@.take(i as int) =~= keys@);
        proof {
            use_type_invariant(&*self);
        }
        if self.uploaded.len() > UploadState::MAX_KEYS {
            let extra = self.uploaded.len() - UploadState::MAX_KEYS;
            let ghost before = views(self.uploaded@);
            let mut all: Vec<String> = Vec::new();
            std::mem::swap(&mut all, &mut self.uploaded);
            let keep = all.split_off(extra);
            proof {
                assert(views(keep@) =~= before.skip(extra as int));
                assert forall|a: int, b: int| 0 <= a < b < views(keep@).len() implies views(keep@)[a] != views(keep@)[b] by {
                    assert(views(keep@)[a] == before[a + extra]);
                    assert(views(keep@)[b] == before[b + extra]);
                }
            }
            self.set_uploaded(keep);
        }
        proof {
            use_type_invariant(&*self);
        }
    }

    fn set_uploaded(&mut self, keep: Vec<String>)
        requires
            distinct(views(keep@)),
        ensures
            final(self).key_seq() == views(keep@),
            final(self).stats_spec() == old(self).stats_spec(),
    {
        self.uploaded = keep;
    }

    /// Marks these ledger rows sent, by fingerprint.
    pub fn remember_entries(&mut self, entries: &[&LedgerEntry])
        ensures
            final(self).key_seq() == evict_oldest(
                merge_keys(old(self).key_seq(), entry_fps(entries@)),
                UploadState::MAX_KEYS as nat,
            ),
            distinct(final(self).key_seq()),
            final(self).stats_spec() == old(self).stats_spec(),
    {
        let mut keys: Vec<String> = Vec::new();
        let mut i: usize = 0;
        while i < entries.len()
            invariant
                i <= entries@.len(),
                views(keys@) == entry_fps(entries@.take(i as int)),
            decreases entries.len() - i,
        {
            let e: &LedgerEntry = entries[i];
            let fp = entry_fingerprint(e);
            assert(fp@ == entry_fp(*entries@[i as int]));
            let ghost prev = keys@;
            keys.push(fp);
            assert(views(keys@) =~= views(prev).push(fp@));
            assert(entry_fps(entries@.take(i + 1)) =~= entry_fps(entries@.take(i as int)).push(fp@));
            assert(views(keys@) =~= entry_fps(entries@.take(i + 1)));
            i = i + 1;
        }
        assert(entries@.take(i as int) =~= entries@);
        self.remember(keys.as_slice());
    }

    /// Marks these gold points sent, by fingerprint.
    pub fn remember_gold(&mut self, points: &[&GoldPoint])
        ensures
            final(self).key_seq() == evict_oldest(
                merge_keys(old(self).key_seq(), gold_fps(points@)),
                UploadState::MAX_KEYS as nat,
            ),
            distinct(final(self).key_seq()),
            final(self).stats_spec() == old(self).stats_spec(),
    {
        let mut keys: Vec<String> = Vec::new();
        let mut i: usize = 0;
        while i < points.len()
            invariant
                i <= points@.len(),
                views(keys@) == gold_fps(points@.take(i as int)),
            decreases points.len() - i,
        {
            let g: &GoldPoint = points[i];
            let fp = gold_fingerprint(g);
            assert(fp@ == gold_fp(*points@[i as int]));
            let ghost prev = keys@;
            keys.push(fp);
            assert(views(keys@) =~= views(prev).push(fp@));
            assert(gold_fps(points@.take(i + 1)) =~= gold_fps(points@.take(i as int)).push(fp@));
            assert(views(keys@) =~= gold_fps(points@.take(i + 1)));
            i = i + 1;
        }
        assert(points@.take(i as int) =~= points@);
        self.remember(keys.as_slice());
    }
}

impl Clone for UploadState {
    fn clone(&self) -> (r: UploadState)
        ensures
            r.key_seq() == self.key_seq(),
            distinct(r.key_seq()),
            r.stats_spec() == self.stats_spec(),
    {
        proof {
            use_type_invariant(self);
        }
        let keys = self.uploaded.clone();
        proof {
            assert(views(keys@) =~= views(self.uploaded@)) by {
                assert forall|i: int| 0 <= i < keys@.len() implies keys@[i]@ == self.uploaded@[i]@ by {
                    assert(cloned::<String>(self.uploaded@[i], keys@[i]));
                }
            }
        }
        let last_error = match &self.stats.last_error {
            Some(e) => Some(e.clone()),
            None => None,
        };
        let stats = UploadStats {
            total_sent: self.stats.total_sent,
            last_upload_at: self.stats.last_upload_at,
            pending: self.stats.pending,
            last_error,
        };
        UploadState { uploaded: keys, stats }
    }
}

impl Default for UploadState {
    fn default() -> (r: UploadState)
        ensures
            r.key_seq().len() == 0,
            distinct(r.key_seq()),
            r.stats_spec() == UploadStats::default_spec(),
    {
        UploadState::new()
    }
}

impl UploadStats {
    /// The counters of a companion that has never uploaded.
    pub open spec fn default_spec() -> UploadStats {
        UploadStats { total_sent: 0, last_upload_at: None, pending: 0, last_error: None }
    }
}

/// The dedupe key plus every field the server may correct: key, total, cut,
/// deposit, pending flag and region, `|`-separated.
pub open spec fn entry_fp(e: LedgerEntry) -> Seq<char> {
    e.key@ + "|"@ + int_text(e.total as int) + "|"@ + int_text(e.cut as int) + "|"@ + int_text(e.deposit as int)
        + "|"@ + bool_text(e.pending) + "|"@ + match e.region {
        Some(r) => r@,
        None => Seq::empty(),
    }
}

pub open spec fn entry_fps(es: Seq<&LedgerEntry>) -> Seq<Seq<char>> {
    es.map_values(|e: &LedgerEntry| entry_fp(*e))
}

pub open spec fn gold_fps(gs: Seq<&GoldPoint>) -> Seq<Seq<char>> {
    gs.map_values(|g: &GoldPoint| gold_fp(*g))
}

/// A gold point is identified by its character and time.
pub open spec fn gold_fp(g: GoldPoint) -> Seq<char> {
    "gold|"@ + g.character@ + "|"@ + int_text(g.at as int)
}

/// An observation is identified by its item and scan time, under its own prefix.
pub open spec fn observation_fp(o: LiveObservation) -> Seq<char> {
    "live|"@ + int_text(o.item_id as int) + "|"@ + int_text(o.scanned_at as int)
}

pub fn entry_fingerprint(e: &LedgerEntry) -> (r: String)
    ensures
        r@ == entry_fp(*e),
{
    let mut out = e.key.clone();
    out.append("|");
    push_i64(&mut out, e.total);
    out.append("|");
    push_i64(&mut out, e.cut);
    out.append("|");
    push_i64(&mut out, e.deposit);
    out.append("|");
    push_bool(&mut out, e.pending);
    out.append("|");
    match &e.region {
        Some(r) => out.append(r.as_str()),
        None => {},
    }
    out
}

pub fn gold_fingerprint(g: &GoldPoint) -> (r: String)
    ensures
        r@ == gold_fp(*g),
{
    let mut out = String::from_str("gold|");
    out.append(g.character.as_str());
    out.append("|");
    push_i64(&mut out, g.at);
    out
}

pub fn observation_fingerprint(o: &LiveObservation) -> (r: String)
    ensures
        r@ == observation_fp(*o),
{
    let mut out = String::from_str("live|");
    push_i64(&mut out, o.item_id);
    out.append("|");
    push_i64(&mut out, o.scanned_at);
    out
}

/// The ledger rows whose fingerprint has not been sent, in file order.
pub open spec fn pending_entries(es: Seq<LedgerEntry>, keys: Seq<Seq<char>>) -> Seq<LedgerEntry>
    decreases es.len(),
{
    if es.len() == 0 {
        Seq::empty()
    } else {
        let rest = pending_entries(es.drop_last(), keys);
        if keys.contains(entry_fp(es.last())) {
            rest
        } else {
            rest.push(es.last())
        }
    }
}

/// The gold points whose fingerprint has not been sent, in file order.
pub open spec fn pending_gold(gs: Seq<GoldPoint>, keys: Seq<Seq<char>>) -> Seq<GoldPoint>
    decreases gs.len(),
{
    if gs.len() == 0 {
        Seq::empty()
    } else {
        let rest = pending_gold(gs.drop_last(), keys);
        if keys.contains(gold_fp(gs.last())) {
            rest
        } else {
            rest.push(gs.last())
        }
    }
}

/// The observations stamped with `region` whose fingerprint has not been sent.
pub open spec fn pending_obs(os: Seq<LiveObservation>, keys: Seq<Seq<char>>, region: Seq<char>) -> Seq<LiveObservation>
    decreases os.len(),
{
    if os.len() == 0 {
        Seq::empty()
    } else {
        let rest = pending_obs(os.drop_last(), keys, region);
        if os.last().region@ == region && !keys.contains(observation_fp(os.last())) {
            rest.push(os.last())
        } else {
            rest
        }
    }
}

/// Rows worth sending: ledger rows and gold points not yet fingerprinted.
pub fn pending<'a>(data: &'a LedgerData, state: &UploadState) -> (r: (Vec<&'a LedgerEntry>, Vec<&'a GoldPoint>))
    ensures
        r.0@.map_values(|e: &LedgerEntry| *e) == pending_entries(data.entries@, state.key_seq()),
        r.1@.map_values(|g: &GoldPoint| *g) == pending_gold(data.gold@, state.key_seq()),
{
    let mut entries: Vec<&'a LedgerEntry> = Vec::new();
    let mut i: usize = 0;
    while i < data.entries.len()
        invariant
            i <= data.entries@.len(),
            entries@.map_values(|e: &LedgerEntry| *e) == pending_entries(data.entries@.take(i as int), state.key_seq()),
        decreases data.entries.len() - i,
    {
        assert(data.entries@.take(i + 1).drop_last() =~= data.entries@.take(i as int));
        let e = &data.entries[i];
        let fp = entry_fingerprint(e);
        if !state.contains(fp.as_str()) {
            entries.push(e);
            assert(entries@.map_values(|e: &LedgerEntry| *e) =~= pending_entries(data.entries@.take(i + 1), state.key_seq()));
        }
        i = i + 1;
    }
    assert(data.entries@.take(i as int) =~= data.entries@);
    let mut gold: Vec<&'a GoldPoint> = Vec::new();
    let mut k: usize = 0;
    while k < data.gold.len()
        invariant
            k <= data.gold@.len(),
            gold@.map_values(|g: &GoldPoint| *g) == pending_gold(data.gold@.take(k as int), state.key_seq()),
        decreases data.gold.len() - k,
    {
        assert(data.gold@.take(k + 1).drop_last() =~= data.gold@.take(k as int));
        let g = &data.gold[k];
        let fp = gold_fingerprint(g);
        if !state.contains(fp.as_str()) {
            gold.push(g);
            assert(gold@.map_values(|g: &GoldPoint| *g) =~= pending_gold(data.gold@.take(k + 1), state.key_seq()));
        }
        k = k + 1;
    }
    assert(data.gold@.take(k as int) =~= data.gold@);
    (entries, gold)
}

/// Observations worth sending: not yet fingerprinted, and stamped with the
/// region the companion is configured for.
pub fn pending_observations<'a>(data: &'a LedgerData, state: &UploadState, region: &str) -> (r: Vec<&'a LiveObservation>)
    ensures
        r@.map_values(|o: &LiveObservation| *o) == pending_obs(data.observations@, state.key_seq(), region@),
{
    let mut out: Vec<&'a LiveObservation> = Vec::new();
    let mut i: usize = 0;
    while i < data.observations.len()
        invariant
            i <= data.observations@.len(),
            out@.map_values(|o: &LiveObservation| *o) == pending_obs(data.observations@.take(i as int), state.key_seq(), region@),
        decreases data.observations.len() - i,
    {
        assert(data.observations@.take(i + 1).drop_last() =~= data.observations@.take(i as int));
        let o = &data.observations[i];
        if crate::text::str_eq(o.region.as_str(), region) {
            let fp = observation_fingerprint(o);
            if !state.contains(fp.as_str()) {
                out.push(o);
                assert(out@.map_values(|o: &LiveObservation| *o) =~= pending_obs(data.observations@.take(i + 1), state.key_seq(), region@));
            }
        }
        i = i + 1;
    }
    assert(data.observations@.take(i as int) =~= data.observations@);
    out
}

} // verus!

verus! {

/// Every key kept before and every key remembered is in the merge, and the
/// merge is no longer than both together.
pub proof fn lemma_merge_keys_contains(old: Seq<Seq<char>>, new: Seq<Seq<char>>)
    ensures
        forall|k: Seq<char>| old.contains(k) ==> #[trigger] merge_keys(old, new).contains(k),
        forall|i: int| 0 <= i < new.len() ==> merge_keys(old, new).contains(#[trigger] new[i]),
        merge_keys(old, new).len() <= old.len() + new.len(),
    decreases new.len(),
{
    if new.len() > 0 {
        let prev = new.drop_last();
        lemma_merge_keys_contains(old, prev);
        let m = merge_keys(old, prev);
        let r = merge_keys(old, new);
        assert forall|k: Seq<char>| m.contains(k) implies r.contains(k) by {
            if !m.contains(new.last()) {
                let j = choose|j: int| 0 <= j < m.len() && m[j] == k;
                assert(r[j] == k);
            }
        }
        assert(r.contains(new.last())) by {
            if !m.contains(new.last()) {
                assert(r[m.len() as int] == new.last());
            }
        }
        assert forall|i: int| 0 <= i < new.len() implies r.contains(#[trigger] new[i]) by {
            if i < new.len() - 1 {
                assert(prev[i] == new[i]);
                assert(m.contains(prev[i]));
            }
        }
    }
}

/// No ledger row is pending when every row's fingerprint is already kept.
pub proof fn lemma_pending_entries_none(es: Seq<LedgerEntry>, keys: Seq<Seq<char>>)
    requires
        forall|i: int| 0 <= i < es.len() ==> keys.contains(entry_fp(#[trigger] es[i])),
    ensures
        pending_entries(es, keys).len() == 0,
    decreases es.len(),
{
    if es.len() > 0 {
        let prev = es.drop_last();
        assert forall|i: int| 0 <= i < prev.len() implies keys.contains(entry_fp(#[trigger] prev[i])) by {
            assert(prev[i] == es[i]);
        }
        lemma_pending_entries_none(prev, keys);
        assert(keys.contains(entry_fp(es[es.len() - 1])));
    }
}

/// No gold point is pending when every point's fingerprint is already kept.
pub proof fn lemma_pending_gold_none(gs: Seq<GoldPoint>, keys: Seq<Seq<char>>)
    requires
        forall|i: int| 0 <= i < gs.len() ==> keys.contains(gold_fp(#[trigger] gs[i])),
    ensures
        pending_gold(gs, keys).len() == 0,
    decreases gs.len(),
{
    if gs.len() > 0 {
        let prev = gs.drop_last();
        assert forall|i: int| 0 <= i < prev.len() implies keys.contains(gold_fp(#[trigger] prev[i])) by {
            assert(prev[i] == gs[i]);
        }
        lemma_pending_gold_none(prev, keys);
        assert(keys.contains(gold_fp(gs[gs.len() - 1])));
    }
}

/// A row whose fingerprint is not kept is among the pending rows.
pub proof fn lemma_pending_entries_has(es: Seq<LedgerEntry>, keys: Seq<Seq<char>>, i: int)
    requires
        0 <= i < es.len(),
        !keys.contains(entry_fp(es[i])),
    ensures
        pending_entries(es, keys).contains(es[i]),
    decreases es.len(),
{
    let prev = es.drop_last();
    let rest = pending_entries(prev, keys);
    if i == es.len() - 1 {
        assert(pending_entries(es, keys)[rest.len() as int] == es[i]);
    } else {
        assert(prev[i] == es[i]);
        lemma_pending_entries_has(prev, keys, i);
        let j = choose|j: int| 0 <= j < rest.len() && rest[j] == es[i];
        assert(pending_entries(es, keys)[j] == es[i]);
    }
}

/// A gold point whose fingerprint is not kept is among the pending points.
pub proof fn lemma_pending_gold_has(gs: Seq<GoldPoint>, keys: Seq<Seq<char>>, i: int)
    requires
        0 <= i < gs.len(),
        !keys.contains(gold_fp(gs[i])),
    ensures
        pending_gold(gs, keys).contains(gs[i]),
    decreases gs.len(),
{
    let prev = gs.drop_last();
    let rest = pending_gold(prev, keys);
    if i == gs.len() - 1 {
        assert(pending_gold(gs, keys)[rest.len() as int] == gs[i]);
    } else {
        assert(prev[i] == gs[i]);
        lemma_pending_gold_has(prev, keys, i);
        let j = choose|j: int| 0 <= j < rest.len() && rest[j] == gs[i];
        assert(pending_gold(gs, keys)[j] == gs[i]);
    }
}

/// The kept fingerprints after the pending ledger rows, then the pending gold
/// points, of `data` were remembered on top of `keys` (before any eviction).
pub open spec fn keys_after_upload(data: LedgerData, keys: Seq<Seq<char>>) -> Seq<Seq<char>> {
    merge_keys(
        merge_keys(keys, pending_entries(data.entries@, keys).map_values(|e: LedgerEntry| entry_fp(e))),
        pending_gold(data.gold@, keys).map_values(|g: GoldPoint| gold_fp(g)),
    )
}

/// Re-reading a file after its pending rows and points were remembered finds
/// nothing left to send, as long as remembering them evicted no key.
pub proof fn law_reread_after_remember_sends_nothing(data: LedgerData, keys: Seq<Seq<char>>)
    requires
        keys_after_upload(data, keys).len() <= UploadState::MAX_KEYS,
    ensures
        pending_entries(
            data.entries@,
            evict_oldest(keys_after_upload(data, keys), UploadState::MAX_KEYS as nat),
        ).len() == 0,
        pending_gold(
            data.gold@,
            evict_oldest(keys_after_upload(data, keys), UploadState::MAX_KEYS as nat),
        ).len() == 0,
{
    let pe = pending_entries(data.entries@, keys);
    let pg = pending_gold(data.gold@, keys);
    let fe = pe.map_values(|e: LedgerEntry| entry_fp(e));
    let fg = pg.map_values(|g: GoldPoint| gold_fp(g));
    let mid = merge_keys(keys, fe);
    let fin = keys_after_upload(data, keys);
    lemma_merge_keys_contains(keys, fe);
    lemma_merge_keys_contains(mid, fg);
    assert(evict_oldest(fin, UploadState::MAX_KEYS as nat) == fin);
    let es = data.entries@;
    assert forall|i: int| 0 <= i < es.len() implies fin.contains(entry_fp(#[trigger] es[i])) by {
        if keys.contains(entry_fp(es[i])) {
            assert(mid.contains(entry_fp(es[i])));
        } else {
            lemma_pending_entries_has(es, keys, i);
            let j = choose|j: int| 0 <= j < pe.len() && pe[j] == es[i];
            assert(fe[j] == entry_fp(es[i]));
            assert(mid.contains(fe[j]));
        }
    }
    lemma_pending_entries_none(es, fin);
    let gs = data.gold@;
    assert forall|i: int| 0 <= i < gs.len() implies fin.contains(gold_fp(#[trigger] gs[i])) by {
        if !keys.contains(gold_fp(gs[i])) {
            lemma_pending_gold_has(gs, keys, i);
            let j = choose|j: int| 0 <= j < pg.len() && pg[j] == gs[i];
            assert(fg[j] == gold_fp(gs[i]));
        } else {
            assert(mid.contains(gold_fp(gs[i])));
        }
    }
    lemma_pending_gold_none(gs, fin);
}

/// However many fingerprints are remembered, the state keeps at most
/// `MAX_KEYS`, and what it keeps is the newest of them.
pub proof fn law_remembered_keys_are_capped(old: Seq<Seq<char>>, new: Seq<Seq<char>>)
    ensures
        evict_oldest(merge_keys(old, new), UploadState::MAX_KEYS as nat).len() <= UploadState::MAX_KEYS,
        evict_oldest(merge_keys(old, new), UploadState::MAX_KEYS as nat).is_suffix_of(merge_keys(old, new)),
{
    let m = merge_keys(old, new);
    let r = evict_oldest(m, UploadState::MAX_KEYS as nat);
    if m.len() > UploadState::MAX_KEYS {
        assert(m.subrange(m.len() - r.len(), m.len() as int) =~= r);
    } else {
        assert(m.subrange(0, m.len() as int) =~= m);
    }
}


/// The set of keys of a sequence grown by one key is the old set with that
/// key added.
proof fn lemma_push_to_set(s: Seq<Seq<char>>, k: Seq<char>)
    ensures
        s.push(k).to_set() == s.to_set().insert(k),
{
    let t = s.push(k);
    assert forall|x: Seq<char>| t.to_set().contains(x) <==> s.to_set().insert(k).contains(x) by {
        if t.contains(x) && x != k {
            let j = choose|j: int| 0 <= j < t.len() && t[j] == x;
            assert(j < s.len() && s[j] == x);
        }
        if s.contains(x) {
            let j = choose|j: int| 0 <= j < s.len() && s[j] == x;
            assert(t[j] == x);
        }
        if x == k {
            assert(t[s.len() as int] == k);
        }
    }
    assert(t.to_set() =~= s.to_set().insert(k));
}

/// Merging into distinct keys keeps them distinct, and what the merge holds
/// is the keys kept before together with the keys remembered.
proof fn lemma_merge_keys_set(old: Seq<Seq<char>>, new: Seq<Seq<char>>)
    requires
        distinct(old),
    ensures
        distinct(merge_keys(old, new)),
        merge_keys(old, new).to_set() == old.to_set().union(new.to_set()),
    decreases new.len(),
{
    if new.len() == 0 {
        assert(new.to_set() =~= Set::<Seq<char>>::empty());
        assert(old.to_set().union(new.to_set()) =~= old.to_set());
    } else {
        let prev = new.drop_last();
        let k = new.last();
        lemma_merge_keys_set(old, prev);
        let m = merge_keys(old, prev);
        assert(prev.push(k) =~= new);
        lemma_push_to_set(prev, k);
        if m.contains(k) {
            assert(m.to_set().insert(k) =~= m.to_set());
        } else {
            lemma_push_to_set(m, k);
            let r = m.push(k);
            assert forall|i: int, j: int| 0 <= i < j < r.len() implies r[i] != r[j] by {
                if j == m.len() {
                    assert(r[i] == m[i]);
                }
            }
        }
        assert(old.to_set().union(prev.to_set()).insert(k) =~= old.to_set().union(new.to_set()));
    }
}

/// Remembering keeps every fingerprint once: what is kept is the newest of
/// the different fingerprints sent before and now, as many of them as there
/// are, up to `MAX_KEYS`.
pub proof fn law_remembered_keys_are_distinct(old: Seq<Seq<char>>, new: Seq<Seq<char>>)
    requires
        distinct(old),
    ensures
        distinct(evict_oldest(merge_keys(old, new), UploadState::MAX_KEYS as nat)),
        merge_keys(old, new).to_set() == old.to_set().union(new.to_set()),
        evict_oldest(merge_keys(old, new), UploadState::MAX_KEYS as nat).len() == (if old.to_set().union(
            new.to_set(),
        ).len() <= UploadState::MAX_KEYS {
            old.to_set().union(new.to_set()).len()
        } else {
            UploadState::MAX_KEYS as nat
        }),
{
    lemma_merge_keys_set(old, new);
    let m = merge_keys(old, new);
    assert(m.no_duplicates()) by {
        assert forall|i: int, j: int| 0 <= i < m.len() && 0 <= j < m.len() && i != j implies m[i] != m[j] by {
            if i > j {
                assert(m[j] != m[i]);
            }
        }
    }
    m.unique_seq_to_set();
    let r = evict_oldest(m, UploadState::MAX_KEYS as nat);
    if m.len() > UploadState::MAX_KEYS {
        let off = m.len() - UploadState::MAX_KEYS;
        assert forall|i: int, j: int| 0 <= i < j < r.len() implies r[i] != r[j] by {
            assert(r[i] == m[i + off] && r[j] == m[j + off]);
        }
    }
}
} // verus!

verus! {

/// Whether a state file holds the first release's shape, a bare JSON array of
/// keys, rather than the current object: told apart by its first non-blank
/// character, never by which parse happens to succeed first.
pub fn is_legacy_state(text: &str) -> (r: bool)
    ensures
        r == (crate::text::trim_start_seq(text@).len() > 0 && crate::text::trim_start_seq(text@)[0] == '['),
{
    let v = crate::text::chars_of(text);
    let n = v.len();
    let mut a: usize = 0;
    assert(v@.subrange(0, n as int) =~= v@);
    while a < n && crate::text::is_whitespace(v[a])
        invariant
            a <= n == v@.len(),
            crate::text::trim_start_seq(v@) == crate::text::trim_start_seq(v@.subrange(a as int, n as int)),
        decreases n - a,
    {
        assert(v@.subrange(a as int, n as int).drop_first() =~= v@.subrange(a + 1, n as int));
        a = a + 1;
    }
    assert(crate::text::trim_start_seq(v@.subrange(a as int, n as int)) == v@.subrange(a as int, n as int));
    a < n && v[a] == '['
}

} // verus!

verus! {

/// With nothing sent yet (a first run, or a lost state file) every ledger row
/// and every gold point is pending.
pub proof fn law_first_run_everything_is_pending(es: Seq<LedgerEntry>, gs: Seq<GoldPoint>)
    ensures
        pending_entries(es, Seq::empty()) == es,
        pending_gold(gs, Seq::empty()) == gs,
    decreases es.len() + gs.len(),
{
    if es.len() > 0 {
        law_first_run_everything_is_pending(es.drop_last(), gs);
        assert(es.drop_last().push(es.last()) =~= es);
    }
    if gs.len() > 0 {
        law_first_run_everything_is_pending(es, gs.drop_last());
        assert(gs.drop_last().push(gs.last()) =~= gs);
    }
}

/// A row whose pending flag flipped (a sale that matured under the same key)
/// gets a new fingerprint, so it is sent again.
pub proof fn law_a_matured_row_is_sent_again(a: LedgerEntry, b: LedgerEntry)
    requires
        a.key@ == b.key@,
        a.total == b.total,
        a.cut == b.cut,
        a.deposit == b.deposit,
        a.pending != b.pending,
    ensures
        entry_fp(a) != entry_fp(b),
{
    reveal_strlit("true");
    reveal_strlit("false");
    let p = a.key@ + "|"@ + int_text(a.total as int) + "|"@ + int_text(a.cut as int) + "|"@
        + int_text(a.deposit as int) + "|"@;
    let i = p.len() as int;
    assert(entry_fp(a)[i] == bool_text(a.pending)[0]);
    assert(entry_fp(b)[i] == bool_text(b.pending)[0]);
}

/// A row whose region was repaired in place (same key, same money, same
/// flag) gets a new fingerprint, so the correction reaches the server.
pub proof fn law_a_repaired_region_is_sent_again(a: LedgerEntry, b: LedgerEntry)
    requires
        a.key@ == b.key@,
        a.total == b.total,
        a.cut == b.cut,
        a.deposit == b.deposit,
        a.pending == b.pending,
        (match a.region { Some(r) => r@, None => Seq::<char>::empty() })
            != (match b.region { Some(r) => r@, None => Seq::<char>::empty() }),
    ensures
        entry_fp(a) != entry_fp(b),
{
    let q = a.key@ + "|"@ + int_text(a.total as int) + "|"@ + int_text(a.cut as int) + "|"@
        + int_text(a.deposit as int) + "|"@ + bool_text(a.pending) + "|"@;
    let ra = match a.region { Some(r) => r@, None => Seq::<char>::empty() };
    let rb = match b.region { Some(r) => r@, None => Seq::<char>::empty() };
    assert(entry_fp(a) == q + ra);
    assert(entry_fp(b) == q + rb);
    if entry_fp(a) == entry_fp(b) {
        assert(ra =~= (q + ra).skip(q.len() as int));
        assert(rb =~= (q + rb).skip(q.len() as int));
    }
}

} // verus!

verus! {

pub open spec fn obs_fps(os: Seq<&LiveObservation>) -> Seq<Seq<char>> {
    os.map_values(|o: &LiveObservation| observation_fp(*o))
}

impl UploadState {
    /// Marks these live observations sent, by fingerprint.
    pub fn remember_observations(&mut self, rows: &[&LiveObservation])
        ensures
            final(self).key_seq() == evict_oldest(
                merge_keys(old(self).key_seq(), obs_fps(rows@)),
                UploadState::MAX_KEYS as nat,
            ),
            distinct(final(self).key_seq()),
            final(self).stats_spec() == old(self).stats_spec(),
    {
        let mut keys: Vec<String> = Vec::new();
        let mut i: usize = 0;
        while i < rows.len()
            invariant
                i <= rows@.len(),
                crate::upload::views(keys@) == obs_fps(rows@.take(i as int)),
            decreases rows.len() - i,
        {
            let o: &LiveObservation = rows[i];
            let fp = observation_fingerprint(o);
            let ghost prev = keys@;
            keys.push(fp);
            assert(views(keys@) =~= views(prev).push(fp@));
            assert(obs_fps(rows@.take(i + 1)) =~= obs_fps(rows@.take(i as int)).push(fp@));
            i = i + 1;
        }
        assert(rows@.take(i as int) =~= rows@);
        self.remember(keys.as_slice());
    }
}

/// The batches a file's pending ledger rows go up in, as index ranges: at
/// most `cap` rows each, in order, covering every row once. With no rows there
/// is still one empty batch, which carries the gold points.
pub open spec fn batch_range(i: int, cap: int, n: int) -> (int, int) {
    (i * cap, if (i + 1) * cap < n { (i + 1) * cap } else { n })
}

pub fn batch_ranges(n: usize, cap: usize) -> (r: Vec<(usize, usize)>)
    requires
        cap > 0,
    ensures
        n == 0 ==> r@.len() == 1 && r@[0] == (0usize, 0usize),
        n > 0 ==> r@.len() == (n + cap - 1) / (cap as int),
        n > 0 ==> forall|i: int| 0 <= i < r@.len() ==>
            ((#[trigger] r@[i]).0 as int, r@[i].1 as int) == batch_range(i, cap as int, n as int),
{
    let mut out: Vec<(usize, usize)> = Vec::new();
    if n == 0 {
        out.push((0, 0));
        return out;
    }
    let mut start: usize = 0;
    assert(out@.len() * cap == 0) by (nonlinear_arith)
        requires out@.len() == 0;
    while start < n
        invariant
            cap > 0,
            n > 0,
            start <= n,
            start == n ==> out@.len() == (n + cap - 1) / (cap as int),
            start < n ==> start == out@.len() * cap,
            forall|i: int| 0 <= i < out@.len() ==>
                ((#[trigger] out@[i]).0 as int, out@[i].1 as int) == batch_range(i, cap as int, n as int),
        decreases n - start,
    {
        let k = out.len();
        let end: usize = if n - start > cap { start + cap } else { n };
        proof {
            assert(start == k * cap);
            assert((k + 1) * cap == k * cap + cap) by (nonlinear_arith);
        }
        let ghost before = out@;
        out.push((start, end));
        assert forall|i: int| 0 <= i < out@.len() implies
            ((#[trigger] out@[i]).0 as int, out@[i].1 as int) == batch_range(i, cap as int, n as int) by {
            if i < before.len() {
                assert(out@[i] == before[i]);
            }
        }
        if end == n {
            proof {
                assert((n + cap - 1) / (cap as int) == k + 1) by (nonlinear_arith)
                    requires k * cap < n, n <= k * cap + cap, cap > 0;
            }
        }
        start = end;
    }
    out
}

/// What one upload pass has done so far: rows the server accepted, batches
/// it refused, rows still pending after each file, and the last failure.
pub struct UploadPass {
    pub before: UploadStats,
    pub sent: u64,
    pub failed: u64,
    pub pending_after: u64,
    pub last_error: Option<String>,
}

/// Two sets of counters say the same.
pub open spec fn same_stats(a: UploadStats, b: UploadStats) -> bool {
    &&& a.total_sent == b.total_sent
    &&& a.last_upload_at == b.last_upload_at
    &&& a.pending == b.pending
    &&& match (a.last_error, b.last_error) {
        (Some(x), Some(y)) => x@ == y@,
        (None, None) => true,
        _ => false,
    }
}

fn stats_same(a: &UploadStats, b: &UploadStats) -> (r: bool)
    ensures
        r == same_stats(*a, *b),
{
    let errors = match (&a.last_error, &b.last_error) {
        (Some(x), Some(y)) => crate::text::str_eq(x.as_str(), y.as_str()),
        (None, None) => true,
        _ => false,
    };
    a.total_sent == b.total_sent && a.last_upload_at == b.last_upload_at && a.pending == b.pending && errors
}

impl UploadPass {
    /// A pass starting from the stored counters.
    pub fn new(before: UploadStats) -> (r: UploadPass)
        ensures
            r.before == before,
            r.sent == 0,
            r.failed == 0,
            r.pending_after == 0,
            r.last_error is None,
    {
        UploadPass { before, sent: 0, failed: 0, pending_after: 0, last_error: None }
    }

    /// The server accepted a batch: its rows and the gold points that rode
    /// with it are remembered, and its rows count as sent.
    pub fn accepted(&mut self, state: &mut UploadState, batch: &[&LedgerEntry], gold: &[&GoldPoint])
        requires
            old(self).sent + batch@.len() <= u64::MAX,
        ensures
            final(state).key_seq() == evict_oldest(
                merge_keys(
                    evict_oldest(merge_keys(old(state).key_seq(), entry_fps(batch@)), UploadState::MAX_KEYS as nat),
                    gold_fps(gold@),
                ),
                UploadState::MAX_KEYS as nat,
            ),
            distinct(final(state).key_seq()),
            final(state).stats_spec() == old(state).stats_spec(),
            final(self).sent == old(self).sent + batch@.len(),
            final(self).failed == old(self).failed,
            final(self).pending_after == old(self).pending_after,
            final(self).last_error == old(self).last_error,
            final(self).before == old(self).before,
    {
        state.remember_entries(batch);
        state.remember_gold(gold);
        self.sent = self.sent + batch.len() as u64;
    }

    /// The server refused a batch: the rest of that file waits for the next tick.
    pub fn refused(&mut self, error: String)
        requires
            old(self).failed < u64::MAX,
        ensures
            final(self).failed == old(self).failed + 1,
            final(self).last_error == Some(error),
            final(self).sent == old(self).sent,
            final(self).pending_after == old(self).pending_after,
            final(self).before == old(self).before,
    {
        self.failed = self.failed + 1;
        self.last_error = Some(error);
    }

    /// A file that could not be read is reported and skipped.
    pub fn unreadable(&mut self, error: String)
        ensures
            final(self).last_error == Some(error),
            final(self).failed == old(self).failed,
            final(self).sent == old(self).sent,
            final(self).pending_after == old(self).pending_after,
            final(self).before == old(self).before,
    {
        self.last_error = Some(error);
    }

    /// After a file's batches, its rows and points still unsent are counted
    /// against the updated state, so "queue empty" is a fact, not a hope.
    pub fn recount(&mut self, data: &LedgerData, state: &UploadState)
        requires
            old(self).pending_after + data.entries@.len() + data.gold@.len() <= u64::MAX,
        ensures
            final(self).pending_after == old(self).pending_after
                + pending_entries(data.entries@, state.key_seq()).len()
                + pending_gold(data.gold@, state.key_seq()).len(),
            final(self).sent == old(self).sent,
            final(self).failed == old(self).failed,
            final(self).last_error == old(self).last_error,
            final(self).before == old(self).before,
    {
        let (entries, gold) = pending(data, state);
        proof {
            lemma_pending_entries_len(data.entries@, state.key_seq());
            lemma_pending_gold_len(data.gold@, state.key_seq());
            assert(entries@.len() == entries@.map_values(|e: &LedgerEntry| *e).len());
            assert(gold@.len() == gold@.map_values(|g: &GoldPoint| *g).len());
        }
        self.pending_after = self.pending_after + entries.len() as u64 + gold.len() as u64;
    }

    /// Ends the pass: the pending count and last failure are stored, the sent
    /// rows counted and stamped when there were any. Returns whether the state
    /// must be saved: something was sent, or the counters changed.
    pub fn finish(self, state: &mut UploadState, now: i64) -> (save: bool)
        requires
            old(state).stats_spec().total_sent + self.sent <= u64::MAX,
        ensures
            final(state).key_seq() == old(state).key_seq(),
            distinct(final(state).key_seq()),
            final(state).stats_spec() == (UploadStats {
                total_sent: (old(state).stats_spec().total_sent + self.sent) as u64,
                last_upload_at: if self.sent > 0 { Some(now) } else { old(state).stats_spec().last_upload_at },
                pending: self.pending_after,
                last_error: self.last_error,
            }),
            save == (self.sent > 0 || !same_stats(final(state).stats_spec(), self.before)),
    {
        state.set_pending(self.pending_after);
        state.set_last_error(self.last_error);
        if self.sent > 0 {
            state.record_upload(self.sent, now);
        }
        self.sent > 0 || !stats_same(state.stats(), &self.before)
    }
}

proof fn lemma_pending_entries_len(es: Seq<LedgerEntry>, keys: Seq<Seq<char>>)
    ensures
        pending_entries(es, keys).len() <= es.len(),
    decreases es.len(),
{
    if es.len() > 0 {
        lemma_pending_entries_len(es.drop_last(), keys);
    }
}

proof fn lemma_pending_gold_len(gs: Seq<GoldPoint>, keys: Seq<Seq<char>>)
    ensures
        pending_gold(gs, keys).len() <= gs.len(),
    decreases gs.len(),
{
    if gs.len() > 0 {
        lemma_pending_gold_len(gs.drop_last(), keys);
    }
}

/// How many observations a file holds for a region other than the configured one.
pub fn wrong_region_count(data: &LedgerData, region: &str) -> (r: usize)
    ensures
        r == data.observations@.filter(|o: LiveObservation| o.region@ != region@).len(),
{
    let mut count: usize = 0;
    let mut i: usize = 0;
    while i < data.observations.len()
        invariant
            i <= data.observations@.len(),
            count == data.observations@.take(i as int).filter(|o: LiveObservation| o.region@ != region@).len(),
            count <= i,
        decreases data.observations.len() - i,
    {
        proof {
            reveal(Seq::filter);
            assert(data.observations@.take(i + 1).drop_last() =~= data.observations@.take(i as int));
        }
        if !crate::text::str_eq(data.observations[i].region.as_str(), region) {
            count = count + 1;
        }
        i = i + 1;
    }
    assert(data.observations@.take(i as int) =~= data.observations@);
    count
}

} // verus!

verus! {

/// Whether anything may be posted with this token: every upload is refused
/// until the companion is paired, so an unpaired companion only ever reads.
pub fn may_upload(token: &str) -> (r: bool)
    ensures
        r == (crate::text::trim_seq(token@).len() > 0),
{
    !crate::text::is_blank(token)
}

/// The batches one file's pending rows go up in: none when nothing is
/// pending; otherwise the ledger rows in batches of at most `MAX_BATCH`, with
/// one empty batch when only gold points wait, since those ride along.
pub fn file_batches(entries: usize, gold: usize) -> (r: Vec<(usize, usize)>)
    ensures
        entries == 0 && gold == 0 ==> r@.len() == 0,
        entries == 0 && gold > 0 ==> r@.len() == 1 && r@[0] == (0usize, 0usize),
        entries > 0 ==> r@.len() == (entries + MAX_BATCH - 1) / (MAX_BATCH as int),
        entries > 0 ==> forall|i: int| 0 <= i < r@.len() ==>
            ((#[trigger] r@[i]).0 as int, r@[i].1 as int) == batch_range(i, MAX_BATCH as int, entries as int),
{
    if entries == 0 && gold == 0 {
        return Vec::new();
    }
    batch_ranges(entries, MAX_BATCH)
}

/// What the ledger loop does next.
#[derive(Debug, Clone, Copy, PartialEq, Eq, Structural)]
pub enum UploadAction {
    /// Nothing more goes up from this file this tick.
    Stop,
    /// Post the pending rows `start..end`, and the pending gold points with
    /// them when `with_gold`.
    Send { start: usize, end: usize, with_gold: bool },
}

impl UploadPass {
    /// The next step of one file's upload: nothing while unpaired, nothing
    /// more once a batch was refused (the rest waits for the next tick) or
    /// every batch went up; otherwise the next batch, with the gold points
    /// riding along on the first one only.
    pub fn next_action(&self, token: &str, ranges: &[(usize, usize)], done: usize, last_refused: bool) -> (r: UploadAction)
        ensures
            crate::text::trim_seq(token@).len() == 0 ==> r == UploadAction::Stop,
            last_refused ==> r == UploadAction::Stop,
            done >= ranges@.len() ==> r == UploadAction::Stop,
            crate::text::trim_seq(token@).len() > 0 && !last_refused && done < ranges@.len() ==>
                r == (UploadAction::Send { start: ranges@[done as int].0, end: ranges@[done as int].1, with_gold: done == 0 }),
    {
        if !may_upload(token) || last_refused || done >= ranges.len() {
            return UploadAction::Stop;
        }
        let (start, end) = ranges[done];
        UploadAction::Send { start, end, with_gold: done == 0 }
    }
}

/// The batches a file's pending live observations go up in: none while
/// unpaired or with no realm configured; otherwise at most
/// `MAX_OBSERVATION_BATCH` rows each, in order, covering every row once.
pub fn observation_batches(token: &str, realm_slug: &str, n: usize) -> (r: Vec<(usize, usize)>)
    ensures
        crate::text::trim_seq(token@).len() == 0 || crate::text::trim_seq(realm_slug@).len() == 0 ==> r@.len() == 0,
        crate::text::trim_seq(token@).len() > 0 && crate::text::trim_seq(realm_slug@).len() > 0 ==> {
            &&& r@.len() == (n + MAX_OBSERVATION_BATCH - 1) / (MAX_OBSERVATION_BATCH as int)
            &&& forall|i: int| 0 <= i < r@.len() ==>
                ((#[trigger] r@[i]).0 as int, r@[i].1 as int) == batch_range(i, MAX_OBSERVATION_BATCH as int, n as int)
        },
{
    if !may_upload(token) || crate::text::is_blank(realm_slug) || n == 0 {
        proof {
            if n == 0 {
                assert((0 + MAX_OBSERVATION_BATCH - 1) / (MAX_OBSERVATION_BATCH as int) == 0);
            }
        }
        return Vec::new();
    }
    batch_ranges(n, MAX_OBSERVATION_BATCH)
}

/// The next batch of live observations, or `None` once every batch went up
/// or one was refused: the rest waits for the next tick.
pub fn next_observation_batch(batches: &[(usize, usize)], done: usize, last_refused: bool) -> (r: Option<(usize, usize)>)
    ensures
        last_refused || done >= batches@.len() ==> r is None,
        !last_refused && done < batches@.len() ==> r == Some(batches@[done as int]),
{
    if last_refused || done >= batches.len() {
        None
    } else {
        Some(batches[done])
    }
}

} // verus!
