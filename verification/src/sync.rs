//! The sync loop's decisions: which realm a tick is for, how a tick's fetch
//! and write are attributed to the Status screen's stages, the shared status
//! snapshot every tick updates, and the tray label read from it. Fetching,
//! writing and the timer itself are the caller's.
use vstd::prelude::*;
use crate::config::Config;
use crate::text::{chars_of, digits, push_char, push_u64, is_blank, trim_bounds, trim_seq};
use crate::upload::UploadStats;

verus! {

/// A point in time: whole seconds since the unix epoch (the floor, for an
/// instant before it) and the nanoseconds past them, below one second.
#[derive(Debug, Clone, Copy, PartialEq, Eq, Structural)]
pub struct Timestamp {
    pub secs: i64,
    pub nanos: u32,
}

/// The instant `t` stands for, in nanoseconds since the epoch.
pub open spec fn total_nanos(t: Timestamp) -> int {
    t.secs * 1_000_000_000 + t.nanos
}

/// Whole seconds from `at` to `now`; zero when `at` is later than `now`.
pub open spec fn secs_between(at: Timestamp, now: Timestamp) -> int {
    if total_nanos(now) >= total_nanos(at) {
        (total_nanos(now) - total_nanos(at)) / 1_000_000_000
    } else {
        0
    }
}

/// Whole seconds from the epoch to `at`, or `None` before the epoch.
pub open spec fn unix_secs(at: Timestamp) -> Option<i64> {
    if at.secs >= 0 {
        Some(at.secs)
    } else {
        None
    }
}

impl Timestamp {
    /// The start of the given unix second.
    pub fn from_unix(secs: i64) -> (r: Timestamp)
        ensures
            r.secs == secs,
            r.nanos == 0,
    {
        Timestamp { secs, nanos: 0 }
    }

    /// Whole seconds since the epoch, or `None` for an instant before it.
    pub fn unix(&self) -> (r: Option<i64>)
        ensures
            r == unix_secs(*self),
    {
        if self.secs >= 0 {
            Some(self.secs)
        } else {
            None
        }
    }
}

/// Whole seconds from `at` to `now`, never negative.
pub fn elapsed_secs(at: Timestamp, now: Timestamp) -> (r: u128)
    ensures
        r == secs_between(at, now),
{
    let a: i128 = at.secs as i128 * 1_000_000_000 + at.nanos as i128;
    let b: i128 = now.secs as i128 * 1_000_000_000 + now.nanos as i128;
    if b >= a {
        ((b - a) / 1_000_000_000) as u128
    } else {
        0
    }
}

/// Why a tick failed.
#[derive(Debug, Clone, PartialEq, Eq)]
pub enum SyncError {
    Request(String),
    BadStatus(u16),
    InvalidBody,
    Write(String),
}

/// Which leg of the pipeline a failure belongs to: the Status screen
/// attributes a broken tick to exactly one of its stage rows.
#[derive(Debug, Clone, Copy, PartialEq, Eq, Structural)]
pub enum SyncErrorStage {
    /// Reaching goldcap.gg: the request, its status, or a body that was not
    /// a GCS1 import string.
    Prices,
    /// The fetch succeeded; writing into the addon folder failed.
    Addon,
}

/// The stage a failure is shown on: a write failure on the addon's, any
/// other on the prices'.
pub open spec fn stage_of(e: SyncError) -> SyncErrorStage {
    match e {
        SyncError::Write(_) => SyncErrorStage::Addon,
        _ => SyncErrorStage::Prices,
    }
}

/// How a failure reads in the log and on the Status screen.
pub open spec fn error_text(e: SyncError) -> Seq<char> {
    match e {
        SyncError::Request(msg) => "request failed: "@ + msg@,
        SyncError::BadStatus(code) => "unexpected status "@ + digits(code as nat),
        SyncError::InvalidBody => "response was not a GCS1 import string"@,
        SyncError::Write(msg) => "failed to write addon files: "@ + msg@,
    }
}

impl SyncError {
    pub fn stage(&self) -> (r: SyncErrorStage)
        ensures
            r == stage_of(*self),
    {
        match self {
            SyncError::Write(_) => SyncErrorStage::Addon,
            SyncError::Request(_) => SyncErrorStage::Prices,
            SyncError::BadStatus(_) => SyncErrorStage::Prices,
            SyncError::InvalidBody => SyncErrorStage::Prices,
        }
    }

    /// The failure as a sentence.
    pub fn to_string(&self) -> (r: String)
        ensures
            r@ == error_text(*self),
    {
        match self {
            SyncError::Request(msg) => {
                let mut out = String::from_str("request failed: ");
                out.append(msg.as_str());
                out
            },
            SyncError::BadStatus(code) => {
                let mut out = String::from_str("unexpected status ");
                push_u64(&mut out, *code as u64);
                out
            },
            SyncError::InvalidBody => String::from_str("response was not a GCS1 import string"),
            SyncError::Write(msg) => {
                let mut out = String::from_str("failed to write addon files: ");
                out.append(msg.as_str());
                out
            },
        }
    }
}

/// The tray-readable snapshot of the last sync attempt.
#[derive(Debug, Clone, PartialEq)]
pub struct SyncStatus {
    pub last_success_at: Option<Timestamp>,
    pub last_success_realm: Option<String>,
    pub last_error: Option<String>,
    /// Which stage `last_error` belongs to; set together with it, by the same tick.
    pub last_error_stage: Option<SyncErrorStage>,
    /// When a tick last ran, successful or not: a run of failures must not
    /// look like silence.
    pub last_attempt_at: Option<Timestamp>,
    /// A tick is in flight.
    pub syncing: bool,
    /// When the interval timer next fires.
    pub next_tick_at: Option<Timestamp>,
    pub upload: UploadStats,
}

impl Default for SyncStatus {
    fn default() -> (r: SyncStatus)
        ensures
            r.last_success_at is None,
            r.last_success_realm is None,
            r.last_error is None,
            r.last_error_stage is None,
            r.last_attempt_at is None,
            !r.syncing,
            r.next_tick_at is None,
            r.upload == UploadStats::default_spec(),
    {
        SyncStatus {
            last_success_at: None,
            last_success_realm: None,
            last_error: None,
            last_error_stage: None,
            last_attempt_at: None,
            syncing: false,
            next_tick_at: None,
            upload: UploadStats::default(),
        }
    }
}

/// An error message and the stage it belongs to are present together or not at all.
pub open spec fn error_paired(s: SyncStatus) -> bool {
    (s.last_error is Some) == (s.last_error_stage is Some)
}

/// `s` cut to `max` characters: unchanged when it fits, otherwise its first
/// `max - 1` characters and an ellipsis.
pub open spec fn truncated(s: Seq<char>, max: int) -> Seq<char> {
    if s.len() <= max {
        s
    } else {
        s.take(if max >= 1 { max - 1 } else { 0 }) + seq!['\u{2026}']
    }
}

/// How long ago something happened, coarsely: under a minute is "just now",
/// then whole minutes, hours or days.
pub open spec fn age_text(e: int) -> Seq<char> {
    if e < 60 {
        "just now"@
    } else if e < 3600 {
        digits((e / 60) as nat) + "m ago"@
    } else if e < 86400 {
        digits((e / 3600) as nat) + "h ago"@
    } else {
        digits((e / 86400) as nat) + "d ago"@
    }
}

/// The tray label: the error first whenever there is one, else the last
/// successful realm and its age, else "not synced yet".
pub open spec fn label_text(s: SyncStatus, now: Timestamp) -> Seq<char> {
    match s.last_error {
        Some(e) => "error: "@ + truncated(e@, 60),
        None => match (s.last_success_realm, s.last_success_at) {
            (Some(realm), Some(at)) => "synced "@ + realm@ + " "@ + age_text(secs_between(at, now)),
            _ => "not synced yet"@,
        },
    }
}

/// `s` cut to at most `max_chars` characters, the last of them an ellipsis
/// when anything was cut.
pub fn truncate(s: &str, max_chars: usize) -> (r: String)
    ensures
        r@ == truncated(s@, max_chars as int),
        max_chars >= 1 ==> r@.len() <= max_chars,
{
    let v = chars_of(s);
    if v.len() <= max_chars {
        return String::from_str(s);
    }
    let keep: usize = if max_chars >= 1 { max_chars - 1 } else { 0 };
    let mut out = String::new();
    let mut i: usize = 0;
    while i < keep
        invariant
            keep < v@.len(),
            i <= keep,
            out@ == v@.take(i as int),
        decreases keep - i,
    {
        push_char(&mut out, v[i]);
        assert(v@.take(i + 1) =~= v@.take(i as int).push(v@[i as int]));
        i = i + 1;
    }
    push_char(&mut out, '\u{2026}');
    out
}

/// How long before `now` the instant `at` was, as the tray says it.
pub fn humanize_age(at: Timestamp, now: Timestamp) -> (r: String)
    ensures
        r@ == age_text(secs_between(at, now)),
{
    let e = elapsed_secs(at, now);
    if e < 60 {
        String::from_str("just now")
    } else if e < 3600 {
        let mut out = String::new();
        push_u64(&mut out, (e / 60) as u64);
        out.append("m ago");
        out
    } else if e < 86_400 {
        let mut out = String::new();
        push_u64(&mut out, (e / 3600) as u64);
        out.append("h ago");
        out
    } else {
        let mut out = String::new();
        push_u64(&mut out, (e / 86_400) as u64);
        out.append("d ago");
        out
    }
}

impl SyncStatus {
    /// Tray label: `"synced dentarg 12m ago"`, `"error: <short>"`, or
    /// `"not synced yet"` before the first attempt completes.
    pub fn label(&self, now: Timestamp) -> (r: String)
        ensures
            r@ == label_text(*self, now),
    {
        match &self.last_error {
            Some(err) => {
                let mut out = String::from_str("error: ");
                let short = truncate(err.as_str(), 60);
                out.append(short.as_str());
                return out;
            },
            None => {},
        }
        match (&self.last_success_realm, self.last_success_at) {
            (Some(realm), Some(at)) => {
                let mut out = String::from_str("synced ");
                out.append(realm.as_str());
                out.append(" ");
                let age = humanize_age(at, now);
                out.append(age.as_str());
                out
            },
            _ => String::from_str("not synced yet"),
        }
    }
}

/// Publishes when the interval timer next fires.
pub fn schedule_next_tick(status: &mut SyncStatus, at: Timestamp)
    ensures
        *final(status) == (SyncStatus { next_tick_at: Some(at), ..*old(status) }),
{
    status.next_tick_at = Some(at);
}

/// Marks a tick as started (stamping the attempt) or finished.
pub fn set_syncing(status: &mut SyncStatus, syncing: bool, now: Timestamp)
    ensures
        *final(status) == (if syncing {
            SyncStatus { syncing, last_attempt_at: Some(now), ..*old(status) }
        } else {
            SyncStatus { syncing, ..*old(status) }
        }),
{
    status.syncing = syncing;
    if syncing {
        status.last_attempt_at = Some(now);
    }
}

/// The realm a tick is for: the configured slug, trimmed, when both it and
/// the install path are set; `None` means the tick has nothing to do.
pub fn sync_target(config: &Config) -> (r: Option<String>)
    ensures
        match r {
            Some(slug) => slug@ == trim_seq(config.realm_slug@) && slug@.len() > 0
                && trim_seq(config.wow_retail_path@).len() > 0,
            None => trim_seq(config.realm_slug@).len() == 0 || trim_seq(config.wow_retail_path@).len() == 0,
        },
{
    let v = chars_of(config.realm_slug.as_str());
    let (a, b) = trim_bounds(&v);
    if a >= b || is_blank(config.wow_retail_path.as_str()) {
        return None;
    }
    let mut out = String::new();
    let mut i: usize = a;
    while i < b
        invariant
            a <= i <= b,
            b <= v@.len(),
            out@ == v@.subrange(a as int, i as int),
        decreases b - i,
    {
        push_char(&mut out, v[i]);
        assert(v@.subrange(a as int, i + 1) =~= v@.subrange(a as int, i as int).push(v@[i as int]));
        i = i + 1;
    }
    Some(out)
}

/// The refusal recorded when a tick has no realm or install path to work with.
pub open spec fn unconfigured_text() -> Seq<char> {
    "not configured (realm or WoW path missing)"@
}

/// Records a tick that could not start: no realm or no install path. The
/// failure is shown on the prices stage.
pub fn record_unconfigured(status: &mut SyncStatus)
    ensures
        final(status).last_error matches Some(m) && m@ == unconfigured_text(),
        final(status).last_error_stage == Some(SyncErrorStage::Prices),
        final(status).last_success_at == old(status).last_success_at,
        final(status).last_success_realm == old(status).last_success_realm,
        final(status).last_attempt_at == old(status).last_attempt_at,
        final(status).syncing == old(status).syncing,
        final(status).next_tick_at == old(status).next_tick_at,
        final(status).upload == old(status).upload,
        error_paired(*final(status)),
{
    status.last_error = Some(String::from_str("not configured (realm or WoW path missing)"));
    status.last_error_stage = Some(SyncErrorStage::Prices);
}

/// How a started tick went.
#[derive(Debug, Clone, PartialEq, Eq)]
pub enum TickOutcome {
    /// Fetched and written.
    Written,
    /// Fetched, but writing into the addon folder failed.
    WriteFailed(SyncError),
    /// The fetch failed; nothing was written.
    FetchFailed(SyncError),
}

/// The failure a tick ends with, if any.
pub open spec fn outcome_error(o: TickOutcome) -> Option<SyncError> {
    match o {
        TickOutcome::Written => None,
        TickOutcome::WriteFailed(e) => Some(e),
        TickOutcome::FetchFailed(e) => Some(e),
    }
}

/// Records a finished tick: the ledger counters it brought, the end of the
/// in-flight state, a success whenever the fetch worked (even if the write
/// then failed), and the tick's failure, if any, on the stage it belongs to.
pub fn record_tick(status: &mut SyncStatus, outcome: TickOutcome, upload: UploadStats, realm_slug: String, now: Timestamp)
    ensures
        final(status).upload == upload,
        !final(status).syncing,
        (outcome is FetchFailed) ==> final(status).last_success_at == old(status).last_success_at
            && final(status).last_success_realm == old(status).last_success_realm,
        !(outcome is FetchFailed) ==> final(status).last_success_at == Some(now)
            && final(status).last_success_realm == Some(realm_slug),
        match outcome_error(outcome) {
            None => final(status).last_error is None && final(status).last_error_stage is None,
            Some(e) => final(status).last_error matches Some(m) && m@ == error_text(e)
                && final(status).last_error_stage == Some(stage_of(e)),
        },
        final(status).last_attempt_at == old(status).last_attempt_at,
        final(status).next_tick_at == old(status).next_tick_at,
        error_paired(*final(status)),
{
    status.upload = upload;
    status.syncing = false;
    let failure: Option<SyncError> = match outcome {
        TickOutcome::Written => {
            status.last_success_at = Some(now);
            status.last_success_realm = Some(realm_slug);
            None
        },
        TickOutcome::WriteFailed(e) => {
            status.last_success_at = Some(now);
            status.last_success_realm = Some(realm_slug);
            Some(e)
        },
        TickOutcome::FetchFailed(e) => Some(e),
    };
    match failure {
        None => {
            status.last_error = None;
            status.last_error_stage = None;
        },
        Some(e) => {
            status.last_error_stage = Some(e.stage());
            status.last_error = Some(e.to_string());
        },
    }
}

} // verus!

verus! {

/// What a fetched import-string response comes to: only a 2xx answer whose
/// body starts with the GCS1 magic prefix is a success; any other status, or
/// a body that is not an import string, is a failure and is never written.
pub fn check_import_response(status: u16, body: String) -> (r: Result<String, SyncError>)
    ensures
        !(200 <= status < 300) ==> r == Err::<String, SyncError>(SyncError::BadStatus(status)),
        (200 <= status < 300 && !crate::luafile::gcs1_magic().is_prefix_of(body@))
            ==> r == Err::<String, SyncError>(SyncError::InvalidBody),
        (200 <= status < 300 && crate::luafile::gcs1_magic().is_prefix_of(body@))
            ==> r == Ok::<String, SyncError>(body),
{
    if !(200 <= status && status < 300) {
        return Err(SyncError::BadStatus(status));
    }
    if !crate::luafile::is_valid_gcs1_body(body.as_str()) {
        return Err(SyncError::InvalidBody);
    }
    Ok(body)
}

} // verus!

verus! {

/// Whenever an error is recorded the tray shows it, ahead of any success,
/// cut to fit: at most 60 characters of it follow the `error: ` prefix.
pub proof fn law_error_first_and_short(s: SyncStatus, now: Timestamp)
    requires
        s.last_error is Some,
    ensures
        label_text(s, now) == "error: "@ + truncated(s.last_error->0@, 60),
        truncated(s.last_error->0@, 60).len() <= 60,
{
}

/// Recording a tick leaves the error and its stage set together, and so do
/// scheduling and the in-flight flag, which touch neither.
pub proof fn law_error_and_stage_stay_paired(s: SyncStatus, at: Timestamp, syncing: bool)
    requires
        error_paired(s),
    ensures
        error_paired(SyncStatus { next_tick_at: Some(at), ..s }),
        error_paired(SyncStatus { syncing, last_attempt_at: Some(at), ..s }),
{
}

} // verus!
