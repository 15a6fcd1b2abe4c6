//! The Status screen's view of the whole pipeline: `goldcap.gg -> companion ->
//! addon` for prices and `addon -> companion -> goldcap.gg` for the ledger,
//! three stages, each with its health, when it last worked, and what to say.
use vstd::prelude::*;
use crate::config::{Config, region_text, is_complete_spec};
use crate::health::GameHealth;
use crate::sync::{SyncErrorStage, SyncStatus, Timestamp, unix_secs};
use crate::text::{digits, is_blank, trim_seq, push_u64};

verus! {

#[derive(Debug, Clone, Copy, PartialEq, Eq, Structural)]
pub enum StageHealth {
    /// The link works.
    Good,
    /// Nothing is wrong: this link simply is not hooked up yet (not paired,
    /// or the game has never written a ledger). Must not read as an error.
    NotConnected,
    Broken,
}

#[derive(Debug, Clone, PartialEq)]
pub struct StageState {
    pub state: StageHealth,
    /// Unix seconds of this stage's last success.
    pub at: Option<i64>,
    pub detail: String,
    pub error: Option<String>,
}

#[derive(Debug, Clone, PartialEq)]
pub struct StatusSnapshot {
    pub configured: bool,
    pub paired: bool,
    pub region: String,
    pub realm_slug: String,
    pub syncing: bool,
    pub next_tick_at: Option<i64>,
    pub interval_minutes: u32,
    pub prices: StageState,
    pub addon: StageState,
    pub ledger: StageState,
    pub version: String,
}

/// A stage as plain values: health, last success, detail and error.
pub struct StageView {
    pub state: StageHealth,
    pub at: Option<i64>,
    pub detail: Seq<char>,
    pub error: Option<Seq<char>>,
}

pub open spec fn opt_text(o: Option<String>) -> Option<Seq<char>> {
    match o {
        Some(s) => Some(s@),
        None => None,
    }
}

pub open spec fn view_of(s: StageState) -> StageView {
    StageView { state: s.state, at: s.at, detail: s.detail@, error: opt_text(s.error) }
}

pub open spec fn when(at: Option<Timestamp>) -> Option<i64> {
    match at {
        Some(t) => unix_secs(t),
        None => None,
    }
}

pub open spec fn sv(state: StageHealth, at: Option<i64>, detail: Seq<char>, error: Option<Seq<char>>) -> StageView {
    StageView { state, at, detail, error }
}

/// The prices stage: not connected until set up; broken (still showing when it
/// last worked) when the last tick failed reaching goldcap.gg; fine once a
/// fetch has worked.
pub open spec fn prices_view(configured: bool, status: SyncStatus) -> StageView {
    if !configured {
        sv(StageHealth::NotConnected, None, "Waiting for setup"@, None)
    } else if status.last_error_stage == Some(SyncErrorStage::Prices) {
        sv(StageHealth::Broken, when(status.last_success_at), "Could not reach goldcap.gg"@, opt_text(status.last_error))
    } else if when(status.last_success_at) is Some {
        sv(StageHealth::Good, when(status.last_success_at), "Fetched from goldcap.gg"@, None)
    } else {
        sv(StageHealth::NotConnected, None, "No sync yet"@, None)
    }
}

/// The addon stage: not connected until set up; broken when the addon is
/// missing, or when the last tick failed writing (said differently for a
/// folder the game never ran in); fine once the price file exists.
pub open spec fn addon_view(configured: bool, status: SyncStatus, health: GameHealth) -> StageView {
    if !configured {
        sv(StageHealth::NotConnected, None, "Waiting for setup"@, None)
    } else if !health.addon_installed {
        sv(StageHealth::Broken, None, "The GoldCap addon is not installed"@, None)
    } else if status.last_error_stage == Some(SyncErrorStage::Addon) {
        sv(
            StageHealth::Broken,
            health.app_data_written_at,
            if health.install_ok { "Could not write price data"@ } else { "This doesn't look like a played WoW install"@ },
            opt_text(status.last_error),
        )
    } else if health.app_data_written_at is Some {
        sv(StageHealth::Good, health.app_data_written_at, "Written to GoldCap_AppData"@, None)
    } else {
        sv(StageHealth::NotConnected, None, "No price file written yet"@, None)
    }
}

/// How the ledger queue reads: empty, or how many rows wait.
pub open spec fn queue_text(pending: u64) -> Seq<char> {
    if pending == 0 {
        "queue empty"@
    } else {
        digits(pending as nat) + " queued"@
    }
}

/// The ledger stage: not connected until set up, unpaired, or before the game
/// has written a ledger; broken when the server refused the last upload;
/// otherwise fine, with the rows sent and the queue.
pub open spec fn ledger_view(configured: bool, paired: bool, status: SyncStatus, health: GameHealth) -> StageView {
    if !configured {
        sv(StageHealth::NotConnected, None, "Waiting for setup"@, None)
    } else if !paired {
        sv(StageHealth::NotConnected, None, "Not paired \u{2014} nothing is uploaded"@, None)
    } else if status.upload.last_error is Some {
        sv(StageHealth::Broken, status.upload.last_upload_at, "Upload was refused"@, opt_text(status.upload.last_error))
    } else if health.saved_vars_written_at is None {
        sv(StageHealth::NotConnected, None, "No ledger yet \u{2014} launch WoW with GoldCap"@, None)
    } else {
        sv(
            StageHealth::Good,
            status.upload.last_upload_at,
            digits(status.upload.total_sent as nat) + " rows sent \u{b7} "@ + queue_text(status.upload.pending),
            None,
        )
    }
}

/// Paired means holding a non-blank upload token.
pub open spec fn is_paired_spec(c: Config) -> bool {
    trim_seq(c.companion_token@).len() > 0
}

fn stage(state: StageHealth, at: Option<i64>, detail: &str, error: Option<String>) -> (r: StageState)
    ensures
        r.state == state,
        r.at == at,
        r.detail@ == detail@,
        r.error == error,
{
    StageState { state, at, detail: String::from_str(detail), error }
}

fn opt_clone(o: &Option<String>) -> (r: Option<String>)
    ensures
        opt_text(r) == opt_text(*o),
{
    match o {
        Some(s) => Some(s.clone()),
        None => None,
    }
}

fn when_exec(at: Option<Timestamp>) -> (r: Option<i64>)
    ensures
        r == when(at),
{
    match at {
        Some(t) => t.unix(),
        None => None,
    }
}

fn prices_stage(configured: bool, status: &SyncStatus) -> (r: StageState)
    ensures
        view_of(r) == prices_view(configured, *status),
{
    if !configured {
        return stage(StageHealth::NotConnected, None, "Waiting for setup", None);
    }
    let last = when_exec(status.last_success_at);
    if status.last_error_stage == Some(SyncErrorStage::Prices) {
        stage(StageHealth::Broken, last, "Could not reach goldcap.gg", opt_clone(&status.last_error))
    } else if last.is_some() {
        stage(StageHealth::Good, last, "Fetched from goldcap.gg", None)
    } else {
        stage(StageHealth::NotConnected, None, "No sync yet", None)
    }
}

fn addon_stage(configured: bool, status: &SyncStatus, health: &GameHealth) -> (r: StageState)
    ensures
        view_of(r) == addon_view(configured, *status, *health),
{
    if !configured {
        stage(StageHealth::NotConnected, None, "Waiting for setup", None)
    } else if !health.addon_installed {
        stage(StageHealth::Broken, None, "The GoldCap addon is not installed", None)
    } else if status.last_error_stage == Some(SyncErrorStage::Addon) {
        let detail = if health.install_ok {
            "Could not write price data"
        } else {
            "This doesn't look like a played WoW install"
        };
        stage(StageHealth::Broken, health.app_data_written_at, detail, opt_clone(&status.last_error))
    } else if health.app_data_written_at.is_some() {
        stage(StageHealth::Good, health.app_data_written_at, "Written to GoldCap_AppData", None)
    } else {
        stage(StageHealth::NotConnected, None, "No price file written yet", None)
    }
}

fn ledger_stage(configured: bool, paired: bool, status: &SyncStatus, health: &GameHealth) -> (r: StageState)
    ensures
        view_of(r) == ledger_view(configured, paired, *status, *health),
{
    if !configured {
        stage(StageHealth::NotConnected, None, "Waiting for setup", None)
    } else if !paired {
        stage(StageHealth::NotConnected, None, "Not paired \u{2014} nothing is uploaded", None)
    } else if status.upload.last_error.is_some() {
        stage(StageHealth::Broken, status.upload.last_upload_at, "Upload was refused", opt_clone(&status.upload.last_error))
    } else if health.saved_vars_written_at.is_none() {
        stage(StageHealth::NotConnected, None, "No ledger yet \u{2014} launch WoW with GoldCap", None)
    } else {
        let mut detail = String::new();
        push_u64(&mut detail, status.upload.total_sent);
        detail.append(" rows sent \u{b7} ");
        if status.upload.pending == 0 {
            detail.append("queue empty");
        } else {
            push_u64(&mut detail, status.upload.pending);
            detail.append(" queued");
        }
        assert(detail@ =~= digits(status.upload.total_sent as nat) + " rows sent \u{b7} "@ + queue_text(status.upload.pending));
        StageState { state: StageHealth::Good, at: status.upload.last_upload_at, detail, error: None }
    }
}

/// The Status screen for `config`, the last ticks' `status` and the
/// install's `health`. `_now` is unused: the screen formats ages itself.
pub fn build(config: &Config, status: &SyncStatus, health: &GameHealth, _now: i64) -> (r: StatusSnapshot)
    ensures
        r.configured == is_complete_spec(*config),
        r.paired == is_paired_spec(*config),
        r.region@ == region_text(config.region),
        r.realm_slug@ == config.realm_slug@,
        r.syncing == status.syncing,
        r.next_tick_at == when(status.next_tick_at),
        r.interval_minutes == config.interval_minutes,
        view_of(r.prices) == prices_view(is_complete_spec(*config), *status),
        view_of(r.addon) == addon_view(is_complete_spec(*config), *status, *health),
        view_of(r.ledger) == ledger_view(is_complete_spec(*config), is_paired_spec(*config), *status, *health),
        r.version@ == "1.13.0"@,
{
    let configured = config.is_complete();
    let paired = !is_blank(config.companion_token.as_str());
    let prices = prices_stage(configured, status);
    let addon = addon_stage(configured, status, health);
    let ledger = ledger_stage(configured, paired, status, health);
    StatusSnapshot {
        configured,
        paired,
        region: config.region.to_string(),
        realm_slug: config.realm_slug.clone(),
        syncing: status.syncing,
        next_tick_at: when_exec(status.next_tick_at),
        interval_minutes: config.interval_minutes,
        prices,
        addon,
        ledger,
        version: String::from_str("1.13.0"),
    }
}

} // verus!

verus! {

/// When the ledger stage shows a time, it is when the ledger last went up to
/// goldcap.gg: a working or refused link shows the last upload time (never
/// the game's SavedVariables time), and a link not yet hooked up shows none.
/// It works exactly when set up, paired, not refused, and a ledger exists.
pub proof fn law_ledger_stage_time_is_last_upload(
    configured: bool,
    paired: bool,
    status: SyncStatus,
    health: GameHealth,
)
    ensures
        ({
            let v = ledger_view(configured, paired, status, health);
            &&& (v.state == StageHealth::Good || v.state == StageHealth::Broken) ==> v.at == status.upload.last_upload_at
            &&& v.state == StageHealth::NotConnected ==> v.at is None
            &&& v.state == StageHealth::Good <==> (configured && paired && status.upload.last_error is None
                && health.saved_vars_written_at is Some)
            &&& v.state == StageHealth::Broken <==> (configured && paired && status.upload.last_error is Some)
        }),
{
}

/// The prices stage's time is the last successful sync, and the addon
/// stage's is when the price file was written; a stage not hooked up shows
/// none.
pub proof fn law_stage_times_come_from_their_own_link(configured: bool, status: SyncStatus, health: GameHealth)
    ensures
        ({
            let p = prices_view(configured, status);
            &&& p.state != StageHealth::NotConnected ==> p.at == when(status.last_success_at)
            &&& p.state == StageHealth::NotConnected ==> p.at is None
        }),
        ({
            let a = addon_view(configured, status, health);
            &&& a.state == StageHealth::Good ==> a.at == health.app_data_written_at
            &&& a.state == StageHealth::NotConnected ==> a.at is None
        }),
{
}

} // verus!
