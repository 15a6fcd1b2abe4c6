use goldcap_companion::config::Config;
use goldcap_companion::sync::{
    check_import_response, elapsed_secs, humanize_age, record_tick, record_unconfigured,
    schedule_next_tick, set_syncing, sync_target, truncate, SyncError, SyncErrorStage, SyncStatus,
    TickOutcome, Timestamp,
};
use goldcap_companion::upload::UploadStats;
use std::time::{Duration, SystemTime, UNIX_EPOCH};

fn stamp(t: SystemTime) -> Timestamp {
    let d = t.duration_since(UNIX_EPOCH).unwrap();
    Timestamp { secs: d.as_secs() as i64, nanos: d.subsec_nanos() }
}

fn now() -> Timestamp {
    stamp(SystemTime::now())
}

#[test]
fn label_before_first_sync() {
    assert_eq!(SyncStatus::default().label(now()), "not synced yet");
}

#[test]
fn a_write_failure_attributes_to_the_addon_stage() {
    assert_eq!(
        SyncError::Write("permission denied".into()).stage(),
        SyncErrorStage::Addon
    );
}

#[test]
fn a_fetch_failure_attributes_to_the_prices_stage() {
    assert_eq!(
        SyncError::Request("timed out".into()).stage(),
        SyncErrorStage::Prices
    );
    assert_eq!(SyncError::BadStatus(500).stage(), SyncErrorStage::Prices);
    assert_eq!(SyncError::InvalidBody.stage(), SyncErrorStage::Prices);
}

#[test]
fn label_reports_error_first() {
    let status = SyncStatus {
        last_success_at: Some(now()),
        last_success_realm: Some("dentarg".into()),
        last_error: Some("unexpected status 500".into()),
        ..SyncStatus::default()
    };
    assert_eq!(status.label(now()), "error: unexpected status 500");
}

#[test]
fn label_reports_recent_success() {
    let status = SyncStatus {
        last_success_at: Some(now()),
        last_success_realm: Some("dentarg".into()),
        last_error: None,
        ..SyncStatus::default()
    };
    assert_eq!(status.label(now()), "synced dentarg just now");
}

#[test]
fn label_reports_minutes_ago() {
    let status = SyncStatus {
        last_success_at: Some(stamp(SystemTime::now() - Duration::from_secs(12 * 60))),
        last_success_realm: Some("dentarg".into()),
        last_error: None,
        ..SyncStatus::default()
    };
    assert_eq!(status.label(now()), "synced dentarg 12m ago");
}

#[test]
fn label_truncates_long_errors() {
    let status = SyncStatus {
        last_error: Some("x".repeat(200)),
        ..SyncStatus::default()
    };
    let label = status.label(now());
    assert!(label.starts_with("error: "));
    assert!(label.chars().count() <= "error: ".len() + 60);
    assert!(label.ends_with('…'));
}

#[test]
fn a_fresh_status_is_idle_with_no_schedule() {
    let s = SyncStatus::default();
    assert!(!s.syncing);
    assert_eq!(s.next_tick_at, None);
    assert_eq!(s.last_attempt_at, None);
    assert_eq!(s.upload, UploadStats::default());
}

#[test]
fn scheduling_the_next_tick_publishes_it() {
    let mut status = SyncStatus::default();
    let at = stamp(SystemTime::now() + Duration::from_secs(1800));
    schedule_next_tick(&mut status, at);
    assert_eq!(status.next_tick_at, Some(at));
}

#[test]
fn ages_read_in_minutes_hours_and_days() {
    let t0 = Timestamp::from_unix(1_000_000);
    assert_eq!(humanize_age(t0, Timestamp::from_unix(1_000_059)), "just now");
    assert_eq!(humanize_age(t0, Timestamp::from_unix(1_000_060)), "1m ago");
    assert_eq!(humanize_age(t0, Timestamp::from_unix(1_000_000 + 3_599)), "59m ago");
    assert_eq!(humanize_age(t0, Timestamp::from_unix(1_000_000 + 7_200)), "2h ago");
    assert_eq!(humanize_age(t0, Timestamp::from_unix(1_000_000 + 3 * 86_400 + 5)), "3d ago");
    // A success stamped after "now" (a clock step) reads as just now.
    assert_eq!(humanize_age(Timestamp::from_unix(1_000_100), t0), "just now");
}

#[test]
fn elapsed_time_counts_whole_seconds_across_nanoseconds() {
    let at = Timestamp { secs: 10, nanos: 900_000_000 };
    assert_eq!(elapsed_secs(at, Timestamp { secs: 70, nanos: 100_000_000 }), 59);
    assert_eq!(elapsed_secs(at, Timestamp { secs: 70, nanos: 900_000_000 }), 60);
}

#[test]
fn truncation_keeps_short_strings_and_cuts_long_ones_with_an_ellipsis() {
    assert_eq!(truncate("short", 60), "short");
    assert_eq!(truncate("abcdef", 4), "abc…");
    assert_eq!(truncate("abcd", 4), "abcd");
    assert_eq!(truncate("héllo wörld", 5), "héll…");
}

#[test]
fn errors_read_as_the_sentence_the_log_shows() {
    assert_eq!(SyncError::Request("timed out".into()).to_string(), "request failed: timed out");
    assert_eq!(SyncError::BadStatus(503).to_string(), "unexpected status 503");
    assert_eq!(SyncError::InvalidBody.to_string(), "response was not a GCS1 import string");
    assert_eq!(
        SyncError::Write("permission denied".into()).to_string(),
        "failed to write addon files: permission denied"
    );
}

#[test]
fn an_unconfigured_attempt_is_recorded_on_the_prices_stage() {
    let mut status = SyncStatus::default();
    set_syncing(&mut status, true, Timestamp::from_unix(5));
    assert!(status.syncing);
    assert_eq!(status.last_attempt_at, Some(Timestamp::from_unix(5)));
    record_unconfigured(&mut status);
    set_syncing(&mut status, false, Timestamp::from_unix(6));
    assert!(!status.syncing);
    assert_eq!(status.last_attempt_at, Some(Timestamp::from_unix(5)), "a refused attempt is still an attempt");
    assert_eq!(status.last_error.as_deref(), Some("not configured (realm or WoW path missing)"));
    assert_eq!(status.last_error_stage, Some(SyncErrorStage::Prices));
    assert!(status.last_success_at.is_none());
}

#[test]
fn a_write_failure_still_counts_the_fetch_as_a_success() {
    let mut status = SyncStatus { syncing: true, ..SyncStatus::default() };
    let upload = UploadStats { total_sent: 3, ..UploadStats::default() };
    record_tick(
        &mut status,
        TickOutcome::WriteFailed(SyncError::Write("disk full".into())),
        upload.clone(),
        "dentarg".into(),
        Timestamp::from_unix(100),
    );
    assert!(!status.syncing);
    assert_eq!(status.upload, upload);
    assert_eq!(status.last_success_at, Some(Timestamp::from_unix(100)));
    assert_eq!(status.last_success_realm.as_deref(), Some("dentarg"));
    assert_eq!(status.last_error.as_deref(), Some("failed to write addon files: disk full"));
    assert_eq!(status.last_error_stage, Some(SyncErrorStage::Addon));
}

#[test]
fn a_fetch_failure_keeps_the_last_success_and_a_clean_tick_clears_the_error() {
    let mut status = SyncStatus {
        last_success_at: Some(Timestamp::from_unix(1)),
        last_success_realm: Some("dentarg".into()),
        ..SyncStatus::default()
    };
    record_tick(&mut status, TickOutcome::FetchFailed(SyncError::BadStatus(500)), UploadStats::default(), "other".into(), Timestamp::from_unix(50));
    assert_eq!(status.last_success_at, Some(Timestamp::from_unix(1)));
    assert_eq!(status.last_success_realm.as_deref(), Some("dentarg"));
    assert_eq!(status.last_error.as_deref(), Some("unexpected status 500"));
    assert_eq!(status.last_error_stage, Some(SyncErrorStage::Prices));

    record_tick(&mut status, TickOutcome::Written, UploadStats::default(), "dentarg".into(), Timestamp::from_unix(60));
    assert_eq!(status.last_error, None);
    assert_eq!(status.last_error_stage, None);
    assert_eq!(status.last_success_at, Some(Timestamp::from_unix(60)));
}

#[test]
fn a_tick_needs_a_trimmed_realm_and_an_install_path() {
    assert_eq!(sync_target(&Config::default()), None);
    let cfg = Config { realm_slug: "  dentarg ".into(), wow_retail_path: "/wow".into(), ..Config::default() };
    assert_eq!(sync_target(&cfg), Some("dentarg".to_string()));
    let no_path = Config { realm_slug: "dentarg".into(), wow_retail_path: "   ".into(), ..Config::default() };
    assert_eq!(sync_target(&no_path), None);
}

#[test]
fn only_a_2xx_gcs1_body_is_a_fetched_import_string() {
    assert_eq!(check_import_response(200, "GCS1;eu;x".into()), Ok("GCS1;eu;x".to_string()));
    assert_eq!(check_import_response(404, "GCS1;eu;x".into()), Err(SyncError::BadStatus(404)));
    assert_eq!(check_import_response(200, "realm_not_found".into()), Err(SyncError::InvalidBody));
    assert_eq!(check_import_response(204, "GCS1;".into()), Ok("GCS1;".to_string()));
}

#[test]
fn timestamps_before_the_epoch_have_no_unix_time() {
    assert_eq!(Timestamp::from_unix(42).unix(), Some(42));
    assert_eq!(Timestamp { secs: -1, nanos: 500_000_000 }.unix(), None);
}
