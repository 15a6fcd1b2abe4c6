use goldcap_companion::config::{Config, Region};
use goldcap_companion::health::GameHealth;
use goldcap_companion::status::{build, StageHealth};
use goldcap_companion::sync::{SyncErrorStage, SyncStatus, Timestamp};
use goldcap_companion::upload::UploadStats;

const NOW: i64 = 1_785_600_000;

fn configured() -> Config {
    Config {
        region: Region::Eu,
        realm_slug: "dentarg".into(),
        wow_retail_path: "/tmp/wow/_retail_".into(),
        ..Config::default()
    }
}

fn healthy() -> GameHealth {
    GameHealth {
        install_ok: true,
        addon_installed: true,
        app_data_written_at: Some(NOW - 240),
        saved_vars_written_at: Some(NOW - 3600),
    }
}

#[test]
fn an_unconfigured_companion_reports_every_stage_as_not_connected() {
    let snap = build(&Config::default(), &SyncStatus::default(), &GameHealth::default(), NOW);
    assert!(!snap.configured);
    assert_eq!(snap.prices.state, StageHealth::NotConnected);
    assert_eq!(snap.addon.state, StageHealth::NotConnected);
    assert_eq!(snap.ledger.state, StageHealth::NotConnected);
}

#[test]
fn a_healthy_paired_companion_reports_three_green_stages() {
    let mut config = configured();
    config.companion_token = "tok".into();
    let status = SyncStatus {
        last_success_at: Some(Timestamp::from_unix(NOW - 240)),
        last_success_realm: Some("dentarg".into()),
        upload: UploadStats {
            total_sent: 142,
            last_upload_at: Some(NOW - 240),
            pending: 0,
            last_error: None,
        },
        ..SyncStatus::default()
    };

    let snap = build(&config, &status, &healthy(), NOW);
    assert!(snap.configured);
    assert!(snap.paired);
    assert_eq!(snap.prices.state, StageHealth::Good);
    assert_eq!(snap.addon.state, StageHealth::Good);
    assert_eq!(snap.ledger.state, StageHealth::Good);
    assert_eq!(snap.prices.at, Some(NOW - 240));
    assert_eq!(snap.addon.at, Some(NOW - 240));
    assert!(snap.ledger.detail.contains("142"));
}

#[test]
fn a_fetch_error_breaks_only_the_prices_stage() {
    let mut config = configured();
    config.companion_token = "tok".into();
    let status = SyncStatus {
        last_error: Some("unexpected status 500".into()),
        last_error_stage: Some(SyncErrorStage::Prices),
        upload: UploadStats { total_sent: 1, ..Default::default() },
        ..SyncStatus::default()
    };

    let snap = build(&config, &status, &healthy(), NOW);
    assert_eq!(snap.prices.state, StageHealth::Broken);
    assert_eq!(snap.prices.error.as_deref(), Some("unexpected status 500"));
    assert_eq!(snap.addon.state, StageHealth::Good, "a stale file is still a written file");
    assert_eq!(snap.ledger.state, StageHealth::Good);
}

#[test]
fn a_write_failure_attributes_to_the_addon_stage_not_prices() {
    let mut config = configured();
    config.companion_token = "tok".into();
    let status = SyncStatus {
        last_success_at: Some(Timestamp::from_unix(NOW - 30)),
        last_success_realm: Some("dentarg".into()),
        last_error: Some("failed to write addon files: permission denied".into()),
        last_error_stage: Some(SyncErrorStage::Addon),
        ..SyncStatus::default()
    };

    let snap = build(&config, &status, &healthy(), NOW);
    assert_eq!(
        snap.prices.state,
        StageHealth::Good,
        "the site was reached fine — only the addon write failed"
    );
    assert_eq!(snap.addon.state, StageHealth::Broken);
    assert!(snap.addon.error.as_deref().unwrap().contains("permission denied"));
}

#[test]
fn a_write_failure_on_a_never_played_folder_says_so() {
    let mut config = configured();
    config.companion_token = "tok".into();
    let health = GameHealth { install_ok: false, ..healthy() };
    let status = SyncStatus {
        last_success_at: Some(Timestamp::from_unix(NOW - 30)),
        last_error: Some("failed to write addon files: not found".into()),
        last_error_stage: Some(SyncErrorStage::Addon),
        ..SyncStatus::default()
    };

    let snap = build(&config, &status, &health, NOW);
    assert_eq!(snap.addon.state, StageHealth::Broken);
    assert!(snap.addon.detail.contains("played"));
}

#[test]
fn a_broken_prices_stage_still_reports_its_last_good_timestamp() {
    let config = configured();
    let last_good = NOW - 5_000;
    let status = SyncStatus {
        last_success_at: Some(Timestamp::from_unix(last_good)),
        last_success_realm: Some("dentarg".into()),
        last_error: Some("request failed: connection refused".into()),
        last_error_stage: Some(SyncErrorStage::Prices),
        ..SyncStatus::default()
    };

    let snap = build(&config, &status, &healthy(), NOW);
    assert_eq!(snap.prices.state, StageHealth::Broken);
    assert_eq!(
        snap.prices.at,
        Some(last_good),
        "a broken link should still show when it last worked, same as the ledger stage does"
    );
}

#[test]
fn a_missing_addon_breaks_the_addon_stage_even_when_prices_arrive() {
    let health = GameHealth { addon_installed: false, ..healthy() };
    let snap = build(&configured(), &SyncStatus::default(), &health, NOW);
    assert_eq!(snap.addon.state, StageHealth::Broken);
    assert!(snap.addon.detail.contains("not installed"));
}

#[test]
fn an_unpaired_ledger_is_not_connected_rather_than_broken() {
    let snap = build(&configured(), &SyncStatus::default(), &healthy(), NOW);
    assert_eq!(
        snap.ledger.state,
        StageHealth::NotConnected,
        "choosing not to pair is not a failure"
    );
    assert!(!snap.paired);
}

#[test]
fn a_paired_companion_that_has_never_seen_the_game_says_so() {
    let mut config = configured();
    config.companion_token = "tok".into();
    let health = GameHealth { saved_vars_written_at: None, ..healthy() };

    let snap = build(&config, &SyncStatus::default(), &health, NOW);
    assert_eq!(snap.ledger.state, StageHealth::NotConnected);
    assert!(snap.ledger.detail.contains("launch WoW"));
}

#[test]
fn an_upload_error_breaks_the_ledger_stage() {
    let mut config = configured();
    config.companion_token = "tok".into();
    let status = SyncStatus {
        upload: UploadStats {
            total_sent: 10,
            pending: 4,
            last_error: Some("unexpected status 503".into()),
            ..Default::default()
        },
        ..SyncStatus::default()
    };

    let snap = build(&config, &status, &healthy(), NOW);
    assert_eq!(snap.ledger.state, StageHealth::Broken);
    assert_eq!(snap.ledger.error.as_deref(), Some("unexpected status 503"));
}

#[test]
fn the_in_flight_flag_and_schedule_survive_into_the_snapshot() {
    let status = SyncStatus {
        syncing: true,
        next_tick_at: Some(Timestamp::from_unix(NOW + 1560)),
        ..SyncStatus::default()
    };
    let snap = build(&configured(), &status, &healthy(), NOW);
    assert!(snap.syncing);
    assert_eq!(snap.next_tick_at, Some(NOW + 1560));
    assert_eq!(snap.realm_slug, "dentarg");
    assert_eq!(snap.region, "eu");
    assert_eq!(snap.interval_minutes, 30);
}

#[test]
fn the_ledger_detail_counts_rows_sent_and_queued() {
    let mut config = configured();
    config.companion_token = "tok".into();
    let status = SyncStatus {
        upload: UploadStats { total_sent: 7, pending: 3, ..Default::default() },
        ..SyncStatus::default()
    };
    let snap = build(&config, &status, &healthy(), NOW);
    assert_eq!(snap.ledger.detail, "7 rows sent · 3 queued");
    let status = SyncStatus { upload: UploadStats { total_sent: 7, ..Default::default() }, ..SyncStatus::default() };
    let snap = build(&config, &status, &healthy(), NOW);
    assert_eq!(snap.ledger.detail, "7 rows sent · queue empty");
}

#[test]
fn a_blank_token_is_not_a_pairing() {
    let config = Config { companion_token: "   ".into(), ..configured() };
    let snap = build(&config, &SyncStatus::default(), &healthy(), NOW);
    assert!(!snap.paired);
    assert_eq!(snap.ledger.detail, "Not paired — nothing is uploaded");
}
