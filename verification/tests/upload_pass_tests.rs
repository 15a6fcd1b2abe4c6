use goldcap_companion::savedvars::{GoldPoint, LedgerData, LedgerEntry, LiveObservation};
use goldcap_companion::upload::{batch_ranges, pending, pending_observations, wrong_region_count, UploadPass, UploadState, UploadStats, MAX_BATCH};

fn entry(key: &str) -> LedgerEntry {
    LedgerEntry {
        key: key.into(), kind: "sale".into(), source: "mail".into(), item_id: None, item_name: None,
        qty: 1, total: 10, cut: 0, deposit: 0, pending: false, mv: None, at: 5, character: None,
        region: Some("eu".into()), decision_version: None, decision_status: None, decision_reasons: None,
        stress_unit: None, expected_profit: None, recommended_quantity: None, source_at: None,
    }
}

fn gold(at: i64) -> GoldPoint {
    GoldPoint { character: "A".into(), region: None, copper: 1, at }
}

fn obs(item_id: i64, region: &str) -> LiveObservation {
    LiveObservation { item_id, region: region.into(), scanned_at: 9, min_unit: 1, listings: None, total_qty: None, levels: None }
}

#[test]
fn batches_cover_every_row_once_and_an_empty_file_still_sends_its_gold() {
    assert_eq!(batch_ranges(0, MAX_BATCH), vec![(0, 0)]);
    assert_eq!(batch_ranges(1200, MAX_BATCH), vec![(0, 500), (500, 1000), (1000, 1200)]);
    assert_eq!(batch_ranges(500, MAX_BATCH), vec![(0, 500)]);
    assert_eq!(batch_ranges(7, 3), vec![(0, 3), (3, 6), (6, 7)]);
}

#[test]
fn a_pass_remembers_what_was_accepted_and_counts_what_is_left() {
    let data = LedgerData { entries: vec![entry("a"), entry("b"), entry("c")], gold: vec![gold(1)], observations: vec![] };
    let mut state = UploadState::new();
    let mut pass = UploadPass::new(state.stats().clone());
    let (entries, points) = pending(&data, &state);
    pass.accepted(&mut state, &entries[0..2], &points);
    pass.refused("unexpected status 503".into());
    pass.recount(&data, &state);
    assert_eq!(pass.sent, 2);
    assert_eq!(pass.failed, 1);
    assert_eq!(pass.pending_after, 1);
    let save = pass.finish(&mut state, 1_785_600_000);
    assert!(save);
    let stats = state.stats();
    assert_eq!(stats.total_sent, 2);
    assert_eq!(stats.pending, 1);
    assert_eq!(stats.last_upload_at, Some(1_785_600_000));
    assert_eq!(stats.last_error.as_deref(), Some("unexpected status 503"));
}

#[test]
fn a_pass_that_changed_nothing_is_not_saved() {
    let stored = UploadStats { total_sent: 4, last_upload_at: Some(3), pending: 0, last_error: None };
    let mut state = UploadState::from_parts(vec![], stored.clone());
    let pass = UploadPass::new(stored);
    assert!(!pass.finish(&mut state, 99));
    assert_eq!(state.stats().last_upload_at, Some(3));
}

#[test]
fn a_pass_whose_counters_changed_is_saved_even_without_rows() {
    let stored = UploadStats { total_sent: 4, last_upload_at: Some(3), pending: 2, last_error: None };
    let mut state = UploadState::from_parts(vec![], stored.clone());
    let mut pass = UploadPass::new(stored);
    pass.unreadable("could not read GoldCap.lua".into());
    assert!(pass.finish(&mut state, 99));
    assert_eq!(state.stats().pending, 0);
    assert_eq!(state.stats().total_sent, 4);
}

#[test]
fn remembered_observations_are_no_longer_pending() {
    let data = LedgerData { entries: vec![], gold: vec![], observations: vec![obs(1, "eu"), obs(2, "us"), obs(3, "eu")] };
    let mut state = UploadState::new();
    let rows = pending_observations(&data, &state, "eu");
    assert_eq!(rows.len(), 2);
    assert_eq!(wrong_region_count(&data, "eu"), 1);
    state.remember_observations(&rows[0..1]);
    let left = pending_observations(&data, &state, "eu");
    assert_eq!(left.len(), 1);
    assert_eq!(left[0].item_id, 3);
    assert!(state.contains("live|1|9"));
}

use goldcap_companion::upload::{file_batches, may_upload, next_observation_batch, observation_batches, UploadAction};

#[test]
fn an_unpaired_companion_posts_nothing() {
    assert!(!may_upload(""));
    assert!(!may_upload("   "));
    assert!(may_upload("tok"));
    let pass = UploadPass::new(UploadStats::default());
    let ranges = file_batches(3, 1);
    assert_eq!(pass.next_action("  ", &ranges, 0, false), UploadAction::Stop);
    assert!(observation_batches("", "dentarg", 450).is_empty());
    assert!(observation_batches("tok", " ", 450).is_empty());
}

#[test]
fn gold_rides_with_the_first_batch_and_a_refusal_ends_the_file() {
    let pass = UploadPass::new(UploadStats::default());
    let ranges = file_batches(1200, 2);
    assert_eq!(ranges, vec![(0, 500), (500, 1000), (1000, 1200)]);
    assert_eq!(pass.next_action("tok", &ranges, 0, false), UploadAction::Send { start: 0, end: 500, with_gold: true });
    assert_eq!(pass.next_action("tok", &ranges, 1, false), UploadAction::Send { start: 500, end: 1000, with_gold: false });
    assert_eq!(pass.next_action("tok", &ranges, 2, true), UploadAction::Stop);
    assert_eq!(pass.next_action("tok", &ranges, 3, false), UploadAction::Stop);
}

#[test]
fn a_file_with_nothing_pending_sends_nothing_and_gold_alone_still_goes() {
    assert!(file_batches(0, 0).is_empty());
    assert_eq!(file_batches(0, 2), vec![(0, 0)]);
    let pass = UploadPass::new(UploadStats::default());
    assert_eq!(pass.next_action("tok", &file_batches(0, 0), 0, false), UploadAction::Stop);
    assert_eq!(pass.next_action("tok", &file_batches(0, 2), 0, false), UploadAction::Send { start: 0, end: 0, with_gold: true });
}

#[test]
fn observations_go_in_capped_batches_until_one_is_refused() {
    let batches = observation_batches("tok", "dentarg", 450);
    assert_eq!(batches, vec![(0, 200), (200, 400), (400, 450)]);
    assert!(observation_batches("tok", "dentarg", 0).is_empty());
    assert_eq!(next_observation_batch(&batches, 1, false), Some((200, 400)));
    assert_eq!(next_observation_batch(&batches, 1, true), None);
    assert_eq!(next_observation_batch(&batches, 3, false), None);
}
