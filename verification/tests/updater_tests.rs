use goldcap_companion::updater::{action_label, announcement_body, apply_step, tray_label, view, ApplyStep, Staged, StagedKind};

#[test]
fn installed_label_offers_restart() {
    assert_eq!(
        tray_label(StagedKind::Installed, "1.3.0"),
        "Restart to update to v1.3.0"
    );
}

#[test]
fn pending_label_offers_install_and_restart() {
    assert_eq!(
        tray_label(StagedKind::Pending, "1.3.0"),
        "Install update v1.3.0 and restart"
    );
}

#[test]
fn manual_staging_offers_the_download_page() {
    let staged = Staged::Manual { version: "1.6.0".into() };
    assert_eq!(staged.kind(), StagedKind::Manual);
    assert_eq!(tray_label(staged.kind(), staged.version()), "Download update v1.6.0…");
    assert_eq!(action_label(staged.kind()), "Open downloads");
}

#[test]
fn every_kind_has_its_own_button_label() {
    let labels = [
        action_label(StagedKind::Installed),
        action_label(StagedKind::Pending),
        action_label(StagedKind::Manual),
    ];
    let mut unique = labels.to_vec();
    unique.sort_unstable();
    unique.dedup();
    assert_eq!(unique.len(), labels.len(), "two kinds share a button label: {labels:?}");
}

#[test]
fn the_view_carries_the_staged_version_and_action() {
    let staged = Staged::Manual { version: "1.6.0".into() };
    let v = view(staged.kind(), staged.version());
    assert_eq!(v.version, "1.6.0");
    assert_eq!(v.action, "Open downloads");
    assert_eq!(v.kind, StagedKind::Manual);
}

#[test]
fn installed_staged_composes_into_restart_label() {
    let staged = Staged::Installed { version: "1.3.0".into() };
    assert_eq!(
        tray_label(staged.kind(), staged.version()),
        "Restart to update to v1.3.0"
    );
}

#[test]
fn the_notification_names_the_version_and_what_to_do() {
    let ready = view(StagedKind::Installed, "1.7.0");
    assert_eq!(announcement_body(&ready), "Version 1.7.0 is ready — restart now.");
    let pending = view(StagedKind::Pending, "1.7.0");
    assert_eq!(announcement_body(&pending), "Version 1.7.0 is ready — install and restart.");
    let manual = view(StagedKind::Manual, "1.7.0");
    assert_eq!(
        announcement_body(&manual),
        "Version 1.7.0 is out, but this copy could not update itself. Open the downloads page to get it."
    );
}

#[test]
fn a_click_does_what_the_staged_update_allows() {
    assert_eq!(apply_step(None), ApplyStep::Nothing);
    assert_eq!(apply_step(Some(StagedKind::Manual)), ApplyStep::OpenDownloads);
    assert_eq!(apply_step(Some(StagedKind::Installed)), ApplyStep::Restart);
    assert_eq!(apply_step(Some(StagedKind::Pending)), ApplyStep::RunInstaller);
    let pending = Staged::Pending { version: "2.0.0".into() };
    assert_eq!(pending.version(), "2.0.0");
    assert_eq!(pending.kind(), StagedKind::Pending);
}

use goldcap_companion::updater::{check_step, CheckStep};

#[test]
fn a_staged_update_keeps_its_offer_instead_of_downloading_again() {
    let staged = Staged::Pending { version: "1.8.0".into() };
    assert_eq!(check_step(Some(&staged)), CheckStep::KeepOffer { label: "Install update v1.8.0 and restart".into() });
    assert_eq!(check_step(None), CheckStep::CheckForUpdate);
}
