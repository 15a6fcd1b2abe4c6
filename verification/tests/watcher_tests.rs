use goldcap_companion::watcher::{is_goldcap_savedvars, Debouncer, DEBOUNCE};
use std::path::{Path, PathBuf};

fn matches(path: &Path) -> bool {
    is_goldcap_savedvars(
        path.file_name().and_then(|f| f.to_str()),
        path.parent().and_then(|p| p.file_name()).and_then(|d| d.to_str()),
    )
}

#[test]
fn matches_the_savedvars_file() {
    let p = PathBuf::from("/wow/WTF/Account/ACC1/SavedVariables/GoldCap.lua");
    assert!(matches(&p));
}

#[test]
fn rejects_other_addons_and_other_dirs() {
    assert!(!matches(Path::new(
        "/wow/WTF/Account/ACC1/SavedVariables/TSM.lua"
    )));
    assert!(!matches(Path::new(
        "/wow/WTF/Account/ACC1/GoldCap.lua"
    )));
    assert!(!matches(Path::new(
        "/wow/WTF/Account/ACC1/SavedVariables/GoldCap.lua.bak"
    )));
}

#[test]
fn debouncer_waits_out_a_burst_then_fires_once() {
    let mut d = Debouncer::new();
    let t0: u64 = 1_000;
    d.on_event(t0);
    // A second event 1 s in pushes the deadline out.
    d.on_event(t0 + 1_000);
    assert_eq!(d.fire_at(), Some(t0 + 1_000 + DEBOUNCE));
    // Deadline not reached yet — must not fire.
    assert!(!d.on_deadline(t0 + 2_000));
    // Reached — fires exactly once, then goes quiet.
    assert!(d.on_deadline(t0 + 4_000 + DEBOUNCE));
    assert!(!d.on_deadline(t0 + 9_000));
    assert_eq!(d.fire_at(), None);
}

#[test]
fn the_deadline_fires_exactly_at_the_end_of_the_quiet_period() {
    let mut d = Debouncer::default();
    assert!(!d.on_deadline(0));
    d.on_event(500);
    assert!(!d.on_deadline(500 + DEBOUNCE - 1));
    assert!(d.on_deadline(500 + DEBOUNCE));
}
