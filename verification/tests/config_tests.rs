use goldcap_companion::config::{Config, LoadOutcome, Region, RetailDir, normalize_retail_dir};

#[test]
fn default_config_has_expected_values() {
    let cfg = Config::default();
    assert_eq!(cfg.region, Region::Eu);
    assert_eq!(cfg.realm_slug, "");
    assert_eq!(cfg.wow_retail_path, "");
    assert_eq!(cfg.interval_minutes, 30);
    assert!(!cfg.launch_at_startup);
}

#[test]
fn region_display_and_from_str_round_trip() {
    assert_eq!(Region::Eu.to_string(), "eu");
    assert_eq!(Region::Us.to_string(), "us");
    assert_eq!("EU".parse::<Region>().unwrap(), Region::Eu);
    assert_eq!("us".parse::<Region>().unwrap(), Region::Us);
    assert!("uk".parse::<Region>().is_err());
}

#[test]
fn interval_clamps_zero_to_one_minute() {
    let cfg = Config {
        interval_minutes: 0,
        ..Config::default()
    };
    assert_eq!(cfg.interval(), 60);
}

#[test]
fn an_unknown_region_names_itself_lowercased() {
    assert_eq!(Region::parse("UK"), Err("unknown region: uk".to_string()));
}

#[test]
fn the_interval_is_the_configured_minutes_in_seconds() {
    let cfg = Config { interval_minutes: 45, ..Config::default() };
    assert_eq!(cfg.interval(), 2700);
}

#[test]
fn a_config_needs_a_realm_and_a_path_to_be_complete() {
    let blank = Config { realm_slug: "  ".into(), wow_retail_path: "/wow".into(), ..Config::default() };
    assert!(!blank.is_complete());
    let full = Config { realm_slug: "dentarg".into(), wow_retail_path: "/wow".into(), ..Config::default() };
    assert!(full.is_complete());
}

#[test]
fn a_first_run_gets_the_detected_path_and_is_saved() {
    let (cfg, save) = Config::load_or_init(LoadOutcome::Missing, "/wow/_retail_".into()).unwrap();
    assert!(save);
    assert_eq!(cfg.wow_retail_path, "/wow/_retail_");
    assert_eq!(cfg.interval_minutes, 30);

    let stored = Config { realm_slug: "dentarg".into(), ..Config::default() };
    let (cfg, save) = Config::load_or_init(LoadOutcome::Loaded(stored.clone()), "x".into()).unwrap();
    assert!(!save);
    assert_eq!(cfg, stored);

    assert!(Config::load_or_init(LoadOutcome::Failed, "x".into()).is_none());
}

#[test]
fn normalize_retail_dir_accepts_either_folder() {
    assert_eq!(normalize_retail_dir(true, Some("_retail_"), false), RetailDir::Itself);
    assert_eq!(normalize_retail_dir(true, Some("_RETAIL_"), false), RetailDir::Itself);
    assert_eq!(normalize_retail_dir(true, Some("World of Warcraft"), true), RetailDir::Child);
    assert_eq!(normalize_retail_dir(true, Some("World of Warcraft"), false), RetailDir::NotFound);
    assert_eq!(normalize_retail_dir(false, Some("_retail_"), true), RetailDir::NotFound);
}
