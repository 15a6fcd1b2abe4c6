use goldcap_companion::sync::Timestamp;
use goldcap_companion::wtf::{order_realm_names, parse_portal, read_game_settings, RealmDir};

#[test]
fn parses_the_portal_cvar() {
    let config = "SET textLocale \"enGB\"\nSET portal \"EU\"\nSET agentUID \"wow_engb\"\n";
    assert_eq!(parse_portal(config), Some("eu".to_string()));
}

#[test]
fn parses_portal_without_quotes_and_with_padding() {
    assert_eq!(parse_portal("  SET portal US  "), Some("us".to_string()));
}

#[test]
fn portal_absent_or_empty_yields_none() {
    assert_eq!(parse_portal("SET textLocale \"enUS\"\n"), None);
    assert_eq!(parse_portal("SET portal \"\"\n"), None);
    assert_eq!(parse_portal(""), None);
    assert_eq!(parse_portal("SET portalLite \"1\"\n"), None);
}

#[test]
fn the_first_portal_line_decides_and_windows_line_endings_are_fine() {
    assert_eq!(parse_portal("SET portal \"KR\"\r\nSET portal \"EU\"\r\n"), Some("kr".to_string()));
    assert_eq!(parse_portal("SET portal\nSET portal \"EU\"\n"), None);
    assert_eq!(parse_portal("set portal \"EU\"\n"), None);
    assert_eq!(parse_portal("SET portal\t\" tw \"\n"), Some("tw".to_string()));
}

fn dir(name: &str, secs: i64) -> RealmDir {
    RealmDir { name: name.into(), modified: Timestamp::from_unix(secs) }
}

#[test]
fn realm_names_come_newest_first_without_repeats_or_saved_variables() {
    let found = vec![
        dir("Tarren Mill", 100),
        dir("SavedVariables", 900),
        dir("Kazzak", 300),
        dir("Tarren Mill", 500),
        dir("Draenor", 300),
    ];
    assert_eq!(order_realm_names(&found), vec!["Tarren Mill", "Kazzak", "Draenor"]);
    assert!(order_realm_names(&Vec::new()).is_empty());
}

#[test]
fn game_settings_bring_the_region_and_the_realms_together() {
    let s = read_game_settings(Some("SET portal \"EU\"\n"), vec!["Kazzak".into()]);
    assert_eq!(s.region.as_deref(), Some("eu"));
    assert_eq!(s.realm_names, vec!["Kazzak".to_string()]);
    let none = read_game_settings(None, Vec::new());
    assert_eq!(none.region, None);
}
