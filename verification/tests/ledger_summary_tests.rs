use goldcap_companion::ledger_summary::{parse_iso_utc, sale_rows, WireBasis, WireRecent, WireSummary, WireTotals};

#[test]
fn parse_iso_utc_handles_epoch_and_real_timestamps() {
    assert_eq!(parse_iso_utc("1970-01-01T00:00:00Z"), Some(0));
    assert_eq!(parse_iso_utc("1970-01-02T00:00:00.000Z"), Some(86_400));
    assert_eq!(parse_iso_utc("2026-08-19T09:04:22.000Z"), Some(1_787_130_262));
}

#[test]
fn parse_iso_utc_rejects_garbage_and_non_utc() {
    assert_eq!(parse_iso_utc(""), None);
    assert_eq!(parse_iso_utc("not-a-date"), None);
    assert_eq!(parse_iso_utc("2026-08-19T09:04:22"), None);
    assert_eq!(parse_iso_utc("2026-08-19T09:04:22+03:00"), None);
    assert_eq!(parse_iso_utc("2026-99-19T09:04:22Z"), None);
}

#[test]
fn parse_iso_utc_reads_dates_before_the_epoch_and_leap_days() {
    assert_eq!(parse_iso_utc("1969-12-31T23:59:59Z"), Some(-1));
    assert_eq!(parse_iso_utc("2024-02-29T00:00:00Z"), Some(1_709_164_800));
    assert_eq!(parse_iso_utc("2024-03-01T00:00:00Z"), Some(1_709_251_200));
}

#[test]
fn parse_iso_utc_refuses_each_field_out_of_range() {
    assert_eq!(parse_iso_utc("2026-08-32T09:04:22Z"), None);
    assert_eq!(parse_iso_utc("2026-08-19T24:04:22Z"), None);
    assert_eq!(parse_iso_utc("2026-08-19T09:60:22Z"), None);
    assert_eq!(parse_iso_utc("2026-08-19T09:04:60Z"), None);
    assert_eq!(parse_iso_utc("2026-08-19 09:04:22Z"), None);
}

fn recent(kind: &str, item_name: Option<&str>, occurred_at: &str, pending: bool) -> WireRecent {
    WireRecent {
        kind: kind.into(),
        item_id: None,
        item_name: item_name.map(|s| s.to_string()),
        quantity: 1,
        total_copper: 10,
        cut_copper: 0,
        pending,
        occurred_at: occurred_at.into(),
        basis: None,
    }
}

fn totals() -> WireTotals {
    WireTotals {
        proceeds_copper: 0, spent_copper: 0, pending_proceeds_copper: 0,
        sales_count: 0, realized_copper: None, median_hold_seconds: None,
    }
}

#[test]
fn sale_rows_keeps_sales_only_and_drops_unparseable_timestamps() {
    let summary = WireSummary {
        pro: false,
        days: 30,
        totals: totals(),
        recent: vec![
            WireRecent { kind: "sale".into(), item_id: None, item_name: None,
                quantity: 1, total_copper: 10, cut_copper: 0, pending: true,
                occurred_at: "1970-01-01T00:00:10Z".into(), basis: None },
            WireRecent { kind: "buy".into(), item_id: Some(5), item_name: Some("X".into()),
                quantity: 1, total_copper: 10, cut_copper: 0, pending: false,
                occurred_at: "1970-01-01T00:00:00Z".into(), basis: None },
            WireRecent { kind: "sale".into(), item_id: Some(6), item_name: Some("Y".into()),
                quantity: 1, total_copper: 10, cut_copper: 0, pending: false,
                occurred_at: "when?".into(), basis: None },
        ],
    };
    let rows = sale_rows(&summary);
    assert_eq!(rows.len(), 1);
    assert_eq!(rows[0].at, 10);
    assert_eq!(rows[0].name, "Unknown item");
    assert!(rows[0].pending);
}

#[test]
fn a_sale_row_keeps_its_name_numbers_and_basis() {
    let basis = WireBasis { matched_quantity: 2, unmatched_quantity: 0, cost_copper: 50, profit_copper: 45 };
    let mut sale = recent("sale", Some("Umbral Tin Ore"), "1970-01-02T00:00:00.000Z", false);
    sale.item_id = Some(190396);
    sale.quantity = 2;
    sale.total_copper = 100;
    sale.cut_copper = 5;
    sale.basis = Some(basis);
    let summary = WireSummary { pro: true, days: 30, totals: totals(), recent: vec![sale] };
    let rows = sale_rows(&summary);
    assert_eq!(rows.len(), 1);
    assert_eq!(rows[0].name, "Umbral Tin Ore");
    assert_eq!(rows[0].item_id, Some(190396));
    assert_eq!((rows[0].qty, rows[0].total, rows[0].cut, rows[0].at), (2, 100, 5, 86_400));
    assert_eq!(rows[0].basis, Some(basis));
}

#[test]
fn sale_rows_keep_the_order_of_recent() {
    let summary = WireSummary {
        pro: false,
        days: 7,
        totals: totals(),
        recent: vec![
            recent("sale", Some("A"), "1970-01-01T00:00:02Z", false),
            recent("Sale", Some("B"), "1970-01-01T00:00:03Z", false),
            recent("sale", Some("C"), "1970-01-01T00:00:01Z", false),
        ],
    };
    let rows = sale_rows(&summary);
    let names: Vec<&str> = rows.iter().map(|r| r.name.as_str()).collect();
    assert_eq!(names, vec!["A", "C"]);
}

#[test]
fn parse_iso_utc_accepts_only_a_fraction_between_the_seconds_and_the_z() {
    assert_eq!(parse_iso_utc("1970-01-01T00:00:00+03:00Z"), None);
    assert_eq!(parse_iso_utc("1970-01-01T00:00:00.Z"), None);
    assert_eq!(parse_iso_utc("1970-01-01T00:00:00.5xZ"), None);
    assert_eq!(parse_iso_utc("1970-01-01T00:00:01.5Z"), Some(1));
    assert_eq!(parse_iso_utc("1970-01-01T00:00:01.123456789Z"), Some(1));
}

#[test]
fn parse_iso_utc_takes_plain_digits_only() {
    assert_eq!(parse_iso_utc("+970-01-01T00:00:00Z"), None);
    assert_eq!(parse_iso_utc("1970-+1-01T00:00:00Z"), None);
    assert_eq!(parse_iso_utc("1970-01-01T-1:00:00Z"), None);
    assert_eq!(parse_iso_utc("0000-03-01T00:00:00Z"), Some(-62_162_035_200));
}

#[test]
fn log_timestamps_read_back_as_the_same_instant() {
    for t in [0i64, 86_399, 951_782_400, 1_700_000_000, 253_402_300_799] {
        let iso = format!("{}Z", goldcap_companion::logging::format_unix_utc(t).replacen(' ', "T", 1));
        assert_eq!(parse_iso_utc(&iso), Some(t));
    }
}
