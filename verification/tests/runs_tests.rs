use mlua::{Lua, LuaOptions, StdLib};
use goldcap_companion::runs::{apply_fetch_result, render_runs_lua, WireCap, WireCheapHour, WireCraft, WireCraftReagent, WireRealm, WireRun, WireRunLine, WireRunSource, WireRuns};

fn line(item_id: u32, qty: u32, vendor: bool, name_en: &str) -> WireRunLine {
    WireRunLine {
        item_id,
        qty,
        vendor,
        name_en: name_en.into(),
        usual: None,
        vendor_unit: None,
        cheap_hour: None,
        cap: None,
        realm: None,
        craft: None,
        min_ilvl: None,
    }
}

/// A run with none of the phase-3 facts, for `..plain_run()` in the
/// tests below: the four fields every test already spells out are
/// overridden by the literal, the three new ones come from here.
fn plain_run() -> WireRun {
    WireRun {
        code: "abcd2345".into(),
        name: None,
        updated_at: "2026-09-15T09:00:00.000Z".into(),
        kind: None,
        shared_by: None,
        source: None,
        lines: vec![],
    }
}

/// A v3 payload with no runs and no caps, for the caps tests below: the
/// fields every test already spells out are overridden by the literal.
fn v3_empty() -> WireRuns {
    WireRuns {
        v: 3,
        generated_at: "2026-09-22T10:00:00.000Z".into(),
        plan: "pro".into(),
        free_lines: 5,
        runs: vec![],
        groups: vec![],
        caps: vec![],
    }
}

#[test]
fn renders_the_addon_table_shape() {
    let runs = WireRuns {
        v: 1,
        generated_at: "2026-09-15T10:00:00.000Z".into(),
        plan: "pro".into(),
        free_lines: 5,
        groups: vec![],
        caps: vec![],
        runs: vec![WireRun {
            code: "abcd2345".into(),
            name: Some("Cooking 1-100".into()),
            updated_at: "2026-09-15T09:00:00.000Z".into(),
            lines: vec![line(5, 210, false, "Plant Protein")],
            ..plain_run()
        }],
    };
    let lua = render_runs_lua(&runs, 1_789_000_000).unwrap();
    let updated_at = goldcap_companion::ledger_summary::parse_iso_utc("2026-09-15T09:00:00.000Z").unwrap();
    let expected = format!(
        "GoldCap_AppRuns = {{ v = 1, generatedAt = 1789000000, plan = 'pro', freeLines = 5, runs = {{ {{ code = 'abcd2345', name = 'Cooking 1-100', updatedAt = {}, lines = {{ {{ i = 5, q = 210, v = false, n = 'Plant Protein' }} }} }} }} }}\n",
        updated_at
    );
    assert_eq!(lua, expected);
}

#[test]
fn a_nameless_run_omits_name_and_a_quote_in_a_name_is_escaped() {
    let runs = WireRuns {
        v: 1,
        generated_at: "2026-09-15T10:00:00.000Z".into(),
        plan: "free".into(),
        free_lines: 5,
        groups: vec![],
        caps: vec![],
        runs: vec![WireRun {
            code: "abcd2345".into(),
            name: None,
            updated_at: "2026-09-15T09:00:00.000Z".into(),
            lines: vec![line(3, 1, true, "Deckhand's Shirt")],
            ..plain_run()
        }],
    };
    let lua = render_runs_lua(&runs, 1).unwrap();
    assert!(!lua.contains("name ="));
    assert!(lua.contains("n = 'Deckhand\\'s Shirt'"));
    assert!(lua.contains("v = true"));
}

#[test]
fn an_unparseable_updated_at_fails_the_whole_render_rather_than_lying_as_epoch() {
    let runs = WireRuns {
        v: 1,
        generated_at: "2026-09-15T10:00:00.000Z".into(),
        plan: "free".into(),
        free_lines: 5,
        groups: vec![],
        caps: vec![],
        runs: vec![WireRun {
            code: "abcd2345".into(),
            name: None,
            updated_at: "not-a-date".into(),
            lines: vec![line(3, 1, true, "Deckhand's Shirt")],
            ..plain_run()
        }],
    };
    let err = render_runs_lua(&runs, 1).unwrap_err();
    assert!(err.contains("abcd2345"));
}

#[test]
fn a_v1_payload_renders_without_any_of_the_new_fields() {
    // The site ships before the companion does, but the reverse also has
    // to hold: a 1.10 companion pointed at a v1 server must produce the
    // file phase 1 produced, byte for byte (the exact-string assertion
    // lives in renders_the_addon_table_shape; this names the contract).
    let runs = WireRuns {
        v: 1,
        generated_at: "2026-09-15T10:00:00.000Z".into(),
        plan: "pro".into(),
        free_lines: 5,
        groups: vec![],
        caps: vec![],
        runs: vec![WireRun {
            code: "abcd2345".into(),
            name: Some("Cooking 1-100".into()),
            updated_at: "2026-09-15T09:00:00.000Z".into(),
            lines: vec![line(5, 210, false, "Plant Protein")],
            ..plain_run()
        }],
    };
    let lua = render_runs_lua(&runs, 1_789_000_000).unwrap();
    assert!(lua.contains("n = 'Plant Protein' }"));
    for key in [
        ", u = ",
        ", vu = ",
        ", ch = ",
        ", cp = ",
        ", cc = ",
        ", rl = ",
        ", cr = ",
        ", minIlvl = ",
    ] {
        assert!(!lua.contains(key), "a v1 render leaked {key}");
    }
    for key in ["k = 'alert'", "by = '", "src = '"] {
        assert!(!lua.contains(key), "a v1 render leaked {key}");
    }
}

#[test]
fn a_v2_line_renders_the_price_fields_in_order() {
    let runs = WireRuns {
        v: 2,
        generated_at: "2026-09-15T10:00:00.000Z".into(),
        plan: "pro".into(),
        free_lines: 5,
        groups: vec![],
        caps: vec![],
        runs: vec![WireRun {
            code: "abcd2345".into(),
            name: Some("Cooking 1-100".into()),
            updated_at: "2026-09-15T09:00:00.000Z".into(),
            lines: vec![WireRunLine {
                usual: Some(450),
                vendor_unit: Some(25),
                cheap_hour: Some(WireCheapHour { hour: 3, pct: -18 }),
                ..line(2589, 20, false, "Linen Cloth")
            }],
            ..plain_run()
        }],
    };
    let lua = render_runs_lua(&runs, 1_789_000_000).unwrap();
    let updated_at = goldcap_companion::ledger_summary::parse_iso_utc("2026-09-15T09:00:00.000Z").unwrap();
    let expected = format!(
        "GoldCap_AppRuns = {{ v = 2, generatedAt = 1789000000, plan = 'pro', freeLines = 5, runs = {{ {{ code = 'abcd2345', name = 'Cooking 1-100', updatedAt = {updated_at}, lines = {{ {{ i = 2589, q = 20, v = false, n = 'Linen Cloth', u = 450, vu = 25, ch = 3, cp = -18 }} }} }} }} }}\n"
    );
    assert_eq!(lua, expected);
}

#[test]
fn each_absent_price_field_is_omitted_rather_than_rendered_empty() {
    let render_one = |l: WireRunLine| -> String {
        let runs = WireRuns {
            v: 2,
            generated_at: "2026-09-15T10:00:00.000Z".into(),
            plan: "pro".into(),
            free_lines: 5,
            groups: vec![],
            caps: vec![],
            runs: vec![WireRun {
                code: "abcd2345".into(),
                name: None,
                updated_at: "2026-09-15T09:00:00.000Z".into(),
                lines: vec![l],
                ..plain_run()
            }],
        };
        render_runs_lua(&runs, 1).unwrap()
    };

    let usual_only = render_one(WireRunLine {
        usual: Some(450),
        ..line(2589, 20, false, "Linen Cloth")
    });
    assert!(usual_only.contains("n = 'Linen Cloth', u = 450 }"));
    for key in [", vu = ", ", ch = ", ", cp = "] {
        assert!(!usual_only.contains(key), "leaked {key}");
    }

    let vendor_only = render_one(WireRunLine {
        vendor_unit: Some(25),
        ..line(159, 5, true, "Refreshing Spring Water")
    });
    assert!(vendor_only.contains("n = 'Refreshing Spring Water', vu = 25 }"));
    for key in [", u = ", ", ch = ", ", cp = "] {
        assert!(!vendor_only.contains(key), "leaked {key}");
    }

    let hour_only = render_one(WireRunLine {
        cheap_hour: Some(WireCheapHour { hour: 3, pct: -18 }),
        ..line(2589, 20, false, "Linen Cloth")
    });
    assert!(hour_only.contains("n = 'Linen Cloth', ch = 3, cp = -18 }"));
    for key in [", u = ", ", vu = "] {
        assert!(!hour_only.contains(key), "leaked {key}");
    }
}

#[test]
fn a_zero_price_is_dropped_rather_than_rendered() {
    // The site stores an unknown vendor price as NULL, so a 0 would price a
    // line at nothing in game. Absent beats misleading.
    let runs = WireRuns {
        v: 2,
        generated_at: "2026-09-15T10:00:00.000Z".into(),
        plan: "pro".into(),
        free_lines: 5,
        groups: vec![],
        caps: vec![],
        runs: vec![WireRun {
            code: "abcd2345".into(),
            name: None,
            updated_at: "2026-09-15T09:00:00.000Z".into(),
            lines: vec![WireRunLine {
                usual: Some(0),
                vendor_unit: Some(0),
                ..line(2589, 20, false, "Linen Cloth")
            }],
            ..plain_run()
        }],
    };
    let lua = render_runs_lua(&runs, 1).unwrap();
    assert!(!lua.contains(", u = "));
    assert!(!lua.contains(", vu = "));
}

#[test]
fn a_cheap_hour_outside_the_clock_is_dropped_rather_than_rendered() {
    // `hour` is a clock position; 25 cannot be shown as one. Same
    // all-or-nothing rule savedvars.rs applies to decision evidence: an
    // out-of-contract value is absent, not misleading.
    let runs = WireRuns {
        v: 2,
        generated_at: "2026-09-15T10:00:00.000Z".into(),
        plan: "pro".into(),
        free_lines: 5,
        groups: vec![],
        caps: vec![],
        runs: vec![WireRun {
            code: "abcd2345".into(),
            name: None,
            updated_at: "2026-09-15T09:00:00.000Z".into(),
            lines: vec![WireRunLine {
                cheap_hour: Some(WireCheapHour { hour: 25, pct: -18 }),
                ..line(2589, 20, false, "Linen Cloth")
            }],
            ..plain_run()
        }],
    };
    let lua = render_runs_lua(&runs, 1).unwrap();
    assert!(!lua.contains(", ch = "));
    assert!(!lua.contains(", cp = "));
}

#[test]
fn a_v3_alert_run_renders_its_kind_cap_and_realm() {
    let runs = WireRuns {
        v: 3,
        generated_at: "2026-09-15T10:00:00.000Z".into(),
        plan: "pro".into(),
        free_lines: 5,
        groups: vec![],
        caps: vec![],
        runs: vec![WireRun {
            code: "a0000016".into(),
            name: Some("Flask watch".into()),
            updated_at: "2026-09-15T09:00:00.000Z".into(),
            kind: Some("alert".into()),
            lines: vec![WireRunLine {
                usual: Some(120_000),
                cap: Some(99_900),
                realm: Some(WireRealm {
                    id: 1305,
                    name: "Kazzak".into(),
                }),
                ..line(212264, 3, false, "Flask of Alchemical Chaos")
            }],
            ..plain_run()
        }],
    };
    let lua = render_runs_lua(&runs, 1_789_000_000).unwrap();
    let updated_at = goldcap_companion::ledger_summary::parse_iso_utc("2026-09-15T09:00:00.000Z").unwrap();
    let expected = format!(
        "GoldCap_AppRuns = {{ v = 3, generatedAt = 1789000000, plan = 'pro', freeLines = 5, runs = {{ {{ code = 'a0000016', name = 'Flask watch', k = 'alert', updatedAt = {updated_at}, lines = {{ {{ i = 212264, q = 3, v = false, n = 'Flask of Alchemical Chaos', u = 120000, cc = 99900, rl = {{ id = 1305, n = 'Kazzak' }} }} }} }} }} }}\n"
    );
    assert_eq!(lua, expected);
}

#[test]
fn a_v3_followed_run_renders_by_src_and_the_craft() {
    let runs = WireRuns {
        v: 3,
        generated_at: "2026-09-15T10:00:00.000Z".into(),
        plan: "pro".into(),
        free_lines: 5,
        groups: vec![],
        caps: vec![],
        runs: vec![WireRun {
            code: "abcd2345".into(),
            name: Some("Cooking 1-100".into()),
            updated_at: "2026-09-15T09:00:00.000Z".into(),
            shared_by: Some("Acromion".into()),
            source: Some(WireRunSource {
                label: "Cooking 1-100".into(),
            }),
            lines: vec![WireRunLine {
                craft: Some(WireCraft {
                    recipe_id: 9876,
                    crafted_qty: 5,
                    cost_copper: 2300,
                    reagents: vec![
                        WireCraftReagent {
                            item_id: 224060,
                            qty: 5,
                            name_en: "Eversong Trout".into(),
                            vendor: false,
                            usual: Some(400),
                            vendor_unit: None,
                        },
                        WireCraftReagent {
                            item_id: 2678,
                            qty: 5,
                            name_en: "Tavern Fixings".into(),
                            vendor: true,
                            usual: None,
                            vendor_unit: Some(60),
                        },
                    ],
                }),
                ..line(222724, 461, false, "Thalassian Fillet")
            }],
            ..plain_run()
        }],
    };
    let lua = render_runs_lua(&runs, 1_789_000_000).unwrap();
    let updated_at = goldcap_companion::ledger_summary::parse_iso_utc("2026-09-15T09:00:00.000Z").unwrap();
    let expected = format!(
        "GoldCap_AppRuns = {{ v = 3, generatedAt = 1789000000, plan = 'pro', freeLines = 5, runs = {{ {{ code = 'abcd2345', name = 'Cooking 1-100', by = 'Acromion', src = 'Cooking 1-100', updatedAt = {updated_at}, lines = {{ {{ i = 222724, q = 461, v = false, n = 'Thalassian Fillet', cr = {{ r = 9876, n = 5, c = 2300, i = {{ {{ i = 224060, q = 5, n = 'Eversong Trout', v = false, u = 400 }}, {{ i = 2678, q = 5, n = 'Tavern Fixings', v = true, vu = 60 }} }} }} }} }} }} }} }}\n"
    );
    assert_eq!(lua, expected);
}

#[test]
fn a_list_run_never_writes_the_default_kind() {
    // Absent `k` is what v1 and v2 always meant; writing it would be a
    // key in every table in the file that says nothing.
    for kind in [None, Some("list"), Some("mystery")] {
        let runs = WireRuns {
            v: 3,
            generated_at: "2026-09-15T10:00:00.000Z".into(),
            plan: "pro".into(),
            free_lines: 5,
            groups: vec![],
            caps: vec![],
            runs: vec![WireRun {
                kind: kind.map(Into::into),
                lines: vec![line(5, 210, false, "Plant Protein")],
                ..plain_run()
            }],
        };
        let lua = render_runs_lua(&runs, 1).unwrap();
        assert!(!lua.contains("k = "), "wrote a kind for {kind:?}");
    }
}

#[test]
fn a_blank_shared_name_or_source_label_is_dropped_rather_than_rendered_empty() {
    // `by = ''` would read in game as "from" with a hole after it.
    let runs = WireRuns {
        v: 3,
        generated_at: "2026-09-15T10:00:00.000Z".into(),
        plan: "pro".into(),
        free_lines: 5,
        groups: vec![],
        caps: vec![],
        runs: vec![WireRun {
            shared_by: Some("   ".into()),
            source: Some(WireRunSource { label: "".into() }),
            lines: vec![line(5, 210, false, "Plant Protein")],
            ..plain_run()
        }],
    };
    let lua = render_runs_lua(&runs, 1).unwrap();
    assert!(!lua.contains("by = "));
    assert!(!lua.contains("src = "));
}

#[test]
fn a_cap_of_zero_or_less_is_dropped_rather_than_rendered() {
    // A ceiling of nothing would buy nothing; absent means "use the
    // addon's own cap%", which is the behaviour every v2 line has.
    for cap in [Some(0), Some(-1)] {
        let runs = WireRuns {
            v: 3,
            generated_at: "2026-09-15T10:00:00.000Z".into(),
            plan: "pro".into(),
            free_lines: 5,
            groups: vec![],
            caps: vec![],
            runs: vec![WireRun {
                lines: vec![WireRunLine {
                    cap,
                    ..line(2589, 20, false, "Linen Cloth")
                }],
                ..plain_run()
            }],
        };
        let lua = render_runs_lua(&runs, 1).unwrap();
        assert!(!lua.contains(", cc = "), "wrote a cap of {cap:?}");
    }
}

#[test]
fn a_realm_the_addon_could_not_use_is_dropped_whole() {
    for realm in [
        WireRealm {
            id: 0,
            name: "Kazzak".into(),
        },
        WireRealm {
            id: 1305,
            name: "  ".into(),
        },
    ] {
        let runs = WireRuns {
            v: 3,
            generated_at: "2026-09-15T10:00:00.000Z".into(),
            plan: "pro".into(),
            free_lines: 5,
            groups: vec![],
            caps: vec![],
            runs: vec![WireRun {
                lines: vec![WireRunLine {
                    realm: Some(realm.clone()),
                    ..line(2589, 20, false, "Linen Cloth")
                }],
                ..plain_run()
            }],
        };
        let lua = render_runs_lua(&runs, 1).unwrap();
        assert!(!lua.contains(", rl = "), "wrote realm {realm:?}");
    }
}

#[test]
fn a_craft_the_addon_could_not_act_on_is_dropped_whole() {
    // Each of these is something the addon would have to do the
    // impossible with: name no recipe, divide a need by a yield of zero,
    // compare against a cost of nothing, split into no reagents.
    let good = WireCraft {
        recipe_id: 9876,
        crafted_qty: 5,
        cost_copper: 2300,
        reagents: vec![WireCraftReagent {
            item_id: 224060,
            qty: 5,
            name_en: "Eversong Trout".into(),
            vendor: false,
            usual: Some(400),
            vendor_unit: None,
        }],
    };
    let broken = [
        WireCraft {
            recipe_id: 0,
            ..good.clone()
        },
        WireCraft {
            crafted_qty: 0,
            ..good.clone()
        },
        WireCraft {
            cost_copper: 0,
            ..good.clone()
        },
        WireCraft {
            reagents: vec![],
            ..good.clone()
        },
        WireCraft {
            reagents: vec![WireCraftReagent {
                item_id: 0,
                ..good.reagents[0].clone()
            }],
            ..good.clone()
        },
        WireCraft {
            reagents: vec![WireCraftReagent {
                qty: 0,
                ..good.reagents[0].clone()
            }],
            ..good.clone()
        },
    ];
    for craft in broken {
        let runs = WireRuns {
            v: 3,
            generated_at: "2026-09-15T10:00:00.000Z".into(),
            plan: "pro".into(),
            free_lines: 5,
            groups: vec![],
            caps: vec![],
            runs: vec![WireRun {
                lines: vec![WireRunLine {
                    craft: Some(craft.clone()),
                    ..line(222724, 461, false, "Thalassian Fillet")
                }],
                ..plain_run()
            }],
        };
        let lua = render_runs_lua(&runs, 1).unwrap();
        assert!(!lua.contains(", cr = "), "wrote craft {craft:?}");
    }

    // …and the good one still renders, so the guards are not a blanket.
    let runs = WireRuns {
        v: 3,
        generated_at: "2026-09-15T10:00:00.000Z".into(),
        plan: "pro".into(),
        free_lines: 5,
        groups: vec![],
        caps: vec![],
        runs: vec![WireRun {
            lines: vec![WireRunLine {
                craft: Some(good),
                ..line(222724, 461, false, "Thalassian Fillet")
            }],
            ..plain_run()
        }],
    };
    let lua = render_runs_lua(&runs, 1).unwrap();
    assert!(lua.contains(", cr = { r = 9876, n = 5, c = 2300, i = { "));
}

#[test]
fn a_reagents_unknown_price_is_omitted_the_way_a_lines_is() {
    let runs = WireRuns {
        v: 3,
        generated_at: "2026-09-15T10:00:00.000Z".into(),
        plan: "pro".into(),
        free_lines: 5,
        groups: vec![],
        caps: vec![],
        runs: vec![WireRun {
            lines: vec![WireRunLine {
                craft: Some(WireCraft {
                    recipe_id: 9876,
                    crafted_qty: 5,
                    cost_copper: 2300,
                    reagents: vec![WireCraftReagent {
                        item_id: 224060,
                        qty: 5,
                        name_en: "Eversong Trout".into(),
                        vendor: false,
                        usual: Some(0),
                        vendor_unit: Some(0),
                    }],
                }),
                ..line(222724, 461, false, "Thalassian Fillet")
            }],
            ..plain_run()
        }],
    };
    let lua = render_runs_lua(&runs, 1).unwrap();
    assert!(lua.contains("{ i = 224060, q = 5, n = 'Eversong Trout', v = false }"));
}

#[test]
fn the_new_strings_are_escaped_like_every_other_name() {
    let runs = WireRuns {
        v: 3,
        generated_at: "2026-09-15T10:00:00.000Z".into(),
        plan: "pro".into(),
        free_lines: 5,
        groups: vec![],
        caps: vec![],
        runs: vec![WireRun {
            shared_by: Some("O'Brien".into()),
            source: Some(WireRunSource {
                label: "Cooking's 1-100".into(),
            }),
            lines: vec![WireRunLine {
                realm: Some(WireRealm {
                    id: 1305,
                    name: "Cho'gall".into(),
                }),
                craft: Some(WireCraft {
                    recipe_id: 9876,
                    crafted_qty: 5,
                    cost_copper: 2300,
                    reagents: vec![WireCraftReagent {
                        item_id: 3,
                        qty: 1,
                        name_en: "Deckhand's Shirt".into(),
                        vendor: true,
                        usual: None,
                        vendor_unit: Some(60),
                    }],
                }),
                ..line(222724, 461, false, "Thalassian Fillet")
            }],
            ..plain_run()
        }],
    };
    let lua = render_runs_lua(&runs, 1).unwrap();
    assert!(lua.contains("by = 'O\\'Brien'"));
    assert!(lua.contains("src = 'Cooking\\'s 1-100'"));
    assert!(lua.contains("n = 'Cho\\'gall'"));
    assert!(lua.contains("n = 'Deckhand\\'s Shirt'"));
}

#[test]
fn caps_render_after_runs_with_one_based_group_indexes_and_defaults_omitted() {
    let mut runs = v3_empty();
    runs.groups = vec!["Transmog".into(), "O'Ore".into()];
    runs.caps = vec![
        WireCap { item_id: 212345, cap: 1_500_000, min_ilvl: 610, group: Some(0), manual: true },
        WireCap { item_id: 190311, cap: 4200, min_ilvl: 0, group: Some(1), manual: false },
    ];
    let lua = render_runs_lua(&runs, 1_700_000_000).unwrap();
    assert!(lua.ends_with(", groups = { 'Transmog', 'O\\'Ore' }, caps = { { i = 212345, c = 1500000, l = 610, g = 1, m = true }, { i = 190311, c = 4200, g = 2 } } }\n"), "{lua}");
}

#[test]
fn a_cap_the_addon_could_not_use_is_dropped_whole() {
    let mut runs = v3_empty();
    runs.groups = vec!["G".into()];
    runs.caps = vec![
        WireCap { item_id: 0, cap: 100, min_ilvl: 0, group: Some(0), manual: false },     // no item
        WireCap { item_id: 5, cap: 0, min_ilvl: 0, group: Some(0), manual: false },       // no price
        WireCap { item_id: 6, cap: 100, min_ilvl: 0, group: Some(9), manual: false },     // group index off the end → kept, without g
        WireCap { item_id: 7, cap: 100, min_ilvl: 0, group: Some(0), manual: false },
    ];
    let lua = render_runs_lua(&runs, 1_700_000_000).unwrap();
    assert!(lua.contains("caps = { { i = 6, c = 100 }, { i = 7, c = 100, g = 1 } }"), "{lua}");
}

#[test]
fn only_unusable_caps_means_no_caps_key_at_all() {
    let mut runs = v3_empty();
    runs.groups = vec!["G".into()];
    runs.caps = vec![WireCap { item_id: 0, cap: 0, min_ilvl: 0, group: Some(0), manual: false }];
    let lua = render_runs_lua(&runs, 1_700_000_000).unwrap();
    assert!(!lua.contains("caps") && !lua.contains("groups"), "{lua}");
}
#[test]
fn a_fetch_error_or_an_unknown_version_writes_nothing() {
    assert_eq!(apply_fetch_result(Err("http 500".into()), 1), Err("http 500".to_string()));
    let v4 = WireRuns { v: 4, ..v3_empty() };
    assert_eq!(apply_fetch_result(Ok(v4), 1), Err("runs: unsupported version 4".to_string()));
    let v0 = WireRuns { v: 0, ..v3_empty() };
    assert!(apply_fetch_result(Ok(v0), 1).is_err());
}

#[test]
fn a_supported_version_renders_with_its_own_number() {
    for v in 1..=3u32 {
        let runs = WireRuns { v, ..v3_empty() };
        let lua = apply_fetch_result(Ok(runs), 1_789_000_000).unwrap();
        assert!(lua.starts_with(&format!("GoldCap_AppRuns = {{ v = {v}, generatedAt = 1789000000, plan = 'pro', freeLines = 5, runs = {{")), "{lua}");
        assert!(lua.ends_with(" }\n"));
    }
}


#[test]
fn the_rendered_lua_loads_in_a_sandboxed_lua_vm() {

    let runs = WireRuns {
        v: 1,
        generated_at: "2026-09-15T10:00:00.000Z".into(),
        plan: "pro".into(),
        free_lines: 5,
        groups: vec![],
        caps: vec![],
        runs: vec![WireRun {
            code: "abcd2345".into(),
            name: Some("O'Brien's \\ Emporium".into()),
            updated_at: "2026-09-15T09:00:00.000Z".into(),
            lines: vec![line(5, 210, false, "Plant Protein")],
            ..plain_run()
        }],
    };
    let lua_source = render_runs_lua(&runs, 1_789_000_000).unwrap();

    // No standard library: the same sandbox the SavedVariables reader uses, since the
    // addon loads this same file into a live WoW Lua environment.
    let lua = Lua::new_with(StdLib::NONE, LuaOptions::default()).unwrap();
    lua.load(&lua_source).exec().unwrap();

    let v: u32 = lua.load("return GoldCap_AppRuns.v").eval().unwrap();
    assert_eq!(v, 1);
    let name: String = lua
        .load("return GoldCap_AppRuns.runs[1].lines[1].n")
        .eval()
        .unwrap();
    assert_eq!(name, "Plant Protein");
    let run_name: String = lua
        .load("return GoldCap_AppRuns.runs[1].name")
        .eval()
        .unwrap();
    assert_eq!(run_name, "O'Brien's \\ Emporium");

    // An empty-runs render also loads.
    let empty = WireRuns {
        v: 1,
        generated_at: "2026-09-15T10:00:00.000Z".into(),
        plan: "free".into(),
        free_lines: 5,
        groups: vec![],
        caps: vec![],
        runs: vec![],
    };
    let empty_source = render_runs_lua(&empty, 1).unwrap();
    let lua2 = Lua::new_with(StdLib::NONE, LuaOptions::default()).unwrap();
    lua2.load(&empty_source).exec().unwrap();
    let count: i64 = lua2.load("return #GoldCap_AppRuns.runs").eval().unwrap();
    assert_eq!(count, 0);
}

#[test]
fn a_v2_render_loads_in_a_sandboxed_lua_vm_with_the_new_fields_readable() {

    let runs = WireRuns {
        v: 2,
        generated_at: "2026-09-15T10:00:00.000Z".into(),
        plan: "pro".into(),
        free_lines: 5,
        groups: vec![],
        caps: vec![],
        runs: vec![WireRun {
            code: "abcd2345".into(),
            name: Some("Cooking 1-100".into()),
            updated_at: "2026-09-15T09:00:00.000Z".into(),
            lines: vec![
                WireRunLine {
                    usual: Some(450),
                    vendor_unit: Some(25),
                    cheap_hour: Some(WireCheapHour { hour: 3, pct: -18 }),
                    ..line(2589, 20, false, "Linen Cloth")
                },
                line(159, 5, true, "Refreshing Spring Water"),
            ],
            ..plain_run()
        }],
    };
    let lua_source = render_runs_lua(&runs, 1_789_000_000).unwrap();

    let lua = Lua::new_with(StdLib::NONE, LuaOptions::default()).unwrap();
    lua.load(&lua_source).exec().unwrap();

    let v: u32 = lua.load("return GoldCap_AppRuns.v").eval().unwrap();
    assert_eq!(v, 2);
    let u: i64 = lua
        .load("return GoldCap_AppRuns.runs[1].lines[1].u")
        .eval()
        .unwrap();
    assert_eq!(u, 450);
    let vu: i64 = lua
        .load("return GoldCap_AppRuns.runs[1].lines[1].vu")
        .eval()
        .unwrap();
    assert_eq!(vu, 25);
    let ch: i64 = lua
        .load("return GoldCap_AppRuns.runs[1].lines[1].ch")
        .eval()
        .unwrap();
    assert_eq!(ch, 3);
    let cp: i64 = lua
        .load("return GoldCap_AppRuns.runs[1].lines[1].cp")
        .eval()
        .unwrap();
    assert_eq!(cp, -18);

    // A line the site had nothing to say about reads as nil in game.
    let missing: Option<i64> = lua
        .load("return GoldCap_AppRuns.runs[1].lines[2].u")
        .eval()
        .unwrap();
    assert_eq!(missing, None);
}

#[test]
fn a_v3_render_loads_in_a_sandboxed_lua_vm_with_the_new_fields_readable() {

    let runs = WireRuns {
        v: 3,
        generated_at: "2026-09-15T10:00:00.000Z".into(),
        plan: "pro".into(),
        free_lines: 5,
        groups: vec![],
        caps: vec![],
        runs: vec![
            WireRun {
                code: "a0000016".into(),
                name: Some("Flask watch".into()),
                kind: Some("alert".into()),
                lines: vec![WireRunLine {
                    cap: Some(99_900),
                    realm: Some(WireRealm {
                        id: 1305,
                        name: "Kazzak".into(),
                    }),
                    ..line(212264, 3, false, "Flask of Alchemical Chaos")
                }],
                ..plain_run()
            },
            WireRun {
                code: "abcd2345".into(),
                name: Some("Cooking 1-100".into()),
                shared_by: Some("Acromion".into()),
                source: Some(WireRunSource {
                    label: "Cooking 1-100".into(),
                }),
                lines: vec![WireRunLine {
                    craft: Some(WireCraft {
                        recipe_id: 9876,
                        crafted_qty: 5,
                        cost_copper: 2300,
                        reagents: vec![WireCraftReagent {
                            item_id: 224060,
                            qty: 5,
                            name_en: "Eversong Trout".into(),
                            vendor: false,
                            usual: Some(400),
                            vendor_unit: None,
                        }],
                    }),
                    ..line(222724, 461, false, "Thalassian Fillet")
                }],
                ..plain_run()
            },
        ],
    };
    let lua_source = render_runs_lua(&runs, 1_789_000_000).unwrap();

    let lua = Lua::new_with(StdLib::NONE, LuaOptions::default()).unwrap();
    lua.load(&lua_source).exec().unwrap();

    let v: u32 = lua.load("return GoldCap_AppRuns.v").eval().unwrap();
    assert_eq!(v, 3);
    let k: String = lua.load("return GoldCap_AppRuns.runs[1].k").eval().unwrap();
    assert_eq!(k, "alert");
    let cc: i64 = lua
        .load("return GoldCap_AppRuns.runs[1].lines[1].cc")
        .eval()
        .unwrap();
    assert_eq!(cc, 99_900);
    let realm_id: i64 = lua
        .load("return GoldCap_AppRuns.runs[1].lines[1].rl.id")
        .eval()
        .unwrap();
    assert_eq!(realm_id, 1305);
    let realm_name: String = lua
        .load("return GoldCap_AppRuns.runs[1].lines[1].rl.n")
        .eval()
        .unwrap();
    assert_eq!(realm_name, "Kazzak");

    let by: String = lua
        .load("return GoldCap_AppRuns.runs[2].by")
        .eval()
        .unwrap();
    assert_eq!(by, "Acromion");
    let src: String = lua
        .load("return GoldCap_AppRuns.runs[2].src")
        .eval()
        .unwrap();
    assert_eq!(src, "Cooking 1-100");
    let recipe: i64 = lua
        .load("return GoldCap_AppRuns.runs[2].lines[1].cr.r")
        .eval()
        .unwrap();
    assert_eq!(recipe, 9876);
    let crafted_qty: i64 = lua
        .load("return GoldCap_AppRuns.runs[2].lines[1].cr.n")
        .eval()
        .unwrap();
    assert_eq!(crafted_qty, 5);
    let cost: i64 = lua
        .load("return GoldCap_AppRuns.runs[2].lines[1].cr.c")
        .eval()
        .unwrap();
    assert_eq!(cost, 2300);
    let reagent_count: i64 = lua
        .load("return #GoldCap_AppRuns.runs[2].lines[1].cr.i")
        .eval()
        .unwrap();
    assert_eq!(reagent_count, 1);
    let reagent_name: String = lua
        .load("return GoldCap_AppRuns.runs[2].lines[1].cr.i[1].n")
        .eval()
        .unwrap();
    assert_eq!(reagent_name, "Eversong Trout");
    let reagent_usual: i64 = lua
        .load("return GoldCap_AppRuns.runs[2].lines[1].cr.i[1].u")
        .eval()
        .unwrap();
    assert_eq!(reagent_usual, 400);

    // The alert run has no craft and the followed run has no cap: both
    // read as nil in game rather than as a zero.
    let missing: Option<i64> = lua
        .load("return GoldCap_AppRuns.runs[2].lines[1].cc")
        .eval()
        .unwrap();
    assert_eq!(missing, None);
}

#[test]
fn a_v3_render_with_caps_loads_in_a_sandboxed_lua_vm() {

    let mut runs = v3_empty();
    runs.groups = vec!["Transmog".into()];
    runs.caps = vec![
        WireCap { item_id: 212345, cap: 1_500_000, min_ilvl: 610, group: Some(0), manual: true },
        WireCap { item_id: 190311, cap: 4200, min_ilvl: 0, group: Some(0), manual: false },
    ];
    let lua_source = render_runs_lua(&runs, 1_700_000_000).unwrap();

    let lua = Lua::new_with(StdLib::NONE, LuaOptions::default()).unwrap();
    lua.load(&lua_source).exec().unwrap();

    let i: i64 = lua
        .load("return GoldCap_AppRuns.caps[1].i")
        .eval()
        .unwrap();
    assert_eq!(i, 212345);
    let c: i64 = lua
        .load("return GoldCap_AppRuns.caps[1].c")
        .eval()
        .unwrap();
    assert_eq!(c, 1_500_000);
    let l: i64 = lua
        .load("return GoldCap_AppRuns.caps[1].l")
        .eval()
        .unwrap();
    assert_eq!(l, 610);
    let g: i64 = lua
        .load("return GoldCap_AppRuns.caps[1].g")
        .eval()
        .unwrap();
    assert_eq!(g, 1);
    let m: bool = lua
        .load("return GoldCap_AppRuns.caps[1].m")
        .eval()
        .unwrap();
    assert!(m);
    let group_name: String = lua
        .load("return GoldCap_AppRuns.groups[1]")
        .eval()
        .unwrap();
    assert_eq!(group_name, "Transmog");
    let l2: Option<i64> = lua
        .load("return GoldCap_AppRuns.caps[2].l")
        .eval()
        .unwrap();
    assert_eq!(l2, None);
    let m2: Option<bool> = lua
        .load("return GoldCap_AppRuns.caps[2].m")
        .eval()
        .unwrap();
    assert_eq!(m2, None);
}

/// A v3 alert run with one gear line on it, for the item-level floor tests
/// below, with the given floor on the line.
fn gear_alert(min_ilvl: Option<u32>) -> WireRuns {
    WireRuns {
        v: 3,
        generated_at: "2026-09-23T10:00:00.000Z".into(),
        plan: "pro".into(),
        free_lines: 5,
        groups: vec![],
        caps: vec![],
        runs: vec![WireRun {
            code: "a0000016".into(),
            name: Some("Gear watch".into()),
            updated_at: "2026-09-15T09:00:00.000Z".into(),
            kind: Some("alert".into()),
            shared_by: None,
            source: None,
            lines: vec![WireRunLine {
                cap: Some(1_500_000),
                realm: Some(WireRealm { id: 1305, name: "Kazzak".into() }),
                min_ilvl,
                ..line(222440, 1, false, "Everforged Longsword")
            }],
        }],
    }
}

/// What this build wrote for the gear line before a line could carry a floor.
fn gear_alert_lua_without_a_floor() -> String {
    let updated_at = goldcap_companion::ledger_summary::parse_iso_utc("2026-09-15T09:00:00.000Z").unwrap();
    format!(
        "GoldCap_AppRuns = {{ v = 3, generatedAt = 1789000000, plan = 'pro', freeLines = 5, runs = {{ {{ code = 'a0000016', name = 'Gear watch', k = 'alert', updatedAt = {updated_at}, lines = {{ {{ i = 222440, q = 1, v = false, n = 'Everforged Longsword', cc = 1500000, rl = {{ id = 1305, n = 'Kazzak' }} }} }} }} }} }}\n"
    )
}

#[test]
fn a_gear_line_renders_its_min_ilvl_after_its_cap() {
    let parsed = gear_alert(Some(625));
    let lua = render_runs_lua(&parsed, 1_789_000_000).unwrap();
    let updated_at = goldcap_companion::ledger_summary::parse_iso_utc("2026-09-15T09:00:00.000Z").unwrap();
    let expected = format!(
        "GoldCap_AppRuns = {{ v = 3, generatedAt = 1789000000, plan = 'pro', freeLines = 5, runs = {{ {{ code = 'a0000016', name = 'Gear watch', k = 'alert', updatedAt = {updated_at}, lines = {{ {{ i = 222440, q = 1, v = false, n = 'Everforged Longsword', cc = 1500000, minIlvl = 625, rl = {{ id = 1305, n = 'Kazzak' }} }} }} }} }} }}\n"
    );
    assert_eq!(lua, expected);
}

#[test]
fn a_line_without_a_floor_renders_byte_for_byte_what_this_build_always_wrote() {
    // No key and a null both read as no floor; a zero means "any level".
    for floor in [None, None, Some(0)] {
        let parsed = gear_alert(floor);
        let lua = render_runs_lua(&parsed, 1_789_000_000).unwrap();
        assert_eq!(lua, gear_alert_lua_without_a_floor(), "floor {floor:?}");
    }
}

#[test]
fn a_payload_without_caps_reads_as_empty_and_renders_nothing_new() {
    let parsed = WireRuns { plan: "free".into(), ..v3_empty() };
    assert!(parsed.groups.is_empty() && parsed.caps.is_empty());
    let lua = render_runs_lua(&parsed, 1_700_000_000).unwrap();
    assert!(!lua.contains("caps") && !lua.contains("groups"));
    assert_eq!(lua, "GoldCap_AppRuns = { v = 3, generatedAt = 1700000000, plan = 'free', freeLines = 5, runs = {  } }\n");
}

#[test]
fn a_malformed_group_name_keeps_its_slot_so_later_indexes_do_not_shift() {
    // The second name was not a string on the wire: it keeps its slot, empty.
    let mut parsed = v3_empty();
    parsed.groups = vec!["Transmog".into(), String::new(), "Ore".into(), "  ".into()];
    parsed.caps = vec![
        WireCap { item_id: 1, cap: 100, min_ilvl: 0, group: Some(2), manual: false },
        WireCap { item_id: 2, cap: 100, min_ilvl: 0, group: Some(1), manual: false },
        WireCap { item_id: 3, cap: 100, min_ilvl: 0, group: Some(3), manual: false },
    ];
    assert_eq!(parsed.groups.len(), 4, "{:?}", parsed.groups);
    let lua_source = render_runs_lua(&parsed, 1_700_000_000).unwrap();
    assert!(lua_source.contains("groups = { 'Transmog', '', 'Ore', '  ' }, caps = { { i = 1, c = 100, g = 3 }, { i = 2, c = 100 }, { i = 3, c = 100 } }"), "{lua_source}");

    let lua = Lua::new_with(StdLib::NONE, LuaOptions::default()).unwrap();
    lua.load(&lua_source).exec().unwrap();
    let label: String = lua
        .load("local r = GoldCap_AppRuns; return r.groups[r.caps[1].g]")
        .eval()
        .unwrap();
    assert_eq!(label, "Ore");
}

#[test]
fn a_cap_without_a_group_on_the_wire_names_no_group() {
    // Absent, null, a string and a negative index all read as no group.
    let mut parsed = v3_empty();
    parsed.groups = vec!["Transmog".into()];
    parsed.caps = vec![
        WireCap { item_id: 5, cap: 100, min_ilvl: 0, group: None, manual: false },
        WireCap { item_id: 6, cap: 100, min_ilvl: 0, group: None, manual: false },
        WireCap { item_id: 7, cap: 100, min_ilvl: 0, group: None, manual: false },
        WireCap { item_id: 8, cap: 100, min_ilvl: 0, group: Some(0), manual: false },
        WireCap { item_id: 9, cap: 100, min_ilvl: 0, group: None, manual: false },
    ];
    let lua = render_runs_lua(&parsed, 1_700_000_000).unwrap();
    assert!(lua.contains("caps = { { i = 5, c = 100 }, { i = 6, c = 100 }, { i = 7, c = 100 }, { i = 8, c = 100, g = 1 }, { i = 9, c = 100 } }"), "{lua}");
}

#[test]
fn a_min_ilvl_loads_in_a_sandboxed_lua_vm_and_a_line_without_one_reads_nil() {
    let parsed = WireRuns {
        v: 3,
        generated_at: "2026-09-23T10:00:00.000Z".into(),
        plan: "pro".into(),
        free_lines: 5,
        groups: vec![],
        caps: vec![],
        runs: vec![WireRun {
            code: "a0000016".into(),
            name: Some("Gear watch".into()),
            updated_at: "2026-09-15T09:00:00.000Z".into(),
            kind: Some("alert".into()),
            shared_by: None,
            source: None,
            lines: vec![
                WireRunLine { cap: Some(1_500_000), min_ilvl: Some(625), ..line(222440, 1, false, "Everforged Longsword") },
                WireRunLine { cap: Some(99_900), ..line(212264, 3, false, "Flask of Alchemical Chaos") },
            ],
        }],
    };
    let lua_source = render_runs_lua(&parsed, 1_789_000_000).unwrap();

    let lua = Lua::new_with(StdLib::NONE, LuaOptions::default()).unwrap();
    lua.load(&lua_source).exec().unwrap();

    let floor: Option<i64> = lua
        .load("return GoldCap_AppRuns.runs[1].lines[1].minIlvl")
        .eval()
        .unwrap();
    assert_eq!(floor, Some(625));
    let none: Option<i64> = lua
        .load("return GoldCap_AppRuns.runs[1].lines[2].minIlvl")
        .eval()
        .unwrap();
    assert_eq!(none, None);
}

#[test]
fn an_unparseable_updated_at_names_the_value_quoted_and_the_run() {
    let runs = WireRuns {
        runs: vec![WireRun { updated_at: "not-a-date".into(), ..plain_run() }],
        ..v3_empty()
    };
    assert_eq!(
        render_runs_lua(&runs, 1),
        Err("runs: bad updatedAt \"not-a-date\" on run abcd2345".to_string())
    );
}
