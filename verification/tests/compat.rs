use open_eyes::compat::{
    check_app_lowercased, check_by_app, check_by_soc, check_soc_lowercased, report_lines, soc_database,
    FlashMethod, SupportStatus, Verdict,
};

#[test]
fn cloudedge_is_incompatible() {
    let result = check_by_app("CloudEdge");
    assert_eq!(result.verdict, Verdict::Incompatible);
}

#[test]
fn wyze_is_possibly_compatible() {
    let result = check_by_app("Wyze");
    assert_eq!(result.verdict, Verdict::PossiblyCompatible);
}

#[test]
fn t31_is_compatible() {
    let result = check_by_soc("T31");
    assert_eq!(result.verdict, Verdict::Compatible);
    assert!(result.soc.unwrap().thingino == SupportStatus::Supported);
}

#[test]
fn hi3518ev300_is_possibly_compatible() {
    // Supported by OpenIPC but needs UART flash (LiteOS stock)
    let result = check_by_soc("Hi3518EV300");
    assert_eq!(result.verdict, Verdict::PossiblyCompatible);
}

#[test]
fn ak3918ev300_is_incompatible() {
    let result = check_by_soc("AK3918EV300");
    assert_eq!(result.verdict, Verdict::Incompatible);
}

#[test]
fn unknown_soc_returns_unknown() {
    let result = check_by_soc("XYZ9999");
    assert_eq!(result.verdict, Verdict::Unknown);
}

#[test]
fn case_insensitive_app_check() {
    assert_eq!(check_by_app("cloudedge").verdict, Verdict::Incompatible);
    assert_eq!(check_by_app("CLOUDEDGE").verdict, Verdict::Incompatible);
    assert_eq!(check_by_app("CloudEdge").verdict, Verdict::Incompatible);
}

#[test]
fn case_insensitive_soc_check() {
    assert_eq!(check_by_soc("t31").verdict, Verdict::Compatible);
    assert_eq!(check_by_soc("T31").verdict, Verdict::Compatible);
}

#[test]
fn soc_lookup_ignores_separators() {
    let r = check_by_soc("hi-3518 ev_300");
    assert_eq!(r.verdict, Verdict::PossiblyCompatible);
    assert_eq!(r.soc.unwrap().name, "Hi3518EV300");
}

#[test]
fn soc_lookup_matches_contained_names() {
    // the query contains a database name
    let r = check_by_soc("Ingenic T40N");
    assert_eq!(r.soc.as_ref().unwrap().name, "T40");
    assert_eq!(r.verdict, Verdict::PossiblyCompatible);
}

#[test]
fn soc_reasons_are_exact() {
    assert_eq!(check_by_soc("T20").reason, "Ingenic T20 — SD card flashable, Thingino support. Buy it.");
    assert_eq!(check_by_soc("SSD202").reason, "Sigmastar SSD202 — SD card flashable, OpenIPC support. Buy it.");
    assert_eq!(
        check_by_soc("AK3918EV300").reason,
        "Anyka AK3918EV300 — flash method: None. Not consumer-flashable."
    );
    assert_eq!(
        check_by_soc("Hi3518EV300").reason,
        "HiSilicon Hi3518EV300 — supported but may need UART flash (soldering). Check if the specific camera's stock firmware is Linux-based."
    );
    let unknown = check_by_soc("XYZ9999");
    assert_eq!(unknown.reason, "SoC 'XYZ9999' not in database. Check openipc.org/cameras/vendors.");
    assert_eq!(unknown.recommendations.len(), 3);
    assert!(unknown.soc.is_none());
    assert!(check_by_soc("T31").recommendations.is_empty());
}

#[test]
fn app_platforms() {
    assert_eq!(check_by_app("Meari Home").verdict, Verdict::Incompatible);
    assert_eq!(check_by_app("PPStrong").verdict, Verdict::Incompatible);
    assert_eq!(check_by_app("TP-Link Tapo").verdict, Verdict::PossiblyCompatible);
    assert_eq!(check_by_app("XMEye Pro").verdict, Verdict::PossiblyCompatible);
    assert_eq!(check_by_app("Smart Life").verdict, Verdict::PossiblyCompatible);
    assert_eq!(check_by_app("Wyze").recommendations.len(), 3);
    let unknown = check_by_app("FooCam");
    assert_eq!(unknown.verdict, Verdict::Unknown);
    assert_eq!(unknown.reason, "Unknown app 'FooCam'. Check the SoC via FCC internal photos.");
    assert_eq!(unknown.recommendations.len(), 4);
}

#[test]
fn database_holds_ten_chips() {
    let db = soc_database();
    assert_eq!(db.len(), 10);
    assert_eq!(db[0].name, "T20");
    assert_eq!(db[9].flash_method, FlashMethod::NoMethod);
    assert!(db[2].has_npu);
    // every chip is found by its own name
    for soc in &db {
        assert_eq!(check_by_soc(&soc.name).soc.unwrap().name, soc.name);
    }
}

#[test]
fn every_chip_finds_its_own_entry_in_any_case() {
    let db = soc_database();
    for soc in &db {
        let lower = soc.name.to_lowercase();
        let found = check_by_soc(&lower).soc.unwrap();
        assert_eq!(found.name, soc.name);
        assert_eq!(found.vendor, soc.vendor);
        assert_eq!(check_by_soc(&soc.name).soc.unwrap().name, soc.name);
    }
    // an earlier, overlapping entry is not taken for a later chip
    assert_eq!(check_by_soc("hi3518ev300").soc.unwrap().name, "Hi3518EV300");
    assert_eq!(check_by_soc("T21").soc.unwrap().name, "T21");
}

#[test]
fn report_lists_chip_and_recommendations() {
    let lines = report_lines(&check_by_soc("T31"));
    assert_eq!(
        lines,
        vec![
            "✅ COMPATIBLE — flash it!".to_string(),
            "".to_string(),
            "Ingenic T31 — SD card flashable, Thingino support. Buy it.".to_string(),
            "".to_string(),
            "SoC: Ingenic T31 (MIPS)".to_string(),
            "OpenIPC: Supported".to_string(),
            "Thingino: Supported".to_string(),
            "Flash: SdCard".to_string(),
            "NPU: yes".to_string(),
        ]
    );
    let lines = report_lines(&check_by_app("Wyze"));
    assert_eq!(lines.len(), 3 + 2 + 3);
    assert_eq!(lines[0], "⚠️ POSSIBLY COMPATIBLE — check details");
    assert_eq!(lines[4], "Recommendations:");
    assert_eq!(lines[5], "  → Wyze Cam v3: COMPATIBLE (T31, SD card flash, Thingino)");
}

#[test]
fn lookups_take_the_lowercase_form_as_given() {
    // the lowercase form decides the lookup; the name is only quoted
    let r = check_soc_lowercased("whatever", "t31");
    assert_eq!(r.verdict, Verdict::Compatible);
    assert_eq!(r.soc.unwrap().name, "T31");
    let r = check_soc_lowercased("Mystery-9", "mystery-9");
    assert_eq!(r.verdict, Verdict::Unknown);
    assert_eq!(r.reason, "SoC 'Mystery-9' not in database. Check openipc.org/cameras/vendors.");

    let r = check_app_lowercased("WYZE", "wyze");
    assert_eq!(r.verdict, Verdict::PossiblyCompatible);
    let r = check_app_lowercased("Foo", "foo");
    assert_eq!(r.verdict, Verdict::Unknown);
    assert_eq!(r.reason, "Unknown app 'Foo'. Check the SoC via FCC internal photos.");
}
