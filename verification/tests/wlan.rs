use ssid::wlan::{
    description_from_wide, find_description, search_all_adapters, search_named_adapter, ssid_from_dot11,
    AdapterAction,
};

fn wide(text: &str) -> [u16; 256] {
    let mut out = [0u16; 256];
    for (i, unit) in text.encode_utf16().enumerate() {
        out[i] = unit;
    }
    out
}

#[test]
fn description_stops_at_nul() {
    assert_eq!(description_from_wide(&wide("Intel(R) Wi-Fi 6 AX200 160MHz")), "Intel(R) Wi-Fi 6 AX200 160MHz");
    assert_eq!(description_from_wide(&[0x57, 0x69, 0, 0x46]), "Wi");
    assert_eq!(description_from_wide(&[0x57, 0x69]), "Wi");
    assert_eq!(description_from_wide(&[]), "");
}

#[test]
fn description_replaces_unpaired_surrogate() {
    assert_eq!(description_from_wide(&[0x41, 0xD800, 0x42, 0]), "A\u{FFFD}B");
}

#[test]
fn description_first_match_wins() {
    let descriptions = vec!["Realtek".to_string(), "Intel".to_string(), "Intel".to_string()];
    assert_eq!(find_description(&descriptions, "Intel"), Some(1));
    assert_eq!(find_description(&descriptions, "Realtek"), Some(0));
    assert_eq!(find_description(&descriptions, "intel"), None);
    assert_eq!(find_description(&vec![], "Intel"), None);
}

#[test]
fn dot11_ssid_uses_length() {
    let mut bytes = [0u8; 32];
    bytes[..4].copy_from_slice(b"Cafe");
    assert_eq!(ssid_from_dot11(&bytes, 4), Some("Cafe".to_string()));
    assert_eq!(ssid_from_dot11(&bytes, 2), Some("Ca".to_string()));
    assert_eq!(ssid_from_dot11(&bytes, 0), None);
    assert_eq!(ssid_from_dot11(&[0xff; 32], 1), Some("\u{FFFD}".to_string()));
}

#[test]
fn description_decodes_surrogate_pair() {
    // U+1F4F6 as a surrogate pair, then a lone low surrogate.
    assert_eq!(description_from_wide(&[0xD83D, 0xDCF6, 0xDC00, 0]), "\u{1F4F6}\u{FFFD}");
}

#[test]
fn dot11_length_past_array_is_none() {
    let bytes = [b'a'; 32];
    assert_eq!(ssid_from_dot11(&bytes, 32), Some("a".repeat(32)));
    assert_eq!(ssid_from_dot11(&bytes, 33), None);
    assert_eq!(ssid_from_dot11(&bytes, u32::MAX), None);
}

#[test]
fn all_adapters_first_report_wins() {
    let mut search = search_all_adapters(3);
    assert_eq!(search.action(), AdapterAction::Query(0));
    search.report(None);
    assert_eq!(search.action(), AdapterAction::Query(1));
    search.report(Some("Home".to_string()));
    assert_eq!(search.action(), AdapterAction::Finish(Some("Home".to_string())));
    search.report(Some("Other".to_string()));
    assert_eq!(search.action(), AdapterAction::Finish(Some("Home".to_string())));
    assert!(!search.unmatched());
}

#[test]
fn all_adapters_without_report() {
    let mut search = search_all_adapters(2);
    search.report(None);
    search.report(None);
    assert_eq!(search.action(), AdapterAction::Finish(None));
    assert_eq!(search_all_adapters(0).action(), AdapterAction::Finish(None));
}

#[test]
fn named_adapter_queries_only_that_adapter() {
    let descriptions = vec!["Realtek".to_string(), "Intel".to_string()];
    let mut search = search_named_adapter(&descriptions, "Intel");
    assert_eq!(search.action(), AdapterAction::Query(1));
    search.report(None);
    assert_eq!(search.action(), AdapterAction::Finish(None));
    assert!(!search.unmatched());

    let missing = search_named_adapter(&descriptions, "Broadcom");
    assert_eq!(missing.action(), AdapterAction::Finish(None));
    assert!(missing.unmatched());
}
