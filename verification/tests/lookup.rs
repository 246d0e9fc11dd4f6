use ssid::attrs::{nested_attributes_complete, read_u32, Attr};
use ssid::linux;
use ssid::nl80211::{
    find_interface, ifname_from_payload, interface_from_attrs, interfaces_from_dump,
    ssid_from_bss, ssid_from_bss_attrs, ssid_from_scan_dump,
    NL80211_ATTR_BSS, NL80211_ATTR_IFINDEX, NL80211_ATTR_IFNAME,
    NL80211_BSS_INFORMATION_ELEMENTS, NL80211_BSS_STATUS, NL80211_BSS_STATUS_ASSOCIATED,
};
use ssid::{get_ssid, get_ssid_for_interface, Action, Event, Lookup};

fn attr(kind: u16, payload: &[u8]) -> Attr {
    Attr { kind, payload: payload.to_vec() }
}

/// A netlink attribute encoded as the kernel sends it, in host byte order.
fn encoded(kind: u16, payload: &[u8]) -> Vec<u8> {
    let mut out = Vec::new();
    out.extend_from_slice(&((4 + payload.len()) as u16).to_ne_bytes());
    out.extend_from_slice(&kind.to_ne_bytes());
    out.extend_from_slice(payload);
    while out.len() % 4 != 0 {
        out.push(0);
    }
    out
}

fn ssid_ies(name: &str) -> Vec<u8> {
    let mut ies = vec![0x00, name.len() as u8];
    ies.extend_from_slice(name.as_bytes());
    ies.extend_from_slice(&[0x01, 0x02, 0x82, 0x84]);
    ies
}

/// The payload of an `NL80211_ATTR_BSS` attribute.
fn bss_payload(status: u32, name: &str) -> Vec<u8> {
    let mut out = encoded(NL80211_BSS_STATUS, &status.to_ne_bytes());
    out.extend(encoded(NL80211_BSS_INFORMATION_ELEMENTS, &ssid_ies(name)));
    out
}

fn interface_msg(index: u32, name: &str) -> Vec<Attr> {
    let mut ifname = name.as_bytes().to_vec();
    ifname.push(0);
    vec![attr(NL80211_ATTR_IFINDEX, &index.to_ne_bytes()), attr(NL80211_ATTR_IFNAME, &ifname)]
}

fn scan_msg(status: u32, name: &str) -> Vec<Attr> {
    vec![attr(NL80211_ATTR_BSS, &bss_payload(status, name))]
}

fn answer(lookup: &Lookup) -> Option<String> {
    match lookup.action() {
        Action::Finish(answer) => answer,
        other => panic!("lookup not finished: {:?}", other),
    }
}

#[test]
fn read_u32_needs_four_bytes() {
    assert_eq!(read_u32(&[1, 2, 3]), None);
    assert_eq!(read_u32(&7u32.to_ne_bytes()), Some(7));
    let mut long = 0x0102_0304u32.to_ne_bytes().to_vec();
    long.push(9);
    assert_eq!(read_u32(&long), Some(0x0102_0304));
}

#[test]
fn ifname_stops_at_nul() {
    assert_eq!(ifname_from_payload(b"wlan0\0junk"), Some("wlan0".to_string()));
    assert_eq!(ifname_from_payload(b"wlp2s0"), Some("wlp2s0".to_string()));
    assert_eq!(ifname_from_payload(b"\0wlan0"), None);
    assert_eq!(ifname_from_payload(b""), None);
}

#[test]
fn interface_needs_index_and_name() {
    assert_eq!(interface_from_attrs(&interface_msg(3, "wlan0")), Some((3, "wlan0".to_string())));
    assert_eq!(interface_from_attrs(&vec![attr(NL80211_ATTR_IFINDEX, &3u32.to_ne_bytes())]), None);
    assert_eq!(interface_from_attrs(&vec![attr(NL80211_ATTR_IFNAME, b"wlan0\0")]), None);
    // A short index payload is ignored.
    assert_eq!(
        interface_from_attrs(&vec![attr(NL80211_ATTR_IFINDEX, &[1, 0]), attr(NL80211_ATTR_IFNAME, b"wlan0\0")]),
        None
    );
}

#[test]
fn interface_last_attribute_wins() {
    let attrs = vec![
        attr(NL80211_ATTR_IFINDEX, &3u32.to_ne_bytes()),
        attr(NL80211_ATTR_IFNAME, b"wlan0\0"),
        attr(NL80211_ATTR_IFINDEX, &5u32.to_ne_bytes()),
        attr(NL80211_ATTR_IFINDEX, &[9]),
        attr(NL80211_ATTR_IFNAME, b"\0"),
        attr(99, b"ignored"),
    ];
    assert_eq!(interface_from_attrs(&attrs), Some((5, "wlan0".to_string())));
}

#[test]
fn interface_dump_keeps_order_and_skips_incomplete() {
    let msgs = vec![
        interface_msg(4, "wlan1"),
        vec![attr(NL80211_ATTR_IFNAME, b"p2p-dev\0")],
        interface_msg(2, "wlan0"),
    ];
    let list = interfaces_from_dump(&msgs);
    assert_eq!(list, vec![(4, "wlan1".to_string()), (2, "wlan0".to_string())]);
    assert_eq!(find_interface(&list, &"wlan0".to_string()), Some(2));
    assert_eq!(find_interface(&list, &"eth0".to_string()), None);
    assert_eq!(interfaces_from_dump(&vec![]), vec![]);
}

#[test]
fn bss_needs_associated_status() {
    let ies = ssid_ies("Cafe");
    let associated = vec![
        attr(NL80211_BSS_STATUS, &NL80211_BSS_STATUS_ASSOCIATED.to_ne_bytes()),
        attr(NL80211_BSS_INFORMATION_ELEMENTS, &ies),
    ];
    assert_eq!(ssid_from_bss_attrs(&associated), Some("Cafe".to_string()));
    let authenticated = vec![
        attr(NL80211_BSS_STATUS, &0u32.to_ne_bytes()),
        attr(NL80211_BSS_INFORMATION_ELEMENTS, &ies),
    ];
    assert_eq!(ssid_from_bss_attrs(&authenticated), None);
    assert_eq!(ssid_from_bss_attrs(&vec![attr(NL80211_BSS_INFORMATION_ELEMENTS, &ies)]), None);
    let short_status = vec![attr(NL80211_BSS_STATUS, &[1]), attr(NL80211_BSS_INFORMATION_ELEMENTS, &ies)];
    assert_eq!(ssid_from_bss_attrs(&short_status), None);
}

#[test]
fn bss_last_information_elements_win() {
    let attrs = vec![
        attr(NL80211_BSS_INFORMATION_ELEMENTS, &ssid_ies("First")),
        attr(NL80211_BSS_STATUS, &NL80211_BSS_STATUS_ASSOCIATED.to_ne_bytes()),
        attr(NL80211_BSS_INFORMATION_ELEMENTS, &[0x00, 0x00]),
    ];
    assert_eq!(ssid_from_bss_attrs(&attrs), None);
}

#[test]
fn bss_payload_is_parsed() {
    let payload = bss_payload(NL80211_BSS_STATUS_ASSOCIATED, "Library");
    assert!(nested_attributes_complete(&payload));
    assert_eq!(ssid_from_bss(&payload), Some("Library".to_string()));
    assert_eq!(ssid_from_bss(&bss_payload(0, "Library")), None);
    // A payload that ends inside an attribute gives None.
    let truncated = &payload[..payload.len() - 4];
    assert!(!nested_attributes_complete(truncated));
    assert_eq!(ssid_from_bss(truncated), None);
    assert!(nested_attributes_complete(&[]));
    assert_eq!(ssid_from_bss(&[]), None);
}

#[test]
fn bss_header_shorter_than_itself_gives_none() {
    let mut payload = 2u16.to_ne_bytes().to_vec();
    payload.extend_from_slice(&NL80211_BSS_STATUS.to_ne_bytes());
    payload.extend_from_slice(&[0, 0, 0, 0]);
    assert!(!nested_attributes_complete(&payload));
    assert_eq!(ssid_from_bss(&payload), None);
    assert!(!nested_attributes_complete(&[0, 0, 9, 0, 0, 0, 0, 0]));
    assert_eq!(ssid_from_bss(&[0, 0, 9, 0, 0, 0, 0, 0]), None);
    assert!(!nested_attributes_complete(&[1, 2, 3]));
}

#[test]
fn bss_attribute_without_padding_gives_none() {
    // A status attribute of 5 bytes whose padding is missing.
    let mut payload = 5u16.to_ne_bytes().to_vec();
    payload.extend_from_slice(&NL80211_BSS_STATUS.to_ne_bytes());
    payload.push(1);
    assert!(!nested_attributes_complete(&payload));
    assert_eq!(ssid_from_bss(&payload), None);
    let header_only = encoded(NL80211_BSS_STATUS, &[]);
    assert!(nested_attributes_complete(&header_only));
    // A header that declares 8 bytes with nothing after it.
    let mut short = 8u16.to_ne_bytes().to_vec();
    short.extend_from_slice(&NL80211_BSS_STATUS.to_ne_bytes());
    assert!(!nested_attributes_complete(&short));
    assert_eq!(ssid_from_bss(&short), None);
}

#[test]
fn scan_dump_reports_first_associated_bss() {
    let msgs = vec![
        scan_msg(0, "Neighbour"),
        vec![attr(NL80211_ATTR_IFINDEX, &3u32.to_ne_bytes())],
        scan_msg(NL80211_BSS_STATUS_ASSOCIATED, "Home"),
        scan_msg(NL80211_BSS_STATUS_ASSOCIATED, "Other"),
    ];
    assert_eq!(ssid_from_scan_dump(&msgs), Some("Home".to_string()));
    assert_eq!(ssid_from_scan_dump(&vec![scan_msg(0, "Neighbour")]), None);
    assert_eq!(ssid_from_scan_dump(&vec![]), None);
}

#[test]
fn scan_dump_passes_over_malformed_bss() {
    let mut bad = 1u16.to_ne_bytes().to_vec();
    bad.extend_from_slice(&[0, 0]);
    let msgs = vec![vec![attr(NL80211_ATTR_BSS, &bad)], scan_msg(NL80211_BSS_STATUS_ASSOCIATED, "Home")];
    assert_eq!(ssid_from_scan_dump(&msgs), Some("Home".to_string()));
}

#[test]
fn active_lookup_scans_interfaces_in_order() {
    let mut lookup = get_ssid();
    assert_eq!(lookup.action(), Action::OpenSocket);
    lookup.advance(Event::SocketOpened);
    assert_eq!(lookup.action(), Action::DumpInterfaces);
    lookup.advance(Event::InterfaceDump(vec![interface_msg(4, "wlan1"), interface_msg(2, "wlan0")]));
    assert_eq!(lookup.action(), Action::DumpScan(4));
    lookup.advance(Event::ScanDump(vec![scan_msg(0, "Neighbour")]));
    assert_eq!(lookup.action(), Action::DumpScan(2));
    lookup.advance(Event::ScanDump(vec![scan_msg(NL80211_BSS_STATUS_ASSOCIATED, "Home")]));
    assert_eq!(answer(&lookup), Some("Home".to_string()));
    // A finished lookup ignores further events.
    lookup.advance(Event::SocketUnavailable);
    assert_eq!(answer(&lookup), Some("Home".to_string()));
}

#[test]
fn active_lookup_without_association() {
    let mut lookup = get_ssid();
    lookup.advance(Event::SocketOpened);
    lookup.advance(Event::InterfaceDump(vec![interface_msg(4, "wlan1")]));
    lookup.advance(Event::ScanDump(vec![]));
    assert_eq!(answer(&lookup), None);
}

#[test]
fn active_lookup_without_interfaces() {
    let mut lookup = get_ssid();
    lookup.advance(Event::SocketOpened);
    lookup.advance(Event::InterfaceDump(vec![]));
    assert_eq!(answer(&lookup), None);
}

#[test]
fn lookup_without_socket() {
    let mut lookup = get_ssid_for_interface("wlan0");
    lookup.advance(Event::SocketUnavailable);
    assert_eq!(answer(&lookup), None);
}

#[test]
fn named_lookup_scans_only_that_interface() {
    let mut lookup = linux::get_ssid_for_interface("wlan0");
    lookup.advance(Event::SocketOpened);
    // An event the lookup is not waiting for is ignored.
    lookup.advance(Event::ScanDump(vec![scan_msg(NL80211_BSS_STATUS_ASSOCIATED, "Early")]));
    assert_eq!(lookup.action(), Action::DumpInterfaces);
    lookup.advance(Event::InterfaceDump(vec![interface_msg(4, "wlan1"), interface_msg(2, "wlan0")]));
    assert_eq!(lookup.action(), Action::DumpScan(2));
    lookup.advance(Event::ScanDump(vec![scan_msg(0, "Neighbour")]));
    assert_eq!(answer(&lookup), None);
}

#[test]
fn named_lookup_answers_ssid() {
    let mut lookup = get_ssid_for_interface("wlan1");
    lookup.advance(Event::SocketOpened);
    lookup.advance(Event::InterfaceDump(vec![interface_msg(4, "wlan1"), interface_msg(2, "wlan0")]));
    lookup.advance(Event::ScanDump(vec![scan_msg(NL80211_BSS_STATUS_ASSOCIATED, "Office")]));
    assert_eq!(answer(&lookup), Some("Office".to_string()));
}

/// Drives a lookup the way a host without WiFi hardware answers it: the
/// socket opens and the kernel lists no wireless interface.
fn without_wifi(mut lookup: Lookup) -> Option<String> {
    lookup.advance(Event::SocketOpened);
    lookup.advance(Event::InterfaceDump(vec![]));
    answer(&lookup)
}

/// Drives a lookup for a host with one wireless interface, `wlan0`, that is
/// not associated.
fn with_idle_wifi(mut lookup: Lookup) -> Option<String> {
    lookup.advance(Event::SocketOpened);
    lookup.advance(Event::InterfaceDump(vec![interface_msg(2, "wlan0")]));
    if let Action::DumpScan(_) = lookup.action() {
        lookup.advance(Event::ScanDump(vec![]));
    }
    answer(&lookup)
}

#[test]
fn linux_smoke_get_ssid_does_not_panic() {
    let _ = without_wifi(ssid::get_ssid());
    let _ = with_idle_wifi(ssid::get_ssid());
}

#[test]
fn linux_smoke_absent_interface_returns_none() {
    assert_eq!(without_wifi(ssid::get_ssid_for_interface("__nonexistent__")), None);
    assert_eq!(with_idle_wifi(ssid::get_ssid_for_interface("__nonexistent__")), None);
}

fn wide(text: &str) -> [u16; 256] {
    let mut out = [0u16; 256];
    for (i, unit) in text.encode_utf16().enumerate() {
        out[i] = unit;
    }
    out
}

#[test]
fn windows_smoke_get_ssid_does_not_panic() {
    // One adapter, not connected: it reports an SSID of length 0.
    let mut search = ssid::wlan::search_all_adapters(1);
    if let ssid::wlan::AdapterAction::Query(_) = search.action() {
        search.report(ssid::wlan::ssid_from_dot11(&[0u8; 32], 0));
    }
    let _ = search.action();
}

#[test]
fn windows_smoke_absent_interface_returns_none() {
    let descriptions = vec![ssid::wlan::description_from_wide(&wide("Intel(R) Wi-Fi 6 AX200 160MHz"))];
    let search = ssid::wlan::search_named_adapter(&descriptions, "__nonexistent__");
    assert_eq!(search.action(), ssid::wlan::AdapterAction::Finish(None));
}

#[test]
fn lookup_takes_malformed_scan_dump() {
    let mut bad = 2u16.to_ne_bytes().to_vec();
    bad.extend_from_slice(&[0, 0]);
    let mut lookup = get_ssid();
    lookup.advance(Event::SocketOpened);
    lookup.advance(Event::InterfaceDump(vec![interface_msg(2, "wlan0"), interface_msg(3, "wlan1")]));
    lookup.advance(Event::ScanDump(vec![vec![attr(NL80211_ATTR_BSS, &bad)]]));
    assert_eq!(lookup.action(), Action::DumpScan(3));
    lookup.advance(Event::ScanDump(vec![scan_msg(NL80211_BSS_STATUS_ASSOCIATED, "Home")]));
    assert_eq!(answer(&lookup), Some("Home".to_string()));
}

#[test]
fn unmatched_interface_is_reported() {
    let mut lookup = get_ssid_for_interface("eth0");
    lookup.advance(Event::SocketOpened);
    lookup.advance(Event::InterfaceDump(vec![interface_msg(2, "wlan0")]));
    assert_eq!(answer(&lookup), None);
    assert_eq!(lookup.unmatched_interface(), Some("eth0".to_string()));

    let mut idle = get_ssid_for_interface("wlan0");
    idle.advance(Event::SocketOpened);
    idle.advance(Event::InterfaceDump(vec![interface_msg(2, "wlan0")]));
    idle.advance(Event::ScanDump(vec![]));
    assert_eq!(answer(&idle), None);
    assert_eq!(idle.unmatched_interface(), None);

    let mut active = get_ssid();
    active.advance(Event::SocketOpened);
    active.advance(Event::InterfaceDump(vec![]));
    assert_eq!(active.unmatched_interface(), None);
}
