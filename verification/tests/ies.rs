use ssid::ies::ssid_from_ies;
use ssid::text::{ssid_from_bytes, ssid_from_name};

#[test]
fn ssid_bytes_to_string_valid_utf8() {
    let bytes = b"MyNetwork";
    let result = String::from_utf8_lossy(bytes).into_owned();
    assert_eq!(result, "MyNetwork");
}

#[test]
fn ssid_bytes_to_string_non_utf8() {
    // SSIDs can contain arbitrary bytes; from_utf8_lossy replaces invalid
    // sequences with U+FFFD. Bytes: 'M','y',0xFF,'W','i','f','i'
    let bytes = [0x4d, 0x79, 0xff, 0x57, 0x69, 0x66, 0x69];
    let result = String::from_utf8_lossy(&bytes).into_owned();
    assert_eq!(result, "My\u{FFFD}Wifi");
}

#[test]
fn ssid_from_ies_finds_ssid() {
    // IE: type=0 (SSID), len=8, data="TestWifi"
    let mut ies = vec![0x00, 0x08];
    ies.extend_from_slice(b"TestWifi");
    // Add another IE to ensure we stop at the right one
    ies.extend_from_slice(&[0x01, 0x02, 0x82, 0x84]);
    assert_eq!(ssid_from_ies(&ies), Some("TestWifi".to_string()));
}

#[test]
fn ssid_from_ies_hidden_network() {
    // SSID IE with length 0 = hidden network
    let ies = vec![0x00, 0x00, 0x01, 0x02, 0x82, 0x84];
    assert_eq!(ssid_from_ies(&ies), None);
}

#[test]
fn ssid_from_ies_empty() {
    assert_eq!(ssid_from_ies(&[]), None);
}

#[test]
fn ssid_from_ies_replaces_invalid_utf8() {
    let ies = [0x00, 0x07, 0x4d, 0x79, 0xff, 0x57, 0x69, 0x66, 0x69];
    assert_eq!(ssid_from_ies(&ies), Some("My\u{FFFD}Wifi".to_string()));
}

#[test]
fn ssid_from_ies_passes_over_other_elements() {
    let mut ies = vec![0x01, 0x02, 0x82, 0x84, 0x03, 0x01, 0x06];
    ies.extend_from_slice(&[0x00, 0x04]);
    ies.extend_from_slice(b"Home");
    assert_eq!(ssid_from_ies(&ies), Some("Home".to_string()));
}

#[test]
fn ssid_from_ies_hidden_then_named() {
    let mut ies = vec![0x00, 0x00, 0x00, 0x03];
    ies.extend_from_slice(b"abc");
    assert_eq!(ssid_from_ies(&ies), Some("abc".to_string()));
}

#[test]
fn ssid_from_ies_truncated_element() {
    // The SSID element declares 10 bytes but only 2 follow.
    let ies = [0x00, 0x0a, b'a', b'b'];
    assert_eq!(ssid_from_ies(&ies), None);
}

#[test]
fn ssid_from_ies_truncated_before_ssid() {
    // A non-SSID element that runs past the end stops the scan.
    let ies = [0x01, 0x09, 0x82, 0x00, 0x04, b'a', b'b', b'c', b'd'];
    assert_eq!(ssid_from_ies(&ies), None);
}

#[test]
fn ssid_from_ies_lone_byte() {
    assert_eq!(ssid_from_ies(&[0x00]), None);
}

#[test]
fn ssid_from_ies_stops_at_first_ssid() {
    let mut ies = vec![0x00, 0x03];
    ies.extend_from_slice(b"one");
    ies.extend_from_slice(&[0x00, 0x03]);
    ies.extend_from_slice(b"two");
    assert_eq!(ssid_from_ies(&ies), Some("one".to_string()));
}

#[test]
fn ssid_from_ies_full_length_ssid() {
    let name = [b'x'; 32];
    let mut ies = vec![0x00, 32];
    ies.extend_from_slice(&name);
    assert_eq!(ssid_from_ies(&ies), Some("x".repeat(32)));
}

#[test]
fn ssid_from_bytes_empty_is_none() {
    assert_eq!(ssid_from_bytes(&[]), None);
    assert_eq!(ssid_from_bytes(b"Cafe"), Some("Cafe".to_string()));
    assert_eq!(ssid_from_bytes(&[0xff]), Some("\u{FFFD}".to_string()));
}

#[test]
fn ssid_from_name_empty_is_none() {
    assert_eq!(ssid_from_name(String::new()), None);
    assert_eq!(ssid_from_name("Office".to_string()), Some("Office".to_string()));
}
