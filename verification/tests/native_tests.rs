use winwifi::native::{
    append_bss_list, bss_list_types, check_connection_query, check_list_call, expect_success, utf16_z_to_string,
    AvailableNetworkRaw, BssEntryRaw, ConnectionQuery, CurrentConnectionRaw, WifiError,
};

fn ssid_buffer(bytes: &[u8]) -> [u8; 32] {
    let mut buf = [0u8; 32];
    buf[..bytes.len()].copy_from_slice(bytes);
    buf
}

#[test]
fn success_code() {
    assert!(expect_success("WlanScan", 0).is_ok());
    match expect_success("WlanScan", 87) {
        Err(WifiError::Win32 { operation, code }) => {
            assert_eq!(operation, "WlanScan");
            assert_eq!(code, 87);
        }
        other => panic!("unexpected {other:?}"),
    }
}

#[test]
fn list_call_checks() {
    assert!(check_list_call("WlanEnumInterfaces", 0, true).is_ok());
    assert!(matches!(
        check_list_call("WlanEnumInterfaces", 0, false),
        Err(WifiError::NullPointer { operation: "WlanEnumInterfaces" })
    ));
    assert!(matches!(
        check_list_call("WlanEnumInterfaces", 5, true),
        Err(WifiError::Win32 { code: 5, .. })
    ));
}

#[test]
fn connection_query_checks() {
    assert!(matches!(check_connection_query(5023, false), Ok(ConnectionQuery::NotConnected)));
    assert!(matches!(check_connection_query(0, true), Ok(ConnectionQuery::ReadAttributes)));
    assert!(matches!(
        check_connection_query(0, false),
        Err(WifiError::NullPointer { operation: "WlanQueryInterface" })
    ));
    assert!(matches!(
        check_connection_query(5, true),
        Err(WifiError::Win32 { operation: "WlanQueryInterface", code: 5 })
    ));
}

#[test]
fn access_denied_errors() {
    assert!(WifiError::Win32 { operation: "WlanScan", code: 5 }.is_access_denied());
    assert!(!WifiError::Win32 { operation: "WlanScan", code: 6 }.is_access_denied());
    assert!(!WifiError::NullPointer { operation: "WlanScan" }.is_access_denied());
}

#[test]
fn error_messages() {
    assert_eq!(
        WifiError::Win32 { operation: "WlanOpenHandle", code: 1062 }.message(),
        "WlanOpenHandle failed with Win32 error code 1062"
    );
    assert_eq!(
        WifiError::NullPointer { operation: "WlanGetNetworkBssList" }.message(),
        "WlanGetNetworkBssList returned a null pointer"
    );
}

#[test]
fn utf16_text_up_to_nul() {
    let mut buf: Vec<u16> = "Intel(R) Wi-Fi 6".encode_utf16().collect();
    buf.push(0);
    buf.extend("junk".encode_utf16());
    assert_eq!(utf16_z_to_string(&buf), "Intel(R) Wi-Fi 6");
}

#[test]
fn utf16_text_without_nul() {
    let buf: Vec<u16> = "无线网卡".encode_utf16().collect();
    assert_eq!(utf16_z_to_string(&buf), "无线网卡");
    assert_eq!(utf16_z_to_string(&[0, 65]), "");
}

#[test]
fn utf16_ill_formed_is_replaced() {
    assert_eq!(utf16_z_to_string(&[0x41, 0xd800, 0x42, 0]), "A\u{fffd}B");
}

#[test]
fn available_network_from_fields() {
    let n = AvailableNetworkRaw::from_wlan(4, &ssid_buffer(b"Cafe"), 1, 2, 7, 80, 0x3);
    assert_eq!(n.ssid, "Cafe");
    assert_eq!(n.bss_type, 1);
    assert_eq!(n.phy_type, 7);
    assert_eq!(n.signal_quality, 80);
    assert!(n.connected);
    let n = AvailableNetworkRaw::from_wlan(0, &ssid_buffer(b""), 2, 0, 7, 10, 0x2);
    assert_eq!(n.ssid, "<hidden>");
    assert_eq!(n.phy_type, 0);
    assert!(!n.connected);
}

#[test]
fn bss_entry_from_fields() {
    let rates = [0x8002u16, 0x000c, 0x8024];
    let e = BssEntryRaw::from_wlan(
        3,
        &ssid_buffer(b"Lab"),
        [1, 2, 3, 4, 5, 6],
        1,
        8,
        -61,
        70,
        5180000,
        6,
        &rates,
    );
    assert_eq!(e.ssid, "Lab");
    assert_eq!(e.bssid, [1, 2, 3, 4, 5, 6]);
    assert_eq!(e.phy_type, 8);
    assert_eq!(e.rssi, -61);
    assert_eq!(e.link_quality, 70);
    assert_eq!(e.center_freq_khz, 5180000);
    assert_eq!(e.max_rate_half_mbps, 0x24);
}

#[test]
fn connection_from_attributes() {
    let c = CurrentConnectionRaw::from_wlan(1, 4, &ssid_buffer(b"Home"), [9; 6], 1, 10, 90, 1200, 600);
    let c = c.expect("connected");
    assert_eq!(c.ssid, "Home");
    assert_eq!(c.bssid, [9; 6]);
    assert_eq!(c.phy_type, 10);
    assert_eq!(c.signal_quality, 90);
    assert_eq!(c.rx_rate, 1200);
    assert_eq!(c.tx_rate, 600);
    assert!(CurrentConnectionRaw::from_wlan(4, 4, &ssid_buffer(b"Home"), [9; 6], 1, 10, 90, 1, 1).is_none());
}

fn entry(last: u8) -> BssEntryRaw {
    BssEntryRaw {
        ssid: "Net".to_string(),
        bssid: [0, 0, 0, 0, 0, last],
        bss_type: 1,
        phy_type: 7,
        rssi: -50,
        link_quality: 50,
        center_freq_khz: 2412000,
        max_rate_half_mbps: 0,
    }
}

#[test]
fn bss_lists_are_asked_in_order() {
    assert_eq!(bss_list_types(), [1, 2]);
}

#[test]
fn bss_lists_are_joined() {
    let all = append_bss_list(vec![entry(1)], Ok(vec![entry(2), entry(3)])).expect("joined");
    let lasts: Vec<u8> = all.iter().map(|e| e.bssid[5]).collect();
    assert_eq!(lasts, vec![1, 2, 3]);
    assert!(matches!(
        append_bss_list(vec![entry(1)], Err(WifiError::Win32 { operation: "WlanGetNetworkBssList", code: 5 })),
        Err(WifiError::Win32 { code: 5, .. })
    ));
}

#[test]
fn utf16_surrogate_pair() {
    let buf: Vec<u16> = "Wi-Fi 😀".encode_utf16().chain(std::iter::once(0)).collect();
    assert_eq!(utf16_z_to_string(&buf), "Wi-Fi 😀");
    assert_eq!(utf16_z_to_string(&[0xdc00, 0xd83d]), "\u{fffd}\u{fffd}");
}

#[test]
fn records_clone() {
    let e = entry(4);
    let c = e.clone();
    assert_eq!(c.bssid, e.bssid);
    assert_eq!(c.ssid, e.ssid);
}
