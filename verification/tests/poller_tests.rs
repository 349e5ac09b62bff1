use winwifi::native::{
    AvailableNetworkRaw, BssEntryRaw, CurrentConnectionRaw, InterfaceGuid, InterfaceInfoRaw,
    WifiError,
};
use winwifi::poller::{
    access_point_record, build_available_map, build_snapshot, dedupe_bss_entries,
    is_better_bss_entry, lookup_hint, text_le_exec, AvailableHint, PollAction, PollEvent,
    WifiPoller,
};
use winwifi::types::WifiSnapshot;

fn guid(n: u32) -> InterfaceGuid {
    InterfaceGuid { data1: n, data2: 0, data3: 0, data4: [0; 8] }
}

fn iface(n: u32, description: &str, state: i32) -> InterfaceInfoRaw {
    InterfaceInfoRaw { guid: guid(n), description: description.to_string(), state }
}

fn bss(ssid: &str, last: u8, link_quality: u32, rssi: i32, rate: u16) -> BssEntryRaw {
    BssEntryRaw {
        ssid: ssid.to_string(),
        bssid: [0, 0x11, 0x22, 0x33, 0x44, last],
        bss_type: 1,
        phy_type: 7,
        rssi,
        link_quality,
        center_freq_khz: 2437000,
        max_rate_half_mbps: rate,
    }
}

fn net(ssid: &str, phy_type: i32, signal_quality: u32, connected: bool) -> AvailableNetworkRaw {
    AvailableNetworkRaw { ssid: ssid.to_string(), bss_type: 1, phy_type, signal_quality, connected }
}

fn denied(operation: &'static str) -> WifiError {
    WifiError::Win32 { operation, code: 5 }
}

fn guid_of(action: &PollAction) -> Option<u32> {
    match action {
        PollAction::TriggerScan(g)
        | PollAction::GetAvailableNetworks(g)
        | PollAction::GetBssEntries(g)
        | PollAction::GetCurrentConnection(g) => Some(g.data1),
        _ => None,
    }
}

#[test]
fn better_entry_order() {
    let a = bss("x", 1, 50, -60, 10);
    assert!(is_better_bss_entry(&bss("x", 1, 51, -90, 0), &a));
    assert!(is_better_bss_entry(&bss("x", 1, 50, -59, 0), &a));
    assert!(is_better_bss_entry(&bss("x", 1, 50, -60, 11), &a));
    assert!(!is_better_bss_entry(&bss("x", 1, 50, -60, 10), &a));
    assert!(!is_better_bss_entry(&bss("x", 1, 49, -10, 100), &a));
}

#[test]
fn dedupe_keeps_best_entry_per_bss() {
    let entries = vec![
        bss("A", 1, 40, -70, 10),
        bss("B", 2, 60, -50, 10),
        bss("A", 1, 55, -65, 10),
        bss("A", 1, 55, -65, 20),
        bss("A", 1, 30, -40, 99),
    ];
    let out = dedupe_bss_entries(entries);
    assert_eq!(out.len(), 2);
    assert_eq!(out[0].ssid, "A");
    assert_eq!(out[0].link_quality, 55);
    assert_eq!(out[0].max_rate_half_mbps, 20);
    assert_eq!(out[1].ssid, "B");
}

#[test]
fn dedupe_keeps_first_of_equal_entries() {
    let mut first = bss("A", 1, 40, -70, 10);
    first.phy_type = 7;
    let mut other_phy = bss("A", 1, 40, -70, 10);
    other_phy.phy_type = 8;
    let mut other_freq = bss("A", 1, 40, -70, 10);
    other_freq.center_freq_khz = 5180000;
    let out = dedupe_bss_entries(vec![first, other_phy, other_freq, bss("A", 1, 40, -70, 10)]);
    assert_eq!(out.len(), 3);
    assert_eq!(out[0].phy_type, 7);
    assert_eq!(out[1].phy_type, 8);
    assert_eq!(out[2].center_freq_khz, 5180000);
}

#[test]
fn available_table_merges_networks() {
    let nets = vec![
        net("Home", 7, 40, false),
        net("Lab", 4, 20, false),
        net("Home", 8, 70, false),
        net("Home", 10, 50, true),
    ];
    let table = build_available_map(&nets);
    let home = lookup_hint(&table, &"Home".to_string(), 1).expect("home");
    assert_eq!(home.phy_type, 10);
    assert_eq!(home.signal_quality, 70);
    let lab = lookup_hint(&table, &"Lab".to_string(), 1).expect("lab");
    assert_eq!(lab.phy_type, 4);
    assert_eq!(lab.signal_quality, 20);
    assert!(lookup_hint(&table, &"Home".to_string(), 2).is_none());
    assert!(lookup_hint(&table, &"Other".to_string(), 1).is_none());
}

#[test]
fn available_table_keeps_first_phy_without_connection() {
    let nets = vec![net("Home", 7, 40, false), net("Home", 8, 30, false)];
    let table = build_available_map(&nets);
    let home = lookup_hint(&table, &"Home".to_string(), 1).expect("home");
    assert_eq!(home.phy_type, 7);
    assert_eq!(home.signal_quality, 40);
}

#[test]
fn record_of_connected_bss() {
    let conn = Some(CurrentConnectionRaw {
        ssid: "Home".to_string(),
        bssid: [0, 0x11, 0x22, 0x33, 0x44, 1],
        bss_type: 1,
        phy_type: 10,
        signal_quality: 80,
        rx_rate: 866000,
        tx_rate: 433000,
    });
    let hint = Some(AvailableHint { phy_type: 10, signal_quality: 90 });
    let r = access_point_record(bss("Home", 1, 60, -55, 0x6c), hint, &conn);
    assert_eq!(r.bssid_text, "00:11:22:33:44:01");
    assert_eq!(r.ssid, "Home");
    assert_eq!(r.mode, "Infrastructure/HE");
    assert_eq!(r.channel, 6);
    assert_eq!(r.rate_half_mbps, 0x6c);
    assert_eq!(r.signal_quality, 90);
    assert_eq!(r.rssi_dbm, -55);
    assert!(r.connected);
    assert_eq!(r.rx_rate, Some(866000));
    assert_eq!(r.tx_rate, Some(433000));
    let other = access_point_record(bss("Home", 2, 95, -40, 0), None, &conn);
    assert_eq!(other.mode, "Infrastructure/HT");
    assert_eq!(other.signal_quality, 95);
    assert!(!other.connected);
    assert_eq!(other.rx_rate, None);
}

#[test]
fn text_order() {
    assert!(text_le_exec("00:11", "00:12"));
    assert!(text_le_exec("00:11", "00:11"));
    assert!(!text_le_exec("0A:11", "00:11"));
    assert!(text_le_exec("", "a"));
    assert!(!text_le_exec("ab", "a"));
    assert!(text_le_exec("9F", "A0"));
}

#[test]
fn snapshot_orders_access_points() {
    let interfaces = vec![iface(1, "Wi-Fi A", 1), iface(2, "Wi-Fi B", 4)];
    let entries = vec![
        bss("Low", 3, 30, -80, 0),
        bss("Mid2", 5, 60, -60, 0),
        bss("High", 4, 90, -40, 0),
        bss("Mid1", 2, 60, -60, 0),
        bss("MidStrong", 6, 60, -50, 0),
    ];
    let snap = build_snapshot(interfaces, 0, &[], entries, None, false);
    let order: Vec<&str> = snap.aps.iter().map(|a| a.ssid.as_str()).collect();
    assert_eq!(order, vec!["High", "MidStrong", "Mid1", "Mid2", "Low"]);
    assert_eq!(snap.status, "Wi-Fi A | AP 5 个 | 接口 Connected");
    assert_eq!(snap.interfaces.len(), 2);
    assert_eq!(snap.interfaces[1].description, "Wi-Fi B");
    assert_eq!(snap.interfaces[1].state, "Disconnected");
    assert_eq!(snap.active_interface, 0);
    assert!(!snap.permission_denied);
}

#[test]
fn snapshot_uses_available_signal() {
    let interfaces = vec![iface(1, "Wi-Fi", 1)];
    let entries = vec![bss("Weak", 1, 20, -85, 0), bss("Other", 2, 50, -60, 0)];
    let nets = vec![net("Weak", 8, 99, false)];
    let snap = build_snapshot(interfaces, 0, &nets, entries, None, false);
    assert_eq!(snap.aps[0].ssid, "Weak");
    assert_eq!(snap.aps[0].signal_quality, 99);
    assert_eq!(snap.aps[0].mode, "Infrastructure/VHT");
    assert_eq!(snap.aps[1].ssid, "Other");
}

#[test]
fn snapshot_status_without_access_points() {
    let conn = Some(CurrentConnectionRaw {
        ssid: "Home".to_string(),
        bssid: [1; 6],
        bss_type: 1,
        phy_type: 8,
        signal_quality: 77,
        rx_rate: 1,
        tx_rate: 1,
    });
    let snap = build_snapshot(vec![iface(1, "Wi-Fi", 1)], 0, &[], vec![], conn, false);
    assert_eq!(snap.status, "已连接 Home [Infrastructure / VHT]，信号 77% (~-62 dBm)");
    let snap = build_snapshot(vec![iface(1, "Wi-Fi", 1)], 0, &[], vec![], None, false);
    assert_eq!(snap.status, "扫描完成，未发现 BSS 条目");
    let snap = build_snapshot(vec![iface(1, "Wi-Fi", 1)], 0, &[], vec![], None, true);
    assert_eq!(snap.status, "定位权限未允许，部分 WiFi API 被拒绝，请在系统设置中开启位置权限");
    assert!(snap.permission_denied);
}

fn finish(run: winwifi::poller::CollectRun) -> Result<WifiSnapshot, WifiError> {
    run.into_result().expect("refresh is over")
}

#[test]
fn refresh_without_scan_on_odd_tick() {
    let mut poller = WifiPoller::new();
    let run = poller.collect(Some(1), 2);
    assert_eq!(poller.tick_count, 1);
    assert!(matches!(run.next_action(), PollAction::ListInterfaces));
    let run = run.advance(PollEvent::Interfaces(Ok(vec![iface(10, "A", 1), iface(20, "B", 1)])));
    let action = run.next_action();
    assert!(matches!(action, PollAction::GetAvailableNetworks(_)));
    assert_eq!(guid_of(&action), Some(20));
    let run = run.advance(PollEvent::AvailableNetworks(Ok(vec![net("Home", 7, 50, true)])));
    assert!(matches!(run.next_action(), PollAction::GetBssEntries(_)));
    let run = run.advance(PollEvent::BssEntries(Ok(vec![bss("Home", 1, 40, -60, 0)])));
    assert!(matches!(run.next_action(), PollAction::GetCurrentConnection(_)));
    let run = run.advance(PollEvent::CurrentConnection(Ok(None)));
    assert!(matches!(run.next_action(), PollAction::Done));
    let snap = finish(run).expect("snapshot");
    assert_eq!(snap.active_interface, 1);
    assert_eq!(snap.aps.len(), 1);
    assert_eq!(snap.aps[0].signal_quality, 50);
    assert_eq!(snap.status, "B | AP 1 个 | 接口 Connected");
}

#[test]
fn refresh_scans_on_even_tick() {
    let mut poller = WifiPoller::new();
    let _ = poller.collect(None, 2);
    let run = poller.collect(None, 2);
    assert_eq!(poller.tick_count, 2);
    let run = run.advance(PollEvent::Interfaces(Ok(vec![iface(7, "A", 1)])));
    let action = run.next_action();
    assert!(matches!(action, PollAction::TriggerScan(_)));
    assert_eq!(guid_of(&action), Some(7));
    let run = run.advance(PollEvent::ScanTriggered(Ok(())));
    assert!(matches!(run.next_action(), PollAction::GetAvailableNetworks(_)));
}

#[test]
fn selected_interface_is_clamped() {
    let mut poller = WifiPoller::new();
    let run = poller.collect(Some(9), 2);
    let run = run.advance(PollEvent::Interfaces(Ok(vec![iface(1, "A", 1), iface(2, "B", 1)])));
    assert_eq!(guid_of(&run.next_action()), Some(2));
}

#[test]
fn tick_count_saturates() {
    let mut poller = WifiPoller { tick_count: u64::MAX };
    let run = poller.collect(None, 2);
    assert_eq!(poller.tick_count, u64::MAX);
    let run = run.advance(PollEvent::Interfaces(Ok(vec![iface(1, "A", 1)])));
    assert!(matches!(run.next_action(), PollAction::GetAvailableNetworks(_)));
}

#[test]
fn refresh_without_interfaces() {
    let mut poller = WifiPoller::new();
    let run = poller.collect(None, 2);
    let run = run.advance(PollEvent::Interfaces(Ok(vec![])));
    assert!(matches!(run.next_action(), PollAction::Done));
    let snap = finish(run).expect("snapshot");
    assert!(snap.interfaces.is_empty());
    assert!(snap.aps.is_empty());
    assert_eq!(snap.active_interface, 0);
    assert_eq!(snap.status, "WLAN v2，未发现可用无线网卡");
}

#[test]
fn listing_error_fails_refresh() {
    let mut poller = WifiPoller::new();
    let run = poller.collect(None, 2);
    let run = run.advance(PollEvent::Interfaces(Err(denied("WlanEnumInterfaces"))));
    assert!(matches!(finish(run), Err(WifiError::Win32 { code: 5, .. })));
}

#[test]
fn denied_calls_mark_permission() {
    let mut poller = WifiPoller::new();
    let _ = poller.collect(None, 2);
    let run = poller.collect(None, 2);
    let run = run.advance(PollEvent::Interfaces(Ok(vec![iface(1, "A", 1)])));
    let run = run.advance(PollEvent::ScanTriggered(Err(denied("WlanScan"))));
    let run = run.advance(PollEvent::AvailableNetworks(Err(denied("WlanGetAvailableNetworkList"))));
    let run = run.advance(PollEvent::BssEntries(Err(denied("WlanGetNetworkBssList"))));
    let run = run.advance(PollEvent::CurrentConnection(Err(denied("WlanQueryInterface"))));
    let snap = finish(run).expect("denied calls do not fail the refresh");
    assert!(snap.permission_denied);
    assert!(snap.aps.is_empty());
    assert_eq!(snap.status, "定位权限未允许，部分 WiFi API 被拒绝，请在系统设置中开启位置权限");
}

#[test]
fn denied_scan_keeps_results() {
    let mut poller = WifiPoller::new();
    let _ = poller.collect(None, 2);
    let run = poller.collect(None, 2);
    let run = run.advance(PollEvent::Interfaces(Ok(vec![iface(1, "A", 1)])));
    let run = run.advance(PollEvent::ScanTriggered(Err(denied("WlanScan"))));
    let run = run.advance(PollEvent::AvailableNetworks(Ok(vec![])));
    let run = run.advance(PollEvent::BssEntries(Ok(vec![bss("X", 1, 10, -90, 0)])));
    let run = run.advance(PollEvent::CurrentConnection(Ok(None)));
    let snap = finish(run).expect("snapshot");
    assert!(snap.permission_denied);
    assert_eq!(snap.aps.len(), 1);
}

#[test]
fn other_errors_fail_refresh() {
    let mut poller = WifiPoller::new();
    let run = poller.collect(None, 2);
    let run = run.advance(PollEvent::Interfaces(Ok(vec![iface(1, "A", 1)])));
    let run = run.advance(PollEvent::AvailableNetworks(Ok(vec![])));
    let run = run.advance(PollEvent::BssEntries(Err(WifiError::NullPointer {
        operation: "WlanGetNetworkBssList",
    })));
    assert!(matches!(run.next_action(), PollAction::Done));
    assert!(matches!(
        finish(run),
        Err(WifiError::NullPointer { operation: "WlanGetNetworkBssList" })
    ));
}

#[test]
fn unexpected_event_is_ignored() {
    let mut poller = WifiPoller::new();
    let run = poller.collect(None, 2);
    let run = run.advance(PollEvent::BssEntries(Ok(vec![])));
    assert!(matches!(run.next_action(), PollAction::ListInterfaces));
    let run = run.advance(PollEvent::Interfaces(Ok(vec![iface(1, "A", 1)])));
    let run = run.advance(PollEvent::ScanTriggered(Ok(())));
    assert!(matches!(run.next_action(), PollAction::GetAvailableNetworks(_)));
    assert!(run.into_result().is_none());
}
