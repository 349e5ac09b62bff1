//! What one refresh shows: the interfaces, the access points and a status
//! line.

use vstd::prelude::*;

verus! {

/// A wireless interface as shown: its description and the name of its state.
#[derive(Debug, Clone)]
pub struct WifiInterfaceSummary {
    pub description: String,
    pub state: String,
}

/// One access point as shown in the list.
#[derive(Debug, Clone)]
pub struct AccessPointRecord {
    pub bssid: [u8; 6],
    pub bssid_text: String,
    pub ssid: String,
    pub mode: String,
    pub channel: u16,
    /// Highest rate, in units of 0.5 Mbit/s.
    pub rate_half_mbps: u16,
    pub signal_quality: u32,
    pub rssi_dbm: i32,
    pub center_freq_khz: u32,
    pub connected: bool,
    /// Receive rate of the connection, for the BSS the interface is connected to.
    pub rx_rate: Option<u32>,
    /// Transmit rate of the connection, for the BSS the interface is connected to.
    pub tx_rate: Option<u32>,
}

/// The result of one refresh.
#[derive(Debug, Clone)]
pub struct WifiSnapshot {
    pub interfaces: Vec<WifiInterfaceSummary>,
    pub active_interface: usize,
    pub aps: Vec<AccessPointRecord>,
    pub permission_denied: bool,
    pub status: String,
}

/// What an interface summary holds, as character sequences.
pub struct InterfaceSummaryView {
    pub description: Seq<char>,
    pub state: Seq<char>,
}

impl View for WifiInterfaceSummary {
    type V = InterfaceSummaryView;

    open spec fn view(&self) -> InterfaceSummaryView {
        InterfaceSummaryView { description: self.description@, state: self.state@ }
    }
}

/// What an access-point record holds, with its texts as sequences.
pub struct ApView {
    pub bssid: Seq<u8>,
    pub bssid_text: Seq<char>,
    pub ssid: Seq<char>,
    pub mode: Seq<char>,
    pub channel: u16,
    pub rate_half_mbps: u16,
    pub signal_quality: u32,
    pub rssi_dbm: i32,
    pub center_freq_khz: u32,
    pub connected: bool,
    pub rx_rate: Option<u32>,
    pub tx_rate: Option<u32>,
}

impl View for AccessPointRecord {
    type V = ApView;

    open spec fn view(&self) -> ApView {
        ApView {
            bssid: self.bssid@,
            bssid_text: self.bssid_text@,
            ssid: self.ssid@,
            mode: self.mode@,
            channel: self.channel,
            rate_half_mbps: self.rate_half_mbps,
            signal_quality: self.signal_quality,
            rssi_dbm: self.rssi_dbm,
            center_freq_khz: self.center_freq_khz,
            connected: self.connected,
            rx_rate: self.rx_rate,
            tx_rate: self.tx_rate,
        }
    }
}

/// The views of a sequence of access-point records.
pub open spec fn ap_views(s: Seq<AccessPointRecord>) -> Seq<ApView> {
    s.map_values(|r: AccessPointRecord| r@)
}

/// The views of a sequence of interface summaries.
pub open spec fn summary_views(s: Seq<WifiInterfaceSummary>) -> Seq<InterfaceSummaryView> {
    s.map_values(|r: WifiInterfaceSummary| r@)
}

} // verus!
