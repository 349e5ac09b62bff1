//! Records of what the Native WiFi API reports, the errors of its calls, and
//! the decisions taken on its status codes and raw fields.

use vstd::prelude::*;

use crate::convert::{
    max_rate, max_rate_half_mbps, rate_count, ssid_bytes, ssid_text, ssid_to_string,
    BSS_TYPE_INDEPENDENT, BSS_TYPE_INFRASTRUCTURE, PHY_TYPE_UNKNOWN,
};
use crate::text::{decimal_digits, push_decimal};

verus! {

/// Win32 error code of a call that the caller has no right to make.
pub const ERROR_ACCESS_DENIED: u32 = 5;

/// Win32 error code of a query on an interface in a state that has no answer
/// to it (for the current connection: the interface is not connected).
pub const ERROR_INVALID_STATE: u32 = 5023;

/// `WLAN_AVAILABLE_NETWORK_CONNECTED`: the flag of the network the interface
/// is connected to.
pub const AVAILABLE_NETWORK_CONNECTED: u32 = 1;

/// `wlan_interface_state_connected`.
pub const INTERFACE_STATE_CONNECTED: i32 = 1;

/// The GUID that names a wireless interface, field by field.
#[derive(Clone, Copy, Debug)]
pub struct InterfaceGuid {
    pub data1: u32,
    pub data2: u16,
    pub data3: u16,
    pub data4: [u8; 8],
}

/// A wireless interface of the machine.
#[derive(Debug, Clone)]
pub struct InterfaceInfoRaw {
    pub guid: InterfaceGuid,
    pub description: String,
    pub state: i32,
}

/// One BSS (one access point on one channel) that an interface sees.
#[derive(Debug, Clone)]
pub struct BssEntryRaw {
    pub ssid: String,
    pub bssid: [u8; 6],
    pub bss_type: i32,
    pub phy_type: i32,
    pub rssi: i32,
    pub link_quality: u32,
    pub center_freq_khz: u32,
    /// Highest rate of the BSS, in units of 0.5 Mbit/s.
    pub max_rate_half_mbps: u16,
}

/// One network (SSID and BSS type) in the interface's available list.
#[derive(Debug, Clone)]
pub struct AvailableNetworkRaw {
    pub ssid: String,
    pub bss_type: i32,
    pub phy_type: i32,
    pub signal_quality: u32,
    pub connected: bool,
}

/// The association of a connected interface.
#[derive(Debug, Clone)]
pub struct CurrentConnectionRaw {
    pub ssid: String,
    pub bssid: [u8; 6],
    pub bss_type: i32,
    pub phy_type: i32,
    pub signal_quality: u32,
    /// Receive rate as the association attributes report it.
    pub rx_rate: u32,
    /// Transmit rate as the association attributes report it.
    pub tx_rate: u32,
}

/// Why a call of the Native WiFi API failed.
#[derive(Clone, Copy, Debug)]
pub enum WifiError {
    /// The call returned a Win32 error code other than success.
    Win32 { operation: &'static str, code: u32 },
    /// The call succeeded but handed back no data.
    NullPointer { operation: &'static str },
}

pub type WifiResult<T> = Result<T, WifiError>;

impl WifiError {
    /// The error says that access was denied (which the system does when
    /// location access is not granted).
    pub open spec fn access_denied(self) -> bool {
        self matches WifiError::Win32 { code, .. } && code == ERROR_ACCESS_DENIED
    }

    /// The text that describes the error.
    pub open spec fn text(self) -> Seq<char> {
        match self {
            WifiError::Win32 { operation, code } => operation@
                + " failed with Win32 error code "@ + decimal_digits(code as nat),
            WifiError::NullPointer { operation } => operation@ + " returned a null pointer"@,
        }
    }

    /// Whether the error says that access was denied.
    pub fn is_access_denied(&self) -> (r: bool)
        ensures
            r == self.access_denied(),
    {
        match self {
            WifiError::Win32 { code, .. } => *code == ERROR_ACCESS_DENIED,
            WifiError::NullPointer { .. } => false,
        }
    }

    /// The text that describes the error.
    pub fn message(&self) -> (r: String)
        ensures
            r@ == self.text(),
    {
        match self {
            WifiError::Win32 { operation, code } => {
                let mut out = String::from_str(operation);
                out.append(" failed with Win32 error code ");
                push_decimal(&mut out, *code as u64);
                out
            },
            WifiError::NullPointer { operation } => {
                let mut out = String::from_str(operation);
                out.append(" returned a null pointer");
                out
            },
        }
    }
}

/// The outcome of a call that returned `code`: success exactly for code 0.
pub fn expect_success(operation: &'static str, code: u32) -> (r: WifiResult<()>)
    ensures
        code == 0 ==> r is Ok,
        code != 0 ==> r == Err::<(), WifiError>(WifiError::Win32 { operation, code }),
{
    if code == 0 {
        return Ok(());
    }
    Err(WifiError::Win32 { operation, code })
}

/// The outcome of a call that hands back a list: its status code must be
/// success and the list must be there.
pub fn check_list_call(operation: &'static str, code: u32, list_present: bool) -> (r: WifiResult<()>)
    ensures
        code != 0 ==> r == Err::<(), WifiError>(WifiError::Win32 { operation, code }),
        code == 0 && !list_present ==> r == Err::<(), WifiError>(
            WifiError::NullPointer { operation },
        ),
        code == 0 && list_present ==> r is Ok,
{
    match expect_success(operation, code) {
        Err(e) => Err(e),
        Ok(()) => {
            if !list_present {
                Err(WifiError::NullPointer { operation })
            } else {
                Ok(())
            }
        },
    }
}

/// What a query for the current connection has to do next.
#[derive(Clone, Copy, Debug)]
pub enum ConnectionQuery {
    /// The interface has no connection to report.
    NotConnected,
    /// The connection attributes are there to be read.
    ReadAttributes,
}

/// The outcome of the query for the current connection, from its status code
/// and whether it handed back data: an invalid-state code means that there
/// is no connection; other codes fail as usual.
pub fn check_connection_query(code: u32, data_present: bool) -> (r: WifiResult<ConnectionQuery>)
    ensures
        code == ERROR_INVALID_STATE ==> r == Ok::<ConnectionQuery, WifiError>(
            ConnectionQuery::NotConnected,
        ),
        code != ERROR_INVALID_STATE && code != 0 ==> r == Err::<ConnectionQuery, WifiError>(
            WifiError::Win32 { operation: "WlanQueryInterface", code },
        ),
        code == 0 && !data_present ==> r == Err::<ConnectionQuery, WifiError>(
            WifiError::NullPointer { operation: "WlanQueryInterface" },
        ),
        code == 0 && data_present ==> r == Ok::<ConnectionQuery, WifiError>(
            ConnectionQuery::ReadAttributes,
        ),
{
    if code == ERROR_INVALID_STATE {
        return Ok(ConnectionQuery::NotConnected);
    }
    match check_list_call("WlanQueryInterface", code, data_present) {
        Err(e) => Err(e),
        Ok(()) => Ok(ConnectionQuery::ReadAttributes),
    }
}

/// UTF-16 decoding with replacement: a high surrogate followed by a low
/// surrogate gives the character they encode, any other surrogate gives
/// U+FFFD, and every other code unit gives the character of its value.
pub open spec fn utf16_lossy(units: Seq<u16>) -> Seq<char>
    decreases units.len(),
{
    if units.len() == 0 {
        seq![]
    } else if 0xd800 <= units[0] < 0xdc00 && units.len() >= 2 && 0xdc00 <= units[1] < 0xe000 {
        seq![(0x10000 + (units[0] - 0xd800) * 0x400 + (units[1] - 0xdc00)) as char] + utf16_lossy(
            units.subrange(2, units.len() as int),
        )
    } else if 0xd800 <= units[0] < 0xe000 {
        seq!['\u{fffd}'] + utf16_lossy(units.drop_first())
    } else {
        seq![units[0] as char] + utf16_lossy(units.drop_first())
    }
}

/// `String::from_utf16_lossy`, which its documentation describes as UTF-16
/// decoding that replaces invalid data (each unpaired surrogate) with U+FFFD;
/// the contract states that decoding (`utf16_lossy`).
#[verifier::external_body]
fn decode_utf16_lossy(units: &[u16]) -> (r: String)
    ensures
        r@ == utf16_lossy(units@),
{
    String::from_utf16_lossy(units)
}

/// Number of code units before the first NUL, or all of them when there is
/// none.
pub open spec fn nul_terminated_len(units: Seq<u16>) -> nat
    decreases units.len(),
{
    if units.len() == 0 || units[0] == 0 {
        0
    } else {
        1 + nul_terminated_len(units.drop_first())
    }
}

/// The text of a NUL-terminated UTF-16 buffer (all of it when there is no
/// NUL), decoded with replacement of ill-formed units.
pub fn utf16_z_to_string(buf: &[u16]) -> (r: String)
    ensures
        r@ == utf16_lossy(buf@.take(nul_terminated_len(buf@) as int)),
{
    let mut end: usize = 0;
    assert(buf@.skip(0) =~= buf@);
    while end < buf.len() && buf[end] != 0
        invariant
            0 <= end <= buf@.len(),
            nul_terminated_len(buf@) == end + nul_terminated_len(buf@.skip(end as int)),
        decreases buf@.len() - end,
    {
        assert(buf@.skip(end as int).drop_first() =~= buf@.skip(end + 1));
        end = end + 1;
    }
    let mut units: Vec<u16> = Vec::new();
    let mut i: usize = 0;
    while i < end
        invariant
            end <= buf@.len(),
            0 <= i <= end,
            units@ == buf@.take(i as int),
        decreases end - i,
    {
        units.push(buf[i]);
        assert(units@ =~= buf@.take(i + 1));
        i = i + 1;
    }
    decode_utf16_lossy(units.as_slice())
}

/// The BSS types whose lists make up the BSS list of an interface, in the
/// order they are asked for: infrastructure networks, then independent
/// (ad-hoc) ones.
pub fn bss_list_types() -> (r: [i32; 2])
    ensures
        r@ == seq![BSS_TYPE_INFRASTRUCTURE, BSS_TYPE_INDEPENDENT],
{
    let r = [BSS_TYPE_INFRASTRUCTURE, BSS_TYPE_INDEPENDENT];
    assert(r@ =~= seq![BSS_TYPE_INFRASTRUCTURE, BSS_TYPE_INDEPENDENT]);
    r
}

/// The BSS list gathered so far, followed by the outcome of asking for the
/// next BSS type's list: its entries come after those gathered, and an error
/// ends the gathering with that error.
pub fn append_bss_list(
    gathered: Vec<BssEntryRaw>,
    next: WifiResult<Vec<BssEntryRaw>>,
) -> (r: WifiResult<Vec<BssEntryRaw>>)
    ensures
        next matches Err(e) ==> r == Err::<Vec<BssEntryRaw>, WifiError>(e),
        next matches Ok(list) ==> (r matches Ok(all) && all@ == gathered@ + list@),
{
    match next {
        Err(e) => Err(e),
        Ok(list) => {
            let mut all = gathered;
            let mut list = list;
            all.append(&mut list);
            Ok(all)
        },
    }
}

impl AvailableNetworkRaw {
    /// The record for an entry of the available-network list, from its fields:
    /// the first PHY type counts when there is one; the connected flag is one
    /// bit of the entry's flags.
    pub fn from_wlan(
        ssid_len: u32,
        ssid: &[u8; 32],
        bss_type: i32,
        phy_type_count: u32,
        first_phy_type: i32,
        signal_quality: u32,
        flags: u32,
    ) -> (r: Self)
        ensures
            r.ssid@ == ssid_text(ssid_bytes(ssid_len, ssid@)),
            r.bss_type == bss_type,
            r.phy_type == (if phy_type_count > 0 {
                first_phy_type
            } else {
                PHY_TYPE_UNKNOWN
            }),
            r.signal_quality == signal_quality,
            r.connected == (flags & AVAILABLE_NETWORK_CONNECTED != 0),
    {
        let phy_type = if phy_type_count > 0 {
            first_phy_type
        } else {
            PHY_TYPE_UNKNOWN
        };
        AvailableNetworkRaw {
            ssid: ssid_to_string(ssid_len, ssid),
            bss_type,
            phy_type,
            signal_quality,
            connected: (flags & AVAILABLE_NETWORK_CONNECTED) != 0,
        }
    }
}

impl BssEntryRaw {
    /// The record for an entry of the BSS list, from its fields; the rate is
    /// the highest of its rate set.
    pub fn from_wlan(
        ssid_len: u32,
        ssid: &[u8; 32],
        bssid: [u8; 6],
        bss_type: i32,
        phy_type: i32,
        rssi: i32,
        link_quality: u32,
        center_freq_khz: u32,
        rate_set_length: u32,
        rates: &[u16],
    ) -> (r: Self)
        ensures
            r.ssid@ == ssid_text(ssid_bytes(ssid_len, ssid@)),
            r.bssid == bssid,
            r.bss_type == bss_type,
            r.phy_type == phy_type,
            r.rssi == rssi,
            r.link_quality == link_quality,
            r.center_freq_khz == center_freq_khz,
            r.max_rate_half_mbps == max_rate(
                rates@.take(rate_count(rate_set_length, rates@.len())),
            ),
    {
        BssEntryRaw {
            ssid: ssid_to_string(ssid_len, ssid),
            bssid,
            bss_type,
            phy_type,
            rssi,
            link_quality,
            center_freq_khz,
            max_rate_half_mbps: max_rate_half_mbps(rate_set_length, rates),
        }
    }
}

impl CurrentConnectionRaw {
    /// The connection described by the connection attributes of an
    /// interface; none when the interface is not in the connected state.
    pub fn from_wlan(
        interface_state: i32,
        ssid_len: u32,
        ssid: &[u8; 32],
        bssid: [u8; 6],
        bss_type: i32,
        phy_type: i32,
        signal_quality: u32,
        rx_rate: u32,
        tx_rate: u32,
    ) -> (r: Option<Self>)
        ensures
            interface_state != INTERFACE_STATE_CONNECTED ==> r is None,
            interface_state == INTERFACE_STATE_CONNECTED ==> (r matches Some(c) && {
                &&& c.ssid@ == ssid_text(ssid_bytes(ssid_len, ssid@))
                &&& c.bssid == bssid
                &&& c.bss_type == bss_type
                &&& c.phy_type == phy_type
                &&& c.signal_quality == signal_quality
                &&& c.rx_rate == rx_rate
                &&& c.tx_rate == tx_rate
            }),
    {
        if interface_state != INTERFACE_STATE_CONNECTED {
            return None;
        }
        Some(
            CurrentConnectionRaw {
                ssid: ssid_to_string(ssid_len, ssid),
                bssid,
                bss_type,
                phy_type,
                signal_quality,
                rx_rate,
                tx_rate,
            },
        )
    }
}

} // verus!

verus! {

/// What a BSS entry holds, with its texts as character sequences.
pub struct BssView {
    pub ssid: Seq<char>,
    pub bssid: Seq<u8>,
    pub bss_type: i32,
    pub phy_type: i32,
    pub rssi: i32,
    pub link_quality: u32,
    pub center_freq_khz: u32,
    pub max_rate_half_mbps: u16,
}

impl View for BssEntryRaw {
    type V = BssView;

    open spec fn view(&self) -> BssView {
        BssView {
            ssid: self.ssid@,
            bssid: self.bssid@,
            bss_type: self.bss_type,
            phy_type: self.phy_type,
            rssi: self.rssi,
            link_quality: self.link_quality,
            center_freq_khz: self.center_freq_khz,
            max_rate_half_mbps: self.max_rate_half_mbps,
        }
    }
}

/// What an available-network entry holds, with its SSID as characters.
pub struct AvailableView {
    pub ssid: Seq<char>,
    pub bss_type: i32,
    pub phy_type: i32,
    pub signal_quality: u32,
    pub connected: bool,
}

impl View for AvailableNetworkRaw {
    type V = AvailableView;

    open spec fn view(&self) -> AvailableView {
        AvailableView {
            ssid: self.ssid@,
            bss_type: self.bss_type,
            phy_type: self.phy_type,
            signal_quality: self.signal_quality,
            connected: self.connected,
        }
    }
}

/// What a connection record holds, with its texts as sequences.
pub struct ConnectionView {
    pub ssid: Seq<char>,
    pub bssid: Seq<u8>,
    pub bss_type: i32,
    pub phy_type: i32,
    pub signal_quality: u32,
    pub rx_rate: u32,
    pub tx_rate: u32,
}

impl View for CurrentConnectionRaw {
    type V = ConnectionView;

    open spec fn view(&self) -> ConnectionView {
        ConnectionView {
            ssid: self.ssid@,
            bssid: self.bssid@,
            bss_type: self.bss_type,
            phy_type: self.phy_type,
            signal_quality: self.signal_quality,
            rx_rate: self.rx_rate,
            tx_rate: self.tx_rate,
        }
    }
}

/// The views of a sequence of BSS entries.
pub open spec fn bss_views(s: Seq<BssEntryRaw>) -> Seq<BssView> {
    s.map_values(|e: BssEntryRaw| e@)
}

/// The views of a sequence of available-network entries.
pub open spec fn available_views(s: Seq<AvailableNetworkRaw>) -> Seq<AvailableView> {
    s.map_values(|e: AvailableNetworkRaw| e@)
}

} // verus!
