//! Conversions from the values that the Native WiFi API reports to display
//! text and derived numbers.

use vstd::prelude::*;
use vstd::utf8::{decode_utf8, pop_first_scalar, valid_utf8};

use crate::text::{
    decimal_signed, hex_byte, hex_digit_char, lemma_text_le_concat, push_hex_byte,
    push_signed_decimal, text_le,
};

verus! {

/// `DOT11_BSS_TYPE` of an infrastructure (access point) network.
pub const BSS_TYPE_INFRASTRUCTURE: i32 = 1;

/// `DOT11_BSS_TYPE` of an independent (ad-hoc) network.
pub const BSS_TYPE_INDEPENDENT: i32 = 2;

/// `DOT11_PHY_TYPE` values of the 802.11 physical layers.
pub const PHY_TYPE_UNKNOWN: i32 = 0;
pub const PHY_TYPE_FHSS: i32 = 1;
pub const PHY_TYPE_DSSS: i32 = 2;
pub const PHY_TYPE_IR_BASEBAND: i32 = 3;
pub const PHY_TYPE_OFDM: i32 = 4;
pub const PHY_TYPE_HRDSSS: i32 = 5;
pub const PHY_TYPE_ERP: i32 = 6;
pub const PHY_TYPE_HT: i32 = 7;
pub const PHY_TYPE_VHT: i32 = 8;
pub const PHY_TYPE_DMG: i32 = 9;
pub const PHY_TYPE_HE: i32 = 10;
pub const PHY_TYPE_EHT: i32 = 11;

/// The longest SSID that an 802.11 network can have, in bytes.
pub const SSID_MAX_LEN: u32 = 32;

/// A character of Unicode general category Cc (control codes).
pub open spec fn control_char(c: char) -> bool {
    (c as u32) <= 0x1f || (0x7f <= (c as u32) && (c as u32) <= 0x9f)
}

/// No character of the text is a control code.
pub open spec fn printable(chars: Seq<char>) -> bool {
    forall|i: int| 0 <= i < chars.len() ==> !control_char(#[trigger] chars[i])
}

/// Upper-case hexadecimal digits of every byte, two per byte, no separator.
pub open spec fn hex_text(bytes: Seq<u8>) -> Seq<char>
    decreases bytes.len(),
{
    if bytes.len() == 0 {
        seq![]
    } else {
        hex_text(bytes.drop_last()) + hex_byte(bytes.last())
    }
}

/// Upper-case hexadecimal digits of every byte, the byte groups joined by `:`.
pub open spec fn colon_hex(bytes: Seq<u8>) -> Seq<char>
    decreases bytes.len(),
{
    if bytes.len() == 0 {
        seq![]
    } else if bytes.len() == 1 {
        hex_byte(bytes[0])
    } else {
        colon_hex(bytes.drop_last()) + seq![':'] + hex_byte(bytes.last())
    }
}

/// The bytes of an SSID that count: the first `ssid_len` of the buffer, at
/// most 32.
pub open spec fn ssid_bytes(ssid_len: u32, buffer: Seq<u8>) -> Seq<u8> {
    buffer.take(if ssid_len < 32 { ssid_len as int } else { 32 })
}

/// How an SSID is shown: `<hidden>` when it is empty; its text when the bytes
/// are UTF-8 without control characters; otherwise its bytes in hexadecimal.
pub open spec fn ssid_text(raw: Seq<u8>) -> Seq<char> {
    if raw.len() == 0 {
        "<hidden>"@
    } else if valid_utf8(raw) && printable(decode_utf8(raw)) {
        decode_utf8(raw)
    } else {
        hex_text(raw)
    }
}

/// Name of a BSS type.
pub open spec fn bss_type_name(v: i32) -> Seq<char> {
    if v == BSS_TYPE_INFRASTRUCTURE {
        "Infrastructure"@
    } else if v == BSS_TYPE_INDEPENDENT {
        "Ad-Hoc"@
    } else {
        "Unknown"@
    }
}

/// Name of a PHY type; an unnamed value shows as `PHY(<decimal value>)`.
pub open spec fn phy_type_name(v: i32) -> Seq<char> {
    if v == PHY_TYPE_FHSS {
        "FHSS"@
    } else if v == PHY_TYPE_DSSS {
        "DSSS"@
    } else if v == PHY_TYPE_IR_BASEBAND {
        "IR"@
    } else if v == PHY_TYPE_OFDM {
        "OFDM"@
    } else if v == PHY_TYPE_HRDSSS {
        "HRDSSS"@
    } else if v == PHY_TYPE_ERP {
        "ERP"@
    } else if v == PHY_TYPE_HT {
        "HT"@
    } else if v == PHY_TYPE_VHT {
        "VHT"@
    } else if v == PHY_TYPE_DMG {
        "DMG"@
    } else if v == PHY_TYPE_HE {
        "HE"@
    } else if v == PHY_TYPE_EHT {
        "EHT"@
    } else {
        "PHY("@ + decimal_signed(v as int) + ")"@
    }
}

/// The 802.11 channel number of a centre frequency given in kHz: 2.4 GHz
/// channels 1..13 and 14, 5 GHz channels counted from 5000 MHz and 6 GHz
/// channels counted from 5950 MHz, in steps of 5 MHz; 0 for any other
/// frequency.
pub open spec fn channel_of(freq_khz: u32) -> int {
    let mhz = freq_khz / 1000;
    if freq_khz == 0 {
        0
    } else if 2412 <= mhz && mhz <= 2472 {
        (mhz - 2407) / 5
    } else if mhz == 2484 {
        14
    } else if 5000 <= mhz && mhz <= 5895 {
        (mhz - 5000) / 5
    } else if 5955 <= mhz && mhz <= 7115 {
        (mhz - 5950) / 5
    } else {
        0
    }
}

/// Estimated RSSI for a signal quality percentage: the percentage, capped at
/// 100, mapped linearly onto -100..-50 dBm (`-100 + q / 2`) and rounded half
/// away from zero; every value is at most 0, so halves round down.
pub open spec fn rssi_estimate(quality: u32) -> int {
    -100 + (if quality < 100 { quality as int } else { 100 }) / 2
}

/// Rate of one entry of a rate set, in units of 0.5 Mbit/s: the entry without
/// its top bit, which only marks a basic rate.
pub open spec fn rate_value(entry: u16) -> u16 {
    entry & 0x7fff
}

/// The largest rate among the entries, in units of 0.5 Mbit/s; 0 when there
/// is none.
pub open spec fn max_rate(entries: Seq<u16>) -> u16
    decreases entries.len(),
{
    if entries.len() == 0 {
        0
    } else {
        let rest = max_rate(entries.drop_last());
        let last = rate_value(entries.last());
        if rest < last {
            last
        } else {
            rest
        }
    }
}

/// How many entries of a rate set count: the set's length is given in bytes,
/// two per entry, and is capped by the entries available.
pub open spec fn rate_count(rate_set_length: u32, available: nat) -> int {
    let n = rate_set_length as int / 2;
    if n < available {
        n
    } else {
        available as int
    }
}

/// Name of a `WLAN_INTERFACE_STATE`.
pub open spec fn interface_state_name(state: i32) -> Seq<char> {
    if state == 0 {
        "NotReady"@
    } else if state == 1 {
        "Connected"@
    } else if state == 2 {
        "AdHocNetworkFormed"@
    } else if state == 3 {
        "Disconnecting"@
    } else if state == 4 {
        "Disconnected"@
    } else if state == 5 {
        "Associating"@
    } else if state == 6 {
        "Discovering"@
    } else if state == 7 {
        "Authenticating"@
    } else {
        "Unknown"@
    }
}

/// Whether `c` is a control character (general category Cc), as
/// `char::is_control` decides.
pub fn is_control_char(c: char) -> (r: bool)
    ensures
        r == control_char(c),
{
    let v = c as u32;
    v <= 0x1f || (0x7f <= v && v <= 0x9f)
}

/// `std::str::from_utf8`, which succeeds exactly on well-formed UTF-8; the
/// contract says so, and that the text it gives back is what the bytes
/// encode.
#[verifier::external_body]
fn utf8_text(bytes: &[u8]) -> (r: Option<&str>)
    ensures
        r is Some <==> valid_utf8(bytes@),
        r matches Some(s) ==> s@ == decode_utf8(bytes@),
{
    std::str::from_utf8(bytes).ok()
}

/// Whether no character of `text` is a control character.
pub fn is_printable(text: &str) -> (r: bool)
    ensures
        r == printable(text@),
{
    let n = text.unicode_len();
    let mut i: usize = 0;
    while i < n
        invariant
            n == text@.len(),
            0 <= i <= n,
            forall|k: int| 0 <= k < i ==> !control_char(#[trigger] text@[k]),
        decreases n - i,
    {
        if is_control_char(text.get_char(i)) {
            return false;
        }
        i = i + 1;
    }
    true
}

/// The bytes in upper-case hexadecimal, two digits per byte.
pub fn bytes_to_hex(bytes: &[u8]) -> (r: String)
    ensures
        r@ == hex_text(bytes@),
{
    let mut out = String::new();
    let mut i: usize = 0;
    while i < bytes.len()
        invariant
            0 <= i <= bytes@.len(),
            out@ == hex_text(bytes@.take(i as int)),
        decreases bytes@.len() - i,
    {
        push_hex_byte(&mut out, bytes[i]);
        assert(bytes@.take(i + 1).drop_last() =~= bytes@.take(i as int));
        i = i + 1;
    }
    assert(bytes@.take(bytes@.len() as int) =~= bytes@);
    out
}

/// Display text of an SSID held in a 32-byte buffer of which `ssid_len` bytes
/// count.
pub fn ssid_to_string(ssid_len: u32, ssid: &[u8; 32]) -> (r: String)
    ensures
        r@ == ssid_text(ssid_bytes(ssid_len, ssid@)),
{
    let len: usize = if ssid_len < SSID_MAX_LEN {
        ssid_len as usize
    } else {
        32
    };
    if len == 0 {
        return String::from_str("<hidden>");
    }
    let mut raw: Vec<u8> = Vec::new();
    let mut i: usize = 0;
    while i < len
        invariant
            len <= 32,
            ssid@.len() == 32,
            0 <= i <= len,
            raw@ == ssid@.take(i as int),
        decreases len - i,
    {
        raw.push(ssid[i]);
        assert(raw@ =~= ssid@.take(i + 1));
        i = i + 1;
    }
    assert(raw@ == ssid_bytes(ssid_len, ssid@));
    match utf8_text(raw.as_slice()) {
        Some(text) => {
            if is_printable(text) {
                text.to_owned()
            } else {
                bytes_to_hex(raw.as_slice())
            }
        },
        None => bytes_to_hex(raw.as_slice()),
    }
}

/// The BSSID as six upper-case hexadecimal byte groups joined by `:`.
pub fn bssid_to_string(bssid: [u8; 6]) -> (r: String)
    ensures
        r@ == colon_hex(bssid@),
{
    let mut out = String::new();
    let mut i: usize = 0;
    while i < 6
        invariant
            bssid@.len() == 6,
            0 <= i <= 6,
            out@ == colon_hex(bssid@.take(i as int)),
        decreases 6 - i,
    {
        let ghost before = out@;
        if i > 0 {
            out.append(":");
        }
        push_hex_byte(&mut out, bssid[i]);
        assert(bssid@.take(i + 1).drop_last() =~= bssid@.take(i as int));
        proof {
            if i == 0 {
                assert(out@ =~= colon_hex(bssid@.take(1)));
            } else {
                reveal_strlit(":");
                assert(":"@ =~= seq![':']);
                assert(bssid@.take(i + 1).last() == bssid@[i as int]);
                assert(out@ =~= colon_hex(bssid@.take(i + 1)));
            }
        }
        i = i + 1;
    }
    assert(bssid@.take(6) =~= bssid@);
    out
}

/// Name of a BSS type.
pub fn bss_type_to_string(v: i32) -> (r: &'static str)
    ensures
        r@ == bss_type_name(v),
{
    if v == BSS_TYPE_INFRASTRUCTURE {
        "Infrastructure"
    } else if v == BSS_TYPE_INDEPENDENT {
        "Ad-Hoc"
    } else {
        "Unknown"
    }
}

/// Name of a PHY type, or `PHY(<value>)` for a value without a name.
pub fn phy_type_to_string(v: i32) -> (r: String)
    ensures
        r@ == phy_type_name(v),
{
    if v == PHY_TYPE_FHSS {
        String::from_str("FHSS")
    } else if v == PHY_TYPE_DSSS {
        String::from_str("DSSS")
    } else if v == PHY_TYPE_IR_BASEBAND {
        String::from_str("IR")
    } else if v == PHY_TYPE_OFDM {
        String::from_str("OFDM")
    } else if v == PHY_TYPE_HRDSSS {
        String::from_str("HRDSSS")
    } else if v == PHY_TYPE_ERP {
        String::from_str("ERP")
    } else if v == PHY_TYPE_HT {
        String::from_str("HT")
    } else if v == PHY_TYPE_VHT {
        String::from_str("VHT")
    } else if v == PHY_TYPE_DMG {
        String::from_str("DMG")
    } else if v == PHY_TYPE_HE {
        String::from_str("HE")
    } else if v == PHY_TYPE_EHT {
        String::from_str("EHT")
    } else {
        let mut out = String::from_str("PHY(");
        push_signed_decimal(&mut out, v as i64);
        out.append(")");
        out
    }
}

/// The 802.11 channel number for a centre frequency in kHz, 0 when the
/// frequency lies on no known channel.
pub fn channel_from_frequency_khz(freq_khz: u32) -> (r: u16)
    ensures
        r as int == channel_of(freq_khz),
{
    if freq_khz == 0 {
        return 0;
    }
    let freq_mhz = freq_khz / 1000;
    if 2412 <= freq_mhz && freq_mhz <= 2472 {
        return ((freq_mhz - 2407) / 5) as u16;
    }
    if freq_mhz == 2484 {
        return 14;
    }
    if 5000 <= freq_mhz && freq_mhz <= 5895 {
        return ((freq_mhz - 5000) / 5) as u16;
    }
    if 5955 <= freq_mhz && freq_mhz <= 7115 {
        return ((freq_mhz - 5950) / 5) as u16;
    }
    0
}

/// Estimated RSSI in dBm for a signal quality percentage.
pub fn quality_to_rssi_dbm(quality: u32) -> (r: i32)
    ensures
        r as int == rssi_estimate(quality),
{
    let q: u32 = if quality < 100 {
        quality
    } else {
        100
    };
    -100 + (q / 2) as i32
}

/// The largest rate of a rate set in units of 0.5 Mbit/s (0 for an empty
/// set); `rate_set_length` is the set's length in bytes as the API reports it.
pub fn max_rate_half_mbps(rate_set_length: u32, rates: &[u16]) -> (r: u16)
    ensures
        r == max_rate(rates@.take(rate_count(rate_set_length, rates@.len()))),
{
    let half = (rate_set_length / 2) as usize;
    let count: usize = if half < rates.len() {
        half
    } else {
        rates.len()
    };
    let mut best: u16 = 0;
    let mut i: usize = 0;
    while i < count
        invariant
            count <= rates@.len(),
            count == rate_count(rate_set_length, rates@.len()),
            0 <= i <= count,
            best == max_rate(rates@.take(i as int)),
        decreases count - i,
    {
        let value = rates[i] & 0x7fff;
        assert(rates@.take(i + 1).drop_last() =~= rates@.take(i as int));
        if best < value {
            best = value;
        }
        i = i + 1;
    }
    best
}

/// Name of a `WLAN_INTERFACE_STATE`.
pub fn interface_state_to_string(state: i32) -> (r: &'static str)
    ensures
        r@ == interface_state_name(state),
{
    match state {
        0 => "NotReady",
        1 => "Connected",
        2 => "AdHocNetworkFormed",
        3 => "Disconnecting",
        4 => "Disconnected",
        5 => "Associating",
        6 => "Discovering",
        7 => "Authenticating",
        _ => "Unknown",
    }
}

/// The centre frequency of each 2.4 GHz channel 1..13 (2407 + 5 c MHz) and
/// of channel 14 (2484 MHz) gives that channel back.
pub proof fn lemma_channel_2ghz(c: int)
    requires
        1 <= c <= 14,
    ensures
        c <= 13 ==> channel_of(((2407 + 5 * c) * 1000) as u32) == c,
        channel_of(2484000) == 14,
{
}

/// The centre frequency of each 5 GHz channel c (5000 + 5 c MHz, up to
/// 5895 MHz) gives that channel back.
pub proof fn lemma_channel_5ghz(c: int)
    requires
        0 <= c <= 179,
    ensures
        channel_of(((5000 + 5 * c) * 1000) as u32) == c,
{
}

/// The centre frequency of each 6 GHz channel c (5950 + 5 c MHz, from 5955 to
/// 7115 MHz) gives that channel back.
pub proof fn lemma_channel_6ghz(c: int)
    requires
        1 <= c <= 233,
    ensures
        channel_of(((5950 + 5 * c) * 1000) as u32) == c,
{
}

/// The estimated RSSI lies in -100..-50 dBm and does not fall as the signal
/// quality rises.
pub proof fn lemma_rssi_estimate(q1: u32, q2: u32)
    ensures
        -100 <= rssi_estimate(q1) <= -50,
        q1 <= q2 ==> rssi_estimate(q1) <= rssi_estimate(q2),
{
}

/// Every byte shows as two hexadecimal digits.
pub proof fn lemma_hex_text_len(bytes: Seq<u8>)
    ensures
        hex_text(bytes).len() == 2 * bytes.len(),
    decreases bytes.len(),
{
    if bytes.len() > 0 {
        lemma_hex_text_len(bytes.drop_last());
    }
}

/// Bytes joined by `:` take three characters per byte but the last, which
/// takes two; a BSSID shows as 17 characters.
pub proof fn lemma_colon_hex_len(bytes: Seq<u8>)
    requires
        bytes.len() > 0,
    ensures
        colon_hex(bytes).len() == 3 * bytes.len() - 1,
    decreases bytes.len(),
{
    if bytes.len() > 1 {
        lemma_colon_hex_len(bytes.drop_last());
    }
}

/// The rate of a set is that of none of its entries exceeded, and it is the
/// rate of one of them unless the set is empty (then it is 0).
pub proof fn lemma_max_rate(entries: Seq<u16>)
    ensures
        forall|i: int| 0 <= i < entries.len() ==> rate_value(#[trigger] entries[i]) <= max_rate(entries),
        entries.len() == 0 ==> max_rate(entries) == 0,
        entries.len() > 0 ==> exists|i: int|
            0 <= i < entries.len() && rate_value(#[trigger] entries[i]) == max_rate(entries),
    decreases entries.len(),
{
    if entries.len() > 0 {
        let t = entries.drop_last();
        lemma_max_rate(t);
        assert forall|i: int| 0 <= i < entries.len() implies rate_value(#[trigger] entries[i])
            <= max_rate(entries) by {
            if i < entries.len() - 1 {
                assert(entries[i] == t[i]);
            }
        }
        if t.len() > 0 && max_rate(t) >= rate_value(entries.last()) {
            let i = choose|i: int| 0 <= i < t.len() && rate_value(#[trigger] t[i]) == max_rate(t);
            assert(entries[i] == t[i]);
        } else {
            assert(rate_value(entries[entries.len() - 1]) == max_rate(entries));
        }
    }
}

/// Lexicographic order of byte sequences: `a` comes first or equals `b`.
pub open spec fn bytes_le(a: Seq<u8>, b: Seq<u8>) -> bool
    decreases a.len(),
{
    if a.len() == 0 {
        true
    } else if b.len() == 0 {
        false
    } else if a[0] != b[0] {
        a[0] < b[0]
    } else {
        bytes_le(a.drop_first(), b.drop_first())
    }
}

/// Two hexadecimal digits order and tell apart bytes as their values do.
pub proof fn lemma_hex_byte_order(x: u8, y: u8)
    ensures
        text_le(hex_byte(x), hex_byte(y)) == (x <= y),
        (hex_byte(x) == hex_byte(y)) == (x == y),
{
    let hx = hex_byte(x);
    let hy = hex_byte(y);
    let x1 = x as int / 16;
    let x0 = x as int % 16;
    let y1 = y as int / 16;
    let y0 = y as int % 16;
    assert(x as int == 16 * x1 + x0 && 0 <= x0 < 16 && 0 <= x1 < 16);
    assert(y as int == 16 * y1 + y0 && 0 <= y0 < 16 && 0 <= y1 < 16);
    assert(forall|d: int, e: int|
        0 <= d < 16 && 0 <= e < 16 ==> ((hex_digit_char(d) as int) < (hex_digit_char(e) as int))
            == (d < e) && (hex_digit_char(d) == hex_digit_char(e)) == (d == e));
    let tx = hx.drop_first();
    let ty = hy.drop_first();
    assert(tx =~= seq![hex_digit_char(x0)]);
    assert(ty =~= seq![hex_digit_char(y0)]);
    assert(tx.drop_first() =~= Seq::<char>::empty());
    assert(ty.drop_first() =~= Seq::<char>::empty());
    assert(text_le(tx.drop_first(), ty.drop_first()));
    assert(text_le(tx, ty) == (x0 <= y0));
    assert(text_le(hx, hy) == (x1 < y1 || (x1 == y1 && x0 <= y0)));
    assert((x <= y) == (x1 < y1 || (x1 == y1 && x0 <= y0)));
    if hx == hy {
        assert(hx[0] == hy[0] && hx[1] == hy[1]);
    }
    if x == y {
        assert(hx =~= hy);
    }
}

/// The text of two or more bytes is the first byte's digits, `:`, and the
/// text of the others.
pub proof fn lemma_colon_hex_front(bytes: Seq<u8>)
    requires
        bytes.len() >= 2,
    ensures
        colon_hex(bytes) == hex_byte(bytes[0]) + seq![':'] + colon_hex(bytes.drop_first()),
    decreases bytes.len(),
{
    let t = bytes.drop_last();
    let r = bytes.drop_first();
    assert(colon_hex(bytes) == colon_hex(t) + seq![':'] + hex_byte(bytes.last()));
    if bytes.len() == 2 {
        assert(t =~= seq![bytes[0]]);
        assert(colon_hex(t) == hex_byte(bytes[0]));
        assert(r =~= seq![bytes[1]]);
        assert(colon_hex(r) == hex_byte(bytes[1]));
        assert(colon_hex(bytes) =~= hex_byte(bytes[0]) + seq![':'] + colon_hex(r));
    } else {
        lemma_colon_hex_front(t);
        assert(t.drop_first() =~= r.drop_last());
        assert(r.last() == bytes.last());
        assert(colon_hex(r) == colon_hex(r.drop_last()) + seq![':'] + hex_byte(r.last()));
        assert(colon_hex(bytes) =~= hex_byte(bytes[0]) + seq![':'] + colon_hex(r));
    }
}

/// BSSID texts sort as the BSSIDs' bytes do, and two texts are equal exactly
/// when the bytes are: ordering by the text is ordering by the address.
pub proof fn lemma_bssid_text_order(a: Seq<u8>, b: Seq<u8>)
    requires
        a.len() == b.len(),
        a.len() > 0,
    ensures
        text_le(colon_hex(a), colon_hex(b)) == bytes_le(a, b),
        (colon_hex(a) == colon_hex(b)) == (a == b),
    decreases a.len(),
{
    lemma_hex_byte_order(a[0], b[0]);
    if a.len() == 1 {
        assert(colon_hex(a) == hex_byte(a[0]));
        assert(colon_hex(b) == hex_byte(b[0]));
        assert(a.drop_first() =~= Seq::<u8>::empty());
        assert(b.drop_first() =~= Seq::<u8>::empty());
        assert(bytes_le(a.drop_first(), b.drop_first()));
        if a[0] == b[0] {
            assert(a =~= b);
        }
    } else {
        lemma_colon_hex_front(a);
        lemma_colon_hex_front(b);
        lemma_bssid_text_order(a.drop_first(), b.drop_first());
        let pa = hex_byte(a[0]) + seq![':'];
        let pb = hex_byte(b[0]) + seq![':'];
        lemma_text_le_concat(pa, colon_hex(a.drop_first()), pb, colon_hex(b.drop_first()));
        lemma_text_le_concat(hex_byte(a[0]), seq![':'], hex_byte(b[0]), seq![':']);
        assert(colon_hex(a) == pa + colon_hex(a.drop_first()));
        assert(colon_hex(b) == pb + colon_hex(b.drop_first()));
        assert((pa == pb) == (a[0] == b[0]));
        if a[0] == b[0] && a.drop_first() == b.drop_first() {
            assert forall|i: int| 0 <= i < a.len() implies a[i] == b[i] by {
                if i > 0 {
                    assert(a[i] == a.drop_first()[i - 1]);
                    assert(b[i] == b.drop_first()[i - 1]);
                }
            }
            assert(a =~= b);
        }
        if a == b {
            assert(a.drop_first() == b.drop_first());
        }
    }
}

/// For two BSSIDs, their texts sort as their bytes do and are equal exactly
/// when the BSSIDs are.
pub proof fn lemma_bssid_order(a: [u8; 6], b: [u8; 6])
    ensures
        text_le(colon_hex(a@), colon_hex(b@)) == bytes_le(a@, b@),
        (colon_hex(a@) == colon_hex(b@)) == (a@ == b@),
{
    assert(a@.len() == 6 && b@.len() == 6);
    lemma_bssid_text_order(a@, b@);
}

/// Bytes of printable ASCII (space through `~`) are well-formed UTF-8 and
/// decode to one character per byte, each with the byte's own code.
proof fn lemma_ascii_decodes(bytes: Seq<u8>)
    requires
        forall|i: int| 0 <= i < bytes.len() ==> 0x20 <= #[trigger] bytes[i] <= 0x7e,
    ensures
        valid_utf8(bytes),
        decode_utf8(bytes).len() == bytes.len(),
        forall|i: int|
            0 <= i < bytes.len() ==> (#[trigger] decode_utf8(bytes)[i]) as u32 == bytes[i] as u32,
    decreases bytes.len(),
{
    if bytes.len() > 0 {
        let b: u8 = bytes[0];
        assert(b & 0x7f == b) by (bit_vector)
            requires
                b <= 0x7f,
        ;
        let rest = pop_first_scalar(bytes);
        assert(rest =~= bytes.subrange(1, bytes.len() as int));
        assert forall|i: int| 0 <= i < rest.len() implies 0x20 <= #[trigger] rest[i] <= 0x7e by {
            assert(rest[i] == bytes[i + 1]);
        }
        lemma_ascii_decodes(rest);
        let d = decode_utf8(bytes);
        assert(d == seq![(b as u32) as char] + decode_utf8(rest));
        assert(((b as u32) as char) as u32 == b as u32);
        assert forall|i: int| 0 <= i < bytes.len() implies (#[trigger] d[i]) as u32
            == bytes[i] as u32 by {
            if i > 0 {
                assert(d[i] == decode_utf8(rest)[i - 1]);
                assert(rest[i - 1] == bytes[i]);
            }
        }
    }
}

/// An SSID whose bytes are well-formed UTF-8 and decode to text without any
/// control character (no code in 0..=0x1F nor in 0x7F..=0x9F) is shown as
/// that decoded text; a space, or any other printable character, keeps it
/// text. An SSID with no bytes is shown as `<hidden>`, and one that is not
/// UTF-8 or holds a control character as hexadecimal.
pub proof fn lemma_ssid_shows_text(raw: Seq<u8>)
    ensures
        raw.len() == 0 ==> ssid_text(raw) == "<hidden>"@,
        raw.len() > 0 && valid_utf8(raw) && (forall|i: int|
            0 <= i < decode_utf8(raw).len() ==> !((#[trigger] decode_utf8(raw)[i]) as u32 <= 0x1f
                || (0x7f <= decode_utf8(raw)[i] as u32 && decode_utf8(raw)[i] as u32 <= 0x9f)))
            ==> ssid_text(raw) == decode_utf8(raw),
        raw.len() > 0 && !valid_utf8(raw) ==> ssid_text(raw) == hex_text(raw),
        raw.len() > 0 && valid_utf8(raw) && (exists|i: int|
            0 <= i < decode_utf8(raw).len() && ((#[trigger] decode_utf8(raw)[i]) as u32 <= 0x1f
                || (0x7f <= decode_utf8(raw)[i] as u32 && decode_utf8(raw)[i] as u32 <= 0x9f)))
            ==> ssid_text(raw) == hex_text(raw),
{
}

/// An SSID made only of printable ASCII bytes (space through `~`) is shown
/// as those very characters, one per byte, in order.
pub proof fn lemma_ascii_ssid_shown(ssid_len: u32, buffer: Seq<u8>)
    requires
        0 < ssid_len <= 32,
        buffer.len() == 32,
        forall|i: int| 0 <= i < ssid_len ==> 0x20 <= #[trigger] buffer[i] <= 0x7e,
    ensures
        ssid_text(ssid_bytes(ssid_len, buffer)).len() == ssid_len,
        forall|i: int|
            0 <= i < ssid_len ==> (#[trigger] ssid_text(ssid_bytes(ssid_len, buffer))[i]) as u32
                == buffer[i] as u32,
{
    let raw = ssid_bytes(ssid_len, buffer);
    assert(raw.len() == ssid_len);
    assert forall|i: int| 0 <= i < raw.len() implies 0x20 <= #[trigger] raw[i] <= 0x7e by {
        assert(raw[i] == buffer[i]);
    }
    lemma_ascii_decodes(raw);
    let d = decode_utf8(raw);
    assert forall|i: int| 0 <= i < d.len() implies !control_char(#[trigger] d[i]) by {
        assert(d[i] as u32 == raw[i] as u32);
    }
    assert(ssid_text(raw) == d);
    assert forall|i: int| 0 <= i < ssid_len implies (#[trigger] ssid_text(raw)[i]) as u32
        == buffer[i] as u32 by {
        assert(raw[i] == buffer[i]);
    }
}

} // verus!
