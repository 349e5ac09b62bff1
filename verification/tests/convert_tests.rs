use winwifi::convert::{
    bss_type_to_string, bssid_to_string, bytes_to_hex, channel_from_frequency_khz,
    interface_state_to_string, is_control_char, is_printable, max_rate_half_mbps,
    phy_type_to_string, quality_to_rssi_dbm, ssid_to_string,
};

fn ssid_buffer(bytes: &[u8]) -> [u8; 32] {
    let mut buf = [0u8; 32];
    buf[..bytes.len()].copy_from_slice(bytes);
    buf
}

#[test]
fn ssid_empty_is_hidden() {
    assert_eq!(ssid_to_string(0, &ssid_buffer(b"ignored")), "<hidden>");
}

#[test]
fn ssid_ascii_is_shown_as_text() {
    assert_eq!(ssid_to_string(7, &ssid_buffer(b"HomeNet")), "HomeNet");
}

#[test]
fn ssid_length_counts_only_given_bytes() {
    assert_eq!(ssid_to_string(4, &ssid_buffer(b"HomeNet")), "Home");
}

#[test]
fn ssid_length_is_capped_at_32() {
    let buf = [b'a'; 32];
    assert_eq!(ssid_to_string(1000, &buf), "a".repeat(32));
}

#[test]
fn ssid_utf8_is_decoded() {
    let text = "café网络";
    let buf = ssid_buffer(text.as_bytes());
    assert_eq!(ssid_to_string(text.len() as u32, &buf), text);
}

#[test]
fn ssid_invalid_utf8_is_hex() {
    assert_eq!(ssid_to_string(3, &ssid_buffer(&[0xff, 0xfe, 0x41])), "FFFE41");
}

#[test]
fn ssid_with_control_character_is_hex() {
    assert_eq!(ssid_to_string(3, &ssid_buffer(&[b'A', 0x01, b'z'])), "41017A");
    assert_eq!(ssid_to_string(2, &ssid_buffer(&[0xc2, 0x85])), "C285");
}

#[test]
fn hex_of_bytes() {
    assert_eq!(bytes_to_hex(&[0x00, 0x0f, 0xa0, 0xff]), "000FA0FF");
    assert_eq!(bytes_to_hex(&[]), "");
}

#[test]
fn control_characters() {
    assert!(is_control_char('\u{0}'));
    assert!(is_control_char('\u{1f}'));
    assert!(!is_control_char(' '));
    assert!(is_control_char('\u{7f}'));
    assert!(is_control_char('\u{9f}'));
    assert!(!is_control_char('\u{a0}'));
    for c in ['\u{0}', 'a', '\u{85}', '网', '\u{200b}', '\u{7f}'] {
        assert_eq!(is_control_char(c), c.is_control());
    }
    assert!(is_printable("Home Net"));
    assert!(!is_printable("a\tb"));
}

#[test]
fn bssid_text() {
    assert_eq!(bssid_to_string([0x00, 0x1a, 0x2b, 0x3c, 0x4d, 0x5e]), "00:1A:2B:3C:4D:5E");
    assert_eq!(bssid_to_string([0xff; 6]), "FF:FF:FF:FF:FF:FF");
    assert_eq!(bssid_to_string([0xab, 0, 0, 0, 0, 1]).len(), 17);
}

#[test]
fn bss_type_names() {
    assert_eq!(bss_type_to_string(1), "Infrastructure");
    assert_eq!(bss_type_to_string(2), "Ad-Hoc");
    assert_eq!(bss_type_to_string(3), "Unknown");
    assert_eq!(bss_type_to_string(-1), "Unknown");
}

#[test]
fn phy_type_names() {
    let names = [
        (1, "FHSS"),
        (2, "DSSS"),
        (3, "IR"),
        (4, "OFDM"),
        (5, "HRDSSS"),
        (6, "ERP"),
        (7, "HT"),
        (8, "VHT"),
        (9, "DMG"),
        (10, "HE"),
        (11, "EHT"),
    ];
    for (v, name) in names {
        assert_eq!(phy_type_to_string(v), name);
    }
    assert_eq!(phy_type_to_string(0), "PHY(0)");
    assert_eq!(phy_type_to_string(12), "PHY(12)");
    assert_eq!(phy_type_to_string(-5), "PHY(-5)");
    assert_eq!(phy_type_to_string(i32::MIN), "PHY(-2147483648)");
}

#[test]
fn channels_2ghz() {
    assert_eq!(channel_from_frequency_khz(2412000), 1);
    assert_eq!(channel_from_frequency_khz(2437000), 6);
    assert_eq!(channel_from_frequency_khz(2472000), 13);
    assert_eq!(channel_from_frequency_khz(2484000), 14);
    assert_eq!(channel_from_frequency_khz(2412999), 1);
    for c in 1..=13u32 {
        assert_eq!(channel_from_frequency_khz((2407 + 5 * c) * 1000), c as u16);
    }
}

#[test]
fn channels_5ghz_and_6ghz() {
    assert_eq!(channel_from_frequency_khz(5180000), 36);
    assert_eq!(channel_from_frequency_khz(5825000), 165);
    assert_eq!(channel_from_frequency_khz(5955000), 1);
    assert_eq!(channel_from_frequency_khz(6115000), 33);
    assert_eq!(channel_from_frequency_khz(7115000), 233);
}

#[test]
fn channels_outside_bands() {
    assert_eq!(channel_from_frequency_khz(0), 0);
    assert_eq!(channel_from_frequency_khz(2400000), 0);
    assert_eq!(channel_from_frequency_khz(2480000), 0);
    assert_eq!(channel_from_frequency_khz(5900000), 0);
    assert_eq!(channel_from_frequency_khz(7120000), 0);
    assert_eq!(channel_from_frequency_khz(999), 0);
    assert_eq!(channel_from_frequency_khz(u32::MAX), 0);
}

#[test]
fn rssi_estimates() {
    assert_eq!(quality_to_rssi_dbm(0), -100);
    assert_eq!(quality_to_rssi_dbm(1), -100);
    assert_eq!(quality_to_rssi_dbm(3), -99);
    assert_eq!(quality_to_rssi_dbm(50), -75);
    assert_eq!(quality_to_rssi_dbm(99), -51);
    assert_eq!(quality_to_rssi_dbm(100), -50);
    assert_eq!(quality_to_rssi_dbm(u32::MAX), -50);
}

#[test]
fn rssi_estimates_agree_with_float_rounding() {
    for q in 0..=300u32 {
        let expected = (-100.0f32 + (q.clamp(0, 100) as f32) * 0.5).round() as i32;
        assert_eq!(quality_to_rssi_dbm(q), expected, "quality {q}");
    }
}

#[test]
fn max_rates() {
    let rates = [0x8002u16, 0x0004, 0x800b, 0x0016, 0x006c];
    assert_eq!(max_rate_half_mbps(10, &rates), 0x6c);
    assert_eq!(max_rate_half_mbps(8, &rates), 0x16);
    assert_eq!(max_rate_half_mbps(3, &rates), 2);
    assert_eq!(max_rate_half_mbps(0, &rates), 0);
    assert_eq!(max_rate_half_mbps(1000, &rates), 0x6c);
    assert_eq!(max_rate_half_mbps(4, &[0xffff, 0x0001]), 0x7fff);
    assert_eq!(max_rate_half_mbps(4, &[]), 0);
}

#[test]
fn interface_state_names() {
    let names = [
        "NotReady",
        "Connected",
        "AdHocNetworkFormed",
        "Disconnecting",
        "Disconnected",
        "Associating",
        "Discovering",
        "Authenticating",
    ];
    for (i, name) in names.iter().enumerate() {
        assert_eq!(interface_state_to_string(i as i32), *name);
    }
    assert_eq!(interface_state_to_string(8), "Unknown");
    assert_eq!(interface_state_to_string(-1), "Unknown");
}

#[test]
fn bssid_text_order_is_byte_order() {
    let samples: [[u8; 6]; 6] = [
        [0, 0, 0, 0, 0, 0],
        [0, 0, 0, 0, 0, 9],
        [0, 0, 0, 0, 0, 0x0a],
        [0x9f, 0, 0, 0, 0, 0],
        [0xa0, 0, 0, 0, 0, 0],
        [0xff, 0xff, 0xff, 0xff, 0xff, 0xff],
    ];
    for a in samples {
        for b in samples {
            assert_eq!(a.cmp(&b), bssid_to_string(a).cmp(&bssid_to_string(b)));
        }
    }
}
