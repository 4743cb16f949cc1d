use wol_libvirt_gateway::error::{ParseError, WolGatewayError};
use wol_libvirt_gateway::mac::{mac_to_string, parse_mac, parse_mac_address_string};
use wol_libvirt_gateway::wakeonlan::{WakeOnLanPacket, WOL_PACKET_MIN_SIZE};

fn magic(mac: &[u8; 6]) -> Vec<u8> {
    let mut packet = vec![0xFF; 6];
    for _ in 0..16 {
        packet.extend_from_slice(mac);
    }
    packet
}

#[test]
fn test_valid_wol_packet_without_password() {
    let mut packet = vec![0xFF; 6]; // Sync stream
    let mac = [0xAA, 0xBB, 0xCC, 0xDD, 0xEE, 0xFF];

    // Add MAC address 16 times
    for _ in 0..16 {
        packet.extend_from_slice(&mac);
    }

    let wol = WakeOnLanPacket::parse(&packet).unwrap();
    assert_eq!(wol.target_mac_string(), "aa:bb:cc:dd:ee:ff");
}

#[test]
fn test_valid_wol_packet_with_6_byte_password() {
    let mut packet = vec![0xFF; 6]; // Sync stream
    let mac = [0x12, 0x34, 0x56, 0x78, 0x9A, 0xBC];
    let password = [0x11, 0x22, 0x33, 0x44, 0x55, 0x66];

    // Add MAC address 16 times
    for _ in 0..16 {
        packet.extend_from_slice(&mac);
    }

    // Add password
    packet.extend_from_slice(&password);

    let wol = WakeOnLanPacket::parse(&packet).unwrap();
    assert_eq!(wol.target_mac_string(), "12:34:56:78:9a:bc");
}

#[test]
fn test_valid_wol_packet_with_4_byte_password() {
    let mut packet = vec![0xFF; 6]; // Sync stream
    let mac = [0x00, 0x11, 0x22, 0x33, 0x44, 0x55];
    let password_4byte = [0xAA, 0xBB, 0xCC, 0xDD];

    // Add MAC address 16 times
    for _ in 0..16 {
        packet.extend_from_slice(&mac);
    }

    // Add 4-byte password
    packet.extend_from_slice(&password_4byte);

    let wol = WakeOnLanPacket::parse(&packet).unwrap();
    assert_eq!(wol.target_mac_string(), "00:11:22:33:44:55");
}

#[test]
fn test_packet_too_short() {
    let packet = vec![0xFF; 50]; // Too short
    let result = WakeOnLanPacket::parse(&packet);
    assert!(matches!(
        result,
        Err(WolGatewayError::WakeOnLanParseError(ParseError::PacketTooShort {
            actual: 50,
            required: WOL_PACKET_MIN_SIZE,
        }))
    ));
}

#[test]
fn test_invalid_sync_stream() {
    let mut packet = vec![0xFE; 6]; // Wrong sync bytes
    let mac = [0xAA, 0xBB, 0xCC, 0xDD, 0xEE, 0xFF];

    for _ in 0..16 {
        packet.extend_from_slice(&mac);
    }

    let result = WakeOnLanPacket::parse(&packet);
    assert!(matches!(
        result,
        Err(WolGatewayError::WakeOnLanParseError(ParseError::BadSyncStream))
    ));
}

#[test]
fn test_mac_repetition_mismatch() {
    let mut packet = vec![0xFF; 6]; // Sync stream
    let mac1 = [0xAA, 0xBB, 0xCC, 0xDD, 0xEE, 0xFF];
    let mac2 = [0x11, 0x22, 0x33, 0x44, 0x55, 0x66];

    let repetition_error = 8;
    // Add first MAC
    packet.extend_from_slice(&mac1);

    // Add 15 more repetitions, but make one different
    for i in 1..16 {
        if i == repetition_error {
            packet.extend_from_slice(&mac2); // Different MAC
        } else {
            packet.extend_from_slice(&mac1);
        }
    }

    let result = WakeOnLanPacket::parse(&packet);
    assert!(matches!(
        result,
        Err(WolGatewayError::WakeOnLanParseError(ParseError::RepetitionMismatch {
            index: 8
        }))
    ));
}

#[test]
fn test_mac_to_string_formatting() {
    // Test various MAC addresses to ensure proper formatting
    let test_cases = vec![
        ([0x00, 0x00, 0x00, 0x00, 0x00, 0x00], "00:00:00:00:00:00"),
        ([0xFF, 0xFF, 0xFF, 0xFF, 0xFF, 0xFF], "ff:ff:ff:ff:ff:ff"),
        ([0x12, 0x34, 0x56, 0x78, 0x9A, 0xBC], "12:34:56:78:9a:bc"),
        ([0xA1, 0xB2, 0xC3, 0xD4, 0xE5, 0xF6], "a1:b2:c3:d4:e5:f6"),
    ];

    for (mac_bytes, expected_string) in test_cases {
        let mut packet = vec![0xFF; 6]; // Sync stream

        // Add MAC address 16 times
        for _ in 0..16 {
            packet.extend_from_slice(&mac_bytes);
        }

        let wol = WakeOnLanPacket::parse(&packet).unwrap();
        assert_eq!(wol.target_mac_string(), expected_string);
    }
}

#[test]
fn exact_minimum_length_packet_is_valid() {
    let packet = magic(&[0x52, 0x54, 0x00, 0x12, 0x34, 0x56]);
    assert_eq!(packet.len(), 102);
    let wol = WakeOnLanPacket::parse(&packet).unwrap();
    assert_eq!(wol.target_mac_string(), "52:54:00:12:34:56");
}

#[test]
fn trailing_bytes_of_any_length_keep_the_target() {
    for extra in [1usize, 4, 6, 7, 100] {
        let mut packet = magic(&[0x01, 0x02, 0x03, 0x04, 0x05, 0x06]);
        packet.extend(std::iter::repeat(0x5A).take(extra));
        let wol = WakeOnLanPacket::parse(&packet).unwrap();
        assert_eq!(wol.target_mac_string(), "01:02:03:04:05:06");
    }
}

#[test]
fn packet_one_byte_short_reports_lengths() {
    let packet = magic(&[0xAA; 6]);
    let result = WakeOnLanPacket::parse(&packet[..101]);
    assert_eq!(
        result.unwrap_err(),
        WolGatewayError::WakeOnLanParseError(ParseError::PacketTooShort { actual: 101, required: 102 })
    );
    let empty: Vec<u8> = Vec::new();
    assert_eq!(
        WakeOnLanPacket::parse(&empty).unwrap_err(),
        WolGatewayError::WakeOnLanParseError(ParseError::PacketTooShort { actual: 0, required: 102 })
    );
}

#[test]
fn any_bad_sync_byte_is_rejected_before_repetitions() {
    for i in 0..6 {
        let mut packet = vec![0xFF; 6];
        packet.extend(std::iter::repeat(0x00).take(96));
        packet[i] = 0x00;
        packet[20] = 0x77; // a repetition mismatch that must not be reported
        assert_eq!(
            WakeOnLanPacket::parse(&packet).unwrap_err(),
            WolGatewayError::WakeOnLanParseError(ParseError::BadSyncStream)
        );
    }
}

#[test]
fn mismatch_index_is_exact_for_every_repetition() {
    for k in 1..16usize {
        let mut packet = magic(&[0x10, 0x20, 0x30, 0x40, 0x50, 0x60]);
        packet[6 + 6 * k + 5] = 0x61;
        if k + 1 < 16 {
            packet[6 + 6 * (k + 1)] = 0x00; // a later mismatch is not reported
        }
        assert_eq!(
            WakeOnLanPacket::parse(&packet).unwrap_err(),
            WolGatewayError::WakeOnLanParseError(ParseError::RepetitionMismatch { index: k })
        );
    }
}

#[test]
fn mac_text_round_trip_normalizes_to_lowercase() {
    let m = parse_mac_address_string("52:54:00:12:34:56").unwrap();
    assert_eq!(m, [0x52, 0x54, 0x00, 0x12, 0x34, 0x56]);
    assert_eq!(mac_to_string(&m), "52:54:00:12:34:56");
    let upper = parse_mac_address_string("52:54:00:AB:CD:EF").unwrap();
    assert_eq!(mac_to_string(&upper), "52:54:00:ab:cd:ef");
    let mixed = parse_mac("aA:Bb:0f:F0:9e:E9").unwrap();
    assert_eq!(mac_to_string(&mixed), "aa:bb:0f:f0:9e:e9");
}

#[test]
fn mac_text_errors_identify_the_part() {
    assert_eq!(parse_mac("52:54:00:12:34"), Err(ParseError::WrongPartCount { count: 5 }));
    assert_eq!(parse_mac("52:54:00:12:34:56:78"), Err(ParseError::WrongPartCount { count: 7 }));
    assert_eq!(parse_mac(""), Err(ParseError::WrongPartCount { count: 1 }));
    assert_eq!(parse_mac("52:54:0:12:34:56"), Err(ParseError::BadPartLength { part: 2 }));
    assert_eq!(parse_mac("52:54:00:12:34:"), Err(ParseError::BadPartLength { part: 5 }));
    assert_eq!(parse_mac("52:54:00:1g:34:56"), Err(ParseError::BadHexDigit { part: 3 }));
    assert_eq!(parse_mac("+5:54:00:12:34:56"), Err(ParseError::BadHexDigit { part: 0 }));
    assert_eq!(
        parse_mac_address_string("zz:54:00:12:34:56"),
        Err(WolGatewayError::WakeOnLanParseError(ParseError::BadHexDigit { part: 0 }))
    );
}
