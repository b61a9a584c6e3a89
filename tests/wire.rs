use p2p_wire::bytes::{push_u32_le, push_u64_le, read_u32_le};
use p2p_wire::envelope::{
    encode_message, frame_message, parse_message_header, trim_trailing_nul, EncodeError,
    COMMAND_WIDTH, HEADER_LEN,
};
use p2p_wire::handshake::{
    create_version_message, create_version_packet, HandshakePayload, PROTOCOL_VERSION,
};
use p2p_wire::hashing::{checksum, verify_checksum};

const TESTNET_MAGIC: [u8; 4] = [0x0B, 0x11, 0x09, 0x07];

fn sample_payload(protocol_version: i32, user_agent: &[u8]) -> HandshakePayload {
    HandshakePayload {
        protocol_version,
        services: 0,
        timestamp: 0,
        nonce: 0,
        user_agent: user_agent.to_vec(),
        start_height: 0,
        relay: 0,
    }
}

#[test]
fn empty_version_message_is_header_only() {
    let m = encode_message(b"", "version").unwrap();
    assert_eq!(m.len(), 24);
    assert_eq!(&m[0..4], &TESTNET_MAGIC);
    assert_eq!(&m[4..16], b"version\0\0\0\0\0");
    assert_eq!(&m[16..20], &[0, 0, 0, 0]);
    // double SHA-256 of the empty string starts 5d f6 e0 e2
    assert_eq!(&m[20..24], &[0x5d, 0xf6, 0xe0, 0xe2]);
    let (command, length) = parse_message_header(&m).unwrap();
    assert_eq!(command, "version");
    assert_eq!(length, 0);
}

#[test]
fn header_round_trip_keeps_command_and_length() {
    let payloads: [&[u8]; 3] = [b"", b"abc", &[7u8; 300]];
    for command in ["ping", "verack", "a", "", "twelve_bytes"] {
        for p in payloads {
            let m = encode_message(p, command).unwrap();
            assert_eq!(m.len(), HEADER_LEN + p.len());
            assert_eq!(&m[HEADER_LEN..], p);
            let (c, n) = parse_message_header(&m).unwrap();
            assert_eq!(c, command);
            assert_eq!(n, p.len());
        }
    }
}

#[test]
fn encoding_is_deterministic() {
    let p = b"some payload bytes";
    assert_eq!(encode_message(p, "inv").unwrap(), encode_message(p, "inv").unwrap());
}

#[test]
fn checksum_changes_on_single_bit_flips() {
    let base: Vec<u8> = (0..64u32).map(|i| (i * 37 + 11) as u8).collect();
    let original = checksum(&base);
    let mut state: u64 = 0x9e37_79b9_7f4a_7c15;
    let mut positions = vec![(0usize, 0u8), (0, 7), (base.len() - 1, 0), (base.len() - 1, 7)];
    for _ in 0..120 {
        state = state.wrapping_mul(6364136223846793005).wrapping_add(1442695040888963407);
        positions.push(((state >> 33) as usize % base.len(), ((state >> 20) % 8) as u8));
    }
    for (at, bit) in positions {
        let mut flipped = base.clone();
        flipped[at] ^= 1 << bit;
        assert_ne!(checksum(&flipped), original);
    }
}

#[test]
fn checksum_of_known_input() {
    // double SHA-256 of "hello" starts 95 95 c9 df
    assert_eq!(checksum(b"hello"), [0x95, 0x95, 0xc9, 0xdf]);
    assert!(verify_checksum(b"hello", &[0x95, 0x95, 0xc9, 0xdf]));
    assert!(!verify_checksum(b"hello", &[0x95, 0x95, 0xc9, 0xde]));
    assert!(!verify_checksum(b"hello", &[0x95, 0x95, 0xc9]));
    assert!(!verify_checksum(b"hello!", &[0x95, 0x95, 0xc9, 0xdf]));
}

#[test]
fn foreign_magic_is_rejected() {
    let m = encode_message(b"payload", "version").unwrap();
    for at in 0..4 {
        let mut other = m.clone();
        other[at] ^= 0x01;
        assert_eq!(parse_message_header(&other), None);
    }
    let mainnet: Vec<u8> = [0xF9, 0xBE, 0xB4, 0xD9].iter().chain(&m[4..]).copied().collect();
    assert_eq!(parse_message_header(&mainnet), None);
}

#[test]
fn short_buffers_are_rejected() {
    let m = encode_message(b"", "version").unwrap();
    for len in [0usize, 1, 23] {
        assert_eq!(parse_message_header(&m[..len]), None);
    }
    assert!(parse_message_header(&m[..24]).is_some());
}

#[test]
fn header_ignores_checksum_and_missing_payload() {
    let mut m = encode_message(b"abcdef", "tx").unwrap();
    m[20] ^= 0xff;
    m.truncate(24);
    assert_eq!(parse_message_header(&m), Some(("tx".to_string(), 6)));
}

#[test]
fn invalid_utf8_command_is_rejected() {
    let mut m = encode_message(b"", "version").unwrap();
    m[4] = 0xff;
    assert_eq!(parse_message_header(&m), None);
}

#[test]
fn declared_length_is_little_endian() {
    let mut m = encode_message(b"", "block").unwrap();
    m[16..20].copy_from_slice(&[0x04, 0x03, 0x02, 0x01]);
    assert_eq!(parse_message_header(&m), Some(("block".to_string(), 0x0102_0304)));
}

#[test]
fn overlong_command_is_refused() {
    assert_eq!(encode_message(b"", "thirteen_char"), Err(EncodeError::CommandTooLong));
    assert_eq!(COMMAND_WIDTH, 12);
}

#[test]
fn frame_uses_the_given_checksum() {
    let m = frame_message("ping", &[1, 2, 3], &[9, 8, 7, 6]).unwrap();
    let mut expected = TESTNET_MAGIC.to_vec();
    expected.extend_from_slice(b"ping\0\0\0\0\0\0\0\0");
    expected.extend_from_slice(&[3, 0, 0, 0, 9, 8, 7, 6, 1, 2, 3]);
    assert_eq!(m, expected);
    assert_eq!(frame_message("far_too_long_name", &[], &[0; 4]), Err(EncodeError::CommandTooLong));
}

#[test]
fn trailing_nul_characters_are_trimmed() {
    assert_eq!(trim_trailing_nul("ab\0\0"), "ab");
    assert_eq!(trim_trailing_nul("a\0b\0"), "a\0b");
    assert_eq!(trim_trailing_nul("\0\0"), "");
    assert_eq!(trim_trailing_nul("plain"), "plain");
}

#[test]
fn little_endian_helpers() {
    let mut out = vec![0xAA];
    push_u32_le(&mut out, 0x0102_0304);
    push_u64_le(&mut out, 0x0102_0304_0506_0708);
    assert_eq!(out, vec![0xAA, 4, 3, 2, 1, 8, 7, 6, 5, 4, 3, 2, 1]);
    assert_eq!(read_u32_le(&out, 1), 0x0102_0304);
}

#[test]
fn user_agent_follows_fixed_fields() {
    let b = sample_payload(70015, b"/node:0.1/").to_bytes().unwrap();
    assert_eq!(b.len(), 4 + 8 + 8 + 26 + 26 + 8 + 1 + 10 + 4 + 1);
    // the fixed fields before the length byte take 4 + 8 + 8 + 26 + 26 + 8 = 80 bytes
    assert_eq!(b[80], 10);
    assert_eq!(&b[81..91], b"/node:0.1/");
    assert_eq!(&b[0..4], &[0x7F, 0x11, 0x01, 0x00]);
    assert!(b[4..80].iter().all(|&x| x == 0));
    assert!(b[91..].iter().all(|&x| x == 0));
}

#[test]
fn handshake_fields_are_little_endian() {
    let p = HandshakePayload {
        protocol_version: -2,
        services: 1,
        timestamp: 0x0102_0304_0506_0708,
        nonce: 0xFF,
        user_agent: vec![],
        start_height: 0x0A0B_0C0D,
        relay: 1,
    };
    let b = p.to_bytes().unwrap();
    assert_eq!(b.len(), 86);
    assert_eq!(&b[0..4], &[0xFE, 0xFF, 0xFF, 0xFF]);
    assert_eq!(&b[4..12], &[1, 0, 0, 0, 0, 0, 0, 0]);
    assert_eq!(&b[12..20], &[8, 7, 6, 5, 4, 3, 2, 1]);
    assert_eq!(&b[72..80], &[0xFF, 0, 0, 0, 0, 0, 0, 0]);
    assert_eq!(b[80], 0);
    assert_eq!(&b[81..85], &[0x0D, 0x0C, 0x0B, 0x0A]);
    assert_eq!(b[85], 1);
}

#[test]
fn overlong_user_agent_is_refused() {
    assert!(sample_payload(1, &[b'a'; 255]).to_bytes().is_ok());
    assert_eq!(sample_payload(1, &[b'a'; 256]).to_bytes().unwrap_err(), EncodeError::UserAgentTooLong);
}

#[test]
fn version_message_has_node_fields() {
    let b = create_version_message(0x0102_0304_0506_0708, 0xAABB);
    assert_eq!(b.len(), 86 + 15);
    assert_eq!(&b[12..20], &[8, 7, 6, 5, 4, 3, 2, 1]);
    assert_eq!(&b[72..80], &[0xBB, 0xAA, 0, 0, 0, 0, 0, 0]);
    assert_eq!(&b[0..4], &PROTOCOL_VERSION.to_le_bytes());
    assert_eq!(b[80], 15);
    assert_eq!(&b[81..96], b"/rust-node:0.1/");
}

#[test]
fn version_packet_frames_the_handshake() {
    let m = create_version_packet(1_700_000_000, 42);
    assert_eq!(&m[24..], &create_version_message(1_700_000_000, 42)[..]);
    assert_eq!(m.len(), 24 + 101);
    let (command, length) = parse_message_header(&m).unwrap();
    assert_eq!(command, "version");
    assert_eq!(length, 101);
    assert!(verify_checksum(&m[24..], &m[20..24]));
}
