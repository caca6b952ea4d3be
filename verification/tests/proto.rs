use helic::beacon::{BeaconError, BeaconResponse, REQUEST, RESPONSE_LEN};
use helic::broker::{
    BrokerInfo, BrokerPayloadError, CAPABILITIES, EXTENSION_VERSION, INFO_HEADER_LEN, MAX_SOURCES,
    STATE_CONFIGURED, STATE_RUNNING, STATE_UPSTREAM_CONNECTED,
};
use helic::crc16;
use helic::frame::{decode, encode, FrameError, MsgType, HEADER_LEN, MAX_FRAME, MAX_PAYLOAD};
use helic::payload::{
    decode_commit, decode_param_page, decode_param_page_request, decode_set_block,
    encode_param, encode_param_page, encode_source, PayloadError,
};
use helic::ParamType;

#[test]
fn known_answer_vectors() {
    assert_eq!(crc16(b"123456789"), 0x29B1);
    assert_eq!(crc16(b""), 0xFFFF);
    assert_eq!(crc16(&[0x00]), 0xE1F0);
    assert_eq!(crc16(&[0x0A, 0x01, 0x00, 0x00]), 0xDB5B);
}

#[test]
fn round_trip() {
    let mut buf = [0u8; MAX_FRAME];
    let n = encode(&mut buf, MsgType::GetPar.code(), 7, &[1, 0, 2, 0]).unwrap();
    let (ty, seq, payload) = decode(&buf[..n]).unwrap();
    assert_eq!(ty, MsgType::GetPar.code());
    assert_eq!(seq, 7);
    assert_eq!(payload, &[1, 0, 2, 0]);
}

#[test]
fn known_answer_frame() {
    let mut buf = [0u8; 16];
    let n = encode(&mut buf, MsgType::Status.code(), 1, &[]).unwrap();
    assert_eq!(&buf[..n], &[0x48, 0x4C, 0x0A, 0x01, 0x00, 0x00, 0x5B, 0xDB]);
}

#[test]
fn known_answer_discovery_requests() {
    let mut buf = [0u8; 16];
    let n = encode(&mut buf, MsgType::GetParams.code(), 1, &[]).unwrap();
    assert_eq!(&buf[..n], &[0x48, 0x4c, 0x01, 0x01, 0x00, 0x00, 0x44, 0xc5]);
    let n = encode(&mut buf, MsgType::GetSources.code(), 1, &[]).unwrap();
    assert_eq!(&buf[..n], &[0x48, 0x4c, 0x02, 0x01, 0x00, 0x00, 0x98, 0x5e]);
}

#[test]
fn known_answer_v2_frames() {
    let mut buf = [0u8; 32];
    let block = [0x0c, 0x00, 0x04, 0x03, 0x02, 0x01, 0xaa, 0xbb];
    let n = encode(&mut buf, MsgType::SetBlock.code(), 2, &block).unwrap();
    assert_eq!(
        &buf[..n],
        &[
            0x48, 0x4c, 0x05, 0x02, 0x08, 0x00, 0x0c, 0x00, 0x04, 0x03, 0x02, 0x01, 0xaa, 0xbb,
            0x39, 0xa7
        ]
    );
    let n = encode(&mut buf, MsgType::Commit.code(), 3, &block[..6]).unwrap();
    assert_eq!(
        &buf[..n],
        &[0x48, 0x4c, 0x06, 0x03, 0x06, 0x00, 0x0c, 0x00, 0x04, 0x03, 0x02, 0x01, 0x08, 0xd1]
    );
    let status = [
        0x02, 0x11, 0x00, 0x0d, 0x00, 0x00, 0xfa, 0x45, 0x10, 0xa4, 0x00, 0x00,
    ];
    let n = encode(&mut buf, MsgType::Status.code(), 1, &status).unwrap();
    assert_eq!(
        &buf[..n],
        &[
            0x48, 0x4c, 0x0a, 0x01, 0x0c, 0x00, 0x02, 0x11, 0x00, 0x0d, 0x00, 0x00, 0xfa, 0x45,
            0x10, 0xa4, 0x00, 0x00, 0x03, 0x09
        ]
    );
}

#[test]
fn corrupt_crc_is_rejected() {
    let mut buf = [0u8; MAX_FRAME];
    let n = encode(&mut buf, 3, 0, &[42]).unwrap();
    buf[HEADER_LEN] ^= 0xFF;
    assert_eq!(decode(&buf[..n]), Err(FrameError::BadCrc));
}

#[test]
fn bad_magic_is_rejected() {
    let mut buf = [0u8; MAX_FRAME];
    let n = encode(&mut buf, 3, 0, &[]).unwrap();
    buf[0] = 0;
    assert_eq!(decode(&buf[..n]), Err(FrameError::BadMagic));
}

#[test]
fn wrong_length_is_rejected() {
    let mut buf = [0u8; MAX_FRAME];
    let n = encode(&mut buf, 3, 0, &[1, 2, 3]).unwrap();
    assert_eq!(decode(&buf[..n - 1]), Err(FrameError::Truncated));
}

#[test]
fn oversize_payload_is_rejected() {
    let mut buf = [0u8; 2 * MAX_FRAME];
    let payload = [0u8; MAX_PAYLOAD + 1];
    assert_eq!(encode(&mut buf, 3, 0, &payload), Err(FrameError::TooLong));
}

#[test]
fn short_buffer_is_reported_and_left_untouched() {
    let mut buf = [0xAAu8; 9];
    assert_eq!(encode(&mut buf, 3, 0, &[1, 2]), Err(FrameError::Truncated));
    assert_eq!(buf, [0xAA; 9]);
    let n = encode(&mut buf, 3, 0, &[1]).unwrap();
    assert_eq!(n, 9);
}

#[test]
fn too_long_length_field_is_rejected() {
    let frame = [0x48, 0x4C, 0x03, 0x00, 0x01, 0x04, 0x00, 0x00];
    assert_eq!(decode(&frame), Err(FrameError::TooLong));
    assert_eq!(decode(&frame[..7]), Err(FrameError::Truncated));
}

#[test]
fn message_types_round_trip_through_codes() {
    for code in 0..=255u8 {
        match MsgType::from_u8(code) {
            Some(t) => assert_eq!(t.code(), code),
            None => assert!(!(1..=10).contains(&code) && code != 0xFF),
        }
    }
    assert_eq!(MsgType::from_u8(0xFF), Some(MsgType::Error));
    assert_eq!(MsgType::from_u8(0), None);
}

#[test]
fn request_is_known_answer() {
    assert_eq!(REQUEST, [0x48, 0x4c, 0x01]);
}

#[test]
fn response_round_trips_and_truncates_strings() {
    let response = BeaconResponse::new(
        [0x02, 0x48, 0x4c, 0, 0, 1],
        "whirl-rig",
        "helic-daq 0.1.0 abc123",
    );
    let mut encoded = [0; RESPONSE_LEN];
    response.encode(&mut encoded);
    assert_eq!(BeaconResponse::decode(&encoded), Ok(response));
    assert_eq!(&encoded[..6], &[0x48, 0x4c, 0x02, 0x03, 0x2e, 0x09]);
    assert_eq!(&response.firmware, b"helic-daq 0.1.0 ");
}

#[test]
fn response_matches_shared_known_answer() {
    let response = BeaconResponse::new([0x02, 0x48, 0x4c, 0, 0, 1], "cbc-rig", "helic-daq sim");
    let mut encoded = [0; RESPONSE_LEN];
    response.encode(&mut encoded);
    assert_eq!(
        encoded,
        [
            0x48, 0x4c, 0x02, 0x03, 0x2e, 0x09, 0x02, 0x48, 0x4c, 0x00, 0x00, 0x01, 0x63, 0x62,
            0x63, 0x2d, 0x72, 0x69, 0x67, 0x00, 0x00, 0x00, 0x00, 0x00, 0x00, 0x00, 0x00, 0x00,
            0x68, 0x65, 0x6c, 0x69, 0x63, 0x2d, 0x64, 0x61, 0x71, 0x20, 0x73, 0x69, 0x6d, 0x00,
            0x00, 0x00,
        ]
    );
}

#[test]
fn malformed_responses_are_rejected() {
    assert_eq!(BeaconResponse::decode(&[]), Err(BeaconError::BadLength));
    let mut encoded = [0; RESPONSE_LEN];
    BeaconResponse::new([0; 6], "cbc-rig", "test").encode(&mut encoded);
    encoded[0] = 0;
    assert_eq!(BeaconResponse::decode(&encoded), Err(BeaconError::BadMagic));
}

#[test]
fn beacon_kind_is_checked() {
    let mut encoded = [0; RESPONSE_LEN];
    BeaconResponse::new([0; 6], "a", "b").encode(&mut encoded);
    encoded[2] = 0x01;
    assert_eq!(BeaconResponse::decode(&encoded), Err(BeaconError::BadKind));
}

#[test]
fn broker_info_round_trips() {
    let mut info = BrokerInfo {
        state: STATE_UPSTREAM_CONNECTED | STATE_CONFIGURED | STATE_RUNNING,
        capabilities: CAPABILITIES,
        history_capacity_ms: 10_000,
        history_available_records: 42,
        decimation: 4,
        count: 0,
        connected_clients: 2,
        n_sources: 3,
        sources: [0; MAX_SOURCES],
    };
    info.sources[..3].copy_from_slice(&[0, 8, 12]);
    let mut encoded = [0; INFO_HEADER_LEN + MAX_SOURCES];
    let n = info.encode(&mut encoded).unwrap();
    assert_eq!(n, INFO_HEADER_LEN + 3);
    assert_eq!(BrokerInfo::decode(&encoded[..n]), Ok(info));
}

#[test]
fn broker_info_rejects_wrong_versions_and_lengths() {
    assert_eq!(BrokerInfo::decode(&[]), Err(BrokerPayloadError::BadLength));
    let mut payload = [0; INFO_HEADER_LEN];
    payload[0] = EXTENSION_VERSION + 1;
    assert_eq!(
        BrokerInfo::decode(&payload),
        Err(BrokerPayloadError::BadLength)
    );
    payload[0] = EXTENSION_VERSION;
    payload[20] = 1;
    assert_eq!(
        BrokerInfo::decode(&payload),
        Err(BrokerPayloadError::BadLength)
    );
}

#[test]
fn broker_info_encode_rejects_short_buffers_and_too_many_sources() {
    let mut info = BrokerInfo {
        state: 0,
        capabilities: 0,
        history_capacity_ms: 0x0403_0201,
        history_available_records: 0,
        decimation: 0x0201,
        count: 0,
        connected_clients: 0,
        n_sources: 2,
        sources: [0; MAX_SOURCES],
    };
    let mut short = [0u8; INFO_HEADER_LEN + 1];
    assert_eq!(info.encode(&mut short), Err(BrokerPayloadError::BadLength));
    info.n_sources = MAX_SOURCES as u8 + 1;
    let mut big = [0u8; 64];
    assert_eq!(info.encode(&mut big), Err(BrokerPayloadError::BadLength));
    info.n_sources = 0;
    let n = info.encode(&mut big).unwrap();
    assert_eq!(n, INFO_HEADER_LEN);
    assert_eq!(&big[4..8], &[0x01, 0x02, 0x03, 0x04]);
    assert_eq!(&big[12..14], &[0x01, 0x02]);
}

#[test]
fn known_answer_discovery_entries() {
    let mut buf = [0u8; 32];
    let n = encode_param(&mut buf, "freq", ParamType::F32, 1, true).unwrap();
    assert_eq!(&buf[..n], b"freq\0f\x01\x00\x01");
    let n = encode_source(&mut buf, "adc0", "V").unwrap();
    assert_eq!(&buf[..n], b"adc0\0V\0");
}

#[test]
fn parameter_pages_preserve_complete_entries_and_indices() {
    let definitions = [
        ("a", ParamType::F32, 1, false),
        ("long_name", ParamType::U32, 1, true),
        ("tail", ParamType::U16, 4, false),
    ];
    let mut first = [0u8; 18];
    let n = encode_param_page(&mut first, 0, definitions.len() as u16, &definitions).unwrap();
    let (start, next, entries) = decode_param_page(&first[..n]).unwrap();
    assert_eq!((start, next), (0, 1));
    assert_eq!(entries, b"a\0f\x01\x00\x00");

    let mut second = [0u8; 64];
    let n = encode_param_page(&mut second, next, definitions.len() as u16, &definitions).unwrap();
    let (start, next, entries) = decode_param_page(&second[..n]).unwrap();
    assert_eq!((start, next), (1, 3));
    assert_eq!(entries, b"long_name\0I\x01\x00\x01tail\0H\x04\x00\x00");
}

#[test]
fn parameter_page_validation_rejects_bad_ranges_and_no_progress() {
    let mut buf = [0u8; 8];
    assert_eq!(
        decode_param_page_request(&[]),
        Err(PayloadError::InvalidLength)
    );
    assert_eq!(
        encode_param_page(&mut buf, 2, 1, &[]),
        Err(PayloadError::InvalidIndex)
    );
    assert_eq!(
        encode_param_page(&mut buf[..4], 0, 1, &[("a", ParamType::F32, 1, false)]),
        Err(PayloadError::TooLong)
    );
    assert_eq!(
        decode_param_page(&[2, 0, 1, 0]),
        Err(PayloadError::InvalidIndex)
    );
}

#[test]
fn parameter_page_reports_missing_and_invalid_definitions() {
    let mut buf = [0u8; 64];
    assert_eq!(
        encode_param_page(&mut buf, 0, 2, &[("a", ParamType::U8, 1, false)]),
        Err(PayloadError::InvalidIndex)
    );
    assert_eq!(
        encode_param_page(&mut buf, 0, 1, &[("µ", ParamType::U8, 1, false)]),
        Err(PayloadError::InvalidText)
    );
    let n = encode_param_page(&mut buf, 1, 1, &[]).unwrap();
    assert_eq!(&buf[..n], &[1, 0, 1, 0]);
    assert_eq!(decode_param_page_request(&[0x34, 0x12]), Ok(0x1234));
}

#[test]
fn discovery_text_limits_are_enforced() {
    let mut buf = [0u8; 32];
    assert!(encode_param(&mut buf, "laser_frames_received", ParamType::U32, 1, false).is_ok());
    assert_eq!(
        encode_param(
            &mut buf,
            "twenty_four_byte_name_xx",
            ParamType::F32,
            1,
            true
        ),
        Err(PayloadError::InvalidText)
    );
    assert_eq!(
        encode_source(&mut buf, "adc0", "abcdefgh"),
        Err(PayloadError::InvalidText)
    );
    assert_eq!(
        encode_source(&mut buf, "µm", "mm"),
        Err(PayloadError::InvalidText)
    );
}

#[test]
fn discovery_entries_report_short_buffers() {
    let mut buf = [0u8; 8];
    assert_eq!(
        encode_param(&mut buf, "freq", ParamType::F32, 1, true),
        Err(PayloadError::TooLong)
    );
    assert_eq!(encode_source(&mut buf, "adc0", "VVV"), Err(PayloadError::TooLong));
    assert_eq!(encode_source(&mut buf, "adc0", "VV"), Ok(8));
    assert_eq!(&buf, b"adc0\0VV\0");
    let mut exact = [0u8; 9];
    assert_eq!(encode_param(&mut exact, "freq", ParamType::I16, 0x0102, false), Ok(9));
    assert_eq!(&exact, b"freq\0h\x02\x01\x00");
}

#[test]
fn known_answer_block_payloads() {
    let payload = [0x0c, 0x00, 0x04, 0x03, 0x02, 0x01, 0xaa, 0xbb];
    assert_eq!(
        decode_set_block(&payload),
        Ok((12, 0x0102_0304, &[0xaa, 0xbb][..]))
    );
    assert_eq!(decode_commit(&payload[..6]), Ok((12, 0x0102_0304)));
}

#[test]
fn block_payload_lengths_are_checked() {
    assert_eq!(decode_set_block(&[0; 5]), Err(PayloadError::Truncated));
    assert_eq!(decode_commit(&[0; 7]), Err(PayloadError::Truncated));
    assert_eq!(decode_set_block(&[1, 0, 0, 0, 0, 0]), Ok((1, 0, &[][..])));
}

#[test]
fn param_type_codes_and_sizes() {
    let expected = [
        (ParamType::U8, b'B', 1),
        (ParamType::I8, b'b', 1),
        (ParamType::Char, b'c', 1),
        (ParamType::U16, b'H', 2),
        (ParamType::I16, b'h', 2),
        (ParamType::U32, b'I', 4),
        (ParamType::I32, b'i', 4),
        (ParamType::F32, b'f', 4),
    ];
    for (ty, code, size) in expected {
        assert_eq!(ty.code(), code);
        assert_eq!(ty.size(), size);
    }
}
