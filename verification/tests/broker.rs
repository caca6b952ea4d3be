
use helic::config::{
    parse_size, parse_u64, split_duration, Config, ConfigError, DurationError, DurationUnit,
    SizeError, MIN_SEGMENT_SIZE,
};
use helic::history::{History, Packet, PacketError, StreamHeader, STREAM_HEADER_LEN};
use helic::frame::MsgType;
use helic::server::{
    char_parameter_request, char_parameter_text, decode_nul_ascii, find_parameter,
    fixed_identity, parameter_index, parse_parameter_page, parse_sources, parse_status,
    ConfigurationError, DeviceStatus, DiscoveryError, ParameterDefinition, StreamConfiguration,
    TextError,
};
use helic::storage::{clamp_nanos, sanitise, CloseReason};

// ---- stream configuration and discovery text ----

#[test]
fn stream_configuration_is_strict() {
    let payload = [4, 0, 0, 0, 0, 0, 2, 0, 12];
    let decoded = StreamConfiguration::decode(&payload).unwrap();
    assert_eq!(decoded.decimation, 4);
    assert_eq!(decoded.sources, vec![0, 12]);
    assert!(StreamConfiguration::decode(&payload[..8]).is_err());
}

#[test]
fn stream_configuration_errors_name_their_cause() {
    assert_eq!(
        StreamConfiguration::decode(&[1, 0, 0, 0, 0, 0]).unwrap_err(),
        ConfigurationError::TooShort
    );
    assert_eq!(
        StreamConfiguration::decode(&[0, 0, 0, 0, 0, 0, 1, 3]).unwrap_err(),
        ConfigurationError::InvalidValues
    );
    assert_eq!(
        StreamConfiguration::decode(&[1, 0, 0, 0, 0, 0, 0]).unwrap_err(),
        ConfigurationError::InvalidValues
    );
    let decoded = StreamConfiguration::decode(&[2, 1, 0x10, 0x27, 0, 0, 1, 5]).unwrap();
    assert_eq!(decoded.decimation, 0x0102);
    assert_eq!(decoded.count, 10_000);
    assert_eq!(decoded.sources, vec![5]);
}

#[test]
fn identities_are_fixed_width() {
    assert_eq!(&fixed_identity("cbc-rig")[..8], b"cbc-rig\0");
    assert_eq!(
        fixed_identity("0123456789abcdefghijkl"),
        *b"0123456789abcdef"
    );
}

#[test]
fn nul_terminated_text_is_decoded_and_checked() {
    let payload = b"ab\0cd\0xyz";
    assert_eq!(decode_nul_ascii(payload, 0), Ok(("ab".to_string(), 3)));
    assert_eq!(decode_nul_ascii(payload, 3), Ok(("cd".to_string(), 6)));
    assert_eq!(decode_nul_ascii(payload, 6), Err(TextError::Unterminated));
    assert_eq!(decode_nul_ascii(payload, 9), Err(TextError::Unterminated));
    assert_eq!(decode_nul_ascii(&[0xFF, 0xFE, 0], 0), Err(TextError::InvalidUtf8));
    assert_eq!(
        decode_nul_ascii("µA\0".as_bytes(), 0),
        Ok(("µA".to_string(), 4))
    );
}

#[test]
fn parameter_size_is_element_size_times_count() {
    let definition = |type_code: u8, count: u16| ParameterDefinition {
        index: 0,
        name: "p".to_string(),
        type_code,
        count,
    };
    assert_eq!(definition(b'B', 3).size(), 3);
    assert_eq!(definition(b'h', 3).size(), 6);
    assert_eq!(definition(b'f', 2).size(), 8);
    assert_eq!(definition(b'I', 1).size(), 4);
    assert_eq!(definition(b'x', 9).size(), 0);
}

// ---- configuration ----

#[test]
fn duration_and_size_parsers_are_explicit() {
    let (digits, unit) = split_duration("10s").unwrap();
    assert_eq!((&"10s"[..digits], unit.milliseconds()), ("10", 1000));
    let (digits, unit) = split_duration("250ms").unwrap();
    assert_eq!((&"250ms"[..digits], unit.milliseconds()), ("250", 1));
    assert!(split_duration("10").is_err());
    assert_eq!(parse_size("1GiB").unwrap(), 1 << 30);
    assert_eq!(parse_size("2MB").unwrap(), 2_000_000);
}

#[test]
fn duration_units_are_split_off_in_order() {
    assert_eq!(split_duration("10s"), Ok((2, DurationUnit::Seconds)));
    assert_eq!(split_duration("250ms"), Ok((3, DurationUnit::Milliseconds)));
    assert_eq!(split_duration("1.5m"), Ok((3, DurationUnit::Minutes)));
    assert_eq!(split_duration("2h"), Ok((1, DurationUnit::Hours)));
    assert_eq!(split_duration("10"), Err(DurationError::MissingUnit));
    assert_eq!(split_duration(""), Err(DurationError::MissingUnit));
}

#[test]
fn sizes_accept_every_unit_and_plain_bytes() {
    assert_eq!(parse_size("3MiB"), Ok(3 << 20));
    assert_eq!(parse_size("4KiB"), Ok(4096));
    assert_eq!(parse_size("5GB"), Ok(5_000_000_000));
    assert_eq!(parse_size("6KB"), Ok(6000));
    assert_eq!(parse_size("+7"), Ok(7));
    assert_eq!(parse_size("123"), Ok(123));
    assert_eq!(parse_size("xMiB"), Err(SizeError::InvalidNumber));
    assert_eq!(parse_size("MB"), Err(SizeError::InvalidNumber));
    assert_eq!(parse_size("20000000000GiB"), Err(SizeError::TooLarge));
    assert_eq!(parse_size("12 bytes"), Err(SizeError::Unrecognised));
    assert_eq!(parse_size(""), Err(SizeError::Unrecognised));
}

#[test]
fn unsigned_integers_parse_like_std() {
    assert_eq!(parse_u64(b"18446744073709551615"), Some(u64::MAX));
    assert_eq!(parse_u64(b"18446744073709551616"), None);
    assert_eq!(parse_u64(b"+0"), Some(0));
    assert_eq!(parse_u64(b"+"), None);
    assert_eq!(parse_u64(b"-1"), None);
    assert_eq!(parse_u64(b"007"), Some(7));
}

fn config(output_dir: Option<&str>) -> Config {
    Config {
        mcu_host: "device".to_string(),
        output_dir: output_dir.map(|d| d.to_string()),
        mcu_control_port: 2350,
        mcu_stream_port: 2351,
        mcu_discovery_port: 2352,
        control_port: 2350,
        stream_port: 2351,
        discovery_port: 2352,
        history: 10_000_000_000,
        segment_size: 1 << 30,
        request_timeout: 5_000_000_000,
        reconnect_delay: 1_000_000_000,
        log_level: "info".to_string(),
    }
}

#[test]
fn recording_notice_names_the_directory() {
    assert_eq!(
        config(None).recording_notice(),
        "Captures are not being saved."
    );
    assert_eq!(
        config(Some("/data/captures")).recording_notice(),
        "Captures are being saved to /data/captures."
    );
}

#[test]
fn settings_are_validated_in_order() {
    assert_eq!(config(None).validate_values(), Ok(()));
    let mut c = config(None);
    c.history = 0;
    c.segment_size = 0;
    assert_eq!(c.validate_values(), Err(ConfigError::HistoryNotPositive));
    c.history = 1;
    assert_eq!(c.validate_values(), Err(ConfigError::SegmentTooSmall));
    c.segment_size = MIN_SEGMENT_SIZE;
    c.reconnect_delay = 0;
    assert_eq!(c.validate_values(), Err(ConfigError::TimeoutNotPositive));
}

// ---- packet history ----

fn packet(seq: u32, first: u32, records: u16) -> Packet {
    let header = StreamHeader {
        n_sources: 2,
        seq,
        first_index: first,
        dropped: 0,
        decimation: 2,
        n_records: records,
    };
    let mut wire = vec![0; STREAM_HEADER_LEN + records as usize * 8];
    header.encode(&mut wire);
    for (index, value) in wire[STREAM_HEADER_LEN..].iter_mut().enumerate() {
        *value = index as u8;
    }
    Packet::decode(&wire, 0).unwrap()
}

fn wire(header: StreamHeader, records: &[u8]) -> Vec<u8> {
    let mut wire = vec![0; STREAM_HEADER_LEN];
    header.encode(&mut wire);
    wire.extend_from_slice(records);
    wire
}

#[test]
fn history_is_bounded_by_whole_packets() {
    let mut history = History::default();
    history.reset(5);
    history.push(packet(0, 0, 3));
    history.push(packet(1, 6, 3));
    assert_eq!(history.records(), 3);
}

#[test]
fn recent_trims_only_the_oldest_packet() {
    let mut history = History::default();
    history.reset(20);
    history.push(packet(4, 100, 4));
    history.push(packet(5, 108, 3));
    let replay = history.recent(5).unwrap();
    assert_eq!(replay.len(), 2);
    let first = replay[0].header();
    assert_eq!((first.seq, first.first_index, first.n_records), (4, 104, 2));
    assert_eq!(
        replay
            .iter()
            .map(|p| p.header().n_records as usize)
            .sum::<usize>(),
        5
    );
    assert!(history.recent(8).is_none());
}

#[test]
fn trimmed_packet_keeps_the_newest_records() {
    let mut history = History::new();
    history.reset(20);
    history.push(packet(4, 100, 4));
    let replay = history.recent(1).unwrap();
    assert_eq!(replay.len(), 1);
    assert_eq!(replay[0].records(), &(24u8..32).collect::<Vec<u8>>()[..]);
    assert_eq!(replay[0].header().first_index, 106);
    assert!(history.recent(0).is_none());
}

#[test]
fn packets_must_match_their_header() {
    let header = StreamHeader {
        n_sources: 1,
        seq: 0,
        first_index: 0,
        dropped: 0,
        decimation: 1,
        n_records: 2,
    };
    assert_eq!(
        Packet::decode(&wire(header, &[0; 7]), 0).unwrap_err(),
        PacketError::BadLength
    );
    let empty = StreamHeader {
        n_records: 0,
        ..header
    };
    assert_eq!(
        Packet::decode(&wire(empty, &[]), 0).unwrap_err(),
        PacketError::Empty
    );
    assert_eq!(
        Packet::decode(&wire(header, &[1; 8])[..16], 0).unwrap_err(),
        PacketError::ShortHeader
    );
    let p = Packet::decode(&wire(header, &[1; 8]), -5).unwrap();
    assert_eq!(p.header(), header);
    assert_eq!(p.received_utc_ns(), -5);
    assert_eq!(p.duplicate().records(), &[1; 8]);
}

#[test]
fn clear_and_reset_empty_the_history() {
    let mut history = History::new();
    history.reset(0);
    history.push(packet(0, 0, 3));
    history.push(packet(1, 3, 2));
    assert_eq!(history.records(), 2);
    history.clear();
    assert_eq!(history.records(), 0);
    assert!(history.recent(1).is_none());
}

// ---- recording bookkeeping ----

#[test]
fn names_are_sanitised_for_files() {
    assert_eq!(sanitise("rig 1/α"), "rig_1__");
    assert_eq!(sanitise("cbc-rig_2"), "cbc-rig_2");
    assert_eq!(sanitise(""), "device");
}

#[test]
fn close_reasons_have_fixed_codes() {
    assert_eq!(CloseReason::SegmentLimit.code(), 1);
    assert_eq!(CloseReason::StartRejected.code(), 7);
    assert!(CloseReason::StreamStop.completes_session());
    assert!(CloseReason::CountComplete.completes_session());
    assert!(CloseReason::BrokerShutdown.completes_session());
    assert!(!CloseReason::UpstreamLost.completes_session());
    assert!(!CloseReason::SegmentLimit.completes_session());
}

#[test]
fn timestamps_clamp_to_i64() {
    assert_eq!(clamp_nanos(i128::MAX), i64::MAX);
    assert_eq!(clamp_nanos(i128::MIN), i64::MIN);
    assert_eq!(clamp_nanos(-42), -42);
}

// ---- device discovery ----

#[test]
fn status_replies_are_checked() {
    let status = MsgType::Status.code();
    let mut payload = vec![3, 0x11, 0x00, 0x0d, 0x00, 0x00, 0xfa, 0x45, 0, 0, 0, 0];
    assert_eq!(
        parse_status(status, &payload),
        Ok(DeviceStatus {
            parameter_count: 0x11,
            source_count: 0x0d,
            sample_rate_bits: 8000.0f32.to_bits(),
        })
    );
    assert_eq!(
        parse_status(MsgType::GetPar.code(), &payload),
        Err(DiscoveryError::InvalidStatus)
    );
    assert_eq!(
        parse_status(status, &payload[..11]),
        Err(DiscoveryError::InvalidStatus)
    );
    payload[0] = 2;
    assert_eq!(
        parse_status(status, &payload),
        Err(DiscoveryError::VersionMismatch(2))
    );
}

fn page(start: u16, next: u16, entries: &[(&str, u8, u16)]) -> Vec<u8> {
    let mut payload = Vec::new();
    payload.extend_from_slice(&start.to_le_bytes());
    payload.extend_from_slice(&next.to_le_bytes());
    for (name, type_code, count) in entries {
        payload.extend_from_slice(name.as_bytes());
        payload.push(0);
        payload.push(*type_code);
        payload.extend_from_slice(&count.to_le_bytes());
        payload.push(1);
    }
    payload
}

#[test]
fn parameter_pages_are_read_and_checked() {
    let get_params = MsgType::GetParams.code();
    let payload = page(2, 4, &[("freq", b'f', 1), ("experiment", b'c', 16)]);
    let (definitions, next) = parse_parameter_page(get_params, &payload, 2, 10).unwrap();
    assert_eq!(next, 4);
    assert_eq!(definitions.len(), 2);
    assert_eq!(
        (definitions[0].index, definitions[0].name.as_str(), definitions[0].count),
        (2, "freq", 1)
    );
    assert_eq!(
        (definitions[1].index, definitions[1].name.as_str(), definitions[1].type_code),
        (3, "experiment", b'c')
    );
    assert_eq!(
        parse_parameter_page(get_params, &payload[..3], 2, 10).unwrap_err(),
        DiscoveryError::InvalidPageResponse
    );
    assert_eq!(
        parse_parameter_page(MsgType::Status.code(), &payload, 2, 10).unwrap_err(),
        DiscoveryError::InvalidPageResponse
    );
    assert_eq!(
        parse_parameter_page(get_params, &payload, 1, 10).unwrap_err(),
        DiscoveryError::InvalidPageRange
    );
    assert_eq!(
        parse_parameter_page(get_params, &payload, 2, 3).unwrap_err(),
        DiscoveryError::InvalidPageRange
    );
    assert_eq!(
        parse_parameter_page(get_params, &page(2, 2, &[]), 2, 10).unwrap_err(),
        DiscoveryError::InvalidPageRange
    );
    assert_eq!(
        parse_parameter_page(get_params, &page(2, 3, &[]), 2, 10).unwrap_err(),
        DiscoveryError::PageCountMismatch
    );
    assert_eq!(
        parse_parameter_page(get_params, &page(0, 1, &[("x", b'q', 1)]), 0, 1).unwrap_err(),
        DiscoveryError::UnknownTypeCode
    );
    assert_eq!(
        parse_parameter_page(get_params, &page(0, 1, &[("x", b'B', 0)]), 0, 1).unwrap_err(),
        DiscoveryError::UnknownTypeCode
    );
    let mut truncated = page(0, 1, &[("x", b'B', 1)]);
    truncated.pop();
    assert_eq!(
        parse_parameter_page(get_params, &truncated, 0, 1).unwrap_err(),
        DiscoveryError::TruncatedDefinition
    );
    let unterminated = [0, 0, 1, 0, b'a', b'b'];
    assert_eq!(
        parse_parameter_page(get_params, &unterminated, 0, 1).unwrap_err(),
        DiscoveryError::UnterminatedName
    );
    let invalid = [0, 0, 1, 0, 0xFF, 0, b'B', 1, 0, 0];
    assert_eq!(
        parse_parameter_page(get_params, &invalid, 0, 1).unwrap_err(),
        DiscoveryError::InvalidName
    );
}

#[test]
fn source_lists_are_read_and_counted() {
    let get_sources = MsgType::GetSources.code();
    let payload = b"adc0\0V\0out\0mm\0";
    let sources = parse_sources(get_sources, payload, 2).unwrap();
    assert_eq!(sources.len(), 2);
    assert_eq!((sources[1].name.as_str(), sources[1].unit.as_str()), ("out", "mm"));
    assert_eq!(
        parse_sources(get_sources, payload, 3).unwrap_err(),
        DiscoveryError::SourceCountMismatch
    );
    assert_eq!(
        parse_sources(MsgType::Status.code(), payload, 2).unwrap_err(),
        DiscoveryError::InvalidSourcesResponse
    );
    assert_eq!(
        parse_sources(get_sources, b"adc0\0V", 1).unwrap_err(),
        DiscoveryError::SourceText(TextError::Unterminated)
    );
    assert_eq!(parse_sources(get_sources, b"", 0).unwrap().len(), 0);
}

fn definition(index: u16, name: &str, type_code: u8, count: u16) -> ParameterDefinition {
    ParameterDefinition {
        index,
        name: name.to_string(),
        type_code,
        count,
    }
}

#[test]
fn text_parameters_are_found_and_read() {
    let parameters = vec![
        definition(0, "firmware", b'c', 16),
        definition(1, "arm", b'B', 1),
        definition(2, "experiment", b'c', 8),
        definition(3, "arm", b'c', 4),
    ];
    assert_eq!(find_parameter(&parameters, "arm"), Some(1));
    assert_eq!(find_parameter(&parameters, "nope"), None);
    assert_eq!(parameter_index(&parameters, "experiment"), Some(2));
    assert_eq!(parameter_index(&parameters, "missing"), None);
    assert_eq!(char_parameter_request(&parameters, "experiment"), Ok((2, 8)));
    assert_eq!(
        char_parameter_request(&parameters, "arm"),
        Err(DiscoveryError::NotCharArray)
    );
    assert_eq!(
        char_parameter_request(&parameters, "missing"),
        Err(DiscoveryError::MissingParameter)
    );
    let get_par = MsgType::GetPar.code();
    assert_eq!(
        char_parameter_text(get_par, b"cbc-rig\0", 8).unwrap(),
        "cbc-rig"
    );
    assert_eq!(char_parameter_text(get_par, b"abcdefgh", 8).unwrap(), "abcdefgh");
    assert_eq!(
        char_parameter_text(get_par, b"abc", 8).unwrap_err(),
        DiscoveryError::InvalidCharResponse
    );
    assert_eq!(
        char_parameter_text(MsgType::Status.code(), b"cbc-rig\0", 8).unwrap_err(),
        DiscoveryError::InvalidCharResponse
    );
    assert_eq!(
        char_parameter_text(get_par, &[0xFF, 0, 0, 0], 4).unwrap_err(),
        DiscoveryError::InvalidCharText
    );
}

#[test]
fn stream_header_is_read_little_endian_at_fixed_offsets() {
    let header = StreamHeader {
        n_sources: 3,
        seq: 0x0403_0201,
        first_index: 0x0807_0605,
        dropped: 9,
        decimation: 0x0201,
        n_records: 5,
    };
    let mut wire = vec![0xEE; STREAM_HEADER_LEN + 2];
    header.encode(&mut wire);
    assert_eq!(
        wire,
        vec![3, 1, 2, 3, 4, 5, 6, 7, 8, 9, 0, 0, 0, 1, 2, 5, 0, 0xEE, 0xEE]
    );
    assert_eq!(StreamHeader::decode(&wire), Some(header));
    assert_eq!(StreamHeader::decode(&wire[..STREAM_HEADER_LEN - 1]), None);
}
