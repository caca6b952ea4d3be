use helic::frame::MAX_PAYLOAD;
use helic::registry::{
    handle_request, param_set_decision, ParamCommand, ParamTable, Reply, RequestContext,
    StreamSettings,
};
use helic::{ErrorCode, ParamType};

fn context() -> RequestContext {
    RequestContext {
        remote: Some(0x0A00_0002),
        source_count: 8,
        sample_rate_bits: 8000.0f32.to_bits(),
        uptime_ms: 1234,
        freq_in_range: true,
        queue_full: false,
    }
}

fn table() -> ParamTable {
    ParamTable::new(vec!["kp", "ki"])
}

#[test]
fn registry_lists_platform_then_controller_parameters() {
    let params = table();
    assert_eq!(params.count(), 16);
    let firmware = params.def(0).unwrap();
    assert_eq!((firmware.name, firmware.ty, firmware.count, firmware.writable), ("firmware", ParamType::Char, 16, false));
    let target = params.def(11).unwrap();
    assert_eq!((target.name, target.ty, target.count, target.writable), ("target_coeffs", ParamType::F32, 33, true));
    let ki = params.def(15).unwrap();
    assert_eq!((ki.name, ki.ty, ki.count, ki.writable), ("ki", ParamType::F32, 1, true));
    assert!(params.def(16).is_none());
    assert_eq!(params.value(11).len(), 132);
}

#[test]
fn writes_are_decided_in_the_firmware_order() {
    let params = table();
    assert_eq!(param_set_decision(&params, 16, &[0; 4], true, false), Err(ErrorCode::BadIndex));
    assert_eq!(param_set_decision(&params, 2, &[0; 4], true, false), Err(ErrorCode::ReadOnly));
    assert_eq!(param_set_decision(&params, 10, &[0; 3], true, false), Err(ErrorCode::BadLength));
    assert_eq!(param_set_decision(&params, 10, &[0; 4], false, false), Err(ErrorCode::BadValue));
    assert_eq!(param_set_decision(&params, 10, &[0; 4], true, true), Err(ErrorCode::Busy));
    assert_eq!(param_set_decision(&params, 10, &[0; 4], true, false), Ok(ParamCommand::Frequency));
    assert_eq!(param_set_decision(&params, 12, &[0; 132], true, false), Ok(ParamCommand::ForcingCoeffs));
    assert_eq!(param_set_decision(&params, 13, &[0; 4], true, true), Ok(ParamCommand::Unchanged));
    assert_eq!(param_set_decision(&params, 13, &[1, 0, 0, 0], true, false), Ok(ParamCommand::ResetController));
    assert_eq!(param_set_decision(&params, 15, &[0; 4], true, false), Ok(ParamCommand::ControllerParam(1)));
}

#[test]
fn names_and_info_describe_every_entry() {
    let mut params = table();
    let mut stream = StreamSettings::new();
    let mut resp = [0u8; MAX_PAYLOAD];
    let reply = handle_request(1, &[], &mut params, &mut stream, context(), &mut resp).unwrap();
    assert!(resp[..reply.len].starts_with(b"firmware\0sample_freq\0ticks\0"));
    assert!(resp[..reply.len].ends_with(b"ctrl_reset\0kp\0ki\0"));
    let reply = handle_request(2, &[], &mut params, &mut stream, context(), &mut resp).unwrap();
    assert_eq!(reply, Reply { len: 64, command: None });
    assert_eq!(&resp[..4], &[0x63, 16, 0, 0]);
    assert_eq!(&resp[40..48], &[0x66, 1, 0, 1, 0x66, 33, 0, 1]);
}

#[test]
fn written_values_are_read_back() {
    let mut params = table();
    let mut stream = StreamSettings::new();
    let mut resp = [0u8; MAX_PAYLOAD];
    let mut write = vec![10, 0];
    write.extend_from_slice(&125.5f32.to_le_bytes());
    let reply = handle_request(4, &write, &mut params, &mut stream, context(), &mut resp).unwrap();
    assert_eq!(reply, Reply { len: 0, command: Some(ParamCommand::Frequency) });
    let reply = handle_request(3, &[10, 0, 2, 0], &mut params, &mut stream, context(), &mut resp).unwrap();
    assert_eq!(reply.len, 8);
    assert_eq!(&resp[..4], &125.5f32.to_le_bytes());
    assert_eq!(&resp[4..8], &[0; 4]);
    assert_eq!(handle_request(3, &[10, 0, 2], &mut params, &mut stream, context(), &mut resp), Err(ErrorCode::BadLength));
    assert_eq!(handle_request(3, &[40, 0], &mut params, &mut stream, context(), &mut resp), Err(ErrorCode::BadIndex));
    assert_eq!(handle_request(4, &[2, 0, 0, 0, 0, 0], &mut params, &mut stream, context(), &mut resp), Err(ErrorCode::ReadOnly));
    assert_eq!(handle_request(4, &[13, 0, 0, 0, 0, 0], &mut params, &mut stream, context(), &mut resp), Ok(Reply { len: 0, command: None }));
}

#[test]
fn stream_requests_are_validated() {
    let mut params = table();
    let mut stream = StreamSettings::new();
    let mut resp = [0u8; MAX_PAYLOAD];
    assert_eq!(handle_request(8, &[0x39, 0x30], &mut params, &mut stream, context(), &mut resp), Err(ErrorCode::BadValue));
    assert_eq!(handle_request(7, &[4, 0, 0, 0, 0], &mut params, &mut stream, context(), &mut resp), Err(ErrorCode::BadLength));
    assert_eq!(handle_request(7, &[0, 0, 0, 0, 0, 0, 1, 0], &mut params, &mut stream, context(), &mut resp), Err(ErrorCode::BadValue));
    assert_eq!(handle_request(7, &[4, 0, 0, 0, 0, 0, 1, 8], &mut params, &mut stream, context(), &mut resp), Err(ErrorCode::BadValue));
    let setup = [4, 0, 100, 0, 0, 0, 2, 3, 1];
    assert!(handle_request(7, &setup, &mut params, &mut stream, context(), &mut resp).is_ok());
    assert_eq!((stream.decimation, stream.count, stream.sources.clone()), (4, 100, vec![3, 1]));
    let mut unknown_peer = context();
    unknown_peer.remote = None;
    assert_eq!(handle_request(8, &[0x39, 0x30], &mut params, &mut stream, unknown_peer, &mut resp), Err(ErrorCode::BadValue));
    assert!(handle_request(8, &[0x39, 0x30], &mut params, &mut stream, context(), &mut resp).is_ok());
    assert_eq!((stream.target, stream.enabled, stream.generation), (Some((0x0A00_0002, 12345)), true, 1));
    assert!(handle_request(9, &[], &mut params, &mut stream, context(), &mut resp).is_ok());
    assert!(!stream.enabled);
}

#[test]
fn status_and_unknown_types() {
    let mut params = table();
    let mut stream = StreamSettings::new();
    let mut resp = [0u8; MAX_PAYLOAD];
    let reply = handle_request(10, &[], &mut params, &mut stream, context(), &mut resp).unwrap();
    assert_eq!(reply.len, 11);
    let mut expected = vec![3, 16, 0];
    expected.extend_from_slice(&8000.0f32.to_le_bytes());
    expected.extend_from_slice(&1234u32.to_le_bytes());
    assert_eq!(&resp[..11], &expected[..]);
    for ty in [5u8, 6, 0xFF, 0, 42] {
        assert_eq!(handle_request(ty, &[], &mut params, &mut stream, context(), &mut resp), Err(ErrorCode::UnknownType));
    }
}

#[test]
fn readings_are_served_as_refreshed() {
    let mut params = table();
    let mut stream = StreamSettings::new();
    let mut resp = [0u8; MAX_PAYLOAD];
    params.refresh_readings("helic 0.3", 8000.0f32.to_bits(), [1, 2, 3, 4, 5, 6, 7], 2.5f32.to_bits());
    let reply = handle_request(3, &[0, 0, 1, 0, 8, 0, 9, 0], &mut params, &mut stream, context(), &mut resp).unwrap();
    assert_eq!(reply.len, 28);
    assert_eq!(&resp[..16], b"helic 0.3\0\0\0\0\0\0\0");
    assert_eq!(&resp[16..20], &8000.0f32.to_le_bytes());
    assert_eq!(&resp[20..24], &7u32.to_le_bytes());
    assert_eq!(&resp[24..28], &2.5f32.to_le_bytes());
    let untouched = [0xA5u8; MAX_PAYLOAD];
    let mut resp = untouched;
    assert_eq!(handle_request(3, &[], &mut params, &mut stream, context(), &mut resp), Err(ErrorCode::BadLength));
    assert_eq!(handle_request(5, &[], &mut params, &mut stream, context(), &mut resp), Err(ErrorCode::UnknownType));
    assert_eq!(resp, untouched);
}

#[test]
fn error_codes_have_their_wire_values() {
    assert_eq!(ErrorCode::UnknownType.code(), 2);
    assert_eq!(ErrorCode::BadLength.code(), 6);
}
