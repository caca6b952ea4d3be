use helic::broker::{
    BrokerError, STATE_CLIENT_ATTACHED, STATE_CLIENT_QUIET, STATE_CONFIGURED, STATE_RUNNING,
    STATE_TABLE_TRANSACTION, STATE_UPSTREAM_CONNECTED,
};
use helic::frame::MsgType;
use helic::history::{Packet, StreamHeader, STREAM_HEADER_LEN};
use helic::server::StreamConfiguration;
use helic::session::{
    classify_request, expect_empty, ClientState, Endpoint, PacketRoute, Refusal, RequestError,
    RequestKind, SharedState, StartDecision, MAX_HISTORY_RECORDS, TABLE_TRANSACTION_TIMEOUT_MS,
};
use helic::ErrorCode;

const PEER: u32 = 0x7F00_0001;

fn refused(code: ErrorCode) -> RequestError {
    RequestError::Refused(Refusal::Protocol(code))
}

fn refused_by_broker(code: BrokerError) -> RequestError {
    RequestError::Refused(Refusal::Broker(code))
}

fn configuration(count: u32) -> StreamConfiguration {
    let mut payload = vec![2, 0];
    payload.extend_from_slice(&count.to_le_bytes());
    payload.extend_from_slice(&[2, 0, 3]);
    StreamConfiguration::decode(&payload).unwrap()
}

fn packet(seq: u32, records: u16) -> Packet {
    let header = StreamHeader {
        n_sources: 2,
        seq,
        first_index: seq * 100,
        dropped: 0,
        decimation: 2,
        n_records: records,
    };
    let mut wire = vec![seq as u8; STREAM_HEADER_LEN + records as usize * 8];
    header.encode(&mut wire);
    Packet::decode(&wire, 0).unwrap()
}

/// A running stream with client 1 attached live on port 5000.
fn running(count: u32) -> SharedState {
    let mut state = SharedState::new();
    state.register_client(1);
    state.configure(configuration(count));
    let decision = state
        .start_request(1, PEER, &5000u16.to_le_bytes(), false, Some(4))
        .unwrap();
    let target = match decision {
        StartDecision::Begin(target) => target,
        StartDecision::Attached => panic!("stream was not running"),
    };
    state.begin_stream(1, target, false, 100).unwrap();
    state
}

#[test]
fn requests_are_routed_by_type() {
    assert_eq!(classify_request(0x80), RequestKind::BrokerInfo);
    assert_eq!(classify_request(0x81), RequestKind::QuietStreamStart);
    assert_eq!(classify_request(0x82), RequestKind::GetRecent);
    assert_eq!(classify_request(0x83), RequestKind::SetClientQuiet);
    assert_eq!(
        classify_request(MsgType::StreamSetup.code()),
        RequestKind::StreamSetup
    );
    assert_eq!(
        classify_request(MsgType::StreamStart.code()),
        RequestKind::StreamStart
    );
    assert_eq!(
        classify_request(MsgType::StreamStop.code()),
        RequestKind::StreamStop
    );
    assert_eq!(classify_request(MsgType::SetBlock.code()), RequestKind::Table);
    assert_eq!(classify_request(MsgType::Commit.code()), RequestKind::Table);
    assert_eq!(classify_request(MsgType::GetPar.code()), RequestKind::Forward);
    assert_eq!(expect_empty(&[]), Ok(()));
    assert_eq!(expect_empty(&[0]), Err(refused(ErrorCode::BadLength)));
}

#[test]
fn broker_info_reports_session_and_client_state() {
    let mut state = SharedState::new();
    state.register_client(1);
    state.register_client(2);
    let info = state.broker_info(1, true, 10_000, 0);
    assert_eq!(info.state, STATE_UPSTREAM_CONNECTED);
    assert_eq!((info.decimation, info.count, info.n_sources), (1, 0, 0));
    assert_eq!(info.connected_clients, 2);
    assert_eq!(info.history_capacity_ms, 10_000);

    let mut state = running(0);
    state.register_client(2);
    state.set_quiet(1, &[1]).unwrap();
    state.begin_table_request(2, 0).unwrap();
    state.finish_table_request(2, MsgType::SetBlock.code(), MsgType::SetBlock.code(), false, 0);
    let info = state.broker_info(1, false, u128::MAX, 10);
    assert_eq!(
        info.state,
        STATE_CONFIGURED
            | STATE_RUNNING
            | STATE_CLIENT_ATTACHED
            | STATE_CLIENT_QUIET
            | STATE_TABLE_TRANSACTION
    );
    assert_eq!(info.history_capacity_ms, u32::MAX);
    assert_eq!((info.decimation, info.n_sources), (2, 2));
    assert_eq!(&info.sources[..3], &[0, 3, 0]);
    let later = state.broker_info(2, false, 0, 10 + TABLE_TRANSACTION_TIMEOUT_MS);
    assert_eq!(later.state, STATE_CONFIGURED | STATE_RUNNING);
}

#[test]
fn stream_setup_is_refused_while_running_or_invalid() {
    let state = SharedState::new();
    assert_eq!(
        state.check_setup(&[0, 0, 0, 0, 0, 0, 1, 0]).unwrap_err(),
        refused(ErrorCode::BadValue)
    );
    let accepted = state.check_setup(&[4, 0, 9, 0, 0, 0, 1, 7]).unwrap();
    assert_eq!((accepted.decimation, accepted.count), (4, 9));
    assert_eq!(accepted.sources, vec![7]);
    let state = running(0);
    assert_eq!(
        state.check_setup(&[4, 0, 9, 0, 0, 0, 1, 7]).unwrap_err(),
        refused(ErrorCode::Busy)
    );
}

#[test]
fn stream_start_checks_port_configuration_and_sources() {
    let mut state = SharedState::new();
    state.register_client(1);
    assert_eq!(
        state.start_request(1, PEER, &[1], false, Some(4)),
        Err(refused(ErrorCode::BadLength))
    );
    assert_eq!(
        state.start_request(1, PEER, &[0, 0], false, Some(4)),
        Err(refused(ErrorCode::BadValue))
    );
    assert_eq!(
        state.start_request(1, PEER, &[1, 0], false, Some(4)),
        Err(refused(ErrorCode::BadValue))
    );
    state.configure(configuration(0));
    assert_eq!(
        state.start_request(1, PEER, &[1, 0], false, None),
        Err(RequestError::NoDeviceMetadata)
    );
    assert_eq!(
        state.start_request(1, PEER, &[1, 0], false, Some(3)),
        Err(refused(ErrorCode::BadValue))
    );
    assert_eq!(
        state.start_request(1, PEER, &[1, 0], true, Some(4)),
        Ok(StartDecision::Begin(Endpoint { ip: PEER, port: 1 }))
    );
    assert!(!state.running());
}

#[test]
fn clients_join_a_running_stream_and_receive_live_packets() {
    let mut state = running(0);
    state.register_client(2);
    state.register_client(3);
    assert_eq!(
        state.start_request(2, PEER, &6000u16.to_le_bytes(), false, None),
        Ok(StartDecision::Attached)
    );
    assert_eq!(
        state.start_request(3, PEER, &7000u16.to_le_bytes(), true, None),
        Ok(StartDecision::Attached)
    );
    assert_eq!(
        state.start_request(9, PEER, &7000u16.to_le_bytes(), true, None),
        Err(RequestError::UnknownClient)
    );
    let p = packet(1, 3);
    assert_eq!(state.packet_route(p.header()), PacketRoute::Accept);
    let (mut targets, complete) = state.record_packet(p);
    targets.sort_by_key(|e| e.port);
    assert_eq!(
        targets,
        vec![
            Endpoint { ip: PEER, port: 5000 },
            Endpoint { ip: PEER, port: 6000 }
        ]
    );
    assert!(!complete);
}

#[test]
fn packets_outside_a_running_session_are_ignored_and_layout_is_checked() {
    let mut state = SharedState::new();
    assert_eq!(state.packet_route(packet(0, 1).header()), PacketRoute::Ignore);
    state.configure(configuration(0));
    assert_eq!(state.packet_route(packet(0, 1).header()), PacketRoute::Ignore);
    let state = running(0);
    let mut header = packet(0, 1).header();
    header.n_sources = 3;
    assert_eq!(state.packet_route(header), PacketRoute::LayoutChanged);
    header.n_sources = 2;
    header.decimation = 1;
    assert_eq!(state.packet_route(header), PacketRoute::LayoutChanged);
}

#[test]
fn configured_count_completes_the_stream() {
    let mut state = running(5);
    let (_, complete) = state.record_packet(packet(0, 3));
    assert!(!complete);
    let (_, complete) = state.record_packet(packet(1, 3));
    assert!(complete);
    assert!(state.complete_stream());
    assert!(!state.running());
    assert!(!state.complete_stream());
    let (targets, _) = state.record_packet(packet(2, 1));
    assert!(targets.is_empty());
}

#[test]
fn replays_are_served_only_to_quiet_attached_clients() {
    let mut state = running(0);
    state.register_client(2);
    state.record_packet(packet(1, 4));
    state.record_packet(packet(2, 3));
    assert_eq!(
        state.get_recent(1, &[5, 0, 0]).unwrap_err(),
        refused(ErrorCode::BadLength)
    );
    assert_eq!(
        state.get_recent(1, &[0, 0, 0, 0]).unwrap_err(),
        refused(ErrorCode::BadValue)
    );
    assert_eq!(
        state.get_recent(2, &[5, 0, 0, 0]).unwrap_err(),
        refused_by_broker(BrokerError::NotAttached)
    );
    assert_eq!(
        state.get_recent(1, &[5, 0, 0, 0]).unwrap_err(),
        refused_by_broker(BrokerError::NotQuiet)
    );
    assert_eq!(
        state.get_recent(7, &[5, 0, 0, 0]).unwrap_err(),
        RequestError::UnknownClient
    );
    assert_eq!(state.set_quiet(2, &[1]), Err(refused_by_broker(BrokerError::NotAttached)));
    assert_eq!(state.set_quiet(1, &[2]), Err(refused(ErrorCode::BadValue)));
    assert_eq!(state.set_quiet(1, &[]), Err(refused(ErrorCode::BadLength)));
    assert_eq!(state.set_quiet(7, &[1]), Err(RequestError::UnknownClient));
    state.set_quiet(1, &[1]).unwrap();
    assert_eq!(
        state.get_recent(1, &[8, 0, 0, 0]).unwrap_err(),
        refused_by_broker(BrokerError::InsufficientHistory)
    );
    let (requested, endpoint, packets) = state.get_recent(1, &[5, 0, 0, 0]).unwrap();
    assert_eq!(requested, 5);
    assert_eq!(endpoint, Endpoint { ip: PEER, port: 5000 });
    assert_eq!(packets.len(), 2);
    assert_eq!(packets[0].header().n_records, 2);
    let (targets, _) = state.record_packet(packet(3, 1));
    assert!(targets.is_empty());
    state.stop_stream();
    assert_eq!(
        state.get_recent(1, &[1, 0, 0, 0]).unwrap_err(),
        refused_by_broker(BrokerError::NoActiveStream)
    );
}

#[test]
fn stopping_detaches_every_client() {
    let mut state = running(0);
    state.record_packet(packet(1, 2));
    assert!(state.stop_stream());
    assert!(!state.running());
    assert_eq!(state.broker_info(1, true, 0, 0).history_available_records, 0);
    assert_eq!(state.broker_info(1, true, 0, 0).state & STATE_CLIENT_ATTACHED, 0);
    assert!(!state.stop_stream());
}

#[test]
fn a_refused_start_leaves_no_stream_running() {
    let mut state = running(0);
    state.record_packet(packet(1, 2));
    state.abort_stream();
    assert!(!state.running());
    assert_eq!(state.broker_info(1, true, 0, 0).state, STATE_UPSTREAM_CONNECTED | STATE_CONFIGURED);
}

#[test]
fn losing_the_device_resets_the_session() {
    let mut state = running(0);
    state.begin_table_request(1, 0).unwrap();
    state.finish_table_request(1, MsgType::SetBlock.code(), MsgType::SetBlock.code(), false, 0);
    assert!(state.upstream_lost());
    let info = state.broker_info(1, false, 0, 0);
    assert_eq!(info.state, 0);
    assert_eq!(info.connected_clients, 1);
    assert_eq!(state.packet_route(packet(0, 1).header()), PacketRoute::Ignore);
    assert!(!state.upstream_lost());
}

#[test]
fn table_uploads_belong_to_one_client_until_committed_or_idle() {
    let mut state = SharedState::new();
    state.register_client(1);
    state.register_client(2);
    let block = MsgType::SetBlock.code();
    let commit = MsgType::Commit.code();
    assert_eq!(state.begin_table_request(1, 1000), Ok(()));
    state.finish_table_request(1, block, block, false, 1000);
    assert_eq!(state.begin_table_request(2, 5999), Err(refused(ErrorCode::Busy)));
    assert_eq!(state.begin_table_request(1, 5999), Ok(()));
    state.finish_table_request(1, commit, 0xFF, true, 5999);
    assert_eq!(state.begin_table_request(2, 10_998), Err(refused(ErrorCode::Busy)));
    state.finish_table_request(1, commit, commit, false, 10_998);
    assert_eq!(state.begin_table_request(2, 10_998), Ok(()));
    state.finish_table_request(2, block, block, false, 11_000);
    assert_eq!(state.begin_table_request(1, 16_000), Ok(()));
    state.finish_table_request(1, block, 0xFF, false, 16_000);
    assert_eq!(state.begin_table_request(2, 16_000), Ok(()));
}

#[test]
fn a_departing_client_releases_its_upload() {
    let mut state = SharedState::new();
    state.register_client(1);
    state.register_client(2);
    let block = MsgType::SetBlock.code();
    state.finish_table_request(1, block, block, false, 0);
    assert!(!state.unregister_client(1));
    assert_eq!(state.begin_table_request(2, 1), Ok(()));
    assert!(state.unregister_client(2));
}

#[test]
fn history_capacity_is_at_least_one_record() {
    let mut state = SharedState::new();
    state.register_client(1);
    state.configure(configuration(0));
    let target = Endpoint { ip: PEER, port: 9 };
    state.begin_stream(1, target, true, 0).unwrap();
    state.record_packet(packet(1, 3));
    state.record_packet(packet(2, 2));
    assert_eq!(state.broker_info(1, true, 0, 0).history_available_records, 2);
    assert_eq!(state.begin_stream(5, target, true, usize::MAX), Err(RequestError::UnknownClient));
    assert!(state.running());
    assert!(MAX_HISTORY_RECORDS < usize::MAX);
}

#[test]
fn idle_clients_have_no_endpoint() {
    assert_eq!(
        ClientState::default(),
        ClientState {
            endpoint: None,
            quiet: false
        }
    );
}
