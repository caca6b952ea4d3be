use helic::laser::{
    after_search, after_setup, baud_search_next, baud_search_start, setup_next, setup_start,
    BaudAction, BaudSearch, CommandOutcome, LaserEvent, LaserReceiver, ProbeCommand, ReplyTrace,
    SetupAction, SetupCommand, Startup, REQUIRED_BAUD, SYNC_FRAMES,
};
use helic::optoncdt::{CommandReply, DistanceClass};

fn encode(value: u32, first: bool) -> [u8; 3] {
    let h_flags = if first { 0b10 } else { 0b11 };
    [
        (value & 0x3F) as u8,
        0b0100_0000 | ((value >> 6) & 0x3F) as u8,
        (h_flags << 6) | ((value >> 12) & 0x3F) as u8,
    ]
}

fn feed(receiver: &mut LaserReceiver, value: u32, first: bool) -> LaserEvent {
    let bytes = encode(value, first);
    assert_eq!(receiver.push(bytes[0]), LaserEvent::Nothing);
    assert_eq!(receiver.push(bytes[1]), LaserEvent::Nothing);
    receiver.push(bytes[2])
}

#[test]
fn stream_synchronises_after_a_run_of_clean_distances() {
    let mut receiver = LaserReceiver::new();
    assert_eq!(
        feed(&mut receiver, 1000, true),
        LaserEvent::Distance {
            raw: 1000,
            class: DistanceClass::InRange(1000),
            first_seen: true
        }
    );
    for _ in 1..SYNC_FRAMES - 1 {
        feed(&mut receiver, 1000, true);
    }
    assert!(!receiver.synchronised());
    assert_eq!(receiver.counts().frames_received, 0);
    assert_eq!(
        feed(&mut receiver, 2000, true),
        LaserEvent::Distance {
            raw: 2000,
            class: DistanceClass::InRange(2000),
            first_seen: false
        }
    );
    assert!(receiver.synchronised());
    assert_eq!(receiver.counts().frames_received, 1);
}

#[test]
fn faults_before_synchronisation_restart_the_run() {
    let mut receiver = LaserReceiver::new();
    for _ in 0..SYNC_FRAMES - 1 {
        feed(&mut receiver, 1000, true);
    }
    assert_eq!(receiver.push(0b1000_0000), LaserEvent::Nothing);
    assert_eq!(receiver.counts().sync_errors, 1);
    feed(&mut receiver, 1000, true);
    assert!(!receiver.synchronised());
    feed(&mut receiver, 1000, false);
    receiver.receive_error();
    assert_eq!(receiver.counts().sync_errors, 3);
    for _ in 0..SYNC_FRAMES {
        feed(&mut receiver, 1000, true);
    }
    assert!(receiver.synchronised());
    assert_eq!(receiver.counts().uart_errors, 0);
}

#[test]
fn faults_after_synchronisation_are_counted_by_kind() {
    let mut receiver = LaserReceiver::new();
    for _ in 0..SYNC_FRAMES {
        feed(&mut receiver, 1000, true);
    }
    receiver.push(0b1100_0000);
    feed(&mut receiver, 5, false);
    receiver.receive_error();
    assert_eq!(
        feed(&mut receiver, 0, true),
        LaserEvent::Distance {
            raw: 0,
            class: DistanceClass::BelowRange,
            first_seen: false
        }
    );
    feed(&mut receiver, 65535, true);
    let counts = receiver.counts();
    assert_eq!(counts.parse_errors, 1);
    assert_eq!(counts.unexpected_values, 1);
    assert_eq!(counts.uart_errors, 1);
    assert_eq!(counts.invalid_frames, 2);
    assert_eq!(counts.frames_received, 3);
    assert_eq!(counts.sync_errors, 0);
    assert!(receiver.synchronised());
}

#[test]
fn reply_trace_keeps_the_last_four_bytes() {
    let mut trace = ReplyTrace::default();
    for byte in b"OK\r\n->" {
        trace.push(*byte);
    }
    assert_eq!(trace.bytes_received, 6);
    assert_eq!(&trace.trailing, b"\r\n->");
}

#[test]
fn baud_search_stops_the_stream_then_probes_each_rate() {
    let (mut state, action) = baud_search_start();
    assert_eq!(
        action,
        BaudAction::Send {
            baud: REQUIRED_BAUD,
            command: ProbeCommand::OutputNone
        }
    );
    for _ in 0..2 {
        let (next, action) = baud_search_next(state, CommandOutcome::NoReply);
        assert_eq!(
            action,
            BaudAction::Send {
                baud: REQUIRED_BAUD,
                command: ProbeCommand::OutputNone
            }
        );
        state = next;
    }
    let (next, action) = baud_search_next(state, CommandOutcome::WriteFailed);
    assert_eq!(next, BaudSearch::Probing(0));
    assert_eq!(
        action,
        BaudAction::Send {
            baud: 921_600,
            command: ProbeCommand::GetUserLevel
        }
    );
    let (next, _) = baud_search_next(next, CommandOutcome::NoReply);
    let (next, _) = baud_search_next(next, CommandOutcome::NoReply);
    let (next, action) = baud_search_next(next, CommandOutcome::NoReply);
    assert_eq!(
        action,
        BaudAction::Send {
            baud: 460_800,
            command: ProbeCommand::GetUserLevel
        }
    );
    let (done, action) =
        baud_search_next(next, CommandOutcome::Replied(CommandReply::Error(202)));
    assert_eq!(done, BaudSearch::Done);
    assert_eq!(action, BaudAction::Found(460_800));
}

#[test]
fn a_reply_to_the_stop_command_ends_the_search() {
    let (state, _) = baud_search_start();
    assert_eq!(
        baud_search_next(state, CommandOutcome::Replied(CommandReply::Accepted)),
        (BaudSearch::Done, BaudAction::Found(REQUIRED_BAUD))
    );
}

#[test]
fn an_unanswered_search_finds_nothing() {
    let mut state = BaudSearch::Probing(10);
    let (next, action) = baud_search_next(state, CommandOutcome::NoReply);
    assert_eq!(action, BaudAction::NotFound);
    state = next;
    assert_eq!(state, BaudSearch::Done);
}

#[test]
fn configuration_sends_each_command_in_order() {
    let (mut step, action) = setup_start();
    assert_eq!(
        action,
        SetupAction::Send {
            command: SetupCommand::OutputNone,
            drain_first: false
        }
    );
    let expected = [
        (SetupCommand::MeasRate, true),
        (SetupCommand::NoOutputReduction, false),
        (SetupCommand::DistanceOnly, false),
        (SetupCommand::OutputRs422, false),
    ];
    for (command, drain_first) in expected {
        let (next, action) = setup_next(step, CommandOutcome::Replied(CommandReply::Accepted));
        assert_eq!(
            action,
            SetupAction::Send {
                command,
                drain_first
            }
        );
        step = next;
    }
    let (_, action) = setup_next(step, CommandOutcome::Replied(CommandReply::Accepted));
    assert_eq!(action, SetupAction::Finished(true));
}

#[test]
fn a_rejected_command_ends_configuration() {
    assert_eq!(
        setup_next(2, CommandOutcome::Replied(CommandReply::Error(7))).1,
        SetupAction::Finished(false)
    );
    assert_eq!(
        setup_next(0, CommandOutcome::WriteFailed).1,
        SetupAction::Finished(false)
    );
    assert_eq!(
        setup_next(4, CommandOutcome::NoReply).1,
        SetupAction::Finished(false)
    );
}

#[test]
fn startup_retries_until_the_sensor_is_configured() {
    assert_eq!(after_search(None), Startup::RetryAfterMs(2000));
    assert_eq!(after_search(Some(115_200)), Startup::RetryAfterMs(2000));
    assert_eq!(after_search(Some(REQUIRED_BAUD)), Startup::Configure);
    assert_eq!(after_setup(false), Startup::RetryAfterMs(250));
    assert_eq!(after_setup(true), Startup::Run);
}
