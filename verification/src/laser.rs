//! The optoNCDT receive task: its diagnostics, the synchronisation of the
//! binary measurement stream, and what each received byte publishes.

use std::sync::atomic::AtomicU32;

use vstd::prelude::*;

use crate::optoncdt::{
    classify_distance, distance_class, CommandReply, spec_push_event, DistanceClass, ParseEvent, Parser,
    RawValue,
};

verus! {

/// Bytes seen while waiting for a command reply, and the last four of them.
#[derive(Debug, Default)]
pub struct ReplyTrace {
    pub bytes_received: u32,
    pub trailing: [u8; 4],
}

impl ReplyTrace {
    /// Count one received byte (saturating) and shift it into the trailing
    /// window.
    pub fn push(&mut self, byte: u8)
        ensures
            final(self).bytes_received == if old(self).bytes_received == u32::MAX {
                u32::MAX as int
            } else {
                old(self).bytes_received + 1
            },
            final(self).trailing@ == old(self).trailing@.drop_first().push(byte),
    {
        self.bytes_received = self.bytes_received.saturating_add(1);
        let t = self.trailing;
        self.trailing = [t[1], t[2], t[3], byte];
        assert(self.trailing@ =~= old(self).trailing@.drop_first().push(byte));
    }
}

/// Monotonic diagnostics for one optoNCDT receive task.
#[derive(Clone, Copy)]
pub struct LaserCounters {
    pub frames_received: &'static AtomicU32,
    pub uart_errors: &'static AtomicU32,
    pub parse_errors: &'static AtomicU32,
    pub invalid_frames: &'static AtomicU32,
    pub unexpected_values: &'static AtomicU32,
    pub sync_errors: &'static AtomicU32,
}

impl LaserCounters {
    pub fn new(
        frames_received: &'static AtomicU32,
        uart_errors: &'static AtomicU32,
        parse_errors: &'static AtomicU32,
        invalid_frames: &'static AtomicU32,
        unexpected_values: &'static AtomicU32,
        sync_errors: &'static AtomicU32,
    ) -> (c: Self)
        ensures
            c.frames_received == frames_received,
            c.uart_errors == uart_errors,
            c.parse_errors == parse_errors,
            c.invalid_frames == invalid_frames,
            c.unexpected_values == unexpected_values,
            c.sync_errors == sync_errors,
    {
        LaserCounters {
            frames_received,
            uart_errors,
            parse_errors,
            invalid_frames,
            unexpected_values,
            sync_errors,
        }
    }
}

/// Counts one receive task publishes; each wraps at 2^32 like the atomic
/// counter it feeds.
#[derive(Clone, Copy, Debug, PartialEq, Eq, Structural)]
pub struct LaserCounts {
    /// Distance values received once synchronised.
    pub frames_received: u32,
    /// Receive errors once synchronised.
    pub uart_errors: u32,
    /// Out-of-sequence bytes once synchronised.
    pub parse_errors: u32,
    /// Distances outside the measuring range, or sensor errors, once
    /// synchronised.
    pub invalid_frames: u32,
    /// Values other than the first of a block, once synchronised.
    pub unexpected_values: u32,
    /// Any fault while synchronising.
    pub sync_errors: u32,
}

/// Distance values in a row that synchronise the stream.
pub const SYNC_FRAMES: u8 = 8;

/// What the receive task does with a byte.
#[derive(Clone, Copy, Debug, PartialEq, Eq, Structural)]
pub enum LaserEvent {
    /// Nothing to publish.
    Nothing,
    /// A distance value arrived, with its classification; `first_seen` marks
    /// the first distance since start, which is reported once.
    Distance { raw: u32, class: DistanceClass, first_seen: bool },
}

/// State of the receive task.
#[derive(Clone, Copy, Debug, PartialEq, Eq, Structural)]
pub struct LaserView {
    pub acc: u32,
    pub stage: u8,
    pub synchronised: bool,
    pub clean_frames: u8,
    pub first_distance_seen: bool,
    pub counts: LaserCounts,
}

pub open spec fn bump(n: u32) -> u32 {
    ((n + 1) % 4294967296) as u32
}

/// A fault: counted as `synchronised_count` once synchronised; before that
/// it is a synchronisation error and the run of clean frames restarts.
pub open spec fn after_fault(v: LaserView, synchronised_count: spec_fn(LaserCounts) -> LaserCounts) -> LaserView {
    if v.synchronised {
        LaserView { counts: synchronised_count(v.counts), ..v }
    } else {
        LaserView {
            clean_frames: 0,
            counts: LaserCounts { sync_errors: bump(v.counts.sync_errors), ..v.counts },
            ..v
        }
    }
}

/// The state and event after a distance value `value` (the first of a
/// block) arrives.
pub open spec fn after_distance(v: LaserView, value: RawValue) -> (LaserView, LaserEvent) {
    let clean = if v.synchronised || v.clean_frames == 255 {
        v.clean_frames
    } else {
        (v.clean_frames + 1) as u8
    };
    let synchronised = v.synchronised || clean == SYNC_FRAMES;
    let class = distance_class(value.value);
    let frames = if synchronised {
        bump(v.counts.frames_received)
    } else {
        v.counts.frames_received
    };
    let invalid = if synchronised && !(class is InRange) {
        bump(v.counts.invalid_frames)
    } else {
        v.counts.invalid_frames
    };
    (
        LaserView {
            synchronised,
            clean_frames: clean,
            first_distance_seen: true,
            counts: LaserCounts { frames_received: frames, invalid_frames: invalid, ..v.counts },
            ..v
        },
        LaserEvent::Distance { raw: value.value, class, first_seen: !v.first_distance_seen },
    )
}

/// The state and event after byte `byte`.
pub open spec fn laser_step(v: LaserView, byte: u8) -> (LaserView, LaserEvent) {
    let (acc, stage, e) = spec_push_event(v.acc, v.stage, byte);
    let w = LaserView { acc, stage, ..v };
    match e {
        ParseEvent::Pending => (w, LaserEvent::Nothing),
        ParseEvent::Resynchronised => (
            after_fault(
                w,
                |c: LaserCounts| LaserCounts { parse_errors: bump(c.parse_errors), ..c },
            ),
            LaserEvent::Nothing,
        ),
        ParseEvent::Value(value) => if !value.first {
            (
                after_fault(
                    w,
                    |c: LaserCounts| LaserCounts { unexpected_values: bump(c.unexpected_values), ..c },
                ),
                LaserEvent::Nothing,
            )
        } else {
            after_distance(w, value)
        },
    }
}

/// The state after a receive error: counted, and the parser restarts.
pub open spec fn laser_receive_error(v: LaserView) -> LaserView {
    let w = after_fault(v, |c: LaserCounts| LaserCounts { uart_errors: bump(c.uart_errors), ..c });
    LaserView { acc: 0, stage: 0, ..w }
}

/// Receive task of an optoNCDT sensor: parses the binary measurement
/// stream, synchronises on a run of clean distance values, counts faults
/// and reports each distance.
#[derive(Debug)]
pub struct LaserReceiver {
    parser: Parser,
    synchronised: bool,
    clean_frames: u8,
    first_distance_seen: bool,
    counts: LaserCounts,
}

impl View for LaserReceiver {
    type V = LaserView;

    closed spec fn view(&self) -> LaserView {
        LaserView {
            acc: self.parser.spec_acc(),
            stage: self.parser.spec_stage(),
            synchronised: self.synchronised,
            clean_frames: self.clean_frames,
            first_distance_seen: self.first_distance_seen,
            counts: self.counts,
        }
    }
}

fn bump_count(n: u32) -> (m: u32)
    ensures
        m == bump(n),
{
    n.wrapping_add(1)
}

impl LaserReceiver {
    /// Not synchronised, nothing seen, every count zero.
    pub fn new() -> (r: Self)
        ensures
            r@ == initial_laser(),
            r@ == (LaserView {
                acc: 0,
                stage: 0,
                synchronised: false,
                clean_frames: 0,
                first_distance_seen: false,
                counts: LaserCounts {
                    frames_received: 0,
                    uart_errors: 0,
                    parse_errors: 0,
                    invalid_frames: 0,
                    unexpected_values: 0,
                    sync_errors: 0,
                },
            }),
    {
        LaserReceiver {
            parser: Parser::new(),
            synchronised: false,
            clean_frames: 0,
            first_distance_seen: false,
            counts: LaserCounts {
                frames_received: 0,
                uart_errors: 0,
                parse_errors: 0,
                invalid_frames: 0,
                unexpected_values: 0,
                sync_errors: 0,
            },
        }
    }

    /// The counts so far.
    pub fn counts(&self) -> (c: LaserCounts)
        ensures
            c == self@.counts,
    {
        self.counts
    }

    /// Whether the stream is synchronised.
    pub fn synchronised(&self) -> (s: bool)
        ensures
            s == self@.synchronised,
    {
        self.synchronised
    }

    /// Count a fault as `kind` once synchronised, or as a synchronisation
    /// error before.
    fn fault(&mut self, kind: u8)
        requires
            kind <= 3,
        ensures
            final(self).parser == old(self).parser,
            final(self).first_distance_seen == old(self).first_distance_seen,
            final(self).synchronised == old(self).synchronised,
            old(self).synchronised ==> final(self).clean_frames == old(self).clean_frames
                && final(self).counts == (if kind == 0 {
                LaserCounts { uart_errors: bump(old(self).counts.uart_errors), ..old(self).counts }
            } else if kind == 1 {
                LaserCounts { parse_errors: bump(old(self).counts.parse_errors), ..old(self).counts }
            } else {
                LaserCounts {
                    unexpected_values: bump(old(self).counts.unexpected_values),
                    ..old(self).counts
                }
            }),
            !old(self).synchronised ==> final(self).clean_frames == 0 && final(self).counts == (
            LaserCounts { sync_errors: bump(old(self).counts.sync_errors), ..old(self).counts }),
    {
        if self.synchronised {
            if kind == 0 {
                self.counts.uart_errors = bump_count(self.counts.uart_errors);
            } else if kind == 1 {
                self.counts.parse_errors = bump_count(self.counts.parse_errors);
            } else {
                self.counts.unexpected_values = bump_count(self.counts.unexpected_values);
            }
        } else {
            self.counts.sync_errors = bump_count(self.counts.sync_errors);
            self.clean_frames = 0;
        }
    }

    /// A receive error: counted, and parsing restarts.
    pub fn receive_error(&mut self)
        ensures
            final(self)@ == laser_receive_error(old(self)@),
    {
        self.fault(0);
        self.parser = Parser::new();
    }

    /// Feed one received byte.
    pub fn push(&mut self, byte: u8) -> (e: LaserEvent)
        ensures
            (final(self)@, e) == laser_step(old(self)@, byte),
    {
        match self.parser.push_event(byte) {
            ParseEvent::Pending => LaserEvent::Nothing,
            ParseEvent::Resynchronised => {
                self.fault(1);
                LaserEvent::Nothing
            },
            ParseEvent::Value(value) => {
                if !value.first {
                    self.fault(2);
                    return LaserEvent::Nothing;
                }
                if !self.synchronised {
                    if self.clean_frames < 255 {
                        self.clean_frames = self.clean_frames + 1;
                    }
                    if self.clean_frames == SYNC_FRAMES {
                        self.synchronised = true;
                    }
                }
                if self.synchronised {
                    self.counts.frames_received = bump_count(self.counts.frames_received);
                }
                let class = classify_distance(value.value);
                match class {
                    DistanceClass::InRange(_) => {},
                    _ => {
                        if self.synchronised {
                            self.counts.invalid_frames = bump_count(self.counts.invalid_frames);
                        }
                    },
                }
                let first_seen = !self.first_distance_seen;
                self.first_distance_seen = true;
                LaserEvent::Distance { raw: value.value, class, first_seen }
            },
        }
    }
}

/// Once synchronised, the stream stays synchronised: no byte and no
/// receive error undoes it.
pub proof fn lemma_synchronisation_is_kept(v: LaserView, byte: u8)
    requires
        v.synchronised,
    ensures
        laser_step(v, byte).0.synchronised,
        laser_receive_error(v).synchronised,
        laser_step(v, byte).0.counts.sync_errors == v.counts.sync_errors,
{
}

/// Before synchronisation every fault restarts the run of clean frames and
/// no distance is counted as received.
pub proof fn lemma_faults_restart_synchronisation(v: LaserView, byte: u8)
    requires
        !v.synchronised,
    ensures
        laser_receive_error(v).clean_frames == 0,
        laser_step(v, byte).1 == LaserEvent::Nothing ==> laser_step(v, byte).0.counts.frames_received
            == v.counts.frames_received,
        !laser_step(v, byte).0.synchronised ==> laser_step(v, byte).0.counts.frames_received
            == v.counts.frames_received,
{
}

/// `SYNC_FRAMES` clean distance values synchronise the stream: a run of
/// `SYNC_FRAMES - 1` followed by one more distance value.
pub proof fn lemma_run_of_clean_frames_synchronises(v: LaserView, value: RawValue)
    requires
        !v.synchronised,
        v.clean_frames == SYNC_FRAMES - 1,
        value.first,
    ensures
        after_distance(v, value).0.synchronised,
        after_distance(v, value).0.counts.frames_received == bump(v.counts.frames_received),
{
}

/// What the receive task is handed: a received byte or a receive error.
#[derive(Clone, Copy, Debug, PartialEq, Eq, Structural)]
pub enum LaserInput {
    Byte(u8),
    ReceiveError,
}

/// State of a new receive task: not synchronised, nothing seen, every count
/// zero.
pub open spec fn initial_laser() -> LaserView {
    LaserView {
        acc: 0,
        stage: 0,
        synchronised: false,
        clean_frames: 0,
        first_distance_seen: false,
        counts: LaserCounts {
            frames_received: 0,
            uart_errors: 0,
            parse_errors: 0,
            invalid_frames: 0,
            unexpected_values: 0,
            sync_errors: 0,
        },
    }
}

/// State and last event of a new receive task after the inputs `h`, each
/// byte handed to `push` and each error to `receive_error`.
pub open spec fn laser_run(h: Seq<LaserInput>) -> (LaserView, LaserEvent)
    decreases h.len(),
{
    if h.len() == 0 {
        (initial_laser(), LaserEvent::Nothing)
    } else {
        let v = laser_run(h.drop_last()).0;
        match h.last() {
            LaserInput::Byte(b) => laser_step(v, b),
            LaserInput::ReceiveError => (laser_receive_error(v), LaserEvent::Nothing),
        }
    }
}

/// The receive task over a whole input stream: until it synchronises it
/// counts nothing but synchronisation errors and has fewer than
/// `SYNC_FRAMES` clean distances in a row; the input that synchronises it
/// is the `SYNC_FRAMES`-th clean distance in a row and is the first frame
/// counted as received; and a distance is only ever reported for a decoded
/// first value of a block, classified by its low 16 bits.
pub proof fn lemma_laser_run(h: Seq<LaserInput>)
    ensures
        ({
            let v = laser_run(h).0;
            !v.synchronised ==> {
                &&& v.clean_frames < SYNC_FRAMES
                &&& v.counts.frames_received == 0
                &&& v.counts.uart_errors == 0
                &&& v.counts.parse_errors == 0
                &&& v.counts.invalid_frames == 0
                &&& v.counts.unexpected_values == 0
            }
        }),
        h.len() > 0 && laser_run(h).0.synchronised && !laser_run(h.drop_last()).0.synchronised ==> {
            &&& laser_run(h.drop_last()).0.clean_frames == SYNC_FRAMES - 1
            &&& laser_run(h).1 is Distance
            &&& laser_run(h).0.counts.frames_received == 1
        },
        laser_run(h).1 matches LaserEvent::Distance { raw, class, .. } ==> {
            let prev = laser_run(h.drop_last()).0;
            &&& h.len() > 0
            &&& h.last() matches LaserInput::Byte(b)
            &&& spec_push_event(prev.acc, prev.stage, b).2 == ParseEvent::Value(
                RawValue { value: raw, first: true },
            )
            &&& class == distance_class(raw)
        },
    decreases h.len(),
{
    if h.len() > 0 {
        lemma_laser_run(h.drop_last());
    }
}

/// Baud rate the sensor must use for full-rate output.
pub const REQUIRED_BAUD: u32 = 921600;

/// Attempts to stop an old stream at the required rate before other rates
/// are probed.
pub const STOP_ATTEMPTS: u8 = 3;

/// Number of rates probed.
pub const SUPPORTED_BAUD_COUNT: usize = 11;

/// The `i`-th rate probed.
pub open spec fn supported_baud(i: int) -> u32 {
    if i == 0 {
        921600
    } else if i == 1 {
        1000000
    } else if i == 2 {
        691200
    } else if i == 3 {
        460800
    } else if i == 4 {
        256000
    } else if i == 5 {
        230400
    } else if i == 6 {
        128000
    } else if i == 7 {
        115200
    } else if i == 8 {
        56000
    } else if i == 9 {
        19200
    } else {
        9600
    }
}

/// The `i`-th rate probed.
pub fn supported_baud_at(i: usize) -> (b: u32)
    requires
        i < SUPPORTED_BAUD_COUNT,
    ensures
        b == supported_baud(i as int),
{
    let bauds: [u32; 11] = [
        921600,
        1000000,
        691200,
        460800,
        256000,
        230400,
        128000,
        115200,
        56000,
        19200,
        9600,
    ];
    bauds[i]
}

/// Command sent while searching for the sensor's baud rate.
#[derive(Clone, Copy, Debug, PartialEq, Eq, Structural)]
pub enum ProbeCommand {
    /// `OUTPUT NONE`: stop a stream still running.
    OutputNone,
    /// `GETUSERLEVEL`: a harmless query.
    GetUserLevel,
}

/// What came of a command sent to the sensor.
#[derive(Clone, Copy, Debug, PartialEq, Eq, Structural)]
pub enum CommandOutcome {
    /// The command could not be transmitted.
    WriteFailed,
    /// The sensor answered with its prompt.
    Replied(CommandReply),
    /// A receive error, or no prompt before the timeout.
    NoReply,
}

/// Where the baud-rate search stands.
#[derive(Clone, Copy, Debug, PartialEq, Eq, Structural)]
pub enum BaudSearch {
    /// Stopping an old stream at the required rate, attempt 1 to 3.
    Stopping(u8),
    /// Probing the rate with this index.
    Probing(usize),
    /// Finished.
    Done,
}

/// What the search does next.
#[derive(Clone, Copy, Debug, PartialEq, Eq, Structural)]
pub enum BaudAction {
    /// Switch the UART to `baud`, send `command` and wait for the reply.
    Send { baud: u32, command: ProbeCommand },
    /// The sensor answers at this rate.
    Found(u32),
    /// No rate got an answer.
    NotFound,
}

/// A well-formed search state.
pub open spec fn valid_search(s: BaudSearch) -> bool {
    match s {
        BaudSearch::Stopping(a) => 1 <= a <= STOP_ATTEMPTS,
        BaudSearch::Probing(i) => i < SUPPORTED_BAUD_COUNT,
        BaudSearch::Done => true,
    }
}

/// The search's next state and action after `outcome`.
pub open spec fn search_step(s: BaudSearch, outcome: CommandOutcome) -> (BaudSearch, BaudAction) {
    match s {
        BaudSearch::Stopping(a) => if outcome is Replied {
            (BaudSearch::Done, BaudAction::Found(REQUIRED_BAUD))
        } else if a < STOP_ATTEMPTS {
            (
                BaudSearch::Stopping((a + 1) as u8),
                BaudAction::Send { baud: REQUIRED_BAUD, command: ProbeCommand::OutputNone },
            )
        } else {
            (
                BaudSearch::Probing(0),
                BaudAction::Send { baud: supported_baud(0), command: ProbeCommand::GetUserLevel },
            )
        },
        BaudSearch::Probing(i) => if outcome is Replied {
            (BaudSearch::Done, BaudAction::Found(supported_baud(i as int)))
        } else if i + 1 < SUPPORTED_BAUD_COUNT {
            (
                BaudSearch::Probing((i + 1) as usize),
                BaudAction::Send {
                    baud: supported_baud(i + 1),
                    command: ProbeCommand::GetUserLevel,
                },
            )
        } else {
            (BaudSearch::Done, BaudAction::NotFound)
        },
        BaudSearch::Done => (BaudSearch::Done, BaudAction::NotFound),
    }
}

/// Start the search: stop any old stream at the required rate.
pub fn baud_search_start() -> (r: (BaudSearch, BaudAction))
    ensures
        r == (BaudSearch::Stopping(1), BaudAction::Send {
            baud: REQUIRED_BAUD,
            command: ProbeCommand::OutputNone,
        }),
{
    (BaudSearch::Stopping(1), BaudAction::Send { baud: REQUIRED_BAUD, command: ProbeCommand::OutputNone })
}

/// Advance the search with the outcome of the command it asked for. Any
/// reply to a stop command means the sensor runs at the required rate; any
/// reply to a probe, even an error, means it runs at the probed rate.
pub fn baud_search_next(state: BaudSearch, outcome: CommandOutcome) -> (r: (BaudSearch, BaudAction))
    requires
        valid_search(state),
        !(state is Done),
    ensures
        r == search_step(state, outcome),
        valid_search(r.0),
{
    match state {
        BaudSearch::Stopping(attempt) => {
            if let CommandOutcome::Replied(_) = outcome {
                return (BaudSearch::Done, BaudAction::Found(REQUIRED_BAUD));
            }
            if attempt < STOP_ATTEMPTS {
                (
                    BaudSearch::Stopping(attempt + 1),
                    BaudAction::Send { baud: REQUIRED_BAUD, command: ProbeCommand::OutputNone },
                )
            } else {
                (
                    BaudSearch::Probing(0),
                    BaudAction::Send {
                        baud: supported_baud_at(0),
                        command: ProbeCommand::GetUserLevel,
                    },
                )
            }
        },
        BaudSearch::Probing(index) => {
            if let CommandOutcome::Replied(_) = outcome {
                return (BaudSearch::Done, BaudAction::Found(supported_baud_at(index)));
            }
            if index + 1 < SUPPORTED_BAUD_COUNT {
                (
                    BaudSearch::Probing(index + 1),
                    BaudAction::Send {
                        baud: supported_baud_at(index + 1),
                        command: ProbeCommand::GetUserLevel,
                    },
                )
            } else {
                (BaudSearch::Done, BaudAction::NotFound)
            }
        },
        BaudSearch::Done => (BaudSearch::Done, BaudAction::NotFound),
    }
}

/// Commands that configure the sensor, in the order they are sent.
#[derive(Clone, Copy, Debug, PartialEq, Eq, Structural)]
pub enum SetupCommand {
    /// `OUTPUT NONE`
    OutputNone,
    /// The experiment's `MEASRATE` command.
    MeasRate,
    /// `OUTREDUCEDEVICE NONE`
    NoOutputReduction,
    /// `OUTADD_RS422 NONE`: distance only.
    DistanceOnly,
    /// `OUTPUT RS422`
    OutputRs422,
}

/// Number of configuration commands.
pub const SETUP_COMMANDS: u8 = 5;

/// The `step`-th configuration command.
pub open spec fn setup_command(step: int) -> SetupCommand {
    if step == 0 {
        SetupCommand::OutputNone
    } else if step == 1 {
        SetupCommand::MeasRate
    } else if step == 2 {
        SetupCommand::NoOutputReduction
    } else if step == 3 {
        SetupCommand::DistanceOnly
    } else {
        SetupCommand::OutputRs422
    }
}

/// What the configuration does next.
#[derive(Clone, Copy, Debug, PartialEq, Eq, Structural)]
pub enum SetupAction {
    /// Send `command` and wait for its reply; first drain the binary tail
    /// of a stream that was just stopped when `drain_first` is set.
    Send { command: SetupCommand, drain_first: bool },
    /// Configuration finished: whether every command was accepted.
    Finished(bool),
}

fn setup_command_at(step: u8) -> (c: SetupCommand)
    ensures
        c == setup_command(step as int),
{
    if step == 0 {
        SetupCommand::OutputNone
    } else if step == 1 {
        SetupCommand::MeasRate
    } else if step == 2 {
        SetupCommand::NoOutputReduction
    } else if step == 3 {
        SetupCommand::DistanceOnly
    } else {
        SetupCommand::OutputRs422
    }
}

/// Start configuring: the first command.
pub fn setup_start() -> (r: (u8, SetupAction))
    ensures
        r == (0u8, SetupAction::Send { command: SetupCommand::OutputNone, drain_first: false }),
{
    (0, SetupAction::Send { command: SetupCommand::OutputNone, drain_first: false })
}

/// The configuration's next step and action after the outcome of command
/// `step`.
pub open spec fn setup_step(step: u8, outcome: CommandOutcome) -> (u8, SetupAction) {
    if outcome == CommandOutcome::Replied(CommandReply::Accepted) {
        if step + 1 < SETUP_COMMANDS {
            (
                (step + 1) as u8,
                SetupAction::Send { command: setup_command(step + 1), drain_first: step == 0 },
            )
        } else {
            (SETUP_COMMANDS, SetupAction::Finished(true))
        }
    } else {
        (SETUP_COMMANDS, SetupAction::Finished(false))
    }
}

/// Advance the configuration with the outcome of command `step`: a command
/// that is not accepted ends it unsuccessfully; after `OUTPUT NONE` the
/// stopped stream's tail is drained before the next command.
pub fn setup_next(step: u8, outcome: CommandOutcome) -> (r: (u8, SetupAction))
    requires
        step < SETUP_COMMANDS,
    ensures
        r == setup_step(step, outcome),
{
    match outcome {
        CommandOutcome::Replied(CommandReply::Accepted) => {
            if step + 1 < SETUP_COMMANDS {
                (step + 1, SetupAction::Send { command: setup_command_at(step + 1), drain_first: step == 0 })
            } else {
                (SETUP_COMMANDS, SetupAction::Finished(true))
            }
        },
        _ => (SETUP_COMMANDS, SetupAction::Finished(false)),
    }
}

/// What the receive task does after a search or a configuration.
#[derive(Clone, Copy, Debug, PartialEq, Eq, Structural)]
pub enum Startup {
    /// Wait this many milliseconds, then search again.
    RetryAfterMs(u32),
    /// Configure the sensor.
    Configure,
    /// Parse measurements.
    Run,
}

/// After the search: configure when the sensor answers at the required
/// rate, otherwise retry after two seconds.
pub fn after_search(found: Option<u32>) -> (s: Startup)
    ensures
        s == if found == Some(REQUIRED_BAUD) {
            Startup::Configure
        } else {
            Startup::RetryAfterMs(2000)
        },
{
    match found {
        Some(baud) => if baud == REQUIRED_BAUD {
            Startup::Configure
        } else {
            Startup::RetryAfterMs(2000)
        },
        None => Startup::RetryAfterMs(2000),
    }
}

/// After configuring: run when every command was accepted, otherwise
/// search again after a quarter second.
pub fn after_setup(accepted: bool) -> (s: Startup)
    ensures
        s == if accepted {
            Startup::Run
        } else {
            Startup::RetryAfterMs(250)
        },
{
    if accepted {
        Startup::Run
    } else {
        Startup::RetryAfterMs(250)
    }
}

/// The search always ends: from any state, at most `STOP_ATTEMPTS +
/// SUPPORTED_BAUD_COUNT` unanswered commands lead to `Done`, and every
/// answer ends it at once.
pub open spec fn search_budget(s: BaudSearch) -> int {
    match s {
        BaudSearch::Stopping(a) => STOP_ATTEMPTS - a + 1 + SUPPORTED_BAUD_COUNT,
        BaudSearch::Probing(i) => SUPPORTED_BAUD_COUNT - i,
        BaudSearch::Done => 0,
    }
}

/// Each step of the search either ends it or uses up one unanswered
/// command of its budget, so it cannot go on for ever.
pub proof fn lemma_search_terminates(s: BaudSearch, outcome: CommandOutcome)
    requires
        valid_search(s),
        !(s is Done),
    ensures
        search_step(s, outcome).0 is Done || search_budget(search_step(s, outcome).0)
            < search_budget(s),
        outcome is Replied ==> search_step(s, outcome).0 is Done && search_step(s, outcome).1 is Found,
        0 <= search_budget(search_step(s, outcome).0),
{
}

} // verus!
