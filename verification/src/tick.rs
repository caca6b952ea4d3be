//! Bookkeeping of one real-time tick: the command epoch, the record index,
//! the record layout and the timing diagnostics the loop publishes. The
//! measurement, control and actuation that a tick performs are the rig's
//! and the programme's; what is decided and counted around them is here.

use vstd::prelude::*;

verus! {

/// The command epoch wraps here, so every value stays exactly
/// representable in the `f32` stream.
pub const COMMAND_EPOCH_MASK: u32 = 16777215;

/// Diagnostics the real-time loop publishes.
#[derive(Clone, Copy, Debug, PartialEq, Eq, Structural)]
pub struct TickDiagnostics {
    pub wake_phase_max_us: u32,
    pub wake_phase_min_us: u32,
    /// Worst excess of tick-to-tick spacing over the nominal period.
    pub clock_jitter_us: u32,
    /// Deepest command queue seen at a tick boundary.
    pub command_backlog_max: u32,
    pub t_measure_max_us: u32,
    pub t_actuate_max_us: u32,
    /// Worst tick time outside measurement and actuation.
    pub t_rest_max_us: u32,
    pub loop_time_last_us: u32,
    pub loop_time_max_us: u32,
    /// Ticks that took longer than the sample period.
    pub overruns: u32,
    /// Records lost because the stream queue was full.
    pub records_dropped: u32,
    pub ticks: u32,
}

/// State the loop carries from one tick to the next.
#[derive(Clone, Copy, Debug, PartialEq, Eq, Structural)]
pub struct TickState {
    /// Commands applied so far, modulo the epoch mask.
    pub command_epoch: u32,
    /// Index of the next record.
    pub index: u32,
    /// Wake time of the previous tick.
    pub last_tick_us: Option<u32>,
}

/// What one tick observed.
#[derive(Clone, Copy, Debug, PartialEq, Eq, Structural)]
pub struct TickObservation {
    /// Microsecond timer at wake (it wraps; only differences are used).
    pub t0_us: u32,
    /// Phase of the wake against the hardware clock, where the rig reports
    /// it.
    pub wake_phase_us: Option<u32>,
    /// Commands applied at this tick boundary.
    pub commands_applied: u32,
    /// Commands still queued after them.
    pub commands_left: u32,
    pub measure_us: u32,
    pub actuate_us: u32,
    /// Whole tick duration.
    pub elapsed_us: u32,
    /// The tick's record found room in the stream queue.
    pub record_queued: bool,
}

/// Diagnostics at rest: every maximum and count zero, the wake-phase
/// minimum at its largest value.
pub open spec fn initial_diagnostics() -> TickDiagnostics {
    TickDiagnostics {
        wake_phase_max_us: 0,
        wake_phase_min_us: u32::MAX,
        clock_jitter_us: 0,
        command_backlog_max: 0,
        t_measure_max_us: 0,
        t_actuate_max_us: 0,
        t_rest_max_us: 0,
        loop_time_last_us: 0,
        loop_time_max_us: 0,
        overruns: 0,
        records_dropped: 0,
        ticks: 0,
    }
}

pub open spec fn max_u32(a: u32, b: u32) -> u32 {
    if a >= b {
        a
    } else {
        b
    }
}

pub open spec fn min_u32(a: u32, b: u32) -> u32 {
    if a <= b {
        a
    } else {
        b
    }
}

/// `a - b` wrapping modulo 2^32.
pub open spec fn wrapping_sub(a: u32, b: u32) -> u32 {
    ((a - b) % 4294967296) as u32
}

/// `a + b` wrapping modulo 2^32.
pub open spec fn wrapping_add(a: u32, b: u32) -> u32 {
    ((a + b) % 4294967296) as u32
}

/// `a - b`, or zero when `b` is larger.
pub open spec fn saturating_sub(a: u32, b: u32) -> u32 {
    if a >= b {
        (a - b) as u32
    } else {
        0
    }
}

/// How far the spacing from the previous wake exceeded the nominal period,
/// if it did.
pub open spec fn spacing_excess(last: Option<u32>, t0: u32, period_us: u32) -> Option<u32> {
    match last {
        Some(l) => if wrapping_sub(t0, l) > period_us {
            Some((wrapping_sub(t0, l) - period_us) as u32)
        } else {
            None
        },
        None => None,
    }
}

/// The loop state after a tick.
pub open spec fn state_after_tick(s: TickState, o: TickObservation) -> TickState {
    TickState {
        command_epoch: if o.commands_applied != 0 {
            (wrapping_add(s.command_epoch, o.commands_applied) % 16777216) as u32
        } else {
            s.command_epoch
        },
        index: wrapping_add(s.index, 1),
        last_tick_us: Some(o.t0_us),
    }
}

/// The diagnostics after a tick with sample period `period_us`.
pub open spec fn diagnostics_after_tick(
    d: TickDiagnostics,
    s: TickState,
    o: TickObservation,
    period_us: u32,
) -> TickDiagnostics {
    TickDiagnostics {
        wake_phase_max_us: match o.wake_phase_us {
            Some(p) => max_u32(d.wake_phase_max_us, p),
            None => d.wake_phase_max_us,
        },
        wake_phase_min_us: match o.wake_phase_us {
            Some(p) => min_u32(d.wake_phase_min_us, p),
            None => d.wake_phase_min_us,
        },
        clock_jitter_us: match spacing_excess(s.last_tick_us, o.t0_us, period_us) {
            Some(x) => max_u32(d.clock_jitter_us, x),
            None => d.clock_jitter_us,
        },
        command_backlog_max: if o.commands_applied != 0 {
            max_u32(d.command_backlog_max, (o.commands_applied + o.commands_left) as u32)
        } else {
            d.command_backlog_max
        },
        t_measure_max_us: max_u32(d.t_measure_max_us, o.measure_us),
        t_actuate_max_us: max_u32(d.t_actuate_max_us, o.actuate_us),
        t_rest_max_us: max_u32(
            d.t_rest_max_us,
            saturating_sub(saturating_sub(o.elapsed_us, o.measure_us), o.actuate_us),
        ),
        loop_time_last_us: o.elapsed_us,
        loop_time_max_us: max_u32(d.loop_time_max_us, o.elapsed_us),
        overruns: if o.elapsed_us > period_us {
            wrapping_add(d.overruns, 1)
        } else {
            d.overruns
        },
        records_dropped: if o.record_queued {
            d.records_dropped
        } else {
            wrapping_add(d.records_dropped, 1)
        },
        ticks: wrapping_add(d.ticks, 1),
    }
}

impl TickDiagnostics {
    /// Diagnostics at rest.
    pub fn new() -> (d: Self)
        ensures
            d == initial_diagnostics(),
    {
        TickDiagnostics {
            wake_phase_max_us: 0,
            wake_phase_min_us: u32::MAX,
            clock_jitter_us: 0,
            command_backlog_max: 0,
            t_measure_max_us: 0,
            t_actuate_max_us: 0,
            t_rest_max_us: 0,
            loop_time_last_us: 0,
            loop_time_max_us: 0,
            overruns: 0,
            records_dropped: 0,
            ticks: 0,
        }
    }
}

impl TickState {
    /// Epoch zero, first record index zero, no previous tick.
    pub fn new() -> (s: Self)
        ensures
            s == (TickState { command_epoch: 0, index: 0, last_tick_us: None }),
    {
        TickState { command_epoch: 0, index: 0, last_tick_us: None }
    }
}

fn max_of(a: u32, b: u32) -> (m: u32)
    ensures
        m == max_u32(a, b),
{
    if a >= b {
        a
    } else {
        b
    }
}

/// Account for one tick: advance the command epoch and the record index,
/// remember the wake time, and fold the tick's timings into the
/// diagnostics. Returns the index of the tick's record.
pub fn account_tick(
    state: &mut TickState,
    diagnostics: &mut TickDiagnostics,
    observation: TickObservation,
    period_us: u32,
) -> (record_index: u32)
    requires
        observation.commands_applied + observation.commands_left <= u32::MAX,
    ensures
        record_index == old(state).index,
        *final(state) == state_after_tick(*old(state), observation),
        *final(diagnostics) == diagnostics_after_tick(
            *old(diagnostics),
            *old(state),
            observation,
            period_us,
        ),
{
    let o = observation;
    let d = *diagnostics;
    let (phase_max, phase_min) = match o.wake_phase_us {
        Some(p) => (max_of(d.wake_phase_max_us, p), if d.wake_phase_min_us <= p {
            d.wake_phase_min_us
        } else {
            p
        }),
        None => (d.wake_phase_max_us, d.wake_phase_min_us),
    };
    let jitter = match state.last_tick_us {
        Some(last) => {
            let spacing = o.t0_us.wrapping_sub(last);
            if spacing > period_us {
                max_of(d.clock_jitter_us, spacing - period_us)
            } else {
                d.clock_jitter_us
            }
        },
        None => d.clock_jitter_us,
    };
    let backlog = if o.commands_applied != 0 {
        max_of(d.command_backlog_max, o.commands_applied + o.commands_left)
    } else {
        d.command_backlog_max
    };
    let rest = o.elapsed_us.saturating_sub(o.measure_us).saturating_sub(o.actuate_us);
    *diagnostics = TickDiagnostics {
        wake_phase_max_us: phase_max,
        wake_phase_min_us: phase_min,
        clock_jitter_us: jitter,
        command_backlog_max: backlog,
        t_measure_max_us: max_of(d.t_measure_max_us, o.measure_us),
        t_actuate_max_us: max_of(d.t_actuate_max_us, o.actuate_us),
        t_rest_max_us: max_of(d.t_rest_max_us, rest),
        loop_time_last_us: o.elapsed_us,
        loop_time_max_us: max_of(d.loop_time_max_us, o.elapsed_us),
        overruns: if o.elapsed_us > period_us {
            d.overruns.wrapping_add(1)
        } else {
            d.overruns
        },
        records_dropped: if o.record_queued {
            d.records_dropped
        } else {
            d.records_dropped.wrapping_add(1)
        },
        ticks: d.ticks.wrapping_add(1),
    };
    let record_index = state.index;
    let epoch = if o.commands_applied != 0 {
        let sum = state.command_epoch.wrapping_add(o.commands_applied);
        let masked = sum & COMMAND_EPOCH_MASK;
        assert(sum & 16777215u32 == sum % 16777216) by (bit_vector);
        masked
    } else {
        state.command_epoch
    };
    *state = TickState {
        command_epoch: epoch,
        index: state.index.wrapping_add(1),
        last_tick_us: Some(o.t0_us),
    };
    record_index
}

/// Outputs are driven when the rig is not safety-gated, or when it is armed
/// and has not tripped.
pub fn output_enabled(gated: bool, armed: bool, tripped: bool) -> (enabled: bool)
    ensures
        enabled == (!gated || (armed && !tripped)),
{
    !gated || (armed && !tripped)
}

/// Slots of a tick's record: inputs first, then the programme's signals,
/// then the applied actuator outputs, then the command epoch. Returns where
/// the actuator outputs start and the epoch's slot.
pub fn record_layout(n_inputs: usize, n_signals: usize, n_actuators: usize, capacity: usize) -> (r: (
    usize,
    usize,
))
    requires
        n_inputs + n_signals + n_actuators < capacity,
    ensures
        r.0 == n_inputs + n_signals,
        r.1 == n_inputs + n_signals + n_actuators,
        r.1 < capacity,
{
    let generated = n_inputs + n_signals;
    (generated, generated + n_actuators)
}

/// The command epoch stays below 2^24 and counts applied commands modulo
/// 2^24 from tick to tick.
pub proof fn lemma_command_epoch_counts_modulo(s: TickState, o: TickObservation)
    requires
        s.command_epoch <= COMMAND_EPOCH_MASK,
    ensures
        state_after_tick(s, o).command_epoch <= COMMAND_EPOCH_MASK,
        state_after_tick(s, o).command_epoch == (s.command_epoch + o.commands_applied) % 16777216,
{
    let sum = s.command_epoch + o.commands_applied;
    if o.commands_applied != 0 {
        assert(((sum % 4294967296) % 16777216) == sum % 16777216) by (nonlinear_arith)
            requires
                sum >= 0,
        {
            vstd::arithmetic::div_mod::lemma_mod_mod(sum, 16777216, 256);
        }
    }
}

/// Every maximum only grows, and the last loop time never exceeds the
/// maximum, tick after tick.
pub proof fn lemma_maxima_only_grow(
    d: TickDiagnostics,
    s: TickState,
    o: TickObservation,
    period_us: u32,
)
    requires
        d.loop_time_last_us <= d.loop_time_max_us,
    ensures
        ({
            let e = diagnostics_after_tick(d, s, o, period_us);
            &&& e.clock_jitter_us >= d.clock_jitter_us
            &&& e.t_measure_max_us >= d.t_measure_max_us
            &&& e.t_actuate_max_us >= d.t_actuate_max_us
            &&& e.t_rest_max_us >= d.t_rest_max_us
            &&& e.loop_time_max_us >= d.loop_time_max_us
            &&& e.loop_time_last_us <= e.loop_time_max_us
            &&& e.wake_phase_max_us >= d.wake_phase_max_us
            &&& e.wake_phase_min_us <= d.wake_phase_min_us
        }),
{
}

/// Where a command dequeued at a tick boundary goes.
#[derive(Clone, Copy, Debug, PartialEq, Eq, Structural)]
pub enum CommandRoute {
    /// A rig parameter write: an `f32` payload in the rig's domain.
    RigParameter,
    /// Any other payload in the rig's domain is dropped.
    Dropped,
    /// Every other domain belongs to the programme.
    Programme,
}

/// The route of a command of `domain` whose payload is an `f32` or not,
/// where `rig_domain` is the rig's domain.
pub open spec fn command_route(domain: u8, rig_domain: u8, payload_is_f32: bool) -> CommandRoute {
    if domain != rig_domain {
        CommandRoute::Programme
    } else if payload_is_f32 {
        CommandRoute::RigParameter
    } else {
        CommandRoute::Dropped
    }
}

/// Route one dequeued command.
pub fn route_command(domain: u8, rig_domain: u8, payload_is_f32: bool) -> (r: CommandRoute)
    ensures
        r == command_route(domain, rig_domain, payload_is_f32),
{
    if domain != rig_domain {
        CommandRoute::Programme
    } else if payload_is_f32 {
        CommandRoute::RigParameter
    } else {
        CommandRoute::Dropped
    }
}

/// Commands applied at one tick boundary: those queued, at most
/// `per_tick`, so a burst cannot stretch a tick.
pub fn commands_this_tick(queued: u32, per_tick: u32) -> (n: u32)
    ensures
        n == if queued < per_tick {
            queued
        } else {
            per_tick
        },
{
    if queued < per_tick {
        queued
    } else {
        per_tick
    }
}

} // verus!
