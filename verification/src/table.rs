//! Waveform-table playback: interpolation and playback modes, table index
//! arithmetic, and the integer playback state that decides which table
//! phase is played on each tick.

use vstd::prelude::*;

use crate::phase::{turn, PhaseAccumulator};

verus! {

/// Largest table accepted for playback.
pub const MAX_TABLE_LEN: usize = 4096;

#[derive(Clone, Copy, Debug, PartialEq, Eq, Structural)]
pub enum TableInterpolation {
    ZeroOrderHold,
    Linear,
}

/// Wire value of each interpolation rule (its mathematical order).
pub open spec fn interpolation_code(i: TableInterpolation) -> u32 {
    match i {
        TableInterpolation::ZeroOrderHold => 0,
        TableInterpolation::Linear => 1,
    }
}

impl TableInterpolation {
    pub fn from_u32(value: u32) -> (r: Option<Self>)
        ensures
            value <= 1 ==> (r matches Some(i) && interpolation_code(i) == value),
            value > 1 ==> r is None,
    {
        match value {
            0 => Some(TableInterpolation::ZeroOrderHold),
            1 => Some(TableInterpolation::Linear),
            _ => None,
        }
    }

    pub fn code(self) -> (c: u32)
        ensures
            c == interpolation_code(self),
    {
        match self {
            TableInterpolation::ZeroOrderHold => 0,
            TableInterpolation::Linear => 1,
        }
    }
}

impl Default for TableInterpolation {
    fn default() -> (i: Self)
        ensures
            i == TableInterpolation::Linear,
    {
        TableInterpolation::Linear
    }
}

#[derive(Clone, Copy, Debug, PartialEq, Eq, Structural)]
pub enum TableMode {
    Off,
    Loop,
    OneShot,
    LockedLoop,
    LockedOneShot,
}

/// Wire value of each playback mode.
pub open spec fn mode_code(m: TableMode) -> u32 {
    match m {
        TableMode::Off => 0,
        TableMode::Loop => 1,
        TableMode::OneShot => 2,
        TableMode::LockedLoop => 3,
        TableMode::LockedOneShot => 4,
    }
}

impl TableMode {
    pub fn from_u32(value: u32) -> (r: Option<Self>)
        ensures
            value <= 4 ==> (r matches Some(m) && mode_code(m) == value),
            value > 4 ==> r is None,
    {
        match value {
            0 => Some(TableMode::Off),
            1 => Some(TableMode::Loop),
            2 => Some(TableMode::OneShot),
            3 => Some(TableMode::LockedLoop),
            4 => Some(TableMode::LockedOneShot),
            _ => None,
        }
    }

    pub fn code(self) -> (c: u32)
        ensures
            c == mode_code(self),
    {
        match self {
            TableMode::Off => 0,
            TableMode::Loop => 1,
            TableMode::OneShot => 2,
            TableMode::LockedLoop => 3,
            TableMode::LockedOneShot => 4,
        }
    }
}

impl Default for TableMode {
    fn default() -> (m: Self)
        ensures
            m == TableMode::Off,
    {
        TableMode::Off
    }
}

/// A table length that can be played: at least two knots, at most
/// `MAX_TABLE_LEN`.
pub open spec fn playable_len(len: int) -> bool {
    2 <= len <= MAX_TABLE_LEN
}

/// A waveform table of `MAX_TABLE_LEN` sample slots, of which the first
/// `len` are played. Each sample is held as the bit pattern of its `f32`
/// value: the table stores and moves samples, and the caller that
/// evaluates the waveform reads them as numbers.
#[derive(Debug)]
pub struct WaveTable {
    values: [u32; 4096],
    len: u16,
}

impl WaveTable {
    /// All sample slots, played or not.
    pub closed spec fn spec_slots(&self) -> Seq<u32> {
        self.values@
    }

    /// Number of played samples: zero, or a playable length.
    pub closed spec fn spec_len(&self) -> nat {
        self.len as nat
    }

    /// The played samples.
    pub open spec fn spec_values(&self) -> Seq<u32> {
        self.spec_slots().take(self.spec_len() as int)
    }

    #[verifier::type_invariant]
    closed spec fn wf(&self) -> bool {
        self.len == 0 || playable_len(self.len as int)
    }

    /// No samples played, every slot zero.
    pub fn empty() -> (t: Self)
        ensures
            t.spec_len() == 0,
            t.spec_slots() == Seq::new(MAX_TABLE_LEN as nat, |i: int| 0u32),
    {
        let values = [0u32; 4096];
        assert(values@ =~= Seq::new(MAX_TABLE_LEN as nat, |i: int| 0u32));
        WaveTable { values, len: 0 }
    }

    /// A table playing exactly `values`, or `None` unless their number is
    /// playable.
    pub fn from_slice(values: &[u32]) -> (r: Option<Self>)
        ensures
            r is Some <==> playable_len(values@.len() as int),
            r matches Some(t) ==> t.spec_values() == values@ && t.spec_slots() == values@
                + Seq::new((MAX_TABLE_LEN - values@.len()) as nat, |i: int| 0u32),
    {
        if values.len() < 2 || values.len() > MAX_TABLE_LEN {
            return None;
        }
        let mut table = WaveTable::empty();
        let ok = table.write_block(0, values);
        assert(ok);
        let set = table.set_len(values.len());
        assert(set);
        assert(table.spec_slots() =~= values@ + Seq::new(
            (MAX_TABLE_LEN - values@.len()) as nat,
            |i: int| 0u32,
        ));
        assert(table.spec_values() =~= values@);
        Some(table)
    }

    pub fn len(&self) -> (n: usize)
        ensures
            n == self.spec_len(),
            n == 0 || playable_len(n as int),
    {
        proof {
            use_type_invariant(self);
        }
        self.len as usize
    }

    pub fn is_empty(&self) -> (b: bool)
        ensures
            b == (self.spec_len() == 0),
    {
        self.len == 0
    }

    /// The played samples.
    pub fn values(&self) -> (r: &[u32])
        ensures
            r@ == self.spec_values(),
    {
        proof {
            use_type_invariant(self);
        }
        let n = self.len as usize;
        let all = self.values.as_slice();
        &all[0..n]
    }

    /// The first `len` slots, played or not, or `None` past the last slot.
    pub fn prefix(&self, len: usize) -> (r: Option<&[u32]>)
        ensures
            len <= MAX_TABLE_LEN ==> (r matches Some(p) && p@ == self.spec_slots().take(
                len as int,
            )),
            len > MAX_TABLE_LEN ==> r is None,
    {
        if len > MAX_TABLE_LEN {
            return None;
        }
        let all = self.values.as_slice();
        Some(&all[0..len])
    }

    /// Copy `values` into the slots from `offset` on, or return `false` and
    /// change nothing when they would run past the last slot.
    pub fn write_block(&mut self, offset: usize, values: &[u32]) -> (ok: bool)
        ensures
            ok == (offset + values@.len() <= MAX_TABLE_LEN),
            final(self).spec_len() == old(self).spec_len(),
            ok ==> final(self).spec_slots() == old(self).spec_slots().take(offset as int)
                + values@ + old(self).spec_slots().skip(offset + values@.len()),
            !ok ==> final(self).spec_slots() == old(self).spec_slots(),
    {
        proof {
            use_type_invariant(&*self);
        }
        if offset > MAX_TABLE_LEN || values.len() > MAX_TABLE_LEN - offset {
            return false;
        }
        let ghost before = self.values@;
        let mut i: usize = 0;
        while i < values.len()
            invariant
                offset + values@.len() <= MAX_TABLE_LEN,
                before.len() == MAX_TABLE_LEN,
                i <= values@.len(),
                self.len == old(self).len,
                self.len == 0 || playable_len(self.len as int),
                self.values@ == before.take(offset as int) + values@.take(i as int)
                    + before.skip(offset + i),
            decreases values@.len() - i,
        {
            self.values[offset + i] = values[i];
            i = i + 1;
            assert(self.values@ =~= before.take(offset as int) + values@.take(i as int)
                + before.skip(offset + i));
        }
        assert(values@.take(values@.len() as int) =~= values@);
        true
    }

    /// Play the first `len` slots, or return `false` and change nothing
    /// unless `len` is playable.
    pub fn set_len(&mut self, len: usize) -> (ok: bool)
        ensures
            ok == playable_len(len as int),
            final(self).spec_slots() == old(self).spec_slots(),
            ok ==> final(self).spec_len() == len,
            !ok ==> final(self).spec_len() == old(self).spec_len(),
    {
        if len < 2 || len > MAX_TABLE_LEN {
            return false;
        }
        self.len = len as u16;
        true
    }

    /// The knot at table phase `theta`, the knot after it (the last knot
    /// wrapping to the first) and the 32-bit fraction of the way between
    /// them: what interpolation reads.
    pub fn knots(&self, theta: u32) -> (r: (u32, u32, u32))
        requires
            playable_len(self.spec_len() as int),
        ensures
            ({
                let len = self.spec_len() as int;
                let index = (theta * len) / turn();
                let next = if index + 1 == len {
                    0
                } else {
                    index + 1
                };
                &&& r.0 == self.spec_values()[index]
                &&& r.1 == self.spec_values()[next]
                &&& r.2 == (theta * len) % turn()
            }),
    {
        let len = self.len as usize;
        let (index, fraction) = table_position(theta, len);
        let next = next_knot(index, len);
        (self.values[index], self.values[next], fraction)
    }
}

impl Default for WaveTable {
    fn default() -> (t: Self)
        ensures
            t.spec_len() == 0,
            t.spec_slots() == Seq::new(MAX_TABLE_LEN as nat, |i: int| 0u32),
    {
        WaveTable::empty()
    }
}

/// Knot index and interpolation fraction of table phase `theta` in a table
/// of `len` values: `theta` scaled onto `[0, len)` in 32.32 fixed point.
pub fn table_position(theta: u32, len: usize) -> (r: (usize, u32))
    requires
        1 <= len <= MAX_TABLE_LEN,
    ensures
        r.0 == (theta * len) / turn(),
        r.1 == (theta * len) % turn(),
        r.0 < len,
{
    let t = theta as u64;
    let l = len as u64;
    assert(t * l <= 4294967295 * 4096) by (nonlinear_arith)
        requires
            t <= 4294967295,
            l <= 4096,
    ;
    let position: u64 = t * l;
    assert(position < len * turn()) by (nonlinear_arith)
        requires
            position == theta * len,
            theta < turn(),
            len >= 1,
    ;
    assert(position / 4294967296 < len) by (nonlinear_arith)
        requires
            position < len * 4294967296,
    ;
    ((position / 4294967296) as usize, (position % 4294967296) as u32)
}

/// The knot after `index`, the last knot wrapping to the first.
pub fn next_knot(index: usize, len: usize) -> (n: usize)
    requires
        index < len,
    ensures
        n == if index + 1 == len {
            0
        } else {
            index + 1
        },
        n < len,
{
    if index + 1 == len {
        0
    } else {
        index + 1
    }
}

#[derive(Clone, Copy, Debug, PartialEq, Eq, Structural)]
pub enum OneShotState {
    Idle,
    Armed,
    Running,
}

/// Playback state of a table player.
pub struct PlayerState {
    pub phase: u32,
    pub increment: u32,
    pub mode: TableMode,
    pub interpolation: TableInterpolation,
    pub multiplier: u32,
    pub phase_offset: u32,
    pub one_shot: OneShotState,
    pub previous_master: u32,
    pub locked_progress: u64,
}

/// Table phase locked to the master phase.
pub open spec fn locked_theta(master: u32, multiplier: u32, offset: u32) -> u32 {
    ((master * multiplier + offset) % turn()) as u32
}

/// One tick of playback: the next state, and the table phase to play or
/// `None` for a silent (zero) output.
pub open spec fn spec_tick(s: PlayerState, len: nat, master: u32, master_start: bool) -> (
    PlayerState,
    Option<u32>,
) {
    let stepped = ((s.phase + s.increment) % turn()) as u32;
    let wrapped = s.phase + s.increment >= turn();
    if len < 2 {
        (s, None)
    } else {
        match s.mode {
            TableMode::Off => (s, None),
            TableMode::Loop => (PlayerState { phase: stepped, ..s }, Some(stepped)),
            TableMode::OneShot => if s.one_shot != OneShotState::Running {
                (s, None)
            } else if wrapped {
                (PlayerState { phase: stepped, one_shot: OneShotState::Idle, ..s }, None)
            } else {
                (PlayerState { phase: stepped, ..s }, Some(stepped))
            },
            TableMode::LockedLoop => (s, Some(locked_theta(master, s.multiplier, s.phase_offset))),
            TableMode::LockedOneShot => if s.one_shot == OneShotState::Armed {
                if !master_start {
                    (s, None)
                } else {
                    (
                        PlayerState {
                            one_shot: OneShotState::Running,
                            previous_master: master,
                            locked_progress: 0,
                            ..s
                        },
                        Some(locked_theta(master, s.multiplier, s.phase_offset)),
                    )
                }
            } else if s.one_shot == OneShotState::Running {
                let delta = (master - s.previous_master) % turn();
                let sum = s.locked_progress + delta * s.multiplier;
                let progress = if sum > u64::MAX {
                    u64::MAX
                } else {
                    sum as u64
                };
                if progress >= turn() {
                    (
                        PlayerState {
                            one_shot: OneShotState::Idle,
                            previous_master: master,
                            locked_progress: progress,
                            ..s
                        },
                        None,
                    )
                } else {
                    (
                        PlayerState {
                            previous_master: master,
                            locked_progress: progress,
                            ..s
                        },
                        Some(locked_theta(master, s.multiplier, s.phase_offset)),
                    )
                }
            } else {
                (s, None)
            },
        }
    }
}

/// Integer playback state of a waveform table: which table phase is played
/// on each tick in each mode. The amplitude scaling of the played value is
/// applied by the caller.
pub struct TablePlayer {
    phase: PhaseAccumulator,
    mode: TableMode,
    interpolation: TableInterpolation,
    multiplier: u32,
    phase_offset: u32,
    one_shot: OneShotState,
    previous_master: u32,
    locked_progress: u64,
}

impl View for TablePlayer {
    type V = PlayerState;

    closed spec fn view(&self) -> PlayerState {
        PlayerState {
            phase: self.phase.spec_phase(),
            increment: self.phase.spec_increment(),
            mode: self.mode,
            interpolation: self.interpolation,
            multiplier: self.multiplier,
            phase_offset: self.phase_offset,
            one_shot: self.one_shot,
            previous_master: self.previous_master,
            locked_progress: self.locked_progress,
        }
    }
}

impl TablePlayer {
    /// Off, linear, unit multiplier, zero phase.
    pub fn new() -> (p: Self)
        ensures
            p@ == (PlayerState {
                phase: 0,
                increment: 0,
                mode: TableMode::Off,
                interpolation: TableInterpolation::Linear,
                multiplier: 1,
                phase_offset: 0,
                one_shot: OneShotState::Idle,
                previous_master: 0,
                locked_progress: 0,
            }),
    {
        TablePlayer {
            phase: PhaseAccumulator::new(),
            mode: TableMode::Off,
            interpolation: TableInterpolation::Linear,
            multiplier: 1,
            phase_offset: 0,
            one_shot: OneShotState::Idle,
            previous_master: 0,
            locked_progress: 0,
        }
    }

    pub fn set_increment(&mut self, increment: u32)
        ensures
            final(self)@ == (PlayerState { increment, ..old(self)@ }),
    {
        self.phase.set_increment(increment);
    }

    /// Select the playback mode; any pending or running one-shot is
    /// abandoned.
    pub fn set_mode(&mut self, mode: TableMode)
        ensures
            final(self)@ == (PlayerState { mode, one_shot: OneShotState::Idle, ..old(self)@ }),
    {
        self.mode = mode;
        self.one_shot = OneShotState::Idle;
    }

    /// Change the interpolation rule without touching playback state.
    pub fn set_interpolation(&mut self, interpolation: TableInterpolation)
        ensures
            final(self)@ == (PlayerState { interpolation, ..old(self)@ }),
    {
        self.interpolation = interpolation;
    }

    pub fn interpolation(&self) -> (i: TableInterpolation)
        ensures
            i == self@.interpolation,
    {
        self.interpolation
    }

    /// Set the harmonic multiplier used by the locked modes (at least 1).
    pub fn set_multiplier(&mut self, multiplier: u32)
        ensures
            final(self)@ == (PlayerState {
                multiplier: if multiplier >= 1 {
                    multiplier
                } else {
                    1
                },
                ..old(self)@
            }),
    {
        self.multiplier = if multiplier >= 1 {
            multiplier
        } else {
            1
        };
    }

    pub fn set_phase_offset(&mut self, phase_offset: u32)
        ensures
            final(self)@ == (PlayerState { phase_offset, ..old(self)@ }),
    {
        self.phase_offset = phase_offset;
    }

    /// Start a free one-shot from phase zero, or arm a locked one-shot to
    /// start at the next master period start.
    pub fn trigger(&mut self)
        ensures
            final(self)@ == match old(self)@.mode {
                TableMode::OneShot => PlayerState {
                    phase: 0,
                    one_shot: OneShotState::Running,
                    ..old(self)@
                },
                TableMode::LockedOneShot => PlayerState {
                    one_shot: OneShotState::Armed,
                    ..old(self)@
                },
                _ => old(self)@,
            },
    {
        match self.mode {
            TableMode::OneShot => {
                self.phase.reset();
                self.one_shot = OneShotState::Running;
            },
            TableMode::LockedOneShot => self.one_shot = OneShotState::Armed,
            _ => {},
        }
    }

    /// Advance one tick playing `table`: the table phase to evaluate, or
    /// `None` when the output is silent (zero).
    pub fn step(&mut self, table: &WaveTable, master_phase: u32, master_start: bool) -> (theta:
        Option<u32>)
        ensures
            (final(self)@, theta) == spec_tick(
                old(self)@,
                table.spec_len(),
                master_phase,
                master_start,
            ),
    {
        if table.len() < 2 {
            return None;
        }
        match self.mode {
            TableMode::Off => None,
            TableMode::Loop => Some(self.phase.step().0),
            TableMode::OneShot => {
                if self.one_shot != OneShotState::Running {
                    return None;
                }
                let (theta, wrapped) = self.phase.step();
                if wrapped {
                    self.one_shot = OneShotState::Idle;
                    return None;
                }
                Some(theta)
            },
            TableMode::LockedLoop => Some(locked(master_phase, self.multiplier, self.phase_offset)),
            TableMode::LockedOneShot => {
                if self.one_shot == OneShotState::Armed {
                    if !master_start {
                        return None;
                    }
                    self.one_shot = OneShotState::Running;
                    self.previous_master = master_phase;
                    self.locked_progress = 0;
                } else if self.one_shot == OneShotState::Running {
                    let delta: u64 = if master_phase >= self.previous_master {
                        (master_phase - self.previous_master) as u64
                    } else {
                        (master_phase as u64 + 4294967296) - self.previous_master as u64
                    };
                    self.previous_master = master_phase;
                    let k = self.multiplier as u64;
                    assert(delta * k <= 4294967295 * 4294967295) by (nonlinear_arith)
                        requires
                            delta <= 4294967295,
                            k <= 4294967295,
                    ;
                    let add = delta * k;
                    self.locked_progress = self.locked_progress.saturating_add(add);
                    if self.locked_progress >= 4294967296 {
                        self.one_shot = OneShotState::Idle;
                        return None;
                    }
                } else {
                    return None;
                }
                Some(locked(master_phase, self.multiplier, self.phase_offset))
            },
        }
    }
}

/// Silent states stay silent: a stopped player, an idle free one-shot and a
/// locked one-shot waiting for the master period start output nothing and do
/// not change state; a locked loop always plays the exact multiple of the
/// master phase plus the offset.
pub proof fn lemma_waiting_players_are_silent(s: PlayerState, len: nat, master: u32, start: bool)
    requires
        len >= 2,
    ensures
        s.mode == TableMode::Off ==> spec_tick(s, len, master, start) == (s, None::<u32>),
        s.mode == TableMode::OneShot && s.one_shot != OneShotState::Running ==> spec_tick(
            s,
            len,
            master,
            start,
        ) == (s, None::<u32>),
        s.mode == TableMode::LockedOneShot && s.one_shot == OneShotState::Armed && !start
            ==> spec_tick(s, len, master, start) == (s, None::<u32>),
        s.mode == TableMode::LockedOneShot && s.one_shot == OneShotState::Idle ==> spec_tick(
            s,
            len,
            master,
            start,
        ) == (s, None::<u32>),
        s.mode == TableMode::LockedLoop ==> spec_tick(s, len, master, start) == (
            s,
            Some(locked_theta(master, s.multiplier, s.phase_offset)),
        ),
{
}

/// State and output of a player after `n` ticks without a master phase.
pub open spec fn one_shot_after(s: PlayerState, len: nat, n: nat) -> (PlayerState, Option<u32>)
    decreases n,
{
    if n <= 1 {
        spec_tick(s, len, 0, false)
    } else {
        spec_tick(one_shot_after(s, len, (n - 1) as nat).0, len, 0, false)
    }
}

/// Free one-shot playback covers exactly one pass of the table: starting
/// from a trigger (phase 0, running) with a non-zero increment, every tick
/// plays while the accumulated phase stays within one turn, and the tick
/// that completes the turn silences the player.
pub proof fn lemma_one_shot_single_pass(s: PlayerState, len: nat, n: nat)
    requires
        len >= 2,
        s.mode == TableMode::OneShot,
        s.one_shot == OneShotState::Running,
        s.phase == 0,
        s.increment > 0,
        n >= 1,
        n * s.increment < turn(),
    ensures
        one_shot_after(s, len, n).0 == (PlayerState { phase: (n * s.increment) as u32, ..s }),
        one_shot_after(s, len, n).1 == Some((n * s.increment) as u32),
        ({
            let next = spec_tick(one_shot_after(s, len, n).0, len, 0, false);
            (n + 1) * s.increment >= turn() ==> next.1 is None && next.0.one_shot
                == OneShotState::Idle
        }),
    decreases n,
{
    assert((n + 1) * s.increment == n * s.increment + s.increment) by (nonlinear_arith);
    if n > 1 {
        assert((n - 1) * s.increment + s.increment == n * s.increment) by (nonlinear_arith)
            requires
                n >= 1,
        ;
        lemma_one_shot_single_pass(s, len, (n - 1) as nat);
        let x = (n - 1) * s.increment;
        assert((x + s.increment) % turn() == n * s.increment);
    } else {
        assert(n * s.increment == s.increment) by (nonlinear_arith)
            requires
                n == 1,
        ;
    }
}

/// Total advance of the master phase from `m0` through the phases `ms`,
/// each step counted forward modulo one turn (so a wrap of the master
/// accumulator is a forward step, not a jump back).
pub open spec fn master_advance(m0: u32, ms: Seq<u32>) -> nat
    decreases ms.len(),
{
    if ms.len() == 0 {
        0
    } else {
        let previous = if ms.len() == 1 {
            m0
        } else {
            ms[ms.len() - 2]
        };
        master_advance(m0, ms.drop_last()) + ((ms.last() - previous) % turn()) as nat
    }
}

/// State and output of a player after one tick at each master phase of
/// `ms` (no period start).
pub open spec fn ticks_at(s: PlayerState, len: nat, ms: Seq<u32>) -> (PlayerState, Option<u32>)
    decreases ms.len(),
{
    if ms.len() == 0 {
        (s, None)
    } else {
        spec_tick(ticks_at(s, len, ms.drop_last()).0, len, ms.last(), false)
    }
}

proof fn lemma_master_advance_grows(m0: u32, ms: Seq<u32>, k: u32)
    requires
        ms.len() >= 1,
    ensures
        master_advance(m0, ms.drop_last()) * k <= master_advance(m0, ms) * k,
{
    let a = master_advance(m0, ms.drop_last());
    let b = master_advance(m0, ms);
    assert(a <= b);
    assert(a * k <= b * k) by (nonlinear_arith)
        requires
            a <= b,
    ;
}

proof fn lemma_running_locked_one_shot(s: PlayerState, len: nat, m0: u32, ms: Seq<u32>)
    requires
        len >= 2,
        s.mode == TableMode::LockedOneShot,
        s.one_shot == OneShotState::Running,
        s.previous_master == m0,
        s.locked_progress == 0,
        ms.len() >= 1,
        master_advance(m0, ms.drop_last()) * s.multiplier < turn(),
    ensures
        ({
            let r = ticks_at(s, len, ms);
            let progress = master_advance(m0, ms) * s.multiplier;
            if progress < turn() {
                &&& r.0 == (PlayerState {
                    previous_master: ms.last(),
                    locked_progress: progress as u64,
                    ..s
                })
                &&& r.1 == Some(locked_theta(ms.last(), s.multiplier, s.phase_offset))
            } else {
                &&& r.0.one_shot == OneShotState::Idle
                &&& r.1 is None
            }
        }),
    decreases ms.len(),
{
    let k = s.multiplier;
    let d = ms.drop_last();
    let previous = if ms.len() == 1 {
        m0
    } else {
        ms[ms.len() - 2]
    };
    let delta = ((ms.last() - previous) % turn()) as nat;
    let a = master_advance(m0, d);
    assert(master_advance(m0, ms) == a + delta);
    assert((a + delta) * k == a * k + delta * k) by (nonlinear_arith);
    assert(delta * k <= 4294967295 * 4294967295) by (nonlinear_arith)
        requires
            delta < 4294967296,
            k <= 4294967295,
    ;
    if ms.len() == 1 {
        assert(d.len() == 0);
        assert(ticks_at(s, len, d).0 == s);
        assert(a == 0);
        assert(a * k == 0);
    } else {
        lemma_master_advance_grows(m0, d, k);
        lemma_running_locked_one_shot(s, len, m0, d);
        assert(d.last() == previous);
    }
}

/// Locked one-shot playback covers one pass of the table at the locked
/// rate: once armed and started at a master period start `m0`, the player
/// accumulates the master's forward advance times the multiplier `k`. It
/// plays the locked phase of every tick whose accumulated progress stays
/// below one turn, and the first tick at which the master has advanced by
/// a whole turn divided by `k` silences it and leaves it idle.
pub proof fn lemma_locked_one_shot_single_pass(s: PlayerState, len: nat, m0: u32, ms: Seq<u32>)
    requires
        len >= 2,
        s.mode == TableMode::LockedOneShot,
        s.one_shot == OneShotState::Armed,
        ms.len() >= 1,
        master_advance(m0, ms.drop_last()) * s.multiplier < turn(),
    ensures
        spec_tick(s, len, m0, true).1 == Some(locked_theta(m0, s.multiplier, s.phase_offset)),
        ({
            let r = ticks_at(spec_tick(s, len, m0, true).0, len, ms);
            let progress = master_advance(m0, ms) * s.multiplier;
            &&& progress < turn() ==> r.1 == Some(
                locked_theta(ms.last(), s.multiplier, s.phase_offset),
            ) && r.0.one_shot == OneShotState::Running && r.0.locked_progress == progress
            &&& progress >= turn() ==> r.1 is None && r.0.one_shot == OneShotState::Idle
        }),
{
    let started = spec_tick(s, len, m0, true).0;
    lemma_running_locked_one_shot(started, len, m0, ms);
}

/// Free loop playback advances by the increment every tick and wraps
/// around the table for ever: after `n` ticks from phase `p` it plays
/// `p + n * increment` modulo one turn, whatever the master does.
pub proof fn lemma_loop_advances_by_increment(s: PlayerState, len: nat, ms: Seq<u32>)
    requires
        len >= 2,
        s.mode == TableMode::Loop,
        ms.len() >= 1,
    ensures
        ({
            let theta = ((s.phase + ms.len() * s.increment) % turn()) as u32;
            ticks_at(s, len, ms) == (PlayerState { phase: theta, ..s }, Some(theta))
        }),
    decreases ms.len(),
{
    let n = ms.len();
    let d = ms.drop_last();
    if n > 1 {
        lemma_loop_advances_by_increment(s, len, d);
        let x = s.phase + (n - 1) * s.increment;
        let prev = (x % turn()) as u32;
        assert(prev as int == x % turn());
        assert((n - 1) * s.increment + s.increment == n * s.increment) by (nonlinear_arith)
            requires
                n >= 1,
        ;
        assert((x % turn() + s.increment) % turn() == (s.phase + n * s.increment) % turn()) by {
            vstd::arithmetic::div_mod::lemma_add_mod_noop(
                s.phase + (n - 1) * s.increment,
                s.increment as int,
                turn(),
            );
            vstd::arithmetic::div_mod::lemma_small_mod(s.increment as nat, turn() as nat);
            assert(x + s.increment == s.phase + n * s.increment);
        }
        assert(ticks_at(s, len, d).0 == (PlayerState { phase: prev, ..s }));
        assert(ticks_at(s, len, ms) == spec_tick(ticks_at(s, len, d).0, len, ms.last(), false));
    } else {
        assert(d.len() == 0);
        assert(n * s.increment == s.increment) by (nonlinear_arith)
            requires
                n == 1,
        ;
    }
}

fn locked(master: u32, multiplier: u32, offset: u32) -> (t: u32)
    ensures
        t == locked_theta(master, multiplier, offset),
{
    let m = master as u64;
    let k = multiplier as u64;
    assert(m * k <= 18446744069414584321) by (nonlinear_arith)
        requires
            m <= 4294967295,
            k <= 4294967295,
    ;
    (((m * k) % 4294967296 + offset as u64) % 4294967296) as u32
}

} // verus!
