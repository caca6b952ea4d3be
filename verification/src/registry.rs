//! Name-based parameter registry of the single-experiment firmware: the
//! fixed platform parameters followed by the active controller's, the
//! shadow values reads are served from, and how a write is decided.
//!
//! Values travel as little-endian bytes; an `f32` value is held as its bit
//! pattern, and the one check on a float value (the excitation frequency
//! lies in `[0, fs/2)`) is made by the caller and handed in.

use vstd::prelude::*;
use vstd::string::StringSliceAdditionalSpecFns;

use crate::bytes::{from_le16, from_le32, le16, le32, put_bytes, put_u16, put_u32, u16_from_le, u32_from_le};
use crate::frame::MAX_PAYLOAD;
use crate::{param_type_code, param_type_size, ErrorCode, ParamType, VERSION};

verus! {

/// Harmonics of the periodic target and forcing series.
pub const HARMONICS: usize = 16;

/// Values of a coefficient set: mean, `a[1..=K]`, `b[1..=K]`.
pub const COEFF_COUNT: u16 = 33;

/// Number of fixed platform parameters, which come first.
pub const BASE_PARAM_COUNT: usize = 14;

/// Controller parameters the registry can shadow.
pub const MAX_CTRL_PARAMS: usize = 8;

pub const IDX_FREQ: usize = 10;

pub const IDX_TARGET: usize = 11;

pub const IDX_FORCING: usize = 12;

pub const IDX_CTRL_RESET: usize = 13;

/// One registry entry.
#[derive(Clone, Copy, Debug)]
pub struct ParamDef {
    pub name: &'static str,
    pub ty: ParamType,
    pub count: u16,
    pub writable: bool,
}

/// Name of fixed parameter `i`.
pub open spec fn base_name(i: int) -> &'static str {
    if i == 0 {
        "firmware"
    } else if i == 1 {
        "sample_freq"
    } else if i == 2 {
        "ticks"
    } else if i == 3 {
        "loop_time_last"
    } else if i == 4 {
        "loop_time_max"
    } else if i == 5 {
        "clock_jitter"
    } else if i == 6 {
        "overruns"
    } else if i == 7 {
        "busy_timeouts"
    } else if i == 8 {
        "records_dropped"
    } else if i == 9 {
        "laser"
    } else if i == 10 {
        "freq"
    } else if i == 11 {
        "target_coeffs"
    } else if i == 12 {
        "forcing_coeffs"
    } else {
        "ctrl_reset"
    }
}

/// Element type of fixed parameter `i`.
pub open spec fn base_type(i: int) -> ParamType {
    if i == 0 {
        ParamType::Char
    } else if i == 1 || i == 9 || i == 10 || i == 11 || i == 12 {
        ParamType::F32
    } else {
        ParamType::U32
    }
}

/// Element count of fixed parameter `i`.
pub open spec fn base_count(i: int) -> u16 {
    if i == 0 {
        16
    } else if i == 11 || i == 12 {
        COEFF_COUNT
    } else {
        1
    }
}

/// Fixed parameters from `freq` on are writable; the diagnostics are not.
pub open spec fn base_writable(i: int) -> bool {
    i >= IDX_FREQ
}

/// Name, element type, count and writability of an entry.
pub open spec fn def_fields(d: ParamDef) -> (&'static str, ParamType, u16, bool) {
    (d.name, d.ty, d.count, d.writable)
}

/// Fixed parameter `i`.
fn base_def(i: usize) -> (d: ParamDef)
    requires
        i < BASE_PARAM_COUNT,
    ensures
        def_fields(d) == (base_name(i as int), base_type(i as int), base_count(i as int), base_writable(i as int)),
{
    match i {
        0 => ParamDef { name: "firmware", ty: ParamType::Char, count: 16, writable: false },
        1 => ParamDef { name: "sample_freq", ty: ParamType::F32, count: 1, writable: false },
        2 => ParamDef { name: "ticks", ty: ParamType::U32, count: 1, writable: false },
        3 => ParamDef { name: "loop_time_last", ty: ParamType::U32, count: 1, writable: false },
        4 => ParamDef { name: "loop_time_max", ty: ParamType::U32, count: 1, writable: false },
        5 => ParamDef { name: "clock_jitter", ty: ParamType::U32, count: 1, writable: false },
        6 => ParamDef { name: "overruns", ty: ParamType::U32, count: 1, writable: false },
        7 => ParamDef { name: "busy_timeouts", ty: ParamType::U32, count: 1, writable: false },
        8 => ParamDef { name: "records_dropped", ty: ParamType::U32, count: 1, writable: false },
        9 => ParamDef { name: "laser", ty: ParamType::F32, count: 1, writable: false },
        10 => ParamDef { name: "freq", ty: ParamType::F32, count: 1, writable: true },
        11 => ParamDef {
            name: "target_coeffs",
            ty: ParamType::F32,
            count: COEFF_COUNT,
            writable: true,
        },
        12 => ParamDef {
            name: "forcing_coeffs",
            ty: ParamType::F32,
            count: COEFF_COUNT,
            writable: true,
        },
        _ => ParamDef { name: "ctrl_reset", ty: ParamType::U32, count: 1, writable: true },
    }
}

/// Byte length of `count` elements of type `ty`.
fn value_bytes(ty: ParamType, count: u16) -> (n: usize)
    ensures
        n == param_type_size(ty) * (count as nat),
{
    let size = ty.size();
    assert(size * (count as nat) <= 4 * 65535) by (nonlinear_arith)
        requires
            size <= 4,
            count <= 65535,
    ;
    size * count as usize
}

/// The registry: fixed parameters, then one writable `f32` per controller
/// parameter name, with the current value bytes of every entry. Writable
/// entries hold the shadow of the last accepted write; the read-only
/// readings (firmware text, sample rate, loop diagnostics, laser value) are
/// what the caller last handed to `refresh_readings`.
pub struct ParamTable {
    ctrl_names: Vec<&'static str>,
    values: Vec<Vec<u8>>,
}

/// Name, type, count and writability of entry `i` of a registry whose
/// controller parameters are named `ctrl`, if there is such an entry.
pub open spec fn entry(ctrl: Seq<&'static str>, i: int) -> Option<(&'static str, ParamType, u16, bool)> {
    if 0 <= i < BASE_PARAM_COUNT {
        Some((base_name(i), base_type(i), base_count(i), base_writable(i)))
    } else if BASE_PARAM_COUNT <= i < BASE_PARAM_COUNT + ctrl.len() {
        Some((ctrl[i - BASE_PARAM_COUNT], ParamType::F32, 1u16, true))
    } else {
        None
    }
}

/// Byte length of the value of an entry given by its fields.
pub open spec fn entry_len(e: (&'static str, ParamType, u16, bool)) -> nat {
    param_type_size(e.1) * (e.2 as nat)
}

impl ParamTable {
    pub closed spec fn spec_ctrl(&self) -> Seq<&'static str> {
        self.ctrl_names@
    }

    pub closed spec fn spec_values(&self) -> Seq<Seq<u8>> {
        self.values@.map_values(|v: Vec<u8>| v@)
    }

    /// Number of entries.
    pub open spec fn spec_count(&self) -> int {
        BASE_PARAM_COUNT + self.spec_ctrl().len()
    }

    /// Well-formed: at most `MAX_CTRL_PARAMS` controller parameters and one
    /// value of the right length per entry.
    pub closed spec fn wf(&self) -> bool {
        &&& self.ctrl_names@.len() <= MAX_CTRL_PARAMS
        &&& self.values@.len() == BASE_PARAM_COUNT + self.ctrl_names@.len()
        &&& forall|i: int|
            0 <= i < self.values@.len() ==> #[trigger] self.values@[i]@.len() == entry_len(
                entry(self.ctrl_names@, i).unwrap(),
            )
    }

    /// A registry for the given controller parameter names, every value
    /// zero.
    pub fn new(ctrl_names: Vec<&'static str>) -> (t: Self)
        requires
            ctrl_names@.len() <= MAX_CTRL_PARAMS,
        ensures
            t.wf(),
            t.spec_ctrl() == ctrl_names@,
            forall|i: int|
                0 <= i < t.spec_count() ==> #[trigger] t.spec_values()[i] == Seq::new(
                    entry_len(entry(ctrl_names@, i).unwrap()),
                    |k: int| 0u8,
                ),
            t.spec_values().len() == t.spec_count(),
    {
        let total = BASE_PARAM_COUNT + ctrl_names.len();
        let mut values: Vec<Vec<u8>> = Vec::new();
        let mut i: usize = 0;
        while i < total
            invariant
                total == BASE_PARAM_COUNT + ctrl_names@.len(),
                ctrl_names@.len() <= MAX_CTRL_PARAMS,
                i <= total,
                values@.len() == i,
                forall|j: int|
                    0 <= j < i ==> #[trigger] values@[j]@ == Seq::new(
                        entry_len(entry(ctrl_names@, j).unwrap()),
                        |k: int| 0u8,
                    ),
            decreases total - i,
        {
            let n = if i < BASE_PARAM_COUNT {
                let d = base_def(i);
                value_bytes(d.ty, d.count)
            } else {
                4
            };
            let mut v: Vec<u8> = Vec::new();
            let mut k: usize = 0;
            while k < n
                invariant
                    k <= n,
                    v@ == Seq::new(k as nat, |m: int| 0u8),
                decreases n - k,
            {
                v.push(0);
                k = k + 1;
                assert(v@ =~= Seq::new(k as nat, |m: int| 0u8));
            }
            assert(v@ =~= Seq::new(entry_len(entry(ctrl_names@, i as int).unwrap()), |m: int| 0u8));
            values.push(v);
            i = i + 1;
        }
        let t = ParamTable { ctrl_names, values };
        assert(t.spec_values().len() == t.spec_count());
        t
    }

    /// Number of entries.
    pub fn count(&self) -> (n: usize)
        requires
            self.wf(),
        ensures
            n == self.spec_count(),
    {
        BASE_PARAM_COUNT + self.ctrl_names.len()
    }

    /// Definition of entry `index`.
    pub fn def(&self, index: usize) -> (d: Option<ParamDef>)
        requires
            self.wf(),
        ensures
            match entry(self.spec_ctrl(), index as int) {
                Some(e) => d matches Some(x) && def_fields(x) == e,
                None => d is None,
            },
    {
        if index < BASE_PARAM_COUNT {
            Some(base_def(index))
        } else if index - BASE_PARAM_COUNT < self.ctrl_names.len() {
            Some(
                ParamDef {
                    name: self.ctrl_names[index - BASE_PARAM_COUNT],
                    ty: ParamType::F32,
                    count: 1,
                    writable: true,
                },
            )
        } else {
            None
        }
    }

    /// The value bytes of entry `index`.
    pub fn value(&self, index: usize) -> (v: &[u8])
        requires
            self.wf(),
            index < self.spec_count(),
        ensures
            v@ == self.spec_values()[index as int],
            v@.len() == entry_len(entry(self.spec_ctrl(), index as int).unwrap()),
    {
        self.values[index].as_slice()
    }

    /// Replace the value of entry `index`; refused (and nothing changes)
    /// unless the entry exists and `bytes` has its value length.
    pub fn set_value(&mut self, index: usize, bytes: &[u8]) -> (ok: bool)
        requires
            old(self).wf(),
        ensures
            final(self).wf(),
            ok == (index < old(self).spec_count() && bytes@.len() == entry_len(
                entry(old(self).spec_ctrl(), index as int).unwrap(),
            )),
            final(self).spec_ctrl() == old(self).spec_ctrl(),
            ok ==> final(self).spec_values() == old(self).spec_values().update(index as int, bytes@),
            !ok ==> final(self).spec_values() == old(self).spec_values(),
    {
        let expected = match self.def(index) {
            Some(d) => value_bytes(d.ty, d.count),
            None => {
                return false;
            },
        };
        if bytes.len() != expected {
            return false;
        }
        let mut v: Vec<u8> = Vec::new();
        let mut k: usize = 0;
        while k < bytes.len()
            invariant
                k <= bytes@.len(),
                v@ == bytes@.take(k as int),
            decreases bytes@.len() - k,
        {
            v.push(bytes[k]);
            k = k + 1;
            assert(v@ =~= bytes@.take(k as int));
        }
        assert(v@ =~= bytes@);
        let ghost before = self.spec_values();
        self.values.set(index, v);
        assert(self.spec_values() =~= before.update(index as int, bytes@));
        true
    }
}

/// The first `n` bytes of `b`, padded with zeros.
pub open spec fn padded(b: Seq<u8>, n: nat) -> Seq<u8> {
    Seq::new(n, |i: int| if i < b.len() { b[i] } else { 0u8 })
}

/// The little-endian bytes of `v` in a vector.
fn le32_vec(v: u32) -> (r: Vec<u8>)
    ensures
        r@ == le32(v),
{
    let r = vec![(v % 256) as u8, ((v / 256) % 256) as u8, ((v / 65536) % 256) as u8, (v / 16777216) as u8];
    assert(r@ =~= le32(v));
    r
}

impl ParamTable {
    /// Refresh the read-only readings served by `GetPar`: the firmware
    /// identification (truncated or zero-padded to 16 bytes), the sample
    /// rate and the laser value (`f32` bits), and the seven loop diagnostics
    /// `ticks` .. `records_dropped`. Writable entries keep their shadows.
    pub fn refresh_readings(
        &mut self,
        firmware: &str,
        sample_rate_bits: u32,
        diagnostics: [u32; 7],
        laser_bits: u32,
    )
        requires
            old(self).wf(),
        ensures
            final(self).wf(),
            final(self).spec_ctrl() == old(self).spec_ctrl(),
            final(self).spec_values().len() == old(self).spec_values().len(),
            final(self).spec_values()[0] == padded(firmware.spec_bytes(), 16),
            final(self).spec_values()[1] == le32(sample_rate_bits),
            forall|i: int|
                0 <= i < 7 ==> #[trigger] final(self).spec_values()[2 + i] == le32(diagnostics[i]),
            final(self).spec_values()[9] == le32(laser_bits),
            forall|j: int|
                IDX_FREQ <= j < old(self).spec_count() ==> #[trigger] final(self).spec_values()[j]
                    == old(self).spec_values()[j],
    {
        let bytes = firmware.as_bytes();
        let mut text: Vec<u8> = Vec::new();
        let mut k: usize = 0;
        while k < 16
            invariant
                k <= 16,
                text@ == padded(bytes@, 16).take(k as int),
            decreases 16 - k,
        {
            text.push(if k < bytes.len() { bytes[k] } else { 0 });
            k = k + 1;
            assert(text@ =~= padded(bytes@, 16).take(k as int));
        }
        assert(text@ =~= padded(bytes@, 16));
        let ghost start = self.spec_values();
        self.set_value(0, text.as_slice());
        let rate = le32_vec(sample_rate_bits);
        assert(entry_len(entry(self.spec_ctrl(), 1).unwrap()) == 4);
        let ok = self.set_value(1, rate.as_slice());
        assert(ok);
        let mut i: usize = 0;
        while i < 7
            invariant
                self.wf(),
                self.spec_ctrl() == old(self).spec_ctrl(),
                self.spec_values().len() == start.len(),
                i <= 7,
                self.spec_values()[0] == padded(bytes@, 16),
                self.spec_values()[1] == le32(sample_rate_bits),
                forall|m: int| 0 <= m < i ==> #[trigger] self.spec_values()[2 + m] == le32(diagnostics[m]),
                forall|j: int| 9 <= j < start.len() ==> #[trigger] self.spec_values()[j] == start[j],
            decreases 7 - i,
        {
            let v = le32_vec(diagnostics[i]);
            assert(entry_len(entry(self.spec_ctrl(), 2 + i as int).unwrap()) == 4);
            let ok = self.set_value(2 + i, v.as_slice());
            assert(ok);
            i = i + 1;
        }
        let laser = le32_vec(laser_bits);
        assert(entry_len(entry(self.spec_ctrl(), 9).unwrap()) == 4);
        let ok = self.set_value(9, laser.as_slice());
        assert(ok);
    }
}

/// What the real-time loop is told after an accepted write.
#[derive(Clone, Copy, Debug, PartialEq, Eq, Structural)]
pub enum ParamCommand {
    /// A new excitation frequency (the `freq` value).
    Frequency,
    /// A new target coefficient set.
    TargetCoeffs,
    /// A new forcing coefficient set.
    ForcingCoeffs,
    /// Reset the controller state.
    ResetController,
    /// A new value for controller parameter `id`.
    ControllerParam(u16),
    /// Nothing to apply: a zero written to `ctrl_reset`.
    Unchanged,
}

/// The outcome of writing `data` to entry `index`: `freq_in_range` says
/// whether the bytes, read as an `f32`, lie in `[0, fs/2)`, and
/// `queue_full` whether the command queue to the real-time loop is full.
pub open spec fn set_outcome(
    ctrl: Seq<&'static str>,
    index: int,
    data: Seq<u8>,
    freq_in_range: bool,
    queue_full: bool,
) -> Result<ParamCommand, ErrorCode> {
    match entry(ctrl, index) {
        None => Err(ErrorCode::BadIndex),
        Some(e) => if !e.3 {
            Err(ErrorCode::ReadOnly)
        } else if data.len() != entry_len(e) {
            Err(ErrorCode::BadLength)
        } else {
            let command = if index == IDX_FREQ {
                ParamCommand::Frequency
            } else if index == IDX_TARGET {
                ParamCommand::TargetCoeffs
            } else if index == IDX_FORCING {
                ParamCommand::ForcingCoeffs
            } else if index == IDX_CTRL_RESET {
                if from_le32(data[0], data[1], data[2], data[3]) == 0 {
                    ParamCommand::Unchanged
                } else {
                    ParamCommand::ResetController
                }
            } else {
                ParamCommand::ControllerParam((index - BASE_PARAM_COUNT) as u16)
            };
            if index == IDX_FREQ && !freq_in_range {
                Err(ErrorCode::BadValue)
            } else if command == ParamCommand::Unchanged {
                Ok(command)
            } else if queue_full {
                Err(ErrorCode::Busy)
            } else {
                Ok(command)
            }
        },
    }
}

/// Each accepted write forwards the command of the entry it names: `freq`
/// the frequency, `target_coeffs` the target set, `forcing_coeffs` the
/// forcing set, `ctrl_reset` a controller reset (or nothing for a zero), and
/// the `i`-th controller parameter the write of parameter `i`. So no two
/// entries share a command, and a write is never forwarded to another
/// entry's destination.
pub proof fn lemma_writes_reach_their_own_destination(
    ctrl: Seq<&'static str>,
    index: int,
    data: Seq<u8>,
    freq_in_range: bool,
    queue_full: bool,
)
    requires
        ctrl.len() <= MAX_CTRL_PARAMS,
    ensures
        set_outcome(ctrl, index, data, freq_in_range, queue_full) matches Ok(c) ==> {
            let e = entry(ctrl, index).unwrap();
            &&& c == ParamCommand::Frequency ==> index < BASE_PARAM_COUNT && e.0 == "freq"
            &&& c == ParamCommand::TargetCoeffs ==> index < BASE_PARAM_COUNT && e.0 == "target_coeffs"
            &&& c == ParamCommand::ForcingCoeffs ==> index < BASE_PARAM_COUNT && e.0
                == "forcing_coeffs"
            &&& (c == ParamCommand::ResetController || c == ParamCommand::Unchanged) ==> index
                < BASE_PARAM_COUNT && e.0 == "ctrl_reset"
            &&& c matches ParamCommand::ControllerParam(i) ==> index >= BASE_PARAM_COUNT && i
                < ctrl.len() && e.0 == ctrl[i as int]
            &&& c == ParamCommand::ResetController ==> from_le32(data[0], data[1], data[2], data[3])
                != 0
        },
{
    if set_outcome(ctrl, index, data, freq_in_range, queue_full) is Ok {
        assert(entry(ctrl, index) is Some);
        if index >= BASE_PARAM_COUNT {
            assert(0 <= index - BASE_PARAM_COUNT < ctrl.len());
            assert(((index - BASE_PARAM_COUNT) as u16) as int == index - BASE_PARAM_COUNT);
        }
    }
}

/// A write is accepted only to an existing writable entry with a value of
/// exactly its length, a frequency only when in range, and a command only
/// when the queue has room; an existing read-only entry is always refused as
/// read-only, and an index past the registry as unknown.
pub proof fn lemma_write_refusals(
    ctrl: Seq<&'static str>,
    index: int,
    data: Seq<u8>,
    freq_in_range: bool,
    queue_full: bool,
)
    ensures
        set_outcome(ctrl, index, data, freq_in_range, queue_full) matches Ok(c) ==> {
            &&& entry(ctrl, index) matches Some(e) && e.3 && data.len() == entry_len(e)
            &&& index == IDX_FREQ ==> freq_in_range
            &&& c != ParamCommand::Unchanged ==> !queue_full
        },
        entry(ctrl, index) is None <==> set_outcome(ctrl, index, data, freq_in_range, queue_full)
            == Err::<ParamCommand, ErrorCode>(ErrorCode::BadIndex),
        entry(ctrl, index) matches Some(e) && !e.3 ==> set_outcome(
            ctrl,
            index,
            data,
            freq_in_range,
            queue_full,
        ) == Err::<ParamCommand, ErrorCode>(ErrorCode::ReadOnly),
{
}

/// Distinct entries never yield the same forwarded command.
pub proof fn lemma_write_commands_are_distinct(
    ctrl: Seq<&'static str>,
    a: int,
    b: int,
    data_a: Seq<u8>,
    data_b: Seq<u8>,
    freq_in_range: bool,
    queue_full: bool,
)
    requires
        ctrl.len() <= MAX_CTRL_PARAMS,
        set_outcome(ctrl, a, data_a, freq_in_range, queue_full) matches Ok(c) && c
            != ParamCommand::Unchanged,
        set_outcome(ctrl, a, data_a, freq_in_range, queue_full) == set_outcome(
            ctrl,
            b,
            data_b,
            freq_in_range,
            queue_full,
        ),
    ensures
        a == b,
{
    lemma_writes_reach_their_own_destination(ctrl, a, data_a, freq_in_range, queue_full);
    lemma_writes_reach_their_own_destination(ctrl, b, data_b, freq_in_range, queue_full);
    if a >= BASE_PARAM_COUNT {
        assert(((a - BASE_PARAM_COUNT) as u16) as int == a - BASE_PARAM_COUNT);
    }
    if b >= BASE_PARAM_COUNT {
        assert(((b - BASE_PARAM_COUNT) as u16) as int == b - BASE_PARAM_COUNT);
    }
}

/// Decide a write of `data` to entry `index`: unknown entry, read-only
/// entry, wrong length, frequency out of range, full command queue, or the
/// command to forward.
pub fn param_set_decision(
    params: &ParamTable,
    index: usize,
    data: &[u8],
    freq_in_range: bool,
    queue_full: bool,
) -> (r: Result<ParamCommand, ErrorCode>)
    requires
        params.wf(),
    ensures
        r == set_outcome(params.spec_ctrl(), index as int, data@, freq_in_range, queue_full),
{
    let def = match params.def(index) {
        Some(d) => d,
        None => {
            return Err(ErrorCode::BadIndex);
        },
    };
    if !def.writable {
        return Err(ErrorCode::ReadOnly);
    }
    if data.len() != value_bytes(def.ty, def.count) {
        return Err(ErrorCode::BadLength);
    }
    let command = if index == IDX_FREQ {
        if !freq_in_range {
            return Err(ErrorCode::BadValue);
        }
        ParamCommand::Frequency
    } else if index == IDX_TARGET {
        ParamCommand::TargetCoeffs
    } else if index == IDX_FORCING {
        ParamCommand::ForcingCoeffs
    } else if index == IDX_CTRL_RESET {
        let reset = u32_from_le(data[0], data[1], data[2], data[3]);
        if reset == 0 {
            return Ok(ParamCommand::Unchanged);
        }
        ParamCommand::ResetController
    } else {
        ParamCommand::ControllerParam((index - BASE_PARAM_COUNT) as u16)
    };
    if queue_full {
        return Err(ErrorCode::Busy);
    }
    Ok(command)
}

/// Requests of the control connection.
#[derive(Clone, Copy, Debug, PartialEq, Eq, Structural)]
pub enum Request {
    GetParNames,
    GetParInfo,
    GetPar,
    SetPar,
    SetBlock,
    Commit,
    StreamSetup,
    StreamStart,
    StreamStop,
    Status,
    Error,
}

/// Wire code of each request type.
pub open spec fn request_code(q: Request) -> u8 {
    match q {
        Request::GetParNames => 1,
        Request::GetParInfo => 2,
        Request::GetPar => 3,
        Request::SetPar => 4,
        Request::SetBlock => 5,
        Request::Commit => 6,
        Request::StreamSetup => 7,
        Request::StreamStart => 8,
        Request::StreamStop => 9,
        Request::Status => 10,
        Request::Error => 0xFF,
    }
}

/// The request with wire code `ty`, if any.
pub open spec fn request_of(ty: u8) -> Option<Request> {
    if ty == 1 {
        Some(Request::GetParNames)
    } else if ty == 2 {
        Some(Request::GetParInfo)
    } else if ty == 3 {
        Some(Request::GetPar)
    } else if ty == 4 {
        Some(Request::SetPar)
    } else if ty == 5 {
        Some(Request::SetBlock)
    } else if ty == 6 {
        Some(Request::Commit)
    } else if ty == 7 {
        Some(Request::StreamSetup)
    } else if ty == 8 {
        Some(Request::StreamStart)
    } else if ty == 9 {
        Some(Request::StreamStop)
    } else if ty == 10 {
        Some(Request::Status)
    } else if ty == 0xFF {
        Some(Request::Error)
    } else {
        None
    }
}

impl Request {
    /// The request with wire code `ty`.
    pub fn from_u8(ty: u8) -> (r: Option<Request>)
        ensures
            r == request_of(ty),
            r matches Some(q) ==> request_code(q) == ty,
    {
        match ty {
            1 => Some(Request::GetParNames),
            2 => Some(Request::GetParInfo),
            3 => Some(Request::GetPar),
            4 => Some(Request::SetPar),
            5 => Some(Request::SetBlock),
            6 => Some(Request::Commit),
            7 => Some(Request::StreamSetup),
            8 => Some(Request::StreamStart),
            9 => Some(Request::StreamStop),
            10 => Some(Request::Status),
            0xFF => Some(Request::Error),
            _ => None,
        }
    }
}

/// Most sources one stream may carry.
pub const MAX_STREAM_SOURCES: usize = 16;

/// Stream session settings shared with the sample streamer.
#[derive(Debug)]
pub struct StreamSettings {
    /// Destination address and port; `None` until a stream is started.
    pub target: Option<(u32, u16)>,
    pub enabled: bool,
    /// Source ids in record order.
    pub sources: Vec<u8>,
    /// Keep every n-th sample (at least 1).
    pub decimation: u16,
    /// Records to send before stopping; 0 is continuous.
    pub count: u32,
    /// Counts the stream starts; the streamer re-arms on a change.
    pub generation: u32,
}

/// Stream settings as values.
pub struct StreamView {
    pub target: Option<(u32, u16)>,
    pub enabled: bool,
    pub sources: Seq<u8>,
    pub decimation: u16,
    pub count: u32,
    pub generation: u32,
}

impl View for StreamSettings {
    type V = StreamView;

    open spec fn view(&self) -> StreamView {
        StreamView {
            target: self.target,
            enabled: self.enabled,
            sources: self.sources@,
            decimation: self.decimation,
            count: self.count,
            generation: self.generation,
        }
    }
}

impl StreamSettings {
    /// No target, stopped, no sources, decimation 1, continuous.
    pub fn new() -> (s: Self)
        ensures
            s.target is None,
            !s.enabled,
            s.sources@ == Seq::<u8>::empty(),
            s.decimation == 1,
            s.count == 0,
            s.generation == 0,
    {
        StreamSettings {
            target: None,
            enabled: false,
            sources: Vec::new(),
            decimation: 1,
            count: 0,
            generation: 0,
        }
    }
}

/// Names of entries `0..n`, each followed by a NUL.
pub open spec fn names_upto(ctrl: Seq<&'static str>, n: int) -> Seq<u8>
    decreases n,
{
    if n <= 0 {
        Seq::empty()
    } else {
        names_upto(ctrl, n - 1) + entry(ctrl, n - 1).unwrap().0.spec_bytes() + seq![0u8]
    }
}

/// Type code, element count and writability of entries `0..n`, four
/// bytes each.
pub open spec fn info_upto(ctrl: Seq<&'static str>, n: int) -> Seq<u8>
    decreases n,
{
    if n <= 0 {
        Seq::empty()
    } else {
        let e = entry(ctrl, n - 1).unwrap();
        info_upto(ctrl, n - 1) + seq![param_type_code(e.1)] + le16(e.2) + seq![
            if e.3 {
                1u8
            } else {
                0u8
            },
        ]
    }
}

proof fn lemma_names_grow(ctrl: Seq<&'static str>, i: int, n: int)
    requires
        0 <= i <= n,
    ensures
        names_upto(ctrl, i).len() <= names_upto(ctrl, n).len(),
    decreases n - i,
{
    if i < n {
        lemma_names_grow(ctrl, i, n - 1);
    }
}

proof fn lemma_info_len(ctrl: Seq<&'static str>, n: int)
    requires
        n >= 0,
    ensures
        info_upto(ctrl, n).len() == 4 * n,
    decreases n,
{
    if n > 0 {
        lemma_info_len(ctrl, n - 1);
    }
}

/// The values asked for by index pairs `j..` of a `GetPar` payload, given
/// `room` bytes left for them: their bytes in order, or the error of the
/// first unknown index or value that does not fit.
pub open spec fn get_values(
    ctrl: Seq<&'static str>,
    values: Seq<Seq<u8>>,
    payload: Seq<u8>,
    j: int,
    room: int,
) -> Result<Seq<u8>, ErrorCode>
    decreases payload.len() - 2 * j,
{
    if j < 0 || 2 * j + 1 >= payload.len() {
        Ok(Seq::empty())
    } else {
        let index = from_le16(payload[2 * j], payload[2 * j + 1]) as int;
        match entry(ctrl, index) {
            None => Err(ErrorCode::BadIndex),
            Some(e) => if room < entry_len(e) {
                Err(ErrorCode::BadLength)
            } else {
                match get_values(ctrl, values, payload, j + 1, room - entry_len(e)) {
                    Ok(rest) => Ok(values[index] + rest),
                    Err(x) => Err(x),
                }
            },
        }
    }
}

/// Decimation, record count and sources of a `StreamSetup` payload
/// (decimation `u16`, count `u32`, `n` `u8`, then `n` source ids), or why
/// it is refused; ids must be below `source_count`.
pub open spec fn stream_setup_outcome(payload: Seq<u8>, source_count: u8) -> Result<
    (u16, u32, Seq<u8>),
    ErrorCode,
> {
    if payload.len() < 7 {
        Err(ErrorCode::BadLength)
    } else {
        let decimation = from_le16(payload[0], payload[1]);
        let n = payload[6] as int;
        if decimation == 0 || n == 0 || n > MAX_STREAM_SOURCES || payload.len() != 7 + n {
            Err(ErrorCode::BadValue)
        } else if exists|k: int| 7 <= k < payload.len() && payload[k] >= source_count {
            Err(ErrorCode::BadValue)
        } else {
            Ok(
                (
                    decimation,
                    from_le32(payload[2], payload[3], payload[4], payload[5]),
                    payload.skip(7),
                ),
            )
        }
    }
}

/// The `Status` reply: version, entry count, sample rate (`f32` bits) and
/// uptime in milliseconds.
pub open spec fn status_bytes(count: u16, rate_bits: u32, uptime_ms: u32) -> Seq<u8> {
    seq![VERSION] + le16(count) + le32(rate_bits) + le32(uptime_ms)
}

/// A write whose value is kept as the entry's shadow.
pub open spec fn shadowed(c: ParamCommand) -> bool {
    c is Frequency || c is TargetCoeffs || c is ForcingCoeffs || c is ControllerParam
}

/// A successful answer: the response payload length and the command to
/// forward to the real-time loop, if any.
#[derive(Clone, Copy, Debug, PartialEq, Eq, Structural)]
pub struct Reply {
    pub len: usize,
    pub command: Option<ParamCommand>,
}

fn names_reply(params: &ParamTable, resp: &mut [u8]) -> (r: Result<usize, ErrorCode>)
    requires
        params.wf(),
        old(resp)@.len() == MAX_PAYLOAD,
    ensures
        r matches Ok(n) ==> n <= MAX_PAYLOAD,
        final(resp)@.len() == MAX_PAYLOAD,
        ({
            let b = names_upto(params.spec_ctrl(), params.spec_count());
            if b.len() > MAX_PAYLOAD {
                r == Err::<usize, ErrorCode>(ErrorCode::BadLength)
            } else {
                r == Ok::<usize, ErrorCode>(b.len() as usize) && final(resp)@.take(b.len() as int)
                    == b
            }
        }),
{
    let count = params.count();
    let ghost ctrl = params.spec_ctrl();
    let mut off: usize = 0;
    let mut i: usize = 0;
    while i < count
        invariant
            params.wf(),
            ctrl == params.spec_ctrl(),
            count == params.spec_count(),
            i <= count,
            resp@.len() == MAX_PAYLOAD,
            off == names_upto(ctrl, i as int).len(),
            off <= MAX_PAYLOAD,
            resp@.take(off as int) == names_upto(ctrl, i as int),
        decreases count - i,
    {
        let d = params.def(i).unwrap();
        let name = d.name.as_bytes();
        if name.len() >= MAX_PAYLOAD - off {
            proof {
                lemma_names_grow(ctrl, i + 1, count as int);
            }
            return Err(ErrorCode::BadLength);
        }
        put_bytes(resp, off, name);
        resp[off + name.len()] = 0;
        off = off + name.len() + 1;
        i = i + 1;
        assert(resp@.take(off as int) =~= names_upto(ctrl, i as int));
    }
    Ok(off)
}

fn info_reply(params: &ParamTable, resp: &mut [u8]) -> (r: usize)
    requires
        params.wf(),
        old(resp)@.len() == MAX_PAYLOAD,
    ensures
        r <= 4 * (BASE_PARAM_COUNT + MAX_CTRL_PARAMS),
        final(resp)@.len() == MAX_PAYLOAD,
        r == info_upto(params.spec_ctrl(), params.spec_count()).len(),
        final(resp)@.take(r as int) == info_upto(params.spec_ctrl(), params.spec_count()),
{
    let count = params.count();
    let ghost ctrl = params.spec_ctrl();
    let mut off: usize = 0;
    let mut i: usize = 0;
    while i < count
        invariant
            params.wf(),
            ctrl == params.spec_ctrl(),
            count == params.spec_count(),
            count <= BASE_PARAM_COUNT + MAX_CTRL_PARAMS,
            i <= count,
            resp@.len() == MAX_PAYLOAD,
            off == 4 * i,
            resp@.take(off as int) == info_upto(ctrl, i as int),
        decreases count - i,
    {
        proof {
            lemma_info_len(ctrl, i as int);
        }
        let d = params.def(i).unwrap();
        resp[off] = d.ty.code();
        put_u16(resp, off + 1, d.count);
        resp[off + 3] = if d.writable {
            1
        } else {
            0
        };
        off = off + 4;
        i = i + 1;
        assert(resp@.take(off as int) =~= info_upto(ctrl, i as int));
    }
    proof {
        lemma_info_len(ctrl, count as int);
    }
    off
}

fn values_reply(params: &ParamTable, payload: &[u8], resp: &mut [u8]) -> (r: Result<usize, ErrorCode>)
    requires
        params.wf(),
        old(resp)@.len() == MAX_PAYLOAD,
        payload@.len() % 2 == 0,
    ensures
        r matches Ok(n) ==> n <= MAX_PAYLOAD,
        final(resp)@.len() == MAX_PAYLOAD,
        match get_values(params.spec_ctrl(), params.spec_values(), payload@, 0, MAX_PAYLOAD as int) {
            Ok(b) => r == Ok::<usize, ErrorCode>(b.len() as usize) && final(resp)@.take(b.len() as int)
                == b,
            Err(e) => r == Err::<usize, ErrorCode>(e),
        },
{
    let ghost ctrl = params.spec_ctrl();
    let ghost vals = params.spec_values();
    let ghost p = payload@;
    let ghost mut acc: Seq<u8> = Seq::empty();
    let plen = payload.len();
    let pairs = plen / 2;
    let mut off: usize = 0;
    let mut j: usize = 0;
    while j < pairs
        invariant
            params.wf(),
            ctrl == params.spec_ctrl(),
            vals == params.spec_values(),
            p == payload@,
            p.len() % 2 == 0,
            plen == p.len(),
            pairs == p.len() / 2,
            j <= pairs,
            resp@.len() == MAX_PAYLOAD,
            off <= MAX_PAYLOAD,
            off == acc.len(),
            resp@.take(off as int) == acc,
            get_values(ctrl, vals, p, 0, MAX_PAYLOAD as int) == match get_values(
                ctrl,
                vals,
                p,
                j as int,
                MAX_PAYLOAD - off,
            ) {
                Ok(rest) => Ok::<Seq<u8>, ErrorCode>(acc + rest),
                Err(e) => Err::<Seq<u8>, ErrorCode>(e),
            },
        decreases pairs - j,
    {
        assert(2 * j + 1 < p.len()) by (nonlinear_arith)
            requires
                j < pairs,
                pairs == p.len() / 2,
                p.len() % 2 == 0,
        ;
        let at = j + j;
        let index = u16_from_le(payload[at], payload[at + 1]) as usize;
        if index >= params.count() {
            return Err(ErrorCode::BadIndex);
        }
        let v = params.value(index);
        if v.len() > MAX_PAYLOAD - off {
            return Err(ErrorCode::BadLength);
        }
        put_bytes(resp, off, v);
        proof {
            let room = MAX_PAYLOAD - off;
            match get_values(ctrl, vals, p, j + 1, room - v@.len()) {
                Ok(rest) => {
                    assert(acc + (v@ + rest) =~= (acc + v@) + rest);
                },
                Err(_) => {},
            }
            acc = acc + v@;
        }
        off = off + v.len();
        j = j + 1;
        assert(resp@.take(off as int) =~= acc);
    }
    assert(acc + Seq::<u8>::empty() =~= acc);
    Ok(off)
}

fn set_par(
    params: &mut ParamTable,
    payload: &[u8],
    freq_in_range: bool,
    queue_full: bool,
) -> (r: Result<Option<ParamCommand>, ErrorCode>)
    requires
        old(params).wf(),
        payload@.len() >= 2,
    ensures
        final(params).wf(),
        final(params).spec_ctrl() == old(params).spec_ctrl(),
        ({
            let index = from_le16(payload@[0], payload@[1]) as int;
            let data = payload@.skip(2);
            match set_outcome(old(params).spec_ctrl(), index, data, freq_in_range, queue_full) {
                Err(e) => r == Err::<Option<ParamCommand>, ErrorCode>(e) && final(params).spec_values()
                    == old(params).spec_values(),
                Ok(c) => r == Ok::<Option<ParamCommand>, ErrorCode>(
                    if c == ParamCommand::Unchanged {
                        None
                    } else {
                        Some(c)
                    },
                ) && final(params).spec_values() == if shadowed(c) {
                    old(params).spec_values().update(index, data)
                } else {
                    old(params).spec_values()
                },
            }
        }),
{
    let index = u16_from_le(payload[0], payload[1]) as usize;
    let data = &payload[2..payload.len()];
    assert(data@ =~= payload@.skip(2));
    let command = param_set_decision(params, index, data, freq_in_range, queue_full)?;
    match command {
        ParamCommand::Unchanged => Ok(None),
        ParamCommand::ResetController => Ok(Some(command)),
        _ => {
            let stored = params.set_value(index, data);
            Ok(Some(command))
        },
    }
}

fn stream_setup(stream: &mut StreamSettings, payload: &[u8], source_count: u8) -> (r: Result<
    (),
    ErrorCode,
>)
    ensures
        final(stream).target == old(stream).target,
        final(stream).enabled == old(stream).enabled,
        final(stream).generation == old(stream).generation,
        match stream_setup_outcome(payload@, source_count) {
            Err(e) => r == Err::<(), ErrorCode>(e) && final(stream).sources@ == old(stream).sources@
                && final(stream).decimation == old(stream).decimation && final(stream).count == old(stream).count,
            Ok((d, c, sources)) => r == Ok::<(), ErrorCode>(()) && final(stream).sources@ == sources
                && final(stream).decimation == d && final(stream).count == c,
        },
{
    if payload.len() < 7 {
        return Err(ErrorCode::BadLength);
    }
    let decimation = u16_from_le(payload[0], payload[1]);
    let count = u32_from_le(payload[2], payload[3], payload[4], payload[5]);
    let n = payload[6] as usize;
    if decimation == 0 || n == 0 || n > MAX_STREAM_SOURCES || payload.len() != 7 + n {
        return Err(ErrorCode::BadValue);
    }
    let mut sources: Vec<u8> = Vec::new();
    let mut k: usize = 7;
    while k < payload.len()
        invariant
            7 <= k <= payload@.len(),
            sources@ == payload@.subrange(7, k as int),
            forall|m: int| 7 <= m < k ==> payload@[m] < source_count,
        decreases payload@.len() - k,
    {
        if payload[k] >= source_count {
            return Err(ErrorCode::BadValue);
        }
        sources.push(payload[k]);
        k = k + 1;
        assert(sources@ =~= payload@.subrange(7, k as int));
    }
    assert(sources@ =~= payload@.skip(7));
    stream.sources = sources;
    stream.decimation = decimation;
    stream.count = count;
    Ok(())
}

/// What a request is answered from besides the registry and the stream
/// settings.
#[derive(Clone, Copy, Debug)]
pub struct RequestContext {
    /// IPv4 address of the controlling peer, if known.
    pub remote: Option<u32>,
    /// Number of sources the firmware samples; stream source ids are below it.
    pub source_count: u8,
    /// Sample rate in hertz as `f32` bits.
    pub sample_rate_bits: u32,
    /// Milliseconds since start-up.
    pub uptime_ms: u32,
    /// A written `freq` value, read as `f32`, lies in `[0, fs/2)`.
    pub freq_in_range: bool,
    /// The command queue to the real-time loop is full.
    pub queue_full: bool,
}

/// The settings after a `StreamStart` to `port` of `address`.
pub open spec fn started_view(v: StreamView, address: u32, port: u16) -> StreamView {
    StreamView {
        target: Some((address, port)),
        enabled: true,
        generation: ((v.generation + 1) % 4294967296) as u32,
        ..v
    }
}

/// Answer one request of type `ty` with `payload`: the response payload is
/// written to the start of `resp` and its length returned, with the command
/// to forward to the real-time loop; or the error to report. Registry
/// values change only by an accepted write, stream settings only by
/// `StreamSetup`, `StreamStart` and `StreamStop`.
pub fn handle_request(
    ty: u8,
    payload: &[u8],
    params: &mut ParamTable,
    stream: &mut StreamSettings,
    context: RequestContext,
    resp: &mut [u8],
) -> (r: Result<Reply, ErrorCode>)
    requires
        old(params).wf(),
        old(resp)@.len() == MAX_PAYLOAD,
    ensures
        final(params).wf(),
        final(params).spec_ctrl() == old(params).spec_ctrl(),
        final(resp)@.len() == MAX_PAYLOAD,
        r matches Ok(reply) ==> reply.len <= MAX_PAYLOAD,
        !(request_of(ty) == Some(Request::GetParNames) || request_of(ty) == Some(
            Request::GetParInfo,
        ) || request_of(ty) == Some(Request::Status) || (request_of(ty) == Some(Request::GetPar)
            && payload@.len() > 0 && payload@.len() % 2 == 0)) ==> final(resp)@ == old(resp)@,
        !(request_of(ty) == Some(Request::SetPar) && r is Ok) ==> final(params).spec_values() == old(params).spec_values(),
        !(request_of(ty) == Some(Request::StreamSetup) || request_of(ty) == Some(
            Request::StreamStart,
        ) || request_of(ty) == Some(Request::StreamStop)) || r is Err ==> final(stream)@ == old(stream)@,
        request_of(ty) is None || request_of(ty) == Some(Request::SetBlock) || request_of(ty)
            == Some(Request::Commit) || request_of(ty) == Some(Request::Error) ==> r == Err::<
            Reply,
            ErrorCode,
        >(ErrorCode::UnknownType),
        request_of(ty) == Some(Request::GetParNames) ==> {
            let b = names_upto(old(params).spec_ctrl(), old(params).spec_count());
            if b.len() > MAX_PAYLOAD {
                r == Err::<Reply, ErrorCode>(ErrorCode::BadLength)
            } else {
                r == Ok::<Reply, ErrorCode>(Reply { len: b.len() as usize, command: None })
                    && final(resp)@.take(b.len() as int) == b
            }
        },
        request_of(ty) == Some(Request::GetParInfo) ==> {
            let b = info_upto(old(params).spec_ctrl(), old(params).spec_count());
            r == Ok::<Reply, ErrorCode>(Reply { len: b.len() as usize, command: None }) && final(resp)@.take(b.len() as int) == b
        },
        request_of(ty) == Some(Request::GetPar) ==> if payload@.len() == 0 || payload@.len() % 2
            != 0 {
            r == Err::<Reply, ErrorCode>(ErrorCode::BadLength)
        } else {
            match get_values(
                old(params).spec_ctrl(),
                old(params).spec_values(),
                payload@,
                0,
                MAX_PAYLOAD as int,
            ) {
                Ok(b) => r == Ok::<Reply, ErrorCode>(Reply { len: b.len() as usize, command: None })
                    && final(resp)@.take(b.len() as int) == b,
                Err(e) => r == Err::<Reply, ErrorCode>(e),
            }
        },
        request_of(ty) == Some(Request::SetPar) ==> if payload@.len() < 2 {
            r == Err::<Reply, ErrorCode>(ErrorCode::BadLength)
        } else {
            let index = from_le16(payload@[0], payload@[1]) as int;
            let data = payload@.skip(2);
            match set_outcome(
                old(params).spec_ctrl(),
                index,
                data,
                context.freq_in_range,
                context.queue_full,
            ) {
                Err(e) => r == Err::<Reply, ErrorCode>(e),
                Ok(c) => r == Ok::<Reply, ErrorCode>(
                    Reply {
                        len: 0,
                        command: if c == ParamCommand::Unchanged {
                            None
                        } else {
                            Some(c)
                        },
                    },
                ) && final(params).spec_values() == if shadowed(c) {
                    old(params).spec_values().update(index, data)
                } else {
                    old(params).spec_values()
                },
            }
        },
        request_of(ty) == Some(Request::StreamSetup) ==> match stream_setup_outcome(
            payload@,
            context.source_count,
        ) {
            Err(e) => r == Err::<Reply, ErrorCode>(e),
            Ok((d, c, sources)) => r == Ok::<Reply, ErrorCode>(Reply { len: 0, command: None })
                && final(stream)@ == (StreamView {
                sources,
                decimation: d,
                count: c,
                ..old(stream)@
            }),
        },
        request_of(ty) == Some(Request::StreamStart) ==> if payload@.len() != 2 {
            r == Err::<Reply, ErrorCode>(ErrorCode::BadLength)
        } else if context.remote is None || old(stream).sources@.len() == 0 {
            r == Err::<Reply, ErrorCode>(ErrorCode::BadValue)
        } else {
            r == Ok::<Reply, ErrorCode>(Reply { len: 0, command: None }) && final(stream)@
                == started_view(
                old(stream)@,
                context.remote.unwrap(),
                from_le16(payload@[0], payload@[1]),
            )
        },
        request_of(ty) == Some(Request::StreamStop) ==> r == Ok::<Reply, ErrorCode>(
            Reply { len: 0, command: None },
        ) && final(stream)@ == (StreamView { enabled: false, ..old(stream)@ }),
        request_of(ty) == Some(Request::Status) ==> r == Ok::<Reply, ErrorCode>(
            Reply { len: 11, command: None },
        ) && final(resp)@.take(11) == status_bytes(
            old(params).spec_count() as u16,
            context.sample_rate_bits,
            context.uptime_ms,
        ),
{
    let request = match Request::from_u8(ty) {
        Some(q) => q,
        None => {
            return Err(ErrorCode::UnknownType);
        },
    };
    match request {
        Request::GetParNames => {
            let len = names_reply(params, resp)?;
            Ok(Reply { len, command: None })
        },
        Request::GetParInfo => {
            let len = info_reply(params, resp);
            proof {
                lemma_info_len(params.spec_ctrl(), params.spec_count());
            }
            Ok(Reply { len, command: None })
        },
        Request::GetPar => {
            if payload.len() == 0 || payload.len() % 2 != 0 {
                return Err(ErrorCode::BadLength);
            }
            let len = values_reply(params, payload, resp)?;
            Ok(Reply { len, command: None })
        },
        Request::SetPar => {
            if payload.len() < 2 {
                return Err(ErrorCode::BadLength);
            }
            let command = set_par(params, payload, context.freq_in_range, context.queue_full)?;
            Ok(Reply { len: 0, command })
        },
        Request::StreamSetup => {
            stream_setup(stream, payload, context.source_count)?;
            Ok(Reply { len: 0, command: None })
        },
        Request::StreamStart => {
            if payload.len() != 2 {
                return Err(ErrorCode::BadLength);
            }
            let port = u16_from_le(payload[0], payload[1]);
            let address = match context.remote {
                Some(a) => a,
                None => {
                    return Err(ErrorCode::BadValue);
                },
            };
            if stream.sources.len() == 0 {
                return Err(ErrorCode::BadValue);
            }
            stream.target = Some((address, port));
            stream.enabled = true;
            stream.generation = stream.generation.wrapping_add(1);
            Ok(Reply { len: 0, command: None })
        },
        Request::StreamStop => {
            stream.enabled = false;
            Ok(Reply { len: 0, command: None })
        },
        Request::Status => {
            let count = params.count() as u16;
            resp[0] = VERSION;
            put_u16(resp, 1, count);
            put_u32(resp, 3, context.sample_rate_bits);
            put_u32(resp, 7, context.uptime_ms);
            assert(resp@.take(11) =~= status_bytes(count, context.sample_rate_bits, context.uptime_ms));
            Ok(Reply { len: 11, command: None })
        },
        _ => Err(ErrorCode::UnknownType),
    }
}

} // verus!
