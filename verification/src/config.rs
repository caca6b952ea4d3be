//! Broker configuration values and their validated parsers.

use vstd::prelude::*;
use vstd::string::StringSliceAdditionalSpecFns;

verus! {

/// Broker configuration. Durations are in nanoseconds.
#[derive(Clone, Debug)]
pub struct Config {
    /// MCU hostname or IPv4 address.
    pub mcu_host: String,
    /// Optional directory receiving timestamped HDF5 stream segments.
    pub output_dir: Option<String>,
    pub mcu_control_port: u16,
    pub mcu_stream_port: u16,
    pub mcu_discovery_port: u16,
    /// Loopback TCP control port exposed to clients.
    pub control_port: u16,
    /// Loopback UDP stream port exposed to clients.
    pub stream_port: u16,
    /// Loopback UDP discovery port exposed to clients.
    pub discovery_port: u16,
    /// Shared recent-history retention.
    pub history: u128,
    /// Soft HDF5 segment size threshold in bytes.
    pub segment_size: u64,
    pub request_timeout: u128,
    pub reconnect_delay: u128,
    /// Logging filter.
    pub log_level: String,
}

/// Smallest accepted segment size.
pub const MIN_SEGMENT_SIZE: u64 = 1048576;

#[derive(Clone, Copy, Debug, PartialEq, Eq, Structural)]
pub enum ConfigError {
    /// `--history` is zero.
    HistoryNotPositive,
    /// `--segment-size` is below 1 MiB.
    SegmentTooSmall,
    /// A request timeout or reconnect delay is zero.
    TimeoutNotPositive,
}

impl Config {
    /// Check the numeric settings, in the order history, segment size,
    /// timeouts.
    pub fn validate_values(&self) -> (r: Result<(), ConfigError>)
        ensures
            self.history == 0 ==> r == Err::<(), ConfigError>(ConfigError::HistoryNotPositive),
            self.history != 0 && self.segment_size < MIN_SEGMENT_SIZE ==> r == Err::<
                (),
                ConfigError,
            >(ConfigError::SegmentTooSmall),
            self.history != 0 && self.segment_size >= MIN_SEGMENT_SIZE && (self.request_timeout
                == 0 || self.reconnect_delay == 0) ==> r == Err::<(), ConfigError>(
                ConfigError::TimeoutNotPositive,
            ),
            self.history != 0 && self.segment_size >= MIN_SEGMENT_SIZE && self.request_timeout
                != 0 && self.reconnect_delay != 0 ==> r is Ok,
    {
        if self.history == 0 {
            return Err(ConfigError::HistoryNotPositive);
        }
        if self.segment_size < MIN_SEGMENT_SIZE {
            return Err(ConfigError::SegmentTooSmall);
        }
        if self.request_timeout == 0 || self.reconnect_delay == 0 {
            return Err(ConfigError::TimeoutNotPositive);
        }
        Ok(())
    }

    /// One sentence telling the operator whether captures are saved.
    pub fn recording_notice(&self) -> (notice: String)
        ensures
            self.output_dir matches Some(dir) ==> notice@ == "Captures are being saved to "@
                + dir@ + "."@,
            self.output_dir is None ==> notice@ == "Captures are not being saved."@,
    {
        match &self.output_dir {
            Some(output_dir) => {
                let mut notice = "Captures are being saved to ".to_owned();
                notice.append(output_dir.as_str());
                notice.append(".");
                notice
            },
            None => "Captures are not being saved.".to_owned(),
        }
    }
}

/// Value of a sequence of ASCII decimal digits.
pub open spec fn decimal_value(digits: Seq<u8>) -> nat
    decreases digits.len(),
{
    if digits.len() == 0 {
        0
    } else {
        decimal_value(digits.drop_last()) * 10 + (digits.last() - 48) as nat
    }
}

/// Every byte is an ASCII decimal digit.
pub open spec fn all_digits(s: Seq<u8>) -> bool {
    forall|i: int| 0 <= i < s.len() ==> 48 <= #[trigger] s[i] <= 57
}

/// The unsigned integer that `s` spells in decimal: an optional `+`, then
/// at least one digit, with a value that fits in `u64`.
pub open spec fn spec_parse_u64(s: Seq<u8>) -> Option<u64> {
    let digits = if s.len() > 0 && s[0] == 43 {
        s.drop_first()
    } else {
        s
    };
    if digits.len() > 0 && all_digits(digits) && decimal_value(digits) <= u64::MAX {
        Some(decimal_value(digits) as u64)
    } else {
        None
    }
}

proof fn lemma_decimal_value_grows(digits: Seq<u8>, d: u8)
    requires
        48 <= d <= 57,
    ensures
        decimal_value(digits.push(d)) == decimal_value(digits) * 10 + (d - 48),
        decimal_value(digits.push(d)) >= decimal_value(digits),
{
    assert(digits.push(d).drop_last() =~= digits);
}

/// Parse an unsigned decimal integer as `str::parse::<u64>` does.
pub fn parse_u64(s: &[u8]) -> (r: Option<u64>)
    ensures
        r == spec_parse_u64(s@),
{
    let start: usize = if s.len() > 0 && s[0] == 43 {
        1
    } else {
        0
    };
    let ghost digits = s@.skip(start as int);
    proof {
        if start == 1 {
            assert(digits =~= s@.drop_first());
        } else {
            assert(digits =~= s@);
        }
    }
    if start == s.len() {
        return None;
    }
    let mut value: u64 = 0;
    let mut overflow = false;
    let mut i = start;
    while i < s.len()
        invariant
            start <= i <= s@.len(),
            digits == s@.skip(start as int),
            digits == (if s@.len() > 0 && s@[0] == 43 {
                s@.drop_first()
            } else {
                s@
            }),
            all_digits(s@.subrange(start as int, i as int)),
            !overflow ==> value == decimal_value(s@.subrange(start as int, i as int)),
            overflow ==> decimal_value(s@.subrange(start as int, i as int)) > u64::MAX,
        decreases s@.len() - i,
    {
        let b = s[i];
        if b < 48 || b > 57 {
            proof {
                assert(digits[i - start] == b);
                assert(!all_digits(digits));
            }
            return None;
        }
        let ghost prefix = s@.subrange(start as int, i as int);
        proof {
            assert(s@.subrange(start as int, i + 1) =~= prefix.push(b));
            lemma_decimal_value_grows(prefix, b);
        }
        if !overflow {
            let next: u128 = value as u128 * 10 + (b - 48) as u128;
            if next > u64::MAX as u128 {
                overflow = true;
            } else {
                value = next as u64;
            }
        }
        i = i + 1;
    }
    proof {
        assert(s@.subrange(start as int, s@.len() as int) =~= digits);
    }
    if overflow {
        None
    } else {
        Some(value)
    }
}

#[derive(Clone, Copy, Debug, PartialEq, Eq, Structural)]
pub enum SizeError {
    /// The number before a unit suffix is not an unsigned integer.
    InvalidNumber,
    /// The size does not fit in `u64` bytes.
    TooLarge,
    /// Neither a plain byte count nor a number with a known unit.
    Unrecognised,
}

/// `s` ends with `suffix`.
pub open spec fn ends_with(s: Seq<u8>, suffix: Seq<u8>) -> bool {
    s.len() >= suffix.len() && s.skip(s.len() - suffix.len()) == suffix
}

/// What a size with unit `suffix` of `multiplier` bytes parses to, or
/// `None` when `s` does not end with the unit.
pub open spec fn unit_result(s: Seq<u8>, suffix: Seq<u8>, multiplier: u64) -> Option<
    Result<u64, SizeError>,
> {
    if !ends_with(s, suffix) {
        None
    } else {
        Some(
            match spec_parse_u64(s.take(s.len() - suffix.len())) {
                None => Err(SizeError::InvalidNumber),
                Some(n) => if n * multiplier > u64::MAX {
                    Err(SizeError::TooLarge)
                } else {
                    Ok((n * multiplier) as u64)
                },
            },
        )
    }
}

/// The size `s` spells: the first unit among `GiB`, `MiB`, `KiB`, `GB`,
/// `MB`, `KB` that ends `s` decides; otherwise `s` is a plain byte count.
pub open spec fn spec_parse_size(s: Seq<u8>) -> Result<u64, SizeError> {
    if let Some(r) = unit_result(s, seq![71u8, 105u8, 66u8], 1073741824) {
        r
    } else if let Some(r) = unit_result(s, seq![77u8, 105u8, 66u8], 1048576) {
        r
    } else if let Some(r) = unit_result(s, seq![75u8, 105u8, 66u8], 1024) {
        r
    } else if let Some(r) = unit_result(s, seq![71u8, 66u8], 1000000000) {
        r
    } else if let Some(r) = unit_result(s, seq![77u8, 66u8], 1000000) {
        r
    } else if let Some(r) = unit_result(s, seq![75u8, 66u8], 1000) {
        r
    } else {
        match spec_parse_u64(s) {
            Some(n) => Ok(n),
            None => Err(SizeError::Unrecognised),
        }
    }
}

fn ends_with_bytes(s: &[u8], suffix: &[u8]) -> (r: bool)
    ensures
        r == ends_with(s@, suffix@),
{
    if s.len() < suffix.len() {
        return false;
    }
    let base = s.len() - suffix.len();
    let mut i: usize = 0;
    while i < suffix.len()
        invariant
            base == s@.len() - suffix@.len(),
            base + suffix@.len() == s.len(),
            i <= suffix@.len(),
            forall|j: int| 0 <= j < i ==> s@[base + j] == suffix@[j],
        decreases suffix@.len() - i,
    {
        if s[base + i] != suffix[i] {
            proof {
                assert(s@.skip(base as int)[i as int] != suffix@[i as int]);
            }
            return false;
        }
        i = i + 1;
    }
    assert(s@.skip(base as int) =~= suffix@);
    true
}

/// The size `s` spells with the unit `suffix` of `multiplier` bytes, or
/// `None` when `s` does not end with the unit.
fn parse_with_unit(s: &[u8], suffix: &[u8], multiplier: u64) -> (r: Option<Result<u64, SizeError>>)
    ensures
        r == unit_result(s@, suffix@, multiplier),
{
    if !ends_with_bytes(s, suffix) {
        return None;
    }
    let number = slice_take(s, s.len() - suffix.len());
    Some(
        match parse_u64(number) {
            None => Err(SizeError::InvalidNumber),
            Some(n) => match n.checked_mul(multiplier) {
                Some(size) => Ok(size),
                None => Err(SizeError::TooLarge),
            },
        },
    )
}

/// Parse a byte size: a plain byte count, or a count followed by `GiB`,
/// `MiB`, `KiB`, `GB`, `MB` or `KB`.
pub fn parse_size(value: &str) -> (r: Result<u64, SizeError>)
    ensures
        r == spec_parse_size(value.spec_bytes()),
{
    let s = value.as_bytes();
    let gib = [71u8, 105u8, 66u8];
    let mib = [77u8, 105u8, 66u8];
    let kib = [75u8, 105u8, 66u8];
    let gb = [71u8, 66u8];
    let mb = [77u8, 66u8];
    let kb = [75u8, 66u8];
    assert(gib@ =~= seq![71u8, 105u8, 66u8]);
    assert(mib@ =~= seq![77u8, 105u8, 66u8]);
    assert(kib@ =~= seq![75u8, 105u8, 66u8]);
    assert(gb@ =~= seq![71u8, 66u8]);
    assert(mb@ =~= seq![77u8, 66u8]);
    assert(kb@ =~= seq![75u8, 66u8]);
    if let Some(r) = parse_with_unit(s, &gib, 1073741824) {
        return r;
    }
    if let Some(r) = parse_with_unit(s, &mib, 1048576) {
        return r;
    }
    if let Some(r) = parse_with_unit(s, &kib, 1024) {
        return r;
    }
    if let Some(r) = parse_with_unit(s, &gb, 1000000000) {
        return r;
    }
    if let Some(r) = parse_with_unit(s, &mb, 1000000) {
        return r;
    }
    if let Some(r) = parse_with_unit(s, &kb, 1000) {
        return r;
    }
    match parse_u64(s) {
        Some(n) => Ok(n),
        None => Err(SizeError::Unrecognised),
    }
}

/// Unit suffix of a duration setting.
#[derive(Clone, Copy, Debug, PartialEq, Eq, Structural)]
pub enum DurationUnit {
    Milliseconds,
    Seconds,
    Minutes,
    Hours,
}

/// Milliseconds in one of each unit.
pub open spec fn unit_millis(u: DurationUnit) -> nat {
    match u {
        DurationUnit::Milliseconds => 1,
        DurationUnit::Seconds => 1000,
        DurationUnit::Minutes => 60000,
        DurationUnit::Hours => 3600000,
    }
}

impl DurationUnit {
    /// Milliseconds in one of this unit.
    pub fn milliseconds(self) -> (ms: u32)
        ensures
            ms == unit_millis(self),
    {
        match self {
            DurationUnit::Milliseconds => 1,
            DurationUnit::Seconds => 1000,
            DurationUnit::Minutes => 60000,
            DurationUnit::Hours => 3600000,
        }
    }
}

/// A duration setting has none of the units `ms`, `s`, `m`, `h`.
#[derive(Clone, Copy, Debug, PartialEq, Eq, Structural)]
pub enum DurationError {
    MissingUnit,
}

/// Length of the number before the unit, and the unit: `ms` is tried
/// before `s`, then `m`, then `h`.
pub open spec fn spec_split_duration(s: Seq<u8>) -> Result<(int, DurationUnit), DurationError> {
    if ends_with(s, seq![109u8, 115u8]) {
        Ok((s.len() - 2, DurationUnit::Milliseconds))
    } else if ends_with(s, seq![115u8]) {
        Ok((s.len() - 1, DurationUnit::Seconds))
    } else if ends_with(s, seq![109u8]) {
        Ok((s.len() - 1, DurationUnit::Minutes))
    } else if ends_with(s, seq![104u8]) {
        Ok((s.len() - 1, DurationUnit::Hours))
    } else {
        Err(DurationError::MissingUnit)
    }
}

/// Split a duration setting into the length of its number and its unit.
/// The number itself is a decimal fraction, read by the caller.
pub fn split_duration(value: &str) -> (r: Result<(usize, DurationUnit), DurationError>)
    ensures
        match (r, spec_split_duration(value.spec_bytes())) {
            (Ok((n, u)), Ok((m, v))) => n == m && u == v,
            (Err(e), Err(f)) => e == f,
            _ => false,
        },
{
    let s = value.as_bytes();
    let ms = [109u8, 115u8];
    let sec = [115u8];
    let min = [109u8];
    let hour = [104u8];
    assert(ms@ =~= seq![109u8, 115u8]);
    assert(sec@ =~= seq![115u8]);
    assert(min@ =~= seq![109u8]);
    assert(hour@ =~= seq![104u8]);
    if ends_with_bytes(s, &ms) {
        Ok((s.len() - 2, DurationUnit::Milliseconds))
    } else if ends_with_bytes(s, &sec) {
        Ok((s.len() - 1, DurationUnit::Seconds))
    } else if ends_with_bytes(s, &min) {
        Ok((s.len() - 1, DurationUnit::Minutes))
    } else if ends_with_bytes(s, &hour) {
        Ok((s.len() - 1, DurationUnit::Hours))
    } else {
        Err(DurationError::MissingUnit)
    }
}

fn slice_take(s: &[u8], n: usize) -> (r: &[u8])
    requires
        n <= s@.len(),
    ensures
        r@ == s@.take(n as int),
{
    &s[0..n]
}

} // verus!
