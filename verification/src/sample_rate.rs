//! Sample-rate presets of the real-time loop and their exact PWM timing.

use vstd::prelude::*;

verus! {

/// System clock feeding the conversion-start PWM.
pub const SYSTEM_CLOCK_HZ: u64 = 150000000;

/// The restricted preset list. Each maps to an exact PWM divider and wrap
/// value for the hardware-timed conversion start from the 150 MHz system
/// clock, so the sample clock is crystal-exact.
#[derive(Clone, Copy, Debug, PartialEq, Eq, Structural)]
pub enum SampleRate {
    Hz1000,
    Hz2000,
    Hz4000,
    Hz8000,
}

/// Sample frequency of each preset in hertz.
pub open spec fn rate_hz(r: SampleRate) -> nat {
    match r {
        SampleRate::Hz1000 => 1000,
        SampleRate::Hz2000 => 2000,
        SampleRate::Hz4000 => 4000,
        SampleRate::Hz8000 => 8000,
    }
}

impl SampleRate {
    /// Nominal tick period in microseconds.
    pub fn period_us(self) -> (us: u64)
        ensures
            us * rate_hz(self) == 1000000,
    {
        match self {
            SampleRate::Hz1000 => 1000,
            SampleRate::Hz2000 => 500,
            SampleRate::Hz4000 => 250,
            SampleRate::Hz8000 => 125,
        }
    }

    /// (clock divider, wrap value): 150 MHz / divider / (top + 1) = fs.
    pub fn pwm_params(self) -> (p: (u8, u16))
        ensures
            p.0 * (p.1 + 1) * rate_hz(self) == SYSTEM_CLOCK_HZ,
            p == match self {
                SampleRate::Hz1000 => (4u8, 37499u16),
                SampleRate::Hz2000 => (2u8, 37499u16),
                SampleRate::Hz4000 => (2u8, 18749u16),
                SampleRate::Hz8000 => (2u8, 9374u16),
            },
    {
        match self {
            SampleRate::Hz1000 => (4, 37499),
            SampleRate::Hz2000 => (2, 37499),
            SampleRate::Hz4000 => (2, 18749),
            SampleRate::Hz8000 => (2, 9374),
        }
    }
}

} // verus!
