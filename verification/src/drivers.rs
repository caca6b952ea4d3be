//! Peripheral driver interfaces and the AD5064 DAC word layout.
//!
//! AD5064 word layout: `[31:28] don't care | [27:24] command | [23:20]
//! address | [19:4] data | [3:0] don't care`.

use vstd::prelude::*;

verus! {

/// A simultaneous-sampling analog input device with `N` channels.
///
/// Conversion start is external to the trait (hardware-timed CONVST); this
/// covers the readout path only.
pub trait AnalogIn<const N: usize> {
    type Error;

    /// Read one frame of raw signed conversion results (call once conversion
    /// is complete).
    fn read_frame(&mut self) -> Result<[i32; N], Self::Error>;
}

/// An analog output device with `N` channels addressed by raw DAC code.
pub trait AnalogOut<const N: usize> {
    type Error;

    /// Write and update one channel.
    fn write(&mut self, channel: usize, code: u16) -> Result<(), Self::Error>;
}

/// AD5064 channels.
pub const CHANNELS: usize = 4;

/// AD5064 command codes (bits 27:24).
#[derive(Clone, Copy, Debug, PartialEq, Eq, Structural)]
pub enum Command {
    WriteInputReg,
    UpdateDacReg,
    WriteInputRegUpdateAll,
    WriteAndUpdate,
    PowerUpDown,
    LdacMaskReg,
    SoftwareReset,
    DaisyChainDisable,
}

/// Code of each AD5064 command.
pub open spec fn command_code(c: Command) -> u8 {
    match c {
        Command::WriteInputReg => 0,
        Command::UpdateDacReg => 1,
        Command::WriteInputRegUpdateAll => 2,
        Command::WriteAndUpdate => 3,
        Command::PowerUpDown => 4,
        Command::LdacMaskReg => 5,
        Command::SoftwareReset => 6,
        Command::DaisyChainDisable => 8,
    }
}

impl Command {
    pub fn code(self) -> (c: u8)
        ensures
            c == command_code(self),
    {
        match self {
            Command::WriteInputReg => 0,
            Command::UpdateDacReg => 1,
            Command::WriteInputRegUpdateAll => 2,
            Command::WriteAndUpdate => 3,
            Command::PowerUpDown => 4,
            Command::LdacMaskReg => 5,
            Command::SoftwareReset => 6,
            Command::DaisyChainDisable => 8,
        }
    }
}

/// The 32-bit input-register word, most significant byte first.
pub open spec fn spec_frame(command: Command, channel: u8, data: u16) -> Seq<u8> {
    seq![
        command_code(command),
        (channel * 16 + data / 4096) as u8,
        ((data / 16) % 256) as u8,
        ((data % 16) * 16) as u8,
    ]
}

/// Encode one 32-bit input-register word.
pub fn frame(command: Command, channel: u8, data: u16) -> (w: [u8; 4])
    requires
        channel < CHANNELS,
    ensures
        w@ == spec_frame(command, channel, data),
{
    let w = [
        command.code(),
        channel * 16 + (data / 4096) as u8,
        ((data / 16) % 256) as u8,
        ((data % 16) * 16) as u8,
    ];
    assert(w@ =~= spec_frame(command, channel, data));
    w
}

/// The command, channel and code carried by a word: the word layout loses
/// nothing.
pub proof fn lemma_frame_fields(command: Command, channel: u8, data: u16)
    requires
        channel < CHANNELS,
    ensures
        spec_frame(command, channel, data)[1] / 16 == channel,
        (spec_frame(command, channel, data)[1] % 16) * 4096 + spec_frame(command, channel, data)[2]
            * 16 + spec_frame(command, channel, data)[3] / 16 == data,
{
}

/// How a board output channel maps volts to DAC codes.
#[derive(Clone, Copy, Debug, PartialEq, Eq, Structural)]
pub enum ChannelPolarity {
    /// Direct DAC output: 0..Vref.
    Unipolar,
    /// Through the inverting op-amp stage: -Vref..+Vref at the connector.
    Bipolar,
}

} // verus!
