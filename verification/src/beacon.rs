//! Fixed-size UDP discovery request and response.

use vstd::prelude::*;
use vstd::string::StringSliceAdditionalSpecFns;

use crate::bytes::{from_le16, le16, lemma_le16_round_trip, u16_from_le};
use crate::{CONTROL_PORT, MAGIC, VERSION};

verus! {

/// Discovery request datagram: magic, kind 1.
pub const REQUEST: [u8; 3] = [0x48u8, 0x4Cu8, 0x01u8];

pub const RESPONSE_LEN: usize = 44;

/// Kind byte of a discovery response.
pub const RESPONSE_KIND: u8 = 0x02;

#[derive(Clone, Copy, Debug, PartialEq, Eq, Structural)]
pub enum BeaconError {
    BadLength,
    BadMagic,
    BadKind,
}

#[derive(Clone, Copy, Debug, PartialEq, Eq)]
pub struct BeaconResponse {
    pub version: u8,
    pub control_port: u16,
    pub mac: [u8; 6],
    pub experiment: [u8; 16],
    pub firmware: [u8; 16],
}

/// A text padded with NULs or truncated to exactly 16 bytes.
pub open spec fn fixed16(bytes: Seq<u8>) -> Seq<u8> {
    Seq::new(
        16,
        |i: int|
            if i < bytes.len() {
                bytes[i]
            } else {
                0u8
            },
    )
}

/// Wire bytes of a discovery response.
pub open spec fn response_bytes(r: BeaconResponse) -> Seq<u8> {
    le16(MAGIC) + seq![RESPONSE_KIND, r.version] + le16(r.control_port) + r.mac@ + r.experiment@
        + r.firmware@
}

/// `r` carries the fields of the datagram `input`.
pub open spec fn decoded_from(r: BeaconResponse, input: Seq<u8>) -> bool {
    &&& r.version == input[3]
    &&& r.control_port == from_le16(input[4], input[5])
    &&& r.mac@ == input.subrange(6, 12)
    &&& r.experiment@ == input.subrange(12, 28)
    &&& r.firmware@ == input.subrange(28, 44)
}

/// What `decode` reports for a datagram that is not a well-formed response.
pub open spec fn spec_decode_error(input: Seq<u8>) -> Option<BeaconError> {
    if input.len() != RESPONSE_LEN {
        Some(BeaconError::BadLength)
    } else if from_le16(input[0], input[1]) != MAGIC {
        Some(BeaconError::BadMagic)
    } else if input[2] != RESPONSE_KIND {
        Some(BeaconError::BadKind)
    } else {
        None
    }
}

/// Pad or truncate `value` to 16 bytes.
pub fn fixed_string(value: &str) -> (out: [u8; 16])
    ensures
        out@ == fixed16(value.spec_bytes()),
{
    let mut out = [0u8; 16];
    let bytes = value.as_bytes();
    let len = if bytes.len() < 16 {
        bytes.len()
    } else {
        16
    };
    let mut i: usize = 0;
    while i < len
        invariant
            len <= 16,
            len <= bytes@.len(),
            len == bytes@.len() || len == 16,
            i <= len,
            bytes@ == value.spec_bytes(),
            forall|j: int| 0 <= j < i ==> out@[j] == bytes@[j],
            forall|j: int| i <= j < 16 ==> out@[j] == 0,
        decreases len - i,
    {
        out[i] = bytes[i];
        i = i + 1;
    }
    assert(out@ =~= fixed16(value.spec_bytes()));
    out
}

fn copy_array<const N: usize>(out: &mut [u8; RESPONSE_LEN], at: usize, src: &[u8; N])
    requires
        at + N <= RESPONSE_LEN,
    ensures
        final(out)@ == old(out)@.take(at as int) + src@ + old(out)@.skip(at + N),
{
    let mut i: usize = 0;
    while i < N
        invariant
            at + N <= RESPONSE_LEN,
            i <= N,
            out@.len() == RESPONSE_LEN,
            out@ == old(out)@.take(at as int) + src@.take(i as int) + old(out)@.skip(at + i),
        decreases N - i,
    {
        out[at + i] = src[i];
        i = i + 1;
        assert(out@ =~= old(out)@.take(at as int) + src@.take(i as int) + old(out)@.skip(at + i));
    }
    assert(src@.take(N as int) =~= src@);
}

fn copy_out<const N: usize>(input: &[u8], at: usize) -> (out: [u8; N])
    requires
        at + N <= input.len(),
    ensures
        out@ == input@.subrange(at as int, at + N),
{
    let mut out = [0u8; N];
    let mut i: usize = 0;
    while i < N
        invariant
            at + N <= input.len(),
            i <= N,
            out@.len() == N,
            forall|j: int| 0 <= j < i ==> out@[j] == input@[at + j],
        decreases N - i,
    {
        out[i] = input[at + i];
        i = i + 1;
    }
    assert(out@ =~= input@.subrange(at as int, at + N));
    out
}

impl BeaconResponse {
    /// The response of this firmware: current version and control port,
    /// with the identity texts padded or truncated to 16 bytes.
    pub fn new(mac: [u8; 6], experiment: &str, firmware: &str) -> (r: Self)
        ensures
            r.version == VERSION,
            r.control_port == CONTROL_PORT,
            r.mac == mac,
            r.experiment@ == fixed16(experiment.spec_bytes()),
            r.firmware@ == fixed16(firmware.spec_bytes()),
    {
        BeaconResponse {
            version: VERSION,
            control_port: CONTROL_PORT,
            mac,
            experiment: fixed_string(experiment),
            firmware: fixed_string(firmware),
        }
    }

    /// Write the 44-byte response datagram.
    pub fn encode(&self, out: &mut [u8; RESPONSE_LEN])
        ensures
            final(out)@ == response_bytes(*self),
    {
        out[0] = (MAGIC % 256) as u8;
        out[1] = (MAGIC / 256) as u8;
        out[2] = RESPONSE_KIND;
        out[3] = self.version;
        out[4] = (self.control_port % 256) as u8;
        out[5] = (self.control_port / 256) as u8;
        let ghost head = out@.take(6);
        assert(head =~= le16(MAGIC) + seq![RESPONSE_KIND, self.version] + le16(self.control_port));
        copy_array(out, 6, &self.mac);
        copy_array(out, 12, &self.experiment);
        copy_array(out, 28, &self.firmware);
        assert(out@ =~= response_bytes(*self));
    }

    /// Decode a response datagram.
    pub fn decode(input: &[u8]) -> (r: Result<Self, BeaconError>)
        ensures
            match r {
                Ok(resp) => spec_decode_error(input@) is None && decoded_from(resp, input@),
                Err(e) => spec_decode_error(input@) == Some(e),
            },
    {
        if input.len() != RESPONSE_LEN {
            return Err(BeaconError::BadLength);
        }
        if u16_from_le(input[0], input[1]) != MAGIC {
            return Err(BeaconError::BadMagic);
        }
        if input[2] != RESPONSE_KIND {
            return Err(BeaconError::BadKind);
        }
        let mac: [u8; 6] = copy_out(input, 6);
        let experiment: [u8; 16] = copy_out(input, 12);
        let firmware: [u8; 16] = copy_out(input, 28);
        Ok(
            BeaconResponse {
                version: input[3],
                control_port: u16_from_le(input[4], input[5]),
                mac,
                experiment,
                firmware,
            },
        )
    }
}

/// Round trip: an encoded response decodes to a response with the same
/// fields.
pub proof fn lemma_beacon_round_trip(r: BeaconResponse, d: BeaconResponse)
    requires
        decoded_from(d, response_bytes(r)),
    ensures
        spec_decode_error(response_bytes(r)) is None,
        d.version == r.version,
        d.control_port == r.control_port,
        d.mac@ == r.mac@,
        d.experiment@ == r.experiment@,
        d.firmware@ == r.firmware@,
{
    let b = response_bytes(r);
    lemma_le16_round_trip(MAGIC);
    lemma_le16_round_trip(r.control_port);
    assert(b[0] == le16(MAGIC)[0] && b[1] == le16(MAGIC)[1]);
    assert(b[4] == le16(r.control_port)[0] && b[5] == le16(r.control_port)[1]);
    assert(b.subrange(6, 12) =~= r.mac@);
    assert(b.subrange(12, 28) =~= r.experiment@);
    assert(b.subrange(28, 44) =~= r.firmware@);
}

} // verus!
