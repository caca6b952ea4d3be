//! Host-broker protocol extension layered on the firmware wire protocol.
//!
//! Firmware deliberately does not include these values in
//! [`crate::frame::MsgType`], so a direct MCU connection reports them as
//! unknown message types.

use vstd::prelude::*;

use crate::bytes::{
    from_le16, from_le32, le16, le32, lemma_le16_round_trip, lemma_le32_round_trip, put_u16, put_u32, u16_from_le, u32_from_le,
};

verus! {

pub const EXTENSION_VERSION: u8 = 1;

pub const BROKER_INFO: u8 = 0x80;

pub const QUIET_STREAM_START: u8 = 0x81;

pub const GET_RECENT: u8 = 0x82;

pub const SET_CLIENT_QUIET: u8 = 0x83;

pub const CAP_QUIET_START: u16 = 1;

pub const CAP_RECENT: u16 = 2;

pub const CAP_SET_QUIET: u16 = 4;

pub const CAP_SHARED_CONFIG: u16 = 8;

pub const CAPABILITIES: u16 = 15;

pub const STATE_UPSTREAM_CONNECTED: u8 = 1;

pub const STATE_CONFIGURED: u8 = 2;

pub const STATE_RUNNING: u8 = 4;

pub const STATE_CLIENT_ATTACHED: u8 = 8;

pub const STATE_CLIENT_QUIET: u8 = 16;

pub const STATE_TABLE_TRANSACTION: u8 = 32;

pub const INFO_HEADER_LEN: usize = 21;

pub const MAX_SOURCES: usize = 24;

/// Error codes the broker adds to the firmware's.
#[derive(Clone, Copy, Debug, PartialEq, Eq, Structural)]
pub enum BrokerError {
    NotAttached,
    NotQuiet,
    NoActiveStream,
    InsufficientHistory,
}

/// Wire code of each broker error.
pub open spec fn broker_error_code(e: BrokerError) -> u8 {
    match e {
        BrokerError::NotAttached => 8,
        BrokerError::NotQuiet => 9,
        BrokerError::NoActiveStream => 10,
        BrokerError::InsufficientHistory => 11,
    }
}

impl BrokerError {
    /// Wire code of this error.
    pub fn code(self) -> (c: u8)
        ensures
            c == broker_error_code(self),
    {
        match self {
            BrokerError::NotAttached => 8,
            BrokerError::NotQuiet => 9,
            BrokerError::NoActiveStream => 10,
            BrokerError::InsufficientHistory => 11,
        }
    }
}

#[derive(Clone, Copy, Debug, PartialEq, Eq, Structural)]
pub enum BrokerPayloadError {
    BadLength,
    BadValue,
}

#[derive(Clone, Copy, Debug, PartialEq, Eq)]
pub struct BrokerInfo {
    pub state: u8,
    pub capabilities: u16,
    pub history_capacity_ms: u32,
    pub history_available_records: u32,
    pub decimation: u16,
    pub count: u32,
    pub connected_clients: u16,
    pub n_sources: u8,
    pub sources: [u8; MAX_SOURCES],
}

/// Wire bytes of a broker-info payload.
pub open spec fn info_bytes(info: BrokerInfo) -> Seq<u8> {
    seq![EXTENSION_VERSION, info.state] + le16(info.capabilities) + le32(info.history_capacity_ms)
        + le32(info.history_available_records) + le16(info.decimation) + le32(info.count) + le16(
        info.connected_clients,
    ) + seq![info.n_sources] + info.sources@.take(info.n_sources as int)
}

/// The payload is a well-formed broker-info payload.
pub open spec fn info_payload_valid(p: Seq<u8>) -> bool {
    &&& p.len() >= INFO_HEADER_LEN
    &&& p[0] == EXTENSION_VERSION
    &&& p[20] <= MAX_SOURCES
    &&& p.len() == INFO_HEADER_LEN + p[20]
}

/// `info` carries the fields of the well-formed payload `p`, with the
/// unused source slots zero.
pub open spec fn info_decoded_from(info: BrokerInfo, p: Seq<u8>) -> bool {
    &&& info.state == p[1]
    &&& info.capabilities == from_le16(p[2], p[3])
    &&& info.history_capacity_ms == from_le32(p[4], p[5], p[6], p[7])
    &&& info.history_available_records == from_le32(p[8], p[9], p[10], p[11])
    &&& info.decimation == from_le16(p[12], p[13])
    &&& info.count == from_le32(p[14], p[15], p[16], p[17])
    &&& info.connected_clients == from_le16(p[18], p[19])
    &&& info.n_sources == p[20]
    &&& info.sources@ == p.skip(INFO_HEADER_LEN as int) + Seq::new(
        (MAX_SOURCES - p[20]) as nat,
        |i: int| 0u8,
    )
}

impl BrokerInfo {
    /// Encode into `out`, returning the payload length.
    pub fn encode(&self, out: &mut [u8]) -> (r: Result<usize, BrokerPayloadError>)
        ensures
            self.n_sources > MAX_SOURCES || old(out)@.len() < INFO_HEADER_LEN + self.n_sources
                ==> r == Err::<usize, BrokerPayloadError>(BrokerPayloadError::BadLength)
                && final(out)@ == old(out)@,
            r matches Ok(n) ==> {
                &&& n == INFO_HEADER_LEN + self.n_sources
                &&& n <= old(out)@.len()
                &&& final(out)@ == info_bytes(*self) + old(out)@.skip(n as int)
            },
            self.n_sources <= MAX_SOURCES && old(out)@.len() >= INFO_HEADER_LEN + self.n_sources
                ==> r is Ok,
    {
        let n_sources = self.n_sources as usize;
        if n_sources > MAX_SOURCES || out.len() < INFO_HEADER_LEN + n_sources {
            return Err(BrokerPayloadError::BadLength);
        }
        let ghost original = out@;
        out[0] = EXTENSION_VERSION;
        out[1] = self.state;
        put_u16(out, 2, self.capabilities);
        put_u32(out, 4, self.history_capacity_ms);
        put_u32(out, 8, self.history_available_records);
        put_u16(out, 12, self.decimation);
        put_u32(out, 14, self.count);
        put_u16(out, 18, self.connected_clients);
        out[20] = self.n_sources;
        let mut i: usize = 0;
        while i < n_sources
            invariant
                n_sources == self.n_sources,
                n_sources <= MAX_SOURCES,
                INFO_HEADER_LEN + n_sources <= out@.len(),
                out@.len() == original.len(),
                i <= n_sources,
                out@.take(INFO_HEADER_LEN as int) == (seq![EXTENSION_VERSION, self.state] + le16(
                    self.capabilities,
                ) + le32(self.history_capacity_ms) + le32(self.history_available_records) + le16(
                    self.decimation,
                ) + le32(self.count) + le16(self.connected_clients) + seq![self.n_sources]),
                forall|j: int|
                    INFO_HEADER_LEN <= j < INFO_HEADER_LEN + i ==> out@[j]
                        == self.sources@[j - INFO_HEADER_LEN],
                forall|j: int| INFO_HEADER_LEN + n_sources <= j < out@.len() ==> out@[j] == original[j],
            decreases n_sources - i,
        {
            out[INFO_HEADER_LEN + i] = self.sources[i];
            i = i + 1;
        }
        assert(out@ =~= info_bytes(*self) + original.skip((INFO_HEADER_LEN + n_sources) as int));
        Ok(INFO_HEADER_LEN + n_sources)
    }

    /// Decode a broker-info payload.
    pub fn decode(payload: &[u8]) -> (r: Result<Self, BrokerPayloadError>)
        ensures
            match r {
                Ok(info) => info_payload_valid(payload@) && info_decoded_from(info, payload@),
                Err(e) => !info_payload_valid(payload@) && e == BrokerPayloadError::BadLength,
            },
    {
        if payload.len() < INFO_HEADER_LEN || payload[0] != EXTENSION_VERSION {
            return Err(BrokerPayloadError::BadLength);
        }
        let n_sources = payload[20] as usize;
        if n_sources > MAX_SOURCES || payload.len() != INFO_HEADER_LEN + n_sources {
            return Err(BrokerPayloadError::BadLength);
        }
        let mut sources = [0u8; MAX_SOURCES];
        let mut i: usize = 0;
        while i < n_sources
            invariant
                n_sources <= MAX_SOURCES,
                payload@.len() == INFO_HEADER_LEN + n_sources,
                i <= n_sources,
                sources@.len() == MAX_SOURCES,
                forall|j: int| 0 <= j < i ==> sources@[j] == payload@[INFO_HEADER_LEN + j],
                forall|j: int| i <= j < MAX_SOURCES ==> sources@[j] == 0,
            decreases n_sources - i,
        {
            sources[i] = payload[INFO_HEADER_LEN + i];
            i = i + 1;
        }
        assert(sources@ =~= payload@.skip(INFO_HEADER_LEN as int) + Seq::new(
            (MAX_SOURCES - n_sources) as nat,
            |i: int| 0u8,
        ));
        Ok(
            BrokerInfo {
                state: payload[1],
                capabilities: u16_from_le(payload[2], payload[3]),
                history_capacity_ms: u32_from_le(payload[4], payload[5], payload[6], payload[7]),
                history_available_records: u32_from_le(
                    payload[8],
                    payload[9],
                    payload[10],
                    payload[11],
                ),
                decimation: u16_from_le(payload[12], payload[13]),
                count: u32_from_le(payload[14], payload[15], payload[16], payload[17]),
                connected_clients: u16_from_le(payload[18], payload[19]),
                n_sources: n_sources as u8,
                sources,
            },
        )
    }
}

/// Round trip: the payload of an info whose unused source slots are zero
/// decodes to an info with the same fields.
pub proof fn lemma_broker_info_round_trip(info: BrokerInfo, d: BrokerInfo)
    requires
        info.n_sources <= MAX_SOURCES,
        forall|j: int| info.n_sources <= j < MAX_SOURCES ==> info.sources@[j] == 0,
        info_decoded_from(d, info_bytes(info)),
    ensures
        info_payload_valid(info_bytes(info)),
        d.state == info.state,
        d.capabilities == info.capabilities,
        d.history_capacity_ms == info.history_capacity_ms,
        d.history_available_records == info.history_available_records,
        d.decimation == info.decimation,
        d.count == info.count,
        d.connected_clients == info.connected_clients,
        d.n_sources == info.n_sources,
        d.sources@ == info.sources@,
{
    let p = info_bytes(info);
    lemma_le16_round_trip(info.capabilities);
    lemma_le32_round_trip(info.history_capacity_ms);
    lemma_le32_round_trip(info.history_available_records);
    lemma_le16_round_trip(info.decimation);
    lemma_le32_round_trip(info.count);
    lemma_le16_round_trip(info.connected_clients);
    assert(p[2] == le16(info.capabilities)[0] && p[3] == le16(info.capabilities)[1]);
    assert(p[4] == le32(info.history_capacity_ms)[0] && p[5] == le32(info.history_capacity_ms)[1]
        && p[6] == le32(info.history_capacity_ms)[2] && p[7] == le32(info.history_capacity_ms)[3]);
    assert(p[8] == le32(info.history_available_records)[0] && p[9] == le32(
        info.history_available_records,
    )[1] && p[10] == le32(info.history_available_records)[2] && p[11] == le32(
        info.history_available_records,
    )[3]);
    assert(p[12] == le16(info.decimation)[0] && p[13] == le16(info.decimation)[1]);
    assert(p[14] == le32(info.count)[0] && p[15] == le32(info.count)[1] && p[16] == le32(
        info.count,
    )[2] && p[17] == le32(info.count)[3]);
    assert(p[18] == le16(info.connected_clients)[0] && p[19] == le16(info.connected_clients)[1]);
    assert(p[20] == info.n_sources);
    assert(d.sources@ =~= info.sources@);
}

} // verus!
