//! The broker's shared stream session: the configured and running stream,
//! the attached clients, the retained history and the client that owns a
//! table upload. Each request a client makes, each packet the device sends
//! and each loss of the device connection is a transition of this state;
//! the caller performs the network and storage work around it.

use std::collections::HashMap;

use vstd::prelude::*;
use vstd::std_specs::hash::spec_hash_map_iter;
use vstd::std_specs::iter::IteratorSpec;

use crate::broker::{
    BrokerError, BrokerInfo, BROKER_INFO, CAPABILITIES, GET_RECENT, MAX_SOURCES, QUIET_STREAM_START,
    SET_CLIENT_QUIET, STATE_CLIENT_ATTACHED, STATE_CLIENT_QUIET, STATE_CONFIGURED, STATE_RUNNING,
    STATE_TABLE_TRANSACTION, STATE_UPSTREAM_CONNECTED,
};
use crate::bytes::{from_le16, from_le32};
use crate::frame::{msg_type_code, MsgType};
use crate::history::{
    is_replay, lemma_trimmed_within_capacity, total_records, trimmed, History, Packet, StreamHeader,
};
use crate::server::{configuration_of, StreamConfiguration};
use crate::ErrorCode;

verus! {

broadcast use vstd::std_specs::hash::group_hash_axioms;

/// A client's UDP endpoint: IPv4 address (most significant octet first)
/// and port.
#[derive(Clone, Copy, Debug, PartialEq, Eq, Structural)]
pub struct Endpoint {
    pub ip: u32,
    pub port: u16,
}

/// Stream delivery state of one connected client.
#[derive(Clone, Copy, Debug, PartialEq, Eq, Structural)]
pub struct ClientState {
    /// Where live packets are sent, once the client has started the stream.
    pub endpoint: Option<Endpoint>,
    /// A quiet client receives no live packets, only replays it asks for.
    pub quiet: bool,
}

/// A client that is connected but receives nothing.
pub open spec fn idle_client() -> ClientState {
    ClientState { endpoint: None, quiet: false }
}

impl Default for ClientState {
    fn default() -> (c: Self)
        ensures
            c == idle_client(),
    {
        ClientState { endpoint: None, quiet: false }
    }
}

/// The client holding a table upload, and when it last advanced it.
#[derive(Clone, Copy, Debug, PartialEq, Eq, Structural)]
pub struct TableOwner {
    pub client_id: u64,
    pub touched_ms: u64,
}

/// A table upload left untouched this long is abandoned.
pub const TABLE_TRANSACTION_TIMEOUT_MS: u64 = 5000;

/// Most records the shared history is asked to retain: the record count
/// plus one more packet (at most 65535 records) must fit in a `usize`.
pub const MAX_HISTORY_RECORDS: usize = usize::MAX - 65535;

/// Why a client request is answered with an error frame.
#[derive(Clone, Copy, Debug, PartialEq, Eq, Structural)]
pub enum Refusal {
    Protocol(ErrorCode),
    Broker(BrokerError),
}

/// Outcome of a client request that is not a normal reply.
#[derive(Clone, Copy, Debug, PartialEq, Eq, Structural)]
pub enum RequestError {
    /// Answered with an error frame.
    Refused(Refusal),
    /// The client has no session state; its connection is closed.
    UnknownClient,
    /// The device description is not available; the request fails.
    NoDeviceMetadata,
}

/// Milliseconds from `since` to `now`, zero when `now` is earlier.
pub open spec fn elapsed_ms(now: u64, since: u64) -> int {
    if now >= since {
        now - since
    } else {
        0
    }
}

/// The table owner, dropped once its upload has been idle for the timeout.
pub open spec fn owner_after_expiry(owner: Option<TableOwner>, now_ms: u64) -> Option<TableOwner> {
    match owner {
        Some(o) => if elapsed_ms(now_ms, o.touched_ms) >= TABLE_TRANSACTION_TIMEOUT_MS {
            None
        } else {
            owner
        },
        None => None,
    }
}

/// Every client kept, none attached or quiet.
pub open spec fn detached(clients: Map<u64, ClientState>) -> Map<u64, ClientState> {
    clients.map_values(|c: ClientState| idle_client())
}

/// The state of `id`, or an idle client when it is unknown.
pub open spec fn client_of(clients: Map<u64, ClientState>, id: u64) -> ClientState {
    if clients.contains_key(id) {
        clients[id]
    } else {
        idle_client()
    }
}

/// `bit` when `b` holds.
pub open spec fn flag(b: bool, bit: u8) -> int {
    if b {
        bit as int
    } else {
        0
    }
}

/// Session state bits reported to a client.
pub open spec fn info_state(
    connected: bool,
    configured: bool,
    running: bool,
    client: ClientState,
    table_owned: bool,
) -> u8 {
    (flag(connected, STATE_UPSTREAM_CONNECTED) + flag(configured, STATE_CONFIGURED) + flag(
        running,
        STATE_RUNNING,
    ) + flag(client.endpoint is Some, STATE_CLIENT_ATTACHED) + flag(client.quiet, STATE_CLIENT_QUIET)
        + flag(table_owned, STATE_TABLE_TRANSACTION)) as u8
}

/// `n`, or the largest `u32` when it does not fit.
pub open spec fn clamp_u32(n: int) -> u32 {
    if n > u32::MAX {
        u32::MAX
    } else {
        n as u32
    }
}

/// The shared session. The record count and history always describe the
/// same packets, and the configuration is one the device can stream.
pub struct SharedState {
    configuration: Option<StreamConfiguration>,
    running: bool,
    received_records: u64,
    clients: HashMap<u64, ClientState>,
    history: History,
    table_owner: Option<TableOwner>,
}

/// A configuration that decoding accepts.
pub open spec fn valid_configuration(c: StreamConfiguration) -> bool {
    &&& c.decimation != 0
    &&& 1 <= c.sources@.len() <= MAX_SOURCES
}

/// What a stream-start request leads to.
#[derive(Clone, Copy, Debug, PartialEq, Eq, Structural)]
pub enum StartDecision {
    /// The stream already runs; the client is attached to it.
    Attached,
    /// The stream must be started, delivering to this endpoint first.
    Begin(Endpoint),
}

/// What to do with a stream packet from the device.
#[derive(Clone, Copy, Debug, PartialEq, Eq, Structural)]
pub enum PacketRoute {
    /// No stream is configured and running.
    Ignore,
    /// The packet's layout differs from the running configuration.
    LayoutChanged,
    /// Record and deliver the packet.
    Accept,
}

/// The request refused with `code`.
pub open spec fn refused(code: ErrorCode) -> RequestError {
    RequestError::Refused(Refusal::Protocol(code))
}

/// The request refused with the broker's `code`.
pub open spec fn refused_by_broker(code: BrokerError) -> RequestError {
    RequestError::Refused(Refusal::Broker(code))
}

/// Endpoints that receive a live packet, in the order `clients` lists the
/// client states: every attached client that is not quiet.
pub open spec fn fan_out(clients: Seq<ClientState>) -> Seq<Endpoint>
    decreases clients.len(),
{
    if clients.len() == 0 {
        Seq::empty()
    } else {
        let rest = fan_out(clients.drop_last());
        let c = clients.last();
        match c.endpoint {
            Some(e) => if c.quiet {
                rest
            } else {
                rest.push(e)
            },
            None => rest,
        }
    }
}

/// `order` lists each client of `clients` exactly once.
pub open spec fn lists_clients(order: Seq<(u64, ClientState)>, clients: Map<u64, ClientState>) -> bool {
    &&& forall|i: int|
        0 <= i < order.len() ==> #[trigger] clients.contains_key(order[i].0) && clients[order[i].0]
            == order[i].1
    &&& forall|i: int, j: int| 0 <= i < j < order.len() ==> order[i].0 != order[j].0
    &&& forall|k: u64| #[trigger]
        clients.contains_key(k) ==> exists|i: int| 0 <= i < order.len() && order[i].0 == k
}

/// The state values of a listing.
pub open spec fn listed_states(order: Seq<(u64, ClientState)>) -> Seq<ClientState> {
    order.map_values(|p: (u64, ClientState)| p.1)
}

/// Whether a table request from `client_id` may proceed, given the owner
/// after expiry.
pub open spec fn table_check(owner: Option<TableOwner>, client_id: u64) -> Result<(), RequestError> {
    match owner {
        Some(o) => if o.client_id != client_id {
            Err(refused(ErrorCode::Busy))
        } else {
            Ok(())
        },
        None => Ok(()),
    }
}

/// The table owner after the device answered a table request.
pub open spec fn table_owner_after_reply(
    owner: Option<TableOwner>,
    client_id: u64,
    message_type: u8,
    reply_type: u8,
    device_busy: bool,
    now_ms: u64,
) -> Option<TableOwner> {
    if message_type == msg_type_code(MsgType::SetBlock) && reply_type == message_type {
        Some(TableOwner { client_id, touched_ms: now_ms })
    } else if message_type == msg_type_code(MsgType::Commit) {
        if device_busy {
            match owner {
                Some(o) => Some(TableOwner { touched_ms: now_ms, ..o }),
                None => None,
            }
        } else {
            None
        }
    } else {
        owner
    }
}

/// Every source index is below `n`.
fn sources_within(sources: &Vec<u8>, n: usize) -> (ok: bool)
    ensures
        ok == forall|i: int| 0 <= i < sources@.len() ==> #[trigger] sources@[i] < n,
{
    let mut i: usize = 0;
    while i < sources.len()
        invariant
            i <= sources@.len(),
            forall|j: int| 0 <= j < i ==> #[trigger] sources@[j] < n,
        decreases sources@.len() - i,
    {
        if sources[i] as usize >= n {
            return false;
        }
        i = i + 1;
    }
    true
}

impl SharedState {
    pub closed spec fn spec_configuration(&self) -> Option<StreamConfiguration> {
        self.configuration
    }

    pub closed spec fn spec_running(&self) -> bool {
        self.running
    }

    /// Records received since the stream started.
    pub closed spec fn spec_received(&self) -> u64 {
        self.received_records
    }

    pub closed spec fn spec_clients(&self) -> Map<u64, ClientState> {
        self.clients@
    }

    pub closed spec fn spec_history(&self) -> History {
        self.history
    }

    pub closed spec fn spec_table_owner(&self) -> Option<TableOwner> {
        self.table_owner
    }

    /// The history is consistent and bounded, and a stored configuration
    /// is valid.
    pub open spec fn wf(&self) -> bool {
        &&& self.spec_history().wf()
        &&& self.spec_history().spec_capacity() <= MAX_HISTORY_RECORDS
        &&& total_records(self.spec_history().spec_packets()) <= MAX_HISTORY_RECORDS
        &&& self.spec_configuration() matches Some(c) ==> valid_configuration(c)
    }

    /// No stream, no clients, empty history.
    pub fn new() -> (s: Self)
        ensures
            s.wf(),
            s.spec_configuration() is None,
            !s.spec_running(),
            s.spec_received() == 0,
            s.spec_clients() == Map::<u64, ClientState>::empty(),
            s.spec_history().spec_packets().len() == 0,
            s.spec_table_owner() is None,
    {
        SharedState {
            configuration: None,
            running: false,
            received_records: 0,
            clients: HashMap::new(),
            history: History::new(),
            table_owner: None,
        }
    }

    /// Drop the table owner if its upload has been idle for the timeout.
    pub fn expire_table_owner(&mut self, now_ms: u64)
        ensures
            final(self).spec_table_owner() == owner_after_expiry(old(self).spec_table_owner(), now_ms),
            final(self).spec_configuration() == old(self).spec_configuration(),
            final(self).spec_running() == old(self).spec_running(),
            final(self).spec_received() == old(self).spec_received(),
            final(self).spec_clients() == old(self).spec_clients(),
            final(self).spec_history() == old(self).spec_history(),
    {
        match self.table_owner {
            Some(owner) => {
                let elapsed = if now_ms >= owner.touched_ms {
                    now_ms - owner.touched_ms
                } else {
                    0
                };
                if elapsed >= TABLE_TRANSACTION_TIMEOUT_MS {
                    self.table_owner = None;
                }
            },
            None => {},
        }
    }

    /// Detach every client: none receives packets until it starts again.
    pub fn detach_all(&mut self)
        ensures
            final(self).spec_clients() == detached(old(self).spec_clients()),
            final(self).spec_configuration() == old(self).spec_configuration(),
            final(self).spec_running() == old(self).spec_running(),
            final(self).spec_received() == old(self).spec_received(),
            final(self).spec_history() == old(self).spec_history(),
            final(self).spec_table_owner() == old(self).spec_table_owner(),
    {
        let mut out: HashMap<u64, ClientState> = HashMap::new();
        for (id, _client) in it: self.clients.iter()
            invariant
                forall|k: u64| #[trigger]
                    out@.contains_key(k) ==> self.clients@.contains_key(k) && out@[k]
                        == idle_client(),
                forall|j: int| 0 <= j < it.index() ==> #[trigger] out@.contains_key(*it.seq()[j].0),
                it.seq() == spec_hash_map_iter(&self.clients).remaining(),
        {
            out.insert(*id, ClientState { endpoint: None, quiet: false });
        }
        proof {
            assert forall|k: u64| self.clients@.contains_key(k) implies #[trigger] out@.contains_key(
                k,
            ) by {
                let v = spec_hash_map_iter(&self.clients).remaining();
                assert(v.contains((&k, &self.clients@[k])));
                let j = choose|j: int| 0 <= j < v.len() && v[j] == (&k, &self.clients@[k]);
                assert(out@.contains_key(*v[j].0));
            }
            assert(out@ =~= detached(self.clients@));
        }
        self.clients = out;
    }

    /// The session as reported to `client_id`, after dropping an idle table
    /// owner. `connected` tells whether the device connection is up and
    /// `history_ms` is the configured retention.
    pub fn broker_info(&mut self, client_id: u64, connected: bool, history_ms: u128, now_ms: u64) -> (info:
        BrokerInfo)
        requires
            old(self).wf(),
        ensures
            final(self).wf(),
            final(self).spec_table_owner() == owner_after_expiry(old(self).spec_table_owner(), now_ms),
            final(self).spec_configuration() == old(self).spec_configuration(),
            final(self).spec_running() == old(self).spec_running(),
            final(self).spec_received() == old(self).spec_received(),
            final(self).spec_clients() == old(self).spec_clients(),
            final(self).spec_history() == old(self).spec_history(),
            info.state == info_state(
                connected,
                old(self).spec_configuration() is Some,
                old(self).spec_running(),
                client_of(old(self).spec_clients(), client_id),
                final(self).spec_table_owner() is Some,
            ),
            info.capabilities == CAPABILITIES,
            info.history_capacity_ms == clamp_u32(history_ms as int),
            info.history_available_records == clamp_u32(
                total_records(old(self).spec_history().spec_packets()) as int,
            ),
            info.connected_clients == if old(self).spec_clients().len() > u16::MAX {
                u16::MAX
            } else {
                old(self).spec_clients().len() as u16
            },
            match old(self).spec_configuration() {
                Some(c) => {
                    &&& info.decimation == c.decimation
                    &&& info.count == c.count
                    &&& info.n_sources == c.sources@.len()
                    &&& info.sources@ == c.sources@ + Seq::new(
                        (MAX_SOURCES - c.sources@.len()) as nat,
                        |i: int| 0u8,
                    )
                },
                None => {
                    &&& info.decimation == 1
                    &&& info.count == 0
                    &&& info.n_sources == 0
                    &&& info.sources@ == Seq::new(MAX_SOURCES as nat, |i: int| 0u8)
                },
            },
    {
        self.expire_table_owner(now_ms);
        let client = match self.clients.get(&client_id) {
            Some(c) => *c,
            None => ClientState { endpoint: None, quiet: false },
        };
        let mut flags: u8 = 0;
        if connected {
            flags = flags + STATE_UPSTREAM_CONNECTED;
        }
        if self.configuration.is_some() {
            flags = flags + STATE_CONFIGURED;
        }
        if self.running {
            flags = flags + STATE_RUNNING;
        }
        if client.endpoint.is_some() {
            flags = flags + STATE_CLIENT_ATTACHED;
        }
        if client.quiet {
            flags = flags + STATE_CLIENT_QUIET;
        }
        if self.table_owner.is_some() {
            flags = flags + STATE_TABLE_TRANSACTION;
        }
        let mut sources = [0u8; 24];
        let (decimation, count, n_sources) = match &self.configuration {
            Some(configuration) => {
                let n = configuration.sources.len();
                let mut i: usize = 0;
                while i < n
                    invariant
                        n == configuration.sources@.len(),
                        n <= MAX_SOURCES,
                        i <= n,
                        forall|j: int| 0 <= j < i ==> sources@[j] == configuration.sources@[j],
                        forall|j: int| i <= j < MAX_SOURCES ==> sources@[j] == 0u8,
                    decreases n - i,
                {
                    sources[i] = configuration.sources[i];
                    i = i + 1;
                }
                assert(sources@ =~= configuration.sources@ + Seq::new(
                    (MAX_SOURCES - n) as nat,
                    |i: int| 0u8,
                ));
                (configuration.decimation, configuration.count, n as u8)
            },
            None => {
                assert(sources@ =~= Seq::new(MAX_SOURCES as nat, |i: int| 0u8));
                (1u16, 0u32, 0u8)
            },
        };
        let history_capacity_ms = if history_ms > 4294967295 {
            4294967295u32
        } else {
            history_ms as u32
        };
        let records = self.history.records();
        let history_available_records = if records > 4294967295 {
            4294967295u32
        } else {
            records as u32
        };
        let n_clients = self.clients.len();
        let connected_clients = if n_clients > 65535 {
            65535u16
        } else {
            n_clients as u16
        };
        BrokerInfo {
            state: flags,
            capabilities: CAPABILITIES,
            history_capacity_ms,
            history_available_records,
            decimation,
            count,
            connected_clients,
            n_sources,
            sources,
        }
    }

    /// Switch a client between live delivery and quiet (replay only).
    pub fn set_quiet(&mut self, client_id: u64, payload: &[u8]) -> (r: Result<(), RequestError>)
        ensures
            payload@.len() != 1 ==> r == Err::<(), RequestError>(refused(ErrorCode::BadLength)),
            payload@.len() == 1 && payload@[0] > 1 ==> r == Err::<(), RequestError>(
                refused(ErrorCode::BadValue),
            ),
            payload@.len() == 1 && payload@[0] <= 1 && !old(self).spec_clients().contains_key(
                client_id,
            ) ==> r == Err::<(), RequestError>(RequestError::UnknownClient),
            payload@.len() == 1 && payload@[0] <= 1 && old(self).spec_clients().contains_key(
                client_id,
            ) && old(self).spec_clients()[client_id].endpoint is None ==> r == Err::<
                (),
                RequestError,
            >(refused_by_broker(BrokerError::NotAttached)),
            payload@.len() == 1 && payload@[0] <= 1 && old(self).spec_clients().contains_key(
                client_id,
            ) && old(self).spec_clients()[client_id].endpoint is Some ==> r is Ok,
            r is Err ==> *final(self) == *old(self),
            r is Ok ==> final(self).spec_clients() == old(self).spec_clients().insert(
                client_id,
                (ClientState { quiet: payload@[0] != 0, ..old(self).spec_clients()[client_id] }),
            ),
            r is Ok ==> old(self).spec_clients().contains_key(client_id)
                && old(self).spec_clients()[client_id].endpoint is Some,
            final(self).spec_configuration() == old(self).spec_configuration(),
            final(self).spec_running() == old(self).spec_running(),
            final(self).spec_received() == old(self).spec_received(),
            final(self).spec_history() == old(self).spec_history(),
            final(self).spec_table_owner() == old(self).spec_table_owner(),
    {
        if payload.len() != 1 {
            return Err(RequestError::Refused(Refusal::Protocol(ErrorCode::BadLength)));
        }
        if payload[0] > 1 {
            return Err(RequestError::Refused(Refusal::Protocol(ErrorCode::BadValue)));
        }
        let client = match self.clients.get(&client_id) {
            Some(c) => *c,
            None => {
                return Err(RequestError::UnknownClient);
            },
        };
        if client.endpoint.is_none() {
            return Err(RequestError::Refused(Refusal::Broker(BrokerError::NotAttached)));
        }
        self.clients.insert(client_id, ClientState { quiet: payload[0] != 0, ..client });
        Ok(())
    }

    /// A replay of the most recent records for a quiet client: the count
    /// asked for, where to send the packets, and the packets.
    pub fn get_recent(&self, client_id: u64, payload: &[u8]) -> (r: Result<
        (u32, Endpoint, Vec<Packet>),
        RequestError,
    >)
        requires
            self.wf(),
        ensures
            ({
                let clients = self.spec_clients();
                let requested = if payload@.len() == 4 {
                    from_le32(payload@[0], payload@[1], payload@[2], payload@[3])
                } else {
                    0
                };
                let records = total_records(self.spec_history().spec_packets());
                if payload@.len() != 4 {
                    r == Err::<(u32, Endpoint, Vec<Packet>), RequestError>(
                        refused(ErrorCode::BadLength),
                    )
                } else if requested == 0 {
                    r == Err::<(u32, Endpoint, Vec<Packet>), RequestError>(
                        refused(ErrorCode::BadValue),
                    )
                } else if !self.spec_running() {
                    r == Err::<(u32, Endpoint, Vec<Packet>), RequestError>(
                        refused_by_broker(BrokerError::NoActiveStream),
                    )
                } else if !clients.contains_key(client_id) {
                    r == Err::<(u32, Endpoint, Vec<Packet>), RequestError>(
                        RequestError::UnknownClient,
                    )
                } else if clients[client_id].endpoint is None {
                    r == Err::<(u32, Endpoint, Vec<Packet>), RequestError>(
                        refused_by_broker(BrokerError::NotAttached),
                    )
                } else if !clients[client_id].quiet {
                    r == Err::<(u32, Endpoint, Vec<Packet>), RequestError>(
                        refused_by_broker(BrokerError::NotQuiet),
                    )
                } else if requested > records {
                    r == Err::<(u32, Endpoint, Vec<Packet>), RequestError>(
                        refused_by_broker(BrokerError::InsufficientHistory),
                    )
                } else {
                    r matches Ok((n, endpoint, packets)) && n == requested && Some(endpoint)
                        == clients[client_id].endpoint && is_replay(
                        self.spec_history().spec_packets(),
                        requested as int,
                        packets@,
                    )
                }
            }),
    {
        if payload.len() != 4 {
            return Err(RequestError::Refused(Refusal::Protocol(ErrorCode::BadLength)));
        }
        let requested = crate::bytes::u32_from_le(payload[0], payload[1], payload[2], payload[3]);
        if requested == 0 {
            return Err(RequestError::Refused(Refusal::Protocol(ErrorCode::BadValue)));
        }
        if !self.running {
            return Err(RequestError::Refused(Refusal::Broker(BrokerError::NoActiveStream)));
        }
        let client = match self.clients.get(&client_id) {
            Some(c) => *c,
            None => {
                return Err(RequestError::UnknownClient);
            },
        };
        let endpoint = match client.endpoint {
            Some(e) => e,
            None => {
                return Err(RequestError::Refused(Refusal::Broker(BrokerError::NotAttached)));
            },
        };
        if !client.quiet {
            return Err(RequestError::Refused(Refusal::Broker(BrokerError::NotQuiet)));
        }
        match self.history.recent(requested as usize) {
            Some(packets) => Ok((requested, endpoint, packets)),
            None => Err(RequestError::Refused(Refusal::Broker(BrokerError::InsufficientHistory))),
        }
    }

    /// Check a stream configuration request: refused while the stream runs
    /// or when the configuration is invalid; otherwise the configuration to
    /// forward to the device.
    pub fn check_setup(&self, payload: &[u8]) -> (r: Result<StreamConfiguration, RequestError>)
        ensures
            self.spec_running() ==> r == Err::<StreamConfiguration, RequestError>(
                refused(ErrorCode::Busy),
            ),
            !self.spec_running() ==> match configuration_of(payload@) {
                Ok((decimation, count, sources)) => r matches Ok(d) && d.decimation == decimation
                    && d.count == count && d.sources@ == sources,
                Err(_) => r == Err::<StreamConfiguration, RequestError>(refused(ErrorCode::BadValue)),
            },
            r matches Ok(c) ==> valid_configuration(c),
    {
        if self.running {
            return Err(RequestError::Refused(Refusal::Protocol(ErrorCode::Busy)));
        }
        match StreamConfiguration::decode(payload) {
            Ok(c) => Ok(c),
            Err(_) => Err(RequestError::Refused(Refusal::Protocol(ErrorCode::BadValue))),
        }
    }

    /// The device accepted `configuration`: it is the shared stream's.
    pub fn configure(&mut self, configuration: StreamConfiguration)
        requires
            old(self).wf(),
            valid_configuration(configuration),
        ensures
            final(self).wf(),
            final(self).spec_configuration() == Some(configuration),
            final(self).spec_running() == old(self).spec_running(),
            final(self).spec_received() == old(self).spec_received(),
            final(self).spec_clients() == old(self).spec_clients(),
            final(self).spec_history() == old(self).spec_history(),
            final(self).spec_table_owner() == old(self).spec_table_owner(),
    {
        self.configuration = Some(configuration);
    }

    /// Check a stream-start request from `client_id` at `peer_ip` asking
    /// for packets on the port in `payload`, quiet or not. While the stream
    /// runs, the client is attached at once; otherwise the stream must be
    /// started, which needs a configuration whose sources the device has
    /// (`device_sources` is their number, `None` while the device is not
    /// described).
    pub fn start_request(
        &mut self,
        client_id: u64,
        peer_ip: u32,
        payload: &[u8],
        quiet: bool,
        device_sources: Option<usize>,
    ) -> (r: Result<StartDecision, RequestError>)
        ensures
            ({
                let port = if payload@.len() == 2 {
                    from_le16(payload@[0], payload@[1])
                } else {
                    0
                };
                let target = Endpoint { ip: peer_ip, port };
                if payload@.len() != 2 {
                    r == Err::<StartDecision, RequestError>(refused(ErrorCode::BadLength))
                } else if port == 0 {
                    r == Err::<StartDecision, RequestError>(refused(ErrorCode::BadValue))
                } else if old(self).spec_running() {
                    if old(self).spec_clients().contains_key(client_id) {
                        r == Ok::<StartDecision, RequestError>(StartDecision::Attached)
                    } else {
                        r == Err::<StartDecision, RequestError>(RequestError::UnknownClient)
                    }
                } else {
                    match old(self).spec_configuration() {
                        None => r == Err::<StartDecision, RequestError>(
                            refused(ErrorCode::BadValue),
                        ),
                        Some(c) => match device_sources {
                            None => r == Err::<StartDecision, RequestError>(
                                RequestError::NoDeviceMetadata,
                            ),
                            Some(n) => if exists|i: int|
                                0 <= i < c.sources@.len() && #[trigger] c.sources@[i] >= n {
                                r == Err::<StartDecision, RequestError>(
                                    refused(ErrorCode::BadValue),
                                )
                            } else {
                                r == Ok::<StartDecision, RequestError>(
                                    StartDecision::Begin(target),
                                )
                            },
                        },
                    }
                }
            }),
            r == Ok::<StartDecision, RequestError>(StartDecision::Attached) ==> final(self).spec_clients()
                == old(self).spec_clients().insert(
                client_id,
                (ClientState {
                    endpoint: Some(
                        (Endpoint { ip: peer_ip, port: from_le16(payload@[0], payload@[1]) }),
                    ),
                    quiet,
                }),
            ),
            r != Ok::<StartDecision, RequestError>(StartDecision::Attached) ==> final(self).spec_clients() == old(self).spec_clients(),
            final(self).spec_configuration() == old(self).spec_configuration(),
            final(self).spec_running() == old(self).spec_running(),
            final(self).spec_received() == old(self).spec_received(),
            final(self).spec_history() == old(self).spec_history(),
            final(self).spec_table_owner() == old(self).spec_table_owner(),
    {
        if payload.len() != 2 {
            return Err(RequestError::Refused(Refusal::Protocol(ErrorCode::BadLength)));
        }
        let port = crate::bytes::u16_from_le(payload[0], payload[1]);
        if port == 0 {
            return Err(RequestError::Refused(Refusal::Protocol(ErrorCode::BadValue)));
        }
        let target = Endpoint { ip: peer_ip, port };
        if self.running {
            if !self.clients.contains_key(&client_id) {
                return Err(RequestError::UnknownClient);
            }
            self.clients.insert(client_id, ClientState { endpoint: Some(target), quiet });
            return Ok(StartDecision::Attached);
        }
        let configuration = match &self.configuration {
            Some(c) => c,
            None => {
                return Err(RequestError::Refused(Refusal::Protocol(ErrorCode::BadValue)));
            },
        };
        let n = match device_sources {
            Some(n) => n,
            None => {
                return Err(RequestError::NoDeviceMetadata);
            },
        };
        if !sources_within(&configuration.sources, n) {
            return Err(RequestError::Refused(Refusal::Protocol(ErrorCode::BadValue)));
        }
        Ok(StartDecision::Begin(target))
    }

    /// The stream starts: running, counting from zero, with an empty
    /// history retaining `capacity` records (at least one, at most
    /// `MAX_HISTORY_RECORDS`), and `client_id` attached at `target`.
    pub fn begin_stream(&mut self, client_id: u64, target: Endpoint, quiet: bool, capacity: usize) -> (r:
        Result<(), RequestError>)
        requires
            old(self).wf(),
        ensures
            final(self).wf(),
            final(self).spec_running(),
            final(self).spec_received() == 0,
            final(self).spec_history().spec_packets().len() == 0,
            final(self).spec_history().spec_capacity() == if capacity < 1 {
                1
            } else if capacity > MAX_HISTORY_RECORDS {
                MAX_HISTORY_RECORDS as nat
            } else {
                capacity as nat
            },
            old(self).spec_clients().contains_key(client_id) <==> r is Ok,
            r is Ok ==> final(self).spec_clients() == old(self).spec_clients().insert(
                client_id,
                (ClientState { endpoint: Some(target), quiet }),
            ),
            r is Err ==> r == Err::<(), RequestError>(RequestError::UnknownClient) && final(self).spec_clients() == old(self).spec_clients(),
            final(self).spec_configuration() == old(self).spec_configuration(),
            final(self).spec_table_owner() == old(self).spec_table_owner(),
    {
        self.running = true;
        self.received_records = 0;
        let retained = if capacity > MAX_HISTORY_RECORDS {
            MAX_HISTORY_RECORDS
        } else {
            capacity
        };
        self.history.reset(retained);
        if !self.clients.contains_key(&client_id) {
            return Err(RequestError::UnknownClient);
        }
        self.clients.insert(client_id, ClientState { endpoint: Some(target), quiet });
        Ok(())
    }

    /// The device refused to start the stream: it is not running, its
    /// history is empty and no client is attached.
    pub fn abort_stream(&mut self)
        requires
            old(self).wf(),
        ensures
            final(self).wf(),
            !final(self).spec_running(),
            final(self).spec_history().spec_packets().len() == 0,
            final(self).spec_history().spec_capacity() == old(self).spec_history().spec_capacity(),
            final(self).spec_clients() == detached(old(self).spec_clients()),
            final(self).spec_received() == old(self).spec_received(),
            final(self).spec_configuration() == old(self).spec_configuration(),
            final(self).spec_table_owner() == old(self).spec_table_owner(),
    {
        self.running = false;
        self.history.clear();
        self.detach_all();
    }

    /// The device stopped the stream on request; returns whether it was
    /// running.
    pub fn stop_stream(&mut self) -> (was_running: bool)
        requires
            old(self).wf(),
        ensures
            was_running == old(self).spec_running(),
            final(self).wf(),
            !final(self).spec_running(),
            final(self).spec_received() == 0,
            final(self).spec_history().spec_packets().len() == 0,
            final(self).spec_history().spec_capacity() == old(self).spec_history().spec_capacity(),
            final(self).spec_clients() == detached(old(self).spec_clients()),
            final(self).spec_configuration() == old(self).spec_configuration(),
            final(self).spec_table_owner() == old(self).spec_table_owner(),
    {
        let was_running = self.running;
        self.running = false;
        self.received_records = 0;
        self.history.clear();
        self.detach_all();
        was_running
    }

    /// The configured count was reached: a running stream stops as on
    /// request; returns whether it was running.
    pub fn complete_stream(&mut self) -> (was_running: bool)
        requires
            old(self).wf(),
        ensures
            was_running == old(self).spec_running(),
            final(self).wf(),
            !was_running ==> *final(self) == *old(self),
            was_running ==> {
                &&& !final(self).spec_running()
                &&& final(self).spec_received() == 0
                &&& final(self).spec_history().spec_packets().len() == 0
                &&& final(self).spec_history().spec_capacity() == old(self).spec_history().spec_capacity()
                &&& final(self).spec_clients() == detached(old(self).spec_clients())
                &&& final(self).spec_configuration() == old(self).spec_configuration()
                &&& final(self).spec_table_owner() == old(self).spec_table_owner()
            },
    {
        if !self.running {
            return false;
        }
        self.stop_stream()
    }

    /// The device connection was lost: no stream, no configuration, no
    /// history, no attached client and no table upload; the clients stay
    /// connected. Returns whether the stream was running.
    pub fn upstream_lost(&mut self) -> (was_running: bool)
        requires
            old(self).wf(),
        ensures
            was_running == old(self).spec_running(),
            final(self).wf(),
            !final(self).spec_running(),
            final(self).spec_configuration() is None,
            final(self).spec_received() == 0,
            final(self).spec_history().spec_packets().len() == 0,
            final(self).spec_history().spec_capacity() == old(self).spec_history().spec_capacity(),
            final(self).spec_clients() == detached(old(self).spec_clients()),
            final(self).spec_table_owner() is None,
    {
        let was_running = self.running;
        self.running = false;
        self.configuration = None;
        self.received_records = 0;
        self.history.clear();
        self.detach_all();
        self.table_owner = None;
        was_running
    }

    /// The shared stream's configuration, if one is set.
    pub fn configuration(&self) -> (r: Option<&StreamConfiguration>)
        ensures
            match (r, self.spec_configuration()) {
                (Some(a), Some(b)) => *a == b,
                (None, None) => true,
                _ => false,
            },
    {
        match &self.configuration {
            Some(c) => Some(c),
            None => None,
        }
    }

    /// Whether the stream runs.
    pub fn running(&self) -> (r: bool)
        ensures
            r == self.spec_running(),
    {
        self.running
    }

    /// What to do with a packet whose header is `header`.
    pub fn packet_route(&self, header: StreamHeader) -> (r: PacketRoute)
        ensures
            r == match self.spec_configuration() {
                None => PacketRoute::Ignore,
                Some(c) => if !self.spec_running() {
                    PacketRoute::Ignore
                } else if header.n_sources != c.sources@.len() || header.decimation
                    != c.decimation {
                    PacketRoute::LayoutChanged
                } else {
                    PacketRoute::Accept
                },
            },
    {
        match &self.configuration {
            None => PacketRoute::Ignore,
            Some(c) => {
                if !self.running {
                    PacketRoute::Ignore
                } else if header.n_sources as usize != c.sources.len() || header.decimation
                    != c.decimation {
                    PacketRoute::LayoutChanged
                } else {
                    PacketRoute::Accept
                }
            },
        }
    }

    /// Record an accepted packet: it joins the history, its records are
    /// counted, and it goes to every attached client that is not quiet.
    /// Returns those endpoints and whether the configured count is now
    /// reached.
    pub fn record_packet(&mut self, packet: Packet) -> (r: (Vec<Endpoint>, bool))
        requires
            old(self).wf(),
        ensures
            final(self).wf(),
            final(self).spec_history().spec_packets() == trimmed(
                old(self).spec_history().spec_packets().push(packet),
                old(self).spec_history().spec_capacity(),
            ),
            final(self).spec_history().spec_capacity() == old(self).spec_history().spec_capacity(),
            final(self).spec_received() == (old(self).spec_received()
                + packet.spec_header().n_records) % 18446744073709551616,
            exists|order: Seq<(u64, ClientState)>|
                lists_clients(order, old(self).spec_clients()) && r.0@ == fan_out(
                    #[trigger] listed_states(order),
                ),
            r.1 == match old(self).spec_configuration() {
                Some(c) => c.count != 0 && final(self).spec_received() >= c.count,
                None => false,
            },
            final(self).spec_configuration() == old(self).spec_configuration(),
            final(self).spec_running() == old(self).spec_running(),
            final(self).spec_clients() == old(self).spec_clients(),
            final(self).spec_table_owner() == old(self).spec_table_owner(),
    {
        let n = packet.header().n_records;
        let ghost before = self.history.spec_packets();
        proof {
            crate::history::lemma_total_push(before, packet);
        }
        self.history.push(packet);
        proof {
            lemma_trimmed_within_capacity(before.push(packet), self.history.spec_capacity());
            crate::history::lemma_trimmed_is_suffix(before.push(packet), self.history.spec_capacity());
            let t = trimmed(before.push(packet), self.history.spec_capacity());
            if t.len() <= 1 {
                if t.len() == 1 {
                    assert(t.drop_first().len() == 0);
                    assert(total_records(t) == t[0].spec_header().n_records + total_records(
                        t.drop_first(),
                    ));
                }
            }
        }
        self.received_records = self.received_records.wrapping_add(n as u64);
        let targets = self.delivery_targets();
        let complete = match &self.configuration {
            Some(c) => c.count != 0 && self.received_records >= c.count as u64,
            None => false,
        };
        (targets, complete)
    }

    /// Endpoints that receive a live packet.
    fn delivery_targets(&self) -> (targets: Vec<Endpoint>)
        ensures
            exists|order: Seq<(u64, ClientState)>|
                lists_clients(order, self.spec_clients()) && targets@ == fan_out(
                    #[trigger] listed_states(order),
                ),
    {
        let mut targets: Vec<Endpoint> = Vec::new();
        let ghost seq = spec_hash_map_iter(&self.clients).remaining();
        let ghost order = seq.map_values(|p: (&u64, &ClientState)| (*p.0, *p.1));
        for (_id, client) in it: self.clients.iter()
            invariant
                it.seq() == seq,
                order == seq.map_values(|p: (&u64, &ClientState)| (*p.0, *p.1)),
                seq.len() == order.len(),
                targets@ == fan_out(listed_states(order.take(it.index() as int))),
        {
            proof {
                let i = it.index() as int;
                assert(order.take(i + 1).drop_last() =~= order.take(i));
                assert(listed_states(order.take(i + 1)).drop_last() =~= listed_states(
                    order.take(i),
                ));
                assert(listed_states(order.take(i + 1)).last() == *client);
            }
            if !client.quiet {
                match client.endpoint {
                    Some(e) => targets.push(e),
                    None => {},
                }
            }
        }
        proof {
            assert(order.take(order.len() as int) =~= order);
            let m = self.clients@;
            assert forall|i: int| 0 <= i < order.len() implies #[trigger] m.contains_key(order[i].0)
                && m[order[i].0] == order[i].1 by {
                assert(m.contains_key(*seq[i].0) && m[*seq[i].0] == *seq[i].1);
            }
            assert forall|i: int, j: int| 0 <= i < j < order.len() implies order[i].0
                != order[j].0 by {
                if order[i].0 == order[j].0 {
                    assert(m[*seq[i].0] == *seq[i].1);
                    assert(m[*seq[j].0] == *seq[j].1);
                    assert(seq[i] == seq[j]);
                }
            }
            assert forall|k: u64| #[trigger] m.contains_key(k) implies exists|i: int|
                0 <= i < order.len() && order[i].0 == k by {
                assert(seq.contains((&k, &m[k])));
                let i = choose|i: int| 0 <= i < seq.len() && seq[i] == (&k, &m[k]);
                assert(order[i].0 == k);
            }
            assert(lists_clients(order, m));
        }
        targets
    }

    /// Check a table upload request from `client_id`: refused as busy while
    /// another client's upload is in progress (an upload idle for the
    /// timeout is abandoned first).
    pub fn begin_table_request(&mut self, client_id: u64, now_ms: u64) -> (r: Result<(), RequestError>)
        ensures
            final(self).spec_table_owner() == owner_after_expiry(old(self).spec_table_owner(), now_ms),
            r == table_check(final(self).spec_table_owner(), client_id),
            final(self).spec_configuration() == old(self).spec_configuration(),
            final(self).spec_running() == old(self).spec_running(),
            final(self).spec_received() == old(self).spec_received(),
            final(self).spec_clients() == old(self).spec_clients(),
            final(self).spec_history() == old(self).spec_history(),
    {
        self.expire_table_owner(now_ms);
        match self.table_owner {
            Some(owner) => {
                if owner.client_id != client_id {
                    return Err(RequestError::Refused(Refusal::Protocol(ErrorCode::Busy)));
                }
                Ok(())
            },
            None => Ok(()),
        }
    }

    /// The device answered a table request of `message_type` from
    /// `client_id` with a reply of `reply_type`; `device_busy` tells whether
    /// that reply is the device's Busy error. An accepted block makes the
    /// client the owner; a commit ends the upload unless the device is
    /// still busy, which only refreshes the owner.
    pub fn finish_table_request(
        &mut self,
        client_id: u64,
        message_type: u8,
        reply_type: u8,
        device_busy: bool,
        now_ms: u64,
    )
        ensures
            final(self).spec_table_owner() == table_owner_after_reply(
                old(self).spec_table_owner(),
                client_id,
                message_type,
                reply_type,
                device_busy,
                now_ms,
            ),
            final(self).spec_configuration() == old(self).spec_configuration(),
            final(self).spec_running() == old(self).spec_running(),
            final(self).spec_received() == old(self).spec_received(),
            final(self).spec_clients() == old(self).spec_clients(),
            final(self).spec_history() == old(self).spec_history(),
    {
        if message_type == MsgType::SetBlock.code() && reply_type == message_type {
            self.table_owner = Some(TableOwner { client_id, touched_ms: now_ms });
        } else if message_type == MsgType::Commit.code() {
            if device_busy {
                match self.table_owner {
                    Some(owner) => {
                        self.table_owner = Some(
                            TableOwner { client_id: owner.client_id, touched_ms: now_ms },
                        );
                    },
                    None => {},
                }
            } else {
                self.table_owner = None;
            }
        }
    }

    /// A newly connected client: known, not attached.
    pub fn register_client(&mut self, client_id: u64)
        ensures
            final(self).spec_clients() == old(self).spec_clients().insert(client_id, idle_client()),
            final(self).spec_configuration() == old(self).spec_configuration(),
            final(self).spec_running() == old(self).spec_running(),
            final(self).spec_received() == old(self).spec_received(),
            final(self).spec_history() == old(self).spec_history(),
            final(self).spec_table_owner() == old(self).spec_table_owner(),
    {
        self.clients.insert(client_id, ClientState { endpoint: None, quiet: false });
    }

    /// A client disconnected: forget it, end its table upload, and report
    /// whether it was the last client.
    pub fn unregister_client(&mut self, client_id: u64) -> (last: bool)
        ensures
            final(self).spec_clients() == old(self).spec_clients().remove(client_id),
            final(self).spec_table_owner() == match old(self).spec_table_owner() {
                Some(o) => if o.client_id == client_id {
                    None
                } else {
                    Some(o)
                },
                None => None,
            },
            last == (final(self).spec_clients().len() == 0),
            final(self).spec_configuration() == old(self).spec_configuration(),
            final(self).spec_running() == old(self).spec_running(),
            final(self).spec_received() == old(self).spec_received(),
            final(self).spec_history() == old(self).spec_history(),
    {
        self.clients.remove(&client_id);
        match self.table_owner {
            Some(owner) => {
                if owner.client_id == client_id {
                    self.table_owner = None;
                }
            },
            None => {},
        }
        self.clients.len() == 0
    }
}

/// Which handler a client request goes to.
#[derive(Clone, Copy, Debug, PartialEq, Eq, Structural)]
pub enum RequestKind {
    BrokerInfo,
    QuietStreamStart,
    SetClientQuiet,
    GetRecent,
    StreamSetup,
    StreamStart,
    StreamStop,
    /// A table block or commit, subject to the upload owner.
    Table,
    /// Anything else is forwarded to the device unchanged.
    Forward,
}

/// The handler for requests of `message_type`.
pub open spec fn request_kind(message_type: u8) -> RequestKind {
    if message_type == BROKER_INFO {
        RequestKind::BrokerInfo
    } else if message_type == QUIET_STREAM_START {
        RequestKind::QuietStreamStart
    } else if message_type == SET_CLIENT_QUIET {
        RequestKind::SetClientQuiet
    } else if message_type == GET_RECENT {
        RequestKind::GetRecent
    } else if message_type == msg_type_code(MsgType::StreamSetup) {
        RequestKind::StreamSetup
    } else if message_type == msg_type_code(MsgType::StreamStart) {
        RequestKind::StreamStart
    } else if message_type == msg_type_code(MsgType::StreamStop) {
        RequestKind::StreamStop
    } else if message_type == msg_type_code(MsgType::SetBlock) || message_type == msg_type_code(
        MsgType::Commit,
    ) {
        RequestKind::Table
    } else {
        RequestKind::Forward
    }
}

/// Route a client request by its message type.
pub fn classify_request(message_type: u8) -> (k: RequestKind)
    ensures
        k == request_kind(message_type),
{
    if message_type == BROKER_INFO {
        RequestKind::BrokerInfo
    } else if message_type == QUIET_STREAM_START {
        RequestKind::QuietStreamStart
    } else if message_type == SET_CLIENT_QUIET {
        RequestKind::SetClientQuiet
    } else if message_type == GET_RECENT {
        RequestKind::GetRecent
    } else if message_type == MsgType::StreamSetup.code() {
        RequestKind::StreamSetup
    } else if message_type == MsgType::StreamStart.code() {
        RequestKind::StreamStart
    } else if message_type == MsgType::StreamStop.code() {
        RequestKind::StreamStop
    } else if message_type == MsgType::SetBlock.code() || message_type == MsgType::Commit.code() {
        RequestKind::Table
    } else {
        RequestKind::Forward
    }
}

/// Requests that carry no payload (broker information, stream stop) are
/// refused when they do.
pub fn expect_empty(payload: &[u8]) -> (r: Result<(), RequestError>)
    ensures
        r == if payload@.len() == 0 {
            Ok::<(), RequestError>(())
        } else {
            Err(refused(ErrorCode::BadLength))
        },
{
    if payload.len() != 0 {
        return Err(RequestError::Refused(Refusal::Protocol(ErrorCode::BadLength)));
    }
    Ok(())
}

proof fn lemma_fan_out_of_idle(states: Seq<ClientState>)
    requires
        forall|i: int| 0 <= i < states.len() ==> #[trigger] states[i] == idle_client(),
    ensures
        fan_out(states).len() == 0,
    decreases states.len(),
{
    if states.len() > 0 {
        lemma_fan_out_of_idle(states.drop_last());
    }
}

/// After the stream stops, completes or loses the device, no client
/// receives live packets until it starts the stream again: whatever order
/// the clients are listed in, the delivery list is empty.
pub proof fn lemma_detached_clients_receive_nothing(
    clients: Map<u64, ClientState>,
    order: Seq<(u64, ClientState)>,
)
    requires
        lists_clients(order, detached(clients)),
    ensures
        fan_out(listed_states(order)).len() == 0,
{
    let states = listed_states(order);
    assert forall|i: int| 0 <= i < states.len() implies #[trigger] states[i] == idle_client() by {
        assert(detached(clients).contains_key(order[i].0));
    }
    lemma_fan_out_of_idle(states);
}

proof fn lemma_fan_out_members(states: Seq<ClientState>)
    ensures
        forall|e: Endpoint| #[trigger]
            fan_out(states).contains(e) <==> exists|i: int|
                0 <= i < states.len() && !states[i].quiet && states[i].endpoint == Some(e),
    decreases states.len(),
{
    if states.len() > 0 {
        let init = states.drop_last();
        lemma_fan_out_members(init);
        assert forall|e: Endpoint| #[trigger]
            fan_out(states).contains(e) <==> exists|i: int|
                0 <= i < states.len() && !states[i].quiet && states[i].endpoint == Some(e) by {
            let last = states.last();
            if fan_out(states).contains(e) {
                if fan_out(init).contains(e) {
                    let i = choose|i: int|
                        0 <= i < init.len() && !init[i].quiet && init[i].endpoint == Some(e);
                    assert(states[i] == init[i]);
                } else {
                    let k = fan_out(states).len() - 1;
                    assert(fan_out(states)[k] == e) by {
                        let j = choose|j: int| 0 <= j < fan_out(states).len() && fan_out(states)[j] == e;
                        if j < fan_out(init).len() {
                            assert(fan_out(init).contains(e));
                        }
                    }
                    assert(states[states.len() - 1] == last);
                }
            }
            if exists|i: int|
                0 <= i < states.len() && !states[i].quiet && states[i].endpoint == Some(e) {
                let i = choose|i: int|
                    0 <= i < states.len() && !states[i].quiet && states[i].endpoint == Some(e);
                if i < states.len() - 1 {
                    assert(init[i] == states[i]);
                    assert(fan_out(init).contains(e));
                    let j = choose|j: int| 0 <= j < fan_out(init).len() && fan_out(init)[j] == e;
                    assert(fan_out(states)[j] == e);
                } else {
                    assert(fan_out(states).last() == e);
                }
            }
        }
    }
}

/// Live packets go exactly to the attached clients that are not quiet: an
/// endpoint is on the delivery list if and only if some such client is
/// attached there.
pub proof fn lemma_delivery_reaches_exactly_the_live_clients(
    clients: Map<u64, ClientState>,
    order: Seq<(u64, ClientState)>,
    e: Endpoint,
)
    requires
        lists_clients(order, clients),
    ensures
        fan_out(listed_states(order)).contains(e) <==> exists|k: u64|
            clients.contains_key(k) && !(#[trigger] clients[k]).quiet && clients[k].endpoint == Some(e),
{
    let states = listed_states(order);
    lemma_fan_out_members(states);
    if fan_out(states).contains(e) {
        let i = choose|i: int| 0 <= i < states.len() && !states[i].quiet && states[i].endpoint == Some(e);
        assert(clients.contains_key(order[i].0));
        assert(clients[order[i].0] == states[i]);
    }
    if exists|k: u64| clients.contains_key(k) && !(#[trigger] clients[k]).quiet && clients[k].endpoint
        == Some(e) {
        let k = choose|k: u64| clients.contains_key(k) && !(#[trigger] clients[k]).quiet && clients[k].endpoint
            == Some(e);
        let i = choose|i: int| 0 <= i < order.len() && order[i].0 == k;
        assert(clients.contains_key(order[i].0));
        assert(states[i] == clients[k]);
    }
}

/// A table upload belongs to one client at a time: once a block from
/// `owner` is accepted at `t`, every other client's table request is
/// refused as busy until the upload has been idle for the timeout, and is
/// let through after that; the owner itself is never refused.
pub proof fn lemma_table_upload_is_exclusive(
    before: Option<TableOwner>,
    owner: u64,
    other: u64,
    t: u64,
    now: u64,
    block_type: u8,
)
    requires
        other != owner,
        block_type == msg_type_code(MsgType::SetBlock),
    ensures
        ({
            let held = table_owner_after_reply(before, owner, block_type, block_type, false, t);
            &&& elapsed_ms(now, t) < TABLE_TRANSACTION_TIMEOUT_MS ==> table_check(
                owner_after_expiry(held, now),
                other,
            ) == Err::<(), RequestError>(refused(ErrorCode::Busy))
            &&& elapsed_ms(now, t) >= TABLE_TRANSACTION_TIMEOUT_MS ==> table_check(
                owner_after_expiry(held, now),
                other,
            ) == Ok::<(), RequestError>(())
            &&& table_check(owner_after_expiry(held, now), owner) == Ok::<(), RequestError>(())
        }),
{
}

/// A commit the device accepts ends the upload, so any client may upload
/// next.
pub proof fn lemma_commit_releases_the_table(
    before: Option<TableOwner>,
    client_id: u64,
    other: u64,
    reply_type: u8,
    now: u64,
    later: u64,
)
    ensures
        table_check(
            owner_after_expiry(
                table_owner_after_reply(
                    before,
                    client_id,
                    msg_type_code(MsgType::Commit),
                    reply_type,
                    false,
                    now,
                ),
                later,
            ),
            other,
        ) == Ok::<(), RequestError>(()),
{
}

} // verus!
