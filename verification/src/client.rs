//! Per-client connection records: identity, authentication state,
//! timestamps, counters, the latest latency measurement, and the bounded
//! queue of outbound frames, together with the snapshot form the host UI
//! reads.

use vstd::prelude::*;

use crate::clock::iso_utc_of;
use crate::clock::rfc3339_utc_millis;
use crate::quality::quality_label;
use crate::quality::spec_quality_label;

verus! {

/// How many outbound frames one client may have queued.
pub const OUTBOUND_QUEUE_CAPACITY: usize = 1024;

/// What a client reported about itself when it authenticated.
pub struct EAInfo {
    pub version: String,
    pub platform: String,
    pub account: String,
    pub server_name: Option<String>,
    pub company_name: Option<String>,
}

/// Mathematical model of `EAInfo`.
#[verifier::ext_equal]
pub struct EAInfoModel {
    pub version: Seq<char>,
    pub platform: Seq<char>,
    pub account: Seq<char>,
    pub server_name: Option<Seq<char>>,
    pub company_name: Option<Seq<char>>,
}

impl View for EAInfo {
    type V = EAInfoModel;

    open spec fn view(&self) -> EAInfoModel {
        EAInfoModel {
            version: self.version@,
            platform: self.platform@,
            account: self.account@,
            server_name: match self.server_name {
                Option::Some(s) => Option::Some(s@),
                Option::None => Option::None,
            },
            company_name: match self.company_name {
                Option::Some(s) => Option::Some(s@),
                Option::None => Option::None,
            },
        }
    }
}

impl EAInfo {
    /// A field-for-field copy.
    pub fn duplicate(&self) -> (r: EAInfo)
        ensures
            r@ == self@,
    {
        EAInfo {
            version: self.version.clone(),
            platform: self.platform.clone(),
            account: self.account.clone(),
            server_name: match &self.server_name {
                Option::Some(s) => Option::Some(s.clone()),
                Option::None => Option::None,
            },
            company_name: match &self.company_name {
                Option::Some(s) => Option::Some(s.clone()),
                Option::None => Option::None,
            },
        }
    }
}

/// The bounded queue of frames waiting to be written to one client's
/// socket. A full queue refuses further frames; it never blocks.
pub struct MessageBuffer {
    pub messages: Vec<String>,
    pub max_size: usize,
}

/// One live connection: identity, liveness timestamps (milliseconds since
/// the Unix epoch), authentication state, counters, the latest measured
/// latency, and the outbound queue.
pub struct Connection {
    pub id: String,
    pub connected_at_ms: u64,
    pub last_heartbeat_ms: u64,
    pub last_message_ms: u64,
    pub authenticated: bool,
    pub ea_info: Option<EAInfo>,
    pub message_count: u64,
    pub error_count: u64,
    pub latency_ms: Option<u64>,
    pub outbound: MessageBuffer,
}

/// Mathematical model of `Connection`.
#[verifier::ext_equal]
pub struct ConnectionModel {
    pub id: Seq<char>,
    pub connected_at_ms: u64,
    pub last_heartbeat_ms: u64,
    pub last_message_ms: u64,
    pub authenticated: bool,
    pub ea_info: Option<EAInfoModel>,
    pub message_count: u64,
    pub error_count: u64,
    pub latency_ms: Option<u64>,
    pub outbound: Seq<Seq<char>>,
    pub outbound_cap: nat,
}

impl View for Connection {
    type V = ConnectionModel;

    open spec fn view(&self) -> ConnectionModel {
        ConnectionModel {
            id: self.id@,
            connected_at_ms: self.connected_at_ms,
            last_heartbeat_ms: self.last_heartbeat_ms,
            last_message_ms: self.last_message_ms,
            authenticated: self.authenticated,
            ea_info: match self.ea_info {
                Option::Some(e) => Option::Some(e@),
                Option::None => Option::None,
            },
            message_count: self.message_count,
            error_count: self.error_count,
            latency_ms: self.latency_ms,
            outbound: Seq::new(
                self.outbound.messages@.len(),
                |i: int| self.outbound.messages@[i]@,
            ),
            outbound_cap: self.outbound.max_size as nat,
        }
    }
}

/// A fresh, unauthenticated record for a client accepted at `now_ms`.
pub open spec fn spec_fresh_connection(id: Seq<char>, now_ms: u64) -> ConnectionModel {
    ConnectionModel {
        id: id,
        connected_at_ms: now_ms,
        last_heartbeat_ms: now_ms,
        last_message_ms: now_ms,
        authenticated: false,
        ea_info: Option::None,
        message_count: 0,
        error_count: 0,
        latency_ms: Option::None,
        outbound: Seq::empty(),
        outbound_cap: OUTBOUND_QUEUE_CAPACITY as nat,
    }
}

impl Connection {
    /// A fresh record for a client accepted at `now_ms`.
    pub fn new(id: String, now_ms: u64) -> (r: Connection)
        ensures
            r@ == spec_fresh_connection(id@, now_ms),
    {
        let r = Connection {
            id: id,
            connected_at_ms: now_ms,
            last_heartbeat_ms: now_ms,
            last_message_ms: now_ms,
            authenticated: false,
            ea_info: Option::None,
            message_count: 0,
            error_count: 0,
            latency_ms: Option::None,
            outbound: MessageBuffer { messages: Vec::new(), max_size: OUTBOUND_QUEUE_CAPACITY },
        };
        proof {
            assert(r@.outbound =~= Seq::<Seq<char>>::empty());
        }
        r
    }

    /// The snapshot of this record that the host UI reads.
    pub fn snapshot(&self) -> (r: ClientConnection)
        ensures
            r@ == spec_snapshot(self@),
    {
        ClientConnection {
            id: self.id.clone(),
            connected_at: rfc3339_utc_millis(self.connected_at_ms),
            last_heartbeat: rfc3339_utc_millis(self.last_heartbeat_ms),
            authenticated: self.authenticated,
            ea_info: match &self.ea_info {
                Option::Some(e) => Option::Some(e.duplicate()),
                Option::None => Option::None,
            },
            message_count: self.message_count,
            error_count: self.error_count,
            latency_ms: self.latency_ms,
            connection_quality: quality_label(self.latency_ms),
            message_buffer_size: self.outbound.messages.len(),
            last_message_timestamp: rfc3339_utc_millis(self.last_message_ms),
        }
    }
}

/// The per-client view the host UI reads: timestamps as ISO-8601 UTC text,
/// quality derived from the latest latency measurement.
pub struct ClientConnection {
    pub id: String,
    pub connected_at: String,
    pub last_heartbeat: String,
    pub authenticated: bool,
    pub ea_info: Option<EAInfo>,
    pub message_count: u64,
    pub error_count: u64,
    pub latency_ms: Option<u64>,
    pub connection_quality: String,
    pub message_buffer_size: usize,
    pub last_message_timestamp: String,
}

/// Mathematical model of `ClientConnection`.
#[verifier::ext_equal]
pub struct ClientConnectionModel {
    pub id: Seq<char>,
    pub connected_at: Seq<char>,
    pub last_heartbeat: Seq<char>,
    pub authenticated: bool,
    pub ea_info: Option<EAInfoModel>,
    pub message_count: u64,
    pub error_count: u64,
    pub latency_ms: Option<u64>,
    pub connection_quality: Seq<char>,
    pub message_buffer_size: nat,
    pub last_message_timestamp: Seq<char>,
}

impl View for ClientConnection {
    type V = ClientConnectionModel;

    open spec fn view(&self) -> ClientConnectionModel {
        ClientConnectionModel {
            id: self.id@,
            connected_at: self.connected_at@,
            last_heartbeat: self.last_heartbeat@,
            authenticated: self.authenticated,
            ea_info: match self.ea_info {
                Option::Some(e) => Option::Some(e@),
                Option::None => Option::None,
            },
            message_count: self.message_count,
            error_count: self.error_count,
            latency_ms: self.latency_ms,
            connection_quality: self.connection_quality@,
            message_buffer_size: self.message_buffer_size as nat,
            last_message_timestamp: self.last_message_timestamp@,
        }
    }
}

/// What the UI sees of one connection record.
pub open spec fn spec_snapshot(c: ConnectionModel) -> ClientConnectionModel {
    ClientConnectionModel {
        id: c.id,
        connected_at: iso_utc_of(c.connected_at_ms),
        last_heartbeat: iso_utc_of(c.last_heartbeat_ms),
        authenticated: c.authenticated,
        ea_info: c.ea_info,
        message_count: c.message_count,
        error_count: c.error_count,
        latency_ms: c.latency_ms,
        connection_quality: spec_quality_label(c.latency_ms),
        message_buffer_size: c.outbound.len(),
        last_message_timestamp: iso_utc_of(c.last_message_ms),
    }
}

/// Whether a client has been silent past the timeout: strictly more whole
/// seconds have passed since its last heartbeat than the timeout allows.
pub open spec fn spec_is_stale(c: ConnectionModel, now_ms: u64, timeout_seconds: u64) -> bool {
    now_ms > c.last_heartbeat_ms && (now_ms - c.last_heartbeat_ms) / 1000 > timeout_seconds
}

/// One more, capped at the largest representable count.
pub open spec fn spec_inc64(x: u64) -> u64 {
    if x == u64::MAX {
        x
    } else {
        (x + 1) as u64
    }
}

/// One more, capped at the largest representable count.
pub fn inc64(x: u64) -> (r: u64)
    ensures
        r == spec_inc64(x),
{
    if x == u64::MAX {
        x
    } else {
        x + 1
    }
}

} // verus!
