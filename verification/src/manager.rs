//! The server manager: configuration, cumulative status, the connection
//! pool, and every operation of the control surface and of the
//! per-connection sessions, as one deterministic state machine. The caller
//! supplies the current time; socket and timer plumbing live outside.

use vstd::prelude::*;

use crate::client::ClientConnection;
use crate::client::Connection;
use crate::client::ConnectionModel;
use crate::client::spec_fresh_connection;
use crate::client::spec_is_stale;
use crate::protocol::heartbeat_frame;
use crate::protocol::spec_heartbeat_doc;
use crate::client::inc64;
use crate::client::spec_inc64;
use crate::client::spec_snapshot;
use crate::json::spec_ser;
use crate::parse::parse_json;
use crate::parse::spec_parse_json;
use crate::protocol::ProtocolError;
use crate::protocol::ProtocolErrorModel;
use crate::protocol::auth_success_reply;
use crate::protocol::extract_ea_info;
use crate::protocol::get_str_field;
use crate::protocol::heartbeat_ack_reply;
use crate::protocol::is_event_type;
use crate::protocol::spec_auth_success_doc;
use crate::protocol::spec_ea_info_of;
use crate::protocol::spec_heartbeat_ack_doc;
use crate::protocol::spec_is_event_type;
use crate::protocol::spec_msg_type;
use crate::protocol::spec_opt_str;
use crate::pool::spec_auth_patch;
use crate::pool::spec_conn_of;
use crate::pool::spec_heartbeat_patch;
use crate::pool::spec_message_patch;
use crate::pool::spec_error_patch;
use crate::pool::lemma_patch_first_ids;
use crate::clock::iso_utc_of;
use crate::clock::rfc3339_utc_millis;
use crate::pool::ConnectionPool;
use crate::pool::ConnectionPoolModel;
use crate::pool::spec_broadcast_all;
use crate::pool::spec_broadcast_count;
use crate::pool::lemma_broadcast_all_index;
use crate::pool::spec_has_id;
use crate::pool::spec_ids_unique;

verus! {

/// The server's configuration: where to listen, the shared secret, and
/// the capacity and liveness limits.
pub struct WSServerConfig {
    pub port: u16,
    pub host: String,
    pub auth_token: String,
    pub max_connections: usize,
    pub heartbeat_interval_seconds: u64,
    pub connection_timeout_seconds: u64,
}

/// Mathematical model of `WSServerConfig`.
#[verifier::ext_equal]
pub struct WSServerConfigModel {
    pub port: u16,
    pub host: Seq<char>,
    pub auth_token: Seq<char>,
    pub max_connections: nat,
    pub heartbeat_interval_seconds: u64,
    pub connection_timeout_seconds: u64,
}

impl View for WSServerConfig {
    type V = WSServerConfigModel;

    open spec fn view(&self) -> WSServerConfigModel {
        WSServerConfigModel {
            port: self.port,
            host: self.host@,
            auth_token: self.auth_token@,
            max_connections: self.max_connections as nat,
            heartbeat_interval_seconds: self.heartbeat_interval_seconds,
            connection_timeout_seconds: self.connection_timeout_seconds,
        }
    }
}

/// The status counters the host UI reads.
pub struct WSServerState {
    pub is_running: bool,
    pub port: u16,
    pub host: String,
    pub connected_clients: usize,
    pub total_messages_received: u64,
    pub total_messages_sent: u64,
    pub errors: u64,
    pub uptime_seconds: u64,
    pub started_at: Option<String>,
}

/// Mathematical model of `WSServerState`.
#[verifier::ext_equal]
pub struct WSServerStateModel {
    pub is_running: bool,
    pub port: u16,
    pub host: Seq<char>,
    pub connected_clients: nat,
    pub total_messages_received: u64,
    pub total_messages_sent: u64,
    pub errors: u64,
    pub uptime_seconds: u64,
    pub started_at: Option<Seq<char>>,
}

impl View for WSServerState {
    type V = WSServerStateModel;

    open spec fn view(&self) -> WSServerStateModel {
        WSServerStateModel {
            is_running: self.is_running,
            port: self.port,
            host: self.host@,
            connected_clients: self.connected_clients as nat,
            total_messages_received: self.total_messages_received,
            total_messages_sent: self.total_messages_sent,
            errors: self.errors,
            uptime_seconds: self.uptime_seconds,
            started_at: match self.started_at {
                Option::Some(s) => Option::Some(s@),
                Option::None => Option::None,
            },
        }
    }
}

/// The process-wide server singleton: status, configuration, the pool of
/// live connections, and the instant the current run started.
pub struct WSServerManager {
    pub state: WSServerState,
    pub config: WSServerConfig,
    pub connection_pool: ConnectionPool,
    pub started_at_ms: Option<u64>,
}

/// Mathematical model of `WSServerManager`.
#[verifier::ext_equal]
pub struct WSServerManagerModel {
    pub state: WSServerStateModel,
    pub config: WSServerConfigModel,
    pub pool: ConnectionPoolModel,
    pub started_at_ms: Option<u64>,
}

impl View for WSServerManager {
    type V = WSServerManagerModel;

    open spec fn view(&self) -> WSServerManagerModel {
        WSServerManagerModel {
            state: self.state@,
            config: self.config@,
            pool: self.connection_pool@,
            started_at_ms: self.started_at_ms,
        }
    }
}

/// What always holds of the manager: client ids are distinct, no reply
/// was counted without an inbound message, and a stopped server has no
/// clients, no start instant and no start text.
pub open spec fn spec_manager_wf(m: WSServerManagerModel) -> bool {
    &&& spec_ids_unique(m.pool.connections)
    &&& m.state.total_messages_sent <= m.state.total_messages_received
    &&& !m.state.is_running ==> {
        &&& m.pool.connections.len() == 0
        &&& m.state.started_at is None
        &&& m.started_at_ms is None
    }
    &&& m.state.is_running ==> {
        &&& m.started_at_ms is Some
        &&& m.state.started_at is Some
    }
}

/// Whole seconds since the run started; zero when stopped.
pub open spec fn spec_uptime_seconds(started_at_ms: Option<u64>, now_ms: u64) -> u64 {
    match started_at_ms {
        Option::Some(t) => if now_ms >= t {
            ((now_ms - t) / 1000) as u64
        } else {
            0
        },
        Option::None => 0,
    }
}

/// The status snapshot: the stored flags and counters, with the live
/// connection count and the uptime computed at `now_ms`.
pub open spec fn spec_status(m: WSServerManagerModel, now_ms: u64) -> WSServerStateModel {
    WSServerStateModel {
        connected_clients: m.pool.connections.len(),
        uptime_seconds: spec_uptime_seconds(m.started_at_ms, now_ms),
        ..m.state
    }
}

/// The manager after `stop`: already-stopped managers are left alone;
/// a running one loses its clients, its start instant and its start text,
/// and keeps its cumulative counters.
pub open spec fn spec_stop(m: WSServerManagerModel) -> WSServerManagerModel {
    if !m.state.is_running {
        m
    } else {
        WSServerManagerModel {
            state: WSServerStateModel {
                is_running: false,
                connected_clients: 0,
                started_at: Option::None,
                uptime_seconds: 0,
                ..m.state
            },
            config: m.config,
            pool: ConnectionPoolModel { connections: Seq::empty(), ..m.pool },
            started_at_ms: Option::None,
        }
    }
}

/// The manager after a successful `start` at `now_ms`: running, bound to
/// the configured host and port, every counter of the fresh run zero, and
/// the start instant recorded.
pub open spec fn spec_start(m: WSServerManagerModel, now_ms: u64) -> WSServerManagerModel {
    WSServerManagerModel {
        state: WSServerStateModel {
            is_running: true,
            port: m.config.port,
            host: m.config.host,
            connected_clients: 0,
            total_messages_received: 0,
            total_messages_sent: 0,
            errors: 0,
            uptime_seconds: 0,
            started_at: Option::Some(iso_utc_of(now_ms)),
        },
        config: m.config,
        pool: ConnectionPoolModel {
            connections: Seq::empty(),
            total_connections: 0,
            peak_connections: 0,
        },
        started_at_ms: Option::Some(now_ms),
    }
}

impl Default for WSServerManager {
    /// A stopped manager with the default configuration: local host, port
    /// 8080, the placeholder token, ten connections, a thirty-second
    /// heartbeat and a five-minute idle timeout.
    fn default() -> (r: WSServerManager)
        ensures
            r@.state.is_running == false,
            r@.state.port == 8080,
            r@.state.host == "127.0.0.1"@,
            r@.state.connected_clients == 0,
            r@.state.total_messages_received == 0,
            r@.state.total_messages_sent == 0,
            r@.state.errors == 0,
            r@.state.uptime_seconds == 0,
            r@.state.started_at is None,
            r@.config.port == 8080,
            r@.config.host == "127.0.0.1"@,
            r@.config.auth_token == "hedge-system-default-token"@,
            r@.config.max_connections == 10,
            r@.config.heartbeat_interval_seconds == 30,
            r@.config.connection_timeout_seconds == 300,
            r@.pool.connections == Seq::<crate::client::ConnectionModel>::empty(),
            r@.pool.total_connections == 0,
            r@.pool.peak_connections == 0,
            r@.started_at_ms is None,
            spec_manager_wf(r@),
    {
        WSServerManager {
            state: WSServerState {
                is_running: false,
                port: 8080,
                host: String::from_str("127.0.0.1"),
                connected_clients: 0,
                total_messages_received: 0,
                total_messages_sent: 0,
                errors: 0,
                uptime_seconds: 0,
                started_at: Option::None,
            },
            config: WSServerConfig {
                port: 8080,
                host: String::from_str("127.0.0.1"),
                auth_token: String::from_str("hedge-system-default-token"),
                max_connections: 10,
                heartbeat_interval_seconds: 30,
                connection_timeout_seconds: 300,
            },
            connection_pool: ConnectionPool::new(),
            started_at_ms: Option::None,
        }
    }
}

impl WSServerManager {
    /// Patch the listen parameters a `start` call carries into the
    /// configuration; an absent host or token leaves the configured one.
    pub fn apply_start_params(
        &mut self,
        port: u16,
        host: Option<String>,
        auth_token: Option<String>,
    )
        ensures
            final(self)@.config.port == port,
            final(self)@.config.host == (match host {
                Option::Some(h) => h@,
                Option::None => old(self)@.config.host,
            }),
            final(self)@.config.auth_token == (match auth_token {
                Option::Some(t) => t@,
                Option::None => old(self)@.config.auth_token,
            }),
            final(self)@.config.max_connections == old(self)@.config.max_connections,
            final(self)@.config.heartbeat_interval_seconds
                == old(self)@.config.heartbeat_interval_seconds,
            final(self)@.config.connection_timeout_seconds
                == old(self)@.config.connection_timeout_seconds,
            final(self)@.state == old(self)@.state,
            final(self)@.pool == old(self)@.pool,
            final(self)@.started_at_ms == old(self)@.started_at_ms,
            spec_manager_wf(old(self)@) ==> spec_manager_wf(final(self)@),
    {
        self.config.port = port;
        match host {
            Option::Some(h) => {
                self.config.host = h;
            },
            Option::None => {},
        }
        match auth_token {
            Option::Some(t) => {
                self.config.auth_token = t;
            },
            Option::None => {},
        }
    }

    /// Start the server at `now_ms`: refused with an error when it is
    /// already running; otherwise a fresh run begins with zeroed counters,
    /// bound to the configured host and port.
    pub fn start_server(&mut self, now_ms: u64) -> (r: Result<(), String>)
        ensures
            old(self)@.state.is_running ==> {
                &&& r matches Result::Err(e) && e@ == "WebSocket server is already running"@
                &&& final(self)@ == old(self)@
            },
            !old(self)@.state.is_running ==> {
                &&& r is Ok
                &&& final(self)@ == spec_start(old(self)@, now_ms)
            },
            spec_manager_wf(old(self)@) ==> spec_manager_wf(final(self)@),
    {
        if self.state.is_running {
            return Result::Err(String::from_str("WebSocket server is already running"));
        }
        self.state.is_running = true;
        self.state.port = self.config.port;
        self.state.host = self.config.host.clone();
        self.state.connected_clients = 0;
        self.state.total_messages_received = 0;
        self.state.total_messages_sent = 0;
        self.state.errors = 0;
        self.state.uptime_seconds = 0;
        self.state.started_at = Option::Some(rfc3339_utc_millis(now_ms));
        self.started_at_ms = Option::Some(now_ms);
        self.connection_pool = ConnectionPool::new();
        proof {
            assert(self@ =~= spec_start(old(self)@, now_ms));
        }
        Result::Ok(())
    }

    /// Stop the server: always succeeds, and stopping a stopped server
    /// changes nothing. Every client is dropped; the cumulative counters
    /// stay until the next `start`.
    pub fn stop_server(&mut self) -> (r: Result<(), String>)
        ensures
            r is Ok,
            final(self)@ == spec_stop(old(self)@),
            spec_manager_wf(old(self)@) ==> spec_manager_wf(final(self)@),
    {
        if !self.state.is_running {
            return Result::Ok(());
        }
        self.disconnect_all_clients();
        self.state.is_running = false;
        self.state.connected_clients = 0;
        self.state.uptime_seconds = 0;
        self.state.started_at = Option::None;
        self.started_at_ms = Option::None;
        proof {
            assert(self@ =~= spec_stop(old(self)@));
        }
        Result::Ok(())
    }

    /// Drop every client record.
    fn disconnect_all_clients(&mut self)
        ensures
            final(self)@ == (WSServerManagerModel {
                pool: ConnectionPoolModel {
                    connections: Seq::empty(),
                    ..old(self)@.pool
                },
                ..old(self)@
            }),
    {
        self.connection_pool.connections.clear();
        proof {
            assert(self@.pool.connections =~= Seq::<crate::client::ConnectionModel>::empty());
            assert(self@ =~= WSServerManagerModel {
                pool: ConnectionPoolModel {
                    connections: Seq::empty(),
                    ..old(self)@.pool
                },
                ..old(self)@
            });
        }
    }

    /// The status snapshot: stored flags and counters with the live
    /// connection count and the uptime at `now_ms`.
    pub fn get_status(&self, now_ms: u64) -> (r: WSServerState)
        ensures
            r@ == spec_status(self@, now_ms),
    {
        let uptime: u64 = match self.started_at_ms {
            Option::Some(t) => if now_ms >= t {
                (now_ms - t) / 1000
            } else {
                0
            },
            Option::None => 0,
        };
        let r = WSServerState {
            is_running: self.state.is_running,
            port: self.state.port,
            host: self.state.host.clone(),
            connected_clients: self.connection_pool.len(),
            total_messages_received: self.state.total_messages_received,
            total_messages_sent: self.state.total_messages_sent,
            errors: self.state.errors,
            uptime_seconds: uptime,
            started_at: match &self.state.started_at {
                Option::Some(s) => Option::Some(s.clone()),
                Option::None => Option::None,
            },
        };
        proof {
            assert(r@ =~= spec_status(self@, now_ms));
        }
        r
    }

    /// A snapshot of every client record, in pool order.
    pub fn get_clients(&self) -> (r: Vec<ClientConnection>)
        ensures
            r@.len() == self@.pool.connections.len(),
            forall|i: int|
                0 <= i < r@.len() ==> (#[trigger] r@[i])@ == spec_snapshot(
                    self@.pool.connections[i],
                ),
    {
        let n = self.connection_pool.connections.len();
        let mut out: Vec<ClientConnection> = Vec::new();
        let mut i: usize = 0;
        while i < n
            invariant
                i <= n,
                n == self@.pool.connections.len(),
                out@.len() == i,
                forall|j: int|
                    0 <= j < i ==> (#[trigger] out@[j])@ == spec_snapshot(
                        self@.pool.connections[j],
                    ),
            decreases n - i,
        {
            out.push(self.connection_pool.connections[i].snapshot());
            i = i + 1;
        }
        out
    }

    /// Drop the client with this id; an unknown id is an error naming it.
    pub fn disconnect_client(&mut self, client_id: &String) -> (r: Result<(), String>)
        ensures
            !spec_has_id(old(self)@.pool.connections, client_id@) ==> {
                &&& r matches Result::Err(e) && e@ == "Client "@ + client_id@ + " not found"@
                &&& final(self)@ == old(self)@
            },
            spec_has_id(old(self)@.pool.connections, client_id@) ==> {
                &&& r is Ok
                &&& exists|k: int|
                    {
                        &&& 0 <= k < old(self)@.pool.connections.len()
                        &&& (#[trigger] old(self)@.pool.connections[k]).id == client_id@
                        &&& final(self)@.pool.connections == old(self)@.pool.connections.remove(k)
                    }
                &&& final(self)@.state == old(self)@.state
                &&& final(self)@.config == old(self)@.config
                &&& final(self)@.started_at_ms == old(self)@.started_at_ms
                &&& final(self)@.pool.total_connections == old(self)@.pool.total_connections
                &&& final(self)@.pool.peak_connections == old(self)@.pool.peak_connections
            },
            spec_manager_wf(old(self)@) ==> spec_manager_wf(final(self)@),
    {
        let removed = self.connection_pool.remove_connection(client_id);
        if removed {
            Result::Ok(())
        } else {
            let msg = String::from_str("Client ").concat(client_id.as_str()).concat(" not found");
            Result::Err(msg)
        }
    }

    /// Replace the whole configuration. The listen address of a running
    /// server does not move until the next `start`.
    pub fn update_config(&mut self, config: WSServerConfig)
        ensures
            final(self)@.config == config@,
            final(self)@.state == old(self)@.state,
            final(self)@.pool == old(self)@.pool,
            final(self)@.started_at_ms == old(self)@.started_at_ms,
            spec_manager_wf(old(self)@) ==> spec_manager_wf(final(self)@),
    {
        self.config = config;
    }

    /// Fan one text frame out to every client's outbound queue; a client
    /// with a full queue is skipped and its error count stepped. Returns
    /// how many enqueued.
    pub fn broadcast_message(&mut self, message: &String) -> (r: usize)
        ensures
            final(self)@.pool.connections == spec_broadcast_all(
                old(self)@.pool.connections,
                message@,
            ),
            r == spec_broadcast_count(old(self)@.pool.connections, message@),
            final(self)@.state == old(self)@.state,
            final(self)@.config == old(self)@.config,
            final(self)@.started_at_ms == old(self)@.started_at_ms,
            final(self)@.pool.total_connections == old(self)@.pool.total_connections,
            final(self)@.pool.peak_connections == old(self)@.pool.peak_connections,
            spec_manager_wf(old(self)@) ==> spec_manager_wf(final(self)@),
    {
        let r = self.connection_pool.broadcast_message(message);
        proof {
            lemma_broadcast_all_index(old(self)@.pool.connections, message@);
            if spec_manager_wf(old(self)@) {
                let oldc = old(self)@.pool.connections;
                let newc = self@.pool.connections;
                assert forall|i: int, j: int| 0 <= i < j < newc.len() implies (
                #[trigger] newc[i]).id != (#[trigger] newc[j]).id by {
                    assert(newc[i].id == oldc[i].id);
                    assert(newc[j].id == oldc[j].id);
                    assert(oldc[i].id != oldc[j].id);
                }
            }
        }
        r
    }
}

/// The result of handling one text message, seen at the model level.
pub open spec fn spec_result_model(r: Result<Option<String>, ProtocolError>) -> Result<
    Option<Seq<char>>,
    ProtocolErrorModel,
> {
    match r {
        Result::Ok(Option::Some(s)) => Result::Ok(Option::Some(s@)),
        Result::Ok(Option::None) => Result::Ok(Option::None),
        Result::Err(e) => Result::Err(e@),
    }
}

/// The manager with this client marked authenticated, carrying the report
/// the message brought.
pub open spec fn spec_with_auth(
    m: WSServerManagerModel,
    id: Seq<char>,
    j: crate::json::JsonModel,
) -> WSServerManagerModel {
    WSServerManagerModel {
        pool: ConnectionPoolModel {
            connections: spec_auth_patch(m.pool.connections, id, spec_ea_info_of(j)),
            ..m.pool
        },
        ..m
    }
}

/// The manager with this client's heartbeat moved to `now_ms`.
pub open spec fn spec_with_heartbeat(
    m: WSServerManagerModel,
    id: Seq<char>,
    now_ms: u64,
) -> WSServerManagerModel {
    WSServerManagerModel {
        pool: ConnectionPoolModel {
            connections: spec_heartbeat_patch(m.pool.connections, id, now_ms),
            ..m.pool
        },
        ..m
    }
}

/// What an `AUTH` message does: without a string token it is refused;
/// with the wrong token it is refused; with the configured token the
/// client is marked authenticated, its report attached, and the reply is
/// `AUTH_SUCCESS` carrying the session's id.
pub open spec fn spec_handle_auth_message(
    m: WSServerManagerModel,
    id: Seq<char>,
    j: crate::json::JsonModel,
    now_ms: u64,
) -> (WSServerManagerModel, Result<Option<Seq<char>>, ProtocolErrorModel>) {
    match spec_opt_str(j, "token"@) {
        Option::None => (m, Result::Err(ProtocolErrorModel::MissingToken)),
        Option::Some(tok) => if tok != m.config.auth_token {
            (m, Result::Err(ProtocolErrorModel::InvalidToken))
        } else {
            (
                spec_with_auth(m, id, j),
                Result::Ok(Option::Some(spec_ser(spec_auth_success_doc(now_ms, id)))),
            )
        },
    }
}

/// What a `HEARTBEAT` message does: the client's heartbeat moves to the
/// message's time and the reply is `HEARTBEAT_ACK`.
pub open spec fn spec_handle_heartbeat_message(
    m: WSServerManagerModel,
    id: Seq<char>,
    now_ms: u64,
) -> (WSServerManagerModel, Result<Option<Seq<char>>, ProtocolErrorModel>) {
    (
        spec_with_heartbeat(m, id, now_ms),
        Result::Ok(Option::Some(spec_ser(spec_heartbeat_ack_doc(now_ms)))),
    )
}

/// What an event message does: from an authenticated client it is
/// accepted without a reply, to be handed upward; otherwise it is
/// refused, and nothing changes either way.
pub open spec fn spec_handle_ea_event_message(
    m: WSServerManagerModel,
    id: Seq<char>,
) -> (WSServerManagerModel, Result<Option<Seq<char>>, ProtocolErrorModel>) {
    match spec_conn_of(m.pool.connections, id) {
        Option::Some(c) => if c.authenticated {
            (m, Result::Ok(Option::None))
        } else {
            (m, Result::Err(ProtocolErrorModel::NotAuthenticated))
        },
        Option::None => (m, Result::Err(ProtocolErrorModel::ClientNotFound)),
    }
}

/// What one text message does: the new manager and the reply or the
/// message-level error. The text must parse and carry a string `type`;
/// the closed set of types then dispatches to its handler, and anything
/// else is a message-level error that changes nothing.
pub open spec fn spec_process_message(
    m: WSServerManagerModel,
    id: Seq<char>,
    text: Seq<char>,
    now_ms: u64,
) -> (WSServerManagerModel, Result<Option<Seq<char>>, ProtocolErrorModel>) {
    match spec_parse_json(text) {
        Option::None => (m, Result::Err(ProtocolErrorModel::InvalidJson)),
        Option::Some(j) => match spec_msg_type(j) {
            Option::None => (m, Result::Err(ProtocolErrorModel::MissingType)),
            Option::Some(t) => if t == "AUTH"@ {
                spec_handle_auth_message(m, id, j, now_ms)
            } else if t == "HEARTBEAT"@ {
                spec_handle_heartbeat_message(m, id, now_ms)
            } else if spec_is_event_type(t) {
                spec_handle_ea_event_message(m, id)
            } else {
                (m, Result::Err(ProtocolErrorModel::UnknownType(t)))
            },
        },
    }
}

impl WSServerManager {
    /// Handle one inbound text message from this client: parse it, check
    /// it, apply what it asks, and produce the reply if its kind has one.
    pub fn process_message(&mut self, client_id: &String, text: &str, now_ms: u64) -> (r: Result<
        Option<String>,
        ProtocolError,
    >)
        ensures
            ({
                let (m2, res) = spec_process_message(old(self)@, client_id@, text@, now_ms);
                &&& final(self)@ == m2
                &&& spec_result_model(r) == res
            }),
            spec_manager_wf(old(self)@) ==> spec_manager_wf(final(self)@),
    {
        proof {
            lemma_patch_ids_all(old(self)@.pool.connections, client_id@, now_ms);
        }
        let parsed = parse_json(text);
        match parsed {
            Option::None => Result::Err(ProtocolError::InvalidJson),
            Option::Some(j) => {
                match get_str_field(&j, &String::from_str("type")) {
                    Option::None => Result::Err(ProtocolError::MissingType),
                    Option::Some(t) => {
                        let t = t.clone();
                        if t.eq(&String::from_str("AUTH")) {
                            self.handle_auth_message(&j, client_id, now_ms)
                        } else if t.eq(&String::from_str("HEARTBEAT")) {
                            self.handle_heartbeat_message(client_id, now_ms)
                        } else if is_event_type(&t) {
                            self.handle_ea_event_message(client_id)
                        } else {
                            Result::Err(ProtocolError::UnknownType(t))
                        }
                    },
                }
            },
        }
    }

    /// Authenticate this client from a parsed `AUTH` message.
    pub fn handle_auth_message(
        &mut self,
        json_msg: &crate::json::JsonValue,
        client_id: &String,
        now_ms: u64,
    ) -> (r: Result<Option<String>, ProtocolError>)
        ensures
            ({
                let (m2, res) = spec_handle_auth_message(old(self)@, client_id@, json_msg@, now_ms);
                &&& final(self)@ == m2
                &&& spec_result_model(r) == res
            }),
            spec_manager_wf(old(self)@) ==> spec_manager_wf(final(self)@),
    {
        match get_str_field(json_msg, &String::from_str("token")) {
            Option::None => Result::Err(ProtocolError::MissingToken),
            Option::Some(tok) => {
                if !tok.eq(&self.config.auth_token) {
                    Result::Err(ProtocolError::InvalidToken)
                } else {
                    let ea = extract_ea_info(json_msg);
                    proof {
                        lemma_patch_ids_auth(
                            old(self)@.pool.connections,
                            client_id@,
                            crate::pool::ea_opt_model(ea),
                        );
                    }
                    self.connection_pool.authenticate(client_id, ea);
                    Result::Ok(Option::Some(auth_success_reply(client_id, now_ms)))
                }
            },
        }
    }

    /// Refresh this client's heartbeat and acknowledge it.
    pub fn handle_heartbeat_message(&mut self, client_id: &String, now_ms: u64) -> (r: Result<
        Option<String>,
        ProtocolError,
    >)
        ensures
            ({
                let (m2, res) = spec_handle_heartbeat_message(old(self)@, client_id@, now_ms);
                &&& final(self)@ == m2
                &&& spec_result_model(r) == res
            }),
            spec_manager_wf(old(self)@) ==> spec_manager_wf(final(self)@),
    {
        proof {
            lemma_patch_ids_all(old(self)@.pool.connections, client_id@, now_ms);
        }
        self.connection_pool.touch_heartbeat(client_id, now_ms);
        Result::Ok(Option::Some(heartbeat_ack_reply(now_ms)))
    }

    /// Accept an event from an authenticated client; the payload itself is
    /// interpreted by the layer above.
    pub fn handle_ea_event_message(&mut self, client_id: &String) -> (r: Result<
        Option<String>,
        ProtocolError,
    >)
        ensures
            ({
                let (m2, res) = spec_handle_ea_event_message(old(self)@, client_id@);
                &&& final(self)@ == m2
                &&& spec_result_model(r) == res
            }),
            spec_manager_wf(old(self)@) ==> spec_manager_wf(final(self)@),
    {
        match self.connection_pool.get_connection(client_id) {
            Option::Some(c) => {
                if c.authenticated {
                    Result::Ok(Option::None)
                } else {
                    Result::Err(ProtocolError::NotAuthenticated)
                }
            },
            Option::None => Result::Err(ProtocolError::ClientNotFound),
        }
    }
}

/// The heartbeat and message patches leave every id, the record count and
/// id uniqueness where they were.
pub proof fn lemma_patch_ids_all(conns: Seq<ConnectionModel>, id: Seq<char>, now_ms: u64)
    ensures
        spec_heartbeat_patch(conns, id, now_ms).len() == conns.len(),
        forall|i: int|
            0 <= i < conns.len() ==> spec_heartbeat_patch(conns, id, now_ms)[i].id == (
            #[trigger] conns[i]).id,
        spec_ids_unique(conns) ==> spec_ids_unique(spec_heartbeat_patch(conns, id, now_ms)),
        spec_message_patch(conns, id, now_ms).len() == conns.len(),
        forall|i: int|
            0 <= i < conns.len() ==> spec_message_patch(conns, id, now_ms)[i].id == (
            #[trigger] conns[i]).id,
        spec_ids_unique(conns) ==> spec_ids_unique(spec_message_patch(conns, id, now_ms)),
        spec_error_patch(conns, id).len() == conns.len(),
        forall|i: int|
            0 <= i < conns.len() ==> spec_error_patch(conns, id)[i].id == (
            #[trigger] conns[i]).id,
        spec_ids_unique(conns) ==> spec_ids_unique(spec_error_patch(conns, id)),
{
    lemma_patch_first_ids(
        conns,
        id,
        (|c: ConnectionModel| ConnectionModel { last_heartbeat_ms: now_ms, ..c }),
    );
    lemma_patch_first_ids(
        conns,
        id,
        (|c: ConnectionModel| ConnectionModel {
            message_count: spec_inc64(c.message_count),
            last_heartbeat_ms: now_ms,
            last_message_ms: now_ms,
            ..c
        }),
    );
    lemma_patch_first_ids(
        conns,
        id,
        (|c: ConnectionModel| ConnectionModel {
            error_count: spec_inc64(c.error_count),
            ..c
        }),
    );
}

/// The authentication patch leaves every id, the record count and id
/// uniqueness where they were.
pub proof fn lemma_patch_ids_auth(
    conns: Seq<ConnectionModel>,
    id: Seq<char>,
    ea: Option<crate::client::EAInfoModel>,
)
    ensures
        spec_auth_patch(conns, id, ea).len() == conns.len(),
        forall|i: int|
            0 <= i < conns.len() ==> spec_auth_patch(conns, id, ea)[i].id == (
            #[trigger] conns[i]).id,
        spec_ids_unique(conns) ==> spec_ids_unique(spec_auth_patch(conns, id, ea)),
{
    lemma_patch_first_ids(
        conns,
        id,
        (|c: ConnectionModel| ConnectionModel { authenticated: true, ea_info: ea, ..c }),
    );
}

/// One frame read from a client's socket.
pub enum WsFrame {
    Text(String),
    Binary(Vec<u8>),
    Ping(Vec<u8>),
    Pong(Vec<u8>),
    Close,
}

/// Mathematical model of `WsFrame`.
pub enum WsFrameModel {
    Text(Seq<char>),
    Binary(Seq<u8>),
    Ping(Seq<u8>),
    Pong(Seq<u8>),
    Close,
}

impl View for WsFrame {
    type V = WsFrameModel;

    open spec fn view(&self) -> WsFrameModel {
        match self {
            WsFrame::Text(t) => WsFrameModel::Text(t@),
            WsFrame::Binary(b) => WsFrameModel::Binary(b@),
            WsFrame::Ping(p) => WsFrameModel::Ping(p@),
            WsFrame::Pong(p) => WsFrameModel::Pong(p@),
            WsFrame::Close => WsFrameModel::Close,
        }
    }
}

/// What the session should do with the socket after one frame.
pub enum SessionAction {
    /// Nothing to write.
    NoAction,
    /// Write this text reply.
    Reply(String),
    /// Answer a ping with this payload.
    PongReply(Vec<u8>),
    /// Hand this event text to the layer above.
    Forward(String),
    /// The client is done: close the session.
    CloseSession,
}

/// Mathematical model of `SessionAction`.
pub enum SessionActionModel {
    NoAction,
    Reply(Seq<char>),
    PongReply(Seq<u8>),
    Forward(Seq<char>),
    CloseSession,
}

impl View for SessionAction {
    type V = SessionActionModel;

    open spec fn view(&self) -> SessionActionModel {
        match self {
            SessionAction::NoAction => SessionActionModel::NoAction,
            SessionAction::Reply(t) => SessionActionModel::Reply(t@),
            SessionAction::PongReply(p) => SessionActionModel::PongReply(p@),
            SessionAction::Forward(t) => SessionActionModel::Forward(t@),
            SessionAction::CloseSession => SessionActionModel::CloseSession,
        }
    }
}

/// The manager after one inbound text frame is counted: the global
/// received counter and the client's own statistics step.
pub open spec fn spec_with_text_counted(
    m: WSServerManagerModel,
    id: Seq<char>,
    now_ms: u64,
) -> WSServerManagerModel {
    WSServerManagerModel {
        state: WSServerStateModel {
            total_messages_received: spec_inc64(m.state.total_messages_received),
            ..m.state
        },
        pool: ConnectionPoolModel {
            connections: spec_message_patch(m.pool.connections, id, now_ms),
            ..m.pool
        },
        ..m
    }
}

/// The manager after a reply went out: the global sent counter steps.
pub open spec fn spec_with_sent(m: WSServerManagerModel) -> WSServerManagerModel {
    WSServerManagerModel {
        state: WSServerStateModel {
            total_messages_sent: spec_inc64(m.state.total_messages_sent),
            ..m.state
        },
        ..m
    }
}

/// The manager after a message-level error: the global error counter and
/// the client's error count step.
pub open spec fn spec_with_error(
    m: WSServerManagerModel,
    id: Seq<char>,
) -> WSServerManagerModel {
    WSServerManagerModel {
        state: WSServerStateModel { errors: spec_inc64(m.state.errors), ..m.state },
        pool: ConnectionPoolModel {
            connections: spec_error_patch(m.pool.connections, id),
            ..m.pool
        },
        ..m
    }
}

/// The manager after a client error that touches no global counter.
pub open spec fn spec_with_client_error(
    m: WSServerManagerModel,
    id: Seq<char>,
) -> WSServerManagerModel {
    WSServerManagerModel {
        pool: ConnectionPoolModel {
            connections: spec_error_patch(m.pool.connections, id),
            ..m.pool
        },
        ..m
    }
}

/// What one frame from this client does, and what the session writes back.
/// A text frame is counted, refreshes the client, and is handled as a
/// protocol message: its reply is counted as sent the moment it is handed
/// to the transport. A binary frame is dropped and counted against the
/// client. A ping is answered in kind; a pong refreshes the heartbeat; a
/// close ends the session.
pub open spec fn spec_handle_frame(
    m: WSServerManagerModel,
    id: Seq<char>,
    frame: WsFrameModel,
    now_ms: u64,
) -> (WSServerManagerModel, SessionActionModel) {
    match frame {
        WsFrameModel::Text(t) => {
            let m1 = spec_with_text_counted(m, id, now_ms);
            let (m2, res) = spec_process_message(m1, id, t, now_ms);
            match res {
                Result::Ok(Option::Some(rep)) => (
                    spec_with_sent(m2),
                    SessionActionModel::Reply(rep),
                ),
                Result::Ok(Option::None) => (m2, SessionActionModel::Forward(t)),
                Result::Err(_) => (spec_with_error(m2, id), SessionActionModel::NoAction),
            }
        },
        WsFrameModel::Binary(_) => (spec_with_client_error(m, id), SessionActionModel::NoAction),
        WsFrameModel::Ping(p) => (m, SessionActionModel::PongReply(p)),
        WsFrameModel::Pong(_) => (
            WSServerManagerModel {
                pool: ConnectionPoolModel {
                    connections: spec_heartbeat_patch(m.pool.connections, id, now_ms),
                    ..m.pool
                },
                ..m
            },
            SessionActionModel::NoAction,
        ),
        WsFrameModel::Close => (m, SessionActionModel::CloseSession),
    }
}

impl WSServerManager {
    /// Drive this client's session one frame forward, and say what to
    /// write back on its socket.
    pub fn handle_frame(&mut self, client_id: &String, frame: WsFrame, now_ms: u64) -> (r:
        SessionAction)
        ensures
            ({
                let (m2, a) = spec_handle_frame(old(self)@, client_id@, frame@, now_ms);
                &&& final(self)@ == m2
                &&& r@ == a
            }),
            spec_manager_wf(old(self)@) ==> spec_manager_wf(final(self)@),
    {
        proof {
            lemma_patch_ids_all(old(self)@.pool.connections, client_id@, now_ms);
        }
        match frame {
            WsFrame::Text(t) => {
                self.state.total_messages_received = inc64(self.state.total_messages_received);
                self.connection_pool.note_message(client_id, now_ms);
                let ghost m1 = self@;
                proof {
                    assert(m1 =~= spec_with_text_counted(old(self)@, client_id@, now_ms));
                    lemma_patch_ids_all(m1.pool.connections, client_id@, now_ms);
                }
                let res = self.process_message(client_id, t.as_str(), now_ms);
                match res {
                    Result::Ok(Option::Some(rep)) => {
                        self.state.total_messages_sent = inc64(self.state.total_messages_sent);
                        proof {
                            assert(self@ =~= spec_with_sent(
                                spec_process_message(m1, client_id@, t@, now_ms).0,
                            ));
                        }
                        SessionAction::Reply(rep)
                    },
                    Result::Ok(Option::None) => SessionAction::Forward(t),
                    Result::Err(_) => {
                        self.state.errors = inc64(self.state.errors);
                        self.connection_pool.note_error(client_id);
                        proof {
                            assert(self@ =~= spec_with_error(
                                spec_process_message(m1, client_id@, t@, now_ms).0,
                                client_id@,
                            ));
                        }
                        SessionAction::NoAction
                    },
                }
            },
            WsFrame::Binary(_) => {
                self.connection_pool.note_error(client_id);
                proof {
                    assert(self@ =~= spec_with_client_error(old(self)@, client_id@));
                }
                SessionAction::NoAction
            },
            WsFrame::Ping(p) => SessionAction::PongReply(p),
            WsFrame::Pong(_) => {
                self.connection_pool.touch_heartbeat(client_id, now_ms);
                SessionAction::NoAction
            },
            WsFrame::Close => SessionAction::CloseSession,
        }
    }

    /// Record the measured round trip of the latest reply to this client;
    /// the quality class follows the measurement.
    pub fn record_reply_latency(&mut self, client_id: &String, latency_ms: u64)
        ensures
            final(self)@.pool.connections == crate::pool::spec_latency_patch(
                old(self)@.pool.connections,
                client_id@,
                latency_ms,
            ),
            final(self)@.state == old(self)@.state,
            final(self)@.config == old(self)@.config,
            final(self)@.started_at_ms == old(self)@.started_at_ms,
            final(self)@.pool.total_connections == old(self)@.pool.total_connections,
            final(self)@.pool.peak_connections == old(self)@.pool.peak_connections,
            spec_manager_wf(old(self)@) ==> spec_manager_wf(final(self)@),
    {
        proof {
            lemma_patch_first_ids(
                old(self)@.pool.connections,
                client_id@,
                (|c: ConnectionModel| ConnectionModel {
                    latency_ms: Option::Some(latency_ms),
                    ..c
                }),
            );
        }
        self.connection_pool.update_latency(client_id, latency_ms);
    }

    /// Hand out everything queued for this client, in order, leaving its
    /// queue empty: the session's writer sends these frames down the
    /// socket.
    pub fn take_outbound(&mut self, client_id: &String) -> (r: Vec<String>)
        ensures
            final(self)@.pool.connections == crate::pool::spec_drain_patch(
                old(self)@.pool.connections,
                client_id@,
            ),
            (match spec_conn_of(old(self)@.pool.connections, client_id@) {
                Option::Some(c) => Seq::new(r@.len(), |i: int| r@[i]@) == c.outbound,
                Option::None => r@.len() == 0,
            }),
            final(self)@.state == old(self)@.state,
            final(self)@.config == old(self)@.config,
            final(self)@.started_at_ms == old(self)@.started_at_ms,
            final(self)@.pool.total_connections == old(self)@.pool.total_connections,
            final(self)@.pool.peak_connections == old(self)@.pool.peak_connections,
            spec_manager_wf(old(self)@) ==> spec_manager_wf(final(self)@),
    {
        proof {
            lemma_patch_first_ids(
                old(self)@.pool.connections,
                client_id@,
                (|c: ConnectionModel| ConnectionModel { outbound: Seq::empty(), ..c }),
            );
        }
        self.connection_pool.take_outbound(client_id)
    }

    /// A session ended: drop its record. Dropping an unknown or already
    /// dropped id changes nothing.
    pub fn session_closed(&mut self, client_id: &String)
        ensures
            !spec_has_id(old(self)@.pool.connections, client_id@) ==> final(self)@ == old(self)@,
            spec_has_id(old(self)@.pool.connections, client_id@) ==> exists|k: int|
                {
                    &&& 0 <= k < old(self)@.pool.connections.len()
                    &&& (#[trigger] old(self)@.pool.connections[k]).id == client_id@
                    &&& final(self)@.pool.connections == old(self)@.pool.connections.remove(k)
                    &&& final(self)@.state == old(self)@.state
                    &&& final(self)@.config == old(self)@.config
                    &&& final(self)@.started_at_ms == old(self)@.started_at_ms
                    &&& final(self)@.pool.total_connections == old(self)@.pool.total_connections
                    &&& final(self)@.pool.peak_connections == old(self)@.pool.peak_connections
                },
            spec_manager_wf(old(self)@) ==> spec_manager_wf(final(self)@),
    {
        let _ = self.connection_pool.remove_connection(client_id);
    }

    /// A socket read failed: count it against the server.
    pub fn session_read_error(&mut self)
        ensures
            final(self)@ == (WSServerManagerModel {
                state: WSServerStateModel {
                    errors: spec_inc64(old(self)@.state.errors),
                    ..old(self)@.state
                },
                ..old(self)@
            }),
            spec_manager_wf(old(self)@) ==> spec_manager_wf(final(self)@),
    {
        self.state.errors = inc64(self.state.errors);
        proof {
            assert(self@ =~= WSServerManagerModel {
                state: WSServerStateModel {
                    errors: spec_inc64(old(self)@.state.errors),
                    ..old(self)@.state
                },
                ..old(self)@
            });
        }
    }
}

/// Relies on uuid::Uuid::new_v4 and its hyphenated text form: a fresh
/// random identifier, 36 characters long.
#[verifier::external_body]
fn new_client_id() -> (r: String)
    ensures
        r@.len() == 36,
{
    uuid::Uuid::new_v4().to_string()
}

/// Why an incoming connection was turned away.
#[derive(Debug)]
pub enum AcceptError {
    /// The server is not running.
    NotRunning,
    /// The pool already holds `max_connections` clients.
    AtCapacity,
    /// The fresh identifier collided with a live one.
    IdCollision,
}

/// The records that survive a reaper pass at `now_ms`: those not silent
/// past the timeout, in pool order.
pub open spec fn spec_reap_kept(
    conns: Seq<ConnectionModel>,
    now_ms: u64,
    timeout_seconds: u64,
) -> Seq<ConnectionModel>
    decreases conns.len(),
{
    if conns.len() == 0 {
        Seq::empty()
    } else {
        let rest = spec_reap_kept(conns.drop_last(), now_ms, timeout_seconds);
        if spec_is_stale(conns.last(), now_ms, timeout_seconds) {
            rest
        } else {
            rest.push(conns.last())
        }
    }
}

/// The ids a reaper pass at `now_ms` evicts: those silent past the
/// timeout, in pool order.
pub open spec fn spec_reap_removed(
    conns: Seq<ConnectionModel>,
    now_ms: u64,
    timeout_seconds: u64,
) -> Seq<Seq<char>>
    decreases conns.len(),
{
    if conns.len() == 0 {
        Seq::empty()
    } else {
        let rest = spec_reap_removed(conns.drop_last(), now_ms, timeout_seconds);
        if spec_is_stale(conns.last(), now_ms, timeout_seconds) {
            rest.push(conns.last().id)
        } else {
            rest
        }
    }
}

/// A reaper pass keeps a subsequence: every survivor is one of the
/// records, no more records than before, and distinct ids stay distinct.
pub proof fn lemma_reap_kept_props(conns: Seq<ConnectionModel>, now_ms: u64, timeout_seconds: u64)
    ensures
        spec_reap_kept(conns, now_ms, timeout_seconds).len() <= conns.len(),
        forall|j: int|
            0 <= j < spec_reap_kept(conns, now_ms, timeout_seconds).len() ==> exists|i: int|
                0 <= i < conns.len() && #[trigger] spec_reap_kept(conns, now_ms, timeout_seconds)[j]
                    == conns[i],
        spec_ids_unique(conns) ==> spec_ids_unique(spec_reap_kept(conns, now_ms, timeout_seconds)),
    decreases conns.len(),
{
    if conns.len() > 0 {
        lemma_reap_kept_props(conns.drop_last(), now_ms, timeout_seconds);
        let kept = spec_reap_kept(conns, now_ms, timeout_seconds);
        let prev = spec_reap_kept(conns.drop_last(), now_ms, timeout_seconds);
        assert forall|j: int| 0 <= j < kept.len() implies exists|i: int|
            0 <= i < conns.len() && #[trigger] kept[j] == conns[i] by {
            if j < prev.len() {
                let i = choose|i: int| 0 <= i < conns.drop_last().len() && prev[j]
                    == conns.drop_last()[i];
                assert(kept[j] == conns[i]);
            } else {
                assert(kept[j] == conns[conns.len() - 1]);
            }
        }
        if spec_ids_unique(conns) {
            assert forall|i: int, j: int| 0 <= i < conns.drop_last().len()
                && 0 <= j < conns.drop_last().len() && i < j implies (
            #[trigger] conns.drop_last()[i]).id != (#[trigger] conns.drop_last()[j]).id by {
                assert(conns.drop_last()[i] == conns[i]);
                assert(conns.drop_last()[j] == conns[j]);
            }
            assert forall|a: int, b: int| 0 <= a < b < kept.len() implies (
            #[trigger] kept[a]).id != (#[trigger] kept[b]).id by {
                if b < prev.len() {
                } else {
                    let i = choose|i: int| 0 <= i < conns.drop_last().len() && prev[a]
                        == conns.drop_last()[i];
                    assert(kept[a] == conns[i]);
                    assert(kept[b] == conns[conns.len() - 1]);
                    assert(conns[i].id != conns[conns.len() - 1].id);
                }
            }
        }
    }
}

impl WSServerManager {
    /// Admit one freshly accepted connection: refused when the server is
    /// stopped or the pool is full; otherwise a fresh record with a new
    /// id joins the pool, and the id is returned for the session.
    pub fn accept_client(&mut self, now_ms: u64) -> (r: Result<String, AcceptError>)
        ensures
            !old(self)@.state.is_running ==> {
                &&& r matches Result::Err(e) && e is NotRunning
                &&& final(self)@ == old(self)@
            },
            old(self)@.state.is_running && old(self)@.pool.connections.len()
                >= old(self)@.config.max_connections ==> {
                &&& r matches Result::Err(e) && e is AtCapacity
                &&& final(self)@ == old(self)@
            },
            old(self)@.state.is_running && old(self)@.pool.connections.len()
                < old(self)@.config.max_connections ==> match r {
                Result::Ok(id) => {
                    &&& !spec_has_id(old(self)@.pool.connections, id@)
                    &&& id@.len() == 36
                    &&& final(self)@.pool.connections == old(self)@.pool.connections.push(
                        spec_fresh_connection(id@, now_ms),
                    )
                    &&& final(self)@.pool.total_connections == spec_inc64(
                        old(self)@.pool.total_connections,
                    )
                    &&& final(self)@.pool.connections.len() <= final(self)@.config.max_connections
                    &&& final(self)@.state == old(self)@.state
                    &&& final(self)@.config == old(self)@.config
                    &&& final(self)@.started_at_ms == old(self)@.started_at_ms
                },
                Result::Err(e) => {
                    &&& e is IdCollision
                    &&& final(self)@ == old(self)@
                },
            },
            spec_manager_wf(old(self)@) ==> spec_manager_wf(final(self)@),
    {
        if !self.state.is_running {
            return Result::Err(AcceptError::NotRunning);
        }
        if self.connection_pool.len() >= self.config.max_connections {
            return Result::Err(AcceptError::AtCapacity);
        }
        let id = new_client_id();
        let record = Connection::new(id.clone(), now_ms);
        if self.connection_pool.add_connection(record) {
            Result::Ok(id)
        } else {
            Result::Err(AcceptError::IdCollision)
        }
    }

    /// The snapshot of one client, if it is live: the host UI reads the
    /// quality class from it.
    pub fn get_client_connection_quality(&self, client_id: &String) -> (r: Option<
        ClientConnection,
    >)
        ensures
            match r {
                Option::Some(c) => {
                    &&& spec_conn_of(self@.pool.connections, client_id@) matches Option::Some(cm)
                    &&& c@ == spec_snapshot(cm)
                },
                Option::None => spec_conn_of(self@.pool.connections, client_id@) is None,
            },
    {
        match self.connection_pool.get_connection(client_id) {
            Option::Some(c) => Option::Some(c.snapshot()),
            Option::None => Option::None,
        }
    }

    /// One reaper pass at `now_ms`: every client silent past the
    /// configured timeout is evicted, then the liveness frame is
    /// broadcast to the survivors. Returns the evicted ids and how many
    /// broadcasts were enqueued.
    pub fn heartbeat_tick(&mut self, now_ms: u64) -> (r: (Vec<String>, usize))
        ensures
            ({
                let timeout = old(self)@.config.connection_timeout_seconds;
                let kept = spec_reap_kept(old(self)@.pool.connections, now_ms, timeout);
                let removed = spec_reap_removed(old(self)@.pool.connections, now_ms, timeout);
                let frame = spec_ser(spec_heartbeat_doc(now_ms));
                &&& final(self)@.pool.connections == spec_broadcast_all(kept, frame)
                &&& r.1 == spec_broadcast_count(kept, frame)
                &&& r.0@.len() == removed.len()
                &&& (forall|i: int| 0 <= i < removed.len() ==> (#[trigger] r.0@[i])@ == removed[i])
                &&& final(self)@.state == old(self)@.state
                &&& final(self)@.config == old(self)@.config
                &&& final(self)@.started_at_ms == old(self)@.started_at_ms
                &&& final(self)@.pool.total_connections == old(self)@.pool.total_connections
                &&& final(self)@.pool.peak_connections == old(self)@.pool.peak_connections
            }),
            spec_manager_wf(old(self)@) ==> spec_manager_wf(final(self)@),
    {
        let timeout = self.config.connection_timeout_seconds;
        let ghost orig = self@.pool.connections;
        let mut kept: Vec<Connection> = Vec::new();
        let mut removed: Vec<String> = Vec::new();
        let n = self.connection_pool.connections.len();
        let mut i: usize = 0;
        proof {
            assert(orig.skip(0) =~= orig);
            assert(Seq::new(kept@.len(), |j: int| kept@[j]@) =~= Seq::<ConnectionModel>::empty());
            assert(Seq::new(removed@.len(), |j: int| removed@[j]@) =~= Seq::<Seq<char>>::empty());
            assert(spec_reap_kept(orig.take(0), now_ms, timeout) =~= Seq::<ConnectionModel>::empty());
            assert(spec_reap_removed(orig.take(0), now_ms, timeout) =~= Seq::<Seq<char>>::empty());
        }
        while i < n
            invariant
                i <= n,
                n == orig.len(),
                timeout == old(self)@.config.connection_timeout_seconds,
                self@.pool.connections == orig.skip(i as int),
                Seq::new(kept@.len(), |j: int| kept@[j]@) == spec_reap_kept(
                    orig.take(i as int),
                    now_ms,
                    timeout,
                ),
                Seq::new(removed@.len(), |j: int| removed@[j]@) == spec_reap_removed(
                    orig.take(i as int),
                    now_ms,
                    timeout,
                ),
                self@.state == old(self)@.state,
                self@.config == old(self)@.config,
                self@.started_at_ms == old(self)@.started_at_ms,
                self@.pool.total_connections == old(self)@.pool.total_connections,
                self@.pool.peak_connections == old(self)@.pool.peak_connections,
            decreases n - i,
        {
            proof {
                assert(orig.take(i as int + 1).drop_last() =~= orig.take(i as int));
                assert(orig.take(i as int + 1).last() == orig[i as int]);
                assert(self@.pool.connections.len() == orig.skip(i as int).len());
                assert(orig.skip(i as int).len() == n - i);
                assert(self@.pool.connections[0] == orig.skip(i as int)[0]);
                assert(orig.skip(i as int)[0] == orig[i as int]);
            }
            let ghost km = Seq::new(kept@.len(), |j: int| kept@[j]@);
            let ghost rm = Seq::new(removed@.len(), |j: int| removed@[j]@);
            let ghost prevm = self@.pool.connections;
            let c = self.connection_pool.connections.remove(0);
            proof {
                assert(c@ == orig[i as int]);
                assert(self@.pool.connections =~= prevm.drop_first());
                assert(prevm.drop_first() =~= orig.skip(i as int + 1));
            }
            if now_ms > c.last_heartbeat_ms && (now_ms - c.last_heartbeat_ms) / 1000 > timeout {
                removed.push(c.id);
                proof {
                    assert(Seq::new(removed@.len(), |j: int| removed@[j]@) =~= rm.push(
                        orig[i as int].id,
                    ));
                }
            } else {
                kept.push(c);
                proof {
                    assert(Seq::new(kept@.len(), |j: int| kept@[j]@) =~= km.push(orig[i as int]));
                }
            }
            i = i + 1;
        }
        proof {
            assert(orig.take(n as int) =~= orig);
        }
        self.connection_pool.connections = kept;
        proof {
            assert(self@.pool.connections =~= spec_reap_kept(orig, now_ms, timeout));
            lemma_reap_kept_props(orig, now_ms, timeout);
        }
        let frame = heartbeat_frame(now_ms);
        let ghost keptm = self@.pool.connections;
        let sent = self.connection_pool.broadcast_message(&frame);
        proof {
            lemma_broadcast_all_index(keptm, frame@);
            if spec_manager_wf(old(self)@) {
                let newc = self@.pool.connections;
                assert forall|a: int, b: int| 0 <= a < b < newc.len() implies (
                #[trigger] newc[a]).id != (#[trigger] newc[b]).id by {
                    assert(newc[a].id == keptm[a].id);
                    assert(newc[b].id == keptm[b].id);
                    assert(keptm[a].id != keptm[b].id);
                }
            }
        }
        (removed, sent)
    }
}

} // verus!
