//! The server's general laws, each proved over the model transitions that
//! the executable operations are specified against.

use vstd::prelude::*;

use crate::client::ConnectionModel;
use crate::client::spec_inc64;
use crate::client::spec_is_stale;
use crate::json::JsonModel;
use crate::json::spec_get;
use crate::json::spec_member_lookup;
use crate::json::spec_ser;
use crate::manager::WSServerConfigModel;
use crate::manager::WSServerManagerModel;
use crate::manager::WsFrameModel;
use crate::manager::spec_handle_frame;
use crate::manager::spec_manager_wf;
use crate::manager::spec_process_message;
use crate::manager::spec_reap_kept;
use crate::manager::spec_reap_removed;
use crate::manager::spec_start;
use crate::manager::spec_status;
use crate::manager::spec_stop;
use crate::manager::lemma_patch_ids_all;
use crate::manager::lemma_patch_ids_auth;
use crate::parse::spec_parse_json;
use crate::protocol::ProtocolErrorModel;
use crate::protocol::spec_auth_success_doc;
use crate::protocol::spec_ea_info_of;
use crate::protocol::spec_heartbeat_ack_doc;
use crate::protocol::spec_msg_type;
use crate::protocol::spec_opt_str;
use crate::pool::spec_conn_of;
use crate::pool::lemma_conn_of_patch;
use crate::pool::spec_ids_unique;

verus! {

/// Every live client carries its own id: a well-formed pool never holds
/// two records with the same one, so an accepted client's id names it
/// alone until its teardown.
pub proof fn lemma_client_ids_unique(m: WSServerManagerModel)
    requires
        spec_manager_wf(m),
    ensures
        spec_ids_unique(m.pool.connections),
        forall|i: int, j: int|
            0 <= i < j < m.pool.connections.len() ==> (#[trigger] m.pool.connections[i]).id != (
            #[trigger] m.pool.connections[j]).id,
{
}

/// The client list and the status snapshot agree: the status counts
/// exactly the records the list shows, at any quiescent point.
pub proof fn lemma_client_list_matches_status(m: WSServerManagerModel, now_ms: u64)
    ensures
        spec_status(m, now_ms).connected_clients == m.pool.connections.len(),
{
}

/// Handling a message never touches the status counters: only the frame
/// layer counts.
proof fn lemma_process_message_keeps_state(
    m: WSServerManagerModel,
    id: Seq<char>,
    text: Seq<char>,
    now_ms: u64,
)
    ensures
        spec_process_message(m, id, text, now_ms).0.state == m.state,
        spec_process_message(m, id, text, now_ms).0.config == m.config,
        spec_process_message(m, id, text, now_ms).0.started_at_ms == m.started_at_ms,
{
}

/// A reply is only ever counted after its inbound message was: one frame
/// raises the sent counter at most as much as the received counter, only
/// a text frame raises either, and in a well-formed manager the sent
/// total never passes the received total.
pub proof fn lemma_sent_follows_received(
    m: WSServerManagerModel,
    id: Seq<char>,
    frame: WsFrameModel,
    now_ms: u64,
)
    requires
        spec_manager_wf(m),
    ensures
        m.state.total_messages_sent <= m.state.total_messages_received,
        ({
            let (m2, a) = spec_handle_frame(m, id, frame, now_ms);
            &&& m2.state.total_messages_sent <= m2.state.total_messages_received
            &&& m2.state.total_messages_received >= m.state.total_messages_received
            &&& m2.state.total_messages_sent >= m.state.total_messages_sent
            &&& m2.state.total_messages_sent > m.state.total_messages_sent ==> frame is Text
            &&& (m2.state.total_messages_sent > m.state.total_messages_sent
                && m.state.total_messages_received < u64::MAX)
                ==> m2.state.total_messages_received > m.state.total_messages_received
        }),
{
    match frame {
        WsFrameModel::Text(t) => {
            let m1 = crate::manager::spec_with_text_counted(m, id, now_ms);
            lemma_process_message_keeps_state(m1, id, t, now_ms);
        },
        _ => {},
    }
}

/// The quality class is a pure function of the latency measurement:
/// records with equal measurements always show equal quality labels.
pub proof fn lemma_quality_depends_on_latency_alone(a: ConnectionModel, b: ConnectionModel)
    requires
        a.latency_ms == b.latency_ms,
    ensures
        crate::client::spec_snapshot(a).connection_quality == crate::client::spec_snapshot(
            b,
        ).connection_quality,
{
}

/// Whether the pool is within the configured capacity.
pub open spec fn spec_within_capacity(m: WSServerManagerModel) -> bool {
    m.pool.connections.len() <= m.config.max_connections
}

/// No frame ever grows the pool: a manager within its configured capacity
/// stays within it. Admission itself refuses clients at capacity, so no
/// control call observes more than `max_connections` records, as long as
/// the capacity is not reconfigured below the live count.
pub proof fn lemma_frame_keeps_capacity(
    m: WSServerManagerModel,
    id: Seq<char>,
    frame: WsFrameModel,
    now_ms: u64,
)
    requires
        spec_within_capacity(m),
    ensures
        spec_within_capacity(spec_handle_frame(m, id, frame, now_ms).0),
        spec_handle_frame(m, id, frame, now_ms).0.pool.connections.len()
            == m.pool.connections.len(),
{
    lemma_patch_ids_all(m.pool.connections, id, now_ms);
    match frame {
        WsFrameModel::Text(t) => {
            let m1 = crate::manager::spec_with_text_counted(m, id, now_ms);
            lemma_patch_ids_all(m1.pool.connections, id, now_ms);
            lemma_process_keeps_len(m1, id, t, now_ms);
            let m2 = spec_process_message(m1, id, t, now_ms).0;
            lemma_patch_ids_all(m2.pool.connections, id, now_ms);
        },
        _ => {},
    }
}

/// Handling a message never changes how many clients are live.
proof fn lemma_process_keeps_len(
    m: WSServerManagerModel,
    id: Seq<char>,
    text: Seq<char>,
    now_ms: u64,
)
    ensures
        spec_process_message(m, id, text, now_ms).0.pool.connections.len()
            == m.pool.connections.len(),
{
    match spec_parse_json(text) {
        Option::Some(j) => {
            lemma_patch_ids_auth(m.pool.connections, id, spec_ea_info_of(j));
            lemma_patch_ids_all(m.pool.connections, id, now_ms);
        },
        Option::None => {},
    }
}

/// `AUTH` with the configured token is answered with exactly one
/// `AUTH_SUCCESS`, whose `clientId` is the id the server assigned to the
/// session, and the client's record is marked authenticated.
pub proof fn lemma_auth_success(
    m: WSServerManagerModel,
    id: Seq<char>,
    text: Seq<char>,
    now_ms: u64,
    j: JsonModel,
)
    requires
        spec_parse_json(text) == Option::Some(j),
        spec_msg_type(j) == Option::Some("AUTH"@),
        spec_opt_str(j, "token"@) == Option::Some(m.config.auth_token),
    ensures
        spec_process_message(m, id, text, now_ms).1 == Result::<
            Option<Seq<char>>,
            ProtocolErrorModel,
        >::Ok(Option::Some(spec_ser(spec_auth_success_doc(now_ms, id)))),
        spec_get(spec_auth_success_doc(now_ms, id), "clientId"@) == Option::Some(
            JsonModel::Str(id),
        ),
        spec_conn_of(spec_process_message(m, id, text, now_ms).0.pool.connections, id) == (
        match spec_conn_of(m.pool.connections, id) {
            Option::Some(c) => Option::Some(
                ConnectionModel { authenticated: true, ea_info: spec_ea_info_of(j), ..c },
            ),
            Option::None => Option::<ConnectionModel>::None,
        }),
{
    reveal_with_fuel(spec_member_lookup, 4);
    let f = (|c: ConnectionModel| ConnectionModel {
        authenticated: true,
        ea_info: spec_ea_info_of(j),
        ..c
    });
    assert forall|c: ConnectionModel| (#[trigger] f(c)).id == c.id by {}
    lemma_conn_of_patch(m.pool.connections, id, f);
}

/// `HEARTBEAT` is answered with exactly one `HEARTBEAT_ACK`, and moves
/// the client's heartbeat to the message's time: repeated heartbeats are
/// acknowledged each time, and with time running forward the recorded
/// heartbeat never moves back.
pub proof fn lemma_heartbeat_ack(
    m: WSServerManagerModel,
    id: Seq<char>,
    text: Seq<char>,
    now_ms: u64,
    j: JsonModel,
)
    requires
        spec_parse_json(text) == Option::Some(j),
        spec_msg_type(j) == Option::Some("HEARTBEAT"@),
    ensures
        spec_process_message(m, id, text, now_ms).1 == Result::<
            Option<Seq<char>>,
            ProtocolErrorModel,
        >::Ok(Option::Some(spec_ser(spec_heartbeat_ack_doc(now_ms)))),
        spec_conn_of(spec_process_message(m, id, text, now_ms).0.pool.connections, id) == (
        match spec_conn_of(m.pool.connections, id) {
            Option::Some(c) => Option::Some(
                ConnectionModel { last_heartbeat_ms: now_ms, ..c },
            ),
            Option::None => Option::<ConnectionModel>::None,
        }),
{
    reveal_strlit("AUTH");
    reveal_strlit("HEARTBEAT");
    assert("AUTH"@.len() == 4);
    assert("HEARTBEAT"@.len() == 9);
    assert("HEARTBEAT"@ != "AUTH"@);
    let f = (|c: ConnectionModel| ConnectionModel { last_heartbeat_ms: now_ms, ..c });
    assert forall|c: ConnectionModel| (#[trigger] f(c)).id == c.id by {}
    lemma_conn_of_patch(m.pool.connections, id, f);
}

/// Repeated heartbeats are each acknowledged, and with time running
/// forward the recorded heartbeat moves forward with them: after two
/// heartbeats the record holds the later time.
pub proof fn lemma_repeated_heartbeats(
    m: WSServerManagerModel,
    id: Seq<char>,
    t1: Seq<char>,
    t2: Seq<char>,
    now1: u64,
    now2: u64,
    j1: JsonModel,
    j2: JsonModel,
)
    requires
        spec_parse_json(t1) == Option::Some(j1),
        spec_msg_type(j1) == Option::Some("HEARTBEAT"@),
        spec_parse_json(t2) == Option::Some(j2),
        spec_msg_type(j2) == Option::Some("HEARTBEAT"@),
        now1 <= now2,
    ensures
        ({
            let m1 = spec_process_message(m, id, t1, now1).0;
            let m2 = spec_process_message(m1, id, t2, now2).0;
            &&& spec_process_message(m, id, t1, now1).1 == Result::<
                Option<Seq<char>>,
                ProtocolErrorModel,
            >::Ok(Option::Some(spec_ser(spec_heartbeat_ack_doc(now1))))
            &&& spec_process_message(m1, id, t2, now2).1 == Result::<
                Option<Seq<char>>,
                ProtocolErrorModel,
            >::Ok(Option::Some(spec_ser(spec_heartbeat_ack_doc(now2))))
            &&& (spec_conn_of(m.pool.connections, id) is Some ==> {
                &&& spec_conn_of(m2.pool.connections, id) matches Option::Some(c)
                &&& c.last_heartbeat_ms == now2
                &&& now2 >= now1
            })
        }),
{
    lemma_heartbeat_ack(m, id, t1, now1, j1);
    let m1 = spec_process_message(m, id, t1, now1).0;
    lemma_heartbeat_ack(m1, id, t2, now2, j2);
}

/// Stopping is idempotent: a second `stop` finds a stopped server and
/// changes nothing more.
pub proof fn lemma_stop_idempotent(m: WSServerManagerModel)
    ensures
        spec_stop(spec_stop(m)) == spec_stop(m),
{
}

/// `stop` followed by `start` restores a clean status: the fresh run
/// starts from zero counters and an empty pool, exactly as a start from
/// the same configuration without the stop would.
pub proof fn lemma_restart_is_clean(m: WSServerManagerModel, now_ms: u64)
    ensures
        spec_start(spec_stop(m), now_ms) == spec_start(m, now_ms),
        spec_start(spec_stop(m), now_ms).state.total_messages_received == 0,
        spec_start(spec_stop(m), now_ms).state.total_messages_sent == 0,
        spec_start(spec_stop(m), now_ms).state.errors == 0,
        spec_start(spec_stop(m), now_ms).pool.connections.len() == 0,
{
    assert(spec_start(spec_stop(m), now_ms) =~= spec_start(m, now_ms));
}

/// A new configuration shows in the status only after a restart: the
/// bound host and port stand until `stop` and `start` run, and then the
/// configured ones stand.
pub proof fn lemma_config_takes_effect_on_restart(
    m: WSServerManagerModel,
    c: WSServerConfigModel,
    now_before: u64,
    now_after: u64,
)
    ensures
        ({
            let updated = WSServerManagerModel { config: c, ..m };
            &&& spec_status(updated, now_before).port == m.state.port
            &&& spec_status(updated, now_before).host == m.state.host
            &&& spec_start(spec_stop(updated), now_after).state.port == c.port
            &&& spec_start(spec_stop(updated), now_after).state.host == c.host
        }),
{
}

/// One reaper pass evicts exactly the clients silent past the timeout:
/// every stale record's id is reported removed, every fresh record
/// survives, and no survivor is stale.
pub proof fn lemma_reaper_exact(conns: Seq<ConnectionModel>, now_ms: u64, timeout_seconds: u64)
    ensures
        forall|i: int|
            0 <= i < conns.len() && spec_is_stale(#[trigger] conns[i], now_ms, timeout_seconds)
                ==> spec_reap_removed(conns, now_ms, timeout_seconds).contains(conns[i].id),
        forall|i: int|
            0 <= i < conns.len() && !spec_is_stale(#[trigger] conns[i], now_ms, timeout_seconds)
                ==> spec_reap_kept(conns, now_ms, timeout_seconds).contains(conns[i]),
        forall|j: int|
            0 <= j < spec_reap_kept(conns, now_ms, timeout_seconds).len() ==> !spec_is_stale(
                #[trigger] spec_reap_kept(conns, now_ms, timeout_seconds)[j],
                now_ms,
                timeout_seconds,
            ),
    decreases conns.len(),
{
    if conns.len() > 0 {
        lemma_reaper_exact(conns.drop_last(), now_ms, timeout_seconds);
        let kept = spec_reap_kept(conns, now_ms, timeout_seconds);
        let keptp = spec_reap_kept(conns.drop_last(), now_ms, timeout_seconds);
        let removed = spec_reap_removed(conns, now_ms, timeout_seconds);
        let removedp = spec_reap_removed(conns.drop_last(), now_ms, timeout_seconds);
        assert forall|i: int|
            0 <= i < conns.len() && spec_is_stale(
                #[trigger] conns[i],
                now_ms,
                timeout_seconds,
            ) implies removed.contains(conns[i].id) by {
            if i < conns.len() - 1 {
                assert(conns.drop_last()[i] == conns[i]);
                assert(removedp.contains(conns[i].id));
                let w = choose|w: int| 0 <= w < removedp.len() && removedp[w] == conns[i].id;
                if spec_is_stale(conns.last(), now_ms, timeout_seconds) {
                    assert(removed[w] == conns[i].id);
                } else {
                    assert(removed[w] == conns[i].id);
                }
            } else {
                assert(removed.last() == conns[i].id);
            }
        }
        assert forall|i: int|
            0 <= i < conns.len() && !spec_is_stale(
                #[trigger] conns[i],
                now_ms,
                timeout_seconds,
            ) implies kept.contains(conns[i]) by {
            if i < conns.len() - 1 {
                assert(conns.drop_last()[i] == conns[i]);
                assert(keptp.contains(conns[i]));
                let w = choose|w: int| 0 <= w < keptp.len() && keptp[w] == conns[i];
                assert(kept[w] == conns[i]);
            } else {
                assert(kept.last() == conns[i]);
            }
        }
    }
}

/// A malformed message is counted, not fatal: bad JSON steps the error
/// counters, writes nothing back, and leaves every client connected.
pub proof fn lemma_invalid_json_is_not_fatal(
    m: WSServerManagerModel,
    id: Seq<char>,
    text: Seq<char>,
    now_ms: u64,
)
    requires
        spec_parse_json(text) is None,
    ensures
        ({
            let (m2, a) = spec_handle_frame(m, id, WsFrameModel::Text(text), now_ms);
            &&& m2.state.errors == spec_inc64(m.state.errors)
            &&& a is NoAction
            &&& m2.pool.connections.len() == m.pool.connections.len()
            &&& forall|i: int|
                0 <= i < m.pool.connections.len() ==> m2.pool.connections[i].id == (
                #[trigger] m.pool.connections[i]).id
        }),
{
    lemma_patch_ids_all(m.pool.connections, id, now_ms);
    let m1 = crate::manager::spec_with_text_counted(m, id, now_ms);
    lemma_patch_ids_all(m1.pool.connections, id, now_ms);
}

} // verus!
