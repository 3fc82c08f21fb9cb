//! The registry of live connections: add, remove and look up records by
//! client id, fan a frame out to every outbound queue, and aggregate
//! latency figures for the performance rollup.

use vstd::prelude::*;

use crate::client::Connection;
use crate::client::ConnectionModel;
use crate::client::EAInfo;
use crate::client::EAInfoModel;
use crate::client::spec_inc64;
use crate::client::inc64;

verus! {

/// The model of an optional client report.
pub open spec fn ea_opt_model(o: Option<EAInfo>) -> Option<EAInfoModel> {
    match o {
        Option::Some(e) => Option::Some(e@),
        Option::None => Option::None,
    }
}

/// The registry of live connections, with the cumulative count of
/// connections ever accepted and the high-water mark of simultaneous ones.
pub struct ConnectionPool {
    pub connections: Vec<Connection>,
    pub total_connections: u64,
    pub peak_connections: usize,
}

/// Mathematical model of `ConnectionPool`.
#[verifier::ext_equal]
pub struct ConnectionPoolModel {
    pub connections: Seq<ConnectionModel>,
    pub total_connections: u64,
    pub peak_connections: nat,
}

impl View for ConnectionPool {
    type V = ConnectionPoolModel;

    open spec fn view(&self) -> ConnectionPoolModel {
        ConnectionPoolModel {
            connections: Seq::new(self.connections@.len(), |i: int| self.connections@[i]@),
            total_connections: self.total_connections,
            peak_connections: self.peak_connections as nat,
        }
    }
}

/// Whether some record carries this id.
pub open spec fn spec_has_id(conns: Seq<ConnectionModel>, id: Seq<char>) -> bool {
    exists|i: int| 0 <= i < conns.len() && conns[i].id == id
}

/// No two records carry the same id.
pub open spec fn spec_ids_unique(conns: Seq<ConnectionModel>) -> bool {
    forall|i: int, j: int|
        0 <= i < j < conns.len() ==> (#[trigger] conns[i]).id != (#[trigger] conns[j]).id
}

/// The record of the first member carrying this id, if one is there.
pub open spec fn spec_conn_of(conns: Seq<ConnectionModel>, id: Seq<char>) -> Option<
    ConnectionModel,
>
    decreases conns.len(),
{
    if conns.len() == 0 {
        Option::None
    } else if conns.first().id == id {
        Option::Some(conns.first())
    } else {
        spec_conn_of(conns.drop_first(), id)
    }
}

/// The records after patching the first one carrying this id with `f`;
/// unchanged when none carries it.
pub open spec fn spec_patch_first(
    conns: Seq<ConnectionModel>,
    id: Seq<char>,
    f: spec_fn(ConnectionModel) -> ConnectionModel,
) -> Seq<ConnectionModel>
    decreases conns.len(),
{
    if conns.len() == 0 {
        conns
    } else if conns.first().id == id {
        seq![f(conns.first())] + conns.drop_first()
    } else {
        seq![conns.first()] + spec_patch_first(conns.drop_first(), id, f)
    }
}

/// Patching an absent id changes nothing.
pub proof fn lemma_patch_first_absent(
    conns: Seq<ConnectionModel>,
    id: Seq<char>,
    f: spec_fn(ConnectionModel) -> ConnectionModel,
)
    requires
        !spec_has_id(conns, id),
    ensures
        spec_patch_first(conns, id, f) == conns,
        spec_conn_of(conns, id) is None,
    decreases conns.len(),
{
    if conns.len() > 0 {
        assert(conns[0] == conns.first());
        assert forall|j: int| 0 <= j < conns.drop_first().len() implies (#[trigger] conns.drop_first()[j]).id
            != id by {
            assert(conns.drop_first()[j] == conns[j + 1]);
        }
        lemma_patch_first_absent(conns.drop_first(), id, f);
        assert(seq![conns.first()] + conns.drop_first() =~= conns);
    }
}

/// Patching the id of the record at `k`, the first that carries it,
/// rewrites exactly that record.
pub proof fn lemma_patch_first_at(
    conns: Seq<ConnectionModel>,
    id: Seq<char>,
    f: spec_fn(ConnectionModel) -> ConnectionModel,
    k: int,
)
    requires
        0 <= k < conns.len(),
        conns[k].id == id,
        forall|j: int| 0 <= j < k ==> (#[trigger] conns[j]).id != id,
    ensures
        spec_patch_first(conns, id, f) == conns.update(k, f(conns[k])),
        spec_conn_of(conns, id) == Option::Some(conns[k]),
    decreases conns.len(),
{
    if k == 0 {
        assert(conns.first() == conns[0]);
        assert(seq![f(conns.first())] + conns.drop_first() =~= conns.update(0, f(conns[0])));
    } else {
        assert(conns.first().id != id);
        assert(conns.drop_first()[k - 1] == conns[k]);
        assert forall|j: int| 0 <= j < k - 1 implies (#[trigger] conns.drop_first()[j]).id
            != id by {
            assert(conns.drop_first()[j] == conns[j + 1]);
        }
        lemma_patch_first_at(conns.drop_first(), id, f, k - 1);
        assert(seq![conns.first()] + conns.drop_first().update(k - 1, f(conns[k])) =~= conns.update(
            k,
            f(conns[k]),
        ));
    }
}

/// A patch leaves every id where it was.
pub proof fn lemma_patch_first_ids(
    conns: Seq<ConnectionModel>,
    id: Seq<char>,
    f: spec_fn(ConnectionModel) -> ConnectionModel,
)
    requires
        forall|c: ConnectionModel| (#[trigger] f(c)).id == c.id,
    ensures
        spec_patch_first(conns, id, f).len() == conns.len(),
        forall|i: int|
            0 <= i < conns.len() ==> spec_patch_first(conns, id, f)[i].id == (
            #[trigger] conns[i]).id,
        spec_ids_unique(conns) ==> spec_ids_unique(spec_patch_first(conns, id, f)),
    decreases conns.len(),
{
    if conns.len() > 0 {
        lemma_patch_first_ids(conns.drop_first(), id, f);
        assert forall|i: int|
            0 <= i < conns.len() implies spec_patch_first(conns, id, f)[i].id == (
        #[trigger] conns[i]).id by {
            if i > 0 && conns.first().id != id {
                assert(conns.drop_first()[i - 1] == conns[i]);
                assert(spec_patch_first(conns, id, f)[i] == spec_patch_first(
                    conns.drop_first(),
                    id,
                    f,
                )[i - 1]);
            }
        }
        if spec_ids_unique(conns) {
            let patched = spec_patch_first(conns, id, f);
            assert forall|i: int, j: int| 0 <= i < j < patched.len() implies (
            #[trigger] patched[i]).id != (#[trigger] patched[j]).id by {
                assert(patched[i].id == conns[i].id);
                assert(patched[j].id == conns[j].id);
                assert(conns[i].id != conns[j].id);
            }
        }
    }
}

/// Looking a client up after a patch of its id finds the patched record;
/// other ids are untouched by the lookup.
pub proof fn lemma_conn_of_patch(
    conns: Seq<ConnectionModel>,
    id: Seq<char>,
    f: spec_fn(ConnectionModel) -> ConnectionModel,
)
    requires
        forall|c: ConnectionModel| (#[trigger] f(c)).id == c.id,
    ensures
        spec_conn_of(spec_patch_first(conns, id, f), id) == (match spec_conn_of(conns, id) {
            Option::Some(c) => Option::Some(f(c)),
            Option::None => Option::<ConnectionModel>::None,
        }),
    decreases conns.len(),
{
    if conns.len() > 0 {
        if conns.first().id == id {
            let patched = seq![f(conns.first())] + conns.drop_first();
            assert(patched.first() == f(conns.first()));
            assert(patched.len() > 0);
        } else {
            let patched = seq![conns.first()] + spec_patch_first(conns.drop_first(), id, f);
            assert(patched.first() == conns.first());
            assert(patched.drop_first() =~= spec_patch_first(conns.drop_first(), id, f));
            lemma_conn_of_patch(conns.drop_first(), id, f);
        }
    }
}

/// The first record carrying this id, marked authenticated with the
/// client's report attached.
pub open spec fn spec_auth_patch(
    conns: Seq<ConnectionModel>,
    id: Seq<char>,
    ea: Option<EAInfoModel>,
) -> Seq<ConnectionModel> {
    spec_patch_first(
        conns,
        id,
        (|c: ConnectionModel| ConnectionModel { authenticated: true, ea_info: ea, ..c }),
    )
}

/// The first record carrying this id, its heartbeat moved to `now_ms`.
pub open spec fn spec_heartbeat_patch(
    conns: Seq<ConnectionModel>,
    id: Seq<char>,
    now_ms: u64,
) -> Seq<ConnectionModel> {
    spec_patch_first(
        conns,
        id,
        (|c: ConnectionModel| ConnectionModel { last_heartbeat_ms: now_ms, ..c }),
    )
}

/// The first record carrying this id after one inbound text frame: its
/// message count steps and both liveness timestamps move to `now_ms`.
pub open spec fn spec_message_patch(
    conns: Seq<ConnectionModel>,
    id: Seq<char>,
    now_ms: u64,
) -> Seq<ConnectionModel> {
    spec_patch_first(
        conns,
        id,
        (|c: ConnectionModel| ConnectionModel {
            message_count: spec_inc64(c.message_count),
            last_heartbeat_ms: now_ms,
            last_message_ms: now_ms,
            ..c
        }),
    )
}

/// The first record carrying this id, its error count stepped.
pub open spec fn spec_error_patch(conns: Seq<ConnectionModel>, id: Seq<char>) -> Seq<
    ConnectionModel,
> {
    spec_patch_first(
        conns,
        id,
        (|c: ConnectionModel| ConnectionModel { error_count: spec_inc64(c.error_count), ..c }),
    )
}

/// The first record carrying this id, its latency measurement replaced.
pub open spec fn spec_latency_patch(
    conns: Seq<ConnectionModel>,
    id: Seq<char>,
    latency_ms: u64,
) -> Seq<ConnectionModel> {
    spec_patch_first(
        conns,
        id,
        (|c: ConnectionModel| ConnectionModel { latency_ms: Option::Some(latency_ms), ..c }),
    )
}

/// The first record carrying this id with its outbound queue emptied.
pub open spec fn spec_drain_patch(conns: Seq<ConnectionModel>, id: Seq<char>) -> Seq<
    ConnectionModel,
> {
    spec_patch_first(
        conns,
        id,
        (|c: ConnectionModel| ConnectionModel { outbound: Seq::empty(), ..c }),
    )
}

/// What one broadcast does to one record: the frame joins the outbound
/// queue if there is room; a client with a full queue is skipped and its
/// error count stepped.
pub open spec fn spec_broadcast_one(c: ConnectionModel, msg: Seq<char>) -> ConnectionModel {
    if c.outbound.len() < c.outbound_cap {
        ConnectionModel { outbound: c.outbound.push(msg), ..c }
    } else {
        ConnectionModel { error_count: spec_inc64(c.error_count), ..c }
    }
}

/// Every record after one broadcast.
pub open spec fn spec_broadcast_all(conns: Seq<ConnectionModel>, msg: Seq<char>) -> Seq<
    ConnectionModel,
>
    decreases conns.len(),
{
    if conns.len() == 0 {
        Seq::empty()
    } else {
        spec_broadcast_all(conns.drop_last(), msg).push(spec_broadcast_one(conns.last(), msg))
    }
}

/// How many records a broadcast reaches: those with room in their queue.
pub open spec fn spec_broadcast_count(conns: Seq<ConnectionModel>, msg: Seq<char>) -> int
    decreases conns.len(),
{
    if conns.len() == 0 {
        0
    } else {
        spec_broadcast_count(conns.drop_last(), msg) + (
        if conns.last().outbound.len() < conns.last().outbound_cap {
            1int
        } else {
            0int
        })
    }
}

/// A broadcast touches each record independently, in place.
pub proof fn lemma_broadcast_all_index(conns: Seq<ConnectionModel>, msg: Seq<char>)
    ensures
        spec_broadcast_all(conns, msg).len() == conns.len(),
        forall|i: int|
            0 <= i < conns.len() ==> spec_broadcast_all(conns, msg)[i] == spec_broadcast_one(
                #[trigger] conns[i],
                msg,
            ),
        0 <= spec_broadcast_count(conns, msg) <= conns.len(),
    decreases conns.len(),
{
    if conns.len() > 0 {
        lemma_broadcast_all_index(conns.drop_last(), msg);
        assert forall|i: int|
            0 <= i < conns.len() implies spec_broadcast_all(conns, msg)[i] == spec_broadcast_one(
            #[trigger] conns[i],
            msg,
        ) by {
            if i < conns.len() - 1 {
                assert(conns.drop_last()[i] == conns[i]);
            }
        }
    }
}

/// The number of latency measurements across the records.
pub open spec fn spec_latency_count(conns: Seq<ConnectionModel>) -> int
    decreases conns.len(),
{
    if conns.len() == 0 {
        0
    } else {
        spec_latency_count(conns.drop_last()) + (if conns.last().latency_ms is Some {
            1int
        } else {
            0int
        })
    }
}

/// The sum of the latency measurements across the records.
pub open spec fn spec_latency_sum(conns: Seq<ConnectionModel>) -> int
    decreases conns.len(),
{
    if conns.len() == 0 {
        0
    } else {
        spec_latency_sum(conns.drop_last()) + (match conns.last().latency_ms {
            Option::Some(l) => l as int,
            Option::None => 0int,
        })
    }
}

/// The mean measured latency across records that have a measurement, zero
/// when none has one.
pub open spec fn spec_avg_latency(conns: Seq<ConnectionModel>) -> u64 {
    if spec_latency_count(conns) == 0 {
        0
    } else if spec_latency_sum(conns) / spec_latency_count(conns) > u64::MAX as int {
        u64::MAX
    } else {
        (spec_latency_sum(conns) / spec_latency_count(conns)) as u64
    }
}

impl ConnectionPool {
    /// An empty registry with zeroed statistics.
    pub fn new() -> (r: ConnectionPool)
        ensures
            r@.connections == Seq::<ConnectionModel>::empty(),
            r@.total_connections == 0,
            r@.peak_connections == 0,
    {
        let r = ConnectionPool { connections: Vec::new(), total_connections: 0, peak_connections: 0 };
        proof {
            assert(r@.connections =~= Seq::<ConnectionModel>::empty());
        }
        r
    }

    /// How many connections are live.
    pub fn len(&self) -> (r: usize)
        ensures
            r == self@.connections.len(),
    {
        self.connections.len()
    }

    /// The index of the record with this id, if one is there.
    fn find_index(&self, id: &String) -> (r: Option<usize>)
        ensures
            match r {
                Option::Some(k) => {
                    &&& 0 <= k < self@.connections.len()
                    &&& self@.connections[k as int].id == id@
                    &&& forall|j: int| 0 <= j < k ==> (#[trigger] self@.connections[j]).id != id@
                },
                Option::None => !spec_has_id(self@.connections, id@),
            },
    {
        let n = self.connections.len();
        let mut i: usize = 0;
        while i < n
            invariant
                i <= n,
                n == self@.connections.len(),
                forall|j: int| 0 <= j < i ==> (#[trigger] self@.connections[j]).id != id@,
            decreases n - i,
        {
            if self.connections[i].id == *id {
                return Option::Some(i);
            }
            i = i + 1;
        }
        Option::None
    }

    /// Insert a fresh record. Refused when a record with the same id is
    /// already there; otherwise the record joins the registry, the
    /// cumulative count steps, and the high-water mark keeps up.
    pub fn add_connection(&mut self, connection: Connection) -> (r: bool)
        ensures
            spec_has_id(old(self)@.connections, connection@.id) ==> {
                &&& r == false
                &&& final(self)@ == old(self)@
            },
            !spec_has_id(old(self)@.connections, connection@.id) ==> {
                &&& r == true
                &&& final(self)@.connections == old(self)@.connections.push(connection@)
                &&& final(self)@.total_connections == spec_inc64(old(self)@.total_connections)
                &&& final(self)@.peak_connections == (
                    if old(self)@.connections.len() + 1 > old(self)@.peak_connections {
                        old(self)@.connections.len() + 1
                    } else {
                        old(self)@.peak_connections
                    }
                )
            },
            spec_ids_unique(old(self)@.connections) ==> spec_ids_unique(final(self)@.connections),
            final(self)@.connections.len() <= old(self)@.connections.len() + 1,
    {
        let ghost oldm = self@.connections;
        match self.find_index(&connection.id) {
            Option::Some(_) => false,
            Option::None => {
                let ghost cm = connection@;
                self.connections.push(connection);
                self.total_connections = inc64(self.total_connections);
                let n = self.connections.len();
                if n > self.peak_connections {
                    self.peak_connections = n;
                }
                proof {
                    assert(self@.connections =~= oldm.push(cm));
                }
                true
            },
        }
    }

    /// Remove the record with this id, if one is there; removing an
    /// unknown id changes nothing.
    pub fn remove_connection(&mut self, id: &String) -> (r: bool)
        ensures
            !spec_has_id(old(self)@.connections, id@) ==> {
                &&& r == false
                &&& final(self)@ == old(self)@
            },
            spec_has_id(old(self)@.connections, id@) ==> {
                &&& r == true
                &&& exists|k: int|
                    {
                        &&& 0 <= k < old(self)@.connections.len()
                        &&& (#[trigger] old(self)@.connections[k]).id == id@
                        &&& final(self)@.connections == old(self)@.connections.remove(k)
                    }
            },
            final(self)@.total_connections == old(self)@.total_connections,
            final(self)@.peak_connections == old(self)@.peak_connections,
            spec_ids_unique(old(self)@.connections) ==> spec_ids_unique(final(self)@.connections),
            final(self)@.connections.len() <= old(self)@.connections.len(),
    {
        let ghost oldm = self@.connections;
        match self.find_index(id) {
            Option::Some(k) => {
                self.connections.remove(k);
                proof {
                    assert(self@.connections =~= oldm.remove(k as int));
                    assert forall|i: int, j: int|
                        0 <= i < j < self@.connections.len() && spec_ids_unique(oldm) implies (
                    #[trigger] self@.connections[i]).id != (#[trigger] self@.connections[j]).id by {
                        if i < k {
                            assert(self@.connections[i] == oldm[i]);
                        } else {
                            assert(self@.connections[i] == oldm[i + 1]);
                        }
                        if j < k {
                            assert(self@.connections[j] == oldm[j]);
                        } else {
                            assert(self@.connections[j] == oldm[j + 1]);
                        }
                    }
                }
                true
            },
            Option::None => false,
        }
    }

    /// The record with this id, if one is there.
    pub fn get_connection(&self, id: &String) -> (r: Option<&Connection>)
        ensures
            match r {
                Option::Some(c) => {
                    &&& spec_has_id(self@.connections, id@)
                    &&& c@.id == id@
                    &&& spec_conn_of(self@.connections, id@) == Option::Some(c@)
                    &&& exists|i: int|
                        0 <= i < self@.connections.len() && (#[trigger] self@.connections[i]) == c@
                },
                Option::None => {
                    &&& !spec_has_id(self@.connections, id@)
                    &&& spec_conn_of(self@.connections, id@) is None
                },
            },
    {
        match self.find_index(id) {
            Option::Some(k) => {
                proof {
                    lemma_patch_first_at(
                        self@.connections,
                        id@,
                        (|c: ConnectionModel| c),
                        k as int,
                    );
                }
                Option::Some(&self.connections[k])
            },
            Option::None => {
                proof {
                    lemma_patch_first_absent(self@.connections, id@, (|c: ConnectionModel| c));
                }
                Option::None
            },
        }
    }

    /// Fan one text frame out to every record: each with room enqueues a
    /// copy, each with a full queue is skipped and its error count steps.
    /// Returns how many enqueued.
    pub fn broadcast_message(&mut self, message: &String) -> (r: usize)
        ensures
            final(self)@.connections == spec_broadcast_all(old(self)@.connections, message@),
            r == spec_broadcast_count(old(self)@.connections, message@),
            final(self)@.total_connections == old(self)@.total_connections,
            final(self)@.peak_connections == old(self)@.peak_connections,
    {
        let ghost orig = self@.connections;
        let n = self.connections.len();
        let mut sent: usize = 0;
        let mut i: usize = 0;
        proof {
            lemma_broadcast_all_index(orig, message@);
            assert(spec_broadcast_count(orig.take(0), message@) == 0);
        }
        while i < n
            invariant
                i <= n,
                n == self@.connections.len(),
                n == orig.len(),
                sent <= i,
                self.total_connections == old(self)@.total_connections,
                self.peak_connections as nat == old(self)@.peak_connections,
                forall|j: int|
                    0 <= j < i ==> self@.connections[j] == spec_broadcast_one(
                        #[trigger] orig[j],
                        message@,
                    ),
                forall|j: int| i <= j < n ==> self@.connections[j] == #[trigger] orig[j],
                sent == spec_broadcast_count(orig.take(i as int), message@),
            decreases n - i,
        {
            proof {
                assert(orig.take(i as int + 1).drop_last() =~= orig.take(i as int));
                assert(orig.take(i as int + 1).last() == orig[i as int]);
            }
            let c = &mut self.connections[i];
            let ghost cm = c@;
            if c.outbound.messages.len() < c.outbound.max_size {
                c.outbound.messages.push(message.clone());
                sent = sent + 1;
            } else {
                c.error_count = inc64(c.error_count);
            }
            proof {
                if cm.outbound.len() < cm.outbound_cap {
                    assert(self@.connections[i as int].outbound =~= cm.outbound.push(message@));
                } else {
                    assert(self@.connections[i as int].outbound =~= cm.outbound);
                }
                assert(self@.connections[i as int] =~= spec_broadcast_one(cm, message@));
            }
            i = i + 1;
        }
        proof {
            assert(orig.take(n as int) =~= orig);
            lemma_broadcast_all_index(orig, message@);
            assert forall|j: int| 0 <= j < n implies self@.connections[j] == spec_broadcast_all(
                orig,
                message@,
            )[j] by {
                assert(self@.connections[j] == spec_broadcast_one(orig[j], message@));
            }
            assert(self@.connections =~= spec_broadcast_all(orig, message@));
        }
        sent
    }

    /// Record a fresh latency measurement for this client; an unknown id
    /// changes nothing.
    pub fn update_latency(&mut self, client_id: &String, latency_ms: u64)
        ensures
            final(self)@.connections == spec_latency_patch(
                old(self)@.connections,
                client_id@,
                latency_ms,
            ),
            final(self)@.total_connections == old(self)@.total_connections,
            final(self)@.peak_connections == old(self)@.peak_connections,
    {
        let ghost oldm = self@.connections;
        match self.find_index(client_id) {
            Option::Some(k) => {
                let c = &mut self.connections[k];
                let ghost cm = c@;
                c.latency_ms = Option::Some(latency_ms);
                proof {
                    assert(self@.connections[k as int].outbound =~= cm.outbound);
                    assert(self@.connections[k as int] =~= ConnectionModel {
                        latency_ms: Option::Some(latency_ms),
                        ..cm
                    });
                    assert(self@.connections =~= oldm.update(
                        k as int,
                        ConnectionModel { latency_ms: Option::Some(latency_ms), ..cm },
                    ));
                    lemma_patch_first_at(
                        oldm,
                        client_id@,
                        (|c: ConnectionModel| ConnectionModel {
                            latency_ms: Option::Some(latency_ms),
                            ..c
                        }),
                        k as int,
                    );
                }
            },
            Option::None => {
                proof {
                    lemma_patch_first_absent(
                        oldm,
                        client_id@,
                        (|c: ConnectionModel| ConnectionModel {
                            latency_ms: Option::Some(latency_ms),
                            ..c
                        }),
                    );
                }
            },
        }
    }

    /// Hand out everything queued for this client, in order, leaving its
    /// queue empty; an unknown id hands out nothing.
    pub fn take_outbound(&mut self, client_id: &String) -> (r: Vec<String>)
        ensures
            final(self)@.connections == spec_drain_patch(old(self)@.connections, client_id@),
            (match spec_conn_of(old(self)@.connections, client_id@) {
                Option::Some(c) => Seq::new(r@.len(), |i: int| r@[i]@) == c.outbound,
                Option::None => r@.len() == 0,
            }),
            final(self)@.total_connections == old(self)@.total_connections,
            final(self)@.peak_connections == old(self)@.peak_connections,
    {
        let ghost oldm = self@.connections;
        let mut out: Vec<String> = Vec::new();
        match self.find_index(client_id) {
            Option::Some(k) => {
                proof {
                    lemma_patch_first_at(
                        oldm,
                        client_id@,
                        (|c: ConnectionModel| ConnectionModel { outbound: Seq::empty(), ..c }),
                        k as int,
                    );
                }
                let c = &mut self.connections[k];
                let ghost cm = c@;
                core::mem::swap(&mut c.outbound.messages, &mut out);
                proof {
                    assert(Seq::new(out@.len(), |i: int| out@[i]@) =~= cm.outbound);
                    assert(self@.connections[k as int].outbound =~= Seq::<Seq<char>>::empty());
                    assert(self@.connections[k as int] =~= ConnectionModel {
                        outbound: Seq::empty(),
                        ..cm
                    });
                    assert(self@.connections =~= oldm.update(
                        k as int,
                        ConnectionModel { outbound: Seq::empty(), ..cm },
                    ));
                }
                out
            },
            Option::None => {
                proof {
                    lemma_patch_first_absent(
                        oldm,
                        client_id@,
                        (|c: ConnectionModel| ConnectionModel { outbound: Seq::empty(), ..c }),
                    );
                }
                out
            },
        }
    }

    /// Mark this client authenticated and attach its report; an unknown id
    /// changes nothing.
    pub fn authenticate(&mut self, client_id: &String, ea_info: Option<EAInfo>)
        ensures
            final(self)@.connections == spec_auth_patch(
                old(self)@.connections,
                client_id@,
                ea_opt_model(ea_info),
            ),
            final(self)@.total_connections == old(self)@.total_connections,
            final(self)@.peak_connections == old(self)@.peak_connections,
    {
        let ghost oldm = self@.connections;
        let ghost eam = ea_opt_model(ea_info);
        match self.find_index(client_id) {
            Option::Some(k) => {
                let c = &mut self.connections[k];
                let ghost cm = c@;
                c.authenticated = true;
                c.ea_info = ea_info;
                proof {
                    assert(self@.connections[k as int].outbound =~= cm.outbound);
                    assert(self@.connections[k as int] =~= ConnectionModel {
                        authenticated: true,
                        ea_info: eam,
                        ..cm
                    });
                    assert(self@.connections =~= oldm.update(
                        k as int,
                        ConnectionModel { authenticated: true, ea_info: eam, ..cm },
                    ));
                    lemma_patch_first_at(
                        oldm,
                        client_id@,
                        (|c: ConnectionModel| ConnectionModel {
                            authenticated: true,
                            ea_info: eam,
                            ..c
                        }),
                        k as int,
                    );
                }
            },
            Option::None => {
                proof {
                    lemma_patch_first_absent(
                        oldm,
                        client_id@,
                        (|c: ConnectionModel| ConnectionModel {
                            authenticated: true,
                            ea_info: eam,
                            ..c
                        }),
                    );
                }
            },
        }
    }

    /// Move this client's heartbeat to `now_ms`; an unknown id changes
    /// nothing.
    pub fn touch_heartbeat(&mut self, client_id: &String, now_ms: u64)
        ensures
            final(self)@.connections == spec_heartbeat_patch(
                old(self)@.connections,
                client_id@,
                now_ms,
            ),
            final(self)@.total_connections == old(self)@.total_connections,
            final(self)@.peak_connections == old(self)@.peak_connections,
    {
        let ghost oldm = self@.connections;
        match self.find_index(client_id) {
            Option::Some(k) => {
                let c = &mut self.connections[k];
                let ghost cm = c@;
                c.last_heartbeat_ms = now_ms;
                proof {
                    assert(self@.connections[k as int].outbound =~= cm.outbound);
                    assert(self@.connections[k as int] =~= ConnectionModel {
                        last_heartbeat_ms: now_ms,
                        ..cm
                    });
                    assert(self@.connections =~= oldm.update(
                        k as int,
                        ConnectionModel { last_heartbeat_ms: now_ms, ..cm },
                    ));
                    lemma_patch_first_at(
                        oldm,
                        client_id@,
                        (|c: ConnectionModel| ConnectionModel { last_heartbeat_ms: now_ms, ..c }),
                        k as int,
                    );
                }
            },
            Option::None => {
                proof {
                    lemma_patch_first_absent(
                        oldm,
                        client_id@,
                        (|c: ConnectionModel| ConnectionModel { last_heartbeat_ms: now_ms, ..c }),
                    );
                }
            },
        }
    }

    /// Step this client's message count and move both liveness timestamps
    /// to `now_ms`; an unknown id changes nothing.
    pub fn note_message(&mut self, client_id: &String, now_ms: u64)
        ensures
            final(self)@.connections == spec_message_patch(
                old(self)@.connections,
                client_id@,
                now_ms,
            ),
            final(self)@.total_connections == old(self)@.total_connections,
            final(self)@.peak_connections == old(self)@.peak_connections,
    {
        let ghost oldm = self@.connections;
        match self.find_index(client_id) {
            Option::Some(k) => {
                let c = &mut self.connections[k];
                let ghost cm = c@;
                c.message_count = inc64(c.message_count);
                c.last_heartbeat_ms = now_ms;
                c.last_message_ms = now_ms;
                proof {
                    assert(self@.connections[k as int].outbound =~= cm.outbound);
                    assert(self@.connections[k as int] =~= ConnectionModel {
                        message_count: spec_inc64(cm.message_count),
                        last_heartbeat_ms: now_ms,
                        last_message_ms: now_ms,
                        ..cm
                    });
                    assert(self@.connections =~= oldm.update(
                        k as int,
                        ConnectionModel {
                            message_count: spec_inc64(cm.message_count),
                            last_heartbeat_ms: now_ms,
                            last_message_ms: now_ms,
                            ..cm
                        },
                    ));
                    lemma_patch_first_at(
                        oldm,
                        client_id@,
                        (|c: ConnectionModel| ConnectionModel {
                            message_count: spec_inc64(c.message_count),
                            last_heartbeat_ms: now_ms,
                            last_message_ms: now_ms,
                            ..c
                        }),
                        k as int,
                    );
                }
            },
            Option::None => {
                proof {
                    lemma_patch_first_absent(
                        oldm,
                        client_id@,
                        (|c: ConnectionModel| ConnectionModel {
                            message_count: spec_inc64(c.message_count),
                            last_heartbeat_ms: now_ms,
                            last_message_ms: now_ms,
                            ..c
                        }),
                    );
                }
            },
        }
    }

    /// Step this client's error count; an unknown id changes nothing.
    pub fn note_error(&mut self, client_id: &String)
        ensures
            final(self)@.connections == spec_error_patch(old(self)@.connections, client_id@),
            final(self)@.total_connections == old(self)@.total_connections,
            final(self)@.peak_connections == old(self)@.peak_connections,
    {
        let ghost oldm = self@.connections;
        match self.find_index(client_id) {
            Option::Some(k) => {
                let c = &mut self.connections[k];
                let ghost cm = c@;
                c.error_count = inc64(c.error_count);
                proof {
                    assert(self@.connections[k as int].outbound =~= cm.outbound);
                    assert(self@.connections[k as int] =~= ConnectionModel {
                        error_count: spec_inc64(cm.error_count),
                        ..cm
                    });
                    assert(self@.connections =~= oldm.update(
                        k as int,
                        ConnectionModel { error_count: spec_inc64(cm.error_count), ..cm },
                    ));
                    lemma_patch_first_at(
                        oldm,
                        client_id@,
                        (|c: ConnectionModel| ConnectionModel {
                            error_count: spec_inc64(c.error_count),
                            ..c
                        }),
                        k as int,
                    );
                }
            },
            Option::None => {
                proof {
                    lemma_patch_first_absent(
                        oldm,
                        client_id@,
                        (|c: ConnectionModel| ConnectionModel {
                            error_count: spec_inc64(c.error_count),
                            ..c
                        }),
                    );
                }
            },
        }
    }

    /// The mean measured latency across clients that have a measurement.
    pub fn average_latency(&self) -> (r: u64)
        ensures
            r == spec_avg_latency(self@.connections),
    {
        let ghost conns = self@.connections;
        let n = self.connections.len();
        let mut sum: u128 = 0;
        let mut count: u64 = 0;
        let mut i: usize = 0;
        while i < n
            invariant
                i <= n,
                n == self@.connections.len(),
                conns == self@.connections,
                count <= i,
                sum as int <= i * (u64::MAX as int),
                sum == spec_latency_sum(conns.take(i as int)),
                count == spec_latency_count(conns.take(i as int)),
            decreases n - i,
        {
            proof {
                assert(conns.take(i as int + 1).drop_last() =~= conns.take(i as int));
                assert(conns.take(i as int + 1).last() == conns[i as int]);
            }
            match self.connections[i].latency_ms {
                Option::Some(l) => {
                    sum = sum + l as u128;
                    count = count + 1;
                },
                Option::None => {
                },
            }
            i = i + 1;
        }
        proof {
            assert(conns.take(n as int) =~= conns);
        }
        if count == 0 {
            0
        } else {
            let q = sum / count as u128;
            if q > u64::MAX as u128 {
                u64::MAX
            } else {
                q as u64
            }
        }
    }
}

} // verus!
