//! The performance rollup and the periodic monitor: rate and latency
//! aggregates over the live pool, threshold warnings, tuning suggestions,
//! and the composite statistics document the host UI renders.

use vstd::prelude::*;

use crate::client::ConnectionModel;
use crate::json::JsonModel;
use crate::json::JsonValue;
use crate::json::members_model;
use crate::json::spec_dec;
use crate::json::u64_string;
use crate::manager::WSServerManager;
use crate::manager::WSServerManagerModel;
use crate::manager::WSServerStateModel;
use crate::manager::spec_manager_wf;
use crate::manager::spec_status;
use crate::manager::spec_uptime_seconds;
use crate::pool::spec_avg_latency;
use crate::quality::quality_label;
use crate::quality::spec_quality_label;

verus! {

/// The rollup of one run: cumulative and peak connection counts, mean
/// measured latency, message rate, error rate in whole percent, and the
/// run's age.
pub struct PerformanceMetrics {
    pub total_connections: u64,
    pub peak_connections: usize,
    pub avg_latency_ms: u64,
    pub messages_per_second: u64,
    pub error_rate: u64,
    pub uptime_seconds: u64,
}

/// Mathematical model of `PerformanceMetrics`.
#[verifier::ext_equal]
pub struct PerformanceMetricsModel {
    pub total_connections: u64,
    pub peak_connections: nat,
    pub avg_latency_ms: u64,
    pub messages_per_second: u64,
    pub error_rate: u64,
    pub uptime_seconds: u64,
}

impl View for PerformanceMetrics {
    type V = PerformanceMetricsModel;

    open spec fn view(&self) -> PerformanceMetricsModel {
        PerformanceMetricsModel {
            total_connections: self.total_connections,
            peak_connections: self.peak_connections as nat,
            avg_latency_ms: self.avg_latency_ms,
            messages_per_second: self.messages_per_second,
            error_rate: self.error_rate,
            uptime_seconds: self.uptime_seconds,
        }
    }
}

/// Messages received per whole second of uptime; zero in the first second
/// and when stopped.
pub open spec fn spec_messages_per_second(m: WSServerManagerModel, now_ms: u64) -> u64 {
    let uptime = spec_uptime_seconds(m.started_at_ms, now_ms);
    if uptime > 0 {
        (m.state.total_messages_received / uptime) as u64
    } else {
        0
    }
}

/// Errors per hundred received messages, in whole percent; zero before
/// anything was received.
pub open spec fn spec_error_rate(m: WSServerManagerModel) -> u64 {
    if m.state.total_messages_received > 0 {
        let r = (m.state.errors as int) * 100 / (m.state.total_messages_received as int);
        if r > u64::MAX as int {
            u64::MAX
        } else {
            r as u64
        }
    } else {
        0
    }
}

/// The whole rollup at `now_ms`.
pub open spec fn spec_metrics(m: WSServerManagerModel, now_ms: u64) -> PerformanceMetricsModel {
    PerformanceMetricsModel {
        total_connections: m.pool.total_connections,
        peak_connections: m.pool.peak_connections,
        avg_latency_ms: spec_avg_latency(m.pool.connections),
        messages_per_second: spec_messages_per_second(m, now_ms),
        error_rate: spec_error_rate(m),
        uptime_seconds: spec_uptime_seconds(m.started_at_ms, now_ms),
    }
}

/// A threshold the monitor found crossed.
#[derive(Debug, PartialEq, Eq, Structural)]
pub enum PerformanceWarning {
    /// More than a thousand messages per second.
    HighMessageRate,
    /// Mean measured latency above a hundred milliseconds.
    HighLatency,
    /// More than five errors per hundred received messages.
    HighErrorRate,
}

/// The warnings one monitor pass at `now_ms` raises, in a fixed order.
/// Nothing is raised before the run is a second old.
pub open spec fn spec_perf_warnings(m: WSServerManagerModel, now_ms: u64) -> Seq<
    PerformanceWarning,
> {
    if spec_uptime_seconds(m.started_at_ms, now_ms) > 0 {
        (if spec_messages_per_second(m, now_ms) > 1000 {
            seq![PerformanceWarning::HighMessageRate]
        } else {
            Seq::empty()
        }) + (if spec_avg_latency(m.pool.connections) > 100 {
            seq![PerformanceWarning::HighLatency]
        } else {
            Seq::empty()
        }) + (if spec_error_rate(m) > 5 {
            seq![PerformanceWarning::HighErrorRate]
        } else {
            Seq::empty()
        })
    } else {
        Seq::empty()
    }
}

impl WSServerManager {
    /// Errors per hundred received messages, in whole percent.
    fn error_rate_percent(&self) -> (r: u64)
        ensures
            r == spec_error_rate(self@),
    {
        if self.state.total_messages_received > 0 {
            let q = (self.state.errors as u128) * 100 / (self.state.total_messages_received
                as u128);
            if q > u64::MAX as u128 {
                u64::MAX
            } else {
                q as u64
            }
        } else {
            0
        }
    }

    /// Whole seconds since the run started; zero when stopped.
    fn uptime_seconds(&self, now_ms: u64) -> (r: u64)
        ensures
            r == spec_uptime_seconds(self@.started_at_ms, now_ms),
    {
        match self.started_at_ms {
            Option::Some(t) => if now_ms >= t {
                (now_ms - t) / 1000
            } else {
                0
            },
            Option::None => 0,
        }
    }

    /// The rollup at `now_ms`.
    pub fn get_performance_metrics(&self, now_ms: u64) -> (r: PerformanceMetrics)
        ensures
            r@ == spec_metrics(self@, now_ms),
    {
        let uptime = self.uptime_seconds(now_ms);
        let mps: u64 = if uptime > 0 {
            self.state.total_messages_received / uptime
        } else {
            0
        };
        let r = PerformanceMetrics {
            total_connections: self.connection_pool.total_connections,
            peak_connections: self.connection_pool.peak_connections,
            avg_latency_ms: self.connection_pool.average_latency(),
            messages_per_second: mps,
            error_rate: self.error_rate_percent(),
            uptime_seconds: uptime,
        };
        proof {
            assert(r@ =~= spec_metrics(self@, now_ms));
        }
        r
    }

    /// One monitor pass at `now_ms`: refresh the stored uptime and report
    /// which thresholds are crossed. Client state is never touched.
    pub fn performance_tick(&mut self, now_ms: u64) -> (r: Vec<PerformanceWarning>)
        ensures
            final(self)@ == (WSServerManagerModel {
                state: WSServerStateModel {
                    uptime_seconds: spec_uptime_seconds(old(self)@.started_at_ms, now_ms),
                    ..old(self)@.state
                },
                ..old(self)@
            }),
            r@ == spec_perf_warnings(old(self)@, now_ms),
            spec_manager_wf(old(self)@) ==> spec_manager_wf(final(self)@),
    {
        let uptime = self.uptime_seconds(now_ms);
        let mps: u64 = if uptime > 0 {
            self.state.total_messages_received / uptime
        } else {
            0
        };
        let avg = self.connection_pool.average_latency();
        let rate = self.error_rate_percent();
        self.state.uptime_seconds = uptime;
        let mut warnings: Vec<PerformanceWarning> = Vec::new();
        if uptime > 0 {
            if mps > 1000 {
                warnings.push(PerformanceWarning::HighMessageRate);
            }
            if avg > 100 {
                warnings.push(PerformanceWarning::HighLatency);
            }
            if rate > 5 {
                warnings.push(PerformanceWarning::HighErrorRate);
            }
        }
        proof {
            assert(warnings@ =~= spec_perf_warnings(old(self)@, now_ms));
            assert(self@ =~= WSServerManagerModel {
                state: WSServerStateModel {
                    uptime_seconds: spec_uptime_seconds(old(self)@.started_at_ms, now_ms),
                    ..old(self)@.state
                },
                ..old(self)@
            });
        }
        warnings
    }
}

/// The tuning suggestions for a rollup, in a fixed order.
pub open spec fn spec_suggestions(m: WSServerManagerModel, now_ms: u64) -> Seq<Seq<char>> {
    (if spec_avg_latency(m.pool.connections) > 100 {
        seq!["Consider reducing message size or frequency"@]
    } else {
        Seq::empty()
    }) + (if spec_error_rate(m) > 5 {
        seq!["Check network stability and message format validation"@]
    } else {
        Seq::empty()
    }) + (if m.pool.peak_connections > 50 {
        seq!["Consider implementing connection pooling optimizations"@]
    } else {
        Seq::empty()
    })
}

/// The parts joined with a semicolon and a space between each two.
pub open spec fn spec_join_list(parts: Seq<Seq<char>>) -> Seq<char>
    decreases parts.len(),
{
    if parts.len() == 0 {
        Seq::empty()
    } else if parts.len() == 1 {
        parts.last()
    } else {
        spec_join_list(parts.drop_last()) + "; "@ + parts.last()
    }
}

/// What the tuning review answers: the suggestions, or that nothing needs
/// tuning.
pub open spec fn spec_optimize(m: WSServerManagerModel, now_ms: u64) -> Seq<char> {
    let parts = spec_suggestions(m, now_ms);
    if parts.len() == 0 {
        "WebSocket performance is optimal"@
    } else {
        "Optimization suggestions: "@ + spec_join_list(parts)
    }
}

impl WSServerManager {
    /// Review the rollup and say what, if anything, is worth tuning.
    pub fn optimize_performance(&self, now_ms: u64) -> (r: String)
        ensures
            r@ == spec_optimize(self@, now_ms),
    {
        let ghost parts = spec_suggestions(self@, now_ms);
        let avg = self.connection_pool.average_latency();
        let rate = self.error_rate_percent();
        let mut suggestions: Vec<String> = Vec::new();
        if avg > 100 {
            suggestions.push(String::from_str("Consider reducing message size or frequency"));
        }
        if rate > 5 {
            suggestions.push(
                String::from_str("Check network stability and message format validation"),
            );
        }
        if self.connection_pool.peak_connections > 50 {
            suggestions.push(
                String::from_str("Consider implementing connection pooling optimizations"),
            );
        }
        proof {
            assert(Seq::new(suggestions@.len(), |j: int| suggestions@[j]@) =~= parts);
        }
        if suggestions.len() == 0 {
            String::from_str("WebSocket performance is optimal")
        } else {
            let mut out = String::from_str("Optimization suggestions: ");
            let n = suggestions.len();
            let mut i: usize = 0;
            proof {
                assert(spec_join_list(parts.take(0)) =~= Seq::<char>::empty());
                assert(out@ + Seq::<char>::empty() =~= out@);
            }
            while i < n
                invariant
                    i <= n,
                    n == suggestions@.len(),
                    parts == spec_suggestions(self@, now_ms),
                    parts.len() == n,
                    forall|j: int| 0 <= j < n ==> (#[trigger] suggestions@[j])@ == parts[j],
                    out@ == "Optimization suggestions: "@ + spec_join_list(parts.take(i as int)),
                decreases n - i,
            {
                proof {
                    assert(parts.take(i as int + 1).drop_last() =~= parts.take(i as int));
                    assert(parts.take(i as int + 1).last() == parts[i as int]);
                }
                if i > 0 {
                    out.append("; ");
                }
                out.append(suggestions[i].as_str());
                proof {
                    assert(out@ =~= "Optimization suggestions: "@ + spec_join_list(
                        parts.take(i as int + 1),
                    ));
                }
                i = i + 1;
            }
            proof {
                assert(parts.take(n as int) =~= parts);
            }
            out
        }
    }
}

/// One member of the per-client quality map: the client's id and its
/// quality label.
pub open spec fn spec_quality_members(conns: Seq<ConnectionModel>) -> Seq<(Seq<char>, JsonModel)>
    decreases conns.len(),
{
    if conns.len() == 0 {
        Seq::empty()
    } else {
        spec_quality_members(conns.drop_last()).push(
            (conns.last().id, JsonModel::Str(spec_quality_label(conns.last().latency_ms))),
        )
    }
}

/// The status snapshot as a JSON document.
pub open spec fn spec_server_doc(st: WSServerStateModel) -> JsonModel {
    JsonModel::Obj(
        seq![
            ("is_running"@, JsonModel::Bool(st.is_running)),
            ("port"@, JsonModel::Num(spec_dec(st.port as nat))),
            ("host"@, JsonModel::Str(st.host)),
            ("connected_clients"@, JsonModel::Num(spec_dec(st.connected_clients))),
            ("total_messages_received"@, JsonModel::Num(spec_dec(st.total_messages_received as nat))),
            ("total_messages_sent"@, JsonModel::Num(spec_dec(st.total_messages_sent as nat))),
            ("errors"@, JsonModel::Num(spec_dec(st.errors as nat))),
            ("uptime_seconds"@, JsonModel::Num(spec_dec(st.uptime_seconds as nat))),
            ("started_at"@, match st.started_at {
                Option::Some(s) => JsonModel::Str(s),
                Option::None => JsonModel::Null,
            }),
        ],
    )
}

/// The rollup as a JSON document.
pub open spec fn spec_performance_doc(pm: PerformanceMetricsModel) -> JsonModel {
    JsonModel::Obj(
        seq![
            ("total_connections"@, JsonModel::Num(spec_dec(pm.total_connections as nat))),
            ("peak_connections"@, JsonModel::Num(spec_dec(pm.peak_connections))),
            ("avg_latency_ms"@, JsonModel::Num(spec_dec(pm.avg_latency_ms as nat))),
            ("messages_per_second"@, JsonModel::Num(spec_dec(pm.messages_per_second as nat))),
            ("error_rate"@, JsonModel::Num(spec_dec(pm.error_rate as nat))),
            ("uptime_seconds"@, JsonModel::Num(spec_dec(pm.uptime_seconds as nat))),
        ],
    )
}

/// The placeholder health section the host's own sensors fill in.
pub open spec fn spec_system_health_doc() -> JsonModel {
    JsonModel::Obj(
        seq![
            ("memory_usage"@, JsonModel::Str("optimal"@)),
            ("cpu_usage"@, JsonModel::Str("normal"@)),
            ("network_status"@, JsonModel::Str("stable"@)),
        ],
    )
}

/// The composite statistics document: status, rollup, the per-client
/// quality map, and the placeholder health section.
pub open spec fn spec_detailed_stats(m: WSServerManagerModel, now_ms: u64) -> JsonModel {
    JsonModel::Obj(
        seq![
            ("server"@, spec_server_doc(spec_status(m, now_ms))),
            ("performance"@, spec_performance_doc(spec_metrics(m, now_ms))),
            ("connection_qualities"@, JsonModel::Obj(spec_quality_members(m.pool.connections))),
            ("system_health"@, spec_system_health_doc()),
        ],
    )
}

impl WSServerManager {
    /// The composite statistics document the host UI renders.
    #[verifier::rlimit(100)]
    pub fn get_detailed_stats(&self, now_ms: u64) -> (r: JsonValue)
        ensures
            r@ == spec_detailed_stats(self@, now_ms),
    {
        let status = self.get_status(now_ms);
        let metrics = self.get_performance_metrics(now_ms);

        let mut server: Vec<(String, JsonValue)> = Vec::new();
        server.push((String::from_str("is_running"), JsonValue::Bool(status.is_running)));
        server.push((String::from_str("port"), JsonValue::Num(u64_string(status.port as u64))));
        server.push((String::from_str("host"), JsonValue::Str(status.host)));
        server.push(
            (
                String::from_str("connected_clients"),
                JsonValue::Num(u64_string(status.connected_clients as u64)),
            ),
        );
        server.push(
            (
                String::from_str("total_messages_received"),
                JsonValue::Num(u64_string(status.total_messages_received)),
            ),
        );
        server.push(
            (
                String::from_str("total_messages_sent"),
                JsonValue::Num(u64_string(status.total_messages_sent)),
            ),
        );
        server.push((String::from_str("errors"), JsonValue::Num(u64_string(status.errors))));
        server.push(
            (
                String::from_str("uptime_seconds"),
                JsonValue::Num(u64_string(status.uptime_seconds)),
            ),
        );
        server.push(
            (
                String::from_str("started_at"),
                match status.started_at {
                    Option::Some(s) => JsonValue::Str(s),
                    Option::None => JsonValue::Null,
                },
            ),
        );
        proof {
            reveal_with_fuel(members_model, 10);
            assert(members_model(server@) =~= spec_server_doc(spec_status(self@, now_ms))->Obj_0);
        }

        let mut performance: Vec<(String, JsonValue)> = Vec::new();
        performance.push(
            (
                String::from_str("total_connections"),
                JsonValue::Num(u64_string(metrics.total_connections)),
            ),
        );
        performance.push(
            (
                String::from_str("peak_connections"),
                JsonValue::Num(u64_string(metrics.peak_connections as u64)),
            ),
        );
        performance.push(
            (
                String::from_str("avg_latency_ms"),
                JsonValue::Num(u64_string(metrics.avg_latency_ms)),
            ),
        );
        performance.push(
            (
                String::from_str("messages_per_second"),
                JsonValue::Num(u64_string(metrics.messages_per_second)),
            ),
        );
        performance.push(
            (String::from_str("error_rate"), JsonValue::Num(u64_string(metrics.error_rate))),
        );
        performance.push(
            (
                String::from_str("uptime_seconds"),
                JsonValue::Num(u64_string(metrics.uptime_seconds)),
            ),
        );
        proof {
            reveal_with_fuel(members_model, 7);
            assert(members_model(performance@) =~= spec_performance_doc(
                spec_metrics(self@, now_ms),
            )->Obj_0);
        }

        let ghost conns = self@.pool.connections;
        let n = self.connection_pool.connections.len();
        let mut qualities: Vec<(String, JsonValue)> = Vec::new();
        let mut i: usize = 0;
        proof {
            assert(members_model(qualities@) =~= spec_quality_members(conns.take(0)));
        }
        while i < n
            invariant
                i <= n,
                n == self@.pool.connections.len(),
                conns == self@.pool.connections,
                members_model(qualities@) == spec_quality_members(conns.take(i as int)),
            decreases n - i,
        {
            proof {
                assert(conns.take(i as int + 1).drop_last() =~= conns.take(i as int));
                assert(conns.take(i as int + 1).last() == conns[i as int]);
            }
            let ghost qm = members_model(qualities@);
            let ghost prevq = qualities@;
            let c = &self.connection_pool.connections[i];
            let key = c.id.clone();
            let val = JsonValue::Str(quality_label(c.latency_ms));
            let ghost gk = key@;
            let ghost gv = val@;
            qualities.push((key, val));
            proof {
                assert(gk == conns[i as int].id);
                assert(gv == JsonModel::Str(spec_quality_label(conns[i as int].latency_ms)));
                assert(qualities@.drop_last() =~= prevq);
                assert(qualities@.last().0@ == gk);
                assert(crate::json::value_model(qualities@.last().1) == gv);
                assert(members_model(qualities@) =~= qm.push((gk, gv)));
                assert(qm.push((gk, gv)) =~= spec_quality_members(conns.take(i as int + 1)));
            }
            i = i + 1;
        }
        proof {
            assert(conns.take(n as int) =~= conns);
        }

        let mut health: Vec<(String, JsonValue)> = Vec::new();
        health.push((String::from_str("memory_usage"), JsonValue::Str(String::from_str("optimal"))));
        health.push((String::from_str("cpu_usage"), JsonValue::Str(String::from_str("normal"))));
        health.push(
            (String::from_str("network_status"), JsonValue::Str(String::from_str("stable"))),
        );
        proof {
            reveal_with_fuel(members_model, 4);
            assert(members_model(health@) =~= spec_system_health_doc()->Obj_0);
        }

        let mut top: Vec<(String, JsonValue)> = Vec::new();
        top.push((String::from_str("server"), JsonValue::Obj(server)));
        top.push((String::from_str("performance"), JsonValue::Obj(performance)));
        top.push((String::from_str("connection_qualities"), JsonValue::Obj(qualities)));
        top.push((String::from_str("system_health"), JsonValue::Obj(health)));
        let r = JsonValue::Obj(top);
        proof {
            reveal_with_fuel(members_model, 5);
            assert(members_model(top@) =~= spec_detailed_stats(self@, now_ms)->Obj_0);
        }
        r
    }
}

} // verus!
