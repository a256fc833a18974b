//! Counters and health state for application-provided exporters.
use vstd::prelude::*;

use crate::event::DcpEvent;
use crate::interval::Interval;

verus! {

/// Point-in-time DCP metrics suitable for an application-provided exporter.
#[derive(Clone, Copy, Debug, Default, PartialEq, Eq, Structural)]
pub struct DcpMetricsSnapshot {
    /// Cluster bootstrap attempts.
    pub bootstrap_attempts: u64,
    /// Successful cluster bootstraps.
    pub bootstrap_successes: u64,
    /// Failed cluster bootstraps or health probes.
    pub bootstrap_failures: u64,
    /// Accepted topology revisions.
    pub topology_updates: u64,
    /// Stream-generation reconnects.
    pub reconnects: u64,
    /// Health probe attempts.
    pub health_checks: u64,
    /// Failed health probes.
    pub health_failures: u64,
    /// Currently open node-level DCP connections.
    pub active_connections: u64,
    /// vBuckets owned by the active subscription.
    pub assigned_vbuckets: u64,
    /// Events yielded to the application.
    pub delivered_events: u64,
    /// Mutation deliveries.
    pub mutations: u64,
    /// Deletion deliveries.
    pub deletions: u64,
    /// Expiration deliveries.
    pub expirations: u64,
    /// Snapshot-marker deliveries.
    pub snapshot_markers: u64,
    /// Filtered progress deliveries.
    pub seqno_advanced_events: u64,
    /// Collection/scope system-event deliveries.
    pub system_events: u64,
    /// Stream-end deliveries.
    pub stream_ends: u64,
    /// OSO markers observed even though OSO is not enabled.
    pub oso_snapshots: u64,
    /// Deliveries explicitly marked processed by the application.
    pub processed_events: u64,
    /// Raw future frames observed by the runtime.
    pub unknown_frames: u64,
    /// Runtime stream failures.
    pub stream_errors: u64,
    /// Events discarded by a connection-generation fence.
    pub stale_generation_drops: u64,
    /// Explicit rollback rewinds accepted by policy.
    pub rollbacks: u64,
    /// Deliveries delayed until every available vBucket copy persisted them.
    pub rollback_mitigation_delays: u64,
    /// Bounded stalls or history changes reported by rollback mitigation.
    pub rollback_mitigation_failures: u64,
}

/// Lifecycle and delivery counters owned by one DCP client.
#[derive(Debug)]
pub struct DcpMetrics {
    counters: DcpMetricsSnapshot,
}

/// Counter after one more occurrence.
pub open spec fn counted(n: u64) -> u64 {
    if n == u64::MAX {
        0
    } else {
        (n + 1) as u64
    }
}

fn increment(n: u64) -> (result: u64)
    ensures
        result == counted(n),
{
    if n == u64::MAX {
        0
    } else {
        n + 1
    }
}

/// Counters after the delivery of an event: its own kind and the total.
pub open spec fn delivered(c: DcpMetricsSnapshot, event: DcpEvent) -> DcpMetricsSnapshot {
    let d = DcpMetricsSnapshot { delivered_events: counted(c.delivered_events), ..c };
    match event {
        DcpEvent::Mutation(_) => DcpMetricsSnapshot { mutations: counted(c.mutations), ..d },
        DcpEvent::Deletion(_) => DcpMetricsSnapshot { deletions: counted(c.deletions), ..d },
        DcpEvent::Expiration(_) => DcpMetricsSnapshot { expirations: counted(c.expirations), ..d },
        DcpEvent::SnapshotMarker(_) => DcpMetricsSnapshot {
            snapshot_markers: counted(c.snapshot_markers),
            ..d
        },
        DcpEvent::StreamEnd(_) => DcpMetricsSnapshot { stream_ends: counted(c.stream_ends), ..d },
        DcpEvent::SeqNoAdvanced(_) => DcpMetricsSnapshot {
            seqno_advanced_events: counted(c.seqno_advanced_events),
            ..d
        },
        DcpEvent::SystemEvent(_) => DcpMetricsSnapshot {
            system_events: counted(c.system_events),
            ..d
        },
        DcpEvent::OsoSnapshot(_) => DcpMetricsSnapshot {
            oso_snapshots: counted(c.oso_snapshots),
            ..d
        },
    }
}

impl Default for DcpMetrics {
    fn default() -> (result: Self)
        ensures
            result.values() == zeroed(),
    {
        DcpMetrics {
            counters: DcpMetricsSnapshot {
                bootstrap_attempts: 0,
                bootstrap_successes: 0,
                bootstrap_failures: 0,
                topology_updates: 0,
                reconnects: 0,
                health_checks: 0,
                health_failures: 0,
                active_connections: 0,
                assigned_vbuckets: 0,
                delivered_events: 0,
                mutations: 0,
                deletions: 0,
                expirations: 0,
                snapshot_markers: 0,
                seqno_advanced_events: 0,
                system_events: 0,
                stream_ends: 0,
                oso_snapshots: 0,
                processed_events: 0,
                unknown_frames: 0,
                stream_errors: 0,
                stale_generation_drops: 0,
                rollbacks: 0,
                rollback_mitigation_delays: 0,
                rollback_mitigation_failures: 0,
            },
        }
    }
}

/// Counters of a client that did nothing yet.
pub open spec fn zeroed() -> DcpMetricsSnapshot {
    DcpMetricsSnapshot {
        bootstrap_attempts: 0,
        bootstrap_successes: 0,
        bootstrap_failures: 0,
        topology_updates: 0,
        reconnects: 0,
        health_checks: 0,
        health_failures: 0,
        active_connections: 0,
        assigned_vbuckets: 0,
        delivered_events: 0,
        mutations: 0,
        deletions: 0,
        expirations: 0,
        snapshot_markers: 0,
        seqno_advanced_events: 0,
        system_events: 0,
        stream_ends: 0,
        oso_snapshots: 0,
        processed_events: 0,
        unknown_frames: 0,
        stream_errors: 0,
        stale_generation_drops: 0,
        rollbacks: 0,
        rollback_mitigation_delays: 0,
        rollback_mitigation_failures: 0,
    }
}

/// Deliveries of every kind together.
pub open spec fn deliveries(c: DcpMetricsSnapshot) -> int {
    c.mutations + c.deletions + c.expirations + c.snapshot_markers + c.seqno_advanced_events
        + c.system_events + c.stream_ends + c.oso_snapshots
}

/// Each delivery counts under exactly one kind: the kinds add up to the total,
/// from the start and after every delivery, until the total wraps around.
pub proof fn deliveries_add_up(c: DcpMetricsSnapshot, event: DcpEvent)
    ensures
        deliveries(zeroed()) == zeroed().delivered_events,
        deliveries(c) == c.delivered_events && c.delivered_events < u64::MAX ==> deliveries(
            delivered(c, event),
        ) == delivered(c, event).delivered_events,
{
}

impl DcpMetrics {
    /// All counters and gauges.
    pub closed spec fn values(&self) -> DcpMetricsSnapshot {
        self.counters
    }

    /// Captures all counters and gauges.
    #[must_use]
    pub fn snapshot(&self) -> (result: DcpMetricsSnapshot)
        ensures
            result == self.values(),
    {
        self.counters
    }

    /// Counts: cluster bootstrap attempts.
    pub fn record_bootstrap_attempt(&mut self)
        ensures
            final(self).values() == (DcpMetricsSnapshot {
                bootstrap_attempts: counted(old(self).values().bootstrap_attempts),
                ..old(self).values()
            }),
    {
        self.counters.bootstrap_attempts = increment(self.counters.bootstrap_attempts);
    }

    /// Counts: successful cluster bootstraps.
    pub fn record_bootstrap_success(&mut self)
        ensures
            final(self).values() == (DcpMetricsSnapshot {
                bootstrap_successes: counted(old(self).values().bootstrap_successes),
                ..old(self).values()
            }),
    {
        self.counters.bootstrap_successes = increment(self.counters.bootstrap_successes);
    }

    /// Counts: failed cluster bootstraps or health probes.
    pub fn record_bootstrap_failure(&mut self)
        ensures
            final(self).values() == (DcpMetricsSnapshot {
                bootstrap_failures: counted(old(self).values().bootstrap_failures),
                ..old(self).values()
            }),
    {
        self.counters.bootstrap_failures = increment(self.counters.bootstrap_failures);
    }

    /// Counts: accepted topology revisions.
    pub fn record_topology_update(&mut self)
        ensures
            final(self).values() == (DcpMetricsSnapshot {
                topology_updates: counted(old(self).values().topology_updates),
                ..old(self).values()
            }),
    {
        self.counters.topology_updates = increment(self.counters.topology_updates);
    }

    /// Counts: stream-generation reconnects.
    pub fn record_reconnect(&mut self)
        ensures
            final(self).values() == (DcpMetricsSnapshot {
                reconnects: counted(old(self).values().reconnects),
                ..old(self).values()
            }),
    {
        self.counters.reconnects = increment(self.counters.reconnects);
    }

    /// Counts: health probe attempts.
    pub fn record_health_check(&mut self)
        ensures
            final(self).values() == (DcpMetricsSnapshot {
                health_checks: counted(old(self).values().health_checks),
                ..old(self).values()
            }),
    {
        self.counters.health_checks = increment(self.counters.health_checks);
    }

    /// Counts: failed health probes.
    pub fn record_health_failure(&mut self)
        ensures
            final(self).values() == (DcpMetricsSnapshot {
                health_failures: counted(old(self).values().health_failures),
                ..old(self).values()
            }),
    {
        self.counters.health_failures = increment(self.counters.health_failures);
    }

    /// Counts: deliveries explicitly marked processed by the application.
    pub fn record_processed(&mut self)
        ensures
            final(self).values() == (DcpMetricsSnapshot {
                processed_events: counted(old(self).values().processed_events),
                ..old(self).values()
            }),
    {
        self.counters.processed_events = increment(self.counters.processed_events);
    }

    /// Counts: raw future frames observed by the runtime.
    pub fn record_unknown_frame(&mut self)
        ensures
            final(self).values() == (DcpMetricsSnapshot {
                unknown_frames: counted(old(self).values().unknown_frames),
                ..old(self).values()
            }),
    {
        self.counters.unknown_frames = increment(self.counters.unknown_frames);
    }

    /// Counts: runtime stream failures.
    pub fn record_stream_error(&mut self)
        ensures
            final(self).values() == (DcpMetricsSnapshot {
                stream_errors: counted(old(self).values().stream_errors),
                ..old(self).values()
            }),
    {
        self.counters.stream_errors = increment(self.counters.stream_errors);
    }

    /// Counts: events discarded by a connection-generation fence.
    pub fn record_stale_generation_drop(&mut self)
        ensures
            final(self).values() == (DcpMetricsSnapshot {
                stale_generation_drops: counted(old(self).values().stale_generation_drops),
                ..old(self).values()
            }),
    {
        self.counters.stale_generation_drops = increment(self.counters.stale_generation_drops);
    }

    /// Counts: deliveries delayed until every available vBucket copy persisted them.
    pub fn record_rollback_mitigation_delay(&mut self)
        ensures
            final(self).values() == (DcpMetricsSnapshot {
                rollback_mitigation_delays: counted(old(self).values().rollback_mitigation_delays),
                ..old(self).values()
            }),
    {
        self.counters.rollback_mitigation_delays = increment(self.counters.rollback_mitigation_delays);
    }

    /// Counts: bounded stalls or history changes reported by rollback mitigation.
    pub fn record_rollback_mitigation_failure(&mut self)
        ensures
            final(self).values() == (DcpMetricsSnapshot {
                rollback_mitigation_failures: counted(old(self).values().rollback_mitigation_failures),
                ..old(self).values()
            }),
    {
        self.counters.rollback_mitigation_failures = increment(self.counters.rollback_mitigation_failures);
    }

    /// Sets: currently open node-level DCP connections.
    pub fn set_active_connections(&mut self, connections: u64)
        ensures
            final(self).values() == (DcpMetricsSnapshot {
                active_connections: connections,
                ..old(self).values()
            }),
    {
        self.counters.active_connections = connections;
    }

    /// Sets: vBuckets owned by the active subscription.
    pub fn set_assigned_vbuckets(&mut self, vbuckets: u64)
        ensures
            final(self).values() == (DcpMetricsSnapshot {
                assigned_vbuckets: vbuckets,
                ..old(self).values()
            }),
    {
        self.counters.assigned_vbuckets = vbuckets;
    }

    /// Counts a delivered event.
    pub fn record_delivery(&mut self, event: &DcpEvent)
        ensures
            final(self).values() == delivered(old(self).values(), *event),
    {
        self.counters.delivered_events = increment(self.counters.delivered_events);
        match event {
            DcpEvent::Mutation(_) => {
                self.counters.mutations = increment(self.counters.mutations);
            },
            DcpEvent::Deletion(_) => {
                self.counters.deletions = increment(self.counters.deletions);
            },
            DcpEvent::Expiration(_) => {
                self.counters.expirations = increment(self.counters.expirations);
            },
            DcpEvent::SnapshotMarker(_) => {
                self.counters.snapshot_markers = increment(self.counters.snapshot_markers);
            },
            DcpEvent::StreamEnd(_) => {
                self.counters.stream_ends = increment(self.counters.stream_ends);
            },
            DcpEvent::SeqNoAdvanced(_) => {
                self.counters.seqno_advanced_events = increment(
                    self.counters.seqno_advanced_events,
                );
            },
            DcpEvent::SystemEvent(_) => {
                self.counters.system_events = increment(self.counters.system_events);
            },
            DcpEvent::OsoSnapshot(_) => {
                self.counters.oso_snapshots = increment(self.counters.oso_snapshots);
            },
        }
    }

    /// Counts accepted rewinds; the counter saturates.
    pub fn record_rollbacks(&mut self, count: usize)
        ensures
            final(self).values() == (DcpMetricsSnapshot {
                rollbacks: if old(self).values().rollbacks + count > u64::MAX {
                    u64::MAX
                } else {
                    (old(self).values().rollbacks + count) as u64
                },
                ..old(self).values()
            }),
    {
        self.counters.rollbacks = self.counters.rollbacks.saturating_add(count as u64);
    }
}

/// Overall health state of the client and its current subscription.
#[derive(Clone, Copy, Debug, Default, PartialEq, Eq, Structural)]
pub enum DcpHealthStatus {
    /// Initial bootstrap or subscription setup is in progress.
    #[default]
    Starting,
    /// The most recent probe succeeded.
    Healthy,
    /// The most recent probe or stream generation failed.
    Degraded,
    /// The client was explicitly closed.
    Stopped,
}

/// Point-in-time health data with no built-in HTTP server or exporter.
#[derive(Debug, Eq, PartialEq)]
pub struct DcpHealthSnapshot {
    /// Current health classification.
    pub status: DcpHealthStatus,
    /// Time since the Unix epoch of the most recent probe or state transition.
    pub last_check: Option<Interval>,
    /// Consecutive probe/runtime failures since the last success.
    pub consecutive_failures: u64,
    /// Currently open node-level DCP connections.
    pub active_connections: u64,
    /// Current local topology generation.
    pub topology_generation: u64,
    /// Most recent failure or stop context.
    pub message: Option<String>,
}

/// Content of health data.
pub struct HealthModel {
    pub status: DcpHealthStatus,
    pub last_check: Option<Interval>,
    pub consecutive_failures: u64,
    pub active_connections: u64,
    pub topology_generation: u64,
    pub message: Option<Seq<char>>,
}

impl View for DcpHealthSnapshot {
    type V = HealthModel;

    open spec fn view(&self) -> HealthModel {
        HealthModel {
            status: self.status,
            last_check: self.last_check,
            consecutive_failures: self.consecutive_failures,
            active_connections: self.active_connections,
            topology_generation: self.topology_generation,
            message: crate::text::opt_text(self.message),
        }
    }
}

/// Health handle polled by application-provided status exporters.
#[derive(Debug)]
pub struct DcpHealth {
    state: DcpHealthSnapshot,
}

impl Default for DcpHealth {
    fn default() -> (result: Self)
        ensures
            result.values() == (HealthModel {
                status: DcpHealthStatus::Starting,
                last_check: None,
                consecutive_failures: 0,
                active_connections: 0,
                topology_generation: 0,
                message: None,
            }),
    {
        DcpHealth {
            state: DcpHealthSnapshot {
                status: DcpHealthStatus::Starting,
                last_check: None,
                consecutive_failures: 0,
                active_connections: 0,
                topology_generation: 0,
                message: None,
            },
        }
    }
}

impl DcpHealth {
    /// Latest health state.
    pub closed spec fn values(&self) -> HealthModel {
        self.state@
    }

    /// Captures the latest health state.
    #[must_use]
    pub fn snapshot(&self) -> (result: DcpHealthSnapshot)
        ensures
            result@ == self.values(),
    {
        DcpHealthSnapshot {
            status: self.state.status,
            last_check: self.state.last_check,
            consecutive_failures: self.state.consecutive_failures,
            active_connections: self.state.active_connections,
            topology_generation: self.state.topology_generation,
            message: crate::text::copy_opt_text(&self.state.message),
        }
    }

    /// Records a successful probe.
    pub fn record_success(
        &mut self,
        checked_at: Interval,
        active_connections: u64,
        topology_generation: u64,
    )
        ensures
            final(self).values() == (HealthModel {
                status: DcpHealthStatus::Healthy,
                last_check: Some(checked_at),
                consecutive_failures: 0,
                active_connections,
                topology_generation,
                message: None,
            }),
    {
        self.state = DcpHealthSnapshot {
            status: DcpHealthStatus::Healthy,
            last_check: Some(checked_at),
            consecutive_failures: 0,
            active_connections,
            topology_generation,
            message: None,
        };
    }

    /// Records a failed probe or stream generation.
    pub fn record_failure(&mut self, checked_at: Interval, message: String)
        ensures
            final(self).values() == (HealthModel {
                status: DcpHealthStatus::Degraded,
                last_check: Some(checked_at),
                consecutive_failures: if old(self).values().consecutive_failures == u64::MAX {
                    u64::MAX
                } else {
                    (old(self).values().consecutive_failures + 1) as u64
                },
                message: Some(message@),
                ..old(self).values()
            }),
    {
        self.state.status = DcpHealthStatus::Degraded;
        self.state.last_check = Some(checked_at);
        self.state.consecutive_failures = self.state.consecutive_failures.saturating_add(1);
        self.state.message = Some(message);
    }

    /// Records that the client was closed.
    pub fn record_stopped(&mut self, checked_at: Interval)
        ensures
            final(self).values() == (HealthModel {
                status: DcpHealthStatus::Stopped,
                last_check: Some(checked_at),
                active_connections: 0,
                message: Some("client stopped"@),
                ..old(self).values()
            }),
    {
        self.state.status = DcpHealthStatus::Stopped;
        self.state.last_check = Some(checked_at);
        self.state.active_connections = 0;
        self.state.message = Some("client stopped".to_owned());
    }
}

} // verus!
