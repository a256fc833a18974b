//! Laws of metrics and health.
use vstd::prelude::*;

use crate::event::DcpEvent;
use crate::interval::Interval;
use crate::observability::{
    DcpHealth, DcpHealthSnapshot, DcpHealthStatus, DcpMetrics, DcpMetricsSnapshot,
};
use crate::text::opt_text;

verus! {

/// A counter went up by one, or started again at zero.
pub open spec fn one_more(before: u64, after: u64) -> bool {
    after == before + 1 || (before == u64::MAX && after == 0)
}

/// A delivery counts once, and once for its kind; no other counter moves.
pub proof fn deliveries_are_counted_by_kind(
    metrics: &mut DcpMetrics,
    event: DcpEvent,
    before: DcpMetricsSnapshot,
    after: DcpMetricsSnapshot,
)
    requires
        call_ensures(DcpMetrics::record_delivery, (metrics, &event), ()),
        call_ensures(DcpMetrics::snapshot, (old(metrics),), before),
        call_ensures(DcpMetrics::snapshot, (final(metrics),), after),
    ensures
        one_more(before.delivered_events, after.delivered_events),
        event is Mutation ==> one_more(before.mutations, after.mutations),
        event is Deletion ==> one_more(before.deletions, after.deletions),
        event is Expiration ==> one_more(before.expirations, after.expirations),
        event is SnapshotMarker ==> one_more(before.snapshot_markers, after.snapshot_markers),
        event is StreamEnd ==> one_more(before.stream_ends, after.stream_ends),
        event is SeqNoAdvanced ==> one_more(
            before.seqno_advanced_events,
            after.seqno_advanced_events,
        ),
        event is SystemEvent ==> one_more(before.system_events, after.system_events),
        event is OsoSnapshot ==> one_more(before.oso_snapshots, after.oso_snapshots),
        !(event is Mutation) ==> after.mutations == before.mutations,
        !(event is Deletion) ==> after.deletions == before.deletions,
        !(event is Expiration) ==> after.expirations == before.expirations,
        !(event is SnapshotMarker) ==> after.snapshot_markers == before.snapshot_markers,
        !(event is StreamEnd) ==> after.stream_ends == before.stream_ends,
        !(event is SeqNoAdvanced) ==> after.seqno_advanced_events == before.seqno_advanced_events,
        !(event is SystemEvent) ==> after.system_events == before.system_events,
        !(event is OsoSnapshot) ==> after.oso_snapshots == before.oso_snapshots,
        after.processed_events == before.processed_events,
        after.stream_errors == before.stream_errors,
        after.stale_generation_drops == before.stale_generation_drops,
{
}

/// Rollbacks add up, and stop at the largest number.
pub proof fn rollbacks_add_up(metrics: &mut DcpMetrics, count: usize)
    requires
        call_ensures(DcpMetrics::record_rollbacks, (metrics, count), ()),
    ensures
        old(metrics).values().rollbacks + count <= u64::MAX ==> final(metrics).values().rollbacks
            == old(metrics).values().rollbacks + count,
        old(metrics).values().rollbacks + count > u64::MAX ==> final(metrics).values().rollbacks
            == u64::MAX,
        final(metrics).values().reconnects == old(metrics).values().reconnects,
{
}

/// Bootstraps are counted, and whether they succeeded.
pub proof fn bootstraps_are_counted(
    a: &mut DcpMetrics,
    b: &mut DcpMetrics,
    c: &mut DcpMetrics,
)
    requires
        call_ensures(DcpMetrics::record_bootstrap_attempt, (a,), ()),
        call_ensures(DcpMetrics::record_bootstrap_success, (b,), ()),
        call_ensures(DcpMetrics::record_bootstrap_failure, (c,), ()),
    ensures
        one_more(old(a).values().bootstrap_attempts, final(a).values().bootstrap_attempts),
        final(a).values().bootstrap_successes == old(a).values().bootstrap_successes,
        one_more(old(b).values().bootstrap_successes, final(b).values().bootstrap_successes),
        final(b).values().bootstrap_failures == old(b).values().bootstrap_failures,
        one_more(old(c).values().bootstrap_failures, final(c).values().bootstrap_failures),
        final(c).values().bootstrap_successes == old(c).values().bootstrap_successes,
{
}

/// Topology updates, reconnects and health checks are counted apart.
pub proof fn upkeep_is_counted(
    a: &mut DcpMetrics,
    b: &mut DcpMetrics,
    c: &mut DcpMetrics,
    d: &mut DcpMetrics,
)
    requires
        call_ensures(DcpMetrics::record_topology_update, (a,), ()),
        call_ensures(DcpMetrics::record_reconnect, (b,), ()),
        call_ensures(DcpMetrics::record_health_check, (c,), ()),
        call_ensures(DcpMetrics::record_health_failure, (d,), ()),
    ensures
        one_more(old(a).values().topology_updates, final(a).values().topology_updates),
        one_more(old(b).values().reconnects, final(b).values().reconnects),
        one_more(old(c).values().health_checks, final(c).values().health_checks),
        final(c).values().health_failures == old(c).values().health_failures,
        one_more(old(d).values().health_failures, final(d).values().health_failures),
        final(d).values().health_checks == old(d).values().health_checks,
{
}

/// Processed events, unknown frames, stream errors and dropped deliveries are
/// counted apart.
pub proof fn stream_outcomes_are_counted(
    a: &mut DcpMetrics,
    b: &mut DcpMetrics,
    c: &mut DcpMetrics,
    d: &mut DcpMetrics,
)
    requires
        call_ensures(DcpMetrics::record_processed, (a,), ()),
        call_ensures(DcpMetrics::record_unknown_frame, (b,), ()),
        call_ensures(DcpMetrics::record_stream_error, (c,), ()),
        call_ensures(DcpMetrics::record_stale_generation_drop, (d,), ()),
    ensures
        one_more(old(a).values().processed_events, final(a).values().processed_events),
        final(a).values().delivered_events == old(a).values().delivered_events,
        one_more(old(b).values().unknown_frames, final(b).values().unknown_frames),
        final(b).values().stream_errors == old(b).values().stream_errors,
        one_more(old(c).values().stream_errors, final(c).values().stream_errors),
        final(c).values().unknown_frames == old(c).values().unknown_frames,
        one_more(
            old(d).values().stale_generation_drops,
            final(d).values().stale_generation_drops,
        ),
        final(d).values().delivered_events == old(d).values().delivered_events,
{
}

/// Mitigation delays and failures are counted apart, and the two gauges hold
/// what they were set to.
pub proof fn mitigation_is_counted(
    a: &mut DcpMetrics,
    b: &mut DcpMetrics,
    c: &mut DcpMetrics,
    connections: u64,
    d: &mut DcpMetrics,
    vbuckets: u64,
)
    requires
        call_ensures(DcpMetrics::record_rollback_mitigation_delay, (a,), ()),
        call_ensures(DcpMetrics::record_rollback_mitigation_failure, (b,), ()),
        call_ensures(DcpMetrics::set_active_connections, (c, connections), ()),
        call_ensures(DcpMetrics::set_assigned_vbuckets, (d, vbuckets), ()),
    ensures
        one_more(
            old(a).values().rollback_mitigation_delays,
            final(a).values().rollback_mitigation_delays,
        ),
        final(a).values().rollback_mitigation_failures
            == old(a).values().rollback_mitigation_failures,
        one_more(
            old(b).values().rollback_mitigation_failures,
            final(b).values().rollback_mitigation_failures,
        ),
        final(b).values().rollback_mitigation_delays == old(b).values().rollback_mitigation_delays,
        final(c).values().active_connections == connections,
        final(c).values().assigned_vbuckets == old(c).values().assigned_vbuckets,
        final(d).values().assigned_vbuckets == vbuckets,
        final(d).values().active_connections == old(d).values().active_connections,
{
}

/// A success makes the health good and forgets the failures.
pub proof fn successes_make_healthy(
    health: &mut DcpHealth,
    at: Interval,
    connections: u64,
    generation: u64,
    after: DcpHealthSnapshot,
)
    requires
        call_ensures(DcpHealth::record_success, (health, at, connections, generation), ()),
        call_ensures(DcpHealth::snapshot, (final(health),), after),
    ensures
        after.status == DcpHealthStatus::Healthy,
        after.last_check == Some(at),
        after.consecutive_failures == 0,
        after.active_connections == connections,
        after.topology_generation == generation,
        after.message is None,
{
    assert(after@.message == opt_text(after.message));
}

/// A failure degrades the health, is counted, and tells its message; what was
/// known of connections and topology stays.
pub proof fn failures_degrade(
    health: &mut DcpHealth,
    at: Interval,
    message: String,
    before: DcpHealthSnapshot,
    after: DcpHealthSnapshot,
)
    requires
        call_ensures(DcpHealth::record_failure, (health, at, message), ()),
        call_ensures(DcpHealth::snapshot, (old(health),), before),
        call_ensures(DcpHealth::snapshot, (final(health),), after),
    ensures
        after.status == DcpHealthStatus::Degraded,
        after.last_check == Some(at),
        before.consecutive_failures < u64::MAX ==> after.consecutive_failures
            == before.consecutive_failures + 1,
        before.consecutive_failures == u64::MAX ==> after.consecutive_failures == u64::MAX,
        after.active_connections == before.active_connections,
        after.topology_generation == before.topology_generation,
        opt_text(after.message) == Some(message@),
{
    assert(after@.consecutive_failures == after.consecutive_failures);
    assert(before@.consecutive_failures == before.consecutive_failures);
}

/// A stopped client has no connections left.
pub proof fn stopped_clients_have_no_connections(
    health: &mut DcpHealth,
    at: Interval,
    after: DcpHealthSnapshot,
)
    requires
        call_ensures(DcpHealth::record_stopped, (health, at), ()),
        call_ensures(DcpHealth::snapshot, (final(health),), after),
    ensures
        after.status == DcpHealthStatus::Stopped,
        after.last_check == Some(at),
        after.active_connections == 0,
{
    assert(after@.active_connections == after.active_connections);
}

} // verus!
