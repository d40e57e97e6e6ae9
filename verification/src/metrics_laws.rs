//! What the metrics of a mesh tell.

use vstd::prelude::*;
use vstd::string::*;
use crate::alerts::MeshAlert;
use crate::api::MeshApiSnapshot;
use crate::edge::EdgeServiceSnapshot;
use crate::histogram::{EDGE_RESPONSE_DURATION_BUCKETS_US, PUBLICATION_AVAILABILITY_BUCKETS_US};
use crate::mesh::MeshNode;
use crate::metrics::{
    alert_labels, alerts_section, datagrams_section, edge_labels, edges_section, epoch_section,
    escaped, failover_commands_section, failover_section, failover_state_section,
    fec_kinds_section, fec_section, forward_time_section, forwarding_section,
    longest_activation_delay, mesh_metrics, mesh_section, node_labels, nodes_section,
    processing_section, publication_section, response_times_section, sessions_section,
    stream_labels, streams_section, topology_section, transport_section, with_alerts,
    with_all_response_times, with_buckets, with_edge, with_edges, with_header, with_node,
    with_nodes, with_response_buckets, with_response_times, with_sample, with_stream, with_streams,
    Fractions, StreamFractions, EDGE_RESPONSE_DURATION_BUCKETS_SECONDS,
};
use crate::relay_snapshot::RelayFailoverControllerState;
use crate::streams::{divergent_count, telemetry_views, StreamTelemetry};
use crate::text::decimal;

verus! {

/// A line of the metrics: a name, its labels in braces where there are any, and a value.
pub open spec fn metric_line(name: Seq<char>, labels: Seq<char>, value: Seq<char>) -> Seq<char> {
    if labels.len() == 0 {
        name + " "@ + value + "\n"@
    } else {
        name + "{"@ + labels + "} "@ + value + "\n"@
    }
}

/// Whether a text holds a line.
#[verifier::opaque]
pub open spec fn tells(text: Seq<char>, line: Seq<char>) -> bool {
    exists|a: int|
        0 <= a && a + line.len() <= text.len() && #[trigger] text.subrange(a, a + line.len())
            == line
}

/// Whether a text goes on where another ends.
#[verifier::opaque]
spec fn goes_on(text: Seq<char>, longer: Seq<char>) -> bool {
    text.len() <= longer.len() && longer.take(text.len() as int) == text
}

/// Whether a text tells a number under a name and its labels.
pub open spec fn tells_number(
    text: Seq<char>,
    name: Seq<char>,
    labels: Seq<char>,
    number: nat,
) -> bool {
    tells(text, metric_line(name, labels, decimal(number)))
}

broadcast proof fn lemma_stays(text: Seq<char>, longer: Seq<char>, line: Seq<char>)
    requires
        #[trigger] tells(text, line),
        #[trigger] goes_on(text, longer),
    ensures
        tells(longer, line),
{
    reveal(tells);
    reveal(goes_on);
    let a = choose|a: int|
        0 <= a && a + line.len() <= text.len() && #[trigger] text.subrange(a, a + line.len())
            == line;
    assert(longer.subrange(a, a + line.len()) =~= longer.take(text.len() as int).subrange(
        a,
        a + line.len(),
    ));
}

broadcast proof fn lemma_on(a: Seq<char>, b: Seq<char>, c: Seq<char>)
    requires
        #[trigger] goes_on(a, b),
        #[trigger] goes_on(b, c),
    ensures
        goes_on(a, c),
{
    reveal(goes_on);
    assert(c.take(a.len() as int) =~= c.take(b.len() as int).take(a.len() as int));
}

proof fn lemma_same(a: Seq<char>)
    ensures
        goes_on(a, a),
{
    reveal(goes_on);
    assert(a.take(a.len() as int) =~= a);
}

broadcast proof fn lemma_header(t: Seq<char>, name: Seq<char>, help: Seq<char>, kind: Seq<char>)
    ensures
        goes_on(t, #[trigger] with_header(t, name, help, kind)),
{
    reveal(goes_on);
    assert(with_header(t, name, help, kind).take(t.len() as int) =~= t);
}

broadcast proof fn lemma_sample(
    t: Seq<char>,
    name: Seq<char>,
    labels: Seq<char>,
    value: Seq<char>,
)
    ensures
        #![trigger with_sample(t, name, labels, value)]
        goes_on(t, with_sample(t, name, labels, value)),
        tells(with_sample(t, name, labels, value), metric_line(name, labels, value)),
{
    reveal(goes_on);
    reveal(tells);
    let u = with_sample(t, name, labels, value);
    let line = metric_line(name, labels, value);
    assert(u.take(t.len() as int) =~= t);
    let a = t.len() as int;
    assert(u =~= t + line);
    assert(u.subrange(a, a + line.len()) =~= line);
}

broadcast proof fn lemma_buckets(
    t: Seq<char>,
    name: Seq<char>,
    bounds: Seq<u64>,
    counts: Seq<u64>,
    k: int,
)
    ensures
        #![trigger with_buckets(t, name, bounds, counts, k)]
        goes_on(t, with_buckets(t, name, bounds, counts, k)),
        tells_buckets(with_buckets(t, name, bounds, counts, k), name, bounds, counts, k),
    decreases k,
{
    reveal(tells_buckets);
    if k <= 0 {
        lemma_same(t);
    } else {
        let before = with_buckets(t, name, bounds, counts, k - 1);
        let after = with_buckets(t, name, bounds, counts, k);
        lemma_buckets(t, name, bounds, counts, k - 1);
        lemma_sample(
            before,
            name,
            "le=\""@ + decimal(bounds[k - 1] as nat) + "\""@,
            decimal(counts[k - 1] as nat),
        );
        lemma_on(t, before, after);
        lemma_buckets_stay(before, after, name, bounds, counts, k - 1);
    }
}

/// Whether a text tells the counts of some buckets, each by its bound.
#[verifier::opaque]
pub open spec fn tells_buckets(
    text: Seq<char>,
    name: Seq<char>,
    bounds: Seq<u64>,
    counts: Seq<u64>,
    k: int,
) -> bool {
    forall|i: int|
        0 <= i < k ==> tells_number(
            text,
            name,
            "le=\""@ + decimal(#[trigger] bounds[i] as nat) + "\""@,
            counts[i] as nat,
        )
}

broadcast proof fn lemma_buckets_stay(
    text: Seq<char>,
    longer: Seq<char>,
    name: Seq<char>,
    bounds: Seq<u64>,
    counts: Seq<u64>,
    k: int,
)
    requires
        #[trigger] tells_buckets(text, name, bounds, counts, k),
        #[trigger] goes_on(text, longer),
    ensures
        tells_buckets(longer, name, bounds, counts, k),
{
    reveal(tells_buckets);
    broadcast use lemma_stays;

    assert forall|i: int| 0 <= i < k implies tells_number(
        longer,
        name,
        "le=\""@ + decimal(#[trigger] bounds[i] as nat) + "\""@,
        counts[i] as nat,
    ) by {
        let labels = "le=\""@ + decimal(bounds[i] as nat) + "\""@;
        assert(tells(text, metric_line(name, labels, decimal(counts[i] as nat))));
    }
}

/// Whether a text tells the sums of a mesh, each under its own name.
#[verifier::opaque]
pub open spec fn tells_sums(text: Seq<char>, snapshot: MeshApiSnapshot) -> bool {
    &&& tells_number(text, "av_mesh_nodes"@, ""@, snapshot.aggregate.node_count as nat)
    &&& tells_number(text, "av_mesh_connections"@, ""@, snapshot.aggregate.connection_count as nat)
    &&& tells_number(
        text,
        "av_mesh_storage_bytes"@,
        ""@,
        snapshot.aggregate.total_storage_bytes as nat,
    )
    &&& tells_number(
        text,
        "av_mesh_storage_used_bytes"@,
        ""@,
        snapshot.aggregate.used_storage_bytes as nat,
    )
    &&& tells_number(
        text,
        "av_mesh_egress_capacity_bps"@,
        ""@,
        snapshot.aggregate.total_egress_capacity_bps as nat,
    )
    &&& tells_number(
        text,
        "av_mesh_contributor_streams"@,
        ""@,
        snapshot.aggregate.contributor_streams as nat,
    )
    &&& tells_number(text, "av_mesh_active_streams"@, ""@, snapshot.aggregate.active_streams as nat)
    &&& tells_number(
        text,
        "av_mesh_planned_replicas"@,
        ""@,
        snapshot.planned_replicas@.len() as nat,
    )
}

proof fn lemma_mesh(t: Seq<char>, snapshot: MeshApiSnapshot)
    ensures
        goes_on(t, mesh_section(t, snapshot)),
        tells_sums(mesh_section(t, snapshot), snapshot),
{
    reveal(tells_sums);
    broadcast use {
        lemma_stays,
        lemma_on,
        lemma_header,
        lemma_sample,
        lemma_buckets,
        lemma_buckets_stay,
    };
}

proof fn lemma_mesh_stays(text: Seq<char>, longer: Seq<char>, snapshot: MeshApiSnapshot)
    requires
        tells_sums(text, snapshot),
        goes_on(text, longer),
    ensures
        tells_sums(longer, snapshot),
{
    reveal(tells_sums);
    broadcast use {lemma_stays, lemma_buckets_stay};
}

/// Whether a text tells how the transport is set up.
#[verifier::opaque]
pub open spec fn tells_transport(
    text: Seq<char>,
    snapshot: MeshApiSnapshot,
    fractions: Fractions,
) -> bool {
    &&& tells(
        text,
        metric_line(
            "av_mesh_transport_sync_interval_seconds"@,
            ""@,
            fractions.sync_interval_seconds@,
        ),
    )
    &&& tells(
        text,
        metric_line("av_mesh_transport_fec_repair_ratio"@, ""@, fractions.repair_ratio@),
    )
    &&& tells_number(
        text,
        "av_mesh_transport_fec_min_repair_symbols"@,
        ""@,
        snapshot.mesh_transport.min_repair_symbols as nat,
    )
    &&& tells_number(
        text,
        "av_mesh_transport_fec_max_repair_symbols"@,
        ""@,
        snapshot.mesh_transport.max_repair_symbols as nat,
    )
    &&& tells_number(
        text,
        "av_mesh_transport_fec_symbol_bytes"@,
        ""@,
        snapshot.mesh_transport.symbol_size as nat,
    )
}

proof fn lemma_transport(t: Seq<char>, snapshot: MeshApiSnapshot, fractions: Fractions)
    ensures
        goes_on(t, transport_section(t, snapshot, fractions)),
        tells_transport(transport_section(t, snapshot, fractions), snapshot, fractions),
{
    reveal(tells_transport);
    broadcast use {
        lemma_stays,
        lemma_on,
        lemma_header,
        lemma_sample,
        lemma_buckets,
        lemma_buckets_stay,
    };
}

proof fn lemma_transport_stays(
    text: Seq<char>,
    longer: Seq<char>,
    snapshot: MeshApiSnapshot,
    fractions: Fractions,
)
    requires
        tells_transport(text, snapshot, fractions),
        goes_on(text, longer),
    ensures
        tells_transport(longer, snapshot, fractions),
{
    reveal(tells_transport);
    broadcast use {lemma_stays, lemma_buckets_stay};
}

/// Whether a text tells what was sent and received with repair, and what went wrong.
#[verifier::opaque]
pub open spec fn tells_repair(text: Seq<char>, snapshot: MeshApiSnapshot) -> bool {
    &&& tells_number(
        text,
        "av_mesh_fec_tx_objects_total"@,
        ""@,
        snapshot.mesh_fec.tx_objects as nat,
    )
    &&& tells_number(
        text,
        "av_mesh_fec_tx_protected_bytes_total"@,
        ""@,
        snapshot.mesh_fec.tx_protected_bytes as nat,
    )
    &&& tells_number(
        text,
        "av_mesh_fec_tx_wire_bytes_total"@,
        ""@,
        snapshot.mesh_fec.tx_wire_bytes as nat,
    )
    &&& tells_number(text, "av_mesh_fec_tx_errors_total"@, ""@, snapshot.mesh_fec.tx_errors as nat)
    &&& tells_number(
        text,
        "av_mesh_fec_rx_wire_datagrams_total"@,
        ""@,
        snapshot.mesh_fec.rx_wire_datagrams as nat,
    )
    &&& tells_number(
        text,
        "av_mesh_fec_rx_wire_bytes_total"@,
        ""@,
        snapshot.mesh_fec.rx_wire_bytes as nat,
    )
    &&& tells_number(
        text,
        "av_mesh_fec_rx_decoded_bytes_total"@,
        ""@,
        snapshot.mesh_fec.rx_decoded_bytes as nat,
    )
    &&& tells_number(
        text,
        "av_mesh_fec_rx_repaired_source_datagrams_total"@,
        ""@,
        snapshot.mesh_fec.rx_repaired_source_datagrams as nat,
    )
    &&& tells_number(
        text,
        "av_mesh_fec_rx_late_source_datagrams_total"@,
        ""@,
        snapshot.mesh_fec.rx_late_source_datagrams as nat,
    )
    &&& tells_number(
        text,
        "av_mesh_fec_rx_presumed_lost_source_datagrams_total"@,
        ""@,
        snapshot.mesh_fec.rx_presumed_lost_source_datagrams as nat,
    )
    &&& tells_number(
        text,
        "av_mesh_fec_rx_decode_errors_total"@,
        ""@,
        snapshot.mesh_fec.rx_decode_errors as nat,
    )
}

proof fn lemma_fec(t: Seq<char>, snapshot: MeshApiSnapshot)
    ensures
        goes_on(t, fec_section(t, snapshot)),
        tells_repair(fec_section(t, snapshot), snapshot),
{
    reveal(tells_repair);
    broadcast use {
        lemma_stays,
        lemma_on,
        lemma_header,
        lemma_sample,
        lemma_buckets,
        lemma_buckets_stay,
    };
}

proof fn lemma_fec_stays(text: Seq<char>, longer: Seq<char>, snapshot: MeshApiSnapshot)
    requires
        tells_repair(text, snapshot),
        goes_on(text, longer),
    ensures
        tells_repair(longer, snapshot),
{
    reveal(tells_repair);
    broadcast use {lemma_stays, lemma_buckets_stay};
}

/// Whether a text tells datagrams and objects of repair by their kind and outcome.
#[verifier::opaque]
pub open spec fn tells_repair_kinds(text: Seq<char>, snapshot: MeshApiSnapshot) -> bool {
    &&& tells_number(
        text,
        "av_mesh_fec_tx_datagrams_total"@,
        "kind=\"source\""@,
        snapshot.mesh_fec.tx_source_datagrams as nat,
    )
    &&& tells_number(
        text,
        "av_mesh_fec_tx_datagrams_total"@,
        "kind=\"repair\""@,
        snapshot.mesh_fec.tx_repair_datagrams as nat,
    )
    &&& tells_number(
        text,
        "av_mesh_fec_rx_datagrams_total"@,
        "kind=\"source\""@,
        snapshot.mesh_fec.rx_source_datagrams as nat,
    )
    &&& tells_number(
        text,
        "av_mesh_fec_rx_datagrams_total"@,
        "kind=\"repair\""@,
        snapshot.mesh_fec.rx_repair_datagrams as nat,
    )
    &&& tells_number(
        text,
        "av_mesh_fec_rx_objects_total"@,
        "outcome=\"decoded\""@,
        snapshot.mesh_fec.rx_decoded_objects as nat,
    )
    &&& tells_number(
        text,
        "av_mesh_fec_rx_objects_total"@,
        "outcome=\"repaired\""@,
        snapshot.mesh_fec.rx_repaired_objects as nat,
    )
    &&& tells_number(
        text,
        "av_mesh_fec_rx_objects_total"@,
        "outcome=\"expired\""@,
        snapshot.mesh_fec.rx_expired_objects as nat,
    )
    &&& tells_number(
        text,
        "av_mesh_fec_rx_inflight_objects"@,
        ""@,
        snapshot.mesh_fec.rx_inflight_objects as nat,
    )
}

proof fn lemma_fec_kinds(t: Seq<char>, snapshot: MeshApiSnapshot)
    ensures
        goes_on(t, fec_kinds_section(t, snapshot)),
        tells_repair_kinds(fec_kinds_section(t, snapshot), snapshot),
{
    reveal(tells_repair_kinds);
    broadcast use {
        lemma_stays,
        lemma_on,
        lemma_header,
        lemma_sample,
        lemma_buckets,
        lemma_buckets_stay,
    };
}

proof fn lemma_fec_kinds_stays(text: Seq<char>, longer: Seq<char>, snapshot: MeshApiSnapshot)
    requires
        tells_repair_kinds(text, snapshot),
        goes_on(text, longer),
    ensures
        tells_repair_kinds(longer, snapshot),
{
    reveal(tells_repair_kinds);
    broadcast use {lemma_stays, lemma_buckets_stay};
}

/// Whether a text tells the sessions of a relay by role and trust, and what they hold.
#[verifier::opaque]
pub open spec fn tells_sessions(text: Seq<char>, snapshot: MeshApiSnapshot) -> bool {
    &&& tells_number(
        text,
        "av_mesh_relay_session_parent_sessions"@,
        "role=\"primary\""@,
        snapshot.relay_session.primary_sessions as nat,
    )
    &&& tells_number(
        text,
        "av_mesh_relay_session_parent_sessions"@,
        "role=\"secondary\""@,
        snapshot.relay_session.secondary_sessions as nat,
    )
    &&& tells_number(
        text,
        "av_mesh_relay_session_security_sessions"@,
        "mode=\"authenticated\""@,
        snapshot.relay_session.authenticated_sessions as nat,
    )
    &&& tells_number(
        text,
        "av_mesh_relay_session_security_sessions"@,
        "mode=\"controlled_qualification\""@,
        snapshot.relay_session.controlled_sessions as nat,
    )
    &&& tells_number(
        text,
        "av_mesh_relay_session_active_objects"@,
        ""@,
        snapshot.relay_session.active_objects as nat,
    )
    &&& tells_number(
        text,
        "av_mesh_relay_session_completed_objects"@,
        ""@,
        snapshot.relay_session.completed_objects as nat,
    )
    &&& tells_number(
        text,
        "av_mesh_relay_session_active_object_bytes"@,
        ""@,
        snapshot.relay_session.active_object_bytes as nat,
    )
    &&& tells_number(
        text,
        "av_mesh_relay_session_buffered_datagrams"@,
        ""@,
        snapshot.relay_session.buffered_datagrams as nat,
    )
}

proof fn lemma_sessions(t: Seq<char>, snapshot: MeshApiSnapshot)
    ensures
        goes_on(t, sessions_section(t, snapshot)),
        tells_sessions(sessions_section(t, snapshot), snapshot),
{
    reveal(tells_sessions);
    broadcast use {
        lemma_stays,
        lemma_on,
        lemma_header,
        lemma_sample,
        lemma_buckets,
        lemma_buckets_stay,
    };
}

proof fn lemma_sessions_stays(text: Seq<char>, longer: Seq<char>, snapshot: MeshApiSnapshot)
    requires
        tells_sessions(text, snapshot),
        goes_on(text, longer),
    ensures
        tells_sessions(longer, snapshot),
{
    reveal(tells_sessions);
    broadcast use {lemma_stays, lemma_buckets_stay};
}

/// Whether a text tells the datagrams and objects of a relay by their outcome.
#[verifier::opaque]
pub open spec fn tells_datagrams(text: Seq<char>, snapshot: MeshApiSnapshot) -> bool {
    &&& tells_number(
        text,
        "av_mesh_relay_session_datagrams_total"@,
        "outcome=\"received\""@,
        snapshot.relay_session.datagrams_received as nat,
    )
    &&& tells_number(
        text,
        "av_mesh_relay_session_datagrams_total"@,
        "outcome=\"rejected\""@,
        snapshot.relay_session.datagrams_rejected as nat,
    )
    &&& tells_number(
        text,
        "av_mesh_relay_session_datagrams_total"@,
        "outcome=\"source\""@,
        snapshot.relay_session.source_datagrams as nat,
    )
    &&& tells_number(
        text,
        "av_mesh_relay_session_datagrams_total"@,
        "outcome=\"repair\""@,
        snapshot.relay_session.repair_datagrams as nat,
    )
    &&& tells_number(
        text,
        "av_mesh_relay_session_datagrams_total"@,
        "outcome=\"duplicate\""@,
        snapshot.relay_session.duplicate_datagrams as nat,
    )
    &&& tells_number(
        text,
        "av_mesh_relay_session_objects_total"@,
        "outcome=\"decoded\""@,
        snapshot.relay_session.decoded_objects as nat,
    )
    &&& tells_number(
        text,
        "av_mesh_relay_session_objects_total"@,
        "outcome=\"repair_assisted\""@,
        snapshot.relay_session.repair_assisted_objects as nat,
    )
    &&& tells_number(
        text,
        "av_mesh_relay_session_objects_total"@,
        "outcome=\"fec_recovered\""@,
        snapshot.relay_session.fec_recovered_objects as nat,
    )
    &&& tells_number(
        text,
        "av_mesh_relay_session_objects_total"@,
        "outcome=\"expired\""@,
        snapshot.relay_session.expired_objects as nat,
    )
    &&& tells_number(
        text,
        "av_mesh_relay_session_fec_recovered_source_symbols_total"@,
        ""@,
        snapshot.relay_session.fec_recovered_source_symbols as nat,
    )
    &&& tells_number(
        text,
        "av_mesh_relay_session_drops_total"@,
        "reason=\"conflict\""@,
        snapshot.relay_session.conflict_drops as nat,
    )
    &&& tells_number(
        text,
        "av_mesh_relay_session_drops_total"@,
        "reason=\"authentication\""@,
        snapshot.relay_session.authentication_drops as nat,
    )
    &&& tells_number(
        text,
        "av_mesh_relay_session_drops_total"@,
        "reason=\"deadline\""@,
        snapshot.relay_session.deadline_drops as nat,
    )
}

proof fn lemma_datagrams(t: Seq<char>, snapshot: MeshApiSnapshot)
    ensures
        goes_on(t, datagrams_section(t, snapshot)),
        tells_datagrams(datagrams_section(t, snapshot), snapshot),
{
    reveal(tells_datagrams);
    broadcast use {
        lemma_stays,
        lemma_on,
        lemma_header,
        lemma_sample,
        lemma_buckets,
        lemma_buckets_stay,
    };
}

proof fn lemma_datagrams_stays(text: Seq<char>, longer: Seq<char>, snapshot: MeshApiSnapshot)
    requires
        tells_datagrams(text, snapshot),
        goes_on(text, longer),
    ensures
        tells_datagrams(longer, snapshot),
{
    reveal(tells_datagrams);
    broadcast use {lemma_stays, lemma_buckets_stay};
}

/// Whether a text tells what a relay forwards to its children and holds back for them.
#[verifier::opaque]
pub open spec fn tells_forwarding(text: Seq<char>, snapshot: MeshApiSnapshot) -> bool {
    &&& tells_number(
        text,
        "av_mesh_relay_session_downstream_children"@,
        ""@,
        snapshot.relay_session.downstream_children as nat,
    )
    &&& tells_number(
        text,
        "av_mesh_relay_session_forwarded_datagrams_total"@,
        "role=\"source\""@,
        snapshot.relay_session.forwarded_source_datagrams as nat,
    )
    &&& tells_number(
        text,
        "av_mesh_relay_session_forwarded_datagrams_total"@,
        "role=\"repair\""@,
        snapshot.relay_session.forwarded_repair_datagrams as nat,
    )
    &&& tells_number(
        text,
        "av_mesh_relay_session_forwarded_bytes_total"@,
        ""@,
        snapshot.relay_session.forwarded_bytes as nat,
    )
    &&& tells_number(
        text,
        "av_mesh_relay_session_forward_errors_total"@,
        ""@,
        snapshot.relay_session.forward_errors as nat,
    )
    &&& tells_number(
        text,
        "av_mesh_relay_session_forward_filtered_datagrams_total"@,
        ""@,
        snapshot.relay_session.forward_filtered_datagrams as nat,
    )
    &&& tells_number(
        text,
        "av_mesh_relay_warm_source_buffered_datagrams"@,
        ""@,
        snapshot.relay_session.warm_source_buffered_datagrams as nat,
    )
    &&& tells_number(
        text,
        "av_mesh_relay_warm_source_buffered_bytes"@,
        ""@,
        snapshot.relay_session.warm_source_buffered_bytes as nat,
    )
    &&& tells_number(
        text,
        "av_mesh_relay_warm_source_replayed_datagrams_total"@,
        ""@,
        snapshot.relay_session.warm_source_replayed_datagrams as nat,
    )
    &&& tells_number(
        text,
        "av_mesh_relay_warm_source_replayed_bytes_total"@,
        ""@,
        snapshot.relay_session.warm_source_replayed_bytes as nat,
    )
    &&& tells_number(
        text,
        "av_mesh_relay_warm_source_expired_datagrams_total"@,
        ""@,
        snapshot.relay_session.warm_source_expired_datagrams as nat,
    )
    &&& tells_number(
        text,
        "av_mesh_relay_warm_source_retired_datagrams_total"@,
        ""@,
        snapshot.relay_session.warm_source_retired_datagrams as nat,
    )
    &&& tells_number(
        text,
        "av_mesh_relay_warm_source_evicted_datagrams_total"@,
        ""@,
        snapshot.relay_session.warm_source_evicted_datagrams as nat,
    )
}

proof fn lemma_forwarding(t: Seq<char>, snapshot: MeshApiSnapshot)
    ensures
        goes_on(t, forwarding_section(t, snapshot)),
        tells_forwarding(forwarding_section(t, snapshot), snapshot),
{
    reveal(tells_forwarding);
    broadcast use {
        lemma_stays,
        lemma_on,
        lemma_header,
        lemma_sample,
        lemma_buckets,
        lemma_buckets_stay,
    };
}

proof fn lemma_forwarding_stays(text: Seq<char>, longer: Seq<char>, snapshot: MeshApiSnapshot)
    requires
        tells_forwarding(text, snapshot),
        goes_on(text, longer),
    ensures
        tells_forwarding(longer, snapshot),
{
    reveal(tells_forwarding);
    broadcast use {lemma_stays, lemma_buckets_stay};
}

/// Whether a text tells how long a relay takes for its objects.
#[verifier::opaque]
pub open spec fn tells_processing(text: Seq<char>, snapshot: MeshApiSnapshot) -> bool {
    &&& tells_buckets(
        text,
        "av_mesh_relay_session_processing_duration_us_bucket"@,
        EDGE_RESPONSE_DURATION_BUCKETS_US@,
        snapshot.relay_session.processing_duration_buckets@,
        13,
    )
    &&& tells_number(
        text,
        "av_mesh_relay_session_processing_duration_us_bucket"@,
        "le=\"+Inf\""@,
        snapshot.relay_session.processing_duration_count as nat,
    )
    &&& tells_number(
        text,
        "av_mesh_relay_session_processing_duration_us_sum"@,
        ""@,
        snapshot.relay_session.processing_duration_sum_us as nat,
    )
    &&& tells_number(
        text,
        "av_mesh_relay_session_processing_duration_us_count"@,
        ""@,
        snapshot.relay_session.processing_duration_count as nat,
    )
    &&& tells_number(
        text,
        "av_mesh_relay_session_processing_duration_max_us"@,
        ""@,
        snapshot.relay_session.processing_duration_max_us as nat,
    )
}

proof fn lemma_processing(t: Seq<char>, snapshot: MeshApiSnapshot)
    ensures
        goes_on(t, processing_section(t, snapshot)),
        tells_processing(processing_section(t, snapshot), snapshot),
{
    reveal(tells_processing);
    broadcast use {
        lemma_stays,
        lemma_on,
        lemma_header,
        lemma_sample,
        lemma_buckets,
        lemma_buckets_stay,
    };
}

proof fn lemma_processing_stays(text: Seq<char>, longer: Seq<char>, snapshot: MeshApiSnapshot)
    requires
        tells_processing(text, snapshot),
        goes_on(text, longer),
    ensures
        tells_processing(longer, snapshot),
{
    reveal(tells_processing);
    broadcast use {lemma_stays, lemma_buckets_stay};
}

/// Whether a text tells how long a relay takes to forward.
#[verifier::opaque]
pub open spec fn tells_forward_times(text: Seq<char>, snapshot: MeshApiSnapshot) -> bool {
    &&& tells_buckets(
        text,
        "av_mesh_relay_session_forward_duration_us_bucket"@,
        EDGE_RESPONSE_DURATION_BUCKETS_US@,
        snapshot.relay_session.forward_duration_buckets@,
        13,
    )
    &&& tells_number(
        text,
        "av_mesh_relay_session_forward_duration_us_bucket"@,
        "le=\"+Inf\""@,
        snapshot.relay_session.forward_duration_count as nat,
    )
    &&& tells_number(
        text,
        "av_mesh_relay_session_forward_duration_us_sum"@,
        ""@,
        snapshot.relay_session.forward_duration_sum_us as nat,
    )
    &&& tells_number(
        text,
        "av_mesh_relay_session_forward_duration_us_count"@,
        ""@,
        snapshot.relay_session.forward_duration_count as nat,
    )
    &&& tells_number(
        text,
        "av_mesh_relay_session_forward_duration_max_us"@,
        ""@,
        snapshot.relay_session.forward_duration_max_us as nat,
    )
}

proof fn lemma_forward_time(t: Seq<char>, snapshot: MeshApiSnapshot)
    ensures
        goes_on(t, forward_time_section(t, snapshot)),
        tells_forward_times(forward_time_section(t, snapshot), snapshot),
{
    reveal(tells_forward_times);
    broadcast use {
        lemma_stays,
        lemma_on,
        lemma_header,
        lemma_sample,
        lemma_buckets,
        lemma_buckets_stay,
    };
}

proof fn lemma_forward_time_stays(text: Seq<char>, longer: Seq<char>, snapshot: MeshApiSnapshot)
    requires
        tells_forward_times(text, snapshot),
        goes_on(text, longer),
    ensures
        tells_forward_times(longer, snapshot),
{
    reveal(tells_forward_times);
    broadcast use {lemma_stays, lemma_buckets_stay};
}

/// Whether a text tells how long objects take to become available.
#[verifier::opaque]
pub open spec fn tells_publication(text: Seq<char>, snapshot: MeshApiSnapshot) -> bool {
    &&& tells_buckets(
        text,
        "av_mesh_relay_session_publication_to_available_us_bucket"@,
        PUBLICATION_AVAILABILITY_BUCKETS_US@,
        snapshot.relay_session.publication_to_available_buckets@,
        16,
    )
    &&& tells_number(
        text,
        "av_mesh_relay_session_publication_to_available_us_bucket"@,
        "le=\"+Inf\""@,
        snapshot.relay_session.publication_to_available_count as nat,
    )
    &&& tells_number(
        text,
        "av_mesh_relay_session_publication_to_available_us_sum"@,
        ""@,
        snapshot.relay_session.publication_to_available_sum_us as nat,
    )
    &&& tells_number(
        text,
        "av_mesh_relay_session_publication_to_available_us_count"@,
        ""@,
        snapshot.relay_session.publication_to_available_count as nat,
    )
    &&& tells_number(
        text,
        "av_mesh_relay_session_publication_to_available_max_us"@,
        ""@,
        snapshot.relay_session.publication_to_available_max_us as nat,
    )
    &&& tells_number(
        text,
        "av_mesh_relay_session_publication_clock_error_max_us"@,
        ""@,
        snapshot.relay_session.publication_clock_error_max_us as nat,
    )
    &&& tells_number(
        text,
        "av_mesh_relay_session_publication_clock_unusable_objects_total"@,
        ""@,
        snapshot.relay_session.publication_clock_unusable_objects as nat,
    )
}

proof fn lemma_publication(t: Seq<char>, snapshot: MeshApiSnapshot)
    ensures
        goes_on(t, publication_section(t, snapshot)),
        tells_publication(publication_section(t, snapshot), snapshot),
{
    reveal(tells_publication);
    broadcast use {
        lemma_stays,
        lemma_on,
        lemma_header,
        lemma_sample,
        lemma_buckets,
        lemma_buckets_stay,
    };
}

proof fn lemma_publication_stays(text: Seq<char>, longer: Seq<char>, snapshot: MeshApiSnapshot)
    requires
        tells_publication(text, snapshot),
        goes_on(text, longer),
    ensures
        tells_publication(longer, snapshot),
{
    reveal(tells_publication);
    broadcast use {lemma_stays, lemma_buckets_stay};
}

/// Whether a text tells each state of failover: as one where it is current, else as nothing.
#[verifier::opaque]
pub open spec fn tells_failover_state(text: Seq<char>, snapshot: MeshApiSnapshot) -> bool {
    &&& tells_number(
        text,
        "av_mesh_relay_failover_state"@,
        "state=\""@ + RelayFailoverControllerState::Disabled.text() + "\""@,
        if snapshot.relay_session.failover_controller_state
            == RelayFailoverControllerState::Disabled {
            1
        } else {
            0
        },
    )
    &&& tells_number(
        text,
        "av_mesh_relay_failover_state"@,
        "state=\""@ + RelayFailoverControllerState::Arming.text() + "\""@,
        if snapshot.relay_session.failover_controller_state
            == RelayFailoverControllerState::Arming {
            1
        } else {
            0
        },
    )
    &&& tells_number(
        text,
        "av_mesh_relay_failover_state"@,
        "state=\""@ + RelayFailoverControllerState::Healthy.text() + "\""@,
        if snapshot.relay_session.failover_controller_state
            == RelayFailoverControllerState::Healthy {
            1
        } else {
            0
        },
    )
    &&& tells_number(
        text,
        "av_mesh_relay_failover_state"@,
        "state=\""@ + RelayFailoverControllerState::Promoted.text() + "\""@,
        if snapshot.relay_session.failover_controller_state
            == RelayFailoverControllerState::Promoted {
            1
        } else {
            0
        },
    )
    &&& tells_number(
        text,
        "av_mesh_relay_failover_state"@,
        "state=\""@ + RelayFailoverControllerState::Recovering.text() + "\""@,
        if snapshot.relay_session.failover_controller_state
            == RelayFailoverControllerState::Recovering {
            1
        } else {
            0
        },
    )
    &&& tells_number(
        text,
        "av_mesh_relay_failover_state"@,
        "state=\""@ + RelayFailoverControllerState::SecondaryUnavailable.text() + "\""@,
        if snapshot.relay_session.failover_controller_state
            == RelayFailoverControllerState::SecondaryUnavailable {
            1
        } else {
            0
        },
    )
}

proof fn lemma_failover_state(t: Seq<char>, snapshot: MeshApiSnapshot)
    ensures
        goes_on(t, failover_state_section(t, snapshot)),
        tells_failover_state(failover_state_section(t, snapshot), snapshot),
{
    reveal(tells_failover_state);
    broadcast use {
        lemma_stays,
        lemma_on,
        lemma_header,
        lemma_sample,
        lemma_buckets,
        lemma_buckets_stay,
    };
}

proof fn lemma_failover_state_stays(text: Seq<char>, longer: Seq<char>, snapshot: MeshApiSnapshot)
    requires
        tells_failover_state(text, snapshot),
        goes_on(text, longer),
    ensures
        tells_failover_state(longer, snapshot),
{
    reveal(tells_failover_state);
    broadcast use {lemma_stays, lemma_buckets_stay};
}

/// Whether a text tells the ages, times and gaps of failover.
#[verifier::opaque]
pub open spec fn tells_failover(text: Seq<char>, snapshot: MeshApiSnapshot) -> bool {
    &&& tells_number(
        text,
        "av_mesh_relay_failover_controller_enabled"@,
        ""@,
        snapshot.relay_session.failover_controller_enabled as nat,
    )
    &&& tells_number(
        text,
        "av_mesh_relay_failover_listeners"@,
        ""@,
        snapshot.relay_session.failover_listeners as nat,
    )
    &&& tells_number(
        text,
        "av_mesh_relay_failover_promoted_children"@,
        ""@,
        snapshot.relay_session.failover_promoted_children as nat,
    )
    &&& tells_number(
        text,
        "av_mesh_relay_failover_primary_source_age_ms"@,
        ""@,
        snapshot.relay_session.failover_primary_source_age_ms as nat,
    )
    &&& tells_number(
        text,
        "av_mesh_relay_failover_secondary_repair_age_ms"@,
        ""@,
        snapshot.relay_session.failover_secondary_repair_age_ms as nat,
    )
    &&& tells_number(
        text,
        "av_mesh_relay_failover_last_detection_us"@,
        ""@,
        snapshot.relay_session.failover_last_detection_us as nat,
    )
    &&& tells_number(
        text,
        "av_mesh_relay_failover_last_promotion_to_source_us"@,
        ""@,
        snapshot.relay_session.failover_last_promotion_to_source_us as nat,
    )
    &&& tells_number(
        text,
        "av_mesh_relay_failover_last_media_gap_us"@,
        ""@,
        snapshot.relay_session.failover_last_media_gap_us as nat,
    )
    &&& tells_number(
        text,
        "av_mesh_relay_failover_max_media_gap_us"@,
        ""@,
        snapshot.relay_session.failover_max_media_gap_us as nat,
    )
    &&& tells_number(
        text,
        "av_mesh_relay_failover_controller_last_transition_unix_ms"@,
        ""@,
        snapshot.relay_session.failover_controller_last_transition_unix_ms as nat,
    )
    &&& tells_number(
        text,
        "av_mesh_relay_failover_listener_last_transition_unix_ms"@,
        ""@,
        snapshot.relay_session.failover_listener_last_transition_unix_ms as nat,
    )
}

proof fn lemma_failover(t: Seq<char>, snapshot: MeshApiSnapshot)
    ensures
        goes_on(t, failover_section(t, snapshot)),
        tells_failover(failover_section(t, snapshot), snapshot),
{
    reveal(tells_failover);
    broadcast use {
        lemma_stays,
        lemma_on,
        lemma_header,
        lemma_sample,
        lemma_buckets,
        lemma_buckets_stay,
    };
}

proof fn lemma_failover_stays(text: Seq<char>, longer: Seq<char>, snapshot: MeshApiSnapshot)
    requires
        tells_failover(text, snapshot),
        goes_on(text, longer),
    ensures
        tells_failover(longer, snapshot),
{
    reveal(tells_failover);
    broadcast use {lemma_stays, lemma_buckets_stay};
}

/// Whether a text tells commands and changes of failover by side and outcome.
#[verifier::opaque]
pub open spec fn tells_failover_commands(text: Seq<char>, snapshot: MeshApiSnapshot) -> bool {
    &&& tells_number(
        text,
        "av_mesh_relay_failover_commands_total"@,
        "direction=\"sent\",outcome=\"success\""@,
        snapshot.relay_session.failover_commands_sent as nat,
    )
    &&& tells_number(
        text,
        "av_mesh_relay_failover_commands_total"@,
        "direction=\"sent\",outcome=\"error\""@,
        snapshot.relay_session.failover_command_send_errors as nat,
    )
    &&& tells_number(
        text,
        "av_mesh_relay_failover_commands_total"@,
        "direction=\"received\",outcome=\"accepted\""@,
        snapshot.relay_session.failover_commands_received as nat,
    )
    &&& tells_number(
        text,
        "av_mesh_relay_failover_commands_total"@,
        "direction=\"received\",outcome=\"rejected\""@,
        snapshot.relay_session.failover_commands_rejected as nat,
    )
    &&& tells_number(
        text,
        "av_mesh_relay_failover_transitions_total"@,
        "side=\"controller\",transition=\"promotion\""@,
        snapshot.relay_session.failover_promotions as nat,
    )
    &&& tells_number(
        text,
        "av_mesh_relay_failover_transitions_total"@,
        "side=\"controller\",transition=\"demotion\""@,
        snapshot.relay_session.failover_demotions as nat,
    )
    &&& tells_number(
        text,
        "av_mesh_relay_failover_transitions_total"@,
        "side=\"forwarder\",transition=\"promotion\""@,
        snapshot.relay_session.failover_promotions_applied as nat,
    )
    &&& tells_number(
        text,
        "av_mesh_relay_failover_transitions_total"@,
        "side=\"forwarder\",transition=\"demotion\""@,
        snapshot.relay_session.failover_demotions_applied as nat,
    )
    &&& tells_number(
        text,
        "av_mesh_relay_failover_secondary_unavailable_total"@,
        ""@,
        snapshot.relay_session.failover_secondary_unavailable_events as nat,
    )
    &&& tells_number(
        text,
        "av_mesh_relay_failover_lease_expirations_total"@,
        ""@,
        snapshot.relay_session.failover_lease_expirations as nat,
    )
}

proof fn lemma_failover_commands(t: Seq<char>, snapshot: MeshApiSnapshot)
    ensures
        goes_on(t, failover_commands_section(t, snapshot)),
        tells_failover_commands(failover_commands_section(t, snapshot), snapshot),
{
    reveal(tells_failover_commands);
    broadcast use {
        lemma_stays,
        lemma_on,
        lemma_header,
        lemma_sample,
        lemma_buckets,
        lemma_buckets_stay,
    };
}

proof fn lemma_failover_commands_stays(
    text: Seq<char>,
    longer: Seq<char>,
    snapshot: MeshApiSnapshot,
)
    requires
        tells_failover_commands(text, snapshot),
        goes_on(text, longer),
    ensures
        tells_failover_commands(longer, snapshot),
{
    reveal(tells_failover_commands);
    broadcast use {lemma_stays, lemma_buckets_stay};
}

/// Whether a text tells peers by what is known of them, and nodes by how fresh they are.
#[verifier::opaque]
pub open spec fn tells_topology(text: Seq<char>, snapshot: MeshApiSnapshot) -> bool {
    &&& tells_number(
        text,
        "av_mesh_topology_peers"@,
        "kind=\"resolved\""@,
        snapshot.topology.resolved_peer_count as nat,
    )
    &&& tells_number(
        text,
        "av_mesh_topology_peers"@,
        "kind=\"unresolved\""@,
        snapshot.topology.unresolved_peer_count as nat,
    )
    &&& tells_number(
        text,
        "av_mesh_topology_peers"@,
        "kind=\"private\""@,
        snapshot.topology.private_peer_count as nat,
    )
    &&& tells_number(
        text,
        "av_mesh_topology_peers"@,
        "kind=\"public\""@,
        snapshot.topology.public_peer_count as nat,
    )
    &&& tells_number(
        text,
        "av_mesh_telemetry_nodes"@,
        "state=\"fresh\""@,
        snapshot.telemetry.fresh_remote_count as nat,
    )
    &&& tells_number(
        text,
        "av_mesh_telemetry_nodes"@,
        "state=\"stale\""@,
        snapshot.telemetry.stale_remote_count as nat,
    )
}

proof fn lemma_topology(t: Seq<char>, snapshot: MeshApiSnapshot)
    ensures
        goes_on(t, topology_section(t, snapshot)),
        tells_topology(topology_section(t, snapshot), snapshot),
{
    reveal(tells_topology);
    broadcast use {
        lemma_stays,
        lemma_on,
        lemma_header,
        lemma_sample,
        lemma_buckets,
        lemma_buckets_stay,
    };
}

proof fn lemma_topology_stays(text: Seq<char>, longer: Seq<char>, snapshot: MeshApiSnapshot)
    requires
        tells_topology(text, snapshot),
        goes_on(text, longer),
    ensures
        tells_topology(longer, snapshot),
{
    reveal(tells_topology);
    broadcast use {lemma_stays, lemma_buckets_stay};
}

/// Whether a text tells how many streams diverge, and the longest delay of an epoch.
#[verifier::opaque]
pub open spec fn tells_epochs(
    text: Seq<char>,
    snapshot: MeshApiSnapshot,
    fractions: Fractions,
) -> bool {
    &&& tells_number(
        text,
        "av_mesh_canonical_epoch_divergent_streams"@,
        ""@,
        divergent_count(telemetry_views(snapshot.streams@), snapshot.streams@.len() as int),
    )
    &&& tells(
        text,
        metric_line(
            "av_mesh_canonical_epoch_activation_delay_max_seconds"@,
            ""@,
            fractions.activation_delay_max_seconds@,
        ),
    )
}

proof fn lemma_epoch(t: Seq<char>, snapshot: MeshApiSnapshot, fractions: Fractions)
    ensures
        goes_on(t, epoch_section(t, snapshot, fractions)),
        tells_epochs(epoch_section(t, snapshot, fractions), snapshot, fractions),
{
    reveal(tells_epochs);
    broadcast use {
        lemma_stays,
        lemma_on,
        lemma_header,
        lemma_sample,
        lemma_buckets,
        lemma_buckets_stay,
    };
}

proof fn lemma_epoch_stays(
    text: Seq<char>,
    longer: Seq<char>,
    snapshot: MeshApiSnapshot,
    fractions: Fractions,
)
    requires
        tells_epochs(text, snapshot, fractions),
        goes_on(text, longer),
    ensures
        tells_epochs(longer, snapshot, fractions),
{
    reveal(tells_epochs);
    broadcast use {lemma_stays, lemma_buckets_stay};
}

/// Whether a text tells of a node, under its labels: its storage, capacity and streams.
#[verifier::opaque]
pub open spec fn tells_node(text: Seq<char>, node: MeshNode) -> bool {
    let labels = node_labels(node);
    &&& tells_number(text, "av_mesh_node_draining"@, labels, if node.draining { 1 } else { 0 })
    &&& tells_number(text, "av_mesh_node_storage_bytes"@, labels, node.total_storage_bytes as nat)
    &&& tells_number(
        text,
        "av_mesh_node_storage_used_bytes"@,
        labels,
        node.used_storage_bytes as nat,
    )
    &&& tells_number(
        text,
        "av_mesh_node_egress_capacity_bps"@,
        labels,
        node.egress_capacity_bps as nat,
    )
    &&& tells_number(
        text,
        "av_mesh_node_streams"@,
        labels + ",kind=\"contributor\""@,
        node.contributor_streams as nat,
    )
    &&& tells_number(
        text,
        "av_mesh_node_streams"@,
        labels + ",kind=\"active\""@,
        node.active_streams as nat,
    )
}

proof fn lemma_node(t: Seq<char>, node: MeshNode)
    ensures
        goes_on(t, with_node(t, node)),
        tells_node(with_node(t, node), node),
{
    reveal(tells_node);
    broadcast use {lemma_stays, lemma_on, lemma_sample};
}

proof fn lemma_node_stays(text: Seq<char>, longer: Seq<char>, node: MeshNode)
    requires
        tells_node(text, node),
        goes_on(text, longer),
    ensures
        tells_node(longer, node),
{
    reveal(tells_node);
    broadcast use lemma_stays;
}

/// Whether a text tells of an edge, under its labels: its readers, requests and responses.
#[verifier::opaque]
pub open spec fn tells_edge(text: Seq<char>, edge: EdgeServiceSnapshot) -> bool {
    let labels = edge_labels(edge);
    &&& tells_number(text, "av_mesh_edge_active_readers"@, labels, edge.active_readers as nat)
    &&& tells_number(text, "av_mesh_edge_requests_total"@, labels, edge.requests_served as nat)
    &&& tells_number(text, "av_mesh_edge_bytes_total"@, labels, edge.bytes_served as nat)
    &&& tells_number(
        text,
        "av_mesh_edge_llhls_tail_requests_total"@,
        labels,
        edge.llhls_tail_requests as nat,
    )
    &&& tells_number(
        text,
        "av_mesh_edge_responses_total"@,
        labels + ",outcome=\"all\""@,
        edge.responses_total as nat,
    )
    &&& tells_number(
        text,
        "av_mesh_edge_responses_total"@,
        labels + ",outcome=\"error\""@,
        edge.response_errors as nat,
    )
    &&& tells_number(
        text,
        "av_mesh_edge_responses_total"@,
        labels + ",outcome=\"not_found\""@,
        edge.response_not_found as nat,
    )
}

proof fn lemma_edge(t: Seq<char>, edge: EdgeServiceSnapshot)
    ensures
        goes_on(t, with_edge(t, edge)),
        tells_edge(with_edge(t, edge), edge),
{
    reveal(tells_edge);
    broadcast use {lemma_stays, lemma_on, lemma_sample};
}

proof fn lemma_edge_stays(text: Seq<char>, longer: Seq<char>, edge: EdgeServiceSnapshot)
    requires
        tells_edge(text, edge),
        goes_on(text, longer),
    ensures
        tells_edge(longer, edge),
{
    reveal(tells_edge);
    broadcast use lemma_stays;
}

/// Whether a text tells of a stream, under its labels, what is known of it.
#[verifier::opaque]
pub open spec fn tells_stream(
    text: Seq<char>,
    stream: StreamTelemetry,
    fractions: StreamFractions,
) -> bool {
    let labels = stream_labels(stream);
    &&& tells_number(
        text,
        "av_mesh_stream_bytes_received_total"@,
        labels,
        stream.bytes_received as nat,
    )
    &&& tells_number(
        text,
        "av_mesh_stream_datagrams_received_total"@,
        labels,
        stream.datagrams_received as nat,
    )
    &&& stream.latest_local_part is Some ==> tells_number(
        text,
        "av_mesh_stream_latest_part"@,
        labels + ",source=\"local\""@,
        stream.latest_local_part->0 as nat,
    )
    &&& stream.latest_mesh_part is Some ==> tells_number(
        text,
        "av_mesh_stream_latest_part"@,
        labels + ",source=\"mesh\""@,
        stream.latest_mesh_part->0 as nat,
    )
    &&& stream.canonical_epoch is Some ==> tells_number(
        text,
        "av_mesh_stream_canonical_epoch"@,
        labels,
        stream.canonical_epoch->0 as nat,
    )
    &&& stream.canonical_epoch_activation_delay_us is Some ==> tells(
        text,
        metric_line(
            "av_mesh_stream_canonical_epoch_activation_delay_seconds"@,
            labels,
            fractions.activation_delay_seconds@,
        ),
    )
    &&& stream.head_object is Some ==> tells_number(
        text,
        "av_mesh_stream_canonical_head_object"@,
        labels,
        stream.head_object->0 as nat,
    )
    &&& stream.contiguous_object is Some ==> tells_number(
        text,
        "av_mesh_stream_contiguous_object"@,
        labels,
        stream.contiguous_object->0 as nat,
    )
    &&& stream.gap_count is Some ==> tells_number(
        text,
        "av_mesh_stream_known_gap_count"@,
        labels,
        stream.gap_count->0 as nat,
    )
    &&& stream.last_ingest_age_ms is Some ==> tells(
        text,
        metric_line(
            "av_mesh_stream_last_ingest_age_seconds"@,
            labels,
            fractions.last_ingest_age_seconds@,
        ),
    )
    &&& stream.latest_local_part_age_ms is Some ==> tells(
        text,
        metric_line(
            "av_mesh_stream_latest_local_part_age_seconds"@,
            labels,
            fractions.latest_local_part_age_seconds@,
        ),
    )
    &&& stream.mesh_lag_parts is Some ==> tells_number(
        text,
        "av_mesh_stream_lag_parts"@,
        labels,
        stream.mesh_lag_parts->0 as nat,
    )
}

proof fn lemma_stream(t: Seq<char>, stream: StreamTelemetry, fractions: StreamFractions)
    ensures
        goes_on(t, with_stream(t, stream, fractions)),
        tells_stream(with_stream(t, stream, fractions), stream, fractions),
{
    reveal(tells_stream);
    broadcast use {lemma_stays, lemma_on, lemma_sample};
}

proof fn lemma_stream_stays(
    text: Seq<char>,
    longer: Seq<char>,
    stream: StreamTelemetry,
    fractions: StreamFractions,
)
    requires
        tells_stream(text, stream, fractions),
        goes_on(text, longer),
    ensures
        tells_stream(longer, stream, fractions),
{
    reveal(tells_stream);
    broadcast use lemma_stays;
}

proof fn lemma_nodes(t: Seq<char>, nodes: Seq<MeshNode>, k: int)
    ensures
        goes_on(t, with_nodes(t, nodes, k)),
        forall|i: int| 0 <= i < k ==> tells_node(with_nodes(t, nodes, k), #[trigger] nodes[i]),
    decreases k,
{
    if k <= 0 {
        lemma_same(t);
    } else {
        let before = with_nodes(t, nodes, k - 1);
        let after = with_nodes(t, nodes, k);
        lemma_nodes(t, nodes, k - 1);
        lemma_node(before, nodes[k - 1]);
        lemma_on(t, before, after);
        assert forall|i: int| 0 <= i < k implies tells_node(after, #[trigger] nodes[i]) by {
            if i < k - 1 {
                lemma_node_stays(before, after, nodes[i]);
            }
        }
    }
}

proof fn lemma_edges(t: Seq<char>, edges: Seq<EdgeServiceSnapshot>, k: int)
    ensures
        goes_on(t, with_edges(t, edges, k)),
        forall|i: int| 0 <= i < k ==> tells_edge(with_edges(t, edges, k), #[trigger] edges[i]),
    decreases k,
{
    if k <= 0 {
        lemma_same(t);
    } else {
        let before = with_edges(t, edges, k - 1);
        let after = with_edges(t, edges, k);
        lemma_edges(t, edges, k - 1);
        lemma_edge(before, edges[k - 1]);
        lemma_on(t, before, after);
        assert forall|i: int| 0 <= i < k implies tells_edge(after, #[trigger] edges[i]) by {
            if i < k - 1 {
                lemma_edge_stays(before, after, edges[i]);
            }
        }
    }
}

proof fn lemma_streams(
    t: Seq<char>,
    streams: Seq<StreamTelemetry>,
    fractions: Seq<StreamFractions>,
    k: int,
)
    ensures
        goes_on(t, with_streams(t, streams, fractions, k)),
        forall|i: int|
            0 <= i < k ==> tells_stream(
                with_streams(t, streams, fractions, k),
                #[trigger] streams[i],
                fractions[i],
            ),
    decreases k,
{
    if k <= 0 {
        lemma_same(t);
    } else {
        let before = with_streams(t, streams, fractions, k - 1);
        let after = with_streams(t, streams, fractions, k);
        lemma_streams(t, streams, fractions, k - 1);
        lemma_stream(before, streams[k - 1], fractions[k - 1]);
        lemma_on(t, before, after);
        assert forall|i: int| 0 <= i < k implies tells_stream(
            after,
            #[trigger] streams[i],
            fractions[i],
        ) by {
            if i < k - 1 {
                lemma_stream_stays(before, after, streams[i], fractions[i]);
            }
        }
    }
}

/// The line of a bucket of the response times of an edge.
pub open spec fn response_line(edge: EdgeServiceSnapshot, i: int) -> Seq<char> {
    metric_line(
        "av_mesh_edge_response_duration_seconds_bucket"@,
        edge_labels(edge) + (",le=\""@ + EDGE_RESPONSE_DURATION_BUCKETS_SECONDS@[i]@ + "\""@),
        decimal(if i < edge.response_duration_buckets@.len() {
            edge.response_duration_buckets@[i] as nat
        } else {
            0
        }),
    )
}

proof fn lemma_response_buckets(t: Seq<char>, edge: EdgeServiceSnapshot, k: int)
    ensures
        goes_on(t, with_response_buckets(t, edge, k)),
        forall|i: int|
            0 <= i < k ==> tells(
                with_response_buckets(t, edge, k),
                #[trigger] response_line(edge, i),
            ),
    decreases k,
{
    if k <= 0 {
        lemma_same(t);
    } else {
        let before = with_response_buckets(t, edge, k - 1);
        let after = with_response_buckets(t, edge, k);
        let counts = edge.response_duration_buckets@;
        lemma_response_buckets(t, edge, k - 1);
        lemma_sample(
            before,
            "av_mesh_edge_response_duration_seconds_bucket"@,
            edge_labels(edge) + (",le=\""@ + EDGE_RESPONSE_DURATION_BUCKETS_SECONDS@[k - 1]@
                + "\""@),
            decimal(if k - 1 < counts.len() { counts[k - 1] as nat } else { 0 }),
        );
        lemma_on(t, before, after);
        assert forall|i: int| 0 <= i < k implies tells(
            after,
            #[trigger] response_line(edge,
            i),
        ) by {
            if i < k - 1 {
                lemma_stays(before, after, response_line(edge, i));
            }
        }
    }
}

/// Whether a text tells the response times of an edge: by bucket, in all and how many.
#[verifier::opaque]
pub open spec fn tells_times(text: Seq<char>, edge: EdgeServiceSnapshot, sum: Seq<char>) -> bool {
    let labels = edge_labels(edge);
    &&& forall|i: int| 0 <= i < 13 ==> tells(text, #[trigger] response_line(edge, i))
    &&& tells(
        text,
        metric_line(
            "av_mesh_edge_response_duration_seconds_bucket"@,
            labels + ",le=\"+Inf\""@,
            decimal(edge.response_duration_count as nat),
        ),
    )
    &&& tells(text, metric_line("av_mesh_edge_response_duration_seconds_sum"@, labels, sum))
    &&& tells(
        text,
        metric_line(
            "av_mesh_edge_response_duration_seconds_count"@,
            labels,
            decimal(edge.response_duration_count as nat),
        ),
    )
}

proof fn lemma_times_stay(
    text: Seq<char>,
    longer: Seq<char>,
    edge: EdgeServiceSnapshot,
    sum: Seq<char>,
)
    requires
        tells_times(text, edge, sum),
        goes_on(text, longer),
    ensures
        tells_times(longer, edge, sum),
{
    reveal(tells_times);
    let labels = edge_labels(edge);
    assert forall|i: int| 0 <= i < 13 implies tells(longer, #[trigger] response_line(edge, i)) by {
        lemma_stays(text, longer, response_line(edge, i));
    }
    lemma_stays(
        text,
        longer,
        metric_line(
            "av_mesh_edge_response_duration_seconds_bucket"@,
            labels + ",le=\"+Inf\""@,
            decimal(edge.response_duration_count as nat),
        ),
    );
    lemma_stays(
        text,
        longer,
        metric_line("av_mesh_edge_response_duration_seconds_sum"@, labels, sum),
    );
    lemma_stays(
        text,
        longer,
        metric_line(
            "av_mesh_edge_response_duration_seconds_count"@,
            labels,
            decimal(edge.response_duration_count as nat),
        ),
    );
}

proof fn lemma_response_times_of(t: Seq<char>, edge: EdgeServiceSnapshot, sum: Seq<char>)
    ensures
        goes_on(t, with_response_times(t, edge, sum)),
        tells_times(with_response_times(t, edge, sum), edge, sum),
{
    reveal(tells_times);
    let labels = edge_labels(edge);
    let t1 = with_response_buckets(t, edge, 13);
    let count = decimal(edge.response_duration_count as nat);
    let bucket = "av_mesh_edge_response_duration_seconds_bucket"@;
    let t2 = with_sample(t1, bucket, labels + ",le=\"+Inf\""@, count);
    let t3 = with_sample(t2, "av_mesh_edge_response_duration_seconds_sum"@, labels, sum);
    let t4 = with_sample(t3, "av_mesh_edge_response_duration_seconds_count"@, labels, count);
    assert(with_response_times(t, edge, sum) == t4);
    lemma_response_buckets(t, edge, 13);
    lemma_sample(t1, bucket, labels + ",le=\"+Inf\""@, count);
    lemma_sample(t2, "av_mesh_edge_response_duration_seconds_sum"@, labels, sum);
    lemma_sample(t3, "av_mesh_edge_response_duration_seconds_count"@, labels, count);
    lemma_on(t2, t3, t4);
    lemma_on(t1, t2, t4);
    lemma_on(t, t1, t4);
    assert forall|i: int| 0 <= i < 13 implies tells(t4, #[trigger] response_line(edge, i)) by {
        lemma_stays(t1, t4, response_line(edge, i));
    }
    lemma_stays(t2, t4, metric_line(bucket, labels + ",le=\"+Inf\""@, count));
    lemma_stays(
        t3,
        t4,
        metric_line("av_mesh_edge_response_duration_seconds_sum"@, labels, sum),
    );
}

proof fn lemma_all_response_times(
    t: Seq<char>,
    edges: Seq<EdgeServiceSnapshot>,
    sums: Seq<String>,
    k: int,
)
    ensures
        goes_on(t, with_all_response_times(t, edges, sums, k)),
        forall|i: int|
            0 <= i < k ==> tells_times(
                with_all_response_times(t, edges, sums, k),
                #[trigger] edges[i],
                sums[i]@,
            ),
    decreases k,
{
    if k <= 0 {
        lemma_same(t);
    } else {
        let before = with_all_response_times(t, edges, sums, k - 1);
        let after = with_all_response_times(t, edges, sums, k);
        lemma_all_response_times(t, edges, sums, k - 1);
        lemma_response_times_of(before, edges[k - 1], sums[k - 1]@);
        lemma_on(t, before, after);
        assert forall|i: int| 0 <= i < k implies tells_times(
            after,
            #[trigger] edges[i],
            sums[i]@,
        ) by {
            if i < k - 1 {
                lemma_times_stay(before, after, edges[i], sums[i]@);
            }
        }
    }
}

/// The line of an alert.
pub open spec fn alert_line(alert: MeshAlert) -> Seq<char> {
    metric_line("av_mesh_alerts"@, alert_labels(alert), decimal(alert.count as nat))
}

proof fn lemma_alerts_of(t: Seq<char>, alerts: Seq<MeshAlert>, k: int)
    ensures
        goes_on(t, with_alerts(t, alerts, k)),
        forall|i: int|
            0 <= i < k ==> tells(with_alerts(t, alerts, k), alert_line(#[trigger] alerts[i])),
    decreases k,
{
    if k <= 0 {
        lemma_same(t);
    } else {
        let before = with_alerts(t, alerts, k - 1);
        let after = with_alerts(t, alerts, k);
        lemma_alerts_of(t, alerts, k - 1);
        lemma_sample(
            before,
            "av_mesh_alerts"@,
            alert_labels(alerts[k - 1]),
            decimal(alerts[k - 1].count as nat),
        );
        lemma_on(t, before, after);
        assert forall|i: int| 0 <= i < k implies tells(
            after,
            alert_line(#[trigger] alerts[i]),
        ) by {
            if i < k - 1 {
                lemma_stays(before, after, alert_line(alerts[i]));
            }
        }
    }
}

proof fn lemma_nodes_section(t: Seq<char>, snapshot: MeshApiSnapshot)
    ensures
        goes_on(t, nodes_section(t, snapshot)),
        forall|i: int|
            0 <= i < snapshot.nodes@.len() ==> tells_node(
                nodes_section(t, snapshot),
                #[trigger] snapshot.nodes@[i],
            ),
{
    broadcast use {lemma_on, lemma_header};

    let t1 = with_header(
        t,
        "av_mesh_node_draining"@,
        "Whether a mesh node is draining."@,
        "gauge"@,
    );
    let t2 = with_header(
        t1,
        "av_mesh_node_storage_bytes"@,
        "Storage capacity by mesh node."@,
        "gauge"@,
    );
    let t3 = with_header(
        t2,
        "av_mesh_node_storage_used_bytes"@,
        "Storage used by mesh node."@,
        "gauge"@,
    );
    let t4 = with_header(
        t3,
        "av_mesh_node_egress_capacity_bps"@,
        "Advertised egress capacity by mesh node."@,
        "gauge"@,
    );
    let t5 = with_header(t4, "av_mesh_node_streams"@, "Streams by mesh node and kind."@, "gauge"@);
    lemma_nodes(t5, snapshot.nodes@, snapshot.nodes@.len() as int);
}

proof fn lemma_edges_section(t: Seq<char>, snapshot: MeshApiSnapshot)
    ensures
        goes_on(t, edges_section(t, snapshot)),
        forall|i: int|
            0 <= i < snapshot.edge_services@.len() ==> tells_edge(
                edges_section(t, snapshot),
                #[trigger] snapshot.edge_services@[i],
            ),
{
    broadcast use {lemma_on, lemma_header};

    let t1 = with_header(
        t,
        "av_mesh_edge_active_readers"@,
        "Current edge readers by mesh node."@,
        "gauge"@,
    );
    let t2 = with_header(
        t1,
        "av_mesh_edge_requests_total"@,
        "Edge media read requests by mesh node."@,
        "counter"@,
    );
    let t3 = with_header(
        t2,
        "av_mesh_edge_bytes_total"@,
        "Edge media bytes served by mesh node."@,
        "counter"@,
    );
    let t4 = with_header(
        t3,
        "av_mesh_edge_llhls_tail_requests_total"@,
        "LL-HLS tail requests by mesh node."@,
        "counter"@,
    );
    let t5 = with_header(
        t4,
        "av_mesh_edge_responses_total"@,
        "Recorded LL-HLS responses by mesh node and outcome."@,
        "counter"@,
    );
    lemma_edges(t5, snapshot.edge_services@, snapshot.edge_services@.len() as int);
}

proof fn lemma_response_times_section(t: Seq<char>, snapshot: MeshApiSnapshot, fractions: Fractions)
    ensures
        goes_on(t, response_times_section(t, snapshot, fractions)),
        forall|i: int|
            0 <= i < snapshot.edge_services@.len() ==> tells_times(
                response_times_section(t, snapshot, fractions),
                #[trigger] snapshot.edge_services@[i],
                fractions.response_duration_sum_seconds@[i]@,
            ),
{
    broadcast use {lemma_on, lemma_header};

    let t1 = with_header(
        t,
        "av_mesh_edge_response_duration_seconds"@,
        "Time spent producing an LL-HLS edge response."@,
        "histogram"@,
    );
    lemma_all_response_times(
        t1,
        snapshot.edge_services@,
        fractions.response_duration_sum_seconds@,
        snapshot.edge_services@.len() as int,
    );
}

proof fn lemma_streams_section(t: Seq<char>, snapshot: MeshApiSnapshot, fractions: Fractions)
    ensures
        goes_on(t, streams_section(t, snapshot, fractions)),
        forall|i: int|
            0 <= i < snapshot.streams@.len() ==> tells_stream(
                streams_section(t, snapshot, fractions),
                #[trigger] snapshot.streams@[i],
                fractions.streams@[i],
            ),
{
    broadcast use {lemma_on, lemma_header};

    let t1 = with_header(
        t,
        "av_mesh_stream_bytes_received_total"@,
        "Mesh ingest bytes received by node and stream."@,
        "counter"@,
    );
    let t2 = with_header(
        t1,
        "av_mesh_stream_datagrams_received_total"@,
        "Mesh ingest datagrams received by node and stream."@,
        "counter"@,
    );
    let t3 = with_header(
        t2,
        "av_mesh_stream_latest_part"@,
        "Latest part sequence by node, stream, and source."@,
        "gauge"@,
    );
    let t4 = with_header(
        t3,
        "av_mesh_stream_canonical_epoch"@,
        "Active canonical media-object source incarnation epoch by node and stream."@,
        "gauge"@,
    );
    let t5 = with_header(
        t4,
        "av_mesh_stream_canonical_epoch_activation_delay_seconds"@,
        "Delay from contributor source-epoch creation to first canonical object activation by node and stream."@,
        "gauge"@,
    );
    let t6 = with_header(
        t5,
        "av_mesh_stream_canonical_head_object"@,
        "Latest canonical media-object identity received by node and stream."@,
        "gauge"@,
    );
    let t7 = with_header(
        t6,
        "av_mesh_stream_contiguous_object"@,
        "Highest canonical media object available through the contiguous publication prefix."@,
        "gauge"@,
    );
    let t8 = with_header(
        t7,
        "av_mesh_stream_known_gap_count"@,
        "Known missing canonical objects in the retained live window."@,
        "gauge"@,
    );
    let t9 = with_header(
        t8,
        "av_mesh_stream_last_ingest_age_seconds"@,
        "Age of the latest mesh ingest by node and stream."@,
        "gauge"@,
    );
    let t10 = with_header(
        t9,
        "av_mesh_stream_latest_local_part_age_seconds"@,
        "Age of the latest locally committed LL-HLS part by node and stream."@,
        "gauge"@,
    );
    let t11 = with_header(
        t10,
        "av_mesh_stream_lag_parts"@,
        "Canonical contiguous-object lag behind the freshest comparable node by stream."@,
        "gauge"@,
    );
    lemma_streams(t11, snapshot.streams@, fractions.streams@, snapshot.streams@.len() as int);
}

proof fn lemma_alerts_section(t: Seq<char>, snapshot: MeshApiSnapshot)
    ensures
        goes_on(t, alerts_section(t, snapshot)),
        forall|i: int|
            0 <= i < snapshot.alerts@.len() ==> tells(
                alerts_section(t, snapshot),
                alert_line(#[trigger] snapshot.alerts@[i]),
            ),
{
    broadcast use {lemma_on, lemma_header};

    let t1 = with_header(
        t,
        "av_mesh_alerts"@,
        "Current mesh alert counts by severity and stable alert code."@,
        "gauge"@,
    );
    lemma_alerts_of(t1, snapshot.alerts@, snapshot.alerts@.len() as int);
}

/// The metrics up to a section.
spec fn upto(snapshot: MeshApiSnapshot, fractions: Fractions, k: int) -> Seq<char>
    decreases k,
{
    if k <= 0 {
        ""@
    } else {
        let t = upto(snapshot, fractions, k - 1);
        if k == 1 {
            mesh_section(t, snapshot)
        } else if k == 2 {
            transport_section(t, snapshot, fractions)
        } else if k == 3 {
            fec_section(t, snapshot)
        } else if k == 4 {
            fec_kinds_section(t, snapshot)
        } else if k == 5 {
            sessions_section(t, snapshot)
        } else if k == 6 {
            datagrams_section(t, snapshot)
        } else if k == 7 {
            forwarding_section(t, snapshot)
        } else if k == 8 {
            processing_section(t, snapshot)
        } else if k == 9 {
            forward_time_section(t, snapshot)
        } else if k == 10 {
            publication_section(t, snapshot)
        } else if k == 11 {
            failover_state_section(t, snapshot)
        } else if k == 12 {
            failover_section(t, snapshot)
        } else if k == 13 {
            failover_commands_section(t, snapshot)
        } else if k == 14 {
            topology_section(t, snapshot)
        } else if k == 15 {
            epoch_section(t, snapshot, fractions)
        } else if k == 16 {
            nodes_section(t, snapshot)
        } else if k == 17 {
            edges_section(t, snapshot)
        } else if k == 18 {
            response_times_section(t, snapshot, fractions)
        } else if k == 19 {
            streams_section(t, snapshot, fractions)
        } else if k == 20 {
            alerts_section(t, snapshot)
        } else {
            t
        }
    }
}

#[verifier::rlimit(50)]
proof fn lemma_whole(snapshot: MeshApiSnapshot, fractions: Fractions)
    ensures
        mesh_metrics(snapshot, fractions) == upto(snapshot, fractions, 20),
{
    let t0 = upto(snapshot, fractions, 0);
    let t1 = mesh_section(t0, snapshot);
    assert(upto(snapshot, fractions, 1) == t1);
    let t2 = transport_section(t1, snapshot, fractions);
    assert(upto(snapshot, fractions, 2) == t2);
    let t3 = fec_section(t2, snapshot);
    assert(upto(snapshot, fractions, 3) == t3);
    let t4 = fec_kinds_section(t3, snapshot);
    assert(upto(snapshot, fractions, 4) == t4);
    let t5 = sessions_section(t4, snapshot);
    assert(upto(snapshot, fractions, 5) == t5);
    let t6 = datagrams_section(t5, snapshot);
    assert(upto(snapshot, fractions, 6) == t6);
    let t7 = forwarding_section(t6, snapshot);
    assert(upto(snapshot, fractions, 7) == t7);
    let t8 = processing_section(t7, snapshot);
    assert(upto(snapshot, fractions, 8) == t8);
    let t9 = forward_time_section(t8, snapshot);
    assert(upto(snapshot, fractions, 9) == t9);
    let t10 = publication_section(t9, snapshot);
    assert(upto(snapshot, fractions, 10) == t10);
    let t11 = failover_state_section(t10, snapshot);
    assert(upto(snapshot, fractions, 11) == t11);
    let t12 = failover_section(t11, snapshot);
    assert(upto(snapshot, fractions, 12) == t12);
    let t13 = failover_commands_section(t12, snapshot);
    assert(upto(snapshot, fractions, 13) == t13);
    let t14 = topology_section(t13, snapshot);
    assert(upto(snapshot, fractions, 14) == t14);
    let t15 = epoch_section(t14, snapshot, fractions);
    assert(upto(snapshot, fractions, 15) == t15);
    let t16 = nodes_section(t15, snapshot);
    assert(upto(snapshot, fractions, 16) == t16);
    let t17 = edges_section(t16, snapshot);
    assert(upto(snapshot, fractions, 17) == t17);
    let t18 = response_times_section(t17, snapshot, fractions);
    assert(upto(snapshot, fractions, 18) == t18);
    let t19 = streams_section(t18, snapshot, fractions);
    assert(upto(snapshot, fractions, 19) == t19);
    let t20 = alerts_section(t19, snapshot);
    assert(upto(snapshot, fractions, 20) == t20);
    assert(mesh_metrics(snapshot, fractions) == t20);
}

proof fn lemma_step(snapshot: MeshApiSnapshot, fractions: Fractions, k: int)
    requires
        0 < k <= 20,
    ensures
        goes_on(upto(snapshot, fractions, k - 1), upto(snapshot, fractions, k)),
{
    let t = upto(snapshot, fractions, k - 1);
    if k == 1 {
        lemma_mesh(t, snapshot);
    } else if k == 2 {
        lemma_transport(t, snapshot, fractions);
    } else if k == 3 {
        lemma_fec(t, snapshot);
    } else if k == 4 {
        lemma_fec_kinds(t, snapshot);
    } else if k == 5 {
        lemma_sessions(t, snapshot);
    } else if k == 6 {
        lemma_datagrams(t, snapshot);
    } else if k == 7 {
        lemma_forwarding(t, snapshot);
    } else if k == 8 {
        lemma_processing(t, snapshot);
    } else if k == 9 {
        lemma_forward_time(t, snapshot);
    } else if k == 10 {
        lemma_publication(t, snapshot);
    } else if k == 11 {
        lemma_failover_state(t, snapshot);
    } else if k == 12 {
        lemma_failover(t, snapshot);
    } else if k == 13 {
        lemma_failover_commands(t, snapshot);
    } else if k == 14 {
        lemma_topology(t, snapshot);
    } else if k == 15 {
        lemma_epoch(t, snapshot, fractions);
    } else if k == 16 {
        lemma_nodes_section(t, snapshot);
    } else if k == 17 {
        lemma_edges_section(t, snapshot);
    } else if k == 18 {
        lemma_response_times_section(t, snapshot, fractions);
    } else if k == 19 {
        lemma_streams_section(t, snapshot, fractions);
    } else if k == 20 {
        lemma_alerts_section(t, snapshot);
    }
}

proof fn lemma_from(snapshot: MeshApiSnapshot, fractions: Fractions, k: int)
    requires
        0 <= k <= 20,
    ensures
        goes_on(upto(snapshot, fractions, k), mesh_metrics(snapshot, fractions)),
    decreases 20 - k,
{
    if k == 20 {
        lemma_whole(snapshot, fractions);
        lemma_same(upto(snapshot, fractions, 20));
    } else {
        lemma_from(snapshot, fractions, k + 1);
        lemma_step(snapshot, fractions, k + 1);
        lemma_on(
            upto(snapshot, fractions, k),
            upto(snapshot, fractions, k + 1),
            mesh_metrics(snapshot, fractions),
        );
    }
}

/// The metrics tell the sums of the mesh, each under its own name.
pub proof fn the_sums_of_the_mesh_are_told(snapshot: MeshApiSnapshot, fractions: Fractions)
    ensures
        tells_sums(mesh_metrics(snapshot, fractions), snapshot),
{
    let t = upto(snapshot, fractions, 0);
    let u = upto(snapshot, fractions, 1);
    lemma_mesh(t, snapshot);
    assert(u == mesh_section(t, snapshot));
    lemma_from(snapshot, fractions, 1);
    let m = mesh_metrics(snapshot, fractions);
    lemma_mesh_stays(u, m, snapshot);
}

/// The metrics tell how the transport is set up.
pub proof fn the_transport_is_told(snapshot: MeshApiSnapshot, fractions: Fractions)
    ensures
        tells_transport(mesh_metrics(snapshot, fractions), snapshot, fractions),
{
    let t = upto(snapshot, fractions, 1);
    let u = upto(snapshot, fractions, 2);
    lemma_transport(t, snapshot, fractions);
    assert(u == transport_section(t, snapshot, fractions));
    lemma_from(snapshot, fractions, 2);
    let m = mesh_metrics(snapshot, fractions);
    lemma_transport_stays(u, m, snapshot, fractions);
}

/// The metrics tell what was sent and received with repair, and what went wrong.
pub proof fn repair_is_told(snapshot: MeshApiSnapshot, fractions: Fractions)
    ensures
        tells_repair(mesh_metrics(snapshot, fractions), snapshot),
{
    let t = upto(snapshot, fractions, 2);
    let u = upto(snapshot, fractions, 3);
    lemma_fec(t, snapshot);
    assert(u == fec_section(t, snapshot));
    lemma_from(snapshot, fractions, 3);
    let m = mesh_metrics(snapshot, fractions);
    lemma_fec_stays(u, m, snapshot);
}

/// The metrics tell datagrams and objects of repair by their kind and outcome.
pub proof fn repair_is_told_by_kind(snapshot: MeshApiSnapshot, fractions: Fractions)
    ensures
        tells_repair_kinds(mesh_metrics(snapshot, fractions), snapshot),
{
    let t = upto(snapshot, fractions, 3);
    let u = upto(snapshot, fractions, 4);
    lemma_fec_kinds(t, snapshot);
    assert(u == fec_kinds_section(t, snapshot));
    lemma_from(snapshot, fractions, 4);
    let m = mesh_metrics(snapshot, fractions);
    lemma_fec_kinds_stays(u, m, snapshot);
}

/// The metrics tell the sessions of a relay by their role and trust, and what they hold.
pub proof fn sessions_are_told(snapshot: MeshApiSnapshot, fractions: Fractions)
    ensures
        tells_sessions(mesh_metrics(snapshot, fractions), snapshot),
{
    let t = upto(snapshot, fractions, 4);
    let u = upto(snapshot, fractions, 5);
    lemma_sessions(t, snapshot);
    assert(u == sessions_section(t, snapshot));
    lemma_from(snapshot, fractions, 5);
    let m = mesh_metrics(snapshot, fractions);
    lemma_sessions_stays(u, m, snapshot);
}

/// The metrics tell the datagrams and objects of a relay by their outcome.
pub proof fn datagrams_are_told(snapshot: MeshApiSnapshot, fractions: Fractions)
    ensures
        tells_datagrams(mesh_metrics(snapshot, fractions), snapshot),
{
    let t = upto(snapshot, fractions, 5);
    let u = upto(snapshot, fractions, 6);
    lemma_datagrams(t, snapshot);
    assert(u == datagrams_section(t, snapshot));
    lemma_from(snapshot, fractions, 6);
    let m = mesh_metrics(snapshot, fractions);
    lemma_datagrams_stays(u, m, snapshot);
}

/// The metrics tell what a relay forwards to its children and holds back for them.
pub proof fn forwarding_is_told(snapshot: MeshApiSnapshot, fractions: Fractions)
    ensures
        tells_forwarding(mesh_metrics(snapshot, fractions), snapshot),
{
    let t = upto(snapshot, fractions, 6);
    let u = upto(snapshot, fractions, 7);
    lemma_forwarding(t, snapshot);
    assert(u == forwarding_section(t, snapshot));
    lemma_from(snapshot, fractions, 7);
    let m = mesh_metrics(snapshot, fractions);
    lemma_forwarding_stays(u, m, snapshot);
}

/// The metrics tell how long a relay takes for its objects: by bucket, in all and at most.
pub proof fn processing_times_are_told(snapshot: MeshApiSnapshot, fractions: Fractions)
    ensures
        tells_processing(mesh_metrics(snapshot, fractions), snapshot),
{
    let t = upto(snapshot, fractions, 7);
    let u = upto(snapshot, fractions, 8);
    lemma_processing(t, snapshot);
    assert(u == processing_section(t, snapshot));
    lemma_from(snapshot, fractions, 8);
    let m = mesh_metrics(snapshot, fractions);
    lemma_processing_stays(u, m, snapshot);
}

/// The metrics tell how long a relay takes to forward: by bucket, in all and at most.
pub proof fn forwarding_times_are_told(snapshot: MeshApiSnapshot, fractions: Fractions)
    ensures
        tells_forward_times(mesh_metrics(snapshot, fractions), snapshot),
{
    let t = upto(snapshot, fractions, 8);
    let u = upto(snapshot, fractions, 9);
    lemma_forward_time(t, snapshot);
    assert(u == forward_time_section(t, snapshot));
    lemma_from(snapshot, fractions, 9);
    let m = mesh_metrics(snapshot, fractions);
    lemma_forward_time_stays(u, m, snapshot);
}

/// The metrics tell how long objects take to become available: by bucket, in all and at most.
pub proof fn publication_times_are_told(snapshot: MeshApiSnapshot, fractions: Fractions)
    ensures
        tells_publication(mesh_metrics(snapshot, fractions), snapshot),
{
    let t = upto(snapshot, fractions, 9);
    let u = upto(snapshot, fractions, 10);
    lemma_publication(t, snapshot);
    assert(u == publication_section(t, snapshot));
    lemma_from(snapshot, fractions, 10);
    let m = mesh_metrics(snapshot, fractions);
    lemma_publication_stays(u, m, snapshot);
}

/// The metrics tell each state of failover, as one where it is the current one and else as nothing.
pub proof fn the_state_of_failover_is_told(snapshot: MeshApiSnapshot, fractions: Fractions)
    ensures
        tells_failover_state(mesh_metrics(snapshot, fractions), snapshot),
{
    let t = upto(snapshot, fractions, 10);
    let u = upto(snapshot, fractions, 11);
    lemma_failover_state(t, snapshot);
    assert(u == failover_state_section(t, snapshot));
    lemma_from(snapshot, fractions, 11);
    let m = mesh_metrics(snapshot, fractions);
    lemma_failover_state_stays(u, m, snapshot);
}

/// The metrics tell the ages, times and gaps of failover.
pub proof fn failover_is_told(snapshot: MeshApiSnapshot, fractions: Fractions)
    ensures
        tells_failover(mesh_metrics(snapshot, fractions), snapshot),
{
    let t = upto(snapshot, fractions, 11);
    let u = upto(snapshot, fractions, 12);
    lemma_failover(t, snapshot);
    assert(u == failover_section(t, snapshot));
    lemma_from(snapshot, fractions, 12);
    let m = mesh_metrics(snapshot, fractions);
    lemma_failover_stays(u, m, snapshot);
}

/// The metrics tell the commands and changes of failover by their side and outcome.
pub proof fn commands_of_failover_are_told(snapshot: MeshApiSnapshot, fractions: Fractions)
    ensures
        tells_failover_commands(mesh_metrics(snapshot, fractions), snapshot),
{
    let t = upto(snapshot, fractions, 12);
    let u = upto(snapshot, fractions, 13);
    lemma_failover_commands(t, snapshot);
    assert(u == failover_commands_section(t, snapshot));
    lemma_from(snapshot, fractions, 13);
    let m = mesh_metrics(snapshot, fractions);
    lemma_failover_commands_stays(u, m, snapshot);
}

/// The metrics tell the peers by what is known of them, and the nodes by how fresh they are.
pub proof fn the_topology_is_told(snapshot: MeshApiSnapshot, fractions: Fractions)
    ensures
        tells_topology(mesh_metrics(snapshot, fractions), snapshot),
{
    let t = upto(snapshot, fractions, 13);
    let u = upto(snapshot, fractions, 14);
    lemma_topology(t, snapshot);
    assert(u == topology_section(t, snapshot));
    lemma_from(snapshot, fractions, 14);
    let m = mesh_metrics(snapshot, fractions);
    lemma_topology_stays(u, m, snapshot);
}

/// The metrics tell how many streams diverge, and the longest delay of an epoch.
pub proof fn epochs_are_told(snapshot: MeshApiSnapshot, fractions: Fractions)
    ensures
        tells_epochs(mesh_metrics(snapshot, fractions), snapshot, fractions),
{
    let t = upto(snapshot, fractions, 14);
    let u = upto(snapshot, fractions, 15);
    lemma_epoch(t, snapshot, fractions);
    assert(u == epoch_section(t, snapshot, fractions));
    lemma_from(snapshot, fractions, 15);
    let m = mesh_metrics(snapshot, fractions);
    lemma_epoch_stays(u, m, snapshot, fractions);
}

/// The metrics tell of every node.
pub proof fn nodes_are_told(snapshot: MeshApiSnapshot, fractions: Fractions)
    ensures
        forall|i: int|
            0 <= i < snapshot.nodes@.len() ==> tells_node(
                mesh_metrics(snapshot, fractions),
                #[trigger] snapshot.nodes@[i],
            ),
{
    let t = upto(snapshot, fractions, 15);
    let u = upto(snapshot, fractions, 16);
    lemma_nodes_section(t, snapshot);
    assert(u == nodes_section(t, snapshot));
    lemma_from(snapshot, fractions, 16);
    let m = mesh_metrics(snapshot, fractions);
    assert forall|i: int| 0 <= i < snapshot.nodes@.len() implies tells_node(
        m,
        #[trigger] snapshot.nodes@[i],
    ) by {
        lemma_node_stays(u, m, snapshot.nodes@[i]);
    }
}

/// The metrics tell of every edge.
pub proof fn edges_are_told(snapshot: MeshApiSnapshot, fractions: Fractions)
    ensures
        forall|i: int|
            0 <= i < snapshot.edge_services@.len() ==> tells_edge(
                mesh_metrics(snapshot, fractions),
                #[trigger] snapshot.edge_services@[i],
            ),
{
    let t = upto(snapshot, fractions, 16);
    let u = upto(snapshot, fractions, 17);
    lemma_edges_section(t, snapshot);
    assert(u == edges_section(t, snapshot));
    lemma_from(snapshot, fractions, 17);
    let m = mesh_metrics(snapshot, fractions);
    assert forall|i: int| 0 <= i < snapshot.edge_services@.len() implies tells_edge(
        m,
        #[trigger] snapshot.edge_services@[i],
    ) by {
        lemma_edge_stays(u, m, snapshot.edge_services@[i]);
    }
}

/// The metrics tell the response times of every edge.
pub proof fn response_times_are_told(snapshot: MeshApiSnapshot, fractions: Fractions)
    requires
        fractions.covers(snapshot),
    ensures
        forall|i: int|
            0 <= i < snapshot.edge_services@.len() ==> tells_times(
                mesh_metrics(snapshot, fractions),
                #[trigger] snapshot.edge_services@[i],
                fractions.response_duration_sum_seconds@[i]@,
            ),
{
    let t = upto(snapshot, fractions, 17);
    let u = upto(snapshot, fractions, 18);
    lemma_response_times_section(t, snapshot, fractions);
    assert(u == response_times_section(t, snapshot, fractions));
    lemma_from(snapshot, fractions, 18);
    let m = mesh_metrics(snapshot, fractions);
    assert forall|i: int| 0 <= i < snapshot.edge_services@.len() implies tells_times(
        m,
        #[trigger] snapshot.edge_services@[i],
        fractions.response_duration_sum_seconds@[i]@,
    ) by {
        lemma_times_stay(
            u,
            m,
            snapshot.edge_services@[i],
            fractions.response_duration_sum_seconds@[i]@,
        );
    }
}

/// The metrics tell of every stream.
pub proof fn streams_are_told(snapshot: MeshApiSnapshot, fractions: Fractions)
    requires
        fractions.covers(snapshot),
    ensures
        forall|i: int|
            0 <= i < snapshot.streams@.len() ==> tells_stream(
                mesh_metrics(snapshot, fractions),
                #[trigger] snapshot.streams@[i],
                fractions.streams@[i],
            ),
{
    let t = upto(snapshot, fractions, 18);
    let u = upto(snapshot, fractions, 19);
    lemma_streams_section(t, snapshot, fractions);
    assert(u == streams_section(t, snapshot, fractions));
    lemma_from(snapshot, fractions, 19);
    let m = mesh_metrics(snapshot, fractions);
    assert forall|i: int| 0 <= i < snapshot.streams@.len() implies tells_stream(
        m,
        #[trigger] snapshot.streams@[i],
        fractions.streams@[i],
    ) by {
        lemma_stream_stays(u, m, snapshot.streams@[i], fractions.streams@[i]);
    }
}

/// The metrics tell of every alert, by its level, code, node and stream, how often it holds.
pub proof fn alerts_are_told(snapshot: MeshApiSnapshot, fractions: Fractions)
    ensures
        forall|i: int|
            0 <= i < snapshot.alerts@.len() ==> tells(
                mesh_metrics(snapshot, fractions),
                alert_line(#[trigger] snapshot.alerts@[i]),
            ),
{
    let t = upto(snapshot, fractions, 19);
    let u = upto(snapshot, fractions, 20);
    lemma_alerts_section(t, snapshot);
    assert(u == alerts_section(t, snapshot));
    lemma_from(snapshot, fractions, 20);
    let m = mesh_metrics(snapshot, fractions);
    assert forall|i: int| 0 <= i < snapshot.alerts@.len() implies tells(
        m,
        alert_line(#[trigger] snapshot.alerts@[i]),
    ) by {
        lemma_stays(u, m, alert_line(snapshot.alerts@[i]));
    }
}

/// The labels of a node, an edge, a stream and an alert name it: each name is followed by what it
/// stands for, in quotes and escaped.
pub proof fn labels_name_what_they_label(
    node: MeshNode,
    edge: EdgeServiceSnapshot,
    stream: StreamTelemetry,
    alert: MeshAlert,
)
    ensures
        node_labels(node) == "node_id=\""@ + escaped(node.node_id@) + "\",region=\""@ + escaped(
            node.region@,
        ) + "\",continent=\""@ + escaped(node.continent@) + "\""@,
        edge_labels(edge) == "node_id=\""@ + escaped(edge.node_id@) + "\",region=\""@ + escaped(
            edge.region@,
        ) + "\""@,
        stream_labels(stream) == "node_id=\""@ + escaped(stream.node_id@) + "\",stream_id=\""@
            + escaped(stream.stream_id_text@) + "\""@,
        alert.node_id is Some && alert.stream_id_text is Some ==> alert_labels(alert)
            == "level=\""@ + escaped(alert.level@) + "\",code=\""@ + escaped(alert.code@)
            + "\",node_id=\""@ + escaped((alert.node_id->0)@) + "\",stream_id=\""@ + escaped(
            (alert.stream_id_text->0)@,
        ) + "\""@,
{
    reveal_strlit("node_id");
    reveal_strlit("region");
    reveal_strlit("continent");
    reveal_strlit("stream_id");
    reveal_strlit("level");
    reveal_strlit("code");
    reveal_strlit(",");
    reveal_strlit("\"");
    reveal_strlit("=\"");
    reveal_strlit("node_id=\"");
    reveal_strlit("level=\"");
    reveal_strlit("\",region=\"");
    reveal_strlit("\",continent=\"");
    reveal_strlit("\",stream_id=\"");
    reveal_strlit("\",code=\"");
    reveal_strlit("\",node_id=\"");
    assert("node_id=\""@ =~= "node_id"@ + "=\""@);
    assert("level=\""@ =~= "level"@ + "=\""@);
    assert("\",region=\""@ =~= "\""@ + ","@ + "region"@ + "=\""@);
    assert("\",continent=\""@ =~= "\""@ + ","@ + "continent"@ + "=\""@);
    assert("\",stream_id=\""@ =~= "\""@ + ","@ + "stream_id"@ + "=\""@);
    assert("\",code=\""@ =~= "\""@ + ","@ + "code"@ + "=\""@);
    assert("\",node_id=\""@ =~= "\""@ + ","@ + "node_id"@ + "=\""@);
    assert(node_labels(node) =~= "node_id=\""@ + escaped(node.node_id@) + "\",region=\""@ + escaped(
        node.region@,
    ) + "\",continent=\""@ + escaped(node.continent@) + "\""@);
    assert(edge_labels(edge) =~= "node_id=\""@ + escaped(edge.node_id@) + "\",region=\""@ + escaped(
        edge.region@,
    ) + "\""@);
    assert(stream_labels(stream) =~= "node_id=\""@ + escaped(stream.node_id@)
        + "\",stream_id=\""@ + escaped(stream.stream_id_text@) + "\""@);
    if alert.node_id is Some && alert.stream_id_text is Some {
        assert(alert_labels(alert) =~= "level=\""@ + escaped(alert.level@) + "\",code=\""@
            + escaped(alert.code@) + "\",node_id=\""@ + escaped((alert.node_id->0)@)
            + "\",stream_id=\""@ + escaped((alert.stream_id_text->0)@) + "\""@);
    }
}

/// The longest delay of an epoch is one that a stream tells of, and none is longer; it is nothing
/// where none is told of.
pub proof fn the_longest_delay_is_told(streams: Seq<StreamTelemetry>)
    ensures
        forall|i: int|
            0 <= i < streams.len() && (
            #[trigger] streams[i]).canonical_epoch_activation_delay_us is Some
                ==> streams[i].canonical_epoch_activation_delay_us->0 <= longest_activation_delay(
                streams,
            ),
        longest_activation_delay(streams) > 0 ==> exists|i: int|
            0 <= i < streams.len() && (#[trigger] streams[i]).canonical_epoch_activation_delay_us
                == Some(longest_activation_delay(streams)),
    decreases streams.len(),
{
    if streams.len() > 0 {
        let front = streams.drop_last();
        let n = streams.len() - 1;
        the_longest_delay_is_told(front);
        assert(streams.last() == streams[n]);
        assert forall|i: int| 0 <= i < n implies front[i] == #[trigger] streams[i] by {}
        if longest_activation_delay(front) > 0 {
            let i = choose|i: int|
                0 <= i < front.len() && (
                #[trigger] front[i]).canonical_epoch_activation_delay_us == Some(
                    longest_activation_delay(front),
                );
            assert(streams[i] == front[i]);
        }
    }
}

/// The states of failover have names of their own.
pub proof fn states_have_their_names(
    a: RelayFailoverControllerState,
    b: RelayFailoverControllerState,
)
    ensures
        a.text() == b.text() ==> a == b,
        RelayFailoverControllerState::Disabled.text() == "disabled"@,
        RelayFailoverControllerState::Arming.text() == "arming"@,
        RelayFailoverControllerState::Healthy.text() == "healthy"@,
        RelayFailoverControllerState::Promoted.text() == "promoted"@,
        RelayFailoverControllerState::Recovering.text() == "recovering"@,
        RelayFailoverControllerState::SecondaryUnavailable.text() == "secondary_unavailable"@,
{
    reveal_strlit("disabled");
    reveal_strlit("arming");
    reveal_strlit("healthy");
    reveal_strlit("promoted");
    reveal_strlit("recovering");
    reveal_strlit("secondary_unavailable");
    assert("disabled"@[0] == 'd' && "arming"@[0] == 'a' && "healthy"@[0] == 'h');
    assert("promoted"@[0] == 'p' && "recovering"@[0] == 'r' && "secondary_unavailable"@[0] == 's');
}

/// A metric is announced by two lines behind the text before them: what it is about, and its kind.
pub proof fn metrics_are_announced(
    t: Seq<char>,
    name: Seq<char>,
    help: Seq<char>,
    kind: Seq<char>,
)
    ensures
        with_header(t, name, help, kind) == t + ("# HELP "@ + name + " "@ + help + "\n"@) + (
        "# TYPE "@ + name + " "@ + kind + "\n"@),
{
    assert(with_header(t, name, help, kind) =~= t + ("# HELP "@ + name + " "@ + help + "\n"@) + (
    "# TYPE "@ + name + " "@ + kind + "\n"@));
}

} // verus!
