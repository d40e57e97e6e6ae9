//! The view of a mesh as the text that a Prometheus server scrapes.

use vstd::prelude::*;
use vstd::string::*;
use crate::alerts::MeshAlert;
use crate::api::MeshApiSnapshot;
use crate::edge::EdgeServiceSnapshot;
use crate::histogram::{EDGE_RESPONSE_DURATION_BUCKETS_US, PUBLICATION_AVAILABILITY_BUCKETS_US};
use crate::mesh::MeshNode;
use crate::relay_snapshot::RelayFailoverControllerState;
use crate::streams::{
    canonical_epoch_divergent_stream_count, divergent_count, telemetry_views, StreamTelemetry,
};
use crate::text::{chars_of, decimal, decimal_text, same_text, view_of};

verus! {

/// How a character stands inside a label's quotes.
pub open spec fn escaped_char(c: char) -> Seq<char> {
    if c == '\\' {
        seq!['\\', '\\']
    } else if c == '\n' {
        seq!['\\', 'n']
    } else if c == '"' {
        seq!['\\', '"']
    } else {
        seq![c]
    }
}

/// How a text stands inside a label's quotes.
pub open spec fn escaped(s: Seq<char>) -> Seq<char>
    decreases s.len(),
{
    if s.len() == 0 {
        Seq::empty()
    } else {
        escaped(s.drop_last()) + escaped_char(s.last())
    }
}

/// What a reader makes of the text inside a label's quotes.
pub open spec fn unescaped(s: Seq<char>) -> Seq<char>
    decreases s.len(),
{
    if s.len() == 0 {
        Seq::empty()
    } else if s[0] == '\\' && s.len() > 1 {
        seq![if s[1] == 'n' { '\n' } else { s[1] }] + unescaped(s.skip(2))
    } else {
        seq![s[0]] + unescaped(s.skip(1))
    }
}

/// Whether the text inside a label's quotes ends before its last character: at a quote that
/// nothing escapes.
pub open spec fn ends_early(s: Seq<char>) -> bool
    decreases s.len(),
{
    if s.len() == 0 {
        false
    } else if s[0] == '\\' {
        s.len() == 1 || ends_early(s.skip(2))
    } else {
        s[0] == '"' || ends_early(s.skip(1))
    }
}

proof fn lemma_escaped_first(s: Seq<char>)
    requires
        s.len() > 0,
    ensures
        escaped(s) == escaped_char(s[0]) + escaped(s.skip(1)),
    decreases s.len(),
{
    if s.len() == 1 {
        assert(s.drop_last() =~= Seq::<char>::empty());
        assert(s.skip(1) =~= Seq::<char>::empty());
        assert(escaped(s) =~= escaped_char(s[0]) + escaped(s.skip(1)));
    } else {
        lemma_escaped_first(s.drop_last());
        assert(s.skip(1).drop_last() =~= s.drop_last().skip(1));
        assert(escaped(s) =~= escaped_char(s[0]) + escaped(s.skip(1)));
    }
}

/// A label's value is read back as it was, and stays within its quotes and on its line.
pub proof fn label_reads_back(s: Seq<char>)
    ensures
        unescaped(escaped(s)) == s,
        !ends_early(escaped(s)),
        !escaped(s).contains('\n'),
    decreases s.len(),
{
    if s.len() > 0 {
        lemma_escaped_first(s);
        label_reads_back(s.skip(1));
        let head = escaped_char(s[0]);
        let rest = escaped(s.skip(1));
        let all = head + rest;
        assert(all.skip(head.len() as int) =~= rest);
        assert(all[0] == head[0]);
        assert(head.len() == 2 ==> all[1] == head[1]);
        assert(seq![s[0]] + s.skip(1) =~= s);
        assert forall|i: int| 0 <= i < all.len() implies all[i] != '\n' by {
            if i < head.len() {
                assert(all[i] == head[i]);
            } else {
                assert(all[i] == rest[i - head.len()]);
                assert(rest.contains(rest[i - head.len()]));
            }
        }
    }
}

/// How a text stands inside a label's quotes.
pub fn prometheus_label_value(value: &str) -> (r: String)
    ensures
        r@ == escaped(value@),
{
    let chars = chars_of(value);
    let mut out = String::new();
    let mut i: usize = 0;
    proof {
        assert(value@.take(0) =~= Seq::<char>::empty());
    }
    while i < chars.len()
        invariant
            chars@ == value@,
            i <= chars.len(),
            out@ == escaped(value@.take(i as int)),
        decreases chars.len() - i,
    {
        proof {
            assert(value@.take(i + 1).drop_last() =~= value@.take(i as int));
            assert(value@.take(i + 1).last() == value@[i as int]);
        }
        let c = chars[i];
        if c == '\\' {
            out.push('\\');
            out.push('\\');
        } else if c == '\n' {
            out.push('\\');
            out.push('n');
        } else if c == '"' {
            out.push('\\');
            out.push('"');
        } else {
            out.push(c);
        }
        proof {
            assert(out@ =~= escaped(value@.take(i + 1)));
        }
        i = i + 1;
    }
    proof {
        assert(value@.take(i as int) =~= value@);
    }
    out
}

/// The texts of the fractional numbers of one stream; a text whose number the stream lacks
/// is not read.
#[derive(Debug)]
pub struct StreamFractions {
    pub activation_delay_seconds: String,
    pub last_ingest_age_seconds: String,
    pub latest_local_part_age_seconds: String,
}

/// The texts of the fractional numbers of a view: seconds that are kept as milliseconds or
/// microseconds, and the repair ratio.
#[derive(Debug)]
pub struct Fractions {
    pub sync_interval_seconds: String,
    pub repair_ratio: String,
    pub activation_delay_max_seconds: String,
    /// The time spent on responses, of each edge.
    pub response_duration_sum_seconds: Vec<String>,
    pub streams: Vec<StreamFractions>,
}

impl Fractions {
    /// Whether there are texts for every edge and every stream of a view.
    pub open spec fn covers(self, snapshot: MeshApiSnapshot) -> bool {
        &&& self.response_duration_sum_seconds@.len() == snapshot.edge_services@.len()
        &&& self.streams@.len() == snapshot.streams@.len()
    }
}

/// The longest delay with which a source epoch became active; zero where none is known.
pub open spec fn longest_activation_delay(streams: Seq<StreamTelemetry>) -> u64
    decreases streams.len(),
{
    if streams.len() == 0 {
        0
    } else {
        let front = longest_activation_delay(streams.drop_last());
        match streams.last().canonical_epoch_activation_delay_us {
            Some(delay) => if delay > front {
                delay
            } else {
                front
            },
            None => front,
        }
    }
}

/// The longest delay with which a source epoch became active, in microseconds; zero where none
/// is known.
pub fn canonical_epoch_activation_delay_max_us(streams: &Vec<StreamTelemetry>) -> (r: u64)
    ensures
        r == longest_activation_delay(streams@),
{
    let mut longest: u64 = 0;
    let mut i: usize = 0;
    proof {
        assert(streams@.take(0) =~= Seq::<StreamTelemetry>::empty());
    }
    while i < streams.len()
        invariant
            i <= streams.len(),
            longest == longest_activation_delay(streams@.take(i as int)),
        decreases streams.len() - i,
    {
        proof {
            assert(streams@.take(i + 1).drop_last() =~= streams@.take(i as int));
            assert(streams@.take(i + 1).last() == streams@[i as int]);
        }
        if let Some(delay) = streams[i].canonical_epoch_activation_delay_us {
            if delay > longest {
                longest = delay;
            }
        }
        i = i + 1;
    }
    proof {
        assert(streams@.take(i as int) =~= streams@);
    }
    longest
}

/// A text with the two lines that announce a metric.
pub open spec fn with_header(
    t: Seq<char>,
    name: Seq<char>,
    help: Seq<char>,
    kind: Seq<char>,
) -> Seq<char> {
    t + "# HELP "@ + name + " "@ + help + "\n"@ + "# TYPE "@ + name + " "@ + kind + "\n"@
}

/// A text with a line for one value of a metric.
pub open spec fn with_sample(
    t: Seq<char>,
    name: Seq<char>,
    labels: Seq<char>,
    value: Seq<char>,
) -> Seq<char> {
    if labels.len() == 0 {
        t + name + " "@ + value + "\n"@
    } else {
        t + name + "{"@ + labels + "} "@ + value + "\n"@
    }
}

/// A text with a metric of one value.
pub open spec fn with_scalar(
    t: Seq<char>,
    name: Seq<char>,
    help: Seq<char>,
    kind: Seq<char>,
    value: Seq<char>,
) -> Seq<char> {
    with_sample(with_header(t, name, help, kind), name, ""@, value)
}

/// A text with the first `k` buckets of a histogram.
pub open spec fn with_buckets(
    t: Seq<char>,
    name: Seq<char>,
    bounds: Seq<u64>,
    counts: Seq<u64>,
    k: int,
) -> Seq<char>
    decreases k,
{
    if k <= 0 {
        t
    } else {
        with_sample(
            with_buckets(t, name, bounds, counts, k - 1),
            name,
            "le=\""@ + decimal(bounds[k - 1] as nat) + "\""@,
            decimal(counts[k - 1] as nat),
        )
    }
}

/// A text with a line that says whether a state is the current one.
pub open spec fn with_state(
    t: Seq<char>,
    state: RelayFailoverControllerState,
    current: RelayFailoverControllerState,
) -> Seq<char> {
    with_sample(
        t,
        "av_mesh_relay_failover_state"@,
        "state=\""@ + state.text() + "\""@,
        decimal(if state == current { 1 } else { 0 }),
    )
}

/// Appends the two lines that announce a metric.
pub fn push_prometheus_metric_header(
    output: &mut String,
    name: &str,
    help: &str,
    metric_type: &str,
)
    ensures
        final(output)@ == with_header(old(output)@, name@, help@, metric_type@),
{
    output.append("# HELP ");
    output.append(name);
    output.append(" ");
    output.append(help);
    output.append("\n");
    output.append("# TYPE ");
    output.append(name);
    output.append(" ");
    output.append(metric_type);
    output.append("\n");
}

fn push_sample_text(out: &mut String, name: &str, labels: &str, value: &str)
    ensures
        final(out)@ == with_sample(old(out)@, name@, labels@, value@),
{
    proof {
        reveal_strlit("");
    }
    let none: bool = same_text(labels, "");
    if none {
        out.append(name);
        out.append(" ");
    } else {
        proof {
            if labels@.len() == 0 {
                assert(labels@ =~= ""@);
            }
        }
        out.append(name);
        out.append("{");
        out.append(labels);
        out.append("} ");
    }
    out.append(value);
    out.append("\n");
}

fn push_sample(out: &mut String, name: &str, labels: &str, value: u64)
    ensures
        final(out)@ == with_sample(old(out)@, name@, labels@, decimal(value as nat)),
{
    push_sample_text(out, name, labels, decimal_text(value).as_str());
}

fn push_scalar_text(out: &mut String, name: &str, help: &str, kind: &str, value: &str)
    ensures
        final(out)@ == with_scalar(old(out)@, name@, help@, kind@, value@),
{
    push_prometheus_metric_header(out, name, help, kind);
    push_sample_text(out, name, "", value);
}

fn push_scalar(out: &mut String, name: &str, help: &str, kind: &str, value: u64)
    ensures
        final(out)@ == with_scalar(old(out)@, name@, help@, kind@, decimal(value as nat)),
{
    push_scalar_text(out, name, help, kind, decimal_text(value).as_str());
}

fn push_buckets<const N: usize>(
    out: &mut String,
    name: &str,
    bounds: &[u64; N],
    counts: &[u64; N],
)
    ensures
        final(out)@ == with_buckets(old(out)@, name@, bounds@, counts@, N as int),
{
    let mut i: usize = 0;
    let ghost before = out@;
    while i < N
        invariant
            i <= N,
            out@ == with_buckets(before, name@, bounds@, counts@, i as int),
        decreases N - i,
    {
        let mut labels = "le=\"".to_owned();
        labels.append(decimal_text(bounds[i]).as_str());
        labels.append("\"");
        push_sample(out, name, labels.as_str(), counts[i]);
        i = i + 1;
    }
}

fn push_state(
    out: &mut String,
    state: RelayFailoverControllerState,
    current: RelayFailoverControllerState,
)
    ensures
        final(out)@ == with_state(old(out)@, state, current),
{
    let mut labels = "state=\"".to_owned();
    labels.append(state.as_str());
    labels.append("\"");
    let value: u64 = if state == current {
        1
    } else {
        0
    };
    push_sample(out, "av_mesh_relay_failover_state", labels.as_str(), value);
}

/// What the mesh holds as a whole.
pub open spec fn mesh_section(t: Seq<char>, snapshot: MeshApiSnapshot) -> Seq<char> {
    let t = with_scalar(
        t,
        "av_mesh_nodes"@,
        "Mesh nodes currently visible in telemetry."@,
        "gauge"@,
        decimal(snapshot.aggregate.node_count as nat),
    );
    let t = with_scalar(
        t,
        "av_mesh_connections"@,
        "Directed mesh connections currently visible in telemetry."@,
        "gauge"@,
        decimal(snapshot.aggregate.connection_count as nat),
    );
    let t = with_scalar(
        t,
        "av_mesh_storage_bytes"@,
        "Total storage capacity visible across the mesh."@,
        "gauge"@,
        decimal(snapshot.aggregate.total_storage_bytes as nat),
    );
    let t = with_scalar(
        t,
        "av_mesh_storage_used_bytes"@,
        "Storage currently used across the mesh."@,
        "gauge"@,
        decimal(snapshot.aggregate.used_storage_bytes as nat),
    );
    let t = with_scalar(
        t,
        "av_mesh_egress_capacity_bps"@,
        "Advertised aggregate mesh egress capacity in bits per second."@,
        "gauge"@,
        decimal(snapshot.aggregate.total_egress_capacity_bps as nat),
    );
    let t = with_scalar(
        t,
        "av_mesh_contributor_streams"@,
        "Contributor streams currently visible across the mesh."@,
        "gauge"@,
        decimal(snapshot.aggregate.contributor_streams as nat),
    );
    let t = with_scalar(
        t,
        "av_mesh_active_streams"@,
        "Active streams currently visible across the mesh."@,
        "gauge"@,
        decimal(snapshot.aggregate.active_streams as nat),
    );
    let t = with_scalar(
        t,
        "av_mesh_planned_replicas"@,
        "Replica placements currently requested by mesh policy."@,
        "gauge"@,
        decimal(snapshot.planned_replicas@.len() as nat),
    );
    t
}

fn push_mesh_section(out: &mut String, snapshot: &MeshApiSnapshot)
    ensures
        final(out)@ == mesh_section(old(out)@, *snapshot),
{
    push_scalar(
        out,
        "av_mesh_nodes",
        "Mesh nodes currently visible in telemetry.",
        "gauge",
        snapshot.aggregate.node_count as u64,
    );
    push_scalar(
        out,
        "av_mesh_connections",
        "Directed mesh connections currently visible in telemetry.",
        "gauge",
        snapshot.aggregate.connection_count as u64,
    );
    push_scalar(
        out,
        "av_mesh_storage_bytes",
        "Total storage capacity visible across the mesh.",
        "gauge",
        snapshot.aggregate.total_storage_bytes as u64,
    );
    push_scalar(
        out,
        "av_mesh_storage_used_bytes",
        "Storage currently used across the mesh.",
        "gauge",
        snapshot.aggregate.used_storage_bytes as u64,
    );
    push_scalar(
        out,
        "av_mesh_egress_capacity_bps",
        "Advertised aggregate mesh egress capacity in bits per second.",
        "gauge",
        snapshot.aggregate.total_egress_capacity_bps as u64,
    );
    push_scalar(
        out,
        "av_mesh_contributor_streams",
        "Contributor streams currently visible across the mesh.",
        "gauge",
        snapshot.aggregate.contributor_streams as u64,
    );
    push_scalar(
        out,
        "av_mesh_active_streams",
        "Active streams currently visible across the mesh.",
        "gauge",
        snapshot.aggregate.active_streams as u64,
    );
    push_scalar(
        out,
        "av_mesh_planned_replicas",
        "Replica placements currently requested by mesh policy.",
        "gauge",
        snapshot.planned_replicas.len() as u64,
    );
}

/// How the cache mesh is carried.
pub open spec fn transport_section(
    t: Seq<char>,
    snapshot: MeshApiSnapshot,
    fractions: Fractions,
) -> Seq<char> {
    let t = with_scalar(
        t,
        "av_mesh_transport_sync_interval_seconds"@,
        "Configured cache-mesh replication scan interval in seconds."@,
        "gauge"@,
        fractions.sync_interval_seconds@,
    );
    let t = with_scalar(
        t,
        "av_mesh_transport_fec_repair_ratio"@,
        "Configured proportional cache-mesh FEC repair ratio."@,
        "gauge"@,
        fractions.repair_ratio@,
    );
    let t = with_scalar(
        t,
        "av_mesh_transport_fec_min_repair_symbols"@,
        "Configured minimum cache-mesh FEC repair symbols per object."@,
        "gauge"@,
        decimal(snapshot.mesh_transport.min_repair_symbols as nat),
    );
    let t = with_scalar(
        t,
        "av_mesh_transport_fec_max_repair_symbols"@,
        "Configured maximum cache-mesh FEC repair symbols per object."@,
        "gauge"@,
        decimal(snapshot.mesh_transport.max_repair_symbols as nat),
    );
    let t = with_scalar(
        t,
        "av_mesh_transport_fec_symbol_bytes"@,
        "Configured cache-mesh FEC symbol size in bytes."@,
        "gauge"@,
        decimal(snapshot.mesh_transport.symbol_size as nat),
    );
    t
}

fn push_transport_section(out: &mut String, snapshot: &MeshApiSnapshot, fractions: &Fractions)
    ensures
        final(out)@ == transport_section(old(out)@, *snapshot, *fractions),
{
    push_scalar_text(
        out,
        "av_mesh_transport_sync_interval_seconds",
        "Configured cache-mesh replication scan interval in seconds.",
        "gauge",
        fractions.sync_interval_seconds.as_str(),
    );
    push_scalar_text(
        out,
        "av_mesh_transport_fec_repair_ratio",
        "Configured proportional cache-mesh FEC repair ratio.",
        "gauge",
        fractions.repair_ratio.as_str(),
    );
    push_scalar(
        out,
        "av_mesh_transport_fec_min_repair_symbols",
        "Configured minimum cache-mesh FEC repair symbols per object.",
        "gauge",
        snapshot.mesh_transport.min_repair_symbols as u64,
    );
    push_scalar(
        out,
        "av_mesh_transport_fec_max_repair_symbols",
        "Configured maximum cache-mesh FEC repair symbols per object.",
        "gauge",
        snapshot.mesh_transport.max_repair_symbols as u64,
    );
    push_scalar(
        out,
        "av_mesh_transport_fec_symbol_bytes",
        "Configured cache-mesh FEC symbol size in bytes.",
        "gauge",
        snapshot.mesh_transport.symbol_size as u64,
    );
}

/// What the cache mesh sent and received.
pub open spec fn fec_section(t: Seq<char>, snapshot: MeshApiSnapshot) -> Seq<char> {
    let t = with_scalar(
        t,
        "av_mesh_fec_tx_objects_total"@,
        "Cache-mesh objects encoded and offered to a peer."@,
        "counter"@,
        decimal(snapshot.mesh_fec.tx_objects as nat),
    );
    let t = with_scalar(
        t,
        "av_mesh_fec_tx_protected_bytes_total"@,
        "Application bytes protected by cache-mesh FEC."@,
        "counter"@,
        decimal(snapshot.mesh_fec.tx_protected_bytes as nat),
    );
    let t = with_scalar(
        t,
        "av_mesh_fec_tx_wire_bytes_total"@,
        "Cache-mesh FEC datagram bytes sent on the wire."@,
        "counter"@,
        decimal(snapshot.mesh_fec.tx_wire_bytes as nat),
    );
    let t = with_scalar(
        t,
        "av_mesh_fec_tx_errors_total"@,
        "Cache-mesh FEC encode or datagram send errors."@,
        "counter"@,
        decimal(snapshot.mesh_fec.tx_errors as nat),
    );
    let t = with_scalar(
        t,
        "av_mesh_fec_rx_wire_datagrams_total"@,
        "Cache-mesh UDP datagrams received, including malformed datagrams."@,
        "counter"@,
        decimal(snapshot.mesh_fec.rx_wire_datagrams as nat),
    );
    let t = with_scalar(
        t,
        "av_mesh_fec_rx_wire_bytes_total"@,
        "Cache-mesh UDP datagram bytes received on the wire."@,
        "counter"@,
        decimal(snapshot.mesh_fec.rx_wire_bytes as nat),
    );
    let t = with_scalar(
        t,
        "av_mesh_fec_rx_decoded_bytes_total"@,
        "Application bytes successfully decoded from cache-mesh FEC."@,
        "counter"@,
        decimal(snapshot.mesh_fec.rx_decoded_bytes as nat),
    );
    let t = with_scalar(
        t,
        "av_mesh_fec_rx_repaired_source_datagrams_total"@,
        "Cache-mesh source symbols absent when successful FEC decoding completed."@,
        "counter"@,
        decimal(snapshot.mesh_fec.rx_repaired_source_datagrams as nat),
    );
    let t = with_scalar(
        t,
        "av_mesh_fec_rx_late_source_datagrams_total"@,
        "Source symbols that arrived after repair data had already completed cache-mesh decoding."@,
        "counter"@,
        decimal(snapshot.mesh_fec.rx_late_source_datagrams as nat),
    );
    let t = with_scalar(
        t,
        "av_mesh_fec_rx_presumed_lost_source_datagrams_total"@,
        "FEC-repaired source symbols that remained absent through the bounded late-arrival window."@,
        "counter"@,
        decimal(snapshot.mesh_fec.rx_presumed_lost_source_datagrams as nat),
    );
    let t = with_scalar(
        t,
        "av_mesh_fec_rx_decode_errors_total"@,
        "Cache-mesh FEC datagrams rejected during decode."@,
        "counter"@,
        decimal(snapshot.mesh_fec.rx_decode_errors as nat),
    );
    t
}

fn push_fec_section(out: &mut String, snapshot: &MeshApiSnapshot)
    ensures
        final(out)@ == fec_section(old(out)@, *snapshot),
{
    push_scalar(
        out,
        "av_mesh_fec_tx_objects_total",
        "Cache-mesh objects encoded and offered to a peer.",
        "counter",
        snapshot.mesh_fec.tx_objects as u64,
    );
    push_scalar(
        out,
        "av_mesh_fec_tx_protected_bytes_total",
        "Application bytes protected by cache-mesh FEC.",
        "counter",
        snapshot.mesh_fec.tx_protected_bytes as u64,
    );
    push_scalar(
        out,
        "av_mesh_fec_tx_wire_bytes_total",
        "Cache-mesh FEC datagram bytes sent on the wire.",
        "counter",
        snapshot.mesh_fec.tx_wire_bytes as u64,
    );
    push_scalar(
        out,
        "av_mesh_fec_tx_errors_total",
        "Cache-mesh FEC encode or datagram send errors.",
        "counter",
        snapshot.mesh_fec.tx_errors as u64,
    );
    push_scalar(
        out,
        "av_mesh_fec_rx_wire_datagrams_total",
        "Cache-mesh UDP datagrams received, including malformed datagrams.",
        "counter",
        snapshot.mesh_fec.rx_wire_datagrams as u64,
    );
    push_scalar(
        out,
        "av_mesh_fec_rx_wire_bytes_total",
        "Cache-mesh UDP datagram bytes received on the wire.",
        "counter",
        snapshot.mesh_fec.rx_wire_bytes as u64,
    );
    push_scalar(
        out,
        "av_mesh_fec_rx_decoded_bytes_total",
        "Application bytes successfully decoded from cache-mesh FEC.",
        "counter",
        snapshot.mesh_fec.rx_decoded_bytes as u64,
    );
    push_scalar(
        out,
        "av_mesh_fec_rx_repaired_source_datagrams_total",
        "Cache-mesh source symbols absent when successful FEC decoding completed.",
        "counter",
        snapshot.mesh_fec.rx_repaired_source_datagrams as u64,
    );
    push_scalar(
        out,
        "av_mesh_fec_rx_late_source_datagrams_total",
        "Source symbols that arrived after repair data had already completed cache-mesh decoding.",
        "counter",
        snapshot.mesh_fec.rx_late_source_datagrams as u64,
    );
    push_scalar(
        out,
        "av_mesh_fec_rx_presumed_lost_source_datagrams_total",
        "FEC-repaired source symbols that remained absent through the bounded late-arrival window.",
        "counter",
        snapshot.mesh_fec.rx_presumed_lost_source_datagrams as u64,
    );
    push_scalar(
        out,
        "av_mesh_fec_rx_decode_errors_total",
        "Cache-mesh FEC datagrams rejected during decode.",
        "counter",
        snapshot.mesh_fec.rx_decode_errors as u64,
    );
}

/// What the cache mesh sent and received, by kind.
pub open spec fn fec_kinds_section(t: Seq<char>, snapshot: MeshApiSnapshot) -> Seq<char> {
    let t = with_header(
        t,
        "av_mesh_fec_tx_datagrams_total"@,
        "Cache-mesh FEC datagrams sent by symbol kind."@,
        "counter"@,
    );
    let t = with_sample(
        t,
        "av_mesh_fec_tx_datagrams_total"@,
        "kind=\"source\""@,
        decimal(snapshot.mesh_fec.tx_source_datagrams as nat),
    );
    let t = with_sample(
        t,
        "av_mesh_fec_tx_datagrams_total"@,
        "kind=\"repair\""@,
        decimal(snapshot.mesh_fec.tx_repair_datagrams as nat),
    );
    let t = with_header(
        t,
        "av_mesh_fec_rx_datagrams_total"@,
        "Structurally valid cache-mesh FEC datagrams received by symbol kind."@,
        "counter"@,
    );
    let t = with_sample(
        t,
        "av_mesh_fec_rx_datagrams_total"@,
        "kind=\"source\""@,
        decimal(snapshot.mesh_fec.rx_source_datagrams as nat),
    );
    let t = with_sample(
        t,
        "av_mesh_fec_rx_datagrams_total"@,
        "kind=\"repair\""@,
        decimal(snapshot.mesh_fec.rx_repair_datagrams as nat),
    );
    let t = with_header(
        t,
        "av_mesh_fec_rx_objects_total"@,
        "Cache-mesh FEC object outcomes; repaired objects are a subset of decoded objects."@,
        "counter"@,
    );
    let t = with_sample(
        t,
        "av_mesh_fec_rx_objects_total"@,
        "outcome=\"decoded\""@,
        decimal(snapshot.mesh_fec.rx_decoded_objects as nat),
    );
    let t = with_sample(
        t,
        "av_mesh_fec_rx_objects_total"@,
        "outcome=\"repaired\""@,
        decimal(snapshot.mesh_fec.rx_repaired_objects as nat),
    );
    let t = with_sample(
        t,
        "av_mesh_fec_rx_objects_total"@,
        "outcome=\"expired\""@,
        decimal(snapshot.mesh_fec.rx_expired_objects as nat),
    );
    let t = with_header(
        t,
        "av_mesh_fec_rx_inflight_objects"@,
        "Incomplete cache-mesh FEC objects currently observed."@,
        "gauge"@,
    );
    let t = with_sample(
        t,
        "av_mesh_fec_rx_inflight_objects"@,
        ""@,
        decimal(snapshot.mesh_fec.rx_inflight_objects as nat),
    );
    t
}

fn push_fec_kinds_section(out: &mut String, snapshot: &MeshApiSnapshot)
    ensures
        final(out)@ == fec_kinds_section(old(out)@, *snapshot),
{
    push_prometheus_metric_header(
        out,
        "av_mesh_fec_tx_datagrams_total",
        "Cache-mesh FEC datagrams sent by symbol kind.",
        "counter",
    );
    push_sample(
        out,
        "av_mesh_fec_tx_datagrams_total",
        "kind=\"source\"",
        snapshot.mesh_fec.tx_source_datagrams as u64,
    );
    push_sample(
        out,
        "av_mesh_fec_tx_datagrams_total",
        "kind=\"repair\"",
        snapshot.mesh_fec.tx_repair_datagrams as u64,
    );
    push_prometheus_metric_header(
        out,
        "av_mesh_fec_rx_datagrams_total",
        "Structurally valid cache-mesh FEC datagrams received by symbol kind.",
        "counter",
    );
    push_sample(
        out,
        "av_mesh_fec_rx_datagrams_total",
        "kind=\"source\"",
        snapshot.mesh_fec.rx_source_datagrams as u64,
    );
    push_sample(
        out,
        "av_mesh_fec_rx_datagrams_total",
        "kind=\"repair\"",
        snapshot.mesh_fec.rx_repair_datagrams as u64,
    );
    push_prometheus_metric_header(
        out,
        "av_mesh_fec_rx_objects_total",
        "Cache-mesh FEC object outcomes; repaired objects are a subset of decoded objects.",
        "counter",
    );
    push_sample(
        out,
        "av_mesh_fec_rx_objects_total",
        "outcome=\"decoded\"",
        snapshot.mesh_fec.rx_decoded_objects as u64,
    );
    push_sample(
        out,
        "av_mesh_fec_rx_objects_total",
        "outcome=\"repaired\"",
        snapshot.mesh_fec.rx_repaired_objects as u64,
    );
    push_sample(
        out,
        "av_mesh_fec_rx_objects_total",
        "outcome=\"expired\"",
        snapshot.mesh_fec.rx_expired_objects as u64,
    );
    push_prometheus_metric_header(
        out,
        "av_mesh_fec_rx_inflight_objects",
        "Incomplete cache-mesh FEC objects currently observed.",
        "gauge",
    );
    push_sample(
        out,
        "av_mesh_fec_rx_inflight_objects",
        "",
        snapshot.mesh_fec.rx_inflight_objects as u64,
    );
}

/// The sessions of the relay and what they hold.
pub open spec fn sessions_section(t: Seq<char>, snapshot: MeshApiSnapshot) -> Seq<char> {
    let t = with_header(
        t,
        "av_mesh_relay_session_parent_sessions"@,
        "Configured RelaySession parent sessions by assigned path role."@,
        "gauge"@,
    );
    let t = with_sample(
        t,
        "av_mesh_relay_session_parent_sessions"@,
        "role=\"primary\""@,
        decimal(snapshot.relay_session.primary_sessions as nat),
    );
    let t = with_sample(
        t,
        "av_mesh_relay_session_parent_sessions"@,
        "role=\"secondary\""@,
        decimal(snapshot.relay_session.secondary_sessions as nat),
    );
    let t = with_header(
        t,
        "av_mesh_relay_session_security_sessions"@,
        "RelaySession carrier bindings by established trust boundary."@,
        "gauge"@,
    );
    let t = with_sample(
        t,
        "av_mesh_relay_session_security_sessions"@,
        "mode=\"authenticated\""@,
        decimal(snapshot.relay_session.authenticated_sessions as nat),
    );
    let t = with_sample(
        t,
        "av_mesh_relay_session_security_sessions"@,
        "mode=\"controlled_qualification\""@,
        decimal(snapshot.relay_session.controlled_sessions as nat),
    );
    let t = with_scalar(
        t,
        "av_mesh_relay_session_active_objects"@,
        "Canonical RelaySession objects currently awaiting RaptorQ completion."@,
        "gauge"@,
        decimal(snapshot.relay_session.active_objects as nat),
    );
    let t = with_scalar(
        t,
        "av_mesh_relay_session_completed_objects"@,
        "Completed RelaySession object identities retained for bounded deduplication."@,
        "gauge"@,
        decimal(snapshot.relay_session.completed_objects as nat),
    );
    let t = with_scalar(
        t,
        "av_mesh_relay_session_active_object_bytes"@,
        "Declared transfer bytes reserved by active RelaySession objects."@,
        "gauge"@,
        decimal(snapshot.relay_session.active_object_bytes as nat),
    );
    let t = with_scalar(
        t,
        "av_mesh_relay_session_buffered_datagrams"@,
        "Accepted RelaySession datagrams owned by incomplete objects."@,
        "gauge"@,
        decimal(snapshot.relay_session.buffered_datagrams as nat),
    );
    t
}

fn push_sessions_section(out: &mut String, snapshot: &MeshApiSnapshot)
    ensures
        final(out)@ == sessions_section(old(out)@, *snapshot),
{
    push_prometheus_metric_header(
        out,
        "av_mesh_relay_session_parent_sessions",
        "Configured RelaySession parent sessions by assigned path role.",
        "gauge",
    );
    push_sample(
        out,
        "av_mesh_relay_session_parent_sessions",
        "role=\"primary\"",
        snapshot.relay_session.primary_sessions as u64,
    );
    push_sample(
        out,
        "av_mesh_relay_session_parent_sessions",
        "role=\"secondary\"",
        snapshot.relay_session.secondary_sessions as u64,
    );
    push_prometheus_metric_header(
        out,
        "av_mesh_relay_session_security_sessions",
        "RelaySession carrier bindings by established trust boundary.",
        "gauge",
    );
    push_sample(
        out,
        "av_mesh_relay_session_security_sessions",
        "mode=\"authenticated\"",
        snapshot.relay_session.authenticated_sessions as u64,
    );
    push_sample(
        out,
        "av_mesh_relay_session_security_sessions",
        "mode=\"controlled_qualification\"",
        snapshot.relay_session.controlled_sessions as u64,
    );
    push_scalar(
        out,
        "av_mesh_relay_session_active_objects",
        "Canonical RelaySession objects currently awaiting RaptorQ completion.",
        "gauge",
        snapshot.relay_session.active_objects as u64,
    );
    push_scalar(
        out,
        "av_mesh_relay_session_completed_objects",
        "Completed RelaySession object identities retained for bounded deduplication.",
        "gauge",
        snapshot.relay_session.completed_objects as u64,
    );
    push_scalar(
        out,
        "av_mesh_relay_session_active_object_bytes",
        "Declared transfer bytes reserved by active RelaySession objects.",
        "gauge",
        snapshot.relay_session.active_object_bytes as u64,
    );
    push_scalar(
        out,
        "av_mesh_relay_session_buffered_datagrams",
        "Accepted RelaySession datagrams owned by incomplete objects.",
        "gauge",
        snapshot.relay_session.buffered_datagrams as u64,
    );
}

/// What became of the datagrams and objects of the relay.
pub open spec fn datagrams_section(t: Seq<char>, snapshot: MeshApiSnapshot) -> Seq<char> {
    let t = with_header(
        t,
        "av_mesh_relay_session_datagrams_total"@,
        "RelaySession datagram outcomes and accepted RaptorQ symbol roles."@,
        "counter"@,
    );
    let t = with_sample(
        t,
        "av_mesh_relay_session_datagrams_total"@,
        "outcome=\"received\""@,
        decimal(snapshot.relay_session.datagrams_received as nat),
    );
    let t = with_sample(
        t,
        "av_mesh_relay_session_datagrams_total"@,
        "outcome=\"rejected\""@,
        decimal(snapshot.relay_session.datagrams_rejected as nat),
    );
    let t = with_sample(
        t,
        "av_mesh_relay_session_datagrams_total"@,
        "outcome=\"source\""@,
        decimal(snapshot.relay_session.source_datagrams as nat),
    );
    let t = with_sample(
        t,
        "av_mesh_relay_session_datagrams_total"@,
        "outcome=\"repair\""@,
        decimal(snapshot.relay_session.repair_datagrams as nat),
    );
    let t = with_sample(
        t,
        "av_mesh_relay_session_datagrams_total"@,
        "outcome=\"duplicate\""@,
        decimal(snapshot.relay_session.duplicate_datagrams as nat),
    );
    let t = with_header(
        t,
        "av_mesh_relay_session_objects_total"@,
        "RelaySession canonical object outcomes; repair_assisted records symbol use while fec_recovered proves missing source reconstruction."@,
        "counter"@,
    );
    let t = with_sample(
        t,
        "av_mesh_relay_session_objects_total"@,
        "outcome=\"decoded\""@,
        decimal(snapshot.relay_session.decoded_objects as nat),
    );
    let t = with_sample(
        t,
        "av_mesh_relay_session_objects_total"@,
        "outcome=\"repair_assisted\""@,
        decimal(snapshot.relay_session.repair_assisted_objects as nat),
    );
    let t = with_sample(
        t,
        "av_mesh_relay_session_objects_total"@,
        "outcome=\"fec_recovered\""@,
        decimal(snapshot.relay_session.fec_recovered_objects as nat),
    );
    let t = with_sample(
        t,
        "av_mesh_relay_session_objects_total"@,
        "outcome=\"expired\""@,
        decimal(snapshot.relay_session.expired_objects as nat),
    );
    let t = with_header(
        t,
        "av_mesh_relay_session_fec_recovered_source_symbols_total"@,
        "Missing source symbols reconstructed by RaptorQ before object decode."@,
        "counter"@,
    );
    let t = with_sample(
        t,
        "av_mesh_relay_session_fec_recovered_source_symbols_total"@,
        ""@,
        decimal(snapshot.relay_session.fec_recovered_source_symbols as nat),
    );
    let t = with_header(
        t,
        "av_mesh_relay_session_drops_total"@,
        "RelaySession datagrams dropped by bounded low-cardinality reason."@,
        "counter"@,
    );
    let t = with_sample(
        t,
        "av_mesh_relay_session_drops_total"@,
        "reason=\"conflict\""@,
        decimal(snapshot.relay_session.conflict_drops as nat),
    );
    let t = with_sample(
        t,
        "av_mesh_relay_session_drops_total"@,
        "reason=\"authentication\""@,
        decimal(snapshot.relay_session.authentication_drops as nat),
    );
    let t = with_sample(
        t,
        "av_mesh_relay_session_drops_total"@,
        "reason=\"deadline\""@,
        decimal(snapshot.relay_session.deadline_drops as nat),
    );
    t
}

fn push_datagrams_section(out: &mut String, snapshot: &MeshApiSnapshot)
    ensures
        final(out)@ == datagrams_section(old(out)@, *snapshot),
{
    push_prometheus_metric_header(
        out,
        "av_mesh_relay_session_datagrams_total",
        "RelaySession datagram outcomes and accepted RaptorQ symbol roles.",
        "counter",
    );
    push_sample(
        out,
        "av_mesh_relay_session_datagrams_total",
        "outcome=\"received\"",
        snapshot.relay_session.datagrams_received as u64,
    );
    push_sample(
        out,
        "av_mesh_relay_session_datagrams_total",
        "outcome=\"rejected\"",
        snapshot.relay_session.datagrams_rejected as u64,
    );
    push_sample(
        out,
        "av_mesh_relay_session_datagrams_total",
        "outcome=\"source\"",
        snapshot.relay_session.source_datagrams as u64,
    );
    push_sample(
        out,
        "av_mesh_relay_session_datagrams_total",
        "outcome=\"repair\"",
        snapshot.relay_session.repair_datagrams as u64,
    );
    push_sample(
        out,
        "av_mesh_relay_session_datagrams_total",
        "outcome=\"duplicate\"",
        snapshot.relay_session.duplicate_datagrams as u64,
    );
    push_prometheus_metric_header(
        out,
        "av_mesh_relay_session_objects_total",
        "RelaySession canonical object outcomes; repair_assisted records symbol use while fec_recovered proves missing source reconstruction.",
        "counter",
    );
    push_sample(
        out,
        "av_mesh_relay_session_objects_total",
        "outcome=\"decoded\"",
        snapshot.relay_session.decoded_objects as u64,
    );
    push_sample(
        out,
        "av_mesh_relay_session_objects_total",
        "outcome=\"repair_assisted\"",
        snapshot.relay_session.repair_assisted_objects as u64,
    );
    push_sample(
        out,
        "av_mesh_relay_session_objects_total",
        "outcome=\"fec_recovered\"",
        snapshot.relay_session.fec_recovered_objects as u64,
    );
    push_sample(
        out,
        "av_mesh_relay_session_objects_total",
        "outcome=\"expired\"",
        snapshot.relay_session.expired_objects as u64,
    );
    push_prometheus_metric_header(
        out,
        "av_mesh_relay_session_fec_recovered_source_symbols_total",
        "Missing source symbols reconstructed by RaptorQ before object decode.",
        "counter",
    );
    push_sample(
        out,
        "av_mesh_relay_session_fec_recovered_source_symbols_total",
        "",
        snapshot.relay_session.fec_recovered_source_symbols as u64,
    );
    push_prometheus_metric_header(
        out,
        "av_mesh_relay_session_drops_total",
        "RelaySession datagrams dropped by bounded low-cardinality reason.",
        "counter",
    );
    push_sample(
        out,
        "av_mesh_relay_session_drops_total",
        "reason=\"conflict\"",
        snapshot.relay_session.conflict_drops as u64,
    );
    push_sample(
        out,
        "av_mesh_relay_session_drops_total",
        "reason=\"authentication\"",
        snapshot.relay_session.authentication_drops as u64,
    );
    push_sample(
        out,
        "av_mesh_relay_session_drops_total",
        "reason=\"deadline\"",
        snapshot.relay_session.deadline_drops as u64,
    );
}

/// What the relay forwarded and keeps for replay.
pub open spec fn forwarding_section(t: Seq<char>, snapshot: MeshApiSnapshot) -> Seq<char> {
    let t = with_header(
        t,
        "av_mesh_relay_session_downstream_children"@,
        "Explicit subscribed RelaySession children served by this relay."@,
        "gauge"@,
    );
    let t = with_sample(
        t,
        "av_mesh_relay_session_downstream_children"@,
        ""@,
        decimal(snapshot.relay_session.downstream_children as nat),
    );
    let t = with_header(
        t,
        "av_mesh_relay_session_forwarded_datagrams_total"@,
        "Admitted RaptorQ datagrams forwarded to subscribed children by symbol role."@,
        "counter"@,
    );
    let t = with_sample(
        t,
        "av_mesh_relay_session_forwarded_datagrams_total"@,
        "role=\"source\""@,
        decimal(snapshot.relay_session.forwarded_source_datagrams as nat),
    );
    let t = with_sample(
        t,
        "av_mesh_relay_session_forwarded_datagrams_total"@,
        "role=\"repair\""@,
        decimal(snapshot.relay_session.forwarded_repair_datagrams as nat),
    );
    let t = with_scalar(
        t,
        "av_mesh_relay_session_forwarded_bytes_total"@,
        "RelaySession wire bytes forwarded to subscribed children."@,
        "counter"@,
        decimal(snapshot.relay_session.forwarded_bytes as nat),
    );
    let t = with_scalar(
        t,
        "av_mesh_relay_session_forward_errors_total"@,
        "RelaySession downstream carrier send errors."@,
        "counter"@,
        decimal(snapshot.relay_session.forward_errors as nat),
    );
    let t = with_scalar(
        t,
        "av_mesh_relay_session_forward_filtered_datagrams_total"@,
        "Admitted RelaySession symbols intentionally retained by lane policy rather than forwarded."@,
        "counter"@,
        decimal(snapshot.relay_session.forward_filtered_datagrams as nat),
    );
    let t = with_scalar(
        t,
        "av_mesh_relay_warm_source_buffered_datagrams"@,
        "Unexpired source datagrams retained for immediate warm-secondary promotion."@,
        "gauge"@,
        decimal(snapshot.relay_session.warm_source_buffered_datagrams as nat),
    );
    let t = with_scalar(
        t,
        "av_mesh_relay_warm_source_buffered_bytes"@,
        "Wire bytes retained in the bounded warm-secondary source replay buffer."@,
        "gauge"@,
        decimal(snapshot.relay_session.warm_source_buffered_bytes as nat),
    );
    let t = with_scalar(
        t,
        "av_mesh_relay_warm_source_replayed_datagrams_total"@,
        "Retained source datagrams replayed immediately after secondary promotion."@,
        "counter"@,
        decimal(snapshot.relay_session.warm_source_replayed_datagrams as nat),
    );
    let t = with_scalar(
        t,
        "av_mesh_relay_warm_source_replayed_bytes_total"@,
        "Retained source bytes replayed immediately after secondary promotion."@,
        "counter"@,
        decimal(snapshot.relay_session.warm_source_replayed_bytes as nat),
    );
    let t = with_scalar(
        t,
        "av_mesh_relay_warm_source_expired_datagrams_total"@,
        "Retained source datagrams discarded because their object deadline elapsed."@,
        "counter"@,
        decimal(snapshot.relay_session.warm_source_expired_datagrams as nat),
    );
    let t = with_scalar(
        t,
        "av_mesh_relay_warm_source_retired_datagrams_total"@,
        "Retained source datagrams removed as completed objects leave the four-object replay window."@,
        "counter"@,
        decimal(snapshot.relay_session.warm_source_retired_datagrams as nat),
    );
    let t = with_scalar(
        t,
        "av_mesh_relay_warm_source_evicted_datagrams_total"@,
        "Retained source datagrams evicted by the fixed object, datagram, or byte bounds."@,
        "counter"@,
        decimal(snapshot.relay_session.warm_source_evicted_datagrams as nat),
    );
    t
}

fn push_forwarding_section(out: &mut String, snapshot: &MeshApiSnapshot)
    ensures
        final(out)@ == forwarding_section(old(out)@, *snapshot),
{
    push_prometheus_metric_header(
        out,
        "av_mesh_relay_session_downstream_children",
        "Explicit subscribed RelaySession children served by this relay.",
        "gauge",
    );
    push_sample(
        out,
        "av_mesh_relay_session_downstream_children",
        "",
        snapshot.relay_session.downstream_children as u64,
    );
    push_prometheus_metric_header(
        out,
        "av_mesh_relay_session_forwarded_datagrams_total",
        "Admitted RaptorQ datagrams forwarded to subscribed children by symbol role.",
        "counter",
    );
    push_sample(
        out,
        "av_mesh_relay_session_forwarded_datagrams_total",
        "role=\"source\"",
        snapshot.relay_session.forwarded_source_datagrams as u64,
    );
    push_sample(
        out,
        "av_mesh_relay_session_forwarded_datagrams_total",
        "role=\"repair\"",
        snapshot.relay_session.forwarded_repair_datagrams as u64,
    );
    push_scalar(
        out,
        "av_mesh_relay_session_forwarded_bytes_total",
        "RelaySession wire bytes forwarded to subscribed children.",
        "counter",
        snapshot.relay_session.forwarded_bytes as u64,
    );
    push_scalar(
        out,
        "av_mesh_relay_session_forward_errors_total",
        "RelaySession downstream carrier send errors.",
        "counter",
        snapshot.relay_session.forward_errors as u64,
    );
    push_scalar(
        out,
        "av_mesh_relay_session_forward_filtered_datagrams_total",
        "Admitted RelaySession symbols intentionally retained by lane policy rather than forwarded.",
        "counter",
        snapshot.relay_session.forward_filtered_datagrams as u64,
    );
    push_scalar(
        out,
        "av_mesh_relay_warm_source_buffered_datagrams",
        "Unexpired source datagrams retained for immediate warm-secondary promotion.",
        "gauge",
        snapshot.relay_session.warm_source_buffered_datagrams as u64,
    );
    push_scalar(
        out,
        "av_mesh_relay_warm_source_buffered_bytes",
        "Wire bytes retained in the bounded warm-secondary source replay buffer.",
        "gauge",
        snapshot.relay_session.warm_source_buffered_bytes as u64,
    );
    push_scalar(
        out,
        "av_mesh_relay_warm_source_replayed_datagrams_total",
        "Retained source datagrams replayed immediately after secondary promotion.",
        "counter",
        snapshot.relay_session.warm_source_replayed_datagrams as u64,
    );
    push_scalar(
        out,
        "av_mesh_relay_warm_source_replayed_bytes_total",
        "Retained source bytes replayed immediately after secondary promotion.",
        "counter",
        snapshot.relay_session.warm_source_replayed_bytes as u64,
    );
    push_scalar(
        out,
        "av_mesh_relay_warm_source_expired_datagrams_total",
        "Retained source datagrams discarded because their object deadline elapsed.",
        "counter",
        snapshot.relay_session.warm_source_expired_datagrams as u64,
    );
    push_scalar(
        out,
        "av_mesh_relay_warm_source_retired_datagrams_total",
        "Retained source datagrams removed as completed objects leave the four-object replay window.",
        "counter",
        snapshot.relay_session.warm_source_retired_datagrams as u64,
    );
    push_scalar(
        out,
        "av_mesh_relay_warm_source_evicted_datagrams_total",
        "Retained source datagrams evicted by the fixed object, datagram, or byte bounds.",
        "counter",
        snapshot.relay_session.warm_source_evicted_datagrams as u64,
    );
}

/// How long the relay took for a datagram.
pub open spec fn processing_section(t: Seq<char>, snapshot: MeshApiSnapshot) -> Seq<char> {
    let t = with_header(
        t,
        "av_mesh_relay_session_processing_duration_us"@,
        "Application processing time from RelaySession datagram receipt through forwarding and any completed-object cache commit, in microseconds."@,
        "histogram"@,
    );
    let t = with_buckets(
        t,
        "av_mesh_relay_session_processing_duration_us_bucket"@,
        EDGE_RESPONSE_DURATION_BUCKETS_US@,
        snapshot.relay_session.processing_duration_buckets@,
        13,
    );
    let t = with_sample(
        t,
        "av_mesh_relay_session_processing_duration_us_bucket"@,
        "le=\"+Inf\""@,
        decimal(snapshot.relay_session.processing_duration_count as nat),
    );
    let t = with_sample(
        t,
        "av_mesh_relay_session_processing_duration_us_sum"@,
        ""@,
        decimal(snapshot.relay_session.processing_duration_sum_us as nat),
    );
    let t = with_sample(
        t,
        "av_mesh_relay_session_processing_duration_us_count"@,
        ""@,
        decimal(snapshot.relay_session.processing_duration_count as nat),
    );
    let t = with_header(
        t,
        "av_mesh_relay_session_processing_duration_max_us"@,
        "Maximum observed RelaySession application processing time in microseconds."@,
        "gauge"@,
    );
    let t = with_sample(
        t,
        "av_mesh_relay_session_processing_duration_max_us"@,
        ""@,
        decimal(snapshot.relay_session.processing_duration_max_us as nat),
    );
    t
}

fn push_processing_section(out: &mut String, snapshot: &MeshApiSnapshot)
    ensures
        final(out)@ == processing_section(old(out)@, *snapshot),
{
    push_prometheus_metric_header(
        out,
        "av_mesh_relay_session_processing_duration_us",
        "Application processing time from RelaySession datagram receipt through forwarding and any completed-object cache commit, in microseconds.",
        "histogram",
    );
    push_buckets(
        out,
        "av_mesh_relay_session_processing_duration_us_bucket",
        &EDGE_RESPONSE_DURATION_BUCKETS_US,
        &snapshot.relay_session.processing_duration_buckets,
    );
    push_sample(
        out,
        "av_mesh_relay_session_processing_duration_us_bucket",
        "le=\"+Inf\"",
        snapshot.relay_session.processing_duration_count as u64,
    );
    push_sample(
        out,
        "av_mesh_relay_session_processing_duration_us_sum",
        "",
        snapshot.relay_session.processing_duration_sum_us as u64,
    );
    push_sample(
        out,
        "av_mesh_relay_session_processing_duration_us_count",
        "",
        snapshot.relay_session.processing_duration_count as u64,
    );
    push_prometheus_metric_header(
        out,
        "av_mesh_relay_session_processing_duration_max_us",
        "Maximum observed RelaySession application processing time in microseconds.",
        "gauge",
    );
    push_sample(
        out,
        "av_mesh_relay_session_processing_duration_max_us",
        "",
        snapshot.relay_session.processing_duration_max_us as u64,
    );
}

/// How long the relay took to send a datagram on.
pub open spec fn forward_time_section(t: Seq<char>, snapshot: MeshApiSnapshot) -> Seq<char> {
    let t = with_header(
        t,
        "av_mesh_relay_session_forward_duration_us"@,
        "Time to submit one admitted RelaySession datagram to one downstream child in microseconds."@,
        "histogram"@,
    );
    let t = with_buckets(
        t,
        "av_mesh_relay_session_forward_duration_us_bucket"@,
        EDGE_RESPONSE_DURATION_BUCKETS_US@,
        snapshot.relay_session.forward_duration_buckets@,
        13,
    );
    let t = with_sample(
        t,
        "av_mesh_relay_session_forward_duration_us_bucket"@,
        "le=\"+Inf\""@,
        decimal(snapshot.relay_session.forward_duration_count as nat),
    );
    let t = with_sample(
        t,
        "av_mesh_relay_session_forward_duration_us_sum"@,
        ""@,
        decimal(snapshot.relay_session.forward_duration_sum_us as nat),
    );
    let t = with_sample(
        t,
        "av_mesh_relay_session_forward_duration_us_count"@,
        ""@,
        decimal(snapshot.relay_session.forward_duration_count as nat),
    );
    let t = with_header(
        t,
        "av_mesh_relay_session_forward_duration_max_us"@,
        "Largest observed downstream RelaySession carrier submission time in microseconds."@,
        "gauge"@,
    );
    let t = with_sample(
        t,
        "av_mesh_relay_session_forward_duration_max_us"@,
        ""@,
        decimal(snapshot.relay_session.forward_duration_max_us as nat),
    );
    t
}

fn push_forward_time_section(out: &mut String, snapshot: &MeshApiSnapshot)
    ensures
        final(out)@ == forward_time_section(old(out)@, *snapshot),
{
    push_prometheus_metric_header(
        out,
        "av_mesh_relay_session_forward_duration_us",
        "Time to submit one admitted RelaySession datagram to one downstream child in microseconds.",
        "histogram",
    );
    push_buckets(
        out,
        "av_mesh_relay_session_forward_duration_us_bucket",
        &EDGE_RESPONSE_DURATION_BUCKETS_US,
        &snapshot.relay_session.forward_duration_buckets,
    );
    push_sample(
        out,
        "av_mesh_relay_session_forward_duration_us_bucket",
        "le=\"+Inf\"",
        snapshot.relay_session.forward_duration_count as u64,
    );
    push_sample(
        out,
        "av_mesh_relay_session_forward_duration_us_sum",
        "",
        snapshot.relay_session.forward_duration_sum_us as u64,
    );
    push_sample(
        out,
        "av_mesh_relay_session_forward_duration_us_count",
        "",
        snapshot.relay_session.forward_duration_count as u64,
    );
    push_prometheus_metric_header(
        out,
        "av_mesh_relay_session_forward_duration_max_us",
        "Largest observed downstream RelaySession carrier submission time in microseconds.",
        "gauge",
    );
    push_sample(
        out,
        "av_mesh_relay_session_forward_duration_max_us",
        "",
        snapshot.relay_session.forward_duration_max_us as u64,
    );
}

/// How long objects took from their publication.
pub open spec fn publication_section(t: Seq<char>, snapshot: MeshApiSnapshot) -> Seq<char> {
    let t = with_header(
        t,
        "av_mesh_relay_session_publication_to_available_us"@,
        "Canonical media time from contributor publication to verified local cache availability in microseconds."@,
        "histogram"@,
    );
    let t = with_buckets(
        t,
        "av_mesh_relay_session_publication_to_available_us_bucket"@,
        PUBLICATION_AVAILABILITY_BUCKETS_US@,
        snapshot.relay_session.publication_to_available_buckets@,
        16,
    );
    let t = with_sample(
        t,
        "av_mesh_relay_session_publication_to_available_us_bucket"@,
        "le=\"+Inf\""@,
        decimal(snapshot.relay_session.publication_to_available_count as nat),
    );
    let t = with_sample(
        t,
        "av_mesh_relay_session_publication_to_available_us_sum"@,
        ""@,
        decimal(snapshot.relay_session.publication_to_available_sum_us as nat),
    );
    let t = with_sample(
        t,
        "av_mesh_relay_session_publication_to_available_us_count"@,
        ""@,
        decimal(snapshot.relay_session.publication_to_available_count as nat),
    );
    let t = with_header(
        t,
        "av_mesh_relay_session_publication_to_available_max_us"@,
        "Largest observed contributor-publication to local-availability time in microseconds."@,
        "gauge"@,
    );
    let t = with_sample(
        t,
        "av_mesh_relay_session_publication_to_available_max_us"@,
        ""@,
        decimal(snapshot.relay_session.publication_to_available_max_us as nat),
    );
    let t = with_header(
        t,
        "av_mesh_relay_session_publication_clock_error_max_us"@,
        "Largest source-clock error bound attached to publication latency samples in microseconds."@,
        "gauge"@,
    );
    let t = with_sample(
        t,
        "av_mesh_relay_session_publication_clock_error_max_us"@,
        ""@,
        decimal(snapshot.relay_session.publication_clock_error_max_us as nat),
    );
    let t = with_header(
        t,
        "av_mesh_relay_session_publication_clock_unusable_objects_total"@,
        "Canonical media objects omitted from publication latency because their source clock was missing or unusable."@,
        "counter"@,
    );
    let t = with_sample(
        t,
        "av_mesh_relay_session_publication_clock_unusable_objects_total"@,
        ""@,
        decimal(snapshot.relay_session.publication_clock_unusable_objects as nat),
    );
    t
}

fn push_publication_section(out: &mut String, snapshot: &MeshApiSnapshot)
    ensures
        final(out)@ == publication_section(old(out)@, *snapshot),
{
    push_prometheus_metric_header(
        out,
        "av_mesh_relay_session_publication_to_available_us",
        "Canonical media time from contributor publication to verified local cache availability in microseconds.",
        "histogram",
    );
    push_buckets(
        out,
        "av_mesh_relay_session_publication_to_available_us_bucket",
        &PUBLICATION_AVAILABILITY_BUCKETS_US,
        &snapshot.relay_session.publication_to_available_buckets,
    );
    push_sample(
        out,
        "av_mesh_relay_session_publication_to_available_us_bucket",
        "le=\"+Inf\"",
        snapshot.relay_session.publication_to_available_count as u64,
    );
    push_sample(
        out,
        "av_mesh_relay_session_publication_to_available_us_sum",
        "",
        snapshot.relay_session.publication_to_available_sum_us as u64,
    );
    push_sample(
        out,
        "av_mesh_relay_session_publication_to_available_us_count",
        "",
        snapshot.relay_session.publication_to_available_count as u64,
    );
    push_prometheus_metric_header(
        out,
        "av_mesh_relay_session_publication_to_available_max_us",
        "Largest observed contributor-publication to local-availability time in microseconds.",
        "gauge",
    );
    push_sample(
        out,
        "av_mesh_relay_session_publication_to_available_max_us",
        "",
        snapshot.relay_session.publication_to_available_max_us as u64,
    );
    push_prometheus_metric_header(
        out,
        "av_mesh_relay_session_publication_clock_error_max_us",
        "Largest source-clock error bound attached to publication latency samples in microseconds.",
        "gauge",
    );
    push_sample(
        out,
        "av_mesh_relay_session_publication_clock_error_max_us",
        "",
        snapshot.relay_session.publication_clock_error_max_us as u64,
    );
    push_prometheus_metric_header(
        out,
        "av_mesh_relay_session_publication_clock_unusable_objects_total",
        "Canonical media objects omitted from publication latency because their source clock was missing or unusable.",
        "counter",
    );
    push_sample(
        out,
        "av_mesh_relay_session_publication_clock_unusable_objects_total",
        "",
        snapshot.relay_session.publication_clock_unusable_objects as u64,
    );
}

/// The state of the failover controller.
pub open spec fn failover_state_section(t: Seq<char>, snapshot: MeshApiSnapshot) -> Seq<char> {
    let t = with_header(
        t,
        "av_mesh_relay_failover_state"@,
        "One-hot edge failover controller state for the compiled warm-secondary relationship."@,
        "gauge"@,
    );
    let t = with_state(
        t,
        RelayFailoverControllerState::Disabled,
        snapshot.relay_session.failover_controller_state,
    );
    let t = with_state(
        t,
        RelayFailoverControllerState::Arming,
        snapshot.relay_session.failover_controller_state,
    );
    let t = with_state(
        t,
        RelayFailoverControllerState::Healthy,
        snapshot.relay_session.failover_controller_state,
    );
    let t = with_state(
        t,
        RelayFailoverControllerState::Promoted,
        snapshot.relay_session.failover_controller_state,
    );
    let t = with_state(
        t,
        RelayFailoverControllerState::Recovering,
        snapshot.relay_session.failover_controller_state,
    );
    let t = with_state(
        t,
        RelayFailoverControllerState::SecondaryUnavailable,
        snapshot.relay_session.failover_controller_state,
    );
    t
}

fn push_failover_state_section(out: &mut String, snapshot: &MeshApiSnapshot)
    ensures
        final(out)@ == failover_state_section(old(out)@, *snapshot),
{
    push_prometheus_metric_header(
        out,
        "av_mesh_relay_failover_state",
        "One-hot edge failover controller state for the compiled warm-secondary relationship.",
        "gauge",
    );
    push_state(
        out,
        RelayFailoverControllerState::Disabled,
        snapshot.relay_session.failover_controller_state,
    );
    push_state(
        out,
        RelayFailoverControllerState::Arming,
        snapshot.relay_session.failover_controller_state,
    );
    push_state(
        out,
        RelayFailoverControllerState::Healthy,
        snapshot.relay_session.failover_controller_state,
    );
    push_state(
        out,
        RelayFailoverControllerState::Promoted,
        snapshot.relay_session.failover_controller_state,
    );
    push_state(
        out,
        RelayFailoverControllerState::Recovering,
        snapshot.relay_session.failover_controller_state,
    );
    push_state(
        out,
        RelayFailoverControllerState::SecondaryUnavailable,
        snapshot.relay_session.failover_controller_state,
    );
}

/// Where the failover controller and the listeners stand.
pub open spec fn failover_section(t: Seq<char>, snapshot: MeshApiSnapshot) -> Seq<char> {
    let t = with_scalar(
        t,
        "av_mesh_relay_failover_controller_enabled"@,
        "Whether this node actively detects primary silence and controls a warm secondary."@,
        "gauge"@,
        decimal(snapshot.relay_session.failover_controller_enabled as nat),
    );
    let t = with_scalar(
        t,
        "av_mesh_relay_failover_listeners"@,
        "Compiled warm-secondary child control listeners on this node."@,
        "gauge"@,
        decimal(snapshot.relay_session.failover_listeners as nat),
    );
    let t = with_scalar(
        t,
        "av_mesh_relay_failover_promoted_children"@,
        "Warm-secondary children currently receiving source plus repair symbols."@,
        "gauge"@,
        decimal(snapshot.relay_session.failover_promoted_children as nat),
    );
    let t = with_scalar(
        t,
        "av_mesh_relay_failover_primary_source_age_ms"@,
        "Age of the newest admitted primary source symbol at the edge."@,
        "gauge"@,
        decimal(snapshot.relay_session.failover_primary_source_age_ms as nat),
    );
    let t = with_scalar(
        t,
        "av_mesh_relay_failover_secondary_repair_age_ms"@,
        "Age of the newest admitted secondary repair symbol at the edge."@,
        "gauge"@,
        decimal(snapshot.relay_session.failover_secondary_repair_age_ms as nat),
    );
    let t = with_scalar(
        t,
        "av_mesh_relay_failover_last_detection_us"@,
        "Primary source silence measured when the latest promotion began."@,
        "gauge"@,
        decimal(snapshot.relay_session.failover_last_detection_us as nat),
    );
    let t = with_scalar(
        t,
        "av_mesh_relay_failover_last_promotion_to_source_us"@,
        "Time from the latest promotion command to the first admitted secondary source symbol."@,
        "gauge"@,
        decimal(snapshot.relay_session.failover_last_promotion_to_source_us as nat),
    );
    let t = with_scalar(
        t,
        "av_mesh_relay_failover_last_media_gap_us"@,
        "Cache completion gap spanning the latest primary failure and promotion."@,
        "gauge"@,
        decimal(snapshot.relay_session.failover_last_media_gap_us as nat),
    );
    let t = with_scalar(
        t,
        "av_mesh_relay_failover_max_media_gap_us"@,
        "Largest cache completion gap observed across automatic failovers."@,
        "gauge"@,
        decimal(snapshot.relay_session.failover_max_media_gap_us as nat),
    );
    let t = with_scalar(
        t,
        "av_mesh_relay_failover_controller_last_transition_unix_ms"@,
        "Wall-clock time of the edge controller's latest state transition."@,
        "gauge"@,
        decimal(snapshot.relay_session.failover_controller_last_transition_unix_ms as nat),
    );
    let t = with_scalar(
        t,
        "av_mesh_relay_failover_listener_last_transition_unix_ms"@,
        "Wall-clock time of the warm forwarder's latest applied mode transition."@,
        "gauge"@,
        decimal(snapshot.relay_session.failover_listener_last_transition_unix_ms as nat),
    );
    t
}

fn push_failover_section(out: &mut String, snapshot: &MeshApiSnapshot)
    ensures
        final(out)@ == failover_section(old(out)@, *snapshot),
{
    push_scalar(
        out,
        "av_mesh_relay_failover_controller_enabled",
        "Whether this node actively detects primary silence and controls a warm secondary.",
        "gauge",
        snapshot.relay_session.failover_controller_enabled as u64,
    );
    push_scalar(
        out,
        "av_mesh_relay_failover_listeners",
        "Compiled warm-secondary child control listeners on this node.",
        "gauge",
        snapshot.relay_session.failover_listeners as u64,
    );
    push_scalar(
        out,
        "av_mesh_relay_failover_promoted_children",
        "Warm-secondary children currently receiving source plus repair symbols.",
        "gauge",
        snapshot.relay_session.failover_promoted_children as u64,
    );
    push_scalar(
        out,
        "av_mesh_relay_failover_primary_source_age_ms",
        "Age of the newest admitted primary source symbol at the edge.",
        "gauge",
        snapshot.relay_session.failover_primary_source_age_ms as u64,
    );
    push_scalar(
        out,
        "av_mesh_relay_failover_secondary_repair_age_ms",
        "Age of the newest admitted secondary repair symbol at the edge.",
        "gauge",
        snapshot.relay_session.failover_secondary_repair_age_ms as u64,
    );
    push_scalar(
        out,
        "av_mesh_relay_failover_last_detection_us",
        "Primary source silence measured when the latest promotion began.",
        "gauge",
        snapshot.relay_session.failover_last_detection_us as u64,
    );
    push_scalar(
        out,
        "av_mesh_relay_failover_last_promotion_to_source_us",
        "Time from the latest promotion command to the first admitted secondary source symbol.",
        "gauge",
        snapshot.relay_session.failover_last_promotion_to_source_us as u64,
    );
    push_scalar(
        out,
        "av_mesh_relay_failover_last_media_gap_us",
        "Cache completion gap spanning the latest primary failure and promotion.",
        "gauge",
        snapshot.relay_session.failover_last_media_gap_us as u64,
    );
    push_scalar(
        out,
        "av_mesh_relay_failover_max_media_gap_us",
        "Largest cache completion gap observed across automatic failovers.",
        "gauge",
        snapshot.relay_session.failover_max_media_gap_us as u64,
    );
    push_scalar(
        out,
        "av_mesh_relay_failover_controller_last_transition_unix_ms",
        "Wall-clock time of the edge controller's latest state transition.",
        "gauge",
        snapshot.relay_session.failover_controller_last_transition_unix_ms as u64,
    );
    push_scalar(
        out,
        "av_mesh_relay_failover_listener_last_transition_unix_ms",
        "Wall-clock time of the warm forwarder's latest applied mode transition.",
        "gauge",
        snapshot.relay_session.failover_listener_last_transition_unix_ms as u64,
    );
}

/// What the failover controller and the listeners did.
pub open spec fn failover_commands_section(t: Seq<char>, snapshot: MeshApiSnapshot) -> Seq<char> {
    let t = with_header(
        t,
        "av_mesh_relay_failover_commands_total"@,
        "Leased failover control commands by endpoint direction and outcome."@,
        "counter"@,
    );
    let t = with_sample(
        t,
        "av_mesh_relay_failover_commands_total"@,
        "direction=\"sent\",outcome=\"success\""@,
        decimal(snapshot.relay_session.failover_commands_sent as nat),
    );
    let t = with_sample(
        t,
        "av_mesh_relay_failover_commands_total"@,
        "direction=\"sent\",outcome=\"error\""@,
        decimal(snapshot.relay_session.failover_command_send_errors as nat),
    );
    let t = with_sample(
        t,
        "av_mesh_relay_failover_commands_total"@,
        "direction=\"received\",outcome=\"accepted\""@,
        decimal(snapshot.relay_session.failover_commands_received as nat),
    );
    let t = with_sample(
        t,
        "av_mesh_relay_failover_commands_total"@,
        "direction=\"received\",outcome=\"rejected\""@,
        decimal(snapshot.relay_session.failover_commands_rejected as nat),
    );
    let t = with_header(
        t,
        "av_mesh_relay_failover_transitions_total"@,
        "Warm-secondary promotion and make-before-break demotion transitions by endpoint side."@,
        "counter"@,
    );
    let t = with_sample(
        t,
        "av_mesh_relay_failover_transitions_total"@,
        "side=\"controller\",transition=\"promotion\""@,
        decimal(snapshot.relay_session.failover_promotions as nat),
    );
    let t = with_sample(
        t,
        "av_mesh_relay_failover_transitions_total"@,
        "side=\"controller\",transition=\"demotion\""@,
        decimal(snapshot.relay_session.failover_demotions as nat),
    );
    let t = with_sample(
        t,
        "av_mesh_relay_failover_transitions_total"@,
        "side=\"forwarder\",transition=\"promotion\""@,
        decimal(snapshot.relay_session.failover_promotions_applied as nat),
    );
    let t = with_sample(
        t,
        "av_mesh_relay_failover_transitions_total"@,
        "side=\"forwarder\",transition=\"demotion\""@,
        decimal(snapshot.relay_session.failover_demotions_applied as nat),
    );
    let t = with_scalar(
        t,
        "av_mesh_relay_failover_secondary_unavailable_total"@,
        "Primary failures where the secondary did not have a recent repair heartbeat."@,
        "counter"@,
        decimal(snapshot.relay_session.failover_secondary_unavailable_events as nat),
    );
    let t = with_scalar(
        t,
        "av_mesh_relay_failover_lease_expirations_total"@,
        "Promoted forwarders returned to repair-only after their controller lease expired."@,
        "counter"@,
        decimal(snapshot.relay_session.failover_lease_expirations as nat),
    );
    t
}

fn push_failover_commands_section(out: &mut String, snapshot: &MeshApiSnapshot)
    ensures
        final(out)@ == failover_commands_section(old(out)@, *snapshot),
{
    push_prometheus_metric_header(
        out,
        "av_mesh_relay_failover_commands_total",
        "Leased failover control commands by endpoint direction and outcome.",
        "counter",
    );
    push_sample(
        out,
        "av_mesh_relay_failover_commands_total",
        "direction=\"sent\",outcome=\"success\"",
        snapshot.relay_session.failover_commands_sent as u64,
    );
    push_sample(
        out,
        "av_mesh_relay_failover_commands_total",
        "direction=\"sent\",outcome=\"error\"",
        snapshot.relay_session.failover_command_send_errors as u64,
    );
    push_sample(
        out,
        "av_mesh_relay_failover_commands_total",
        "direction=\"received\",outcome=\"accepted\"",
        snapshot.relay_session.failover_commands_received as u64,
    );
    push_sample(
        out,
        "av_mesh_relay_failover_commands_total",
        "direction=\"received\",outcome=\"rejected\"",
        snapshot.relay_session.failover_commands_rejected as u64,
    );
    push_prometheus_metric_header(
        out,
        "av_mesh_relay_failover_transitions_total",
        "Warm-secondary promotion and make-before-break demotion transitions by endpoint side.",
        "counter",
    );
    push_sample(
        out,
        "av_mesh_relay_failover_transitions_total",
        "side=\"controller\",transition=\"promotion\"",
        snapshot.relay_session.failover_promotions as u64,
    );
    push_sample(
        out,
        "av_mesh_relay_failover_transitions_total",
        "side=\"controller\",transition=\"demotion\"",
        snapshot.relay_session.failover_demotions as u64,
    );
    push_sample(
        out,
        "av_mesh_relay_failover_transitions_total",
        "side=\"forwarder\",transition=\"promotion\"",
        snapshot.relay_session.failover_promotions_applied as u64,
    );
    push_sample(
        out,
        "av_mesh_relay_failover_transitions_total",
        "side=\"forwarder\",transition=\"demotion\"",
        snapshot.relay_session.failover_demotions_applied as u64,
    );
    push_scalar(
        out,
        "av_mesh_relay_failover_secondary_unavailable_total",
        "Primary failures where the secondary did not have a recent repair heartbeat.",
        "counter",
        snapshot.relay_session.failover_secondary_unavailable_events as u64,
    );
    push_scalar(
        out,
        "av_mesh_relay_failover_lease_expirations_total",
        "Promoted forwarders returned to repair-only after their controller lease expired.",
        "counter",
        snapshot.relay_session.failover_lease_expirations as u64,
    );
}

/// How well the mesh is known.
pub open spec fn topology_section(t: Seq<char>, snapshot: MeshApiSnapshot) -> Seq<char> {
    let t = with_header(
        t,
        "av_mesh_topology_peers"@,
        "Mesh peers by topology resolution and address scope."@,
        "gauge"@,
    );
    let t = with_sample(
        t,
        "av_mesh_topology_peers"@,
        "kind=\"resolved\""@,
        decimal(snapshot.topology.resolved_peer_count as nat),
    );
    let t = with_sample(
        t,
        "av_mesh_topology_peers"@,
        "kind=\"unresolved\""@,
        decimal(snapshot.topology.unresolved_peer_count as nat),
    );
    let t = with_sample(
        t,
        "av_mesh_topology_peers"@,
        "kind=\"private\""@,
        decimal(snapshot.topology.private_peer_count as nat),
    );
    let t = with_sample(
        t,
        "av_mesh_topology_peers"@,
        "kind=\"public\""@,
        decimal(snapshot.topology.public_peer_count as nat),
    );
    let t = with_header(
        t,
        "av_mesh_telemetry_nodes"@,
        "Remote mesh nodes by telemetry freshness."@,
        "gauge"@,
    );
    let t = with_sample(
        t,
        "av_mesh_telemetry_nodes"@,
        "state=\"fresh\""@,
        decimal(snapshot.telemetry.fresh_remote_count as nat),
    );
    let t = with_sample(
        t,
        "av_mesh_telemetry_nodes"@,
        "state=\"stale\""@,
        decimal(snapshot.telemetry.stale_remote_count as nat),
    );
    t
}

fn push_topology_section(out: &mut String, snapshot: &MeshApiSnapshot)
    ensures
        final(out)@ == topology_section(old(out)@, *snapshot),
{
    push_prometheus_metric_header(
        out,
        "av_mesh_topology_peers",
        "Mesh peers by topology resolution and address scope.",
        "gauge",
    );
    push_sample(
        out,
        "av_mesh_topology_peers",
        "kind=\"resolved\"",
        snapshot.topology.resolved_peer_count as u64,
    );
    push_sample(
        out,
        "av_mesh_topology_peers",
        "kind=\"unresolved\"",
        snapshot.topology.unresolved_peer_count as u64,
    );
    push_sample(
        out,
        "av_mesh_topology_peers",
        "kind=\"private\"",
        snapshot.topology.private_peer_count as u64,
    );
    push_sample(
        out,
        "av_mesh_topology_peers",
        "kind=\"public\"",
        snapshot.topology.public_peer_count as u64,
    );
    push_prometheus_metric_header(
        out,
        "av_mesh_telemetry_nodes",
        "Remote mesh nodes by telemetry freshness.",
        "gauge",
    );
    push_sample(
        out,
        "av_mesh_telemetry_nodes",
        "state=\"fresh\"",
        snapshot.telemetry.fresh_remote_count as u64,
    );
    push_sample(
        out,
        "av_mesh_telemetry_nodes",
        "state=\"stale\"",
        snapshot.telemetry.stale_remote_count as u64,
    );
}

/// How far the nodes agree on the source epochs.
pub open spec fn epoch_section(
    t: Seq<char>,
    snapshot: MeshApiSnapshot,
    fractions: Fractions,
) -> Seq<char> {
    let t = with_header(
        t,
        "av_mesh_canonical_epoch_divergent_streams"@,
        "Streams whose visible relay nodes disagree on the active canonical source epoch."@,
        "gauge"@,
    );
    let t = with_sample(
        t,
        "av_mesh_canonical_epoch_divergent_streams"@,
        ""@,
        decimal(divergent_count(telemetry_views(snapshot.streams@), snapshot.streams@.len() as int)),
    );
    let t = with_header(
        t,
        "av_mesh_canonical_epoch_activation_delay_max_seconds"@,
        "Maximum observed delay from contributor source-epoch creation to first canonical object activation across visible nodes and streams."@,
        "gauge"@,
    );
    let t = with_sample(
        t,
        "av_mesh_canonical_epoch_activation_delay_max_seconds"@,
        ""@,
        fractions.activation_delay_max_seconds@,
    );
    t
}

fn push_epoch_section(out: &mut String, snapshot: &MeshApiSnapshot, fractions: &Fractions)
    ensures
        final(out)@ == epoch_section(old(out)@, *snapshot, *fractions),
{
    push_prometheus_metric_header(
        out,
        "av_mesh_canonical_epoch_divergent_streams",
        "Streams whose visible relay nodes disagree on the active canonical source epoch.",
        "gauge",
    );
    push_sample(
        out,
        "av_mesh_canonical_epoch_divergent_streams",
        "",
        canonical_epoch_divergent_stream_count(&snapshot.streams) as u64,
    );
    push_prometheus_metric_header(
        out,
        "av_mesh_canonical_epoch_activation_delay_max_seconds",
        "Maximum observed delay from contributor source-epoch creation to first canonical object activation across visible nodes and streams.",
        "gauge",
    );
    push_sample_text(
        out,
        "av_mesh_canonical_epoch_activation_delay_max_seconds",
        "",
        fractions.activation_delay_max_seconds.as_str(),
    );
}

/// A label with an escaped value.
pub open spec fn label(name: Seq<char>, value: Seq<char>) -> Seq<char> {
    name + "=\""@ + escaped(value) + "\""@
}

fn push_label(out: &mut String, name: &str, value: &str)
    ensures
        final(out)@ == old(out)@ + label(name@, value@),
{
    let ghost before = out@;
    out.append(name);
    out.append("=\"");
    out.append(prometheus_label_value(value).as_str());
    out.append("\"");
    proof {
        assert(out@ =~= before + label(name@, value@));
    }
}

/// The labels of a node.
pub open spec fn node_labels(node: MeshNode) -> Seq<char> {
    label("node_id"@, node.node_id@) + ","@ + label("region"@, node.region@) + ","@ + label(
        "continent"@,
        node.continent@,
    )
}

/// A text with the values of a node.
pub open spec fn with_node(t: Seq<char>, node: MeshNode) -> Seq<char> {
    let labels = node_labels(node);
    let t = with_sample(
        t,
        "av_mesh_node_draining"@,
        labels,
        decimal(if node.draining { 1 } else { 0 }),
    );
    let t = with_sample(
        t,
        "av_mesh_node_storage_bytes"@,
        labels,
        decimal(node.total_storage_bytes as nat),
    );
    let t = with_sample(
        t,
        "av_mesh_node_storage_used_bytes"@,
        labels,
        decimal(node.used_storage_bytes as nat),
    );
    let t = with_sample(
        t,
        "av_mesh_node_egress_capacity_bps"@,
        labels,
        decimal(node.egress_capacity_bps as nat),
    );
    let t = with_sample(
        t,
        "av_mesh_node_streams"@,
        labels + ",kind=\"contributor\""@,
        decimal(node.contributor_streams as nat),
    );
    with_sample(
        t,
        "av_mesh_node_streams"@,
        labels + ",kind=\"active\""@,
        decimal(node.active_streams as nat),
    )
}

/// A list of labels and one more text behind it.
fn with_suffix(labels: &String, suffix: &str) -> (r: String)
    ensures
        r@ == labels@ + suffix@,
{
    let mut out = labels.clone();
    out.append(suffix);
    out
}

fn push_node(out: &mut String, node: &MeshNode)
    ensures
        final(out)@ == with_node(old(out)@, *node),
{
    let mut labels = String::new();
    push_label(&mut labels, "node_id", node.node_id.as_str());
    proof {
        assert(labels@ =~= label("node_id"@, node.node_id@));
    }
    labels.append(",");
    push_label(&mut labels, "region", node.region.as_str());
    labels.append(",");
    push_label(&mut labels, "continent", node.continent.as_str());
    let draining: u64 = if node.draining {
        1
    } else {
        0
    };
    push_sample(out, "av_mesh_node_draining", labels.as_str(), draining);
    push_sample(out, "av_mesh_node_storage_bytes", labels.as_str(), node.total_storage_bytes);
    push_sample(out, "av_mesh_node_storage_used_bytes", labels.as_str(), node.used_storage_bytes);
    push_sample(
        out,
        "av_mesh_node_egress_capacity_bps",
        labels.as_str(),
        node.egress_capacity_bps,
    );
    let contributor = with_suffix(&labels, ",kind=\"contributor\"");
    push_sample(out, "av_mesh_node_streams", contributor.as_str(), node.contributor_streams);
    let active = with_suffix(&labels, ",kind=\"active\"");
    push_sample(out, "av_mesh_node_streams", active.as_str(), node.active_streams);
}

/// A text with the values of the first `k` nodes.
pub open spec fn with_nodes(t: Seq<char>, nodes: Seq<MeshNode>, k: int) -> Seq<char>
    decreases k,
{
    if k <= 0 {
        t
    } else {
        with_node(with_nodes(t, nodes, k - 1), nodes[k - 1])
    }
}

/// The nodes of the mesh.
pub open spec fn nodes_section(t: Seq<char>, snapshot: MeshApiSnapshot) -> Seq<char> {
    let t = with_header(
        t,
        "av_mesh_node_draining"@,
        "Whether a mesh node is draining."@,
        "gauge"@,
    );
    let t = with_header(
        t,
        "av_mesh_node_storage_bytes"@,
        "Storage capacity by mesh node."@,
        "gauge"@,
    );
    let t = with_header(
        t,
        "av_mesh_node_storage_used_bytes"@,
        "Storage used by mesh node."@,
        "gauge"@,
    );
    let t = with_header(
        t,
        "av_mesh_node_egress_capacity_bps"@,
        "Advertised egress capacity by mesh node."@,
        "gauge"@,
    );
    let t = with_header(
        t,
        "av_mesh_node_streams"@,
        "Streams by mesh node and kind."@,
        "gauge"@,
    );
    with_nodes(t, snapshot.nodes@, snapshot.nodes@.len() as int)
}

fn push_nodes_section(out: &mut String, snapshot: &MeshApiSnapshot)
    ensures
        final(out)@ == nodes_section(old(out)@, *snapshot),
{
    push_prometheus_metric_header(
        out,
        "av_mesh_node_draining",
        "Whether a mesh node is draining.",
        "gauge",
    );
    push_prometheus_metric_header(
        out,
        "av_mesh_node_storage_bytes",
        "Storage capacity by mesh node.",
        "gauge",
    );
    push_prometheus_metric_header(
        out,
        "av_mesh_node_storage_used_bytes",
        "Storage used by mesh node.",
        "gauge",
    );
    push_prometheus_metric_header(
        out,
        "av_mesh_node_egress_capacity_bps",
        "Advertised egress capacity by mesh node.",
        "gauge",
    );
    push_prometheus_metric_header(
        out,
        "av_mesh_node_streams",
        "Streams by mesh node and kind.",
        "gauge",
    );
    let ghost before = out@;
    let mut i: usize = 0;
    while i < snapshot.nodes.len()
        invariant
            i <= snapshot.nodes.len(),
            out@ == with_nodes(before, snapshot.nodes@, i as int),
        decreases snapshot.nodes.len() - i,
    {
        push_node(out, &snapshot.nodes[i]);
        i = i + 1;
    }
}

/// The labels of an edge.
pub open spec fn edge_labels(edge: EdgeServiceSnapshot) -> Seq<char> {
    label("node_id"@, edge.node_id@) + ","@ + label("region"@, edge.region@)
}

fn labels_of_edge(edge: &EdgeServiceSnapshot) -> (r: String)
    ensures
        r@ == edge_labels(*edge),
{
    let mut labels = String::new();
    push_label(&mut labels, "node_id", edge.node_id.as_str());
    proof {
        assert(labels@ =~= label("node_id"@, edge.node_id@));
    }
    labels.append(",");
    push_label(&mut labels, "region", edge.region.as_str());
    labels
}

/// A text with the values of an edge.
pub open spec fn with_edge(t: Seq<char>, edge: EdgeServiceSnapshot) -> Seq<char> {
    let labels = edge_labels(edge);
    let t = with_sample(
        t,
        "av_mesh_edge_active_readers"@,
        labels,
        decimal(edge.active_readers as nat),
    );
    let t = with_sample(
        t,
        "av_mesh_edge_requests_total"@,
        labels,
        decimal(edge.requests_served as nat),
    );
    let t = with_sample(t, "av_mesh_edge_bytes_total"@, labels, decimal(edge.bytes_served as nat));
    let t = with_sample(
        t,
        "av_mesh_edge_llhls_tail_requests_total"@,
        labels,
        decimal(edge.llhls_tail_requests as nat),
    );
    let t = with_sample(
        t,
        "av_mesh_edge_responses_total"@,
        labels + ",outcome=\"all\""@,
        decimal(edge.responses_total as nat),
    );
    let t = with_sample(
        t,
        "av_mesh_edge_responses_total"@,
        labels + ",outcome=\"error\""@,
        decimal(edge.response_errors as nat),
    );
    with_sample(
        t,
        "av_mesh_edge_responses_total"@,
        labels + ",outcome=\"not_found\""@,
        decimal(edge.response_not_found as nat),
    )
}

fn push_edge(out: &mut String, edge: &EdgeServiceSnapshot)
    ensures
        final(out)@ == with_edge(old(out)@, *edge),
{
    let labels = labels_of_edge(edge);
    push_sample(out, "av_mesh_edge_active_readers", labels.as_str(), edge.active_readers);
    push_sample(out, "av_mesh_edge_requests_total", labels.as_str(), edge.requests_served);
    push_sample(out, "av_mesh_edge_bytes_total", labels.as_str(), edge.bytes_served);
    push_sample(
        out,
        "av_mesh_edge_llhls_tail_requests_total",
        labels.as_str(),
        edge.llhls_tail_requests,
    );
    let all = with_suffix(&labels, ",outcome=\"all\"");
    push_sample(out, "av_mesh_edge_responses_total", all.as_str(), edge.responses_total);
    let failed = with_suffix(&labels, ",outcome=\"error\"");
    push_sample(out, "av_mesh_edge_responses_total", failed.as_str(), edge.response_errors);
    let missing = with_suffix(&labels, ",outcome=\"not_found\"");
    push_sample(out, "av_mesh_edge_responses_total", missing.as_str(), edge.response_not_found);
}

/// A text with the values of the first `k` edges.
pub open spec fn with_edges(t: Seq<char>, edges: Seq<EdgeServiceSnapshot>, k: int) -> Seq<char>
    decreases k,
{
    if k <= 0 {
        t
    } else {
        with_edge(with_edges(t, edges, k - 1), edges[k - 1])
    }
}

/// The edges of the mesh.
pub open spec fn edges_section(t: Seq<char>, snapshot: MeshApiSnapshot) -> Seq<char> {
    let t = with_header(
        t,
        "av_mesh_edge_active_readers"@,
        "Current edge readers by mesh node."@,
        "gauge"@,
    );
    let t = with_header(
        t,
        "av_mesh_edge_requests_total"@,
        "Edge media read requests by mesh node."@,
        "counter"@,
    );
    let t = with_header(
        t,
        "av_mesh_edge_bytes_total"@,
        "Edge media bytes served by mesh node."@,
        "counter"@,
    );
    let t = with_header(
        t,
        "av_mesh_edge_llhls_tail_requests_total"@,
        "LL-HLS tail requests by mesh node."@,
        "counter"@,
    );
    let t = with_header(
        t,
        "av_mesh_edge_responses_total"@,
        "Recorded LL-HLS responses by mesh node and outcome."@,
        "counter"@,
    );
    with_edges(t, snapshot.edge_services@, snapshot.edge_services@.len() as int)
}

fn push_edges_section(out: &mut String, snapshot: &MeshApiSnapshot)
    ensures
        final(out)@ == edges_section(old(out)@, *snapshot),
{
    push_prometheus_metric_header(
        out,
        "av_mesh_edge_active_readers",
        "Current edge readers by mesh node.",
        "gauge",
    );
    push_prometheus_metric_header(
        out,
        "av_mesh_edge_requests_total",
        "Edge media read requests by mesh node.",
        "counter",
    );
    push_prometheus_metric_header(
        out,
        "av_mesh_edge_bytes_total",
        "Edge media bytes served by mesh node.",
        "counter",
    );
    push_prometheus_metric_header(
        out,
        "av_mesh_edge_llhls_tail_requests_total",
        "LL-HLS tail requests by mesh node.",
        "counter",
    );
    push_prometheus_metric_header(
        out,
        "av_mesh_edge_responses_total",
        "Recorded LL-HLS responses by mesh node and outcome.",
        "counter",
    );
    let ghost before = out@;
    let mut i: usize = 0;
    while i < snapshot.edge_services.len()
        invariant
            i <= snapshot.edge_services.len(),
            out@ == with_edges(before, snapshot.edge_services@, i as int),
        decreases snapshot.edge_services.len() - i,
    {
        push_edge(out, &snapshot.edge_services[i]);
        i = i + 1;
    }
}

/// The upper bounds of the buckets of response times, in seconds.
pub const EDGE_RESPONSE_DURATION_BUCKETS_SECONDS: [&'static str; 13] = [
    "0.0001",
    "0.00025",
    "0.0005",
    "0.001",
    "0.0025",
    "0.005",
    "0.01",
    "0.025",
    "0.05",
    "0.1",
    "0.25",
    "0.5",
    "1",
];

/// A text with the first `k` buckets of the response times of an edge; a bucket that the edge
/// does not tell of is empty.
pub open spec fn with_response_buckets(t: Seq<char>, edge: EdgeServiceSnapshot, k: int) -> Seq<
    char,
>
    decreases k,
{
    if k <= 0 {
        t
    } else {
        let counts = edge.response_duration_buckets@;
        with_sample(
            with_response_buckets(t, edge, k - 1),
            "av_mesh_edge_response_duration_seconds_bucket"@,
            edge_labels(edge) + (",le=\""@ + EDGE_RESPONSE_DURATION_BUCKETS_SECONDS@[k - 1]@
                + "\""@),
            decimal(if k - 1 < counts.len() { counts[k - 1] as nat } else { 0 }),
        )
    }
}

/// A text with the response times of an edge.
pub open spec fn with_response_times(t: Seq<char>, edge: EdgeServiceSnapshot, sum: Seq<char>) -> Seq<
    char,
> {
    let labels = edge_labels(edge);
    let t = with_response_buckets(t, edge, 13);
    let t = with_sample(
        t,
        "av_mesh_edge_response_duration_seconds_bucket"@,
        labels + ",le=\"+Inf\""@,
        decimal(edge.response_duration_count as nat),
    );
    let t = with_sample(t, "av_mesh_edge_response_duration_seconds_sum"@, labels, sum);
    with_sample(
        t,
        "av_mesh_edge_response_duration_seconds_count"@,
        labels,
        decimal(edge.response_duration_count as nat),
    )
}

fn push_response_times(out: &mut String, edge: &EdgeServiceSnapshot, sum: &str)
    ensures
        final(out)@ == with_response_times(old(out)@, *edge, sum@),
{
    let labels = labels_of_edge(edge);
    let ghost before = out@;
    let bounds = EDGE_RESPONSE_DURATION_BUCKETS_SECONDS;
    let mut i: usize = 0;
    while i < 13
        invariant
            i <= 13,
            bounds == EDGE_RESPONSE_DURATION_BUCKETS_SECONDS,
            labels@ == edge_labels(*edge),
            out@ == with_response_buckets(before, *edge, i as int),
        decreases 13 - i,
    {
        let count: u64 = if i < edge.response_duration_buckets.len() {
            edge.response_duration_buckets[i]
        } else {
            0
        };
        let mut bound = ",le=\"".to_owned();
        bound.append(bounds[i]);
        bound.append("\"");
        let all = with_suffix(&labels, bound.as_str());
        push_sample(
            out,
            "av_mesh_edge_response_duration_seconds_bucket",
            all.as_str(),
            count,
        );
        i = i + 1;
    }
    let every = with_suffix(&labels, ",le=\"+Inf\"");
    push_sample(
        out,
        "av_mesh_edge_response_duration_seconds_bucket",
        every.as_str(),
        edge.response_duration_count,
    );
    push_sample_text(out, "av_mesh_edge_response_duration_seconds_sum", labels.as_str(), sum);
    push_sample(
        out,
        "av_mesh_edge_response_duration_seconds_count",
        labels.as_str(),
        edge.response_duration_count,
    );
}

/// A text with the response times of the first `k` edges.
pub open spec fn with_all_response_times(
    t: Seq<char>,
    edges: Seq<EdgeServiceSnapshot>,
    sums: Seq<String>,
    k: int,
) -> Seq<char>
    decreases k,
{
    if k <= 0 {
        t
    } else {
        with_response_times(
            with_all_response_times(t, edges, sums, k - 1),
            edges[k - 1],
            sums[k - 1]@,
        )
    }
}

/// The response times of the edges of the mesh.
pub open spec fn response_times_section(
    t: Seq<char>,
    snapshot: MeshApiSnapshot,
    fractions: Fractions,
) -> Seq<char> {
    let t = with_header(
        t,
        "av_mesh_edge_response_duration_seconds"@,
        "Time spent producing an LL-HLS edge response."@,
        "histogram"@,
    );
    with_all_response_times(
        t,
        snapshot.edge_services@,
        fractions.response_duration_sum_seconds@,
        snapshot.edge_services@.len() as int,
    )
}

fn push_response_times_section(
    out: &mut String,
    snapshot: &MeshApiSnapshot,
    fractions: &Fractions,
)
    requires
        fractions.covers(*snapshot),
    ensures
        final(out)@ == response_times_section(old(out)@, *snapshot, *fractions),
{
    push_prometheus_metric_header(
        out,
        "av_mesh_edge_response_duration_seconds",
        "Time spent producing an LL-HLS edge response.",
        "histogram",
    );
    let ghost before = out@;
    let mut i: usize = 0;
    while i < snapshot.edge_services.len()
        invariant
            fractions.covers(*snapshot),
            i <= snapshot.edge_services.len(),
            out@ == with_all_response_times(
                before,
                snapshot.edge_services@,
                fractions.response_duration_sum_seconds@,
                i as int,
            ),
        decreases snapshot.edge_services.len() - i,
    {
        push_response_times(
            out,
            &snapshot.edge_services[i],
            fractions.response_duration_sum_seconds[i].as_str(),
        );
        i = i + 1;
    }
}

/// A text with a line for a value that may be unknown: no line where it is.
pub open spec fn with_known(
    t: Seq<char>,
    name: Seq<char>,
    labels: Seq<char>,
    value: Option<u64>,
) -> Seq<char> {
    match value {
        Some(v) => with_sample(t, name, labels, decimal(v as nat)),
        None => t,
    }
}

/// A text with a line for a fractional value that may be unknown: no line where it is.
pub open spec fn with_known_fraction(
    t: Seq<char>,
    name: Seq<char>,
    labels: Seq<char>,
    value: Option<u64>,
    fraction: Seq<char>,
) -> Seq<char> {
    if value is Some {
        with_sample(t, name, labels, fraction)
    } else {
        t
    }
}

fn push_known(out: &mut String, name: &str, labels: &str, value: Option<u64>)
    ensures
        final(out)@ == with_known(old(out)@, name@, labels@, value),
{
    if let Some(v) = value {
        push_sample(out, name, labels, v);
    }
}

fn push_known_fraction(
    out: &mut String,
    name: &str,
    labels: &str,
    value: Option<u64>,
    fraction: &str,
)
    ensures
        final(out)@ == with_known_fraction(old(out)@, name@, labels@, value, fraction@),
{
    if value.is_some() {
        push_sample_text(out, name, labels, fraction);
    }
}

/// The labels of a stream.
pub open spec fn stream_labels(stream: StreamTelemetry) -> Seq<char> {
    label("node_id"@, stream.node_id@) + ","@ + label("stream_id"@, stream.stream_id_text@)
}

/// A text with the values of a stream.
pub open spec fn with_stream(
    t: Seq<char>,
    stream: StreamTelemetry,
    fractions: StreamFractions,
) -> Seq<char> {
    let labels = stream_labels(stream);
    let t = with_sample(
        t,
        "av_mesh_stream_bytes_received_total"@,
        labels,
        decimal(stream.bytes_received as nat),
    );
    let t = with_sample(
        t,
        "av_mesh_stream_datagrams_received_total"@,
        labels,
        decimal(stream.datagrams_received as nat),
    );
    let t = with_known(
        t,
        "av_mesh_stream_latest_part"@,
        labels + ",source=\"local\""@,
        stream.latest_local_part,
    );
    let t = with_known(
        t,
        "av_mesh_stream_latest_part"@,
        labels + ",source=\"mesh\""@,
        stream.latest_mesh_part,
    );
    let t = with_known(t, "av_mesh_stream_canonical_epoch"@, labels, stream.canonical_epoch);
    let t = with_known_fraction(
        t,
        "av_mesh_stream_canonical_epoch_activation_delay_seconds"@,
        labels,
        stream.canonical_epoch_activation_delay_us,
        fractions.activation_delay_seconds@,
    );
    let t = with_known(t, "av_mesh_stream_canonical_head_object"@, labels, stream.head_object);
    let t = with_known(t, "av_mesh_stream_contiguous_object"@, labels, stream.contiguous_object);
    let t = with_known(t, "av_mesh_stream_known_gap_count"@, labels, stream.gap_count);
    let t = with_known_fraction(
        t,
        "av_mesh_stream_last_ingest_age_seconds"@,
        labels,
        stream.last_ingest_age_ms,
        fractions.last_ingest_age_seconds@,
    );
    let t = with_known_fraction(
        t,
        "av_mesh_stream_latest_local_part_age_seconds"@,
        labels,
        stream.latest_local_part_age_ms,
        fractions.latest_local_part_age_seconds@,
    );
    with_known(t, "av_mesh_stream_lag_parts"@, labels, stream.mesh_lag_parts)
}

fn push_stream(out: &mut String, stream: &StreamTelemetry, fractions: &StreamFractions)
    ensures
        final(out)@ == with_stream(old(out)@, *stream, *fractions),
{
    let mut labels = String::new();
    push_label(&mut labels, "node_id", stream.node_id.as_str());
    proof {
        assert(labels@ =~= label("node_id"@, stream.node_id@));
    }
    labels.append(",");
    push_label(&mut labels, "stream_id", stream.stream_id_text.as_str());
    let one = labels.as_str();
    push_sample(out, "av_mesh_stream_bytes_received_total", one, stream.bytes_received);
    push_sample(out, "av_mesh_stream_datagrams_received_total", one, stream.datagrams_received);
    let local = with_suffix(&labels, ",source=\"local\"");
    push_known(out, "av_mesh_stream_latest_part", local.as_str(), stream.latest_local_part);
    let mesh = with_suffix(&labels, ",source=\"mesh\"");
    push_known(out, "av_mesh_stream_latest_part", mesh.as_str(), stream.latest_mesh_part);
    push_known(out, "av_mesh_stream_canonical_epoch", one, stream.canonical_epoch);
    push_known_fraction(
        out,
        "av_mesh_stream_canonical_epoch_activation_delay_seconds",
        one,
        stream.canonical_epoch_activation_delay_us,
        fractions.activation_delay_seconds.as_str(),
    );
    push_known(out, "av_mesh_stream_canonical_head_object", one, stream.head_object);
    push_known(out, "av_mesh_stream_contiguous_object", one, stream.contiguous_object);
    push_known(out, "av_mesh_stream_known_gap_count", one, stream.gap_count);
    push_known_fraction(
        out,
        "av_mesh_stream_last_ingest_age_seconds",
        one,
        stream.last_ingest_age_ms,
        fractions.last_ingest_age_seconds.as_str(),
    );
    push_known_fraction(
        out,
        "av_mesh_stream_latest_local_part_age_seconds",
        one,
        stream.latest_local_part_age_ms,
        fractions.latest_local_part_age_seconds.as_str(),
    );
    push_known(out, "av_mesh_stream_lag_parts", one, stream.mesh_lag_parts);
}

/// A text with the values of the first `k` streams.
pub open spec fn with_streams(
    t: Seq<char>,
    streams: Seq<StreamTelemetry>,
    fractions: Seq<StreamFractions>,
    k: int,
) -> Seq<char>
    decreases k,
{
    if k <= 0 {
        t
    } else {
        with_stream(
            with_streams(t, streams, fractions, k - 1),
            streams[k - 1],
            fractions[k - 1],
        )
    }
}

/// A text with the headers of the values of streams.
pub open spec fn stream_headers(t: Seq<char>) -> Seq<char> {
    let t = with_header(
        t,
        "av_mesh_stream_bytes_received_total"@,
        "Mesh ingest bytes received by node and stream."@,
        "counter"@,
    );
    let t = with_header(
        t,
        "av_mesh_stream_datagrams_received_total"@,
        "Mesh ingest datagrams received by node and stream."@,
        "counter"@,
    );
    let t = with_header(
        t,
        "av_mesh_stream_latest_part"@,
        "Latest part sequence by node, stream, and source."@,
        "gauge"@,
    );
    let t = with_header(
        t,
        "av_mesh_stream_canonical_epoch"@,
        "Active canonical media-object source incarnation epoch by node and stream."@,
        "gauge"@,
    );
    let t = with_header(
        t,
        "av_mesh_stream_canonical_epoch_activation_delay_seconds"@,
        "Delay from contributor source-epoch creation to first canonical object activation by node and stream."@,
        "gauge"@,
    );
    let t = with_header(
        t,
        "av_mesh_stream_canonical_head_object"@,
        "Latest canonical media-object identity received by node and stream."@,
        "gauge"@,
    );
    let t = with_header(
        t,
        "av_mesh_stream_contiguous_object"@,
        "Highest canonical media object available through the contiguous publication prefix."@,
        "gauge"@,
    );
    let t = with_header(
        t,
        "av_mesh_stream_known_gap_count"@,
        "Known missing canonical objects in the retained live window."@,
        "gauge"@,
    );
    let t = with_header(
        t,
        "av_mesh_stream_last_ingest_age_seconds"@,
        "Age of the latest mesh ingest by node and stream."@,
        "gauge"@,
    );
    let t = with_header(
        t,
        "av_mesh_stream_latest_local_part_age_seconds"@,
        "Age of the latest locally committed LL-HLS part by node and stream."@,
        "gauge"@,
    );
    let t = with_header(
        t,
        "av_mesh_stream_lag_parts"@,
        "Canonical contiguous-object lag behind the freshest comparable node by stream."@,
        "gauge"@,
    );
    t
}

fn push_stream_headers(out: &mut String)
    ensures
        final(out)@ == stream_headers(old(out)@),
{
    push_prometheus_metric_header(
        out,
        "av_mesh_stream_bytes_received_total",
        "Mesh ingest bytes received by node and stream.",
        "counter",
    );
    push_prometheus_metric_header(
        out,
        "av_mesh_stream_datagrams_received_total",
        "Mesh ingest datagrams received by node and stream.",
        "counter",
    );
    push_prometheus_metric_header(
        out,
        "av_mesh_stream_latest_part",
        "Latest part sequence by node, stream, and source.",
        "gauge",
    );
    push_prometheus_metric_header(
        out,
        "av_mesh_stream_canonical_epoch",
        "Active canonical media-object source incarnation epoch by node and stream.",
        "gauge",
    );
    push_prometheus_metric_header(
        out,
        "av_mesh_stream_canonical_epoch_activation_delay_seconds",
        "Delay from contributor source-epoch creation to first canonical object activation by node and stream.",
        "gauge",
    );
    push_prometheus_metric_header(
        out,
        "av_mesh_stream_canonical_head_object",
        "Latest canonical media-object identity received by node and stream.",
        "gauge",
    );
    push_prometheus_metric_header(
        out,
        "av_mesh_stream_contiguous_object",
        "Highest canonical media object available through the contiguous publication prefix.",
        "gauge",
    );
    push_prometheus_metric_header(
        out,
        "av_mesh_stream_known_gap_count",
        "Known missing canonical objects in the retained live window.",
        "gauge",
    );
    push_prometheus_metric_header(
        out,
        "av_mesh_stream_last_ingest_age_seconds",
        "Age of the latest mesh ingest by node and stream.",
        "gauge",
    );
    push_prometheus_metric_header(
        out,
        "av_mesh_stream_latest_local_part_age_seconds",
        "Age of the latest locally committed LL-HLS part by node and stream.",
        "gauge",
    );
    push_prometheus_metric_header(
        out,
        "av_mesh_stream_lag_parts",
        "Canonical contiguous-object lag behind the freshest comparable node by stream.",
        "gauge",
    );
}

/// The streams of the mesh.
pub open spec fn streams_section(
    t: Seq<char>,
    snapshot: MeshApiSnapshot,
    fractions: Fractions,
) -> Seq<char> {
    with_streams(
        stream_headers(t),
        snapshot.streams@,
        fractions.streams@,
        snapshot.streams@.len() as int,
    )
}

fn push_streams_section(out: &mut String, snapshot: &MeshApiSnapshot, fractions: &Fractions)
    requires
        fractions.covers(*snapshot),
    ensures
        final(out)@ == streams_section(old(out)@, *snapshot, *fractions),
{
    push_stream_headers(out);
    let ghost before = out@;
    let mut i: usize = 0;
    while i < snapshot.streams.len()
        invariant
            fractions.covers(*snapshot),
            i <= snapshot.streams.len(),
            out@ == with_streams(before, snapshot.streams@, fractions.streams@, i as int),
        decreases snapshot.streams.len() - i,
    {
        push_stream(out, &snapshot.streams[i], &fractions.streams[i]);
        i = i + 1;
    }
}

/// An optional text; nothing where there is none.
pub open spec fn or_nothing(text: Option<String>) -> Seq<char> {
    match view_of(text) {
        Some(t) => t,
        None => ""@,
    }
}

/// The labels of an alert.
pub open spec fn alert_labels(alert: MeshAlert) -> Seq<char> {
    label("level"@, alert.level@) + ","@ + label("code"@, alert.code@) + ","@ + label(
        "node_id"@,
        or_nothing(alert.node_id),
    ) + ","@ + label("stream_id"@, or_nothing(alert.stream_id_text))
}

/// A text with the first `k` alerts.
pub open spec fn with_alerts(t: Seq<char>, alerts: Seq<MeshAlert>, k: int) -> Seq<char>
    decreases k,
{
    if k <= 0 {
        t
    } else {
        with_sample(
            with_alerts(t, alerts, k - 1),
            "av_mesh_alerts"@,
            alert_labels(alerts[k - 1]),
            decimal(alerts[k - 1].count as nat),
        )
    }
}

fn push_alert(out: &mut String, alert: &MeshAlert)
    ensures
        final(out)@ == with_sample(
            old(out)@,
            "av_mesh_alerts"@,
            alert_labels(*alert),
            decimal(alert.count as nat),
        ),
{
    let mut labels = String::new();
    push_label(&mut labels, "level", alert.level);
    proof {
        assert(labels@ =~= label("level"@, alert.level@));
    }
    labels.append(",");
    push_label(&mut labels, "code", alert.code);
    labels.append(",");
    match &alert.node_id {
        Some(node_id) => push_label(&mut labels, "node_id", node_id.as_str()),
        None => push_label(&mut labels, "node_id", ""),
    }
    labels.append(",");
    match &alert.stream_id_text {
        Some(stream_id) => push_label(&mut labels, "stream_id", stream_id.as_str()),
        None => push_label(&mut labels, "stream_id", ""),
    }
    push_sample(out, "av_mesh_alerts", labels.as_str(), alert.count);
}

/// The alerts of the mesh.
pub open spec fn alerts_section(t: Seq<char>, snapshot: MeshApiSnapshot) -> Seq<char> {
    let t = with_header(
        t,
        "av_mesh_alerts"@,
        "Current mesh alert counts by severity and stable alert code."@,
        "gauge"@,
    );
    with_alerts(t, snapshot.alerts@, snapshot.alerts@.len() as int)
}

fn push_alerts_section(out: &mut String, snapshot: &MeshApiSnapshot)
    ensures
        final(out)@ == alerts_section(old(out)@, *snapshot),
{
    push_prometheus_metric_header(
        out,
        "av_mesh_alerts",
        "Current mesh alert counts by severity and stable alert code.",
        "gauge",
    );
    let ghost before = out@;
    let mut i: usize = 0;
    while i < snapshot.alerts.len()
        invariant
            i <= snapshot.alerts.len(),
            out@ == with_alerts(before, snapshot.alerts@, i as int),
        decreases snapshot.alerts.len() - i,
    {
        push_alert(out, &snapshot.alerts[i]);
        i = i + 1;
    }
}

/// The view of a mesh as it is scraped.
pub open spec fn mesh_metrics(snapshot: MeshApiSnapshot, fractions: Fractions) -> Seq<char> {
    let t = ""@;
    let t = mesh_section(t, snapshot);
    let t = transport_section(t, snapshot, fractions);
    let t = fec_section(t, snapshot);
    let t = fec_kinds_section(t, snapshot);
    let t = sessions_section(t, snapshot);
    let t = datagrams_section(t, snapshot);
    let t = forwarding_section(t, snapshot);
    let t = processing_section(t, snapshot);
    let t = forward_time_section(t, snapshot);
    let t = publication_section(t, snapshot);
    let t = failover_state_section(t, snapshot);
    let t = failover_section(t, snapshot);
    let t = failover_commands_section(t, snapshot);
    let t = topology_section(t, snapshot);
    let t = epoch_section(t, snapshot, fractions);
    let t = nodes_section(t, snapshot);
    let t = edges_section(t, snapshot);
    let t = response_times_section(t, snapshot, fractions);
    let t = streams_section(t, snapshot, fractions);
    let t = alerts_section(t, snapshot);
    t
}

/// The view of a mesh as it is scraped.
pub fn render_mesh_prometheus_metrics(snapshot: &MeshApiSnapshot, fractions: &Fractions) -> (r:
    String)
    requires
        fractions.covers(*snapshot),
    ensures
        r@ == mesh_metrics(*snapshot, *fractions),
{
    let mut output = "".to_owned();
    push_mesh_section(&mut output, snapshot);
    push_transport_section(&mut output, snapshot, fractions);
    push_fec_section(&mut output, snapshot);
    push_fec_kinds_section(&mut output, snapshot);
    push_sessions_section(&mut output, snapshot);
    push_datagrams_section(&mut output, snapshot);
    push_forwarding_section(&mut output, snapshot);
    push_processing_section(&mut output, snapshot);
    push_forward_time_section(&mut output, snapshot);
    push_publication_section(&mut output, snapshot);
    push_failover_state_section(&mut output, snapshot);
    push_failover_section(&mut output, snapshot);
    push_failover_commands_section(&mut output, snapshot);
    push_topology_section(&mut output, snapshot);
    push_epoch_section(&mut output, snapshot, fractions);
    push_nodes_section(&mut output, snapshot);
    push_edges_section(&mut output, snapshot);
    push_response_times_section(&mut output, snapshot, fractions);
    push_streams_section(&mut output, snapshot, fractions);
    push_alerts_section(&mut output, snapshot);
    output
}

} // verus!
