//! Prometheus text exposition (format 0.0.4) of layered metrics.

use vstd::prelude::*;
use vstd::string::StrSliceExecFns;
use vstd::string::StringExecFns;

use crate::health::HealthState;
use crate::metrics::LayeredMetricsSnapshot;
use crate::text::{contains, decimal, owned, spec_contains, spec_decimal, starts_with};

verus! {

/// Whether `c` may stand in a label value unchanged: ASCII letters, digits,
/// `_` and `-`.
pub open spec fn label_char_ok(c: char) -> bool {
    ('a' <= c && c <= 'z') || ('A' <= c && c <= 'Z') || ('0' <= c && c <= '9') || c == '_' || c == '-'
}

/// `s` with every character that may not stand in a label replaced by `_`.
pub open spec fn spec_sanitize_label(s: Seq<char>) -> Seq<char> {
    s.map_values(|c: char| if label_char_ok(c) { c } else { '_' })
}

/// One metric: its HELP and TYPE lines and its sample line for `job`.
pub open spec fn spec_metric_block(
    kind: Seq<char>,
    name: Seq<char>,
    help: Seq<char>,
    job: Seq<char>,
    value: Seq<char>,
) -> Seq<char> {
    "# HELP "@ + name + " "@ + help + "\n# TYPE "@ + name + " "@ + kind + "\n"@ + name + "{job=\""@ + job
        + "\"} "@ + value + "\n"@
}

/// The health state's code: NORMAL=0 WARNING=1 DEGRADED=2 FAILED=3 RECOVERY=4.
pub open spec fn health_code(h: HealthState) -> u64 {
    match h {
        HealthState::Normal => 0,
        HealthState::Warning => 1,
        HealthState::Degraded => 2,
        HealthState::Failed => 3,
        HealthState::Recovery => 4,
    }
}

/// The full exposition: one block per metric in a fixed order, then the
/// health state when one is given. `link_speed_text` is the decimal text of
/// the link speed in Gbps.
pub open spec fn spec_render(
    snap: LayeredMetricsSnapshot,
    health: Option<HealthState>,
    job: Seq<char>,
    link_speed_text: Seq<char>,
) -> Seq<char> {
    let j = spec_sanitize_label(job);
    let body = Seq::<char>::empty()
        + spec_metric_block("gauge"@, "aether_link_up"@, "Physical link up (1) or down (0)"@, j, if snap.physical.link_up { "1"@ } else { "0"@ })
        + spec_metric_block("gauge"@, "aether_link_speed_gbps"@, "Configured or modelled link speed"@, j, link_speed_text)
        + spec_metric_block("counter"@, "aether_transport_rx_packets"@, "Transport RX packets"@, j, spec_decimal(snap.transport.rx_packets as nat))
        + spec_metric_block("counter"@, "aether_transport_tx_packets"@, "Transport TX packets"@, j, spec_decimal(snap.transport.tx_packets as nat))
        + spec_metric_block("counter"@, "aether_transport_rx_bytes"@, "Transport RX bytes"@, j, spec_decimal(snap.transport.rx_bytes as nat))
        + spec_metric_block("counter"@, "aether_transport_gap_count"@, "Sequence gap count"@, j, spec_decimal(snap.transport.gap_count as nat))
        + spec_metric_block("counter"@, "aether_transport_late_packets"@, "Late packet count"@, j, spec_decimal(snap.transport.late_packet as nat))
        + spec_metric_block("counter"@, "aether_transport_drop"@, "Dropped packets"@, j, spec_decimal(snap.transport.drop as nat))
        + spec_metric_block("gauge"@, "aether_transport_latency_last_ns"@, "Last e2e latency sample"@, j, spec_decimal(snap.transport.latency_last_ns as nat))
        + spec_metric_block("gauge"@, "aether_transport_latency_max_ns"@, "Max e2e latency sample"@, j, spec_decimal(snap.transport.latency_max_ns as nat))
        + spec_metric_block("gauge"@, "aether_transport_jitter_ns"@, "Last inter-sample jitter"@, j, spec_decimal(snap.transport.jitter_ns as nat))
        + spec_metric_block("counter"@, "aether_radio_deadline_miss"@, "Radio deadline misses"@, j, spec_decimal(snap.radio.deadline_miss as nat))
        + spec_metric_block("counter"@, "aether_radio_symbol_received"@, "Symbols received"@, j, spec_decimal(snap.radio.symbol_received as nat))
        + spec_metric_block("gauge"@, "aether_memory_ring_occupancy"@, "GPU/host ring occupancy"@, j, spec_decimal(snap.memory.ring_occupancy as nat))
        + spec_metric_block("gauge"@, "aether_compute_kernel_latency_ns"@, "Last kernel latency"@, j, spec_decimal(snap.compute.kernel_latency_ns as nat))
        + spec_metric_block("counter"@, "aether_compute_kernel_executions"@, "Kernel execution count"@, j, spec_decimal(snap.compute.kernel_executions as nat));
    match health {
        Some(h) => body + spec_metric_block(
            "gauge"@,
            "aether_health_state"@,
            "Health state code NORMAL=0 WARNING=1 DEGRADED=2 FAILED=3 RECOVERY=4"@,
            j,
            spec_decimal(health_code(h) as nat),
        ),
        None => body,
    }
}

fn metric_block(kind: &str, name: &str, help: &str, job: &str, value: &str) -> (s: String)
    ensures
        s@ == spec_metric_block(kind@, name@, help@, job@, value@),
{
    let mut s = String::from_str("# HELP ");
    s.append(name);
    s.append(" ");
    s.append(help);
    s.append("\n# TYPE ");
    s.append(name);
    s.append(" ");
    s.append(kind);
    s.append("\n");
    s.append(name);
    s.append("{job=\"");
    s.append(job);
    s.append("\"} ");
    s.append(value);
    s.append("\n");
    s
}

/// Replaces every character outside `[A-Za-z0-9_-]` by `_`.
pub fn sanitize_label(s: &str) -> (r: String)
    ensures
        r@ == spec_sanitize_label(s@),
{
    let n = s.unicode_len();
    let mut r = String::new();
    let mut i: usize = 0;
    while i < n
        invariant
            n == s@.len(),
            0 <= i <= n,
            r@ == spec_sanitize_label(s@.subrange(0, i as int)),
        decreases n - i,
    {
        let c = s.get_char(i);
        let ok = ('a' <= c && c <= 'z') || ('A' <= c && c <= 'Z') || ('0' <= c && c <= '9') || c == '_'
            || c == '-';
        proof {
            assert(s@.subrange(0, i + 1) =~= s@.subrange(0, i as int).push(c));
        }
        if ok {
            r.append(s.substring_char(i, i + 1));
        } else {
            r.append("_");
            proof {
                reveal_strlit("_");
            }
        }
        proof {
            assert(r@ =~= spec_sanitize_label(s@.subrange(0, i + 1)));
        }
        i = i + 1;
    }
    proof {
        assert(s@.subrange(0, n as int) =~= s@);
    }
    r
}

fn health_code_of(h: HealthState) -> (c: u64)
    ensures
        c == health_code(h),
{
    match h {
        HealthState::Normal => 0,
        HealthState::Warning => 1,
        HealthState::Degraded => 2,
        HealthState::Failed => 3,
        HealthState::Recovery => 4,
    }
}

/// Renders layered metrics as Prometheus text exposition. The link speed,
/// a float, comes already rendered as `link_speed_text`.
pub fn render_prometheus_text(
    snap: &LayeredMetricsSnapshot,
    health: Option<HealthState>,
    job: &str,
    link_speed_text: &str,
) -> (out: String)
    ensures
        out@ == spec_render(*snap, health, job@, link_speed_text@),
{
    let job = sanitize_label(job);
    let j = job.as_str();
    let mut out = String::new();
    out.append(metric_block("gauge", "aether_link_up", "Physical link up (1) or down (0)", j, if snap.physical.link_up { "1" } else { "0" }).as_str());
    out.append(metric_block("gauge", "aether_link_speed_gbps", "Configured or modelled link speed", j, link_speed_text).as_str());
    out.append(metric_block("counter", "aether_transport_rx_packets", "Transport RX packets", j, decimal(snap.transport.rx_packets).as_str()).as_str());
    out.append(metric_block("counter", "aether_transport_tx_packets", "Transport TX packets", j, decimal(snap.transport.tx_packets).as_str()).as_str());
    out.append(metric_block("counter", "aether_transport_rx_bytes", "Transport RX bytes", j, decimal(snap.transport.rx_bytes).as_str()).as_str());
    out.append(metric_block("counter", "aether_transport_gap_count", "Sequence gap count", j, decimal(snap.transport.gap_count).as_str()).as_str());
    out.append(metric_block("counter", "aether_transport_late_packets", "Late packet count", j, decimal(snap.transport.late_packet).as_str()).as_str());
    out.append(metric_block("counter", "aether_transport_drop", "Dropped packets", j, decimal(snap.transport.drop).as_str()).as_str());
    out.append(metric_block("gauge", "aether_transport_latency_last_ns", "Last e2e latency sample", j, decimal(snap.transport.latency_last_ns).as_str()).as_str());
    out.append(metric_block("gauge", "aether_transport_latency_max_ns", "Max e2e latency sample", j, decimal(snap.transport.latency_max_ns).as_str()).as_str());
    out.append(metric_block("gauge", "aether_transport_jitter_ns", "Last inter-sample jitter", j, decimal(snap.transport.jitter_ns).as_str()).as_str());
    out.append(metric_block("counter", "aether_radio_deadline_miss", "Radio deadline misses", j, decimal(snap.radio.deadline_miss).as_str()).as_str());
    out.append(metric_block("counter", "aether_radio_symbol_received", "Symbols received", j, decimal(snap.radio.symbol_received).as_str()).as_str());
    out.append(metric_block("gauge", "aether_memory_ring_occupancy", "GPU/host ring occupancy", j, decimal(snap.memory.ring_occupancy).as_str()).as_str());
    out.append(metric_block("gauge", "aether_compute_kernel_latency_ns", "Last kernel latency", j, decimal(snap.compute.kernel_latency_ns).as_str()).as_str());
    out.append(metric_block("counter", "aether_compute_kernel_executions", "Kernel execution count", j, decimal(snap.compute.kernel_executions).as_str()).as_str());
    if let Some(h) = health {
        out.append(
            metric_block(
                "gauge",
                "aether_health_state",
                "Health state code NORMAL=0 WARNING=1 DEGRADED=2 FAILED=3 RECOVERY=4",
                j,
                decimal(health_code_of(h)).as_str(),
            ).as_str(),
        );
    }
    out
}

/// Whether an HTTP request asks for the metrics at `path`: a `GET` whose
/// text holds the path followed by a space, a query or the protocol.
pub open spec fn spec_is_metrics_request(req: Seq<char>, path: Seq<char>) -> bool {
    &&& 4 <= req.len() && req.subrange(0, 4) == "GET "@
    &&& spec_contains(req, " "@ + path + " "@) || spec_contains(req, " "@ + path + "?"@) || spec_contains(
        req,
        " "@ + path + " HTTP"@,
    )
}

fn around(path: &str, tail: &str) -> (s: String)
    ensures
        s@ == " "@ + path@ + tail@,
{
    let mut s = owned(" ");
    s.append(path);
    s.append(tail);
    s
}

pub fn is_metrics_request(req: &str, path: &str) -> (b: bool)
    ensures
        b == spec_is_metrics_request(req@, path@),
{
    proof {
        reveal_strlit("GET ");
    }
    starts_with(req, "GET ") && (contains(req, around(path, " ").as_str()) || contains(
        req,
        around(path, "?").as_str(),
    ) || contains(req, around(path, " HTTP").as_str()))
}

/// Status line and headers of a scrape response with a body of `body_len`
/// bytes: `200 OK` with the exposition content type when `found`, else
/// `404 Not Found`.
pub open spec fn spec_response_head(found: bool, body_len: u64) -> Seq<char> {
    if found {
        "HTTP/1.1 200 OK\r\nContent-Type: text/plain; version=0.0.4\r\nContent-Length: "@ + spec_decimal(
            body_len as nat,
        ) + "\r\nConnection: close\r\n\r\n"@
    } else {
        "HTTP/1.1 404 Not Found\r\nContent-Length: "@ + spec_decimal(body_len as nat)
            + "\r\nConnection: close\r\n\r\n"@
    }
}

pub fn response_head(found: bool, body_len: u64) -> (s: String)
    ensures
        s@ == spec_response_head(found, body_len),
{
    let mut s = if found {
        owned("HTTP/1.1 200 OK\r\nContent-Type: text/plain; version=0.0.4\r\nContent-Length: ")
    } else {
        owned("HTTP/1.1 404 Not Found\r\nContent-Length: ")
    };
    s.append(decimal(body_len).as_str());
    s.append("\r\nConnection: close\r\n\r\n");
    s
}

} // verus!
