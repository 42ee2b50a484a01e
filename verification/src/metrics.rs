//! Five-layer metrics model, the `MetricsBackend` trait and the in-process
//! metrics engine.
//!
//! Floating-point gauges (link speed, GPU utilisation, bandwidth) are carried
//! as the IEEE-754 bit patterns of their values.

use vstd::prelude::*;

verus! {

/// Layer 1 — Physical / Link.
#[derive(Debug, Clone, Copy, PartialEq, Eq, Structural)]
pub struct PhysicalMetrics {
    pub link_up: bool,
    /// Bit pattern of the link speed in Gbps.
    pub link_speed_gbps_bits: u64,
    pub mtu: u32,
    pub crc_error: u64,
    pub fec_corrected: u64,
    pub fec_uncorrected: u64,
}

/// Layer 2 — Transport.
#[derive(Debug, Clone, Copy, PartialEq, Eq, Structural)]
pub struct TransportLayerMetrics {
    pub tx_packets: u64,
    pub rx_packets: u64,
    pub tx_bytes: u64,
    pub rx_bytes: u64,
    pub gap_count: u64,
    pub duplicate_count: u64,
    pub out_of_order_count: u64,
    pub late_packet: u64,
    pub drop: u64,
    pub latency_min_ns: u64,
    pub latency_max_ns: u64,
    pub latency_last_ns: u64,
    pub latency_sum_ns: u64,
    pub latency_samples: u64,
    pub jitter_ns: u64,
}

impl TransportLayerMetrics {
    /// Mean latency over the samples (0 without samples).
    pub fn latency_avg_ns(&self) -> (r: u64)
        ensures
            r == if self.latency_samples == 0 { 0 } else { self.latency_sum_ns / self.latency_samples },
    {
        match self.latency_sum_ns.checked_div(self.latency_samples) {
            Some(v) => v,
            None => 0,
        }
    }
}

/// Layer 3 — Radio.
#[derive(Debug, Clone, Copy, PartialEq, Eq, Structural)]
pub struct RadioLayerMetrics {
    pub slot_received: u64,
    pub slot_processed: u64,
    pub slot_lost: u64,
    pub slot_deadline_miss: u64,
    pub symbol_received: u64,
    pub symbol_gap: u64,
    pub symbol_latency_ns: u64,
    pub iq_loss: u64,
    pub deadline_miss: u64,
}

/// Layer 4 — Memory.
#[derive(Debug, Clone, Copy, PartialEq, Eq, Structural)]
pub struct MemoryLayerMetrics {
    pub host_buffer_used: u64,
    pub gpu_buffer_used: u64,
    pub buffer_full: u64,
    pub overflow: u64,
    pub underflow: u64,
    pub ring_occupancy: u64,
    pub ring_stall_ns: u64,
}

/// Layer 5 — Compute.
#[derive(Debug, Clone, Copy, PartialEq, Eq, Structural)]
pub struct ComputeLayerMetrics {
    pub kernel_latency_ns: u64,
    pub kernel_executions: u64,
    pub cuda_stream_idle: u64,
    /// Bit pattern of the GPU utilisation percentage.
    pub gpu_utilization_pct_bits: u64,
}

/// Full five-layer snapshot.
#[derive(Debug, Clone, Copy, PartialEq, Eq, Structural)]
pub struct LayeredMetricsSnapshot {
    pub physical: PhysicalMetrics,
    pub transport: TransportLayerMetrics,
    pub radio: RadioLayerMetrics,
    pub memory: MemoryLayerMetrics,
    pub compute: ComputeLayerMetrics,
}

pub open spec fn zero_physical() -> PhysicalMetrics {
    PhysicalMetrics {
        link_up: false,
        link_speed_gbps_bits: 0,
        mtu: 0,
        crc_error: 0,
        fec_corrected: 0,
        fec_uncorrected: 0,
    }
}

pub open spec fn zero_transport() -> TransportLayerMetrics {
    TransportLayerMetrics {
        tx_packets: 0,
        rx_packets: 0,
        tx_bytes: 0,
        rx_bytes: 0,
        gap_count: 0,
        duplicate_count: 0,
        out_of_order_count: 0,
        late_packet: 0,
        drop: 0,
        latency_min_ns: 0,
        latency_max_ns: 0,
        latency_last_ns: 0,
        latency_sum_ns: 0,
        latency_samples: 0,
        jitter_ns: 0,
    }
}

pub open spec fn zero_radio() -> RadioLayerMetrics {
    RadioLayerMetrics {
        slot_received: 0,
        slot_processed: 0,
        slot_lost: 0,
        slot_deadline_miss: 0,
        symbol_received: 0,
        symbol_gap: 0,
        symbol_latency_ns: 0,
        iq_loss: 0,
        deadline_miss: 0,
    }
}

pub open spec fn zero_memory() -> MemoryLayerMetrics {
    MemoryLayerMetrics {
        host_buffer_used: 0,
        gpu_buffer_used: 0,
        buffer_full: 0,
        overflow: 0,
        underflow: 0,
        ring_occupancy: 0,
        ring_stall_ns: 0,
    }
}

pub open spec fn zero_compute() -> ComputeLayerMetrics {
    ComputeLayerMetrics {
        kernel_latency_ns: 0,
        kernel_executions: 0,
        cuda_stream_idle: 0,
        gpu_utilization_pct_bits: 0,
    }
}

pub open spec fn zero_snapshot() -> LayeredMetricsSnapshot {
    LayeredMetricsSnapshot {
        physical: zero_physical(),
        transport: zero_transport(),
        radio: zero_radio(),
        memory: zero_memory(),
        compute: zero_compute(),
    }
}

impl Default for PhysicalMetrics {
    fn default() -> (r: Self)
        ensures
            r == zero_physical(),
    {
        PhysicalMetrics {
            link_up: false,
            link_speed_gbps_bits: 0,
            mtu: 0,
            crc_error: 0,
            fec_corrected: 0,
            fec_uncorrected: 0,
        }
    }
}

impl Default for TransportLayerMetrics {
    fn default() -> (r: Self)
        ensures
            r == zero_transport(),
    {
        TransportLayerMetrics {
            tx_packets: 0,
            rx_packets: 0,
            tx_bytes: 0,
            rx_bytes: 0,
            gap_count: 0,
            duplicate_count: 0,
            out_of_order_count: 0,
            late_packet: 0,
            drop: 0,
            latency_min_ns: 0,
            latency_max_ns: 0,
            latency_last_ns: 0,
            latency_sum_ns: 0,
            latency_samples: 0,
            jitter_ns: 0,
        }
    }
}

impl Default for RadioLayerMetrics {
    fn default() -> (r: Self)
        ensures
            r == zero_radio(),
    {
        RadioLayerMetrics {
            slot_received: 0,
            slot_processed: 0,
            slot_lost: 0,
            slot_deadline_miss: 0,
            symbol_received: 0,
            symbol_gap: 0,
            symbol_latency_ns: 0,
            iq_loss: 0,
            deadline_miss: 0,
        }
    }
}

impl Default for MemoryLayerMetrics {
    fn default() -> (r: Self)
        ensures
            r == zero_memory(),
    {
        MemoryLayerMetrics {
            host_buffer_used: 0,
            gpu_buffer_used: 0,
            buffer_full: 0,
            overflow: 0,
            underflow: 0,
            ring_occupancy: 0,
            ring_stall_ns: 0,
        }
    }
}

impl Default for ComputeLayerMetrics {
    fn default() -> (r: Self)
        ensures
            r == zero_compute(),
    {
        ComputeLayerMetrics {
            kernel_latency_ns: 0,
            kernel_executions: 0,
            cuda_stream_idle: 0,
            gpu_utilization_pct_bits: 0,
        }
    }
}

impl Default for LayeredMetricsSnapshot {
    fn default() -> (r: Self)
        ensures
            r == zero_snapshot(),
    {
        LayeredMetricsSnapshot {
            physical: PhysicalMetrics::default(),
            transport: TransportLayerMetrics::default(),
            radio: RadioLayerMetrics::default(),
            memory: MemoryLayerMetrics::default(),
            compute: ComputeLayerMetrics::default(),
        }
    }
}

/// Backend trait — business code depends on this, not exporters.
pub trait MetricsBackend {
    /// Whether no counter that a record call bumps by one is at its maximum.
    spec fn can_record(&self) -> bool;

    fn record_rx_bytes(&mut self, bytes: u64)
        requires
            old(self).can_record(),
    ;

    fn record_tx_bytes(&mut self, bytes: u64)
        requires
            old(self).can_record(),
    ;

    fn record_gap(&mut self)
        requires
            old(self).can_record(),
    ;

    fn record_late(&mut self)
        requires
            old(self).can_record(),
    ;

    fn record_drop(&mut self)
        requires
            old(self).can_record(),
    ;

    fn record_latency_sample(&mut self, latency_ns: u64)
        requires
            old(self).can_record(),
    ;

    fn record_deadline_miss(&mut self)
        requires
            old(self).can_record(),
    ;

    fn record_symbol(&mut self)
        requires
            old(self).can_record(),
    ;

    fn record_kernel_ns(&mut self, ns: u64)
        requires
            old(self).can_record(),
    ;

    fn set_link_up(&mut self, up: bool, speed_gbps_bits: u64);

    fn set_ring_occupancy(&mut self, occupancy: u64);

    fn layered_snapshot(&self) -> LayeredMetricsSnapshot;
}

/// Legacy flat snapshot (kept for CLI/smoke JSON compatibility).
#[derive(Debug, Clone, Copy, PartialEq, Eq, Structural)]
pub struct LinkMetrics {
    pub rx_packets: u64,
    pub tx_packets: u64,
    /// Bit pattern of the bandwidth in bits per second.
    pub bandwidth_bps_bits: u64,
    pub drop: u64,
    pub error: u64,
}

#[derive(Debug, Clone, Copy, PartialEq, Eq, Structural)]
pub struct TransportMetrics {
    pub sequence_gap: u64,
    pub late_packet: u64,
    pub jitter_ns: u64,
    pub latency_ns: u64,
}

#[derive(Debug, Clone, Copy, PartialEq, Eq, Structural)]
pub struct RadioMetrics {
    pub slot_latency_ns: u64,
    pub symbol_latency_ns: u64,
    pub deadline_miss: u64,
}

#[derive(Debug, Clone, Copy, PartialEq, Eq, Structural)]
pub struct MetricsSnapshot {
    pub link: LinkMetrics,
    pub transport: TransportMetrics,
    pub radio: RadioMetrics,
}

/// Abstract state of a [`MetricsEngine`].
pub struct MetricsEngineView {
    pub layered: LayeredMetricsSnapshot,
    pub last_latency_ns: u64,
}

/// Every counter that a record call bumps by one is below its maximum.
pub open spec fn counters_below_max(s: LayeredMetricsSnapshot) -> bool {
    counters_at_most(s, (u64::MAX - 1) as u64)
}

/// Every counter that a record call bumps by one is at most `n`.
pub open spec fn counters_at_most(s: LayeredMetricsSnapshot, n: u64) -> bool {
    &&& s.transport.rx_packets <= n
    &&& s.transport.tx_packets <= n
    &&& s.transport.gap_count <= n
    &&& s.transport.late_packet <= n
    &&& s.transport.drop <= n
    &&& s.transport.latency_samples <= n
    &&& s.radio.deadline_miss <= n
    &&& s.radio.slot_deadline_miss <= n
    &&& s.radio.symbol_received <= n
    &&& s.radio.slot_received <= n
    &&& s.radio.slot_processed <= n
    &&& s.compute.kernel_executions <= n
    &&& s.physical.crc_error <= n
}

pub open spec fn sat_add64(a: u64, b: u64) -> u64 {
    if a + b > u64::MAX {
        u64::MAX
    } else {
        (a + b) as u64
    }
}

/// Transport metrics after one latency sample.
pub open spec fn spec_latency_sample(t: TransportLayerMetrics, latency_ns: u64) -> TransportLayerMetrics {
    let (min, max, jitter) = if t.latency_samples == 0 {
        (latency_ns, latency_ns, t.jitter_ns)
    } else {
        (
            if latency_ns < t.latency_min_ns { latency_ns } else { t.latency_min_ns },
            if latency_ns > t.latency_max_ns { latency_ns } else { t.latency_max_ns },
            if t.latency_last_ns > 0 {
                if latency_ns >= t.latency_last_ns {
                    (latency_ns - t.latency_last_ns) as u64
                } else {
                    (t.latency_last_ns - latency_ns) as u64
                }
            } else {
                t.jitter_ns
            },
        )
    };
    TransportLayerMetrics {
        latency_min_ns: min,
        latency_max_ns: max,
        jitter_ns: jitter,
        latency_last_ns: latency_ns,
        latency_sum_ns: sat_add64(t.latency_sum_ns, latency_ns),
        latency_samples: (t.latency_samples + 1) as u64,
        ..t
    }
}

/// In-process metrics engine implementing [`MetricsBackend`].
#[derive(Debug)]
pub struct MetricsEngine {
    layered: LayeredMetricsSnapshot,
    last_latency_ns: u64,
}

impl View for MetricsEngine {
    type V = MetricsEngineView;

    closed spec fn view(&self) -> MetricsEngineView {
        MetricsEngineView { layered: self.layered, last_latency_ns: self.last_latency_ns }
    }
}

impl MetricsEngine {
    pub fn new() -> (m: Self)
        ensures
            m@.layered == zero_snapshot(),
            m@.last_latency_ns == 0,
    {
        MetricsEngine { layered: LayeredMetricsSnapshot::default(), last_latency_ns: 0 }
    }

    pub fn record_rx(&mut self)
        requires
            old(self)@.layered.transport.rx_packets < u64::MAX,
        ensures
            final(self)@ == (MetricsEngineView {
                layered: LayeredMetricsSnapshot {
                    transport: TransportLayerMetrics {
                        rx_packets: (old(self)@.layered.transport.rx_packets + 1) as u64,
                        ..old(self)@.layered.transport
                    },
                    ..old(self)@.layered
                },
                ..old(self)@
            }),
    {
        self.layered.transport.rx_packets = self.layered.transport.rx_packets + 1;
    }

    pub fn record_tx(&mut self)
        requires
            old(self)@.layered.transport.tx_packets < u64::MAX,
        ensures
            final(self)@ == (MetricsEngineView {
                layered: LayeredMetricsSnapshot {
                    transport: TransportLayerMetrics {
                        tx_packets: (old(self)@.layered.transport.tx_packets + 1) as u64,
                        ..old(self)@.layered.transport
                    },
                    ..old(self)@.layered
                },
                ..old(self)@
            }),
    {
        self.layered.transport.tx_packets = self.layered.transport.tx_packets + 1;
    }

    pub fn record_drop(&mut self)
        requires
            old(self)@.layered.transport.drop < u64::MAX,
        ensures
            final(self)@ == (MetricsEngineView {
                layered: LayeredMetricsSnapshot {
                    transport: TransportLayerMetrics {
                        drop: (old(self)@.layered.transport.drop + 1) as u64,
                        ..old(self)@.layered.transport
                    },
                    ..old(self)@.layered
                },
                ..old(self)@
            }),
    {
        self.layered.transport.drop = self.layered.transport.drop + 1;
    }

    pub fn record_sequence_gap(&mut self)
        requires
            old(self)@.layered.transport.gap_count < u64::MAX,
        ensures
            final(self)@ == (MetricsEngineView {
                layered: LayeredMetricsSnapshot {
                    transport: TransportLayerMetrics {
                        gap_count: (old(self)@.layered.transport.gap_count + 1) as u64,
                        ..old(self)@.layered.transport
                    },
                    ..old(self)@.layered
                },
                ..old(self)@
            }),
    {
        self.layered.transport.gap_count = self.layered.transport.gap_count + 1;
    }

    pub fn record_late_packet(&mut self)
        requires
            old(self)@.layered.transport.late_packet < u64::MAX,
        ensures
            final(self)@ == (MetricsEngineView {
                layered: LayeredMetricsSnapshot {
                    transport: TransportLayerMetrics {
                        late_packet: (old(self)@.layered.transport.late_packet + 1) as u64,
                        ..old(self)@.layered.transport
                    },
                    ..old(self)@.layered
                },
                ..old(self)@
            }),
    {
        self.layered.transport.late_packet = self.layered.transport.late_packet + 1;
    }

    pub fn record_latency_ns(&mut self, latency_ns: u64)
        requires
            old(self)@.layered.transport.latency_samples < u64::MAX,
        ensures
            final(self)@ == (MetricsEngineView {
                layered: LayeredMetricsSnapshot {
                    transport: spec_latency_sample(old(self)@.layered.transport, latency_ns),
                    ..old(self)@.layered
                },
                last_latency_ns: latency_ns,
            }),
    {
        self.latency_sample(latency_ns);
    }

    pub fn record_deadline_miss(&mut self)
        requires
            old(self)@.layered.radio.deadline_miss < u64::MAX,
            old(self)@.layered.radio.slot_deadline_miss < u64::MAX,
        ensures
            final(self)@ == (MetricsEngineView {
                layered: LayeredMetricsSnapshot {
                    radio: RadioLayerMetrics {
                        deadline_miss: (old(self)@.layered.radio.deadline_miss + 1) as u64,
                        slot_deadline_miss: (old(self)@.layered.radio.slot_deadline_miss + 1) as u64,
                        ..old(self)@.layered.radio
                    },
                    ..old(self)@.layered
                },
                ..old(self)@
            }),
    {
        self.layered.radio.deadline_miss = self.layered.radio.deadline_miss + 1;
        self.layered.radio.slot_deadline_miss = self.layered.radio.slot_deadline_miss + 1;
    }

    pub fn record_error(&mut self)
        requires
            old(self)@.layered.physical.crc_error < u64::MAX,
        ensures
            final(self)@ == (MetricsEngineView {
                layered: LayeredMetricsSnapshot {
                    physical: PhysicalMetrics {
                        crc_error: (old(self)@.layered.physical.crc_error + 1) as u64,
                        ..old(self)@.layered.physical
                    },
                    ..old(self)@.layered
                },
                ..old(self)@
            }),
    {
        self.layered.physical.crc_error = self.layered.physical.crc_error + 1;
    }

    pub fn set_ring_occupancy(&mut self, occupancy: u64)
        ensures
            final(self)@ == (MetricsEngineView {
                layered: LayeredMetricsSnapshot {
                    memory: MemoryLayerMetrics { ring_occupancy: occupancy, ..old(self)@.layered.memory },
                    ..old(self)@.layered
                },
                ..old(self)@
            }),
    {
        self.layered.memory.ring_occupancy = occupancy;
    }

    pub fn record_buffer_full(&mut self)
        ensures
            final(self)@ == (MetricsEngineView {
                layered: LayeredMetricsSnapshot {
                    memory: MemoryLayerMetrics {
                        buffer_full: sat_add64(old(self)@.layered.memory.buffer_full, 1),
                        overflow: sat_add64(old(self)@.layered.memory.overflow, 1),
                        ..old(self)@.layered.memory
                    },
                    ..old(self)@.layered
                },
                ..old(self)@
            }),
    {
        self.layered.memory.buffer_full = self.layered.memory.buffer_full.saturating_add(1);
        self.layered.memory.overflow = self.layered.memory.overflow.saturating_add(1);
    }

    pub fn set_memory_buffers(&mut self, host_used: u64, gpu_used: u64)
        ensures
            final(self)@ == (MetricsEngineView {
                layered: LayeredMetricsSnapshot {
                    memory: MemoryLayerMetrics {
                        host_buffer_used: host_used,
                        gpu_buffer_used: gpu_used,
                        ..old(self)@.layered.memory
                    },
                    ..old(self)@.layered
                },
                ..old(self)@
            }),
    {
        self.layered.memory.host_buffer_used = host_used;
        self.layered.memory.gpu_buffer_used = gpu_used;
    }

    /// Flat legacy view of the layered metrics.
    pub fn snapshot(&self) -> (s: MetricsSnapshot)
        ensures
            s == (MetricsSnapshot {
                link: LinkMetrics {
                    rx_packets: self@.layered.transport.rx_packets,
                    tx_packets: self@.layered.transport.tx_packets,
                    bandwidth_bps_bits: 0,
                    drop: self@.layered.transport.drop,
                    error: self@.layered.physical.crc_error,
                },
                transport: TransportMetrics {
                    sequence_gap: self@.layered.transport.gap_count,
                    late_packet: self@.layered.transport.late_packet,
                    jitter_ns: self@.layered.transport.jitter_ns,
                    latency_ns: self@.last_latency_ns,
                },
                radio: RadioMetrics {
                    slot_latency_ns: 0,
                    symbol_latency_ns: self@.layered.radio.symbol_latency_ns,
                    deadline_miss: self@.layered.radio.deadline_miss,
                },
            }),
    {
        MetricsSnapshot {
            link: LinkMetrics {
                rx_packets: self.layered.transport.rx_packets,
                tx_packets: self.layered.transport.tx_packets,
                bandwidth_bps_bits: 0,
                drop: self.layered.transport.drop,
                error: self.layered.physical.crc_error,
            },
            transport: TransportMetrics {
                sequence_gap: self.layered.transport.gap_count,
                late_packet: self.layered.transport.late_packet,
                jitter_ns: self.layered.transport.jitter_ns,
                latency_ns: self.last_latency_ns,
            },
            radio: RadioMetrics {
                slot_latency_ns: 0,
                symbol_latency_ns: self.layered.radio.symbol_latency_ns,
                deadline_miss: self.layered.radio.deadline_miss,
            },
        }
    }

    pub fn layered_snapshot(&self) -> (s: LayeredMetricsSnapshot)
        ensures
            s == self@.layered,
    {
        self.layered
    }

    fn latency_sample(&mut self, latency_ns: u64)
        requires
            old(self)@.layered.transport.latency_samples < u64::MAX,
        ensures
            final(self)@ == (MetricsEngineView {
                layered: LayeredMetricsSnapshot {
                    transport: spec_latency_sample(old(self)@.layered.transport, latency_ns),
                    ..old(self)@.layered
                },
                last_latency_ns: latency_ns,
            }),
    {
        let mut t = self.layered.transport;
        if t.latency_samples == 0 {
            t.latency_min_ns = latency_ns;
            t.latency_max_ns = latency_ns;
        } else {
            if latency_ns < t.latency_min_ns {
                t.latency_min_ns = latency_ns;
            }
            if latency_ns > t.latency_max_ns {
                t.latency_max_ns = latency_ns;
            }
            if t.latency_last_ns > 0 {
                let delta = if latency_ns >= t.latency_last_ns {
                    latency_ns - t.latency_last_ns
                } else {
                    t.latency_last_ns - latency_ns
                };
                t.jitter_ns = delta;
            }
        }
        t.latency_last_ns = latency_ns;
        t.latency_sum_ns = t.latency_sum_ns.saturating_add(latency_ns);
        t.latency_samples = t.latency_samples + 1;
        self.layered.transport = t;
        self.last_latency_ns = latency_ns;
    }
}

impl MetricsBackend for MetricsEngine {
    open spec fn can_record(&self) -> bool {
        counters_below_max(self@.layered)
    }

    fn record_rx_bytes(&mut self, bytes: u64)
        ensures
            final(self)@ == (MetricsEngineView {
                layered: LayeredMetricsSnapshot {
                    transport: TransportLayerMetrics {
                        rx_packets: (old(self)@.layered.transport.rx_packets + 1) as u64,
                        rx_bytes: sat_add64(old(self)@.layered.transport.rx_bytes, bytes),
                        ..old(self)@.layered.transport
                    },
                    ..old(self)@.layered
                },
                ..old(self)@
            }),
    {
        self.layered.transport.rx_packets = self.layered.transport.rx_packets + 1;
        self.layered.transport.rx_bytes = self.layered.transport.rx_bytes.saturating_add(bytes);
    }

    fn record_tx_bytes(&mut self, bytes: u64)
        ensures
            final(self)@ == (MetricsEngineView {
                layered: LayeredMetricsSnapshot {
                    transport: TransportLayerMetrics {
                        tx_packets: (old(self)@.layered.transport.tx_packets + 1) as u64,
                        tx_bytes: sat_add64(old(self)@.layered.transport.tx_bytes, bytes),
                        ..old(self)@.layered.transport
                    },
                    ..old(self)@.layered
                },
                ..old(self)@
            }),
    {
        self.layered.transport.tx_packets = self.layered.transport.tx_packets + 1;
        self.layered.transport.tx_bytes = self.layered.transport.tx_bytes.saturating_add(bytes);
    }

    fn record_gap(&mut self)
        ensures
            final(self)@ == (MetricsEngineView {
                layered: LayeredMetricsSnapshot {
                    transport: TransportLayerMetrics {
                        gap_count: (old(self)@.layered.transport.gap_count + 1) as u64,
                        ..old(self)@.layered.transport
                    },
                    ..old(self)@.layered
                },
                ..old(self)@
            }),
    {
        self.record_sequence_gap();
    }

    fn record_late(&mut self)
        ensures
            final(self)@ == (MetricsEngineView {
                layered: LayeredMetricsSnapshot {
                    transport: TransportLayerMetrics {
                        late_packet: (old(self)@.layered.transport.late_packet + 1) as u64,
                        ..old(self)@.layered.transport
                    },
                    ..old(self)@.layered
                },
                ..old(self)@
            }),
    {
        self.record_late_packet();
    }

    fn record_drop(&mut self)
        ensures
            final(self)@ == (MetricsEngineView {
                layered: LayeredMetricsSnapshot {
                    transport: TransportLayerMetrics {
                        drop: (old(self)@.layered.transport.drop + 1) as u64,
                        ..old(self)@.layered.transport
                    },
                    ..old(self)@.layered
                },
                ..old(self)@
            }),
    {
        self.layered.transport.drop = self.layered.transport.drop + 1;
    }

    fn record_latency_sample(&mut self, latency_ns: u64)
        ensures
            final(self)@ == (MetricsEngineView {
                layered: LayeredMetricsSnapshot {
                    transport: spec_latency_sample(old(self)@.layered.transport, latency_ns),
                    ..old(self)@.layered
                },
                last_latency_ns: latency_ns,
            }),
    {
        self.latency_sample(latency_ns);
    }

    fn record_deadline_miss(&mut self)
        ensures
            final(self)@ == (MetricsEngineView {
                layered: LayeredMetricsSnapshot {
                    radio: RadioLayerMetrics {
                        deadline_miss: (old(self)@.layered.radio.deadline_miss + 1) as u64,
                        slot_deadline_miss: (old(self)@.layered.radio.slot_deadline_miss + 1) as u64,
                        ..old(self)@.layered.radio
                    },
                    ..old(self)@.layered
                },
                ..old(self)@
            }),
    {
        self.layered.radio.deadline_miss = self.layered.radio.deadline_miss + 1;
        self.layered.radio.slot_deadline_miss = self.layered.radio.slot_deadline_miss + 1;
    }

    fn record_symbol(&mut self)
        ensures
            final(self)@ == (MetricsEngineView {
                layered: LayeredMetricsSnapshot {
                    radio: RadioLayerMetrics {
                        symbol_received: (old(self)@.layered.radio.symbol_received + 1) as u64,
                        slot_received: (old(self)@.layered.radio.slot_received + 1) as u64,
                        slot_processed: (old(self)@.layered.radio.slot_processed + 1) as u64,
                        ..old(self)@.layered.radio
                    },
                    ..old(self)@.layered
                },
                ..old(self)@
            }),
    {
        self.layered.radio.symbol_received = self.layered.radio.symbol_received + 1;
        self.layered.radio.slot_received = self.layered.radio.slot_received + 1;
        self.layered.radio.slot_processed = self.layered.radio.slot_processed + 1;
    }

    fn record_kernel_ns(&mut self, ns: u64)
        ensures
            final(self)@ == (MetricsEngineView {
                layered: LayeredMetricsSnapshot {
                    compute: ComputeLayerMetrics {
                        kernel_latency_ns: ns,
                        kernel_executions: (old(self)@.layered.compute.kernel_executions + 1) as u64,
                        ..old(self)@.layered.compute
                    },
                    ..old(self)@.layered
                },
                ..old(self)@
            }),
    {
        self.layered.compute.kernel_latency_ns = ns;
        self.layered.compute.kernel_executions = self.layered.compute.kernel_executions + 1;
    }

    fn set_link_up(&mut self, up: bool, speed_gbps_bits: u64)
        ensures
            final(self)@ == (MetricsEngineView {
                layered: LayeredMetricsSnapshot {
                    physical: PhysicalMetrics {
                        link_up: up,
                        link_speed_gbps_bits: speed_gbps_bits,
                        ..old(self)@.layered.physical
                    },
                    ..old(self)@.layered
                },
                ..old(self)@
            }),
    {
        self.layered.physical.link_up = up;
        self.layered.physical.link_speed_gbps_bits = speed_gbps_bits;
    }

    fn set_ring_occupancy(&mut self, occupancy: u64)
        ensures
            final(self)@ == (MetricsEngineView {
                layered: LayeredMetricsSnapshot {
                    memory: MemoryLayerMetrics { ring_occupancy: occupancy, ..old(self)@.layered.memory },
                    ..old(self)@.layered
                },
                ..old(self)@
            }),
    {
        self.layered.memory.ring_occupancy = occupancy;
    }

    fn layered_snapshot(&self) -> (s: LayeredMetricsSnapshot)
        ensures
            s == self@.layered,
    {
        self.layered
    }
}

/// Over any series of latency samples, the recorded minimum never exceeds the
/// recorded maximum, and the maximum is at least the latest sample.
pub proof fn law_latency_bounds(t: TransportLayerMetrics, latency_ns: u64)
    requires
        t.latency_samples == 0 || t.latency_min_ns <= t.latency_max_ns,
        t.latency_samples < u64::MAX,
    ensures
        spec_latency_sample(t, latency_ns).latency_min_ns <= spec_latency_sample(t, latency_ns).latency_max_ns,
        spec_latency_sample(t, latency_ns).latency_min_ns <= latency_ns,
        latency_ns <= spec_latency_sample(t, latency_ns).latency_max_ns,
        spec_latency_sample(t, latency_ns).latency_samples == t.latency_samples + 1,
{
}

} // verus!
