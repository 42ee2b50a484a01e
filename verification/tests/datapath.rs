use aether_radio::StreamManager;
use aether_radio::{
    run_smoke_packet, GpuError, LinkManager, MetricsBackend, SimTransportEngine, SmokeError,
    StreamConfig, TraceEngine, TraceStage,
};
use aether_radio::link_rx::{
    LinkKind, check_geometry, check_header, pop_slot, push_slot, ring_bytes, shm_header, slot_offset,
};
use aether_radio::{
    encode_frame, BenchProfile, BenchRun, DatapathError, FaultInjectionConfig, FpgaEmulator,
    GpuRingConfig, HostRecv, IQSource, IqSampleBits, NicDmaConfig, Packet, ProtocolError,
    RadioTimestamp, RadioTimingConfig, RxQueue, Sequence, ShmLayoutError, StreamId, Timestamp,
    TransportDeadlineConfig, TransportError,
};

struct ZeroIq(usize);

impl IQSource for ZeroIq {
    fn generate(&mut self, _timestamp: RadioTimestamp) -> Vec<IqSampleBits> {
        vec![IqSampleBits { i: 0, q: 0 }; self.0]
    }
}

fn timing() -> RadioTimingConfig {
    RadioTimingConfig {
        version: "1.0.0".to_string(),
        id: "radio-timing-nr-like".to_string(),
        slots_per_sfn: 20,
        symbols_per_slot: 14,
        symbol_duration_ns: 714286,
        samples_per_symbol: 64,
        max_antennas: 8,
        max_carriers: 4,
    }
}

fn deadline(max_latency_ns: u64) -> TransportDeadlineConfig {
    TransportDeadlineConfig {
        version: "1.0.0".to_string(),
        id: "transport-deadline".to_string(),
        max_latency_ns,
        allow_reorder: false,
        start_sequence: 0,
    }
}

fn nic() -> NicDmaConfig {
    NicDmaConfig {
        version: "1.0.0".to_string(),
        id: "cx5".to_string(),
        dma_latency_ns: 2_000,
        rx_queue_depth: 64,
        tx_queue_depth: 64,
        completion_queue_depth: 64,
    }
}

fn ring() -> GpuRingConfig {
    GpuRingConfig {
        version: "1.0.0".to_string(),
        id: "ring".to_string(),
        slot_count: 8,
        slot_bytes: 4096,
        kernel_delay_ns: 2_000,
    }
}

fn fault(enabled: bool, loss_period: u64) -> FaultInjectionConfig {
    FaultInjectionConfig {
        version: "1.0.0".to_string(),
        id: "fault".to_string(),
        enabled,
        loss_period,
        extra_latency_ns: 0,
        burst_length: 0,
        kernel_delay_ns: 0,
        burst_start: 0,
        reorder_distance: 0,
        sequence_jump: 0,
        timestamp_skew_ns: 0,
    }
}

fn profile(symbols: u64, streams: u32) -> BenchProfile {
    BenchProfile {
        version: "1.0.0".to_string(),
        id: "bench".to_string(),
        symbol_count: symbols,
        streams,
        latency_budget_ns: 100_000,
        include_ethernet_delay: true,
        include_nic_dma: true,
        include_gpu_kernel: true,
        gpu_backend: "simulation".to_string(),
        report_path: "r.json".to_string(),
        events_path: "e.jsonl".to_string(),
        radio_timing_config: String::new(),
        transport_deadline_config: String::new(),
        ethernet_config: String::new(),
        nic_config: String::new(),
        gpu_ring_config: String::new(),
        fault_config: String::new(),
        gpu_cuda_config: None,
    }
}

fn run_bench(p: &BenchProfile, f: FaultInjectionConfig) -> (aether_radio::BenchReport, aether_radio::MetricsEngine) {
    let mut run = BenchRun::start(p, deadline(1_000_000), nic(), ring(), f);
    let mut fpgas: Vec<FpgaEmulator<ZeroIq>> = (1..=p.streams.max(1))
        .map(|s| FpgaEmulator::new(timing(), StreamId(s), ZeroIq(64)))
        .collect();
    for _ in 0..p.symbol_count {
        for fpga in fpgas.iter_mut() {
            let pkt = fpga.emit_symbol();
            assert!(run.has_room());
            run.step(pkt, 100).unwrap();
        }
    }
    run.finish()
}

#[test]
fn bench_run_delivers_every_symbol_of_every_stream() {
    let (report, metrics) = run_bench(&profile(8, 2), fault(false, 0));
    assert_eq!(report.packets, 16);
    assert_eq!(report.bytes, 16 * 512);
    assert!(report.latency.min_ns > 0);
    assert!(report.latency.p50_ns >= 2_000);
    assert_eq!(report.latency.min_ns, 4_100);
    assert_eq!(report.sequence_gaps, 0);
    assert_eq!(metrics.snapshot().link.rx_packets, 16);
}

#[test]
fn bench_run_counts_fault_drops() {
    let (report, metrics) = run_bench(&profile(4, 1), fault(true, 2));
    // sequences 0 and 2 are dropped by the fault model
    assert_eq!(metrics.snapshot().link.drop, 2);
    // the transport sees 1 after 0 is missing, counts a gap and resyncs
    assert_eq!(report.sequence_gaps, 2);
    assert_eq!(report.packets, 2);
}

#[test]
fn bench_start_creates_streams_round_robin() {
    let run = BenchRun::start(&profile(1, 6), deadline(1_000), nic(), ring(), fault(false, 0));
    let t = run.transport();
    assert_eq!(t.query_stream(StreamId(6)).unwrap().state, aether_radio::StreamState::Running);
    assert_eq!(t.stream_carrier_antenna(StreamId(5)).unwrap(), (0, 1));
    assert_eq!(t.stream_carrier_antenna(StreamId(3)).unwrap(), (2, 0));
    assert!(t.query_stream(StreamId(7)).is_err());
}

#[test]
fn bench_step_reports_late_packets() {
    let mut run = BenchRun::start(&profile(1, 1), deadline(50), nic(), ring(), fault(false, 0));
    let pkt = Packet::new(StreamId(1), Sequence(0), Timestamp(0), vec![1]);
    assert_eq!(run.step(pkt, 100).unwrap(), Vec::<u64>::new());
    let (report, metrics) = run.finish();
    assert_eq!(report.late_packets, 1);
    assert_eq!(metrics.layered_snapshot().radio.deadline_miss, 1);
}

#[test]
fn bench_step_refuses_unknown_stream() {
    let mut run = BenchRun::start(&profile(1, 1), deadline(1_000_000), nic(), ring(), fault(false, 0));
    let pkt = Packet::new(StreamId(9), Sequence(0), Timestamp(0), vec![1]);
    assert_eq!(
        run.step(pkt, 0),
        Err(DatapathError::Transport(TransportError::StreamNotFound(StreamId(9))))
    );
}

#[test]
fn bench_step_reports_oversized_payload() {
    let mut run = BenchRun::start(&profile(1, 1), deadline(1_000_000), nic(), ring(), fault(false, 0));
    let pkt = Packet::new(StreamId(1), Sequence(0), Timestamp(0), vec![0; 5000]);
    assert!(matches!(run.step(pkt, 0), Err(DatapathError::Gpu(_))));
}

#[test]
fn host_recv_accepts_until_enough() {
    let mut host = HostRecv::new(deadline(10_000_000), nic(), ring(), StreamId(1), 2);
    let mut got = Vec::new();
    for s in 0..3u64 {
        let pkt = Packet::new(StreamId(1), Sequence(s), Timestamp(s * 1_000), vec![1, 2]);
        got.extend(host.on_packet(pkt).unwrap());
    }
    assert!(host.done());
    assert_eq!(host.accepted(), 3);
    assert_eq!(got[0].sequence, 0);
    assert_eq!(got[0].e2e_ns, 2_000 + 2_000);
}

#[test]
fn host_recv_resyncs_after_gap() {
    let mut host = HostRecv::new(deadline(10_000_000), nic(), ring(), StreamId(1), 8);
    host.on_packet(Packet::new(StreamId(1), Sequence(0), Timestamp(0), vec![1])).unwrap();
    let got = host
        .on_packet(Packet::new(StreamId(1), Sequence(5), Timestamp(10), vec![1]))
        .unwrap();
    assert_eq!(got.len(), 1);
    assert_eq!(got[0].sequence, 5);
    assert_eq!(host.metrics().layered_snapshot().transport.gap_count, 1);
    assert_eq!(host.transport().sequence_gaps, 1);
}

#[test]
fn host_recv_drops_frames_of_other_streams() {
    let mut host = HostRecv::new(deadline(10_000_000), nic(), ring(), StreamId(1), 8);
    let got = host
        .on_packet(Packet::new(StreamId(2), Sequence(0), Timestamp(0), vec![1]))
        .unwrap();
    assert!(got.is_empty());
    assert_eq!(host.accepted(), 0);
}

#[test]
fn rx_queue_decodes_and_counts() {
    let mut q = RxQueue::new();
    let pkt = Packet::new(StreamId(1), Sequence(4), Timestamp(9), vec![5, 6]);
    q.on_frame(&encode_frame(&pkt)).unwrap();
    assert_eq!(q.on_frame(&[1, 2, 3]), Err(ProtocolError::Truncated { got: 3, need: 32 }));
    assert_eq!((q.received, q.decode_errors), (1, 1));
    q.on_frame(&encode_frame(&pkt)).unwrap();
    let first = q.take(1);
    assert_eq!(first, vec![pkt.clone()]);
    assert_eq!(q.len(), 1);
    assert_eq!(q.take(8).len(), 1);
    assert_eq!(q.len(), 0);
}

#[test]
fn shm_layout_rules() {
    assert_eq!(check_geometry(0, 1024), Err(ShmLayoutError::BadGeometry));
    assert_eq!(check_geometry(8, 63), Err(ShmLayoutError::BadGeometry));
    assert_eq!(check_geometry(8, 1024), Ok(()));
    assert_eq!(ring_bytes(8, 1024), 64 + 8 * 1032);
    assert_eq!(slot_offset(2, 8, 1024), 64 + 2 * 1032);
    let h = shm_header(8, 1024);
    assert_eq!(h.len(), 64);
    assert_eq!(&h[0..4], b"SHM1");
    assert_eq!(check_header(&h, 8, 1024), Ok(()));
    assert_eq!(check_header(&h, 4, 1024), Err(ShmLayoutError::GeometryMismatch));
    let mut bad = h.clone();
    bad[4] = 2;
    assert_eq!(check_header(&bad, 8, 1024), Err(ShmLayoutError::BadHeader));
}

#[test]
fn shm_cursor_rules() {
    assert_eq!(push_slot(2000, 1024, 0, 0, 8), Err(ShmLayoutError::FrameTooLarge));
    assert_eq!(push_slot(100, 1024, 8, 0, 8), Err(ShmLayoutError::RingFull));
    assert_eq!(push_slot(100, 1024, 9, 2, 8), Ok(1));
    assert_eq!(push_slot(100, 1024, 1, u64::MAX, 8), Ok(1));
    assert_eq!(pop_slot(3, 3, 8), None);
    assert_eq!(pop_slot(10, 12, 8), Some(2));
}

#[test]
fn link_kind_keywords() {
    assert_eq!(LinkKind::parse("UDP"), Some(LinkKind::Udp));
    assert_eq!(LinkKind::parse("net"), Some(LinkKind::Udp));
    assert_eq!(LinkKind::parse("Shm"), Some(LinkKind::Shm));
    assert_eq!(LinkKind::parse(" shm"), None);
}

#[test]
fn cuda_backend_request() {
    let mut p = profile(1, 1);
    assert!(!p.wants_cuda());
    p.gpu_backend = "CUDA".to_string();
    assert!(p.wants_cuda());
}

fn smoke_transport(start_stream: bool) -> SimTransportEngine {
    let mut t = SimTransportEngine::new(deadline(1_000_000));
    t.link_up().unwrap();
    t.create_stream(StreamConfig {
        stream_id: StreamId(1),
        carrier: 0,
        antenna: 0,
        qos: 0,
        deadline_ns: 10_000,
    })
    .unwrap();
    if start_stream {
        t.start_stream(StreamId(1)).unwrap();
    }
    t
}

#[test]
fn smoke_packet_crosses_every_stage() {
    let mut fpga = FpgaEmulator::new(timing(), StreamId(1), ZeroIq(64));
    let pkt = fpga.emit_symbol();
    let mut transport = smoke_transport(true);
    let mut trace = TraceEngine::from_config(true, 64, "t.jsonl".to_string());
    let tid = trace.start(1, pkt.sequence.0, TraceStage::FpgaTx, pkt.timestamp.0);
    let out = run_smoke_packet(pkt, tid, &mut transport, nic(), ring(), 100.0f64.to_bits(), &mut trace)
        .unwrap();
    assert_eq!(out.now_ns, 4_000);
    assert_eq!(out.deliveries.len(), 1);
    assert_eq!(out.deliveries[0].stream_id, 1);
    assert_eq!(out.deliveries[0].sequence, 0);
    assert_eq!(out.deliveries[0].latency_ns, 2_000);
    let snap = out.metrics.layered_snapshot();
    assert_eq!(snap.transport.rx_packets, 1);
    assert_eq!(snap.transport.tx_packets, 1);
    assert_eq!(snap.transport.rx_bytes, 512);
    assert_eq!(snap.radio.symbol_received, 1);
    assert_eq!(snap.compute.kernel_executions, 1);
    assert_eq!(snap.compute.kernel_latency_ns, 2_000);
    assert!(snap.physical.link_up);
    assert_eq!(transport.sequence_gap_count(), 0);
    let t = trace.latest().unwrap();
    let stages: Vec<(TraceStage, u64)> = t.stages.iter().map(|s| (s.stage, s.time_ns)).collect();
    assert_eq!(
        stages,
        vec![
            (TraceStage::FpgaTx, 0),
            (TraceStage::Cx5Rx, 10_000),
            (TraceStage::DmaDone, 2_000),
            (TraceStage::GpuEnqueue, 2_000),
            (TraceStage::CudaDone, 4_000),
        ]
    );
}

#[test]
fn smoke_packet_stops_at_the_refusing_stage() {
    let pkt = || FpgaEmulator::new(timing(), StreamId(1), ZeroIq(4)).emit_symbol();
    let mut trace = TraceEngine::new(4);
    let mut stopped = smoke_transport(false);
    let r = run_smoke_packet(pkt(), 0, &mut stopped, nic(), ring(), 0, &mut trace);
    assert!(matches!(r, Err(SmokeError::Transport(_))));

    let mut transport = smoke_transport(true);
    let mut no_queue = nic();
    no_queue.rx_queue_depth = 0;
    let r = run_smoke_packet(pkt(), 0, &mut transport, no_queue, ring(), 0, &mut trace);
    assert!(matches!(r, Err(SmokeError::Nic(_))));

    let mut transport = smoke_transport(true);
    let mut no_slots = ring();
    no_slots.slot_count = 0;
    let r = run_smoke_packet(pkt(), 0, &mut transport, nic(), no_slots, 0, &mut trace);
    assert!(matches!(r, Err(SmokeError::Gpu(GpuError::RingFull))));
}

#[test]
fn keywords_ignore_unicode_white_space() {
    assert_eq!(
        aether_radio::GpuBackendKind::parse("\u{3000}cuda\u{a0}"),
        Some(aether_radio::GpuBackendKind::Cuda)
    );
    assert_eq!(
        aether_radio::GpuBackendKind::parse("\t SIM\n"),
        Some(aether_radio::GpuBackendKind::Simulation)
    );
    assert_eq!(
        aether_radio::RecoveryAction::parse("\u{2028}restart_stream\u{205f}"),
        aether_radio::RecoveryAction::RestartStream
    );
    assert_eq!(aether_radio::GpuBackendKind::parse("\u{200b}sim"), None);
}
