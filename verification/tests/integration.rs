use aether_radio::{
    AetherHeader, BufferState, Cx5Nic, FaultInjectionConfig, FpgaEmulator, GpuRingBuffer,
    GpuRingConfig, IQSource, IqSampleBits, LinkManager, MemoryBackend, MemoryKind, NicDmaConfig,
    Packet, PacketIO, RadioTimestamp, RadioTimingConfig, Sequence, SimMemory, SimTransportEngine,
    StreamConfig, StreamId, StreamManager, Timestamp, TransportDeadlineConfig, TransportEngine,
    TransportError,
};

struct RampIq(usize);

impl IQSource for RampIq {
    fn generate(&mut self, timestamp: RadioTimestamp) -> Vec<IqSampleBits> {
        (0..self.0)
            .map(|k| IqSampleBits {
                i: (timestamp.ns as u32).wrapping_add(k as u32),
                q: k as u32,
            })
            .collect()
    }
}

fn radio_timing() -> RadioTimingConfig {
    RadioTimingConfig {
        version: "1.0.0".to_string(),
        id: "radio-timing".to_string(),
        slots_per_sfn: 20,
        symbols_per_slot: 14,
        symbol_duration_ns: 71_429,
        samples_per_symbol: 64,
        max_antennas: 8,
        max_carriers: 4,
    }
}

fn transport_deadline() -> TransportDeadlineConfig {
    TransportDeadlineConfig {
        version: "1.0.0".to_string(),
        id: "transport-deadline".to_string(),
        max_latency_ns: 10_000,
        allow_reorder: false,
        start_sequence: 0,
    }
}

fn stream(id: u32, carrier: u16, antenna: u16) -> StreamConfig {
    StreamConfig {
        stream_id: StreamId(id),
        carrier,
        antenna,
        qos: 0,
        deadline_ns: 10_000,
    }
}

#[test]
fn test1_single_stream_fpga_transport_memory() {
    let mut fpga = FpgaEmulator::new(radio_timing(), StreamId(1), RampIq(64));
    let mut transport = SimTransportEngine::new(transport_deadline());
    transport.link_up().unwrap();
    transport.create_stream(stream(1, 0, 0)).unwrap();
    transport.start_stream(StreamId(1)).unwrap();

    let packet = fpga.emit_symbol();
    transport.set_now_ns(packet.timestamp.0 + 100);
    let header = AetherHeader::new(
        packet.stream_id,
        packet.timestamp,
        packet.sequence,
        packet.payload.len() as u32,
    );
    assert!(header.validate().is_ok());

    transport.ingest(packet.clone()).unwrap();
    let received = transport.receive().unwrap().unwrap();

    let mut mem = SimMemory::new();
    let buf = mem.allocate(received.payload.len(), MemoryKind::Host).unwrap();
    mem.write(buf, 0, &received.payload).unwrap();
    assert_eq!(mem.read(buf, 0, received.payload.len()).unwrap(), packet.payload);
}

#[test]
fn test3_multi_stream_antennas_carriers() {
    let timing = radio_timing();
    assert_eq!(timing.max_antennas, 8);
    assert_eq!(timing.max_carriers, 4);

    let mut transport = SimTransportEngine::new(transport_deadline());
    transport.link_up().unwrap();

    let mut stream_id = 1u32;
    let mut fpgas = Vec::new();
    for antenna in 0..timing.max_antennas {
        for carrier in 0..timing.max_carriers {
            transport.create_stream(stream(stream_id, carrier, antenna)).unwrap();
            transport.start_stream(StreamId(stream_id)).unwrap();
            fpgas.push(FpgaEmulator::new(timing.clone(), StreamId(stream_id), RampIq(8)));
            stream_id += 1;
        }
    }
    assert_eq!(fpgas.len(), 32);

    for fpga in &mut fpgas {
        let pkt = fpga.emit_symbol();
        transport.set_now_ns(pkt.timestamp.0 + 50);
        transport.ingest(pkt).unwrap();
    }

    let mut count = 0;
    while transport.receive().unwrap().is_some() {
        count += 1;
    }
    assert_eq!(count, 32);
}

#[test]
fn test4_fault_recovery_loss_and_late() {
    let fault = FaultInjectionConfig {
        version: "1.0.0".to_string(),
        id: "fault-test".to_string(),
        enabled: true,
        loss_period: 1_000,
        extra_latency_ns: 5_000,
        burst_length: 2,
        kernel_delay_ns: 100_000,
        burst_start: 0,
        reorder_distance: 0,
        sequence_jump: 0,
        timestamp_skew_ns: 0,
    };

    let mut transport = SimTransportEngine::new(transport_deadline());
    transport.link_up().unwrap();
    let id = StreamId(9);
    transport.create_stream(stream(9, 0, 0)).unwrap();
    transport.start_stream(id).unwrap();

    // Emit seq 0..=4; the burst starting at 1 (length 2) drops 1 and 2.
    for seq in 0u64..5 {
        let pkt = Packet::new(id, Sequence(seq), Timestamp(seq * 100), vec![seq as u8]);
        if fault.should_drop_burst(seq, 1) {
            continue;
        }
        transport.set_now_ns(pkt.timestamp.0 + 100);
        match transport.ingest(pkt) {
            Ok(()) => {}
            Err(TransportError::SequenceGap { got, .. }) => {
                transport.recover_sequence(id, got);
                let retry = Packet::new(id, Sequence(got), Timestamp(got * 100), vec![got as u8]);
                transport.set_now_ns(retry.timestamp.0 + 100);
                transport.ingest(retry).unwrap();
            }
            Err(e) => panic!("unexpected: {e:?}"),
        }
    }
    assert!(transport.sequence_gap_count() >= 1);

    // Late packet after the recovery path.
    let late = Packet::new(id, Sequence(5), Timestamp(0), vec![5]);
    transport.set_now_ns(50_000);
    assert!(matches!(transport.ingest(late), Err(TransportError::LatePacket { .. })));
    assert_eq!(transport.late_packet_count(), 1);

    // The GPU slow-down budget of the fault policy is available to callers.
    assert_eq!(fault.kernel_delay_ns(), 100_000);
    assert_eq!(fault.extra_latency_ns(), 5_000);
}

#[test]
fn test5_cx5_dma_and_gpu_ring() {
    let mut nic = Cx5Nic::new(NicDmaConfig {
        version: "1.0.0".to_string(),
        id: "cx5-dma-model".to_string(),
        dma_latency_ns: 2_000,
        rx_queue_depth: 8,
        tx_queue_depth: 8,
        completion_queue_depth: 8,
    });
    let mut ring = GpuRingBuffer::new(GpuRingConfig {
        version: "1.0.0".to_string(),
        id: "gpu-ring".to_string(),
        slot_count: 8,
        slot_bytes: 4096,
        kernel_delay_ns: 2_000,
    });

    nic.advance_time(0);
    nic.submit_rx(Packet::new(StreamId(1), Sequence(0), Timestamp(0), vec![1, 2, 3, 4]))
        .unwrap();
    assert!(nic.rx_burst(8).is_empty());
    nic.advance_time(nic.dma_latency_ns());
    let pkts = nic.rx_burst(8);
    assert_eq!(pkts.len(), 1);

    let latency = ring.process_packet(&pkts[0].payload, nic.dma_latency_ns()).unwrap();
    assert_eq!(latency, ring.kernel_delay_ns());
    assert_eq!(ring.count_state(BufferState::Free), ring.slot_count());
}
