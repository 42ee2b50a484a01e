use std::time::Duration;

use aether_radio::{
    open_hardware, probe_hardware, BufferState, Cx5Error, Cx5Nic, DpdkPacketIO, GpuBackend,
    GpuBackendKind, GpuError, GpuRingBuffer, GpuRingConfig, HardwareProbe, MemoryBackend,
    MemoryError, MemoryKind, NicDmaConfig, Packet, PacketIO, RadioTimestamp, Sequence, SimGpu,
    SimMemory, SimPacketIO, StreamId, Timestamp,
};

fn ring_config() -> GpuRingConfig {
    GpuRingConfig {
        version: "1.0.0".to_string(),
        id: "gpu-ring-default".to_string(),
        slot_count: 4,
        slot_bytes: 256,
        kernel_delay_ns: 2_000,
    }
}

fn nic_config() -> NicDmaConfig {
    NicDmaConfig {
        version: "1.0.0".to_string(),
        id: "cx5-dma-model".to_string(),
        dma_latency_ns: 2_000,
        rx_queue_depth: 8,
        tx_queue_depth: 8,
        completion_queue_depth: 8,
    }
}

#[test]
fn dpdk_stub_is_unavailable() {
    assert!(matches!(
        DpdkPacketIO::try_open("configs/backends/dpdk.yaml"),
        Err(Cx5Error::BackendUnavailable(_))
    ));
}

#[test]
fn hardware_probe_is_unavailable() {
    assert!(matches!(
        probe_hardware(),
        HardwareProbe::Unavailable { .. }
    ));
    assert!(open_hardware("0000:00:00.0").is_err());
}

#[test]
fn ring_lifecycle_and_latency() {
    let mut ring = GpuRingBuffer::new(ring_config());
    assert_eq!(ring.kernel_delay_ns(), 2_000);
    let latency = ring.process_packet(&[1, 2, 3], 100).unwrap();
    assert_eq!(latency, 2_000);
    assert_eq!(ring.count_state(BufferState::Free), 4);
}

#[test]
fn ring_full_errors() {
    let mut ring = GpuRingBuffer::new(ring_config());
    for _ in 0..4 {
        let idx = ring.begin_receive(0).unwrap();
        ring.complete_receive(idx, &[9]).unwrap();
    }
    assert!(matches!(ring.begin_receive(1), Err(GpuError::RingFull)));
}

#[test]
fn ring_refuses_oversized_payload() {
    let mut ring = GpuRingBuffer::new(ring_config());
    let idx = ring.begin_receive(0).unwrap();
    assert_eq!(ring.complete_receive(idx, &[0u8; 257]), Err(GpuError::PayloadTooLarge));
}

#[test]
fn ring_stage_order_is_enforced() {
    let mut ring = GpuRingBuffer::new(ring_config());
    assert_eq!(ring.begin_process(0), Err(GpuError::NoSlot(BufferState::Ready)));
    let idx = ring.begin_receive(10).unwrap();
    assert_eq!(
        ring.release(idx),
        Err(GpuError::InvalidTransition {
            from: BufferState::Receiving,
            to: BufferState::Free
        })
    );
    ring.complete_receive(idx, &[1]).unwrap();
    let (p, done_at) = ring.begin_process(10).unwrap();
    assert_eq!(p, idx);
    assert_eq!(done_at, 2_010);
    assert_eq!(ring.complete_process(p, done_at).unwrap(), 2_000);
    ring.release(p).unwrap();
    assert_eq!(ring.count_state(BufferState::Free), 4);
}

#[test]
fn host_write_read() {
    let mut mem = SimMemory::new();
    let id = mem.allocate(16, MemoryKind::Host).unwrap();
    assert_eq!(mem.kind_of(id).unwrap(), MemoryKind::Host);
    mem.write(id, 0, b"hello").unwrap();
    assert_eq!(&mem.read(id, 0, 5).unwrap(), b"hello");
    mem.free(id).unwrap();
}

#[test]
fn memory_bounds_and_freed_buffers() {
    let mut mem = SimMemory::new();
    let id = mem.allocate(4, MemoryKind::Gpu).unwrap();
    assert_eq!(mem.read(id, 0, 4).unwrap(), vec![0, 0, 0, 0]);
    assert_eq!(mem.write(id, 2, b"abc"), Err(MemoryError::OutOfBounds));
    assert_eq!(mem.read(id, 3, 2), Err(MemoryError::OutOfBounds));
    mem.free(id).unwrap();
    assert_eq!(mem.read(id, 0, 1), Err(MemoryError::NotFound(id)));
    assert_eq!(mem.free(id), Err(MemoryError::NotFound(id)));
}

#[test]
fn memory_writes_stay_in_their_buffer() {
    let mut mem = SimMemory::new();
    let a = mem.allocate(4, MemoryKind::Host).unwrap();
    let b = mem.allocate(4, MemoryKind::Host).unwrap();
    mem.write(a, 0, &[7, 7, 7, 7]).unwrap();
    assert_eq!(mem.read(b, 0, 4).unwrap(), vec![0, 0, 0, 0]);
}

#[test]
fn sim_packet_io_burst() {
    let mut io = SimPacketIO::default();
    io.rx
        .push(Packet::new(StreamId(1), Sequence(0), Timestamp(0), vec![1]));
    let got = io.rx_burst(8);
    assert_eq!(got.len(), 1);
    assert_eq!(io.tx_burst(got), 1);
}

#[test]
fn dma_delay_before_rx_visible() {
    let mut nic = Cx5Nic::new(nic_config());
    assert_eq!(nic.dma_latency_ns(), 2_000);
    nic.advance_time(0);
    nic.submit_rx(Packet::new(StreamId(1), Sequence(0), Timestamp(0), vec![7]))
        .unwrap();
    assert!(nic.rx_burst(8).is_empty());
    assert_eq!(nic.pending_count(), 1);
    nic.advance_time(2_000);
    let got = nic.rx_burst(8);
    assert_eq!(got.len(), 1);
    assert_eq!(got[0].payload, vec![7]);
    assert_eq!(nic.completions, 1);
}

#[test]
fn nic_queue_full_is_refused() {
    let mut cfg = nic_config();
    cfg.rx_queue_depth = 1;
    let mut nic = Cx5Nic::new(cfg);
    nic.submit_rx(Packet::new(StreamId(1), Sequence(0), Timestamp(0), vec![]))
        .unwrap();
    assert_eq!(
        nic.submit_rx(Packet::new(StreamId(1), Sequence(1), Timestamp(0), vec![])),
        Err(Cx5Error::QueueFull)
    );
}

#[test]
fn nic_burst_keeps_submission_order() {
    let mut nic = Cx5Nic::new(nic_config());
    for s in 0..3u64 {
        nic.submit_rx_ready_at(Packet::new(StreamId(1), Sequence(s), Timestamp(0), vec![]), 0)
            .unwrap();
    }
    let got = nic.rx_burst(2);
    assert_eq!(got.len(), 2);
    assert_eq!(got[0].sequence.0, 0);
    assert_eq!(got[1].sequence.0, 1);
    assert_eq!(nic.rx_burst(8)[0].sequence.0, 2);
}

#[test]
fn sim_kernel_records_delay() {
    let mut gpu = SimGpu::new();
    let id = gpu.allocate_buffer(1024).unwrap();
    gpu.launch_kernel(id, Duration::from_micros(50)).unwrap();
    assert_eq!(gpu.last_delay, Some(Duration::from_micros(50)));
    gpu.sync().unwrap();
}

#[test]
fn sim_kernel_on_unknown_buffer_fails() {
    let mut gpu = SimGpu::new();
    assert_eq!(
        gpu.launch_kernel(3, Duration::from_micros(1)),
        Err(GpuError::NotFound(3))
    );
}

#[test]
fn backend_kind_keywords() {
    assert_eq!(GpuBackendKind::parse(" CUDA "), Some(GpuBackendKind::Cuda));
    assert_eq!(GpuBackendKind::parse("sim"), Some(GpuBackendKind::Simulation));
    assert_eq!(GpuBackendKind::parse("opencl"), None);
}

#[test]
fn radio_timestamp_new_keeps_fields() {
    let ts = RadioTimestamp::new(3, 4, 5, 6);
    assert_eq!((ts.sfn, ts.slot, ts.symbol, ts.ns), (3, 4, 5, 6));
}

#[test]
fn kernel_starts_on_oldest_ready_slot() {
    let mut ring = GpuRingBuffer::new(ring_config());
    assert_eq!(ring.begin_receive(0), Ok(0));
    ring.complete_receive(0, &[1]).unwrap();
    assert_eq!(ring.begin_receive(10), Ok(1));
    ring.complete_receive(1, &[2]).unwrap();
    assert_eq!(ring.begin_process(10), Ok((0, 2_010)));
    ring.complete_process(0, 2_010).unwrap();
    ring.release(0).unwrap();
    assert_eq!(ring.begin_receive(20), Ok(0));
    ring.complete_receive(0, &[3]).unwrap();
    assert_eq!(ring.begin_process(30), Ok((1, 2_030)));
    assert_eq!(ring.count_state(BufferState::Processing), 1);
    assert_eq!(ring.count_state(BufferState::Ready), 1);
    assert_eq!(ring.begin_process(40), Ok((0, 2_040)));
    assert_eq!(ring.begin_process(50), Err(GpuError::NoSlot(BufferState::Ready)));
}

#[test]
fn ring_state_counts_add_up() {
    let mut ring = GpuRingBuffer::new(ring_config());
    let total = |r: &GpuRingBuffer| {
        [
            BufferState::Free,
            BufferState::Receiving,
            BufferState::Ready,
            BufferState::Processing,
            BufferState::Done,
        ]
        .iter()
        .map(|s| r.count_state(*s))
        .sum::<usize>()
    };
    assert_eq!(ring.count_state(BufferState::Free), 4);
    let i = ring.begin_receive(0).unwrap();
    ring.complete_receive(i, &[1, 2]).unwrap();
    assert_eq!(total(&ring), ring.slot_count());
    assert_eq!(ring.count_state(BufferState::Ready), 1);
    let (p, done) = ring.begin_process(5).unwrap();
    ring.complete_process(p, done).unwrap();
    assert_eq!(total(&ring), 4);
    ring.release(p).unwrap();
    for k in 0..10u64 {
        assert_eq!(ring.process_packet(&[7; 16], k * 100), Ok(2_000));
        assert_eq!(ring.count_state(BufferState::Free), 4);
    }
    for _ in 0..4 {
        ring.begin_receive(0).unwrap();
    }
    assert_eq!(ring.process_packet(&[1], 0), Err(GpuError::RingFull));
    assert_eq!(ring.count_state(BufferState::Receiving), 4);
}
