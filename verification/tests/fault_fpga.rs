use aether_radio::{
    FaultInjectionConfig, FaultInjector, FpgaEmulator, IQSource, IqSampleBits, Packet,
    RadioTimestamp, RadioTimingConfig, Sequence, SimplePacketizer, SimpleSlotScheduler,
    SlotScheduler, StreamId, Timestamp,
};

/// Test IQ source: `n` samples, each carrying the symbol number in I and Q.
struct CountingIq(usize);

impl IQSource for CountingIq {
    fn generate(&mut self, timestamp: RadioTimestamp) -> Vec<IqSampleBits> {
        (0..self.0)
            .map(|_| IqSampleBits {
                i: timestamp.symbol as u32,
                q: timestamp.symbol as u32,
            })
            .collect()
    }
}

fn sample_fault() -> FaultInjectionConfig {
    FaultInjectionConfig {
        version: "1.0.0".to_string(),
        id: "fault-injection-defaults".to_string(),
        enabled: true,
        loss_period: 1000,
        extra_latency_ns: 5_000,
        burst_length: 10,
        kernel_delay_ns: 100_000,
        burst_start: 5,
        reorder_distance: 0,
        sequence_jump: 0,
        timestamp_skew_ns: 0,
    }
}

fn timing() -> RadioTimingConfig {
    RadioTimingConfig {
        version: "1.0.0".to_string(),
        id: "radio-timing-nr-like".to_string(),
        slots_per_sfn: 20,
        symbols_per_slot: 14,
        symbol_duration_ns: 714286,
        samples_per_symbol: 64,
        max_antennas: 8,
        max_carriers: 4,
    }
}

fn pkt(seq: u64) -> Packet {
    Packet::new(StreamId(1), Sequence(seq), Timestamp(seq * 1000), vec![1])
}

#[test]
fn load_and_extra_latency() {
    let cfg = sample_fault();
    assert_eq!(cfg.extra_latency_ns(), 5_000);
    assert!(cfg.should_drop_deterministic(0));
    assert!(!cfg.should_drop_deterministic(1));
    assert!(cfg.should_drop_burst(5, 5));
    assert!(cfg.should_drop_burst(14, 5));
    assert!(!cfg.should_drop_burst(15, 5));
}

#[test]
fn sequence_jump_and_skew() {
    let mut cfg = sample_fault();
    cfg.sequence_jump = 10;
    cfg.timestamp_skew_ns = -100;
    let p = cfg.mutate_packet(pkt(1));
    assert_eq!(p.sequence.0, 11);
    assert_eq!(p.timestamp.0, 900);
}

#[test]
fn reorder_delays_one_packet() {
    let mut cfg = sample_fault();
    cfg.loss_period = 0;
    cfg.burst_length = 0;
    cfg.reorder_distance = 1;
    let mut inj = FaultInjector::new(cfg);
    assert!(inj.push(pkt(0)).is_empty());
    let out = inj.push(pkt(1));
    assert_eq!(out.len(), 2);
    assert_eq!(out[0].sequence.0, 0);
    assert_eq!(out[1].sequence.0, 1);
    assert_eq!(inj.reordered, 1);
}

#[test]
fn disabled_faults_change_nothing() {
    let mut cfg = sample_fault();
    cfg.enabled = false;
    cfg.sequence_jump = 10;
    assert!(!cfg.should_drop(0));
    assert_eq!(cfg.extra_latency_ns(), 0);
    assert_eq!(cfg.kernel_delay_ns(), 0);
    assert_eq!(cfg.mutate_packet(pkt(3)), pkt(3));
    let mut inj = FaultInjector::new(cfg);
    assert_eq!(inj.push(pkt(4)), vec![pkt(4)]);
}

#[test]
fn skew_clamps_at_zero() {
    let mut cfg = sample_fault();
    cfg.timestamp_skew_ns = -5_000;
    assert_eq!(cfg.mutate_packet(pkt(2)).timestamp.0, 0);
}

#[test]
fn dropped_packets_are_counted() {
    let mut cfg = sample_fault();
    cfg.burst_length = 0;
    let mut inj = FaultInjector::new(cfg);
    assert!(inj.push(pkt(0)).is_empty());
    assert_eq!(inj.dropped, 1);
    assert_eq!(inj.push(pkt(1)).len(), 1);
}

#[test]
fn mock_iq_and_packetize() {
    let mut iq = CountingIq(16);
    let mut pktz = SimplePacketizer::default();
    let ts = RadioTimestamp::new(0, 0, 0, 1_000);
    let samples = iq.generate(ts);
    assert_eq!(samples.len(), 16);
    let pkt = pktz.packetize(StreamId(1), ts, &samples);
    assert_eq!(pkt.payload.len(), 16 * 8);
    assert_eq!(pkt.sequence.0, 0);
}

#[test]
fn packetize_interleaves_le_words() {
    let mut pktz = SimplePacketizer::new();
    let ts = RadioTimestamp::new(0, 0, 0, 7);
    let pkt = pktz.packetize(StreamId(1), ts, &[IqSampleBits { i: 0x0403_0201, q: 0x0807_0605 }]);
    assert_eq!(pkt.payload, vec![1, 2, 3, 4, 5, 6, 7, 8]);
    assert_eq!(pkt.timestamp.0, 7);
    assert_eq!(pktz.next_sequence(), 1);
}

#[test]
fn slot_scheduler_rolls_symbols_and_slots() {
    let mut sched = SimpleSlotScheduler::new(timing());
    let first = sched.next_symbol();
    assert_eq!(first.symbol, 0);
    assert_eq!(first.slot, 0);
    for _ in 0..13 {
        sched.next_symbol();
    }
    let after_slot = sched.next_symbol();
    assert_eq!(after_slot.slot, 1);
    assert_eq!(after_slot.symbol, 0);
    assert_eq!(after_slot.ns, 14 * 714_286);
}

#[test]
fn scheduler_rolls_sfn_after_last_slot() {
    let mut t = timing();
    t.slots_per_sfn = 2;
    t.symbols_per_slot = 2;
    let mut sched = SimpleSlotScheduler::new(t);
    for _ in 0..4 {
        sched.next_symbol();
    }
    let c = sched.current();
    assert_eq!((c.sfn, c.slot, c.symbol), (1, 0, 0));
    sched.reset();
    assert_eq!(sched.current().ns, 0);
}

#[test]
fn fpga_emit_symbol_advances_sequence() {
    let mut fpga = FpgaEmulator::new(timing(), StreamId(7), CountingIq(64));
    let a = fpga.emit_symbol();
    let b = fpga.emit_symbol();
    assert_eq!(a.stream_id, StreamId(7));
    assert_eq!(a.sequence.0, 0);
    assert_eq!(b.sequence.0, 1);
    assert!(b.timestamp.0 > a.timestamp.0);
}
