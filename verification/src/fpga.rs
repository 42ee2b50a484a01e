//! FPGA emulator: slot scheduling, IQ packetization, symbol emission.
//! Timing parameters come from a [`RadioTimingConfig`].

use vstd::bytes::*;
use vstd::prelude::*;

use crate::types::{Packet, RadioTimestamp, Sequence, StreamId, Timestamp};

verus! {

/// One IQ sample held as the IEEE-754 bit patterns of its I and Q parts.
#[derive(Debug, Clone, Copy, PartialEq, Eq, Structural)]
pub struct IqSampleBits {
    pub i: u32,
    pub q: u32,
}

/// IQ sample source for a radio timestamp.
pub trait IQSource {
    fn generate(&mut self, timestamp: RadioTimestamp) -> Vec<IqSampleBits>;
}

/// Advances radio frame/slot/symbol time.
pub trait SlotScheduler {
    fn next_symbol(&mut self) -> RadioTimestamp;

    fn current(&self) -> RadioTimestamp;

    fn reset(&mut self);
}

#[derive(Debug, Clone, PartialEq)]
pub struct RadioTimingConfig {
    pub version: String,
    pub id: String,
    pub slots_per_sfn: u16,
    pub symbols_per_slot: u8,
    pub symbol_duration_ns: u64,
    pub samples_per_symbol: usize,
    pub max_antennas: u16,
    pub max_carriers: u16,
}

#[derive(Debug, PartialEq, Eq)]
pub enum FpgaError {
    Config(String),
}

/// Position of a [`TimestampGenerator`] in radio time.
pub struct TimingPosition {
    pub sfn: u32,
    pub slot: u16,
    pub symbol: u8,
    pub ns: u64,
}

/// Radio timestamp at position `p`.
pub open spec fn spec_stamp(p: TimingPosition) -> RadioTimestamp {
    RadioTimestamp { sfn: p.sfn, slot: p.slot, symbol: p.symbol, ns: p.ns }
}

/// Position after one symbol: nanoseconds advance by the symbol duration
/// (saturating), the symbol rolls over into the slot, the slot into the SFN.
pub open spec fn spec_tick(t: RadioTimingConfig, p: TimingPosition) -> TimingPosition {
    let ns: u64 = if p.ns + t.symbol_duration_ns > u64::MAX {
        u64::MAX
    } else {
        (p.ns + t.symbol_duration_ns) as u64
    };
    let symbol: u8 = if p.symbol == u8::MAX {
        u8::MAX
    } else {
        (p.symbol + 1) as u8
    };
    if symbol >= t.symbols_per_slot {
        let slot: u16 = if p.slot == u16::MAX {
            u16::MAX
        } else {
            (p.slot + 1) as u16
        };
        if slot >= t.slots_per_sfn {
            TimingPosition {
                sfn: if p.sfn == u32::MAX {
                    0
                } else {
                    (p.sfn + 1) as u32
                },
                slot: 0,
                symbol: 0,
                ns,
            }
        } else {
            TimingPosition { sfn: p.sfn, slot, symbol: 0, ns }
        }
    } else {
        TimingPosition { sfn: p.sfn, slot: p.slot, symbol, ns }
    }
}

/// Whether `p` names a symbol and slot that exist under timing `t`.
pub open spec fn position_in_range(t: RadioTimingConfig, p: TimingPosition) -> bool {
    p.symbol < t.symbols_per_slot && p.slot < t.slots_per_sfn
}

/// Radio time only moves forward: a tick never lowers the nanosecond clock,
/// and raises it by exactly one symbol duration while that fits in a `u64`.
pub proof fn law_tick_time_monotone(t: RadioTimingConfig, p: TimingPosition)
    ensures
        spec_tick(t, p).ns >= p.ns,
        p.ns + t.symbol_duration_ns <= u64::MAX ==> spec_tick(t, p).ns == p.ns + t.symbol_duration_ns,
{
}

/// A tick from a symbol and slot that exist under the timing lands on a
/// symbol and slot that exist too: the symbol rolls into the next slot and
/// the last slot into the next SFN.
pub proof fn law_tick_stays_in_range(t: RadioTimingConfig, p: TimingPosition)
    requires
        position_in_range(t, p),
    ensures
        position_in_range(t, spec_tick(t, p)),
        spec_tick(t, p).symbol == 0 <==> p.symbol + 1 == t.symbols_per_slot,
{
}

/// Monotonic radio timestamp from timing config.
#[derive(Debug, Clone)]
pub struct TimestampGenerator {
    timing: RadioTimingConfig,
    sfn: u32,
    slot: u16,
    symbol: u8,
    ns: u64,
}

impl TimestampGenerator {
    pub closed spec fn timing_spec(&self) -> RadioTimingConfig {
        self.timing
    }

    pub closed spec fn position(&self) -> TimingPosition {
        TimingPosition { sfn: self.sfn, slot: self.slot, symbol: self.symbol, ns: self.ns }
    }

    pub fn new(timing: RadioTimingConfig) -> (g: Self)
        ensures
            g.timing_spec() == timing,
            g.position() == (TimingPosition { sfn: 0, slot: 0, symbol: 0, ns: 0 }),
    {
        TimestampGenerator { timing, sfn: 0, slot: 0, symbol: 0, ns: 0 }
    }

    pub fn current(&self) -> (ts: RadioTimestamp)
        ensures
            ts == spec_stamp(self.position()),
    {
        RadioTimestamp::new(self.sfn, self.slot, self.symbol, self.ns)
    }

    /// Returns the current timestamp and advances by one symbol.
    pub fn tick_symbol(&mut self) -> (ts: RadioTimestamp)
        ensures
            ts == spec_stamp(old(self).position()),
            final(self).timing_spec() == old(self).timing_spec(),
            final(self).position() == spec_tick(old(self).timing_spec(), old(self).position()),
    {
        let ts = self.current();
        self.ns = self.ns.saturating_add(self.timing.symbol_duration_ns);
        self.symbol = self.symbol.saturating_add(1);
        if self.symbol >= self.timing.symbols_per_slot {
            self.symbol = 0;
            self.slot = self.slot.saturating_add(1);
            if self.slot >= self.timing.slots_per_sfn {
                self.slot = 0;
                self.sfn = self.sfn.wrapping_add(1);
            }
        }
        ts
    }

    pub fn reset(&mut self)
        ensures
            final(self).timing_spec() == old(self).timing_spec(),
            final(self).position() == (TimingPosition { sfn: 0, slot: 0, symbol: 0, ns: 0 }),
    {
        self.sfn = 0;
        self.slot = 0;
        self.symbol = 0;
        self.ns = 0;
    }
}

/// Per-stream sequence counter.
#[derive(Debug, Clone)]
pub struct SequenceGenerator {
    next: u64,
}

impl SequenceGenerator {
    pub closed spec fn next_spec(&self) -> u64 {
        self.next
    }

    pub fn new() -> (g: Self)
        ensures
            g.next_spec() == 0,
    {
        SequenceGenerator { next: 0 }
    }

    /// Returns the next sequence and advances (wrapping at the top of the range).
    pub fn next_sequence(&mut self) -> (s: Sequence)
        ensures
            s.0 == old(self).next_spec(),
            final(self).next_spec() == crate::transport_check::spec_next_seq(old(self).next_spec()),
    {
        let seq = Sequence(self.next);
        self.next = self.next.wrapping_add(1);
        seq
    }

    pub fn peek(&self) -> (n: u64)
        ensures
            n == self.next_spec(),
    {
        self.next
    }
}

impl Default for SequenceGenerator {
    fn default() -> (g: Self)
        ensures
            g.next_spec() == 0,
    {
        SequenceGenerator::new()
    }
}

/// Slot/symbol scheduler backed by [`TimestampGenerator`].
#[derive(Debug, Clone)]
pub struct SimpleSlotScheduler {
    timestamps: TimestampGenerator,
}

impl SimpleSlotScheduler {
    pub closed spec fn generator(&self) -> TimestampGenerator {
        self.timestamps
    }

    pub fn new(timing: RadioTimingConfig) -> (s: Self)
        ensures
            s.generator().timing_spec() == timing,
            s.generator().position() == (TimingPosition { sfn: 0, slot: 0, symbol: 0, ns: 0 }),
    {
        SimpleSlotScheduler { timestamps: TimestampGenerator::new(timing) }
    }

    pub fn timing(&self) -> (t: &RadioTimingConfig)
        ensures
            *t == self.generator().timing_spec(),
    {
        &self.timestamps.timing
    }
}

impl SlotScheduler for SimpleSlotScheduler {
    fn next_symbol(&mut self) -> (ts: RadioTimestamp)
        ensures
            ts == spec_stamp(old(self).generator().position()),
            final(self).generator().timing_spec() == old(self).generator().timing_spec(),
            final(self).generator().position() == spec_tick(
                old(self).generator().timing_spec(),
                old(self).generator().position(),
            ),
    {
        self.timestamps.tick_symbol()
    }

    fn current(&self) -> (ts: RadioTimestamp)
        ensures
            ts == spec_stamp(self.generator().position()),
    {
        self.timestamps.current()
    }

    fn reset(&mut self)
        ensures
            final(self).generator().timing_spec() == old(self).generator().timing_spec(),
            final(self).generator().position() == (TimingPosition { sfn: 0, slot: 0, symbol: 0, ns: 0 }),
    {
        self.timestamps.reset();
    }
}

/// Payload bytes of a batch of IQ samples: I then Q of each sample, as
/// little-endian 32-bit words.
pub open spec fn spec_iq_payload(samples: Seq<IqSampleBits>) -> Seq<u8>
    decreases samples.len(),
{
    if samples.len() == 0 {
        Seq::empty()
    } else {
        spec_iq_payload(samples.drop_last()) + spec_u32_to_le_bytes(samples.last().i)
            + spec_u32_to_le_bytes(samples.last().q)
    }
}

/// Packs IQ as interleaved 32-bit LE words, numbering packets with its own sequence.
#[derive(Debug)]
pub struct SimplePacketizer {
    sequence: SequenceGenerator,
}

impl SimplePacketizer {
    pub closed spec fn next_spec(&self) -> u64 {
        self.sequence.next_spec()
    }

    pub fn new() -> (p: Self)
        ensures
            p.next_spec() == 0,
    {
        SimplePacketizer { sequence: SequenceGenerator::new() }
    }

    pub fn next_sequence(&self) -> (n: u64)
        ensures
            n == self.next_spec(),
    {
        self.sequence.peek()
    }

    pub fn packetize(&mut self, stream_id: StreamId, timestamp: RadioTimestamp, samples: &[IqSampleBits]) -> (p:
        Packet)
        ensures
            p.stream_id == stream_id,
            p.sequence.0 == old(self).next_spec(),
            p.timestamp.0 == timestamp.ns,
            p.payload@ == spec_iq_payload(samples@),
            final(self).next_spec() == crate::transport_check::spec_next_seq(old(self).next_spec()),
    {
        let mut payload: Vec<u8> = Vec::new();
        let mut k: usize = 0;
        while k < samples.len()
            invariant
                0 <= k <= samples@.len(),
                payload@ == spec_iq_payload(samples@.subrange(0, k as int)),
            decreases samples@.len() - k,
        {
            let s = samples[k];
            let mut ib = u32_to_le_bytes(s.i);
            let mut qb = u32_to_le_bytes(s.q);
            payload.append(&mut ib);
            payload.append(&mut qb);
            proof {
                let pre = samples@.subrange(0, k as int);
                let post = samples@.subrange(0, k + 1);
                assert(post.drop_last() =~= pre);
                assert(post.last() == s);
            }
            k = k + 1;
        }
        proof {
            assert(samples@.subrange(0, k as int) =~= samples@);
        }
        let seq = self.sequence.next_sequence();
        Packet::new(stream_id, seq, Timestamp(timestamp.ns), payload)
    }
}

impl Default for SimplePacketizer {
    fn default() -> (p: Self)
        ensures
            p.next_spec() == 0,
    {
        SimplePacketizer::new()
    }
}

/// FPGA emulator facade: schedule → IQ → packetize for one stream.
#[derive(Debug)]
pub struct FpgaEmulator<I: IQSource> {
    pub scheduler: SimpleSlotScheduler,
    pub iq: I,
    pub packetizer: SimplePacketizer,
    pub stream_id: StreamId,
}

impl<I: IQSource> FpgaEmulator<I> {
    pub fn new(timing: RadioTimingConfig, stream_id: StreamId, iq: I) -> (f: Self)
        ensures
            f.scheduler.generator().timing_spec() == timing,
            f.scheduler.generator().position() == (TimingPosition { sfn: 0, slot: 0, symbol: 0, ns: 0 }),
            f.packetizer.next_spec() == 0,
            f.stream_id == stream_id,
            f.iq == iq,
    {
        FpgaEmulator {
            scheduler: SimpleSlotScheduler::new(timing),
            iq,
            packetizer: SimplePacketizer::new(),
            stream_id,
        }
    }

    /// Emit one symbol worth of samples as a single packet.
    pub fn emit_symbol(&mut self) -> (p: Packet)
        ensures
            p.stream_id == old(self).stream_id,
            p.sequence.0 == old(self).packetizer.next_spec(),
            p.timestamp.0 == old(self).scheduler.generator().position().ns,
            exists|samples: Seq<IqSampleBits>| p.payload@ == spec_iq_payload(samples),
            final(self).stream_id == old(self).stream_id,
            final(self).packetizer.next_spec() == crate::transport_check::spec_next_seq(
                old(self).packetizer.next_spec(),
            ),
            final(self).scheduler.generator().timing_spec() == old(self).scheduler.generator().timing_spec(),
            final(self).scheduler.generator().position() == spec_tick(
                old(self).scheduler.generator().timing_spec(),
                old(self).scheduler.generator().position(),
            ),
    {
        let ts = self.scheduler.next_symbol();
        let samples = self.iq.generate(ts);
        self.packetizer.packetize(self.stream_id, ts, samples.as_slice())
    }
}

} // verus!
