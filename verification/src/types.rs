//! Core identity and timing types for the Aether Radio data plane.

use vstd::prelude::*;

verus! {

/// Opaque stream identifier.
#[derive(Debug, Clone, Copy, PartialEq, Eq, Hash, Structural)]
pub struct StreamId(pub u32);

/// Monotonic packet sequence within a stream.
#[derive(Debug, Clone, Copy, PartialEq, Eq, PartialOrd, Ord, Hash, Structural)]
pub struct Sequence(pub u64);

/// Absolute nanosecond timestamp (simulation or wall-clock domain).
#[derive(Debug, Clone, Copy, PartialEq, Eq, PartialOrd, Ord, Hash, Structural)]
pub struct Timestamp(pub u64);

/// System Frame Number.
#[derive(Debug, Clone, Copy, PartialEq, Eq, PartialOrd, Ord, Hash, Structural)]
pub struct Sfn(pub u32);

/// Slot index within an SFN.
#[derive(Debug, Clone, Copy, PartialEq, Eq, PartialOrd, Ord, Hash, Structural)]
pub struct Slot(pub u16);

/// OFDM symbol index within a slot.
#[derive(Debug, Clone, Copy, PartialEq, Eq, PartialOrd, Ord, Hash, Structural)]
pub struct Symbol(pub u8);

/// Antenna port / element identifier.
#[derive(Debug, Clone, Copy, PartialEq, Eq, Hash, Structural)]
pub struct AntennaId(pub u16);

/// Carrier identifier.
#[derive(Debug, Clone, Copy, PartialEq, Eq, Hash, Structural)]
pub struct CarrierId(pub u16);

/// Radio-domain timestamp combining frame timing and nanoseconds.
#[derive(Debug, Clone, Copy, PartialEq, Eq, Structural)]
pub struct RadioTimestamp {
    pub sfn: u32,
    pub slot: u16,
    pub symbol: u8,
    pub ns: u64,
}

impl RadioTimestamp {
    pub fn new(sfn: u32, slot: u16, symbol: u8, ns: u64) -> (ts: Self)
        ensures
            ts == (RadioTimestamp { sfn, slot, symbol, ns }),
    {
        RadioTimestamp { sfn, slot, symbol, ns }
    }
}

/// Packet buffer owned by the data plane.
#[derive(Debug, PartialEq, Eq)]
pub struct Packet {
    pub stream_id: StreamId,
    pub sequence: Sequence,
    pub timestamp: Timestamp,
    pub payload: Vec<u8>,
}

/// The abstract value of a packet: its header fields and payload bytes.
pub struct PacketView {
    pub stream_id: u32,
    pub sequence: u64,
    pub timestamp: u64,
    pub payload: Seq<u8>,
}

impl View for Packet {
    type V = PacketView;

    open spec fn view(&self) -> PacketView {
        PacketView {
            stream_id: self.stream_id.0,
            sequence: self.sequence.0,
            timestamp: self.timestamp.0,
            payload: self.payload@,
        }
    }
}

impl Packet {
    pub fn new(stream_id: StreamId, sequence: Sequence, timestamp: Timestamp, payload: Vec<u8>) -> (p:
        Self)
        ensures
            p.stream_id == stream_id,
            p.sequence == sequence,
            p.timestamp == timestamp,
            p.payload@ == payload@,
    {
        Packet { stream_id, sequence, timestamp, payload }
    }
}

impl Clone for Packet {
    fn clone(&self) -> (res: Self)
        ensures
            res@ == self@,
            res.stream_id == self.stream_id,
            res.sequence == self.sequence,
            res.timestamp == self.timestamp,
    {
        let payload = self.payload.clone();
        proof {
            assert(payload@ =~= self.payload@);
        }
        Packet {
            stream_id: self.stream_id,
            sequence: self.sequence,
            timestamp: self.timestamp,
            payload,
        }
    }
}

} // verus!
