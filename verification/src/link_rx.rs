//! Receive side of the inter-process links: frames decoded into a queue
//! that packet bursts are taken from, and the layout and cursor rules of
//! the shared-memory frame ring.

use vstd::bytes::*;
use vstd::slice::slice_subrange;
use vstd::prelude::*;

use crate::protocol::{decode_frame, spec_decode_frame, ProtocolError};
use crate::text::{lower_eq, lower_equals};
use crate::types::{Packet, PacketView};

verus! {

/// Which inter-process link carries the frames.
#[derive(Debug, Clone, Copy, PartialEq, Eq, Structural)]
pub enum LinkKind {
    Udp,
    Shm,
}

/// The link a `--transport` keyword names, ASCII case ignored: `udp` or
/// `net` for UDP, `shm` for shared memory.
pub open spec fn spec_link_kind(s: Seq<char>) -> Option<LinkKind> {
    if lower_equals(s, "udp"@) || lower_equals(s, "net"@) {
        Some(LinkKind::Udp)
    } else if lower_equals(s, "shm"@) {
        Some(LinkKind::Shm)
    } else {
        None
    }
}

impl LinkKind {
    pub fn parse(s: &str) -> (k: Option<Self>)
        ensures
            k == spec_link_kind(s@),
    {
        if lower_eq(s, "udp") || lower_eq(s, "net") {
            Some(LinkKind::Udp)
        } else if lower_eq(s, "shm") {
            Some(LinkKind::Shm)
        } else {
            None
        }
    }
}

/// Abstract state of an [`RxQueue`].
pub struct RxQueueView {
    pub rx: Seq<PacketView>,
    pub received: u64,
    pub decode_errors: u64,
}

/// Decoded packets waiting to be taken, with receive and decode-error counts.
#[derive(Debug)]
pub struct RxQueue {
    rx: Vec<Packet>,
    pub received: u64,
    pub decode_errors: u64,
}

impl View for RxQueue {
    type V = RxQueueView;

    closed spec fn view(&self) -> RxQueueView {
        RxQueueView {
            rx: self.rx@.map_values(|p: Packet| p@),
            received: self.received,
            decode_errors: self.decode_errors,
        }
    }
}

impl RxQueue {
    pub fn new() -> (q: Self)
        ensures
            q@.rx == Seq::<PacketView>::empty(),
            q@.received == 0,
            q@.decode_errors == 0,
    {
        let q = RxQueue { rx: Vec::new(), received: 0, decode_errors: 0 };
        proof {
            assert(q@.rx =~= Seq::<PacketView>::empty());
        }
        q
    }

    /// Decodes one received frame: a valid frame joins the queue and counts
    /// as received, an invalid one counts as a decode error.
    pub fn on_frame(&mut self, frame: &[u8]) -> (r: Result<(), ProtocolError>)
        requires
            old(self)@.received < u64::MAX,
            old(self)@.decode_errors < u64::MAX,
        ensures
            match spec_decode_frame(frame@) {
                Ok(p) => r is Ok && final(self)@ == (RxQueueView {
                    rx: old(self)@.rx.push(p),
                    received: (old(self)@.received + 1) as u64,
                    ..old(self)@
                }),
                Err(e) => r == Err::<(), ProtocolError>(e) && final(self)@ == (RxQueueView {
                    decode_errors: (old(self)@.decode_errors + 1) as u64,
                    ..old(self)@
                }),
            },
    {
        match decode_frame(frame) {
            Ok(p) => {
                let ghost before = self@.rx;
                self.rx.push(p);
                self.received = self.received + 1;
                proof {
                    assert(self@.rx =~= before.push(p@));
                }
                Ok(())
            },
            Err(e) => {
                self.decode_errors = self.decode_errors + 1;
                Err(e)
            },
        }
    }

    /// Number of packets waiting.
    pub fn len(&self) -> (n: usize)
        ensures
            n == self@.rx.len(),
    {
        self.rx.len()
    }

    /// Takes up to `max` packets from the front of the queue.
    pub fn take(&mut self, max: usize) -> (out: Vec<Packet>)
        ensures
            ({
                let n = if max <= old(self)@.rx.len() { max as int } else { old(self)@.rx.len() as int };
                &&& out@.map_values(|p: Packet| p@) == old(self)@.rx.subrange(0, n)
                &&& final(self)@ == (RxQueueView {
                    rx: old(self)@.rx.subrange(n, old(self)@.rx.len() as int),
                    ..old(self)@
                })
            }),
    {
        let n = if max <= self.rx.len() { max } else { self.rx.len() };
        let ghost before = self.rx@;
        let mut rest = self.rx.split_off(n);
        std::mem::swap(&mut self.rx, &mut rest);
        proof {
            assert(rest@.map_values(|p: Packet| p@) =~= before.map_values(|p: Packet| p@).subrange(0, n as int));
            assert(self@.rx =~= before.map_values(|p: Packet| p@).subrange(n as int, before.len() as int));
        }
        rest
    }
}

/// Tag in the first four bytes of a shared-memory ring ("SHM1", little-endian).
pub const SHM_MAGIC: u32 = 0x314D_4853;

/// Layout version of the ring.
pub const SHM_VERSION: u32 = 1;

/// Bytes before the first slot: tag, version, geometry, write and read cursors.
pub const SHM_HEADER_BYTES: usize = 64;

/// Bytes before a slot's data: its state word and its length word.
pub const SHM_SLOT_PREFIX: usize = 8;

/// Slot state: free for the producer.
pub const SHM_SLOT_EMPTY: u32 = 0;

/// Slot state: holds a frame for the consumer.
pub const SHM_SLOT_FULL: u32 = 1;

/// Why a shared-memory ring operation is refused.
#[derive(Debug, Clone, Copy, PartialEq, Eq, Structural)]
pub enum ShmLayoutError {
    /// Geometry unusable: no slots, or slots under 64 bytes.
    BadGeometry,
    /// The header does not carry the ring's tag and version.
    BadHeader,
    /// The header's geometry differs from the configured one.
    GeometryMismatch,
    /// The frame does not fit a slot.
    FrameTooLarge,
    /// Every slot holds a frame the consumer has not taken.
    RingFull,
}

/// Geometry check: at least one slot of at least 64 bytes.
pub fn check_geometry(slot_count: usize, slot_bytes: usize) -> (r: Result<(), ShmLayoutError>)
    ensures
        r is Ok <==> slot_count > 0 && slot_bytes >= 64,
        r is Err ==> r == Err::<(), ShmLayoutError>(ShmLayoutError::BadGeometry),
{
    if slot_count == 0 || slot_bytes < 64 {
        Err(ShmLayoutError::BadGeometry)
    } else {
        Ok(())
    }
}

/// Size of the ring's region: the header and every slot with its prefix.
pub open spec fn spec_ring_bytes(slot_count: nat, slot_bytes: nat) -> nat {
    SHM_HEADER_BYTES as nat + slot_count * (SHM_SLOT_PREFIX as nat + slot_bytes)
}

pub fn ring_bytes(slot_count: usize, slot_bytes: usize) -> (n: usize)
    requires
        slot_count > 0,
        spec_ring_bytes(slot_count as nat, slot_bytes as nat) <= usize::MAX,
    ensures
        n == spec_ring_bytes(slot_count as nat, slot_bytes as nat),
{
    assert(8 + slot_bytes <= slot_count * (8 + slot_bytes)) by (nonlinear_arith)
        requires
            slot_count > 0,
    ;
    SHM_HEADER_BYTES + slot_count * (SHM_SLOT_PREFIX + slot_bytes)
}

/// Offset of slot `idx` (its state word) in the region.
pub fn slot_offset(idx: usize, slot_count: usize, slot_bytes: usize) -> (off: usize)
    requires
        idx < slot_count,
        spec_ring_bytes(slot_count as nat, slot_bytes as nat) <= usize::MAX,
    ensures
        off == SHM_HEADER_BYTES + idx * (SHM_SLOT_PREFIX + slot_bytes),
        off + SHM_SLOT_PREFIX + slot_bytes <= spec_ring_bytes(slot_count as nat, slot_bytes as nat),
{
    assert(idx * (8 + slot_bytes) + (8 + slot_bytes) <= slot_count * (8 + slot_bytes)) by (nonlinear_arith)
        requires
            idx < slot_count,
    ;
    assert(8 + slot_bytes <= slot_count * (8 + slot_bytes)) by (nonlinear_arith)
        requires
            idx < slot_count,
    ;
    SHM_HEADER_BYTES + idx * (SHM_SLOT_PREFIX + slot_bytes)
}

/// The ring header for a geometry: tag, version, slot count and slot size
/// as little-endian words, then zeros (both cursors at 0).
pub open spec fn spec_shm_header(slot_count: u32, slot_bytes: u32) -> Seq<u8> {
    spec_u32_to_le_bytes(SHM_MAGIC) + spec_u32_to_le_bytes(SHM_VERSION) + spec_u32_to_le_bytes(slot_count)
        + spec_u32_to_le_bytes(slot_bytes) + Seq::new(48, |i: int| 0u8)
}

pub fn shm_header(slot_count: u32, slot_bytes: u32) -> (h: Vec<u8>)
    ensures
        h@ == spec_shm_header(slot_count, slot_bytes),
        h@.len() == SHM_HEADER_BYTES,
{
    let mut h = u32_to_le_bytes(SHM_MAGIC);
    let mut v = u32_to_le_bytes(SHM_VERSION);
    let mut c = u32_to_le_bytes(slot_count);
    let mut b = u32_to_le_bytes(slot_bytes);
    h.append(&mut v);
    h.append(&mut c);
    h.append(&mut b);
    let ghost prefix = h@;
    let mut i: usize = 0;
    while i < 48
        invariant
            0 <= i <= 48,
            prefix.len() == 16,
            h@ == prefix + Seq::new(i as nat, |k: int| 0u8),
        decreases 48 - i,
    {
        h.push(0);
        proof {
            assert(h@ =~= prefix + Seq::new((i + 1) as nat, |k: int| 0u8));
        }
        i = i + 1;
    }
    h
}

/// Whether a header names a ring of this geometry: `BadHeader` for a wrong
/// tag or version, `GeometryMismatch` for another slot count or size.
pub open spec fn spec_check_header(h: Seq<u8>, slot_count: u32, slot_bytes: u32) -> Result<(), ShmLayoutError> {
    if spec_u32_from_le_bytes(h.subrange(0, 4)) != SHM_MAGIC || spec_u32_from_le_bytes(h.subrange(4, 8))
        != SHM_VERSION {
        Err(ShmLayoutError::BadHeader)
    } else if spec_u32_from_le_bytes(h.subrange(8, 12)) != slot_count || spec_u32_from_le_bytes(
        h.subrange(12, 16),
    ) != slot_bytes {
        Err(ShmLayoutError::GeometryMismatch)
    } else {
        Ok(())
    }
}

pub fn check_header(h: &[u8], slot_count: u32, slot_bytes: u32) -> (r: Result<(), ShmLayoutError>)
    requires
        h@.len() >= 16,
    ensures
        r == spec_check_header(h@, slot_count, slot_bytes),
{
    let magic = u32_from_le_bytes(slice_subrange(h, 0, 4));
    let version = u32_from_le_bytes(slice_subrange(h, 4, 8));
    let sc = u32_from_le_bytes(slice_subrange(h, 8, 12));
    let sb = u32_from_le_bytes(slice_subrange(h, 12, 16));
    if magic != SHM_MAGIC || version != SHM_VERSION {
        return Err(ShmLayoutError::BadHeader);
    }
    if sc != slot_count || sb != slot_bytes {
        return Err(ShmLayoutError::GeometryMismatch);
    }
    Ok(())
}

/// Where the producer may write a frame of `frame_len` bytes, given the
/// write and read cursors: refused when the frame exceeds a slot or every
/// slot is taken, else the slot under the write cursor.
pub open spec fn spec_push_slot(frame_len: nat, slot_bytes: nat, w: u64, r: u64, slot_count: nat) -> Result<
    nat,
    ShmLayoutError,
> {
    if frame_len > slot_bytes {
        Err(ShmLayoutError::FrameTooLarge)
    } else if (w - r) % 0x1_0000_0000_0000_0000 >= slot_count {
        Err(ShmLayoutError::RingFull)
    } else {
        Ok(((w as usize) as nat) % slot_count)
    }
}

pub fn push_slot(frame_len: usize, slot_bytes: usize, w: u64, r: u64, slot_count: usize) -> (s: Result<
    usize,
    ShmLayoutError,
>)
    requires
        slot_count > 0,
    ensures
        match s {
            Ok(i) => spec_push_slot(frame_len as nat, slot_bytes as nat, w, r, slot_count as nat) == Ok::<
                nat,
                ShmLayoutError,
            >(i as nat) && i < slot_count,
            Err(e) => spec_push_slot(frame_len as nat, slot_bytes as nat, w, r, slot_count as nat) == Err::<
                nat,
                ShmLayoutError,
            >(e),
        },
{
    if frame_len > slot_bytes {
        return Err(ShmLayoutError::FrameTooLarge);
    }
    let used = w.wrapping_sub(r);
    assert(used == (w - r) % 0x1_0000_0000_0000_0000) by (bit_vector)
        requires
            used == w.wrapping_sub(r),
    ;
    if used as u128 >= slot_count as u128 {
        return Err(ShmLayoutError::RingFull);
    }
    Ok((w as usize) % slot_count)
}

/// The slot the consumer reads next, if the ring holds a frame.
pub open spec fn spec_pop_slot(r: u64, w: u64, slot_count: nat) -> Option<nat> {
    if r == w {
        None
    } else {
        Some(((r as usize) as nat) % slot_count)
    }
}

pub fn pop_slot(r: u64, w: u64, slot_count: usize) -> (s: Option<usize>)
    requires
        slot_count > 0,
    ensures
        match s {
            Some(i) => spec_pop_slot(r, w, slot_count as nat) == Some(i as nat) && i < slot_count,
            None => spec_pop_slot(r, w, slot_count as nat) is None,
        },
{
    if r == w {
        None
    } else {
        Some((r as usize) % slot_count)
    }
}

/// The slot the producer fills at write cursor `w` is the slot the consumer
/// reads once its read cursor reaches `w`.
pub proof fn law_pushed_slot_is_popped(frame_len: nat, slot_bytes: nat, w: u64, r: u64, slot_count: nat)
    requires
        slot_count > 0,
        spec_push_slot(frame_len, slot_bytes, w, r, slot_count) is Ok,
        w < u64::MAX,
    ensures
        spec_pop_slot(w, (w + 1) as u64, slot_count) == Some(
            spec_push_slot(frame_len, slot_bytes, w, r, slot_count)->Ok_0,
        ),
{
}

/// A freshly written header names the geometry it was written for.
pub proof fn law_header_roundtrip(slot_count: u32, slot_bytes: u32)
    ensures
        spec_check_header(spec_shm_header(slot_count, slot_bytes), slot_count, slot_bytes) is Ok,
{
    lemma_auto_spec_u32_to_from_le_bytes();
    let h = spec_shm_header(slot_count, slot_bytes);
    assert(h.subrange(0, 4) =~= spec_u32_to_le_bytes(SHM_MAGIC));
    assert(h.subrange(4, 8) =~= spec_u32_to_le_bytes(SHM_VERSION));
    assert(h.subrange(8, 12) =~= spec_u32_to_le_bytes(slot_count));
    assert(h.subrange(12, 16) =~= spec_u32_to_le_bytes(slot_bytes));
}

} // verus!
