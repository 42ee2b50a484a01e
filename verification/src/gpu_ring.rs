//! GPU memory ring: Free → Receiving → Ready → Processing → Done → Free.

use vstd::prelude::*;

use crate::gpu::{BufferState, GpuError};

verus! {

/// Geometry and timing of a GPU ring.
#[derive(Debug, Clone, PartialEq)]
pub struct GpuRingConfig {
    pub version: String,
    pub id: String,
    pub slot_count: usize,
    pub slot_bytes: usize,
    /// Simulated kernel duration in nanoseconds.
    pub kernel_delay_ns: u64,
}

#[derive(Debug, Clone)]
pub struct RingSlot {
    pub state: BufferState,
    pub payload: Vec<u8>,
    pub arrive_ns: u64,
    pub done_ns: u64,
}

/// Abstract value of one ring slot.
#[verifier::ext_equal]
pub struct SlotView {
    pub state: BufferState,
    pub payload: Seq<u8>,
    pub arrive_ns: u64,
    pub done_ns: u64,
}

impl View for RingSlot {
    type V = SlotView;

    open spec fn view(&self) -> SlotView {
        SlotView {
            state: self.state,
            payload: self.payload@,
            arrive_ns: self.arrive_ns,
            done_ns: self.done_ns,
        }
    }
}

/// A freshly created slot.
pub open spec fn spec_empty_slot() -> SlotView {
    SlotView { state: BufferState::Free, payload: Seq::empty(), arrive_ns: 0, done_ns: 0 }
}

impl RingSlot {
    fn empty(capacity: usize) -> (s: Self)
        ensures
            s@ == spec_empty_slot(),
    {
        RingSlot { state: BufferState::Free, payload: Vec::with_capacity(capacity), arrive_ns: 0, done_ns: 0 }
    }
}

/// The only state each state may move to.
pub open spec fn spec_next_state(s: BufferState) -> BufferState {
    match s {
        BufferState::Free => BufferState::Receiving,
        BufferState::Receiving => BufferState::Ready,
        BufferState::Ready => BufferState::Processing,
        BufferState::Processing => BufferState::Done,
        BufferState::Done => BufferState::Free,
    }
}

/// Abstract state of a [`GpuRingBuffer`].
#[verifier::ext_equal]
pub struct GpuRingView {
    pub slots: Seq<SlotView>,
    pub slot_bytes: usize,
    pub kernel_delay_ns: u64,
}

/// `i` is the first slot of `slots` in state `st`.
pub open spec fn is_first_in_state(slots: Seq<SlotView>, st: BufferState, i: int) -> bool {
    &&& 0 <= i < slots.len()
    &&& slots[i].state == st
    &&& forall|j: int| 0 <= j < i ==> (#[trigger] slots[j]).state != st
}

/// The first slot in state `st`, if any.
pub open spec fn spec_first_in_state(slots: Seq<SlotView>, st: BufferState) -> Option<int> {
    if exists|i: int| is_first_in_state(slots, st, i) {
        Some(choose|i: int| is_first_in_state(slots, st, i))
    } else {
        None
    }
}

/// `i` is the oldest Ready slot: of the Ready slots, the one that arrived
/// first, the lowest index among those that arrived together.
pub open spec fn is_oldest_ready(slots: Seq<SlotView>, i: int) -> bool {
    &&& 0 <= i < slots.len()
    &&& slots[i].state == BufferState::Ready
    &&& forall|j: int|
        0 <= j < slots.len() && (#[trigger] slots[j]).state == BufferState::Ready ==> slots[i].arrive_ns
            < slots[j].arrive_ns || (slots[i].arrive_ns == slots[j].arrive_ns && i <= j)
}

/// The oldest Ready slot, if any.
pub open spec fn spec_oldest_ready(slots: Seq<SlotView>) -> Option<int> {
    if exists|i: int| is_oldest_ready(slots, i) {
        Some(choose|i: int| is_oldest_ready(slots, i))
    } else {
        None
    }
}

/// Number of slots in state `st`.
pub open spec fn spec_count_state(slots: Seq<SlotView>, st: BufferState) -> nat {
    slots.filter(|s: SlotView| s.state == st).len()
}

pub open spec fn sat_add(a: u64, b: u64) -> u64 {
    if a + b > u64::MAX {
        u64::MAX
    } else {
        (a + b) as u64
    }
}

pub open spec fn sat_sub(a: u64, b: u64) -> u64 {
    if a >= b {
        (a - b) as u64
    } else {
        0
    }
}

impl GpuRingView {
    pub open spec fn set_slot(self, idx: int, s: SlotView) -> GpuRingView {
        GpuRingView { slots: self.slots.update(idx, s), ..self }
    }

    pub open spec fn begin_receive(self, arrive_ns: u64) -> (GpuRingView, Result<usize, GpuError>) {
        match spec_first_in_state(self.slots, BufferState::Free) {
            None => (self, Err(GpuError::RingFull)),
            Some(i) => (
                self.set_slot(
                    i,
                    SlotView { state: BufferState::Receiving, payload: Seq::empty(), arrive_ns, done_ns: 0 },
                ),
                Ok(i as usize),
            ),
        }
    }

    pub open spec fn complete_receive(self, idx: usize, data: Seq<u8>) -> (GpuRingView, Result<(), GpuError>) {
        if idx >= self.slots.len() {
            (self, Err(GpuError::NoSlot(BufferState::Receiving)))
        } else if self.slots[idx as int].state != BufferState::Receiving {
            (
                self,
                Err(GpuError::InvalidTransition { from: self.slots[idx as int].state, to: BufferState::Ready }),
            )
        } else if data.len() > self.slot_bytes {
            (self, Err(GpuError::PayloadTooLarge))
        } else {
            (
                self.set_slot(
                    idx as int,
                    SlotView { state: BufferState::Ready, payload: data, ..self.slots[idx as int] },
                ),
                Ok(()),
            )
        }
    }

    pub open spec fn begin_process(self, now_ns: u64) -> (GpuRingView, Result<(usize, u64), GpuError>) {
        match spec_oldest_ready(self.slots) {
            None => (self, Err(GpuError::NoSlot(BufferState::Ready))),
            Some(i) => (
                self.set_slot(i, SlotView { state: BufferState::Processing, ..self.slots[i] }),
                Ok((i as usize, sat_add(now_ns, self.kernel_delay_ns))),
            ),
        }
    }

    pub open spec fn complete_process(self, idx: usize, done_ns: u64) -> (GpuRingView, Result<u64, GpuError>) {
        if idx >= self.slots.len() {
            (self, Err(GpuError::NoSlot(BufferState::Processing)))
        } else if self.slots[idx as int].state != BufferState::Processing {
            (
                self,
                Err(GpuError::InvalidTransition { from: self.slots[idx as int].state, to: BufferState::Done }),
            )
        } else {
            (
                self.set_slot(
                    idx as int,
                    SlotView { state: BufferState::Done, done_ns, ..self.slots[idx as int] },
                ),
                Ok(sat_sub(done_ns, self.slots[idx as int].arrive_ns)),
            )
        }
    }

    pub open spec fn release(self, idx: usize) -> (GpuRingView, Result<(), GpuError>) {
        if idx >= self.slots.len() {
            (self, Err(GpuError::NoSlot(BufferState::Done)))
        } else if self.slots[idx as int].state != BufferState::Done {
            (
                self,
                Err(GpuError::InvalidTransition { from: self.slots[idx as int].state, to: BufferState::Free }),
            )
        } else {
            (
                self.set_slot(
                    idx as int,
                    SlotView { state: BufferState::Free, payload: Seq::empty(), ..self.slots[idx as int] },
                ),
                Ok(()),
            )
        }
    }

    /// receive → ready → process → done → free, as `process_packet` runs it.
    pub open spec fn process_packet(self, data: Seq<u8>, arrive_ns: u64) -> (GpuRingView, Result<u64, GpuError>) {
        let (v1, r1) = self.begin_receive(arrive_ns);
        match r1 {
            Err(e) => (v1, Err(e)),
            Ok(idx) => {
                let (v2, r2) = v1.complete_receive(idx, data);
                match r2 {
                    Err(e) => (v2, Err(e)),
                    Ok(()) => {
                        let (v3, r3) = v2.begin_process(arrive_ns);
                        match r3 {
                            Err(e) => (v3, Err(e)),
                            Ok((pidx, done_at)) => {
                                let (v4, r4) = v3.complete_process(pidx, done_at);
                                match r4 {
                                    Err(e) => (v4, Err(e)),
                                    Ok(latency) => {
                                        let (v5, r5) = v4.release(pidx);
                                        match r5 {
                                            Err(e) => (v5, Err(e)),
                                            Ok(()) => (v5, Ok(latency)),
                                        }
                                    },
                                }
                            },
                        }
                    },
                }
            },
        }
    }
}

/// Fixed-size GPU ring used by the PHY pipeline emulator.
#[derive(Debug)]
pub struct GpuRingBuffer {
    slots: Vec<RingSlot>,
    slot_bytes: usize,
    kernel_delay_ns: u64,
}

impl View for GpuRingBuffer {
    type V = GpuRingView;

    closed spec fn view(&self) -> GpuRingView {
        GpuRingView {
            slots: self.slots@.map_values(|s: RingSlot| s@),
            slot_bytes: self.slot_bytes,
            kernel_delay_ns: self.kernel_delay_ns,
        }
    }
}

proof fn lemma_oldest_unique(slots: Seq<SlotView>, i: int)
    requires
        is_oldest_ready(slots, i),
    ensures
        spec_oldest_ready(slots) == Some(i),
{
    let k = choose|k: int| is_oldest_ready(slots, k);
    assert(is_oldest_ready(slots, k));
    assert(slots[i].state == BufferState::Ready && slots[k].state == BufferState::Ready);
}

/// Without a Ready slot there is no oldest one.
proof fn lemma_no_ready_no_oldest(slots: Seq<SlotView>)
    requires
        forall|j: int| 0 <= j < slots.len() ==> (#[trigger] slots[j]).state != BufferState::Ready,
    ensures
        spec_oldest_ready(slots) is None,
{
    if exists|i: int| is_oldest_ready(slots, i) {
        let i = choose|i: int| is_oldest_ready(slots, i);
        assert(slots[i].state == BufferState::Ready);
    }
}

proof fn lemma_first_unique(slots: Seq<SlotView>, st: BufferState, i: int)
    requires
        is_first_in_state(slots, st, i),
    ensures
        spec_first_in_state(slots, st) == Some(i),
{
    let k = choose|k: int| is_first_in_state(slots, st, k);
    assert(is_first_in_state(slots, st, k));
    if k < i {
        assert(slots[k].state != st);
    } else if k > i {
        assert(slots[i].state != st);
    }
}

impl GpuRingBuffer {
    pub fn new(cfg: GpuRingConfig) -> (r: Self)
        ensures
            r@.slots == Seq::new(cfg.slot_count as nat, |i: int| spec_empty_slot()),
            r@.slot_bytes == cfg.slot_bytes,
            r@.kernel_delay_ns == cfg.kernel_delay_ns,
    {
        let mut slots: Vec<RingSlot> = Vec::new();
        let mut i: usize = 0;
        while i < cfg.slot_count
            invariant
                0 <= i <= cfg.slot_count,
                slots@.len() == i,
                forall|k: int| 0 <= k < i ==> (#[trigger] slots@[k])@ == spec_empty_slot(),
            decreases cfg.slot_count - i,
        {
            slots.push(RingSlot::empty(cfg.slot_bytes));
            i = i + 1;
        }
        let r = GpuRingBuffer { slots, slot_bytes: cfg.slot_bytes, kernel_delay_ns: cfg.kernel_delay_ns };
        proof {
            assert(r@.slots =~= Seq::new(cfg.slot_count as nat, |i: int| spec_empty_slot()));
        }
        r
    }

    pub fn slot_count(&self) -> (n: usize)
        ensures
            n == self@.slots.len(),
    {
        self.slots.len()
    }

    pub fn kernel_delay_ns(&self) -> (d: u64)
        ensures
            d == self@.kernel_delay_ns,
    {
        self.kernel_delay_ns
    }

    fn find_oldest_ready(&self) -> (r: Option<usize>)
        ensures
            match r {
                Some(i) => spec_oldest_ready(self@.slots) == Some(i as int),
                None => spec_oldest_ready(self@.slots) is None,
            },
    {
        let ghost sv = self@.slots;
        let mut best: Option<usize> = None;
        let mut i: usize = 0;
        while i < self.slots.len()
            invariant
                0 <= i <= self.slots@.len(),
                sv == self@.slots,
                sv.len() == self.slots@.len(),
                match best {
                    None => forall|j: int| 0 <= j < i ==> (#[trigger] sv[j]).state != BufferState::Ready,
                    Some(b) => {
                        &&& b < i
                        &&& sv[b as int].state == BufferState::Ready
                        &&& forall|j: int|
                            0 <= j < i && (#[trigger] sv[j]).state == BufferState::Ready ==> sv[b as int].arrive_ns
                                < sv[j].arrive_ns || (sv[b as int].arrive_ns == sv[j].arrive_ns && b <= j)
                    },
                },
            decreases self.slots@.len() - i,
        {
            proof {
                assert(sv[i as int] == self.slots@[i as int]@);
            }
            if self.slots[i].state == BufferState::Ready {
                match best {
                    None => {
                        best = Some(i);
                    },
                    Some(b) => {
                        proof {
                            assert(sv[b as int] == self.slots@[b as int]@);
                        }
                        if self.slots[i].arrive_ns < self.slots[b].arrive_ns {
                            best = Some(i);
                        }
                    },
                }
            }
            i = i + 1;
        }
        match best {
            None => {
                proof {
                    lemma_no_ready_no_oldest(sv);
                }
            },
            Some(b) => {
                proof {
                    assert(is_oldest_ready(sv, b as int));
                    lemma_oldest_unique(sv, b as int);
                }
            },
        }
        best
    }

    fn find_state(&self, state: BufferState) -> (r: Option<usize>)
        ensures
            match r {
                Some(i) => spec_first_in_state(self@.slots, state) == Some(i as int),
                None => spec_first_in_state(self@.slots, state) is None,
            },
    {
        let mut i: usize = 0;
        while i < self.slots.len()
            invariant
                0 <= i <= self.slots@.len(),
                forall|j: int| 0 <= j < i ==> (#[trigger] self.slots@[j]).state != state,
            decreases self.slots@.len() - i,
        {
            if self.slots[i].state == state {
                proof {
                    assert forall|j: int| 0 <= j < i implies (#[trigger] self@.slots[j]).state != state by {
                        assert(self@.slots[j] == self.slots@[j]@);
                    }
                    assert(is_first_in_state(self@.slots, state, i as int));
                    lemma_first_unique(self@.slots, state, i as int);
                }
                return Some(i);
            }
            i = i + 1;
        }
        proof {
            if exists|k: int| is_first_in_state(self@.slots, state, k) {
                let k = choose|k: int| is_first_in_state(self@.slots, state, k);
                assert(self@.slots[k] == self.slots@[k]@);
            }
        }
        None
    }

    fn transition(slot: &mut RingSlot, to: BufferState) -> (r: Result<(), GpuError>)
        ensures
            to == spec_next_state(old(slot).state) ==> r is Ok && final(slot)@ == (SlotView {
                state: to,
                ..old(slot)@
            }),
            to != spec_next_state(old(slot).state) ==> r == Err::<(), GpuError>(
                GpuError::InvalidTransition { from: old(slot).state, to },
            ) && final(slot)@ == old(slot)@,
    {
        let ok = match (slot.state, to) {
            (BufferState::Free, BufferState::Receiving) => true,
            (BufferState::Receiving, BufferState::Ready) => true,
            (BufferState::Ready, BufferState::Processing) => true,
            (BufferState::Processing, BufferState::Done) => true,
            (BufferState::Done, BufferState::Free) => true,
            _ => false,
        };
        if !ok {
            return Err(GpuError::InvalidTransition { from: slot.state, to });
        }
        slot.state = to;
        Ok(())
    }

    /// Takes slot `idx` out, leaving an empty slot in its place.
    fn take_slot(&mut self, idx: usize) -> (s: RingSlot)
        requires
            idx < old(self)@.slots.len(),
        ensures
            s@ == old(self)@.slots[idx as int],
            final(self)@ == old(self)@.set_slot(idx as int, spec_empty_slot()),
    {
        let mut s = RingSlot::empty(0);
        std::mem::swap(&mut s, &mut self.slots[idx]);
        proof {
            assert(self@.slots =~= old(self)@.slots.update(idx as int, spec_empty_slot()));
        }
        s
    }

    fn put_slot(&mut self, idx: usize, s: RingSlot)
        requires
            idx < old(self)@.slots.len(),
        ensures
            final(self)@ == old(self)@.set_slot(idx as int, s@),
    {
        self.slots.set(idx, s);
        proof {
            assert(self@.slots =~= old(self)@.slots.update(idx as int, s@));
        }
    }

    /// Begin DMA/write into a free slot.
    pub fn begin_receive(&mut self, arrive_ns: u64) -> (r: Result<usize, GpuError>)
        ensures
            (final(self)@, r) == old(self)@.begin_receive(arrive_ns),
    {
        let idx = match self.find_state(BufferState::Free) {
            Some(i) => i,
            None => return Err(GpuError::RingFull),
        };
        let ghost v0 = self@;
        let mut slot = self.take_slot(idx);
        let _ = Self::transition(&mut slot, BufferState::Receiving);
        slot.arrive_ns = arrive_ns;
        slot.done_ns = 0;
        slot.payload.clear();
        self.put_slot(idx, slot);
        proof {
            assert(self@ =~= v0.begin_receive(arrive_ns).0);
        }
        Ok(idx)
    }

    /// Finish writing payload; slot becomes Ready.
    pub fn complete_receive(&mut self, idx: usize, data: &[u8]) -> (r: Result<(), GpuError>)
        ensures
            (final(self)@, r) == old(self)@.complete_receive(idx, data@),
    {
        if idx >= self.slots.len() {
            return Err(GpuError::NoSlot(BufferState::Receiving));
        }
        if self.slots[idx].state != BufferState::Receiving {
            return Err(GpuError::InvalidTransition { from: self.slots[idx].state, to: BufferState::Ready });
        }
        if data.len() > self.slot_bytes {
            return Err(GpuError::PayloadTooLarge);
        }
        let mut payload: Vec<u8> = Vec::with_capacity(self.slot_bytes);
        let mut i: usize = 0;
        while i < data.len()
            invariant
                0 <= i <= data@.len(),
                payload@ == data@.subrange(0, i as int),
            decreases data@.len() - i,
        {
            payload.push(data[i]);
            i = i + 1;
            assert(payload@ =~= data@.subrange(0, i as int));
        }
        assert(data@.subrange(0, i as int) =~= data@);
        let ghost v0 = self@;
        let mut slot = self.take_slot(idx);
        slot.payload = payload;
        let _ = Self::transition(&mut slot, BufferState::Ready);
        self.put_slot(idx, slot);
        proof {
            assert(self@ =~= v0.complete_receive(idx, data@).0);
        }
        Ok(())
    }

    /// Start kernel on the oldest Ready slot; returns its index and the
    /// simulated completion time.
    pub fn begin_process(&mut self, now_ns: u64) -> (r: Result<(usize, u64), GpuError>)
        ensures
            (final(self)@, r) == old(self)@.begin_process(now_ns),
    {
        let idx = match self.find_oldest_ready() {
            Some(i) => i,
            None => return Err(GpuError::NoSlot(BufferState::Ready)),
        };
        let ghost v0 = self@;
        let mut slot = self.take_slot(idx);
        let _ = Self::transition(&mut slot, BufferState::Processing);
        self.put_slot(idx, slot);
        let done_at = now_ns.saturating_add(self.kernel_delay_ns);
        proof {
            assert(self@ =~= v0.begin_process(now_ns).0);
        }
        Ok((idx, done_at))
    }

    /// Mark processing complete at `done_ns`; returns the slot's latency.
    pub fn complete_process(&mut self, idx: usize, done_ns: u64) -> (r: Result<u64, GpuError>)
        ensures
            (final(self)@, r) == old(self)@.complete_process(idx, done_ns),
    {
        if idx >= self.slots.len() {
            return Err(GpuError::NoSlot(BufferState::Processing));
        }
        if self.slots[idx].state != BufferState::Processing {
            return Err(GpuError::InvalidTransition { from: self.slots[idx].state, to: BufferState::Done });
        }
        let ghost v0 = self@;
        let mut slot = self.take_slot(idx);
        slot.done_ns = done_ns;
        let latency = done_ns.saturating_sub(slot.arrive_ns);
        let _ = Self::transition(&mut slot, BufferState::Done);
        self.put_slot(idx, slot);
        proof {
            assert(self@ =~= v0.complete_process(idx, done_ns).0);
        }
        Ok(latency)
    }

    /// Release a Done slot back to Free.
    pub fn release(&mut self, idx: usize) -> (r: Result<(), GpuError>)
        ensures
            (final(self)@, r) == old(self)@.release(idx),
    {
        if idx >= self.slots.len() {
            return Err(GpuError::NoSlot(BufferState::Done));
        }
        if self.slots[idx].state != BufferState::Done {
            return Err(GpuError::InvalidTransition { from: self.slots[idx].state, to: BufferState::Free });
        }
        let ghost v0 = self@;
        let mut slot = self.take_slot(idx);
        slot.payload.clear();
        let _ = Self::transition(&mut slot, BufferState::Free);
        self.put_slot(idx, slot);
        proof {
            assert(self@ =~= v0.release(idx).0);
        }
        Ok(())
    }

    /// Convenience: receive → ready → process → done → free; returns pipeline latency.
    pub fn process_packet(&mut self, data: &[u8], arrive_ns: u64) -> (r: Result<u64, GpuError>)
        ensures
            (final(self)@, r) == old(self)@.process_packet(data@, arrive_ns),
    {
        let idx = self.begin_receive(arrive_ns)?;
        self.complete_receive(idx, data)?;
        let (idx, done_at) = self.begin_process(arrive_ns)?;
        let latency = self.complete_process(idx, done_at)?;
        self.release(idx)?;
        Ok(latency)
    }

    pub fn count_state(&self, state: BufferState) -> (n: usize)
        ensures
            n == spec_count_state(self@.slots, state),
    {
        let ghost pred = |s: SlotView| s.state == state;
        let ghost sv = self@.slots;
        let mut n: usize = 0;
        let mut i: usize = 0;
        while i < self.slots.len()
            invariant
                0 <= i <= self.slots@.len(),
                sv == self@.slots,
                forall|x: SlotView| #[trigger] pred(x) == (x.state == state),
                n == sv.take(i as int).filter(pred).len(),
                n <= i,
            decreases self.slots@.len() - i,
        {
            proof {
                sv.take(i as int).lemma_filter_push(sv[i as int], pred);
                assert(sv.take(i + 1) =~= sv.take(i as int).push(sv[i as int]));
                assert(sv[i as int] == self.slots@[i as int]@);
            }
            if self.slots[i].state == state {
                n = n + 1;
            }
            i = i + 1;
        }
        proof {
            assert(sv.take(i as int) =~= sv);
            assert(pred == (|s: SlotView| s.state == state));
        }
        n
    }
}

/// `new` differs from `old` in slot `i` only, and that slot moved one step
/// along Free → Receiving → Ready → Processing → Done → Free.
pub open spec fn one_step(old: GpuRingView, new: GpuRingView, i: int) -> bool {
    &&& 0 <= i < old.slots.len()
    &&& new.slots.len() == old.slots.len()
    &&& new.slot_bytes == old.slot_bytes
    &&& new.kernel_delay_ns == old.kernel_delay_ns
    &&& new.slots[i].state == spec_next_state(old.slots[i].state)
    &&& forall|j: int| 0 <= j < old.slots.len() && j != i ==> new.slots[j] == old.slots[j]
}

/// Every ring operation that succeeds moves exactly one slot one step along the
/// slot life cycle; one that fails leaves the ring unchanged.
pub proof fn law_ring_life_cycle(v: GpuRingView, t: u64, idx: usize, data: Seq<u8>)
    requires
        v.slots.len() <= usize::MAX,
    ensures
        v.begin_receive(t).1 matches Ok(i) ==> one_step(v, v.begin_receive(t).0, i as int),
        v.begin_receive(t).1 is Err ==> v.begin_receive(t).0 == v,
        v.complete_receive(idx, data).1 is Ok ==> one_step(v, v.complete_receive(idx, data).0, idx as int),
        v.complete_receive(idx, data).1 is Err ==> v.complete_receive(idx, data).0 == v,
        v.begin_process(t).1 matches Ok((i, _)) ==> one_step(v, v.begin_process(t).0, i as int),
        v.begin_process(t).1 is Err ==> v.begin_process(t).0 == v,
        v.complete_process(idx, t).1 is Ok ==> one_step(v, v.complete_process(idx, t).0, idx as int),
        v.complete_process(idx, t).1 is Err ==> v.complete_process(idx, t).0 == v,
        v.release(idx).1 is Ok ==> one_step(v, v.release(idx).0, idx as int),
        v.release(idx).1 is Err ==> v.release(idx).0 == v,
{
    if let Some(i) = spec_first_in_state(v.slots, BufferState::Free) {
        assert(is_first_in_state(v.slots, BufferState::Free, i));
    }
    if let Some(i) = spec_oldest_ready(v.slots) {
        assert(is_oldest_ready(v.slots, i));
    }
}

/// On a ring with a free slot and no slot waiting for the kernel, pushing one
/// payload that fits through the whole cycle succeeds, reports the kernel delay
/// as latency, and leaves every slot in the state it had.
pub proof fn law_process_packet_cycle(v: GpuRingView, data: Seq<u8>, arrive_ns: u64)
    requires
        v.slots.len() <= usize::MAX,
        spec_first_in_state(v.slots, BufferState::Free) is Some,
        spec_first_in_state(v.slots, BufferState::Ready) is None,
        data.len() <= v.slot_bytes,
    ensures
        v.process_packet(data, arrive_ns).1 == Ok::<u64, GpuError>(
            sat_sub(sat_add(arrive_ns, v.kernel_delay_ns), arrive_ns),
        ),
        v.process_packet(data, arrive_ns).0.slots.len() == v.slots.len(),
        forall|j: int|
            0 <= j < v.slots.len() ==> (#[trigger] v.process_packet(data, arrive_ns).0.slots[j]).state
                == v.slots[j].state,
{
    let i = spec_first_in_state(v.slots, BufferState::Free).unwrap();
    assert(is_first_in_state(v.slots, BufferState::Free, i));
    let (v1, r1) = v.begin_receive(arrive_ns);
    let (v2, r2) = v1.complete_receive(i as usize, data);
    assert(r2 is Ok);
    assert forall|j: int| 0 <= j < v.slots.len() implies (#[trigger] v.slots[j]).state != BufferState::Ready by {
        if v.slots[j].state == BufferState::Ready {
            lemma_exists_first(v.slots, BufferState::Ready, j);
        }
    }
    assert(is_oldest_ready(v2.slots, i)) by {
        assert forall|j: int|
            0 <= j < v2.slots.len() && (#[trigger] v2.slots[j]).state == BufferState::Ready implies j == i by {
            if j != i {
                assert(v2.slots[j] == v.slots[j]);
            }
        }
    }
    lemma_oldest_unique(v2.slots, i);
    let (v3, r3) = v2.begin_process(arrive_ns);
    let done_at = sat_add(arrive_ns, v.kernel_delay_ns);
    let (v4, r4) = v3.complete_process(i as usize, done_at);
    let (v5, r5) = v4.release(i as usize);
    assert(r5 is Ok);
}

/// If some slot is in state `st`, a first such slot exists.
pub proof fn lemma_exists_first(slots: Seq<SlotView>, st: BufferState, k: int)
    requires
        0 <= k < slots.len(),
        slots[k].state == st,
    ensures
        exists|m: int| is_first_in_state(slots, st, m),
    decreases k,
{
    if forall|j: int| 0 <= j < k ==> (#[trigger] slots[j]).state != st {
        assert(is_first_in_state(slots, st, k));
    } else {
        let j = choose|j: int| 0 <= j < k && (#[trigger] slots[j]).state == st;
        lemma_exists_first(slots, st, j);
    }
}

proof fn lemma_count_last(slots: Seq<SlotView>, st: BufferState)
    requires
        slots.len() > 0,
    ensures
        spec_count_state(slots, st) == spec_count_state(slots.drop_last(), st) + (if slots.last().state == st {
            1int
        } else {
            0int
        }),
{
    let pred = |s: SlotView| s.state == st;
    slots.drop_last().lemma_filter_push(slots.last(), pred);
    assert(slots.drop_last().push(slots.last()) =~= slots);
    assert(pred == (|s: SlotView| s.state == st));
}

proof fn lemma_count_empty(slots: Seq<SlotView>, st: BufferState)
    requires
        slots.len() == 0,
    ensures
        spec_count_state(slots, st) == 0,
{
    slots.lemma_filter_len(|s: SlotView| s.state == st);
}

/// No slot is in state `st` exactly when none is counted in it.
proof fn lemma_count_zero(slots: Seq<SlotView>, st: BufferState)
    ensures
        spec_count_state(slots, st) == 0 <==> forall|j: int| 0 <= j < slots.len() ==> (#[trigger] slots[j]).state != st,
    decreases slots.len(),
{
    if slots.len() == 0 {
        lemma_count_empty(slots, st);
    } else {
        lemma_count_last(slots, st);
        lemma_count_zero(slots.drop_last(), st);
        assert forall|j: int| 0 <= j < slots.len() - 1 implies #[trigger] slots.drop_last()[j] == slots[j] by {}
        if spec_count_state(slots, st) != 0 && slots.last().state != st {
            let j = choose|j: int| 0 <= j < slots.len() - 1 && (#[trigger] slots.drop_last()[j]).state == st;
            assert(slots[j].state == st);
        }
        if spec_count_state(slots, st) == 0 {
            assert forall|j: int| 0 <= j < slots.len() implies (#[trigger] slots[j]).state != st by {
                if j < slots.len() - 1 {
                    assert(slots.drop_last()[j] == slots[j]);
                }
            }
        }
    }
}

/// Two slot sequences whose slots are in the same states count the same.
proof fn lemma_counts_match(a: Seq<SlotView>, b: Seq<SlotView>, st: BufferState)
    requires
        a.len() == b.len(),
        forall|j: int| 0 <= j < a.len() ==> (#[trigger] a[j]).state == b[j].state,
    ensures
        spec_count_state(a, st) == spec_count_state(b, st),
    decreases a.len(),
{
    if a.len() == 0 {
        lemma_count_empty(a, st);
        lemma_count_empty(b, st);
    } else {
        lemma_count_last(a, st);
        lemma_count_last(b, st);
        assert forall|j: int| 0 <= j < a.len() - 1 implies (#[trigger] a.drop_last()[j]).state == b.drop_last()[j].state by {
            assert(a.drop_last()[j] == a[j]);
            assert(b.drop_last()[j] == b[j]);
        }
        lemma_counts_match(a.drop_last(), b.drop_last(), st);
    }
}

/// The five state counts of `slots` add up to its length.
proof fn lemma_counts_sum(slots: Seq<SlotView>)
    ensures
        spec_count_state(slots, BufferState::Free) + spec_count_state(slots, BufferState::Receiving)
            + spec_count_state(slots, BufferState::Ready) + spec_count_state(slots, BufferState::Processing)
            + spec_count_state(slots, BufferState::Done) == slots.len(),
    decreases slots.len(),
{
    if slots.len() == 0 {
        lemma_count_empty(slots, BufferState::Free);
        lemma_count_empty(slots, BufferState::Receiving);
        lemma_count_empty(slots, BufferState::Ready);
        lemma_count_empty(slots, BufferState::Processing);
        lemma_count_empty(slots, BufferState::Done);
    } else {
        lemma_counts_sum(slots.drop_last());
        lemma_count_last(slots, BufferState::Free);
        lemma_count_last(slots, BufferState::Receiving);
        lemma_count_last(slots, BufferState::Ready);
        lemma_count_last(slots, BufferState::Processing);
        lemma_count_last(slots, BufferState::Done);
    }
}

/// Every slot is in one of the five states: the five state counts always add
/// up to the number of slots, and no ring operation, successful or not,
/// changes that number.
pub proof fn law_state_counts_sum(v: GpuRingView, t: u64, idx: usize, data: Seq<u8>)
    ensures
        spec_count_state(v.slots, BufferState::Free) + spec_count_state(v.slots, BufferState::Receiving)
            + spec_count_state(v.slots, BufferState::Ready) + spec_count_state(v.slots, BufferState::Processing)
            + spec_count_state(v.slots, BufferState::Done) == v.slots.len(),
        v.begin_receive(t).0.slots.len() == v.slots.len(),
        v.complete_receive(idx, data).0.slots.len() == v.slots.len(),
        v.begin_process(t).0.slots.len() == v.slots.len(),
        v.complete_process(idx, t).0.slots.len() == v.slots.len(),
        v.release(idx).0.slots.len() == v.slots.len(),
        v.process_packet(data, t).0.slots.len() == v.slots.len(),
{
    lemma_counts_sum(v.slots);
    if let Some(i) = spec_first_in_state(v.slots, BufferState::Free) {
        assert(is_first_in_state(v.slots, BufferState::Free, i));
    }
    if let Some(i) = spec_oldest_ready(v.slots) {
        assert(is_oldest_ready(v.slots, i));
    }
    let (v1, r1) = v.begin_receive(t);
    if let Ok(i1) = r1 {
        let (v2, r2) = v1.complete_receive(i1, data);
        if r2 is Ok {
            let (v3, r3) = v2.begin_process(t);
            if let Some(i) = spec_oldest_ready(v2.slots) {
                assert(is_oldest_ready(v2.slots, i));
            }
            if let Ok((p, d)) = r3 {
                let (v4, r4) = v3.complete_process(p, d);
                if r4 is Ok {
                    assert(v4.release(p).0.slots.len() == v.slots.len());
                }
            }
        }
    }
}

/// A fresh ring of `n` slots has all `n` of them Free.
pub proof fn law_fresh_ring_all_free(n: nat)
    ensures
        spec_count_state(Seq::new(n, |i: int| spec_empty_slot()), BufferState::Free) == n,
{
    let slots = Seq::new(n, |i: int| spec_empty_slot());
    lemma_counts_sum(slots);
    lemma_count_zero(slots, BufferState::Receiving);
    lemma_count_zero(slots, BufferState::Ready);
    lemma_count_zero(slots, BufferState::Processing);
    lemma_count_zero(slots, BufferState::Done);
}

/// A ring driven through `process_packet` alone has no Ready slot waiting.
/// There, a payload that fits either goes round the whole cycle, returning
/// the kernel's latency and leaving every state count as it was, or, when no
/// slot is Free, is refused with `RingFull` and the ring unchanged.
pub proof fn law_process_packet_counts(v: GpuRingView, data: Seq<u8>, arrive_ns: u64)
    requires
        v.slots.len() <= usize::MAX,
        spec_count_state(v.slots, BufferState::Ready) == 0,
        data.len() <= v.slot_bytes,
    ensures
        spec_count_state(v.slots, BufferState::Free) > 0 ==> {
            &&& v.process_packet(data, arrive_ns).1 == Ok::<u64, GpuError>(
                sat_sub(sat_add(arrive_ns, v.kernel_delay_ns), arrive_ns),
            )
            &&& forall|st: BufferState|
                #[trigger] spec_count_state(v.process_packet(data, arrive_ns).0.slots, st) == spec_count_state(
                    v.slots,
                    st,
                )
        },
        spec_count_state(v.slots, BufferState::Free) == 0 ==> v.process_packet(data, arrive_ns) == (
            v,
            Err::<u64, GpuError>(GpuError::RingFull),
        ),
{
    lemma_count_zero(v.slots, BufferState::Ready);
    lemma_count_zero(v.slots, BufferState::Free);
    if let Some(i) = spec_first_in_state(v.slots, BufferState::Ready) {
        assert(is_first_in_state(v.slots, BufferState::Ready, i));
    }
    if spec_count_state(v.slots, BufferState::Free) > 0 {
        let j = choose|j: int| 0 <= j < v.slots.len() && (#[trigger] v.slots[j]).state == BufferState::Free;
        lemma_exists_first(v.slots, BufferState::Free, j);
        law_process_packet_cycle(v, data, arrive_ns);
        let w = v.process_packet(data, arrive_ns).0;
        assert forall|st: BufferState| #[trigger] spec_count_state(w.slots, st) == spec_count_state(v.slots, st) by {
            lemma_counts_match(w.slots, v.slots, st);
        }
    } else {
        if let Some(i) = spec_first_in_state(v.slots, BufferState::Free) {
            assert(is_first_in_state(v.slots, BufferState::Free, i));
        }
    }
}

} // verus!
