//! ConnectX-5 style queue and DMA model (simulation backend).

use vstd::prelude::*;

use crate::types::Packet;

verus! {

/// NIC queue geometry and DMA timing.
#[derive(Debug, Clone, PartialEq)]
pub struct NicDmaConfig {
    pub version: String,
    pub id: String,
    /// PCIe DMA latency in nanoseconds.
    pub dma_latency_ns: u64,
    pub rx_queue_depth: usize,
    pub tx_queue_depth: usize,
    pub completion_queue_depth: usize,
}

impl NicDmaConfig {
    pub fn dma_latency_ns(&self) -> (d: u64)
        ensures
            d == self.dma_latency_ns,
    {
        self.dma_latency_ns
    }
}

/// Packet I/O abstraction — never bind DPDK directly in business code.
pub trait PacketIO {
    /// Whether a burst can complete without overflowing the backend's counters.
    spec fn can_burst(&self) -> bool;

    fn rx_burst(&mut self, max: usize) -> Vec<Packet>
        requires
            old(self).can_burst(),
    ;

    fn tx_burst(&mut self, packets: Vec<Packet>) -> usize;
}

/// Splits off and returns the first `n` items of `v`.
fn take_front(v: &mut Vec<Packet>, n: usize) -> (front: Vec<Packet>)
    requires
        n <= old(v)@.len(),
    ensures
        front@ == old(v)@.subrange(0, n as int),
        final(v)@ == old(v)@.subrange(n as int, old(v)@.len() as int),
{
    let mut rest = v.split_off(n);
    std::mem::swap(v, &mut rest);
    rest
}

fn min_usize(a: usize, b: usize) -> (r: usize)
    ensures
        r == if a <= b { a } else { b },
{
    if a <= b {
        a
    } else {
        b
    }
}

#[derive(Debug)]
pub struct SimPacketIO {
    pub rx: Vec<Packet>,
    pub tx: Vec<Packet>,
}

impl SimPacketIO {
    pub fn new() -> (io: Self)
        ensures
            io.rx@ == Seq::<Packet>::empty(),
            io.tx@ == Seq::<Packet>::empty(),
    {
        SimPacketIO { rx: Vec::new(), tx: Vec::new() }
    }
}

impl Default for SimPacketIO {
    fn default() -> (io: Self)
        ensures
            io.rx@ == Seq::<Packet>::empty(),
            io.tx@ == Seq::<Packet>::empty(),
    {
        SimPacketIO::new()
    }
}

impl PacketIO for SimPacketIO {
    open spec fn can_burst(&self) -> bool {
        true
    }

    fn rx_burst(&mut self, max: usize) -> (out: Vec<Packet>)
        ensures
            ({
                let n = if max <= old(self).rx@.len() { max as int } else { old(self).rx@.len() as int };
                &&& out@ == old(self).rx@.subrange(0, n)
                &&& final(self).rx@ == old(self).rx@.subrange(n, old(self).rx@.len() as int)
                &&& final(self).tx@ == old(self).tx@
            }),
    {
        let n = min_usize(max, self.rx.len());
        take_front(&mut self.rx, n)
    }

    fn tx_burst(&mut self, packets: Vec<Packet>) -> (n: usize)
        ensures
            n == packets@.len(),
            final(self).tx@ == old(self).tx@ + packets@,
            final(self).rx@ == old(self).rx@,
    {
        let mut packets = packets;
        let n = packets.len();
        self.tx.append(&mut packets);
        n
    }
}

#[derive(Debug, Clone)]
struct PendingRx {
    ready_at_ns: u64,
    packet: Packet,
}

/// A packet in the DMA pipeline and the time at which it becomes visible.
pub struct PendingView {
    pub ready_at_ns: u64,
    pub packet: Packet,
}

/// Abstract state of a [`Cx5Nic`].
pub struct Cx5View {
    pub dma_latency_ns: u64,
    pub rx_queue_depth: usize,
    pub tx_queue_depth: usize,
    pub now_ns: u64,
    pub pending: Seq<PendingView>,
    pub rx_ready: Seq<Packet>,
    pub tx: Seq<Packet>,
    pub completions: u64,
}

pub open spec fn is_due(now: u64) -> spec_fn(PendingView) -> bool {
    |p: PendingView| p.ready_at_ns <= now
}

pub open spec fn not_due(now: u64) -> spec_fn(PendingView) -> bool {
    |p: PendingView| p.ready_at_ns > now
}

impl Cx5View {
    /// Moves every pending packet whose DMA has completed by `now_ns` to the
    /// host-visible queue, in submission order, counting each completion.
    pub open spec fn poll(self) -> Cx5View {
        let due = self.pending.filter(is_due(self.now_ns));
        Cx5View {
            pending: self.pending.filter(not_due(self.now_ns)),
            rx_ready: self.rx_ready + due.map_values(|p: PendingView| p.packet),
            completions: (self.completions + due.len()) as u64,
            ..self
        }
    }

    /// Whether a poll cannot overflow the completion counter.
    pub open spec fn can_poll(self) -> bool {
        self.completions + self.pending.len() <= u64::MAX
    }
}

/// ConnectX-5 style NIC: RX → PCIe DMA delay → host-visible completion.
#[derive(Debug)]
pub struct Cx5Nic {
    cfg: NicDmaConfig,
    now_ns: u64,
    pending: Vec<PendingRx>,
    rx_ready: Vec<Packet>,
    tx: Vec<Packet>,
    pub completions: u64,
}

spec fn pending_view(p: PendingRx) -> PendingView {
    PendingView { ready_at_ns: p.ready_at_ns, packet: p.packet }
}

impl View for Cx5Nic {
    type V = Cx5View;

    closed spec fn view(&self) -> Cx5View {
        Cx5View {
            dma_latency_ns: self.cfg.dma_latency_ns,
            rx_queue_depth: self.cfg.rx_queue_depth,
            tx_queue_depth: self.cfg.tx_queue_depth,
            now_ns: self.now_ns,
            pending: self.pending@.map_values(|p: PendingRx| pending_view(p)),
            rx_ready: self.rx_ready@,
            tx: self.tx@,
            completions: self.completions,
        }
    }
}

#[derive(Debug, PartialEq, Eq)]
pub enum Cx5Error {
    Config(String),
    QueueFull,
    BackendUnavailable(String),
}

impl Cx5Nic {
    pub fn new(cfg: NicDmaConfig) -> (nic: Self)
        ensures
            nic@.dma_latency_ns == cfg.dma_latency_ns,
            nic@.rx_queue_depth == cfg.rx_queue_depth,
            nic@.tx_queue_depth == cfg.tx_queue_depth,
            nic@.now_ns == 0,
            nic@.pending == Seq::<PendingView>::empty(),
            nic@.rx_ready == Seq::<Packet>::empty(),
            nic@.tx == Seq::<Packet>::empty(),
            nic@.completions == 0,
    {
        let nic = Cx5Nic {
            cfg,
            now_ns: 0,
            pending: Vec::new(),
            rx_ready: Vec::new(),
            tx: Vec::new(),
            completions: 0,
        };
        proof {
            assert(nic@.pending =~= Seq::<PendingView>::empty());
        }
        nic
    }

    pub fn dma_latency_ns(&self) -> (d: u64)
        ensures
            d == self@.dma_latency_ns,
    {
        self.cfg.dma_latency_ns()
    }

    pub fn advance_time(&mut self, now_ns: u64)
        requires
            old(self)@.can_poll(),
        ensures
            final(self)@ == (Cx5View { now_ns, ..old(self)@ }).poll(),
    {
        self.now_ns = now_ns;
        self.poll_completions();
    }

    pub fn now_ns(&self) -> (t: u64)
        ensures
            t == self@.now_ns,
    {
        self.now_ns
    }

    /// Submit a packet into the RX DMA pipeline; it completes one DMA latency from now.
    pub fn submit_rx(&mut self, packet: Packet) -> (r: Result<(), Cx5Error>)
        requires
            old(self)@.can_poll(),
            old(self)@.completions + old(self)@.pending.len() < u64::MAX,
        ensures
            (final(self)@, r) == old(self)@.submit(
                packet,
                crate::gpu_ring::sat_add(old(self)@.now_ns, old(self)@.dma_latency_ns),
            ),
    {
        let ready_at_ns = self.now_ns.saturating_add(self.cfg.dma_latency_ns());
        self.submit_rx_ready_at(packet, ready_at_ns)
    }

    /// Submit with an explicit completion time (ns).
    pub fn submit_rx_ready_at(&mut self, packet: Packet, ready_at_ns: u64) -> (r: Result<(), Cx5Error>)
        requires
            old(self)@.completions + old(self)@.pending.len() < u64::MAX,
        ensures
            (final(self)@, r) == old(self)@.submit(packet, ready_at_ns),
    {
        let depth = self.cfg.rx_queue_depth;
        if self.pending.len() >= depth || self.rx_ready.len() >= depth - self.pending.len() {
            return Err(Cx5Error::QueueFull);
        }
        self.pending.push(PendingRx { ready_at_ns, packet });
        proof {
            assert(self@.pending =~= old(self)@.pending.push(PendingView { ready_at_ns, packet }));
        }
        self.poll_completions();
        Ok(())
    }

    fn poll_completions(&mut self)
        requires
            old(self)@.can_poll(),
        ensures
            final(self)@ == old(self)@.poll(),
    {
        let now = self.now_ns;
        let ghost v0 = self@;
        let ghost ps = v0.pending;
        let mut pending: Vec<PendingRx> = Vec::new();
        std::mem::swap(&mut pending, &mut self.pending);
        let ghost orig = pending@;
        let n = pending.len();
        let mut still: Vec<PendingRx> = Vec::new();
        let mut i: usize = 0;
        while i < n
            invariant
                0 <= i <= n,
                n == orig.len(),
                pending@ == orig.subrange(i as int, n as int),
                now == v0.now_ns,
                ps == orig.map_values(|p: PendingRx| pending_view(p)),
                ps == v0.pending,
                v0.can_poll(),
                self.completions == v0.completions + ps.take(i as int).filter(is_due(now)).len(),
                self.rx_ready@ == v0.rx_ready + ps.take(i as int).filter(is_due(now)).map_values(
                    |p: PendingView| p.packet,
                ),
                still@.map_values(|p: PendingRx| pending_view(p)) == ps.take(i as int).filter(not_due(now)),
                self.now_ns == v0.now_ns,
                self.cfg.dma_latency_ns == v0.dma_latency_ns,
                self.cfg.rx_queue_depth == v0.rx_queue_depth,
                self.cfg.tx_queue_depth == v0.tx_queue_depth,
                self.tx@ == v0.tx,
                self.pending@.len() == 0,
            decreases n - i,
        {
            let p = pending.remove(0);
            proof {
                let pre = ps.take(i as int);
                assert(ps.take(i + 1) =~= pre.push(ps[i as int]));
                assert(p == orig[i as int]);
                assert(ps[i as int] == pending_view(p));
                pre.lemma_filter_push(ps[i as int], is_due(now));
                pre.lemma_filter_push(ps[i as int], not_due(now));
                pre.lemma_filter_len(is_due(now));
                assert(pre.filter(is_due(now)).len() <= i);
                assert(pending@ =~= orig.subrange(i + 1, n as int));
                assert(ps.len() == n);
            }
            if p.ready_at_ns <= now {
                self.rx_ready.push(p.packet);
                self.completions = self.completions + 1;
                proof {
                    let pre = ps.take(i as int);
                    let f = |q: PendingView| q.packet;
                    assert(pre.filter(is_due(now)).push(ps[i as int]).map_values(f) =~= pre.filter(
                        is_due(now),
                    ).map_values(f).push(ps[i as int].packet));
                }
            } else {
                let ghost before = still@;
                still.push(p);
                proof {
                    assert(still@.map_values(|p: PendingRx| pending_view(p)) =~= before.map_values(
                        |p: PendingRx| pending_view(p),
                    ).push(pending_view(p)));
                }
            }
            i = i + 1;
        }
        proof {
            assert(ps.take(i as int) =~= ps);
        }
        self.pending = still;
        proof {
            assert(self@.pending =~= v0.poll().pending);
            assert(self@.rx_ready =~= v0.poll().rx_ready);
        }
    }

    pub fn pending_count(&self) -> (n: usize)
        ensures
            n == self@.pending.len(),
    {
        self.pending.len()
    }

    pub fn ready_count(&self) -> (n: usize)
        ensures
            n == self@.rx_ready.len(),
    {
        self.rx_ready.len()
    }

    /// DMA completions seen so far.
    pub fn completion_count(&self) -> (n: u64)
        ensures
            n == self@.completions,
    {
        self.completions
    }
}

impl Cx5View {
    /// Submission of `packet` completing at `ready_at_ns`: refused when the RX
    /// queue (pending plus visible) is full, else queued and polled.
    pub open spec fn submit(self, packet: Packet, ready_at_ns: u64) -> (Cx5View, Result<(), Cx5Error>) {
        if self.pending.len() + self.rx_ready.len() >= self.rx_queue_depth {
            (self, Err(Cx5Error::QueueFull))
        } else {
            (
                Cx5View {
                    pending: self.pending.push(PendingView { ready_at_ns, packet }),
                    ..self
                }.poll(),
                Ok(()),
            )
        }
    }
}

impl PacketIO for Cx5Nic {
    open spec fn can_burst(&self) -> bool {
        self@.can_poll()
    }

    fn rx_burst(&mut self, max: usize) -> (out: Vec<Packet>)
        ensures
            ({
                let polled = old(self)@.poll();
                let n = if max <= polled.rx_ready.len() { max as int } else { polled.rx_ready.len() as int };
                &&& out@ == polled.rx_ready.subrange(0, n)
                &&& final(self)@ == (Cx5View {
                    rx_ready: polled.rx_ready.subrange(n, polled.rx_ready.len() as int),
                    ..polled
                })
            }),
    {
        self.poll_completions();
        let n = min_usize(max, self.rx_ready.len());
        take_front(&mut self.rx_ready, n)
    }

    fn tx_burst(&mut self, packets: Vec<Packet>) -> (n: usize)
        ensures
            ({
                let room = if old(self)@.tx.len() >= old(self)@.tx_queue_depth {
                    0
                } else {
                    old(self)@.tx_queue_depth - old(self)@.tx.len()
                };
                let k = if packets@.len() <= room { packets@.len() as int } else { room };
                &&& n == k
                &&& final(self)@ == (Cx5View { tx: old(self)@.tx + packets@.subrange(0, k), ..old(self)@ })
            }),
    {
        let mut packets = packets;
        let n = packets.len();
        let depth = self.cfg.tx_queue_depth;
        if self.tx.len() > depth || n > depth - self.tx.len() {
            let room = depth.saturating_sub(self.tx.len());
            let mut front = take_front(&mut packets, room);
            self.tx.append(&mut front);
            return room;
        }
        proof {
            assert(packets@.subrange(0, n as int) =~= packets@);
        }
        self.tx.append(&mut packets);
        n
    }
}

/// Placeholder for a DPDK `PacketIO` backend: this build links no DPDK.
#[derive(Debug)]
pub struct DpdkPacketIO;

impl DpdkPacketIO {
    pub fn try_open(_config_path: &str) -> (r: Result<Self, Cx5Error>)
        ensures
            r matches Err(Cx5Error::BackendUnavailable(msg)) && msg@
                == "DPDK PacketIO is not compiled in; use SimPacketIO, NetPacketIO, or ShmPacketIO"@,
    {
        Err(Cx5Error::BackendUnavailable(
            "DPDK PacketIO is not compiled in; use SimPacketIO, NetPacketIO, or ShmPacketIO".to_string(),
        ))
    }
}

impl PacketIO for DpdkPacketIO {
    open spec fn can_burst(&self) -> bool {
        true
    }

    fn rx_burst(&mut self, _max: usize) -> (out: Vec<Packet>)
        ensures
            out@ == Seq::<Packet>::empty(),
    {
        Vec::new()
    }

    fn tx_burst(&mut self, _packets: Vec<Packet>) -> (n: usize)
        ensures
            n == 0,
    {
        0
    }
}

/// A packet submitted to an idle DMA pipeline stays invisible until its DMA
/// latency has elapsed, and becomes visible (and counted) once the clock
/// reaches its ready time.
pub proof fn law_dma_delay_then_visible(v: Cx5View, packet: Packet)
    requires
        v.pending.len() == 0,
        v.rx_ready.len() < v.rx_queue_depth,
        v.dma_latency_ns > 0,
        v.now_ns + v.dma_latency_ns <= u64::MAX,
        v.completions < u64::MAX,
    ensures
        ({
            let ready_at = (v.now_ns + v.dma_latency_ns) as u64;
            let (after_submit, r) = v.submit(packet, ready_at);
            &&& r is Ok
            &&& after_submit.rx_ready == v.rx_ready
            &&& after_submit.pending.len() == 1
            &&& (Cx5View { now_ns: ready_at, ..after_submit }).poll().rx_ready == v.rx_ready.push(packet)
            &&& (Cx5View { now_ns: ready_at, ..after_submit }).poll().pending.len() == 0
            &&& (Cx5View { now_ns: ready_at, ..after_submit }).poll().completions == v.completions + 1
        }),
{
    let ready_at = (v.now_ns + v.dma_latency_ns) as u64;
    let pv = PendingView { ready_at_ns: ready_at, packet };
    let one = v.pending.push(pv);
    assert(one =~= seq![pv]);
    reveal_with_fuel(Seq::filter, 2);
    assert(seq![pv].drop_last() =~= Seq::<PendingView>::empty());
    assert(seq![pv].filter(is_due(v.now_ns)) =~= Seq::<PendingView>::empty());
    assert(seq![pv].filter(not_due(v.now_ns)) =~= seq![pv]);
    assert(seq![pv].filter(is_due(ready_at)) =~= seq![pv]);
    assert(seq![pv].filter(not_due(ready_at)) =~= Seq::<PendingView>::empty());
    assert(Seq::<PendingView>::empty().map_values(|p: PendingView| p.packet) =~= Seq::<Packet>::empty());
    assert(seq![pv].map_values(|p: PendingView| p.packet) =~= seq![packet]);
    assert(v.rx_ready + Seq::<Packet>::empty() =~= v.rx_ready);
    assert(v.rx_ready + seq![packet] =~= v.rx_ready.push(packet));
}

} // verus!
