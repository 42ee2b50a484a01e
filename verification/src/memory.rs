//! Host and GPU memory backends (simulation).

use vstd::prelude::*;

verus! {

pub type BufferId = u64;

#[derive(Debug, Clone, Copy, PartialEq, Eq, Structural)]
pub enum MemoryKind {
    Host,
    Gpu,
}

#[derive(Debug, Clone, Copy, PartialEq, Eq, Structural)]
pub enum MemoryError {
    NotFound(BufferId),
    OutOfBounds,
}

pub trait MemoryBackend {
    /// Whether another buffer can be allocated without exhausting the id space.
    spec fn can_allocate(&self) -> bool;

    fn allocate(&mut self, size: usize, kind: MemoryKind) -> Result<BufferId, MemoryError>
        requires
            old(self).can_allocate(),
    ;

    fn write(&mut self, id: BufferId, offset: usize, data: &[u8]) -> Result<(), MemoryError>;

    fn read(&mut self, id: BufferId, offset: usize, len: usize) -> Result<Vec<u8>, MemoryError>;

    fn free(&mut self, id: BufferId) -> Result<(), MemoryError>;
}

#[derive(Debug)]
struct Buffer {
    kind: MemoryKind,
    data: Vec<u8>,
}

/// Abstract value of a live buffer.
pub struct BufferView {
    pub kind: MemoryKind,
    pub data: Seq<u8>,
}

/// Abstract state of a [`SimMemory`]: one entry per id ever allocated,
/// `None` once freed.
pub struct SimMemoryView {
    pub buffers: Seq<Option<BufferView>>,
}

impl SimMemoryView {
    /// The live buffer with id `id`, if any.
    pub open spec fn live(self, id: BufferId) -> Option<BufferView> {
        if id < self.buffers.len() {
            self.buffers[id as int]
        } else {
            None
        }
    }

    pub open spec fn allocate(self, size: usize, kind: MemoryKind) -> (SimMemoryView, BufferId) {
        (
            SimMemoryView {
                buffers: self.buffers.push(
                    Some(BufferView { kind, data: Seq::new(size as nat, |i: int| 0u8) }),
                ),
            },
            self.buffers.len() as BufferId,
        )
    }

    pub open spec fn write(self, id: BufferId, offset: usize, data: Seq<u8>) -> (SimMemoryView, Result<(), MemoryError>) {
        match self.live(id) {
            None => (self, Err(MemoryError::NotFound(id))),
            Some(b) => if offset + data.len() > b.data.len() {
                (self, Err(MemoryError::OutOfBounds))
            } else {
                (
                    SimMemoryView {
                        buffers: self.buffers.update(
                            id as int,
                            Some(
                                BufferView {
                                    kind: b.kind,
                                    data: b.data.subrange(0, offset as int) + data + b.data.subrange(
                                        offset + data.len(),
                                        b.data.len() as int,
                                    ),
                                },
                            ),
                        ),
                    },
                    Ok(()),
                )
            },
        }
    }

    pub open spec fn read(self, id: BufferId, offset: usize, len: usize) -> Result<Seq<u8>, MemoryError> {
        match self.live(id) {
            None => Err(MemoryError::NotFound(id)),
            Some(b) => if offset + len > b.data.len() {
                Err(MemoryError::OutOfBounds)
            } else {
                Ok(b.data.subrange(offset as int, offset + len))
            },
        }
    }

    pub open spec fn free(self, id: BufferId) -> (SimMemoryView, Result<(), MemoryError>) {
        match self.live(id) {
            None => (self, Err(MemoryError::NotFound(id))),
            Some(_) => (SimMemoryView { buffers: self.buffers.update(id as int, None) }, Ok(())),
        }
    }
}

/// In-process simulation memory (host + GPU as separate address spaces).
#[derive(Debug)]
pub struct SimMemory {
    /// One entry per id ever allocated; the id of a buffer is its index.
    buffers: Vec<Option<Buffer>>,
}

spec fn buffer_view(b: Option<Buffer>) -> Option<BufferView> {
    match b {
        None => None,
        Some(b) => Some(BufferView { kind: b.kind, data: b.data@ }),
    }
}

impl View for SimMemory {
    type V = SimMemoryView;

    closed spec fn view(&self) -> SimMemoryView {
        SimMemoryView { buffers: self.buffers@.map_values(|b: Option<Buffer>| buffer_view(b)) }
    }
}

impl SimMemory {
    pub fn new() -> (m: Self)
        ensures
            m@.buffers == Seq::<Option<BufferView>>::empty(),
    {
        let m = SimMemory { buffers: Vec::new() };
        proof {
            assert(m@.buffers =~= Seq::<Option<BufferView>>::empty());
        }
        m
    }

    fn lookup(&self, id: BufferId) -> (r: Option<usize>)
        ensures
            match r {
                Some(i) => i == id && self@.live(id) is Some && i < self.buffers@.len()
                    && self.buffers@[i as int] is Some,
                None => self@.live(id) is None,
            },
    {
        if id >= self.buffers.len() as u64 {
            return None;
        }
        let i = id as usize;
        match &self.buffers[i] {
            Some(_) => Some(i),
            None => None,
        }
    }

    pub fn kind_of(&self, id: BufferId) -> (r: Result<MemoryKind, MemoryError>)
        ensures
            r == match self@.live(id) {
                Some(b) => Ok::<MemoryKind, MemoryError>(b.kind),
                None => Err(MemoryError::NotFound(id)),
            },
    {
        match self.lookup(id) {
            None => Err(MemoryError::NotFound(id)),
            Some(i) => match &self.buffers[i] {
                Some(b) => Ok(b.kind),
                None => Err(MemoryError::NotFound(id)),
            },
        }
    }
}

impl MemoryBackend for SimMemory {
    open spec fn can_allocate(&self) -> bool {
        self@.buffers.len() < u64::MAX
    }

    fn allocate(&mut self, size: usize, kind: MemoryKind) -> (r: Result<BufferId, MemoryError>)
        ensures
            r == Ok::<BufferId, MemoryError>(old(self)@.allocate(size, kind).1),
            final(self)@ == old(self)@.allocate(size, kind).0,
    {
        let id = self.buffers.len() as u64;
        let data: Vec<u8> = vec![0u8; size];
        proof {
            assert(data@ =~= Seq::new(size as nat, |i: int| 0u8));
        }
        self.buffers.push(Some(Buffer { kind, data }));
        proof {
            assert(self@.buffers =~= old(self)@.allocate(size, kind).0.buffers);
        }
        Ok(id)
    }

    #[verifier::loop_isolation(false)]
    fn write(&mut self, id: BufferId, offset: usize, data: &[u8]) -> (r: Result<(), MemoryError>)
        ensures
            (final(self)@, r) == old(self)@.write(id, offset, data@),
    {
        let i = match self.lookup(id) {
            None => return Err(MemoryError::NotFound(id)),
            Some(i) => i,
        };
        let cur_len = match &self.buffers[i] {
            Some(b) => b.data.len(),
            None => 0,
        };
        proof {
            assert(old(self)@.buffers[i as int] == buffer_view(old(self).buffers@[i as int]));
        }
        let end = match offset.checked_add(data.len()) {
            None => return Err(MemoryError::OutOfBounds),
            Some(e) => e,
        };
        let mut slot: Option<Buffer> = None;
        std::mem::swap(&mut slot, &mut self.buffers[i]);
        let mut buf = match slot {
            Some(b) => b,
            None => {
                proof {
                    assert(false);
                }
                return Err(MemoryError::NotFound(id));
            },
        };
        if end > buf.data.len() {
            self.buffers.set(i, Some(buf));
            proof {
                assert(self@.buffers =~= old(self)@.buffers);
            }
            return Err(MemoryError::OutOfBounds);
        }
        let ghost before = buf.data@;
        let mut k: usize = 0;
        while k < data.len()
            invariant
                end == offset + data@.len(),
                end <= buf.data@.len(),
                buf.kind == old(self).buffers@[i as int].unwrap().kind,
                buf.data@.len() == before.len(),
                0 <= k <= data@.len(),
                forall|j: int| 0 <= j < offset ==> buf.data@[j] == before[j],
                forall|j: int| end <= j < before.len() ==> buf.data@[j] == before[j],
                forall|j: int| offset <= j < offset + k ==> buf.data@[j] == data@[j - offset],
            decreases data@.len() - k,
        {
            buf.data.set(offset + k, data[k]);
            k = k + 1;
        }
        proof {
            assert(buf.data@ =~= before.subrange(0, offset as int) + data@ + before.subrange(
                end as int,
                before.len() as int,
            ));
        }
        self.buffers.set(i, Some(buf));
        proof {
            assert(self@.buffers =~= old(self)@.write(id, offset, data@).0.buffers);
        }
        Ok(())
    }

    fn read(&mut self, id: BufferId, offset: usize, len: usize) -> (r: Result<Vec<u8>, MemoryError>)
        ensures
            final(self)@ == old(self)@,
            match r {
                Ok(v) => old(self)@.read(id, offset, len) == Ok::<Seq<u8>, MemoryError>(v@),
                Err(e) => old(self)@.read(id, offset, len) == Err::<Seq<u8>, MemoryError>(e),
            },
    {
        let i = match self.lookup(id) {
            None => return Err(MemoryError::NotFound(id)),
            Some(i) => i,
        };
        let buf = match &self.buffers[i] {
            Some(b) => b,
            None => return Err(MemoryError::NotFound(id)),
        };
        let cur_len = buf.data.len();
        proof {
            assert(old(self)@.buffers[i as int] == buffer_view(old(self).buffers@[i as int]));
        }
        let end = match offset.checked_add(len) {
            None => return Err(MemoryError::OutOfBounds),
            Some(e) => e,
        };
        if end > buf.data.len() {
            return Err(MemoryError::OutOfBounds);
        }
        let mut out: Vec<u8> = Vec::with_capacity(len);
        let mut k: usize = offset;
        while k < end
            invariant
                offset <= k <= end,
                end <= buf.data@.len(),
                out@ == buf.data@.subrange(offset as int, k as int),
            decreases end - k,
        {
            out.push(buf.data[k]);
            k = k + 1;
            assert(out@ =~= buf.data@.subrange(offset as int, k as int));
        }
        Ok(out)
    }

    fn free(&mut self, id: BufferId) -> (r: Result<(), MemoryError>)
        ensures
            (final(self)@, r) == old(self)@.free(id),
    {
        let i = match self.lookup(id) {
            None => return Err(MemoryError::NotFound(id)),
            Some(i) => i,
        };
        self.buffers.set(i, None);
        proof {
            assert(self@.buffers =~= old(self)@.free(id).0.buffers);
        }
        Ok(())
    }
}

/// Reading back the range just written gives the written bytes.
pub proof fn law_read_after_write(m: SimMemoryView, id: BufferId, offset: usize, data: Seq<u8>)
    requires
        m.write(id, offset, data).1 is Ok,
        data.len() <= usize::MAX,
    ensures
        m.write(id, offset, data).0.read(id, offset, data.len() as usize) == Ok::<Seq<u8>, MemoryError>(
            data,
        ),
{
    let b = m.live(id).unwrap();
    let nd = b.data.subrange(0, offset as int) + data + b.data.subrange(offset + data.len(), b.data.len() as int);
    assert(nd.subrange(offset as int, offset + data.len()) =~= data);
}

/// A write to one buffer leaves every other buffer as it was.
pub proof fn law_write_isolated(m: SimMemoryView, id: BufferId, other: BufferId, offset: usize, data: Seq<u8>)
    requires
        id != other,
    ensures
        m.write(id, offset, data).0.live(other) == m.live(other),
{
}

/// A freed buffer is gone: it can be neither read nor freed again.
pub proof fn law_free_then_gone(m: SimMemoryView, id: BufferId, offset: usize, len: usize)
    requires
        m.free(id).1 is Ok,
    ensures
        m.free(id).0.read(id, offset, len) == Err::<Seq<u8>, MemoryError>(MemoryError::NotFound(id)),
        m.free(id).0.free(id).1 == Err::<(), MemoryError>(MemoryError::NotFound(id)),
{
}

/// A newly allocated buffer is live, of the requested kind, and reads as zeros.
pub proof fn law_allocate_zeroed(m: SimMemoryView, size: usize, kind: MemoryKind, offset: usize, len: usize)
    requires
        m.buffers.len() < u64::MAX,
        offset + len <= size,
    ensures
        m.allocate(size, kind).0.live(m.allocate(size, kind).1) == Some(
            BufferView { kind, data: Seq::new(size as nat, |i: int| 0u8) },
        ),
        m.allocate(size, kind).0.read(m.allocate(size, kind).1, offset, len) == Ok::<Seq<u8>, MemoryError>(
            Seq::new(len as nat, |i: int| 0u8),
        ),
{
    let (m2, id) = m.allocate(size, kind);
    assert(Seq::new(size as nat, |i: int| 0u8).subrange(offset as int, offset + len) =~= Seq::new(
        len as nat,
        |i: int| 0u8,
    ));
}

} // verus!
