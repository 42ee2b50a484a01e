//! GPU backend abstraction and ring-buffer slot states.
//! Kernel latency is simulated; no CUDA binding here.

use std::time::Duration;
use vstd::prelude::*;

use crate::text::{lower_eq, lower_equals, spec_trim, trim};

verus! {

pub type GpuBufferId = u64;

#[derive(Debug, Clone, Copy, PartialEq, Eq, Structural)]
pub enum BufferState {
    Free,
    Receiving,
    Ready,
    Processing,
    Done,
}

#[derive(Debug, PartialEq, Eq)]
pub enum GpuError {
    NotFound(GpuBufferId),
    RingFull,
    InvalidTransition { from: BufferState, to: BufferState },
    NoSlot(BufferState),
    Config(String),
    PayloadTooLarge,
}

pub trait GpuBackend {
    /// Whether another buffer can be allocated without exhausting the id space.
    spec fn can_allocate(&self) -> bool;

    fn allocate_buffer(&mut self, size: usize) -> Result<GpuBufferId, GpuError>
        requires
            old(self).can_allocate(),
    ;

    fn launch_kernel(&mut self, buffer: GpuBufferId, delay: Duration) -> Result<(), GpuError>;

    fn sync(&mut self) -> Result<(), GpuError>;
}

/// CPU-side GPU emulator: records kernel launches and the requested delay.
///
/// When `real_sleep` is set, the host that drives the emulator is expected to
/// wait for `last_delay` after each launch.
#[derive(Debug)]
pub struct SimGpu {
    next_id: GpuBufferId,
    buffers: Vec<usize>,
    pub last_delay: Option<Duration>,
    pub real_sleep: bool,
}

/// Abstract state of a [`SimGpu`].
pub struct SimGpuView {
    pub next_id: u64,
    /// Size of each allocated buffer, indexed by buffer id.
    pub buffers: Seq<usize>,
    pub last_delay: Option<Duration>,
    pub real_sleep: bool,
}

impl View for SimGpu {
    type V = SimGpuView;

    closed spec fn view(&self) -> SimGpuView {
        SimGpuView {
            next_id: self.next_id,
            buffers: self.buffers@,
            last_delay: self.last_delay,
            real_sleep: self.real_sleep,
        }
    }
}

impl SimGpu {
    pub fn new() -> (g: Self)
        ensures
            g@.next_id == 0,
            g@.buffers == Seq::<usize>::empty(),
            g@.last_delay is None,
            !g@.real_sleep,
    {
        SimGpu { next_id: 0, buffers: Vec::new(), last_delay: None, real_sleep: false }
    }
}

impl GpuBackend for SimGpu {
    open spec fn can_allocate(&self) -> bool {
        self@.next_id < u64::MAX
    }

    fn allocate_buffer(&mut self, size: usize) -> (r: Result<GpuBufferId, GpuError>)
        ensures
            r == Ok::<GpuBufferId, GpuError>(old(self)@.next_id),
            final(self)@ == (SimGpuView {
                next_id: (old(self)@.next_id + 1) as u64,
                buffers: old(self)@.buffers.push(size),
                ..old(self)@
            }),
    {
        let id = self.next_id;
        self.next_id = self.next_id + 1;
        self.buffers.push(size);
        Ok(id)
    }

    fn launch_kernel(&mut self, buffer: GpuBufferId, delay: Duration) -> (r: Result<(), GpuError>)
        ensures
            buffer < old(self)@.buffers.len() ==> r is Ok && final(self)@ == (SimGpuView {
                last_delay: Some(delay),
                ..old(self)@
            }),
            buffer >= old(self)@.buffers.len() ==> r == Err::<(), GpuError>(GpuError::NotFound(buffer))
                && final(self)@ == old(self)@,
    {
        if buffer >= self.buffers.len() as u64 {
            return Err(GpuError::NotFound(buffer));
        }
        self.last_delay = Some(delay);
        Ok(())
    }

    fn sync(&mut self) -> (r: Result<(), GpuError>)
        ensures
            r is Ok,
            final(self)@ == old(self)@,
    {
        Ok(())
    }
}

/// Backend kind selected from configuration / command line.
#[derive(Debug, Clone, Copy, PartialEq, Eq, Structural)]
pub enum GpuBackendKind {
    Simulation,
    Cuda,
}

/// The backend a keyword names, matched on the trimmed, ASCII-lowercased text.
pub open spec fn spec_backend_kind(s: Seq<char>) -> Option<GpuBackendKind> {
    let t = spec_trim(s);
    if lower_equals(t, "simulation"@) || lower_equals(t, "sim"@) {
        Some(GpuBackendKind::Simulation)
    } else if lower_equals(t, "cuda"@) || lower_equals(t, "gpu"@) || lower_equals(t, "realtime"@) {
        Some(GpuBackendKind::Cuda)
    } else {
        None
    }
}

impl GpuBackendKind {
    pub fn parse(s: &str) -> (r: Option<Self>)
        ensures
            r == spec_backend_kind(s@),
    {
        let t = trim(s);
        if lower_eq(t, "simulation") || lower_eq(t, "sim") {
            Some(GpuBackendKind::Simulation)
        } else if lower_eq(t, "cuda") || lower_eq(t, "gpu") || lower_eq(t, "realtime") {
            Some(GpuBackendKind::Cuda)
        } else {
            None
        }
    }
}

} // verus!
