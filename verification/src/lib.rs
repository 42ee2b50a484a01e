//! Aether Radio data-plane simulation: wire protocol, transport checks,
//! radio timing, NIC/GPU/memory models and the observability plane.

pub mod acceptance;
pub mod bench;
pub mod datapath;
pub mod dpdk_adapter;
pub mod fault;
pub mod fault_drill;
pub mod fpga;
pub mod gpu;
pub mod gpu_ring;
pub mod health;
pub mod host_recv;
pub mod link_rx;
pub mod memory;
pub mod metrics;
pub mod nic;
pub mod ops_config;
pub mod prometheus;
pub mod protocol;
pub mod recovery;
pub mod smoke;
pub mod soak;
pub mod text;
pub mod trace;
pub mod transport;
pub mod transport_check;
pub mod transport_sim;
pub mod types;

pub use acceptance::{AcceptanceError, AcceptanceProfile, AcceptanceReport, AcceptanceRunner, GateResult};
pub use bench::{
    BenchProfile, BenchReport, LatencyStats, PipelineBench, PipelineBenchError, RadioDeadlineStats,
    ThroughputStats,
};
pub use datapath::{BenchRun, DatapathError};
pub use dpdk_adapter::{open_hardware, probe_hardware, AdapterContract, AdapterError, HardwareProbe};
pub use fault::{FaultError, FaultInjectionConfig, FaultInjector};
pub use fpga::{
    FpgaEmulator, FpgaError, IQSource, IqSampleBits, RadioTimingConfig, SequenceGenerator,
    SimplePacketizer, SimpleSlotScheduler, SlotScheduler, TimestampGenerator,
};
pub use fault_drill::{FaultDrillError, FaultDrillProfile, FaultDrillReport, FaultDrillRunner};
pub use gpu::{BufferState, GpuBackend, GpuBackendKind, GpuBufferId, GpuError, SimGpu};
pub use gpu_ring::{GpuRingBuffer, GpuRingConfig, RingSlot};
pub use health::{HealthError, HealthManager, HealthState, HealthThresholds, LossSignal};
pub use host_recv::{Delivered, HostRecv};
pub use link_rx::{LinkKind, RxQueue, ShmLayoutError};
pub use memory::{BufferId, MemoryBackend, MemoryError, MemoryKind, SimMemory};
pub use metrics::{
    ComputeLayerMetrics, LayeredMetricsSnapshot, LinkMetrics, MemoryLayerMetrics, MetricsBackend,
    MetricsEngine, MetricsSnapshot, PhysicalMetrics, RadioLayerMetrics, RadioMetrics,
    TransportLayerMetrics, TransportMetrics,
};
pub use nic::{Cx5Error, Cx5Nic, DpdkPacketIO, NicDmaConfig, PacketIO, SimPacketIO};
pub use ops_config::{
    HealthRefConfig, LoggingConfig, MetricsExportConfig, ObservabilityConfig, OpsConfigError,
    PrometheusScrapeRefConfig, RecoveryRefConfig, TraceConfig,
};
pub use prometheus::{render_prometheus_text, sanitize_label};
pub use protocol::{decode_frame, encode_frame, AetherHeader, ProtocolError};
pub use recovery::{RecoveryAction, RecoveryError, RecoveryExecutor, RecoveryPolicy};
pub use transport::{
    LinkManager, LinkState, MockTransportEngine, StreamConfig, StreamManager, StreamState,
    StreamStatus, TransportEngine, TransportError,
};
pub use transport_check::{SequenceChecker, TimestampChecker, TransportDeadlineConfig};
pub use transport_sim::{SimTransportEngine, StreamRuntime};
pub use smoke::{run_smoke_packet, SmokeDelivery, SmokeError, SmokeOutcome};
pub use soak::{SoakError, SoakGate, SoakProfile, SoakReport, SoakRoundHealth, SoakRunner};
pub use trace::{PacketTrace, StageStamp, TraceEngine, TraceStage};
pub use types::{
    AntennaId, CarrierId, Packet, PacketView, RadioTimestamp, Sequence, Sfn, Slot, StreamId, Symbol,
    Timestamp,
};
