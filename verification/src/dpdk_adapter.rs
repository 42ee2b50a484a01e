//! Boundary for a DPDK/DOCA hardware adapter.
//!
//! This build links neither `libdpdk` nor DOCA: opening hardware always fails
//! closed with [`AdapterError::Unavailable`], and the datapath keeps using the
//! simulated [`PacketIO`](crate::nic::PacketIO) backends.

use vstd::prelude::*;

verus! {

#[derive(Debug, PartialEq, Eq)]
pub enum AdapterError {
    Unavailable(String),
    Config(String),
}

/// Adapter contract data describing the hardware boundary.
#[derive(Debug, Clone, PartialEq)]
pub struct AdapterContract {
    pub schema_version: String,
    pub id: String,
    pub status: String,
    pub default_backend: String,
    pub hardware_enabled: bool,
    pub adapter_crate: String,
}

/// Probe result for a hardware backend.
#[derive(Debug, Clone, PartialEq, Eq)]
pub enum HardwareProbe {
    Unavailable { reason: String },
}

/// Why hardware is unavailable in this build.
pub open spec fn spec_unavailable_reason() -> Seq<char> {
    "dpdk-adapter spike build has no libdpdk/DOCA linkage; use backend=mock"@
}

/// Always-unavailable hardware probe.
pub fn probe_hardware() -> (p: HardwareProbe)
    ensures
        p matches HardwareProbe::Unavailable { reason } && reason@ == spec_unavailable_reason(),
{
    HardwareProbe::Unavailable {
        reason: crate::text::owned("dpdk-adapter spike build has no libdpdk/DOCA linkage; use backend=mock"),
    }
}

/// Attempt to open a hardware datapath — always fails closed.
pub fn open_hardware(_pci_address: &str) -> (r: Result<(), AdapterError>)
    ensures
        r matches Err(AdapterError::Unavailable(reason)) && reason@ == spec_unavailable_reason(),
{
    match probe_hardware() {
        HardwareProbe::Unavailable { reason } => Err(AdapterError::Unavailable(reason)),
    }
}

} // verus!
