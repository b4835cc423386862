//! The Hyper-V driver's data: VM handles, states and creation specs, the
//! GUID text format the hvsocket transport addresses VMs and services by,
//! and the bookkeeping of the in-memory driver used without Hyper-V.

pub mod guid;
pub mod mock;


use vstd::prelude::*;
use crate::proto::config::ResourceCaps;
use crate::proto::id::{CaseId, VmId};

pub use guid::{parse_guid, GuidError};
pub use mock::MockHyperVDriver;


verus! {

/// A handle to a running case VM.
#[derive(Debug, Clone)]
pub struct VmHandle {
    pub vm_id: VmId,
    pub case_id: CaseId,
}

/// The power state of a VM.
#[derive(Debug, Clone, Copy, PartialEq, Eq, Structural)]
pub enum VmState {
    Off,
    Booting,
    Running,
    Held,
}

/// What a case VM is created from.
#[derive(Debug, Clone)]
pub struct VmSpec {
    pub case_id: CaseId,
    pub base_vhd_path: String,
    pub caps: ResourceCaps,
    pub vswitch: String,
}

} // verus!
