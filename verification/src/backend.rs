//! Trusted boundary to the kernel counter primitive (the `perfcnt` crate).
//!
//! Everything here is believed, not proved: each item's doc comment names
//! the outside function it relies on.  Creation and every lifecycle step
//! can fail on real hardware, so none of these contracts promises success;
//! the verified callers state what holds whatever comes back.

use vstd::prelude::*;

use perfcnt::linux::CacheId;
use perfcnt::linux::CacheOpId;
use perfcnt::linux::CacheOpResultId;
use perfcnt::linux::HardwareEventType;
use perfcnt::linux::PerfCounterBuilderLinux;
use perfcnt::linux::SoftwareEventType;
use perfcnt::AbstractPerfCounter;

use crate::events::CacheOp;
use crate::events::CacheOutcome;
use crate::events::CacheUnit;
use crate::events::HardwareEvent;
use crate::events::SoftwareEvent;

verus! {

/// `perfcnt::PerfCounter`: one OS-level counting resource.  Opaque to the
/// verifier; the group keeps it beside the verified name it was created
/// for, and dropping it returns the resource whatever state it was in.
#[verifier::external_type_specification]
#[verifier::external_body]
pub struct ExPerfCounter(perfcnt::PerfCounter);

/// Relies on `perfcnt::linux::PerfCounterBuilderLinux::from_hardware_event`
/// and the builder methods `for_pid`, `inherit`, `on_all_cpus`,
/// `exclude_kernel`, `exclude_idle`, `finish`: allocates one counter for
/// the hardware event of the same variant name, scoped to `pid`, observing
/// all CPUs, inherited by children, with kernel and idle activity
/// excluded.  `finish` reports events this machine does not support as an
/// error, which comes back as `None`.
#[verifier::external_body]
pub(crate) fn create_hardware_counter(e: &HardwareEvent, pid: i32) -> Option<
    perfcnt::PerfCounter,
> {
    let ev = match e {
        HardwareEvent::CPUCycles => HardwareEventType::CPUCycles,
        HardwareEvent::Instructions => HardwareEventType::Instructions,
        HardwareEvent::CacheReferences => HardwareEventType::CacheReferences,
        HardwareEvent::CacheMisses => HardwareEventType::CacheMisses,
        HardwareEvent::BranchInstructions => HardwareEventType::BranchInstructions,
        HardwareEvent::BranchMisses => HardwareEventType::BranchMisses,
        HardwareEvent::BusCycles => HardwareEventType::BusCycles,
        HardwareEvent::StalledCyclesFrontend => HardwareEventType::StalledCyclesFrontend,
        HardwareEvent::StalledCyclesBackend => HardwareEventType::StalledCyclesBackend,
        HardwareEvent::RefCPUCycles => HardwareEventType::RefCPUCycles,
    };
    let mut b = PerfCounterBuilderLinux::from_hardware_event(ev);
    b.for_pid(pid).inherit().on_all_cpus().exclude_kernel().exclude_idle().finish().ok()
}

/// Relies on `perfcnt::linux::PerfCounterBuilderLinux::from_software_event`
/// and the same builder methods as the hardware creator: allocates one
/// counter for the software event of the same variant name, or `None`
/// where the kernel refuses it.
#[verifier::external_body]
pub(crate) fn create_software_counter(e: &SoftwareEvent, pid: i32) -> Option<
    perfcnt::PerfCounter,
> {
    let ev = match e {
        SoftwareEvent::CpuClock => SoftwareEventType::CpuClock,
        SoftwareEvent::TaskClock => SoftwareEventType::TaskClock,
        SoftwareEvent::PageFaults => SoftwareEventType::PageFaults,
        SoftwareEvent::ContextSwitches => SoftwareEventType::ContextSwitches,
        SoftwareEvent::CpuMigrations => SoftwareEventType::CpuMigrations,
        SoftwareEvent::PageFaultsMin => SoftwareEventType::PageFaultsMin,
        SoftwareEvent::PageFaultsMaj => SoftwareEventType::PageFaultsMaj,
        SoftwareEvent::AlignmentFaults => SoftwareEventType::AlignmentFaults,
        SoftwareEvent::EmulationFaults => SoftwareEventType::EmulationFaults,
    };
    let mut b = PerfCounterBuilderLinux::from_software_event(ev);
    b.for_pid(pid).inherit().on_all_cpus().exclude_kernel().exclude_idle().finish().ok()
}

/// Relies on `perfcnt::linux::PerfCounterBuilderLinux::from_cache_event`
/// and the same builder methods: allocates one counter for the cache
/// event whose unit, operation and outcome carry the same variant names,
/// or `None` where this cache/operation/outcome triple is unsupported.
#[verifier::external_body]
pub(crate) fn create_cache_counter(
    unit: &CacheUnit,
    op: &CacheOp,
    outcome: &CacheOutcome,
    pid: i32,
) -> Option<perfcnt::PerfCounter> {
    let u = match unit {
        CacheUnit::L1D => CacheId::L1D, CacheUnit::L1I => CacheId::L1I, CacheUnit::LL => CacheId::LL,
        CacheUnit::DTLB => CacheId::DTLB, CacheUnit::ITLB => CacheId::ITLB,
        CacheUnit::BPU => CacheId::BPU, CacheUnit::NODE => CacheId::NODE,
    };
    let o = match op {
        CacheOp::Read => CacheOpId::Read, CacheOp::Write => CacheOpId::Write,
        CacheOp::Prefetch => CacheOpId::Prefetch,
    };
    let r = match outcome {
        CacheOutcome::Access => CacheOpResultId::Access, CacheOutcome::Miss => CacheOpResultId::Miss,
    };
    let mut b = PerfCounterBuilderLinux::from_cache_event(u, o, r);
    b.for_pid(pid).inherit().on_all_cpus().exclude_kernel().exclude_idle().finish().ok()
}

/// Relies on `perfcnt::AbstractPerfCounter::reset` (PERF_EVENT_IOC_RESET):
/// re-arms the counter at zero; the kernel may refuse.
#[verifier::external_body]
pub(crate) fn counter_reset(pc: &perfcnt::PerfCounter) -> bool {
    pc.reset().is_ok()
}

/// Relies on `perfcnt::AbstractPerfCounter::start` (PERF_EVENT_IOC_ENABLE):
/// starts counting; the kernel may refuse.
#[verifier::external_body]
pub(crate) fn counter_start(pc: &perfcnt::PerfCounter) -> bool {
    pc.start().is_ok()
}

/// Relies on `perfcnt::AbstractPerfCounter::stop` (PERF_EVENT_IOC_DISABLE):
/// halts counting; the kernel may refuse.
#[verifier::external_body]
pub(crate) fn counter_stop(pc: &perfcnt::PerfCounter) -> bool {
    pc.stop().is_ok()
}

/// Relies on `perfcnt::AbstractPerfCounter::read`: reads the counter's
/// current value over its file descriptor; an I/O failure comes back as
/// `None`.
#[verifier::external_body]
pub(crate) fn counter_read(pc: &mut perfcnt::PerfCounter) -> Option<u64> {
    pc.read().ok()
}

} // verus!
