use perf_bench::event_name;
use perf_bench::events::cache_event_matrix;
use perf_bench::CacheOp;
use perf_bench::CacheOutcome;
use perf_bench::CacheUnit;
use perf_bench::EventDesc;
use perf_bench::HardwareEvent;
use perf_bench::SoftwareEvent;

#[test]
fn cache_matrix_two_units_has_twelve_descriptors() {
    let units = vec![CacheUnit::L1D, CacheUnit::LL];
    let descs = cache_event_matrix(&units);
    assert_eq!(descs.len(), 12);
    let expected = vec![
        "L1D_Read_Access",
        "L1D_Read_Miss",
        "L1D_Write_Access",
        "L1D_Write_Miss",
        "L1D_Prefetch_Access",
        "L1D_Prefetch_Miss",
        "LL_Read_Access",
        "LL_Read_Miss",
        "LL_Write_Access",
        "LL_Write_Miss",
        "LL_Prefetch_Access",
        "LL_Prefetch_Miss",
    ];
    for (d, want) in descs.iter().zip(expected.iter()) {
        assert_eq!(event_name(d), *want);
    }
}

#[test]
fn cache_matrix_order_is_unit_then_op_then_outcome() {
    let units = vec![CacheUnit::DTLB];
    let descs = cache_event_matrix(&units);
    assert_eq!(descs.len(), 6);
    assert!(matches!(
        descs[0],
        EventDesc::Cache(CacheUnit::DTLB, CacheOp::Read, CacheOutcome::Access)
    ));
    assert!(matches!(
        descs[1],
        EventDesc::Cache(CacheUnit::DTLB, CacheOp::Read, CacheOutcome::Miss)
    ));
    assert!(matches!(
        descs[2],
        EventDesc::Cache(CacheUnit::DTLB, CacheOp::Write, CacheOutcome::Access)
    ));
    assert!(matches!(
        descs[3],
        EventDesc::Cache(CacheUnit::DTLB, CacheOp::Write, CacheOutcome::Miss)
    ));
    assert!(matches!(
        descs[4],
        EventDesc::Cache(CacheUnit::DTLB, CacheOp::Prefetch, CacheOutcome::Access)
    ));
    assert!(matches!(
        descs[5],
        EventDesc::Cache(CacheUnit::DTLB, CacheOp::Prefetch, CacheOutcome::Miss)
    ));
}

#[test]
fn event_names_reflect_their_descriptor() {
    assert_eq!(
        event_name(&EventDesc::Hardware(HardwareEvent::CPUCycles)),
        "CPUCycles"
    );
    assert_eq!(
        event_name(&EventDesc::Hardware(HardwareEvent::Instructions)),
        "Instructions"
    );
    assert_eq!(
        event_name(&EventDesc::Software(SoftwareEvent::TaskClock)),
        "TaskClock"
    );
    assert_eq!(
        event_name(&EventDesc::Cache(
            CacheUnit::L1D,
            CacheOp::Read,
            CacheOutcome::Access
        )),
        "L1D_Read_Access"
    );
    assert_eq!(
        event_name(&EventDesc::Cache(
            CacheUnit::BPU,
            CacheOp::Prefetch,
            CacheOutcome::Miss
        )),
        "BPU_Prefetch_Miss"
    );
}

#[test]
fn event_names_are_unique_across_taxonomies() {
    let mut descs: Vec<EventDesc> = vec![
        EventDesc::Hardware(HardwareEvent::CPUCycles),
        EventDesc::Hardware(HardwareEvent::Instructions),
        EventDesc::Hardware(HardwareEvent::CacheReferences),
        EventDesc::Hardware(HardwareEvent::CacheMisses),
        EventDesc::Hardware(HardwareEvent::BranchInstructions),
        EventDesc::Hardware(HardwareEvent::BranchMisses),
        EventDesc::Hardware(HardwareEvent::BusCycles),
        EventDesc::Hardware(HardwareEvent::StalledCyclesFrontend),
        EventDesc::Hardware(HardwareEvent::StalledCyclesBackend),
        EventDesc::Hardware(HardwareEvent::RefCPUCycles),
        EventDesc::Software(SoftwareEvent::CpuClock),
        EventDesc::Software(SoftwareEvent::TaskClock),
        EventDesc::Software(SoftwareEvent::PageFaults),
        EventDesc::Software(SoftwareEvent::ContextSwitches),
        EventDesc::Software(SoftwareEvent::CpuMigrations),
        EventDesc::Software(SoftwareEvent::PageFaultsMin),
        EventDesc::Software(SoftwareEvent::PageFaultsMaj),
        EventDesc::Software(SoftwareEvent::AlignmentFaults),
        EventDesc::Software(SoftwareEvent::EmulationFaults),
    ];
    let all_units = vec![
        CacheUnit::L1D,
        CacheUnit::L1I,
        CacheUnit::LL,
        CacheUnit::DTLB,
        CacheUnit::ITLB,
        CacheUnit::BPU,
        CacheUnit::NODE,
    ];
    for d in cache_event_matrix(&all_units) {
        descs.push(d);
    }
    let names: Vec<String> = descs.iter().map(event_name).collect();
    for i in 0..names.len() {
        for j in 0..names.len() {
            if i != j {
                assert_ne!(names[i], names[j], "collision at {} and {}", i, j);
            }
        }
    }
}
