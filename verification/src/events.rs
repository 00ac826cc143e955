//! Event descriptor catalog: the three event taxonomies, their display
//! names, and the cache-event matrix expansion.

use vstd::prelude::*;
use vstd::string::StringExecFns;

verus! {

/// Hardware event kinds, one per counter the kernel exposes directly.
#[derive(Clone, Copy, PartialEq, Eq, Structural, Debug)]
pub enum HardwareEvent {
    CPUCycles,
    Instructions,
    CacheReferences,
    CacheMisses,
    BranchInstructions,
    BranchMisses,
    BusCycles,
    StalledCyclesFrontend,
    StalledCyclesBackend,
    RefCPUCycles,
}

/// Software (kernel-maintained) event kinds.
#[derive(Clone, Copy, PartialEq, Eq, Structural, Debug)]
pub enum SoftwareEvent {
    CpuClock,
    TaskClock,
    PageFaults,
    ContextSwitches,
    CpuMigrations,
    PageFaultsMin,
    PageFaultsMaj,
    AlignmentFaults,
    EmulationFaults,
}

/// Cache units addressable by the cache-event matrix.
#[derive(Clone, Copy, PartialEq, Eq, Structural, Debug)]
pub enum CacheUnit {
    L1D,
    L1I,
    LL,
    DTLB,
    ITLB,
    BPU,
    NODE,
}

/// Cache operations.
#[derive(Clone, Copy, PartialEq, Eq, Structural, Debug)]
pub enum CacheOp {
    Read,
    Write,
    Prefetch,
}

/// Cache operation outcomes.
#[derive(Clone, Copy, PartialEq, Eq, Structural, Debug)]
pub enum CacheOutcome {
    Access,
    Miss,
}

/// One event descriptor: the tagged union over the three taxonomies.
#[derive(Clone, Copy, PartialEq, Eq, Structural, Debug)]
pub enum EventDesc {
    Hardware(HardwareEvent),
    Software(SoftwareEvent),
    Cache(CacheUnit, CacheOp, CacheOutcome),
}

pub open spec fn hw_name(e: HardwareEvent) -> Seq<char> {
    match e {
        HardwareEvent::CPUCycles => "CPUCycles"@,
        HardwareEvent::Instructions => "Instructions"@,
        HardwareEvent::CacheReferences => "CacheReferences"@,
        HardwareEvent::CacheMisses => "CacheMisses"@,
        HardwareEvent::BranchInstructions => "BranchInstructions"@,
        HardwareEvent::BranchMisses => "BranchMisses"@,
        HardwareEvent::BusCycles => "BusCycles"@,
        HardwareEvent::StalledCyclesFrontend => "StalledCyclesFrontend"@,
        HardwareEvent::StalledCyclesBackend => "StalledCyclesBackend"@,
        HardwareEvent::RefCPUCycles => "RefCPUCycles"@,
    }
}

pub open spec fn sw_name(e: SoftwareEvent) -> Seq<char> {
    match e {
        SoftwareEvent::CpuClock => "CpuClock"@,
        SoftwareEvent::TaskClock => "TaskClock"@,
        SoftwareEvent::PageFaults => "PageFaults"@,
        SoftwareEvent::ContextSwitches => "ContextSwitches"@,
        SoftwareEvent::CpuMigrations => "CpuMigrations"@,
        SoftwareEvent::PageFaultsMin => "PageFaultsMin"@,
        SoftwareEvent::PageFaultsMaj => "PageFaultsMaj"@,
        SoftwareEvent::AlignmentFaults => "AlignmentFaults"@,
        SoftwareEvent::EmulationFaults => "EmulationFaults"@,
    }
}

pub open spec fn unit_name(u: CacheUnit) -> Seq<char> {
    match u {
        CacheUnit::L1D => "L1D"@,
        CacheUnit::L1I => "L1I"@,
        CacheUnit::LL => "LL"@,
        CacheUnit::DTLB => "DTLB"@,
        CacheUnit::ITLB => "ITLB"@,
        CacheUnit::BPU => "BPU"@,
        CacheUnit::NODE => "NODE"@,
    }
}

pub open spec fn op_name(o: CacheOp) -> Seq<char> {
    match o {
        CacheOp::Read => "Read"@,
        CacheOp::Write => "Write"@,
        CacheOp::Prefetch => "Prefetch"@,
    }
}

pub open spec fn outcome_name(r: CacheOutcome) -> Seq<char> {
    match r {
        CacheOutcome::Access => "Access"@,
        CacheOutcome::Miss => "Miss"@,
    }
}

/// Display name of a cache descriptor: its three fields joined by `'_'`.
pub open spec fn cache_name(u: CacheUnit, o: CacheOp, r: CacheOutcome) -> Seq<char> {
    unit_name(u) + seq!['_'] + op_name(o) + seq!['_'] + outcome_name(r)
}

/// Display name of a descriptor, the counter's identity in all output.
pub open spec fn desc_name(d: EventDesc) -> Seq<char> {
    match d {
        EventDesc::Hardware(e) => hw_name(e),
        EventDesc::Software(e) => sw_name(e),
        EventDesc::Cache(u, o, r) => cache_name(u, o, r),
    }
}

/// The display names of a sequence of hardware event kinds, in order.
pub open spec fn hw_names(es: Seq<HardwareEvent>) -> Seq<Seq<char>> {
    es.map_values(|e: HardwareEvent| hw_name(e))
}

/// The display names of a sequence of software event kinds, in order.
pub open spec fn sw_names(es: Seq<SoftwareEvent>) -> Seq<Seq<char>> {
    es.map_values(|e: SoftwareEvent| sw_name(e))
}

/// The display names of a sequence of descriptors, in order.
pub open spec fn desc_names(ds: Seq<EventDesc>) -> Seq<Seq<char>> {
    ds.map_values(|d: EventDesc| desc_name(d))
}

/// The fixed "memory cache" unit grouping: both L1 caches, the last-level
/// cache and the NUMA-node unit.
pub open spec fn mem_cache_units() -> Seq<CacheUnit> {
    seq![CacheUnit::L1D, CacheUnit::L1I, CacheUnit::LL, CacheUnit::NODE]
}

/// The fixed "TLB" unit grouping: the data TLB.
pub open spec fn tlb_cache_units() -> Seq<CacheUnit> {
    seq![CacheUnit::DTLB]
}

/// The fixed "branch prediction" unit grouping: the branch predictor unit.
pub open spec fn branch_prediction_units() -> Seq<CacheUnit> {
    seq![CacheUnit::BPU]
}

/// The three cache operations, in the fixed middle-loop order.
pub open spec fn cache_ops_seq() -> Seq<CacheOp> {
    seq![CacheOp::Read, CacheOp::Write, CacheOp::Prefetch]
}

/// The two cache outcomes, in the fixed inner-loop order.
pub open spec fn cache_outcomes_seq() -> Seq<CacheOutcome> {
    seq![CacheOutcome::Access, CacheOutcome::Miss]
}

/// The cache-event matrix: for each unit, the full cross product with all
/// three operations and both outcomes, units outermost, operations middle,
/// outcomes innermost.
pub open spec fn cache_matrix(units: Seq<CacheUnit>) -> Seq<EventDesc> {
    Seq::new(
        (6 * units.len()) as nat,
        |i: int| EventDesc::Cache(
            units[i / 6],
            cache_ops_seq()[(i % 6) / 2],
            cache_outcomes_seq()[i % 2],
        ),
    )
}

/// The matrix registers exactly six descriptors per unit, and the
/// descriptor at position `6*i + 2*j + k` pairs the `i`-th unit with the
/// `j`-th operation and the `k`-th outcome: nested order unit, then
/// operation, then outcome.
pub proof fn lemma_cache_matrix_shape(units: Seq<CacheUnit>, i: int, j: int, k: int)
    requires
        0 <= i < units.len(),
        0 <= j < 3,
        0 <= k < 2,
    ensures
        cache_matrix(units).len() == 6 * units.len(),
        cache_matrix(units)[6 * i + 2 * j + k] == EventDesc::Cache(
            units[i],
            cache_ops_seq()[j],
            cache_outcomes_seq()[k],
        ),
{
    assert((6 * i + 2 * j + k) / 6 == i && ((6 * i + 2 * j + k) % 6) / 2 == j && (6 * i + 2
        * j + k) % 2 == k) by (nonlinear_arith)
        requires
            0 <= i,
            0 <= j < 3,
            0 <= k < 2,
    ;
}

/// Expands `units` into the cache-event matrix, in its fixed nested order.
/// This order is the registration order, and therefore the eventual column
/// order of the export.
pub fn cache_event_matrix(units: &[CacheUnit]) -> (v: Vec<EventDesc>)
    ensures
        v@ == cache_matrix(units@),
{
    let mut v: Vec<EventDesc> = Vec::new();
    let mut ui: usize = 0;
    while ui < units.len()
        invariant
            ui <= units@.len(),
            v@ == cache_matrix(units@).take(6 * ui as int),
        decreases units@.len() - ui,
    {
        let u = units[ui];
        v.push(EventDesc::Cache(u, CacheOp::Read, CacheOutcome::Access));
        v.push(EventDesc::Cache(u, CacheOp::Read, CacheOutcome::Miss));
        v.push(EventDesc::Cache(u, CacheOp::Write, CacheOutcome::Access));
        v.push(EventDesc::Cache(u, CacheOp::Write, CacheOutcome::Miss));
        v.push(EventDesc::Cache(u, CacheOp::Prefetch, CacheOutcome::Access));
        v.push(EventDesc::Cache(u, CacheOp::Prefetch, CacheOutcome::Miss));
        proof {
            let n = ui as int;
            lemma_cache_matrix_shape(units@, n, 0, 0);
            lemma_cache_matrix_shape(units@, n, 0, 1);
            lemma_cache_matrix_shape(units@, n, 1, 0);
            lemma_cache_matrix_shape(units@, n, 1, 1);
            lemma_cache_matrix_shape(units@, n, 2, 0);
            lemma_cache_matrix_shape(units@, n, 2, 1);
            assert(v@ =~= cache_matrix(units@).take(6 * (n + 1)));
        }
        ui += 1;
    }
    proof {
        assert(cache_matrix(units@).take(6 * units@.len() as int) =~= cache_matrix(units@));
    }
    v
}

fn hw_name_str(e: &HardwareEvent) -> (s: &'static str)
    ensures
        s@ == hw_name(*e),
{
    match e {
        HardwareEvent::CPUCycles => "CPUCycles",
        HardwareEvent::Instructions => "Instructions",
        HardwareEvent::CacheReferences => "CacheReferences",
        HardwareEvent::CacheMisses => "CacheMisses",
        HardwareEvent::BranchInstructions => "BranchInstructions",
        HardwareEvent::BranchMisses => "BranchMisses",
        HardwareEvent::BusCycles => "BusCycles",
        HardwareEvent::StalledCyclesFrontend => "StalledCyclesFrontend",
        HardwareEvent::StalledCyclesBackend => "StalledCyclesBackend",
        HardwareEvent::RefCPUCycles => "RefCPUCycles",
    }
}

fn sw_name_str(e: &SoftwareEvent) -> (s: &'static str)
    ensures
        s@ == sw_name(*e),
{
    match e {
        SoftwareEvent::CpuClock => "CpuClock",
        SoftwareEvent::TaskClock => "TaskClock",
        SoftwareEvent::PageFaults => "PageFaults",
        SoftwareEvent::ContextSwitches => "ContextSwitches",
        SoftwareEvent::CpuMigrations => "CpuMigrations",
        SoftwareEvent::PageFaultsMin => "PageFaultsMin",
        SoftwareEvent::PageFaultsMaj => "PageFaultsMaj",
        SoftwareEvent::AlignmentFaults => "AlignmentFaults",
        SoftwareEvent::EmulationFaults => "EmulationFaults",
    }
}

fn unit_name_str(u: &CacheUnit) -> (s: &'static str)
    ensures
        s@ == unit_name(*u),
{
    match u {
        CacheUnit::L1D => "L1D",
        CacheUnit::L1I => "L1I",
        CacheUnit::LL => "LL",
        CacheUnit::DTLB => "DTLB",
        CacheUnit::ITLB => "ITLB",
        CacheUnit::BPU => "BPU",
        CacheUnit::NODE => "NODE",
    }
}

fn op_name_str(o: &CacheOp) -> (s: &'static str)
    ensures
        s@ == op_name(*o),
{
    match o {
        CacheOp::Read => "Read",
        CacheOp::Write => "Write",
        CacheOp::Prefetch => "Prefetch",
    }
}

fn outcome_name_str(r: &CacheOutcome) -> (s: &'static str)
    ensures
        s@ == outcome_name(*r),
{
    match r {
        CacheOutcome::Access => "Access",
        CacheOutcome::Miss => "Miss",
    }
}

/// Holds when no character of `s` is the `'_'` delimiter.
pub open spec fn underscore_free(s: Seq<char>) -> bool {
    forall|i: int| 0 <= i < s.len() ==> s[i] != '_'
}

proof fn lemma_hw_flat(e: HardwareEvent)
    ensures
        underscore_free(hw_name(e)),
{
    reveal_strlit("CPUCycles");
    reveal_strlit("Instructions");
    reveal_strlit("CacheReferences");
    reveal_strlit("CacheMisses");
    reveal_strlit("BranchInstructions");
    reveal_strlit("BranchMisses");
    reveal_strlit("BusCycles");
    reveal_strlit("StalledCyclesFrontend");
    reveal_strlit("StalledCyclesBackend");
    reveal_strlit("RefCPUCycles");
}

proof fn lemma_sw_flat(e: SoftwareEvent)
    ensures
        underscore_free(sw_name(e)),
{
    reveal_strlit("CpuClock");
    reveal_strlit("TaskClock");
    reveal_strlit("PageFaults");
    reveal_strlit("ContextSwitches");
    reveal_strlit("CpuMigrations");
    reveal_strlit("PageFaultsMin");
    reveal_strlit("PageFaultsMaj");
    reveal_strlit("AlignmentFaults");
    reveal_strlit("EmulationFaults");
}

proof fn lemma_unit_flat(u: CacheUnit)
    ensures
        underscore_free(unit_name(u)),
{
    reveal_strlit("L1D");
    reveal_strlit("L1I");
    reveal_strlit("LL");
    reveal_strlit("DTLB");
    reveal_strlit("ITLB");
    reveal_strlit("BPU");
    reveal_strlit("NODE");
}

proof fn lemma_op_flat(o: CacheOp)
    ensures
        underscore_free(op_name(o)),
{
    reveal_strlit("Read");
    reveal_strlit("Write");
    reveal_strlit("Prefetch");
}

proof fn lemma_hw_distinct(a: HardwareEvent, b: HardwareEvent)
    requires
        a != b,
    ensures
        hw_name(a) != hw_name(b),
{
    reveal_strlit("CPUCycles");
    reveal_strlit("Instructions");
    reveal_strlit("CacheReferences");
    reveal_strlit("CacheMisses");
    reveal_strlit("BranchInstructions");
    reveal_strlit("BranchMisses");
    reveal_strlit("BusCycles");
    reveal_strlit("StalledCyclesFrontend");
    reveal_strlit("StalledCyclesBackend");
    reveal_strlit("RefCPUCycles");
    assert(hw_name(HardwareEvent::CPUCycles).len() == 9);
    assert(hw_name(HardwareEvent::Instructions).len() == 12);
    assert(hw_name(HardwareEvent::CacheReferences).len() == 15);
    assert(hw_name(HardwareEvent::CacheMisses).len() == 11);
    assert(hw_name(HardwareEvent::BranchInstructions).len() == 18);
    assert(hw_name(HardwareEvent::BranchMisses).len() == 12);
    assert(hw_name(HardwareEvent::BusCycles).len() == 9);
    assert(hw_name(HardwareEvent::StalledCyclesFrontend).len() == 21);
    assert(hw_name(HardwareEvent::StalledCyclesBackend).len() == 20);
    assert(hw_name(HardwareEvent::RefCPUCycles).len() == 12);
    assert(hw_name(HardwareEvent::CPUCycles)[0] == 'C');
    assert(hw_name(HardwareEvent::BusCycles)[0] == 'B');
    assert(hw_name(HardwareEvent::Instructions)[0] == 'I');
    assert(hw_name(HardwareEvent::BranchMisses)[0] == 'B');
    assert(hw_name(HardwareEvent::RefCPUCycles)[0] == 'R');
}

proof fn lemma_sw_distinct(a: SoftwareEvent, b: SoftwareEvent)
    requires
        a != b,
    ensures
        sw_name(a) != sw_name(b),
{
    reveal_strlit("CpuClock");
    reveal_strlit("TaskClock");
    reveal_strlit("PageFaults");
    reveal_strlit("ContextSwitches");
    reveal_strlit("CpuMigrations");
    reveal_strlit("PageFaultsMin");
    reveal_strlit("PageFaultsMaj");
    reveal_strlit("AlignmentFaults");
    reveal_strlit("EmulationFaults");
    assert(sw_name(SoftwareEvent::CpuClock).len() == 8);
    assert(sw_name(SoftwareEvent::TaskClock).len() == 9);
    assert(sw_name(SoftwareEvent::PageFaults).len() == 10);
    assert(sw_name(SoftwareEvent::ContextSwitches).len() == 15);
    assert(sw_name(SoftwareEvent::CpuMigrations).len() == 13);
    assert(sw_name(SoftwareEvent::PageFaultsMin).len() == 13);
    assert(sw_name(SoftwareEvent::PageFaultsMaj).len() == 13);
    assert(sw_name(SoftwareEvent::AlignmentFaults).len() == 15);
    assert(sw_name(SoftwareEvent::EmulationFaults).len() == 15);
    assert(sw_name(SoftwareEvent::ContextSwitches)[0] == 'C');
    assert(sw_name(SoftwareEvent::AlignmentFaults)[0] == 'A');
    assert(sw_name(SoftwareEvent::EmulationFaults)[0] == 'E');
    assert(sw_name(SoftwareEvent::CpuMigrations)[0] == 'C');
    assert(sw_name(SoftwareEvent::PageFaultsMin)[0] == 'P');
    assert(sw_name(SoftwareEvent::PageFaultsMaj)[0] == 'P');
    assert(sw_name(SoftwareEvent::PageFaultsMin)[12] == 'n');
    assert(sw_name(SoftwareEvent::PageFaultsMaj)[12] == 'j');
}

proof fn lemma_hw_sw_distinct(a: HardwareEvent, b: SoftwareEvent)
    ensures
        hw_name(a) != sw_name(b),
{
    reveal_strlit("CPUCycles");
    reveal_strlit("Instructions");
    reveal_strlit("CacheReferences");
    reveal_strlit("CacheMisses");
    reveal_strlit("BranchInstructions");
    reveal_strlit("BranchMisses");
    reveal_strlit("BusCycles");
    reveal_strlit("StalledCyclesFrontend");
    reveal_strlit("StalledCyclesBackend");
    reveal_strlit("RefCPUCycles");
    reveal_strlit("CpuClock");
    reveal_strlit("TaskClock");
    reveal_strlit("PageFaults");
    reveal_strlit("ContextSwitches");
    reveal_strlit("CpuMigrations");
    reveal_strlit("PageFaultsMin");
    reveal_strlit("PageFaultsMaj");
    reveal_strlit("AlignmentFaults");
    reveal_strlit("EmulationFaults");
    assert(hw_name(HardwareEvent::CPUCycles).len() == 9);
    assert(hw_name(HardwareEvent::Instructions).len() == 12);
    assert(hw_name(HardwareEvent::CacheReferences).len() == 15);
    assert(hw_name(HardwareEvent::CacheMisses).len() == 11);
    assert(hw_name(HardwareEvent::BranchInstructions).len() == 18);
    assert(hw_name(HardwareEvent::BranchMisses).len() == 12);
    assert(hw_name(HardwareEvent::BusCycles).len() == 9);
    assert(hw_name(HardwareEvent::StalledCyclesFrontend).len() == 21);
    assert(hw_name(HardwareEvent::StalledCyclesBackend).len() == 20);
    assert(hw_name(HardwareEvent::RefCPUCycles).len() == 12);
    assert(sw_name(SoftwareEvent::CpuClock).len() == 8);
    assert(sw_name(SoftwareEvent::TaskClock).len() == 9);
    assert(sw_name(SoftwareEvent::PageFaults).len() == 10);
    assert(sw_name(SoftwareEvent::ContextSwitches).len() == 15);
    assert(sw_name(SoftwareEvent::CpuMigrations).len() == 13);
    assert(sw_name(SoftwareEvent::PageFaultsMin).len() == 13);
    assert(sw_name(SoftwareEvent::PageFaultsMaj).len() == 13);
    assert(sw_name(SoftwareEvent::AlignmentFaults).len() == 15);
    assert(sw_name(SoftwareEvent::EmulationFaults).len() == 15);
    assert(hw_name(HardwareEvent::CPUCycles)[0] == 'C');
    assert(hw_name(HardwareEvent::BusCycles)[0] == 'B');
    assert(sw_name(SoftwareEvent::TaskClock)[0] == 'T');
    assert(hw_name(HardwareEvent::CacheReferences)[1] == 'a');
    assert(sw_name(SoftwareEvent::ContextSwitches)[1] == 'o');
    assert(sw_name(SoftwareEvent::AlignmentFaults)[0] == 'A');
    assert(sw_name(SoftwareEvent::EmulationFaults)[0] == 'E');
    assert(hw_name(HardwareEvent::CacheReferences)[0] == 'C');
}

proof fn lemma_unit_distinct(a: CacheUnit, b: CacheUnit)
    requires
        a != b,
    ensures
        unit_name(a) != unit_name(b),
{
    reveal_strlit("L1D");
    reveal_strlit("L1I");
    reveal_strlit("LL");
    reveal_strlit("DTLB");
    reveal_strlit("ITLB");
    reveal_strlit("BPU");
    reveal_strlit("NODE");
    assert(unit_name(CacheUnit::L1D).len() == 3);
    assert(unit_name(CacheUnit::L1I).len() == 3);
    assert(unit_name(CacheUnit::LL).len() == 2);
    assert(unit_name(CacheUnit::DTLB).len() == 4);
    assert(unit_name(CacheUnit::ITLB).len() == 4);
    assert(unit_name(CacheUnit::BPU).len() == 3);
    assert(unit_name(CacheUnit::NODE).len() == 4);
    assert(unit_name(CacheUnit::L1D)[0] == 'L');
    assert(unit_name(CacheUnit::L1I)[0] == 'L');
    assert(unit_name(CacheUnit::BPU)[0] == 'B');
    assert(unit_name(CacheUnit::L1D)[2] == 'D');
    assert(unit_name(CacheUnit::L1I)[2] == 'I');
    assert(unit_name(CacheUnit::DTLB)[0] == 'D');
    assert(unit_name(CacheUnit::ITLB)[0] == 'I');
    assert(unit_name(CacheUnit::NODE)[0] == 'N');
}

proof fn lemma_op_distinct(a: CacheOp, b: CacheOp)
    requires
        a != b,
    ensures
        op_name(a) != op_name(b),
{
    reveal_strlit("Read");
    reveal_strlit("Write");
    reveal_strlit("Prefetch");
    assert(op_name(CacheOp::Read).len() == 4);
    assert(op_name(CacheOp::Write).len() == 5);
    assert(op_name(CacheOp::Prefetch).len() == 8);
}

proof fn lemma_outcome_distinct(a: CacheOutcome, b: CacheOutcome)
    requires
        a != b,
    ensures
        outcome_name(a) != outcome_name(b),
{
    reveal_strlit("Access");
    reveal_strlit("Miss");
    assert(outcome_name(CacheOutcome::Access).len() == 6);
    assert(outcome_name(CacheOutcome::Miss).len() == 4);
}

/// A delimiter-free prefix before a `'_'` determines the split: equal
/// joined strings have equal parts.
proof fn lemma_split_at_delim(a1: Seq<char>, b1: Seq<char>, a2: Seq<char>, b2: Seq<char>)
    requires
        underscore_free(a1),
        underscore_free(a2),
        a1 + seq!['_'] + b1 == a2 + seq!['_'] + b2,
    ensures
        a1 == a2,
        b1 == b2,
{
    let lhs = a1 + seq!['_'] + b1;
    let rhs = a2 + seq!['_'] + b2;
    assert(lhs.len() == a1.len() + 1 + b1.len());
    assert(rhs.len() == a2.len() + 1 + b2.len());
    if a1.len() < a2.len() {
        assert(lhs[a1.len() as int] == '_');
        assert(rhs[a1.len() as int] == a2[a1.len() as int]);
        assert(false);
    }
    if a2.len() < a1.len() {
        assert(rhs[a2.len() as int] == '_');
        assert(lhs[a2.len() as int] == a1[a2.len() as int]);
        assert(false);
    }
    assert(b1.len() == b2.len());
    assert forall|i: int| 0 <= i < a1.len() implies a1[i] == a2[i] by {
        assert(lhs[i] == a1[i]);
        assert(rhs[i] == a2[i]);
    }
    assert(a1 =~= a2);
    assert forall|i: int| 0 <= i < b1.len() implies b1[i] == b2[i] by {
        assert(lhs[a1.len() + 1 + i] == b1[i]);
        assert(rhs[a2.len() + 1 + i] == b2[i]);
    }
    assert(b1 =~= b2);
}

proof fn lemma_cache_distinct(
    u1: CacheUnit,
    o1: CacheOp,
    r1: CacheOutcome,
    u2: CacheUnit,
    o2: CacheOp,
    r2: CacheOutcome,
)
    requires
        u1 != u2 || o1 != o2 || r1 != r2,
    ensures
        cache_name(u1, o1, r1) != cache_name(u2, o2, r2),
{
    lemma_unit_flat(u1);
    lemma_unit_flat(u2);
    lemma_op_flat(o1);
    lemma_op_flat(o2);
    if cache_name(u1, o1, r1) == cache_name(u2, o2, r2) {
        let tail1 = op_name(o1) + seq!['_'] + outcome_name(r1);
        let tail2 = op_name(o2) + seq!['_'] + outcome_name(r2);
        assert(cache_name(u1, o1, r1) =~= unit_name(u1) + seq!['_'] + tail1);
        assert(cache_name(u2, o2, r2) =~= unit_name(u2) + seq!['_'] + tail2);
        lemma_split_at_delim(unit_name(u1), tail1, unit_name(u2), tail2);
        lemma_split_at_delim(op_name(o1), outcome_name(r1), op_name(o2), outcome_name(r2));
        if u1 != u2 {
            lemma_unit_distinct(u1, u2);
        } else if o1 != o2 {
            lemma_op_distinct(o1, o2);
        } else {
            lemma_outcome_distinct(r1, r2);
        }
    }
}

proof fn lemma_cache_vs_flat(u: CacheUnit, o: CacheOp, r: CacheOutcome, flat: Seq<char>)
    requires
        underscore_free(flat),
    ensures
        cache_name(u, o, r) != flat,
{
    if cache_name(u, o, r) == flat {
        let ul = unit_name(u).len() as int;
        assert(cache_name(u, o, r)[ul] == '_');
        assert(flat[ul] != '_');
    }
}

/// Counter names are unique identifiers reflecting their originating
/// descriptor: distinct descriptors always map to distinct display names,
/// across all three taxonomies.  (Registering the same descriptor twice
/// still appends two entries: the group never merges by name.)
pub proof fn lemma_desc_name_injective(d1: EventDesc, d2: EventDesc)
    requires
        d1 != d2,
    ensures
        desc_name(d1) != desc_name(d2),
{
    match (d1, d2) {
        (EventDesc::Hardware(a), EventDesc::Hardware(b)) => lemma_hw_distinct(a, b),
        (EventDesc::Software(a), EventDesc::Software(b)) => lemma_sw_distinct(a, b),
        (EventDesc::Hardware(a), EventDesc::Software(b)) => lemma_hw_sw_distinct(a, b),
        (EventDesc::Software(a), EventDesc::Hardware(b)) => lemma_hw_sw_distinct(b, a),
        (EventDesc::Cache(u1, o1, r1), EventDesc::Cache(u2, o2, r2)) => lemma_cache_distinct(
            u1,
            o1,
            r1,
            u2,
            o2,
            r2,
        ),
        (EventDesc::Cache(u, o, r), EventDesc::Hardware(b)) => {
            lemma_hw_flat(b);
            lemma_cache_vs_flat(u, o, r, hw_name(b));
        }
        (EventDesc::Cache(u, o, r), EventDesc::Software(b)) => {
            lemma_sw_flat(b);
            lemma_cache_vs_flat(u, o, r, sw_name(b));
        }
        (EventDesc::Hardware(b), EventDesc::Cache(u, o, r)) => {
            lemma_hw_flat(b);
            lemma_cache_vs_flat(u, o, r, hw_name(b));
        }
        (EventDesc::Software(b), EventDesc::Cache(u, o, r)) => {
            lemma_sw_flat(b);
            lemma_cache_vs_flat(u, o, r, sw_name(b));
        }
    }
}

/// Builds the display name of a descriptor.
pub fn event_name(d: &EventDesc) -> (s: String)
    ensures
        s@ == desc_name(*d),
{
    match d {
        EventDesc::Hardware(e) => String::from_str(hw_name_str(e)),
        EventDesc::Software(e) => String::from_str(sw_name_str(e)),
        EventDesc::Cache(u, o, r) => {
            proof {
                reveal_strlit("_");
                assert("_"@ =~= seq!['_']);
            }
            let mut s = String::from_str(unit_name_str(u));
            s.append("_");
            s.append(op_name_str(o));
            s.append("_");
            s.append(outcome_name_str(r));
            s
        }
    }
}

} // verus!
