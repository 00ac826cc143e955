//! Counter group manager: an ordered, named group of counters bound to one
//! target process, with best-effort registration and the measurement
//! lifecycle around caller-supplied work.

use vstd::prelude::*;

use crate::backend;
use crate::events::CacheOp;
use crate::events::CacheOutcome;
use crate::events::CacheUnit;
use crate::events::EventDesc;
use crate::events::HardwareEvent;
use crate::events::SoftwareEvent;
use crate::events::branch_prediction_units;
use crate::events::cache_event_matrix;
use crate::events::cache_matrix;
use crate::events::cache_name;
use crate::events::desc_name;
use crate::events::desc_names;
use crate::events::event_name;
use crate::events::hw_names;
use crate::events::mem_cache_units;
use crate::events::sw_names;
use crate::events::tlb_cache_units;
use vstd::string::StringExecFns;

verus! {

/// The elements of `s` whose position carries `true` in `keep`, in order.
/// Registration is best-effort: which descriptors became counters is
/// outside knowledge, but whatever succeeded appears exactly in this shape.
pub open spec fn keep_mask<A>(s: Seq<A>, keep: Seq<bool>) -> Seq<A>
    decreases s.len(),
{
    if s.len() == 0 {
        Seq::empty()
    } else if keep.last() {
        keep_mask(s.drop_last(), keep.drop_last()).push(s.last())
    } else {
        keep_mask(s.drop_last(), keep.drop_last())
    }
}

/// The records one measurement call appends: for each counter, in
/// registration order, its (name, value) pair when its stop-and-read cycle
/// produced a value, and nothing when it did not.
pub open spec fn taken_records(names: Seq<Seq<char>>, oc: Seq<Option<u64>>) -> Seq<
    (Seq<char>, u64),
>
    decreases names.len(),
{
    if names.len() == 0 {
        Seq::empty()
    } else if oc.last() is Some {
        taken_records(names.drop_last(), oc.drop_last()).push(
            (names.last(), oc.last().unwrap()),
        )
    } else {
        taken_records(names.drop_last(), oc.drop_last())
    }
}

/// An ordered group of named counters bound to one target pid, together
/// with the accumulator of (name, count) records produced by measurements.
pub struct PerfCounters {
    pid: i32,
    counters: Vec<(String, perfcnt::PerfCounter)>,
    results: Vec<(String, u64)>,
}

impl PerfCounters {
    /// The group's counter names, in registration order.
    pub closed spec fn names(&self) -> Seq<Seq<char>> {
        self.counters@.map_values(|c: (String, perfcnt::PerfCounter)| c.0@)
    }

    /// The accumulator's records, in accumulation order.
    pub closed spec fn records(&self) -> Seq<(Seq<char>, u64)> {
        self.results@.map_values(|r: (String, u64)| (r.0@, r.1))
    }

    /// The target pid all counters of the group are scoped to.
    pub closed spec fn target(&self) -> i32 {
        self.pid
    }

    /// Starts an empty group bound to `pid`.  No OS resource is allocated.
    pub fn for_pid(pid: i32) -> (g: Self)
        ensures
            g.target() == pid,
            g.names() == Seq::<Seq<char>>::empty(),
            g.records() == Seq::<(Seq<char>, u64)>::empty(),
    {
        let g = PerfCounters { pid, counters: Vec::new(), results: Vec::new() };
        proof {
            assert(g.names() =~= Seq::<Seq<char>>::empty());
            assert(g.records() =~= Seq::<(Seq<char>, u64)>::empty());
        }
        g
    }

    /// Attempts to create one counter for `desc`; on success the (name,
    /// handle) pair is appended, on failure the group is left as it was.
    fn register_event(&mut self, desc: EventDesc) -> (added: bool)
        ensures
            final(self).target() == old(self).target(),
            final(self).records() == old(self).records(),
            added ==> final(self).names() == old(self).names().push(desc_name(desc)),
            !added ==> final(self).names() == old(self).names(),
    {
        let name = event_name(&desc);
        let created = match &desc {
            EventDesc::Hardware(e) => backend::create_hardware_counter(e, self.pid),
            EventDesc::Software(e) => backend::create_software_counter(e, self.pid),
            EventDesc::Cache(u, o, r) => backend::create_cache_counter(u, o, r, self.pid),
        };
        match created {
            Some(pc) => {
                self.counters.push((name, pc));
                proof {
                    assert(self.names() =~= old(self).names().push(desc_name(desc)));
                }
                true
            }
            None => false,
        }
    }

    /// Attempts to register every descriptor of `descs`, in order; failing
    /// ones are skipped, the rest continue (best-effort, never
    /// partial-failure-fatal).
    fn register_all(&mut self, descs: &Vec<EventDesc>) -> (kept: Ghost<Seq<bool>>)
        ensures
            final(self).target() == old(self).target(),
            final(self).records() == old(self).records(),
            kept@.len() == descs@.len(),
            final(self).names() == old(self).names() + keep_mask(desc_names(descs@), kept@),
    {
        let ghost names0 = self.names();
        let ghost wanted = desc_names(descs@);
        let ghost mut keep: Seq<bool> = Seq::empty();
        proof {
            assert(self.names() =~= names0 + keep_mask(wanted.take(0), keep));
        }
        let mut i: usize = 0;
        while i < descs.len()
            invariant
                i <= descs@.len(),
                keep.len() == i,
                wanted == desc_names(descs@),
                names0 == old(self).names(),
                self.target() == old(self).target(),
                self.records() == old(self).records(),
                self.names() == names0 + keep_mask(wanted.take(i as int), keep),
            decreases descs@.len() - i,
        {
            let added = self.register_event(descs[i]);
            proof {
                let prev = keep;
                keep = keep.push(added);
                assert(keep.drop_last() =~= prev);
                assert(wanted.take(i as int + 1).drop_last() =~= wanted.take(i as int));
                assert(wanted.take(i as int + 1).last() == desc_name(descs@[i as int]));
                assert(keep_mask(wanted.take(i as int + 1), keep) == if added {
                    keep_mask(wanted.take(i as int), prev).push(desc_name(descs@[i as int]))
                } else {
                    keep_mask(wanted.take(i as int), prev)
                });
                assert(self.names() =~= names0 + keep_mask(wanted.take(i as int + 1), keep));
            }
            i += 1;
        }
        proof {
            assert(wanted.take(descs@.len() as int) =~= wanted);
        }
        Ghost(keep)
    }

    /// Tries to create one counter per hardware event kind, in order; kinds
    /// the machine refuses are skipped and the rest are still registered.
    pub fn with_hardware_events(&mut self, events: Vec<HardwareEvent>)
        ensures
            final(self).target() == old(self).target(),
            final(self).records() == old(self).records(),
            exists|keep: Seq<bool>|
                keep.len() == events@.len() && final(self).names() == old(self).names()
                    + #[trigger] keep_mask(hw_names(events@), keep),
    {
        let mut descs: Vec<EventDesc> = Vec::new();
        let mut i: usize = 0;
        while i < events.len()
            invariant
                i <= events@.len(),
                descs@ == events@.take(i as int).map_values(
                    |e: HardwareEvent| EventDesc::Hardware(e),
                ),
            decreases events@.len() - i,
        {
            descs.push(EventDesc::Hardware(events[i]));
            proof {
                assert(descs@ =~= events@.take(i as int + 1).map_values(
                    |e: HardwareEvent| EventDesc::Hardware(e),
                ));
            }
            i += 1;
        }
        proof {
            assert(events@.take(events@.len() as int) =~= events@);
        }
        let _kept = self.register_all(&descs);
        proof {
            assert(desc_names(descs@) =~= hw_names(events@));
        }
    }

    /// Tries to create one counter per software event kind, in order; kinds
    /// the machine refuses are skipped and the rest are still registered.
    pub fn with_software_events(&mut self, events: Vec<SoftwareEvent>)
        ensures
            final(self).target() == old(self).target(),
            final(self).records() == old(self).records(),
            exists|keep: Seq<bool>|
                keep.len() == events@.len() && final(self).names() == old(self).names()
                    + #[trigger] keep_mask(sw_names(events@), keep),
    {
        let mut descs: Vec<EventDesc> = Vec::new();
        let mut i: usize = 0;
        while i < events.len()
            invariant
                i <= events@.len(),
                descs@ == events@.take(i as int).map_values(
                    |e: SoftwareEvent| EventDesc::Software(e),
                ),
            decreases events@.len() - i,
        {
            descs.push(EventDesc::Software(events[i]));
            proof {
                assert(descs@ =~= events@.take(i as int + 1).map_values(
                    |e: SoftwareEvent| EventDesc::Software(e),
                ));
            }
            i += 1;
        }
        proof {
            assert(events@.take(events@.len() as int) =~= events@);
        }
        let _kept = self.register_all(&descs);
        proof {
            assert(desc_names(descs@) =~= sw_names(events@));
        }
    }

    /// Tries to create one counter for a single cache descriptor: either it
    /// is appended under its display name, or the group is left as it was.
    pub fn with_cache_event(&mut self, unit: CacheUnit, op: CacheOp, outcome: CacheOutcome)
        ensures
            final(self).target() == old(self).target(),
            final(self).records() == old(self).records(),
            final(self).names() == old(self).names() || final(self).names() == old(
                self,
            ).names().push(cache_name(unit, op, outcome)),
    {
        let _added = self.register_event(EventDesc::Cache(unit, op, outcome));
    }

    /// Expands `units` through the cache-event matrix and tries to register
    /// every descriptor, in the fixed nested order; unsupported
    /// combinations are skipped without aborting the expansion.
    pub fn with_all_cache_events_for(&mut self, units: &[CacheUnit])
        ensures
            final(self).target() == old(self).target(),
            final(self).records() == old(self).records(),
            exists|keep: Seq<bool>|
                keep.len() == cache_matrix(units@).len() && final(self).names() == old(
                    self,
                ).names() + #[trigger] keep_mask(desc_names(cache_matrix(units@)), keep),
    {
        let descs = cache_event_matrix(units);
        let _kept = self.register_all(&descs);
    }

    /// Registers the cache-event matrix for the fixed memory-cache unit
    /// grouping (L1 data, L1 instruction, last-level, NUMA node).
    pub fn with_all_mem_cache_events(&mut self)
        ensures
            final(self).target() == old(self).target(),
            final(self).records() == old(self).records(),
            exists|keep: Seq<bool>|
                keep.len() == cache_matrix(mem_cache_units()).len() && final(self).names() == old(
                    self,
                ).names() + #[trigger] keep_mask(desc_names(cache_matrix(mem_cache_units())), keep),
    {
        let units: Vec<CacheUnit> = vec![
            CacheUnit::L1D,
            CacheUnit::L1I,
            CacheUnit::LL,
            CacheUnit::NODE,
        ];
        proof {
            assert(units@ =~= mem_cache_units());
        }
        self.with_all_cache_events_for(units.as_slice());
    }

    /// Registers the cache-event matrix for the fixed TLB unit grouping
    /// (the data TLB).
    pub fn with_all_tlb_cache_events(&mut self)
        ensures
            final(self).target() == old(self).target(),
            final(self).records() == old(self).records(),
            exists|keep: Seq<bool>|
                keep.len() == cache_matrix(tlb_cache_units()).len() && final(self).names() == old(
                    self,
                ).names() + #[trigger] keep_mask(desc_names(cache_matrix(tlb_cache_units())), keep),
    {
        let units: Vec<CacheUnit> = vec![CacheUnit::DTLB];
        proof {
            assert(units@ =~= tlb_cache_units());
        }
        self.with_all_cache_events_for(units.as_slice());
    }

    /// Registers the cache-event matrix for the fixed branch-prediction
    /// unit grouping (the branch predictor unit).
    pub fn with_all_branch_prediction_events(&mut self)
        ensures
            final(self).target() == old(self).target(),
            final(self).records() == old(self).records(),
            exists|keep: Seq<bool>|
                keep.len() == cache_matrix(branch_prediction_units()).len() && final(self).names()
                    == old(self).names() + #[trigger] keep_mask(
                    desc_names(cache_matrix(branch_prediction_units())),
                    keep,
                ),
    {
        let units: Vec<CacheUnit> = vec![CacheUnit::BPU];
        proof {
            assert(units@ =~= branch_prediction_units());
        }
        self.with_all_cache_events_for(units.as_slice());
    }

    /// The measurement call: arms and starts every counter in registration
    /// order, runs `work` exactly once on the calling thread, then stops
    /// and reads the counters in the same order, appending one (name,
    /// value) record per counter whose full start-stop-read cycle
    /// succeeded.  Counters that fail any step contribute nothing this call
    /// and do not disturb the others; `work`'s result comes back unchanged.
    pub fn bench<F, R>(&mut self, work: F) -> (r: R) where F: FnOnce() -> R
        requires
            call_requires(work, ()),
        ensures
            final(self).target() == old(self).target(),
            final(self).names() == old(self).names(),
            call_ensures(work, (), r),
            exists|oc: Seq<Option<u64>>|
                oc.len() == old(self).names().len() && final(self).records() == old(self).records()
                    + #[trigger] taken_records(old(self).names(), oc),
            old(self).names().len() == 0 ==> final(self).records() == old(self).records(),
    {
        let n = self.counters.len();
        let mut started: Vec<bool> = Vec::new();
        let mut i: usize = 0;
        while i < n
            invariant
                i <= n,
                n == self.counters@.len(),
                started@.len() == i,
                *self == *old(self),
            decreases n - i,
        {
            let entry = &self.counters[i];
            let _armed = backend::counter_reset(&entry.1);
            let ok = backend::counter_start(&entry.1);
            started.push(ok);
            i += 1;
        }
        let r = work();
        let ghost names0 = self.names();
        let ghost res0 = self.records();
        let ghost mut oc: Seq<Option<u64>> = Seq::empty();
        proof {
            assert(self.records() =~= res0 + taken_records(names0.take(0), oc));
        }
        let mut i: usize = 0;
        while i < n
            invariant
                i <= n,
                n == self.counters@.len(),
                started@.len() == n,
                oc.len() == i,
                self.target() == old(self).target(),
                names0 == old(self).names(),
                res0 == old(self).records(),
                self.names() == names0,
                self.records() == res0 + taken_records(names0.take(i as int), oc),
            decreases n - i,
        {
            let ghost self_pre = *self;
            let mut value: Option<u64> = None;
            if started[i] {
                if backend::counter_stop(&self.counters[i].1) {
                    value = backend::counter_read(&mut self.counters[i].1);
                }
            }
            proof {
                assert(self.names() =~= self_pre.names());
                assert(names0.take(i as int + 1).drop_last() =~= names0.take(i as int));
                assert(names0.take(i as int + 1).last() == names0[i as int]);
            }
            let ghost prev = oc;
            match value {
                Some(num) => {
                    let name = String::from_str(self.counters[i].0.as_str());
                    self.results.push((name, num));
                    proof {
                        oc = oc.push(Some(num));
                        assert(oc.drop_last() =~= prev);
                        assert(name@ == names0[i as int]);
                        assert(self.records() =~= (res0 + taken_records(
                            names0.take(i as int),
                            prev,
                        )).push((name@, num)));
                        assert(taken_records(names0.take(i as int + 1), oc) == taken_records(
                            names0.take(i as int),
                            prev,
                        ).push((names0[i as int], num)));
                        assert(self.records() =~= res0 + taken_records(
                            names0.take(i as int + 1),
                            oc,
                        ));
                    }
                }
                None => {
                    proof {
                        oc = oc.push(None);
                        assert(oc.drop_last() =~= prev);
                        assert(self.records() =~= res0 + taken_records(
                            names0.take(i as int + 1),
                            oc,
                        ));
                    }
                }
            }
            i += 1;
        }
        proof {
            assert(names0.take(n as int) =~= names0);
            if names0.len() == 0 {
                assert(taken_records(names0, oc) =~= Seq::<(Seq<char>, u64)>::empty());
                assert(self.records() =~= res0);
            }
        }
        r
    }

    /// The number of counters currently in the group.
    pub fn counter_count(&self) -> (n: usize)
        ensures
            n == self.names().len(),
    {
        self.counters.len()
    }

    /// The accumulated (name, count) records, in accumulation order.
    pub fn results(&self) -> (r: &Vec<(String, u64)>)
        ensures
            crate::table::view_records(r@) == self.records(),
    {
        proof {
            assert(crate::table::view_records(self.results@) =~= self.records());
        }
        &self.results
    }
}

/// One measurement call appends at most one record per registered counter:
/// however many lifecycle steps fail, the appended batch never exceeds the
/// group's size.
pub proof fn lemma_taken_records_bound(names: Seq<Seq<char>>, oc: Seq<Option<u64>>)
    ensures
        taken_records(names, oc).len() <= names.len(),
    decreases names.len(),
{
    if names.len() > 0 {
        lemma_taken_records_bound(names.drop_last(), oc.drop_last());
    }
}

/// When every counter of a call succeeds, the call appends exactly one
/// record per counter: after `N` such calls on a group of `K` counters the
/// accumulator has grown by `N * K`.
pub proof fn lemma_taken_records_all_some(names: Seq<Seq<char>>, oc: Seq<Option<u64>>)
    requires
        oc.len() == names.len(),
        forall|i: int| 0 <= i < oc.len() ==> oc[i] is Some,
    ensures
        taken_records(names, oc).len() == names.len(),
    decreases names.len(),
{
    if names.len() > 0 {
        assert(oc.last() is Some);
        assert(forall|i: int|
            0 <= i < oc.drop_last().len() ==> oc.drop_last()[i] == oc[i]);
        lemma_taken_records_all_some(names.drop_last(), oc.drop_last());
    }
}

} // verus!
