//! Systems and the system manager.
//!
//! A system runs actions over batches of objects and keeps running
//! statistics. The manager owns the object registry and an
//! insertion-ordered collection of systems keyed by name; a full pass
//! snapshots the registry and invokes each ready system sequentially, in
//! descending priority order, systems of equal priority keeping their
//! registration order.

use vstd::prelude::*;
use crate::actions::{Action, ActionContext, ActionResult};
use crate::clock::now_millis;
use crate::error::OatsError;
use crate::idmap::IdMap;
use crate::objects::{lemma_cloned_obj_equiv, lemma_obj_equiv_wf, obj_equiv, Object};
use crate::strmap::{lemma_update_keeps_wf_and_lookups, StringMap};
use crate::text::{concat_str, wrap_str};

verus! {

/// System identifier: the 128 bits of a version-4 UUID.
pub type SystemId = u128;

/// Priority levels for system dispatch. Within one pass, higher
/// priorities run first: Critical before High before Normal before Low.
#[derive(Debug, Clone, Copy, PartialEq, Eq, PartialOrd, Ord, Structural)]
pub enum Priority {
    Low,
    Normal,
    High,
    Critical,
}

/// The numeric rank of a priority; a larger rank runs earlier.
pub open spec fn priority_rank(p: Priority) -> int {
    match p {
        Priority::Low => 1,
        Priority::Normal => 2,
        Priority::High => 3,
        Priority::Critical => 4,
    }
}

impl Priority {
    pub fn rank(&self) -> (r: u8)
        ensures
            r as int == priority_rank(*self),
    {
        match self {
            Priority::Low => 1,
            Priority::Normal => 2,
            Priority::High => 3,
            Priority::Critical => 4,
        }
    }
}

impl Default for Priority {
    fn default() -> (r: Self)
        ensures
            r == Priority::Normal,
    {
        Priority::Normal
    }
}

/// Addition on counters that sticks at the largest representable value
/// instead of wrapping.
pub open spec fn sat_add_u64(a: int, b: int) -> int {
    if a + b > u64::MAX as int {
        u64::MAX as int
    } else {
        a + b
    }
}

/// Running statistics of a system: monotonically accumulating counters
/// and processing-time figures, until explicitly reset. The average is
/// recomputed as total over objects processed after each update.
#[derive(Debug, Clone, Copy)]
pub struct SystemStats {
    /// Number of objects processed.
    pub objects_processed: u64,
    /// Number of actions executed successfully.
    pub actions_executed: u64,
    /// Number of errors encountered.
    pub errors: u64,
    /// Total processing time in milliseconds.
    pub total_processing_time_ms: u64,
    /// Last processing timestamp, in milliseconds since the Unix epoch.
    pub last_processed: Option<i64>,
    /// Average processing time per object in milliseconds.
    pub avg_processing_time_ms: u64,
    /// Peak processing time in milliseconds.
    pub peak_processing_time_ms: u64,
}

/// Statistics with every counter at zero and no last-processed time.
pub open spec fn spec_stats_zero() -> SystemStats {
    SystemStats {
        objects_processed: 0,
        actions_executed: 0,
        errors: 0,
        total_processing_time_ms: 0,
        last_processed: None,
        avg_processing_time_ms: 0,
        peak_processing_time_ms: 0,
    }
}

impl SystemStats {
    /// The stats after accounting a batch: `objs` more objects, `oks`
    /// successful action executions and `errs` failed ones.
    pub open spec fn spec_counted(self, objs: int, oks: int, errs: int) -> SystemStats {
        SystemStats {
            objects_processed: sat_add_u64(self.objects_processed as int, objs) as u64,
            actions_executed: sat_add_u64(self.actions_executed as int, oks) as u64,
            errors: sat_add_u64(self.errors as int, errs) as u64,
            total_processing_time_ms: self.total_processing_time_ms,
            last_processed: self.last_processed,
            avg_processing_time_ms: self.avg_processing_time_ms,
            peak_processing_time_ms: self.peak_processing_time_ms,
        }
    }

    /// The stats after recording a processing time of `t` milliseconds.
    pub open spec fn spec_with_time(self, t: u64) -> SystemStats {
        let total = sat_add_u64(self.total_processing_time_ms as int, t as int) as u64;
        SystemStats {
            objects_processed: self.objects_processed,
            actions_executed: self.actions_executed,
            errors: self.errors,
            total_processing_time_ms: total,
            last_processed: self.last_processed,
            avg_processing_time_ms: if self.objects_processed > 0 {
                (total as int / self.objects_processed as int) as u64
            } else {
                self.avg_processing_time_ms
            },
            peak_processing_time_ms: if t > self.peak_processing_time_ms {
                t
            } else {
                self.peak_processing_time_ms
            },
        }
    }

    /// The stats with the last-processed time set.
    pub open spec fn spec_with_last(self, now: i64) -> SystemStats {
        SystemStats {
            objects_processed: self.objects_processed,
            actions_executed: self.actions_executed,
            errors: self.errors,
            total_processing_time_ms: self.total_processing_time_ms,
            last_processed: Some(now),
            avg_processing_time_ms: self.avg_processing_time_ms,
            peak_processing_time_ms: self.peak_processing_time_ms,
        }
    }

    /// Folds a processing time into the totals, tracks the peak, and
    /// recomputes the average per object.
    pub fn update_processing_time(&mut self, processing_time_ms: u64)
        ensures
            *final(self) == old(self).spec_with_time(processing_time_ms),
    {
        if self.total_processing_time_ms <= u64::MAX - processing_time_ms {
            self.total_processing_time_ms = self.total_processing_time_ms + processing_time_ms;
        } else {
            self.total_processing_time_ms = u64::MAX;
        }
        if processing_time_ms > self.peak_processing_time_ms {
            self.peak_processing_time_ms = processing_time_ms;
        }
        if self.objects_processed > 0 {
            self.avg_processing_time_ms = self.total_processing_time_ms / self.objects_processed;
        }
    }

    /// Resets every counter and the timestamps.
    pub fn reset(&mut self)
        ensures
            *final(self) == spec_stats_zero(),
    {
        self.objects_processed = 0;
        self.actions_executed = 0;
        self.errors = 0;
        self.total_processing_time_ms = 0;
        self.avg_processing_time_ms = 0;
        self.peak_processing_time_ms = 0;
        self.last_processed = None;
    }
}

impl Default for SystemStats {
    fn default() -> (r: Self)
        ensures
            r == spec_stats_zero(),
    {
        SystemStats {
            objects_processed: 0,
            actions_executed: 0,
            errors: 0,
            total_processing_time_ms: 0,
            last_processed: None,
            avg_processing_time_ms: 0,
            peak_processing_time_ms: 0,
        }
    }
}

/// A system: a named, possibly-stateful unit that processes batches of
/// objects and keeps statistics. `is_ready` gates whether a manager
/// invokes `process` at all.
pub trait System: Sized {
    /// The name under which a manager registers this system.
    open spec fn spec_name(&self) -> Seq<char> {
        Seq::empty()
    }

    /// The priority used to order this system within a pass.
    open spec fn spec_priority(&self) -> Priority {
        Priority::Normal
    }

    /// Whether the system would accept a `process` call.
    open spec fn spec_ready(&self) -> bool {
        true
    }

    /// The statistics snapshot the system would report.
    open spec fn spec_stats(&self) -> SystemStats {
        spec_stats_zero()
    }

    fn name(&self) -> (r: &str)
        ensures
            r@ == self.spec_name(),
    ;

    fn description(&self) -> &str;

    /// Called by a manager before first use.
    fn initialize(&mut self) -> Result<(), OatsError>;

    /// Called by a manager before the system is released.
    fn shutdown(&mut self) -> Result<(), OatsError>;

    /// Processes a batch of objects, accumulating results and updating
    /// the system's statistics. An individual action's failure does not
    /// stop the batch. Every implementation owes the batch contract: on
    /// success, the whole batch is counted into `objects_processed` and
    /// the completion time is recorded in `last_processed`.
    fn process(&mut self, objects: Vec<Object>, priority: Priority) -> (r: Result<
        Vec<ActionResult>,
        OatsError,
    >)
        requires
            old(self).spec_ready(),
            forall|i: int| 0 <= i < objects@.len() ==> (#[trigger] objects@[i]).wf(),
        ensures
            r is Ok ==> final(self).spec_stats().objects_processed == sat_add_u64(
                old(self).spec_stats().objects_processed as int,
                objects@.len() as int,
            ) as u64,
            r is Ok ==> final(self).spec_stats().last_processed is Some,
    ;

    fn priority(&self) -> (r: Priority)
        ensures
            r == self.spec_priority(),
    ;

    fn is_ready(&self) -> (r: bool)
        ensures
            r == self.spec_ready(),
    ;

    /// A snapshot of the statistics: a copy, never a live handle.
    fn get_stats(&self) -> (r: SystemStats)
        ensures
            r == self.spec_stats(),
    ;
}

/// A simple system that runs each of its actions against each object of
/// a batch.
pub struct SimpleSystem<A: Action> {
    pub name: String,
    pub description: String,
    pub priority: Priority,
    pub actions: Vec<A>,
    pub stats: SystemStats,
}

impl<A: Action> SimpleSystem<A> {
    pub fn new(name: String, description: String) -> (r: Self)
        ensures
            r.name == name,
            r.description == description,
            r.priority == Priority::Normal,
            r.actions@ =~= Seq::<A>::empty(),
            r.stats == spec_stats_zero(),
    {
        SimpleSystem {
            name,
            description,
            priority: Priority::Normal,
            actions: Vec::new(),
            stats: SystemStats::default(),
        }
    }

    pub fn with_capacity(name: String, description: String, action_capacity: usize) -> (r: Self)
        ensures
            r.name == name,
            r.description == description,
            r.priority == Priority::Normal,
            r.actions@ =~= Seq::<A>::empty(),
            r.stats == spec_stats_zero(),
    {
        SimpleSystem {
            name,
            description,
            priority: Priority::Normal,
            actions: Vec::with_capacity(action_capacity),
            stats: SystemStats::default(),
        }
    }

    /// Sets the priority of this system, builder-style.
    pub fn with_priority(self, priority: Priority) -> (r: Self)
        ensures
            r.priority == priority,
            r.name == self.name,
            r.description == self.description,
            r.actions == self.actions,
            r.stats == self.stats,
    {
        let mut s = self;
        s.priority = priority;
        s
    }

    pub fn add_action(&mut self, action: A)
        ensures
            final(self).actions@ == old(self).actions@.push(action),
            final(self).name == old(self).name,
            final(self).description == old(self).description,
            final(self).priority == old(self).priority,
            final(self).stats == old(self).stats,
    {
        self.actions.push(action);
    }

    pub fn actions(&self) -> (r: &Vec<A>)
        ensures
            *r == self.actions,
    {
        &self.actions
    }

    pub fn action_count(&self) -> (r: usize)
        ensures
            r == self.actions@.len(),
    {
        self.actions.len()
    }

    pub fn reserve_actions(&mut self, additional: usize)
        ensures
            final(self).actions@ == old(self).actions@,
            final(self).name == old(self).name,
            final(self).description == old(self).description,
            final(self).priority == old(self).priority,
            final(self).stats == old(self).stats,
    {
        self.actions.reserve(additional);
    }

    pub fn clear_actions(&mut self)
        ensures
            final(self).actions@ =~= Seq::<A>::empty(),
            final(self).name == old(self).name,
            final(self).description == old(self).description,
            final(self).priority == old(self).priority,
            final(self).stats == old(self).stats,
    {
        self.actions.clear();
    }

    pub fn stats(&self) -> (r: &SystemStats)
        ensures
            *r == self.stats,
    {
        &self.stats
    }

    /// A mutable borrow of the statistics; the system's other fields
    /// are untouched.
    pub fn stats_mut(&mut self) -> (r: &mut SystemStats)
        ensures
            *r == old(self).stats,
            *final(self) == (SimpleSystem {
                name: old(self).name,
                description: old(self).description,
                priority: old(self).priority,
                actions: old(self).actions,
                stats: *final(r),
            }),
    {
        &mut self.stats
    }

    pub fn reset_stats(&mut self)
        ensures
            final(self).stats == spec_stats_zero(),
            final(self).name == old(self).name,
            final(self).description == old(self).description,
            final(self).priority == old(self).priority,
            final(self).actions == old(self).actions,
    {
        self.stats.reset();
    }
}

/// The statistics a batch run leaves behind: counters folded in, then
/// the latency, then the completion time.
pub open spec fn process_stats_post(
    pre: SystemStats,
    objs: int,
    acts: int,
    oks: int,
    t: u64,
    now: i64,
) -> SystemStats {
    pre.spec_counted(objs, oks, objs * acts - oks).spec_with_time(t).spec_with_last(now)
}

/// Chained saturating additions collapse into one.
proof fn lemma_sat_add_chain(a: int, x: int, y: int)
    requires
        0 <= a,
        0 <= x,
        0 <= y,
    ensures
        sat_add_u64(sat_add_u64(a, x), y) == sat_add_u64(a, x + y),
{
}

/// The clamped difference of two clock readings, in milliseconds.
pub(crate) fn elapsed_ms(start: i64, end: i64) -> u64 {
    let d: i128 = end as i128 - start as i128;
    if d < 0 {
        0
    } else if d > u64::MAX as i128 {
        u64::MAX
    } else {
        d as u64
    }
}

impl<A: Action> System for SimpleSystem<A> {
    open spec fn spec_name(&self) -> Seq<char> {
        self.name@
    }

    open spec fn spec_priority(&self) -> Priority {
        self.priority
    }

    open spec fn spec_ready(&self) -> bool {
        true
    }

    open spec fn spec_stats(&self) -> SystemStats {
        self.stats
    }

    fn name(&self) -> (r: &str) {
        self.name.as_str()
    }

    fn description(&self) -> (r: &str)
        ensures
            r@ == self.description@,
    {
        self.description.as_str()
    }

    fn initialize(&mut self) -> (r: Result<(), OatsError>)
        ensures
            r is Ok,
            *final(self) == *old(self),
    {
        Ok(())
    }

    fn shutdown(&mut self) -> (r: Result<(), OatsError>)
        ensures
            r is Ok,
            *final(self) == *old(self),
    {
        Ok(())
    }

    fn priority(&self) -> (r: Priority) {
        self.priority
    }

    fn is_ready(&self) -> (r: bool) {
        true
    }

    fn get_stats(&self) -> (r: SystemStats) {
        self.stats
    }

    /// Runs every action against every object. An action's error does
    /// not stop the batch: it is recorded as a failure result and in the
    /// error counter. Successful executions count as actions executed;
    /// every object counts as processed; the pass's latency is folded
    /// into the statistics and the last-processed time is set.
    fn process(&mut self, objects: Vec<Object>, _priority: Priority) -> (r: Result<
        Vec<ActionResult>,
        OatsError,
    >)
        ensures
            r is Ok,
            r matches Ok(results) ==> results@.len() == objects@.len() * old(
                self,
            ).actions@.len(),
            final(self).name == old(self).name,
            final(self).description == old(self).description,
            final(self).priority == old(self).priority,
            final(self).actions == old(self).actions,
            exists|oks: int, t: u64, now: i64|
                0 <= oks <= objects@.len() * old(self).actions@.len() && final(self).stats == (
                #[trigger] process_stats_post(
                    old(self).stats,
                    objects@.len() as int,
                    old(self).actions@.len() as int,
                    oks,
                    t,
                    now,
                )),
    {
        let start = now_millis();
        let ocount = objects.len();
        let acount = self.actions.len();
        let mut results: Vec<ActionResult> = Vec::with_capacity(ocount);
        let ghost mut oks: int = 0;
        let mut i: usize = 0;
        while i < ocount
            invariant
                ocount == objects@.len(),
                acount == self.actions@.len(),
                i <= ocount,
                forall|x: int| 0 <= x < objects@.len() ==> (#[trigger] objects@[x]).wf(),
                results@.len() == i * acount,
                0 <= oks <= i * acount,
                self.stats == old(self).stats.spec_counted(i as int, oks, i * acount - oks),
                self.name == old(self).name,
                self.description == old(self).description,
                self.priority == old(self).priority,
                self.actions == old(self).actions,
            decreases ocount - i,
        {
            let mut j: usize = 0;
            while j < acount
                invariant
                    ocount == objects@.len(),
                    acount == self.actions@.len(),
                    i < ocount,
                    j <= acount,
                    forall|x: int| 0 <= x < objects@.len() ==> (#[trigger] objects@[x]).wf(),
                    results@.len() == i * acount + j,
                    0 <= oks <= i * acount + j,
                    self.stats == old(self).stats.spec_counted(
                        i as int,
                        oks,
                        i * acount + j - oks,
                    ),
                    self.name == old(self).name,
                    self.description == old(self).description,
                    self.priority == old(self).priority,
                    self.actions == old(self).actions,
                decreases acount - j,
            {
                let mut context = ActionContext::with_capacity(1, 0);
                let target = objects[i].clone();
                proof {
                    lemma_obj_equiv_wf(objects@[i as int], target);
                }
                context.add_object("target".to_owned(), target);
                let ghost pre_stats = self.stats;
                match self.actions[j].execute(context) {
                    Ok(result) => {
                        results.push(result);
                        if self.stats.actions_executed < u64::MAX {
                            self.stats.actions_executed = self.stats.actions_executed + 1;
                        }
                        proof {
                            oks = oks + 1;
                            lemma_sat_add_chain(
                                old(self).stats.actions_executed as int,
                                oks - 1,
                                1,
                            );
                        }
                    },
                    Err(e) => {
                        if self.stats.errors < u64::MAX {
                            self.stats.errors = self.stats.errors + 1;
                        }
                        let failure_message = concat_str("Action failed: ", &e.message());
                        results.push(ActionResult::failure(failure_message));
                        proof {
                            lemma_sat_add_chain(
                                old(self).stats.errors as int,
                                i * acount + j - oks,
                                1,
                            );
                        }
                    },
                }
                j += 1;
            }
            if self.stats.objects_processed < u64::MAX {
                self.stats.objects_processed = self.stats.objects_processed + 1;
            }
            proof {
                lemma_sat_add_chain(old(self).stats.objects_processed as int, i as int, 1);
                assert((i + 1) * acount == i * acount + acount) by (nonlinear_arith);
            }
            i += 1;
        }
        let end = now_millis();
        let elapsed = elapsed_ms(start, end);
        self.stats.update_processing_time(elapsed);
        let now = now_millis();
        self.stats.last_processed = Some(now);
        proof {
            assert(self.stats == process_stats_post(
                old(self).stats,
                ocount as int,
                acount as int,
                oks,
                elapsed,
                now,
            ));
        }
        Ok(results)
    }
}

/// A copy of a batch of well-formed objects; each copy is equivalent to
/// its original.
fn clone_objects(objects: &Vec<Object>) -> (r: Vec<Object>)
    requires
        forall|i: int| 0 <= i < objects@.len() ==> (#[trigger] objects@[i]).wf(),
    ensures
        r@.len() == objects@.len(),
        forall|i: int| 0 <= i < objects@.len() ==> obj_equiv(objects@[i], #[trigger] r@[i]),
        forall|i: int| 0 <= i < r@.len() ==> (#[trigger] r@[i]).wf(),
{
    let r = objects.clone();
    proof {
        assert forall|i: int| 0 <= i < objects@.len() implies obj_equiv(objects@[i], #[trigger] r@[i])
            && r@[i].wf() by {
            assert(cloned::<Object>(objects@[i], r@[i]));
            lemma_cloned_obj_equiv(objects@[i], r@[i]);
            lemma_obj_equiv_wf(objects@[i], r@[i]);
        }
    }
    r
}

/// A system manager: a keyed collection of systems — inserting a second
/// system under an already-used name replaces the first, a documented
/// last-write-wins policy — and the canonical object registry.
pub struct SystemManager<S: System> {
    pub systems: StringMap<S>,
    pub object_registry: IdMap<Object>,
}

/// Whether the value `v` occurs in `order`.
pub open spec fn occurs_in(order: Seq<usize>, v: int) -> bool {
    exists|i: int| 0 <= i < order.len() && (#[trigger] order[i]) == v
}

/// The rank of the system at position `idx` of the manager's table.
pub open spec fn rank_of<S: System>(m: SystemManager<S>, idx: int) -> int {
    priority_rank(m.systems@[idx].1.spec_priority())
}

/// The message of a failure result the pass synthesizes for a system
/// whose `process` call itself erred.
pub open spec fn system_failure_message(detail: Seq<char>) -> Seq<char> {
    "System error: "@ + detail
}

/// A failure result synthesized by a pass: flagged unsuccessful, no
/// trait updates, one message reporting a system error.
pub open spec fn is_system_failure_result(res: ActionResult) -> bool {
    &&& !res.success
    &&& res.trait_updates@.len() == 0
    &&& res.messages@.len() == 1
    &&& exists|detail: Seq<char>| res.messages@[0]@ == #[trigger] system_failure_message(detail)
}

/// What a pass leaves of a ready system whose `process` call succeeded:
/// the snapshot's `batch` objects counted into its statistics and the
/// completion time set.
pub open spec fn pass_counted<S: System>(pre: S, post: S, batch: int) -> bool {
    &&& post.spec_stats().objects_processed == sat_add_u64(
        pre.spec_stats().objects_processed as int,
        batch,
    ) as u64
    &&& post.spec_stats().last_processed is Some
}

/// Whether some result in the list is a synthesized system failure.
pub open spec fn has_system_failure(results: Seq<ActionResult>) -> bool {
    exists|w: int| 0 <= w < results.len() && is_system_failure_result(#[trigger] results[w])
}

/// The message of the aggregate error a lifecycle sweep raises: a
/// prefix naming the operation, the offending system's registered name,
/// and that system's own error text.
pub open spec fn lifecycle_failure_message(prefix: Seq<char>, name: Seq<char>, detail: Seq<
    char,
>) -> Seq<char> {
    prefix + name + "': "@ + detail
}

/// The outcome a pass owes for the system table entry at `j`: a
/// not-ready system untouched; a ready one processed, its statistics
/// counting the snapshot — or a synthesized failure among the results.
pub open spec fn pass_entry_outcome<S: System>(
    pre: Seq<(Seq<char>, S)>,
    post: Seq<(Seq<char>, S)>,
    results: Seq<ActionResult>,
    batch: int,
    j: int,
) -> bool {
    if pre[j].1.spec_ready() {
        pass_counted(pre[j].1, post[j].1, batch) || has_system_failure(results)
    } else {
        post[j] == pre[j]
    }
}

impl<S: System> SystemManager<S> {
    /// Well-formedness: unique system names and registry keys, every
    /// registered object well-formed and keyed by its own identifier.
    pub open spec fn wf(&self) -> bool {
        &&& self.systems.wf()
        &&& self.object_registry.wf()
        &&& forall|i: int|
            0 <= i < self.object_registry@.len() ==> (#[trigger] self.object_registry@[i]).1.wf()
                && self.object_registry@[i].1.id == self.object_registry@[i].0
    }

    pub fn new() -> (r: Self)
        ensures
            r.systems@ =~= Seq::<(Seq<char>, S)>::empty(),
            r.object_registry@ =~= Seq::<(u128, Object)>::empty(),
            r.wf(),
    {
        SystemManager { systems: StringMap::new(), object_registry: IdMap::with_capacity(100) }
    }

    pub fn with_capacity(expected_objects: usize) -> (r: Self)
        ensures
            r.systems@ =~= Seq::<(Seq<char>, S)>::empty(),
            r.object_registry@ =~= Seq::<(u128, Object)>::empty(),
            r.wf(),
    {
        SystemManager {
            systems: StringMap::new(),
            object_registry: IdMap::with_capacity(expected_objects),
        }
    }

    /// Registers a system under its name; a system already registered
    /// under that name is replaced (last-write-wins).
    pub fn add_system(&mut self, system: S)
        requires
            old(self).wf(),
        ensures
            final(self).wf(),
            final(self).systems.spec_get(system.spec_name()) == Some(system),
            final(self).systems.has_key(system.spec_name()),
            forall|k: Seq<char>| k != system.spec_name() ==> final(self).systems.spec_get(k) == old(
                self,
            ).systems.spec_get(k),
            forall|k: Seq<char>| k != system.spec_name() ==> final(self).systems.has_key(k) == old(
                self,
            ).systems.has_key(k),
            final(self).object_registry == old(self).object_registry,
    {
        let name = system.name().to_owned();
        self.systems.insert(name, system);
    }

    /// Removes and returns the system registered under `name`.
    pub fn remove_system(&mut self, name: &str) -> (r: Option<S>)
        requires
            old(self).wf(),
        ensures
            final(self).wf(),
            r == old(self).systems.spec_get(name@),
            !final(self).systems.has_key(name@),
            forall|k: Seq<char>| k != name@ ==> final(self).systems.spec_get(k) == old(
                self,
            ).systems.spec_get(k),
            forall|k: Seq<char>| k != name@ ==> final(self).systems.has_key(k) == old(
                self,
            ).systems.has_key(k),
            final(self).object_registry == old(self).object_registry,
    {
        self.systems.remove(name)
    }

    pub fn get_system(&self, name: &str) -> (r: Option<&S>)
        requires
            self.wf(),
        ensures
            match r {
                Some(s) => self.systems.spec_get(name@) == Some(*s),
                None => !self.systems.has_key(name@),
            },
    {
        self.systems.get(name)
    }

    pub fn systems(&self) -> (r: &StringMap<S>)
        ensures
            *r == self.systems,
    {
        &self.systems
    }

    pub fn system_count(&self) -> (r: usize)
        ensures
            r == self.systems@.len(),
    {
        self.systems.len()
    }

    /// Registers an object under its identifier; an object already
    /// registered under that identifier is replaced.
    pub fn register_object(&mut self, object: Object)
        requires
            old(self).wf(),
            object.wf(),
        ensures
            final(self).wf(),
            final(self).object_registry.spec_get(object.id) == Some(object),
            final(self).object_registry.has_key(object.id),
            forall|k: u128| k != object.id ==> final(self).object_registry.spec_get(k) == old(
                self,
            ).object_registry.spec_get(k),
            forall|k: u128| k != object.id ==> final(self).object_registry.has_key(k) == old(
                self,
            ).object_registry.has_key(k),
            final(self).systems == old(self).systems,
    {
        let ghost pre = self.object_registry;
        let id = object.id;
        self.object_registry.insert(id, object);
        proof {
            if pre.has_key(id) {
                let w = pre.index_of_key(id);
                assert(self.object_registry@ =~= pre@.update(w, (id, object)));
            } else {
                assert(self.object_registry@ =~= pre@.push((id, object)));
            }
        }
    }

    /// A copy of the object registered under `id`, if any.
    pub fn get_object(&self, id: u128) -> (r: Option<Object>)
        requires
            self.wf(),
        ensures
            match r {
                Some(o) => {
                    &&& self.object_registry.spec_get(id) matches Some(v) && obj_equiv(v, o)
                    &&& o.wf()
                },
                None => !self.object_registry.has_key(id),
            },
    {
        match self.object_registry.get(id) {
            Some(v) => {
                let o = v.clone();
                proof {
                    let w = self.object_registry.index_of_key(id);
                    lemma_obj_equiv_wf(*v, o);
                }
                Some(o)
            },
            None => None,
        }
    }

    /// A snapshot of the registry: copies of all registered objects, in
    /// registration order.
    pub fn get_all_objects(&self) -> (r: Vec<Object>)
        requires
            self.wf(),
        ensures
            r@.len() == self.object_registry@.len(),
            forall|i: int|
                0 <= i < r@.len() ==> obj_equiv(self.object_registry@[i].1, #[trigger] r@[i]),
            forall|i: int| 0 <= i < r@.len() ==> (#[trigger] r@[i]).wf(),
    {
        let n = self.object_registry.len();
        let mut out: Vec<Object> = Vec::with_capacity(n);
        let mut i: usize = 0;
        while i < n
            invariant
                self.wf(),
                n == self.object_registry@.len(),
                i <= n,
                out@.len() == i,
                forall|j: int|
                    0 <= j < i ==> obj_equiv(self.object_registry@[j].1, #[trigger] out@[j]),
                forall|j: int| 0 <= j < i ==> (#[trigger] out@[j]).wf(),
            decreases n - i,
        {
            let o = self.object_registry.value_at(i).clone();
            proof {
                lemma_obj_equiv_wf(self.object_registry@[i as int].1, o);
            }
            out.push(o);
            i += 1;
        }
        out
    }

    pub fn object_count(&self) -> (r: usize)
        ensures
            r == self.object_registry@.len(),
    {
        self.object_registry.len()
    }

    pub fn clear_objects(&mut self)
        ensures
            final(self).object_registry@ =~= Seq::<(u128, Object)>::empty(),
            final(self).systems == old(self).systems,
            old(self).wf() ==> final(self).wf(),
    {
        self.object_registry.clear();
    }

    pub fn reserve_objects(&mut self, additional: usize)
        ensures
            final(self).object_registry@ == old(self).object_registry@,
            final(self).systems == old(self).systems,
    {
        self.object_registry.reserve(additional);
    }

    /// The rank of the system at table position `idx`.
    fn rank_at(&self, idx: usize) -> (r: u8)
        requires
            idx < self.systems@.len(),
        ensures
            r as int == rank_of(*self, idx as int),
    {
        self.systems.value_at(idx).priority().rank()
    }

    /// The order in which a pass visits the system table: a permutation
    /// of the table's positions, sorted by descending priority; systems
    /// of equal priority keep their registration order (a stable sort).
    pub fn execution_order(&self) -> (order: Vec<usize>)
        ensures
            order@.len() == self.systems@.len(),
            forall|i: int| 0 <= i < order@.len() ==> (#[trigger] order@[i]) < self.systems@.len(),
            forall|i: int, j: int| #![trigger order@[i], order@[j]]
                0 <= i < j < order@.len() ==> rank_of(*self, order@[i] as int) >= rank_of(
                    *self,
                    order@[j] as int,
                ),
            forall|i: int, j: int| #![trigger order@[i], order@[j]]
                0 <= i < j < order@.len() && rank_of(*self, order@[i] as int) == rank_of(
                    *self,
                    order@[j] as int,
                ) ==> order@[i] < order@[j],
            forall|v: int| 0 <= v < self.systems@.len() ==> #[trigger] occurs_in(order@, v),
    {
        let n = self.systems.len();
        let mut order: Vec<usize> = Vec::with_capacity(n);
        let mut k: usize = 0;
        while k < n
            invariant
                n == self.systems@.len(),
                order@.len() == k,
                k <= n,
                forall|i: int| 0 <= i < k ==> (#[trigger] order@[i]) < k,
                forall|i: int, j: int| #![trigger order@[i], order@[j]]
                    0 <= i < j < k ==> rank_of(*self, order@[i] as int) >= rank_of(
                        *self,
                        order@[j] as int,
                    ),
                forall|i: int, j: int| #![trigger order@[i], order@[j]]
                    0 <= i < j < k && rank_of(*self, order@[i] as int) == rank_of(
                        *self,
                        order@[j] as int,
                    ) ==> order@[i] < order@[j],
                forall|v: int| 0 <= v < k ==> #[trigger] occurs_in(order@, v),
            decreases n - k,
        {
            let rk = self.rank_at(k);
            let mut pos: usize = 0;
            while pos < k && self.rank_at(order[pos]) >= rk
                invariant
                    n == self.systems@.len(),
                    order@.len() == k,
                    k <= n,
                    pos <= k,
                    forall|i: int| 0 <= i < k ==> (#[trigger] order@[i]) < k,
                    rk as int == rank_of(*self, k as int),
                    forall|t: int|
                        0 <= t < pos ==> rank_of(*self, (#[trigger] order@[t]) as int)
                            >= rk as int,
                decreases k - pos,
            {
                pos += 1;
            }
            let ghost pre = order@;
            order.insert(pos, k);
            proof {
                let q = order@;
                let gp = pos as int;
                let gk = k as int;
                assert(q =~= pre.insert(gp, k as usize));
                assert(q.len() == gk + 1);
                assert forall|t: int| 0 <= t < gp implies q[t] == pre[t] by {}
                assert(q[gp] == k as usize);
                assert forall|t: int| gp < t < q.len() implies q[t] == pre[t - 1] by {}
                // Everything from `pos` on in the old order ranks strictly
                // below the new system.
                assert forall|t: int| gp <= t < gk implies rank_of(*self, (#[trigger] pre[t]) as int)
                    < rk as int by {
                    if gp < gk {
                        assert(rank_of(*self, pre[gp] as int) < rk as int);
                        if t > gp {
                            assert(rank_of(*self, pre[gp] as int) >= rank_of(
                                *self,
                                pre[t] as int,
                            ));
                        }
                    }
                }
                // Sortedness of the extended order.
                assert forall|i: int, j: int| #![trigger q[i], q[j]]
                    0 <= i < j < q.len() implies rank_of(*self, q[i] as int) >= rank_of(
                    *self,
                    q[j] as int,
                ) by {
                    if j < gp {
                        assert(q[i] == pre[i] && q[j] == pre[j]);
                    } else if j == gp {
                        assert(q[i] == pre[i]);
                        assert(rank_of(*self, pre[i] as int) >= rk as int);
                    } else if i < gp {
                        assert(q[i] == pre[i] && q[j] == pre[j - 1]);
                        assert(rank_of(*self, pre[j - 1] as int) < rk as int);
                        assert(rank_of(*self, pre[i] as int) >= rk as int);
                    } else if i == gp {
                        assert(q[j] == pre[j - 1]);
                        assert(rank_of(*self, pre[j - 1] as int) < rk as int);
                    } else {
                        assert(q[i] == pre[i - 1] && q[j] == pre[j - 1]);
                    }
                }
                // Stability of the extended order.
                assert forall|i: int, j: int| #![trigger q[i], q[j]]
                    0 <= i < j < q.len() && rank_of(*self, q[i] as int) == rank_of(
                    *self,
                    q[j] as int,
                ) implies q[i] < q[j] by {
                    if j < gp {
                        assert(q[i] == pre[i] && q[j] == pre[j]);
                    } else if j == gp {
                        assert(q[i] == pre[i]);
                        assert(pre[i] < k as usize);
                    } else if i < gp {
                        assert(q[i] == pre[i] && q[j] == pre[j - 1]);
                        assert(rank_of(*self, pre[j - 1] as int) < rk as int);
                        assert(rank_of(*self, pre[i] as int) >= rk as int);
                    } else if i == gp {
                        assert(q[j] == pre[j - 1]);
                        assert(rank_of(*self, pre[j - 1] as int) < rk as int);
                    } else {
                        assert(q[i] == pre[i - 1] && q[j] == pre[j - 1]);
                    }
                }
                // Every position up to and including `k` occurs.
                assert forall|v: int| 0 <= v < gk + 1 implies #[trigger] occurs_in(q, v) by {
                    if v == gk {
                        assert(q[gp] == v);
                    } else {
                        assert(occurs_in(pre, v));
                        let w = choose|i: int| 0 <= i < pre.len() && (#[trigger] pre[i]) == v;
                        if w < gp {
                            assert(q[w] == v);
                        } else {
                            assert(q[w + 1] == v);
                        }
                    }
                }
            }
            k += 1;
        }
        order
    }

    /// Processes the registry snapshot through every ready system, in
    /// descending priority order (registration order among equals, per
    /// [`Self::execution_order`], which the pass follows). A
    /// system-level error does not stop the pass: it is recorded as one
    /// failure result and the pass continues. Results are accumulated in
    /// dispatch order. The registry itself is not changed: proposed
    /// trait updates are carried in the results, never applied here.
    /// Not-ready systems are skipped untouched; every ready system's
    /// final statistics count the snapshot, unless the pass recorded a
    /// synthesized failure for a system whose `process` call erred.
    pub fn process_all(&mut self, priority: Priority) -> (r: Result<Vec<ActionResult>, OatsError>)
        requires
            old(self).wf(),
        ensures
            final(self).wf(),
            r is Ok,
            final(self).object_registry == old(self).object_registry,
            final(self).systems@.len() == old(self).systems@.len(),
            forall|i: int|
                0 <= i < final(self).systems@.len() ==> (#[trigger] final(self).systems@[i]).0
                    == old(self).systems@[i].0,
            forall|j: int|
                0 <= j < old(self).systems@.len() && !(#[trigger] old(
                    self,
                ).systems@[j]).1.spec_ready() ==> final(self).systems@[j] == old(self).systems@[j],
            forall|j: int|
                0 <= j < old(self).systems@.len() && (#[trigger] old(
                    self,
                ).systems@[j]).1.spec_ready() ==> pass_counted(
                    old(self).systems@[j].1,
                    final(self).systems@[j].1,
                    old(self).object_registry@.len() as int,
                ) || has_system_failure(r->Ok_0@),
    {
        let objects = self.get_all_objects();
        let order = self.execution_order();
        let n = order.len();
        proof {
            // The order is pairwise distinct: equal entries would have
            // equal ranks, and equal ranks are dispatched in strictly
            // increasing table order.
            assert forall|p: int, q: int| 0 <= p < q < n implies (#[trigger] order@[p]) != (
            #[trigger] order@[q]) by {
                if order@[p] == order@[q] {
                    assert(rank_of(*self, order@[p] as int) == rank_of(*self, order@[q] as int));
                    assert(order@[p] < order@[q]);
                }
            }
        }
        let ghost batch_size = self.object_registry@.len() as int;
        let mut all_results: Vec<ActionResult> = Vec::new();
        let mut i: usize = 0;
        while i < n
            invariant
                n == order@.len(),
                i <= n,
                self.wf(),
                self.object_registry == old(self).object_registry,
                batch_size == old(self).object_registry@.len() as int,
                self.systems@.len() == old(self).systems@.len(),
                forall|j: int|
                    0 <= j < self.systems@.len() ==> (#[trigger] self.systems@[j]).0 == old(
                        self,
                    ).systems@[j].0,
                forall|j: int| 0 <= j < order@.len() ==> (#[trigger] order@[j])
                    < self.systems@.len(),
                forall|p: int, q: int|
                    0 <= p < q < n ==> (#[trigger] order@[p]) != (#[trigger] order@[q]),
                forall|j: int| 0 <= j < objects@.len() ==> (#[trigger] objects@[j]).wf(),
                objects@.len() == old(self).object_registry@.len(),
                forall|p: int|
                    i <= p < n ==> self.systems@[(#[trigger] order@[p]) as int] == old(
                        self,
                    ).systems@[order@[p] as int],
                forall|p: int|
                    0 <= p < i ==> pass_entry_outcome(
                        old(self).systems@,
                        self.systems@,
                        all_results@,
                        batch_size,
                        (#[trigger] order@[p]) as int,
                    ),
            decreases n - i,
        {
            let idx = order[i];
            let ghost gidx = idx as int;
            let ghost pre_systems = self.systems;
            let ghost pre_results = all_results@;
            proof {
                assert(order@[i as int] == gidx);
                assert(pre_systems@[gidx] == old(self).systems@[gidx]);
            }
            let ready = self.systems.value_at(idx).is_ready();
            if ready {
                let batch = clone_objects(&objects);
                let sys = self.systems.value_at_mut(idx);
                match sys.process(batch, priority) {
                    Ok(mut rs) => {
                        all_results.append(&mut rs);
                        proof {
                            assert(batch@.len() as int == batch_size);
                            assert(self.systems@[gidx].1.spec_stats().objects_processed
                                == sat_add_u64(
                                pre_systems@[gidx].1.spec_stats().objects_processed as int,
                                batch_size,
                            ) as u64);
                            assert(self.systems@[gidx].1.spec_stats().last_processed is Some);
                            assert(pass_counted(
                                old(self).systems@[gidx].1,
                                self.systems@[gidx].1,
                                batch_size,
                            ));
                        }
                    },
                    Err(e) => {
                        let failure_message = concat_str("System error: ", &e.message());
                        let failure_result = ActionResult::failure(failure_message);
                        proof {
                            assert(failure_result.messages@[0]@ == system_failure_message(
                                e.spec_message(),
                            ));
                            assert(is_system_failure_result(failure_result));
                        }
                        all_results.push(failure_result);
                        proof {
                            let last = all_results@.len() - 1;
                            assert(all_results@[last] == failure_result);
                            assert(is_system_failure_result(all_results@[last]));
                            assert(has_system_failure(all_results@));
                        }
                    },
                }
                proof {
                    lemma_update_keeps_wf_and_lookups(pre_systems, self.systems, gidx);
                }
            }
            proof {
                // Results only grow, so earlier witnesses stay valid.
                assert(all_results@.len() >= pre_results.len());
                assert(forall|w: int|
                    0 <= w < pre_results.len() ==> all_results@[w] == #[trigger] pre_results[w]);
                assert(pass_entry_outcome(
                    old(self).systems@,
                    self.systems@,
                    all_results@,
                    batch_size,
                    gidx,
                ));
                assert forall|p: int|
                    0 <= p < i + 1 implies pass_entry_outcome(
                    old(self).systems@,
                    self.systems@,
                    all_results@,
                    batch_size,
                    (#[trigger] order@[p]) as int,
                ) by {
                    if p < i {
                        assert(order@[p] != order@[i as int]);
                        assert(self.systems@[order@[p] as int] == pre_systems@[order@[p] as int]);
                        assert(pass_entry_outcome(
                            old(self).systems@,
                            pre_systems@,
                            pre_results,
                            batch_size,
                            order@[p] as int,
                        ));
                        if has_system_failure(pre_results) {
                            let w = choose|w: int|
                                0 <= w < pre_results.len() && is_system_failure_result(
                                    #[trigger] pre_results[w],
                                );
                            assert(is_system_failure_result(all_results@[w]));
                            assert(has_system_failure(all_results@));
                        }
                    }
                }
            }
            i += 1;
        }
        proof {
            assert forall|j: int|
                0 <= j < old(self).systems@.len() && !(#[trigger] old(
                self,
            ).systems@[j]).1.spec_ready() implies self.systems@[j] == old(self).systems@[j] by {
                assert(occurs_in(order@, j));
                let p = choose|p: int| 0 <= p < order@.len() && (#[trigger] order@[p]) == j;
                assert(pass_entry_outcome(
                    old(self).systems@,
                    self.systems@,
                    all_results@,
                    batch_size,
                    (order@[p]) as int,
                ));
            }
            assert forall|j: int|
                0 <= j < old(self).systems@.len() && (#[trigger] old(
                self,
            ).systems@[j]).1.spec_ready() implies pass_counted(
                old(self).systems@[j].1,
                self.systems@[j].1,
                old(self).object_registry@.len() as int,
            ) || has_system_failure(all_results@) by {
                assert(occurs_in(order@, j));
                let p = choose|p: int| 0 <= p < order@.len() && (#[trigger] order@[p]) == j;
                assert(pass_entry_outcome(
                    old(self).systems@,
                    self.systems@,
                    all_results@,
                    batch_size,
                    (order@[p]) as int,
                ));
            }
        }
        Ok(all_results)
    }

    /// Runs exactly one named system against caller-supplied objects,
    /// bypassing the registry snapshot and the priority ordering. Fails
    /// with a system error when the name is unregistered or the system
    /// is not ready.
    pub fn process_with_system(
        &mut self,
        system_name: &str,
        objects: Vec<Object>,
        priority: Priority,
    ) -> (r: Result<Vec<ActionResult>, OatsError>)
        requires
            old(self).wf(),
            forall|i: int| 0 <= i < objects@.len() ==> (#[trigger] objects@[i]).wf(),
        ensures
            final(self).wf(),
            final(self).object_registry == old(self).object_registry,
            final(self).systems@.len() == old(self).systems@.len(),
            forall|i: int|
                0 <= i < final(self).systems@.len() ==> (#[trigger] final(self).systems@[i]).0
                    == old(self).systems@[i].0,
            !old(self).systems.has_key(system_name@) ==> *final(self) == *old(self) && (r matches
            Err(e) && (e matches OatsError::SystemError { message } && message@ == "System '"@
                + system_name@ + "' not found"@)),
            (old(self).systems.has_key(system_name@) && !old(self).systems.spec_get(
                system_name@,
            )->Some_0.spec_ready()) ==> *final(self) == *old(self) && (r matches Err(e) && (
            e matches OatsError::SystemError { message } && message@ == "System is not ready"@)),
            r is Ok ==> old(self).systems.has_key(system_name@) && old(self).systems.spec_get(
                system_name@,
            )->Some_0.spec_ready(),
            old(self).systems.has_key(system_name@) ==> forall|j: int|
                0 <= j < final(self).systems@.len() && j != old(self).systems.index_of_key(
                    system_name@,
                ) ==> (#[trigger] final(self).systems@[j]) == old(self).systems@[j],
    {
        let idx_opt = self.systems.index_of(system_name);
        match idx_opt {
            None => {
                let message = wrap_str("System '", system_name, "' not found");
                Err(OatsError::SystemError { message })
            },
            Some(i) => {
                proof {
                    self.systems.lemma_key_unique(system_name@, i as int);
                }
                let ready = self.systems.value_at(i).is_ready();
                if !ready {
                    Err(OatsError::SystemError { message: "System is not ready".to_owned() })
                } else {
                    let ghost pre_systems = self.systems;
                    let sys = self.systems.value_at_mut(i);
                    let res = sys.process(objects, priority);
                    proof {
                        lemma_update_keeps_wf_and_lookups(pre_systems, self.systems, i as int);
                    }
                    res
                }
            },
        }
    }

    /// Initializes every system, in registration order; stops at the
    /// first failure with a system error naming the offending system.
    pub fn initialize_all(&mut self) -> (r: Result<(), OatsError>)
        requires
            old(self).wf(),
        ensures
            final(self).wf(),
            final(self).object_registry == old(self).object_registry,
            final(self).systems@.len() == old(self).systems@.len(),
            forall|i: int|
                0 <= i < final(self).systems@.len() ==> (#[trigger] final(self).systems@[i]).0
                    == old(self).systems@[i].0,
            old(self).systems@.len() == 0 ==> r is Ok,
            r matches Err(e) ==> e matches OatsError::SystemError { message } && (exists|
                j: int,
                detail: Seq<char>,
            |
                0 <= j < old(self).systems@.len() && message@
                    == #[trigger] lifecycle_failure_message(
                    "Failed to initialize system '"@,
                    old(self).systems@[j].0,
                    detail,
                ) && (forall|j2: int|
                    j < j2 < old(self).systems@.len() ==> final(self).systems@[j2] == old(
                        self,
                    ).systems@[j2])),
    {
        let n = self.systems.len();
        let mut i: usize = 0;
        while i < n
            invariant
                n == self.systems@.len(),
                i <= n,
                self.wf(),
                self.object_registry == old(self).object_registry,
                self.systems@.len() == old(self).systems@.len(),
                forall|j: int|
                    0 <= j < self.systems@.len() ==> (#[trigger] self.systems@[j]).0 == old(
                        self,
                    ).systems@[j].0,
                forall|j2: int|
                    i <= j2 < n ==> (#[trigger] self.systems@[j2]) == old(self).systems@[j2],
            decreases n - i,
        {
            let name_key = self.systems.key_at(i).clone();
            let ghost pre_systems = self.systems;
            let sys = self.systems.value_at_mut(i);
            match sys.initialize() {
                Ok(_) => {
                    proof {
                        lemma_update_keeps_wf_and_lookups(pre_systems, self.systems, i as int);
                    }
                },
                Err(e) => {
                    proof {
                        lemma_update_keeps_wf_and_lookups(pre_systems, self.systems, i as int);
                    }
                    let mut message = wrap_str(
                        "Failed to initialize system '",
                        name_key.as_str(),
                        "': ",
                    );
                    let detail = e.message();
                    message.append(detail.as_str());
                    proof {
                        assert(message@ == lifecycle_failure_message(
                            "Failed to initialize system '"@,
                            old(self).systems@[i as int].0,
                            e.spec_message(),
                        ));
                        assert(forall|j2: int|
                            (i as int) < j2 < old(self).systems@.len() ==> (
                            #[trigger] self.systems@[j2]) == old(self).systems@[j2]);
                    }
                    return Err(OatsError::SystemError { message });
                },
            }
            i += 1;
        }
        Ok(())
    }

    /// Shuts down every system, in registration order; stops at the
    /// first failure with a system error naming the offending system.
    pub fn shutdown_all(&mut self) -> (r: Result<(), OatsError>)
        requires
            old(self).wf(),
        ensures
            final(self).wf(),
            final(self).object_registry == old(self).object_registry,
            final(self).systems@.len() == old(self).systems@.len(),
            forall|i: int|
                0 <= i < final(self).systems@.len() ==> (#[trigger] final(self).systems@[i]).0
                    == old(self).systems@[i].0,
            old(self).systems@.len() == 0 ==> r is Ok,
            r matches Err(e) ==> e matches OatsError::SystemError { message } && (exists|
                j: int,
                detail: Seq<char>,
            |
                0 <= j < old(self).systems@.len() && message@
                    == #[trigger] lifecycle_failure_message(
                    "Failed to shutdown system '"@,
                    old(self).systems@[j].0,
                    detail,
                ) && (forall|j2: int|
                    j < j2 < old(self).systems@.len() ==> final(self).systems@[j2] == old(
                        self,
                    ).systems@[j2])),
    {
        let n = self.systems.len();
        let mut i: usize = 0;
        while i < n
            invariant
                n == self.systems@.len(),
                i <= n,
                self.wf(),
                self.object_registry == old(self).object_registry,
                self.systems@.len() == old(self).systems@.len(),
                forall|j: int|
                    0 <= j < self.systems@.len() ==> (#[trigger] self.systems@[j]).0 == old(
                        self,
                    ).systems@[j].0,
                forall|j2: int|
                    i <= j2 < n ==> (#[trigger] self.systems@[j2]) == old(self).systems@[j2],
            decreases n - i,
        {
            let name_key = self.systems.key_at(i).clone();
            let ghost pre_systems = self.systems;
            let sys = self.systems.value_at_mut(i);
            match sys.shutdown() {
                Ok(_) => {
                    proof {
                        lemma_update_keeps_wf_and_lookups(pre_systems, self.systems, i as int);
                    }
                },
                Err(e) => {
                    proof {
                        lemma_update_keeps_wf_and_lookups(pre_systems, self.systems, i as int);
                    }
                    let mut message = wrap_str(
                        "Failed to shutdown system '",
                        name_key.as_str(),
                        "': ",
                    );
                    let detail = e.message();
                    message.append(detail.as_str());
                    proof {
                        assert(message@ == lifecycle_failure_message(
                            "Failed to shutdown system '"@,
                            old(self).systems@[i as int].0,
                            e.spec_message(),
                        ));
                        assert(forall|j2: int|
                            (i as int) < j2 < old(self).systems@.len() ==> (
                            #[trigger] self.systems@[j2]) == old(self).systems@[j2]);
                    }
                    return Err(OatsError::SystemError { message });
                },
            }
            i += 1;
        }
        Ok(())
    }

    /// Statistics snapshots of all systems, keyed by their registered
    /// names, in registration order.
    pub fn get_all_stats(&self) -> (r: StringMap<SystemStats>)
        requires
            self.wf(),
        ensures
            r.wf(),
            r@.len() == self.systems@.len(),
            forall|i: int|
                0 <= i < r@.len() ==> (#[trigger] r@[i]).0 == self.systems@[i].0 && r@[i].1
                    == self.systems@[i].1.spec_stats(),
    {
        let n = self.systems.len();
        let mut out: StringMap<SystemStats> = StringMap::with_capacity(n);
        let mut i: usize = 0;
        while i < n
            invariant
                self.wf(),
                n == self.systems@.len(),
                i <= n,
                out.wf(),
                out@.len() == i,
                forall|j: int|
                    0 <= j < i ==> (#[trigger] out@[j]).0 == self.systems@[j].0 && out@[j].1
                        == self.systems@[j].1.spec_stats(),
            decreases n - i,
        {
            let key = self.systems.key_at(i).clone();
            let stats = self.systems.value_at(i).get_stats();
            let ghost pre = out;
            proof {
                if out.has_key(key@) {
                    let w = out.index_of_key(key@);
                    assert(out@[w].0 == self.systems@[w].0);
                    assert(self.systems@[w].0 != self.systems@[i as int].0);
                    assert(false);
                }
            }
            out.insert(key, stats);
            proof {
                assert(out@ =~= pre@.push((self.systems@[i as int].0, stats)));
            }
            i += 1;
        }
        out
    }
}

impl<S: System> Default for SystemManager<S> {
    fn default() -> (r: Self)
        ensures
            r.systems@ =~= Seq::<(Seq<char>, S)>::empty(),
            r.object_registry@ =~= Seq::<(u128, Object)>::empty(),
            r.wf(),
    {
        SystemManager::new()
    }
}

} // verus!
