//! A small health-decay setup that exercises the whole stack end to
//! end: an action that increments a numeric trait, and a system that
//! applies a one-point decay to every object carrying a `health` trait.

use vstd::prelude::*;
use crate::actions::{Action, ActionContext, ActionResult};
use crate::clock::now_millis;
use crate::error::OatsError;
use crate::objects::Object;
use crate::systems::{
    sat_add_u64, spec_stats_zero, Priority, System, SystemStats,
};
use crate::text::{concat_str, i64_to_string, spec_i64_digits, wrap_str};
use crate::traits::{Trait, TraitData};

verus! {

/// The numeric payload of the trait named `name` on `o`, if the trait
/// exists and is a number.
pub open spec fn current_number(o: Object, name: Seq<char>) -> Option<i64> {
    match o.traits.spec_get(name) {
        Some(t) => match t.data {
            TraitData::Number(n) => Some(n),
            _ => None,
        },
        None => None,
    }
}

/// The object handed to an action under the `target` role.
pub open spec fn target_of(context: ActionContext) -> Option<Object> {
    context.objects.spec_get("target"@)
}

/// The message an increment action reports: the trait's name, the old
/// value and the new one, in decimal.
pub open spec fn increment_message(name: Seq<char>, from: int, to: int) -> Seq<char> {
    "Incremented "@ + name + " from "@ + spec_i64_digits(from) + " to "@ + spec_i64_digits(to)
}

/// An action that adds a fixed amount to a numeric trait of the target
/// object, proposing the sum as a fresh version-1 trait update.
pub struct TestIncrementAction {
    pub trait_name: String,
    pub increment: i64,
}

impl TestIncrementAction {
    pub fn new(trait_name: String, increment: i64) -> (r: Self)
        ensures
            r.trait_name == trait_name,
            r.increment == increment,
    {
        TestIncrementAction { trait_name, increment }
    }
}

impl Action for TestIncrementAction {
    fn name(&self) -> (r: &str)
        ensures
            r@ == "test_increment"@,
    {
        "test_increment"
    }

    fn description(&self) -> (r: &str)
        ensures
            r@ == "Test action that increments a trait"@,
    {
        "Test action that increments a trait"
    }

    /// Reads the target object's trait, adds the increment, and returns
    /// a success result carrying one trait update and one message.
    /// Succeeds exactly when the target is present, carries the trait as
    /// a number, and the sum stays representable; each shortfall yields
    /// its own typed error.
    fn execute(&self, context: ActionContext) -> (r: Result<ActionResult, OatsError>)
        ensures
            r is Ok <==> (target_of(context) matches Some(o) && current_number(
                o,
                self.trait_name@,
            ) matches Some(cur) && i64::MIN <= cur + self.increment <= i64::MAX),
            r matches Ok(res) ==> ({
                let o = target_of(context)->Some_0;
                let cur = current_number(o, self.trait_name@)->Some_0;
                &&& res.success
                &&& res.trait_updates@.len() == 1
                &&& res.trait_updates@[0].name@ == self.trait_name@
                &&& res.trait_updates@[0].version == 1
                &&& res.trait_updates@[0].data == TraitData::Number(
                    (cur + self.increment) as i64,
                )
                &&& res.messages@.len() == 1
                &&& res.messages@[0]@ == increment_message(
                    self.trait_name@,
                    cur as int,
                    cur + self.increment,
                )
                &&& res.data@.len() == 0
            }),
            target_of(context) is None ==> (r matches Err(e) && (e matches
            OatsError::ActionFailed { message } && message@ == "Target object not found"@)),
            (target_of(context) matches Some(o) && !o.traits.has_key(self.trait_name@)) ==> (
            r matches Err(e) && (e matches OatsError::TraitNotFound { trait_name } && trait_name@
                == self.trait_name@)),
            (target_of(context) matches Some(o) && o.traits.has_key(self.trait_name@)
                && current_number(o, self.trait_name@) is None) ==> (r matches Err(e) && (
            e matches OatsError::ActionFailed { message } && message@ == "Trait is not numeric"@)),
            (target_of(context) matches Some(o) && current_number(o, self.trait_name@) matches Some(
                cur,
            ) && !(i64::MIN <= cur + self.increment <= i64::MAX)) ==> (r matches Err(e) && (
            e matches OatsError::ActionFailed { message } && message@
                == "Numeric result out of range"@)),
    {
        let target_object = match context.get_object("target") {
            Some(o) => o,
            None => {
                return Err(OatsError::action_failed("Target object not found".to_owned()));
            },
        };
        proof {
            let w = context.objects.index_of_key("target"@);
            assert(context.objects@[w].1.wf());
        }
        let current_trait = match target_object.get_trait(self.trait_name.as_str()) {
            Some(t) => t,
            None => {
                return Err(OatsError::trait_not_found(self.trait_name.clone()));
            },
        };
        proof {
            let w = target_object.traits.index_of_key(self.trait_name@);
            assert(target_object.traits@[w].1.wf());
        }
        let current_value = match current_trait.data().as_number() {
            Some(n) => n,
            None => {
                return Err(OatsError::action_failed("Trait is not numeric".to_owned()));
            },
        };
        let sum: i128 = current_value as i128 + self.increment as i128;
        if sum < i64::MIN as i128 || sum > i64::MAX as i128 {
            return Err(OatsError::action_failed("Numeric result out of range".to_owned()));
        }
        let new_value: i64 = sum as i64;
        let new_trait = Trait::new(self.trait_name.clone(), TraitData::Number(new_value));

        let mut result = ActionResult::success();
        result.add_trait_update(new_trait);
        let mut message = wrap_str("Incremented ", self.trait_name.as_str(), " from ");
        let from_digits = i64_to_string(current_value);
        message.append(from_digits.as_str());
        message.append(" to ");
        let to_digits = i64_to_string(new_value);
        message.append(to_digits.as_str());
        result.add_message(message);
        Ok(result)
    }

    fn required_traits(&self) -> (r: Vec<String>)
        ensures
            r@.len() == 1,
            r@[0]@ == self.trait_name@,
    {
        let mut v: Vec<String> = Vec::new();
        v.push(self.trait_name.clone());
        v
    }
}

/// Whether the one-point health decay succeeds on `o`.
pub open spec fn health_ok(o: Object) -> bool {
    current_number(o, "health"@) matches Some(cur) && cur - 1 >= i64::MIN
}

/// The objects of a batch that carry a `health` trait, in order.
pub open spec fn health_objects(objects: Seq<Object>) -> Seq<Object>
    decreases objects.len(),
{
    if objects.len() == 0 {
        Seq::empty()
    } else if objects.last().traits.has_key("health"@) {
        health_objects(objects.drop_last()).push(objects.last())
    } else {
        health_objects(objects.drop_last())
    }
}

/// How many objects of a batch decay successfully.
pub open spec fn health_ok_count(objects: Seq<Object>) -> int
    decreases objects.len(),
{
    if objects.len() == 0 {
        0
    } else {
        health_ok_count(objects.drop_last()) + if objects.last().traits.has_key("health"@)
            && health_ok(objects.last()) {
            1int
        } else {
            0int
        }
    }
}

/// The diagnostic the decay records when it fails on `o`.
pub open spec fn health_failure_detail(o: Object) -> Seq<char> {
    if current_number(o, "health"@) is None {
        "Action failed: "@ + "Trait is not numeric"@
    } else {
        "Action failed: "@ + "Numeric result out of range"@
    }
}

/// What the health system's result for a single health-carrying object
/// looks like.
pub open spec fn health_result_for(o: Object, res: ActionResult) -> bool {
    if health_ok(o) {
        let cur = current_number(o, "health"@)->Some_0;
        &&& res.success
        &&& res.trait_updates@.len() == 1
        &&& res.trait_updates@[0].name@ == "health"@
        &&& res.trait_updates@[0].version == 1
        &&& res.trait_updates@[0].data == TraitData::Number((cur - 1) as i64)
        &&& res.messages@.len() == 1
        &&& res.messages@[0]@ == increment_message("health"@, cur as int, cur - 1)
    } else {
        &&& !res.success
        &&& res.trait_updates@.len() == 0
        &&& res.messages@.len() == 1
        &&& res.messages@[0]@ == "Health action failed: "@ + health_failure_detail(o)
    }
}

/// The statistics the health system leaves behind: counters folded in,
/// the pass's latency added to the total, and the completion time set.
pub open spec fn health_stats_post(
    pre: SystemStats,
    objs: int,
    oks: int,
    errs: int,
    t: u64,
    now: i64,
) -> SystemStats {
    let c = pre.spec_counted(objs, oks, errs);
    SystemStats {
        objects_processed: c.objects_processed,
        actions_executed: c.actions_executed,
        errors: c.errors,
        total_processing_time_ms: sat_add_u64(c.total_processing_time_ms as int, t as int) as u64,
        last_processed: Some(now),
        avg_processing_time_ms: c.avg_processing_time_ms,
        peak_processing_time_ms: c.peak_processing_time_ms,
    }
}

/// A system that applies a one-point health decay to every object
/// carrying a `health` trait.
pub struct TestHealthSystem {
    pub name: String,
    pub description: String,
    pub stats: SystemStats,
}

impl TestHealthSystem {
    pub fn new() -> (r: Self)
        ensures
            r.name@ == "test_health_system"@,
            r.description@ == "Test health system"@,
            r.stats == spec_stats_zero(),
    {
        TestHealthSystem {
            name: "test_health_system".to_owned(),
            description: "Test health system".to_owned(),
            stats: SystemStats::default(),
        }
    }
}

impl System for TestHealthSystem {
    open spec fn spec_name(&self) -> Seq<char> {
        self.name@
    }

    open spec fn spec_priority(&self) -> Priority {
        Priority::Normal
    }

    open spec fn spec_ready(&self) -> bool {
        true
    }

    open spec fn spec_stats(&self) -> SystemStats {
        self.stats
    }

    fn name(&self) -> (r: &str) {
        self.name.as_str()
    }

    fn description(&self) -> (r: &str)
        ensures
            r@ == self.description@,
    {
        self.description.as_str()
    }

    fn initialize(&mut self) -> (r: Result<(), OatsError>)
        ensures
            r is Ok,
            *final(self) == *old(self),
    {
        Ok(())
    }

    fn shutdown(&mut self) -> (r: Result<(), OatsError>)
        ensures
            r is Ok,
            *final(self) == *old(self),
    {
        Ok(())
    }

    fn priority(&self) -> (r: Priority) {
        Priority::Normal
    }

    fn is_ready(&self) -> (r: bool) {
        true
    }

    fn get_stats(&self) -> (r: SystemStats) {
        self.stats
    }

    /// Applies the decay to every object carrying a `health` trait: one
    /// result per such object, successes and failures counted into the
    /// statistics, every object counted as processed.
    fn process(&mut self, objects: Vec<Object>, _priority: Priority) -> (r: Result<
        Vec<ActionResult>,
        OatsError,
    >)
        ensures
            r is Ok,
            r matches Ok(results) ==> ({
                &&& results@.len() == health_objects(objects@).len()
                &&& forall|i: int|
                    0 <= i < results@.len() ==> health_result_for(
                        health_objects(objects@)[i],
                        #[trigger] results@[i],
                    )
            }),
            final(self).name == old(self).name,
            final(self).description == old(self).description,
            exists|t: u64, now: i64|
                final(self).stats == #[trigger] health_stats_post(
                    old(self).stats,
                    objects@.len() as int,
                    health_ok_count(objects@),
                    health_objects(objects@).len() - health_ok_count(objects@),
                    t,
                    now,
                ),
    {
        let start = now_millis();
        let n = objects.len();
        let ghost tv = objects@;
        let mut objects = objects;
        let mut results: Vec<ActionResult> = Vec::new();
        let mut i: usize = 0;
        while i < n
            invariant
                n == tv.len(),
                objects@ =~= tv.skip(i as int),
                i <= n,
                forall|x: int| 0 <= x < tv.len() ==> (#[trigger] tv[x]).wf(),
                results@.len() == health_objects(tv.take(i as int)).len(),
                forall|x: int|
                    0 <= x < results@.len() ==> health_result_for(
                        health_objects(tv.take(i as int))[x],
                        #[trigger] results@[x],
                    ),
                self.stats == old(self).stats.spec_counted(
                    i as int,
                    health_ok_count(tv.take(i as int)),
                    health_objects(tv.take(i as int)).len() - health_ok_count(tv.take(i as int)),
                ),
                self.name == old(self).name,
                self.description == old(self).description,
            decreases n - i,
        {
            let object = objects.remove(0);
            proof {
                lemma_health_counts(tv.take(i as int));
                assert(object == tv.skip(i as int)[0]);
                assert(object == tv[i as int]);
                assert(objects@ =~= tv.skip(i as int + 1));
                assert(tv.take(i as int + 1).drop_last() =~= tv.take(i as int));
                assert(tv.take(i as int + 1).last() == tv[i as int]);
            }
            if object.has_trait("health") {
                let health_action = TestIncrementAction::new("health".to_owned(), -1);
                let mut context = ActionContext::new();
                context.add_object("target".to_owned(), object);
                proof {
                    assert(target_of(context) == Some(tv[i as int]));
                }
                match health_action.execute(context) {
                    Ok(result) => {
                        proof {
                            assert(health_ok(tv[i as int]));
                            assert(health_result_for(tv[i as int], result));
                        }
                        results.push(result);
                        if self.stats.actions_executed < u64::MAX {
                            self.stats.actions_executed = self.stats.actions_executed + 1;
                        }
                        proof {
                            lemma_sat_chain_health(
                                old(self).stats.actions_executed as int,
                                health_ok_count(tv.take(i as int)),
                                1,
                            );
                        }
                    },
                    Err(e) => {
                        proof {
                            assert(!health_ok(tv[i as int]));
                        }
                        if self.stats.errors < u64::MAX {
                            self.stats.errors = self.stats.errors + 1;
                        }
                        let failure_message = concat_str("Health action failed: ", &e.message());
                        let failure_result = ActionResult::failure(failure_message);
                        proof {
                            assert(health_result_for(tv[i as int], failure_result));
                        }
                        results.push(failure_result);
                        proof {
                            lemma_sat_chain_health(
                                old(self).stats.errors as int,
                                health_objects(tv.take(i as int)).len() - health_ok_count(
                                    tv.take(i as int),
                                ),
                                1,
                            );
                        }
                    },
                }
                proof {
                    assert(health_objects(tv.take(i as int + 1)) =~= health_objects(
                        tv.take(i as int),
                    ).push(tv[i as int]));
                }
            }
            if self.stats.objects_processed < u64::MAX {
                self.stats.objects_processed = self.stats.objects_processed + 1;
            }
            proof {
                lemma_sat_chain_health(old(self).stats.objects_processed as int, i as int, 1);
            }
            i += 1;
        }
        proof {
            assert(tv.take(n as int) =~= tv);
        }
        let end = now_millis();
        let elapsed = crate::systems::elapsed_ms(start, end);
        if self.stats.total_processing_time_ms <= u64::MAX - elapsed {
            self.stats.total_processing_time_ms = self.stats.total_processing_time_ms + elapsed;
        } else {
            self.stats.total_processing_time_ms = u64::MAX;
        }
        let now = now_millis();
        self.stats.last_processed = Some(now);
        proof {
            assert(self.stats == health_stats_post(
                old(self).stats,
                n as int,
                health_ok_count(tv),
                health_objects(tv).len() - health_ok_count(tv),
                elapsed,
                now,
            ));
        }
        Ok(results)
    }
}

/// A batch never decays more objects than carry the trait.
proof fn lemma_health_counts(objects: Seq<Object>)
    ensures
        0 <= health_ok_count(objects) <= health_objects(objects).len(),
    decreases objects.len(),
{
    if objects.len() > 0 {
        lemma_health_counts(objects.drop_last());
    }
}

/// Chained saturating additions collapse into one.
proof fn lemma_sat_chain_health(a: int, x: int, y: int)
    requires
        0 <= a,
        0 <= x,
        0 <= y,
    ensures
        sat_add_u64(sat_add_u64(a, x), y) == sat_add_u64(a, x + y),
{
}

} // verus!
