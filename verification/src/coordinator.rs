//! Applying a rule to an organism: look the rule up, let it act on the
//! state, time that, and record the time in the registry.

use vstd::prelude::*;
use crate::binary64::{binary64, Binary64, HUNDREDTH_BITS};
use crate::organism::{OrganismState, OrganismView};
use crate::registry::{RegistryError, RuleRegistry};

verus! {

/// What a rule does to a state for the time being, whatever its body says:
/// with at least one parameter the mutation rate goes up by a hundredth of
/// the first parameter, within the limits that the setter keeps; without
/// parameters nothing changes.
pub open spec fn effect(state: OrganismView, params: Seq<Binary64>) -> OrganismView {
    if params.len() > 0 {
        state.with_mutation_rate(
            state.mutation_rate.sum(params[0].product(binary64(HUNDREDTH_BITS))),
        )
    } else {
        state
    }
}

/// Lets a rule act on `state` and returns the adaptation score afterwards.
///
/// This stands where an evaluator of rule bodies will stand: it gets the
/// live state and the parameters, may change the state through its setters,
/// and returns the score of the state that it leaves.
pub fn apply_rule_logic(state: &mut OrganismState, params: &[Binary64]) -> (score: Binary64)
    requires
        old(state).wf(),
    ensures
        final(state).wf(),
        final(state)@ == effect(old(state)@, params@),
        score == final(state)@.adaptation_score,
{
    if params.len() > 0 {
        let adjustment = params[0];
        state.set_mutation_rate(
            state.mutation_rate().plus(adjustment.times(Binary64::from_bits(HUNDREDTH_BITS))),
        );
    }
    state.adaptation_score()
}

/// Applies the rule registered under `rule_id` to `state` and records in
/// `registry` how long that took, by two readings of the clock `now_ms`, one
/// before the rule acts and one after.
///
/// Without a rule under `rule_id` the call fails before the clock is read,
/// and neither the registry nor the state changes. With one, the state is
/// what [`effect`] says, the result is its adaptation score, and the
/// registry has recorded one execution. Both readings go to
/// [`RuleRegistry::record_interval`], which takes the first from the second;
/// of a clock that may answer anything, the contract here can only say that
/// the time is the difference of two of its values.
pub fn apply_rule<Clock: Fn() -> Binary64>(
    registry: &mut RuleRegistry,
    state: &mut OrganismState,
    rule_id: &str,
    params: Vec<Binary64>,
    now_ms: Clock,
) -> (result: Result<Binary64, RegistryError>)
    requires
        old(registry).wf(),
        old(state).wf(),
        call_requires(now_ms, ()),
        old(registry)@.rules.contains_key(rule_id@) ==> old(registry)@.rules[rule_id@].execution_count
            < u64::MAX,
    ensures
        final(registry).wf(),
        final(state).wf(),
        !old(registry)@.rules.contains_key(rule_id@) ==> result == Err::<Binary64, RegistryError>(
            RegistryError::RuleNotFound,
        ) && final(registry)@ == old(registry)@ && final(state)@ == old(state)@,
        old(registry)@.rules.contains_key(rule_id@) ==> result == Ok::<Binary64, RegistryError>(
            effect(old(state)@, params@).adaptation_score,
        ) && final(state)@ == effect(old(state)@, params@),
        old(registry)@.rules.contains_key(rule_id@) ==> exists|
            started: Binary64,
            finished: Binary64,
        |
            #![trigger call_ensures(now_ms, (), started), call_ensures(now_ms, (), finished)]
            call_ensures(now_ms, (), started) && call_ensures(now_ms, (), finished)
                && final(registry)@ == old(registry)@.recorded(
                rule_id@,
                finished.difference(started),
            ),
        old(registry)@.consistent() ==> final(registry)@.consistent(),
{
    if registry.get_rule_code(rule_id).is_none() {
        return Err(RegistryError::RuleNotFound);
    }
    let started = now_ms();
    let score = apply_rule_logic(state, params.as_slice());
    let finished = now_ms();
    let recorded = registry.record_interval(rule_id, started, finished);
    match recorded {
        Ok(()) => Ok(score),
        Err(error) => Err(error),
    }
}

} // verus!
