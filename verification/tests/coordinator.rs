use std::cell::Cell;

use organism_core::binary64::Binary64;
use organism_core::coordinator::{apply_rule, apply_rule_logic};
use organism_core::organism::OrganismState;
use organism_core::registry::{RegistryError, RuleRegistry};

fn b(x: f64) -> Binary64 {
    Binary64::from_bits(x.to_bits())
}

fn f(x: Binary64) -> f64 {
    f64::from_bits(x.to_bits())
}

#[test]
fn applying_a_rule_raises_the_mutation_rate_and_counts_the_execution() {
    let mut registry = RuleRegistry::new();
    let mut state = OrganismState::new();
    registry.register_rule("r1", "(noop)", 0).unwrap();
    let result = apply_rule(&mut registry, &mut state, "r1", vec![b(2.0)], || b(1000.0));
    assert_eq!(result, Ok(state.adaptation_score()));
    assert_eq!(f(state.mutation_rate()), 0.01 + 2.0 * 0.01);
    assert_eq!(f(state.mutation_rate()), 0.03);
    assert_eq!(f(state.get_state_vector()[2]), 0.03);
    assert_eq!(registry.get_rule_stats("r1").unwrap().execution_count, 1);
}

#[test]
fn applying_an_unknown_rule_fails_and_changes_nothing() {
    let mut registry = RuleRegistry::new();
    let mut state = OrganismState::new();
    registry.register_rule("r1", "(noop)", 0).unwrap();
    let before = state.get_snapshot();
    let reads = Cell::new(0u32);
    let result = apply_rule(&mut registry, &mut state, "unknown", vec![], || {
        reads.set(reads.get() + 1);
        b(0.0)
    });
    assert_eq!(result, Err(RegistryError::RuleNotFound));
    assert_eq!(reads.get(), 0);
    assert_eq!(registry.get_rule_count(), 1);
    assert_eq!(registry.get_rule_ids(), vec!["r1".to_string()]);
    assert_eq!(registry.get_rule_stats("r1").unwrap().execution_count, 0);
    assert_eq!(state.get_snapshot(), before);
    assert_eq!(state.get_state_vector(), OrganismState::new().get_state_vector());

    let result = apply_rule(&mut registry, &mut state, "unknown", vec![b(5.0)], || b(0.0));
    assert_eq!(result, Err(RegistryError::RuleNotFound));
    assert_eq!(state.get_snapshot(), before);
}

#[test]
fn the_recorded_time_is_the_difference_of_two_readings() {
    let mut registry = RuleRegistry::new();
    let mut state = OrganismState::new();
    registry.register_rule("r1", "(noop)", 0).unwrap();
    let time = Cell::new(100.0f64);
    let clock = || {
        let now = time.get();
        time.set(now + 12.5);
        b(now)
    };
    apply_rule(&mut registry, &mut state, "r1", vec![], &clock).unwrap();
    let stats = registry.get_rule_stats("r1").unwrap();
    assert_eq!(stats.execution_count, 1);
    assert_eq!(f(stats.last_execution_time_ms), 12.5);
    assert_eq!(f(stats.total_execution_time_ms), 12.5);
    apply_rule(&mut registry, &mut state, "r1", vec![], &clock).unwrap();
    let stats = registry.get_rule_stats("r1").unwrap();
    assert_eq!(stats.execution_count, 2);
    assert_eq!(f(stats.total_execution_time_ms), 25.0);
    assert_eq!(f(stats.average_execution_time_ms), 12.5);
    assert_eq!(time.get(), 150.0);
}

#[test]
fn a_rule_without_parameters_leaves_the_state() {
    let mut registry = RuleRegistry::new();
    let mut state = OrganismState::new();
    state.step(b(1.0));
    registry.register_rule("r1", "(noop)", 0).unwrap();
    let before = state.get_snapshot();
    let result = apply_rule(&mut registry, &mut state, "r1", vec![], || b(0.0));
    assert_eq!(result, Ok(before.adaptation_score));
    assert_eq!(state.get_snapshot(), before);
}

#[test]
fn only_the_first_parameter_counts_and_the_rate_stays_in_range() {
    let mut state = OrganismState::new();
    let score = apply_rule_logic(&mut state, &[b(50.0), b(-1000.0)]);
    assert_eq!(f(state.mutation_rate()), 0.01 + 50.0 * 0.01);
    assert_eq!(score, state.adaptation_score());
    apply_rule_logic(&mut state, &[b(1000.0)]);
    assert_eq!(f(state.mutation_rate()), 1.0);
    apply_rule_logic(&mut state, &[b(-1000.0)]);
    assert_eq!(f(state.mutation_rate()), 0.0);
    apply_rule_logic(&mut state, &[b(f64::NAN)]);
    assert_eq!(f(state.mutation_rate()), 0.0);
    assert_eq!(state.get_state_vector()[2], state.mutation_rate());
    apply_rule_logic(&mut state, &[]);
    assert_eq!(f(state.mutation_rate()), 0.0);
}

#[test]
fn the_result_is_the_score_of_the_last_step() {
    let mut registry = RuleRegistry::new();
    let mut state = OrganismState::new();
    let score = state.step(b(1.0));
    registry.register_rule("r1", "(noop)", 0).unwrap();
    let result = apply_rule(&mut registry, &mut state, "r1", vec![b(1.0)], || b(3.0));
    assert_eq!(result, Ok(score));
    assert_eq!(f(registry.get_rule_stats("r1").unwrap().last_execution_time_ms), 0.0);
}
