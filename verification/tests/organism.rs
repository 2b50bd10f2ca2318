use organism_core::binary64::Binary64;
use organism_core::organism::{OrganismState, Snapshot};

fn b(x: f64) -> Binary64 {
    Binary64::from_bits(x.to_bits())
}

fn f(x: Binary64) -> f64 {
    f64::from_bits(x.to_bits())
}

fn vector_of(state: &OrganismState) -> Vec<f64> {
    state.get_state_vector().into_iter().map(f).collect()
}

fn assert_synced(state: &OrganismState) {
    let vector = state.get_state_vector();
    assert!(vector.len() >= 3);
    assert_eq!(vector[0], state.population());
    assert_eq!(vector[1], state.energy());
    assert_eq!(vector[2], state.mutation_rate());
}

/// The update written with the machine's own arithmetic.
fn reference_step(
    population: f64,
    energy: f64,
    mutation_rate: f64,
    age: u64,
    delta_time: f64,
) -> (f64, f64, f64) {
    let growth_rate = (energy / 1000.0) * (1.0 - mutation_rate);
    let mut population = population + population * growth_rate * delta_time;
    let consumption = population * 0.1 * delta_time;
    let mut energy = energy - consumption;
    energy += 10.0 * delta_time;
    population = population.max(1.0);
    energy = energy.max(0.0).min(10000.0);
    let score = ((population / 100.0).min(2.0)
        + (energy / 1000.0).min(1.0)
        + ((age + 1) as f64 / 100.0).min(1.0))
        / 3.0;
    (population, energy, score)
}

#[test]
fn new_state_has_the_documented_defaults() {
    let state = OrganismState::new();
    assert_eq!(f(state.population()), 100.0);
    assert_eq!(f(state.energy()), 1000.0);
    assert_eq!(f(state.mutation_rate()), 0.01);
    assert_eq!(state.generation(), 0);
    assert_eq!(state.age(), 0);
    assert_eq!(f(state.selection_pressure()), 0.0);
    assert_eq!(f(state.adaptation_score()), 0.0);
    assert_eq!(vector_of(&state), vec![100.0, 1000.0, 0.01]);
}

#[test]
fn default_is_new() {
    let state = OrganismState::default();
    assert_eq!(state.get_snapshot(), OrganismState::new().get_snapshot());
    assert_eq!(vector_of(&state), vec![100.0, 1000.0, 0.01]);
}

#[test]
fn one_step_from_the_defaults() {
    let mut state = OrganismState::new();
    let score = state.step(b(1.0));
    assert_eq!(f(state.population()), 199.0);
    assert_eq!(f(state.energy()), 990.1);
    assert_eq!(state.age(), 1);
    assert_eq!(state.generation(), 0);
    assert_eq!(f(state.mutation_rate()), 0.01);
    assert_eq!(f(score), (1.99 + 0.9901 + 0.01) / 3.0);
    assert!((f(score) - 0.99670).abs() < 1e-12);
    assert_eq!(score, state.adaptation_score());
    assert_eq!(vector_of(&state), vec![199.0, 990.1, 0.01]);
}

#[test]
fn step_agrees_with_the_machine_arithmetic() {
    let deltas = [1.0, 0.5, 0.016, 0.0, 2.75, 13.0, 1e-9, 1e9, -1.0, -0.25];
    let starts = [
        (100.0, 1000.0, 0.01),
        (1.0, 0.0, 0.0),
        (12345.678, 9999.5, 0.37),
        (3.0, 10000.0, 1.0),
        (1e12, 500.0, 0.999),
        (0.0, 250.25, 0.5),
    ];
    for (population, energy, mutation_rate) in starts {
        for delta_time in deltas {
            let mut state = OrganismState::new();
            state.set_state_vector(vec![b(population), b(energy), b(mutation_rate)]);
            let mut expected = (population, energy, 0.0);
            for age in 0..12u64 {
                expected = reference_step(expected.0, expected.1, mutation_rate, age, delta_time);
                let score = state.step(b(delta_time));
                assert_eq!(f(state.population()), expected.0);
                assert_eq!(f(state.energy()), expected.1);
                assert_eq!(f(score), expected.2);
                assert_eq!(state.age(), age + 1);
                assert_synced(&state);
            }
        }
    }
}

#[test]
fn step_keeps_population_and_energy_in_range() {
    let deltas = [
        1.0,
        1e300,
        -1e300,
        f64::INFINITY,
        f64::NEG_INFINITY,
        f64::NAN,
        0.0,
        -0.0,
        5e-324,
    ];
    let starts = [
        (100.0, 1000.0, 0.01),
        (f64::NAN, f64::NAN, f64::NAN),
        (f64::INFINITY, -5.0, 2.0),
        (-1e200, 1e200, -3.0),
        (0.0, 0.0, 0.0),
    ];
    for (population, energy, mutation_rate) in starts {
        for delta_time in deltas {
            let mut state = OrganismState::new();
            state.set_state_vector(vec![b(population), b(energy), b(mutation_rate)]);
            for _ in 0..3 {
                let score = state.step(b(delta_time));
                assert!(f(state.population()) >= 1.0);
                assert!(f(state.energy()) >= 0.0 && f(state.energy()) <= 10000.0);
                assert_eq!(score, state.adaptation_score());
                assert_synced(&state);
            }
        }
    }
}

#[test]
fn score_is_computed_from_the_values_after_the_step() {
    let mut state = OrganismState::new();
    for _ in 0..150 {
        let score = state.step(b(0.01));
        let population = f(state.population());
        let energy = f(state.energy());
        let age = state.age() as f64;
        let expected =
            ((population / 100.0).min(2.0) + (energy / 1000.0).min(1.0) + (age / 100.0).min(1.0))
                / 3.0;
        assert_eq!(f(score), expected);
        assert!(f(score) >= 0.0 && f(score) <= 4.0 / 3.0);
    }
    assert_eq!(state.age(), 150);
}

#[test]
fn step_does_not_touch_generation_and_selection_pressure() {
    let mut state = OrganismState::new();
    state.set_generation(42);
    state.set_selection_pressure(b(0.75));
    state.step(b(1.0));
    assert_eq!(state.generation(), 42);
    assert_eq!(f(state.selection_pressure()), 0.75);
}

#[test]
fn step_keeps_entries_beyond_the_third() {
    let mut state = OrganismState::new();
    state.set_state_vector(vec![b(100.0), b(1000.0), b(0.01), b(7.0), b(-8.0)]);
    state.step(b(1.0));
    assert_eq!(vector_of(&state), vec![199.0, 990.1, 0.01, 7.0, -8.0]);
}

#[test]
fn set_population_floors_at_zero() {
    let mut state = OrganismState::new();
    state.set_population(b(12.5));
    assert_eq!(f(state.population()), 12.5);
    assert_synced(&state);
    state.set_population(b(-3.0));
    assert_eq!(f(state.population()), 0.0);
    assert_synced(&state);
    state.set_population(b(f64::NAN));
    assert_eq!(f(state.population()), 0.0);
    state.set_population(b(0.5));
    assert_eq!(f(state.population()), 0.5);
    state.set_population(b(1e300));
    assert_eq!(f(state.population()), 1e300);
    assert_eq!(vector_of(&state), vec![1e300, 1000.0, 0.01]);
}

#[test]
fn set_energy_clamps_to_its_range() {
    let mut state = OrganismState::new();
    state.set_energy(b(512.0));
    assert_eq!(f(state.energy()), 512.0);
    assert_synced(&state);
    state.set_energy(b(-1.0));
    assert_eq!(f(state.energy()), 0.0);
    state.set_energy(b(10000.0));
    assert_eq!(f(state.energy()), 10000.0);
    state.set_energy(b(10000.5));
    assert_eq!(f(state.energy()), 10000.0);
    state.set_energy(b(f64::INFINITY));
    assert_eq!(f(state.energy()), 10000.0);
    state.set_energy(b(f64::NAN));
    assert_eq!(f(state.energy()), 0.0);
    assert_eq!(vector_of(&state), vec![100.0, 0.0, 0.01]);
}

#[test]
fn set_mutation_rate_clamps_to_the_unit_interval() {
    let mut state = OrganismState::new();
    state.set_mutation_rate(b(0.25));
    assert_eq!(f(state.mutation_rate()), 0.25);
    assert_synced(&state);
    state.set_mutation_rate(b(1.5));
    assert_eq!(f(state.mutation_rate()), 1.0);
    state.set_mutation_rate(b(-0.5));
    assert_eq!(f(state.mutation_rate()), 0.0);
    state.set_mutation_rate(b(f64::NAN));
    assert_eq!(f(state.mutation_rate()), 0.0);
    assert_eq!(vector_of(&state), vec![100.0, 1000.0, 0.0]);
}

#[test]
fn set_selection_pressure_clamps_and_leaves_the_vector() {
    let mut state = OrganismState::new();
    state.set_selection_pressure(b(0.3));
    assert_eq!(f(state.selection_pressure()), 0.3);
    state.set_selection_pressure(b(9.0));
    assert_eq!(f(state.selection_pressure()), 1.0);
    state.set_selection_pressure(b(-9.0));
    assert_eq!(f(state.selection_pressure()), 0.0);
    assert_eq!(vector_of(&state), vec![100.0, 1000.0, 0.01]);
    assert_synced(&state);
}

#[test]
fn set_generation_stores_the_value() {
    let mut state = OrganismState::new();
    state.set_generation(u64::MAX);
    assert_eq!(state.generation(), u64::MAX);
    state.set_generation(3);
    assert_eq!(state.generation(), 3);
    assert_synced(&state);
}

#[test]
fn short_vector_is_ignored() {
    let mut state = OrganismState::new();
    let before = state.get_snapshot();
    state.set_state_vector(vec![]);
    state.set_state_vector(vec![b(1.0)]);
    state.set_state_vector(vec![b(1.0), b(2.0)]);
    assert_eq!(state.get_snapshot(), before);
    assert_eq!(vector_of(&state), vec![100.0, 1000.0, 0.01]);
}

#[test]
fn long_vector_overwrites_the_scalars_unclamped() {
    let mut state = OrganismState::new();
    state.set_state_vector(vec![b(-5.0), b(20000.0), b(3.0), b(4.0)]);
    assert_eq!(f(state.population()), -5.0);
    assert_eq!(f(state.energy()), 20000.0);
    assert_eq!(f(state.mutation_rate()), 3.0);
    assert_eq!(vector_of(&state), vec![-5.0, 20000.0, 3.0, 4.0]);
    assert_eq!(state.age(), 0);
    assert_eq!(state.generation(), 0);
}

#[test]
fn snapshot_holds_the_scalars() {
    let mut state = OrganismState::new();
    state.set_generation(9);
    state.set_selection_pressure(b(0.125));
    state.step(b(1.0));
    let snapshot = state.get_snapshot();
    assert_eq!(f(snapshot.population), 199.0);
    assert_eq!(f(snapshot.energy), 990.1);
    assert_eq!(snapshot.generation, 9);
    assert_eq!(snapshot.age, 1);
    assert_eq!(f(snapshot.mutation_rate), 0.01);
    assert_eq!(f(snapshot.selection_pressure), 0.125);
    assert_eq!(snapshot.adaptation_score, state.adaptation_score());
}

#[test]
fn loading_a_snapshot_restores_every_scalar() {
    let mut state = OrganismState::new();
    state.set_generation(9);
    state.set_selection_pressure(b(0.125));
    state.step(b(0.5));
    state.step(b(0.5));
    let snapshot = state.get_snapshot();

    let mut other = OrganismState::new();
    other.load_snapshot(snapshot);
    assert_eq!(other.get_snapshot(), snapshot);
    assert_eq!(other.population(), state.population());
    assert_eq!(other.energy(), state.energy());
    assert_eq!(other.generation(), state.generation());
    assert_eq!(other.age(), state.age());
    assert_eq!(other.mutation_rate(), state.mutation_rate());
    assert_eq!(other.selection_pressure(), state.selection_pressure());
    assert_eq!(other.adaptation_score(), state.adaptation_score());

    state.load_snapshot(snapshot);
    assert_eq!(state.get_snapshot(), snapshot);
}

#[test]
fn loading_a_snapshot_rebuilds_the_state_vector() {
    let mut state = OrganismState::new();
    state.set_state_vector(vec![b(50.0), b(600.0), b(0.25), b(7.0), b(8.0)]);
    state.set_generation(3);
    let snapshot = state.get_snapshot();

    let mut other = OrganismState::new();
    other.load_snapshot(snapshot);
    assert_eq!(vector_of(&other), vec![50.0, 600.0, 0.25]);
    assert_synced(&other);
    assert_eq!(other.get_snapshot(), snapshot);

    state.load_snapshot(snapshot);
    assert_eq!(vector_of(&state), vec![50.0, 600.0, 0.25]);
    assert_synced(&state);
}

#[test]
fn a_loaded_state_can_step_and_be_set() {
    let mut state = OrganismState::new();
    state.step(b(0.5));
    let snapshot = OrganismState::new().get_snapshot();
    state.load_snapshot(snapshot);
    assert_eq!(vector_of(&state), vec![100.0, 1000.0, 0.01]);
    let score = state.step(b(1.0));
    assert_eq!(f(state.population()), 199.0);
    assert_eq!(f(state.energy()), 990.1);
    assert_eq!(state.age(), 1);
    assert_eq!(f(score), (1.99 + 0.9901 + 0.01) / 3.0);
    assert_eq!(vector_of(&state), vec![199.0, 990.1, 0.01]);

    let mut configured = OrganismState::init_from_config(snapshot);
    configured.set_population(b(12.0));
    configured.set_energy(b(34.0));
    configured.set_mutation_rate(b(0.5));
    assert_eq!(vector_of(&configured), vec![12.0, 34.0, 0.5]);
    configured.step(b(0.0));
    assert_eq!(configured.age(), 1);
    assert_synced(&configured);
}

#[test]
fn loading_a_snapshot_does_not_clamp() {
    let record = Snapshot {
        population: b(-1.0),
        energy: b(1e9),
        generation: 5,
        age: 6,
        mutation_rate: b(2.0),
        selection_pressure: b(-2.0),
        adaptation_score: b(77.0),
    };
    let mut state = OrganismState::new();
    state.load_snapshot(record);
    assert_eq!(state.get_snapshot(), record);
    assert_eq!(vector_of(&state), vec![-1.0, 1e9, 2.0]);
    assert_synced(&state);
}

#[test]
fn init_from_config_takes_every_field() {
    let config = Snapshot {
        population: b(250.0),
        energy: b(4000.0),
        generation: 3,
        age: 17,
        mutation_rate: b(0.2),
        selection_pressure: b(0.9),
        adaptation_score: b(0.5),
    };
    let state = OrganismState::init_from_config(config);
    assert_eq!(state.get_snapshot(), config);
    assert_eq!(f(state.population()), 250.0);
    assert_eq!(f(state.energy()), 4000.0);
    assert_eq!(state.generation(), 3);
    assert_eq!(state.age(), 17);
    assert_eq!(f(state.mutation_rate()), 0.2);
    assert_eq!(f(state.selection_pressure()), 0.9);
    assert_eq!(f(state.adaptation_score()), 0.5);
    assert_eq!(vector_of(&state), vec![250.0, 4000.0, 0.2]);
    assert_synced(&state);
}

#[test]
fn age_term_saturates_after_a_hundred_steps() {
    let mut state = OrganismState::new();
    state.load_snapshot(Snapshot {
        population: b(100.0),
        energy: b(1000.0),
        generation: 0,
        age: 250,
        mutation_rate: b(0.0),
        selection_pressure: b(0.0),
        adaptation_score: b(0.0),
    });
    let score = state.step(b(0.0));
    assert_eq!(state.age(), 251);
    assert_eq!(f(state.population()), 100.0);
    assert_eq!(f(state.energy()), 1000.0);
    assert_eq!(f(score), (1.0 + 1.0 + 1.0) / 3.0);
}

#[test]
fn settle_applies_the_limits_and_counts_the_tick() {
    let mut state = OrganismState::new();
    state.set_generation(4);
    state.settle(b(0.25), b(20000.0));
    assert_eq!(f(state.population()), 1.0);
    assert_eq!(f(state.energy()), 10000.0);
    assert_eq!(state.age(), 1);
    assert_eq!(state.generation(), 4);
    assert_eq!(f(state.adaptation_score()), 0.0);
    assert_eq!(vector_of(&state), vec![1.0, 10000.0, 0.01]);

    state.settle(b(f64::NAN), b(f64::NAN));
    assert_eq!(f(state.population()), 1.0);
    assert_eq!(f(state.energy()), 0.0);
    assert_eq!(state.age(), 2);

    state.settle(b(321.5), b(-4.0));
    assert_eq!(f(state.population()), 321.5);
    assert_eq!(f(state.energy()), 0.0);

    state.settle(b(f64::INFINITY), b(9999.75));
    assert_eq!(f(state.population()), f64::INFINITY);
    assert_eq!(f(state.energy()), 9999.75);
    assert_eq!(state.age(), 4);
    assert_synced(&state);
}
