//! The organism: seven scalar fields, a dense vector that mirrors three of
//! them, and the deterministic update that advances the organism by one tick.

use vstd::prelude::*;
use vstd::arithmetic::power2::pow2;
use crate::numeric::{lemma_bounds_are_numeric, lemma_constants};
use crate::binary64::{
    binary64, Binary64, HUNDREDTH_BITS, HUNDRED_BITS, ONE_BITS, TENTH_BITS, TEN_BITS,
    TEN_THOUSAND_BITS, THOUSAND_BITS, THREE_BITS, TWO_BITS, ZERO_BITS,
};

verus! {

/// The scalar fields of an organism: what a snapshot stores and what a
/// configuration has to supply. The state vector is not part of it.
#[derive(Clone, Copy, Debug, PartialEq, Eq, Structural)]
pub struct Snapshot {
    pub population: Binary64,
    pub energy: Binary64,
    pub generation: u64,
    pub age: u64,
    pub mutation_rate: Binary64,
    pub selection_pressure: Binary64,
    pub adaptation_score: Binary64,
}

/// The state of one organism.
///
/// Between calls the state vector has at least three entries, and the first
/// three repeat population, energy and mutation rate. More than three
/// entries come only from [`OrganismState::set_state_vector`].
pub struct OrganismState {
    population: Binary64,
    energy: Binary64,
    generation: u64,
    age: u64,
    mutation_rate: Binary64,
    selection_pressure: Binary64,
    adaptation_score: Binary64,
    state_vector: Vec<Binary64>,
}

/// The mathematical content of an [`OrganismState`].
#[verifier::ext_equal]
pub struct OrganismView {
    pub population: Binary64,
    pub energy: Binary64,
    pub generation: u64,
    pub age: u64,
    pub mutation_rate: Binary64,
    pub selection_pressure: Binary64,
    pub adaptation_score: Binary64,
    pub state_vector: Seq<Binary64>,
}

/// `(energy / 1000) * (1 - mutation_rate)`.
pub open spec fn growth_rate(energy: Binary64, mutation_rate: Binary64) -> Binary64 {
    energy.quotient(binary64(THOUSAND_BITS)).product(
        binary64(ONE_BITS).difference(mutation_rate),
    )
}

/// The population after one tick of growth and before the floor of one is
/// applied: `population + population * growth_rate * delta_time`.
pub open spec fn grown_population(
    population: Binary64,
    energy: Binary64,
    mutation_rate: Binary64,
    delta_time: Binary64,
) -> Binary64 {
    population.sum(population.product(growth_rate(energy, mutation_rate)).product(delta_time))
}

/// The energy after one tick of consumption by `grown` individuals and of
/// regeneration, before it is clamped:
/// `energy - grown * 0.1 * delta_time + 10 * delta_time`.
pub open spec fn replenished_energy(
    energy: Binary64,
    grown: Binary64,
    delta_time: Binary64,
) -> Binary64 {
    energy.difference(grown.product(binary64(TENTH_BITS)).product(delta_time)).sum(
        binary64(TEN_BITS).product(delta_time),
    )
}

/// `(min(population / 100, 2) + min(energy / 1000, 1) + min(age / 100, 1)) / 3`.
pub open spec fn adaptation(population: Binary64, energy: Binary64, age: u64) -> Binary64 {
    let population_score = population.quotient(binary64(HUNDRED_BITS)).spec_min(
        binary64(TWO_BITS),
    );
    let energy_score = energy.quotient(binary64(THOUSAND_BITS)).spec_min(binary64(ONE_BITS));
    let age_score = Binary64::of_u64(age).quotient(binary64(HUNDRED_BITS)).spec_min(
        binary64(ONE_BITS),
    );
    population_score.sum(energy_score).sum(age_score).quotient(binary64(THREE_BITS))
}

impl OrganismView {
    /// The scalar fields.
    pub open spec fn snapshot(self) -> Snapshot {
        Snapshot {
            population: self.population,
            energy: self.energy,
            generation: self.generation,
            age: self.age,
            mutation_rate: self.mutation_rate,
            selection_pressure: self.selection_pressure,
            adaptation_score: self.adaptation_score,
        }
    }

    /// The state that a record of scalars is loaded as: the scalars are taken
    /// as they are, and the state vector is rebuilt from them as population,
    /// energy and mutation rate.
    pub open spec fn restored(record: Snapshot) -> OrganismView {
        OrganismView {
            population: record.population,
            energy: record.energy,
            generation: record.generation,
            age: record.age,
            mutation_rate: record.mutation_rate,
            selection_pressure: record.selection_pressure,
            adaptation_score: record.adaptation_score,
            state_vector: seq![record.population, record.energy, record.mutation_rate],
        }
    }

    /// The state of a newly created organism.
    pub open spec fn initial() -> OrganismView {
        OrganismView {
            population: binary64(HUNDRED_BITS),
            energy: binary64(THOUSAND_BITS),
            generation: 0,
            age: 0,
            mutation_rate: binary64(HUNDREDTH_BITS),
            selection_pressure: binary64(ZERO_BITS),
            adaptation_score: binary64(ZERO_BITS),
            state_vector: seq![
                binary64(HUNDRED_BITS),
                binary64(THOUSAND_BITS),
                binary64(HUNDREDTH_BITS),
            ],
        }
    }

    /// The state vector has its three leading entries, and they repeat
    /// population, energy and mutation rate in this order.
    pub open spec fn synced(self) -> bool {
        &&& self.state_vector.len() >= 3
        &&& self.state_vector[0] == self.population
        &&& self.state_vector[1] == self.energy
        &&& self.state_vector[2] == self.mutation_rate
    }

    /// The state after a tick that brought the population to `grown` and
    /// the energy to `replenished`, both before their limits are applied:
    /// the population is raised to at least 1, the energy is clamped to the
    /// interval from 0 to 10000, the age goes up by one, and the state
    /// vector repeats the new values. The adaptation score is not touched.
    pub open spec fn settled(self, grown: Binary64, replenished: Binary64) -> OrganismView {
        let population = grown.spec_max(binary64(ONE_BITS));
        let energy = replenished.spec_clamp(binary64(ZERO_BITS), binary64(TEN_THOUSAND_BITS));
        OrganismView {
            population,
            energy,
            age: (self.age + 1) as u64,
            state_vector: self.state_vector.update(0, population).update(1, energy).update(
                2,
                self.mutation_rate,
            ),
            ..self
        }
    }

    /// The state one tick of length `delta_time` later: growth, consumption
    /// by the grown population and regeneration, then the limits, then the
    /// adaptation score of what came of it.
    pub open spec fn step(self, delta_time: Binary64) -> OrganismView {
        let grown = grown_population(
            self.population,
            self.energy,
            self.mutation_rate,
            delta_time,
        );
        let settled = self.settled(grown, replenished_energy(self.energy, grown, delta_time));
        OrganismView {
            adaptation_score: adaptation(settled.population, settled.energy, settled.age),
            ..settled
        }
    }

    /// The state after the population was set to `value`, raised to zero
    /// where it is below zero or a NaN.
    pub open spec fn with_population(self, value: Binary64) -> OrganismView {
        let population = value.spec_max(binary64(ZERO_BITS));
        OrganismView {
            population,
            state_vector: self.state_vector.update(0, population),
            ..self
        }
    }

    /// The state after the energy was set to `value`, clamped to the
    /// interval from 0 to 10000.
    pub open spec fn with_energy(self, value: Binary64) -> OrganismView {
        let energy = value.spec_clamp(binary64(ZERO_BITS), binary64(TEN_THOUSAND_BITS));
        OrganismView { energy, state_vector: self.state_vector.update(1, energy), ..self }
    }

    /// The state after the mutation rate was set to `value`, clamped to the
    /// interval from 0 to 1.
    pub open spec fn with_mutation_rate(self, value: Binary64) -> OrganismView {
        let mutation_rate = value.spec_clamp(binary64(ZERO_BITS), binary64(ONE_BITS));
        OrganismView {
            mutation_rate,
            state_vector: self.state_vector.update(2, mutation_rate),
            ..self
        }
    }

    /// The state after the selection pressure was set to `value`, clamped to
    /// the interval from 0 to 1.
    pub open spec fn with_selection_pressure(self, value: Binary64) -> OrganismView {
        OrganismView {
            selection_pressure: value.spec_clamp(binary64(ZERO_BITS), binary64(ONE_BITS)),
            ..self
        }
    }

    /// The state after the state vector was replaced by `vector`: with fewer
    /// than three entries nothing changes, otherwise the vector is taken
    /// whole and its three leading entries become population, energy and
    /// mutation rate, unclamped.
    pub open spec fn with_state_vector(self, vector: Seq<Binary64>) -> OrganismView {
        if vector.len() >= 3 {
            OrganismView {
                population: vector[0],
                energy: vector[1],
                mutation_rate: vector[2],
                state_vector: vector,
                ..self
            }
        } else {
            self
        }
    }
}

impl View for OrganismState {
    type V = OrganismView;

    closed spec fn view(&self) -> OrganismView {
        OrganismView {
            population: self.population,
            energy: self.energy,
            generation: self.generation,
            age: self.age,
            mutation_rate: self.mutation_rate,
            selection_pressure: self.selection_pressure,
            adaptation_score: self.adaptation_score,
            state_vector: self.state_vector@,
        }
    }
}

impl OrganismState {
    /// What holds of every state that this module hands out: the state
    /// vector is in step with the scalars.
    pub open spec fn wf(&self) -> bool {
        self@.synced()
    }

    /// A new organism: population 100, energy 1000, mutation rate 0.01,
    /// everything else zero, and the state vector in step with the scalars.
    pub fn new() -> (state: OrganismState)
        ensures
            state@ == OrganismView::initial(),
            state@.synced(),
            state.wf(),
    {
        let mut state_vector: Vec<Binary64> = Vec::new();
        state_vector.push(Binary64::from_bits(HUNDRED_BITS));
        state_vector.push(Binary64::from_bits(THOUSAND_BITS));
        state_vector.push(Binary64::from_bits(HUNDREDTH_BITS));
        let state = OrganismState {
            population: Binary64::from_bits(HUNDRED_BITS),
            energy: Binary64::from_bits(THOUSAND_BITS),
            generation: 0,
            age: 0,
            mutation_rate: Binary64::from_bits(HUNDREDTH_BITS),
            selection_pressure: Binary64::from_bits(ZERO_BITS),
            adaptation_score: Binary64::from_bits(ZERO_BITS),
            state_vector,
        };
        assert(state@ =~= OrganismView::initial());
        state
    }

    /// The organism that a configuration record describes. Every scalar is
    /// taken as it is, without clamping, and the state vector is population,
    /// energy and mutation rate.
    pub fn init_from_config(config: Snapshot) -> (state: OrganismState)
        ensures
            state@ == OrganismView::restored(config),
            state@.snapshot() == config,
            state@.state_vector == seq![config.population, config.energy, config.mutation_rate],
            state@.synced(),
            state.wf(),
    {
        let mut state_vector: Vec<Binary64> = Vec::new();
        state_vector.push(config.population);
        state_vector.push(config.energy);
        state_vector.push(config.mutation_rate);
        let state = OrganismState {
            population: config.population,
            energy: config.energy,
            generation: config.generation,
            age: config.age,
            mutation_rate: config.mutation_rate,
            selection_pressure: config.selection_pressure,
            adaptation_score: config.adaptation_score,
            state_vector,
        };
        assert(state@ =~= OrganismView::restored(config));
        state
    }

    /// Advances the organism by one tick of length `delta_time` and returns
    /// the new adaptation score.
    ///
    /// The age must not be at its maximum. Afterwards the population is at
    /// least 1, the energy lies between 0 and 10000, the state vector is in
    /// step with the scalars, and the adaptation score is the one that the
    /// new population, energy and age give. This holds for every
    /// `delta_time`, a negative one and a NaN included.
    pub fn step(&mut self, delta_time: Binary64) -> (score: Binary64)
        requires
            old(self).wf(),
            old(self)@.age < u64::MAX,
        ensures
            final(self)@ == old(self)@.step(delta_time),
            score == final(self)@.adaptation_score,
            binary64(ONE_BITS).spec_le(final(self)@.population),
            final(self)@.energy.within(binary64(ZERO_BITS), binary64(TEN_THOUSAND_BITS)),
            final(self)@.synced(),
            final(self).wf(),
            final(self)@.adaptation_score == adaptation(
                final(self)@.population,
                final(self)@.energy,
                final(self)@.age,
            ),
    {
        let growth_rate = self.energy.over(Binary64::from_bits(THOUSAND_BITS)).times(
            Binary64::from_bits(ONE_BITS).minus(self.mutation_rate),
        );
        let grown = self.population.plus(self.population.times(growth_rate).times(delta_time));

        let consumption = grown.times(Binary64::from_bits(TENTH_BITS)).times(delta_time);
        let regeneration = Binary64::from_bits(TEN_BITS).times(delta_time);
        let replenished = self.energy.minus(consumption).plus(regeneration);

        self.settle(grown, replenished);

        self.adaptation_score = self.calculate_adaptation_score();
        assert(self@ =~= old(self)@.step(delta_time));
        self.adaptation_score
    }

    /// Ends a tick that brought the population to `grown` and the energy to
    /// `replenished`: counts the tick, applies the limits to both values,
    /// stores them, and repeats them in the state vector.
    ///
    /// The population becomes `grown`, or 1 where `grown` is below 1 or a
    /// NaN. The energy becomes `replenished`, or 0 where that is below 0 or
    /// a NaN, or 10000 where it is above. [`Self::step`] computes the two
    /// values and the adaptation score around this.
    pub fn settle(&mut self, grown: Binary64, replenished: Binary64)
        requires
            old(self).wf(),
            old(self)@.age < u64::MAX,
        ensures
            final(self)@ == old(self)@.settled(grown, replenished),
            binary64(ONE_BITS).spec_le(final(self)@.population),
            final(self)@.energy.within(binary64(ZERO_BITS), binary64(TEN_THOUSAND_BITS)),
            final(self)@.synced(),
            final(self).wf(),
    {
        self.age = self.age + 1;
        self.population = grown.max(Binary64::from_bits(ONE_BITS));
        self.energy = replenished.clamp(
            Binary64::from_bits(ZERO_BITS),
            Binary64::from_bits(TEN_THOUSAND_BITS),
        );
        self.state_vector.set(0, self.population);
        self.state_vector.set(1, self.energy);
        self.state_vector.set(2, self.mutation_rate);
        assert(self@ =~= old(self)@.settled(grown, replenished));
    }

    /// The adaptation score that the current population, energy and age give.
    fn calculate_adaptation_score(&self) -> (score: Binary64)
        ensures
            score == adaptation(self@.population, self@.energy, self@.age),
    {
        let population_score = self.population.over(Binary64::from_bits(HUNDRED_BITS)).min(
            Binary64::from_bits(TWO_BITS),
        );
        let energy_score = self.energy.over(Binary64::from_bits(THOUSAND_BITS)).min(
            Binary64::from_bits(ONE_BITS),
        );
        let age_score = Binary64::from_u64(self.age).over(Binary64::from_bits(HUNDRED_BITS)).min(
            Binary64::from_bits(ONE_BITS),
        );
        population_score.plus(energy_score).plus(age_score).over(Binary64::from_bits(THREE_BITS))
    }

    /// The scalar fields, for storing. The state vector is left out: its
    /// three leading entries can be rebuilt from the scalars.
    pub fn get_snapshot(&self) -> (record: Snapshot)
        ensures
            record == self@.snapshot(),
    {
        Snapshot {
            population: self.population,
            energy: self.energy,
            generation: self.generation,
            age: self.age,
            mutation_rate: self.mutation_rate,
            selection_pressure: self.selection_pressure,
            adaptation_score: self.adaptation_score,
        }
    }

    /// Replaces the whole state by the one that `record` describes. Every
    /// scalar is taken as it is, without clamping, and the state vector
    /// becomes population, energy and mutation rate.
    pub fn load_snapshot(&mut self, record: Snapshot)
        ensures
            final(self)@ == OrganismView::restored(record),
            final(self)@.snapshot() == record,
            final(self)@.state_vector == seq![
                record.population,
                record.energy,
                record.mutation_rate,
            ],
            final(self)@.synced(),
            final(self).wf(),
    {
        *self = OrganismState::init_from_config(record);
    }

    /// The number of individuals.
    pub fn population(&self) -> (value: Binary64)
        ensures
            value == self@.population,
    {
        self.population
    }

    /// The energy that is left.
    pub fn energy(&self) -> (value: Binary64)
        ensures
            value == self@.energy,
    {
        self.energy
    }

    /// The generation counter, which only [`Self::set_generation`] changes.
    pub fn generation(&self) -> (value: u64)
        ensures
            value == self@.generation,
    {
        self.generation
    }

    /// The number of steps taken.
    pub fn age(&self) -> (value: u64)
        ensures
            value == self@.age,
    {
        self.age
    }

    /// The mutation rate, which scales growth down.
    pub fn mutation_rate(&self) -> (value: Binary64)
        ensures
            value == self@.mutation_rate,
    {
        self.mutation_rate
    }

    /// The selection pressure.
    pub fn selection_pressure(&self) -> (value: Binary64)
        ensures
            value == self@.selection_pressure,
    {
        self.selection_pressure
    }

    /// The adaptation score as of the last step.
    pub fn adaptation_score(&self) -> (value: Binary64)
        ensures
            value == self@.adaptation_score,
    {
        self.adaptation_score
    }

    /// Sets the population to `value`, or to zero where `value` is below
    /// zero or a NaN, and repeats it in the state vector.
    pub fn set_population(&mut self, value: Binary64)
        requires
            old(self).wf(),
        ensures
            final(self)@ == old(self)@.with_population(value),
            binary64(ZERO_BITS).spec_le(final(self)@.population),
            final(self)@.synced(),
            final(self).wf(),
    {
        self.population = value.max(Binary64::from_bits(ZERO_BITS));
        self.state_vector.set(0, self.population);
        assert(self@ =~= old(self)@.with_population(value));
    }

    /// Sets the energy to `value` clamped to the interval from 0 to 10000,
    /// and repeats it in the state vector.
    pub fn set_energy(&mut self, value: Binary64)
        requires
            old(self).wf(),
        ensures
            final(self)@ == old(self)@.with_energy(value),
            final(self)@.energy.within(binary64(ZERO_BITS), binary64(TEN_THOUSAND_BITS)),
            final(self)@.synced(),
            final(self).wf(),
    {
        self.energy = value.clamp(
            Binary64::from_bits(ZERO_BITS),
            Binary64::from_bits(TEN_THOUSAND_BITS),
        );
        self.state_vector.set(1, self.energy);
        assert(self@ =~= old(self)@.with_energy(value));
    }

    /// Sets the generation counter.
    pub fn set_generation(&mut self, value: u64)
        ensures
            final(self)@ == (OrganismView { generation: value, ..old(self)@ }),
            old(self).wf() ==> final(self).wf(),
    {
        self.generation = value;
    }

    /// Sets the mutation rate to `value` clamped to the interval from 0 to 1,
    /// and repeats it in the state vector.
    pub fn set_mutation_rate(&mut self, value: Binary64)
        requires
            old(self).wf(),
        ensures
            final(self)@ == old(self)@.with_mutation_rate(value),
            final(self)@.mutation_rate.within(binary64(ZERO_BITS), binary64(ONE_BITS)),
            final(self)@.synced(),
            final(self).wf(),
    {
        self.mutation_rate = value.clamp(
            Binary64::from_bits(ZERO_BITS),
            Binary64::from_bits(ONE_BITS),
        );
        self.state_vector.set(2, self.mutation_rate);
        assert(self@ =~= old(self)@.with_mutation_rate(value));
    }

    /// Sets the selection pressure to `value` clamped to the interval from 0
    /// to 1. The state vector does not hold it.
    pub fn set_selection_pressure(&mut self, value: Binary64)
        ensures
            final(self)@ == old(self)@.with_selection_pressure(value),
            final(self)@.selection_pressure.within(binary64(ZERO_BITS), binary64(ONE_BITS)),
            old(self).wf() ==> final(self).wf(),
    {
        self.selection_pressure = value.clamp(
            Binary64::from_bits(ZERO_BITS),
            Binary64::from_bits(ONE_BITS),
        );
    }

    /// A copy of the state vector.
    pub fn get_state_vector(&self) -> (vector: Vec<Binary64>)
        ensures
            vector@ == self@.state_vector,
    {
        let mut vector: Vec<Binary64> = Vec::new();
        let mut i: usize = 0;
        while i < self.state_vector.len()
            invariant
                i <= self.state_vector.len(),
                vector@ == self.state_vector@.subrange(0, i as int),
            decreases self.state_vector.len() - i,
        {
            vector.push(self.state_vector[i]);
            i = i + 1;
            assert(vector@ =~= self.state_vector@.subrange(0, i as int));
        }
        assert(vector@ =~= self.state_vector@);
        vector
    }

    /// Replaces the state vector. A vector of fewer than three entries is
    /// ignored. A longer one is taken whole; its three leading entries become
    /// population, energy and mutation rate as they are, without clamping,
    /// and what follows them is kept but plays no part in [`Self::step`].
    pub fn set_state_vector(&mut self, vector: Vec<Binary64>)
        ensures
            final(self)@ == old(self)@.with_state_vector(vector@),
            vector@.len() >= 3 ==> final(self)@.synced(),
            vector@.len() < 3 ==> final(self)@ == old(self)@,
            old(self).wf() ==> final(self).wf(),
    {
        if vector.len() >= 3 {
            self.population = vector[0];
            self.energy = vector[1];
            self.mutation_rate = vector[2];
            self.state_vector = vector;
        }
    }
}

impl Clone for OrganismState {
    fn clone(&self) -> (copy: OrganismState)
        ensures
            copy@ == self@,
    {
        let copy = OrganismState {
            population: self.population,
            energy: self.energy,
            generation: self.generation,
            age: self.age,
            mutation_rate: self.mutation_rate,
            selection_pressure: self.selection_pressure,
            adaptation_score: self.adaptation_score,
            state_vector: self.get_state_vector(),
        };
        assert(copy@ =~= self@);
        copy
    }
}

impl Default for OrganismState {
    fn default() -> (state: OrganismState)
        ensures
            state@ == OrganismView::initial(),
            state.wf(),
    {
        OrganismState::new()
    }
}

/// Loading the snapshot of a state gives back every scalar field of that
/// state: population, energy, generation, age, mutation rate, selection
/// pressure and adaptation score. The state vector is rebuilt from them, so
/// a state whose vector is in step and has just its three entries comes
/// back whole.
pub proof fn lemma_snapshot_round_trip(state: OrganismView)
    ensures
        OrganismView::restored(state.snapshot()).synced(),
        OrganismView::restored(state.snapshot()).state_vector.len() == 3,
        state.synced() && state.state_vector.len() == 3 ==> OrganismView::restored(
            state.snapshot(),
        ) == state,
        OrganismView::restored(state.snapshot()).snapshot() == state.snapshot(),
        OrganismView::restored(state.snapshot()).population == state.population,
        OrganismView::restored(state.snapshot()).energy == state.energy,
        OrganismView::restored(state.snapshot()).generation == state.generation,
        OrganismView::restored(state.snapshot()).age == state.age,
        OrganismView::restored(state.snapshot()).mutation_rate == state.mutation_rate,
        OrganismView::restored(state.snapshot()).selection_pressure == state.selection_pressure,
        OrganismView::restored(state.snapshot()).adaptation_score == state.adaptation_score,
{
}

/// In every state whose vector is in step with the scalars, a step and each
/// of the scalar setters leave the three leading entries of the state vector
/// equal to population, energy and mutation rate.
pub proof fn lemma_updates_keep_vector_synced(
    state: OrganismView,
    value: Binary64,
    generation: u64,
)
    requires
        state.synced(),
    ensures
        state.step(value).synced(),
        state.settled(value, value).synced(),
        state.with_population(value).synced(),
        state.with_energy(value).synced(),
        state.with_mutation_rate(value).synced(),
        state.with_selection_pressure(value).synced(),
        (OrganismView { generation, ..state }).synced(),
{
}

/// After a step the population is at least 1 and the energy lies between 0
/// and 10000, as numbers, whatever the state before and whatever the length
/// of the tick. The numbers are given in units of 2^-1074.
pub proof fn lemma_step_bounds(state: OrganismView, delta_time: Binary64)
    ensures
        state.step(delta_time).population.scaled() >= pow2(1074),
        0 <= state.step(delta_time).energy.scaled() <= 10000 * pow2(1074),
{
    let after = state.step(delta_time);
    lemma_constants();
    lemma_bounds_are_numeric(after.population, binary64(TEN_THOUSAND_BITS));
    lemma_bounds_are_numeric(after.energy, binary64(TEN_THOUSAND_BITS));
}

} // verus!

