//! The rule registry: the mapping from identifiers to rules together with
//! the order in which the identifiers were first registered.

use vstd::prelude::*;
use crate::binary64::Binary64;
use crate::rule::{Rule, RuleStats, RuleStatsView, RuleView};
use crate::table::{entries_map, entry_keys, entry_views, RuleEntry, RuleTable};

verus! {

/// Why an operation on the registry was refused.
#[derive(Clone, Copy, Debug, PartialEq, Eq, Structural)]
pub enum RegistryError {
    /// A rule was to be registered under the empty identifier.
    EmptyIdentifier,
    /// No rule is registered under the identifier.
    RuleNotFound,
    /// A part of the data to import could not be read.
    ParseError,
}

/// One of the two parts of an exported registry, as the reader of the
/// exported text found it.
#[derive(Debug)]
pub enum ImportSection<T> {
    /// The text does not have the part.
    Absent,
    /// The text has the part, and it could not be read.
    Invalid,
    /// The part as read.
    Present(T),
}

/// Everything that a registry holds, for writing out.
#[derive(Debug)]
pub struct RegistryExport {
    pub rules: Vec<RuleEntry>,
    pub execution_order: Vec<String>,
}

/// The rules under their identifiers and the identifiers in the order of
/// their first registration.
pub struct RuleRegistry {
    rules: RuleTable,
    execution_order: Vec<String>,
}

/// The mathematical content of a [`RuleRegistry`].
#[verifier::ext_equal]
pub struct RegistryView {
    pub rules: Map<Seq<char>, RuleView>,
    pub execution_order: Seq<Seq<char>>,
}

/// The views of a sequence of strings.
pub open spec fn identifiers(ids: Seq<String>) -> Seq<Seq<char>> {
    Seq::new(ids.len(), |i: int| ids[i]@)
}

/// The views of a sequence of statistics.
pub open spec fn stats_views(stats: Seq<RuleStats>) -> Seq<RuleStatsView> {
    Seq::new(stats.len(), |i: int| stats[i]@)
}

/// The test for being another identifier than `id`.
pub open spec fn differs_from(id: Seq<char>) -> spec_fn(Seq<char>) -> bool {
    |other: Seq<char>| other != id
}

/// The test for being the identifier `id`.
pub open spec fn same_as(id: Seq<char>) -> spec_fn(Seq<char>) -> bool {
    |other: Seq<char>| other == id
}

/// The test for having a rule.
pub open spec fn registered_in(rules: Map<Seq<char>, RuleView>) -> spec_fn(Seq<char>) -> bool {
    |id: Seq<char>| rules.contains_key(id)
}

/// What is reported of the rule under an identifier.
pub open spec fn report_of(rules: Map<Seq<char>, RuleView>) -> spec_fn(Seq<char>)
    -> RuleStatsView {
    |id: Seq<char>| rules[id].stats()
}

/// The order without any occurrence of `id`.
pub open spec fn without(order: Seq<Seq<char>>, id: Seq<char>) -> Seq<Seq<char>> {
    order.filter(differs_from(id))
}

/// How often `id` occurs in the order.
pub open spec fn occurrences(order: Seq<Seq<char>>, id: Seq<char>) -> nat {
    order.filter(same_as(id)).len()
}

/// The statistics of the rules along `order`: one record for each position
/// whose identifier has a rule, in the order of the positions.
pub open spec fn stats_along(
    rules: Map<Seq<char>, RuleView>,
    order: Seq<Seq<char>>,
) -> Seq<RuleStatsView> {
    order.filter(registered_in(rules)).map_values(report_of(rules))
}

impl RegistryView {
    /// The registry without rules.
    pub open spec fn empty() -> RegistryView {
        RegistryView { rules: Map::empty(), execution_order: Seq::empty() }
    }

    /// The registry after a rule was registered under `id`: the rule is new,
    /// whatever was there before, and `id` is appended to the order unless
    /// the order has it already.
    pub open spec fn registered(
        self,
        id: Seq<char>,
        lisp_code: Seq<char>,
        created_at: u64,
    ) -> RegistryView {
        RegistryView {
            rules: self.rules.insert(id, RuleView::fresh(id, lisp_code, created_at)),
            execution_order: if self.execution_order.contains(id) {
                self.execution_order
            } else {
                self.execution_order.push(id)
            },
        }
    }

    /// The registry after `id` was removed from the rules and from the order.
    pub open spec fn removed(self, id: Seq<char>) -> RegistryView {
        RegistryView {
            rules: self.rules.remove(id),
            execution_order: without(self.execution_order, id),
        }
    }

    /// The registry after one more execution of the rule under `id`, which
    /// took `elapsed_ms`.
    pub open spec fn recorded(self, id: Seq<char>, elapsed_ms: Binary64) -> RegistryView
        recommends
            self.rules.contains_key(id),
    {
        RegistryView { rules: self.rules.insert(id, self.rules[id].recorded(elapsed_ms)), ..self }
    }

    /// The registry with the statistics of every rule back at zero.
    pub open spec fn cleared(self) -> RegistryView {
        RegistryView { rules: self.rules.map_values(|rule: RuleView| rule.cleared()), ..self }
    }

    /// The statistics of all rules in the order of registration.
    pub open spec fn all_stats(self) -> Seq<RuleStatsView> {
        stats_along(self.rules, self.execution_order)
    }

    /// The order names the registered rules, each once, and every rule is
    /// stored under its own identifier, which is not empty.
    pub open spec fn consistent(self) -> bool {
        &&& self.execution_order.no_duplicates()
        &&& forall|id: Seq<char>|
            self.execution_order.contains(id) <==> self.rules.contains_key(id)
        &&& forall|id: Seq<char>| #[trigger]
            self.rules.contains_key(id) ==> self.rules[id].id == id && id.len() > 0
    }
}

/// `without` on an order that grows at its end.
pub proof fn lemma_without_push(order: Seq<Seq<char>>, last: Seq<char>, id: Seq<char>)
    ensures
        without(order.push(last), id) == if last != id {
            without(order, id).push(last)
        } else {
            without(order, id)
        },
{
    order.lemma_filter_push(last, differs_from(id));
}

/// `occurrences` on an order that grows at its end.
pub proof fn lemma_occurrences_push(order: Seq<Seq<char>>, last: Seq<char>, id: Seq<char>)
    ensures
        occurrences(order.push(last), id) == occurrences(order, id) + if last == id {
            1nat
        } else {
            0nat
        },
{
    order.lemma_filter_push(last, same_as(id));
}

/// `stats_along` on an order that grows at its end.
pub proof fn lemma_stats_along_push(
    rules: Map<Seq<char>, RuleView>,
    order: Seq<Seq<char>>,
    last: Seq<char>,
)
    ensures
        stats_along(rules, order.push(last)) == if rules.contains_key(last) {
            stats_along(rules, order).push(rules[last].stats())
        } else {
            stats_along(rules, order)
        },
{
    let known = registered_in(rules);
    let report = report_of(rules);
    order.lemma_filter_push(last, known);
    if rules.contains_key(last) {
        assert(order.filter(known).push(last).map_values(report) =~= order.filter(
            known,
        ).map_values(report).push(report(last)));
    }
}

/// What `without` keeps and what it drops: the identifiers other than `id`,
/// in their order, so that an order without duplicates stays one, and the
/// length goes down by the number of occurrences of `id`.
pub proof fn lemma_without(order: Seq<Seq<char>>, id: Seq<char>)
    ensures
        !without(order, id).contains(id),
        forall|other: Seq<char>|
            other != id ==> (#[trigger] without(order, id).contains(other) <==> order.contains(
                other,
            )),
        order.no_duplicates() ==> without(order, id).no_duplicates(),
        without(order, id).len() + occurrences(order, id) == order.len(),
        !order.contains(id) ==> without(order, id) == order && occurrences(order, id) == 0,
        order.contains(id) ==> occurrences(order, id) >= 1,
    decreases order.len(),
{
    reveal(Seq::filter);
    if order.len() > 0 {
        let front = order.drop_last();
        let last = order.last();
        lemma_without(front, id);
        assert(front.push(last) =~= order);
        lemma_without_push(front, last, id);
        lemma_occurrences_push(front, last, id);
        let kept = without(order, id);
        let kept_front = without(front, id);
        assert forall|other: Seq<char>| other != id implies (#[trigger] kept.contains(other)
            <==> order.contains(other)) by {
            if kept.contains(other) {
                let i = choose|i: int| 0 <= i < kept.len() && kept[i] == other;
                if i < kept_front.len() {
                    assert(kept_front[i] == other);
                    assert(kept_front.contains(other));
                    let j = choose|j: int| 0 <= j < front.len() && front[j] == other;
                    assert(order[j] == other);
                } else {
                    assert(order[order.len() - 1] == other);
                }
            }
            if order.contains(other) {
                let j = choose|j: int| 0 <= j < order.len() && order[j] == other;
                if j < front.len() {
                    assert(front[j] == other);
                    assert(front.contains(other));
                    assert(kept_front.contains(other));
                    let i = choose|i: int| 0 <= i < kept_front.len() && kept_front[i] == other;
                    assert(kept[i] == other);
                } else {
                    assert(kept[kept.len() - 1] == other);
                }
            }
        }
        if kept.contains(id) {
            let i = choose|i: int| 0 <= i < kept.len() && kept[i] == id;
            if i < kept_front.len() {
                assert(kept_front[i] == id);
            }
        }
        if order.no_duplicates() {
            assert forall|a: int, b: int|
                0 <= a < front.len() && 0 <= b < front.len() && a != b implies front[a]
                != front[b] by {
                assert(order[a] == front[a]);
                assert(order[b] == front[b]);
            }
            if last != id {
                if kept_front.contains(last) {
                    let j = choose|j: int| 0 <= j < front.len() && front[j] == last;
                    assert(order[j] == order[order.len() - 1]);
                }
                assert forall|a: int, b: int|
                    0 <= a < kept.len() && 0 <= b < kept.len() && a != b implies kept[a]
                    != kept[b] by {
                    if a < kept_front.len() && b < kept_front.len() {
                        assert(kept[a] == kept_front[a]);
                        assert(kept[b] == kept_front[b]);
                    } else if a < kept_front.len() {
                        assert(kept_front[a] == kept[a]);
                    } else {
                        assert(kept_front[b] == kept[b]);
                    }
                }
            }
        }
        if !order.contains(id) {
            assert(last != id) by {
                assert(order[order.len() - 1] == last);
            }
            assert(!front.contains(id)) by {
                if front.contains(id) {
                    let j = choose|j: int| 0 <= j < front.len() && front[j] == id;
                    assert(order[j] == id);
                }
            }
        }
        if order.contains(id) {
            let j = choose|j: int| 0 <= j < order.len() && order[j] == id;
            if j < front.len() {
                assert(front[j] == id);
            }
        }
    }
}

impl View for RuleRegistry {
    type V = RegistryView;

    closed spec fn view(&self) -> RegistryView {
        RegistryView {
            rules: self.rules@,
            execution_order: identifiers(self.execution_order@),
        }
    }
}

impl RuleRegistry {
    /// What holds of every registry that this module hands out: no
    /// identifier is stored twice among the rules.
    pub closed spec fn wf(&self) -> bool {
        self.rules.wf()
    }

    /// A registry without rules.
    pub fn new() -> (registry: RuleRegistry)
        ensures
            registry.wf(),
            registry@ == RegistryView::empty(),
            registry@.consistent(),
    {
        let registry = RuleRegistry { rules: RuleTable::new(), execution_order: Vec::new() };
        assert(registry@ =~= RegistryView::empty());
        registry
    }

    /// Whether the order has `id`.
    fn order_contains(&self, id: &String) -> (found: bool)
        ensures
            found == self@.execution_order.contains(id@),
    {
        let ghost order = identifiers(self.execution_order@);
        let mut i: usize = 0;
        while i < self.execution_order.len()
            invariant
                i <= self.execution_order@.len(),
                order == identifiers(self.execution_order@),
                forall|j: int| 0 <= j < i ==> order[j] != id@,
            decreases self.execution_order@.len() - i,
        {
            if self.execution_order[i] == *id {
                assert(order[i as int] == id@);
                return true;
            }
            i = i + 1;
        }
        false
    }

    /// Registers a rule with the body `lisp_code` under `id`, at the time
    /// `created_at`.
    ///
    /// The empty identifier is refused and nothing changes. Otherwise the
    /// rule under `id` is a new one, with its statistics at zero, also where
    /// there was one before, and `id` keeps its place in the order or, if it
    /// has none, goes to the end.
    pub fn register_rule(&mut self, id: &str, lisp_code: &str, created_at: u64) -> (result: Result<
        (),
        RegistryError,
    >)
        requires
            old(self).wf(),
        ensures
            final(self).wf(),
            id@.len() == 0 ==> result == Err::<(), RegistryError>(RegistryError::EmptyIdentifier)
                && final(self)@ == old(self)@,
            id@.len() > 0 ==> result == Ok::<(), RegistryError>(()) && final(self)@
                == old(self)@.registered(id@, lisp_code@, created_at),
            old(self)@.consistent() ==> final(self)@.consistent(),
    {
        if id.is_empty() {
            return Err(RegistryError::EmptyIdentifier);
        }
        let key = id.to_owned();
        let rule = Rule::new(id.to_owned(), lisp_code.to_owned(), created_at);
        self.rules.insert(id.to_owned(), rule);
        if !self.order_contains(&key) {
            self.execution_order.push(key);
            assert(identifiers(self.execution_order@) =~= identifiers(old(self).execution_order@).push(
                id@,
            ));
        }
        proof {
            assert(self@ =~= old(self)@.registered(id@, lisp_code@, created_at));
            if old(self)@.consistent() {
                lemma_registered_consistent(old(self)@, id@, lisp_code@, created_at);
            }
        }
        Ok(())
    }

    /// Removes the rule under `id`, and `id` from the order, and says
    /// whether there was such a rule.
    pub fn remove_rule(&mut self, id: &str) -> (removed: bool)
        requires
            old(self).wf(),
        ensures
            final(self).wf(),
            removed == old(self)@.rules.contains_key(id@),
            final(self)@ == old(self)@.removed(id@),
            old(self)@.consistent() ==> final(self)@.consistent(),
    {
        let needle = id.to_owned();
        let ghost order = identifiers(self.execution_order@);
        let mut kept: Vec<String> = Vec::new();
        let mut i: usize = 0;
        while i < self.execution_order.len()
            invariant
                i <= self.execution_order@.len(),
                needle@ == id@,
                order == identifiers(self.execution_order@),
                identifiers(kept@) == without(order.take(i as int), id@),
            decreases self.execution_order@.len() - i,
        {
            proof {
                lemma_without_push(order.take(i as int), order[i as int], id@);
                assert(order.take(i as int).push(order[i as int]) =~= order.take(i + 1));
            }
            if self.execution_order[i] != needle {
                let ghost before = identifiers(kept@);
                kept.push(self.execution_order[i].clone());
                assert(identifiers(kept@) =~= before.push(order[i as int]));
            }
            i = i + 1;
        }
        assert(order.take(i as int) =~= order);
        self.execution_order = kept;
        let removed = self.rules.remove(id);
        proof {
            assert(self@ =~= old(self)@.removed(id@));
            if old(self)@.consistent() {
                lemma_removed_consistent(old(self)@, id@);
            }
        }
        removed
    }

    /// The body of the rule under `id`.
    pub fn get_rule_code(&self, id: &str) -> (code: Option<String>)
        requires
            self.wf(),
        ensures
            match code {
                Some(text) => self@.rules.contains_key(id@) && text@ == self@.rules[id@].lisp_code,
                None => !self@.rules.contains_key(id@),
            },
    {
        match self.rules.get(id) {
            Some(rule) => Some(rule.lisp_code.clone()),
            None => None,
        }
    }

    /// The identifiers in the order of their first registration.
    pub fn get_rule_ids(&self) -> (ids: Vec<String>)
        ensures
            identifiers(ids@) == self@.execution_order,
    {
        let mut ids: Vec<String> = Vec::new();
        let mut i: usize = 0;
        while i < self.execution_order.len()
            invariant
                i <= self.execution_order@.len(),
                ids@.len() == i,
                forall|j: int| 0 <= j < i ==> (#[trigger] ids@[j])@ == self.execution_order@[j]@,
            decreases self.execution_order@.len() - i,
        {
            ids.push(self.execution_order[i].clone());
            i = i + 1;
        }
        assert(identifiers(ids@) =~= identifiers(self.execution_order@));
        ids
    }

    /// The number of rules.
    pub fn get_rule_count(&self) -> (count: usize)
        requires
            self.wf(),
        ensures
            self@.rules.dom().finite(),
            count == self@.rules.len(),
    {
        self.rules.len()
    }

    /// Counts one more execution of the rule under `id`, which took
    /// `execution_time_ms`: the count goes up by one, the time is added to
    /// the total, and it becomes the last time. Without a rule under `id`
    /// nothing changes and the call fails.
    pub fn record_execution(&mut self, id: &str, execution_time_ms: Binary64) -> (result: Result<
        (),
        RegistryError,
    >)
        requires
            old(self).wf(),
            old(self)@.rules.contains_key(id@) ==> old(self)@.rules[id@].execution_count
                < u64::MAX,
        ensures
            final(self).wf(),
            old(self)@.rules.contains_key(id@) ==> result == Ok::<(), RegistryError>(())
                && final(self)@ == old(self)@.recorded(id@, execution_time_ms),
            !old(self)@.rules.contains_key(id@) ==> result == Err::<(), RegistryError>(
                RegistryError::RuleNotFound,
            ) && final(self)@ == old(self)@,
            old(self)@.consistent() ==> final(self)@.consistent(),
    {
        if self.rules.record(id, execution_time_ms) {
            proof {
                assert(self@ =~= old(self)@.recorded(id@, execution_time_ms));
                if old(self)@.consistent() {
                lemma_recorded_consistent(old(self)@, id@, execution_time_ms);
            }
            }
            Ok(())
        } else {
            assert(self@ =~= old(self)@);
            Err(RegistryError::RuleNotFound)
        }
    }

    /// Counts one more execution of the rule under `id`, which began when
    /// the clock read `started_ms` and ended when it read `finished_ms`: the
    /// time recorded is the second reading minus the first. Without a rule
    /// under `id` nothing changes and the call fails.
    pub fn record_interval(
        &mut self,
        id: &str,
        started_ms: Binary64,
        finished_ms: Binary64,
    ) -> (result: Result<(), RegistryError>)
        requires
            old(self).wf(),
            old(self)@.rules.contains_key(id@) ==> old(self)@.rules[id@].execution_count
                < u64::MAX,
        ensures
            final(self).wf(),
            old(self)@.rules.contains_key(id@) ==> result == Ok::<(), RegistryError>(())
                && final(self)@ == old(self)@.recorded(id@, finished_ms.difference(started_ms)),
            !old(self)@.rules.contains_key(id@) ==> result == Err::<(), RegistryError>(
                RegistryError::RuleNotFound,
            ) && final(self)@ == old(self)@,
            old(self)@.consistent() ==> final(self)@.consistent(),
    {
        self.record_execution(id, finished_ms.minus(started_ms))
    }

    /// The statistics of the rule under `id`.
    pub fn get_rule_stats(&self, id: &str) -> (result: Result<RuleStats, RegistryError>)
        requires
            self.wf(),
        ensures
            match result {
                Ok(stats) => self@.rules.contains_key(id@) && stats@ == self@.rules[id@].stats(),
                Err(error) => !self@.rules.contains_key(id@) && error
                    == RegistryError::RuleNotFound,
            },
    {
        match self.rules.get(id) {
            Some(rule) => Ok(rule.stats()),
            None => Err(RegistryError::RuleNotFound),
        }
    }

    /// The statistics of all rules, in the order of registration. An
    /// identifier of the order that has no rule is passed over.
    pub fn get_all_stats(&self) -> (all: Vec<RuleStats>)
        requires
            self.wf(),
        ensures
            stats_views(all@) == self@.all_stats(),
    {
        let ghost order = identifiers(self.execution_order@);
        let ghost rules = self.rules@;
        let mut all: Vec<RuleStats> = Vec::new();
        let mut i: usize = 0;
        assert(order.take(0) =~= Seq::<Seq<char>>::empty());
        assert(stats_views(all@) =~= stats_along(rules, order.take(0))) by {
            reveal(Seq::filter);
        }
        while i < self.execution_order.len()
            invariant
                self.wf(),
                i <= self.execution_order@.len(),
                order == identifiers(self.execution_order@),
                rules == self.rules@,
                stats_views(all@) == stats_along(rules, order.take(i as int)),
            decreases self.execution_order@.len() - i,
        {
            proof {
                lemma_stats_along_push(rules, order.take(i as int), order[i as int]);
                assert(order.take(i as int).push(order[i as int]) =~= order.take(i + 1));
            }
            match self.rules.get(self.execution_order[i].as_str()) {
                Some(rule) => {
                    let ghost before = stats_views(all@);
                    all.push(rule.stats());
                    assert(stats_views(all@) =~= before.push(rules[order[i as int]].stats()));
                },
                None => {},
            }
            i = i + 1;
        }
        assert(order.take(i as int) =~= order);
        all
    }

    /// Sets the statistics of every rule back to zero. Identifiers, bodies,
    /// times of registration and the order stay.
    pub fn clear_stats(&mut self)
        requires
            old(self).wf(),
        ensures
            final(self).wf(),
            final(self)@ == old(self)@.cleared(),
            old(self)@.consistent() ==> final(self)@.consistent(),
    {
        self.rules.clear_stats();
        proof {
            assert(self@ =~= old(self)@.cleared());
            if old(self)@.consistent() {
                lemma_cleared_consistent(old(self)@);
            }
        }
    }

    /// Copies of all rules and of the order. The keys of the copied entries
    /// are pairwise distinct, and the entries give the rules back when they
    /// are imported.
    pub fn export_registry(&self) -> (export: RegistryExport)
        requires
            self.wf(),
        ensures
            entry_keys(entry_views(export.rules@)).no_duplicates(),
            entries_map(entry_views(export.rules@)) == self@.rules,
            identifiers(export.execution_order@) == self@.execution_order,
    {
        RegistryExport { rules: self.rules.entries(), execution_order: self.get_rule_ids() }
    }

    /// Takes over the parts of an exported registry, the rules first.
    ///
    /// A part that is present replaces what the registry holds: the entries
    /// are inserted one after the other into an empty table, the order is
    /// taken as it is. A part that is absent leaves its half of the registry
    /// alone. A part that could not be read makes the call fail; rules that
    /// were present beside an unreadable order have then been taken over
    /// all the same, while an unreadable rules part changes nothing.
    pub fn import_registry(
        &mut self,
        rules: ImportSection<Vec<RuleEntry>>,
        execution_order: ImportSection<Vec<String>>,
    ) -> (result: Result<(), RegistryError>)
        requires
            old(self).wf(),
        ensures
            final(self).wf(),
            rules is Invalid ==> final(self)@ == old(self)@,
            rules is Absent ==> final(self)@.rules == old(self)@.rules,
            rules matches ImportSection::Present(entries) ==> final(self)@.rules == entries_map(
                entry_views(entries@),
            ),
            !(rules is Invalid) ==> (execution_order matches ImportSection::Present(order)
                ==> final(self)@.execution_order == identifiers(order@)),
            rules is Invalid ==> final(self)@.execution_order == old(self)@.execution_order,
            !(execution_order is Present) ==> final(self)@.execution_order
                == old(self)@.execution_order,
            result == if rules is Invalid || execution_order is Invalid {
                Err::<(), RegistryError>(RegistryError::ParseError)
            } else {
                Ok::<(), RegistryError>(())
            },
    {
        match rules {
            ImportSection::Invalid => {
                return Err(RegistryError::ParseError);
            },
            ImportSection::Absent => {},
            ImportSection::Present(entries) => {
                let ghost given = entry_views(entries@);
                let mut table = RuleTable::new();
                let mut i: usize = 0;
                assert(entries_map(given.take(0)) =~= table@);
                while i < entries.len()
                    invariant
                        i <= entries@.len(),
                        given == entry_views(entries@),
                        table.wf(),
                        table@ == entries_map(given.take(i as int)),
                    decreases entries@.len() - i,
                {
                    proof {
                        assert(given.take(i + 1).drop_last() =~= given.take(i as int));
                    }
                    let entry = entries[i].clone();
                    table.insert(entry.key, entry.rule);
                    i = i + 1;
                }
                assert(given.take(i as int) =~= given);
                self.rules = table;
            },
        }
        match execution_order {
            ImportSection::Invalid => Err(RegistryError::ParseError),
            ImportSection::Absent => Ok(()),
            ImportSection::Present(order) => {
                self.execution_order = order;
                Ok(())
            },
        }
    }
}

impl Default for RuleRegistry {
    fn default() -> (registry: RuleRegistry)
        ensures
            registry.wf(),
            registry@ == RegistryView::empty(),
    {
        RuleRegistry::new()
    }
}

/// Registering a rule under an identifier that is not empty keeps a
/// consistent registry consistent.
pub proof fn lemma_registered_consistent(
    registry: RegistryView,
    id: Seq<char>,
    lisp_code: Seq<char>,
    created_at: u64,
)
    requires
        registry.consistent(),
        id.len() > 0,
    ensures
        registry.registered(id, lisp_code, created_at).consistent(),
{
    let after = registry.registered(id, lisp_code, created_at);
    let order = registry.execution_order;
    if !order.contains(id) {
        assert forall|a: int, b: int|
            0 <= a < after.execution_order.len() && 0 <= b < after.execution_order.len() && a
                != b implies after.execution_order[a] != after.execution_order[b] by {
            if a < order.len() {
                assert(order[a] == after.execution_order[a]);
            }
            if b < order.len() {
                assert(order[b] == after.execution_order[b]);
            }
        }
    }
    assert forall|other: Seq<char>|
        after.execution_order.contains(other) <==> after.rules.contains_key(other) by {
        if after.execution_order.contains(other) {
            let i = choose|i: int|
                0 <= i < after.execution_order.len() && after.execution_order[i] == other;
            if i < order.len() {
                assert(order[i] == other);
            }
        }
        if order.contains(other) {
            let i = choose|i: int| 0 <= i < order.len() && order[i] == other;
            assert(after.execution_order[i] == other);
        }
        if other == id && !order.contains(id) {
            assert(after.execution_order[order.len() as int] == id);
        }
    }
}

/// Removing an identifier keeps a consistent registry consistent.
pub proof fn lemma_removed_consistent(registry: RegistryView, id: Seq<char>)
    requires
        registry.consistent(),
    ensures
        registry.removed(id).consistent(),
{
    lemma_without(registry.execution_order, id);
}

/// Recording an execution of a registered rule keeps a consistent registry
/// consistent.
pub proof fn lemma_recorded_consistent(registry: RegistryView, id: Seq<char>, elapsed_ms: Binary64)
    requires
        registry.consistent(),
        registry.rules.contains_key(id),
    ensures
        registry.recorded(id, elapsed_ms).consistent(),
{
}

/// Clearing the statistics keeps a consistent registry consistent.
pub proof fn lemma_cleared_consistent(registry: RegistryView)
    requires
        registry.consistent(),
    ensures
        registry.cleared().consistent(),
{
}

/// After a rule was registered under an identifier and then removed, there
/// is no rule under that identifier, and the removal made the order shorter
/// by exactly one entry. This needs the identifier to be one that can be
/// registered, so not empty, and to occur at most once in the order before.
pub proof fn lemma_register_then_remove(
    registry: RegistryView,
    id: Seq<char>,
    lisp_code: Seq<char>,
    created_at: u64,
)
    requires
        id.len() > 0,
        occurrences(registry.execution_order, id) <= 1,
    ensures
        !registry.registered(id, lisp_code, created_at).removed(id).rules.contains_key(id),
        registry.registered(id, lisp_code, created_at).removed(id).execution_order.len()
            == registry.registered(id, lisp_code, created_at).execution_order.len() - 1,
{
    let order = registry.execution_order;
    let after = registry.registered(id, lisp_code, created_at);
    lemma_without(order, id);
    lemma_without(after.execution_order, id);
    if !order.contains(id) {
        lemma_occurrences_push(order, id, id);
    }
}

/// Where every identifier of the order has a rule, as in a consistent
/// registry, the statistics are one record for each position of the order.
pub proof fn lemma_stats_along_registered(rules: Map<Seq<char>, RuleView>, order: Seq<Seq<char>>)
    requires
        forall|i: int| 0 <= i < order.len() ==> rules.contains_key(#[trigger] order[i]),
    ensures
        stats_along(rules, order) == order.map_values(report_of(rules)),
        stats_along(rules, order).len() == order.len(),
    decreases order.len(),
{
    let report = report_of(rules);
    if order.len() == 0 {
        reveal(Seq::filter);
        assert(stats_along(rules, order) =~= order.map_values(report));
    } else {
        let front = order.drop_last();
        let last = order.last();
        assert forall|i: int| 0 <= i < front.len() implies rules.contains_key(
            #[trigger] front[i],
        ) by {
            assert(front[i] == order[i]);
        }
        lemma_stats_along_registered(rules, front);
        assert(front.push(last) =~= order);
        lemma_stats_along_push(rules, front, last);
        assert(rules.contains_key(order[order.len() - 1]));
        assert(front.map_values(report).push(report(last)) =~= order.map_values(report));
    }
}

/// In a consistent registry the statistics have one record for each rule,
/// in the order of registration.
pub proof fn lemma_all_stats_of_consistent(registry: RegistryView)
    requires
        registry.consistent(),
    ensures
        registry.all_stats() == registry.execution_order.map_values(report_of(registry.rules)),
        registry.all_stats().len() == registry.execution_order.len(),
{
    assert forall|i: int| 0 <= i < registry.execution_order.len() implies registry.rules.contains_key(
        #[trigger] registry.execution_order[i],
    ) by {
        assert(registry.execution_order.contains(registry.execution_order[i]));
    }
    lemma_stats_along_registered(registry.rules, registry.execution_order);
}

/// Recording an execution for a rule leaves every other rule, and the order,
/// as they were.
pub proof fn lemma_record_touches_one_rule(
    registry: RegistryView,
    id: Seq<char>,
    other: Seq<char>,
    elapsed_ms: Binary64,
)
    requires
        registry.rules.contains_key(id),
        other != id,
    ensures
        registry.recorded(id, elapsed_ms).rules.contains_key(other)
            == registry.rules.contains_key(other),
        registry.rules.contains_key(other) ==> registry.recorded(id, elapsed_ms).rules[other]
            == registry.rules[other],
        registry.recorded(id, elapsed_ms).execution_order == registry.execution_order,
{
}

} // verus!
