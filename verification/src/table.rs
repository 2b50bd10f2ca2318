//! The mapping from identifiers to rules: a vector of entries whose keys
//! are pairwise distinct, viewed as a finite map.

use vstd::prelude::*;
use crate::binary64::Binary64;
use crate::rule::{Rule, RuleView};

verus! {

/// A rule together with the key that it is stored under.
#[derive(Debug)]
pub struct RuleEntry {
    pub key: String,
    pub rule: Rule,
}

/// The mathematical content of a [`RuleEntry`].
pub struct RuleEntryView {
    pub key: Seq<char>,
    pub rule: RuleView,
}

impl View for RuleEntry {
    type V = RuleEntryView;

    open spec fn view(&self) -> RuleEntryView {
        RuleEntryView { key: self.key@, rule: self.rule@ }
    }
}

impl Clone for RuleEntry {
    fn clone(&self) -> (copy: RuleEntry)
        ensures
            copy@ == self@,
    {
        RuleEntry { key: self.key.clone(), rule: self.rule.clone() }
    }
}

/// The views of a sequence of entries.
pub open spec fn entry_views(entries: Seq<RuleEntry>) -> Seq<RuleEntryView> {
    Seq::new(entries.len(), |i: int| entries[i]@)
}

/// The keys of a sequence of entries.
pub open spec fn entry_keys(entries: Seq<RuleEntryView>) -> Seq<Seq<char>> {
    Seq::new(entries.len(), |i: int| entries[i].key)
}

/// The map that comes of inserting the entries one after the other into an
/// empty map. Of two entries with one key the later one stays.
pub open spec fn entries_map(entries: Seq<RuleEntryView>) -> Map<Seq<char>, RuleView>
    decreases entries.len(),
{
    if entries.len() == 0 {
        Map::empty()
    } else {
        entries_map(entries.drop_last()).insert(entries.last().key, entries.last().rule)
    }
}

/// The keys of `entries_map` are the keys of the entries, and where the keys
/// of the entries are pairwise distinct each entry is found under its key.
pub proof fn lemma_entries_map(entries: Seq<RuleEntryView>)
    ensures
        entries_map(entries).dom().finite(),
        forall|key: Seq<char>|
            #![trigger entries_map(entries).contains_key(key)]
            #![trigger entry_keys(entries).contains(key)]
            entries_map(entries).contains_key(key) <==> entry_keys(entries).contains(key),
        entry_keys(entries).no_duplicates() ==> forall|i: int|
            0 <= i < entries.len() ==> entries_map(entries)[(#[trigger] entries[i]).key]
                == entries[i].rule,
    decreases entries.len(),
{
    let keys = entry_keys(entries);
    if entries.len() > 0 {
        let front = entries.drop_last();
        let front_keys = entry_keys(front);
        lemma_entries_map(front);
        assert forall|key: Seq<char>|
            entries_map(entries).contains_key(key) <==> keys.contains(key) by {
            if front_keys.contains(key) {
                let i = choose|i: int| 0 <= i < front_keys.len() && front_keys[i] == key;
                assert(keys[i] == key);
            }
            if key == entries.last().key {
                assert(keys[entries.len() - 1] == key);
            }
            if keys.contains(key) {
                let i = choose|i: int| 0 <= i < keys.len() && keys[i] == key;
                if i < front.len() {
                    assert(front_keys[i] == key);
                }
            }
        }
        if keys.no_duplicates() {
            assert forall|i: int, j: int|
                0 <= i < front_keys.len() && 0 <= j < front_keys.len() && i != j implies front_keys[i]
                != front_keys[j] by {
                assert(keys[i] == front_keys[i]);
                assert(keys[j] == front_keys[j]);
            }
            assert forall|i: int| 0 <= i < entries.len() implies entries_map(entries)[(
            #[trigger] entries[i]).key] == entries[i].rule by {
                if i < front.len() {
                    assert(front[i] == entries[i]);
                    assert(keys[i] == entries[i].key);
                    assert(keys[entries.len() - 1] == entries.last().key);
                }
            }
        }
    }
}

/// A finite map from identifiers to rules.
pub struct RuleTable {
    entries: Vec<RuleEntry>,
}

impl View for RuleTable {
    type V = Map<Seq<char>, RuleView>;

    closed spec fn view(&self) -> Map<Seq<char>, RuleView> {
        entries_map(entry_views(self.entries@))
    }
}

impl RuleTable {
    /// The keys in the order in which the entries are stored.
    spec fn keys(&self) -> Seq<Seq<char>> {
        entry_keys(entry_views(self.entries@))
    }

    /// No key is stored twice.
    pub closed spec fn wf(&self) -> bool {
        self.keys().no_duplicates()
    }

    /// What the representation gives: the stored keys are the keys of the
    /// map, each stored rule is the value under its key, and the map has as
    /// many keys as there are entries.
    proof fn lemma_view(&self)
        requires
            self.wf(),
        ensures
            self@.dom().finite(),
            self@.len() == self.entries@.len(),
            forall|key: Seq<char>|
                #![trigger self@.contains_key(key)]
                #![trigger self.keys().contains(key)]
                self@.contains_key(key) <==> self.keys().contains(key),
            forall|i: int|
                0 <= i < self.entries@.len() ==> self@.contains_key(
                    (#[trigger] self.entries@[i]).key@,
                ) && self@[self.entries@[i].key@] == self.entries@[i].rule@,
    {
        let views = entry_views(self.entries@);
        lemma_entries_map(views);
        assert forall|i: int| 0 <= i < self.entries@.len() implies self@.contains_key(
            (#[trigger] self.entries@[i]).key@,
        ) && self@[self.entries@[i].key@] == self.entries@[i].rule@ by {
            assert(self.keys()[i] == self.entries@[i].key@);
            assert(views[i].key == self.entries@[i].key@);
        }
        self.keys().unique_seq_to_set();
        assert(self@.dom() =~= self.keys().to_set());
    }

    /// Replacing the rule of the entry at `at` and keeping its key is an
    /// insertion under that key.
    proof fn lemma_entry_replaced(before: RuleTable, after: RuleTable, at: int)
        requires
            before.wf(),
            0 <= at < before.entries@.len(),
            after.entries@.len() == before.entries@.len(),
            after.entries@[at].key@ == before.entries@[at].key@,
            forall|j: int|
                0 <= j < before.entries@.len() && j != at ==> (#[trigger] after.entries@[j])@
                    == before.entries@[j]@,
        ensures
            after.wf(),
            after@ == before@.insert(before.entries@[at].key@, after.entries@[at].rule@),
    {
        assert(after.keys() =~= before.keys()) by {
            assert forall|j: int| 0 <= j < after.keys().len() implies after.keys()[j]
                == before.keys()[j] by {
                assert(after.entries@[j].key@ == before.entries@[j].key@);
            }
        }
        before.lemma_view();
        after.lemma_view();
        let key = before.entries@[at].key@;
        let expected = before@.insert(key, after.entries@[at].rule@);
        assert forall|k: Seq<char>| #[trigger] after@.contains_key(k) implies after@[k]
            == expected[k] by {
            let j = choose|j: int| 0 <= j < after.keys().len() && after.keys()[j] == k;
            assert(after.entries@[j].key@ == k);
            assert(before.keys()[j] == k);
            assert(before.keys()[at] == key);
            if j != at {
                assert(after.entries@[j]@ == before.entries@[j]@);
            }
        }
        assert(after@ =~= expected);
    }

    /// An empty table.
    pub fn new() -> (table: RuleTable)
        ensures
            table.wf(),
            table@ == Map::<Seq<char>, RuleView>::empty(),
    {
        RuleTable { entries: Vec::new() }
    }

    /// Where `key` is stored, if it is.
    fn position(&self, key: &String) -> (found: Option<usize>)
        ensures
            match found {
                Some(i) => i < self.entries@.len() && self.entries@[i as int].key@ == key@,
                None => !self.keys().contains(key@),
            },
    {
        let mut i: usize = 0;
        while i < self.entries.len()
            invariant
                i <= self.entries@.len(),
                forall|j: int| 0 <= j < i ==> self.entries@[j].key@ != key@,
            decreases self.entries@.len() - i,
        {
            if self.entries[i].key == *key {
                return Some(i);
            }
            i = i + 1;
        }
        assert forall|j: int| 0 <= j < self.keys().len() implies self.keys()[j] != key@ by {
            assert(self.keys()[j] == self.entries@[j].key@);
        }
        None
    }

    /// The number of rules.
    pub fn len(&self) -> (count: usize)
        requires
            self.wf(),
        ensures
            self@.dom().finite(),
            count == self@.len(),
    {
        proof {
            self.lemma_view();
        }
        self.entries.len()
    }

    /// The rule stored under `key`.
    pub fn get(&self, key: &str) -> (found: Option<&Rule>)
        requires
            self.wf(),
        ensures
            match found {
                Some(rule) => self@.contains_key(key@) && rule@ == self@[key@],
                None => !self@.contains_key(key@),
            },
    {
        proof {
            self.lemma_view();
        }
        let needle = key.to_owned();
        match self.position(&needle) {
            Some(i) => Some(&self.entries[i].rule),
            None => None,
        }
    }

    /// Stores `rule` under `key`, in place of what was stored there.
    pub fn insert(&mut self, key: String, rule: Rule)
        requires
            old(self).wf(),
        ensures
            final(self).wf(),
            final(self)@ == old(self)@.insert(key@, rule@),
    {
        proof {
            self.lemma_view();
        }
        let ghost before = *self;
        let ghost key_view = key@;
        let ghost rule_view = rule@;
        match self.position(&key) {
            Some(i) => {
                self.entries.set(i, RuleEntry { key, rule });
                proof {
                    Self::lemma_entry_replaced(before, *self, i as int);
                }
            },
            None => {
                self.entries.push(RuleEntry { key, rule });
                proof {
                    let views = entry_views(self.entries@);
                    assert(views.drop_last() =~= entry_views(before.entries@));
                    assert(self.keys() =~= before.keys().push(key_view));
                }
            },
        }
    }

    /// Removes what is stored under `key` and says whether anything was.
    pub fn remove(&mut self, key: &str) -> (removed: bool)
        requires
            old(self).wf(),
        ensures
            final(self).wf(),
            removed == old(self)@.contains_key(key@),
            final(self)@ == old(self)@.remove(key@),
    {
        proof {
            self.lemma_view();
        }
        let ghost before = *self;
        let needle = key.to_owned();
        match self.position(&needle) {
            Some(i) => {
                let _ = self.entries.remove(i);
                proof {
                    let at = i as int;
                    assert(self.keys() =~= before.keys().remove(at)) by {
                        assert forall|j: int| 0 <= j < self.keys().len() implies self.keys()[j]
                            == before.keys().remove(at)[j] by {
                            if j < at {
                                assert(before.keys()[j] == before.entries@[j].key@);
                            } else {
                                assert(before.keys()[j + 1] == before.entries@[j + 1].key@);
                            }
                        }
                    }
                    assert(before.keys()[at] == key@);
                    assert forall|a: int, b: int|
                        0 <= a < self.keys().len() && 0 <= b < self.keys().len() && a
                            != b implies self.keys()[a] != self.keys()[b] by {
                        let a0 = if a < at { a } else { a + 1 };
                        let b0 = if b < at { b } else { b + 1 };
                        assert(self.keys()[a] == before.keys()[a0]);
                        assert(self.keys()[b] == before.keys()[b0]);
                    }
                    self.lemma_view();
                    assert forall|k: Seq<char>|
                        self@.contains_key(k) <==> before@.remove(key@).contains_key(k) by {
                        if self.keys().contains(k) {
                            let j = choose|j: int|
                                0 <= j < self.keys().len() && self.keys()[j] == k;
                            let j0 = if j < at { j } else { j + 1 };
                            assert(before.keys()[j0] == k);
                        }
                        if before.keys().contains(k) && k != key@ {
                            let j0 = choose|j: int|
                                0 <= j < before.keys().len() && before.keys()[j] == k;
                            let j = if j0 < at { j0 } else { j0 - 1 };
                            assert(self.keys()[j] == k);
                        }
                    }
                    assert forall|k: Seq<char>| #[trigger]
                        self@.contains_key(k) implies self@[k] == before@.remove(key@)[k] by {
                        let j = choose|j: int| 0 <= j < self.keys().len() && self.keys()[j] == k;
                        let j0 = if j < at { j } else { j + 1 };
                        assert(self.entries@[j] == before.entries@[j0]);
                        assert(self.entries@[j].key@ == k);
                    }
                    assert(self@ =~= before@.remove(key@));
                }
                true
            },
            None => {
                assert(self@ =~= before@.remove(key@));
                false
            },
        }
    }

    /// Counts one more execution of the rule stored under `key`, which took
    /// `elapsed_ms`, and says whether there is such a rule.
    pub fn record(&mut self, key: &str, elapsed_ms: Binary64) -> (found: bool)
        requires
            old(self).wf(),
            old(self)@.contains_key(key@) ==> old(self)@[key@].execution_count < u64::MAX,
        ensures
            final(self).wf(),
            found == old(self)@.contains_key(key@),
            found ==> final(self)@ == old(self)@.insert(
                key@,
                old(self)@[key@].recorded(elapsed_ms),
            ),
            !found ==> final(self)@ == old(self)@,
    {
        proof {
            self.lemma_view();
        }
        let ghost before = *self;
        let needle = key.to_owned();
        match self.position(&needle) {
            Some(i) => {
                self.entries[i].rule.record(elapsed_ms);
                proof {
                    Self::lemma_entry_replaced(before, *self, i as int);
                }
                true
            },
            None => false,
        }
    }

    /// Sets the statistics of every rule back to zero.
    pub fn clear_stats(&mut self)
        requires
            old(self).wf(),
        ensures
            final(self).wf(),
            final(self)@ == old(self)@.map_values(|rule: RuleView| rule.cleared()),
    {
        let ghost before = *self;
        let mut i: usize = 0;
        while i < self.entries.len()
            invariant
                i <= self.entries@.len(),
                self.entries@.len() == before.entries@.len(),
                forall|j: int|
                    0 <= j < self.entries@.len() ==> (#[trigger] self.entries@[j]).key@
                        == before.entries@[j].key@,
                forall|j: int|
                    0 <= j < i ==> (#[trigger] self.entries@[j]).rule@
                        == before.entries@[j].rule@.cleared(),
                forall|j: int|
                    i <= j < self.entries@.len() ==> (#[trigger] self.entries@[j]).rule@
                        == before.entries@[j].rule@,
            decreases self.entries@.len() - i,
        {
            self.entries[i].rule.clear();
            i = i + 1;
        }
        proof {
            assert(self.keys() =~= before.keys()) by {
                assert forall|j: int| 0 <= j < self.keys().len() implies self.keys()[j]
                    == before.keys()[j] by {
                    assert(self.entries@[j].key@ == before.entries@[j].key@);
                }
            }
            before.lemma_view();
            self.lemma_view();
            let cleared = before@.map_values(|rule: RuleView| rule.cleared());
            assert forall|k: Seq<char>| #[trigger] self@.contains_key(k) implies self@[k]
                == cleared[k] by {
                let j = choose|j: int| 0 <= j < self.keys().len() && self.keys()[j] == k;
                assert(self.entries@[j].key@ == k);
                assert(before.entries@[j].key@ == k);
            }
            assert(self@ =~= cleared);
        }
    }

    /// Copies of all entries. Their keys are pairwise distinct, and inserted
    /// one after the other they give the table back.
    pub fn entries(&self) -> (entries: Vec<RuleEntry>)
        requires
            self.wf(),
        ensures
            entry_keys(entry_views(entries@)).no_duplicates(),
            entries_map(entry_views(entries@)) == self@,
            entries@.len() == self@.len(),
    {
        proof {
            self.lemma_view();
        }
        let mut entries: Vec<RuleEntry> = Vec::new();
        let mut i: usize = 0;
        while i < self.entries.len()
            invariant
                i <= self.entries@.len(),
                entries@.len() == i,
                forall|j: int| 0 <= j < i ==> (#[trigger] entries@[j])@ == self.entries@[j]@,
            decreases self.entries@.len() - i,
        {
            entries.push(self.entries[i].clone());
            i = i + 1;
        }
        assert(entry_views(entries@) =~= entry_views(self.entries@));
        entries
    }
}

} // verus!
