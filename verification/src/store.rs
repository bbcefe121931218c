//! Many keys held in memory: each key has its own attempts and its own
//! block, found under its name.
use crate::config::{AbuseLimiterConfig, MAX_SECONDS};
use crate::memory::KeyState;
use crate::tiered::{check_model, Decision, KeyModel};
use vstd::prelude::*;
use vstd::string::StringExecFns;

verus! {

/// The name under which a key is kept: the configuration's prefix, a colon,
/// and the key.
pub open spec fn storage_name(prefix: Seq<char>, key: Seq<char>) -> Seq<char> {
    prefix + ":"@ + key
}

/// One key and what is known of it.
struct Entry {
    name: String,
    state: KeyState,
}

/// The keys that were checked so far, each with its state. A key that was
/// never checked is as good as one with no attempt and no block.
pub struct MemoryStore {
    entries: Vec<Entry>,
}

impl MemoryStore {
    /// Whether the first entry for `name` stands at `i`.
    closed spec fn first_at(&self, name: Seq<char>, i: int) -> bool {
        &&& 0 <= i < self.entries.len()
        &&& self.entries[i].name@ == name
        &&& forall|j: int| 0 <= j < i ==> self.entries[j].name@ != name
    }

    /// Whether the store has an entry for `name`.
    pub closed spec fn holds(&self, name: Seq<char>) -> bool {
        exists|i: int| self.first_at(name, i)
    }

    /// What the store knows of the key kept under `name`.
    pub closed spec fn state_of(&self, name: Seq<char>) -> KeyModel {
        if self.holds(name) {
            let i = choose|i: int| self.first_at(name, i);
            self.entries[i].state@
        } else {
            KeyModel::fresh()
        }
    }

    /// The entry that `first_at` points to is the one that `state_of` reads.
    proof fn lemma_first_is_read(&self, name: Seq<char>, i: int)
        requires
            self.first_at(name, i),
        ensures
            self.holds(name),
            self.state_of(name) == self.entries[i].state@,
    {
        let k = choose|k: int| self.first_at(name, k);
        assert(k == i) by {
            if k < i {
                assert(self.entries[k].name@ != name);
            }
            if i < k {
                assert(self.entries[i].name@ != name);
            }
        }
    }

    /// Where some entry has the name, a first one has it.
    proof fn lemma_has_first(&self, name: Seq<char>, i: int)
        requires
            0 <= i < self.entries.len(),
            self.entries[i].name@ == name,
        ensures
            self.holds(name),
        decreases i,
    {
        if exists|j: int| 0 <= j < i && self.entries[j].name@ == name {
            let j = choose|j: int| 0 <= j < i && self.entries[j].name@ == name;
            self.lemma_has_first(name, j);
        } else {
            assert(self.first_at(name, i));
        }
    }

    /// A store that has seen no key.
    pub fn new() -> (store: MemoryStore)
        ensures
            forall|name: Seq<char>| !store.holds(name),
            forall|name: Seq<char>| store.state_of(name) == KeyModel::fresh(),
    {
        MemoryStore { entries: Vec::new() }
    }

    /// Where the entry for `name` stands, if there is one.
    fn find(&self, name: &String) -> (found: Option<usize>)
        ensures
            match found {
                Some(i) => self.first_at(name@, i as int),
                None => !self.holds(name@),
            },
    {
        let mut i: usize = 0;
        while i < self.entries.len()
            invariant
                i <= self.entries.len(),
                forall|j: int| 0 <= j < i ==> self.entries[j].name@ != name@,
            decreases self.entries.len() - i,
        {
            if self.entries[i].name == *name {
                return Some(i);
            }
            i = i + 1;
        }
        proof {
            assert forall|k: int| !self.first_at(name@, k) by {}
        }
        None
    }

    /// Checks `key` at `now` under `config`: the check of
    /// [`KeyState::check`] on the state kept under the key's storage name.
    /// No other key is touched.
    pub fn check(&mut self, key: &str, config: &AbuseLimiterConfig, now: u64) -> (decision:
        Decision)
        requires
            now <= MAX_SECONDS,
        ensures
            (final(self).state_of(storage_name(config@.key_prefix, key@)), decision)
                == check_model(
                old(self).state_of(storage_name(config@.key_prefix, key@)),
                config@,
                now,
            ),
            final(self).holds(storage_name(config@.key_prefix, key@)),
            forall|other: Seq<char>|
                other != storage_name(config@.key_prefix, key@) ==> final(self).state_of(other)
                    == old(self).state_of(other),
            forall|other: Seq<char>|
                other != storage_name(config@.key_prefix, key@) ==> final(self).holds(other)
                    == old(self).holds(other),
    {
        let mut name = config.key_prefix().clone();
        name.append(":");
        name.append(key);
        let ghost wanted = storage_name(config@.key_prefix, key@);
        assert(name@ == wanted);
        let at: usize = match self.find(&name) {
            Some(i) => i,
            None => {
                self.entries.push(Entry { name, state: KeyState::new() });
                proof {
                    assert forall|other: Seq<char>, i: int|
                        old(self).first_at(other, i) implies self.first_at(other, i) by {
                        assert(forall|j: int| 0 <= j <= i ==> self.entries[j] == old(
                            self,
                        ).entries[j]);
                    }
                    assert forall|other: Seq<char>, i: int|
                        other != wanted && self.first_at(other, i) implies old(self).first_at(
                        other,
                        i,
                    ) by {
                        assert(forall|j: int| 0 <= j <= i ==> self.entries[j] == old(
                            self,
                        ).entries[j]);
                    }
                }
                self.entries.len() - 1
            },
        };
        let ghost before = *self;
        proof {
            assert(before.first_at(wanted, at as int)) by {
                if !old(self).holds(wanted) {
                    assert forall|j: int| 0 <= j < at implies before.entries[j].name@
                        != wanted by {
                        assert(before.entries[j] == old(self).entries[j]);
                        if before.entries[j].name@ == wanted {
                            old(self).lemma_has_first(wanted, j);
                        }
                    }
                }
            }
            before.lemma_first_is_read(wanted, at as int);
            if old(self).holds(wanted) {
                old(self).lemma_first_is_read(wanted, at as int);
            }
            assert(before.state_of(wanted) == old(self).state_of(wanted));
            assert forall|other: Seq<char>| other != wanted implies before.state_of(other) == old(
                self,
            ).state_of(other) by {
                if old(self).holds(other) {
                    let i = choose|i: int| old(self).first_at(other, i);
                    assert(before.first_at(other, i));
                    before.lemma_first_is_read(other, i);
                } else if before.holds(other) {
                    let i = choose|i: int| before.first_at(other, i);
                    assert(old(self).first_at(other, i));
                }
            }
        }
        let decision = self.entries[at].state.check(config, now);
        proof {
            assert(self.entries@.len() == before.entries@.len());
            assert(forall|i: int|
                0 <= i < before.entries.len() ==> self.entries[i].name@ == before.entries[i].name@);
            assert(forall|i: int|
                0 <= i < before.entries.len() && i != at ==> self.entries[i].state@
                    == before.entries[i].state@);
            assert forall|other: Seq<char>, i: int|
                before.first_at(other, i) == self.first_at(other, i) by {}
            assert(self.first_at(wanted, at as int));
            self.lemma_first_is_read(wanted, at as int);
            assert forall|other: Seq<char>| other != wanted implies self.holds(other) == old(
                self,
            ).holds(other) by {
                if old(self).holds(other) {
                    let i = choose|i: int| old(self).first_at(other, i);
                    assert(before.first_at(other, i));
                    assert(self.first_at(other, i));
                } else if self.holds(other) {
                    let i = choose|i: int| self.first_at(other, i);
                    assert(before.first_at(other, i));
                    assert(old(self).first_at(other, i));
                }
            }
            assert forall|other: Seq<char>| other != wanted implies self.state_of(other) == old(
                self,
            ).state_of(other) by {
                assert(before.state_of(other) == old(self).state_of(other));
                if before.holds(other) {
                    let i = choose|i: int| before.first_at(other, i);
                    assert(self.first_at(other, i));
                    self.lemma_first_is_read(other, i);
                    assert(i != at);
                } else if self.holds(other) {
                    let i = choose|i: int| self.first_at(other, i);
                    assert(before.first_at(other, i));
                }
            }
        }
        decision
    }

    /// The state kept under `key`'s storage name, if the key was ever
    /// checked.
    pub fn key_state(&self, key: &str, config: &AbuseLimiterConfig) -> (found: Option<&KeyState>)
        ensures
            found is Some == self.holds(storage_name(config@.key_prefix, key@)),
            found matches Some(state) ==> state@ == self.state_of(
                storage_name(config@.key_prefix, key@),
            ),
    {
        let mut name = config.key_prefix().clone();
        name.append(":");
        name.append(key);
        match self.find(&name) {
            Some(i) => {
                proof {
                    self.lemma_first_is_read(name@, i as int);
                }
                Some(&self.entries[i].state)
            },
            None => None,
        }
    }
}

} // verus!
