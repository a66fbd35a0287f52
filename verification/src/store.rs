//! The keyed state store.
//!
//! One record per conversation, value = the byte serialization of its
//! `State`.  The store is viewed as a map from conversation id to state;
//! every operation's contract is stated over that map.  This in-memory
//! implementation never fails, but the operations surface `Result` so that
//! a durable backing (a file, a database) can report its I/O and decoding
//! failures through the same interface.

use vstd::prelude::*;

use crate::codec::decode_state;
use crate::codec::encode_state;
use crate::codec::lemma_codec_round_trip;
use crate::codec::spec_decode;
use crate::state::State;
use crate::state::StoreError;

verus! {

/// No two records share a conversation id.
pub open spec fn keys_unique(entries: Seq<(i64, Vec<u8>)>) -> bool {
    forall|i: int, j: int|
        0 <= i < j < entries.len() ==> (#[trigger] entries[i]).0 != (#[trigger] entries[j]).0
}

/// Every record's bytes decode to a state.
pub open spec fn records_decode(entries: Seq<(i64, Vec<u8>)>) -> bool {
    forall|i: int| 0 <= i < entries.len() ==> spec_decode((#[trigger] entries[i]).1@) is Some
}

/// The map a record list denotes: each id bound to its decoded state.
pub open spec fn map_of(entries: Seq<(i64, Vec<u8>)>) -> Map<i64, State>
    decreases entries.len(),
{
    if entries.len() == 0 {
        Map::empty()
    } else {
        let rest = map_of(entries.drop_last());
        match spec_decode(entries.last().1@) {
            Some(st) => rest.insert(entries.last().0, st),
            None => rest,
        }
    }
}

/// An id is in the denoted map exactly when some record carries it.
proof fn lemma_map_of_contains(entries: Seq<(i64, Vec<u8>)>, k: i64)
    requires
        records_decode(entries),
    ensures
        map_of(entries).contains_key(k) <==> exists|i: int|
            0 <= i < entries.len() && (#[trigger] entries[i]).0 == k,
    decreases entries.len(),
{
    if entries.len() > 0 {
        let rest = entries.drop_last();
        assert(forall|i: int| 0 <= i < rest.len() ==> rest[i] == entries[i]);
        assert(records_decode(rest));
        lemma_map_of_contains(rest, k);
        if entries.last().0 == k {
            assert(entries[entries.len() - 1].0 == k);
        } else {
            if map_of(entries).contains_key(k) {
                let i = choose|i: int| 0 <= i < rest.len() && (#[trigger] rest[i]).0 == k;
                assert(entries[i].0 == k);
            }
            if exists|i: int| 0 <= i < entries.len() && (#[trigger] entries[i]).0 == k {
                let i = choose|i: int| 0 <= i < entries.len() && (#[trigger] entries[i]).0 == k;
                assert(rest[i].0 == k);
            }
        }
    }
}

/// In a unique-keyed record list, the denoted map binds each record's id to
/// that record's decoded state.
proof fn lemma_map_of_value(entries: Seq<(i64, Vec<u8>)>, i: int)
    requires
        keys_unique(entries),
        records_decode(entries),
        0 <= i < entries.len(),
    ensures
        map_of(entries).contains_key(entries[i].0),
        map_of(entries)[entries[i].0] == spec_decode(entries[i].1@)->Some_0,
    decreases entries.len(),
{
    let rest = entries.drop_last();
    assert(forall|j: int| 0 <= j < entries.len() - 1 ==> rest[j] == entries[j]);
    if i == entries.len() - 1 {
    } else {
        lemma_map_of_value(rest, i);
        assert(entries.last().0 != entries[i].0);
    }
}

/// Removing the one record that carries an id removes exactly that id from
/// the denoted map.
proof fn lemma_map_of_remove(entries: Seq<(i64, Vec<u8>)>, i: int)
    requires
        keys_unique(entries),
        records_decode(entries),
        0 <= i < entries.len(),
    ensures
        map_of(entries.remove(i)) == map_of(entries).remove(entries[i].0),
    decreases entries.len(),
{
    let rest = entries.drop_last();
    let k = entries[i].0;
    assert(forall|j: int| 0 <= j < entries.len() - 1 ==> rest[j] == entries[j]);
    assert(records_decode(rest));
    assert(keys_unique(rest));
    if i == entries.len() - 1 {
        assert(entries.remove(i) =~= rest);
        lemma_map_of_contains(rest, k);
        assert(!map_of(rest).contains_key(k));
        assert(map_of(entries.remove(i)) =~= map_of(entries).remove(k));
    } else {
        lemma_map_of_remove(rest, i);
        assert(entries.remove(i).drop_last() =~= rest.remove(i));
        assert(entries.remove(i).last() == entries.last());
        assert(entries.last().0 != k);
        assert(map_of(entries.remove(i)) =~= map_of(entries).remove(k));
    }
}

/// Removing a record keeps the list well shaped, and — keys being unique —
/// leaves no record with the removed record's id behind.
proof fn lemma_remove_keeps_shape(entries: Seq<(i64, Vec<u8>)>, i: int)
    requires
        keys_unique(entries),
        records_decode(entries),
        0 <= i < entries.len(),
    ensures
        keys_unique(entries.remove(i)),
        records_decode(entries.remove(i)),
        forall|j: int|
            0 <= j < entries.remove(i).len() ==> (#[trigger] entries.remove(i)[j]).0
                != entries[i].0,
{
    assert(forall|a: int|
        0 <= a < entries.remove(i).len() ==> #[trigger] entries.remove(i)[a] == entries[
            if a < i {
                a
            } else {
                a + 1
            }
        ]);
}

/// The persistent key-value store of dialogue states, viewed as a map from
/// conversation id to state.
pub struct StateStore {
    entries: Vec<(i64, Vec<u8>)>,
}

impl View for StateStore {
    type V = Map<i64, State>;

    closed spec fn view(&self) -> Map<i64, State> {
        map_of(self.entries@)
    }
}

impl StateStore {
    /// The store's internal shape is well formed: ids are unique and every
    /// record decodes.  Constructors establish this and every operation
    /// preserves it.
    pub closed spec fn wf(&self) -> bool {
        keys_unique(self.entries@) && records_decode(self.entries@)
    }

    /// An empty store: no conversation has recorded state.
    pub fn new() -> (s: StateStore)
        ensures
            s.wf(),
            s@ == Map::<i64, State>::empty(),
    {
        StateStore { entries: Vec::new() }
    }

    /// The index of the record for `id`, if one exists.
    fn find(&self, id: i64) -> (r: Option<usize>)
        ensures
            match r {
                Some(i) => i < self.entries@.len() && self.entries@[i as int].0 == id,
                None => forall|j: int|
                    0 <= j < self.entries@.len() ==> (#[trigger] self.entries@[j]).0 != id,
            },
    {
        let mut i: usize = 0;
        while i < self.entries.len()
            invariant
                i <= self.entries@.len(),
                forall|j: int| 0 <= j < i ==> (#[trigger] self.entries@[j]).0 != id,
            decreases self.entries@.len() - i,
        {
            if self.entries[i].0 == id {
                return Some(i);
            }
            i = i + 1;
        }
        None
    }

    /// The stored state of a conversation; `None` when none is recorded.
    pub fn get(&self, id: i64) -> (r: Option<State>)
        requires
            self.wf(),
        ensures
            r == (if self@.contains_key(id) {
                Some(self@[id])
            } else {
                None::<State>
            }),
    {
        proof {
            lemma_map_of_contains(self.entries@, id);
        }
        match self.find(id) {
            Some(i) => {
                proof {
                    lemma_map_of_value(self.entries@, i as int);
                }
                let decoded = decode_state(self.entries[i].1.as_slice());
                match decoded {
                    Some(st) => Some(st),
                    None => None,
                }
            },
            None => None,
        }
    }

    /// Record `state` for `id`, replacing whatever was recorded before.
    pub fn set(&mut self, id: i64, state: State) -> (r: Result<(), StoreError>)
        requires
            old(self).wf(),
        ensures
            r is Ok,
            final(self).wf(),
            final(self)@ == old(self)@.insert(id, state),
    {
        let found = self.find(id);
        let ghost before = self.entries@;
        match found {
            Some(i) => {
                proof {
                    lemma_map_of_remove(before, i as int);
                }
                proof {
                    lemma_remove_keeps_shape(before, i as int);
                }
                self.entries.remove(i);
            },
            None => {},
        }
        let ghost trimmed = self.entries@;
        let bytes = encode_state(&state);
        proof {
            lemma_codec_round_trip(state);
        }
        self.entries.push((id, bytes));
        proof {
            assert(self.entries@.drop_last() =~= trimmed);
            assert(self@ =~= old(self)@.insert(id, state));
        }
        Ok(())
    }

    /// Remove the record for `id`, returning the conversation to its
    /// default state.
    pub fn delete(&mut self, id: i64) -> (r: Result<(), StoreError>)
        requires
            old(self).wf(),
        ensures
            r is Ok,
            final(self).wf(),
            final(self)@ == old(self)@.remove(id),
    {
        proof {
            lemma_map_of_contains(self.entries@, id);
        }
        let found = self.find(id);
        let ghost before = self.entries@;
        match found {
            Some(i) => {
                proof {
                    lemma_map_of_remove(before, i as int);
                }
                proof {
                    lemma_remove_keeps_shape(before, i as int);
                }
                self.entries.remove(i);
            },
            None => {
                proof {
                    assert(!old(self)@.contains_key(id));
                    assert(self@ =~= old(self)@.remove(id));
                }
            },
        }
        Ok(())
    }
}

} // verus!
