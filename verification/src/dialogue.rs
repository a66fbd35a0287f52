//! The per-conversation dialogue handle, and the laws of the store it
//! mediates.
//!
//! A handle is built fresh for each inbound message and bound to one
//! conversation id; the process-wide store is handed to every call
//! explicitly, so the store stays the single source of truth.  The driving
//! loop must serialize the calls for one conversation id (a per-id lock or
//! an actor per conversation); the laws below speak about any such
//! serialized order.

use vstd::prelude::*;

use crate::state::State;
use crate::state::StoreError;
use crate::store::StateStore;

verus! {

/// The state a conversation is in under a store: the recorded one, or
/// `Start` when none is recorded.
pub open spec fn spec_current(m: Map<i64, State>, id: i64) -> State {
    if m.contains_key(id) {
        m[id]
    } else {
        State::Start
    }
}

/// A per-conversation accessor bound to one conversation id.
#[derive(Clone, Copy, Debug, PartialEq, Eq, Structural)]
pub struct DialogueHandle {
    pub chat_id: i64,
}

impl DialogueHandle {
    /// Bind a handle to one conversation.
    pub fn new(chat_id: i64) -> (h: DialogueHandle)
        ensures
            h.chat_id == chat_id,
    {
        DialogueHandle { chat_id }
    }

    /// The conversation's current state: the stored one, `Start` if none.
    pub fn current(&self, store: &StateStore) -> (s: State)
        requires
            store.wf(),
        ensures
            s == spec_current(store@, self.chat_id),
    {
        match store.get(self.chat_id) {
            Some(s) => s,
            None => State::default(),
        }
    }

    /// Replace the conversation's stored state; immediately visible to the
    /// next `current` call for this conversation.
    pub fn update(&self, store: &mut StateStore, s: State) -> (r: Result<(), StoreError>)
        requires
            old(store).wf(),
        ensures
            r is Ok,
            final(store).wf(),
            final(store)@ == old(store)@.insert(self.chat_id, s),
    {
        store.set(self.chat_id, s)
    }

    /// Remove the stored entry, returning the conversation to `Start`.
    pub fn reset(&self, store: &mut StateStore) -> (r: Result<(), StoreError>)
        requires
            old(store).wf(),
        ensures
            r is Ok,
            final(store).wf(),
            final(store)@ == old(store)@.remove(self.chat_id),
    {
        store.delete(self.chat_id)
    }
}

/// Default state: a conversation with no recorded entry reads `Start`.
pub proof fn lemma_default_state(m: Map<i64, State>, id: i64)
    requires
        !m.contains_key(id),
    ensures
        spec_current(m, id) == State::Start,
{
}

/// Round trip: after `update(s)` the next `current` for the same
/// conversation reads exactly `s`.
pub proof fn lemma_update_round_trip(m: Map<i64, State>, id: i64, s: State)
    ensures
        spec_current(m.insert(id, s), id) == s,
{
}

/// Reset: after `reset` the conversation reads `Start`, whatever was
/// updated before.
pub proof fn lemma_reset_round_trip(m: Map<i64, State>, id: i64)
    ensures
        spec_current(m.remove(id), id) == State::Start,
{
}

/// Isolation: an update or a reset of one conversation never changes what
/// any other conversation reads.
pub proof fn lemma_isolation(m: Map<i64, State>, a: i64, b: i64, s: State)
    requires
        a != b,
    ensures
        spec_current(m.insert(a, s), b) == spec_current(m, b),
        spec_current(m.remove(a), b) == spec_current(m, b),
{
}

/// The store after a batch of racing updates for one conversation has been
/// serialized into some order.
pub open spec fn apply_updates(m: Map<i64, State>, id: i64, ss: Seq<State>) -> Map<i64, State>
    decreases ss.len(),
{
    if ss.len() == 0 {
        m
    } else {
        apply_updates(m, id, ss.drop_last()).insert(id, ss.last())
    }
}

/// No lost updates: when racing updates for one conversation run under the
/// per-conversation mutual exclusion, the store afterwards holds exactly
/// the value written last in the serialized order — one of the proposed
/// values, never a mixture — and no other conversation is touched.
pub proof fn lemma_no_lost_updates(m: Map<i64, State>, id: i64, ss: Seq<State>)
    requires
        ss.len() > 0,
    ensures
        spec_current(apply_updates(m, id, ss), id) == ss.last(),
        ss.contains(spec_current(apply_updates(m, id, ss), id)),
        forall|b: i64| b != id ==> spec_current(apply_updates(m, id, ss), b) == spec_current(m, b),
    decreases ss.len(),
{
    assert(ss[ss.len() - 1] == ss.last());
    if ss.len() > 1 {
        lemma_no_lost_updates(m, id, ss.drop_last());
    }
}

} // verus!
