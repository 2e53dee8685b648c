//! The heads of the search index over conversations.

use vstd::prelude::*;

use crate::engine::StorageEngine;
use crate::rows::{ConversationOwner, RecallHeadRow, RecallState};
use crate::table::{first, first_after_update, first_is_found, position};
use crate::usage::{is_same_owner, owner_key};

verus! {

/// The head of an index when the runtime starts. Without an index nothing is indexed; a rebuild
/// belonged to the process before.
pub open spec fn head_after_start(existed: bool, head: RecallHeadRow) -> RecallHeadRow {
    if !existed {
        RecallHeadRow { indexed_message_count: 0, state: RecallState::Dirty, ..head }
    } else if head.state is Rebuilding {
        RecallHeadRow { state: RecallState::Dirty, ..head }
    } else {
        head
    }
}

/// The heads of the index when the runtime starts.
pub open spec fn heads_after_start(existed: bool, heads: Seq<RecallHeadRow>) -> Seq<RecallHeadRow> {
    heads.map_values(|head: RecallHeadRow| head_after_start(existed, head))
}

impl StorageEngine {
    /// Settles the heads of the index, once the index itself is there. `existed` says whether it
    /// was there before.
    pub fn initialize_recall_heads(&mut self, existed: bool)
        ensures
            *final(self) == (StorageEngine { recall_heads: final(self).recall_heads, ..*old(self) }),
            final(self).recall_heads@ == heads_after_start(existed, old(self).recall_heads@),
    {
        let ghost before = self.recall_heads@;
        let mut i: usize = 0;
        while i < self.recall_heads.len()
            invariant
                i <= self.recall_heads@.len(),
                before == old(self).recall_heads@,
                *self == (StorageEngine { recall_heads: self.recall_heads, ..*old(self) }),
                self.recall_heads@.len() == before.len(),
                forall|k: int|
                    0 <= k < i ==> #[trigger] self.recall_heads@[k] == head_after_start(
                        existed,
                        before[k],
                    ),
                forall|k: int|
                    i <= k < before.len() ==> #[trigger] self.recall_heads@[k] == before[k],
            decreases self.recall_heads@.len() - i,
        {
            let head = &self.recall_heads[i];
            let indexed_message_count: u64 = if existed {
                head.indexed_message_count
            } else {
                0
            };
            let state = if !existed || matches!(head.state, RecallState::Rebuilding) {
                RecallState::Dirty
            } else {
                head.state
            };
            let head = RecallHeadRow {
                owner: head.owner.copy(),
                body_generation: head.body_generation,
                indexed_message_count,
                state,
            };
            self.recall_heads.set(i, head);
            i += 1;
        }
        proof {
            assert(self.recall_heads@ =~= heads_after_start(existed, before));
        }
    }
}

/// The condition of being the head of a conversation's index.
pub open spec fn is_head_of(owner: ConversationOwner) -> spec_fn(RecallHeadRow) -> bool {
    |head: RecallHeadRow| owner_key(head.owner) == owner_key(owner)
}

/// The heads with nothing of a conversation's body indexed.
pub open spec fn heads_after_switch(
    heads: Seq<RecallHeadRow>,
    owner: ConversationOwner,
    generation: u64,
) -> Seq<RecallHeadRow> {
    match first(heads, is_head_of(owner)) {
        Some(place) => heads.update(
            place,
            RecallHeadRow {
                body_generation: generation,
                indexed_message_count: 0,
                state: RecallState::Dirty,
                ..heads[place]
            },
        ),
        None => heads.push(
            RecallHeadRow {
                owner,
                body_generation: generation,
                indexed_message_count: 0,
                state: RecallState::Dirty,
            },
        ),
    }
}

impl StorageEngine {
    /// Records that nothing of a conversation's body is indexed.
    pub fn mark_recall_owner_dirty(&mut self, owner: &ConversationOwner, generation: u64)
        ensures
            *final(self) == (StorageEngine { recall_heads: final(self).recall_heads, ..*old(self) }),
            final(self).recall_heads@ == heads_after_switch(
                old(self).recall_heads@,
                *owner,
                generation,
            ),
    {
        match position(
            &self.recall_heads,
            Ghost(is_head_of(*owner)),
            |head: &RecallHeadRow| -> (found: bool)
                ensures
                    found == (owner_key(head.owner) == owner_key(*owner))
                { is_same_owner(&head.owner, owner) },
        ) {
            Some(place) => {
                let head = RecallHeadRow {
                    owner: self.recall_heads[place].owner.copy(),
                    body_generation: generation,
                    indexed_message_count: 0,
                    state: RecallState::Dirty,
                };
                self.recall_heads.set(place, head);
            },
            None => {
                self.recall_heads.push(
                    RecallHeadRow {
                        owner: owner.copy(),
                        body_generation: generation,
                        indexed_message_count: 0,
                        state: RecallState::Dirty,
                    },
                );
            },
        }
    }
}

/// A conversation whose body was switched is to be indexed anew, and the heads of the others stay.
pub proof fn switched_body_is_indexed_anew(
    heads: Seq<RecallHeadRow>,
    owner: ConversationOwner,
    generation: u64,
    place: int,
)
    requires
        0 <= place < heads.len(),
    ensures
        ({
            let after = heads_after_switch(heads, owner, generation);
            let found = first(after, is_head_of(owner));
            &&& found is Some
            &&& after[found->0].state is Dirty
            &&& after[found->0].indexed_message_count == 0
            &&& after[found->0].body_generation == generation
            &&& owner_key(heads[place].owner) != owner_key(owner) ==> after[place] == heads[place]
        }),
{
    let condition = is_head_of(owner);
    first_is_found(heads, condition);
    let after = heads_after_switch(heads, owner, generation);
    first_is_found(after, condition);
    match first(heads, condition) {
        Some(found) => {
            first_after_update(heads, condition, found, after[found]);
        },
        None => {
            assert(condition(after[heads.len() as int]));
            let found = first(after, condition)->0;
            if found < heads.len() {
                assert(condition(heads[found]));
            }
        },
    }
}

/// Once the runtime has started, no rebuild is under way; starting again changes nothing; and
/// what is ready was ready before.
pub proof fn no_rebuild_survives_a_start(existed: bool, heads: Seq<RecallHeadRow>)
    ensures
        forall|i: int|
            0 <= i < heads.len() ==> {
                let head = #[trigger] heads_after_start(existed, heads)[i];
                &&& !(head.state is Rebuilding)
                &&& head.state is Ready ==> existed && head == heads[i]
            },
        heads_after_start(true, heads_after_start(existed, heads)) == heads_after_start(
            existed,
            heads,
        ),
{
    assert(heads_after_start(true, heads_after_start(existed, heads)) =~= heads_after_start(
        existed,
        heads,
    ));
}

} // verus!
