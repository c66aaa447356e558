//! The session store: owns the map from session identifier to game and is the
//! single place through which games are created, played and read. A concurrent
//! adapter wraps one store in a mutex; every operation here then runs under
//! exclusive access, which linearizes map changes and per-game mutation as the
//! store's contract assumes.

use std::collections::HashMap;
use vstd::prelude::*;
use crate::game::{Error, Game, GameResult, HistoryEntry, Sequence, guess_accepted, guess_error};
use crate::id_pool::{Id, IdPool};

verus! {

broadcast use vstd::std_specs::hash::group_hash_axioms;

/// A failed store operation.
#[derive(Clone, Copy, Debug, PartialEq, Eq, Structural)]
pub enum StoreError {
    /// The guess does not have the secret's length.
    LenMismatch,
    /// The sequence contains a repeated symbol.
    NonUnique,
    /// No session with the given identifier exists.
    UnknownSession,
}

/// How a game's own error surfaces from the store.
pub open spec fn as_store_error(e: Error) -> StoreError {
    match e {
        Error::LenMismatch => StoreError::LenMismatch,
        Error::NonUnique => StoreError::NonUnique,
    }
}

/// One successful or failed `create`: it advances the store's identifier
/// pool from `pre` to `post` and draws `id` for the new session.
pub open spec fn creates_session(pre: SessionStore, post: SessionStore, id: Id) -> bool {
    &&& pre.ids.id < usize::MAX
    &&& post.ids.id == pre.ids.id + 1
    &&& id == post.ids.id
}

/// Law: a run of `create` calls never collides on a session identifier.
/// `stores[k]` is the store before the call that draws `ids[k]`; however many
/// sessions the run starts, no two of them get the same identifier.
pub proof fn lemma_created_ids_distinct(stores: Seq<SessionStore>, ids: Seq<Id>)
    requires
        stores.len() == ids.len() + 1,
        forall|k: int| 0 <= k < ids.len() ==> #[trigger] creates_session(
            stores[k],
            stores[k + 1],
            ids[k],
        ),
    ensures
        forall|i: int, j: int| 0 <= i < j < ids.len() ==> ids[i] != ids[j],
{
    let pools = Seq::new(stores.len(), |i: int| stores[i].ids);
    assert forall|k: int| 0 <= k < ids.len() implies #[trigger] crate::id_pool::issues_next_id(
        pools[k],
        pools[k + 1],
        ids[k],
    ) by {
        assert(creates_session(stores[k], stores[k + 1], ids[k]));
    }
    crate::id_pool::lemma_next_ids_distinct(pools, ids);
}

/// The session store: all active games, keyed by the identifiers its own
/// pool handed out. Keys are never reused and no entry is ever removed.
pub struct SessionStore {
    pub games: HashMap<Id, Game>,
    pub ids: IdPool,
}

impl SessionStore {
    /// Every key was handed out by the pool (so the next allocation is
    /// fresh), and every stored game is well formed.
    pub open spec fn wf(self) -> bool {
        &&& forall|k: Id| #[trigger] self.games@.dom().contains(k) ==> 1 <= k <= self.ids.id
        &&& forall|k: Id| self.games@.dom().contains(k) ==> (#[trigger] self.games@[k]).wf()
    }

    /// An empty store with a fresh identifier pool.
    pub fn new() -> (r: Self)
        ensures
            r.wf(),
            r.games@ =~= Map::<Id, Game>::empty(),
            r.ids.id == 0,
    {
        SessionStore { games: HashMap::new(), ids: IdPool::new() }
    }

    /// Starts a session: allocates a fresh identifier, constructs the game
    /// and inserts it. The identifier is consumed even when the secret is
    /// rejected, so a failed start skips a value but never reuses one.
    pub fn create(&mut self, sequence: Sequence, max_attempts: u32) -> (result: Result<Id, Error>)
        requires
            old(self).wf(),
            old(self).ids.id < usize::MAX,
            sequence@.len() <= u32::MAX,
        ensures
            final(self).wf(),
            final(self).ids.id == old(self).ids.id + 1,
            result is Ok <==> sequence@.no_duplicates(),
            result matches Ok(id) ==> {
                &&& id == old(self).ids.id + 1
                &&& !old(self).games@.contains_key(id)
                &&& final(self).games@.contains_key(id)
                &&& final(self).games@[id].sequence@ == sequence@
                &&& final(self).games@[id].max_attempts == max_attempts
                &&& final(self).games@[id].history@ =~= Seq::<HistoryEntry>::empty()
                &&& final(self).games@[id].state is InProgress
                &&& final(self).games@.remove(id) =~= old(self).games@
            },
            result matches Err(e) ==> e is NonUnique && final(self).games@ =~= old(self).games@,
    {
        let id = self.ids.next();
        match Game::new(sequence, max_attempts) {
            Ok(game) => {
                proof {
                    assert(!self.games@.dom().contains(id));
                }
                self.games.insert(id, game);
                proof {
                    assert(self.games@.remove(id) =~= old(self).games@);
                }
                Ok(id)
            },
            Err(e) => Err(e),
        }
    }

    /// Plays one guess against the session's game: rejects an unknown
    /// identifier, and otherwise makes exactly the transition the game's own
    /// `guess` makes, leaving every other session untouched.
    pub fn guess(&mut self, id: Id, sequence: Sequence) -> (result: Result<GameResult, StoreError>)
        requires
            old(self).wf(),
        ensures
            final(self).wf(),
            final(self).ids == old(self).ids,
            !old(self).games@.contains_key(id) ==> result == Err::<GameResult, StoreError>(
                StoreError::UnknownSession,
            ) && final(self).games@ =~= old(self).games@,
            old(self).games@.contains_key(id) ==> {
                &&& final(self).games@.dom() =~= old(self).games@.dom()
                &&& forall|k: Id|
                    #[trigger] old(self).games@.dom().contains(k) && k != id
                        ==> final(self).games@[k] == old(self).games@[k]
                &&& match guess_error(old(self).games@[id], sequence@) {
                    Some(e) => result == Err::<GameResult, StoreError>(as_store_error(e))
                        && final(self).games@[id] == old(self).games@[id],
                    None => result matches Ok(r) && guess_accepted(
                        old(self).games@[id],
                        final(self).games@[id],
                        sequence@,
                        r,
                    ),
                }
            },
    {
        match self.games.remove(&id) {
            None => Err(StoreError::UnknownSession),
            Some(mut game) => {
                let r = game.guess(sequence);
                self.games.insert(id, game);
                proof {
                    assert(final(self).games@.dom() =~= old(self).games@.dom());
                }
                match r {
                    Ok(outcome) => Ok(outcome),
                    Err(Error::LenMismatch) => Err(StoreError::LenMismatch),
                    Err(Error::NonUnique) => Err(StoreError::NonUnique),
                }
            },
        }
    }

    /// The ordered history of the session's accepted guesses, read-only.
    pub fn history_of(&self, id: Id) -> (result: Result<&Vec<HistoryEntry>, StoreError>)
        ensures
            self.games@.contains_key(id) ==> (result matches Ok(h) && *h == self.games@[id].history),
            !self.games@.contains_key(id) ==> result == Err::<&Vec<HistoryEntry>, StoreError>(
                StoreError::UnknownSession,
            ),
    {
        match self.games.get(&id) {
            Some(game) => Ok(game.history()),
            None => Err(StoreError::UnknownSession),
        }
    }

    /// The session's secret, read-only; exposed so a loss can reveal it.
    pub fn sequence_of(&self, id: Id) -> (result: Result<&Sequence, StoreError>)
        ensures
            self.games@.contains_key(id) ==> (result matches Ok(s) && s@
                == self.games@[id].sequence@),
            !self.games@.contains_key(id) ==> result == Err::<&Sequence, StoreError>(
                StoreError::UnknownSession,
            ),
    {
        match self.games.get(&id) {
            Some(game) => Ok(game.sequence()),
            None => Err(StoreError::UnknownSession),
        }
    }
}

} // verus!
