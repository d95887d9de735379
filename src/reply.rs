//! Continuations that wait for the confirmation of an asynchronous action.
use vstd::prelude::*;
use crate::error::VaultError;

verus! {

/// What to do once a confirmation arrives.
#[derive(Clone, Copy, Debug, PartialEq, Eq)]
pub enum Continuation {
    /// Record the id of the position that the confirmed creation made.
    AttachCreatedPosition,
}

/// Pending continuations by correlation id; each is resolved at most once.
#[derive(Clone, Debug, PartialEq, Eq)]
pub struct ReplyRouter {
    pending: Vec<(u64, Continuation)>,
}

impl View for ReplyRouter {
    type V = Map<u64, Continuation>;

    closed spec fn view(&self) -> Map<u64, Continuation> {
        Map::new(
            |id: u64| exists|i: int| 0 <= i < self.pending@.len() && self.pending@[i].0 == id,
            |id: u64|
                self.pending@[choose|i: int| 0 <= i < self.pending@.len() && self.pending@[i].0 == id].1,
        )
    }
}

impl ReplyRouter {
    /// No id is pending twice.
    pub closed spec fn wf(&self) -> bool {
        forall|i: int, j: int|
            0 <= i < j < self.pending@.len() ==> self.pending@[i].0 != self.pending@[j].0
    }

    /// A router with nothing pending.
    pub fn new() -> (r: ReplyRouter)
        ensures
            r.wf(),
            r@ == Map::<u64, Continuation>::empty(),
    {
        let r = ReplyRouter { pending: Vec::new() };
        assert(r@ =~= Map::<u64, Continuation>::empty());
        r
    }

    fn position_of(&self, id: u64) -> (r: Option<usize>)
        requires
            self.wf(),
        ensures
            r matches Some(i) ==> i < self.pending@.len() && self.pending@[i as int].0 == id,
            r.is_none() <==> !self@.contains_key(id),
    {
        let mut i: usize = 0;
        while i < self.pending.len()
            invariant
                i <= self.pending@.len(),
                forall|j: int| 0 <= j < i ==> self.pending@[j].0 != id,
            decreases self.pending.len() - i,
        {
            if self.pending[i].0 == id {
                return Some(i);
            }
            i = i + 1;
        }
        None
    }

    /// Whether a continuation waits under `id`.
    pub fn is_pending(&self, id: u64) -> (r: bool)
        requires
            self.wf(),
        ensures
            r == self@.contains_key(id),
    {
        self.position_of(id).is_some()
    }

    /// Registers `c` under `id`; refused while `id` is still pending.
    pub fn register(&mut self, id: u64, c: Continuation) -> (r: Result<(), VaultError>)
        requires
            old(self).wf(),
        ensures
            final(self).wf(),
            old(self)@.contains_key(id) ==> r == Err::<(), VaultError>(VaultError::CreationInProgress)
                && *final(self) == *old(self),
            !old(self)@.contains_key(id) ==> r is Ok && final(self)@ == old(self)@.insert(id, c),
    {
        if self.position_of(id).is_some() {
            return Err(VaultError::CreationInProgress);
        }
        let ghost before = self.pending@;
        self.pending.push((id, c));
        proof {
            let after = self.pending@;
            assert(after.len() == before.len() + 1);
            assert forall|k: u64| #[trigger] self@.contains_key(k) == old(self)@.insert(id, c).contains_key(k) by {
                if k == id {
                    assert(after[before.len() as int].0 == k);
                } else if old(self)@.contains_key(k) {
                    let i = choose|i: int| 0 <= i < before.len() && before[i].0 == k;
                    assert(after[i].0 == k);
                }
                if self@.contains_key(k) && k != id {
                    let j = choose|j: int| 0 <= j < after.len() && after[j].0 == k;
                    assert(j < before.len());
                    assert(before[j].0 == k);
                }
            }
            assert forall|k: u64| #[trigger] self@.contains_key(k) implies self@[k] == old(self)@.insert(id, c)[k] by {
                let i = choose|i: int| 0 <= i < after.len() && after[i].0 == k;
                if k == id {
                    assert(i == before.len());
                } else {
                    let i0 = choose|i: int| 0 <= i < before.len() && before[i].0 == k;
                    assert(i == i0);
                }
            }
            assert(self@ =~= old(self)@.insert(id, c));
        }
        Ok(())
    }

    /// Takes the continuation waiting under `id`, which is then no longer pending.
    pub fn resolve(&mut self, id: u64) -> (r: Result<Continuation, VaultError>)
        requires
            old(self).wf(),
        ensures
            final(self).wf(),
            old(self)@.contains_key(id) ==> r == Ok::<Continuation, VaultError>(old(self)@[id])
                && final(self)@ == old(self)@.remove(id),
            !old(self)@.contains_key(id) ==> r == Err::<Continuation, VaultError>(VaultError::UnknownReply)
                && *final(self) == *old(self),
    {
        let i = match self.position_of(id) {
            Some(i) => i,
            None => {
                return Err(VaultError::UnknownReply);
            },
        };
        let ghost before = self.pending@;
        let (_, c) = self.pending.remove(i);
        proof {
            let after = self.pending@;
            assert(after =~= before.remove(i as int));
            assert forall|k: u64| #[trigger] self@.contains_key(k) == old(self)@.remove(id).contains_key(k) by {
                if k != id && old(self)@.contains_key(k) {
                    let j = choose|j: int| 0 <= j < before.len() && before[j].0 == k;
                    if j < i {
                        assert(after[j].0 == k);
                    } else {
                        assert(after[j - 1].0 == k);
                    }
                }
            }
            assert forall|k: u64| #[trigger] self@.contains_key(k) implies self@[k] == old(self)@.remove(id)[k] by {
                let j = choose|j: int| 0 <= j < after.len() && after[j].0 == k;
                let j0 = choose|j: int| 0 <= j < before.len() && before[j].0 == k;
                if j < i {
                    assert(before[j].0 == k);
                } else {
                    assert(before[j + 1].0 == k);
                }
            }
            assert(self@ =~= old(self)@.remove(id));
        }
        Ok(c)
    }
}

} // verus!
