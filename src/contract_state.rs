//! A contract's raw key-value state, ordered by key.
use vstd::prelude::*;
use crate::bytes::{
    bytes_lt, compare_bytes, copy_bytes, lemma_bytes_lt_irreflexive, lemma_bytes_lt_total,
    lemma_bytes_lt_transitive,
};

verus! {

/// The raw state of a contract: each key at most once, kept in ascending key order.
#[derive(Clone, Debug, PartialEq, Eq)]
pub struct ContractState {
    entries: Vec<(Vec<u8>, Vec<u8>)>,
}

/// The views of the key and the value of a raw record.
pub open spec fn record_view(e: (Vec<u8>, Vec<u8>)) -> (Seq<u8>, Seq<u8>) {
    (e.0@, e.1@)
}

/// The state that records written one after the other leave: a later record of a key
/// replaces an earlier one.
pub open spec fn state_of(records: Seq<(Seq<u8>, Seq<u8>)>) -> Map<Seq<u8>, Seq<u8>>
    decreases records.len(),
{
    if records.len() == 0 {
        Map::empty()
    } else {
        state_of(records.drop_last()).insert(records.last().0, records.last().1)
    }
}

/// `k` lies in the range from `start` (included) to `end` (excluded); an absent bound
/// does not limit.
pub open spec fn in_range(k: Seq<u8>, start: Option<Seq<u8>>, end: Option<Seq<u8>>) -> bool {
    &&& (start matches Some(s) ==> !bytes_lt(k, s))
    &&& (end matches Some(e) ==> bytes_lt(k, e))
}

/// The view of an optional bound.
pub open spec fn bound_view(b: Option<&[u8]>) -> Option<Seq<u8>> {
    match b {
        Some(s) => Some(s@),
        None => None,
    }
}

impl View for ContractState {
    type V = Map<Seq<u8>, Seq<u8>>;

    closed spec fn view(&self) -> Map<Seq<u8>, Seq<u8>> {
        Map::new(|k: Seq<u8>| self.has_key(k), |k: Seq<u8>| self.entries@[self.index_of(k)].1@)
    }
}

impl Default for ContractState {
    fn default() -> (r: ContractState)
        ensures
            r.wf(),
            r@ == Map::<Seq<u8>, Seq<u8>>::empty(),
    {
        ContractState::empty()
    }
}

impl ContractState {
    /// Some record has key `k`.
    closed spec fn has_key(&self, k: Seq<u8>) -> bool {
        exists|i: int| 0 <= i < self.entries@.len() && self.entries@[i].0@ == k
    }

    /// A record with key `k`, where there is one.
    closed spec fn index_of(&self, k: Seq<u8>) -> int {
        choose|i: int| 0 <= i < self.entries@.len() && self.entries@[i].0@ == k
    }

    /// The keys are in strictly ascending order.
    pub closed spec fn wf(&self) -> bool {
        forall|i: int, j: int|
            0 <= i < j < self.entries@.len() ==> bytes_lt(
                #[trigger] self.entries@[i].0@,
                #[trigger] self.entries@[j].0@,
            )
    }

    proof fn lemma_record(&self, n: int)
        requires
            self.wf(),
            0 <= n < self.entries@.len(),
        ensures
            self@.contains_key(self.entries@[n].0@),
            self@[self.entries@[n].0@] == self.entries@[n].1@,
    {
        let k = self.entries@[n].0@;
        assert(self@.contains_key(k));
        let j = self.index_of(k);
        if j != n {
            lemma_bytes_lt_irreflexive(k);
            if n < j {
                assert(bytes_lt(self.entries@[n].0@, self.entries@[j].0@));
            } else {
                assert(bytes_lt(self.entries@[j].0@, self.entries@[n].0@));
            }
        }
    }

    /// The empty state.
    pub fn empty() -> (r: ContractState)
        ensures
            r.wf(),
            r@ == Map::<Seq<u8>, Seq<u8>>::empty(),
    {
        let r = ContractState { entries: Vec::new() };
        assert(r@ =~= Map::<Seq<u8>, Seq<u8>>::empty());
        r
    }

    fn insert(&mut self, key: Vec<u8>, value: Vec<u8>)
        requires
            old(self).wf(),
        ensures
            final(self).wf(),
            final(self)@ == old(self)@.insert(key@, value@),
    {
        let mut i: usize = 0;
        while i < self.entries.len()
            invariant
                self.wf(),
                *self == *old(self),
                i <= self.entries@.len(),
                forall|j: int| 0 <= j < i ==> bytes_lt(#[trigger] self.entries@[j].0@, key@),
            ensures
                i <= self.entries@.len(),
                forall|j: int| 0 <= j < i ==> bytes_lt(#[trigger] self.entries@[j].0@, key@),
                i < self.entries@.len() ==> !bytes_lt(self.entries@[i as int].0@, key@),
            decreases self.entries.len() - i,
        {
            if compare_bytes(self.entries[i].0.as_slice(), key.as_slice()) >= 0 {
                break;
            }
            i = i + 1;
        }
        let same = i < self.entries.len() && compare_bytes(
            self.entries[i].0.as_slice(),
            key.as_slice(),
        ) == 0;
        proof {
            if i < self.entries@.len() && !same {
                lemma_bytes_lt_total(self.entries@[i as int].0@, key@);
            }
        }
        let ghost before = self.entries@;
        let ghost kv = (key@, value@);
        if same {
            self.entries.remove(i);
            self.entries.insert(i, (key, value));
        } else {
            self.entries.insert(i, (key, value));
        }
        proof {
            let after = self.entries@;
            let n = i as int;
            if same {
                assert(after =~= before.update(n, after[n]));
                assert forall|a: int, b: int| 0 <= a < b < after.len() implies bytes_lt(
                    #[trigger] after[a].0@,
                    #[trigger] after[b].0@,
                ) by {
                    assert(bytes_lt(before[a].0@, before[b].0@));
                }
            } else {
                assert(after =~= before.insert(n, after[n]));
                assert forall|a: int, b: int| 0 <= a < b < after.len() implies bytes_lt(
                    #[trigger] after[a].0@,
                    #[trigger] after[b].0@,
                ) by {
                    if b < n {
                        assert(bytes_lt(before[a].0@, before[b].0@));
                    } else if b == n {
                        assert(bytes_lt(before[a].0@, key@));
                    } else if a == n {
                        if b - 1 > n {
                            assert(bytes_lt(before[n].0@, before[b - 1].0@));
                            lemma_bytes_lt_transitive(key@, before[n].0@, before[b - 1].0@);
                        }
                    } else if a < n {
                        if b - 1 >= n {
                            assert(bytes_lt(before[a].0@, key@));
                            if b - 1 > n {
                                assert(bytes_lt(before[n].0@, before[b - 1].0@));
                                lemma_bytes_lt_transitive(key@, before[n].0@, before[b - 1].0@);
                            }
                            lemma_bytes_lt_transitive(before[a].0@, key@, before[b - 1].0@);
                        } else {
                            assert(bytes_lt(before[a].0@, before[b].0@));
                        }
                    } else {
                        assert(bytes_lt(before[a - 1].0@, before[b - 1].0@));
                    }
                }
            }
            let expected = old(self)@.insert(key@, value@);
            assert forall|k: Seq<u8>| #[trigger] self@.contains_key(k) == expected.contains_key(k) by {
                if k == key@ {
                    assert(after[n].0@ == k);
                } else {
                    if old(self)@.contains_key(k) {
                        let j = choose|j: int| 0 <= j < before.len() && before[j].0@ == k;
                        if same || j < n {
                            assert(after[j].0@ == k);
                        } else {
                            assert(after[j + 1].0@ == k);
                        }
                    }
                    if self@.contains_key(k) {
                        let j = choose|j: int| 0 <= j < after.len() && after[j].0@ == k;
                        if same || j < n {
                            assert(before[j].0@ == k);
                        } else {
                            assert(before[j - 1].0@ == k);
                        }
                    }
                }
            }
            assert forall|k: Seq<u8>| #[trigger] self@.contains_key(k) implies self@[k] == expected[k] by {
                let j = choose|j: int| 0 <= j < after.len() && after[j].0@ == k;
                self.lemma_record(j);
                if k == key@ {
                    self.lemma_record(n);
                } else {
                    if same || j < n {
                        old(self).lemma_record(j);
                    } else {
                        old(self).lemma_record(j - 1);
                    }
                }
            }
            assert(self@ =~= expected);
        }
    }

    /// The state that `raw_state`'s records leave when written in order: a later record
    /// of a key replaces an earlier one.
    pub fn new(raw_state: Vec<(Vec<u8>, Vec<u8>)>) -> (r: ContractState)
        ensures
            r.wf(),
            r@ == state_of(raw_state@.map_values(|e: (Vec<u8>, Vec<u8>)| record_view(e))),
    {
        let ghost records = raw_state@.map_values(|e: (Vec<u8>, Vec<u8>)| record_view(e));
        let mut state = ContractState::empty();
        let mut i: usize = 0;
        while i < raw_state.len()
            invariant
                i <= raw_state@.len(),
                records == raw_state@.map_values(|e: (Vec<u8>, Vec<u8>)| record_view(e)),
                state.wf(),
                state@ == state_of(records.subrange(0, i as int)),
            decreases raw_state.len() - i,
        {
            let key = copy_bytes(raw_state[i].0.as_slice());
            let value = copy_bytes(raw_state[i].1.as_slice());
            state.insert(key, value);
            proof {
                let taken = records.subrange(0, i as int + 1);
                assert(taken.drop_last() =~= records.subrange(0, i as int));
                assert(taken.last() == records[i as int]);
            }
            i = i + 1;
        }
        assert(records.subrange(0, records.len() as int) =~= records);
        state
    }

    /// The value stored under `key`.
    pub fn get(&self, key: &[u8]) -> (r: Option<Vec<u8>>)
        requires
            self.wf(),
        ensures
            r.is_some() == self@.contains_key(key@),
            r matches Some(v) ==> v@ == self@[key@],
    {
        let mut i: usize = 0;
        while i < self.entries.len()
            invariant
                self.wf(),
                i <= self.entries@.len(),
                forall|j: int| 0 <= j < i ==> (#[trigger] self.entries@[j]).0@ != key@,
            decreases self.entries.len() - i,
        {
            if compare_bytes(self.entries[i].0.as_slice(), key) == 0 {
                proof {
                    self.lemma_record(i as int);
                }
                return Some(copy_bytes(self.entries[i].1.as_slice()));
            }
            i = i + 1;
        }
        None
    }

    /// The records whose key lies from `start` (included) to `end` (excluded), in
    /// ascending key order.
    pub fn range(&self, start: Option<&[u8]>, end: Option<&[u8]>) -> (r: Vec<(Vec<u8>, Vec<u8>)>)
        requires
            self.wf(),
        ensures
            forall|i: int|
                0 <= i < r@.len() ==> {
                    &&& in_range((#[trigger] r@[i]).0@, bound_view(start), bound_view(end))
                    &&& self@.contains_key(r@[i].0@)
                    &&& self@[r@[i].0@] == r@[i].1@
                },
            forall|k: Seq<u8>|
                #[trigger] self@.contains_key(k) && in_range(k, bound_view(start), bound_view(end))
                    ==> exists|i: int| 0 <= i < r@.len() && r@[i].0@ == k,
            forall|i: int, j: int|
                0 <= i < j < r@.len() ==> bytes_lt(#[trigger] r@[i].0@, #[trigger] r@[j].0@),
    {
        let mut out: Vec<(Vec<u8>, Vec<u8>)> = Vec::new();
        let ghost mut src: Seq<int> = Seq::empty();
        let mut i: usize = 0;
        while i < self.entries.len()
            invariant
                self.wf(),
                i <= self.entries@.len(),
                out@.len() == src.len(),
                forall|t: int|
                    0 <= t < src.len() ==> 0 <= #[trigger] src[t] < i && out@[t].0@
                        == self.entries@[src[t]].0@ && out@[t].1@ == self.entries@[src[t]].1@
                        && in_range(out@[t].0@, bound_view(start), bound_view(end)),
                forall|t: int, u: int| 0 <= t < u < src.len() ==> #[trigger] src[t] < #[trigger] src[u],
                forall|j: int|
                    0 <= j < i && in_range(#[trigger] self.entries@[j].0@, bound_view(start), bound_view(end))
                        ==> exists|t: int| 0 <= t < src.len() && src[t] == j,
            decreases self.entries.len() - i,
        {
            let key = self.entries[i].0.as_slice();
            let after_start = match start {
                Some(s) => compare_bytes(key, s) >= 0,
                None => true,
            };
            let before_end = match end {
                Some(e) => compare_bytes(key, e) < 0,
                None => true,
            };
            if after_start && before_end {
                let k = copy_bytes(key);
                let v = copy_bytes(self.entries[i].1.as_slice());
                out.push((k, v));
                proof {
                    assert(in_range(self.entries@[i as int].0@, bound_view(start), bound_view(end)));
                    let old_src = src;
                    src = src.push(i as int);
                    assert forall|j: int|
                        0 <= j < i + 1 && in_range(#[trigger] self.entries@[j].0@, bound_view(start), bound_view(end))
                        implies exists|t: int| 0 <= t < src.len() && src[t] == j by {
                        if j == i {
                            assert(src[old_src.len() as int] == j);
                        } else {
                            let t = choose|t: int| 0 <= t < old_src.len() && old_src[t] == j;
                            assert(src[t] == j);
                        }
                    }
                }
            }
            i = i + 1;
        }
        proof {
            assert forall|i: int| 0 <= i < out@.len() implies {
                &&& in_range((#[trigger] out@[i]).0@, bound_view(start), bound_view(end))
                &&& self@.contains_key(out@[i].0@)
                &&& self@[out@[i].0@] == out@[i].1@
            } by {
                self.lemma_record(src[i]);
            }
            assert forall|k: Seq<u8>|
                #[trigger] self@.contains_key(k) && in_range(k, bound_view(start), bound_view(end))
                implies exists|i: int| 0 <= i < out@.len() && out@[i].0@ == k by {
                let j = choose|j: int| 0 <= j < self.entries@.len() && self.entries@[j].0@ == k;
                let t = choose|t: int| 0 <= t < src.len() && src[t] == j;
                assert(out@[t].0@ == k);
            }
            assert forall|i: int, j: int| 0 <= i < j < out@.len() implies bytes_lt(
                #[trigger] out@[i].0@,
                #[trigger] out@[j].0@,
            ) by {
                assert(src[i] < src[j]);
                assert(bytes_lt(self.entries@[src[i]].0@, self.entries@[src[j]].0@));
            }
        }
        out
    }
}

} // verus!
