//! The breadth-first work queue and the set of ids already taken for fetching.

use std::collections::HashSet;
use vstd::prelude::*;

verus! {

broadcast use vstd::std_specs::hash::group_hash_axioms;

/// The most ids that one remote lookup call accepts.
pub const MAX_BATCH: usize = 10;

/// The ids of `s`, oldest first, that are neither in `visited` nor earlier in `s`:
/// first insertion wins.
pub open spec fn fresh_ids(s: Seq<u64>, visited: Set<u64>) -> Seq<u64>
    decreases s.len(),
{
    if s.len() == 0 {
        Seq::empty()
    } else {
        let prev = s.drop_last();
        let rest = fresh_ids(prev, visited);
        if visited.contains(s.last()) || prev.contains(s.last()) {
            rest
        } else {
            rest.push(s.last())
        }
    }
}

/// How many pending ids one batch takes.
pub open spec fn batch_len(pending: Seq<u64>) -> nat {
    if pending.len() < MAX_BATCH {
        pending.len()
    } else {
        MAX_BATCH as nat
    }
}

/// What `fresh_ids` keeps: distinct ids of `s`, none of them visited, and every
/// unvisited id of `s` among them.
pub proof fn lemma_fresh_ids(s: Seq<u64>, visited: Set<u64>)
    ensures
        fresh_ids(s, visited).no_duplicates(),
        fresh_ids(s, visited).len() <= s.len(),
        forall|x: u64| #[trigger]
            fresh_ids(s, visited).contains(x) <==> (s.contains(x) && !visited.contains(x)),
    decreases s.len(),
{
    if s.len() > 0 {
        let prev = s.drop_last();
        lemma_fresh_ids(prev, visited);
        assert forall|x: u64| s.contains(x) <==> (prev.contains(x) || x == s.last()) by {
            if s.contains(x) {
                let k = choose|k: int| 0 <= k < s.len() && s[k] == x;
                if k < s.len() - 1 {
                    assert(prev[k] == x);
                }
            }
            if prev.contains(x) {
                let k = choose|k: int| 0 <= k < prev.len() && prev[k] == x;
                assert(s[k] == x);
            }
            if x == s.last() {
                assert(s[s.len() - 1] == x);
            }
        }
        let rest = fresh_ids(prev, visited);
        if !(visited.contains(s.last()) || prev.contains(s.last())) {
            let r = rest.push(s.last());
            assert(!rest.contains(s.last()));
            assert forall|a: int, b: int| 0 <= a < b < r.len() implies r[a] != r[b] by {
                if b == r.len() - 1 {
                    assert(rest[a] == r[a]);
                } else {
                    assert(rest[a] == r[a] && rest[b] == r[b]);
                }
            }
            assert forall|x: u64| r.contains(x) <==> (rest.contains(x) || x == s.last()) by {
                if r.contains(x) {
                    let k = choose|k: int| 0 <= k < r.len() && r[k] == x;
                    if k < rest.len() {
                        assert(rest[k] == x);
                    }
                }
                if rest.contains(x) {
                    let k = choose|k: int| 0 <= k < rest.len() && rest[k] == x;
                    assert(r[k] == x);
                }
                if x == s.last() {
                    assert(r[r.len() - 1] == x);
                }
            }
        }
    }
}

/// Pending ids in a queue, and the ids already handed out for fetching.
pub struct Frontier {
    queue: Vec<u64>,
    visited: HashSet<u64>,
}

impl Frontier {
    /// The ids waiting in the queue, oldest first; duplicates allowed.
    pub closed spec fn pending(&self) -> Seq<u64> {
        self.queue@
    }

    /// The ids that have been taken for fetching so far.
    pub closed spec fn visited(&self) -> Set<u64> {
        self.visited@
    }

    /// A frontier whose queue holds the seeds in order and that has visited nothing.
    pub fn new(seeds: &Vec<u64>) -> (r: Frontier)
        ensures
            r.pending() == seeds@,
            r.visited() == Set::<u64>::empty(),
    {
        Frontier { queue: seeds.clone(), visited: HashSet::new() }
    }

    /// Adds `id` at the back of the queue, whether or not it was seen before.
    pub fn enqueue(&mut self, id: u64)
        ensures
            final(self).pending() == old(self).pending().push(id),
            final(self).visited() == old(self).visited(),
    {
        self.queue.push(id);
    }

    /// Whether no id is pending.
    pub fn is_empty(&self) -> (r: bool)
        ensures
            r == (self.pending().len() == 0),
    {
        self.queue.len() == 0
    }

    /// How many ids are pending.
    pub fn len(&self) -> (r: usize)
        ensures
            r == self.pending().len(),
    {
        self.queue.len()
    }

    /// Removes up to `MAX_BATCH` ids from the front of the queue and returns, in
    /// order, those not visited before, each once; all of the removed ids are
    /// visited afterwards.
    pub fn take_batch(&mut self) -> (batch: Vec<u64>)
        ensures
            ({
                let n = batch_len(old(self).pending()) as int;
                let taken = old(self).pending().take(n);
                &&& final(self).pending() == old(self).pending().skip(n)
                &&& final(self).visited() == old(self).visited().union(taken.to_set())
                &&& batch@ == fresh_ids(taken, old(self).visited())
            }),
            batch@.len() <= MAX_BATCH,
            batch@.no_duplicates(),
            forall|x: u64| #[trigger] batch@.contains(x) ==> !old(self).visited().contains(x),
            forall|x: u64| #[trigger] batch@.contains(x) ==> final(self).visited().contains(x),
    {
        let ghost old_pending = self.queue@;
        let ghost old_visited = self.visited@;
        let n: usize = if self.queue.len() < MAX_BATCH {
            self.queue.len()
        } else {
            MAX_BATCH
        };
        let ghost taken = old_pending.take(n as int);
        let mut batch: Vec<u64> = Vec::new();
        let mut i: usize = 0;
        while i < n
            invariant
                n <= self.queue.len(),
                self.queue@ == old_pending,
                taken == old_pending.take(n as int),
                0 <= i <= n,
                batch@ == fresh_ids(taken.take(i as int), old_visited),
                self.visited@ == old_visited.union(taken.take(i as int).to_set()),
            decreases n - i,
        {
            let id = self.queue[i];
            let ghost prev = taken.take(i as int);
            let ghost next = taken.take(i + 1);
            assert(next.drop_last() == prev);
            assert(next.last() == id);
            proof {
                lemma_fresh_ids(prev, old_visited);
            }
            assert(self.visited@.contains(id) <==> (old_visited.contains(id) || prev.contains(id))) by {
                if prev.contains(id) {
                    let k = choose|k: int| 0 <= k < prev.len() && prev[k] == id;
                    assert(prev.to_set().contains(id));
                }
                if prev.to_set().contains(id) {
                    assert(prev.contains(id));
                }
            }
            if self.visited.insert(id) {
                batch.push(id);
            }
            assert(next.to_set() == prev.to_set().insert(id)) by {
                assert forall|x: u64| next.to_set().contains(x) <==> prev.to_set().insert(id).contains(x) by {
                    if next.contains(x) {
                        let k = choose|k: int| 0 <= k < next.len() && next[k] == x;
                        if k < prev.len() {
                            assert(prev[k] == x);
                        }
                    }
                    if prev.contains(x) {
                        let k = choose|k: int| 0 <= k < prev.len() && prev[k] == x;
                        assert(next[k] == x);
                    }
                    if x == id {
                        assert(next[next.len() - 1] == x);
                    }
                }
            }
            i = i + 1;
        }
        assert(taken.take(n as int) == taken);
        let mut rest: Vec<u64> = Vec::new();
        let mut j: usize = n;
        while j < self.queue.len()
            invariant
                self.queue@ == old_pending,
                n <= j <= self.queue.len(),
                rest@ == old_pending.subrange(n as int, j as int),
            decreases self.queue.len() - j,
        {
            rest.push(self.queue[j]);
            j = j + 1;
        }
        self.queue = rest;
        proof {
            lemma_fresh_ids(taken, old_visited);
            assert forall|x: u64| #[trigger] batch@.contains(x) implies self.visited@.contains(x) by {
                assert(taken.contains(x));
                assert(taken.to_set().contains(x));
            }
        }
        batch
    }
}

} // verus!
