//! The crawl's decisions, driven one event at a time by whoever performs the
//! remote calls: which batch to look up next, what a found tweet adds to the
//! frontier, and when the crawl is over.

use crate::frontier::{fresh_ids, lemma_fresh_ids, Frontier, MAX_BATCH};
use crate::graph::{is_node_list, is_quote_edges, Edge, GraphNode, Tweet};
use vstd::prelude::*;

verus! {

/// Where a crawl stands.
#[derive(Clone, Copy, Debug, PartialEq, Eq, Structural)]
pub enum Phase {
    /// Taking batches while the frontier has ids.
    Running,
    /// Cancellation was seen inside a batch: that batch is finished, no other
    /// is taken.
    Draining,
    /// No more batches.
    Done,
}

/// The state of one crawl: the frontier, the tweets found so far in the order
/// they were recorded, and (as a ghost) every id handed out for lookup.
pub struct CrawlEngine {
    frontier: Frontier,
    found: Vec<Tweet>,
    phase: Phase,
    requested: Ghost<Seq<u64>>,
}

impl CrawlEngine {
    pub closed spec fn pending(&self) -> Seq<u64> {
        self.frontier.pending()
    }

    pub closed spec fn visited(&self) -> Set<u64> {
        self.frontier.visited()
    }

    /// The tweets found so far, in the order they were recorded.
    pub closed spec fn found_seq(&self) -> Seq<Tweet> {
        self.found@
    }

    pub closed spec fn phase(&self) -> Phase {
        self.phase
    }

    /// Every id handed out for lookup so far, batch after batch.
    pub closed spec fn requested(&self) -> Seq<u64> {
        self.requested@
    }

    /// No id is ever handed out for lookup twice, and the ids handed out are
    /// exactly those the frontier has visited.
    pub open spec fn wf(&self) -> bool {
        &&& self.requested().no_duplicates()
        &&& self.requested().to_set() == self.visited()
    }

    /// A crawl that starts from `seeds`, in order.
    pub fn new(seeds: &Vec<u64>) -> (r: CrawlEngine)
        ensures
            r.wf(),
            r.pending() == seeds@,
            r.visited() == Set::<u64>::empty(),
            r.found_seq() == Seq::<Tweet>::empty(),
            r.requested() == Seq::<u64>::empty(),
            r.phase() == Phase::Running,
    {
        let e = CrawlEngine {
            frontier: Frontier::new(seeds),
            found: Vec::new(),
            phase: Phase::Running,
            requested: Ghost(Seq::empty()),
        };
        assert(e.requested().to_set() =~= Set::<u64>::empty());
        e
    }

    /// The top of an iteration. Ends the crawl when it was cancelled, is
    /// draining, or has nothing pending; otherwise takes the next batch from
    /// the frontier, which is the ids to look up now (it may be empty when all
    /// taken ids were visited before).
    pub fn next_batch(&mut self, cancelled: bool) -> (r: Option<Vec<u64>>)
        requires
            old(self).wf(),
        ensures
            final(self).wf(),
            final(self).found_seq() == old(self).found_seq(),
            (cancelled || old(self).phase() != Phase::Running || old(self).pending().len() == 0)
                ==> {
                &&& r is None
                &&& final(self).phase() == Phase::Done
                &&& final(self).pending() == old(self).pending()
                &&& final(self).requested() == old(self).requested()
            },
            !(cancelled || old(self).phase() != Phase::Running || old(self).pending().len() == 0)
                ==> {
                &&& r matches Some(batch)
                &&& final(self).phase() == Phase::Running
                &&& batch@.len() <= MAX_BATCH
                &&& batch@ == fresh_ids(
                    old(self).pending().take(
                        old(self).pending().len() - final(self).pending().len(),
                    ),
                    old(self).visited(),
                )
                &&& final(self).pending() == old(self).pending().skip(
                    old(self).pending().len() - final(self).pending().len(),
                )
                &&& final(self).pending().len() < old(self).pending().len()
                &&& final(self).requested() == old(self).requested() + batch@
            },
    {
        if cancelled || self.phase != Phase::Running || self.frontier.is_empty() {
            self.phase = Phase::Done;
            return None;
        }
        let ghost old_req = self.requested@;
        let ghost old_visited = self.frontier.visited();
        let ghost old_pending = self.frontier.pending();
        let batch = self.frontier.take_batch();
        proof {
            let n = crate::frontier::batch_len(old_pending) as int;
            let taken = old_pending.take(n);
            lemma_fresh_ids(taken, old_visited);
            let req = old_req + batch@;
            self.requested = Ghost(req);
            assert(self.frontier.pending().len() == old_pending.len() - n);
            assert forall|a: int, b: int| 0 <= a < b < req.len() implies req[a] != req[b] by {
                if b >= old_req.len() && a < old_req.len() {
                    assert(old_req.to_set().contains(req[a]));
                    assert(batch@.contains(req[b]));
                } else if a >= old_req.len() {
                    assert(req[a] == batch@[a - old_req.len()]);
                    assert(req[b] == batch@[b - old_req.len()]);
                }
            }
            assert forall|x: u64| req.to_set().contains(x) <==> self.frontier.visited().contains(x) by {
                if req.contains(x) {
                    let k = choose|k: int| 0 <= k < req.len() && req[k] == x;
                    if k < old_req.len() {
                        assert(old_req.contains(x));
                        assert(old_req.to_set().contains(x));
                    } else {
                        assert(batch@[k - old_req.len()] == x);
                        assert(batch@.contains(x));
                    }
                }
                if self.frontier.visited().contains(x) {
                    if old_visited.contains(x) {
                        assert(old_req.to_set().contains(x));
                        let k = choose|k: int| 0 <= k < old_req.len() && old_req[k] == x;
                        assert(req[k] == x);
                    } else {
                        assert(taken.to_set().contains(x));
                        assert(taken.contains(x));
                        assert(batch@.contains(x));
                        let k = choose|k: int| 0 <= k < batch@.len() && batch@[k] == x;
                        assert(req[old_req.len() + k] == x);
                    }
                }
            }
            assert(req.to_set() =~= self.frontier.visited());
        }
        Some(batch)
    }

    /// Records cancellation seen inside a batch: a running crawl drains.
    pub fn note_cancelled(&mut self)
        requires
            old(self).wf(),
        ensures
            final(self).wf(),
            final(self).phase() == (if old(self).phase() == Phase::Running {
                Phase::Draining
            } else {
                old(self).phase()
            }),
            final(self).pending() == old(self).pending(),
            final(self).found_seq() == old(self).found_seq(),
            final(self).requested() == old(self).requested(),
    {
        if self.phase == Phase::Running {
            self.phase = Phase::Draining;
        }
    }

    /// Records a tweet of the current batch and what it leads to: the id it
    /// quotes, if any, goes to the frontier, then the ids of the tweets that
    /// quote it, in order.
    pub fn record_tweet(&mut self, tweet: Tweet, quoters: &Vec<u64>)
        requires
            old(self).wf(),
        ensures
            final(self).wf(),
            final(self).found_seq() == old(self).found_seq().push(tweet),
            final(self).pending() == old(self).pending() + (match tweet.quoted_id {
                Some(q) => seq![q],
                None => Seq::<u64>::empty(),
            }) + quoters@,
            final(self).visited() == old(self).visited(),
            final(self).requested() == old(self).requested(),
            final(self).phase() == old(self).phase(),
    {
        let ghost start = self.frontier.pending();
        if let Some(q) = tweet.quoted_id {
            self.frontier.enqueue(q);
        }
        let ghost mid = self.frontier.pending();
        let mut i: usize = 0;
        while i < quoters.len()
            invariant
                0 <= i <= quoters.len(),
                self.frontier.pending() == mid + quoters@.take(i as int),
                self.frontier.visited() == old(self).frontier.visited(),
                self.requested@ == old(self).requested@,
                self.found@ == old(self).found@,
                self.phase == old(self).phase,
            decreases quoters.len() - i,
        {
            self.frontier.enqueue(quoters[i]);
            assert(mid + quoters@.take(i + 1) =~= (mid + quoters@.take(i as int)).push(quoters@[i as int]));
            i = i + 1;
        }
        assert(quoters@.take(quoters@.len() as int) =~= quoters@);
        assert(self.frontier.pending() =~= start + (match tweet.quoted_id {
            Some(q) => seq![q],
            None => Seq::<u64>::empty(),
        }) + quoters@);
        self.found.push(tweet);
    }

    /// Whether no more batches will be taken.
    pub fn is_done(&self) -> (r: bool)
        ensures
            r == (self.phase() == Phase::Done),
    {
        self.phase == Phase::Done
    }

    /// How many tweets were found so far.
    pub fn found_count(&self) -> (r: usize)
        ensures
            r == self.found_seq().len(),
    {
        self.found.len()
    }

    /// How many ids are pending.
    pub fn pending_count(&self) -> (r: usize)
        ensures
            r == self.pending().len(),
    {
        self.frontier.len()
    }

    /// The tweets found so far.
    pub fn found(&self) -> (r: &Vec<Tweet>)
        ensures
            r@ == self.found_seq(),
    {
        &self.found
    }

    /// Ends the crawl and hands over the tweets found.
    pub fn into_found(self) -> (r: Vec<Tweet>)
        ensures
            r@ == self.found_seq(),
    {
        self.found
    }
}

/// How many of the `requested` ids of a batch the lookup did not return; more
/// than zero is a partial result, which is reported and not an error.
pub fn lookup_shortfall(requested: usize, received: usize) -> (r: usize)
    ensures
        r == (if received < requested {
            requested - received
        } else {
            0
        }),
{
    if received < requested {
        requested - received
    } else {
        0
    }
}

/// Across a whole crawl no id is looked up twice: whatever the frontier was
/// given, even one id quoted by several tweets, the ids of a new batch are
/// distinct and none was handed out before.
pub proof fn law_no_refetch(before: CrawlEngine, after: CrawlEngine, batch: Seq<u64>)
    requires
        before.wf(),
        after.wf(),
        after.requested() == before.requested() + batch,
    ensures
        batch.no_duplicates(),
        forall|x: u64| #[trigger] batch.contains(x) ==> !before.requested().contains(x),
        after.requested().no_duplicates(),
{
    let req = after.requested();
    let n = before.requested().len();
    assert forall|a: int, b: int| 0 <= a < b < batch.len() implies batch[a] != batch[b] by {
        assert(req[n + a] == batch[a]);
        assert(req[n + b] == batch[b]);
    }
    assert forall|x: u64| #[trigger] batch.contains(x) implies !before.requested().contains(x) by {
        if before.requested().contains(x) {
            let k = choose|k: int| 0 <= k < n && before.requested()[k] == x;
            let j = choose|j: int| 0 <= j < batch.len() && batch[j] == x;
            assert(req[k] == x);
            assert(req[n + j] == x);
        }
    }
}

/// A crawl cancelled before its first batch exports an empty graph: no node
/// and no edge.
pub proof fn law_cancelled_at_start_exports_nothing(
    start: CrawlEngine,
    stopped: CrawlEngine,
    nodes: Seq<GraphNode>,
    edges: Seq<Edge>,
)
    requires
        start.found_seq() == Seq::<Tweet>::empty(),
        stopped.found_seq() == start.found_seq(),
        is_node_list(stopped.found_seq(), nodes),
        is_quote_edges(stopped.found_seq(), edges),
    ensures
        nodes.len() == 0,
        edges.len() == 0,
{
    if edges.len() > 0 {
        assert(edges[0].source < stopped.found_seq().len());
    }
}

} // verus!
