//! Tweets as fetched, and the quote graph drawn from them: one node per
//! tweet, one edge from each tweet to the tweet it quotes when that one was
//! found too.

use crate::text::{decimal_text, push_decimal};
use std::collections::HashMap;
use vstd::prelude::*;

verus! {

broadcast use vstd::std_specs::hash::group_hash_axioms;

/// A tweet as the lookup returned it.
#[derive(Clone, Debug)]
pub struct Tweet {
    pub id: u64,
    pub author_id: u64,
    /// The author's display name.
    pub author_name: String,
    /// The author's handle, without the `@`.
    pub screen_name: String,
    pub text: String,
    /// The id of the tweet that this one quotes, if any.
    pub quoted_id: Option<u64>,
}

/// An edge of the quote graph, by positions in the found tweets: `source`
/// quotes `target`.
#[derive(Clone, Copy, Debug, PartialEq, Eq, Structural)]
pub struct Edge {
    pub source: usize,
    pub target: usize,
}

/// Some tweet among the first `n` of `ts` has id `id`.
pub open spec fn has_id_before(ts: Seq<Tweet>, id: u64, n: int) -> bool {
    exists|j: int| 0 <= j < n && #[trigger] ts[j].id == id
}

/// Some tweet of `ts` has id `id`.
pub open spec fn has_id(ts: Seq<Tweet>, id: u64) -> bool {
    has_id_before(ts, id, ts.len() as int)
}

/// `j` is the first position of `ts` that holds id `id`.
pub open spec fn is_first_with_id(ts: Seq<Tweet>, id: u64, j: int) -> bool {
    &&& 0 <= j < ts.len()
    &&& ts[j].id == id
    &&& !has_id_before(ts, id, j)
}

/// Tweet `i` quotes a tweet that is among `ts`.
pub open spec fn quote_resolves(ts: Seq<Tweet>, i: int) -> bool {
    ts[i].quoted_id matches Some(q) && has_id(ts, q)
}

/// `es` are the quote edges of `ts`: in the order of their sources, one from
/// each tweet whose quoted tweet is among `ts`, to the first tweet with that
/// id, and no other.
pub open spec fn is_quote_edges(ts: Seq<Tweet>, es: Seq<Edge>) -> bool {
    &&& forall|k: int|
        #![trigger es[k]]
        0 <= k < es.len() ==> {
            &&& es[k].source < ts.len()
            &&& es[k].target < ts.len()
            &&& ts[es[k].source as int].quoted_id == Some(ts[es[k].target as int].id)
            &&& is_first_with_id(ts, ts[es[k].target as int].id, es[k].target as int)
        }
    &&& forall|a: int, b: int| 0 <= a < b < es.len() ==> es[a].source < es[b].source
    &&& forall|i: int|
        0 <= i < ts.len() && #[trigger] quote_resolves(ts, i) ==> exists|k: int|
            0 <= k < es.len() && #[trigger] es[k].source == i
}

/// The graph name of the node of tweet `id`.
pub open spec fn node_name_text(id: u64) -> Seq<char> {
    "N"@ + decimal_text(id as nat)
}

/// The label of a tweet's node: display name, handle, a blank line, the text.
pub open spec fn node_label_text(t: Tweet) -> Seq<char> {
    t.author_name@ + " @"@ + t.screen_name@ + "\n\n"@ + t.text@
}

/// Names the node of tweet `id`: `N` followed by the id in decimal.
pub fn node_name(id: u64) -> (r: String)
    ensures
        r@ == node_name_text(id),
{
    let mut s = String::new();
    s.append("N");
    push_decimal(&mut s, id);
    assert(s@ =~= node_name_text(id));
    s
}

/// Labels the node of `t`.
pub fn node_label(t: &Tweet) -> (r: String)
    ensures
        r@ == node_label_text(*t),
{
    let mut s = String::new();
    s.append(t.author_name.as_str());
    s.append(" @");
    s.append(t.screen_name.as_str());
    s.append("\n\n");
    s.append(t.text.as_str());
    assert(s@ =~= node_label_text(*t));
    s
}

/// Builds the quote edges of `found`, through an index from id to first
/// position built once.
pub fn quote_edges(found: &Vec<Tweet>) -> (es: Vec<Edge>)
    ensures
        is_quote_edges(found@, es@),
{
    let ghost ts = found@;
    let mut index: HashMap<u64, usize> = HashMap::new();
    let mut i: usize = 0;
    while i < found.len()
        invariant
            ts == found@,
            0 <= i <= found.len(),
            forall|id: u64| #[trigger] index@.contains_key(id) <==> has_id_before(ts, id, i as int),
            forall|id: u64| #[trigger]
                index@.contains_key(id) ==> is_first_with_id(ts, id, index@[id] as int),
        decreases found.len() - i,
    {
        let id = found[i].id;
        if !index.contains_key(&id) {
            index.insert(id, i);
        }
        assert forall|x: u64| #[trigger] index@.contains_key(x) <==> has_id_before(ts, x, i + 1) by {
            if has_id_before(ts, x, i + 1) && x != id {
                let j = choose|j: int| 0 <= j < i + 1 && #[trigger] ts[j].id == x;
                assert(j < i);
            }
            if x == id {
                assert(ts[i as int].id == x);
            }
        }
        i = i + 1;
    }
    let mut es: Vec<Edge> = Vec::new();
    let mut i: usize = 0;
    while i < found.len()
        invariant
            ts == found@,
            0 <= i <= found.len(),
            forall|id: u64| #[trigger] index@.contains_key(id) <==> has_id(ts, id),
            forall|id: u64| #[trigger]
                index@.contains_key(id) ==> is_first_with_id(ts, id, index@[id] as int),
            forall|k: int|
                #![trigger es@[k]]
                0 <= k < es@.len() ==> {
                    &&& es@[k].source < i
                    &&& es@[k].target < ts.len()
                    &&& ts[es@[k].source as int].quoted_id == Some(ts[es@[k].target as int].id)
                    &&& is_first_with_id(ts, ts[es@[k].target as int].id, es@[k].target as int)
                },
            forall|a: int, b: int| 0 <= a < b < es@.len() ==> es@[a].source < es@[b].source,
            forall|j: int|
                0 <= j < i && #[trigger] quote_resolves(ts, j) ==> exists|k: int|
                    0 <= k < es@.len() && #[trigger] es@[k].source == j,
        decreases found.len() - i,
    {
        let ghost before = es@;
        if let Some(q) = found[i].quoted_id {
            if let Some(t) = index.get(&q) {
                es.push(Edge { source: i, target: *t });
                assert(es@[before.len() as int].source == i);
            }
        }
        assert forall|j: int| 0 <= j < i + 1 && #[trigger] quote_resolves(ts, j) implies exists|k: int|
            0 <= k < es@.len() && #[trigger] es@[k].source == j by {
            if j < i {
                let k = choose|k: int| 0 <= k < before.len() && #[trigger] before[k].source == j;
                assert(es@[k] == before[k]);
            } else {
                assert(es@[before.len() as int].source == i);
            }
        }
        i = i + 1;
    }
    es
}

/// A node of the quote graph: its name and its label.
#[derive(Clone, Debug)]
pub struct GraphNode {
    pub name: String,
    pub label: String,
}

/// The quote graph of a crawl: `nodes[i]` stands for the `i`-th found tweet.
pub struct QuoteGraph {
    pub nodes: Vec<GraphNode>,
    pub edges: Vec<Edge>,
}

/// `nodes` holds, in order, the node of each tweet of `ts`.
pub open spec fn is_node_list(ts: Seq<Tweet>, nodes: Seq<GraphNode>) -> bool {
    &&& nodes.len() == ts.len()
    &&& forall|i: int|
        #![trigger nodes[i]]
        0 <= i < ts.len() ==> nodes[i].name@ == node_name_text(ts[i].id) && nodes[i].label@
            == node_label_text(ts[i])
}

/// The name of the graph.
pub fn graph_name() -> (r: &'static str)
    ensures
        r@ == "reply_chain"@,
{
    "reply_chain"
}

/// Builds the quote graph of `found`: a node per tweet, an edge per quote
/// between found tweets.
pub fn build_graph(found: &Vec<Tweet>) -> (g: QuoteGraph)
    ensures
        is_node_list(found@, g.nodes@),
        is_quote_edges(found@, g.edges@),
{
    let mut nodes: Vec<GraphNode> = Vec::new();
    let mut i: usize = 0;
    while i < found.len()
        invariant
            0 <= i <= found.len(),
            nodes@.len() == i,
            forall|j: int|
                #![trigger nodes@[j]]
                0 <= j < i ==> nodes@[j].name@ == node_name_text(found@[j].id) && nodes@[j].label@
                    == node_label_text(found@[j]),
        decreases found.len() - i,
    {
        let t = &found[i];
        nodes.push(GraphNode { name: node_name(t.id), label: node_label(t) });
        i = i + 1;
    }
    QuoteGraph { nodes, edges: quote_edges(found) }
}

/// Every tweet whose quoted tweet was found has exactly one edge, to that
/// tweet; a tweet whose quoted tweet was not found has none, so no edge
/// reaches outside the found tweets.
pub proof fn law_edges_match_found_quotes(ts: Seq<Tweet>, es: Seq<Edge>, i: int)
    requires
        is_quote_edges(ts, es),
        0 <= i < ts.len(),
    ensures
        quote_resolves(ts, i) <==> exists|k: int| 0 <= k < es.len() && #[trigger] es[k].source == i,
        forall|k1: int, k2: int|
            0 <= k1 < es.len() && 0 <= k2 < es.len() && es[k1].source == i && es[k2].source == i
                ==> k1 == k2,
        forall|k: int|
            0 <= k < es.len() && #[trigger] es[k].source == i ==> ts[i].quoted_id == Some(
                ts[es[k].target as int].id,
            ),
{
    if exists|k: int| 0 <= k < es.len() && #[trigger] es[k].source == i {
        let k = choose|k: int| 0 <= k < es.len() && #[trigger] es[k].source == i;
        let t = es[k].target as int;
        assert(ts[t].id == ts[t].id);
        assert(has_id_before(ts, ts[t].id, ts.len() as int));
    }
    assert forall|k1: int, k2: int|
        0 <= k1 < es.len() && 0 <= k2 < es.len() && es[k1].source == i && es[k2].source == i
            implies k1 == k2 by {
        if k1 < k2 {
            assert(es[k1].source < es[k2].source);
        } else if k2 < k1 {
            assert(es[k2].source < es[k1].source);
        }
    }
}

} // verus!
