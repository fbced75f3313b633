use quote_miner::engine::{lookup_shortfall, CrawlEngine};
use quote_miner::frontier::{Frontier, MAX_BATCH};
use quote_miner::graph::{build_graph, Edge, Tweet};

fn tweet(id: u64, quoted_id: Option<u64>) -> Tweet {
    Tweet {
        id,
        author_id: id + 1000,
        author_name: format!("Author {}", id),
        screen_name: format!("user{}", id),
        text: format!("text of {}", id),
        quoted_id,
    }
}

struct Run {
    found: Vec<Tweet>,
    batches: Vec<Vec<u64>>,
    shortfall: usize,
}

// Drives the engine against an in-memory service: `world` holds the tweets
// that a lookup resolves, `quotes` the search results by quoted id.
fn crawl(seeds: &[u64], world: &[Tweet], quotes: &[(u64, Vec<u64>)], cancel_first: bool) -> Run {
    let mut engine = CrawlEngine::new(&seeds.to_vec());
    let mut batches = Vec::new();
    let mut shortfall = 0;
    let mut first = true;
    while let Some(batch) = engine.next_batch(cancel_first && first) {
        first = false;
        batches.push(batch.clone());
        let resolved: Vec<Tweet> = batch
            .iter()
            .filter_map(|id| world.iter().find(|t| t.id == *id).cloned())
            .collect();
        shortfall += lookup_shortfall(batch.len(), resolved.len());
        for t in resolved {
            let quoters = quotes
                .iter()
                .find(|(q, _)| *q == t.id)
                .map(|(_, v)| v.clone())
                .unwrap_or_default();
            engine.record_tweet(t, &quoters);
        }
    }
    assert!(engine.is_done());
    Run { found: engine.into_found(), batches, shortfall }
}

#[test]
fn two_seeds_one_quote_edge() {
    let world = vec![tweet(100, Some(200)), tweet(200, None)];
    let run = crawl(&[100, 200], &world, &[], false);
    assert_eq!(run.batches[0], vec![100, 200]);
    let ids: Vec<u64> = run.found.iter().map(|t| t.id).collect();
    assert_eq!(ids, vec![100, 200]);
    let g = build_graph(&run.found);
    assert_eq!(g.nodes.len(), 2);
    assert_eq!(g.edges, vec![Edge { source: 0, target: 1 }]);
    assert_eq!(g.nodes[0].name, "N100");
    assert_eq!(g.nodes[1].name, "N200");
    assert_eq!(run.shortfall, 0);
}

#[test]
fn deleted_quoter_is_a_partial_result() {
    let world = vec![tweet(1, None)];
    let run = crawl(&[1], &world, &[(1, vec![2])], false);
    assert_eq!(run.batches, vec![vec![1], vec![2]]);
    let ids: Vec<u64> = run.found.iter().map(|t| t.id).collect();
    assert_eq!(ids, vec![1]);
    let g = build_graph(&run.found);
    assert_eq!(g.nodes.len(), 1);
    assert!(g.edges.is_empty());
    assert_eq!(run.shortfall, 1);
}

#[test]
fn cancel_before_first_batch_exports_empty_graph() {
    let world = vec![tweet(1, None), tweet(2, Some(1))];
    let run = crawl(&[1, 2], &world, &[], true);
    assert!(run.batches.is_empty());
    assert!(run.found.is_empty());
    let g = build_graph(&run.found);
    assert!(g.nodes.is_empty());
    assert!(g.edges.is_empty());
}

#[test]
fn id_quoted_from_several_tweets_is_fetched_once() {
    // 1, 2 and 3 all quote 4; 4 is also found by searching for quoters of 1.
    let world = vec![tweet(1, Some(4)), tweet(2, Some(4)), tweet(3, Some(4)), tweet(4, None)];
    let quotes = vec![(4, vec![1, 2, 3]), (1, vec![4])];
    let run = crawl(&[1, 2, 3], &world, &quotes, false);
    let mut all: Vec<u64> = run.batches.concat();
    let n = all.len();
    all.sort();
    all.dedup();
    assert_eq!(all.len(), n);
    assert_eq!(all, vec![1, 2, 3, 4]);
    let ids: Vec<u64> = run.found.iter().map(|t| t.id).collect();
    assert_eq!(ids, vec![1, 2, 3, 4]);
    let g = build_graph(&run.found);
    assert_eq!(
        g.edges,
        vec![
            Edge { source: 0, target: 3 },
            Edge { source: 1, target: 3 },
            Edge { source: 2, target: 3 }
        ]
    );
}

#[test]
fn batches_hold_at_most_ten_ids() {
    let seeds: Vec<u64> = (1..=25).collect();
    let world: Vec<Tweet> = seeds.iter().map(|id| tweet(*id, None)).collect();
    let run = crawl(&seeds, &world, &[], false);
    let sizes: Vec<usize> = run.batches.iter().map(|b| b.len()).collect();
    assert_eq!(sizes, vec![10, 10, 5]);
    assert!(sizes.iter().all(|s| *s <= MAX_BATCH));
    assert_eq!(run.found.len(), 25);
}

#[test]
fn dangling_quote_draws_no_edge() {
    let found = vec![tweet(1, Some(99)), tweet(2, Some(1)), tweet(3, None)];
    let g = build_graph(&found);
    assert_eq!(g.nodes.len(), 3);
    assert_eq!(g.edges, vec![Edge { source: 1, target: 0 }]);
}

#[test]
fn duplicate_found_ids_point_to_first() {
    let found = vec![tweet(5, None), tweet(6, Some(5)), tweet(5, None)];
    let g = build_graph(&found);
    assert_eq!(g.edges, vec![Edge { source: 1, target: 0 }]);
}

#[test]
fn node_label_joins_name_handle_and_text() {
    let found = vec![tweet(7, None)];
    let g = build_graph(&found);
    assert_eq!(g.nodes[0].label, "Author 7 @user7\n\ntext of 7");
    assert_eq!(quote_miner::graph::graph_name(), "reply_chain");
}

#[test]
fn frontier_dedups_within_and_across_batches() {
    let mut f = Frontier::new(&vec![3, 3, 4]);
    assert!(!f.is_empty());
    assert_eq!(f.take_batch(), vec![3, 4]);
    assert!(f.is_empty());
    f.enqueue(4);
    f.enqueue(5);
    assert_eq!(f.len(), 2);
    assert_eq!(f.take_batch(), vec![5]);
    assert!(f.is_empty());
    assert_eq!(f.take_batch(), Vec::<u64>::new());
}

#[test]
fn draining_crawl_takes_no_further_batch() {
    let mut engine = CrawlEngine::new(&vec![1]);
    let batch = engine.next_batch(false).unwrap();
    assert_eq!(batch, vec![1]);
    engine.note_cancelled();
    engine.record_tweet(tweet(1, Some(2)), &vec![]);
    assert_eq!(engine.pending_count(), 1);
    assert_eq!(engine.found_count(), 1);
    assert!(engine.next_batch(false).is_none());
    assert!(engine.is_done());
    assert_eq!(engine.found().len(), 1);
}

#[test]
fn shortfall_counts_missing_records() {
    assert_eq!(lookup_shortfall(10, 7), 3);
    assert_eq!(lookup_shortfall(2, 2), 0);
    assert_eq!(lookup_shortfall(1, 3), 0);
}
