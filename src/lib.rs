//! Crawl engine for quote-tweet chains: frontier with deduplication, the
//! rate-limit and backoff decisions, the crawl state machine, and the graph
//! built from what was found.

pub mod frontier;
pub mod schedule;
pub mod text;
pub mod graph;
pub mod engine;
