//! A link crawler: frontier, visit tracking, link normalisation, discovery
//! records and the decisions of the single-process and distributed loops.
pub mod address;
pub mod crawl;
pub mod crawler;
pub mod error;
pub mod frontier;
pub mod links;
pub mod nats;
pub mod record;
pub mod retry;
pub mod visited;
