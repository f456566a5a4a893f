//! Query-line handling, command planning, top-n score tracking and ingest
//! batching for full-text search benchmark engines.

pub mod text;
pub mod phrase;
pub mod request;
pub mod command;
pub mod top_scores;
pub mod checkpoints;
pub mod ingest;
pub mod counting;
pub mod threads;
