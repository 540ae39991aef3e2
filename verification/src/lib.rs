//! Hybrid document retrieval: chunking, rank fusion and the rules that the
//! ingest pipeline and the tool-call server follow, with machine-checked
//! contracts.

pub mod text;
pub mod numbers;
pub mod paths;
pub mod config;
pub mod ids;
pub mod types;
pub mod chunker;
pub mod fusion;
pub mod fusion_laws;
pub mod protocol;
pub mod tools;
pub mod search;
pub mod server;
pub mod sessions;
pub mod ingest_state;
pub mod ingest;
pub mod ingest_batch;
pub mod vector_store;
pub mod lexical;
pub mod embedding;
