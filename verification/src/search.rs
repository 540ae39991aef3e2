//! The hybrid searcher: what it asks of the two stores and how it fuses
//! what they return.

use vstd::prelude::*;
use crate::config::AppConfig;
use crate::fusion::{hit_views, rrf_merge, spec_rrf_merge, MAX_RANKED};
use crate::types::{ChunkDetail, SearchResult};
use crate::vector_store::{payload_ordinal, payload_text, Payload};

verus! {

/// How many hits the searcher asks of each store.
pub const CANDIDATE_LIMIT: usize = 30;

/// Why a query has no answer.
#[derive(Clone, Copy, Debug)]
pub enum SearchError {
    /// A store returned more hits than the fusion takes.
    TooManyHits,
}

/// Fuses the hits of the vector store and of the lexical store. It holds no
/// state.
#[derive(Debug)]
pub struct HybridSearcher {}

impl HybridSearcher {
    /// A searcher for `config`. This never fails.
    pub fn new(config: &AppConfig) -> (r: Result<Self, String>)
        ensures
            r is Ok,
    {
        Ok(HybridSearcher {  })
    }

    /// The number of hits to ask of each store for one query.
    pub fn candidate_limit(&self) -> (r: usize)
        ensures
            r == CANDIDATE_LIMIT,
    {
        CANDIDATE_LIMIT
    }

    /// The answer to a query, given what the vector store and the lexical
    /// store returned for it: their Reciprocal Rank Fusion, cut to `top_k`.
    /// It is an error if a store returned more than `MAX_RANKED` hits.
    pub fn search(
        &self,
        vector_results: &[SearchResult],
        bm25_results: &[SearchResult],
        top_k: usize,
    ) -> (r: Result<Vec<SearchResult>, SearchError>)
        ensures
            match r {
                Ok(results) => {
                    &&& vector_results.len() <= MAX_RANKED
                    &&& bm25_results.len() <= MAX_RANKED
                    &&& hit_views(results@) == spec_rrf_merge(
                        hit_views(vector_results@),
                        hit_views(bm25_results@),
                        top_k as nat,
                    )
                },
                Err(e) => vector_results.len() > MAX_RANKED || bm25_results.len() > MAX_RANKED,
            },
    {
        if vector_results.len() > MAX_RANKED || bm25_results.len() > MAX_RANKED {
            Err(SearchError::TooManyHits)
        } else {
            Ok(rrf_merge(vector_results, bm25_results, top_k))
        }
    }

    /// The chunk that a lookup by id found, given the points that the
    /// vector store returned for the id: the first one, or nothing.
    pub fn get_chunk(&self, points: &Vec<Payload>) -> (r: Option<ChunkDetail>)
        ensures
            points.len() == 0 <==> r is None,
            r matches Some(detail) ==> {
                &&& detail.chunk_id@ == payload_text(points[0].members@, "chunk_id"@)
                &&& detail.text@ == payload_text(points[0].members@, "text"@)
                &&& detail.metadata.title@ == payload_text(points[0].members@, "title"@)
                &&& detail.metadata.source_path@ == payload_text(
                    points[0].members@,
                    "source_path"@,
                )
                &&& detail.metadata.source_type@ == payload_text(
                    points[0].members@,
                    "source_type"@,
                )
                &&& detail.metadata.chunk_index == payload_ordinal(points[0].members@)
            },
    {
        crate::vector_store::get_chunk(points)
    }
}

} // verus!
