//! The vector store's side of the library: what is read out of a point's
//! payload, how points are made of chunks, and how a collection is exported
//! page by page.

use vstd::prelude::*;
use crate::ids::{is_hyphenated_uuid, parsed_uuid, point_id};
use crate::numbers::{decimal_text, i64_to_string, parse_u32, spec_parse_u32};
use crate::text::{opt_string_view, str_eq};
use crate::types::{
    spec_truncate, truncate_snippet, ChunkDetail, ChunkMetadata, ChunkPayload, ChunkPayloadView,
    Score, SearchFilters, SearchResult, SearchResultView,
};

verus! {

/// How many points one upsert request carries.
pub const UPSERT_BATCH_SIZE: usize = 100;

/// How many points one page of an export holds.
pub const SCROLL_PAGE_SIZE: u32 = 100;

/// How many characters of a chunk's text a search result shows.
pub const SNIPPET_CHARS: usize = 200;

/// One value of a point's payload. A floating-point number is held as the
/// text that the standard library writes for it.
#[derive(Debug)]
pub enum PayloadValue {
    Text(String),
    Integer(i64),
    Double(String),
    Other,
}

/// The payload of a point: its members in the order received.
#[derive(Debug)]
pub struct Payload {
    pub members: Vec<(String, PayloadValue)>,
}

/// The text that stands for a payload value: the string itself, a number as
/// it is written, nothing for any other value.
pub open spec fn value_text(value: PayloadValue) -> Seq<char> {
    match value {
        PayloadValue::Text(s) => s@,
        PayloadValue::Integer(i) => decimal_text(i as int),
        PayloadValue::Double(s) => s@,
        PayloadValue::Other => Seq::empty(),
    }
}

/// The text of the first member `key`: empty where there is no such
/// member.
pub open spec fn payload_text(members: Seq<(String, PayloadValue)>, key: Seq<char>) -> Seq<char>
    decreases members.len(),
{
    if members.len() == 0 {
        Seq::empty()
    } else if members[0].0@ == key {
        value_text(members[0].1)
    } else {
        payload_text(members.drop_first(), key)
    }
}

/// The member `key` of a payload as text: a string as it is, an integer or
/// a floating-point number as it is written, and the empty text for any
/// other value or where the payload has no such member.
pub fn get_payload_str(payload: &Payload, key: &str) -> (r: String)
    ensures
        r@ == payload_text(payload.members@, key@),
{
    let members = &payload.members;
    let mut i: usize = 0;
    assert(members@.skip(0) =~= members@);
    while i < members.len()
        invariant
            i <= members.len(),
            members@ == payload.members@,
            payload_text(members@, key@) == payload_text(members@.skip(i as int), key@),
        decreases members.len() - i,
    {
        let ghost rest = members@.skip(i as int);
        assert(rest[0] == members@[i as int]);
        if str_eq(members[i].0.as_str(), key) {
            return match &members[i].1 {
                PayloadValue::Text(s) => s.clone(),
                PayloadValue::Integer(n) => i64_to_string(*n),
                PayloadValue::Double(s) => s.clone(),
                PayloadValue::Other => String::new(),
            };
        }
        assert(rest.drop_first() =~= members@.skip(i + 1));
        i += 1;
    }
    String::new()
}

/// The ordinal that a payload gives: its member `chunk_index` read as an
/// unsigned 32-bit number, 0 where it is none.
pub open spec fn payload_ordinal(members: Seq<(String, PayloadValue)>) -> u32 {
    match spec_parse_u32(payload_text(members, "chunk_index"@)) {
        Some(n) => n,
        None => 0,
    }
}

fn ordinal_of(payload: &Payload) -> (r: u32)
    ensures
        r == payload_ordinal(payload.members@),
{
    let text = get_payload_str(payload, "chunk_index");
    match parse_u32(text.as_str()) {
        Some(n) => n,
        None => 0,
    }
}

/// The chunk that a payload describes.
pub open spec fn spec_chunk_from_payload(members: Seq<(String, PayloadValue)>) -> ChunkPayloadView {
    ChunkPayloadView {
        chunk_id: payload_text(members, "chunk_id"@),
        source_path: payload_text(members, "source_path"@),
        source_type: payload_text(members, "source_type"@),
        title: payload_text(members, "title"@),
        chunk_index: payload_ordinal(members),
        text: payload_text(members, "text"@),
        updated_at: payload_text(members, "updated_at"@),
    }
}

/// Rebuilds a chunk from the payload of its point.
pub fn chunk_from_payload(payload: &Payload) -> (r: ChunkPayload)
    ensures
        r@ == spec_chunk_from_payload(payload.members@),
{
    ChunkPayload {
        chunk_id: get_payload_str(payload, "chunk_id"),
        source_path: get_payload_str(payload, "source_path"),
        source_type: get_payload_str(payload, "source_type"),
        title: get_payload_str(payload, "title"),
        chunk_index: ordinal_of(payload),
        text: get_payload_str(payload, "text"),
        updated_at: get_payload_str(payload, "updated_at"),
    }
}

/// The detail of a chunk from the payload of its point.
pub fn detail_from_payload(payload: &Payload) -> (r: ChunkDetail)
    ensures
        r.chunk_id@ == payload_text(payload.members@, "chunk_id"@),
        r.text@ == payload_text(payload.members@, "text"@),
        r.metadata.title@ == payload_text(payload.members@, "title"@),
        r.metadata.source_path@ == payload_text(payload.members@, "source_path"@),
        r.metadata.source_type@ == payload_text(payload.members@, "source_type"@),
        r.metadata.chunk_index == payload_ordinal(payload.members@),
{
    ChunkDetail {
        chunk_id: get_payload_str(payload, "chunk_id"),
        text: get_payload_str(payload, "text"),
        metadata: ChunkMetadata {
            title: get_payload_str(payload, "title"),
            source_path: get_payload_str(payload, "source_path"),
            source_type: get_payload_str(payload, "source_type"),
            chunk_index: ordinal_of(payload),
        },
    }
}

/// What a lookup by chunk id gives: the detail of the first point
/// returned, nothing where none was returned.
pub fn get_chunk(points: &Vec<Payload>) -> (r: Option<ChunkDetail>)
    ensures
        points.len() == 0 <==> r is None,
        r matches Some(detail) ==> {
            &&& detail.chunk_id@ == payload_text(points[0].members@, "chunk_id"@)
            &&& detail.text@ == payload_text(points[0].members@, "text"@)
            &&& detail.metadata.title@ == payload_text(points[0].members@, "title"@)
            &&& detail.metadata.source_path@ == payload_text(points[0].members@, "source_path"@)
            &&& detail.metadata.source_type@ == payload_text(points[0].members@, "source_type"@)
            &&& detail.metadata.chunk_index == payload_ordinal(points[0].members@)
        },
{
    if points.len() == 0 {
        None
    } else {
        Some(detail_from_payload(&points[0]))
    }
}

/// The search result that a scored point gives: its metadata from the
/// payload, and the first 200 characters of its text as the snippet.
pub open spec fn spec_hit_from_payload(members: Seq<(String, PayloadValue)>, score: Score) -> SearchResultView {
    SearchResultView {
        chunk_id: payload_text(members, "chunk_id"@),
        score: score@,
        title: payload_text(members, "title"@),
        source_path: payload_text(members, "source_path"@),
        source_type: payload_text(members, "source_type"@),
        snippet: spec_truncate(payload_text(members, "text"@), SNIPPET_CHARS as nat),
    }
}

/// The search result for one point that the vector store returned.
pub fn hit_from_payload(payload: &Payload, score: Score) -> (r: SearchResult)
    ensures
        r@ == spec_hit_from_payload(payload.members@, score),
{
    let text = get_payload_str(payload, "text");
    SearchResult {
        chunk_id: get_payload_str(payload, "chunk_id"),
        score,
        title: get_payload_str(payload, "title"),
        source_path: get_payload_str(payload, "source_path"),
        source_type: get_payload_str(payload, "source_type"),
        snippet: truncate_snippet(text.as_str(), SNIPPET_CHARS),
    }
}

/// A point that a vector search returned, with its similarity.
#[derive(Debug)]
pub struct ScoredPoint {
    pub payload: Payload,
    pub score: Score,
}

/// The results that the scored points give, in order.
pub open spec fn spec_vector_hits(points: Seq<ScoredPoint>) -> Seq<SearchResultView> {
    points.map_values(|p: ScoredPoint| spec_hit_from_payload(p.payload.members@, p.score))
}

/// The results of a vector search, from the points that the store
/// returned: one result per point, in the store's order.
pub fn search(points: &Vec<ScoredPoint>) -> (r: Vec<SearchResult>)
    ensures
        crate::fusion::hit_views(r@) == spec_vector_hits(points@),
{
    let mut results: Vec<SearchResult> = Vec::new();
    let mut i: usize = 0;
    while i < points.len()
        invariant
            i <= points.len(),
            results.len() == i,
            forall|k: int|
                0 <= k < i ==> (#[trigger] results[k])@ == spec_hit_from_payload(
                    points[k].payload.members@,
                    points[k].score,
                ),
        decreases points.len() - i,
    {
        results.push(hit_from_payload(&points[i].payload, points[i].score));
        i += 1;
    }
    assert(crate::fusion::hit_views(results@) =~= spec_vector_hits(points@));
    results
}

/// The condition that a vector search puts on the store: the source type,
/// where the filters name one. The path prefix is not applied by the store.
pub fn source_type_condition(filters: &SearchFilters) -> (r: Option<String>)
    ensures
        r == filters.source_type,
{
    match &filters.source_type {
        Some(s) => Some(s.clone()),
        None => None,
    }
}

/// The number of points of a collection, from what the store reports: 0
/// where it reports no collection or no count.
pub fn get_collection_info(reported: Option<Option<u64>>) -> (r: u64)
    ensures
        r == match reported {
            Some(Some(n)) => n,
            _ => 0,
        },
{
    match reported {
        Some(Some(n)) => n,
        _ => 0,
    }
}

/// A point to write to the vector store: its id, its vector as the bits of
/// its 32-bit floating-point components, and the chunk as its payload.
#[derive(Debug)]
pub struct PointRecord {
    pub id: String,
    pub vector: Vec<u32>,
    pub payload: ChunkPayload,
}

/// The points for the given chunks and their vectors, pair by pair, in the
/// batches in which they are written: each batch holds 100 points, the last
/// one what is left. What one list has more than the other is left out. A
/// point's id is the chunk's id where that is a UUID, else a fresh random
/// UUID.
pub fn upsert_chunks(chunks: &[ChunkPayload], embeddings: &Vec<Vec<u32>>) -> (r: Vec<
    Vec<PointRecord>,
>)
    ensures
        forall|b: int| 0 <= b < r.len() ==> 0 < (#[trigger] r[b]).len() <= UPSERT_BATCH_SIZE,
        forall|b: int| 0 <= b < r.len() - 1 ==> (#[trigger] r[b]).len() == UPSERT_BATCH_SIZE,
        batched_len(r@) == if chunks.len() <= embeddings.len() {
            chunks.len()
        } else {
            embeddings.len()
        },
        forall|b: int, k: int|
            0 <= b < r.len() && 0 <= k < r[b].len() ==> {
                let i = b * UPSERT_BATCH_SIZE + k;
                &&& i < chunks.len()
                &&& i < embeddings.len()
                &&& (#[trigger] r[b][k]).payload == chunks[i]
                &&& r[b][k].vector@ == embeddings[i]@
                &&& is_hyphenated_uuid(r[b][k].id@)
                &&& (parsed_uuid(chunks[i].chunk_id@) matches Some(id) ==> r[b][k].id@ == id)
            },
{
    let count = if chunks.len() <= embeddings.len() {
        chunks.len()
    } else {
        embeddings.len()
    };
    let mut batches: Vec<Vec<PointRecord>> = Vec::new();
    let mut current: Vec<PointRecord> = Vec::new();
    let mut i: usize = 0;
    proof {
        assert(0 * UPSERT_BATCH_SIZE == 0) by (nonlinear_arith);
        assert(batched_len(batches@) == 0);
    }
    while i < count
        invariant
            i <= count,
            count <= chunks.len(),
            count <= embeddings.len(),
            current.len() < UPSERT_BATCH_SIZE,
            i == batches.len() * UPSERT_BATCH_SIZE + current.len(),
            batched_len(batches@) == batches.len() * UPSERT_BATCH_SIZE,
            forall|b: int| 0 <= b < batches.len() ==> (#[trigger] batches[b]).len() == UPSERT_BATCH_SIZE,
            forall|b: int, k: int|
                0 <= b < batches.len() && 0 <= k < batches[b].len() ==> {
                    let j = b * UPSERT_BATCH_SIZE + k;
                    &&& j < i
                    &&& (#[trigger] batches[b][k]).payload == chunks[j]
                    &&& batches[b][k].vector@ == embeddings[j]@
                    &&& is_hyphenated_uuid(batches[b][k].id@)
                    &&& (parsed_uuid(chunks[j].chunk_id@) matches Some(id) ==> batches[b][k].id@
                        == id)
                },
            forall|k: int|
                0 <= k < current.len() ==> {
                    let j = batches.len() * UPSERT_BATCH_SIZE + k;
                    &&& (#[trigger] current[k]).payload == chunks[j]
                    &&& current[k].vector@ == embeddings[j]@
                    &&& is_hyphenated_uuid(current[k].id@)
                    &&& (parsed_uuid(chunks[j].chunk_id@) matches Some(id) ==> current[k].id@ == id)
                },
        decreases count - i,
    {
        let id = point_id(chunks[i].chunk_id.as_str());
        let vector = embeddings[i].clone();
        current.push(PointRecord { id, vector, payload: chunks[i].clone() });
        i += 1;
        if current.len() == UPSERT_BATCH_SIZE {
            let ghost filled = batches@;
            let ghost n = batches.len() as int;
            proof {
                assert((n + 1) * UPSERT_BATCH_SIZE == n * UPSERT_BATCH_SIZE + UPSERT_BATCH_SIZE)
                    by (nonlinear_arith);
                assert(filled.push(current).drop_last() =~= filled);
            }
            batches.push(current);
            current = Vec::new();
        }
    }
    if current.len() > 0 {
        let ghost filled = batches@;
        proof {
            assert(filled.push(current).drop_last() =~= filled);
        }
        batches.push(current);
    }
    batches
}

/// The number of points in a list of batches.
pub open spec fn batched_len(batches: Seq<Vec<PointRecord>>) -> nat
    decreases batches.len(),
{
    if batches.len() == 0 {
        0
    } else {
        batched_len(batches.drop_last()) + batches.last()@.len()
    }
}

/// A point as an export page holds it: its payload and, where it has a
/// single unnamed vector, that vector's components as bits.
#[derive(Debug)]
pub struct ScrolledPoint {
    pub payload: Payload,
    pub vector: Option<Vec<u32>>,
}

/// One page of an export: its points, and where the next page starts.
#[derive(Debug)]
pub struct ScrollPage {
    pub points: Vec<ScrolledPoint>,
    pub next_offset: Option<String>,
}

/// A chunk with its vector, as an export holds it.
#[derive(Debug)]
pub struct ExportedChunk {
    pub payload: ChunkPayload,
    pub embedding: Vec<u32>,
}

/// An exported chunk as plain values.
pub ghost struct ExportedChunkView {
    pub payload: ChunkPayloadView,
    pub embedding: Seq<u32>,
}

impl View for ExportedChunk {
    type V = ExportedChunkView;

    open spec fn view(&self) -> ExportedChunkView {
        ExportedChunkView { payload: self.payload@, embedding: self.embedding@ }
    }
}

/// The views of a list of exported chunks.
pub open spec fn exported_views(chunks: Seq<ExportedChunk>) -> Seq<ExportedChunkView> {
    chunks.map_values(|c: ExportedChunk| c@)
}

/// What a scrolled point exports: its chunk, with its vector or, where it
/// has none, the empty vector.
pub open spec fn spec_exported(point: ScrolledPoint) -> ExportedChunkView {
    ExportedChunkView {
        payload: spec_chunk_from_payload(point.payload.members@),
        embedding: match point.vector {
            Some(v) => v@,
            None => Seq::empty(),
        },
    }
}

/// What the points of a page export, in order.
pub open spec fn spec_exported_page(points: Seq<ScrolledPoint>) -> Seq<ExportedChunkView> {
    points.map_values(|p: ScrolledPoint| spec_exported(p))
}

/// Where an export goes on after a page: nowhere after an empty page, else
/// where the page says the next one starts.
pub open spec fn spec_next_offset(page: ScrollPage) -> Option<Seq<char>> {
    if page.points.len() == 0 {
        None
    } else {
        opt_string_view(page.next_offset)
    }
}

/// Takes one page into an export: its chunks are appended to `all`, and the
/// result is the offset of the page to ask for next, or `None` where the
/// export is complete.
pub fn export_page(all: &mut Vec<ExportedChunk>, page: &ScrollPage) -> (r: Option<String>)
    ensures
        exported_views(final(all)@) == exported_views(old(all)@) + spec_exported_page(
            page.points@,
        ),
        opt_string_view(r) == spec_next_offset(*page),
{
    let ghost start = exported_views(all@);
    let mut i: usize = 0;
    assert(exported_views(all@) =~= start + spec_exported_page(page.points@.take(0)));
    while i < page.points.len()
        invariant
            i <= page.points.len(),
            exported_views(all@) == start + spec_exported_page(page.points@.take(i as int)),
        decreases page.points.len() - i,
    {
        let point = &page.points[i];
        let embedding: Vec<u32> = match &point.vector {
            Some(v) => v.clone(),
            None => Vec::new(),
        };
        let ghost before = all@;
        let exported = ExportedChunk { payload: chunk_from_payload(&point.payload), embedding };
        assert(exported@ == spec_exported(*point));
        all.push(exported);
        proof {
            assert(exported_views(all@) =~= exported_views(before).push(exported@));
            assert(spec_exported_page(page.points@.take(i + 1)) =~= spec_exported_page(
                page.points@.take(i as int),
            ).push(spec_exported(*point)));
        }
        i += 1;
    }
    assert(page.points@.take(page.points.len() as int) =~= page.points@);
    if page.points.len() == 0 {
        None
    } else {
        match &page.next_offset {
            Some(offset) => Some(offset.clone()),
            None => None,
        }
    }
}

/// How the vectors of a collection are compared.
#[derive(Clone, Copy, Debug)]
pub enum Distance {
    Cosine,
}

/// How the vectors of a collection are compressed.
#[derive(Clone, Copy, Debug)]
pub enum Quantization {
    Scalar,
}

/// The collection to create.
#[derive(Clone, Copy, Debug)]
pub struct CollectionSpec {
    pub dimension: u64,
    pub distance: Distance,
    pub quantization: Quantization,
}

/// What ensuring the collection asks of the store: nothing where the
/// collection exists, else a collection of the configured dimension with
/// cosine distance and scalar quantization.
pub fn ensure_collection(exists: bool, embedding_dimension: usize) -> (r: Option<CollectionSpec>)
    ensures
        exists ==> r is None,
        !exists ==> (r matches Some(spec) && spec.dimension == embedding_dimension
            && spec.distance is Cosine && spec.quantization is Scalar),
{
    if exists {
        None
    } else {
        Some(
            CollectionSpec {
                dimension: embedding_dimension as u64,
                distance: Distance::Cosine,
                quantization: Quantization::Scalar,
            },
        )
    }
}

} // verus!
