//! The lexical store's side of the library: which tokenizer an index uses,
//! what is written for a chunk, and which retrieved documents pass the
//! filters of a search.

use vstd::prelude::*;
use vstd::string::StringExecFns;
use crate::text::{has_prefix, opt_string_view, starts_with, str_eq};
use crate::types::{
    spec_truncate, truncate_snippet, ChunkPayload, ChunkPayloadView, Score, SearchFilters,
    SearchResult, SearchResultView,
};
use crate::vector_store::SNIPPET_CHARS;

verus! {

/// A language with a morphological segmenter.
#[derive(Clone, Copy, Debug)]
pub enum Language {
    Japanese,
    Korean,
    Chinese,
}

/// The tokenizer of the text fields of an index.
#[derive(Clone, Copy, Debug)]
pub enum Tokenizer {
    /// The index engine's own tokenizer.
    Builtin,
    /// The segmenter of a language with its embedded dictionary.
    Segmenter(Language),
}

/// Why the configured tokenizer cannot be used.
#[derive(Clone, Copy, Debug)]
pub enum TokenizerError {
    /// The configuration names no tokenizer that the system knows.
    Unknown,
    /// The segmenter of this language is not part of the build.
    NotLinked(Language),
}

/// The segmenters that are part of the build.
#[derive(Clone, Copy, Debug)]
pub struct LinkedSegmenters {
    pub japanese: bool,
    pub korean: bool,
    pub chinese: bool,
}

/// The language that a configuration value names.
pub open spec fn spec_language(name: Seq<char>) -> Option<Language> {
    if name == "japanese"@ {
        Some(Language::Japanese)
    } else if name == "korean"@ {
        Some(Language::Korean)
    } else if name == "chinese"@ {
        Some(Language::Chinese)
    } else {
        None
    }
}

/// Whether the segmenter of `language` is part of the build.
pub open spec fn is_linked(linked: LinkedSegmenters, language: Language) -> bool {
    match language {
        Language::Japanese => linked.japanese,
        Language::Korean => linked.korean,
        Language::Chinese => linked.chinese,
    }
}

/// The tokenizer for the configuration value `name`: the built-in one for
/// `default` and for the empty value, the segmenter of a language that is
/// named and linked, an error for everything else.
pub open spec fn spec_select_tokenizer(name: Seq<char>, linked: LinkedSegmenters) -> Result<
    Tokenizer,
    TokenizerError,
> {
    if name == "default"@ || name.len() == 0 {
        Ok(Tokenizer::Builtin)
    } else {
        match spec_language(name) {
            Some(language) => if is_linked(linked, language) {
                Ok(Tokenizer::Segmenter(language))
            } else {
                Err(TokenizerError::NotLinked(language))
            },
            None => Err(TokenizerError::Unknown),
        }
    }
}

/// Chooses the tokenizer to register on an index.
pub fn select_tokenizer(name: &str, linked: LinkedSegmenters) -> (r: Result<
    Tokenizer,
    TokenizerError,
>)
    ensures
        r == spec_select_tokenizer(name@, linked),
{
    if str_eq(name, "default") || name.unicode_len() == 0 {
        Ok(Tokenizer::Builtin)
    } else if str_eq(name, "japanese") {
        if linked.japanese {
            Ok(Tokenizer::Segmenter(Language::Japanese))
        } else {
            Err(TokenizerError::NotLinked(Language::Japanese))
        }
    } else if str_eq(name, "korean") {
        if linked.korean {
            Ok(Tokenizer::Segmenter(Language::Korean))
        } else {
            Err(TokenizerError::NotLinked(Language::Korean))
        }
    } else if str_eq(name, "chinese") {
        if linked.chinese {
            Ok(Tokenizer::Segmenter(Language::Chinese))
        } else {
            Err(TokenizerError::NotLinked(Language::Chinese))
        }
    } else {
        Err(TokenizerError::Unknown)
    }
}

/// The build feature that links the segmenter of a language.
pub open spec fn feature_of(language: Language) -> Seq<char> {
    match language {
        Language::Japanese => "ja"@,
        Language::Korean => "ko"@,
        Language::Chinese => "zh"@,
    }
}

/// The message of a tokenizer error for the configured value `name`. A
/// build without any segmenter names the features that exist; a build with
/// some segmenter names the one that is missing.
pub open spec fn spec_tokenizer_message(
    error: TokenizerError,
    name: Seq<char>,
    linked: LinkedSegmenters,
) -> Seq<char> {
    match error {
        TokenizerError::Unknown => "Unknown tokenizer '"@ + name
            + "'. Supported values: default, japanese, korean, chinese"@,
        TokenizerError::NotLinked(language) => if !linked.japanese && !linked.korean
            && !linked.chinese {
            "tokenizer = \""@ + name
                + "\" requires a language feature to be enabled at build time. Available features: ja, ko, zh. Example: cargo build --features ja"@
        } else {
            "tokenizer = \""@ + name + "\" requires the '"@ + feature_of(language)
                + "' feature. Build with: cargo build --features "@ + feature_of(language)
        },
    }
}

/// The message of `error` for the configured value `name`.
pub fn tokenizer_message(error: TokenizerError, name: &str, linked: LinkedSegmenters) -> (r:
    String)
    ensures
        r@ == spec_tokenizer_message(error, name@, linked),
{
    match error {
        TokenizerError::Unknown => {
            let mut m = "Unknown tokenizer '".to_owned();
            m.append(name);
            m.append("'. Supported values: default, japanese, korean, chinese");
            m
        },
        TokenizerError::NotLinked(language) => {
            let mut m = "tokenizer = \"".to_owned();
            m.append(name);
            if !linked.japanese && !linked.korean && !linked.chinese {
                m.append(
                    "\" requires a language feature to be enabled at build time. Available features: ja, ko, zh. Example: cargo build --features ja",
                );
            } else {
                let feature = match language {
                    Language::Japanese => "ja",
                    Language::Korean => "ko",
                    Language::Chinese => "zh",
                };
                m.append("\" requires the '");
                m.append(feature);
                m.append("' feature. Build with: cargo build --features ");
                m.append(feature);
            }
            m
        },
    }
}

/// The name under which the text fields of the schema ask for their
/// tokenizer: `default` for the built-in one, `custom_tokenizer` for any
/// other configuration value.
pub open spec fn spec_tokenizer_name(configured: Seq<char>) -> Seq<char> {
    if configured == "default"@ || configured.len() == 0 {
        "default"@
    } else {
        "custom_tokenizer"@
    }
}

/// The tokenizer name that the schema of the index uses.
pub fn resolve_tokenizer_name(configured: &str) -> (r: String)
    ensures
        r@ == spec_tokenizer_name(configured@),
{
    if str_eq(configured, "default") || configured.unicode_len() == 0 {
        "default".to_owned()
    } else {
        "custom_tokenizer".to_owned()
    }
}

/// Where the embedded dictionary of a language is found.
pub open spec fn spec_dictionary_uri(language: Language) -> Seq<char> {
    match language {
        Language::Japanese => "embedded://ipadic"@,
        Language::Korean => "embedded://ko-dic"@,
        Language::Chinese => "embedded://cc-cedict"@,
    }
}

/// The URI of the embedded dictionary of `language`.
pub fn dictionary_uri(language: Language) -> (r: String)
    ensures
        r@ == spec_dictionary_uri(language),
{
    match language {
        Language::Japanese => "embedded://ipadic".to_owned(),
        Language::Korean => "embedded://ko-dic".to_owned(),
        Language::Chinese => "embedded://cc-cedict".to_owned(),
    }
}

/// How a field of the index is indexed.
#[derive(Clone, Copy, Debug)]
pub enum FieldIndexing {
    /// As one exact term.
    Keyword,
    /// Tokenized, with frequencies and positions.
    Tokenized,
}

/// A field of the index. Every field is stored.
#[derive(Debug)]
pub struct FieldSpec {
    pub name: String,
    pub indexing: FieldIndexing,
}

/// The five fields of the index, in schema order: `chunk_id` and
/// `source_path` as keywords, `title` and `body` tokenized, `source_type` as
/// a keyword.
pub fn build_schema() -> (r: Vec<FieldSpec>)
    ensures
        r.len() == 5,
        r[0].name@ == "chunk_id"@ && r[0].indexing is Keyword,
        r[1].name@ == "source_path"@ && r[1].indexing is Keyword,
        r[2].name@ == "title"@ && r[2].indexing is Tokenized,
        r[3].name@ == "body"@ && r[3].indexing is Tokenized,
        r[4].name@ == "source_type"@ && r[4].indexing is Keyword,
{
    let mut fields: Vec<FieldSpec> = Vec::new();
    fields.push(FieldSpec { name: "chunk_id".to_owned(), indexing: FieldIndexing::Keyword });
    fields.push(FieldSpec { name: "source_path".to_owned(), indexing: FieldIndexing::Keyword });
    fields.push(FieldSpec { name: "title".to_owned(), indexing: FieldIndexing::Tokenized });
    fields.push(FieldSpec { name: "body".to_owned(), indexing: FieldIndexing::Tokenized });
    fields.push(FieldSpec { name: "source_type".to_owned(), indexing: FieldIndexing::Keyword });
    fields
}

/// The stored fields of one document of the index.
#[derive(Debug)]
pub struct LexicalDoc {
    pub chunk_id: String,
    pub source_path: String,
    pub title: String,
    pub body: String,
    pub source_type: String,
}

/// A document as plain sequences.
pub ghost struct LexicalDocView {
    pub chunk_id: Seq<char>,
    pub source_path: Seq<char>,
    pub title: Seq<char>,
    pub body: Seq<char>,
    pub source_type: Seq<char>,
}

impl View for LexicalDoc {
    type V = LexicalDocView;

    open spec fn view(&self) -> LexicalDocView {
        LexicalDocView {
            chunk_id: self.chunk_id@,
            source_path: self.source_path@,
            title: self.title@,
            body: self.body@,
            source_type: self.source_type@,
        }
    }
}

/// The document that is written for a chunk: its text is the body.
pub open spec fn spec_document(chunk: ChunkPayloadView) -> LexicalDocView {
    LexicalDocView {
        chunk_id: chunk.chunk_id,
        source_path: chunk.source_path,
        title: chunk.title,
        body: chunk.text,
        source_type: chunk.source_type,
    }
}

/// The document that is written for `chunk`.
pub fn document_for(chunk: &ChunkPayload) -> (r: LexicalDoc)
    ensures
        r@ == spec_document(chunk@),
{
    LexicalDoc {
        chunk_id: chunk.chunk_id.clone(),
        source_path: chunk.source_path.clone(),
        title: chunk.title.clone(),
        body: chunk.text.clone(),
        source_type: chunk.source_type.clone(),
    }
}

/// One step of writing to the index.
#[derive(Debug)]
pub enum IndexOp {
    /// Delete every document whose `chunk_id` is this term.
    DeleteById(String),
    /// Add this document.
    Add(LexicalDoc),
    /// Make what was written visible to searches.
    Commit,
}

/// A step as plain sequences.
pub ghost enum IndexOpView {
    DeleteById(Seq<char>),
    Add(LexicalDocView),
    Commit,
}

impl View for IndexOp {
    type V = IndexOpView;

    open spec fn view(&self) -> IndexOpView {
        match self {
            IndexOp::DeleteById(id) => IndexOpView::DeleteById(id@),
            IndexOp::Add(doc) => IndexOpView::Add(doc@),
            IndexOp::Commit => IndexOpView::Commit,
        }
    }
}

/// The views of a list of steps.
pub open spec fn op_views(ops: Seq<IndexOp>) -> Seq<IndexOpView> {
    ops.map_values(|op: IndexOp| op@)
}

/// The steps that write the given chunks, without the final commit: for
/// each chunk, the deletion of its id and then the addition of its document.
pub open spec fn spec_write_ops(chunks: Seq<ChunkPayloadView>) -> Seq<IndexOpView>
    decreases chunks.len(),
{
    if chunks.len() == 0 {
        Seq::empty()
    } else {
        spec_write_ops(chunks.drop_last()).push(
            IndexOpView::DeleteById(chunks.last().chunk_id),
        ).push(IndexOpView::Add(spec_document(chunks.last())))
    }
}

/// The steps of indexing the given chunks: they are written one after the
/// other, each in place of what the index held under its id, and committed
/// once at the end.
pub open spec fn spec_index_ops(chunks: Seq<ChunkPayloadView>) -> Seq<IndexOpView> {
    spec_write_ops(chunks).push(IndexOpView::Commit)
}

/// The views of a list of chunks.
pub open spec fn chunk_views(chunks: Seq<ChunkPayload>) -> Seq<ChunkPayloadView> {
    chunks.map_values(|c: ChunkPayload| c@)
}

/// The steps that index `chunks`.
pub fn index_chunks(chunks: &[ChunkPayload]) -> (r: Vec<IndexOp>)
    ensures
        op_views(r@) == spec_index_ops(chunk_views(chunks@)),
{
    let mut ops: Vec<IndexOp> = Vec::new();
    let mut i: usize = 0;
    assert(op_views(ops@) =~= spec_write_ops(chunk_views(chunks@).take(0)));
    while i < chunks.len()
        invariant
            i <= chunks.len(),
            op_views(ops@) == spec_write_ops(chunk_views(chunks@).take(i as int)),
        decreases chunks.len() - i,
    {
        let ghost before = ops@;
        let delete = IndexOp::DeleteById(chunks[i].chunk_id.clone());
        let add = IndexOp::Add(document_for(&chunks[i]));
        proof {
            assert(chunk_views(chunks@).take(i + 1).drop_last() =~= chunk_views(chunks@).take(
                i as int,
            ));
            assert(chunk_views(chunks@).take(i + 1).last() == chunks[i as int]@);
            assert(op_views(before.push(delete).push(add)) =~= op_views(before).push(
                delete@,
            ).push(add@));
        }
        ops.push(delete);
        ops.push(add);
        i += 1;
    }
    assert(chunk_views(chunks@).take(chunks.len() as int) =~= chunk_views(chunks@));
    let ghost written = ops@;
    ops.push(IndexOp::Commit);
    assert(op_views(ops@) =~= op_views(written).push(IndexOpView::Commit));
    ops
}

/// The documents of `store` whose id is not `id`.
pub open spec fn without_id(store: Seq<LexicalDocView>, id: Seq<char>) -> Seq<LexicalDocView>
    decreases store.len(),
{
    if store.len() == 0 {
        Seq::empty()
    } else {
        let front = without_id(store.drop_last(), id);
        if store.last().chunk_id == id {
            front
        } else {
            front.push(store.last())
        }
    }
}

/// What one step makes of the documents of an index that deletes by term
/// and appends.
pub open spec fn apply_op(store: Seq<LexicalDocView>, op: IndexOpView) -> Seq<LexicalDocView> {
    match op {
        IndexOpView::DeleteById(id) => without_id(store, id),
        IndexOpView::Add(doc) => store.push(doc),
        IndexOpView::Commit => store,
    }
}

/// What a list of steps makes of the documents of such an index.
pub open spec fn apply_ops(store: Seq<LexicalDocView>, ops: Seq<IndexOpView>) -> Seq<LexicalDocView>
    decreases ops.len(),
{
    if ops.len() == 0 {
        store
    } else {
        apply_op(apply_ops(store, ops.drop_last()), ops.last())
    }
}

proof fn lemma_without_absent_id(store: Seq<LexicalDocView>, id: Seq<char>)
    requires
        forall|i: int| 0 <= i < store.len() ==> (#[trigger] store[i]).chunk_id != id,
    ensures
        without_id(store, id) == store,
    decreases store.len(),
{
    if store.len() > 0 {
        let front = store.drop_last();
        assert forall|i: int| 0 <= i < front.len() implies (#[trigger] front[i]).chunk_id != id by {
            assert(front[i] == store[i]);
        }
        lemma_without_absent_id(front, id);
        assert(store[store.len() - 1].chunk_id != id);
        assert(front.push(store.last()) =~= store);
    }
}

/// Indexing one chunk into an index that does not hold its id adds its
/// document and nothing else.
pub proof fn lemma_index_new_chunk(store: Seq<LexicalDocView>, chunk: ChunkPayloadView)
    requires
        forall|i: int| 0 <= i < store.len() ==> (#[trigger] store[i]).chunk_id != chunk.chunk_id,
    ensures
        apply_ops(store, spec_index_ops(seq![chunk])) == store.push(spec_document(chunk)),
{
    let ops = spec_index_ops(seq![chunk]);
    let delete = IndexOpView::DeleteById(chunk.chunk_id);
    let add = IndexOpView::Add(spec_document(chunk));
    lemma_single_chunk_ops(chunk);
    lemma_apply_three(store, delete, add, IndexOpView::Commit);
    lemma_without_absent_id(store, chunk.chunk_id);
}

proof fn lemma_single_chunk_ops(chunk: ChunkPayloadView)
    ensures
        spec_index_ops(seq![chunk]) == seq![
            IndexOpView::DeleteById(chunk.chunk_id),
            IndexOpView::Add(spec_document(chunk)),
            IndexOpView::Commit,
        ],
{
    let chunks = seq![chunk];
    assert(chunks.drop_last() =~= Seq::<ChunkPayloadView>::empty());
    assert(spec_write_ops(chunks.drop_last()) =~= Seq::<IndexOpView>::empty());
    assert(spec_index_ops(chunks) =~= seq![
        IndexOpView::DeleteById(chunk.chunk_id),
        IndexOpView::Add(spec_document(chunk)),
        IndexOpView::Commit,
    ]);
}

proof fn lemma_apply_three(
    store: Seq<LexicalDocView>,
    a: IndexOpView,
    b: IndexOpView,
    c: IndexOpView,
)
    ensures
        apply_ops(store, seq![a, b, c]) == apply_op(apply_op(apply_op(store, a), b), c),
{
    let ops = seq![a, b, c];
    assert(ops.drop_last() =~= seq![a, b]);
    assert(seq![a, b].drop_last() =~= seq![a]);
    assert(seq![a].drop_last() =~= Seq::<IndexOpView>::empty());
    reveal_with_fuel(apply_ops, 4);
}

/// Indexing replaces by chunk id: after a chunk was indexed and then
/// another one with the same id, an index that did not hold the id before
/// has grown by exactly one document, and holds the second chunk's document
/// and not the first's.
pub proof fn lemma_reindex_replaces(
    store: Seq<LexicalDocView>,
    first: ChunkPayloadView,
    second: ChunkPayloadView,
)
    requires
        first.chunk_id == second.chunk_id,
        forall|i: int| 0 <= i < store.len() ==> (#[trigger] store[i]).chunk_id != first.chunk_id,
    ensures
        apply_ops(store, spec_index_ops(seq![first])).len() == store.len() + 1,
        apply_ops(apply_ops(store, spec_index_ops(seq![first])), spec_index_ops(seq![second]))
            == store.push(spec_document(second)),
{
    lemma_index_new_chunk(store, first);
    let once = store.push(spec_document(first));
    let delete = IndexOpView::DeleteById(second.chunk_id);
    let add = IndexOpView::Add(spec_document(second));
    lemma_single_chunk_ops(second);
    lemma_apply_three(once, delete, add, IndexOpView::Commit);
    assert(once.drop_last() =~= store);
    lemma_without_absent_id(store, second.chunk_id);
}

/// Whether a document passes the filters: its source type is the one asked
/// for, and its path begins with the prefix asked for, as far as the filters
/// ask.
pub open spec fn spec_passes_filters(
    source_type: Seq<char>,
    source_path: Seq<char>,
    wanted_type: Option<Seq<char>>,
    wanted_prefix: Option<Seq<char>>,
) -> bool {
    &&& match wanted_type {
        Some(t) => source_type == t,
        None => true,
    }
    &&& match wanted_prefix {
        Some(p) => has_prefix(source_path, p),
        None => true,
    }
}

/// Whether a document with this source type and path passes `filters`.
pub fn passes_filters(source_type: &str, source_path: &str, filters: &SearchFilters) -> (r: bool)
    ensures
        r == spec_passes_filters(
            source_type@,
            source_path@,
            opt_string_view(filters.source_type),
            opt_string_view(filters.path_prefix),
        ),
{
    let type_ok = match &filters.source_type {
        Some(t) => str_eq(source_type, t.as_str()),
        None => true,
    };
    let prefix_ok = match &filters.path_prefix {
        Some(p) => starts_with(source_path, p.as_str()),
        None => true,
    };
    type_ok && prefix_ok
}

/// A document that a search retrieved, with its score.
#[derive(Debug)]
pub struct ScoredDoc {
    pub doc: LexicalDoc,
    pub score: Score,
}

/// The search result that a retrieved document gives: its stored fields,
/// and the first 200 characters of its body as the snippet.
pub open spec fn spec_lexical_hit(doc: LexicalDocView, score: Score) -> SearchResultView {
    SearchResultView {
        chunk_id: doc.chunk_id,
        score: score@,
        title: doc.title,
        source_path: doc.source_path,
        source_type: doc.source_type,
        snippet: spec_truncate(doc.body, SNIPPET_CHARS as nat),
    }
}

/// The results of a lexical search: the retrieved documents that pass the
/// filters, in the order retrieved.
pub open spec fn spec_lexical_hits(
    docs: Seq<ScoredDoc>,
    wanted_type: Option<Seq<char>>,
    wanted_prefix: Option<Seq<char>>,
) -> Seq<SearchResultView>
    decreases docs.len(),
{
    if docs.len() == 0 {
        Seq::empty()
    } else {
        let front = spec_lexical_hits(docs.drop_last(), wanted_type, wanted_prefix);
        let d = docs.last();
        if spec_passes_filters(d.doc.source_type@, d.doc.source_path@, wanted_type, wanted_prefix) {
            front.push(spec_lexical_hit(d.doc@, d.score))
        } else {
            front
        }
    }
}

/// Applies the filters of a search to what the index retrieved and builds
/// the results.
pub fn search(docs: &Vec<ScoredDoc>, filters: &SearchFilters) -> (r: Vec<SearchResult>)
    ensures
        crate::fusion::hit_views(r@) == spec_lexical_hits(
            docs@,
            opt_string_view(filters.source_type),
            opt_string_view(filters.path_prefix),
        ),
{
    let ghost wanted_type = opt_string_view(filters.source_type);
    let ghost wanted_prefix = opt_string_view(filters.path_prefix);
    let mut results: Vec<SearchResult> = Vec::new();
    let mut i: usize = 0;
    assert(docs@.take(0) =~= Seq::empty());
    assert(crate::fusion::hit_views(results@) =~= Seq::empty());
    while i < docs.len()
        invariant
            i <= docs.len(),
            wanted_type == opt_string_view(filters.source_type),
            wanted_prefix == opt_string_view(filters.path_prefix),
            crate::fusion::hit_views(results@) == spec_lexical_hits(
                docs@.take(i as int),
                wanted_type,
                wanted_prefix,
            ),
        decreases docs.len() - i,
    {
        proof {
            assert(docs@.take(i + 1).drop_last() =~= docs@.take(i as int));
        }
        let d = &docs[i];
        if passes_filters(d.doc.source_type.as_str(), d.doc.source_path.as_str(), filters) {
            let hit = SearchResult {
                chunk_id: d.doc.chunk_id.clone(),
                score: d.score,
                title: d.doc.title.clone(),
                source_path: d.doc.source_path.clone(),
                source_type: d.doc.source_type.clone(),
                snippet: truncate_snippet(d.doc.body.as_str(), SNIPPET_CHARS),
            };
            let ghost before = results@;
            results.push(hit);
            assert(crate::fusion::hit_views(results@) =~= crate::fusion::hit_views(before).push(
                hit@,
            ));
        }
        i += 1;
    }
    assert(docs@.take(docs.len() as int) =~= docs@);
    results
}

} // verus!
