use mcp_hybrid_search::lexical::{
    build_schema, dictionary_uri, document_for, index_chunks, passes_filters,
    resolve_tokenizer_name, search, select_tokenizer, tokenizer_message, FieldIndexing, IndexOp,
    Language, LexicalDoc, LinkedSegmenters, ScoredDoc, Tokenizer, TokenizerError,
};
use mcp_hybrid_search::ingest_batch::batch_end_after;
use mcp_hybrid_search::numbers::{i64_to_string, parse_u32};
use mcp_hybrid_search::types::{ChunkPayload, Score, SearchFilters};
use mcp_hybrid_search::vector_store::{
    chunk_from_payload, detail_from_payload, ensure_collection, export_page,
    get_chunk, get_collection_info, get_payload_str, hit_from_payload, search as vector_hits,
    source_type_condition, upsert_chunks, ExportedChunk, Payload, PayloadValue, ScoredPoint,
    ScrollPage, ScrolledPoint,
    SCROLL_PAGE_SIZE, UPSERT_BATCH_SIZE,
};

fn payload(index: PayloadValue, text: &str) -> Payload {
    Payload {
        members: vec![
            ("chunk_id".to_string(), PayloadValue::Text("id-1".to_string())),
            ("source_path".to_string(), PayloadValue::Text("/d/f.md".to_string())),
            ("source_type".to_string(), PayloadValue::Text("md".to_string())),
            ("title".to_string(), PayloadValue::Text("T".to_string())),
            ("chunk_index".to_string(), index),
            ("text".to_string(), PayloadValue::Text(text.to_string())),
            ("updated_at".to_string(), PayloadValue::Text("2026-01-01T00:00:00Z".to_string())),
        ],
    }
}

fn chunk(id: &str, text: &str) -> ChunkPayload {
    ChunkPayload {
        chunk_id: id.to_string(),
        source_path: "/p/a.md".to_string(),
        source_type: "md".to_string(),
        title: "t".to_string(),
        chunk_index: 3,
        text: text.to_string(),
        updated_at: "now".to_string(),
    }
}

fn doc(id: &str, path: &str, kind: &str, body: &str) -> ScoredDoc {
    ScoredDoc {
        doc: LexicalDoc {
            chunk_id: id.to_string(),
            source_path: path.to_string(),
            title: format!("title {}", id),
            body: body.to_string(),
            source_type: kind.to_string(),
        },
        score: Score { num: 3, den: 2 },
    }
}

#[test]
fn test_chunk_payload_serialization() {
    let payload = ChunkPayload {
        chunk_id: "test-id".to_string(),
        source_path: "/path/to/file.md".to_string(),
        source_type: "md".to_string(),
        title: "Test".to_string(),
        chunk_index: 0,
        text: "content".to_string(),
        updated_at: "2026-01-01T00:00:00Z".to_string(),
    };
    let mut map = serde_json::Map::new();
    map.insert("chunk_id".to_string(), serde_json::Value::from(payload.chunk_id.clone()));
    map.insert("source_path".to_string(), serde_json::Value::from(payload.source_path.clone()));
    map.insert("source_type".to_string(), serde_json::Value::from(payload.source_type.clone()));
    map.insert("title".to_string(), serde_json::Value::from(payload.title.clone()));
    map.insert("chunk_index".to_string(), serde_json::Value::from(payload.chunk_index));
    map.insert("text".to_string(), serde_json::Value::from(payload.text.clone()));
    map.insert("updated_at".to_string(), serde_json::Value::from(payload.updated_at.clone()));
    let json = serde_json::to_string(&serde_json::Value::Object(map)).unwrap();
    let parsed: serde_json::Value = serde_json::from_str(&json).unwrap();
    let members = parsed
        .as_object()
        .unwrap()
        .iter()
        .map(|(k, v)| {
            let value = match v {
                serde_json::Value::String(s) => PayloadValue::Text(s.clone()),
                serde_json::Value::Number(n) => PayloadValue::Integer(n.as_i64().unwrap()),
                _ => PayloadValue::Other,
            };
            (k.clone(), value)
        })
        .collect();
    let deserialized: ChunkPayload = chunk_from_payload(&Payload { members });
    assert_eq!(deserialized.chunk_id, "test-id");
    assert_eq!(deserialized.chunk_index, 0);
}

#[test]
fn payload_values_become_text() {
    let p = Payload {
        members: vec![
            ("s".to_string(), PayloadValue::Text("str".to_string())),
            ("i".to_string(), PayloadValue::Integer(-42)),
            ("d".to_string(), PayloadValue::Double("1.5".to_string())),
            ("o".to_string(), PayloadValue::Other),
            ("s".to_string(), PayloadValue::Text("later".to_string())),
        ],
    };
    assert_eq!(get_payload_str(&p, "s"), "str");
    assert_eq!(get_payload_str(&p, "i"), "-42");
    assert_eq!(get_payload_str(&p, "d"), "1.5");
    assert_eq!(get_payload_str(&p, "o"), "");
    assert_eq!(get_payload_str(&p, "missing"), "");
}

#[test]
fn integers_print_as_std_prints_them() {
    for i in [0i64, 1, 9, 10, 11, 99, 100, 12345, -1, -10, i64::MAX, i64::MIN, i64::MIN + 1] {
        assert_eq!(i64_to_string(i), i.to_string());
    }
}

#[test]
fn u32_parses_as_std_parses_it() {
    for s in [
        "0", "7", "007", "+5", "4294967295", "4294967296", "99999999999999999999", "", "+", "-1",
        "1 ", " 1", "1a", "a", "++1", "１", "1_000", "+0",
    ] {
        assert_eq!(parse_u32(s), s.parse::<u32>().ok(), "{:?}", s);
    }
}

#[test]
fn chunk_is_rebuilt_from_payload() {
    let c = chunk_from_payload(&payload(PayloadValue::Integer(7), "body"));
    assert_eq!(c.chunk_id, "id-1");
    assert_eq!(c.source_path, "/d/f.md");
    assert_eq!(c.source_type, "md");
    assert_eq!(c.title, "T");
    assert_eq!(c.chunk_index, 7);
    assert_eq!(c.text, "body");
    assert_eq!(c.updated_at, "2026-01-01T00:00:00Z");
    assert_eq!(chunk_from_payload(&payload(PayloadValue::Integer(-1), "b")).chunk_index, 0);
    assert_eq!(chunk_from_payload(&payload(PayloadValue::Other, "b")).chunk_index, 0);
    assert_eq!(chunk_from_payload(&payload(PayloadValue::Text("12".to_string()), "b")).chunk_index, 12);
    assert_eq!(chunk_from_payload(&payload(PayloadValue::Double("3".to_string()), "b")).chunk_index, 3);
    assert_eq!(chunk_from_payload(&payload(PayloadValue::Integer(4294967296), "b")).chunk_index, 0);
    let empty = chunk_from_payload(&Payload { members: vec![] });
    assert_eq!(empty.chunk_id, "");
    assert_eq!(empty.chunk_index, 0);
}

#[test]
fn detail_and_lookup_use_the_first_point() {
    let d = detail_from_payload(&payload(PayloadValue::Integer(2), "full text"));
    assert_eq!(d.chunk_id, "id-1");
    assert_eq!(d.text, "full text");
    assert_eq!(d.metadata.title, "T");
    assert_eq!(d.metadata.source_path, "/d/f.md");
    assert_eq!(d.metadata.source_type, "md");
    assert_eq!(d.metadata.chunk_index, 2);
    assert!(get_chunk(&vec![]).is_none());
    let found = get_chunk(&vec![
        payload(PayloadValue::Integer(1), "first"),
        payload(PayloadValue::Integer(2), "second"),
    ])
    .unwrap();
    assert_eq!(found.text, "first");
}

#[test]
fn hit_snippet_is_cut_at_200() {
    let long = "x".repeat(250);
    let hit = hit_from_payload(&payload(PayloadValue::Integer(0), &long), Score { num: 9, den: 10 });
    assert_eq!(hit.chunk_id, "id-1");
    assert_eq!(hit.title, "T");
    assert_eq!(hit.source_type, "md");
    assert_eq!(hit.snippet, format!("{}...", "x".repeat(200)));
    assert_eq!((hit.score.num, hit.score.den), (9, 10));
    let short = hit_from_payload(&payload(PayloadValue::Integer(0), "short"), Score::zero());
    assert_eq!(short.snippet, "short");
    assert_eq!((short.score.num, short.score.den), (0, 1));
}

#[test]
fn vector_search_filters_by_source_type_only() {
    let filters =
        SearchFilters { source_type: Some("pdf".to_string()), path_prefix: Some("/x".to_string()) };
    assert_eq!(source_type_condition(&filters).as_deref(), Some("pdf"));
    assert!(source_type_condition(&SearchFilters::default()).is_none());
}

#[test]
fn get_collection_info_defaults_to_zero() {
    assert_eq!(get_collection_info(None), 0);
    assert_eq!(get_collection_info(Some(None)), 0);
    assert_eq!(get_collection_info(Some(Some(17))), 17);
}

#[test]
fn collection_is_created_only_when_absent() {
    assert!(ensure_collection(true, 1536).is_none());
    let spec = ensure_collection(false, 1536).unwrap();
    assert_eq!(spec.dimension, 1536);
}

#[test]
fn points_pair_chunks_with_vectors() {
    let id = "550e8400-e29b-41d4-a716-446655440000";
    let chunks = vec![chunk(id, "a"), chunk("plain", "b"), chunk("extra", "c")];
    let vectors = vec![vec![1u32, 2], vec![3u32]];
    let batches = upsert_chunks(&chunks, &vectors);
    assert_eq!(batches.len(), 1);
    let points = &batches[0];
    assert_eq!(points.len(), 2);
    assert_eq!(points[0].id, id);
    assert_eq!(points[0].vector, vec![1, 2]);
    assert_eq!(points[0].payload.chunk_id, id);
    assert_eq!(points[0].payload.text, "a");
    assert_eq!(points[0].payload.chunk_index, 3);
    assert_eq!(points[1].payload.chunk_id, "plain");
    assert!(uuid::Uuid::parse_str(&points[1].id).is_ok());
    assert_eq!(points[1].vector, vec![3]);
    assert!(upsert_chunks(&chunks, &vec![]).is_empty());
}

#[test]
fn points_are_written_in_batches_of_100() {
    let chunks: Vec<ChunkPayload> = (0..250).map(|i| chunk(&format!("c{}", i), "t")).collect();
    let vectors: Vec<Vec<u32>> = (0..250).map(|i| vec![i as u32]).collect();
    let batches = upsert_chunks(&chunks, &vectors);
    let lens: Vec<usize> = batches.iter().map(|b| b.len()).collect();
    assert_eq!(lens, vec![100, 100, 50]);
    assert_eq!(batches[1][0].payload.chunk_id, "c100");
    assert_eq!(batches[2][49].payload.chunk_id, "c249");
    assert_eq!(batches[2][49].vector, vec![249]);
    let exact = upsert_chunks(&chunks[..200], &vectors);
    assert_eq!(exact.len(), 2);
    assert_eq!(exact[1].len(), 100);
}

#[test]
fn vector_hits_keep_the_order_of_the_store() {
    let points = vec![
        ScoredPoint { payload: payload(PayloadValue::Integer(0), "first"), score: Score { num: 9, den: 10 } },
        ScoredPoint { payload: payload(PayloadValue::Integer(1), "second"), score: Score { num: 1, den: 2 } },
    ];
    let hits = vector_hits(&points);
    assert_eq!(hits.len(), 2);
    assert_eq!(hits[0].snippet, "first");
    assert_eq!(hits[1].snippet, "second");
    assert_eq!((hits[1].score.num, hits[1].score.den), (1, 2));
    assert!(vector_hits(&vec![]).is_empty());
}

#[test]
fn batches_end_at_the_batch_size_or_the_total() {
    assert_eq!(UPSERT_BATCH_SIZE, 100);
    assert_eq!(SCROLL_PAGE_SIZE, 100);
    assert_eq!(batch_end_after(250, 0, 100), 100);
    assert_eq!(batch_end_after(250, 100, 100), 200);
    assert_eq!(batch_end_after(250, 200, 100), 250);
    assert_eq!(batch_end_after(250, 250, 100), 250);
    assert_eq!(batch_end_after(5, 0, usize::MAX), 5);
}

#[test]
fn export_appends_pages_until_there_is_no_offset() {
    let mut all: Vec<ExportedChunk> = Vec::new();
    let page1 = ScrollPage {
        points: vec![
            ScrolledPoint {
                payload: payload(PayloadValue::Integer(0), "a"),
                vector: Some(vec![1065353216]),
            },
            ScrolledPoint { payload: payload(PayloadValue::Integer(1), "b"), vector: None },
        ],
        next_offset: Some("next".to_string()),
    };
    assert_eq!(export_page(&mut all, &page1).as_deref(), Some("next"));
    assert_eq!(all.len(), 2);
    assert_eq!(all[0].payload.text, "a");
    assert_eq!(all[0].embedding, vec![1065353216]);
    assert_eq!(f32::from_bits(all[0].embedding[0]), 1.0);
    assert_eq!(all[1].payload.chunk_index, 1);
    assert!(all[1].embedding.is_empty());
    let page2 = ScrollPage {
        points: vec![ScrolledPoint {
            payload: payload(PayloadValue::Integer(2), "c"),
            vector: Some(vec![]),
        }],
        next_offset: None,
    };
    assert!(export_page(&mut all, &page2).is_none());
    assert_eq!(all.len(), 3);
    let empty = ScrollPage { points: vec![], next_offset: Some("more".to_string()) };
    assert!(export_page(&mut all, &empty).is_none());
    assert_eq!(all.len(), 3);
}

#[test]
fn tokenizer_is_chosen_by_name_and_build() {
    let none = LinkedSegmenters { japanese: false, korean: false, chinese: false };
    let ja = LinkedSegmenters { japanese: true, korean: false, chinese: false };
    assert!(matches!(select_tokenizer("default", none), Ok(Tokenizer::Builtin)));
    assert!(matches!(select_tokenizer("", none), Ok(Tokenizer::Builtin)));
    assert!(matches!(
        select_tokenizer("japanese", ja),
        Ok(Tokenizer::Segmenter(Language::Japanese))
    ));
    assert!(matches!(
        select_tokenizer("japanese", none),
        Err(TokenizerError::NotLinked(Language::Japanese))
    ));
    assert!(matches!(
        select_tokenizer("korean", ja),
        Err(TokenizerError::NotLinked(Language::Korean))
    ));
    assert!(matches!(
        select_tokenizer("chinese", LinkedSegmenters { japanese: false, korean: false, chinese: true }),
        Ok(Tokenizer::Segmenter(Language::Chinese))
    ));
    assert!(matches!(select_tokenizer("klingon", ja), Err(TokenizerError::Unknown)));
    assert!(matches!(select_tokenizer("Default", ja), Err(TokenizerError::Unknown)));
}

#[test]
fn tokenizer_name_and_dictionaries() {
    assert_eq!(resolve_tokenizer_name("default"), "default");
    assert_eq!(resolve_tokenizer_name(""), "default");
    assert_eq!(resolve_tokenizer_name("japanese"), "custom_tokenizer");
    assert_eq!(resolve_tokenizer_name("anything"), "custom_tokenizer");
    assert_eq!(dictionary_uri(Language::Japanese), "embedded://ipadic");
    assert_eq!(dictionary_uri(Language::Korean), "embedded://ko-dic");
    assert_eq!(dictionary_uri(Language::Chinese), "embedded://cc-cedict");
}

#[test]
fn schema_has_five_fields() {
    let fields = build_schema();
    let names: Vec<&str> = fields.iter().map(|f| f.name.as_str()).collect();
    assert_eq!(names, vec!["chunk_id", "source_path", "title", "body", "source_type"]);
    let tokenized: Vec<bool> =
        fields.iter().map(|f| matches!(f.indexing, FieldIndexing::Tokenized)).collect();
    assert_eq!(tokenized, vec![false, false, true, true, false]);
}

#[test]
fn indexing_deletes_then_adds_and_commits_once() {
    let ops = index_chunks(&[chunk("a", "one"), chunk("b", "two")]);
    assert_eq!(ops.len(), 5);
    assert!(matches!(&ops[0], IndexOp::DeleteById(id) if id == "a"));
    assert!(matches!(&ops[1], IndexOp::Add(d) if d.chunk_id == "a" && d.body == "one"));
    assert!(matches!(&ops[2], IndexOp::DeleteById(id) if id == "b"));
    assert!(matches!(&ops[3], IndexOp::Add(d) if d.chunk_id == "b" && d.body == "two"));
    assert!(matches!(&ops[4], IndexOp::Commit));
    let none = index_chunks(&[]);
    assert_eq!(none.len(), 1);
    assert!(matches!(&none[0], IndexOp::Commit));
    let d = document_for(&chunk("x", "body text"));
    assert_eq!(d.title, "t");
    assert_eq!(d.source_path, "/p/a.md");
    assert_eq!(d.source_type, "md");
}

#[test]
fn reindexing_a_chunk_replaces_its_document() {
    let mut store: Vec<LexicalDoc> = Vec::new();
    for batch in [vec![chunk("id", "old text")], vec![chunk("id", "new text")]] {
        for op in index_chunks(&batch) {
            match op {
                IndexOp::DeleteById(id) => store.retain(|d| d.chunk_id != id),
                IndexOp::Add(d) => store.push(d),
                IndexOp::Commit => {}
            }
        }
    }
    assert_eq!(store.len(), 1);
    assert_eq!(store[0].body, "new text");
}

#[test]
fn filters_apply_to_type_and_path_prefix() {
    let none = SearchFilters::default();
    assert!(passes_filters("md", "/a/b.md", &none));
    let by_type = SearchFilters { source_type: Some("md".to_string()), path_prefix: None };
    assert!(passes_filters("md", "/a/b.md", &by_type));
    assert!(!passes_filters("txt", "/a/b.txt", &by_type));
    assert!(!passes_filters("MD", "/a/b.md", &by_type));
    let by_prefix = SearchFilters { source_type: None, path_prefix: Some("/a/".to_string()) };
    assert!(passes_filters("md", "/a/b.md", &by_prefix));
    assert!(!passes_filters("md", "/x/a/b.md", &by_prefix));
    assert!(!passes_filters("md", "/a", &by_prefix));
    let both =
        SearchFilters { source_type: Some("md".to_string()), path_prefix: Some("/a".to_string()) };
    assert!(passes_filters("md", "/a/b.md", &both));
    assert!(!passes_filters("pdf", "/a/b.pdf", &both));
    assert!(!passes_filters("md", "/b/b.md", &both));
}

#[test]
fn lexical_search_filters_and_builds_snippets() {
    let docs = vec![
        doc("1", "/a/one.md", "md", "first body"),
        doc("2", "/b/two.md", "md", &"y".repeat(300)),
        doc("3", "/a/three.pdf", "pdf", "third"),
    ];
    let all = search(&docs, &SearchFilters::default());
    assert_eq!(all.len(), 3);
    assert_eq!(all[0].chunk_id, "1");
    assert_eq!(all[0].title, "title 1");
    assert_eq!(all[0].snippet, "first body");
    assert_eq!((all[0].score.num, all[0].score.den), (3, 2));
    assert_eq!(all[1].snippet.chars().count(), 203);
    let md_in_a =
        SearchFilters { source_type: Some("md".to_string()), path_prefix: Some("/a/".to_string()) };
    let hits = search(&docs, &md_in_a);
    assert_eq!(hits.len(), 1);
    assert_eq!(hits[0].source_path, "/a/one.md");
    let in_a = SearchFilters { source_type: None, path_prefix: Some("/a/".to_string()) };
    let ids: Vec<String> = search(&docs, &in_a).into_iter().map(|h| h.chunk_id).collect();
    assert_eq!(ids, vec!["1", "3"]);
}

#[test]
fn tokenizer_errors_have_their_messages() {
    let none = LinkedSegmenters { japanese: false, korean: false, chinese: false };
    let ko = LinkedSegmenters { japanese: false, korean: true, chinese: false };
    assert_eq!(
        tokenizer_message(TokenizerError::Unknown, "klingon", none),
        "Unknown tokenizer 'klingon'. Supported values: default, japanese, korean, chinese"
    );
    assert_eq!(
        tokenizer_message(TokenizerError::NotLinked(Language::Japanese), "japanese", none),
        "tokenizer = \"japanese\" requires a language feature to be enabled at build time. Available features: ja, ko, zh. Example: cargo build --features ja"
    );
    assert_eq!(
        tokenizer_message(TokenizerError::NotLinked(Language::Chinese), "chinese", ko),
        "tokenizer = \"chinese\" requires the 'zh' feature. Build with: cargo build --features zh"
    );
}
