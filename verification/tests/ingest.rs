use mcp_hybrid_search::config::AppConfig;
use mcp_hybrid_search::ids::{
    file_stamp, fresh_uuid, point_id, point_id_or,
};
use mcp_hybrid_search::ingest::{
    collect_files, converted_content, file_kind, is_candidate, needs_conversion, payloads_from,
    process_content, reset_confirmed, resolve_sources, source_type_of, state_file_path,
    ConvertError, FileKind, EMBED_BATCH_SIZE, FILE_BATCH_SIZE,
};
use mcp_hybrid_search::ingest_batch::{
    chunk_sub_batches, embedded_chunks, plan_storage, IngestReport,
};
use mcp_hybrid_search::ingest_state::{
    needs_processing, record_processed, select_changed, FileStamp, IngestState,
};
use mcp_hybrid_search::types::ChunkPayload;

fn is_uuid(s: &str) -> bool {
    s.len() == 36
        && s.chars().enumerate().all(|(i, c)| match i {
            8 | 13 | 18 | 23 => c == '-',
            _ => c.is_ascii_digit() || ('a'..='f').contains(&c),
        })
}

fn stamp(path: &str, modified: Option<&str>) -> FileStamp {
    FileStamp { path: path.to_string(), modified: modified.map(|m| m.to_string()) }
}

fn chunk(id: &str, text: &str) -> ChunkPayload {
    ChunkPayload {
        chunk_id: id.to_string(),
        source_path: "/p".to_string(),
        source_type: "md".to_string(),
        title: "t".to_string(),
        chunk_index: 0,
        text: text.to_string(),
        updated_at: "now".to_string(),
    }
}

#[test]
fn file_kinds_by_extension() {
    for ext in ["md", "txt"] {
        assert!(matches!(file_kind(ext), FileKind::Text));
    }
    for ext in ["pdf", "xlsx", "xls", "docx", "pptx", "csv", "html"] {
        assert!(matches!(file_kind(ext), FileKind::Rich));
    }
    for ext in ["", "rs", "MD", "htm", "json"] {
        assert!(matches!(file_kind(ext), FileKind::Unsupported));
    }
}

#[test]
fn candidates_depend_on_the_converter() {
    assert!(is_candidate("/docs/a.md", false));
    assert!(is_candidate("/docs/A.TXT", false));
    assert!(is_candidate("/docs/a.Md", true));
    assert!(!is_candidate("/docs/report.pdf", false));
    assert!(is_candidate("/docs/report.PDF", true));
    assert!(is_candidate("/docs/archive.tar.html", true));
    assert!(!is_candidate("/docs/noext", true));
    assert!(!is_candidate("/docs/.md", true));
    assert!(!is_candidate("/docs/code.rs", true));
}

#[test]
fn collect_files_keeps_candidates_in_order() {
    let paths: Vec<String> =
        ["/a/x.md", "/a/y.pdf", "/a/z.rs", "/b/w.TXT", "/b/v.csv"].iter().map(|s| s.to_string()).collect();
    assert_eq!(collect_files(&paths, false), vec!["/a/x.md", "/b/w.TXT"]);
    assert_eq!(collect_files(&paths, true), vec!["/a/x.md", "/a/y.pdf", "/b/w.TXT", "/b/v.csv"]);
    assert!(collect_files(&vec![], true).is_empty());
}

#[test]
fn source_type_is_lowercase_extension_or_txt() {
    assert_eq!(source_type_of("/x/Report.PDF"), "pdf");
    assert_eq!(source_type_of("/x/notes.md"), "md");
    assert_eq!(source_type_of("/x/README"), "txt");
    assert!(needs_conversion("/x/Report.PDF"));
    assert!(needs_conversion("/x/sheet.xlsx"));
    assert!(!needs_conversion("/x/notes.md"));
    assert!(!needs_conversion("/x/README"));
    assert!(!needs_conversion("/x/code.rs"));
}

#[test]
fn converter_output_is_refused_when_failed_or_blank() {
    assert!(matches!(converted_content(false, "text".to_string()), Err(ConvertError::Failed)));
    assert!(matches!(converted_content(false, "".to_string()), Err(ConvertError::Failed)));
    assert!(matches!(converted_content(true, "".to_string()), Err(ConvertError::EmptyOutput)));
    assert!(matches!(converted_content(true, " \n\t ".to_string()), Err(ConvertError::EmptyOutput)));
    assert_eq!(converted_content(true, " # T\n".to_string()).unwrap(), " # T\n");
}

#[test]
fn state_file_is_beside_the_index_directory() {
    let mut config = AppConfig::default();
    config.tantivy_index_dir = "/data/app/tantivy".to_string();
    assert_eq!(
        std::path::PathBuf::from(state_file_path(&config)),
        std::path::Path::new("/data/app").join("ingest_state.json")
    );
    config.tantivy_index_dir = "/".to_string();
    assert_eq!(
        std::path::PathBuf::from(state_file_path(&config)),
        std::path::Path::new(".").join("ingest_state.json")
    );
    config.tantivy_index_dir = "tantivy".to_string();
    assert_eq!(state_file_path(&config), "ingest_state.json");
}

#[test]
fn payloads_carry_ordinal_and_file_data() {
    let chunks = vec!["one".to_string(), "two".to_string()];
    let ids = vec!["id-0".to_string(), "id-1".to_string()];
    let payloads = payloads_from(&chunks, &ids, "/d/f.md", "md", "Title", "2026-01-01T00:00:00+00:00");
    assert_eq!(payloads.len(), 2);
    for (i, p) in payloads.iter().enumerate() {
        assert_eq!(p.chunk_id, ids[i]);
        assert_eq!(p.chunk_index, i as u32);
        assert_eq!(p.text, chunks[i]);
        assert_eq!(p.source_path, "/d/f.md");
        assert_eq!(p.source_type, "md");
        assert_eq!(p.title, "Title");
        assert_eq!(p.updated_at, "2026-01-01T00:00:00+00:00");
    }
    assert!(payloads_from(&vec![], &vec![], "/d/f.md", "md", "T", "n").is_empty());
}

#[test]
fn process_content_chunks_titles_and_stamps() {
    let mut config = AppConfig::default();
    config.chunk_size = 10;
    config.chunk_overlap = 2;
    let content = "# Heading\n\nabcdefghijklmnopqrstuvwxyz";
    let payloads = process_content(&config, "/docs/Notes.MD", content);
    let expected = mcp_hybrid_search::chunker::chunk_text(content, 10, 2);
    assert_eq!(payloads.len(), expected.len());
    assert!(payloads.len() >= 4);
    let mut ids = std::collections::HashSet::new();
    for (i, p) in payloads.iter().enumerate() {
        assert_eq!(p.text, expected[i]);
        assert_eq!(p.chunk_index, i as u32);
        assert_eq!(p.source_path, "/docs/Notes.MD");
        assert_eq!(p.source_type, "md");
        assert_eq!(p.title, "Heading");
        assert!(is_uuid(&p.chunk_id));
        assert!(ids.insert(p.chunk_id.clone()));
        assert_eq!(p.updated_at, payloads[0].updated_at);
    }
    assert!(chrono::DateTime::parse_from_rfc3339(&payloads[0].updated_at).is_ok());
}

#[test]
fn process_content_falls_back_to_the_file_name() {
    let config = AppConfig::default();
    let payloads = process_content(&config, "/docs/blank.txt", " \n x");
    assert_eq!(payloads.len(), 1);
    assert_eq!(payloads[0].title, "x");
    let blank = process_content(&config, "/docs/blank.txt", " \n ");
    assert_eq!(blank.len(), 1);
    assert_eq!(blank[0].title, "blank.txt");
    assert_eq!(blank[0].text, " \n ");
    assert!(process_content(&config, "/docs/empty.txt", "").is_empty());
}

#[test]
fn fresh_ids_are_hyphenated_uuids() {
    let a = fresh_uuid();
    let b = fresh_uuid();
    assert!(is_uuid(&a) && is_uuid(&b));
    assert_ne!(a, b);
    assert!(is_uuid(&fresh_uuid()));
    assert_eq!(uuid::Uuid::parse_str(&a).unwrap().get_version_num(), 4);
}

#[test]
fn point_id_is_the_chunk_id_when_it_is_a_uuid() {
    assert_eq!(
        point_id("550e8400-e29b-41d4-a716-446655440000"),
        "550e8400-e29b-41d4-a716-446655440000"
    );
    assert_eq!(
        point_id("550E8400E29B41D4A716446655440000"),
        "550e8400-e29b-41d4-a716-446655440000"
    );
    let other = point_id("not-a-uuid");
    assert!(is_uuid(&other));
    assert_ne!(other, "not-a-uuid");
    assert_eq!(point_id_or("nope", "fresh".to_string()), "fresh");
    assert_eq!(
        point_id_or("urn:uuid:550e8400-e29b-41d4-a716-446655440000", "fresh".to_string()),
        "550e8400-e29b-41d4-a716-446655440000"
    );
}

#[test]
fn file_stamp_is_rfc3339_in_utc() {
    assert_eq!(file_stamp(false, 1, 500_000_000).unwrap(), "1970-01-01T00:00:01.500+00:00");
    assert!(file_stamp(false, i64::MAX as u64 - 1, 0).is_none());
}

#[test]
fn state_records_and_replaces() {
    let mut state = IngestState::new();
    assert!(state.entries().is_empty());
    assert!(state.get("/a").is_none());
    state.insert("/a", "t1");
    state.insert("/b", "t2");
    assert_eq!(state.get("/a").map(|s| s.as_str()), Some("t1"));
    state.insert("/a", "t3");
    assert_eq!(state.entries().len(), 2);
    assert_eq!(state.get("/a").map(|s| s.as_str()), Some("t3"));
    assert_eq!(state.get("/b").map(|s| s.as_str()), Some("t2"));
    let copy = IngestState::from_entries(state.entries());
    assert_eq!(copy.get("/a").map(|s| s.as_str()), Some("t3"));
    let twice = IngestState::from_entries(&vec![
        ("/x".to_string(), "old".to_string()),
        ("/x".to_string(), "new".to_string()),
    ]);
    assert_eq!(twice.entries().len(), 1);
    assert_eq!(twice.get("/x").map(|s| s.as_str()), Some("new"));
}

#[test]
fn unchanged_files_are_skipped() {
    let mut state = IngestState::new();
    state.insert("/a", "t1");
    state.insert("/gone", "");
    assert!(!needs_processing(&state, &stamp("/a", Some("t1"))));
    assert!(needs_processing(&state, &stamp("/a", Some("t2"))));
    assert!(needs_processing(&state, &stamp("/a", None)));
    assert!(needs_processing(&state, &stamp("/new", Some("t1"))));
    assert!(needs_processing(&state, &stamp("/new", None)));
    assert!(!needs_processing(&state, &stamp("/gone", None)));
}

#[test]
fn rerun_on_unchanged_corpus_has_no_work() {
    let files = vec![stamp("/a", Some("t1")), stamp("/b", Some("t2")), stamp("/c", Some("t3"))];
    let mut state = IngestState::new();
    assert_eq!(select_changed(&state, &files), vec!["/a", "/b", "/c"]);
    record_processed(&mut state, &files);
    assert!(select_changed(&state, &files).is_empty());
}

#[test]
fn one_touched_file_is_the_only_work() {
    let files = vec![stamp("/a", Some("t1")), stamp("/b", Some("t2")), stamp("/c", Some("t3"))];
    let mut state = IngestState::new();
    record_processed(&mut state, &files);
    let touched = vec![stamp("/a", Some("t1")), stamp("/b", Some("t9")), stamp("/c", Some("t3"))];
    assert_eq!(select_changed(&state, &touched), vec!["/b"]);
}

#[test]
fn files_without_time_are_not_recorded() {
    let files = vec![stamp("/a", None), stamp("/b", Some("t"))];
    let mut state = IngestState::new();
    record_processed(&mut state, &files);
    assert_eq!(state.entries().len(), 1);
    assert_eq!(select_changed(&state, &files), vec!["/a"]);
}

#[test]
fn sub_batches_split_in_order() {
    let chunks: Vec<ChunkPayload> =
        (0..45).map(|i| chunk(&format!("c{}", i), &format!("text {}", i))).collect();
    let batches = chunk_sub_batches(&chunks, EMBED_BATCH_SIZE);
    assert_eq!(EMBED_BATCH_SIZE, 20);
    assert_eq!(FILE_BATCH_SIZE, 10);
    let lens: Vec<usize> = batches.iter().map(|(s, _)| s.len()).collect();
    assert_eq!(lens, vec![20, 20, 5]);
    let mut n = 0;
    for (sub, texts) in &batches {
        assert_eq!(sub.len(), texts.len());
        for (c, t) in sub.iter().zip(texts.iter()) {
            assert_eq!(c.chunk_id, format!("c{}", n));
            assert_eq!(t, &format!("text {}", n));
            n += 1;
        }
    }
    assert_eq!(n, 45);
    assert!(chunk_sub_batches(&[], 20).is_empty());
    assert_eq!(chunk_sub_batches(&chunks[..40], 20).len(), 2);
    assert_eq!(chunk_sub_batches(&chunks[..3], 1).len(), 3);
}

#[test]
fn failed_sub_batches_are_left_out_of_the_vector_store() {
    let chunks: Vec<ChunkPayload> = (0..5).map(|i| chunk(&format!("c{}", i), "t")).collect();
    let kept = embedded_chunks(&chunks, 2, &vec![true, false, true]);
    let ids: Vec<&str> = kept.iter().map(|c| c.chunk_id.as_str()).collect();
    assert_eq!(ids, vec!["c0", "c1", "c4"]);
    assert!(embedded_chunks(&chunks, 2, &vec![false, false, false]).is_empty());
    assert_eq!(embedded_chunks(&chunks, 2, &vec![true]).len(), 2);
    assert_eq!(embedded_chunks(&chunks, 10, &vec![true]).len(), 5);
}

#[test]
fn lexical_store_gets_the_batch_even_without_vectors() {
    let none = plan_storage(0, 0);
    assert!(!none.upsert && !none.index);
    let unembedded = plan_storage(7, 0);
    assert!(!unembedded.upsert && unembedded.index);
    let both = plan_storage(7, 5);
    assert!(both.upsert && both.index);
}

#[test]
fn report_counts_files_chunks_and_errors() {
    let mut report = IngestReport::new();
    report.file_processed();
    report.file_processed();
    report.failure();
    report.batch_stored(12, false, true);
    report.batch_stored(3, true, true);
    assert_eq!(report.files_processed, 2);
    assert_eq!(report.chunks_indexed, 15);
    assert_eq!(report.errors, 4);
    report.batch_stored(usize::MAX, false, false);
    assert_eq!(report.chunks_indexed, usize::MAX);
}

#[test]
fn sources_default_to_the_source_directory() {
    let given = vec!["/a".to_string(), "/b".to_string()];
    assert_eq!(resolve_sources(given.clone()), given);
    let defaults = resolve_sources(vec![]);
    assert_eq!(defaults, vec![AppConfig::default_source_dir()]);
}

#[test]
fn reset_needs_force_or_yes() {
    assert!(reset_confirmed(true, "n"));
    assert!(reset_confirmed(false, "y\n"));
    assert!(reset_confirmed(false, "  Y \r\n"));
    assert!(!reset_confirmed(false, "yes"));
    assert!(!reset_confirmed(false, ""));
    assert!(!reset_confirmed(false, "n"));
}

#[test]
fn file_stamp_handles_both_sides_of_the_epoch() {
    assert_eq!(file_stamp(false, 0, 0).unwrap(), "1970-01-01T00:00:00+00:00");
    assert_eq!(file_stamp(false, 1431648000, 0).unwrap(), "2015-05-15T00:00:00+00:00");
    assert_eq!(file_stamp(true, 1, 0).unwrap(), "1969-12-31T23:59:59+00:00");
    assert_eq!(file_stamp(true, 0, 250_000_000).unwrap(), "1969-12-31T23:59:59.750+00:00");
    assert_eq!(file_stamp(true, 1, 500_000_000).unwrap(), "1969-12-31T23:59:58.500+00:00");
    assert!(file_stamp(false, u64::MAX, 0).is_none());
    assert!(file_stamp(true, u64::MAX, 1).is_none());
    assert!(file_stamp(false, 5, 1_000_000_000).is_none());
    let t = std::time::UNIX_EPOCH + std::time::Duration::new(1_700_000_000, 123_000_000);
    let expected: chrono::DateTime<chrono::Utc> = t.into();
    assert_eq!(file_stamp(false, 1_700_000_000, 123_000_000).unwrap(), expected.to_rfc3339());
    let early = std::time::UNIX_EPOCH - std::time::Duration::new(10, 1);
    let expected: chrono::DateTime<chrono::Utc> = early.into();
    assert_eq!(file_stamp(true, 10, 1).unwrap(), expected.to_rfc3339());
}
