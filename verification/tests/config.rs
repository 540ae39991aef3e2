use mcp_hybrid_search::config::{
    default_chunk_overlap, default_chunk_size, default_collection_name,
    default_embedding_dimension, default_embedding_model, default_embedding_provider,
    default_listen_port, default_qdrant_url, default_tantivy_index_dir, default_tokenizer,
    AppConfig, PartialConfig,
};

fn partial_from_toml(text: &str) -> PartialConfig {
    let table: toml::Table = text.parse().unwrap();
    let text_of = |key: &str| table.get(key).and_then(|v| v.as_str()).map(|s| s.to_string());
    let number_of =
        |key: &str| table.get(key).and_then(|v| v.as_integer()).map(|n| n as usize);
    PartialConfig {
        qdrant_url: text_of("qdrant_url"),
        collection_name: text_of("collection_name"),
        tantivy_index_dir: text_of("tantivy_index_dir"),
        chunk_size: number_of("chunk_size"),
        chunk_overlap: number_of("chunk_overlap"),
        listen_port: table.get("listen_port").and_then(|v| v.as_integer()).map(|n| n as u16),
        embedding_provider: text_of("embedding_provider"),
        embedding_model: text_of("embedding_model"),
        embedding_dimension: number_of("embedding_dimension"),
        tokenizer: text_of("tokenizer"),
    }
}

#[test]
fn test_default_config() {
    let config = AppConfig::default();
    assert_eq!(config.qdrant_url, "http://localhost:6334");
    assert_eq!(config.collection_name, "docs");
    assert_eq!(config.chunk_size, 1000);
    assert_eq!(config.chunk_overlap, 200);
    assert_eq!(config.listen_port, 7070);
    assert_eq!(config.embedding_model, "text-embedding-3-small");
    assert_eq!(config.embedding_dimension, 1536);
}

#[test]
fn test_parse_partial_toml() {
    let toml_str = r#"
            listen_port = 8080
            chunk_size = 500
        "#;
    let config: AppConfig = partial_from_toml(toml_str).resolve();
    assert_eq!(config.listen_port, 8080);
    assert_eq!(config.chunk_size, 500);
    assert_eq!(config.collection_name, "docs");
    assert_eq!(config.embedding_dimension, 1536);
}

#[test]
fn test_default_source_dir() {
    let dir = AppConfig::default_source_dir();
    let dir_str = dir.as_str();
    assert!(dir_str.contains("mcp-hybrid-search"));
    assert!(dir_str.contains(".local/share"));
}

#[test]
fn test_load_nonexistent_returns_default() {
    let config = AppConfig::load(None);
    assert_eq!(config.listen_port, 7070);
}

#[test]
fn load_without_file_gives_defaults() {
    let config = AppConfig::load(None);
    assert_eq!(config.listen_port, 7070);
    assert_eq!(config.embedding_provider, "openai");
    assert_eq!(config.tokenizer, "default");
    assert!(config.tantivy_index_dir.ends_with("tantivy"));
    assert!(config.tantivy_index_dir.contains(".mcp-hybrid-search"));
}

#[test]
fn load_with_full_file_takes_every_setting() {
    let partial = PartialConfig {
        qdrant_url: Some("http://q:1".to_string()),
        collection_name: Some("c".to_string()),
        tantivy_index_dir: Some("/idx".to_string()),
        chunk_size: Some(7),
        chunk_overlap: Some(3),
        listen_port: Some(1),
        embedding_provider: Some("gemini".to_string()),
        embedding_model: Some("m".to_string()),
        embedding_dimension: Some(8),
        tokenizer: Some("japanese".to_string()),
    };
    let config = AppConfig::load(Some(partial));
    assert_eq!(config.qdrant_url, "http://q:1");
    assert_eq!(config.collection_name, "c");
    assert_eq!(config.tantivy_index_dir, "/idx");
    assert_eq!(config.chunk_size, 7);
    assert_eq!(config.chunk_overlap, 3);
    assert_eq!(config.listen_port, 1);
    assert_eq!(config.embedding_provider, "gemini");
    assert_eq!(config.embedding_model, "m");
    assert_eq!(config.embedding_dimension, 8);
    assert_eq!(config.tokenizer, "japanese");
}

#[test]
fn each_default_has_its_value() {
    assert_eq!(default_qdrant_url(), "http://localhost:6334");
    assert_eq!(default_collection_name(), "docs");
    assert_eq!(default_chunk_size(), 1000);
    assert_eq!(default_chunk_overlap(), 200);
    assert_eq!(default_listen_port(), 7070);
    assert_eq!(default_embedding_provider(), "openai");
    assert_eq!(default_embedding_model(), "text-embedding-3-small");
    assert_eq!(default_embedding_dimension(), 1536);
    assert_eq!(default_tokenizer(), "default");
    let dir = default_tantivy_index_dir();
    assert!(std::path::Path::new(&dir).ends_with(".mcp-hybrid-search/tantivy"));
}

#[test]
fn config_path_prefers_explicit_then_cwd_then_home() {
    assert_eq!(AppConfig::config_path(Some("/x/c.toml"), "/work", true), "/x/c.toml");
    assert_eq!(
        std::path::PathBuf::from(AppConfig::config_path(None, "/work", true)),
        std::path::Path::new("/work").join("config.toml")
    );
    let home = AppConfig::config_path(None, "/work", false);
    assert!(std::path::Path::new(&home).ends_with(".mcp-hybrid-search/config.toml"));
    assert!(!home.starts_with("/work"));
}

#[test]
fn with_project_suffixes_the_collection() {
    let config = AppConfig::default().with_project(Some("alpha"));
    assert_eq!(config.collection_name, "docs_alpha");
    assert_eq!(config.listen_port, 7070);
    let same = AppConfig::default().with_project(None);
    assert_eq!(same.collection_name, "docs");
}

#[test]
fn clone_keeps_every_setting() {
    let config = AppConfig::default().with_project(Some("p"));
    let copy = config.clone();
    assert_eq!(copy.collection_name, config.collection_name);
    assert_eq!(copy.tantivy_index_dir, config.tantivy_index_dir);
    assert_eq!(copy.chunk_size, config.chunk_size);
}
