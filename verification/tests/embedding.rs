use mcp_hybrid_search::config::AppConfig;
use mcp_hybrid_search::embedding::{
    api_base_variable, api_error_message, api_key_variable, check_embeddings, error_message,
    first_embedding, gemini_model_path,
    get_embedding, get_embeddings, is_success, local_input, parse_provider, resolve_local_model,
    EmbedRequest, EmbeddingError, EmbeddingProvider, LocalModel, ProviderEnv, TextRole,
};

fn config(provider: &str, model: &str) -> AppConfig {
    let mut c = AppConfig::default();
    c.embedding_provider = provider.to_string();
    c.embedding_model = model.to_string();
    c
}

fn env(key: Option<&str>, base: Option<&str>, local: bool) -> ProviderEnv {
    ProviderEnv {
        api_key: key.map(|s| s.to_string()),
        api_base: base.map(|s| s.to_string()),
        local_linked: local,
    }
}

fn texts() -> Vec<String> {
    vec!["one".to_string(), "two".to_string()]
}

#[test]
fn providers_parse() {
    assert!(matches!(parse_provider("openai"), Some(EmbeddingProvider::OpenAi)));
    assert!(matches!(parse_provider("gemini"), Some(EmbeddingProvider::Gemini)));
    assert!(matches!(parse_provider("local"), Some(EmbeddingProvider::Local)));
    assert!(parse_provider("OpenAI").is_none());
    assert!(parse_provider("").is_none());
    assert_eq!(api_key_variable(EmbeddingProvider::OpenAi).as_deref(), Some("OPENAI_API_KEY"));
    assert_eq!(api_key_variable(EmbeddingProvider::Gemini).as_deref(), Some("GEMINI_API_KEY"));
    assert!(api_key_variable(EmbeddingProvider::Local).is_none());
    assert_eq!(api_base_variable(EmbeddingProvider::OpenAi).as_deref(), Some("OPENAI_API_BASE"));
    assert_eq!(api_base_variable(EmbeddingProvider::Gemini).as_deref(), Some("GEMINI_API_BASE"));
    assert!(api_base_variable(EmbeddingProvider::Local).is_none());
}

#[test]
fn unknown_provider_is_a_configuration_error() {
    let r = get_embeddings(&config("cohere", "m"), &texts(), &env(Some("k"), None, true));
    assert!(matches!(r, Err(EmbeddingError::UnknownProvider)));
}

#[test]
fn openai_request_uses_base_and_bearer() {
    let r = get_embeddings(
        &config("openai", "text-embedding-3-small"),
        &texts(),
        &env(Some("SECRET-REDACTED"), None, false),
    )
    .unwrap();
    match r {
        EmbedRequest::OpenAi { url, authorization, model, input } => {
            assert_eq!(url, "https://api.openai.com/v1/embeddings");
            assert_eq!(authorization, "Bearer SECRET-REDACTED");
            assert_eq!(model, "text-embedding-3-small");
            assert_eq!(input, texts());
        }
        _ => panic!("not openai"),
    }
    let r = get_embedding(&config("openai", "m"), "q", &env(Some("k"), Some("http://proxy/v1"), false))
        .unwrap();
    match r {
        EmbedRequest::OpenAi { url, input, .. } => {
            assert_eq!(url, "http://proxy/v1/embeddings");
            assert_eq!(input, vec!["q"]);
        }
        _ => panic!("not openai"),
    }
}

#[test]
fn missing_api_key_is_an_error() {
    for provider in ["openai", "gemini"] {
        let r = get_embeddings(&config(provider, "m"), &texts(), &env(None, None, true));
        assert!(matches!(r, Err(EmbeddingError::MissingApiKey)));
    }
}

#[test]
fn gemini_model_path_gets_its_prefix_once() {
    assert_eq!(gemini_model_path("embedding-001"), "models/embedding-001");
    assert_eq!(gemini_model_path("models/embedding-001"), "models/embedding-001");
    assert_eq!(gemini_model_path("models"), "models/models");
    assert_eq!(gemini_model_path(""), "models/");
}

#[test]
fn gemini_requests_name_batch_or_single_method() {
    let r = get_embeddings(&config("gemini", "embedding-001"), &texts(), &env(Some("K"), None, false))
        .unwrap();
    match r {
        EmbedRequest::Gemini { url, model, texts: sent, batch } => {
            assert!(batch);
            assert_eq!(
                url,
                "https://generativelanguage.googleapis.com/v1beta/models/embedding-001:batchEmbedContents?key=K"
            );
            assert_eq!(model, "models/embedding-001");
            assert_eq!(sent, texts());
        }
        _ => panic!("not gemini"),
    }
    let r = get_embedding(
        &config("gemini", "models/e"),
        "query text",
        &env(Some("K"), Some("http://g"), false),
    )
    .unwrap();
    match r {
        EmbedRequest::Gemini { url, model, texts: sent, batch } => {
            assert!(!batch);
            assert_eq!(url, "http://g/models/e:embedContent?key=K");
            assert_eq!(model, "models/e");
            assert_eq!(sent, vec!["query text"]);
        }
        _ => panic!("not gemini"),
    }
}

#[test]
fn local_texts_get_the_prefix_of_their_role() {
    assert_eq!(local_input("abc", TextRole::Passage), "passage: abc");
    assert_eq!(local_input("abc", TextRole::Query), "query: abc");
    let r = get_embeddings(&config("local", "multilingual-e5-small"), &texts(), &env(None, None, true))
        .unwrap();
    match r {
        EmbedRequest::Local { local_model, input } => {
            assert!(matches!(local_model, LocalModel::MultilingualE5Small));
            assert_eq!(input, vec!["passage: one", "passage: two"]);
        }
        _ => panic!("not local"),
    }
    let r = get_embedding(&config("local", "multilingual-e5-base"), "q", &env(None, None, true))
        .unwrap();
    match r {
        EmbedRequest::Local { local_model, input } => {
            assert!(matches!(local_model, LocalModel::MultilingualE5Base));
            assert_eq!(input, vec!["query: q"]);
        }
        _ => panic!("not local"),
    }
}

#[test]
fn local_needs_the_build_and_a_known_model() {
    let r = get_embeddings(&config("local", "multilingual-e5-small"), &texts(), &env(None, None, false));
    assert!(matches!(r, Err(EmbeddingError::LocalNotLinked)));
    let r = get_embeddings(&config("local", "bert"), &texts(), &env(None, None, true));
    assert!(matches!(r, Err(EmbeddingError::UnknownLocalModel)));
    assert!(resolve_local_model("multilingual-e5-large").is_none());
    assert!(matches!(
        resolve_local_model("multilingual-e5-base"),
        Some(LocalModel::MultilingualE5Base)
    ));
}

#[test]
fn only_2xx_is_success() {
    assert!(!is_success(199));
    assert!(is_success(200));
    assert!(is_success(204));
    assert!(is_success(299));
    assert!(!is_success(300));
    assert!(!is_success(404));
    assert!(!is_success(500));
}

#[test]
fn embeddings_must_match_count_and_dimension() {
    assert!(check_embeddings(2, 3, &vec![3, 3]).is_ok());
    assert!(check_embeddings(0, 3, &vec![]).is_ok());
    assert!(matches!(check_embeddings(2, 3, &vec![3]), Err(EmbeddingError::WrongCount)));
    assert!(matches!(check_embeddings(1, 3, &vec![3, 3]), Err(EmbeddingError::WrongCount)));
    assert!(matches!(check_embeddings(2, 3, &vec![3, 4]), Err(EmbeddingError::WrongDimension)));
    assert!(matches!(check_embeddings(2, 3, &vec![2, 3]), Err(EmbeddingError::WrongDimension)));
    assert!(matches!(check_embeddings(1, 3, &vec![4, 4]), Err(EmbeddingError::WrongCount)));
}

#[test]
fn single_text_takes_the_first_vector() {
    assert_eq!(first_embedding(vec![vec![1, 2], vec![3]]).unwrap(), vec![1, 2]);
    assert!(matches!(first_embedding(vec![]), Err(EmbeddingError::NoEmbedding)));
}

#[test]
fn errors_have_their_messages() {
    assert_eq!(
        error_message(EmbeddingError::UnknownProvider, &config("cohere", "m")),
        "Unknown embedding_provider 'cohere'. Supported: openai, gemini, local"
    );
    assert_eq!(
        error_message(EmbeddingError::MissingApiKey, &config("openai", "m")),
        "OPENAI_API_KEY environment variable not set"
    );
    assert_eq!(
        error_message(EmbeddingError::MissingApiKey, &config("gemini", "m")),
        "GEMINI_API_KEY environment variable not set"
    );
    assert_eq!(
        error_message(EmbeddingError::UnknownLocalModel, &config("local", "bert")),
        "Unknown local embedding model 'bert'. Supported: multilingual-e5-small, multilingual-e5-base"
    );
    assert_eq!(
        error_message(EmbeddingError::LocalNotLinked, &config("local", "m")),
        "embedding_provider = \"local\" requires the 'local-embed' feature. Build with: cargo build --features local-embed"
    );
    assert_eq!(error_message(EmbeddingError::NoEmbedding, &config("openai", "m")), "No embedding returned");
    assert!(!error_message(EmbeddingError::WrongCount, &config("openai", "m")).is_empty());
    assert!(error_message(EmbeddingError::WrongDimension, &config("openai", "m")).contains("dimension"));
    assert_eq!(
        api_error_message(EmbeddingProvider::OpenAi, "401 Unauthorized", "bad key"),
        "OpenAI API error (401 Unauthorized): bad key"
    );
    assert_eq!(
        api_error_message(EmbeddingProvider::Gemini, "500 Internal Server Error", ""),
        "Gemini API error (500 Internal Server Error): "
    );
}
