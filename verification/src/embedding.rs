//! The embedder's rules: which provider is asked, with what request, and
//! whether what came back can be used.

use vstd::prelude::*;
use vstd::string::StringExecFns;
use crate::config::AppConfig;
use crate::text::{has_prefix, opt_string_view, starts_with, str_eq, strings_view};

verus! {

/// A provider of embeddings.
#[derive(Clone, Copy, Debug)]
pub enum EmbeddingProvider {
    OpenAi,
    Gemini,
    Local,
}

/// A model of the in-process embedder.
#[derive(Clone, Copy, Debug)]
pub enum LocalModel {
    MultilingualE5Small,
    MultilingualE5Base,
}

/// What a text is embedded for. The in-process models expect a prefix that
/// says so.
#[derive(Clone, Copy, Debug)]
pub enum TextRole {
    /// A chunk that is ingested.
    Passage,
    /// The text of a search.
    Query,
}

/// Why no embedding can be had.
#[derive(Clone, Copy, Debug)]
pub enum EmbeddingError {
    /// The configuration names no provider that the system knows.
    UnknownProvider,
    /// The environment holds no API key for the provider.
    MissingApiKey,
    /// The configuration names no model that the in-process embedder knows.
    UnknownLocalModel,
    /// The in-process embedder is not part of the build.
    LocalNotLinked,
    /// The provider returned no vector.
    NoEmbedding,
    /// The provider returned another number of vectors than texts.
    WrongCount,
    /// A vector has another dimension than the configured one.
    WrongDimension,
}

/// The provider that a configuration value names.
pub open spec fn spec_parse_provider(name: Seq<char>) -> Option<EmbeddingProvider> {
    if name == "openai"@ {
        Some(EmbeddingProvider::OpenAi)
    } else if name == "gemini"@ {
        Some(EmbeddingProvider::Gemini)
    } else if name == "local"@ {
        Some(EmbeddingProvider::Local)
    } else {
        None
    }
}

/// The provider that `name` names: `None` for every other value.
pub fn parse_provider(name: &str) -> (r: Option<EmbeddingProvider>)
    ensures
        r == spec_parse_provider(name@),
{
    if str_eq(name, "openai") {
        Some(EmbeddingProvider::OpenAi)
    } else if str_eq(name, "gemini") {
        Some(EmbeddingProvider::Gemini)
    } else if str_eq(name, "local") {
        Some(EmbeddingProvider::Local)
    } else {
        None
    }
}

/// The in-process model that a configuration value names.
pub open spec fn spec_local_model(name: Seq<char>) -> Option<LocalModel> {
    if name == "multilingual-e5-small"@ {
        Some(LocalModel::MultilingualE5Small)
    } else if name == "multilingual-e5-base"@ {
        Some(LocalModel::MultilingualE5Base)
    } else {
        None
    }
}

/// The in-process model that `name` names: `None` for every other value.
pub fn resolve_local_model(name: &str) -> (r: Option<LocalModel>)
    ensures
        r == spec_local_model(name@),
{
    if str_eq(name, "multilingual-e5-small") {
        Some(LocalModel::MultilingualE5Small)
    } else if str_eq(name, "multilingual-e5-base") {
        Some(LocalModel::MultilingualE5Base)
    } else {
        None
    }
}

/// The environment variable that holds the API key of a remote provider.
pub fn api_key_variable(provider: EmbeddingProvider) -> (r: Option<String>)
    ensures
        opt_string_view(r) == match provider {
            EmbeddingProvider::OpenAi => Some("OPENAI_API_KEY"@),
            EmbeddingProvider::Gemini => Some("GEMINI_API_KEY"@),
            EmbeddingProvider::Local => None,
        },
{
    match provider {
        EmbeddingProvider::OpenAi => Some("OPENAI_API_KEY".to_owned()),
        EmbeddingProvider::Gemini => Some("GEMINI_API_KEY".to_owned()),
        EmbeddingProvider::Local => None,
    }
}

/// The environment variable that overrides the base URL of a remote
/// provider.
pub fn api_base_variable(provider: EmbeddingProvider) -> (r: Option<String>)
    ensures
        opt_string_view(r) == match provider {
            EmbeddingProvider::OpenAi => Some("OPENAI_API_BASE"@),
            EmbeddingProvider::Gemini => Some("GEMINI_API_BASE"@),
            EmbeddingProvider::Local => None,
        },
{
    match provider {
        EmbeddingProvider::OpenAi => Some("OPENAI_API_BASE".to_owned()),
        EmbeddingProvider::Gemini => Some("GEMINI_API_BASE".to_owned()),
        EmbeddingProvider::Local => None,
    }
}

/// The base URL of the OpenAI API: the one given, else the public one.
pub open spec fn openai_base(given: Option<Seq<char>>) -> Seq<char> {
    match given {
        Some(b) => b,
        None => "https://api.openai.com/v1"@,
    }
}

/// The base URL of the Gemini API: the one given, else the public one.
pub open spec fn gemini_base(given: Option<Seq<char>>) -> Seq<char> {
    match given {
        Some(b) => b,
        None => "https://generativelanguage.googleapis.com/v1beta"@,
    }
}

/// The path of a Gemini model: the model name, after `models/` unless it
/// begins with that.
pub open spec fn spec_gemini_model_path(model: Seq<char>) -> Seq<char> {
    if has_prefix(model, "models/"@) {
        model
    } else {
        "models/"@ + model
    }
}

/// The path of the Gemini model `model`.
pub fn gemini_model_path(model: &str) -> (r: String)
    ensures
        r@ == spec_gemini_model_path(model@),
{
    if starts_with(model, "models/") {
        model.to_owned()
    } else {
        let mut path = "models/".to_owned();
        path.append(model);
        path
    }
}

/// The text that the in-process models are given: the text after the
/// prefix of its role.
pub open spec fn spec_local_input(text: Seq<char>, role: TextRole) -> Seq<char> {
    match role {
        TextRole::Passage => "passage: "@ + text,
        TextRole::Query => "query: "@ + text,
    }
}

/// The input of the in-process embedder for `text`.
pub fn local_input(text: &str, role: TextRole) -> (r: String)
    ensures
        r@ == spec_local_input(text@, role),
{
    let mut input = match role {
        TextRole::Passage => "passage: ".to_owned(),
        TextRole::Query => "query: ".to_owned(),
    };
    input.append(text);
    input
}

/// What the environment and the build give the embedder.
#[derive(Debug)]
pub struct ProviderEnv {
    /// The API key of the configured provider, where the environment holds
    /// one.
    pub api_key: Option<String>,
    /// The base URL of the configured provider, where the environment
    /// overrides it.
    pub api_base: Option<String>,
    /// Whether the in-process embedder is part of the build.
    pub local_linked: bool,
}

/// A request for the embeddings of a batch of texts.
#[derive(Debug)]
pub enum EmbedRequest {
    /// POST `url` with the body `{model, input}` and the `Authorization`
    /// header.
    OpenAi { url: String, authorization: String, model: String, input: Vec<String> },
    /// POST `url` for the model `model`: with one request per text where
    /// `batch` is set, else with the single text as the request.
    Gemini { url: String, model: String, texts: Vec<String>, batch: bool },
    /// Run the in-process model on `input`.
    Local { local_model: LocalModel, input: Vec<String> },
}

/// A request as plain sequences.
pub ghost enum EmbedRequestView {
    OpenAi { url: Seq<char>, authorization: Seq<char>, model: Seq<char>, input: Seq<Seq<char>> },
    Gemini { url: Seq<char>, model: Seq<char>, texts: Seq<Seq<char>>, batch: bool },
    Local { local_model: LocalModel, input: Seq<Seq<char>> },
}

impl View for EmbedRequest {
    type V = EmbedRequestView;

    open spec fn view(&self) -> EmbedRequestView {
        match self {
            EmbedRequest::OpenAi { url, authorization, model, input } => EmbedRequestView::OpenAi {
                url: url@,
                authorization: authorization@,
                model: model@,
                input: strings_view(input@),
            },
            EmbedRequest::Gemini { url, model, texts, batch } => EmbedRequestView::Gemini {
                url: url@,
                model: model@,
                texts: strings_view(texts@),
                batch: *batch,
            },
            EmbedRequest::Local { local_model, input } => EmbedRequestView::Local {
                local_model: *local_model,
                input: strings_view(input@),
            },
        }
    }
}

/// The URL of a Gemini call: `{base}/{model path}:{method}?key={key}`.
pub open spec fn gemini_url(base: Seq<char>, model_path: Seq<char>, method: Seq<char>, key: Seq<char>) -> Seq<
    char,
> {
    base + "/"@ + model_path + ":"@ + method + "?key="@ + key
}

/// The Gemini method for a number of texts: the batch method for a batch,
/// the single method for the single-text entry point.
pub open spec fn gemini_method(batch: bool) -> Seq<char> {
    if batch {
        "batchEmbedContents"@
    } else {
        "embedContent"@
    }
}

/// The request for the embeddings of `texts`, or why there is none.
pub open spec fn spec_embed_request(
    provider_name: Seq<char>,
    model: Seq<char>,
    texts: Seq<Seq<char>>,
    role: TextRole,
    batch: bool,
    api_key: Option<Seq<char>>,
    api_base: Option<Seq<char>>,
    local_linked: bool,
) -> Result<EmbedRequestView, EmbeddingError> {
    match spec_parse_provider(provider_name) {
        None => Err(EmbeddingError::UnknownProvider),
        Some(EmbeddingProvider::OpenAi) => match api_key {
            None => Err(EmbeddingError::MissingApiKey),
            Some(key) => Ok(
                EmbedRequestView::OpenAi {
                    url: openai_base(api_base) + "/embeddings"@,
                    authorization: "Bearer "@ + key,
                    model,
                    input: texts,
                },
            ),
        },
        Some(EmbeddingProvider::Gemini) => match api_key {
            None => Err(EmbeddingError::MissingApiKey),
            Some(key) => Ok(
                EmbedRequestView::Gemini {
                    url: gemini_url(
                        gemini_base(api_base),
                        spec_gemini_model_path(model),
                        gemini_method(batch),
                        key,
                    ),
                    model: spec_gemini_model_path(model),
                    texts,
                    batch,
                },
            ),
        },
        Some(EmbeddingProvider::Local) => if !local_linked {
            Err(EmbeddingError::LocalNotLinked)
        } else {
            match spec_local_model(model) {
                None => Err(EmbeddingError::UnknownLocalModel),
                Some(m) => Ok(
                    EmbedRequestView::Local {
                        local_model: m,
                        input: texts.map_values(|t: Seq<char>| spec_local_input(t, role)),
                    },
                ),
            }
        },
    }
}

fn copy_texts(texts: &[String]) -> (r: Vec<String>)
    ensures
        strings_view(r@) == strings_view(texts@),
{
    let mut out: Vec<String> = Vec::new();
    let mut i: usize = 0;
    while i < texts.len()
        invariant
            i <= texts.len(),
            out.len() == i,
            forall|k: int| 0 <= k < i ==> out[k]@ == texts[k]@,
        decreases texts.len() - i,
    {
        out.push(texts[i].clone());
        i += 1;
    }
    assert(strings_view(out@) =~= strings_view(texts@));
    out
}

fn prefixed_texts(texts: &[String], role: TextRole) -> (r: Vec<String>)
    ensures
        strings_view(r@) == strings_view(texts@).map_values(
            |t: Seq<char>| spec_local_input(t, role),
        ),
{
    let mut out: Vec<String> = Vec::new();
    let mut i: usize = 0;
    while i < texts.len()
        invariant
            i <= texts.len(),
            out.len() == i,
            forall|k: int| 0 <= k < i ==> out[k]@ == spec_local_input(texts[k]@, role),
        decreases texts.len() - i,
    {
        out.push(local_input(texts[i].as_str(), role));
        i += 1;
    }
    assert(strings_view(out@) =~= strings_view(texts@).map_values(
        |t: Seq<char>| spec_local_input(t, role),
    ));
    out
}

fn embed_request(
    config: &AppConfig,
    texts: &[String],
    role: TextRole,
    batch: bool,
    env: &ProviderEnv,
) -> (r: Result<EmbedRequest, EmbeddingError>)
    ensures
        match r {
            Ok(request) => spec_embed_request(
                config.embedding_provider@,
                config.embedding_model@,
                strings_view(texts@),
                role,
                batch,
                opt_string_view(env.api_key),
                opt_string_view(env.api_base),
                env.local_linked,
            ) == Ok::<EmbedRequestView, EmbeddingError>(request@),
            Err(e) => spec_embed_request(
                config.embedding_provider@,
                config.embedding_model@,
                strings_view(texts@),
                role,
                batch,
                opt_string_view(env.api_key),
                opt_string_view(env.api_base),
                env.local_linked,
            ) == Err::<EmbedRequestView, EmbeddingError>(e),
        },
{
    match parse_provider(config.embedding_provider.as_str()) {
        None => Err(EmbeddingError::UnknownProvider),
        Some(EmbeddingProvider::OpenAi) => match &env.api_key {
            None => Err(EmbeddingError::MissingApiKey),
            Some(key) => {
                let mut url = match &env.api_base {
                    Some(b) => b.clone(),
                    None => "https://api.openai.com/v1".to_owned(),
                };
                url.append("/embeddings");
                let mut authorization = "Bearer ".to_owned();
                authorization.append(key.as_str());
                Ok(
                    EmbedRequest::OpenAi {
                        url,
                        authorization,
                        model: config.embedding_model.clone(),
                        input: copy_texts(texts),
                    },
                )
            },
        },
        Some(EmbeddingProvider::Gemini) => match &env.api_key {
            None => Err(EmbeddingError::MissingApiKey),
            Some(key) => {
                let model = gemini_model_path(config.embedding_model.as_str());
                let mut url = match &env.api_base {
                    Some(b) => b.clone(),
                    None => "https://generativelanguage.googleapis.com/v1beta".to_owned(),
                };
                url.append("/");
                url.append(model.as_str());
                url.append(":");
                if batch {
                    url.append("batchEmbedContents");
                } else {
                    url.append("embedContent");
                }
                url.append("?key=");
                url.append(key.as_str());
                Ok(EmbedRequest::Gemini { url, model, texts: copy_texts(texts), batch })
            },
        },
        Some(EmbeddingProvider::Local) => {
            if !env.local_linked {
                Err(EmbeddingError::LocalNotLinked)
            } else {
                match resolve_local_model(config.embedding_model.as_str()) {
                    None => Err(EmbeddingError::UnknownLocalModel),
                    Some(local_model) => Ok(
                        EmbedRequest::Local { local_model, input: prefixed_texts(texts, role) },
                    ),
                }
            }
        },
    }
}

/// The request for the embeddings of a batch of chunks that are ingested,
/// for the configured provider; an error where the configuration names no
/// provider or model that is known, or the environment lacks what the
/// provider needs.
pub fn get_embeddings(config: &AppConfig, texts: &[String], env: &ProviderEnv) -> (r: Result<
    EmbedRequest,
    EmbeddingError,
>)
    ensures
        match r {
            Ok(request) => spec_embed_request(
                config.embedding_provider@,
                config.embedding_model@,
                strings_view(texts@),
                TextRole::Passage,
                true,
                opt_string_view(env.api_key),
                opt_string_view(env.api_base),
                env.local_linked,
            ) == Ok::<EmbedRequestView, EmbeddingError>(request@),
            Err(e) => spec_embed_request(
                config.embedding_provider@,
                config.embedding_model@,
                strings_view(texts@),
                TextRole::Passage,
                true,
                opt_string_view(env.api_key),
                opt_string_view(env.api_base),
                env.local_linked,
            ) == Err::<EmbedRequestView, EmbeddingError>(e),
        },
{
    embed_request(config, texts, TextRole::Passage, true, env)
}

/// The request for the embedding of the text of a search, for the
/// configured provider.
pub fn get_embedding(config: &AppConfig, text: &str, env: &ProviderEnv) -> (r: Result<
    EmbedRequest,
    EmbeddingError,
>)
    ensures
        match r {
            Ok(request) => spec_embed_request(
                config.embedding_provider@,
                config.embedding_model@,
                seq![text@],
                TextRole::Query,
                false,
                opt_string_view(env.api_key),
                opt_string_view(env.api_base),
                env.local_linked,
            ) == Ok::<EmbedRequestView, EmbeddingError>(request@),
            Err(e) => spec_embed_request(
                config.embedding_provider@,
                config.embedding_model@,
                seq![text@],
                TextRole::Query,
                false,
                opt_string_view(env.api_key),
                opt_string_view(env.api_base),
                env.local_linked,
            ) == Err::<EmbedRequestView, EmbeddingError>(e),
        },
{
    let mut texts: Vec<String> = Vec::new();
    texts.push(text.to_owned());
    assert(strings_view(texts@) =~= seq![text@]);
    embed_request(config, texts.as_slice(), TextRole::Query, false, env)
}

/// Whether an HTTP status is a success: 200 to 299.
pub fn is_success(status: u16) -> (r: bool)
    ensures
        r == (200 <= status <= 299),
{
    200 <= status && status <= 299
}

/// Whether what a provider returned can be used, and why not: there is one
/// vector for each text, and each has the configured dimension.
pub open spec fn spec_check_embeddings(expected: nat, dimension: nat, lengths: Seq<usize>) -> Result<
    (),
    EmbeddingError,
> {
    if lengths.len() != expected {
        Err(EmbeddingError::WrongCount)
    } else if exists|i: int| 0 <= i < lengths.len() && lengths[i] != dimension {
        Err(EmbeddingError::WrongDimension)
    } else {
        Ok(())
    }
}

/// Checks the vectors that a provider returned for `expected` texts, given
/// the length of each.
pub fn check_embeddings(expected: usize, dimension: usize, lengths: &Vec<usize>) -> (r: Result<
    (),
    EmbeddingError,
>)
    ensures
        r == spec_check_embeddings(expected as nat, dimension as nat, lengths@),
{
    if lengths.len() != expected {
        return Err(EmbeddingError::WrongCount);
    }
    let mut i: usize = 0;
    while i < lengths.len()
        invariant
            i <= lengths.len(),
            lengths.len() == expected,
            forall|k: int| 0 <= k < i ==> lengths[k] == dimension,
        decreases lengths.len() - i,
    {
        if lengths[i] != dimension {
            return Err(EmbeddingError::WrongDimension);
        }
        i += 1;
    }
    Ok(())
}

/// The single embedding of the single-text entry point: the first vector
/// returned, as the bits of its components; an error where none was
/// returned.
pub fn first_embedding(vectors: Vec<Vec<u32>>) -> (r: Result<Vec<u32>, EmbeddingError>)
    ensures
        match r {
            Ok(v) => vectors.len() > 0 && v@ == vectors[0]@,
            Err(e) => vectors.len() == 0 && e is NoEmbedding,
        },
{
    if vectors.len() == 0 {
        Err(EmbeddingError::NoEmbedding)
    } else {
        Ok(vectors[0].clone())
    }
}

/// The message of an error of the embedder, for the configured provider
/// name and model name.
pub open spec fn spec_error_message(error: EmbeddingError, provider: Seq<char>, model: Seq<char>) -> Seq<
    char,
> {
    match error {
        EmbeddingError::UnknownProvider => "Unknown embedding_provider '"@ + provider
            + "'. Supported: openai, gemini, local"@,
        EmbeddingError::MissingApiKey => if provider == "gemini"@ {
            "GEMINI_API_KEY environment variable not set"@
        } else {
            "OPENAI_API_KEY environment variable not set"@
        },
        EmbeddingError::UnknownLocalModel => "Unknown local embedding model '"@ + model
            + "'. Supported: multilingual-e5-small, multilingual-e5-base"@,
        EmbeddingError::LocalNotLinked => "embedding_provider = \"local\" requires the 'local-embed' feature. Build with: cargo build --features local-embed"@,
        EmbeddingError::NoEmbedding => "No embedding returned"@,
        EmbeddingError::WrongCount => "The provider returned another number of embeddings than texts"@,
        EmbeddingError::WrongDimension => "An embedding has another dimension than embedding_dimension"@,
    }
}

/// The message of `error` under the configuration `config`.
pub fn error_message(error: EmbeddingError, config: &AppConfig) -> (r: String)
    ensures
        r@ == spec_error_message(error, config.embedding_provider@, config.embedding_model@),
{
    match error {
        EmbeddingError::UnknownProvider => {
            let mut m = "Unknown embedding_provider '".to_owned();
            m.append(config.embedding_provider.as_str());
            m.append("'. Supported: openai, gemini, local");
            m
        },
        EmbeddingError::MissingApiKey => {
            if str_eq(config.embedding_provider.as_str(), "gemini") {
                "GEMINI_API_KEY environment variable not set".to_owned()
            } else {
                "OPENAI_API_KEY environment variable not set".to_owned()
            }
        },
        EmbeddingError::UnknownLocalModel => {
            let mut m = "Unknown local embedding model '".to_owned();
            m.append(config.embedding_model.as_str());
            m.append("'. Supported: multilingual-e5-small, multilingual-e5-base");
            m
        },
        EmbeddingError::LocalNotLinked => "embedding_provider = \"local\" requires the 'local-embed' feature. Build with: cargo build --features local-embed".to_owned(),
        EmbeddingError::NoEmbedding => "No embedding returned".to_owned(),
        EmbeddingError::WrongCount => "The provider returned another number of embeddings than texts".to_owned(),
        EmbeddingError::WrongDimension => "An embedding has another dimension than embedding_dimension".to_owned(),
    }
}

/// The name of a remote provider in messages.
pub open spec fn provider_label(provider: EmbeddingProvider) -> Seq<char> {
    match provider {
        EmbeddingProvider::OpenAi => "OpenAI"@,
        EmbeddingProvider::Gemini => "Gemini"@,
        EmbeddingProvider::Local => "Local"@,
    }
}

/// The message for a response of a provider whose status is no success:
/// `{provider} API error ({status}): {body}`.
pub fn api_error_message(provider: EmbeddingProvider, status: &str, body: &str) -> (r: String)
    ensures
        r@ == provider_label(provider) + " API error ("@ + status@ + "): "@ + body@,
{
    let mut m = match provider {
        EmbeddingProvider::OpenAi => "OpenAI".to_owned(),
        EmbeddingProvider::Gemini => "Gemini".to_owned(),
        EmbeddingProvider::Local => "Local".to_owned(),
    };
    m.append(" API error (");
    m.append(status);
    m.append("): ");
    m.append(body);
    m
}

} // verus!
