//! The configuration of the indexer and the server, and its defaults.

use vstd::prelude::*;
use vstd::string::StringExecFns;
use crate::paths::{home_directory, join_path, joined_path, spec_under_home, under_home};
use crate::text::{opt_str_view, opt_string_view};

verus! {

/// Every setting of the system. A setting that the configuration file
/// leaves out has its default.
#[derive(Debug)]
pub struct AppConfig {
    pub qdrant_url: String,
    pub collection_name: String,
    pub tantivy_index_dir: String,
    pub chunk_size: usize,
    pub chunk_overlap: usize,
    pub listen_port: u16,
    pub embedding_provider: String,
    pub embedding_model: String,
    pub embedding_dimension: usize,
    pub tokenizer: String,
}

impl Clone for AppConfig {
    fn clone(&self) -> (r: Self)
        ensures
            r == *self,
    {
        AppConfig {
            qdrant_url: self.qdrant_url.clone(),
            collection_name: self.collection_name.clone(),
            tantivy_index_dir: self.tantivy_index_dir.clone(),
            chunk_size: self.chunk_size,
            chunk_overlap: self.chunk_overlap,
            listen_port: self.listen_port,
            embedding_provider: self.embedding_provider.clone(),
            embedding_model: self.embedding_model.clone(),
            embedding_dimension: self.embedding_dimension,
            tokenizer: self.tokenizer.clone(),
        }
    }
}

/// The settings that a configuration file gives: `None` for each key that
/// it leaves out.
#[derive(Debug)]
pub struct PartialConfig {
    pub qdrant_url: Option<String>,
    pub collection_name: Option<String>,
    pub tantivy_index_dir: Option<String>,
    pub chunk_size: Option<usize>,
    pub chunk_overlap: Option<usize>,
    pub listen_port: Option<u16>,
    pub embedding_provider: Option<String>,
    pub embedding_model: Option<String>,
    pub embedding_dimension: Option<usize>,
    pub tokenizer: Option<String>,
}

/// The default address of the vector store.
pub fn default_qdrant_url() -> (r: String)
    ensures
        r@ == "http://localhost:6334"@,
{
    "http://localhost:6334".to_owned()
}

/// The default name of the collection.
pub fn default_collection_name() -> (r: String)
    ensures
        r@ == "docs"@,
{
    "docs".to_owned()
}

/// The default place of the lexical index below a home directory.
pub open spec fn spec_default_index_dir(home: Option<Seq<char>>) -> Seq<char> {
    spec_under_home(home, ".mcp-hybrid-search"@, "tantivy"@)
}

/// The default place of the lexical index: `.mcp-hybrid-search/tantivy`
/// below the home directory that the environment reports, or below `.`.
pub fn default_tantivy_index_dir() -> (r: String)
    ensures
        exists|home: Option<Seq<char>>| r@ == spec_default_index_dir(home),
{
    let home = home_directory();
    let r = under_home(&home, ".mcp-hybrid-search", "tantivy");
    assert(r@ == spec_default_index_dir(
        opt_string_view(home),
    ));
    r
}

/// The default size of a chunk, in characters.
pub fn default_chunk_size() -> (r: usize)
    ensures
        r == 1000,
{
    1000
}

/// The default overlap of two chunks, in characters.
pub fn default_chunk_overlap() -> (r: usize)
    ensures
        r == 200,
{
    200
}

/// The default port of the server.
pub fn default_listen_port() -> (r: u16)
    ensures
        r == 7070,
{
    7070
}

/// The default provider of embeddings.
pub fn default_embedding_provider() -> (r: String)
    ensures
        r@ == "openai"@,
{
    "openai".to_owned()
}

/// The default embedding model.
pub fn default_embedding_model() -> (r: String)
    ensures
        r@ == "text-embedding-3-small"@,
{
    "text-embedding-3-small".to_owned()
}

/// The default dimension of an embedding.
pub fn default_embedding_dimension() -> (r: usize)
    ensures
        r == 1536,
{
    1536
}

/// The default tokenizer of the lexical index.
pub fn default_tokenizer() -> (r: String)
    ensures
        r@ == "default"@,
{
    "default".to_owned()
}

/// The value of one text setting: what the file gives, else `default`.
pub open spec fn text_or(given: Option<String>, default: Seq<char>) -> Seq<char> {
    match given {
        Some(s) => s@,
        None => default,
    }
}

/// The value of one numeric setting: what the file gives, else `default`.
pub open spec fn number_or(given: Option<usize>, default: usize) -> usize {
    match given {
        Some(n) => n,
        None => default,
    }
}

/// Whether `config` is what `partial` says, with the default for every
/// setting that `partial` leaves out; the default index directory is the one
/// below `home`.
pub open spec fn resolves_to(
    partial: PartialConfig,
    home: Option<Seq<char>>,
    config: AppConfig,
) -> bool {
    &&& config.qdrant_url@ == text_or(partial.qdrant_url, "http://localhost:6334"@)
    &&& config.collection_name@ == text_or(partial.collection_name, "docs"@)
    &&& config.tantivy_index_dir@ == text_or(
        partial.tantivy_index_dir,
        spec_default_index_dir(home),
    )
    &&& config.chunk_size == number_or(partial.chunk_size, 1000)
    &&& config.chunk_overlap == number_or(partial.chunk_overlap, 200)
    &&& config.listen_port == match partial.listen_port {
        Some(p) => p,
        None => 7070u16,
    }
    &&& config.embedding_provider@ == text_or(partial.embedding_provider, "openai"@)
    &&& config.embedding_model@ == text_or(partial.embedding_model, "text-embedding-3-small"@)
    &&& config.embedding_dimension == number_or(partial.embedding_dimension, 1536)
    &&& config.tokenizer@ == text_or(partial.tokenizer, "default"@)
}

impl PartialConfig {
    /// A file that sets nothing.
    pub fn empty() -> (r: Self)
        ensures
            r.qdrant_url is None,
            r.collection_name is None,
            r.tantivy_index_dir is None,
            r.chunk_size is None,
            r.chunk_overlap is None,
            r.listen_port is None,
            r.embedding_provider is None,
            r.embedding_model is None,
            r.embedding_dimension is None,
            r.tokenizer is None,
    {
        PartialConfig {
            qdrant_url: None,
            collection_name: None,
            tantivy_index_dir: None,
            chunk_size: None,
            chunk_overlap: None,
            listen_port: None,
            embedding_provider: None,
            embedding_model: None,
            embedding_dimension: None,
            tokenizer: None,
        }
    }

    /// The configuration that this file gives: each setting it holds, and
    /// the default for each one it leaves out.
    pub fn resolve(self) -> (r: AppConfig)
        ensures
            exists|home: Option<Seq<char>>| resolves_to(self, home, r),
    {
        let ghost mut home: Option<Seq<char>> = None;
        let tantivy_index_dir = match self.tantivy_index_dir {
            Some(d) => d,
            None => {
                let h = home_directory();
                proof {
                    home = opt_string_view(h);
                }
                under_home(&h, ".mcp-hybrid-search", "tantivy")
            },
        };
        let r = AppConfig {
            qdrant_url: match self.qdrant_url {
                Some(s) => s,
                None => default_qdrant_url(),
            },
            collection_name: match self.collection_name {
                Some(s) => s,
                None => default_collection_name(),
            },
            tantivy_index_dir,
            chunk_size: match self.chunk_size {
                Some(n) => n,
                None => default_chunk_size(),
            },
            chunk_overlap: match self.chunk_overlap {
                Some(n) => n,
                None => default_chunk_overlap(),
            },
            listen_port: match self.listen_port {
                Some(n) => n,
                None => default_listen_port(),
            },
            embedding_provider: match self.embedding_provider {
                Some(s) => s,
                None => default_embedding_provider(),
            },
            embedding_model: match self.embedding_model {
                Some(s) => s,
                None => default_embedding_model(),
            },
            embedding_dimension: match self.embedding_dimension {
                Some(n) => n,
                None => default_embedding_dimension(),
            },
            tokenizer: match self.tokenizer {
                Some(s) => s,
                None => default_tokenizer(),
            },
        };
        assert(resolves_to(self, home, r));
        r
    }
}

impl Default for AppConfig {
    fn default() -> (r: Self)
        ensures
            r.qdrant_url@ == "http://localhost:6334"@,
            r.collection_name@ == "docs"@,
            exists|home: Option<Seq<char>>| r.tantivy_index_dir@ == spec_default_index_dir(home),
            r.chunk_size == 1000,
            r.chunk_overlap == 200,
            r.listen_port == 7070,
            r.embedding_provider@ == "openai"@,
            r.embedding_model@ == "text-embedding-3-small"@,
            r.embedding_dimension == 1536,
            r.tokenizer@ == "default"@,
    {
        AppConfig {
            qdrant_url: default_qdrant_url(),
            collection_name: default_collection_name(),
            tantivy_index_dir: default_tantivy_index_dir(),
            chunk_size: default_chunk_size(),
            chunk_overlap: default_chunk_overlap(),
            listen_port: default_listen_port(),
            embedding_provider: default_embedding_provider(),
            embedding_model: default_embedding_model(),
            embedding_dimension: default_embedding_dimension(),
            tokenizer: default_tokenizer(),
        }
    }
}

/// Where the configuration file is looked for: the path given, else
/// `config.toml` in the working directory if that exists, else
/// `.mcp-hybrid-search/config.toml` below the home directory.
pub open spec fn spec_config_path(
    explicit: Option<Seq<char>>,
    cwd: Seq<char>,
    cwd_has_config: bool,
    home: Option<Seq<char>>,
) -> Seq<char> {
    match explicit {
        Some(p) => p,
        None => if cwd_has_config {
            joined_path(cwd, "config.toml"@)
        } else {
            spec_under_home(home, ".mcp-hybrid-search"@, "config.toml"@)
        },
    }
}

/// The configuration file in the working directory `cwd`.
pub fn cwd_config_path(cwd: &str) -> (r: String)
    ensures
        r@ == joined_path(cwd@, "config.toml"@),
{
    join_path(cwd, "config.toml")
}

impl AppConfig {
    /// The default source directory for documents: `.local/share/mcp-hybrid-search`
    /// below the home directory that the environment reports, or below `.`.
    pub fn default_source_dir() -> (r: String)
        ensures
            exists|home: Option<Seq<char>>|
                r@ == joined_path(
                    spec_under_home(home, ".local"@, "share"@),
                    "mcp-hybrid-search"@,
                ),
    {
        let home = home_directory();
        let share = under_home(&home, ".local", "share");
        let r = join_path(share.as_str(), "mcp-hybrid-search");
        assert(r@ == joined_path(
            spec_under_home(
                opt_string_view(home),
                ".local"@,
                "share"@,
            ),
            "mcp-hybrid-search"@,
        ));
        r
    }

    /// The path of the configuration file to read, given the path that the
    /// caller asked for, the working directory, and whether that directory
    /// holds a `config.toml`.
    pub fn config_path(explicit: Option<&str>, cwd: &str, cwd_has_config: bool) -> (r: String)
        ensures
            exists|home: Option<Seq<char>>|
                r@ == spec_config_path(
                    opt_str_view(explicit),
                    cwd@,
                    cwd_has_config,
                    home,
                ),
    {
        let ghost given = opt_str_view(explicit);
        match explicit {
            Some(p) => {
                let r = p.to_owned();
                assert(r@ == spec_config_path(given, cwd@, cwd_has_config, None));
                r
            },
            None => {
                if cwd_has_config {
                    let r = cwd_config_path(cwd);
                    assert(r@ == spec_config_path(given, cwd@, cwd_has_config, None));
                    r
                } else {
                    let home = home_directory();
                    let r = under_home(&home, ".mcp-hybrid-search", "config.toml");
                    assert(r@ == spec_config_path(
                        given,
                        cwd@,
                        cwd_has_config,
                        opt_string_view(home),
                    ));
                    r
                }
            },
        }
    }

    /// The name of the collection of a project: the configured name, an
    /// underscore and the project's name.
    pub open spec fn project_collection(collection: Seq<char>, project: Seq<char>) -> Seq<char> {
        collection + "_"@ + project
    }

    /// This configuration for the project `project`: the collection name
    /// gets the project's name as a suffix, so that each project has a
    /// collection of its own. Without a project nothing changes.
    pub fn with_project(self, project: Option<&str>) -> (r: AppConfig)
        ensures
            r.collection_name@ == match project {
                Some(p) => Self::project_collection(self.collection_name@, p@),
                None => self.collection_name@,
            },
            r.qdrant_url == self.qdrant_url,
            r.tantivy_index_dir == self.tantivy_index_dir,
            r.chunk_size == self.chunk_size,
            r.chunk_overlap == self.chunk_overlap,
            r.listen_port == self.listen_port,
            r.embedding_provider == self.embedding_provider,
            r.embedding_model == self.embedding_model,
            r.embedding_dimension == self.embedding_dimension,
            r.tokenizer == self.tokenizer,
    {
        match project {
            Some(p) => {
                let mut config = self;
                let mut name = config.collection_name.clone();
                name.append("_");
                name.append(p);
                config.collection_name = name;
                config
            },
            None => self,
        }
    }

    /// The configuration to run with: what the file at the chosen path
    /// gives, or every default where there is no such file.
    pub fn load(file: Option<PartialConfig>) -> (r: AppConfig)
        ensures
            match file {
                Some(partial) => exists|home: Option<Seq<char>>| resolves_to(partial, home, r),
                None => exists|home: Option<Seq<char>>|
                    resolves_to(
                        (PartialConfig {
                            qdrant_url: None,
                            collection_name: None,
                            tantivy_index_dir: None,
                            chunk_size: None,
                            chunk_overlap: None,
                            listen_port: None,
                            embedding_provider: None,
                            embedding_model: None,
                            embedding_dimension: None,
                            tokenizer: None,
                        }),
                        home,
                        r,
                    ),
            },
    {
        match file {
            Some(partial) => partial.resolve(),
            None => PartialConfig::empty().resolve(),
        }
    }
}

} // verus!
