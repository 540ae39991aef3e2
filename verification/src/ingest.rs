//! The rules of the ingest pipeline: which files are candidates, how a
//! file becomes chunks with their records, how a batch is embedded and
//! stored, and what the run reports.

use vstd::prelude::*;
use crate::chunker::{chunk_text, extract_title, spec_chunk_text, spec_extract_title};
use crate::config::AppConfig;
use crate::ids::{clock_rfc3339, fresh_uuid, is_hyphenated_uuid, is_rfc3339_stamp};
use crate::paths::{
    extension_of, file_name_of, join_path, joined_path, parent_of, parent_path, path_extension,
    path_file_name,
};
use crate::text::{lowercase, str_eq, strings_view, to_lowercase, trim, trimmed};
use crate::types::{ChunkPayload, ChunkPayloadView};

verus! {

/// How many files one batch of an ingest run holds.
pub const FILE_BATCH_SIZE: usize = 10;

/// How many chunks are embedded with one request.
pub const EMBED_BATCH_SIZE: usize = 20;

/// How the content of a file is obtained, by its extension.
#[derive(Clone, Copy, Debug)]
pub enum FileKind {
    /// Read as it is: `md`, `txt`.
    Text,
    /// Converted to markdown first: `pdf`, `xlsx`, `xls`, `docx`, `pptx`,
    /// `csv`, `html`.
    Rich,
    /// Not ingested.
    Unsupported,
}

/// The kind of a file with the lower-case extension `ext`.
pub open spec fn spec_file_kind(ext: Seq<char>) -> FileKind {
    if ext == "md"@ || ext == "txt"@ {
        FileKind::Text
    } else if ext == "pdf"@ || ext == "xlsx"@ || ext == "xls"@ || ext == "docx"@ || ext
        == "pptx"@ || ext == "csv"@ || ext == "html"@ {
        FileKind::Rich
    } else {
        FileKind::Unsupported
    }
}

/// The kind of a file with the lower-case extension `ext`.
pub fn file_kind(ext: &str) -> (r: FileKind)
    ensures
        r == spec_file_kind(ext@),
{
    if str_eq(ext, "md") || str_eq(ext, "txt") {
        FileKind::Text
    } else if str_eq(ext, "pdf") || str_eq(ext, "xlsx") || str_eq(ext, "xls") || str_eq(
        ext,
        "docx",
    ) || str_eq(ext, "pptx") || str_eq(ext, "csv") || str_eq(ext, "html") {
        FileKind::Rich
    } else {
        FileKind::Unsupported
    }
}

/// Whether the file at `path` is ingested: its extension, in lower case,
/// is one of the text kinds, or one of the rich kinds while the converter is
/// available. A file without extension is not.
pub open spec fn spec_is_candidate(path: Seq<char>, converter_available: bool) -> bool {
    match path_extension(path) {
        Some(ext) => match spec_file_kind(lowercase(ext)) {
            FileKind::Text => true,
            FileKind::Rich => converter_available,
            FileKind::Unsupported => false,
        },
        None => false,
    }
}

/// Whether the file at `path` is ingested.
pub fn is_candidate(path: &str, converter_available: bool) -> (r: bool)
    ensures
        r == spec_is_candidate(path@, converter_available),
{
    match extension_of(path) {
        Some(ext) => {
            let lower = to_lowercase(ext.as_str());
            match file_kind(lower.as_str()) {
                FileKind::Text => true,
                FileKind::Rich => converter_available,
                FileKind::Unsupported => false,
            }
        },
        None => false,
    }
}

/// The candidates among `paths`, in the order given.
pub open spec fn spec_collect_candidates(paths: Seq<Seq<char>>, converter_available: bool) -> Seq<
    Seq<char>,
>
    decreases paths.len(),
{
    if paths.len() == 0 {
        Seq::empty()
    } else {
        let front = spec_collect_candidates(paths.drop_last(), converter_available);
        if spec_is_candidate(paths.last(), converter_available) {
            front.push(paths.last())
        } else {
            front
        }
    }
}

/// The files to ingest among the regular files found below the sources.
pub fn collect_files(paths: &Vec<String>, converter_available: bool) -> (r: Vec<String>)
    ensures
        strings_view(r@) == spec_collect_candidates(strings_view(paths@), converter_available),
{
    let mut files: Vec<String> = Vec::new();
    let mut i: usize = 0;
    assert(strings_view(paths@).take(0) =~= Seq::empty());
    assert(strings_view(files@) =~= Seq::empty());
    while i < paths.len()
        invariant
            i <= paths.len(),
            strings_view(files@) == spec_collect_candidates(
                strings_view(paths@).take(i as int),
                converter_available,
            ),
        decreases paths.len() - i,
    {
        proof {
            assert(strings_view(paths@).take(i + 1).drop_last() =~= strings_view(paths@).take(
                i as int,
            ));
        }
        if is_candidate(paths[i].as_str(), converter_available) {
            let path = paths[i].clone();
            proof {
                crate::text::lemma_strings_view_push(files@, path);
            }
            files.push(path);
        }
        i += 1;
    }
    assert(strings_view(paths@).take(paths.len() as int) =~= strings_view(paths@));
    files
}

/// The source type of the file at `path`: its extension in lower case,
/// `txt` where it has none.
pub open spec fn spec_source_type(path: Seq<char>) -> Seq<char> {
    match path_extension(path) {
        Some(ext) => lowercase(ext),
        None => "txt"@,
    }
}

/// The source type of the file at `path`.
pub fn source_type_of(path: &str) -> (r: String)
    ensures
        r@ == spec_source_type(path@),
{
    match extension_of(path) {
        Some(ext) => to_lowercase(ext.as_str()),
        None => "txt".to_owned(),
    }
}

/// Whether the content of the file at `path` comes from the converter.
pub fn needs_conversion(path: &str) -> (r: bool)
    ensures
        r == (spec_file_kind(spec_source_type(path@)) is Rich),
{
    let source_type = source_type_of(path);
    match file_kind(source_type.as_str()) {
        FileKind::Rich => true,
        _ => false,
    }
}

/// Why the converter's output for a file cannot be used.
#[derive(Clone, Copy, Debug)]
pub enum ConvertError {
    /// The converter ended with a non-zero status.
    Failed,
    /// The converter wrote nothing but whitespace.
    EmptyOutput,
}

/// What the converter's run gives: its output, unless it failed or wrote
/// nothing but whitespace.
pub open spec fn spec_converted(exit_ok: bool, stdout: Seq<char>) -> Result<Seq<char>, ConvertError> {
    if !exit_ok {
        Err(ConvertError::Failed)
    } else if trim(stdout).len() == 0 {
        Err(ConvertError::EmptyOutput)
    } else {
        Ok(stdout)
    }
}

/// The content of a rich file, from how the converter ended and what it
/// wrote.
pub fn converted_content(exit_ok: bool, stdout: String) -> (r: Result<String, ConvertError>)
    ensures
        match r {
            Ok(text) => spec_converted(exit_ok, stdout@) == Ok::<Seq<char>, ConvertError>(text@),
            Err(e) => spec_converted(exit_ok, stdout@) == Err::<Seq<char>, ConvertError>(e),
        },
{
    if !exit_ok {
        Err(ConvertError::Failed)
    } else {
        let t = trimmed(stdout.as_str());
        if t.as_str().unicode_len() == 0 {
            Err(ConvertError::EmptyOutput)
        } else {
            Ok(stdout)
        }
    }
}

/// Where the ingest state is kept: `ingest_state.json` beside the lexical
/// index directory, or in `.` where that directory has no parent.
pub open spec fn spec_state_file_path(index_dir: Seq<char>) -> Seq<char> {
    match parent_path(index_dir) {
        Some(parent) => joined_path(parent, "ingest_state.json"@),
        None => joined_path("."@, "ingest_state.json"@),
    }
}

/// The path of the ingest state file.
pub fn state_file_path(config: &AppConfig) -> (r: String)
    ensures
        r@ == spec_state_file_path(config.tantivy_index_dir@),
{
    match parent_of(config.tantivy_index_dir.as_str()) {
        Some(parent) => join_path(parent.as_str(), "ingest_state.json"),
        None => join_path(".", "ingest_state.json"),
    }
}

/// The ordinal of the chunk at position `i` of its document.
pub open spec fn chunk_ordinal(i: int) -> u32 {
    (i % 0x1_0000_0000) as u32
}

/// The record of the chunk at position `i`.
pub open spec fn payload_at(
    chunks: Seq<String>,
    ids: Seq<String>,
    file_path: Seq<char>,
    source_type: Seq<char>,
    title: Seq<char>,
    now: Seq<char>,
    i: int,
) -> ChunkPayloadView {
    ChunkPayloadView {
        chunk_id: ids[i]@,
        source_path: file_path,
        source_type,
        title,
        chunk_index: chunk_ordinal(i),
        text: chunks[i]@,
        updated_at: now,
    }
}

/// The records of the chunks of one file: chunk `i` gets the identifier
/// `ids[i]`, the ordinal `i`, and the path, source type, title and time
/// stamp of the file.
pub fn payloads_from(
    chunks: &Vec<String>,
    ids: &Vec<String>,
    file_path: &str,
    source_type: &str,
    title: &str,
    now: &str,
) -> (r: Vec<ChunkPayload>)
    requires
        ids.len() == chunks.len(),
    ensures
        r.len() == chunks.len(),
        forall|i: int|
            0 <= i < r.len() ==> (#[trigger] r[i])@ == payload_at(
                chunks@,
                ids@,
                file_path@,
                source_type@,
                title@,
                now@,
                i,
            ),
{
    let mut payloads: Vec<ChunkPayload> = Vec::new();
    let mut i: usize = 0;
    while i < chunks.len()
        invariant
            i <= chunks.len(),
            ids.len() == chunks.len(),
            payloads.len() == i,
            forall|k: int|
                0 <= k < i ==> (#[trigger] payloads[k])@ == payload_at(
                    chunks@,
                    ids@,
                    file_path@,
                    source_type@,
                    title@,
                    now@,
                    k,
                ),
        decreases chunks.len() - i,
    {
        let ordinal: u32 = ((i as u64) % 0x1_0000_0000u64) as u32;
        payloads.push(
            ChunkPayload {
                chunk_id: ids[i].clone(),
                source_path: file_path.to_owned(),
                source_type: source_type.to_owned(),
                title: title.to_owned(),
                chunk_index: ordinal,
                text: chunks[i].clone(),
                updated_at: now.to_owned(),
            },
        );
        i += 1;
    }
    payloads
}

/// The title that the file at `path` gets: from its content, or its file
/// name where every line is blank (the empty text where it has no name).
pub open spec fn spec_file_title(path: Seq<char>, content: Seq<char>) -> Seq<char> {
    spec_extract_title(
        content,
        match path_file_name(path) {
            Some(name) => name,
            None => Seq::empty(),
        },
    )
}

/// Turns the content of one file into the records of its chunks. Each chunk
/// gets a fresh random UUID; all chunks of the file carry the same time
/// stamp, the RFC 3339 text of the instant that the clock gave once.
pub fn process_content(config: &AppConfig, file_path: &str, content: &str) -> (r: Vec<
    ChunkPayload,
>)
    requires
        config.chunk_size > 0,
    ensures
        r.len() == spec_chunk_text(
            content@,
            config.chunk_size as nat,
            config.chunk_overlap as nat,
        ).len(),
        forall|i: int|
            0 <= i < r.len() ==> {
                &&& (#[trigger] r[i]).text@ == spec_chunk_text(
                    content@,
                    config.chunk_size as nat,
                    config.chunk_overlap as nat,
                )[i]
                &&& r[i].chunk_index == chunk_ordinal(i)
                &&& r[i].source_path@ == file_path@
                &&& r[i].source_type@ == spec_source_type(file_path@)
                &&& r[i].title@ == spec_file_title(file_path@, content@)
                &&& is_hyphenated_uuid(r[i].chunk_id@)
                &&& r[i].updated_at@ == r[0].updated_at@
                &&& is_rfc3339_stamp(r[i].updated_at@)
            },
{
    let source_type = source_type_of(file_path);
    let file_name = match file_name_of(file_path) {
        Some(name) => name,
        None => String::new(),
    };
    let title = extract_title(content, file_name.as_str());
    let chunks = chunk_text(content, config.chunk_size, config.chunk_overlap);
    let now = clock_rfc3339();
    let mut ids: Vec<String> = Vec::new();
    let mut i: usize = 0;
    while i < chunks.len()
        invariant
            i <= chunks.len(),
            ids.len() == i,
            forall|k: int| 0 <= k < i ==> is_hyphenated_uuid((#[trigger] ids[k])@),
        decreases chunks.len() - i,
    {
        ids.push(fresh_uuid());
        i += 1;
    }
    let r = payloads_from(
        &chunks,
        &ids,
        file_path,
        source_type.as_str(),
        title.as_str(),
        now.as_str(),
    );
    proof {
        assert forall|i: int| 0 <= i < r.len() implies {
            &&& (#[trigger] r[i]).text@ == spec_chunk_text(
                content@,
                config.chunk_size as nat,
                config.chunk_overlap as nat,
            )[i]
            &&& r[i].chunk_index == chunk_ordinal(i)
            &&& r[i].source_path@ == file_path@
            &&& r[i].source_type@ == spec_source_type(file_path@)
            &&& r[i].title@ == spec_file_title(file_path@, content@)
            &&& is_hyphenated_uuid(r[i].chunk_id@)
            &&& r[i].updated_at@ == r[0].updated_at@
            &&& is_rfc3339_stamp(r[i].updated_at@)
        } by {
            assert(r[i]@ == payload_at(
                chunks@,
                ids@,
                file_path@,
                source_type@,
                title@,
                now@,
                i,
            ));
            assert(r[0]@ == payload_at(
                chunks@,
                ids@,
                file_path@,
                source_type@,
                title@,
                now@,
                0,
            ));
            assert(strings_view(chunks@)[i] == chunks@[i]@);
            assert(is_hyphenated_uuid(ids[i]@));
        }
    }
    r
}

/// The source directories of a run: those given, or the default source
/// directory where none is given.
pub fn resolve_sources(sources: Vec<String>) -> (r: Vec<String>)
    ensures
        sources.len() > 0 ==> r == sources,
        sources.len() == 0 ==> r.len() == 1 && exists|home: Option<Seq<char>>|
            r[0]@ == joined_path(
                crate::paths::spec_under_home(home, ".local"@, "share"@),
                "mcp-hybrid-search"@,
            ),
{
    if sources.len() > 0 {
        return sources;
    }
    let mut defaults: Vec<String> = Vec::new();
    defaults.push(AppConfig::default_source_dir());
    defaults
}

/// Whether a reset goes ahead: it was forced, or the answer to the prompt
/// is `y` or `Y`, whitespace around it aside.
pub open spec fn spec_reset_confirmed(force: bool, answer: Seq<char>) -> bool {
    force || trim(answer) == seq!['y'] || trim(answer) == seq!['Y']
}

/// Whether a reset goes ahead.
pub fn reset_confirmed(force: bool, answer: &str) -> (r: bool)
    ensures
        r == spec_reset_confirmed(force, answer@),
{
    if force {
        return true;
    }
    let t = crate::text::chars_of(trimmed(answer).as_str());
    if t.len() == 1 && (t[0] == 'y' || t[0] == 'Y') {
        assert(t@ =~= seq![t@[0]]);
        true
    } else {
        if t.len() == 1 {
            assert(t@[0] != 'y' && t@[0] != 'Y');
        }
        false
    }
}

} // verus!
