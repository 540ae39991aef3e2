//! The records that travel between the stores, the searcher and the server.

use vstd::prelude::*;
use crate::text::{chars_of, string_of};

verus! {

/// The atomic indexed unit: one span of one source document.
#[derive(Debug)]
pub struct ChunkPayload {
    pub chunk_id: String,
    pub source_path: String,
    pub source_type: String,
    pub title: String,
    pub chunk_index: u32,
    pub text: String,
    pub updated_at: String,
}

/// What a `ChunkPayload` holds, as plain sequences.
pub ghost struct ChunkPayloadView {
    pub chunk_id: Seq<char>,
    pub source_path: Seq<char>,
    pub source_type: Seq<char>,
    pub title: Seq<char>,
    pub chunk_index: u32,
    pub text: Seq<char>,
    pub updated_at: Seq<char>,
}

impl View for ChunkPayload {
    type V = ChunkPayloadView;

    open spec fn view(&self) -> ChunkPayloadView {
        ChunkPayloadView {
            chunk_id: self.chunk_id@,
            source_path: self.source_path@,
            source_type: self.source_type@,
            title: self.title@,
            chunk_index: self.chunk_index,
            text: self.text@,
            updated_at: self.updated_at@,
        }
    }
}

impl Clone for ChunkPayload {
    fn clone(&self) -> (r: Self)
        ensures
            r == *self,
    {
        ChunkPayload {
            chunk_id: self.chunk_id.clone(),
            source_path: self.source_path.clone(),
            source_type: self.source_type.clone(),
            title: self.title.clone(),
            chunk_index: self.chunk_index,
            text: self.text.clone(),
            updated_at: self.updated_at.clone(),
        }
    }
}

/// A fraction of two integers, as contracts speak of scores: without any
/// bound on either.
pub ghost struct Fraction {
    pub num: int,
    pub den: int,
}

impl Fraction {
    /// A fraction with a positive denominator.
    pub open spec fn wf(self) -> bool {
        self.den > 0
    }

    /// `self >= other` as fractions.
    pub open spec fn ge(self, other: Fraction) -> bool {
        self.num * other.den >= other.num * self.den
    }

    /// `self > other` as fractions.
    pub open spec fn gt(self, other: Fraction) -> bool {
        self.num * other.den > other.num * self.den
    }
}

/// A non-negative score held exactly, as the fraction `num / den`.
#[derive(Clone, Copy, Debug)]
pub struct Score {
    pub num: u128,
    pub den: u128,
}

impl View for Score {
    type V = Fraction;

    open spec fn view(&self) -> Fraction {
        Fraction { num: self.num as int, den: self.den as int }
    }
}

impl Score {
    /// The score zero.
    pub fn zero() -> (r: Score)
        ensures
            r == (Score { num: 0, den: 1 }),
    {
        Score { num: 0, den: 1 }
    }
}

/// One ranked passage, as a backend or the fusion step reports it.
#[derive(Debug)]
pub struct SearchResult {
    pub chunk_id: String,
    pub score: Score,
    pub title: String,
    pub source_path: String,
    pub source_type: String,
    pub snippet: String,
}

/// What a `SearchResult` holds, as plain sequences.
pub ghost struct SearchResultView {
    pub chunk_id: Seq<char>,
    pub score: Fraction,
    pub title: Seq<char>,
    pub source_path: Seq<char>,
    pub source_type: Seq<char>,
    pub snippet: Seq<char>,
}

impl View for SearchResult {
    type V = SearchResultView;

    open spec fn view(&self) -> SearchResultView {
        SearchResultView {
            chunk_id: self.chunk_id@,
            score: self.score@,
            title: self.title@,
            source_path: self.source_path@,
            source_type: self.source_type@,
            snippet: self.snippet@,
        }
    }
}

impl Clone for SearchResult {
    fn clone(&self) -> (r: Self)
        ensures
            r == *self,
    {
        SearchResult {
            chunk_id: self.chunk_id.clone(),
            score: self.score,
            title: self.title.clone(),
            source_path: self.source_path.clone(),
            source_type: self.source_type.clone(),
            snippet: self.snippet.clone(),
        }
    }
}

/// Where a chunk came from.
#[derive(Debug)]
pub struct ChunkMetadata {
    pub title: String,
    pub source_path: String,
    pub source_type: String,
    pub chunk_index: u32,
}

/// A chunk's full text with its metadata.
#[derive(Debug)]
pub struct ChunkDetail {
    pub chunk_id: String,
    pub text: String,
    pub metadata: ChunkMetadata,
}

/// Optional conditions on the hits of a search.
#[derive(Debug)]
pub struct SearchFilters {
    pub source_type: Option<String>,
    pub path_prefix: Option<String>,
}

impl Default for SearchFilters {
    fn default() -> (r: Self)
        ensures
            r.source_type is None,
            r.path_prefix is None,
    {
        SearchFilters { source_type: None, path_prefix: None }
    }
}

/// The three characters that mark a truncated text.
pub open spec fn ellipsis() -> Seq<char> {
    seq!['.', '.', '.']
}

/// `text` cut to `max_chars` characters, marked with `...` where anything
/// was cut.
pub open spec fn spec_truncate(text: Seq<char>, max_chars: nat) -> Seq<char> {
    if text.len() <= max_chars {
        text
    } else {
        text.take(max_chars as int) + ellipsis()
    }
}

/// The first `max_chars` characters of `v[from..to]`, followed by `...` if
/// the range holds more than that.
pub fn truncate_chars(v: &Vec<char>, from: usize, to: usize, max_chars: usize) -> (r: String)
    requires
        from <= to <= v.len(),
    ensures
        r@ == spec_truncate(v@.subrange(from as int, to as int), max_chars as nat),
{
    if to - from <= max_chars {
        string_of(v, from, to)
    } else {
        let mut cut: Vec<char> = Vec::new();
        let mut i: usize = from;
        while i < from + max_chars
            invariant
                from <= i <= from + max_chars < to <= v.len(),
                cut@ == v@.subrange(from as int, i as int),
            decreases from + max_chars - i,
        {
            cut.push(v[i]);
            i += 1;
            assert(cut@ == v@.subrange(from as int, i as int));
        }
        cut.push('.');
        cut.push('.');
        cut.push('.');
        assert(cut@ =~= v@.subrange(from as int, to as int).take(max_chars as int) + ellipsis());
        string_of(&cut, 0, cut.len())
    }
}

/// Truncates `text` to at most `max_chars` characters, counted as Unicode
/// scalar values, and appends `...` when something was cut off.
pub fn truncate_snippet(text: &str, max_chars: usize) -> (r: String)
    ensures
        r@ == spec_truncate(text@, max_chars as nat),
{
    let v = chars_of(text);
    assert(v@.subrange(0, v.len() as int) =~= v@);
    truncate_chars(&v, 0, v.len(), max_chars)
}

/// Truncating what was already truncated to the same length changes nothing.
pub proof fn lemma_truncate_idempotent(text: Seq<char>, max_chars: nat)
    ensures
        spec_truncate(spec_truncate(text, max_chars), max_chars) == spec_truncate(text, max_chars),
{
    if text.len() > max_chars {
        let t = text.take(max_chars as int) + ellipsis();
        assert(t.take(max_chars as int) =~= text.take(max_chars as int));
    }
}

/// A text of at most `max_chars` characters comes back unchanged; a longer
/// one comes back with exactly `max_chars + 3` characters.
pub proof fn lemma_truncate_len(text: Seq<char>, max_chars: nat)
    ensures
        text.len() <= max_chars ==> spec_truncate(text, max_chars) == text,
        text.len() > max_chars ==> spec_truncate(text, max_chars).len() == max_chars + 3,
        spec_truncate(text, max_chars).len() <= max_chars + 3,
{
}

} // verus!
