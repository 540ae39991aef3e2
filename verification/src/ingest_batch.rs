//! One batch of an ingest run: how its chunks are split for embedding,
//! which of them reach each store, and what the run counts.

use vstd::prelude::*;
use crate::text::strings_view;
use crate::types::ChunkPayload;

verus! {

/// Where the batch that starts at `start` ends, for `total` items in
/// batches of `batch_size`.
pub fn batch_end_after(total: usize, start: usize, batch_size: usize) -> (r: usize)
    requires
        start <= total,
    ensures
        r == if start + batch_size <= total {
            (start + batch_size) as usize
        } else {
            total
        },
{
    if batch_size >= total - start {
        total
    } else {
        start + batch_size
    }
}

/// The number of batches of `size` items that `total` items make.
pub open spec fn batch_count(total: nat, size: nat) -> nat {
    if size == 0 {
        0
    } else {
        ((total + size - 1) / size as int) as nat
    }
}

/// Where batch `k` ends.
pub open spec fn batch_end(total: nat, size: nat, k: nat) -> nat {
    if (k + 1) * size <= total {
        (k + 1) * size
    } else {
        total
    }
}

/// The texts of a run of chunks.
pub open spec fn texts_of(chunks: Seq<ChunkPayload>) -> Seq<Seq<char>> {
    chunks.map_values(|c: ChunkPayload| c.text@)
}

proof fn lemma_batch_count(total: nat, size: nat, k: nat)
    requires
        size > 0,
        k > 0,
        (k - 1) * size < total <= k * size,
    ensures
        batch_count(total, size) == k,
{
    let n = (total + size - 1) as int;
    let s = size as int;
    assert(n / s == k as int) by (nonlinear_arith)
        requires
            s > 0,
            k > 0,
            (k - 1) * s < n - s + 1 <= k * s,
    ;
}

/// Splits the chunks of a batch into sub-batches of `batch_size` chunks for
/// embedding; the last one may be shorter. Each sub-batch comes with the
/// texts of its chunks, in order.
pub fn chunk_sub_batches<'a>(chunks: &'a [ChunkPayload], batch_size: usize) -> (r: Vec<
    (&'a [ChunkPayload], Vec<String>),
>)
    requires
        batch_size > 0,
    ensures
        r.len() == batch_count(chunks.len() as nat, batch_size as nat),
        forall|k: int|
            0 <= k < r.len() ==> {
                &&& (#[trigger] r[k]).0@ == chunks@.subrange(
                    k * batch_size,
                    batch_end(chunks.len() as nat, batch_size as nat, k as nat) as int,
                )
                &&& strings_view(r[k].1@) == texts_of(r[k].0@)
            },
{
    let total = chunks.len();
    let mut batches: Vec<(&'a [ChunkPayload], Vec<String>)> = Vec::new();
    let mut start: usize = 0;
    proof {
        assert(0 * batch_size == 0) by (nonlinear_arith);
        if total == 0 {
            assert((0 + batch_size - 1) / (batch_size as int) == 0) by (nonlinear_arith)
                requires
                    batch_size > 0,
            ;
        }
    }
    while start < total
        invariant
            batch_size > 0,
            total == chunks.len(),
            start <= total,
            start < total ==> start == batches.len() * batch_size,
            start == total ==> batch_count(total as nat, batch_size as nat) == batches.len(),
            forall|k: int|
                0 <= k < batches.len() ==> {
                    &&& (#[trigger] batches[k]).0@ == chunks@.subrange(
                        k * batch_size,
                        batch_end(total as nat, batch_size as nat, k as nat) as int,
                    )
                    &&& strings_view(batches[k].1@) == texts_of(batches[k].0@)
                },
        decreases total - start,
    {
        let ghost k = batches.len() as nat;
        let end = if batch_size >= total - start {
            total
        } else {
            start + batch_size
        };
        proof {
            assert((k + 1) * batch_size == k * batch_size + batch_size) by (nonlinear_arith);
            assert(end == batch_end(total as nat, batch_size as nat, k));
        }
        let sub: &'a [ChunkPayload] = slice_range(chunks, start, end);
        let mut texts: Vec<String> = Vec::new();
        let mut i: usize = 0;
        assert(strings_view(texts@) =~= texts_of(sub@.take(0)));
        while i < sub.len()
            invariant
                i <= sub.len(),
                strings_view(texts@) == texts_of(sub@.take(i as int)),
            decreases sub.len() - i,
        {
            let text = sub[i].text.clone();
            proof {
                crate::text::lemma_strings_view_push(texts@, text);
                assert(texts_of(sub@.take(i + 1)) =~= texts_of(sub@.take(i as int)).push(text@));
            }
            texts.push(text);
            i += 1;
        }
        assert(sub@.take(sub.len() as int) =~= sub@);
        batches.push((sub, texts));
        proof {
            if end == total {
                if k == 0 {
                    assert(0 * batch_size == 0) by (nonlinear_arith);
                    assert(1 * batch_size == batch_size) by (nonlinear_arith);
                }
                lemma_batch_count(total as nat, batch_size as nat, k + 1);
            }
        }
        start = end;
    }
    batches
}

/// The part of a slice from `start` up to `end`.
fn slice_range<'a, T>(items: &'a [T], start: usize, end: usize) -> (r: &'a [T])
    requires
        start <= end <= items.len(),
    ensures
        r@ == items@.subrange(start as int, end as int),
{
    &items[start..end]
}

/// Which chunks of a batch were embedded: chunk `i` belongs to sub-batch
/// `i / batch_size`, and is kept where the embedding of that sub-batch
/// succeeded.
pub open spec fn spec_embedded(chunks: Seq<ChunkPayload>, batch_size: nat, succeeded: Seq<bool>) -> Seq<
    ChunkPayload,
>
    decreases chunks.len(),
{
    if chunks.len() == 0 || batch_size == 0 {
        Seq::empty()
    } else {
        let front = spec_embedded(chunks.drop_last(), batch_size, succeeded);
        let k = (chunks.len() - 1) / batch_size as int;
        if 0 <= k < succeeded.len() && succeeded[k] {
            front.push(chunks.last())
        } else {
            front
        }
    }
}

/// The chunks of a batch whose sub-batch was embedded, in order. These are
/// the chunks that go to the vector store; every chunk of the batch goes to
/// the lexical store.
pub fn embedded_chunks(chunks: &[ChunkPayload], batch_size: usize, succeeded: &Vec<bool>) -> (r:
    Vec<ChunkPayload>)
    requires
        batch_size > 0,
    ensures
        r@ == spec_embedded(chunks@, batch_size as nat, succeeded@),
{
    let mut kept: Vec<ChunkPayload> = Vec::new();
    let mut i: usize = 0;
    assert(chunks@.take(0) =~= Seq::empty());
    while i < chunks.len()
        invariant
            i <= chunks.len(),
            batch_size > 0,
            kept@ == spec_embedded(chunks@.take(i as int), batch_size as nat, succeeded@),
        decreases chunks.len() - i,
    {
        proof {
            assert(chunks@.take(i + 1).drop_last() =~= chunks@.take(i as int));
        }
        let k = i / batch_size;
        if k < succeeded.len() && succeeded[k] {
            kept.push(chunks[i].clone());
        }
        i += 1;
    }
    assert(chunks@.take(chunks.len() as int) =~= chunks@);
    kept
}

/// Every chunk that is embedded is a chunk of the batch: what reaches the
/// vector store also reaches the lexical store.
pub proof fn lemma_embedded_are_indexed(
    chunks: Seq<ChunkPayload>,
    batch_size: nat,
    succeeded: Seq<bool>,
    i: int,
)
    requires
        0 <= i < spec_embedded(chunks, batch_size, succeeded).len(),
    ensures
        chunks.contains(spec_embedded(chunks, batch_size, succeeded)[i]),
    decreases chunks.len(),
{
    if chunks.len() == 0 || batch_size == 0 {
    } else {
        let front = spec_embedded(chunks.drop_last(), batch_size, succeeded);
        if i < front.len() {
            lemma_embedded_are_indexed(chunks.drop_last(), batch_size, succeeded, i);
            let j = choose|j: int|
                0 <= j < chunks.drop_last().len() && chunks.drop_last()[j] == front[i];
            assert(chunks[j] == front[i]);
        } else {
            assert(chunks[chunks.len() - 1] == chunks.last());
        }
    }
}

/// What is done with a batch once its sub-batches were embedded.
#[derive(Clone, Copy, Debug)]
pub struct StoragePlan {
    /// Whether the embedded chunks are written to the vector store.
    pub upsert: bool,
    /// Whether the chunks of the batch are written to the lexical store.
    pub index: bool,
}

/// The plan for a batch of `chunk_count` chunks of which `embedded_count`
/// were embedded: the vector store gets the embedded chunks where there are
/// any; the lexical store gets every chunk of a batch that has chunks,
/// embedded or not.
pub fn plan_storage(chunk_count: usize, embedded_count: usize) -> (r: StoragePlan)
    ensures
        r.upsert == (embedded_count > 0),
        r.index == (chunk_count > 0),
{
    StoragePlan { upsert: embedded_count > 0, index: chunk_count > 0 }
}

/// What an ingest run counts.
#[derive(Clone, Copy, Debug)]
pub struct IngestReport {
    pub files_processed: usize,
    pub chunks_indexed: usize,
    pub errors: usize,
}

/// `a + b`, or the largest count where the sum is larger.
pub open spec fn capped_sum(a: usize, b: usize) -> usize {
    if a + b > usize::MAX {
        usize::MAX
    } else {
        (a + b) as usize
    }
}

fn add_capped(a: usize, b: usize) -> (r: usize)
    ensures
        r == capped_sum(a, b),
{
    if b > usize::MAX - a {
        usize::MAX
    } else {
        a + b
    }
}

impl IngestReport {
    /// The report of a run that has done nothing yet.
    pub fn new() -> (r: Self)
        ensures
            r.files_processed == 0,
            r.chunks_indexed == 0,
            r.errors == 0,
    {
        IngestReport { files_processed: 0, chunks_indexed: 0, errors: 0 }
    }

    /// A file was read and chunked.
    pub fn file_processed(&mut self)
        ensures
            final(self).files_processed == capped_sum(old(self).files_processed, 1),
            final(self).chunks_indexed == old(self).chunks_indexed,
            final(self).errors == old(self).errors,
    {
        self.files_processed = add_capped(self.files_processed, 1);
    }

    /// A file could not be read or converted, a sub-batch could not be
    /// embedded, or a store refused a batch.
    pub fn failure(&mut self)
        ensures
            final(self).errors == capped_sum(old(self).errors, 1),
            final(self).files_processed == old(self).files_processed,
            final(self).chunks_indexed == old(self).chunks_indexed,
    {
        self.errors = add_capped(self.errors, 1);
    }

    /// A batch was stored with `embedded_count` embedded chunks; each store
    /// that refused it counts as one failure.
    pub fn batch_stored(&mut self, embedded_count: usize, upsert_failed: bool, index_failed: bool)
        ensures
            final(self).chunks_indexed == capped_sum(old(self).chunks_indexed, embedded_count),
            final(self).errors == capped_sum(
                capped_sum(old(self).errors, if upsert_failed { 1usize } else { 0usize }),
                if index_failed { 1usize } else { 0usize },
            ),
            final(self).files_processed == old(self).files_processed,
    {
        self.chunks_indexed = add_capped(self.chunks_indexed, embedded_count);
        if upsert_failed {
            self.errors = add_capped(self.errors, 1);
        }
        if index_failed {
            self.errors = add_capped(self.errors, 1);
        }
    }
}

} // verus!
