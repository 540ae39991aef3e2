//! Reciprocal Rank Fusion of the vector hits and the lexical hits of one
//! query.
//!
//! A chunk at zero-based rank `r` of a list gets `1 / (RRF_K + r + 1)` from
//! that list; where a list names a chunk more than once, its best rank
//! counts. The fused score of a chunk is the sum over the two lists. Scores
//! are held as exact fractions, so the order never depends on rounding.

use vstd::prelude::*;
use crate::types::{Fraction, Score, SearchResult, SearchResultView};

verus! {

/// The constant of the fusion formula.
pub const RRF_K: usize = 60;

/// The longest ranked list that the fusion takes: with ranks below this the
/// exact comparison of two fused scores fits in 128 bits.
pub const MAX_RANKED: usize = 0xFFFF_FFFF;

/// The views of a list of hits.
pub open spec fn hit_views(hits: Seq<SearchResult>) -> Seq<SearchResultView> {
    hits.map_values(|h: SearchResult| h@)
}

/// The least rank at which `list` names the chunk `id`.
pub open spec fn first_rank(list: Seq<SearchResultView>, id: Seq<char>) -> Option<nat>
    decreases list.len(),
{
    if list.len() == 0 {
        None
    } else {
        match first_rank(list.drop_last(), id) {
            Some(r) => Some(r),
            None => if list.last().chunk_id == id {
                Some((list.len() - 1) as nat)
            } else {
                None
            },
        }
    }
}

/// The denominator of what a list gives to the chunk at `rank`.
pub open spec fn rank_weight(rank: nat) -> nat {
    RRF_K as nat + rank + 1
}

/// The fused score of a chunk from its rank in the vector list and its rank
/// in the lexical list: `1 / rank_weight` for each list that names it.
pub open spec fn fused_score(vector_rank: Option<nat>, lexical_rank: Option<nat>) -> Fraction {
    match (vector_rank, lexical_rank) {
        (Some(a), Some(b)) => Fraction {
            num: (rank_weight(a) + rank_weight(b)) as int,
            den: (rank_weight(a) * rank_weight(b)) as int,
        },
        (Some(a), None) => Fraction { num: 1, den: rank_weight(a) as int },
        (None, Some(b)) => Fraction { num: 1, den: rank_weight(b) as int },
        (None, None) => Fraction { num: 0, den: 1 },
    }
}

/// The hits of `all` without those whose chunk was named earlier in `all`.
pub open spec fn first_hits(all: Seq<SearchResultView>) -> Seq<SearchResultView>
    decreases all.len(),
{
    if all.len() == 0 {
        Seq::empty()
    } else {
        let front = first_hits(all.drop_last());
        if first_rank(all.drop_last(), all.last().chunk_id) is Some {
            front
        } else {
            front.push(all.last())
        }
    }
}

/// `hit` with another score.
pub open spec fn with_score(hit: SearchResultView, score: Fraction) -> SearchResultView {
    SearchResultView { score, ..hit }
}

/// `hit` with the fused score of its chunk.
pub open spec fn fused_hit(
    vector: Seq<SearchResultView>,
    lexical: Seq<SearchResultView>,
    hit: SearchResultView,
) -> SearchResultView {
    with_score(
        hit,
        fused_score(first_rank(vector, hit.chunk_id), first_rank(lexical, hit.chunk_id)),
    )
}

/// One hit per chunk that either list names, in the order of first
/// appearance (vector list first), carrying the metadata of that first
/// appearance and the chunk's fused score.
pub open spec fn candidates(
    vector: Seq<SearchResultView>,
    lexical: Seq<SearchResultView>,
) -> Seq<SearchResultView> {
    first_hits(vector + lexical).map_values(|h: SearchResultView| fused_hit(vector, lexical, h))
}

/// `sorted` with `x` put behind every hit whose score is not smaller.
pub open spec fn insert_ranked(sorted: Seq<SearchResultView>, x: SearchResultView) -> Seq<
    SearchResultView,
>
    decreases sorted.len(),
{
    if sorted.len() == 0 {
        seq![x]
    } else if sorted.last().score.ge(x.score) {
        sorted.push(x)
    } else {
        insert_ranked(sorted.drop_last(), x).push(sorted.last())
    }
}

/// `hits` by descending score; hits of equal score keep their order.
pub open spec fn rank_order(hits: Seq<SearchResultView>) -> Seq<SearchResultView>
    decreases hits.len(),
{
    if hits.len() == 0 {
        Seq::empty()
    } else {
        insert_ranked(rank_order(hits.drop_last()), hits.last())
    }
}

/// The first `top_k` of the candidates by descending fused score.
pub open spec fn spec_rrf_merge(
    vector: Seq<SearchResultView>,
    lexical: Seq<SearchResultView>,
    top_k: nat,
) -> Seq<SearchResultView> {
    let ranked = rank_order(candidates(vector, lexical));
    if top_k <= ranked.len() {
        ranked.take(top_k as int)
    } else {
        ranked
    }
}

/// What `first_rank` finds: the first position that names the chunk, or
/// nothing where no position does.
pub proof fn lemma_first_rank(list: Seq<SearchResultView>, id: Seq<char>)
    ensures
        match first_rank(list, id) {
            Some(r) => r < list.len() && list[r as int].chunk_id == id && forall|j: int|
                0 <= j < r ==> list[j].chunk_id != id,
            None => forall|j: int| 0 <= j < list.len() ==> list[j].chunk_id != id,
        },
    decreases list.len(),
{
    if list.len() > 0 {
        let front = list.drop_last();
        lemma_first_rank(front, id);
        match first_rank(front, id) {
            Some(r) => {
                assert(front[r as int] == list[r as int]);
                assert forall|j: int| 0 <= j < r implies list[j].chunk_id != id by {
                    assert(front[j] == list[j]);
                }
            },
            None => {
                assert forall|j: int| 0 <= j < list.len() - 1 implies list[j].chunk_id != id by {
                    assert(front[j] == list[j]);
                }
            },
        }
    }
}

/// The chunks of `first_hits(all)` are the chunks that `all` names, each
/// once.
pub proof fn lemma_first_hits(all: Seq<SearchResultView>)
    ensures
        first_hits(all).len() <= all.len(),
        forall|k: int|
            0 <= k < first_hits(all).len() ==> first_rank(
                all,
                #[trigger] first_hits(all)[k].chunk_id,
            ) is Some,
        forall|id: Seq<char>| #[trigger]
            first_rank(all, id) is Some ==> exists|k: int|
                0 <= k < first_hits(all).len() && #[trigger] first_hits(all)[k].chunk_id == id,
        forall|k1: int, k2: int|
            0 <= k1 < k2 < first_hits(all).len() ==> #[trigger] first_hits(all)[k1].chunk_id
                != #[trigger] first_hits(all)[k2].chunk_id,
    decreases all.len(),
{
    if all.len() > 0 {
        let front = all.drop_last();
        let last = all.last();
        let fh = first_hits(all);
        let ff = first_hits(front);
        lemma_first_hits(front);
        assert forall|k: int| 0 <= k < fh.len() implies first_rank(
            all,
            #[trigger] fh[k].chunk_id,
        ) is Some by {
            if k < ff.len() {
                assert(fh[k] == ff[k]);
                assert(first_rank(front, ff[k].chunk_id) is Some);
            }
        }
        assert forall|id: Seq<char>| #[trigger] first_rank(all, id) is Some implies exists|k: int|
            0 <= k < fh.len() && #[trigger] fh[k].chunk_id == id by {
            if first_rank(front, id) is Some {
                let k = choose|k: int| 0 <= k < ff.len() && #[trigger] ff[k].chunk_id == id;
                assert(fh[k] == ff[k]);
            } else {
                assert(last.chunk_id == id);
                assert(fh[fh.len() - 1].chunk_id == id);
            }
        }
        assert forall|k1: int, k2: int| 0 <= k1 < k2 < fh.len() implies #[trigger] fh[k1].chunk_id
            != #[trigger] fh[k2].chunk_id by {
            if k2 < ff.len() {
                assert(fh[k1] == ff[k1] && fh[k2] == ff[k2]);
            } else {
                assert(fh[k1] == ff[k1]);
                assert(first_rank(front, ff[k1].chunk_id) is Some);
            }
        }
    }
}

/// A chunk that the concatenation of two lists does not name is named by
/// neither.
pub proof fn lemma_first_rank_concat_none(
    a: Seq<SearchResultView>,
    b: Seq<SearchResultView>,
    id: Seq<char>,
)
    requires
        first_rank(a + b, id) is None,
    ensures
        first_rank(a, id) is None,
        first_rank(b, id) is None,
{
    lemma_first_rank(a + b, id);
    lemma_first_rank(a, id);
    lemma_first_rank(b, id);
    if first_rank(a, id) is Some {
        let r = first_rank(a, id)->0 as int;
        assert((a + b)[r] == a[r]);
    }
    if first_rank(b, id) is Some {
        let r = first_rank(b, id)->0 as int;
        assert((a + b)[a.len() + r] == b[r]);
    }
}

/// Where the hits from `p` on are all strictly below `x`, and the hit before
/// `p` is not, `x` goes to position `p`.
pub proof fn lemma_insert_ranked_at(sorted: Seq<SearchResultView>, x: SearchResultView, p: int)
    requires
        0 <= p <= sorted.len(),
        forall|i: int| p <= i < sorted.len() ==> !sorted[i].score.ge(x.score),
        p == 0 || sorted[p - 1].score.ge(x.score),
    ensures
        insert_ranked(sorted, x) == sorted.insert(p, x),
    decreases sorted.len() - p,
{
    if sorted.len() == 0 {
        assert(sorted.insert(p, x) =~= seq![x]);
    } else if p == sorted.len() {
        assert(sorted.insert(p, x) =~= sorted.push(x));
    } else {
        let front = sorted.drop_last();
        assert(!sorted[sorted.len() - 1].score.ge(x.score));
        assert forall|i: int| p <= i < front.len() implies !front[i].score.ge(x.score) by {
            assert(front[i] == sorted[i]);
        }
        if p > 0 {
            assert(front[p - 1] == sorted[p - 1]);
        }
        lemma_insert_ranked_at(front, x, p);
        assert(front.insert(p, x).push(sorted.last()) =~= sorted.insert(p, x));
    }
}

/// One chunk while the two lists are read: its first hit and its best rank
/// in each list.
struct Entry {
    hit: SearchResult,
    vector_rank: Option<usize>,
    lexical_rank: Option<usize>,
}

spec fn rank_view(rank: Option<usize>) -> Option<nat> {
    match rank {
        Some(r) => Some(r as nat),
        None => None,
    }
}

spec fn entry_hits(entries: Seq<Entry>) -> Seq<SearchResultView> {
    entries.map_values(|e: Entry| e.hit@)
}

/// A score whose exact comparison with another such score fits in 128 bits.
spec fn comparable(s: Score) -> bool {
    s.num <= 0x4_0000_0000 && 0 < s.den <= 0x4_0000_0000_0000_0000
}

spec fn distinct_entries(entries: Seq<Entry>) -> bool {
    forall|k1: int, k2: int|
        0 <= k1 < k2 < entries.len() ==> #[trigger] entries[k1].hit.chunk_id@
            != #[trigger] entries[k2].hit.chunk_id@
}

fn find_entry(entries: &Vec<Entry>, id: &String) -> (r: Option<usize>)
    ensures
        match r {
            Some(k) => k < entries.len() && entries[k as int].hit.chunk_id@ == id@,
            None => forall|k: int| 0 <= k < entries.len() ==> entries[k].hit.chunk_id@ != id@,
        },
{
    let mut k: usize = 0;
    while k < entries.len()
        invariant
            k <= entries.len(),
            forall|j: int| 0 <= j < k ==> entries[j].hit.chunk_id@ != id@,
        decreases entries.len() - k,
    {
        if entries[k].hit.chunk_id == *id {
            return Some(k);
        }
        k += 1;
    }
    None
}

fn fuse(vector_rank: Option<usize>, lexical_rank: Option<usize>) -> (s: Score)
    requires
        vector_rank matches Some(a) ==> a < MAX_RANKED,
        lexical_rank matches Some(b) ==> b < MAX_RANKED,
    ensures
        s@ == fused_score(rank_view(vector_rank), rank_view(lexical_rank)),
        comparable(s),
{
    match (vector_rank, lexical_rank) {
        (Some(a), Some(b)) => {
            let wa: u128 = RRF_K as u128 + a as u128 + 1;
            let wb: u128 = RRF_K as u128 + b as u128 + 1;
            assert(wa * wb <= 0x2_0000_0000 * 0x2_0000_0000) by (nonlinear_arith)
                requires
                    wa <= 0x2_0000_0000,
                    wb <= 0x2_0000_0000,
            ;
            assert(wa * wb > 0) by (nonlinear_arith)
                requires
                    wa > 0,
                    wb > 0,
            ;
            Score { num: wa + wb, den: wa * wb }
        },
        (Some(a), None) => Score { num: 1, den: RRF_K as u128 + a as u128 + 1 },
        (None, Some(b)) => Score { num: 1, den: RRF_K as u128 + b as u128 + 1 },
        (None, None) => Score { num: 0, den: 1 },
    }
}

fn score_ge(a: Score, b: Score) -> (r: bool)
    requires
        comparable(a),
        comparable(b),
    ensures
        r == a@.ge(b@),
{
    assert(a.num * b.den <= 0x4_0000_0000 * 0x4_0000_0000_0000_0000) by (nonlinear_arith)
        requires
            a.num <= 0x4_0000_0000,
            b.den <= 0x4_0000_0000_0000_0000,
    ;
    assert(b.num * a.den <= 0x4_0000_0000 * 0x4_0000_0000_0000_0000) by (nonlinear_arith)
        requires
            b.num <= 0x4_0000_0000,
            a.den <= 0x4_0000_0000_0000_0000,
    ;
    a.num * b.den >= b.num * a.den
}

/// What holds of the entries once the vector hits `a` and the lexical hits
/// `b` are read.
#[verifier::opaque]
spec fn collected(entries: Seq<Entry>, a: Seq<SearchResultView>, b: Seq<SearchResultView>) -> bool {
    &&& entry_hits(entries) == first_hits(a + b)
    &&& distinct_entries(entries)
    &&& forall|k: int|
        0 <= k < entries.len() ==> rank_view((#[trigger] entries[k]).vector_rank) == first_rank(
            a,
            entries[k].hit.chunk_id@,
        ) && rank_view(entries[k].lexical_rank) == first_rank(b, entries[k].hit.chunk_id@)
}

proof fn lemma_collected_start()
    ensures
        collected(Seq::empty(), Seq::empty(), Seq::empty()),
{
    reveal(collected);
    let none = Seq::<SearchResultView>::empty();
    assert(none + none =~= none);
    assert(entry_hits(Seq::empty()) =~= first_hits(none));
}

/// A chunk is among the entries exactly if one of the hits read so far
/// names it.
proof fn lemma_collected_find(
    entries: Seq<Entry>,
    a: Seq<SearchResultView>,
    b: Seq<SearchResultView>,
    id: Seq<char>,
)
    requires
        collected(entries, a, b),
    ensures
        (exists|k: int| 0 <= k < entries.len() && #[trigger] entries[k].hit.chunk_id@ == id)
            <==> first_rank(a + b, id) is Some,
{
    reveal(collected);
    lemma_first_hits(a + b);
    let fh = first_hits(a + b);
    if first_rank(a + b, id) is Some {
        let k = choose|k: int| 0 <= k < fh.len() && #[trigger] fh[k].chunk_id == id;
        assert(entry_hits(entries)[k] == entries[k].hit@);
        assert(entries[k].hit.chunk_id@ == id);
    }
    if exists|k: int| 0 <= k < entries.len() && #[trigger] entries[k].hit.chunk_id@ == id {
        let k = choose|k: int| 0 <= k < entries.len() && #[trigger] entries[k].hit.chunk_id@ == id;
        assert(entry_hits(entries)[k] == entries[k].hit@);
        assert(fh[k].chunk_id == id);
    }
}

/// Reading a hit whose chunk has no entry yet adds an entry for it.
proof fn lemma_collected_push(
    entries: Seq<Entry>,
    a: Seq<SearchResultView>,
    b: Seq<SearchResultView>,
    entry: Entry,
    from_vector: bool,
)
    requires
        collected(entries, a, b),
        from_vector ==> b.len() == 0,
        forall|k: int| 0 <= k < entries.len() ==> entries[k].hit.chunk_id@ != entry.hit.chunk_id@,
        from_vector ==> entry.vector_rank == Some(a.len() as usize) && entry.lexical_rank is None
            && a.len() <= usize::MAX,
        !from_vector ==> entry.vector_rank is None && entry.lexical_rank == Some(b.len() as usize)
            && b.len() <= usize::MAX,
    ensures
        from_vector ==> collected(entries.push(entry), a.push(entry.hit@), b),
        !from_vector ==> collected(entries.push(entry), a, b.push(entry.hit@)),
{
    let id = entry.hit.chunk_id@;
    let hit = entry.hit@;
    lemma_collected_find(entries, a, b, id);
    reveal(collected);
    let a2 = if from_vector {
        a.push(hit)
    } else {
        a
    };
    let b2 = if from_vector {
        b
    } else {
        b.push(hit)
    };
    if from_vector {
        assert(a + b =~= a);
        assert(a2 + b2 =~= a2);
        assert(a2.drop_last() =~= a);
    } else {
        assert((a2 + b2).drop_last() =~= a + b);
        assert(b2.drop_last() =~= b);
    }
    lemma_first_rank_concat_none(a, b, id);
    let next = entries.push(entry);
    assert(entry_hits(next) =~= entry_hits(entries).push(hit));
    assert forall|k: int| 0 <= k < next.len() implies rank_view(
        (#[trigger] next[k]).vector_rank,
    ) == first_rank(a2, next[k].hit.chunk_id@) && rank_view(next[k].lexical_rank) == first_rank(
        b2,
        next[k].hit.chunk_id@,
    ) by {
        if k < entries.len() {
            assert(next[k] == entries[k]);
            assert(entries[k].hit.chunk_id@ != id);
        }
    }
    assert(distinct_entries(next)) by {
        assert forall|k1: int, k2: int| 0 <= k1 < k2 < next.len() implies #[trigger] next[k1].hit.chunk_id@
            != #[trigger] next[k2].hit.chunk_id@ by {
            assert(next[k1] == entries[k1]);
            if k2 < entries.len() {
                assert(next[k2] == entries[k2]);
            }
        }
    }
}

/// Reading a vector hit whose chunk has an entry changes nothing.
proof fn lemma_collected_skip(entries: Seq<Entry>, a: Seq<SearchResultView>, hit: SearchResultView)
    requires
        collected(entries, a, Seq::empty()),
        exists|k: int| 0 <= k < entries.len() && #[trigger] entries[k].hit.chunk_id@ == hit.chunk_id,
    ensures
        collected(entries, a.push(hit), Seq::empty()),
{
    let none = Seq::<SearchResultView>::empty();
    lemma_collected_find(entries, a, none, hit.chunk_id);
    reveal(collected);
    let a2 = a.push(hit);
    assert(a + none =~= a);
    assert(a2 + none =~= a2);
    assert(a2.drop_last() =~= a);
    assert forall|k: int| 0 <= k < entries.len() implies rank_view(
        (#[trigger] entries[k]).vector_rank,
    ) == first_rank(a2, entries[k].hit.chunk_id@) by {
        let id = entries[k].hit.chunk_id@;
        assert(entry_hits(entries)[k] == entries[k].hit@);
        lemma_first_hits(a);
        assert(first_hits(a)[k].chunk_id == id);
        assert(first_rank(a, id) is Some);
    }
}

/// Reading a lexical hit whose chunk has an entry gives that entry its
/// lexical rank, unless it has one.
proof fn lemma_collected_mark(
    entries: Seq<Entry>,
    a: Seq<SearchResultView>,
    b: Seq<SearchResultView>,
    hit: SearchResultView,
    k: int,
    marked: Entry,
)
    requires
        collected(entries, a, b),
        0 <= k < entries.len(),
        entries[k].hit.chunk_id@ == hit.chunk_id,
        b.len() <= usize::MAX,
        marked.hit == entries[k].hit,
        marked.vector_rank == entries[k].vector_rank,
        marked.lexical_rank == match entries[k].lexical_rank {
            Some(r) => Some(r),
            None => Some(b.len() as usize),
        },
    ensures
        collected(entries.update(k, marked), a, b.push(hit)),
{
    lemma_collected_find(entries, a, b, hit.chunk_id);
    reveal(collected);
    let b2 = b.push(hit);
    let next = entries.update(k, marked);
    assert((a + b2).drop_last() =~= a + b);
    assert(b2.drop_last() =~= b);
    assert(entry_hits(next) =~= entry_hits(entries));
    assert forall|n: int| 0 <= n < next.len() implies rank_view((#[trigger] next[n]).vector_rank)
        == first_rank(a, next[n].hit.chunk_id@) && rank_view(next[n].lexical_rank) == first_rank(
        b2,
        next[n].hit.chunk_id@,
    ) by {
        if n != k {
            assert(next[n] == entries[n]);
            if n < k {
                assert(entries[n].hit.chunk_id@ != entries[k].hit.chunk_id@);
            } else {
                assert(entries[k].hit.chunk_id@ != entries[n].hit.chunk_id@);
            }
        }
    }
    assert(distinct_entries(next)) by {
        assert forall|k1: int, k2: int| 0 <= k1 < k2 < next.len() implies #[trigger] next[k1].hit.chunk_id@
            != #[trigger] next[k2].hit.chunk_id@ by {
            assert(next[k1].hit.chunk_id@ == entries[k1].hit.chunk_id@);
            assert(next[k2].hit.chunk_id@ == entries[k2].hit.chunk_id@);
        }
    }
}

/// What the entries hold once both lists are read.
proof fn lemma_collected_done(
    entries: Seq<Entry>,
    a: Seq<SearchResultView>,
    b: Seq<SearchResultView>,
)
    requires
        collected(entries, a, b),
    ensures
        entry_hits(entries) == first_hits(a + b),
        forall|k: int|
            0 <= k < entries.len() ==> rank_view((#[trigger] entries[k]).vector_rank)
                == first_rank(a, entries[k].hit.chunk_id@) && rank_view(
                entries[k].lexical_rank,
            ) == first_rank(b, entries[k].hit.chunk_id@),
{
    reveal(collected);
}

/// Reads the two lists into one entry per chunk, in the order of first
/// appearance.
fn collect_entries(vector_results: &[SearchResult], bm25_results: &[SearchResult]) -> (entries:
    Vec<Entry>)
    ensures
        collected(entries@, hit_views(vector_results@), hit_views(bm25_results@)),
{
    let ghost vs = hit_views(vector_results@);
    let ghost ls = hit_views(bm25_results@);
    let ghost none = Seq::<SearchResultView>::empty();
    let mut entries: Vec<Entry> = Vec::new();
    let mut i: usize = 0;
    proof {
        lemma_collected_start();
        assert(vs.take(0) =~= none);
    }
    while i < vector_results.len()
        invariant
            i <= vector_results.len(),
            vs == hit_views(vector_results@),
            none == Seq::<SearchResultView>::empty(),
            collected(entries@, vs.take(i as int), none),
        decreases vector_results.len() - i,
    {
        let hit = &vector_results[i];
        proof {
            assert(vs.take(i + 1) =~= vs.take(i as int).push(hit@));
        }
        match find_entry(&entries, &hit.chunk_id) {
            Some(k) => {
                proof {
                    lemma_collected_skip(entries@, vs.take(i as int), hit@);
                }
            },
            None => {
                let entry = Entry { hit: hit.clone(), vector_rank: Some(i), lexical_rank: None };
                proof {
                    lemma_collected_push(entries@, vs.take(i as int), none, entry, true);
                }
                entries.push(entry);
            },
        }
        i += 1;
    }
    proof {
        assert(vs.take(vector_results.len() as int) =~= vs);
        assert(ls.take(0) =~= none);
    }
    let mut j: usize = 0;
    while j < bm25_results.len()
        invariant
            j <= bm25_results.len(),
            vs == hit_views(vector_results@),
            ls == hit_views(bm25_results@),
            collected(entries@, vs, ls.take(j as int)),
        decreases bm25_results.len() - j,
    {
        let hit = &bm25_results[j];
        proof {
            assert(ls.take(j + 1) =~= ls.take(j as int).push(hit@));
        }
        match find_entry(&entries, &hit.chunk_id) {
            Some(k) => {
                let lexical_rank = match entries[k].lexical_rank {
                    Some(r) => Some(r),
                    None => Some(j),
                };
                let marked = Entry {
                    hit: entries[k].hit.clone(),
                    vector_rank: entries[k].vector_rank,
                    lexical_rank,
                };
                proof {
                    lemma_collected_mark(
                        entries@,
                        vs,
                        ls.take(j as int),
                        hit@,
                        k as int,
                        marked,
                    );
                }
                entries.set(k, marked);
            },
            None => {
                let entry = Entry { hit: hit.clone(), vector_rank: None, lexical_rank: Some(j) };
                proof {
                    lemma_collected_push(entries@, vs, ls.take(j as int), entry, false);
                }
                entries.push(entry);
            },
        }
        j += 1;
    }
    proof {
        assert(ls.take(bm25_results.len() as int) =~= ls);
    }
    entries
}

/// Reciprocal Rank Fusion of the vector hits and the lexical hits: one
/// result per chunk, carrying the metadata of the first list that named it
/// and its fused score, by descending score, cut to `top_k`. The scores that
/// the given hits carry are not read.
pub fn rrf_merge(vector_results: &[SearchResult], bm25_results: &[SearchResult], top_k: usize) -> (r:
    Vec<SearchResult>)
    requires
        vector_results.len() <= MAX_RANKED,
        bm25_results.len() <= MAX_RANKED,
    ensures
        hit_views(r@) == spec_rrf_merge(
            hit_views(vector_results@),
            hit_views(bm25_results@),
            top_k as nat,
        ),
{
    let ghost vs = hit_views(vector_results@);
    let ghost ls = hit_views(bm25_results@);
    let ghost cands = candidates(vs, ls);
    let entries = collect_entries(vector_results, bm25_results);
    let mut ranked: Vec<SearchResult> = Vec::new();
    let mut k: usize = 0;
    proof {
        lemma_collected_done(entries@, vs, ls);
        lemma_first_hits(vs + ls);
        assert(cands.len() == entries.len());
        assert(hit_views(ranked@) =~= rank_order(cands.take(0)));
    }
    while k < entries.len()
        invariant
            k <= entries.len(),
            vector_results.len() <= MAX_RANKED,
            bm25_results.len() <= MAX_RANKED,
            vs == hit_views(vector_results@),
            ls == hit_views(bm25_results@),
            cands == candidates(vs, ls),
            cands.len() == entries.len(),
            entry_hits(entries@) == first_hits(vs + ls),
            forall|n: int|
                0 <= n < entries.len() ==> rank_view((#[trigger] entries[n]).vector_rank)
                    == first_rank(vs, entries[n].hit.chunk_id@) && rank_view(
                    entries[n].lexical_rank,
                ) == first_rank(ls, entries[n].hit.chunk_id@),
            hit_views(ranked@) == rank_order(cands.take(k as int)),
            forall|n: int| 0 <= n < ranked.len() ==> comparable((#[trigger] ranked[n]).score),
        decreases entries.len() - k,
    {
        let entry = &entries[k];
        proof {
            lemma_first_rank(vs, entry.hit.chunk_id@);
            lemma_first_rank(ls, entry.hit.chunk_id@);
            assert(entry_hits(entries@)[k as int] == entry.hit@);
        }
        let score = fuse(entry.vector_rank, entry.lexical_rank);
        let scored = SearchResult {
            chunk_id: entry.hit.chunk_id.clone(),
            score,
            title: entry.hit.title.clone(),
            source_path: entry.hit.source_path.clone(),
            source_type: entry.hit.source_type.clone(),
            snippet: entry.hit.snippet.clone(),
        };
        assert(scored@ == cands[k as int]);
        let mut p: usize = ranked.len();
        while p > 0 && !score_ge(ranked[p - 1].score, score)
            invariant
                p <= ranked.len(),
                comparable(score),
                forall|n: int| 0 <= n < ranked.len() ==> comparable((#[trigger] ranked[n]).score),
                forall|n: int| p <= n < ranked.len() ==> !ranked[n].score@.ge(score@),
            decreases p,
        {
            p -= 1;
        }
        proof {
            let sorted = hit_views(ranked@);
            assert forall|n: int| p <= n < sorted.len() implies !sorted[n].score.ge(
                scored@.score,
            ) by {
                assert(sorted[n] == ranked@[n]@);
            }
            if p > 0 {
                assert(sorted[p - 1] == ranked@[p - 1]@);
            }
            lemma_insert_ranked_at(sorted, scored@, p as int);
            assert(cands.take(k + 1).drop_last() =~= cands.take(k as int));
            assert(cands.take(k + 1).last() == cands[k as int]);
            assert(hit_views(ranked@.insert(p as int, scored)) =~= sorted.insert(
                p as int,
                scored@,
            ));
        }
        ranked.insert(p, scored);
        k += 1;
    }
    proof {
        assert(cands.take(entries.len() as int) =~= cands);
    }
    let ghost full = ranked@;
    ranked.truncate(top_k);
    proof {
        if top_k <= full.len() {
            assert(hit_views(full.subrange(0, top_k as int)) =~= hit_views(full).take(
                top_k as int,
            ));
        }
    }
    ranked
}

} // verus!
