//! What holds of every rank fusion: the order of the result, how a chunk of
//! both lists fares against a chunk of one, and what a single list gives.

use vstd::prelude::*;
use crate::fusion::{
    candidates, first_hits, first_rank, fused_hit, fused_score, insert_ranked, lemma_first_hits,
    lemma_first_rank, lemma_insert_ranked_at, rank_order, rank_weight, spec_rrf_merge, with_score,
};
use crate::types::{Fraction, SearchResultView};

verus! {

/// Every hit carries a fraction with a non-zero denominator.
pub open spec fn scores_wf(hits: Seq<SearchResultView>) -> bool {
    forall|i: int| 0 <= i < hits.len() ==> (#[trigger] hits[i]).score.wf()
}

/// No hit has a higher score than a hit before it.
pub open spec fn descending(hits: Seq<SearchResultView>) -> bool {
    forall|i: int, j: int|
        0 <= i < j < hits.len() ==> (#[trigger] hits[i]).score.ge((#[trigger] hits[j]).score)
}

/// No two hits name the same chunk.
pub open spec fn distinct_chunks(hits: Seq<SearchResultView>) -> bool {
    forall|i: int, j: int|
        0 <= i < j < hits.len() ==> (#[trigger] hits[i]).chunk_id != (#[trigger] hits[j]).chunk_id
}

/// `>=` on fractions is transitive.
pub proof fn lemma_score_ge_transitive(a: Fraction, b: Fraction, c: Fraction)
    requires
        a.wf(),
        b.wf(),
        c.wf(),
        a.ge(b),
        b.ge(c),
    ensures
        a.ge(c),
{
    let (an, ad) = (a.num, a.den);
    let (bn, bd) = (b.num, b.den);
    let (cn, cd) = (c.num, c.den);
    assert(an * bd * cd >= bn * ad * cd) by (nonlinear_arith)
        requires
            an * bd >= bn * ad,
            cd > 0,
    ;
    assert(bn * cd * ad >= cn * bd * ad) by (nonlinear_arith)
        requires
            bn * cd >= cn * bd,
            ad > 0,
    ;
    assert(an * cd >= cn * ad) by (nonlinear_arith)
        requires
            an * bd * cd >= bn * ad * cd,
            bn * cd * ad >= cn * bd * ad,
            bd > 0,
    ;
}

/// Where `x` goes when it is put into `sorted`.
pub open spec fn insert_position(sorted: Seq<SearchResultView>, x: SearchResultView) -> nat
    decreases sorted.len(),
{
    if sorted.len() == 0 || sorted.last().score.ge(x.score) {
        sorted.len()
    } else {
        insert_position(sorted.drop_last(), x)
    }
}

proof fn lemma_insert_position(sorted: Seq<SearchResultView>, x: SearchResultView)
    ensures
        insert_position(sorted, x) <= sorted.len(),
        forall|i: int|
            insert_position(sorted, x) <= i < sorted.len() ==> !(#[trigger] sorted[i]).score.ge(
                x.score,
            ),
        insert_position(sorted, x) == 0 || sorted[insert_position(sorted, x) - 1].score.ge(
            x.score,
        ),
        insert_ranked(sorted, x) == sorted.insert(insert_position(sorted, x) as int, x),
    decreases sorted.len(),
{
    if sorted.len() == 0 || sorted.last().score.ge(x.score) {
    } else {
        let front = sorted.drop_last();
        lemma_insert_position(front, x);
        let p = insert_position(front, x);
        assert forall|i: int| p <= i < sorted.len() implies !(#[trigger] sorted[i]).score.ge(
            x.score,
        ) by {
            if i < front.len() {
                assert(front[i] == sorted[i]);
            }
        }
        if p > 0 {
            assert(front[p - 1] == sorted[p - 1]);
        }
    }
    lemma_insert_ranked_at(sorted, x, insert_position(sorted, x) as int);
}

proof fn lemma_insert_keeps_descending(sorted: Seq<SearchResultView>, x: SearchResultView)
    requires
        scores_wf(sorted),
        x.score.wf(),
        descending(sorted),
    ensures
        descending(insert_ranked(sorted, x)),
        scores_wf(insert_ranked(sorted, x)),
{
    lemma_insert_position(sorted, x);
    let p = insert_position(sorted, x) as int;
    let out = sorted.insert(p, x);
    assert forall|i: int, j: int| 0 <= i < j < out.len() implies (#[trigger] out[i]).score.ge(
        (#[trigger] out[j]).score,
    ) by {
        if j < p {
            assert(out[i] == sorted[i] && out[j] == sorted[j]);
        } else if j == p {
            assert(out[i] == sorted[i]);
            assert(sorted[p - 1].score.ge(x.score));
            if i < p - 1 {
                assert(sorted[i].score.ge(sorted[p - 1].score));
                lemma_score_ge_transitive(sorted[i].score, sorted[p - 1].score, x.score);
            }
        } else if i == p {
            assert(out[j] == sorted[j - 1]);
            assert(!sorted[j - 1].score.ge(x.score));
        } else if i < p {
            assert(out[i] == sorted[i] && out[j] == sorted[j - 1]);
        } else {
            assert(out[i] == sorted[i - 1] && out[j] == sorted[j - 1]);
        }
    }
    assert forall|i: int| 0 <= i < out.len() implies (#[trigger] out[i]).score.wf() by {
        if i < p {
            assert(out[i] == sorted[i]);
        } else if i > p {
            assert(out[i] == sorted[i - 1]);
        }
    }
}

/// Ranking sorts: the result is in descending order of score, and it holds
/// the same hits, each as often as before.
pub proof fn lemma_rank_order_sorts(hits: Seq<SearchResultView>)
    requires
        scores_wf(hits),
    ensures
        descending(rank_order(hits)),
        scores_wf(rank_order(hits)),
        rank_order(hits).len() == hits.len(),
        rank_order(hits).to_multiset() == hits.to_multiset(),
    decreases hits.len(),
{
    if hits.len() == 0 {
        assert(hits =~= Seq::<SearchResultView>::empty());
    } else {
        let front = hits.drop_last();
        let x = hits.last();
        assert forall|i: int| 0 <= i < front.len() implies (#[trigger] front[i]).score.wf() by {
            assert(front[i] == hits[i]);
        }
        lemma_rank_order_sorts(front);
        let sorted = rank_order(front);
        lemma_insert_keeps_descending(sorted, x);
        lemma_insert_position(sorted, x);
        let p = insert_position(sorted, x) as int;
        vstd::seq_lib::to_multiset_insert(sorted, p, x);
        assert(front.push(x) =~= hits);
        vstd::seq_lib::to_multiset_build(front, x);
        assert(rank_order(hits).to_multiset() =~= hits.to_multiset());
    }
}

/// Ranking is stable: a hit that stands before another one and does not
/// score lower still stands before it after ranking.
pub proof fn lemma_rank_order_stable(hits: Seq<SearchResultView>, i: int, j: int)
    requires
        scores_wf(hits),
        0 <= i < j < hits.len(),
        hits[i].score.ge(hits[j].score),
    ensures
        exists|p: int, q: int|
            #![trigger rank_order(hits)[p], rank_order(hits)[q]]
            0 <= p < q < rank_order(hits).len() && rank_order(hits)[p] == hits[i] && rank_order(
                hits,
            )[q] == hits[j],
    decreases hits.len(),
{
    broadcast use vstd::seq_lib::to_multiset_contains;

    let front = hits.drop_last();
    let x = hits.last();
    let sorted = rank_order(front);
    assert forall|k: int| 0 <= k < front.len() implies (#[trigger] front[k]).score.wf() by {
        assert(front[k] == hits[k]);
    }
    lemma_rank_order_sorts(front);
    lemma_insert_position(sorted, x);
    let pos = insert_position(sorted, x) as int;
    let ranked = rank_order(hits);
    assert(ranked == sorted.insert(pos, x));
    if j < hits.len() - 1 {
        assert(front[i] == hits[i] && front[j] == hits[j]);
        lemma_rank_order_stable(front, i, j);
        let (p, q) = choose|p: int, q: int|
            #![trigger sorted[p], sorted[q]]
            0 <= p < q < sorted.len() && sorted[p] == front[i] && sorted[q] == front[j];
        let p_after = if p < pos {
            p
        } else {
            p + 1
        };
        let q_after = if q < pos {
            q
        } else {
            q + 1
        };
        assert(ranked[p_after] == hits[i] && ranked[q_after] == hits[j]);
    } else {
        assert(front[i] == hits[i]);
        assert(front.contains(front[i]));
        assert(front.to_multiset().count(front[i]) > 0);
        assert(sorted.contains(front[i]));
        let p = choose|p: int| 0 <= p < sorted.len() && sorted[p] == front[i];
        if p >= pos {
            assert(!sorted[p].score.ge(x.score));
        }
        assert(ranked[p] == hits[i] && ranked[pos] == hits[j]);
    }
}

/// A fused score is a fraction with a positive denominator.
pub proof fn lemma_fused_score_wf(vector_rank: Option<nat>, lexical_rank: Option<nat>)
    ensures
        fused_score(vector_rank, lexical_rank).wf(),
{
    if vector_rank is Some && lexical_rank is Some {
        let wa = rank_weight(vector_rank->0) as int;
        let wb = rank_weight(lexical_rank->0) as int;
        assert(0 < wa * wb) by (nonlinear_arith)
            requires
                0 < wa,
                0 < wb,
        ;
    }
}

/// A chunk that one of two lists names is named by their concatenation.
pub proof fn lemma_first_rank_concat_some(
    a: Seq<SearchResultView>,
    b: Seq<SearchResultView>,
    id: Seq<char>,
)
    requires
        first_rank(a, id) is Some || first_rank(b, id) is Some,
    ensures
        first_rank(a + b, id) is Some,
{
    lemma_first_rank(a + b, id);
    lemma_first_rank(a, id);
    lemma_first_rank(b, id);
    if first_rank(a, id) is Some {
        let r = first_rank(a, id)->0 as int;
        assert((a + b)[r] == a[r]);
    } else {
        let r = first_rank(b, id)->0 as int;
        assert((a + b)[a.len() + r] == b[r]);
    }
}

/// The candidates name the chunks of `first_hits`, each once and with the
/// fused score of its two ranks.
pub proof fn lemma_candidates(vector: Seq<SearchResultView>, lexical: Seq<SearchResultView>)
    ensures
        candidates(vector, lexical).len() == first_hits(vector + lexical).len(),
        scores_wf(candidates(vector, lexical)),
        distinct_chunks(candidates(vector, lexical)),
        forall|k: int|
            0 <= k < candidates(vector, lexical).len() ==> (#[trigger] candidates(
                vector,
                lexical,
            )[k]) == fused_hit(vector, lexical, first_hits(vector + lexical)[k]),
{
    let fh = first_hits(vector + lexical);
    let cands = candidates(vector, lexical);
    lemma_first_hits(vector + lexical);
    assert forall|k: int| 0 <= k < cands.len() implies (#[trigger] cands[k]).score.wf() by {
        let id = fh[k].chunk_id;
        lemma_fused_score_wf(first_rank(vector, id), first_rank(lexical, id));
    }
    assert forall|i: int, j: int| 0 <= i < j < cands.len() implies (#[trigger] cands[i]).chunk_id
        != (#[trigger] cands[j]).chunk_id by {
        assert(cands[i].chunk_id == fh[i].chunk_id);
        assert(cands[j].chunk_id == fh[j].chunk_id);
    }
}

/// Every ranked candidate carries the fused score of its chunk.
pub proof fn lemma_ranked_scores(
    vector: Seq<SearchResultView>,
    lexical: Seq<SearchResultView>,
    i: int,
)
    requires
        0 <= i < rank_order(candidates(vector, lexical)).len(),
    ensures
        rank_order(candidates(vector, lexical))[i].score == fused_score(
            first_rank(vector, rank_order(candidates(vector, lexical))[i].chunk_id),
            first_rank(lexical, rank_order(candidates(vector, lexical))[i].chunk_id),
        ),
{
    broadcast use vstd::seq_lib::to_multiset_contains;

    let cands = candidates(vector, lexical);
    let ranked = rank_order(cands);
    lemma_candidates(vector, lexical);
    lemma_rank_order_sorts(cands);
    assert(ranked.contains(ranked[i]));
    assert(ranked.to_multiset().count(ranked[i]) > 0);
    assert(cands.contains(ranked[i]));
    let k = choose|k: int| 0 <= k < cands.len() && cands[k] == ranked[i];
    assert(cands[k] == fused_hit(vector, lexical, first_hits(vector + lexical)[k]));
}

/// A chunk that one of the lists names is among the ranked candidates.
pub proof fn lemma_ranked_holds(
    vector: Seq<SearchResultView>,
    lexical: Seq<SearchResultView>,
    id: Seq<char>,
)
    requires
        first_rank(vector, id) is Some || first_rank(lexical, id) is Some,
    ensures
        exists|i: int|
            0 <= i < rank_order(candidates(vector, lexical)).len() && (#[trigger] rank_order(
                candidates(vector, lexical),
            )[i]).chunk_id == id,
{
    broadcast use vstd::seq_lib::to_multiset_contains;

    let fh = first_hits(vector + lexical);
    let cands = candidates(vector, lexical);
    let ranked = rank_order(cands);
    lemma_first_rank_concat_some(vector, lexical, id);
    lemma_first_hits(vector + lexical);
    lemma_candidates(vector, lexical);
    lemma_rank_order_sorts(cands);
    let k = choose|k: int| 0 <= k < fh.len() && #[trigger] fh[k].chunk_id == id;
    assert(cands[k].chunk_id == id);
    assert(cands.contains(cands[k]));
    assert(cands.to_multiset().count(cands[k]) > 0);
    assert(ranked.contains(cands[k]));
    let i = choose|i: int| 0 <= i < ranked.len() && ranked[i] == cands[k];
    assert(ranked[i].chunk_id == id);
}

/// The result names no chunk twice.
pub proof fn lemma_ranked_distinct(vector: Seq<SearchResultView>, lexical: Seq<SearchResultView>)
    ensures
        distinct_chunks(rank_order(candidates(vector, lexical))),
{
    broadcast use vstd::seq_lib::to_multiset_contains;

    let cands = candidates(vector, lexical);
    let ranked = rank_order(cands);
    lemma_candidates(vector, lexical);
    lemma_rank_order_sorts(cands);
    assert(cands.no_duplicates()) by {
        assert forall|i: int, j: int|
            0 <= i < cands.len() && 0 <= j < cands.len() && i != j implies cands[i]
            != cands[j] by {
            if i < j {
                assert(cands[i].chunk_id != cands[j].chunk_id);
            } else {
                assert(cands[j].chunk_id != cands[i].chunk_id);
            }
        }
    }
    cands.lemma_multiset_has_no_duplicates();
    ranked.lemma_multiset_has_no_duplicates_conv();
    assert forall|i: int, j: int| 0 <= i < j < ranked.len() implies (#[trigger] ranked[i]).chunk_id
        != (#[trigger] ranked[j]).chunk_id by {
        assert(ranked.contains(ranked[i]));
        assert(ranked.contains(ranked[j]));
        assert(ranked.to_multiset().count(ranked[i]) > 0);
        assert(ranked.to_multiset().count(ranked[j]) > 0);
        assert(cands.to_multiset().count(ranked[i]) > 0);
        assert(cands.to_multiset().count(ranked[j]) > 0);
        assert(cands.contains(ranked[i]));
        assert(cands.contains(ranked[j]));
        let k1 = choose|k: int| 0 <= k < cands.len() && cands[k] == ranked[i];
        let k2 = choose|k: int| 0 <= k < cands.len() && cands[k] == ranked[j];
        assert(ranked[i] != ranked[j]);
        if k1 < k2 {
            assert(cands[k1].chunk_id != cands[k2].chunk_id);
        } else if k2 < k1 {
            assert(cands[k2].chunk_id != cands[k1].chunk_id);
        }
    }
}

/// The rank of a chunk that exactly one of the two lists names.
pub open spec fn single_rank(
    vector: Seq<SearchResultView>,
    lexical: Seq<SearchResultView>,
    id: Seq<char>,
) -> Option<nat> {
    match (first_rank(vector, id), first_rank(lexical, id)) {
        (Some(b), None) => Some(b),
        (None, Some(b)) => Some(b),
        _ => None,
    }
}

/// A chunk of both lists scores strictly higher than a chunk of one list,
/// where each of its two ranks is less than 60 places behind the rank of the
/// other chunk.
pub proof fn lemma_both_beats_one(a1: nat, a2: nat, b: nat)
    requires
        a1 < b + 60,
        a2 < b + 60,
    ensures
        fused_score(Some(a1), Some(a2)).gt(fused_score(Some(b), None)),
        fused_score(Some(a1), Some(a2)).gt(fused_score(None, Some(b))),
{
    let x = rank_weight(a1) as int;
    let y = rank_weight(a2) as int;
    let z = rank_weight(b) as int;
    let m = z + 59;
    assert(x * m >= x * y) by (nonlinear_arith)
        requires
            x > 0,
            m >= y,
    ;
    assert(y * m >= x * y) by (nonlinear_arith)
        requires
            y > 0,
            m >= x,
    ;
    assert((x + y) * (2 * z) > (x + y) * m) by (nonlinear_arith)
        requires
            x + y > 0,
            2 * z > m,
    ;
    assert((x + y) * m == x * m + y * m) by (nonlinear_arith);
    assert((x + y) * (2 * z) == 2 * ((x + y) * z)) by (nonlinear_arith);
    assert((x + y) * z > 1 * (x * y));
}

/// In every fusion, a chunk `c` that both lists name stands before a chunk
/// that only one list names, where each rank of `c` is less than 60 places
/// behind the rank of that chunk: its fused score is strictly higher, and
/// wherever the other chunk is in the result, `c` is in the result before
/// it.
pub proof fn lemma_both_lists_rank_first(
    vector: Seq<SearchResultView>,
    lexical: Seq<SearchResultView>,
    top_k: nat,
    c: Seq<char>,
    j: int,
)
    requires
        first_rank(vector, c) is Some,
        first_rank(lexical, c) is Some,
        0 <= j < spec_rrf_merge(vector, lexical, top_k).len(),
        single_rank(vector, lexical, spec_rrf_merge(vector, lexical, top_k)[j].chunk_id) is Some,
        first_rank(vector, c)->0 < single_rank(
            vector,
            lexical,
            spec_rrf_merge(vector, lexical, top_k)[j].chunk_id,
        )->0 + 60,
        first_rank(lexical, c)->0 < single_rank(
            vector,
            lexical,
            spec_rrf_merge(vector, lexical, top_k)[j].chunk_id,
        )->0 + 60,
    ensures
        fused_score(first_rank(vector, c), first_rank(lexical, c)).gt(
            spec_rrf_merge(vector, lexical, top_k)[j].score,
        ),
        exists|i: int|
            0 <= i < j && (#[trigger] spec_rrf_merge(vector, lexical, top_k)[i]).chunk_id == c,
{
    let cands = candidates(vector, lexical);
    let ranked = rank_order(cands);
    let merged = spec_rrf_merge(vector, lexical, top_k);
    assert(merged[j] == ranked[j]);
    let a1 = first_rank(vector, c)->0;
    let a2 = first_rank(lexical, c)->0;
    let b = single_rank(vector, lexical, ranked[j].chunk_id)->0;
    lemma_ranked_scores(vector, lexical, j);
    lemma_both_beats_one(a1, a2, b);
    lemma_ranked_holds(vector, lexical, c);
    let i = choose|i: int| 0 <= i < ranked.len() && (#[trigger] ranked[i]).chunk_id == c;
    lemma_ranked_scores(vector, lexical, i);
    lemma_candidates(vector, lexical);
    lemma_rank_order_sorts(cands);
    if j < i {
        assert(ranked[j].score.ge(ranked[i].score));
    }
    assert(i < j);
    assert(merged[i] == ranked[i]);
}

/// A chunk at the top of both lists scores strictly higher than a chunk at
/// the top of exactly one list, wherever the other list has it, if at all.
pub proof fn lemma_top_of_both_beats_top_of_one(other: Option<nat>)
    requires
        other != Some(0nat),
    ensures
        fused_score(Some(0), Some(0)).gt(fused_score(Some(0), other)),
        fused_score(Some(0), Some(0)).gt(fused_score(other, Some(0))),
{
    let top = rank_weight(0) as int;
    assert(top == 61);
    assert(top * top == 3721) by (nonlinear_arith)
        requires
            top == 61,
    ;
    let best = fused_score(Some(0), Some(0));
    assert(best.num == 122 && best.den == 3721);
    match other {
        Some(r) => {
            let w = rank_weight(r) as int;
            assert(top * w == 61 * w && w * top == 61 * w) by (nonlinear_arith)
                requires
                    top == 61,
            ;
            assert(fused_score(Some(0), other).num == 61 + w);
            assert(fused_score(Some(0), other).den == 61 * w);
            assert(fused_score(other, Some(0)).num == w + 61);
            assert(fused_score(other, Some(0)).den == 61 * w);
            assert(122 * (61 * w) > (61 + w) * 3721) by (nonlinear_arith)
                requires
                    w > 61,
            ;
        },
        None => {
            assert(fused_score(Some(0), other).num == 1 && fused_score(Some(0), other).den == 61);
            assert(fused_score(other, Some(0)).num == 1 && fused_score(other, Some(0)).den == 61);
        },
    }
}

/// A chunk at the top of both lists scores strictly higher than a chunk
/// that is at the top of neither.
pub proof fn lemma_top_of_both_beats_the_rest(vector_rank: Option<nat>, lexical_rank: Option<nat>)
    requires
        vector_rank != Some(0nat),
        lexical_rank != Some(0nat),
    ensures
        fused_score(Some(0), Some(0)).gt(fused_score(vector_rank, lexical_rank)),
{
    let top = rank_weight(0) as int;
    assert(top == 61);
    assert(top * top == 3721) by (nonlinear_arith)
        requires
            top == 61,
    ;
    let best = fused_score(Some(0), Some(0));
    assert(best.num == 122 && best.den == 3721);
    let other = fused_score(vector_rank, lexical_rank);
    if vector_rank is Some && lexical_rank is Some {
        let wa = rank_weight(vector_rank->0) as int;
        let wb = rank_weight(lexical_rank->0) as int;
        assert(other.num == wa + wb && other.den == wa * wb);
        assert(122 * (wa * wb) > (wa + wb) * 3721) by (nonlinear_arith)
            requires
                wa >= 62,
                wb >= 62,
        ;
    } else if vector_rank is Some {
        assert(other.num == 1 && other.den == rank_weight(vector_rank->0));
    } else if lexical_rank is Some {
        assert(other.num == 1 && other.den == rank_weight(lexical_rank->0));
    } else {
        assert(other.num == 0 && other.den == 1);
    }
}

/// The fraction 2/61, unreduced: what both lists give to the chunk at their
/// top.
pub open spec fn top_score() -> Fraction {
    Fraction { num: 122, den: 3721 }
}

/// Where both lists have the same chunk at their top and at least one
/// result is asked for, that chunk is the first result, with the fused score
/// 2/61, and every other result scores strictly lower.
pub proof fn lemma_top_of_both_is_first(
    vector: Seq<SearchResultView>,
    lexical: Seq<SearchResultView>,
    top_k: nat,
)
    requires
        vector.len() > 0,
        lexical.len() > 0,
        vector[0].chunk_id == lexical[0].chunk_id,
        top_k >= 1,
    ensures
        spec_rrf_merge(vector, lexical, top_k).len() >= 1,
        spec_rrf_merge(vector, lexical, top_k)[0].chunk_id == vector[0].chunk_id,
        spec_rrf_merge(vector, lexical, top_k)[0].score == top_score(),
        forall|i: int|
            0 < i < spec_rrf_merge(vector, lexical, top_k).len() ==> spec_rrf_merge(
                vector,
                lexical,
                top_k,
            )[0].score.gt((#[trigger] spec_rrf_merge(vector, lexical, top_k)[i]).score),
{
    let c = vector[0].chunk_id;
    let cands = candidates(vector, lexical);
    let ranked = rank_order(cands);
    let merged = spec_rrf_merge(vector, lexical, top_k);
    lemma_first_rank(vector, c);
    lemma_first_rank(lexical, c);
    assert(first_rank(vector, c) == Some(0nat));
    assert(first_rank(lexical, c) == Some(0nat));
    let top = rank_weight(0) as int;
    assert(top * top == 3721) by (nonlinear_arith)
        requires
            top == 61,
    ;
    assert(fused_score(Some(0), Some(0)) == top_score());
    lemma_ranked_holds(vector, lexical, c);
    let i0 = choose|i: int| 0 <= i < ranked.len() && (#[trigger] ranked[i]).chunk_id == c;
    lemma_ranked_scores(vector, lexical, i0);
    lemma_candidates(vector, lexical);
    lemma_rank_order_sorts(cands);
    lemma_ranked_distinct(vector, lexical);
    assert forall|k: int| 0 <= k < ranked.len() && (#[trigger] ranked[k]).chunk_id
        != c implies top_score().gt(ranked[k].score) by {
        let d = ranked[k].chunk_id;
        lemma_first_rank(vector, d);
        lemma_first_rank(lexical, d);
        lemma_ranked_scores(vector, lexical, k);
        lemma_top_of_both_beats_the_rest(first_rank(vector, d), first_rank(lexical, d));
    }
    if ranked[0].chunk_id != c {
        assert(ranked[0].score.ge(ranked[i0].score));
    }
    assert(i0 == 0) by {
        if i0 > 0 {
            assert(ranked[0].chunk_id != ranked[i0].chunk_id);
        }
    }
    assert(merged[0] == ranked[0]);
    assert forall|i: int| 0 < i < merged.len() implies merged[0].score.gt(
        (#[trigger] merged[i]).score,
    ) by {
        assert(merged[i] == ranked[i]);
        assert(ranked[0].chunk_id != ranked[i].chunk_id);
    }
}

/// `list` with the score that each rank of a single list gives.
pub open spec fn single_list_scores(list: Seq<SearchResultView>) -> Seq<SearchResultView> {
    Seq::new(list.len(), |i: int| with_score(list[i], fused_score(Some(i as nat), None)))
}

proof fn lemma_first_hits_of_distinct(list: Seq<SearchResultView>)
    requires
        distinct_chunks(list),
    ensures
        first_hits(list) == list,
        forall|i: int|
            0 <= i < list.len() ==> first_rank(list, (#[trigger] list[i]).chunk_id) == Some(
                i as nat,
            ),
    decreases list.len(),
{
    if list.len() > 0 {
        let front = list.drop_last();
        assert forall|i: int, j: int| 0 <= i < j < front.len() implies (#[trigger] front[i]).chunk_id
            != (#[trigger] front[j]).chunk_id by {
            assert(front[i] == list[i] && front[j] == list[j]);
        }
        lemma_first_hits_of_distinct(front);
        lemma_first_rank(front, list.last().chunk_id);
        if first_rank(front, list.last().chunk_id) is Some {
            let r = first_rank(front, list.last().chunk_id)->0 as int;
            assert(front[r] == list[r]);
            assert(list[r].chunk_id != list[list.len() - 1].chunk_id);
        }
        assert(front.push(list.last()) =~= list);
        assert forall|i: int| 0 <= i < list.len() implies first_rank(
            list,
            (#[trigger] list[i]).chunk_id,
        ) == Some(i as nat) by {
            if i < front.len() {
                assert(front[i] == list[i]);
                assert(first_rank(front, front[i].chunk_id) == Some(i as nat));
            }
        }
    }
}

proof fn lemma_rank_order_of_descending(hits: Seq<SearchResultView>)
    requires
        forall|i: int|
            0 < i < hits.len() ==> hits[i - 1].score.ge((#[trigger] hits[i]).score),
    ensures
        rank_order(hits) == hits,
    decreases hits.len(),
{
    if hits.len() == 0 {
        assert(hits =~= Seq::<SearchResultView>::empty());
    } else {
        let front = hits.drop_last();
        assert forall|i: int| 0 < i < front.len() implies front[i - 1].score.ge(
            (#[trigger] front[i]).score,
        ) by {
            assert(front[i] == hits[i] && front[i - 1] == hits[i - 1]);
        }
        lemma_rank_order_of_descending(front);
        if front.len() > 0 {
            assert(front.last() == hits[hits.len() - 2]);
            assert(hits[hits.len() - 2].score.ge(hits[hits.len() - 1].score));
        }
        assert(front.push(hits.last()) =~= hits);
    }
}

/// Fusing one list with nothing gives that list back, cut to `top_k`, in its
/// own order, each hit with the score of its rank: provided the list names no
/// chunk twice.
pub proof fn lemma_single_list_keeps_order(list: Seq<SearchResultView>, top_k: nat)
    requires
        distinct_chunks(list),
    ensures
        spec_rrf_merge(list, Seq::empty(), top_k) == single_list_scores(list).take(
            if top_k <= list.len() {
                top_k as int
            } else {
                list.len() as int
            },
        ),
{
    let none = Seq::<SearchResultView>::empty();
    let scored = single_list_scores(list);
    lemma_first_hits_of_distinct(list);
    assert(list + none =~= list);
    let cands = candidates(list, none);
    assert(cands =~= scored) by {
        assert forall|i: int| 0 <= i < list.len() implies cands[i] == scored[i] by {
            assert(first_rank(none, list[i].chunk_id) is None);
            assert(first_rank(list, list[i].chunk_id) == Some(i as nat));
        }
    }
    assert forall|i: int| 0 < i < scored.len() implies scored[i - 1].score.ge(
        (#[trigger] scored[i]).score,
    ) by {
        assert(scored[i].score.den == rank_weight(i as nat));
        assert(scored[i - 1].score.den == rank_weight((i - 1) as nat));
    }
    lemma_rank_order_of_descending(scored);
    assert(scored.take(scored.len() as int) =~= scored);
}

} // verus!
