use mcp_hybrid_search::fusion::rrf_merge;
use mcp_hybrid_search::types::{Score, SearchResult};

fn make_result(id: &str) -> SearchResult {
    SearchResult {
        chunk_id: id.to_string(),
        score: Score { num: 0, den: 1 },
        title: format!("Title {}", id),
        source_path: "/test".to_string(),
        source_type: "md".to_string(),
        snippet: "snippet".to_string(),
    }
}

fn value(s: Score) -> f64 {
    s.num as f64 / s.den as f64
}

fn same(s: Score, num: u128, den: u128) -> bool {
    s.den != 0 && s.num * den == num * s.den
}

#[test]
fn test_rrf_merge_empty() {
    let result = rrf_merge(&[], &[], 10);
    assert!(result.is_empty());
}

#[test]
fn test_rrf_merge_single_source() {
    let vec_results = vec![make_result("a"), make_result("b")];
    let result = rrf_merge(&vec_results, &[], 10);
    assert_eq!(result.len(), 2);
    assert!(value(result[0].score) > value(result[1].score));
}

#[test]
fn test_rrf_merge_overlap_boosted() {
    let vec_results = vec![make_result("a"), make_result("b")];
    let bm25_results = vec![make_result("a"), make_result("c")];
    let result = rrf_merge(&vec_results, &bm25_results, 10);
    assert_eq!(result[0].chunk_id, "a");
    assert!(value(result[0].score) > value(result[1].score));
}

#[test]
fn test_rrf_merge_top_k_limit() {
    let vec_results: Vec<SearchResult> =
        (0..20).map(|i| make_result(&format!("v{}", i))).collect();
    let bm25_results: Vec<SearchResult> =
        (0..20).map(|i| make_result(&format!("b{}", i))).collect();
    let result = rrf_merge(&vec_results, &bm25_results, 5);
    assert_eq!(result.len(), 5);
}

#[test]
fn test_rrf_merge_scores_are_positive() {
    let vec_results = vec![make_result("a")];
    let bm25_results = vec![make_result("b")];
    let result = rrf_merge(&vec_results, &bm25_results, 10);
    for r in &result {
        assert!(value(r.score) > 0.0);
    }
}

#[test]
fn rrf_overlap_scores_are_exact() {
    let vec_results = vec![make_result("a"), make_result("b")];
    let bm25_results = vec![make_result("a"), make_result("c")];
    let result = rrf_merge(&vec_results, &bm25_results, 3);
    let ids: Vec<&str> = result.iter().map(|r| r.chunk_id.as_str()).collect();
    assert_eq!(ids, vec!["a", "b", "c"]);
    assert!(same(result[0].score, 2, 61));
    assert!(same(result[1].score, 1, 62));
    assert!(same(result[2].score, 1, 62));
    assert!((value(result[0].score) - 2.0 / 61.0).abs() < 1e-15);
}

#[test]
fn rrf_top_k_of_disjoint_lists() {
    let vec_results: Vec<SearchResult> =
        (0..20).map(|i| make_result(&format!("v{}", i))).collect();
    let bm25_results: Vec<SearchResult> =
        (0..20).map(|i| make_result(&format!("b{}", i))).collect();
    let result = rrf_merge(&vec_results, &bm25_results, 5);
    let ids: Vec<&str> = result.iter().map(|r| r.chunk_id.as_str()).collect();
    assert_eq!(ids, vec!["v0", "b0", "v1", "b1", "v2"]);
    assert!(same(result[0].score, 1, 61));
    assert!(same(result[4].score, 1, 63));
}

#[test]
fn rrf_single_list_keeps_order_and_cuts() {
    let list: Vec<SearchResult> = (0..8).map(|i| make_result(&format!("x{}", i))).collect();
    let result = rrf_merge(&list, &[], 5);
    assert_eq!(result.len(), 5);
    for (i, r) in result.iter().enumerate() {
        assert_eq!(r.chunk_id, format!("x{}", i));
        assert!(same(r.score, 1, 61 + i as u128));
    }
    let lexical_only = rrf_merge(&[], &list, 100);
    assert_eq!(lexical_only.len(), 8);
    assert_eq!(lexical_only[7].chunk_id, "x7");
}

#[test]
fn rrf_metadata_comes_from_the_vector_list() {
    let mut v = make_result("a");
    v.title = "from vector".to_string();
    let mut l = make_result("a");
    l.title = "from lexical".to_string();
    let result = rrf_merge(&[v], &[l], 10);
    assert_eq!(result.len(), 1);
    assert_eq!(result[0].title, "from vector");
    assert!(same(result[0].score, 2, 61));
}

#[test]
fn rrf_input_scores_are_not_read() {
    let mut a = make_result("a");
    a.score = Score { num: 1, den: 1000 };
    let mut b = make_result("b");
    b.score = Score { num: 999, den: 1 };
    let result = rrf_merge(&[a, b], &[], 10);
    assert_eq!(result[0].chunk_id, "a");
    assert!(same(result[0].score, 1, 61));
    assert!(same(result[1].score, 1, 62));
}

#[test]
fn rrf_both_lists_beat_one_list_within_sixty_ranks() {
    let vector: Vec<SearchResult> = (0..30).map(|i| make_result(&format!("v{}", i))).collect();
    let mut lexical: Vec<SearchResult> =
        (0..29).map(|i| make_result(&format!("l{}", i))).collect();
    lexical.push(make_result("v29"));
    let result = rrf_merge(&vector, &lexical, 100);
    assert_eq!(result[0].chunk_id, "v29");
    assert!(same(result[0].score, 2, 90));
    assert_eq!(result[1].chunk_id, "v0");
}

#[test]
fn rrf_repeated_chunk_counts_once_per_list() {
    let result = rrf_merge(&[make_result("a"), make_result("a"), make_result("b")], &[], 10);
    let ids: Vec<&str> = result.iter().map(|r| r.chunk_id.as_str()).collect();
    assert_eq!(ids, vec!["a", "b"]);
    assert!(same(result[0].score, 1, 61));
    assert!(same(result[1].score, 1, 63));
}

#[test]
fn rrf_top_k_zero_gives_nothing() {
    let result = rrf_merge(&[make_result("a")], &[make_result("b")], 0);
    assert!(result.is_empty());
}

#[test]
fn rrf_top_of_both_beats_top_of_one() {
    let both = rrf_merge(&[make_result("a")], &[make_result("a")], 10);
    let one = rrf_merge(
        &[make_result("b"), make_result("c")],
        &[make_result("c"), make_result("b")],
        10,
    );
    assert!(same(both[0].score, 2, 61));
    assert!(same(one[0].score, 123, 61 * 62));
    assert!(both[0].score.num * one[0].score.den > one[0].score.num * both[0].score.den);
    let alone = rrf_merge(&[make_result("d")], &[], 10);
    assert!(both[0].score.num * alone[0].score.den > alone[0].score.num * both[0].score.den);
}

#[test]
fn rrf_one_list_wins_when_ranks_are_far_apart() {
    let mut vector: Vec<SearchResult> = (0..200).map(|i| make_result(&format!("v{}", i))).collect();
    vector.push(make_result("both"));
    let mut lexical: Vec<SearchResult> =
        (0..200).map(|i| make_result(&format!("l{}", i))).collect();
    lexical.push(make_result("both"));
    let result = rrf_merge(&vector, &lexical, 1000);
    assert_eq!(result.len(), 401);
    assert_eq!(result[0].chunk_id, "v0");
    assert_eq!(result[1].chunk_id, "l0");
    let position = result.iter().position(|r| r.chunk_id == "both").unwrap();
    assert!(same(result[position].score, 2, 261));
    assert!(position > 1);
    for pair in result.windows(2) {
        assert!(pair[0].score.num * pair[1].score.den >= pair[1].score.num * pair[0].score.den);
    }
}

#[test]
fn rrf_ties_keep_first_appearance_order() {
    let result = rrf_merge(
        &[make_result("x"), make_result("y")],
        &[make_result("p"), make_result("q")],
        10,
    );
    let ids: Vec<&str> = result.iter().map(|r| r.chunk_id.as_str()).collect();
    assert_eq!(ids, vec!["x", "p", "y", "q"]);
}
