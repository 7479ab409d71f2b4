//! Fuzzy ranking shared by the worktree filter and the command palette:
//! every candidate the matcher scores, best score first, ties in the
//! candidates' own order.

use vstd::prelude::*;
use nucleo_matcher::pattern::{CaseMatching, Normalization, Pattern};
use nucleo_matcher::{Config, Matcher, Utf32Str};

verus! {

/// The score `nucleo_matcher` gives `hay` for `query`, parsed as a
/// pattern with smart case and smart normalisation and matched with the
/// default configuration; `None` when the pattern does not match.
pub uninterp spec fn nucleo_score(query: Seq<char>, hay: Seq<char>) -> Option<u32>;

/// Longest query whose score cannot overflow: each space-separated atom
/// adds at most `u16::MAX` into a `u32` sum.
pub open spec fn query_cap() -> int {
    131072
}

/// Scores `hay` against `query` with `nucleo_matcher`
/// (`Pattern::parse(query, CaseMatching::Smart, Normalization::Smart)`
/// then `Pattern::score` with a `Matcher` on `Config::DEFAULT`). The
/// contract only names the result: the matching algorithm itself is
/// nucleo's and is not restated. The matcher asserts that a haystack
/// has at most `u32::MAX` characters, and the per-atom scores are summed
/// in a `u32`, hence the two bounds.
#[verifier::external_body]
fn fuzzy_score(query: &str, hay: &str) -> (r: Option<u32>)
    requires
        query@.len() < query_cap(),
        hay@.len() <= u32::MAX,
    ensures
        r == nucleo_score(query@, hay@),
{
    let pattern = Pattern::parse(query, CaseMatching::Smart, Normalization::Smart);
    let mut matcher = Matcher::new(Config::DEFAULT);
    let mut buf: Vec<char> = Vec::new();
    pattern.score(Utf32Str::new(hay, &mut buf), &mut matcher)
}

/// Candidate `i` ranks before candidate `j`: a higher score, or the same
/// score and an earlier place in the list.
pub open spec fn ranks_before(query: Seq<char>, hays: Seq<Seq<char>>, i: int, j: int) -> bool {
    let si = nucleo_score(query, hays[i]).unwrap();
    let sj = nucleo_score(query, hays[j]).unwrap();
    si > sj || (si == sj && i < j)
}

/// `r` lists exactly the candidates that `query` matches, best first.
pub open spec fn is_ranking(query: Seq<char>, hays: Seq<Seq<char>>, r: Seq<usize>) -> bool {
    &&& forall|k: int| 0 <= k < r.len() ==> #[trigger] r[k] < hays.len() && nucleo_score(query, hays[r[k] as int]) is Some
    &&& forall|i: int| 0 <= i < hays.len() && (#[trigger] nucleo_score(query, hays[i])) is Some ==> r.contains(i as usize)
    &&& forall|a: int, b: int| 0 <= a < b < r.len() ==> ranks_before(query, hays, #[trigger] r[a] as int, #[trigger] r[b] as int)
}

/// A ranking lists each candidate once, so it is no longer than the list
/// of candidates.
pub proof fn lemma_ranking_len(query: Seq<char>, hays: Seq<Seq<char>>, r: Seq<usize>)
    requires
        is_ranking(query, hays, r),
    ensures
        r.no_duplicates(),
        r.len() <= hays.len(),
{
    assert forall|i: int, j: int| 0 <= i < r.len() && 0 <= j < r.len() && i != j implies r[i] != r[j] by {
        if i < j {
            assert(ranks_before(query, hays, r[i] as int, r[j] as int));
        } else {
            assert(ranks_before(query, hays, r[j] as int, r[i] as int));
        }
    }
    let ri = r.map_values(|x: usize| x as int);
    assert(ri.no_duplicates()) by {
        assert forall|i: int, j: int| 0 <= i < ri.len() && 0 <= j < ri.len() && i != j implies ri[i] != ri[j] by {
            assert(r[i] != r[j]);
        }
    }
    ri.unique_seq_to_set();
    vstd::set_lib::lemma_int_range(0, hays.len() as int);
    assert(ri.to_set().subset_of(vstd::set_lib::set_int_range(0, hays.len() as int))) by {
        assert forall|x: int| ri.to_set().contains(x) implies vstd::set_lib::set_int_range(0, hays.len() as int).contains(x) by {
            let k = choose|k: int| 0 <= k < ri.len() && ri[k] == x;
            assert(r[k] < hays.len());
        }
    }
    vstd::set_lib::lemma_len_subset(ri.to_set(), vstd::set_lib::set_int_range(0, hays.len() as int));
}

/// Listed best first: each candidate is ranked before every one after it.
pub open spec fn ranked_order(query: Seq<char>, hays: Seq<Seq<char>>, r: Seq<usize>) -> bool {
    forall|a: int, b: int| 0 <= a < b < r.len() ==> ranks_before(query, hays, #[trigger] r[a] as int, #[trigger] r[b] as int)
}

proof fn lemma_ranked_order_unique(query: Seq<char>, hays: Seq<Seq<char>>, r1: Seq<usize>, r2: Seq<usize>)
    requires
        ranked_order(query, hays, r1),
        ranked_order(query, hays, r2),
        forall|x: usize| r1.contains(x) <==> r2.contains(x),
    ensures
        r1 == r2,
    decreases r1.len(),
{
    if r1.len() == 0 {
        if r2.len() > 0 {
            assert(r2.contains(r2[0]));
        }
        assert(r1 =~= r2);
    } else {
        assert(r1.contains(r1[0]));
        assert(r2.len() > 0);
        if r1[0] != r2[0] {
            let j = choose|j: int| 0 <= j < r2.len() && r2[j] == r1[0];
            assert(r2.contains(r2[0]));
            let i = choose|i: int| 0 <= i < r1.len() && r1[i] == r2[0];
            assert(j != 0 && i != 0);
            assert(ranks_before(query, hays, r2[0] as int, r2[j] as int));
            assert(ranks_before(query, hays, r1[0] as int, r1[i] as int));
            assert(false);
        }
        let t1 = r1.drop_first();
        let t2 = r2.drop_first();
        assert forall|x: usize| t1.contains(x) <==> t2.contains(x) by {
            if t1.contains(x) {
                let k = choose|k: int| 0 <= k < t1.len() && t1[k] == x;
                assert(r1[k + 1] == x);
                assert(ranks_before(query, hays, r1[0] as int, r1[k + 1] as int));
                assert(x != r1[0]);
                assert(r1.contains(x));
                let m = choose|m: int| 0 <= m < r2.len() && r2[m] == x;
                assert(m != 0);
                assert(t2[m - 1] == x);
            }
            if t2.contains(x) {
                let k = choose|k: int| 0 <= k < t2.len() && t2[k] == x;
                assert(r2[k + 1] == x);
                assert(ranks_before(query, hays, r2[0] as int, r2[k + 1] as int));
                assert(x != r2[0]);
                assert(r2.contains(x));
                let m = choose|m: int| 0 <= m < r1.len() && r1[m] == x;
                assert(m != 0);
                assert(t1[m - 1] == x);
            }
        }
        assert(ranked_order(query, hays, t1)) by {
            assert forall|a: int, b: int| 0 <= a < b < t1.len() implies ranks_before(query, hays, #[trigger] t1[a] as int, #[trigger] t1[b] as int) by {
                assert(t1[a] == r1[a + 1] && t1[b] == r1[b + 1]);
            }
        }
        assert(ranked_order(query, hays, t2)) by {
            assert forall|a: int, b: int| 0 <= a < b < t2.len() implies ranks_before(query, hays, #[trigger] t2[a] as int, #[trigger] t2[b] as int) by {
                assert(t2[a] == r2[a + 1] && t2[b] == r2[b + 1]);
            }
        }
        lemma_ranked_order_unique(query, hays, t1, t2);
        assert(r1 =~= r2) by {
            assert(r1 =~= seq![r1[0]] + t1);
            assert(r2 =~= seq![r2[0]] + t2);
        }
    }
}

/// A query ranks the candidates one way only: two rankings of the same
/// query over the same candidates are the same list.
pub proof fn law_ranking_unique(query: Seq<char>, hays: Seq<Seq<char>>, r1: Seq<usize>, r2: Seq<usize>)
    requires
        is_ranking(query, hays, r1),
        is_ranking(query, hays, r2),
    ensures
        r1 == r2,
{
    assert forall|x: usize| r1.contains(x) <==> r2.contains(x) by {
        if r1.contains(x) {
            let k = choose|k: int| 0 <= k < r1.len() && r1[k] == x;
            assert(r1[k] < hays.len());
            assert(nucleo_score(query, hays[x as int]) is Some);
        }
        if r2.contains(x) {
            let k = choose|k: int| 0 <= k < r2.len() && r2[k] == x;
            assert(r2[k] < hays.len());
            assert(nucleo_score(query, hays[x as int]) is Some);
        }
    }
    lemma_ranked_order_unique(query, hays, r1, r2);
}

/// The candidates' texts.
pub open spec fn texts(v: Seq<String>) -> Seq<Seq<char>> {
    v.map_values(|s: String| s@)
}

/// `0, 1, …, n - 1`.
pub open spec fn identity(n: nat) -> Seq<usize> {
    Seq::new(n, |i: int| i as usize)
}

/// Every candidate's index, in order.
pub fn all_indices(n: usize) -> (r: Vec<usize>)
    ensures
        r@ == identity(n as nat),
{
    let mut out: Vec<usize> = Vec::new();
    let mut i: usize = 0;
    while i < n
        invariant
            i <= n,
            out@ == identity(i as nat),
        decreases n - i,
    {
        out.push(i);
        proof {
            assert(out@ =~= identity((i + 1) as nat));
        }
        i += 1;
    }
    out
}

/// The candidates `query` matches, best score first, ties in list order.
pub fn rank_matches(query: &str, hays: &[String]) -> (r: Vec<usize>)
    requires
        query@.len() < query_cap(),
        forall|i: int| 0 <= i < hays@.len() ==> (#[trigger] hays@[i])@.len() <= u32::MAX,
    ensures
        is_ranking(query@, texts(hays@), r@),
{
    let ghost hv = texts(hays@);
    let mut out: Vec<usize> = Vec::new();
    let mut scores: Vec<u32> = Vec::new();
    let mut i: usize = 0;
    while i < hays.len()
        invariant
            hv == texts(hays@),
            query@.len() < query_cap(),
            forall|q: int| 0 <= q < hays@.len() ==> (#[trigger] hays@[q])@.len() <= u32::MAX,
            i <= hays@.len(),
            scores@.len() == out@.len(),
            forall|k: int| 0 <= k < out@.len() ==> #[trigger] out@[k] < i && nucleo_score(query@, hv[out@[k] as int]) == Some(scores@[k]),
            forall|q: int| 0 <= q < i && (#[trigger] nucleo_score(query@, hv[q])) is Some ==> out@.contains(q as usize),
            forall|a: int, b: int| 0 <= a < b < out@.len() ==> ranks_before(query@, hv, #[trigger] out@[a] as int, #[trigger] out@[b] as int),
        decreases hays.len() - i,
    {
        let s = fuzzy_score(query, hays[i].as_str());
        proof {
            assert(hv[i as int] == hays@[i as int]@);
        }
        if let Some(score) = s {
            let mut p: usize = 0;
            while p < out.len() && scores[p] >= score
                invariant
                    p <= out@.len(),
                    scores@.len() == out@.len(),
                    forall|k: int| 0 <= k < p ==> scores@[k] >= score,
                decreases out.len() - p,
            {
                p += 1;
            }
            let ghost before = out@;
            let ghost before_scores = scores@;
            proof {
                assert forall|b: int| p <= b < before.len() implies before_scores[b] < score by {
                    if b > p {
                        assert(ranks_before(query@, hv, before[p as int] as int, before[b] as int));
                    }
                }
            }
            out.insert(p, i);
            scores.insert(p, score);
            proof {
                assert forall|k: int| 0 <= k < out@.len() implies #[trigger] out@[k] < i + 1 && nucleo_score(query@, hv[out@[k] as int]) == Some(scores@[k]) by {
                    if k < p {
                        assert(out@[k] == before[k]);
                    } else if k > p {
                        assert(out@[k] == before[k - 1]);
                    }
                }
                assert forall|q: int| 0 <= q < i + 1 && (#[trigger] nucleo_score(query@, hv[q])) is Some implies out@.contains(q as usize) by {
                    if q < i {
                        let k = choose|k: int| 0 <= k < before.len() && before[k] == q as usize;
                        if k < p {
                            assert(out@[k] == q as usize);
                        } else {
                            assert(out@[k + 1] == q as usize);
                        }
                    } else {
                        assert(out@[p as int] == i);
                    }
                }
                assert forall|a: int, b: int| 0 <= a < b < out@.len() implies ranks_before(query@, hv, #[trigger] out@[a] as int, #[trigger] out@[b] as int) by {
                    if b < p {
                        assert(out@[a] == before[a] && out@[b] == before[b]);
                    } else if a > p {
                        assert(out@[a] == before[a - 1] && out@[b] == before[b - 1]);
                    } else if a == p {
                        assert(out@[b] == before[b - 1]);
                        assert(scores@[b] == before_scores[b - 1]);
                    } else if b == p {
                        assert(out@[a] == before[a]);
                        assert(scores@[a] == before_scores[a]);
                    } else {
                        assert(out@[a] == before[a] && out@[b] == before[b - 1]);
                    }
                }
            }
        }
        i += 1;
    }
    out
}

} // verus!
