//! The order in which the candidates of a selector are offered: best score
//! first, and first come first among equals.

use vstd::prelude::*;
use crate::score::{cost_of, score_of, signature_cost};
use crate::text::texts_of;

verus! {

/// Whether the candidate at `i` is offered before the one at `j`: its score
/// is higher, or the scores are equal and it came first.
pub open spec fn ranks_before(texts: Seq<Seq<char>>, i: int, j: int) -> bool {
    score_of(texts[i]) > score_of(texts[j]) || (score_of(texts[i]) == score_of(texts[j]) && i
        < j)
}

/// Whether `order` lists the positions of `texts` as they are offered: every
/// position once, each before all those that it ranks before.
pub open spec fn is_ranking(texts: Seq<Seq<char>>, order: Seq<usize>) -> bool {
    &&& order.len() == texts.len()
    &&& forall|k: int| 0 <= k < order.len() ==> (#[trigger] order[k]) < texts.len()
    &&& forall|i: usize| i < texts.len() ==> #[trigger] order.contains(i)
    &&& forall|a: int, b: int|
        0 <= a < b < order.len() ==> ranks_before(
            texts,
            (#[trigger] order[a]) as int,
            (#[trigger] order[b]) as int,
        )
}

/// The positions of the signatures in the order in which they are offered:
/// by falling score, signatures of one score in the order in which they came.
pub fn rank_order(signatures: &Vec<String>) -> (order: Vec<usize>)
    ensures
        is_ranking(texts_of(signatures@), order@),
{
    let n: usize = signatures.len();
    let ghost texts = texts_of(signatures@);
    let mut costs: Vec<u128> = Vec::new();
    let mut order: Vec<usize> = Vec::new();
    let mut i: usize = 0;
    while i < n
        invariant
            n == signatures.len(),
            texts == texts_of(signatures@),
            i <= n,
            costs.len() == i,
            order.len() == i,
            forall|j: int| 0 <= j < i ==> #[trigger] costs[j] == signature_cost(texts[j]),
            forall|k: int| 0 <= k < i ==> (#[trigger] order[k]) < i,
            forall|j: usize| j < i ==> #[trigger] order@.contains(j),
            forall|a: int, b: int|
                0 <= a < b < i ==> ranks_before(
                    texts,
                    (#[trigger] order[a]) as int,
                    (#[trigger] order[b]) as int,
                ),
        decreases n - i,
    {
        let cost: u128 = cost_of(signatures[i].as_str());
        let mut p: usize = i;
        while p > 0 && costs[order[p - 1]] > cost
            invariant
                p <= i,
                i < n,
                costs.len() == i,
                order.len() == i,
                forall|k: int| 0 <= k < i ==> (#[trigger] order[k]) < i,
                forall|k: int| p <= k < i ==> costs[(#[trigger] order[k]) as int] > cost,
            decreases p,
        {
            p = p - 1;
        }
        let ghost before = order@;
        costs.push(cost);
        order.insert(p, i);
        proof {
            before.insert_ensures(p as int, i);
            assert forall|j: usize| j < i + 1 implies #[trigger] order@.contains(j) by {
                if j < i {
                    assert(before.contains(j));
                    let k = choose|k: int| 0 <= k < before.len() && before[k] == j;
                    if k < p {
                        assert(order@[k] == j);
                    } else {
                        assert(order@[k + 1] == j);
                    }
                } else {
                    assert(order@[p as int] == j);
                }
            }
            assert forall|a: int, b: int| 0 <= a < b < i + 1 implies ranks_before(
                texts,
                (#[trigger] order[a]) as int,
                (#[trigger] order[b]) as int,
            ) by {
                let from_a = if a < p { a } else { a - 1 };
                let from_b = if b < p { b } else { b - 1 };
                if a == p {
                    assert(order[b] == before[from_b]);
                    assert(costs[before[from_b] as int] > cost);
                } else if b == p {
                    assert(order[a] == before[from_a]);
                    assert(p > 0);
                    if from_a < p - 1 {
                        assert(ranks_before(
                            texts,
                            before[from_a] as int,
                            before[p - 1] as int,
                        ));
                    }
                    assert(costs[before[p - 1] as int] <= cost);
                } else {
                    assert(order[a] == before[from_a]);
                    assert(order[b] == before[from_b]);
                    assert(ranks_before(texts, before[from_a] as int, before[from_b] as int));
                }
            }
        }
        i = i + 1;
    }
    order
}

/// Two rankings of the same texts agree on their first `k` places.
proof fn rankings_agree(texts: Seq<Seq<char>>, a: Seq<usize>, b: Seq<usize>, k: nat)
    requires
        is_ranking(texts, a),
        is_ranking(texts, b),
        k <= texts.len(),
    ensures
        forall|j: int| 0 <= j < k ==> a[j] == b[j],
    decreases k,
{
    if k > 0 {
        rankings_agree(texts, a, b, (k - 1) as nat);
        let at = k - 1;
        let x = a[at];
        let y = b[at];
        if x != y {
            assert(a.contains(y));
            let m = choose|m: int| 0 <= m < a.len() && a[m] == y;
            assert(b.contains(x));
            let w = choose|w: int| 0 <= w < b.len() && b[w] == x;
            if m < at {
                assert(b[m] == y);
                assert(ranks_before(texts, b[m] as int, b[at] as int));
            } else if w < at {
                assert(a[w] == x);
                assert(ranks_before(texts, a[w] as int, a[at] as int));
            } else {
                assert(ranks_before(texts, a[at] as int, a[m] as int));
                assert(ranks_before(texts, b[at] as int, b[w] as int));
            }
        }
    }
}

/// The order in which candidates are offered is fixed by their texts alone:
/// there is one ranking, whatever computes it.
pub proof fn ranking_is_unique(texts: Seq<Seq<char>>, a: Seq<usize>, b: Seq<usize>)
    requires
        is_ranking(texts, a),
        is_ranking(texts, b),
    ensures
        a == b,
{
    rankings_agree(texts, a, b, texts.len());
    assert(a =~= b);
}

/// In a ranking the scores never rise, and candidates of one score stand in
/// the order in which they came.
pub proof fn ranking_is_best_first(texts: Seq<Seq<char>>, order: Seq<usize>, a: int, b: int)
    requires
        is_ranking(texts, order),
        0 <= a < b < order.len(),
    ensures
        score_of(texts[order[a] as int]) >= score_of(texts[order[b] as int]),
        score_of(texts[order[a] as int]) == score_of(texts[order[b] as int]) ==> order[a]
            < order[b],
{
    assert(ranks_before(texts, order[a] as int, order[b] as int));
}

} // verus!
