//! The fan-out/fan-in model of the concurrent dispatcher: one unit of
//! work per (shape, attribute-record) pair, every unit's features
//! funneled into one shared collection in whatever order the units
//! finish, and the proof that the completion order cannot change the
//! collected outcome.

use crate::CustomError;
use crate::feature::{process_shape_record, unit_features, Feature, FeatureView, PairView};
use crate::geometry::{shape_supported, Shape};
use vstd::multiset::Multiset;
use vstd::prelude::*;
use vstd::seq_lib::lemma_multiset_commutative;

verus! {

broadcast use
    vstd::seq_lib::group_to_multiset_ensures,
    vstd::multiset::group_multiset_axioms,
    vstd::multiset::lemma_multiset_empty_len;

/// The features of the listed pairs joined in completion order: entry
/// `k` of `order` names the pair whose unit finished in place `k`.
pub open spec fn collected(pairs: Seq<PairView>, order: Seq<int>) -> Seq<FeatureView>
    decreases order.len(),
{
    if order.len() == 0 {
        Seq::empty()
    } else {
        collected(pairs, order.drop_last()) + unit_features(pairs[order.last()])
    }
}

/// The same features as a multiset, summed unit by unit.
pub open spec fn collected_multiset(pairs: Seq<PairView>, order: Seq<int>) -> Multiset<
    FeatureView,
>
    decreases order.len(),
{
    if order.len() == 0 {
        Multiset::empty()
    } else {
        collected_multiset(pairs, order.drop_last()).add(
            unit_features(pairs[order.last()]).to_multiset(),
        )
    }
}

/// The completion order of a dispatcher bound to one unit at a time:
/// every pair in input order.
pub open spec fn sequential_order(n: nat) -> Seq<int> {
    Seq::new(n, |i: int| i)
}

/// Collecting in a given order yields, as a multiset, the sum of the
/// units' feature multisets in that order.
proof fn lemma_collected_to_multiset(pairs: Seq<PairView>, order: Seq<int>)
    ensures
        collected(pairs, order).to_multiset() == collected_multiset(pairs, order),
    decreases order.len(),
{
    if order.len() == 0 {
        assert(collected(pairs, order).to_multiset().len() == 0);
    } else {
        lemma_collected_to_multiset(pairs, order.drop_last());
        lemma_multiset_commutative(
            collected(pairs, order.drop_last()),
            unit_features(pairs[order.last()]),
        );
    }
}

/// Taking one unit out of the completion order takes exactly its
/// features out of the sum.
proof fn lemma_collected_multiset_remove(pairs: Seq<PairView>, order: Seq<int>, j: int)
    requires
        0 <= j < order.len(),
    ensures
        collected_multiset(pairs, order) == collected_multiset(pairs, order.remove(j)).add(
            unit_features(pairs[order[j]]).to_multiset(),
        ),
    decreases order.len(),
{
    let u_j = unit_features(pairs[order[j]]).to_multiset();
    if j == order.len() - 1 {
        assert(order.remove(j) =~= order.drop_last());
    } else {
        let dl = order.drop_last();
        let u_last = unit_features(pairs[order.last()]).to_multiset();
        lemma_collected_multiset_remove(pairs, dl, j);
        assert(order.remove(j).drop_last() =~= dl.remove(j));
        assert(order.remove(j).last() == order.last());
        assert(collected_multiset(pairs, dl.remove(j)).add(u_j).add(u_last)
            =~= collected_multiset(pairs, dl.remove(j)).add(u_last).add(u_j));
    }
}

/// Two completion orders that run the same units yield the same feature
/// sum, wherever in each order every unit finished.
proof fn lemma_collected_multiset_permuted(pairs: Seq<PairView>, order1: Seq<int>, order2: Seq<int>)
    requires
        order1.to_multiset() == order2.to_multiset(),
    ensures
        collected_multiset(pairs, order1) == collected_multiset(pairs, order2),
    decreases order1.len(),
{
    if order1.len() == 0 {
        assert(order1.to_multiset().len() == order1.len());
        assert(order2.to_multiset().len() == order2.len());
        assert(order2.len() == 0);
    } else {
        let x = order1.last();
        assert(order1.contains(x));
        assert(order2.to_multiset().count(x) > 0);
        assert(order2.contains(x));
        let j = choose|j: int| 0 <= j < order2.len() && order2[j] == x;
        lemma_collected_multiset_remove(pairs, order2, j);
        assert(order1.drop_last() =~= order1.remove(order1.len() - 1));
        assert(order1.remove(order1.len() - 1).to_multiset() == order1.to_multiset().remove(x));
        assert(order2.remove(j).to_multiset() == order2.to_multiset().remove(x));
        lemma_collected_multiset_permuted(pairs, order1.drop_last(), order2.remove(j));
    }
}

/// Law: the dispatcher's concurrency bound cannot change the outcome.
/// Whatever order the scheduled units finish in — the input order under
/// a bound of one, or any permutation of it under a wider bound — the
/// features funneled into the shared collection form the same multiset:
/// no update is lost and none is duplicated.
pub proof fn lemma_completion_order_irrelevant(
    pairs: Seq<PairView>,
    order1: Seq<int>,
    order2: Seq<int>,
)
    requires
        order1.to_multiset() == order2.to_multiset(),
    ensures
        collected(pairs, order1).to_multiset() == collected(pairs, order2).to_multiset(),
{
    lemma_collected_to_multiset(pairs, order1);
    lemma_collected_to_multiset(pairs, order2);
    lemma_collected_multiset_permuted(pairs, order1, order2);
}

/// How many of the listed pairs have a supported shape kind.
pub open spec fn count_supported(pairs: Seq<PairView>) -> int
    decreases pairs.len(),
{
    if pairs.len() == 0 {
        0
    } else {
        count_supported(pairs.drop_last()) + (if shape_supported(pairs.last().0) {
            1int
        } else {
            0int
        })
    }
}

/// The sequential collection of the first `m` pairs holds one feature
/// per supported pair among them.
proof fn lemma_feature_count_upto(pairs: Seq<PairView>, m: int)
    requires
        0 <= m <= pairs.len(),
    ensures
        collected(pairs, sequential_order(m as nat)).len() == count_supported(pairs.take(m)),
    decreases m,
{
    if m > 0 {
        lemma_feature_count_upto(pairs, m - 1);
        assert(sequential_order(m as nat).drop_last() =~= sequential_order((m - 1) as nat));
        assert(pairs.take(m).drop_last() =~= pairs.take(m - 1));
        assert(pairs.take(m).last() == pairs[m - 1]);
    }
}

/// Law: the output feature count equals the number of pairs whose shape
/// kind is supported; unsupported pairs contribute zero.
pub proof fn lemma_feature_count(pairs: Seq<PairView>)
    ensures
        collected(pairs, sequential_order(pairs.len())).len() == count_supported(pairs),
{
    lemma_feature_count_upto(pairs, pairs.len() as int);
    assert(pairs.take(pairs.len() as int) =~= pairs);
}

/// The completion order named by a list of pair indices.
pub open spec fn order_view(o: Seq<usize>) -> Seq<int> {
    Seq::new(o.len(), |i: int| o[i] as int)
}

/// Runs every listed unit in the given completion order and funnels the
/// features into one collection, as a dispatcher whose units finish in
/// that order does. Each unit either contributes its features or — were
/// an internal mismatch possible — would surface the first failure once
/// the batch completes; here every unit succeeds, so the result is
/// always `Ok`.
pub fn run_units_in_order(
    pairs: &Vec<(Shape, Vec<(String, String)>)>,
    order: &Vec<usize>,
) -> (r: Result<Vec<Feature>, CustomError>)
    requires
        forall|k: int| 0 <= k < order@.len() ==> (#[trigger] order@[k]) < pairs@.len(),
    ensures
        (r matches Ok(fs) && fs.deep_view() == collected(pairs.deep_view(), order_view(order@))),
{
    let mut out: Vec<Feature> = Vec::new();
    let mut k: usize = 0;
    while k < order.len()
        invariant
            k <= order@.len(),
            forall|t: int| 0 <= t < order@.len() ==> (#[trigger] order@[t]) < pairs@.len(),
            out.deep_view() == collected(pairs.deep_view(), order_view(order@).take(k as int)),
        decreases order@.len() - k,
    {
        let ghost j = k as int;
        let idx = order[k];
        let of = process_shape_record(&pairs[idx].0, &pairs[idx].1)?;
        proof {
            assert(pairs.deep_view()[idx as int] == pairs@[idx as int].deep_view());
        }
        match of {
            Some(f) => out.push(f),
            None => {},
        }
        k = k + 1;
        proof {
            let ov = order_view(order@);
            assert(ov.take(j + 1).drop_last() =~= ov.take(j));
            assert(ov.take(j + 1).last() == idx as int);
            assert(out.deep_view() =~= collected(pairs.deep_view(), ov.take(k as int)));
        }
    }
    proof {
        let ov = order_view(order@);
        assert(ov.take(order@.len() as int) =~= ov);
    }
    Ok(out)
}

} // verus!
