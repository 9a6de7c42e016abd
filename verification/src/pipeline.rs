//! Pairing the two record streams positionally, the conversion core on
//! materialized inputs, and the assembly of the output document.

use crate::CustomError;
use crate::dispatch::{collected, count_supported, sequential_order};
use crate::feature::{process_shape_record, Feature, FeatureView, PairView, RecordView};
use crate::geometry::{Shape, ShapeView};
use vstd::prelude::*;

verus! {

/// The positional pairing of the two streams: the Nth shape with the
/// Nth attribute record, truncated to whichever stream ends first.
pub open spec fn paired(shapes: Seq<ShapeView>, records: Seq<RecordView>) -> Seq<PairView> {
    let n = if shapes.len() <= records.len() {
        shapes.len()
    } else {
        records.len()
    };
    Seq::new(n, |i: int| (shapes[i], records[i]))
}

/// Pairs the two streams positionally, truncating to whichever stream
/// ends first. The flag reports whether the counts differed — a warning
/// for the caller to pass on, never an error.
pub fn pair_records(shapes: Vec<Shape>, records: Vec<Vec<(String, String)>>) -> (r: (
    Vec<(Shape, Vec<(String, String)>)>,
    bool,
))
    ensures
        r.0.deep_view() == paired(shapes.deep_view(), records.deep_view()),
        r.1 == (shapes@.len() != records@.len()),
{
    let ghost s0 = shapes@;
    let ghost r0 = records@;
    let ghost s0d = shapes.deep_view();
    let ghost r0d = records.deep_view();
    let mismatch = shapes.len() != records.len();
    let n = if shapes.len() <= records.len() {
        shapes.len()
    } else {
        records.len()
    };
    let mut shapes = shapes;
    let mut records = records;
    let mut out: Vec<(Shape, Vec<(String, String)>)> = Vec::new();
    let mut i: usize = 0;
    while i < n
        invariant
            i <= n,
            n <= s0.len(),
            n <= r0.len(),
            shapes@ == s0.skip(i as int),
            records@ == r0.skip(i as int),
            out@.len() == i as int,
            forall|k: int|
                0 <= k < i ==> (#[trigger] out@[k]).0 == s0[k] && out@[k].1 == r0[k],
        decreases n - i,
    {
        let ghost j = i as int;
        let shape = shapes.remove(0);
        let record = records.remove(0);
        proof {
            assert(shape == s0.skip(j)[0]);
            assert(record == r0.skip(j)[0]);
            assert(shapes@ =~= s0.skip(j + 1));
            assert(records@ =~= r0.skip(j + 1));
        }
        out.push((shape, record));
        i = i + 1;
    }
    proof {
        let p = paired(s0d, r0d);
        assert(s0d.len() == s0.len());
        assert(r0d.len() == r0.len());
        assert forall|k: int| 0 <= k < n implies out.deep_view()[k] == p[k] by {
            assert(out.deep_view()[k] == out@[k].deep_view());
            assert(s0d[k] == s0[k].deep_view());
            assert(r0d[k] == r0[k].deep_view());
        }
        assert(out.deep_view() =~= p);
    }
    (out, mismatch)
}

/// Processes every pair in input order — the completion order of a
/// dispatcher bound to one unit at a time — and funnels the features
/// into one collection. A failing unit would surface the first failure
/// once the whole batch completes; here no unit can fail, so the result
/// is always `Ok`, holding one feature per supported pair.
pub fn convert_pairs(pairs: &Vec<(Shape, Vec<(String, String)>)>) -> (r: Result<
    Vec<Feature>,
    CustomError,
>)
    ensures
        (r matches Ok(fs) && {
            &&& fs.deep_view() == collected(
                pairs.deep_view(),
                sequential_order(pairs.deep_view().len()),
            )
            &&& fs@.len() == count_supported(pairs.deep_view())
        }),
{
    let mut out: Vec<Feature> = Vec::new();
    let mut i: usize = 0;
    while i < pairs.len()
        invariant
            i <= pairs@.len(),
            out.deep_view() == collected(pairs.deep_view(), sequential_order(i as nat)),
        decreases pairs@.len() - i,
    {
        let ghost j = i as int;
        let of = process_shape_record(&pairs[i].0, &pairs[i].1)?;
        proof {
            assert(pairs.deep_view()[j] == pairs@[j].deep_view());
        }
        match of {
            Some(f) => out.push(f),
            None => {},
        }
        i = i + 1;
        proof {
            assert(sequential_order((j + 1) as nat).drop_last() =~= sequential_order(j as nat));
            assert(sequential_order((j + 1) as nat).last() == j);
            assert(out.deep_view() =~= collected(pairs.deep_view(), sequential_order(i as nat)));
        }
    }
    proof {
        crate::dispatch::lemma_feature_count(pairs.deep_view());
    }
    Ok(out)
}

/// The output document: the collected features, wrapped with no
/// bounding box and no extra members.
#[derive(Clone, PartialEq, Debug)]
pub struct Collection {
    pub features: Vec<Feature>,
}

/// The mathematical value of a `Collection`.
pub struct CollectionView {
    pub features: Seq<FeatureView>,
}

impl View for Collection {
    type V = CollectionView;

    open spec fn view(&self) -> CollectionView {
        CollectionView { features: self.features.deep_view() }
    }
}

impl DeepView for Collection {
    type V = CollectionView;

    open spec fn deep_view(&self) -> CollectionView {
        self.view()
    }
}

/// Wraps the shared collection into the output document, once every
/// scheduled unit has finished.
pub fn assemble_collection(features: Vec<Feature>) -> (r: Collection)
    ensures
        r@.features == features.deep_view(),
{
    Collection { features }
}

/// The conversion core on materialized inputs: pairs the two streams
/// positionally, processes every pair, and wraps the features into the
/// output document. The flag reports a count mismatch — a warning that
/// never blocks conversion. Always `Ok`: unsupported shapes contribute
/// nothing and no unit can fail.
pub fn convert_shape_records(shapes: Vec<Shape>, records: Vec<Vec<(String, String)>>) -> (r: Result<
    (Collection, bool),
    CustomError,
>)
    ensures
        (r matches Ok(cw) && {
            let ps = paired(shapes.deep_view(), records.deep_view());
            &&& cw.0@.features == collected(ps, sequential_order(ps.len()))
            &&& cw.0@.features.len() == count_supported(ps)
            &&& cw.1 == (shapes@.len() != records@.len())
        }),
{
    let (pairs, mismatch) = pair_records(shapes, records);
    let features = convert_pairs(&pairs)?;
    Ok((assemble_collection(features), mismatch))
}

} // verus!
