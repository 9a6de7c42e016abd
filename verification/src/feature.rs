//! One unit of work: map the geometry of a (shape, attribute-record)
//! pair, decode every field, and build the output feature.

use crate::CustomError;
use crate::decode::{decode_spec, decode_value, Scalar, ScalarView};
use crate::geometry::{map_shape, mapped_shape, Geometry, GeometryView, Shape, ShapeView};
use vstd::prelude::*;

verus! {

/// The mathematical value of one attribute record: field names with the
/// canonical string forms of their cells, in record order.
pub type RecordView = Seq<(Seq<char>, Seq<char>)>;

/// The mathematical value of one (shape, attribute-record) pair.
pub type PairView = (ShapeView, RecordView);

/// One output feature: the mapped geometry and the decoded properties,
/// one per source field, in record order.
#[derive(Clone, PartialEq, Debug)]
pub struct Feature {
    pub geometry: Option<Geometry>,
    pub properties: Vec<(String, Scalar)>,
}

/// The mathematical value of a `Feature`.
pub struct FeatureView {
    pub geometry: Option<GeometryView>,
    pub properties: Seq<(Seq<char>, ScalarView)>,
}

impl View for Feature {
    type V = FeatureView;

    open spec fn view(&self) -> FeatureView {
        FeatureView { geometry: self.geometry.deep_view(), properties: self.properties.deep_view() }
    }
}

impl DeepView for Feature {
    type V = FeatureView;

    open spec fn deep_view(&self) -> FeatureView {
        self.view()
    }
}

/// The decoded property list of one attribute record: every field kept,
/// each cell decoded independently of its siblings, record order
/// preserved.
pub open spec fn decoded_record(rec: RecordView) -> Seq<(Seq<char>, ScalarView)> {
    Seq::new(rec.len(), |i: int| (rec[i].0, decode_spec(rec[i].1)))
}

/// The features one (shape, record) pair contributes: one feature for a
/// supported shape kind, none for an unsupported one.
pub open spec fn unit_features(pair: PairView) -> Seq<FeatureView> {
    match mapped_shape(pair.0) {
        Some(g) => seq![
            FeatureView { geometry: Some(g), properties: decoded_record(pair.1) },
        ],
        None => Seq::empty(),
    }
}

/// The feature sequence an optional feature stands for.
pub open spec fn feature_seq_of(of: Option<FeatureView>) -> Seq<FeatureView> {
    match of {
        Some(f) => seq![f],
        None => Seq::empty(),
    }
}

/// Decodes every field of one attribute record.
pub fn decode_record(record: &Vec<(String, String)>) -> (r: Vec<(String, Scalar)>)
    ensures
        r.deep_view() == decoded_record(record.deep_view()),
{
    let mut out: Vec<(String, Scalar)> = Vec::new();
    let mut i: usize = 0;
    while i < record.len()
        invariant
            i <= record.len(),
            out@.len() == i as int,
            out.deep_view() == decoded_record(record.deep_view()).take(i as int),
        decreases record.len() - i,
    {
        let name = record[i].0.clone();
        let value = decode_value(record[i].1.as_str());
        out.push((name, value));
        i = i + 1;
        proof {
            assert(out.deep_view() =~~= decoded_record(record.deep_view()).take(i as int));
        }
    }
    proof {
        let full = decoded_record(record.deep_view());
        assert(full.take(full.len() as int) =~= full);
    }
    out
}

/// Performs one unit of work: maps the geometry, decodes every field,
/// and builds the feature. A pair whose shape kind is unsupported
/// succeeds while contributing no feature. Routing inside is by shape
/// kind, so the mappers' internal-mismatch errors cannot arise and the
/// result is always `Ok`.
pub fn process_shape_record(shape: &Shape, record: &Vec<(String, String)>) -> (r: Result<
    Option<Feature>,
    CustomError,
>)
    ensures
        (r matches Ok(of) && feature_seq_of(of.deep_view()) == unit_features(
            (shape@, record.deep_view()),
        )),
{
    let geometry = match map_shape(shape)? {
        Some(g) => g,
        None => {
            return Ok(None);
        },
    };
    let properties = decode_record(record);
    Ok(Some(Feature { geometry: Some(geometry), properties }))
}

} // verus!
