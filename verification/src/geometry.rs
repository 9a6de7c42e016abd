//! Shapes as read from the geometry file, and the pure mapper that turns
//! each supported shape kind into a standard geometry value.

use crate::CustomError;
use vstd::prelude::*;

verus! {

/// One planar coordinate. The conversion core never interprets a
/// coordinate: it copies the two 64-bit values through unchanged, so a
/// caller stores the bit pattern of whatever 64-bit number encoding its
/// source uses and reads the same bits back from the mapped geometry.
#[derive(Clone, Copy, PartialEq, Eq, Structural, Debug)]
pub struct Coord {
    pub x: u64,
    pub y: u64,
}

impl View for Coord {
    type V = Coord;

    open spec fn view(&self) -> Coord {
        *self
    }
}

impl DeepView for Coord {
    type V = Coord;

    open spec fn deep_view(&self) -> Coord {
        *self
    }
}

/// One polygon ring in file order, tagged outer or inner.
#[derive(Clone, PartialEq, Debug)]
pub enum Ring {
    Outer(Vec<Coord>),
    Inner(Vec<Coord>),
}

/// The mathematical value of a `Ring`.
pub enum RingView {
    Outer(Seq<Coord>),
    Inner(Seq<Coord>),
}

impl View for Ring {
    type V = RingView;

    open spec fn view(&self) -> RingView {
        match self {
            Ring::Outer(points) => RingView::Outer(points@),
            Ring::Inner(points) => RingView::Inner(points@),
        }
    }
}

impl DeepView for Ring {
    type V = RingView;

    open spec fn deep_view(&self) -> RingView {
        self.view()
    }
}

/// One geometric record decoded from the geometry file. Kinds beyond
/// point, polyline and polygon are carried as `Unsupported` and yield no
/// output feature.
#[derive(Clone, PartialEq, Debug)]
pub enum Shape {
    Point(Coord),
    Polyline(Vec<Vec<Coord>>),
    Polygon(Vec<Ring>),
    Unsupported,
}

/// The mathematical value of a `Shape`.
pub enum ShapeView {
    Point(Coord),
    Polyline(Seq<Seq<Coord>>),
    Polygon(Seq<RingView>),
    Unsupported,
}

impl View for Shape {
    type V = ShapeView;

    open spec fn view(&self) -> ShapeView {
        match self {
            Shape::Point(c) => ShapeView::Point(*c),
            Shape::Polyline(parts) => ShapeView::Polyline(parts.deep_view()),
            Shape::Polygon(rings) => ShapeView::Polygon(rings.deep_view()),
            Shape::Unsupported => ShapeView::Unsupported,
        }
    }
}

impl DeepView for Shape {
    type V = ShapeView;

    open spec fn deep_view(&self) -> ShapeView {
        self.view()
    }
}

/// A standard geometry value produced by the mapper.
#[derive(Clone, PartialEq, Debug)]
pub enum Geometry {
    Point(Coord),
    MultiLineString(Vec<Vec<Coord>>),
    Polygon(Vec<Vec<Coord>>),
}

/// The mathematical value of a `Geometry`.
pub enum GeometryView {
    Point(Coord),
    MultiLineString(Seq<Seq<Coord>>),
    Polygon(Seq<Seq<Coord>>),
}

impl View for Geometry {
    type V = GeometryView;

    open spec fn view(&self) -> GeometryView {
        match self {
            Geometry::Point(c) => GeometryView::Point(*c),
            Geometry::MultiLineString(parts) => GeometryView::MultiLineString(parts.deep_view()),
            Geometry::Polygon(rings) => GeometryView::Polygon(rings.deep_view()),
        }
    }
}

impl DeepView for Geometry {
    type V = GeometryView;

    open spec fn deep_view(&self) -> GeometryView {
        self.view()
    }
}

/// The point sequence a ring carries, with its outer/inner tag dropped.
pub open spec fn ring_points(r: RingView) -> Seq<Coord> {
    match r {
        RingView::Outer(points) => points,
        RingView::Inner(points) => points,
    }
}

/// Whether the mapper supports this shape kind.
pub open spec fn shape_supported(s: ShapeView) -> bool {
    !(s matches ShapeView::Unsupported)
}

/// What the mapper returns for each shape: a point maps to a point, a
/// polyline to a multi-line-string with the same parts, a polygon to a
/// polygon whose rings keep file order with outer and inner flattened
/// positionally, and an unsupported kind to nothing.
pub open spec fn mapped_shape(s: ShapeView) -> Option<GeometryView> {
    match s {
        ShapeView::Point(c) => Some(GeometryView::Point(c)),
        ShapeView::Polyline(parts) => Some(GeometryView::MultiLineString(parts)),
        ShapeView::Polygon(rings) => Some(
            GeometryView::Polygon(Seq::new(rings.len(), |i: int| ring_points(rings[i]))),
        ),
        ShapeView::Unsupported => None,
    }
}

/// The coordinate sequences a shape carries, in file order.
pub open spec fn shape_coordinates(s: ShapeView) -> Seq<Seq<Coord>> {
    match s {
        ShapeView::Point(c) => seq![seq![c]],
        ShapeView::Polyline(parts) => parts,
        ShapeView::Polygon(rings) => Seq::new(rings.len(), |i: int| ring_points(rings[i])),
        ShapeView::Unsupported => Seq::empty(),
    }
}

/// The coordinate sequences a mapped geometry carries, in output order.
pub open spec fn geometry_coordinates(g: GeometryView) -> Seq<Seq<Coord>> {
    match g {
        GeometryView::Point(c) => seq![seq![c]],
        GeometryView::MultiLineString(parts) => parts,
        GeometryView::Polygon(rings) => rings,
    }
}

/// Law: for every supported shape kind, the mapped geometry carries
/// exactly the input coordinate sequences, order preserved.
pub proof fn lemma_mapping_preserves_coordinates(s: ShapeView)
    requires
        shape_supported(s),
    ensures
        mapped_shape(s) is Some,
        geometry_coordinates(mapped_shape(s)->Some_0) == shape_coordinates(s),
{
}

/// Copies one coordinate sequence.
fn copy_points(points: &Vec<Coord>) -> (r: Vec<Coord>)
    ensures
        r@ == points@,
{
    let mut out: Vec<Coord> = Vec::new();
    let mut i: usize = 0;
    while i < points.len()
        invariant
            i <= points.len(),
            out@ == points@.take(i as int),
        decreases points.len() - i,
    {
        out.push(points[i]);
        i = i + 1;
        proof {
            assert(out@ =~= points@.take(i as int));
        }
    }
    proof {
        assert(points@.take(points@.len() as int) =~= points@);
    }
    out
}

/// Maps a point shape to a point geometry with the same coordinate;
/// any other shape kind is an internal-consistency defect of the caller
/// and is answered with an error.
pub fn process_point(shape: &Shape) -> (r: Result<Geometry, CustomError>)
    ensures
        match shape@ {
            ShapeView::Point(c) => (r matches Ok(g) && g@ == GeometryView::Point(c)),
            _ => (r matches Err(e) && e@ == "Expected Point shape"@),
        },
{
    match shape {
        Shape::Point(c) => Ok(Geometry::Point(*c)),
        _ => Err(CustomError::new(String::from_str("Expected Point shape"))),
    }
}

/// Maps a polyline shape to a multi-line-string geometry that mirrors the
/// parts exactly; any other shape kind is answered with an error.
pub fn process_polyline(shape: &Shape) -> (r: Result<Geometry, CustomError>)
    ensures
        match shape@ {
            ShapeView::Polyline(parts) => (r matches Ok(g) && g@ == GeometryView::MultiLineString(
                parts,
            )),
            _ => (r matches Err(e) && e@ == "Expected Polyline shape"@),
        },
{
    match shape {
        Shape::Polyline(parts) => {
            let mut out: Vec<Vec<Coord>> = Vec::new();
            let mut i: usize = 0;
            while i < parts.len()
                invariant
                    i <= parts.len(),
                    out@.len() == i as int,
                    out.deep_view() == parts.deep_view().take(i as int),
                decreases parts.len() - i,
            {
                let ghost j = i as int;
                out.push(copy_points(&parts[i]));
                i = i + 1;
                proof {
                    assert(out@.len() == j + 1);
                    assert(out.deep_view().len() == j + 1);
                    assert(out.deep_view()[j] == out@[j].deep_view());
                    assert(out@[j]@ == parts@[j]@);
                    assert(out.deep_view() =~~= parts.deep_view().take(i as int));
                }
            }
            proof {
                assert(parts.deep_view().take(parts.deep_view().len() as int) =~= parts.deep_view());
            }
            Ok(Geometry::MultiLineString(out))
        },
        _ => Err(CustomError::new(String::from_str("Expected Polyline shape"))),
    }
}

/// Maps a polygon shape to a polygon geometry whose coordinate sequences
/// mirror the rings in file order, outer and inner flattened positionally
/// with no reordering; any other shape kind is answered with an error.
pub fn process_polygon(shape: &Shape) -> (r: Result<Geometry, CustomError>)
    ensures
        match shape@ {
            ShapeView::Polygon(rings) => (r matches Ok(g) && g@ == GeometryView::Polygon(
                Seq::new(rings.len(), |i: int| ring_points(rings[i])),
            )),
            _ => (r matches Err(e) && e@ == "Expected Polygon shape"@),
        },
{
    match shape {
        Shape::Polygon(rings) => {
            let ghost ring_seqs: Seq<Seq<Coord>> = Seq::new(
                rings.deep_view().len(),
                |i: int| ring_points(rings.deep_view()[i]),
            );
            let mut out: Vec<Vec<Coord>> = Vec::new();
            let mut i: usize = 0;
            while i < rings.len()
                invariant
                    i <= rings.len(),
                    ring_seqs == Seq::new(
                        rings.deep_view().len(),
                        |j: int| ring_points(rings.deep_view()[j]),
                    ),
                    out@.len() == i as int,
                    out.deep_view() == ring_seqs.take(i as int),
                decreases rings.len() - i,
            {
                let ghost j = i as int;
                let points = match &rings[i] {
                    Ring::Outer(points) => copy_points(points),
                    Ring::Inner(points) => copy_points(points),
                };
                proof {
                    assert(rings.deep_view()[j] == rings@[j].deep_view());
                    assert(points@ == ring_points(rings.deep_view()[j]));
                }
                out.push(points);
                i = i + 1;
                proof {
                    assert(out@.len() == j + 1);
                    assert(out.deep_view().len() == j + 1);
                    assert(out.deep_view()[j] == out@[j].deep_view());
                    assert(out@[j]@ == ring_points(rings.deep_view()[j]));
                    assert(out.deep_view() =~~= ring_seqs.take(i as int));
                }
            }
            proof {
                assert(ring_seqs.take(ring_seqs.len() as int) =~= ring_seqs);
            }
            Ok(Geometry::Polygon(out))
        },
        _ => Err(CustomError::new(String::from_str("Expected Polygon shape"))),
    }
}

/// Routes one shape by kind to its mapper. A supported kind always maps,
/// an unsupported kind yields no geometry and no error; with correct
/// routing the mappers' internal-defect errors cannot arise, so the
/// result is always `Ok`.
pub fn map_shape(shape: &Shape) -> (r: Result<Option<Geometry>, CustomError>)
    ensures
        (r matches Ok(og) && og.deep_view() == mapped_shape(shape@)),
{
    match shape {
        Shape::Polygon(_) => {
            let g = process_polygon(shape)?;
            Ok(Some(g))
        },
        Shape::Polyline(_) => {
            let g = process_polyline(shape)?;
            Ok(Some(g))
        },
        Shape::Point(_) => {
            let g = process_point(shape)?;
            Ok(Some(g))
        },
        Shape::Unsupported => Ok(None),
    }
}

} // verus!
