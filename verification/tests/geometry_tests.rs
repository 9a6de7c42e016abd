use shp2geojson::geometry::{
    map_shape, process_point, process_polygon, process_polyline, Coord, Geometry, Ring, Shape,
};

fn coord(x: f64, y: f64) -> Coord {
    Coord { x: x.to_bits(), y: y.to_bits() }
}

#[test]
fn point_maps_to_point_with_the_same_coordinates() {
    let c = coord(139.69, 35.68);
    let g = process_point(&Shape::Point(c)).unwrap();
    assert_eq!(g, Geometry::Point(c));
}

#[test]
fn polyline_maps_to_multi_line_string_with_parts_preserved() {
    let parts = vec![
        vec![coord(0.0, 0.0), coord(1.0, 1.0)],
        vec![coord(2.0, 2.0), coord(3.0, 3.0), coord(4.0, 4.0)],
    ];
    let g = process_polyline(&Shape::Polyline(parts.clone())).unwrap();
    assert_eq!(g, Geometry::MultiLineString(parts));
}

#[test]
fn polygon_rings_flatten_in_file_order() {
    let outer = vec![coord(0.0, 0.0), coord(4.0, 0.0), coord(4.0, 4.0), coord(0.0, 0.0)];
    let inner = vec![coord(1.0, 1.0), coord(2.0, 1.0), coord(2.0, 2.0), coord(1.0, 1.0)];
    let shape = Shape::Polygon(vec![Ring::Outer(outer.clone()), Ring::Inner(inner.clone())]);
    let g = process_polygon(&shape).unwrap();
    assert_eq!(g, Geometry::Polygon(vec![outer, inner]));
}

#[test]
fn inner_ring_first_stays_first() {
    let inner = vec![coord(1.0, 1.0), coord(2.0, 2.0)];
    let outer = vec![coord(0.0, 0.0), coord(9.0, 9.0)];
    let shape = Shape::Polygon(vec![Ring::Inner(inner.clone()), Ring::Outer(outer.clone())]);
    let g = process_polygon(&shape).unwrap();
    assert_eq!(g, Geometry::Polygon(vec![inner, outer]));
}

#[test]
fn unsupported_shape_maps_to_nothing_without_error() {
    let r = map_shape(&Shape::Unsupported).unwrap();
    assert_eq!(r, None);
}

#[test]
fn supported_shapes_route_to_their_mappers() {
    let c = coord(1.0, 2.0);
    let g = map_shape(&Shape::Point(c)).unwrap();
    assert_eq!(g, Some(Geometry::Point(c)));
}

#[test]
fn point_mapper_rejects_other_kinds() {
    let e = process_point(&Shape::Unsupported).unwrap_err();
    assert_eq!(e.message(), "Expected Point shape");
}

#[test]
fn polyline_mapper_rejects_other_kinds() {
    let e = process_polyline(&Shape::Point(coord(0.0, 0.0))).unwrap_err();
    assert_eq!(e.message(), "Expected Polyline shape");
}

#[test]
fn polygon_mapper_rejects_other_kinds() {
    let e = process_polygon(&Shape::Point(coord(0.0, 0.0))).unwrap_err();
    assert_eq!(e.message(), "Expected Polygon shape");
}
