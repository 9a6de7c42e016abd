use shp2geojson::decode::Scalar;
use shp2geojson::dispatch::run_units_in_order;
use shp2geojson::feature::{process_shape_record, Feature};
use shp2geojson::geometry::{Coord, Geometry, Shape};
use shp2geojson::pipeline::{convert_pairs, convert_shape_records, pair_records};

fn coord(x: f64, y: f64) -> Coord {
    Coord { x: x.to_bits(), y: y.to_bits() }
}

fn named_record(name: &str) -> Vec<(String, String)> {
    vec![("name".to_string(), format!("Character(Some(\"{}\"))", name))]
}

fn same_feature_multiset(a: &[Feature], b: &[Feature]) -> bool {
    if a.len() != b.len() {
        return false;
    }
    for f in a {
        let in_a = a.iter().filter(|g| *g == f).count();
        let in_b = b.iter().filter(|g| *g == f).count();
        if in_a != in_b {
            return false;
        }
    }
    true
}

#[test]
fn unit_of_work_builds_one_feature() {
    let shape = Shape::Point(coord(1.0, 2.0));
    let record = named_record("A");
    let f = process_shape_record(&shape, &record).unwrap().unwrap();
    assert_eq!(f.geometry, Some(Geometry::Point(coord(1.0, 2.0))));
    assert_eq!(f.properties, vec![("name".to_string(), Scalar::Text("A".to_string()))]);
}

#[test]
fn unit_of_work_skips_unsupported_shapes() {
    let f = process_shape_record(&Shape::Unsupported, &named_record("A")).unwrap();
    assert_eq!(f, None);
}

#[test]
fn feature_count_equals_number_of_supported_pairs() {
    let pairs = vec![
        (Shape::Point(coord(0.0, 0.0)), named_record("A")),
        (Shape::Unsupported, named_record("B")),
        (Shape::Point(coord(1.0, 1.0)), named_record("C")),
        (Shape::Unsupported, named_record("D")),
    ];
    let features = convert_pairs(&pairs).unwrap();
    assert_eq!(features.len(), 2);
}

#[test]
fn mismatched_counts_warn_and_pair_over_the_shorter_stream() {
    let shapes: Vec<Shape> = (0..10).map(|i| Shape::Point(coord(i as f64, 0.0))).collect();
    let records: Vec<Vec<(String, String)>> = (0..9).map(|i| named_record(&i.to_string())).collect();
    let (collection, warned) = convert_shape_records(shapes, records).unwrap();
    assert!(warned);
    assert_eq!(collection.features.len(), 9);
}

#[test]
fn equal_counts_raise_no_warning() {
    let shapes = vec![Shape::Point(coord(0.0, 0.0))];
    let records = vec![named_record("A")];
    let (collection, warned) = convert_shape_records(shapes, records).unwrap();
    assert!(!warned);
    assert_eq!(collection.features.len(), 1);
}

#[test]
fn pairing_is_positional() {
    let shapes = vec![Shape::Point(coord(0.0, 0.0)), Shape::Point(coord(1.0, 1.0))];
    let records = vec![named_record("A"), named_record("B")];
    let (pairs, warned) = pair_records(shapes, records);
    assert!(!warned);
    assert_eq!(pairs.len(), 2);
    assert_eq!(pairs[0].0, Shape::Point(coord(0.0, 0.0)));
    assert_eq!(pairs[0].1, named_record("A"));
    assert_eq!(pairs[1].0, Shape::Point(coord(1.0, 1.0)));
    assert_eq!(pairs[1].1, named_record("B"));
}

#[test]
fn completion_order_does_not_change_the_feature_set() {
    let pairs = vec![
        (Shape::Point(coord(0.0, 0.0)), named_record("A")),
        (Shape::Unsupported, named_record("B")),
        (Shape::Point(coord(1.0, 1.0)), named_record("C")),
        (Shape::Point(coord(2.0, 2.0)), named_record("D")),
    ];
    let sequential: Vec<usize> = vec![0, 1, 2, 3];
    let shuffled: Vec<usize> = vec![2, 0, 3, 1];
    let reversed: Vec<usize> = vec![3, 2, 1, 0];
    let bound_one = run_units_in_order(&pairs, &sequential).unwrap();
    let bound_n_a = run_units_in_order(&pairs, &shuffled).unwrap();
    let bound_n_b = run_units_in_order(&pairs, &reversed).unwrap();
    assert!(same_feature_multiset(&bound_one, &bound_n_a));
    assert!(same_feature_multiset(&bound_one, &bound_n_b));
    assert_eq!(bound_one.len(), 3);
}

#[test]
fn three_point_records_produce_a_three_feature_document() {
    let shapes = vec![
        Shape::Point(coord(0.0, 0.0)),
        Shape::Point(coord(1.0, 1.0)),
        Shape::Point(coord(2.0, 2.0)),
    ];
    let records = vec![named_record("A"), named_record("B"), named_record("C")];
    let (collection, warned) = convert_shape_records(shapes, records).unwrap();
    assert!(!warned);
    assert_eq!(collection.features.len(), 3);
    let names = ["A", "B", "C"];
    for (i, feature) in collection.features.iter().enumerate() {
        assert!(matches!(feature.geometry, Some(Geometry::Point(_))));
        assert_eq!(
            feature.properties,
            vec![("name".to_string(), Scalar::Text(names[i].to_string()))]
        );
    }
}

#[test]
fn every_field_is_decoded_independently() {
    let record = vec![
        ("name".to_string(), "Character(Some(\"Tokyo\"))".to_string()),
        ("population".to_string(), "Numeric(Some(13960000))".to_string()),
        ("note".to_string(), "Character(None)".to_string()),
        ("area".to_string(), "Numeric(None)".to_string()),
    ];
    let shape = Shape::Point(coord(139.69, 35.68));
    let f = process_shape_record(&shape, &record).unwrap().unwrap();
    assert_eq!(
        f.properties,
        vec![
            ("name".to_string(), Scalar::Text("Tokyo".to_string())),
            ("population".to_string(), Scalar::Number("13960000".to_string())),
            ("note".to_string(), Scalar::Null),
            ("area".to_string(), Scalar::Text(String::new())),
        ]
    );
}
