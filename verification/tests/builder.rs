use mercator_core::index::build_index;
use mercator_core::model::{
    domain_tag, parse_domain, Axis, BuildError, Properties, Shape, Space, SpatialObject,
    ValueDomain,
};

fn bits(values: &[f64]) -> Vec<u64> {
    values.iter().map(|v| v.to_bits()).collect()
}

fn axis(unit: &str) -> Axis {
    Axis::new(unit.to_string(), bits(&[1.0, 0.0, 0.0]), "R", 0f64.to_bits(), 1f64.to_bits(), 10)
        .expect("the domain tag is known")
}

fn std_space() -> Space {
    Space {
        name: "std".to_string(),
        origin: bits(&[0.0, 0.0, 0.0]),
        axes: vec![axis("mm"), axis("mm"), axis("mm")],
    }
}

fn point_object(id: &str, space: &str, coords: [f64; 3]) -> SpatialObject {
    SpatialObject {
        properties: Properties { kind: "Feature".to_string(), id: id.to_string() },
        shapes: vec![Shape {
            kind: "Point".to_string(),
            reference_space: space.to_string(),
            vertices: vec![bits(&coords)],
        }],
    }
}

#[test]
fn build_sorts_and_deduplicates_ids() {
    let objects = vec![
        point_object("B", "std", [5.0, 5.0, 5.0]),
        point_object("A", "std", [0.0, 0.0, 0.0]),
        point_object("A", "std", [1.0, 1.0, 1.0]),
    ];
    let cores = build_index("10k", vec![std_space()], &objects).expect("all shapes are points");
    assert_eq!(cores.len(), 1);
    let core = &cores[0];
    assert_eq!(core.name, "10k");
    assert_eq!(core.version, "v0.1");
    let ids: Vec<&str> = core.properties.iter().map(|p| p.id.as_str()).collect();
    assert_eq!(ids, vec!["A", "B"]);
    assert!(core.properties.iter().all(|p| p.kind == "Feature"));
    // records follow input order; references point into the sorted list
    assert_eq!(core.records.len(), 3);
    assert_eq!(core.records[0].value, 1);
    assert_eq!(core.records[1].value, 0);
    assert_eq!(core.records[2].value, 0);
    assert_eq!(core.records[0].position, bits(&[5.0, 5.0, 5.0]));
}

#[test]
fn build_dedup_assigns_one_reference_per_id() {
    let objects = vec![
        point_object("A", "std", [0.0, 0.0, 0.0]),
        point_object("A", "std", [1.0, 1.0, 1.0]),
        point_object("B", "std", [5.0, 5.0, 5.0]),
    ];
    let cores = build_index("10k", vec![std_space()], &objects).unwrap();
    let core = &cores[0];
    assert_eq!(core.records[0].value, core.records[1].value);
    assert_ne!(core.records[0].value, core.records[2].value);
    assert_eq!(core.properties[core.records[0].value].id, "A");
    assert_eq!(core.properties[core.records[2].value].id, "B");
}

#[test]
fn build_twice_yields_identical_cores() {
    let objects = vec![
        point_object("oid3", "std", [2.0, 4.0, 8.0]),
        point_object("oid1", "std", [0.5, 0.25, 0.125]),
        point_object("oid2", "std", [1.0, 3.0, 9.0]),
        point_object("oid1", "std", [7.0, 7.0, 7.0]),
    ];
    let first = build_index("10k", vec![std_space()], &objects).unwrap();
    let second = build_index("10k", vec![std_space()], &objects).unwrap();
    assert_eq!(first, second);
}

#[test]
fn build_emits_one_record_per_vertex() {
    let objects = vec![SpatialObject {
        properties: Properties { kind: "Feature".to_string(), id: "A".to_string() },
        shapes: vec![Shape {
            kind: "Point".to_string(),
            reference_space: "std".to_string(),
            vertices: vec![bits(&[0.0, 0.0, 0.0]), bits(&[1.0, 1.0, 1.0])],
        }],
    }];
    let cores = build_index("10k", vec![std_space()], &objects).unwrap();
    assert_eq!(cores[0].records.len(), 2);
    assert_eq!(cores[0].records[0].position, bits(&[0.0, 0.0, 0.0]));
    assert_eq!(cores[0].records[1].position, bits(&[1.0, 1.0, 1.0]));
}

#[test]
fn build_rejects_non_point_shapes() {
    let objects = vec![SpatialObject {
        properties: Properties { kind: "Feature".to_string(), id: "A".to_string() },
        shapes: vec![Shape {
            kind: "Polygon".to_string(),
            reference_space: "std".to_string(),
            vertices: vec![bits(&[0.0, 0.0, 0.0])],
        }],
    }];
    match build_index("10k", vec![std_space()], &objects) {
        Err(BuildError::UnsupportedShape(tag)) => assert_eq!(tag, "Polygon"),
        other => panic!("expected an unsupported-shape error, got {:?}", other),
    }
}

#[test]
fn build_of_empty_input_is_empty() {
    let cores = build_index("10k", vec![std_space()], &Vec::new()).unwrap();
    assert_eq!(cores.len(), 1);
    assert!(cores[0].properties.is_empty());
    assert!(cores[0].records.is_empty());
}

#[test]
fn domain_tags_round_trip() {
    for d in [
        ValueDomain::Natural,
        ValueDomain::Integer,
        ValueDomain::Rational,
        ValueDomain::Real,
    ] {
        assert_eq!(parse_domain(domain_tag(d)).unwrap(), d);
    }
    assert_eq!(parse_domain("N").unwrap(), ValueDomain::Natural);
    assert_eq!(parse_domain("Z").unwrap(), ValueDomain::Integer);
    assert_eq!(parse_domain("Q").unwrap(), ValueDomain::Rational);
    assert_eq!(parse_domain("R").unwrap(), ValueDomain::Real);
}

#[test]
fn unknown_domain_tag_is_a_reported_error() {
    match parse_domain("X") {
        Err(BuildError::UnknownValueDomain(tag)) => assert_eq!(tag, "X"),
        other => panic!("expected an unknown-domain error, got {:?}", other),
    }
    match Axis::new("mm".to_string(), vec![], "complex", 0, 0, 0) {
        Err(BuildError::UnknownValueDomain(tag)) => assert_eq!(tag, "complex"),
        other => panic!("expected an unknown-domain error, got {:?}", other),
    }
}

#[test]
fn axis_construction_keeps_fields() {
    let a = Axis::new(
        "um".to_string(),
        bits(&[0.0, 1.0, 0.0]),
        "N",
        0f64.to_bits(),
        100f64.to_bits(),
        100,
    )
    .unwrap();
    assert_eq!(a.measurement_unit, "um");
    assert_eq!(a.unit_vector, bits(&[0.0, 1.0, 0.0]));
    assert_eq!(a.graduation.set, ValueDomain::Natural);
    assert_eq!(a.graduation.minimum, 0f64.to_bits());
    assert_eq!(a.graduation.maximum, 100f64.to_bits());
    assert_eq!(a.graduation.steps, 100);
}
