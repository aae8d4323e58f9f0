//! The converter's persistence contract at concrete values: parsing a
//! dataset document and re-encoding it, in either of the two encodings the
//! offline pipeline writes, yields a structurally equal value back.

use mercator_core::model::{parse_domain, ValueDomain};

const SPACES_DOC: &str = r#"[{
    "name": "std",
    "origin": [0.0, 0.0, 0.0],
    "axes": [
        {
            "measurement_unit": "mm",
            "graduation": {"set": "R", "minimum": 0.0, "maximum": 1.0, "steps": 10},
            "unit_vector": [1.0, 0.0, 0.0]
        },
        {
            "measurement_unit": "mm",
            "graduation": {"set": "N", "minimum": 0.0, "maximum": 1.0, "steps": 10},
            "unit_vector": [0.0, 1.0, 0.0]
        }
    ]
}]"#;

const OBJECTS_DOC: &str = r#"[
    {"properties": {"type": "Feature", "id": "A"},
     "shapes": [{"type": "Point", "space": "std", "vertices": [[0.0, 0.0, 0.0]]}]},
    {"properties": {"id": "A", "type": "Feature"},
     "shapes": [{"type": "Point", "space": "std", "vertices": [[1.0, 1.0, 1.0]]}]}
]"#;

#[test]
fn json_documents_round_trip_structurally() {
    for doc in [SPACES_DOC, OBJECTS_DOC] {
        let parsed: serde_json::Value = serde_json::from_str(doc).unwrap();
        let reencoded = serde_json::to_string(&parsed).unwrap();
        let reparsed: serde_json::Value = serde_json::from_str(&reencoded).unwrap();
        // structural equality: field order is irrelevant
        assert_eq!(parsed, reparsed);
    }
}

#[test]
fn json_field_order_is_irrelevant() {
    let a: serde_json::Value =
        serde_json::from_str(r#"{"type": "Feature", "id": "A"}"#).unwrap();
    let b: serde_json::Value =
        serde_json::from_str(r#"{"id": "A", "type": "Feature"}"#).unwrap();
    assert_eq!(a, b);
}

#[test]
fn binary_encoding_round_trips() {
    // the binary form the converter writes holds the same plain values the
    // JSON documents carry: names, floating-point vectors, tags and counts
    let space: (String, Vec<f64>, Vec<(String, (String, f64, f64, u64), Vec<f64>)>) = (
        "std".to_string(),
        vec![0.0, 0.0, 0.0],
        vec![
            ("mm".to_string(), ("R".to_string(), 0.0, 1.0, 10), vec![1.0, 0.0, 0.0]),
            ("mm".to_string(), ("N".to_string(), 0.0, 1.0, 10), vec![0.0, 1.0, 0.0]),
        ],
    );
    let bytes = bincode::serialize(&space).unwrap();
    let loaded: (String, Vec<f64>, Vec<(String, (String, f64, f64, u64), Vec<f64>)>) =
        bincode::deserialize(&bytes).unwrap();
    assert_eq!(space, loaded);

    let object: ((String, String), Vec<(String, String, Vec<Vec<f64>>)>) = (
        ("Feature".to_string(), "A".to_string()),
        vec![("Point".to_string(), "std".to_string(), vec![vec![0.0, 0.0, 0.0]])],
    );
    let bytes = bincode::serialize(&object).unwrap();
    let loaded: ((String, String), Vec<(String, String, Vec<Vec<f64>>)>) =
        bincode::deserialize(&bytes).unwrap();
    assert_eq!(object, loaded);
}

#[test]
fn parsed_documents_use_known_domain_tags() {
    let parsed: serde_json::Value = serde_json::from_str(SPACES_DOC).unwrap();
    for space in parsed.as_array().unwrap() {
        for axis in space["axes"].as_array().unwrap() {
            let tag = axis["graduation"]["set"].as_str().unwrap();
            assert!(parse_domain(tag).is_ok());
        }
    }
    assert_eq!(parse_domain("R").unwrap(), ValueDomain::Real);
}
