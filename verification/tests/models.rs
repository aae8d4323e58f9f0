use mercator_core::api_models::{
    Axis, DataSet, Datasets, Datasets1, Filters, InlineResponse200, InlineResponse2001,
    InlineResponse2002, PartialUpdate, PartialUpdate1, PartialUpdate2, Point, Properties, Shape,
    Space, Spaces, Spaces1, SpatialObject, SpatialObjects, SpatialObjects1,
    ValidNumbersOnThisAxis,
};
use mercator_core::order::{str_cmp, str_eq, StrOrder};

#[test]
fn new_documents_start_empty() {
    let a = Axis::new();
    assert!(a.measurement_unit.is_none());
    assert!(a.coordinates.is_none());
    assert!(a.origin.is_none());
    assert!(a.unit_vector.is_none());
    let d = DataSet::new();
    assert!(d.name.is_none() && d.version.is_none() && d.scales.is_none());
    assert!(Datasets::new().list.is_none());
    assert!(Datasets1::new().list.is_none());
    let p = Properties::new();
    assert!(p.id.is_none() && p.label.is_none());
    let s = Shape::new();
    assert!(s.label.is_none() && s.vertices.is_none() && s.space.is_none());
    let sp = Space::new();
    assert!(sp.name.is_none() && sp.axes.is_none());
    assert!(Spaces::new().list.is_none());
    assert!(Spaces1::new().list.is_none());
    let o = SpatialObject::new();
    assert!(o.shape.is_none() && o.properties.is_none());
    assert!(SpatialObjects::new().list.is_none());
    assert!(SpatialObjects1::new().list.is_none());
    let v = ValidNumbersOnThisAxis::new();
    assert!(v.set.is_none() && v.minimum.is_none() && v.maximum.is_none() && v.steps.is_none());
}

#[test]
fn new_filters_ask_for_full_documents() {
    let f = Filters::new();
    assert!(f.filter.is_none());
    assert_eq!(f.ids_only, Some(false));
}

#[test]
fn new_responses_and_updates_start_empty() {
    let r = InlineResponse200::new();
    assert!(r.previous.is_none() && r.current.is_none());
    let r = InlineResponse2001::new();
    assert!(r.previous.is_none() && r.current.is_none());
    let r = InlineResponse2002::new();
    assert!(r.previous.is_none() && r.current.is_none());
    let u = PartialUpdate::new();
    assert!(u.name.is_none() && u.attribute.is_none() && u.value.is_none());
    let u = PartialUpdate1::new();
    assert!(u.name.is_none() && u.attribute.is_none() && u.value.is_none());
    let u = PartialUpdate2::new();
    assert!(u.id.is_none() && u.attribute.is_none() && u.value.is_none());
}

#[test]
fn points_keep_their_values() {
    let p = Point::new(vec![1, 2, 3]);
    assert_eq!(p.0, vec![1, 2, 3]);
}

#[test]
fn string_comparison_is_lexicographic() {
    assert_eq!(str_cmp("a", "b"), StrOrder::Less);
    assert_eq!(str_cmp("b", "a"), StrOrder::Greater);
    assert_eq!(str_cmp("abc", "abc"), StrOrder::Equal);
    assert_eq!(str_cmp("abc", "abd"), StrOrder::Less);
    assert_eq!(str_cmp("ab", "abc"), StrOrder::Less);
    assert_eq!(str_cmp("abc", "ab"), StrOrder::Greater);
    assert_eq!(str_cmp("", "a"), StrOrder::Less);
    assert_eq!(str_cmp("", ""), StrOrder::Equal);
    assert!(str_eq("oid0.44", "oid0.44"));
    assert!(!str_eq("oid0.44", "oid0.45"));
}
