//! Response-level documents of the service's public API, mirroring its
//! interface description: envelope and partial-update records built up field
//! by field before serialization at the service edge.
//!
//! Numeric values that the service carries as floating point travel here as
//! opaque bit-pattern words (32-bit words for single precision, 64-bit words
//! for double precision); the edge converts.

use vstd::prelude::*;

verus! {

/// One valid value for each axis of the reference space a point is used in.
#[derive(Clone, Debug)]
pub struct Point(pub Vec<u64>);

impl Point {
    pub fn new(values: Vec<u64>) -> (r: Point)
        ensures
            r.0@ == values@,
    {
        Point(values)
    }
}

/// Defines the properties of an axis: its anchoring in the universe space
/// and its absolute direction.
#[derive(Clone, Debug)]
pub struct Axis {
    pub measurement_unit: Option<String>,
    pub coordinates: Option<ValidNumbersOnThisAxis>,
    pub origin: Option<Vec<Point>>,
    pub unit_vector: Option<Vec<Point>>,
}

impl Axis {
    pub fn new() -> (r: Axis)
        ensures
            r.measurement_unit is None,
            r.coordinates is None,
            r.origin is None,
            r.unit_vector is None,
    {
        Axis { measurement_unit: None, coordinates: None, origin: None, unit_vector: None }
    }
}

/// Definition of the valid coordinate values usable on one axis.
#[derive(Clone, Debug)]
pub struct ValidNumbersOnThisAxis {
    pub set: Option<String>,
    pub minimum: Option<u32>,
    pub maximum: Option<u32>,
    pub steps: Option<u64>,
}

impl ValidNumbersOnThisAxis {
    pub fn new() -> (r: ValidNumbersOnThisAxis)
        ensures
            r.set is None,
            r.minimum is None,
            r.maximum is None,
            r.steps is None,
    {
        ValidNumbersOnThisAxis { set: None, minimum: None, maximum: None, steps: None }
    }
}

/// A collection of spatial objects stored in one or more reference spaces.
#[derive(Clone, Debug)]
pub struct DataSet {
    pub name: Option<String>,
    pub version: Option<String>,
    pub scales: Option<Vec<Vec<u64>>>,
}

impl DataSet {
    pub fn new() -> (r: DataSet)
        ensures
            r.name is None,
            r.version is None,
            r.scales is None,
    {
        DataSet { name: None, version: None, scales: None }
    }
}

#[derive(Clone, Debug)]
pub struct Datasets {
    pub list: Option<Vec<DataSet>>,
}

impl Datasets {
    pub fn new() -> (r: Datasets)
        ensures
            r.list is None,
    {
        Datasets { list: None }
    }
}

#[derive(Clone, Debug)]
pub struct Datasets1 {
    pub list: Option<Vec<String>>,
}

impl Datasets1 {
    pub fn new() -> (r: Datasets1)
        ensures
            r.list is None,
    {
        Datasets1 { list: None }
    }
}

/// The filter block of a request body.
#[derive(Clone, Debug)]
pub struct Filters {
    pub filter: Option<String>,
    pub ids_only: Option<bool>,
}

impl Filters {
    pub fn new() -> (r: Filters)
        ensures
            r.filter is None,
            r.ids_only == Some(false),
    {
        Filters { filter: None, ids_only: Some(false) }
    }
}

/// Properties tied to a shape: valid for the shape's whole content.
#[derive(Clone, Debug)]
pub struct Properties {
    pub id: Option<String>,
    pub label: Option<String>,
}

impl Properties {
    pub fn new() -> (r: Properties)
        ensures
            r.id is None,
            r.label is None,
    {
        Properties { id: None, label: None }
    }
}

/// A geometric shape defined in a reference space.
#[derive(Clone, Debug)]
pub struct Shape {
    pub label: Option<String>,
    pub vertices: Option<Vec<Point>>,
    pub space: Option<String>,
}

impl Shape {
    pub fn new() -> (r: Shape)
        ensures
            r.label is None,
            r.vertices is None,
            r.space is None,
    {
        Shape { label: None, vertices: None, space: None }
    }
}

/// Definition of a space in which objects are described.
#[derive(Clone, Debug)]
pub struct Space {
    pub name: Option<String>,
    pub axes: Option<Vec<Axis>>,
}

impl Space {
    pub fn new() -> (r: Space)
        ensures
            r.name is None,
            r.axes is None,
    {
        Space { name: None, axes: None }
    }
}

#[derive(Clone, Debug)]
pub struct Spaces {
    pub list: Option<Vec<Space>>,
}

impl Spaces {
    pub fn new() -> (r: Spaces)
        ensures
            r.list is None,
    {
        Spaces { list: None }
    }
}

#[derive(Clone, Debug)]
pub struct Spaces1 {
    pub list: Option<Vec<String>>,
}

impl Spaces1 {
    pub fn new() -> (r: Spaces1)
        ensures
            r.list is None,
    {
        Spaces1 { list: None }
    }
}

/// A collection of positions in a space sharing one set of properties.
#[derive(Clone, Debug)]
pub struct SpatialObject {
    pub shape: Option<Vec<Shape>>,
    pub properties: Option<Properties>,
}

impl SpatialObject {
    pub fn new() -> (r: SpatialObject)
        ensures
            r.shape is None,
            r.properties is None,
    {
        SpatialObject { shape: None, properties: None }
    }
}

#[derive(Clone, Debug)]
pub struct SpatialObjects {
    pub list: Option<Vec<SpatialObject>>,
}

impl SpatialObjects {
    pub fn new() -> (r: SpatialObjects)
        ensures
            r.list is None,
    {
        SpatialObjects { list: None }
    }
}

#[derive(Clone, Debug)]
pub struct SpatialObjects1 {
    pub list: Option<Vec<String>>,
}

impl SpatialObjects1 {
    pub fn new() -> (r: SpatialObjects1)
        ensures
            r.list is None,
    {
        SpatialObjects1 { list: None }
    }
}

/// The two states of a space document around an update.
#[derive(Clone, Debug)]
pub struct InlineResponse200 {
    pub previous: Option<Space>,
    pub current: Option<Space>,
}

impl InlineResponse200 {
    pub fn new() -> (r: InlineResponse200)
        ensures
            r.previous is None,
            r.current is None,
    {
        InlineResponse200 { previous: None, current: None }
    }
}

/// The two states of a dataset document around an update.
#[derive(Clone, Debug)]
pub struct InlineResponse2001 {
    pub previous: Option<DataSet>,
    pub current: Option<DataSet>,
}

impl InlineResponse2001 {
    pub fn new() -> (r: InlineResponse2001)
        ensures
            r.previous is None,
            r.current is None,
    {
        InlineResponse2001 { previous: None, current: None }
    }
}

/// The two states of a spatial object document around an update.
#[derive(Clone, Debug)]
pub struct InlineResponse2002 {
    pub previous: Option<SpatialObject>,
    pub current: Option<SpatialObject>,
}

impl InlineResponse2002 {
    pub fn new() -> (r: InlineResponse2002)
        ensures
            r.previous is None,
            r.current is None,
    {
        InlineResponse2002 { previous: None, current: None }
    }
}

/// A partial update of a named space document.
#[derive(Clone, Debug)]
pub struct PartialUpdate {
    pub name: Option<String>,
    pub attribute: Option<String>,
    pub value: Option<String>,
}

impl PartialUpdate {
    pub fn new() -> (r: PartialUpdate)
        ensures
            r.name is None,
            r.attribute is None,
            r.value is None,
    {
        PartialUpdate { name: None, attribute: None, value: None }
    }
}

/// A partial update of a named dataset document.
#[derive(Clone, Debug)]
pub struct PartialUpdate1 {
    pub name: Option<String>,
    pub attribute: Option<String>,
    pub value: Option<String>,
}

impl PartialUpdate1 {
    pub fn new() -> (r: PartialUpdate1)
        ensures
            r.name is None,
            r.attribute is None,
            r.value is None,
    {
        PartialUpdate1 { name: None, attribute: None, value: None }
    }
}

/// A partial update of a spatial object document, by identifier.
#[derive(Clone, Debug)]
pub struct PartialUpdate2 {
    pub id: Option<String>,
    pub attribute: Option<String>,
    pub value: Option<String>,
}

impl PartialUpdate2 {
    pub fn new() -> (r: PartialUpdate2)
        ensures
            r.id is None,
            r.attribute is None,
            r.value is None,
    {
        PartialUpdate2 { id: None, attribute: None, value: None }
    }
}

} // verus!
