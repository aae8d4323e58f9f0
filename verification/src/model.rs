//! Data model of the spatial index: coordinate spaces, axes, feature
//! properties and the shapes that anchor them.
//!
//! Coordinate scalars are carried as opaque 64-bit words (the bit pattern of
//! the source value); the index never computes with them, it only stores,
//! groups and returns them. Identifiers and tags are plain strings.

use vstd::prelude::*;

use crate::order::str_eq;

verus! {

broadcast use vstd::string::group_string_axioms;

/// The value domain of an axis graduation, named after the usual
/// mathematical sets.
#[derive(Clone, Copy, Debug, PartialEq, Eq, Structural)]
pub enum ValueDomain {
    Natural,
    Integer,
    Rational,
    Real,
}

/// A build-time input error: the dataset described something the index
/// cannot hold. Reported as a value, never as a process abort.
#[derive(Clone, Debug, PartialEq, Eq)]
pub enum BuildError {
    /// A shape whose type tag is not "Point".
    UnsupportedShape(String),
    /// An axis graduation whose value-domain tag is none of "N", "Z", "Q", "R".
    UnknownValueDomain(String),
}

/// The value-domain denoted by a graduation tag, if the tag is known.
pub open spec fn spec_parse_domain(tag: Seq<char>) -> Option<ValueDomain> {
    if tag == "N"@ {
        Some(ValueDomain::Natural)
    } else if tag == "Z"@ {
        Some(ValueDomain::Integer)
    } else if tag == "Q"@ {
        Some(ValueDomain::Rational)
    } else if tag == "R"@ {
        Some(ValueDomain::Real)
    } else {
        None
    }
}

/// The tag that denotes a value-domain.
pub open spec fn spec_domain_tag(d: ValueDomain) -> Seq<char> {
    match d {
        ValueDomain::Natural => "N"@,
        ValueDomain::Integer => "Z"@,
        ValueDomain::Rational => "Q"@,
        ValueDomain::Real => "R"@,
    }
}

/// Maps a graduation tag to its value-domain; an unknown tag is a reported
/// build error, not an abort.
pub fn parse_domain(tag: &str) -> (r: Result<ValueDomain, BuildError>)
    ensures
        r matches Ok(d) ==> spec_parse_domain(tag@) == Some(d),
        r is Ok <==> spec_parse_domain(tag@) is Some,
        r matches Err(e) ==> e matches BuildError::UnknownValueDomain(t) && t@ == tag@,
{
    if str_eq(tag, "N") {
        Ok(ValueDomain::Natural)
    } else if str_eq(tag, "Z") {
        Ok(ValueDomain::Integer)
    } else if str_eq(tag, "Q") {
        Ok(ValueDomain::Rational)
    } else if str_eq(tag, "R") {
        Ok(ValueDomain::Real)
    } else {
        Err(BuildError::UnknownValueDomain(tag.to_owned()))
    }
}

/// The tag of a value-domain, as written in dataset files.
pub fn domain_tag(d: ValueDomain) -> (r: &'static str)
    ensures
        r@ == spec_domain_tag(d),
{
    match d {
        ValueDomain::Natural => "N",
        ValueDomain::Integer => "Z",
        ValueDomain::Rational => "Q",
        ValueDomain::Real => "R",
    }
}

/// Tagging a value-domain and reading the tag back yields the same domain.
pub proof fn lemma_domain_tag_round_trip(d: ValueDomain)
    ensures
        spec_parse_domain(spec_domain_tag(d)) == Some(d),
{
    reveal_strlit("N");
    reveal_strlit("Z");
    reveal_strlit("Q");
    reveal_strlit("R");
    assert("N"@[0] == 'N' && "Z"@[0] == 'Z' && "Q"@[0] == 'Q' && "R"@[0] == 'R');
    assert("N"@ != "Z"@ && "N"@ != "Q"@ && "N"@ != "R"@ && "Z"@ != "Q"@ && "Z"@ != "R"@ && "Q"@
        != "R"@);
}

/// Valid coordinate values on one axis: a value-domain, the two bounds
/// (carried as opaque scalar words) and the number of steps between them.
#[derive(Clone, Copy, Debug, PartialEq, Eq, Structural)]
pub struct Graduation {
    pub set: ValueDomain,
    pub minimum: u64,
    pub maximum: u64,
    pub steps: u64,
}

impl View for Graduation {
    type V = Graduation;

    open spec fn view(&self) -> Graduation {
        *self
    }
}

impl Graduation {
    /// Builds a graduation from a dataset record; the value-domain tag must
    /// be known.
    pub fn new(set_tag: &str, minimum: u64, maximum: u64, steps: u64) -> (r: Result<
        Graduation,
        BuildError,
    >)
        ensures
            r matches Ok(g) ==> spec_parse_domain(set_tag@) == Some(g.set) && g.minimum == minimum
                && g.maximum == maximum && g.steps == steps,
            r is Ok <==> spec_parse_domain(set_tag@) is Some,
            r matches Err(e) ==> e matches BuildError::UnknownValueDomain(t) && t@ == set_tag@,
    {
        match parse_domain(set_tag) {
            Ok(set) => Ok(Graduation { set, minimum, maximum, steps }),
            Err(e) => Err(e),
        }
    }
}

/// One dimension of a coordinate space.
#[derive(Clone, Debug, PartialEq, Eq)]
pub struct Axis {
    pub measurement_unit: String,
    pub graduation: Graduation,
    pub unit_vector: Vec<u64>,
}

pub struct AxisView {
    pub measurement_unit: Seq<char>,
    pub graduation: Graduation,
    pub unit_vector: Seq<u64>,
}

impl View for Axis {
    type V = AxisView;

    open spec fn view(&self) -> AxisView {
        AxisView {
            measurement_unit: self.measurement_unit@,
            graduation: self.graduation,
            unit_vector: self.unit_vector@,
        }
    }
}

impl Axis {
    /// Builds an axis from a dataset record; the graduation tag must be known.
    pub fn new(
        measurement_unit: String,
        unit_vector: Vec<u64>,
        set_tag: &str,
        minimum: u64,
        maximum: u64,
        steps: u64,
    ) -> (r: Result<Axis, BuildError>)
        ensures
            r matches Ok(a) ==> a@.measurement_unit == measurement_unit@ && a@.unit_vector
                == unit_vector@ && spec_parse_domain(set_tag@) == Some(a@.graduation.set)
                && a@.graduation.minimum == minimum && a@.graduation.maximum == maximum
                && a@.graduation.steps == steps,
            r is Ok <==> spec_parse_domain(set_tag@) is Some,
            r matches Err(e) ==> e matches BuildError::UnknownValueDomain(t) && t@ == set_tag@,
    {
        match Graduation::new(set_tag, minimum, maximum, steps) {
            Ok(graduation) => Ok(Axis { measurement_unit, graduation, unit_vector }),
            Err(e) => Err(e),
        }
    }
}

/// A named coordinate space: an origin and an ordered list of axes. The axis
/// order is significant; every coordinate vector in the space supplies one
/// value per axis, in this order.
#[derive(Clone, Debug, PartialEq, Eq)]
pub struct Space {
    pub name: String,
    pub origin: Vec<u64>,
    pub axes: Vec<Axis>,
}

pub struct SpaceView {
    pub name: Seq<char>,
    pub origin: Seq<u64>,
    pub axes: Seq<AxisView>,
}

impl View for Space {
    type V = SpaceView;

    open spec fn view(&self) -> SpaceView {
        SpaceView {
            name: self.name@,
            origin: self.origin@,
            axes: self.axes@.map_values(|a: Axis| a@),
        }
    }
}

/// The logical identity of a feature; many spatial points may share one
/// properties entry.
#[derive(Clone, Debug, PartialEq, Eq)]
pub struct Properties {
    pub kind: String,
    pub id: String,
}

pub struct PropertiesView {
    pub kind: Seq<char>,
    pub id: Seq<char>,
}

impl View for Properties {
    type V = PropertiesView;

    open spec fn view(&self) -> PropertiesView {
        PropertiesView { kind: self.kind@, id: self.id@ }
    }
}

/// A geometric shape anchored in a reference space. The index holds
/// single-vertex "Point" shapes only.
#[derive(Clone, Debug, PartialEq, Eq)]
pub struct Shape {
    pub kind: String,
    pub reference_space: String,
    pub vertices: Vec<Vec<u64>>,
}

pub struct ShapeView {
    pub kind: Seq<char>,
    pub reference_space: Seq<char>,
    pub vertices: Seq<Seq<u64>>,
}

impl View for Shape {
    type V = ShapeView;

    open spec fn view(&self) -> ShapeView {
        ShapeView {
            kind: self.kind@,
            reference_space: self.reference_space@,
            vertices: self.vertices@.map_values(|v: Vec<u64>| v@),
        }
    }
}

/// One logical feature with the list of shapes collected across one or more
/// spaces.
#[derive(Clone, Debug, PartialEq, Eq)]
pub struct SpatialObject {
    pub properties: Properties,
    pub shapes: Vec<Shape>,
}

pub struct SpatialObjectView {
    pub properties: PropertiesView,
    pub shapes: Seq<ShapeView>,
}

impl View for SpatialObject {
    type V = SpatialObjectView;

    open spec fn view(&self) -> SpatialObjectView {
        SpatialObjectView {
            properties: self.properties@,
            shapes: self.shapes@.map_values(|s: Shape| s@),
        }
    }
}

/// Whether every shape of the object carries the "Point" type tag.
pub open spec fn spec_all_points(o: SpatialObjectView) -> bool {
    forall|j: int| 0 <= j < o.shapes.len() ==> (#[trigger] o.shapes[j]).kind == "Point"@
}

/// Checks the geometry constraint on one object: every shape must be tagged
/// "Point". A violation is a reported build error.
pub fn validate_object(o: &SpatialObject) -> (r: Result<(), BuildError>)
    ensures
        r is Ok <==> spec_all_points(o@),
        r matches Err(e) ==> e matches BuildError::UnsupportedShape(t) && exists|j: int|
            0 <= j < o@.shapes.len() && (#[trigger] o@.shapes[j]).kind == t@ && t@
                != "Point"@,
{
    let mut j: usize = 0;
    while j < o.shapes.len()
        invariant
            j <= o.shapes.len(),
            forall|k: int| 0 <= k < j ==> (#[trigger] o@.shapes[k]).kind == "Point"@,
        decreases o.shapes.len() - j,
    {
        if !str_eq(o.shapes[j].kind.as_str(), "Point") {
            proof {
                assert(o@.shapes[j as int] == o.shapes@[j as int]@);
                assert(o@.shapes[j as int].kind != "Point"@);
            }
            return Err(BuildError::UnsupportedShape(o.shapes[j].kind.clone()));
        }
        proof {
            assert(o@.shapes[j as int] == o.shapes@[j as int]@);
        }
        j = j + 1;
    }
    Ok(())
}

} // verus!
