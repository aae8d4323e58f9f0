//! The result projector: regroups raw per-point query results into
//! response-level spatial objects, one per distinct feature identifier, each
//! carrying the feature's decodable points as one-vertex "Point" shapes.
//!
//! A raw result that cannot be decoded — its space is unknown, or its
//! position does not supply one value per axis — is dropped from the shape
//! list; the feature itself is still reported.

use vstd::prelude::*;

use crate::model::{Properties, Shape, ShapeView, SpatialObject};
use crate::order::str_eq;
use crate::query::{has_space, space_lookup, DataBase, DataBaseView, SpaceObject, SpaceObjectView};

verus! {

pub open spec fn object_list_views(objects: Seq<SpaceObject>) -> Seq<SpaceObjectView> {
    objects.map_values(|o: SpaceObject| o@)
}

/// The distinct feature identifiers of a raw result list, in first-seen
/// order.
pub open spec fn distinct_ids(objs: Seq<SpaceObjectView>) -> Seq<Seq<char>>
    decreases objs.len(),
{
    if objs.len() == 0 {
        Seq::empty()
    } else {
        let front = distinct_ids(objs.drop_last());
        if front.contains(objs.last().id) {
            front
        } else {
            front.push(objs.last().id)
        }
    }
}

/// Whether a raw result can be decoded into its space's native
/// representation: the space is known and the position supplies one value
/// per axis.
pub open spec fn spec_decodable(db: DataBaseView, o: SpaceObjectView) -> bool {
    has_space(db, o.space_id) && space_lookup(db, o.space_id).axes.len() == o.position.len()
}

/// The one-vertex "Point" shape a decodable raw result becomes.
pub open spec fn shape_of(o: SpaceObjectView) -> ShapeView {
    ShapeView { kind: "Point"@, reference_space: o.space_id, vertices: seq![o.position] }
}

/// The shapes one feature collects: every decodable raw result carrying its
/// identifier, in result order.
pub open spec fn shapes_for(db: DataBaseView, objs: Seq<SpaceObjectView>, id: Seq<char>) -> Seq<
    ShapeView,
>
    decreases objs.len(),
{
    if objs.len() == 0 {
        Seq::empty()
    } else {
        let front = shapes_for(db, objs.drop_last(), id);
        let o = objs.last();
        if o.id == id && spec_decodable(db, o) {
            front.push(shape_of(o))
        } else {
            front
        }
    }
}

/// Checks whether a raw result can be decoded.
pub fn decodable(db: &DataBase, o: &SpaceObject) -> (r: bool)
    ensures
        r == spec_decodable(db@, o@),
{
    match db.space(o.space_id.as_str()) {
        Option::None => false,
        Option::Some(sp) => {
            proof {
                assert(sp@.axes.len() == sp.axes@.len());
            }
            sp.axes.len() == o.position.len()
        },
    }
}

/// Whether one of the collected identifiers holds these characters.
fn contains_id(ids: &Vec<String>, id: &str) -> (r: bool)
    ensures
        r == crate::index::id_views(ids@).contains(id@),
{
    let ghost idsv = crate::index::id_views(ids@);
    let mut i: usize = 0;
    while i < ids.len()
        invariant
            i <= ids.len(),
            idsv == crate::index::id_views(ids@),
            forall|k: int| 0 <= k < i ==> #[trigger] idsv[k] != id@,
        decreases ids.len() - i,
    {
        proof {
            assert(idsv[i as int] == ids@[i as int]@);
        }
        if str_eq(ids[i].as_str(), id) {
            proof {
                assert(idsv.contains(id@));
            }
            return true;
        }
        i = i + 1;
    }
    proof {
        if idsv.contains(id@) {
            let w = choose|k: int| 0 <= k < idsv.len() && idsv[k] == id@;
            assert(idsv[w] != id@);
        }
    }
    false
}

/// The distinct feature identifiers of a raw result list, in first-seen
/// order.
#[verifier::loop_isolation(false)]
pub fn unique_ids(objects: &Vec<SpaceObject>) -> (r: Vec<String>)
    ensures
        crate::index::id_views(r@) == distinct_ids(object_list_views(objects@)),
{
    let ghost listv = object_list_views(objects@);
    let mut r: Vec<String> = Vec::new();
    proof {
        assert(crate::index::id_views(r@) =~= distinct_ids(listv.take(0)));
    }
    let mut i: usize = 0;
    while i < objects.len()
        invariant
            i <= objects.len(),
            crate::index::id_views(r@) == distinct_ids(listv.take(i as int)),
        decreases objects.len() - i,
    {
        let ghost before = crate::index::id_views(r@);
        proof {
            assert(listv[i as int] == objects@[i as int]@);
            assert(listv.take(i + 1).drop_last() =~= listv.take(i as int));
            assert(listv.take(i + 1).last() == listv[i as int]);
        }
        if !contains_id(&r, objects[i].id.as_str()) {
            r.push(objects[i].id.clone());
            proof {
                assert(crate::index::id_views(r@) =~= before.push(listv[i as int].id));
            }
        }
        i = i + 1;
    }
    proof {
        assert(listv.take(objects.len() as int) =~= listv);
    }
    r
}

/// Regroups raw results by feature identity: one spatial object per distinct
/// identifier, in first-seen order, carrying all of that feature's decodable
/// points as one-vertex "Point" shapes.
#[verifier::loop_isolation(false)]
pub fn to_spatial_objects(db: &DataBase, list: Vec<SpaceObject>) -> (r: Vec<SpatialObject>)
    ensures
        r@.len() == distinct_ids(object_list_views(list@)).len(),
        forall|k: int|
            0 <= k < r@.len() ==> (#[trigger] r@[k])@.properties.kind == "Feature"@
                && r@[k]@.properties.id == distinct_ids(object_list_views(list@))[k] && r@[k]@.shapes
                == shapes_for(
                db@,
                object_list_views(list@),
                distinct_ids(object_list_views(list@))[k],
            ),
{
    let ghost listv = object_list_views(list@);
    let ids = unique_ids(&list);
    let ghost idsv = crate::index::id_views(ids@);
    let mut r: Vec<SpatialObject> = Vec::new();
    let mut g: usize = 0;
    while g < ids.len()
        invariant
            g <= ids.len(),
            r@.len() == g,
            forall|k: int|
                0 <= k < g ==> (#[trigger] r@[k])@.properties.kind == "Feature"@
                    && r@[k]@.properties.id == idsv[k] && r@[k]@.shapes == shapes_for(
                    db@,
                    listv,
                    idsv[k],
                ),
        decreases ids.len() - g,
    {
        let ghost idv = idsv[g as int];
        proof {
            assert(idv == ids@[g as int]@);
            assert(shapes_for(db@, listv.take(0), idv) =~= Seq::<ShapeView>::empty());
        }
        let mut shapes: Vec<Shape> = Vec::new();
        let mut n: usize = 0;
        while n < list.len()
            invariant
                n <= list.len(),
                shapes@.map_values(|s: Shape| s@) == shapes_for(db@, listv.take(n as int), idv),
            decreases list.len() - n,
        {
            let ghost before = shapes@.map_values(|s: Shape| s@);
            let o = &list[n];
            proof {
                assert(listv[n as int] == o@);
                assert(listv.take(n + 1).drop_last() =~= listv.take(n as int));
                assert(listv.take(n + 1).last() == listv[n as int]);
            }
            if str_eq(o.id.as_str(), ids[g].as_str()) && decodable(db, o) {
                let mut vertices: Vec<Vec<u64>> = Vec::new();
                vertices.push(o.position.clone());
                let shape = Shape {
                    kind: "Point".to_owned(),
                    reference_space: o.space_id.clone(),
                    vertices,
                };
                proof {
                    assert(shape@.vertices =~= seq![o@.position]);
                    assert(shape@ == shape_of(listv[n as int]));
                }
                shapes.push(shape);
                proof {
                    assert(shapes@.map_values(|s: Shape| s@) =~= before.push(
                        shape_of(listv[n as int]),
                    ));
                }
            }
            n = n + 1;
        }
        proof {
            assert(listv.take(list.len() as int) =~= listv);
        }
        let group = SpatialObject {
            properties: Properties { kind: "Feature".to_owned(), id: ids[g].clone() },
            shapes,
        };
        proof {
            assert(group@.shapes =~= shapes_for(db@, listv, idv));
        }
        r.push(group);
        g = g + 1;
    }
    proof {
        assert(ids@.len() == idsv.len());
    }
    r
}

/// Executes one retrieval against one named core and regroups the raw
/// results into response documents: the whole serving path of a request,
/// after its text has passed the grammar. Failures are the execute stage's
/// typed errors.
pub fn execute_and_project(
    db: &DataBase,
    core_id: &str,
    parameters: &crate::query::CoreQueryParameters,
    target: &crate::query::Retrieval,
) -> (r: Result<Vec<SpatialObject>, crate::query::ExecutionError>)
    requires
        crate::query::db_wf(db@),
    ensures
        r is Ok <==> crate::query::has_core(db@, core_id@) && (parameters@.output_space
            matches Some(s) ==> has_space(db@, s)),
        !crate::query::has_core(db@, core_id@) ==> (r matches Err(
            crate::query::ExecutionError::UnknownCore(t),
        ) && t@ == core_id@),
        (crate::query::has_core(db@, core_id@) && (parameters@.output_space matches Some(s)
            && !has_space(db@, s))) ==> (r matches Err(
            crate::query::ExecutionError::UnknownSpace(t),
        ) && Some(t@) == parameters@.output_space),
        r matches Ok(v) ==> ({
            let list = crate::query::spec_retrieve(
                crate::query::core_lookup(db@, core_id@),
                target@,
            );
            &&& v@.len() == distinct_ids(list).len()
            &&& forall|k: int|
                0 <= k < v@.len() ==> (#[trigger] v@[k])@.properties.kind == "Feature"@
                    && v@[k]@.properties.id == distinct_ids(list)[k] && v@[k]@.shapes == shapes_for(
                    db@,
                    list,
                    distinct_ids(list)[k],
                )
        }),
{
    match crate::query::execute_retrieval(db, core_id, parameters, target) {
        Err(e) => Err(e),
        Ok(list) => {
            proof {
                assert(object_list_views(list@) =~= crate::query::spec_retrieve(
                    crate::query::core_lookup(db@, core_id@),
                    target@,
                ));
            }
            Ok(to_spatial_objects(db, list))
        },
    }
}

} // verus!
