//! The index builder: deduplicates feature identities, fixes the canonical
//! (id-sorted) properties ordering, and emits the raw point records that make
//! up a queryable Core.

use vstd::prelude::*;

use crate::model::{BuildError, Properties, Space, SpatialObject, SpatialObjectView};
use crate::order::{lemma_lex_lt_irreflexive, lemma_lex_lt_total, lemma_lex_lt_transitive};
use crate::order::{lex_lt, str_cmp, StrOrder};

verus! {

/// One indexed datum: a space, an encoded coordinate vector in it, and a
/// reference into the canonical properties list. Immutable once built.
#[derive(Clone, Debug, PartialEq, Eq)]
pub struct PointRecord {
    pub space_id: String,
    pub position: Vec<u64>,
    pub value: usize,
}

pub struct PointRecordView {
    pub space_id: Seq<char>,
    pub position: Seq<u64>,
    pub value: int,
}

impl View for PointRecord {
    type V = PointRecordView;

    open spec fn view(&self) -> PointRecordView {
        PointRecordView {
            space_id: self.space_id@,
            position: self.position@,
            value: self.value as int,
        }
    }
}

/// A built, immutable, queryable index for one dataset version.
#[derive(Clone, Debug, PartialEq, Eq)]
pub struct Core {
    pub name: String,
    pub version: String,
    pub spaces: Vec<Space>,
    pub properties: Vec<Properties>,
    pub records: Vec<PointRecord>,
}

pub struct CoreView {
    pub name: Seq<char>,
    pub version: Seq<char>,
    pub spaces: Seq<crate::model::SpaceView>,
    pub properties: Seq<crate::model::PropertiesView>,
    pub records: Seq<PointRecordView>,
}

impl View for Core {
    type V = CoreView;

    open spec fn view(&self) -> CoreView {
        CoreView {
            name: self.name@,
            version: self.version@,
            spaces: self.spaces@.map_values(|s: Space| s@),
            properties: self.properties@.map_values(|p: Properties| p@),
            records: self.records@.map_values(|r: PointRecord| r@),
        }
    }
}

/// The identifiers of a core's canonical properties list, in order.
pub open spec fn core_ids(c: CoreView) -> Seq<Seq<char>> {
    c.properties.map_values(|p: crate::model::PropertiesView| p.id)
}

/// Each identifier precedes the next: sorted, with no duplicates.
pub open spec fn strictly_sorted(ids: Seq<Seq<char>>) -> bool {
    forall|i: int, j: int| 0 <= i < j < ids.len() ==> lex_lt(ids[i], ids[j])
}

/// Whether some input object carries this identifier.
pub open spec fn is_object_id(objects: Seq<SpatialObjectView>, id: Seq<char>) -> bool {
    exists|i: int| 0 <= i < objects.len() && (#[trigger] objects[i]).properties.id == id
}

/// The position of the first occurrence of an identifier (the list's length
/// if it is absent).
pub open spec fn id_index(ids: Seq<Seq<char>>, id: Seq<char>) -> int
    decreases ids.len(),
{
    if ids.len() == 0 {
        0
    } else if ids[0] == id {
        0
    } else {
        1 + id_index(ids.drop_first(), id)
    }
}

pub proof fn lemma_id_index_present(ids: Seq<Seq<char>>, id: Seq<char>)
    requires
        ids.contains(id),
    ensures
        0 <= id_index(ids, id) < ids.len(),
        ids[id_index(ids, id)] == id,
    decreases ids.len(),
{
    if ids[0] != id {
        let w = choose|i: int| 0 <= i < ids.len() && ids[i] == id;
        assert(ids.drop_first()[w - 1] == id);
        assert(ids.drop_first().contains(id));
        lemma_id_index_present(ids.drop_first(), id);
    }
}

/// In a duplicate-free list the index of an occurrence is unique, so any
/// occurrence stands at `id_index`.
pub proof fn lemma_id_index_unique(ids: Seq<Seq<char>>, i: int)
    requires
        strictly_sorted(ids),
        0 <= i < ids.len(),
    ensures
        id_index(ids, ids[i]) == i,
    decreases ids.len(),
{
    let id = ids[i];
    if i == 0 {
        assert(id_index(ids, id) == 0);
    } else {
        assert(lex_lt(ids[0], ids[i]));
        lemma_lex_lt_irreflexive(ids[0]);
        assert(ids[0] != id);
        let tail = ids.drop_first();
        assert forall|p: int, q: int| 0 <= p < q < tail.len() implies lex_lt(
            tail[p],
            tail[q],
        ) by {
            assert(tail[p] == ids[p + 1]);
            assert(tail[q] == ids[q + 1]);
        }
        assert(tail[i - 1] == ids[i]);
        lemma_id_index_unique(tail, i - 1);
    }
}

/// The character sequences of a list of identifier strings.
pub open spec fn id_views(ids: Seq<String>) -> Seq<Seq<char>> {
    ids.map_values(|s: String| s@)
}

/// Finds the first position whose identifier does not precede `id`:
/// everything before it is strictly below `id`, everything from it on is not.
fn lower_bound(ids: &Vec<String>, id: &str) -> (p: usize)
    requires
        strictly_sorted(id_views(ids@)),
    ensures
        p <= ids@.len(),
        forall|k: int|
            0 <= k < p ==> #[trigger] lex_lt(id_views(ids@)[k], id@),
        forall|k: int|
            p <= k < ids@.len() ==> !(#[trigger] lex_lt(
                id_views(ids@)[k],
                id@,
            )),
{
    let ghost idsv = id_views(ids@);
    let mut lo: usize = 0;
    let mut hi: usize = ids.len();
    while lo < hi
        invariant
            lo <= hi <= ids@.len(),
            idsv == id_views(ids@),
            strictly_sorted(idsv),
            forall|k: int| 0 <= k < lo ==> lex_lt(#[trigger] idsv[k], id@),
            forall|k: int| hi <= k < idsv.len() ==> !lex_lt(#[trigger] idsv[k], id@),
        decreases hi - lo,
    {
        let mid = lo + (hi - lo) / 2;
        match str_cmp(ids[mid].as_str(), id) {
            StrOrder::Less => {
                assert forall|k: int| 0 <= k < mid + 1 implies lex_lt(
                    #[trigger] idsv[k],
                    id@,
                ) by {
                    if k < mid {
                        lemma_lex_lt_transitive(idsv[k], idsv[mid as int], id@);
                    }
                }
                lo = mid + 1;
            },
            _ => {
                assert(!lex_lt(idsv[mid as int], id@)) by {
                    lemma_lex_lt_irreflexive(idsv[mid as int]);
                    if lex_lt(id@, idsv[mid as int]) && lex_lt(idsv[mid as int], id@) {
                        lemma_lex_lt_transitive(id@, idsv[mid as int], id@);
                    }
                }
                assert forall|k: int| mid <= k < idsv.len() implies !lex_lt(
                    #[trigger] idsv[k],
                    id@,
                ) by {
                    if k > mid && lex_lt(idsv[k], id@) {
                        lemma_lex_lt_transitive(idsv[mid as int], idsv[k], id@);
                    }
                }
                hi = mid;
            },
        }
    }
    lo
}

/// Binary search for an identifier in the canonical sorted list.
pub fn find_index(ids: &Vec<String>, id: &str) -> (r: usize)
    requires
        strictly_sorted(id_views(ids@)),
        id_views(ids@).contains(id@),
    ensures
        r < ids@.len(),
        ids@[r as int]@ == id@,
        r == id_index(id_views(ids@), id@),
{
    let ghost idsv = id_views(ids@);
    let p = lower_bound(ids, id);
    proof {
        let w = choose|i: int| 0 <= i < idsv.len() && idsv[i] == id@;
        lemma_lex_lt_irreflexive(id@);
        assert(!lex_lt(idsv[w], id@));
        assert(w >= p);
        if w > p {
            assert(lex_lt(idsv[p as int], idsv[w]));
            assert(!lex_lt(idsv[p as int], id@));
        }
        assert(idsv[p as int] == id@);
        lemma_id_index_unique(idsv, p as int);
    }
    p
}

/// Inserts an identifier into the canonical sorted list if it is not already
/// there; the list stays sorted and gains exactly that identifier.
fn insert_id(ids: &mut Vec<String>, id: &String)
    requires
        strictly_sorted(id_views(old(ids)@)),
    ensures
        strictly_sorted(id_views(final(ids)@)),
        id_views(final(ids)@).to_set() == id_views(old(ids)@).to_set().insert(id@),
{
    let ghost oldv = id_views(ids@);
    let p = lower_bound(ids, id.as_str());
    if p < ids.len() {
        match str_cmp(ids[p].as_str(), id.as_str()) {
            StrOrder::Equal => {
                proof {
                    assert(oldv[p as int] == id@);
                    assert(oldv.contains(id@));
                    assert(oldv.to_set() =~= oldv.to_set().insert(id@));
                }
                return ;
            },
            _ => {},
        }
    }
    ids.insert(p, id.clone());
    proof {
        let newv = id_views(ids@);
        assert(newv =~= oldv.insert(p as int, id@));
        assert forall|i: int, j: int| 0 <= i < j < newv.len() implies lex_lt(
            newv[i],
            newv[j],
        ) by {
            let xi = newv[i];
            let xj = newv[j];
            if i < p && j == p {
                assert(xi == oldv[i] && xj == id@);
            } else if i == p && j > p {
                assert(xi == id@ && xj == oldv[j - 1]);
                assert(!lex_lt(oldv[j - 1], id@));
                lemma_lex_lt_total(id@, oldv[j - 1]);
                if id@ == oldv[j - 1] {
                    // the scan stopped before an equal entry, which would have
                    // been returned above
                    assert(p < oldv.len());
                    if (p as int) < j - 1 {
                        assert(lex_lt(oldv[p as int], oldv[j - 1]));
                        assert(false);
                    } else {
                        assert(oldv[p as int] == id@);
                        assert(false);
                    }
                }
            } else if i < p && j > p {
                assert(xi == oldv[i] && xj == oldv[j - 1]);
                if i < j - 1 {
                    assert(lex_lt(oldv[i], oldv[j - 1]));
                } else {
                    assert(lex_lt(oldv[i], id@));
                    assert(!lex_lt(oldv[j - 1], id@));
                    lemma_lex_lt_total(id@, oldv[j - 1]);
                    if oldv[j - 1] == id@ {
                    } else {
                        lemma_lex_lt_transitive(oldv[i], id@, oldv[j - 1]);
                    }
                }
            } else if j < p {
                assert(xi == oldv[i] && xj == oldv[j]);
            } else if i > p {
                assert(xi == oldv[i - 1] && xj == oldv[j - 1]);
            }
        }
        assert forall|x: Seq<char>|
            #[trigger] newv.contains(x) <==> (oldv.contains(x) || x == id@) by {
            if oldv.contains(x) {
                let w = choose|k: int| 0 <= k < oldv.len() && oldv[k] == x;
                if w < p {
                    assert(newv[w] == x);
                } else {
                    assert(newv[w + 1] == x);
                }
            }
            assert(newv[p as int] == id@);
            if newv.contains(x) && x != id@ {
                let w = choose|k: int| 0 <= k < newv.len() && newv[k] == x;
                if w < p {
                    assert(oldv[w] == x);
                } else {
                    assert(w != p);
                    assert(oldv[w - 1] == x);
                }
            }
        }
        assert(newv.to_set() =~= oldv.to_set().insert(id@));
    }
}

/// The records one "Point" shape contributes: one per vertex, each bearing
/// the reference `v` and the shape's reference space.
pub open spec fn shape_records(s: crate::model::ShapeView, v: int) -> Seq<PointRecordView> {
    Seq::new(
        s.vertices.len(),
        |k: int|
            PointRecordView { space_id: s.reference_space, position: s.vertices[k], value: v },
    )
}

pub open spec fn shapes_records(shapes: Seq<crate::model::ShapeView>, v: int) -> Seq<
    PointRecordView,
>
    decreases shapes.len(),
{
    if shapes.len() == 0 {
        Seq::empty()
    } else {
        shapes_records(shapes.drop_last(), v) + shape_records(shapes.last(), v)
    }
}

/// The records one object contributes: its shapes' records, all referencing
/// the canonical position of the object's identifier.
pub open spec fn object_records(o: SpatialObjectView, ids: Seq<Seq<char>>) -> Seq<
    PointRecordView,
> {
    shapes_records(o.shapes, id_index(ids, o.properties.id))
}

/// All records of a dataset, in input iteration order.
pub open spec fn records_of(objects: Seq<SpatialObjectView>, ids: Seq<Seq<char>>) -> Seq<
    PointRecordView,
>
    decreases objects.len(),
{
    if objects.len() == 0 {
        Seq::empty()
    } else {
        records_of(objects.drop_last(), ids) + object_records(objects.last(), ids)
    }
}

pub open spec fn object_views(objects: Seq<SpatialObject>) -> Seq<SpatialObjectView> {
    objects.map_values(|o: SpatialObject| o@)
}

/// The set of feature identifiers occurring in the input.
pub open spec fn object_id_set(objects: Seq<SpatialObjectView>) -> Set<Seq<char>> {
    Set::new(|id: Seq<char>| is_object_id(objects, id))
}

/// What a successful build promises: the canonical properties list holds
/// exactly the input's identifiers, sorted and deduplicated, and the records
/// are the input's vertices in order, each referencing its identifier's
/// canonical position.
pub open spec fn spec_build_ok(
    objects: Seq<SpatialObjectView>,
    name: Seq<char>,
    spaces: Seq<crate::model::SpaceView>,
    c: CoreView,
) -> bool {
    &&& c.name == name
    &&& c.version == "v0.1"@
    &&& c.spaces == spaces
    &&& strictly_sorted(core_ids(c))
    &&& core_ids(c).to_set() == object_id_set(objects)
    &&& forall|k: int|
        0 <= k < c.properties.len() ==> (#[trigger] c.properties[k]).kind == "Feature"@
    &&& c.records == records_of(objects, core_ids(c))
}

proof fn lemma_object_id_set_push(objs: Seq<SpatialObjectView>, i: int)
    requires
        0 <= i < objs.len(),
    ensures
        object_id_set(objs.take(i + 1)) == object_id_set(objs.take(i)).insert(
            objs[i].properties.id,
        ),
{
    assert forall|x: Seq<char>|
        object_id_set(objs.take(i + 1)).contains(x) == object_id_set(objs.take(i)).insert(
            objs[i].properties.id,
        ).contains(x) by {
        if is_object_id(objs.take(i + 1), x) {
            let w = choose|k: int|
                0 <= k < objs.take(i + 1).len() && (#[trigger] objs.take(i + 1)[k]).properties.id
                    == x;
            if w < i {
                assert(objs.take(i)[w] == objs.take(i + 1)[w]);
                assert(is_object_id(objs.take(i), x));
            } else {
                assert(objs.take(i + 1)[w] == objs[i]);
            }
        }
        if is_object_id(objs.take(i), x) {
            let w = choose|k: int|
                0 <= k < objs.take(i).len() && (#[trigger] objs.take(i)[k]).properties.id == x;
            assert(objs.take(i + 1)[w] == objs.take(i)[w]);
            assert(is_object_id(objs.take(i + 1), x));
        }
        if x == objs[i].properties.id {
            assert(objs.take(i + 1)[i] == objs[i]);
            assert(is_object_id(objs.take(i + 1), x));
        }
    }
    assert(object_id_set(objs.take(i + 1)) =~= object_id_set(objs.take(i)).insert(
        objs[i].properties.id,
    ));
}

/// Collects the distinct feature identifiers of the input, sorted.
fn collect_ids(objects: &Vec<SpatialObject>) -> (ids: Vec<String>)
    ensures
        strictly_sorted(id_views(ids@)),
        id_views(ids@).to_set() == object_id_set(object_views(objects@)),
{
    let ghost objsv = object_views(objects@);
    let mut ids: Vec<String> = Vec::new();
    proof {
        assert(id_views(ids@) =~= Seq::<Seq<char>>::empty());
        assert(id_views(ids@).to_set() =~= object_id_set(objsv.take(0)));
    }
    let mut i: usize = 0;
    while i < objects.len()
        invariant
            i <= objects.len(),
            objsv == object_views(objects@),
            strictly_sorted(id_views(ids@)),
            id_views(ids@).to_set() == object_id_set(objsv.take(i as int)),
        decreases objects.len() - i,
    {
        proof {
            assert(objsv[i as int] == objects@[i as int]@);
            lemma_object_id_set_push(objsv, i as int);
        }
        insert_id(&mut ids, &objects[i].properties.id);
        i = i + 1;
    }
    proof {
        assert(objsv.take(objects.len() as int) =~= objsv);
    }
    ids
}

/// Every record of a shape's contribution carries the reference it was
/// emitted with.
proof fn lemma_shapes_records_value(shapes: Seq<crate::model::ShapeView>, v: int)
    ensures
        forall|k: int|
            0 <= k < shapes_records(shapes, v).len() ==> (#[trigger] shapes_records(shapes, v)[k]).value
                == v,
    decreases shapes.len(),
{
    if shapes.len() > 0 {
        lemma_shapes_records_value(shapes.drop_last(), v);
        let left = shapes_records(shapes.drop_last(), v);
        let right = shape_records(shapes.last(), v);
        assert forall|k: int| 0 <= k < shapes_records(shapes, v).len() implies (
        #[trigger] shapes_records(shapes, v)[k]).value == v by {
            if k < left.len() {
                assert(shapes_records(shapes, v)[k] == left[k]);
            } else {
                assert(shapes_records(shapes, v)[k] == right[k - left.len()]);
            }
        }
    }
}

/// When every object's identifier is listed, every record's reference is in
/// range.
proof fn lemma_records_of_values(objs: Seq<SpatialObjectView>, ids: Seq<Seq<char>>)
    requires
        forall|i: int| 0 <= i < objs.len() ==> ids.contains((#[trigger] objs[i]).properties.id),
    ensures
        forall|k: int|
            0 <= k < records_of(objs, ids).len() ==> 0 <= (#[trigger] records_of(objs, ids)[k]).value
                < ids.len(),
    decreases objs.len(),
{
    if objs.len() > 0 {
        let front = objs.drop_last();
        assert(forall|i: int| 0 <= i < front.len() ==> front[i] == objs[i]);
        lemma_records_of_values(front, ids);
        let last = objs.last();
        assert(ids.contains(last.properties.id));
        lemma_id_index_present(ids, last.properties.id);
        let idx = id_index(ids, last.properties.id);
        lemma_shapes_records_value(last.shapes, idx);
        let left = records_of(front, ids);
        let right = object_records(last, ids);
        assert forall|k: int| 0 <= k < records_of(objs, ids).len() implies 0 <= (
        #[trigger] records_of(objs, ids)[k]).value < ids.len() by {
            if k < left.len() {
                assert(records_of(objs, ids)[k] == left[k]);
            } else {
                assert(records_of(objs, ids)[k] == right[k - left.len()]);
                assert(right[k - left.len()].value == idx);
            }
        }
    }
}

/// Emits one record per vertex of every shape, in input order, referencing
/// the canonical position of the owning object's identifier.
#[verifier::loop_isolation(false)]
fn emit_records(objects: &Vec<SpatialObject>, ids: &Vec<String>) -> (records: Vec<PointRecord>)
    requires
        strictly_sorted(id_views(ids@)),
        id_views(ids@).to_set() == object_id_set(object_views(objects@)),
    ensures
        records@.map_values(|r: PointRecord| r@) == records_of(
            object_views(objects@),
            id_views(ids@),
        ),
{
    let ghost objsv = object_views(objects@);
    let ghost idsv = id_views(ids@);
    let mut records: Vec<PointRecord> = Vec::new();
    proof {
        assert(records@.map_values(|r: PointRecord| r@) =~= records_of(objsv.take(0), idsv));
    }
    let mut i: usize = 0;
    while i < objects.len()
        invariant
            i <= objects.len(),
            records@.map_values(|r: PointRecord| r@) == records_of(objsv.take(i as int), idsv),
        decreases objects.len() - i,
    {
        let obj = &objects[i];
        proof {
            assert(objsv[i as int] == objects@[i as int]@);
            assert(is_object_id(objsv, objsv[i as int].properties.id));
            assert(object_id_set(objsv).contains(objsv[i as int].properties.id));
            assert(idsv.contains(objsv[i as int].properties.id));
        }
        let v = find_index(ids, obj.properties.id.as_str());
        let ghost vv = id_index(idsv, objsv[i as int].properties.id);
        let ghost shapesv = objsv[i as int].shapes;
        proof {
            assert(v as int == vv);
            assert(shapes_records(shapesv.take(0), vv) =~= Seq::<PointRecordView>::empty());
        }
        let mut j: usize = 0;
        while j < obj.shapes.len()
            invariant
                j <= obj.shapes.len(),
                records@.map_values(|r: PointRecord| r@) == records_of(objsv.take(i as int), idsv)
                    + shapes_records(shapesv.take(j as int), vv),
            decreases obj.shapes.len() - j,
        {
            let shape = &obj.shapes[j];
            let ghost sv = shapesv[j as int];
            proof {
                assert(sv == obj.shapes@[j as int]@);
                assert(shape_records(sv, vv).take(0) =~= Seq::<PointRecordView>::empty());
                assert(records@.map_values(|r: PointRecord| r@) == records_of(
                    objsv.take(i as int),
                    idsv,
                ) + shapes_records(shapesv.take(j as int), vv) + shape_records(sv, vv).take(0));
            }
            let mut k: usize = 0;
            while k < shape.vertices.len()
                invariant
                    k <= shape.vertices.len(),
                    records@.map_values(|r: PointRecord| r@) == records_of(
                        objsv.take(i as int),
                        idsv,
                    ) + shapes_records(shapesv.take(j as int), vv) + shape_records(sv, vv).take(
                        k as int,
                    ),
                decreases shape.vertices.len() - k,
            {
                let ghost before = records@.map_values(|r: PointRecord| r@);
                let rec = PointRecord {
                    space_id: shape.reference_space.clone(),
                    position: shape.vertices[k].clone(),
                    value: v,
                };
                proof {
                    assert(rec@ == shape_records(sv, vv)[k as int]) by {
                        assert(sv.vertices[k as int] == shape.vertices@[k as int]@);
                    }
                }
                records.push(rec);
                proof {
                    assert(records@.map_values(|r: PointRecord| r@) =~= before.push(rec@));
                    assert(shape_records(sv, vv).take(k + 1) =~= shape_records(sv, vv).take(
                        k as int,
                    ).push(shape_records(sv, vv)[k as int]));
                }
                k = k + 1;
            }
            proof {
                assert(shape_records(sv, vv).take(k as int) =~= shape_records(sv, vv));
                assert(shapesv.take(j + 1).drop_last() =~= shapesv.take(j as int));
                assert(shapesv.take(j + 1).last() == sv);
                assert(shapes_records(shapesv.take(j + 1), vv) == shapes_records(
                    shapesv.take(j as int),
                    vv,
                ) + shape_records(sv, vv));
            }
            j = j + 1;
        }
        proof {
            assert(shapesv.take(j as int) =~= shapesv);
            assert(objsv.take(i + 1).drop_last() =~= objsv.take(i as int));
            assert(objsv.take(i + 1).last() == objsv[i as int]);
            assert(object_records(objsv[i as int], idsv) == shapes_records(shapesv, vv));
            assert(records_of(objsv.take(i + 1), idsv) == records_of(objsv.take(i as int), idsv)
                + object_records(objsv[i as int], idsv));
        }
        i = i + 1;
    }
    proof {
        assert(objsv.take(objects.len() as int) =~= objsv);
    }
    records
}

/// Wraps the sorted identifiers as canonical Feature properties.
#[verifier::loop_isolation(false)]
fn make_properties(ids: Vec<String>) -> (properties: Vec<Properties>)
    ensures
        properties@.map_values(|p: Properties| p@).map_values(
            |p: crate::model::PropertiesView| p.id,
        ) == id_views(ids@),
        forall|k: int|
            0 <= k < properties@.len() ==> (#[trigger] properties@[k]@).kind == "Feature"@,
{
    let ghost idsv = id_views(ids@);
    let mut properties: Vec<Properties> = Vec::new();
    let mut i: usize = 0;
    while i < ids.len()
        invariant
            i <= ids.len(),
            properties@.len() == i,
            forall|k: int|
                0 <= k < i ==> (#[trigger] properties@[k]@).kind == "Feature"@ && properties@[k]@.id
                    == idsv[k],
        decreases ids.len() - i,
    {
        properties.push(Properties { kind: "Feature".to_owned(), id: ids[i].clone() });
        i = i + 1;
    }
    proof {
        assert(properties@.map_values(|p: Properties| p@).map_values(
            |p: crate::model::PropertiesView| p.id,
        ) =~= idsv);
    }
    properties
}

/// Well-formedness of a built core: the canonical properties list is sorted
/// without duplicates, and every record references one of its entries.
pub open spec fn core_wf(c: CoreView) -> bool {
    &&& strictly_sorted(core_ids(c))
    &&& forall|k: int|
        0 <= k < c.records.len() ==> 0 <= (#[trigger] c.records[k]).value < c.properties.len()
}

/// Builds the index for one dataset: deduplicates feature identities, sorts
/// them into the canonical properties list, and emits one point record per
/// vertex of every "Point" shape, referencing the canonical position of its
/// feature. A shape with any other type tag makes the whole build fail with
/// a reported error.
pub fn build_index(name: &str, spaces: Vec<Space>, objects: &Vec<SpatialObject>) -> (r: Result<
    Vec<Core>,
    BuildError,
>)
    ensures
        r is Ok <==> (forall|i: int|
            0 <= i < object_views(objects@).len() ==> crate::model::spec_all_points(
                #[trigger] object_views(objects@)[i],
            )),
        r matches Ok(cs) ==> cs@.len() == 1 && spec_build_ok(
            object_views(objects@),
            name@,
            spaces@.map_values(|s: Space| s@),
            cs@[0]@,
        ) && core_wf(cs@[0]@),
        r matches Err(e) ==> e matches BuildError::UnsupportedShape(t) && exists|i: int, j: int|
            0 <= i < object_views(objects@).len() && 0 <= j < object_views(
                objects@,
            )[i].shapes.len() && (#[trigger] object_views(objects@)[i].shapes[j]).kind == t@ && t@
                != "Point"@,
{
    let ghost objsv = object_views(objects@);
    let mut i: usize = 0;
    while i < objects.len()
        invariant
            i <= objects.len(),
            objsv == object_views(objects@),
            forall|k: int|
                0 <= k < i ==> crate::model::spec_all_points(#[trigger] objsv[k]),
        decreases objects.len() - i,
    {
        proof {
            assert(objsv[i as int] == objects@[i as int]@);
        }
        match crate::model::validate_object(&objects[i]) {
            Ok(_) => {},
            Err(e) => {
                proof {
                    assert(!crate::model::spec_all_points(objsv[i as int]));
                }
                return Err(e);
            },
        }
        i = i + 1;
    }
    let ids = collect_ids(objects);
    let records = emit_records(objects, &ids);
    let ghost idsv = id_views(ids@);
    let properties = make_properties(ids);
    let core = Core {
        name: name.to_owned(),
        version: "v0.1".to_owned(),
        spaces,
        properties,
        records,
    };
    proof {
        assert(core_ids(core@) =~= idsv);
        assert(core@.records =~= records_of(objsv, idsv));
        assert(core@.spaces =~= spaces@.map_values(|s: Space| s@));
        assert forall|k: int|
            0 <= k < objsv.len() implies idsv.contains(
            (#[trigger] objsv[k]).properties.id,
        ) by {
            assert(is_object_id(objsv, objsv[k].properties.id));
            assert(object_id_set(objsv).contains(objsv[k].properties.id));
        }
        lemma_records_of_values(objsv, idsv);
    }
    let mut cores: Vec<Core> = Vec::new();
    cores.push(core);
    Ok(cores)
}

/// Two sorted, duplicate-free identifier lists over the same set are the
/// same list.
pub proof fn lemma_sorted_same_set(a: Seq<Seq<char>>, b: Seq<Seq<char>>)
    requires
        strictly_sorted(a),
        strictly_sorted(b),
        a.to_set() == b.to_set(),
    ensures
        a == b,
    decreases a.len(),
{
    if a.len() == 0 {
        if b.len() > 0 {
            assert(b.contains(b[0]));
            assert(b.to_set().contains(b[0]));
            assert(a.to_set().contains(b[0]));
            assert(a.contains(b[0]));
        }
        assert(a =~= b);
    } else if b.len() == 0 {
        assert(a.contains(a[0]));
        assert(b.to_set().contains(a[0]));
        assert(b.contains(a[0]));
    } else {
        assert(a.contains(a[0]));
        assert(b.contains(b[0]));
        assert(a.to_set().contains(a[0]));
        assert(b.to_set().contains(a[0]));
        assert(b.contains(a[0]));
        assert(b.to_set().contains(b[0]));
        assert(a.to_set().contains(b[0]));
        assert(a.contains(b[0]));
        let wa = choose|k: int| 0 <= k < b.len() && b[k] == a[0];
        let wb = choose|k: int| 0 <= k < a.len() && a[k] == b[0];
        lemma_lex_lt_irreflexive(a[0]);
        lemma_lex_lt_irreflexive(b[0]);
        if lex_lt(a[0], b[0]) {
            // a[0] occurs in b at wa; anything after b[0] is above b[0], so
            // above a[0] too
            if wa > 0 {
                assert(lex_lt(b[0], b[wa]));
                lemma_lex_lt_transitive(a[0], b[0], b[wa]);
            }
            assert(false);
        }
        if lex_lt(b[0], a[0]) {
            if wb > 0 {
                assert(lex_lt(a[0], a[wb]));
                lemma_lex_lt_transitive(b[0], a[0], a[wb]);
            }
            assert(false);
        }
        lemma_lex_lt_total(a[0], b[0]);
        assert(a[0] == b[0]);
        let ta = a.drop_first();
        let tb = b.drop_first();
        assert forall|p: int, q: int| 0 <= p < q < ta.len() implies lex_lt(ta[p], ta[q]) by {
            assert(ta[p] == a[p + 1] && ta[q] == a[q + 1]);
        }
        assert forall|p: int, q: int| 0 <= p < q < tb.len() implies lex_lt(tb[p], tb[q]) by {
            assert(tb[p] == b[p + 1] && tb[q] == b[q + 1]);
        }
        assert forall|x: Seq<char>| ta.to_set().contains(x) == tb.to_set().contains(x) by {
            lemma_tail_contains(a, x);
            lemma_tail_contains(b, x);
            assert(a.to_set().contains(x) == a.contains(x));
            assert(b.to_set().contains(x) == b.contains(x));
        }
        assert(ta.to_set() =~= tb.to_set());
        lemma_sorted_same_set(ta, tb);
        assert forall|k: int| 0 <= k < a.len() implies a[k] == b[k] by {
            if k > 0 {
                assert(a[k] == ta[k - 1] && b[k] == tb[k - 1]);
            }
        }
        assert(a =~= b);
    }
}

/// In a sorted, duplicate-free list, the tail holds exactly the elements
/// other than the head.
proof fn lemma_tail_contains(a: Seq<Seq<char>>, x: Seq<char>)
    requires
        strictly_sorted(a),
        a.len() > 0,
    ensures
        a.drop_first().contains(x) <==> (a.contains(x) && x != a[0]),
{
    let ta = a.drop_first();
    if ta.contains(x) {
        let w = choose|k: int| 0 <= k < ta.len() && ta[k] == x;
        assert(a[w + 1] == x);
        assert(lex_lt(a[0], a[w + 1]));
        lemma_lex_lt_irreflexive(a[0]);
    }
    if a.contains(x) && x != a[0] {
        let w = choose|k: int| 0 <= k < a.len() && a[k] == x;
        assert(w > 0);
        assert(ta[w - 1] == x);
    }
}

/// Building twice from the same input yields the same canonical properties
/// ordering and the same point-to-reference mapping: the build result is a
/// function of the input alone.
pub proof fn lemma_build_deterministic(
    objects: Seq<SpatialObjectView>,
    name: Seq<char>,
    spaces: Seq<crate::model::SpaceView>,
    c1: CoreView,
    c2: CoreView,
)
    requires
        spec_build_ok(objects, name, spaces, c1),
        spec_build_ok(objects, name, spaces, c2),
    ensures
        c1 == c2,
{
    lemma_sorted_same_set(core_ids(c1), core_ids(c2));
    assert forall|k: int| 0 <= k < c1.properties.len() implies c1.properties[k]
        == c2.properties[k] by {
        assert(core_ids(c1)[k] == c1.properties[k].id);
        assert(core_ids(c2)[k] == c2.properties[k].id);
        let p1 = c1.properties[k];
        let p2 = c2.properties[k];
        assert(p1.kind == p2.kind && p1.id == p2.id);
        assert(p1 == crate::model::PropertiesView { kind: p1.kind, id: p1.id });
        assert(p2 == crate::model::PropertiesView { kind: p2.kind, id: p2.id });
    }
    assert(c1.properties.len() == core_ids(c1).len());
    assert(c1.properties =~= c2.properties);
    assert(c1.records == c2.records);
    assert(c1 == CoreView {
        name: c1.name,
        version: c1.version,
        spaces: c1.spaces,
        properties: c1.properties,
        records: c1.records,
    });
    assert(c2 == CoreView {
        name: c2.name,
        version: c2.version,
        spaces: c2.spaces,
        properties: c2.properties,
        records: c2.records,
    });
}

/// The deduplication invariant: two records whose references name the same
/// feature identifier carry the same reference, since the canonical list
/// holds each identifier once.
pub proof fn lemma_dedup_invariant(c: CoreView, k1: int, k2: int)
    requires
        core_wf(c),
        0 <= k1 < c.records.len(),
        0 <= k2 < c.records.len(),
        c.properties[c.records[k1].value].id == c.properties[c.records[k2].value].id,
    ensures
        c.records[k1].value == c.records[k2].value,
{
    let v1 = c.records[k1].value;
    let v2 = c.records[k2].value;
    assert(core_ids(c)[v1] == c.properties[v1].id);
    assert(core_ids(c)[v2] == c.properties[v2].id);
    if v1 < v2 {
        assert(lex_lt(core_ids(c)[v1], core_ids(c)[v2]));
        lemma_lex_lt_irreflexive(core_ids(c)[v1]);
    }
    if v2 < v1 {
        assert(lex_lt(core_ids(c)[v2], core_ids(c)[v1]));
        lemma_lex_lt_irreflexive(core_ids(c)[v1]);
    }
}

/// Records emitted for objects that share one identifier all carry that
/// identifier's canonical index as their reference.
pub proof fn lemma_same_id_same_reference(
    objects: Seq<SpatialObjectView>,
    ids: Seq<Seq<char>>,
    i1: int,
    i2: int,
)
    requires
        0 <= i1 < objects.len(),
        0 <= i2 < objects.len(),
        objects[i1].properties.id == objects[i2].properties.id,
    ensures
        forall|k1: int, k2: int|
            0 <= k1 < object_records(objects[i1], ids).len() && 0 <= k2 < object_records(
                objects[i2],
                ids,
            ).len() ==> (#[trigger] object_records(objects[i1], ids)[k1]).value == (
            #[trigger] object_records(objects[i2], ids)[k2]).value,
{
    lemma_shapes_records_value(objects[i1].shapes, id_index(ids, objects[i1].properties.id));
    lemma_shapes_records_value(objects[i2].shapes, id_index(ids, objects[i2].properties.id));
}

} // verus!
