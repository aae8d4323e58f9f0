//! Query execution against the loaded database: core and space lookup,
//! per-request parameters, and the retrievals the index answers (all records
//! of a core, or the records of one feature).
//!
//! The database is immutable once loaded, so any number of requests may read
//! it concurrently; there is no lock and no writer on the serving path.

use vstd::prelude::*;

use crate::index::{core_wf, id_index, lemma_id_index_present, Core, CoreView, PointRecordView};
use crate::model::{Space, SpaceView};
use crate::order::str_eq;

verus! {

/// The spaces and cores loaded for serving. Read-only after load.
#[derive(Clone, Debug)]
pub struct DataBase {
    pub spaces: Vec<Space>,
    pub cores: Vec<Core>,
}

pub struct DataBaseView {
    pub spaces: Seq<SpaceView>,
    pub cores: Seq<CoreView>,
}

impl View for DataBase {
    type V = DataBaseView;

    open spec fn view(&self) -> DataBaseView {
        DataBaseView {
            spaces: self.spaces@.map_values(|s: Space| s@),
            cores: self.cores@.map_values(|c: Core| c@),
        }
    }
}

pub open spec fn space_names(db: DataBaseView) -> Seq<Seq<char>> {
    db.spaces.map_values(|s: SpaceView| s.name)
}

pub open spec fn core_names(db: DataBaseView) -> Seq<Seq<char>> {
    db.cores.map_values(|c: CoreView| c.name)
}

pub open spec fn has_space(db: DataBaseView, name: Seq<char>) -> bool {
    space_names(db).contains(name)
}

pub open spec fn has_core(db: DataBaseView, name: Seq<char>) -> bool {
    core_names(db).contains(name)
}

/// The space a name denotes: the first one carrying it.
pub open spec fn space_lookup(db: DataBaseView, name: Seq<char>) -> SpaceView {
    db.spaces[id_index(space_names(db), name)]
}

/// The core a name denotes: the first one carrying it.
pub open spec fn core_lookup(db: DataBaseView, name: Seq<char>) -> CoreView {
    db.cores[id_index(core_names(db), name)]
}

/// Every core of the database is well-formed.
pub open spec fn db_wf(db: DataBaseView) -> bool {
    forall|k: int| 0 <= k < db.cores.len() ==> core_wf(#[trigger] db.cores[k])
}

impl DataBase {
    pub fn new(spaces: Vec<Space>, cores: Vec<Core>) -> (db: DataBase)
        ensures
            db@.spaces == spaces@.map_values(|s: Space| s@),
            db@.cores == cores@.map_values(|c: Core| c@),
    {
        DataBase { spaces, cores }
    }

    /// Looks a space up by name; `None` exactly when no space carries it.
    pub fn space(&self, name: &str) -> (r: Option<&Space>)
        ensures
            r is Some <==> has_space(self@, name@),
            r matches Some(s) ==> s@ == space_lookup(self@, name@),
    {
        let ghost names = space_names(self@);
        let mut i: usize = 0;
        while i < self.spaces.len()
            invariant
                i <= self.spaces.len(),
                names == space_names(self@),
                forall|k: int| 0 <= k < i ==> #[trigger] names[k] != name@,
                id_index(names.take(i as int), name@) == i,
            decreases self.spaces.len() - i,
        {
            proof {
                assert(names[i as int] == self.spaces@[i as int]@.name);
            }
            if str_eq(self.spaces[i].name.as_str(), name) {
                proof {
                    assert(names[i as int] == name@);
                    lemma_first_index_step(names, name@, i as int);
                    assert(names.contains(name@));
                }
                return Some(&self.spaces[i]);
            }
            proof {
                lemma_first_index_step(names, name@, i as int);
            }
            i = i + 1;
        }
        proof {
            if names.contains(name@) {
                let w = choose|k: int| 0 <= k < names.len() && names[k] == name@;
                assert(names[w] != name@);
            }
        }
        None
    }

    /// Looks a core up by name; `None` exactly when no core carries it.
    pub fn find_core(&self, name: &str) -> (r: Option<&Core>)
        ensures
            r is Some <==> has_core(self@, name@),
            r matches Some(c) ==> c@ == core_lookup(self@, name@),
    {
        let ghost names = core_names(self@);
        let mut i: usize = 0;
        while i < self.cores.len()
            invariant
                i <= self.cores.len(),
                names == core_names(self@),
                forall|k: int| 0 <= k < i ==> #[trigger] names[k] != name@,
                id_index(names.take(i as int), name@) == i,
            decreases self.cores.len() - i,
        {
            proof {
                assert(names[i as int] == self.cores@[i as int]@.name);
            }
            if str_eq(self.cores[i].name.as_str(), name) {
                proof {
                    assert(names[i as int] == name@);
                    lemma_first_index_step(names, name@, i as int);
                    assert(names.contains(name@));
                }
                return Some(&self.cores[i]);
            }
            proof {
                lemma_first_index_step(names, name@, i as int);
            }
            i = i + 1;
        }
        proof {
            if names.contains(name@) {
                let w = choose|k: int| 0 <= k < names.len() && names[k] == name@;
                assert(names[w] != name@);
            }
        }
        None
    }

    /// The names of all loaded spaces, in load order.
    pub fn space_keys(&self) -> (r: Vec<String>)
        ensures
            crate::index::id_views(r@) == space_names(self@),
    {
        let mut r: Vec<String> = Vec::new();
        let mut i: usize = 0;
        while i < self.spaces.len()
            invariant
                i <= self.spaces.len(),
                r@.len() == i,
                forall|k: int| 0 <= k < i ==> #[trigger] r@[k]@ == space_names(self@)[k],
            decreases self.spaces.len() - i,
        {
            proof {
                assert(space_names(self@)[i as int] == self.spaces@[i as int]@.name);
            }
            r.push(self.spaces[i].name.clone());
            i = i + 1;
        }
        proof {
            assert(crate::index::id_views(r@) =~= space_names(self@));
        }
        r
    }

    /// The names of all loaded cores, in load order.
    pub fn core_keys(&self) -> (r: Vec<String>)
        ensures
            crate::index::id_views(r@) == core_names(self@),
    {
        let mut r: Vec<String> = Vec::new();
        let mut i: usize = 0;
        while i < self.cores.len()
            invariant
                i <= self.cores.len(),
                r@.len() == i,
                forall|k: int| 0 <= k < i ==> #[trigger] r@[k]@ == core_names(self@)[k],
            decreases self.cores.len() - i,
        {
            proof {
                assert(core_names(self@)[i as int] == self.cores@[i as int]@.name);
            }
            r.push(self.cores[i].name.clone());
            i = i + 1;
        }
        proof {
            assert(crate::index::id_views(r@) =~= core_names(self@));
        }
        r
    }
}

/// A raw query result: one indexed point, with the space it lies in and the
/// identifier of the feature it belongs to.
#[derive(Clone, Debug, PartialEq, Eq)]
pub struct SpaceObject {
    pub space_id: String,
    pub position: Vec<u64>,
    pub id: String,
}

pub struct SpaceObjectView {
    pub space_id: Seq<char>,
    pub position: Seq<u64>,
    pub id: Seq<char>,
}

impl View for SpaceObject {
    type V = SpaceObjectView;

    open spec fn view(&self) -> SpaceObjectView {
        SpaceObjectView { space_id: self.space_id@, position: self.position@, id: self.id@ }
    }
}

/// Per-request context: an optional re-projection target space, an optional
/// volume threshold and view-port (opaque scalar words, used by scale
/// selection), and an optional explicit scale level.
#[derive(Clone, Debug)]
pub struct CoreQueryParameters {
    pub output_space: Option<String>,
    pub threshold_volume: Option<u64>,
    pub view_port: Option<(Vec<u64>, Vec<u64>)>,
    pub resolution: Option<Vec<u32>>,
}

pub struct CoreQueryParametersView {
    pub output_space: Option<Seq<char>>,
    pub threshold_volume: Option<u64>,
    pub view_port: Option<(Seq<u64>, Seq<u64>)>,
    pub resolution: Option<Seq<u32>>,
}

impl View for CoreQueryParameters {
    type V = CoreQueryParametersView;

    open spec fn view(&self) -> CoreQueryParametersView {
        CoreQueryParametersView {
            output_space: match self.output_space {
                Option::None => Option::None,
                Option::Some(s) => Option::Some(s@),
            },
            threshold_volume: self.threshold_volume,
            view_port: match self.view_port {
                Option::None => Option::None,
                Option::Some((low, high)) => Option::Some((low@, high@)),
            },
            resolution: match self.resolution {
                Option::None => Option::None,
                Option::Some(r) => Option::Some(r@),
            },
        }
    }
}

/// What a request retrieves from a core: every record, or the records of one
/// feature.
#[derive(Clone, Debug)]
pub enum Retrieval {
    All,
    ById(String),
}

pub enum RetrievalView {
    All,
    ById(Seq<char>),
}

impl View for Retrieval {
    type V = RetrievalView;

    open spec fn view(&self) -> RetrievalView {
        match self {
            Retrieval::All => RetrievalView::All,
            Retrieval::ById(id) => RetrievalView::ById(id@),
        }
    }
}

/// A recoverable failure of the execute stage. Surfaced to the caller;
/// never a panic. A corrupt index cannot arise here: the loader refuses a
/// bundle whose records reference past the properties list, and a built core
/// is well-formed by construction.
#[derive(Clone, Debug, PartialEq, Eq)]
pub enum ExecutionError {
    /// The request named a core that is not loaded.
    UnknownCore(String),
    /// The request named an output space that does not exist.
    UnknownSpace(String),
}

/// The raw result standing for one point record: its space, its encoded
/// position, and its feature's identifier.
pub open spec fn object_of_record(c: CoreView, r: PointRecordView) -> SpaceObjectView {
    SpaceObjectView { space_id: r.space_id, position: r.position, id: c.properties[r.value].id }
}

/// All records of a core as raw results, in record order.
pub open spec fn spec_objects_of(c: CoreView) -> Seq<SpaceObjectView> {
    Seq::new(c.records.len(), |k: int| object_of_record(c, c.records[k]))
}

/// The raw results carrying one identifier, in record order.
pub open spec fn filter_objects(objs: Seq<SpaceObjectView>, id: Seq<char>) -> Seq<SpaceObjectView>
    decreases objs.len(),
{
    if objs.len() == 0 {
        Seq::empty()
    } else {
        let front = filter_objects(objs.drop_last(), id);
        if objs.last().id == id {
            front.push(objs.last())
        } else {
            front
        }
    }
}

/// What one retrieval returns from one core.
pub open spec fn spec_retrieve(c: CoreView, t: RetrievalView) -> Seq<SpaceObjectView> {
    match t {
        RetrievalView::All => spec_objects_of(c),
        RetrievalView::ById(id) => filter_objects(spec_objects_of(c), id),
    }
}

impl Core {
    /// The canonical deduplicated properties list: one entry per feature.
    pub fn keys(&self) -> (r: &Vec<crate::model::Properties>)
        ensures
            r@.map_values(|p: crate::model::Properties| p@) == self@.properties,
    {
        &self.properties
    }

    /// The identifiers of the canonical properties list, in canonical
    /// order; unique by construction.
    pub fn key_ids(&self) -> (r: Vec<String>)
        ensures
            crate::index::id_views(r@) == crate::index::core_ids(self@),
    {
        let mut r: Vec<String> = Vec::new();
        let mut i: usize = 0;
        while i < self.properties.len()
            invariant
                i <= self.properties.len(),
                r@.len() == i,
                forall|k: int|
                    0 <= k < i ==> #[trigger] r@[k]@ == crate::index::core_ids(self@)[k],
            decreases self.properties.len() - i,
        {
            proof {
                assert(crate::index::core_ids(self@)[i as int] == self.properties@[i as int]@.id);
            }
            r.push(self.properties[i].id.clone());
            i = i + 1;
        }
        proof {
            assert(crate::index::id_views(r@) =~= crate::index::core_ids(self@));
        }
        r
    }

    /// Every record of the core as a raw result.
    pub fn get_all(&self) -> (r: Vec<SpaceObject>)
        requires
            core_wf(self@),
        ensures
            r@.map_values(|o: SpaceObject| o@) == spec_objects_of(self@),
    {
        let ghost cv = self@;
        let mut r: Vec<SpaceObject> = Vec::new();
        proof {
            assert(r@.map_values(|o: SpaceObject| o@) =~= spec_objects_of(cv).take(0));
        }
        let mut i: usize = 0;
        while i < self.records.len()
            invariant
                i <= self.records.len(),
                cv == self@,
                core_wf(cv),
                r@.map_values(|o: SpaceObject| o@) == spec_objects_of(cv).take(i as int),
            decreases self.records.len() - i,
        {
            let ghost before = r@.map_values(|o: SpaceObject| o@);
            let rec = &self.records[i];
            proof {
                assert(cv.records[i as int] == rec@);
            }
            let obj = SpaceObject {
                space_id: rec.space_id.clone(),
                position: rec.position.clone(),
                id: self.properties[rec.value].id.clone(),
            };
            proof {
                assert(cv.properties[rec@.value] == self.properties@[rec.value as int]@);
                assert(obj@ == spec_objects_of(cv)[i as int]);
            }
            r.push(obj);
            proof {
                assert(r@.map_values(|o: SpaceObject| o@) =~= before.push(obj@));
                assert(spec_objects_of(cv).take(i + 1) =~= spec_objects_of(cv).take(
                    i as int,
                ).push(spec_objects_of(cv)[i as int]));
            }
            i = i + 1;
        }
        proof {
            assert(spec_objects_of(cv).take(self.records.len() as int) =~= spec_objects_of(cv));
        }
        r
    }

    /// The records of one feature, found by its identifier.
    pub fn get_by_id(&self, id: &str) -> (r: Vec<SpaceObject>)
        requires
            core_wf(self@),
        ensures
            r@.map_values(|o: SpaceObject| o@) == filter_objects(spec_objects_of(self@), id@),
    {
        let ghost cv = self@;
        let ghost all = spec_objects_of(cv);
        let mut r: Vec<SpaceObject> = Vec::new();
        proof {
            assert(all.take(0) =~= Seq::<SpaceObjectView>::empty());
        }
        let mut i: usize = 0;
        while i < self.records.len()
            invariant
                i <= self.records.len(),
                cv == self@,
                core_wf(cv),
                all == spec_objects_of(cv),
                r@.map_values(|o: SpaceObject| o@) == filter_objects(all.take(i as int), id@),
            decreases self.records.len() - i,
        {
            let ghost before = r@.map_values(|o: SpaceObject| o@);
            let rec = &self.records[i];
            proof {
                assert(cv.records[i as int] == rec@);
                assert(cv.properties[rec@.value] == self.properties@[rec.value as int]@);
                assert(all[i as int] == object_of_record(cv, rec@));
                assert(all.take(i + 1).drop_last() =~= all.take(i as int));
                assert(all.take(i + 1).last() == all[i as int]);
            }
            if str_eq(self.properties[rec.value].id.as_str(), id) {
                let obj = SpaceObject {
                    space_id: rec.space_id.clone(),
                    position: rec.position.clone(),
                    id: self.properties[rec.value].id.clone(),
                };
                proof {
                    assert(obj@ == all[i as int]);
                }
                r.push(obj);
                proof {
                    assert(r@.map_values(|o: SpaceObject| o@) =~= before.push(obj@));
                }
            }
            i = i + 1;
        }
        proof {
            assert(all.take(self.records.len() as int) =~= all);
        }
        r
    }
}

/// What execution promises the caller: success exactly when the core and the
/// requested output space exist, a typed error naming what was unknown
/// otherwise, and on success the retrieval's records from that core.
pub open spec fn spec_execute_contract(
    db: DataBaseView,
    core_id: Seq<char>,
    output_space: Option<Seq<char>>,
    target: RetrievalView,
    r: Result<Vec<SpaceObject>, ExecutionError>,
) -> bool {
    &&& (r is Ok <==> has_core(db, core_id) && (output_space matches Some(s) ==> has_space(
        db,
        s,
    )))
    &&& (!has_core(db, core_id) ==> (r matches Err(ExecutionError::UnknownCore(t)) && t@
        == core_id))
    &&& ((has_core(db, core_id) && (output_space matches Some(s) && !has_space(db, s))) ==> (
    r matches Err(ExecutionError::UnknownSpace(t)) && Some(t@) == output_space))
    &&& (r matches Ok(v) ==> v@.map_values(|o: SpaceObject| o@) == spec_retrieve(
        core_lookup(db, core_id),
        target,
    ))
}

/// Executes one retrieval against one named core. Engine-level problems (an
/// unknown core id, an unknown output space id) are reported as values.
pub fn execute_retrieval(
    db: &DataBase,
    core_id: &str,
    parameters: &CoreQueryParameters,
    target: &Retrieval,
) -> (r: Result<Vec<SpaceObject>, ExecutionError>)
    requires
        db_wf(db@),
    ensures
        spec_execute_contract(db@, core_id@, parameters@.output_space, target@, r),
{
    let core = match db.find_core(core_id) {
        Option::None => {
            return Err(ExecutionError::UnknownCore(core_id.to_owned()));
        },
        Option::Some(c) => c,
    };
    match &parameters.output_space {
        Option::None => {},
        Option::Some(s) => {
            if db.space(s.as_str()).is_none() {
                return Err(ExecutionError::UnknownSpace(s.clone()));
            }
        },
    }
    proof {
        lemma_id_index_present(core_names(db@), core_id@);
        assert(core_wf(core@));
    }
    match target {
        Retrieval::All => Ok(core.get_all()),
        Retrieval::ById(id) => Ok(core.get_by_id(id.as_str())),
    }
}

/// Fans one retrieval out over every loaded core: one entry per core, in
/// load order, each carrying that core's own success or typed error. The
/// caller chooses how to aggregate.
pub fn execute_all_cores(
    db: &DataBase,
    parameters: &CoreQueryParameters,
    target: &Retrieval,
) -> (r: Vec<(String, Result<Vec<SpaceObject>, ExecutionError>)>)
    requires
        db_wf(db@),
    ensures
        r@.len() == db@.cores.len(),
        forall|k: int|
            0 <= k < r@.len() ==> (#[trigger] r@[k]).0@ == core_names(db@)[k]
                && spec_execute_contract(
                db@,
                core_names(db@)[k],
                parameters@.output_space,
                target@,
                r@[k].1,
            ),
{
    let keys = db.core_keys();
    let mut r: Vec<(String, Result<Vec<SpaceObject>, ExecutionError>)> = Vec::new();
    let mut i: usize = 0;
    while i < keys.len()
        invariant
            i <= keys.len(),
            db_wf(db@),
            crate::index::id_views(keys@) == core_names(db@),
            r@.len() == i,
            forall|k: int|
                0 <= k < i ==> (#[trigger] r@[k]).0@ == core_names(db@)[k]
                    && spec_execute_contract(
                    db@,
                    core_names(db@)[k],
                    parameters@.output_space,
                    target@,
                    r@[k].1,
                ),
        decreases keys.len() - i,
    {
        proof {
            assert(crate::index::id_views(keys@)[i as int] == keys@[i as int]@);
        }
        let outcome = execute_retrieval(db, keys[i].as_str(), parameters, target);
        r.push((keys[i].clone(), outcome));
        i = i + 1;
    }
    proof {
        assert(keys@.len() == crate::index::id_views(keys@).len());
        assert(core_names(db@).len() == db@.cores.len());
    }
    r
}

/// While no match has been seen, the first occurrence lies beyond the
/// scanned prefix; a match at its end pins it.
proof fn lemma_first_index_step(names: Seq<Seq<char>>, name: Seq<char>, i: int)
    requires
        0 <= i < names.len(),
        id_index(names.take(i), name) == i,
    ensures
        names[i] == name ==> id_index(names, name) == i && names.contains(name),
        names[i] != name ==> id_index(names.take(i + 1), name) == i + 1,
{
    lemma_id_index_prefix(names, name, i);
    if names[i] == name {
        assert(names.contains(name));
    }
}

/// The first occurrence of a name among the first `i + 1` entries is either
/// within the first `i` or at position `i`.
proof fn lemma_id_index_prefix(names: Seq<Seq<char>>, name: Seq<char>, i: int)
    requires
        0 <= i < names.len(),
        id_index(names.take(i), name) == i,
    ensures
        names[i] == name ==> id_index(names, name) == i,
        names[i] != name ==> id_index(names.take(i + 1), name) == i + 1,
{
    assert(names.take(i).len() == i);
    assert(names.take(names.take(i).len() as int) == names.take(i));
    lemma_id_index_extend(names.take(i), names, name);
    assert(names.take(i + 1).take(i) =~= names.take(i));
    lemma_id_index_extend(names.take(i), names.take(i + 1), name);
}

/// Extending a scanned prefix that holds no match moves the first-occurrence
/// index past it: the search continues in the added part.
proof fn lemma_id_index_extend(prefix: Seq<Seq<char>>, whole: Seq<Seq<char>>, name: Seq<char>)
    requires
        prefix.len() <= whole.len(),
        whole.take(prefix.len() as int) == prefix,
        id_index(prefix, name) == prefix.len(),
    ensures
        prefix.len() < whole.len() && whole[prefix.len() as int] == name ==> id_index(whole, name)
            == prefix.len(),
        prefix.len() < whole.len() && whole[prefix.len() as int] != name && whole.len() == prefix.len()
            + 1 ==> id_index(whole, name) == whole.len(),
    decreases prefix.len(),
{
    if prefix.len() == 0 {
        if whole.len() > 0 {
            if whole[0] == name {
                assert(id_index(whole, name) == 0);
            } else if whole.len() == 1 {
                assert(id_index(whole.drop_first(), name) == 0);
            }
        }
    } else {
        assert(prefix[0] == whole[0]);
        assert(prefix[0] != name) by {
            if prefix[0] == name {
                assert(id_index(prefix, name) == 0);
            }
        }
        let p2 = prefix.drop_first();
        let w2 = whole.drop_first();
        assert(id_index(p2, name) == p2.len());
        assert(w2.take(p2.len() as int) =~= p2) by {
            assert forall|k: int| 0 <= k < p2.len() implies w2[k] == p2[k] by {
                assert(p2[k] == prefix[k + 1]);
                assert(w2[k] == whole[k + 1]);
                assert(whole.take(prefix.len() as int)[k + 1] == whole[k + 1]);
            }
        }
        if prefix.len() < whole.len() {
            assert(w2[p2.len() as int] == whole[prefix.len() as int]);
        }
        lemma_id_index_extend(p2, w2, name);
    }
}

} // verus!
