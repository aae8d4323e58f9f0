//! Request-level helpers around the loaded database: the filter block a
//! request carries, its validation against the known spaces, and the summary
//! document that describes a core to clients.

use vstd::prelude::*;

use crate::query::{has_space, CoreQueryParameters, DataBase, ExecutionError};

verus! {

/// The request-handling state: an explicitly owned, immutable handle to the
/// loaded database, passed by reference into request handling.
///
/// Every request path only reads it, so any number of requests execute
/// concurrently; there is no lock to acquire and none to poison. All
/// mutation happens offline, in the builder, before a database is loaded.
/// The two grammars (query and filter) are outside collaborators; their
/// outcomes enter the request pipeline as events.
pub struct SharedState {
    pub db: DataBase,
}

impl SharedState {
    pub fn new(db: DataBase) -> (s: SharedState)
        ensures
            s.db == db,
    {
        SharedState { db }
    }

    /// The loaded database, shared read-only.
    pub fn db(&self) -> (r: &DataBase)
        ensures
            r == &self.db,
    {
        &self.db
    }
}

/// The filter block of a request: an optional filter expression, whether
/// only identifiers are wanted, an optional output space, and the scale
/// inputs (opaque scalar words).
#[derive(Clone, Debug)]
pub struct Filters {
    pub filters: Option<String>,
    pub ids_only: Option<bool>,
    pub space: Option<String>,
    pub resolution: Option<Vec<u32>>,
    pub view_port: Option<(Vec<u64>, Vec<u64>)>,
}

/// Whether a request asks for identifiers only; unset means yes.
pub open spec fn spec_ids_only(f: Filters) -> bool {
    match f.ids_only {
        Some(b) => b,
        None => true,
    }
}

impl Filters {
    /// The filter expression, if the request carries one.
    pub fn filters(&self) -> (r: &Option<String>)
        ensures
            *r == self.filters,
    {
        &self.filters
    }

    /// Whether only identifiers are wanted; unset means yes.
    pub fn ids_only(&self) -> (r: bool)
        ensures
            r == spec_ids_only(*self),
    {
        match self.ids_only {
            Some(b) => b,
            None => true,
        }
    }

    /// Validates the requested output space: unset is fine, a known space is
    /// returned, an unknown one is the request's error.
    pub fn space(&self, db: &DataBase) -> (r: Result<Option<String>, ExecutionError>)
        ensures
            r is Ok <==> (self.space matches Some(s) ==> has_space(db@, s@)),
            r matches Ok(v) ==> v == self.space,
            r matches Err(e) ==> (e matches ExecutionError::UnknownSpace(t) && self.space
                matches Some(s) && t@ == s@ && !has_space(db@, s@)),
    {
        match &self.space {
            Option::None => Ok(None),
            Option::Some(s) => {
                if db.space(s.as_str()).is_none() {
                    Err(ExecutionError::UnknownSpace(s.clone()))
                } else {
                    Ok(Some(s.clone()))
                }
            },
        }
    }

    /// The explicit scale level, if the request carries one.
    pub fn resolution(&self) -> (r: &Option<Vec<u32>>)
        ensures
            *r == self.resolution,
    {
        &self.resolution
    }

    /// Assembles the per-request query parameters. The volume threshold is
    /// computed from the view-port by the caller (it is scalar arithmetic
    /// on the opaque words) and passed in.
    pub fn to_parameters(&self, threshold_volume: Option<u64>) -> (r: CoreQueryParameters)
        ensures
            r@.output_space == (match self.space {
                Option::None => Option::<Seq<char>>::None,
                Option::Some(s) => Option::Some(s@),
            }),
            r@.threshold_volume == threshold_volume,
            r@.view_port == (match self.view_port {
                Option::None => Option::<(Seq<u64>, Seq<u64>)>::None,
                Option::Some((low, high)) => Option::Some((low@, high@)),
            }),
            r@.resolution == (match self.resolution {
                Option::None => Option::<Seq<u32>>::None,
                Option::Some(v) => Option::Some(v@),
            }),
    {
        let output_space = match &self.space {
            Option::None => None,
            Option::Some(s) => Some(s.clone()),
        };
        let view_port = match &self.view_port {
            Option::None => None,
            Option::Some((low, high)) => Some((copy_words(low), copy_words(high))),
        };
        let resolution = match &self.resolution {
            Option::None => None,
            Option::Some(v) => Some(copy_levels(v)),
        };
        CoreQueryParameters { output_space, threshold_volume, view_port, resolution }
    }
}

/// The body of a free-form query request: the query text and the scale
/// inputs (opaque scalar words).
#[derive(Clone, Debug)]
pub struct Query {
    pub query: String,
    pub resolution: Option<Vec<u32>>,
    pub view_port: Option<(Vec<u64>, Vec<u64>)>,
}

impl Query {
    /// The query text.
    pub fn query(&self) -> (r: &String)
        ensures
            r == &self.query,
    {
        &self.query
    }

    /// The explicit scale level, if the request carries one.
    pub fn resolution(&self) -> (r: &Option<Vec<u32>>)
        ensures
            *r == self.resolution,
    {
        &self.resolution
    }

    /// The volume threshold derived from the view-port. Deriving it is
    /// scalar arithmetic on the opaque words, which lives at the service
    /// edge; this request path does not select by volume, so no threshold is
    /// reported.
    pub fn volume(&self) -> (r: Option<u64>)
        ensures
            r is None,
    {
        None
    }
}

/// Copies a vector of opaque scalar words.
fn copy_words(v: &Vec<u64>) -> (r: Vec<u64>)
    ensures
        r@ == v@,
{
    let mut r: Vec<u64> = Vec::new();
    let mut i: usize = 0;
    while i < v.len()
        invariant
            i <= v.len(),
            r@ == v@.take(i as int),
        decreases v.len() - i,
    {
        r.push(v[i]);
        proof {
            assert(r@ =~= v@.take(i + 1));
        }
        i = i + 1;
    }
    proof {
        assert(v@.take(v.len() as int) =~= v@);
    }
    r
}

/// Copies a vector of scale levels.
fn copy_levels(v: &Vec<u32>) -> (r: Vec<u32>)
    ensures
        r@ == v@,
{
    let mut r: Vec<u32> = Vec::new();
    let mut i: usize = 0;
    while i < v.len()
        invariant
            i <= v.len(),
            r@ == v@.take(i as int),
        decreases v.len() - i,
    {
        r.push(v[i]);
        proof {
            assert(r@ =~= v@.take(i + 1));
        }
        i = i + 1;
    }
    proof {
        assert(v@.take(v.len() as int) =~= v@);
    }
    r
}

/// The client-facing summary of a core: its name, its version, and the
/// scale levels it offers.
#[derive(Clone, Debug, PartialEq, Eq)]
pub struct Core {
    pub name: String,
    pub version: String,
    pub scales: Vec<Vec<i32>>,
}

impl Core {
    /// Summarizes a built core. The index holds every record at the finest
    /// level, so the one scale reported is the zero vector.
    pub fn of_index(core: &crate::index::Core) -> (r: Core)
        ensures
            r.name@ == core@.name,
            r.version@ == core@.version,
            r.scales@.len() == 1,
            r.scales@[0]@ == seq![0i32, 0i32, 0i32],
    {
        let mut scale: Vec<i32> = Vec::new();
        scale.push(0);
        scale.push(0);
        scale.push(0);
        proof {
            assert(scale@ =~= seq![0i32, 0i32, 0i32]);
        }
        let mut scales: Vec<Vec<i32>> = Vec::new();
        scales.push(scale);
        Core { name: core.name.clone(), version: core.version.clone(), scales }
    }
}

} // verus!
