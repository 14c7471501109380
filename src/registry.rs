//! The worker registry: the authoritative map from identifier to index, the
//! snapshots of it that readers use without blocking, and the crash-safe
//! record of which indexes exist with which configuration.
use std::collections::HashMap;
use std::sync::Arc;
use vstd::prelude::*;
use vstd::std_specs::iter::IteratorSpec;

verus! {

broadcast use vstd::std_specs::hash::group_hash_axioms;

/// Names one index within a worker.
pub type Id = u32;

/// Names one stored vector within an index.
pub type Pointer = u64;

/// How an index measures distance between vectors.
#[derive(Clone, Copy, Debug, PartialEq, Eq, Structural)]
pub enum Distance {
    L2,
    Cos,
    Dot,
}

/// The configuration an index is bound to for its whole life.
#[derive(Clone, Copy, Debug, PartialEq, Eq, Structural)]
pub struct IndexOptions {
    pub dims: u32,
    pub distance: Distance,
}

/// What callers of the read path and of the insert path are told.
#[derive(Debug, PartialEq, Eq)]
pub enum WorkerError {
    IndexNotFound,
    InvalidVector(String),
}

/// The value of the crash-safe record: which indexes exist, and how each was
/// configured.
pub struct WorkerStartup {
    indexes: HashMap<Id, IndexOptions>,
}

impl View for WorkerStartup {
    type V = Map<Id, IndexOptions>;

    open spec fn view(&self) -> Map<Id, IndexOptions> {
        self.spec_indexes()
    }
}

impl WorkerStartup {
    pub closed spec fn spec_indexes(&self) -> Map<Id, IndexOptions> {
        self.indexes@
    }

    /// The record of a worker that holds no index.
    pub fn new() -> (r: Self)
        ensures
            r@ == Map::<Id, IndexOptions>::empty(),
    {
        WorkerStartup { indexes: HashMap::new() }
    }

    /// Records that `id` exists with `options`, replacing what was recorded
    /// for `id` before.
    pub fn insert(&mut self, id: Id, options: IndexOptions)
        ensures
            final(self)@ == old(self)@.insert(id, options),
    {
        self.indexes.insert(id, options);
    }

    /// Forgets what was recorded for `id`, if anything.
    pub fn remove(&mut self, id: Id)
        ensures
            final(self)@ == old(self)@.remove(id),
    {
        self.indexes.remove(&id);
    }

    /// The configuration recorded for `id`.
    pub fn get(&self, id: Id) -> (r: Option<IndexOptions>)
        ensures
            r == (if self@.contains_key(id) { Some(self@[id]) } else { None::<IndexOptions> }),
    {
        match self.indexes.get(&id) {
            Some(o) => Some(*o),
            None => None,
        }
    }

    /// The number of recorded indexes.
    pub fn len(&self) -> (r: usize)
        ensures
            r == self@.len(),
    {
        self.indexes.len()
    }

    /// An equal, independent copy of the record.
    pub fn duplicate(&self) -> (r: Self)
        ensures
            r@ == self@,
    {
        WorkerStartup { indexes: self.indexes.clone() }
    }

    /// Every recorded pair, each identifier once, in no particular order.
    pub fn entries(&self) -> (r: Vec<(Id, IndexOptions)>)
        ensures
            pairs_ids(r@).no_duplicates(),
            pairs_ids(r@).to_set() == self@.dom(),
            forall|i: int| 0 <= i < r@.len() ==> self@[#[trigger] r@[i].0] == r@[i].1,
    {
        let ghost m = self.indexes@;
        let ghost rem = vstd::std_specs::hash::spec_hash_map_iter(&self.indexes).remaining();
        let mut out: Vec<(Id, IndexOptions)> = Vec::new();
        for e in it: self.indexes.iter()
            invariant
                it.seq() == rem,
                out@.len() == it.index(),
                forall|j: int| 0 <= j < out@.len() ==> out@[j] == (*it.seq()[j].0, *it.seq()[j].1),
        {
            out.push((*e.0, *e.1));
        }
        proof {
            assert(rem.len() == m.dom().len());
            assert(rem.no_duplicates());
            let ids = pairs_ids(out@);
            assert forall|i: int, j: int| 0 <= i < ids.len() && 0 <= j < ids.len() && i != j
                implies ids[i] != ids[j] by {
                if ids[i] == ids[j] {
                    assert(m.contains_key(*rem[i].0) && m[*rem[i].0] == *rem[i].1);
                    assert(m.contains_key(*rem[j].0) && m[*rem[j].0] == *rem[j].1);
                    assert(rem[i] == rem[j]);
                }
            }
            assert forall|k: Id| m.dom().contains(k) implies ids.to_set().contains(k) by {
                assert(rem.contains((&k, &m[k])));
                let i = choose|i: int| 0 <= i < rem.len() && rem[i] == (&k, &m[k]);
                assert(ids[i] == k);
            }
            assert forall|k: Id| ids.to_set().contains(k) implies m.dom().contains(k) by {
                let i = choose|i: int| 0 <= i < ids.len() && ids[i] == k;
                assert(m.contains_key(*rem[i].0));
            }
            assert(ids.to_set() =~= m.dom());
        }
        out
    }
}

/// The identifiers of a sequence of pairs, in order.
pub open spec fn pairs_ids<T>(s: Seq<(Id, T)>) -> Seq<Id> {
    s.map_values(|p: (Id, T)| p.0)
}

/// The configuration of each index of a map from identifier to index.
pub open spec fn options_of<H>(m: Map<Id, (Arc<H>, IndexOptions)>) -> Map<Id, IndexOptions> {
    m.map_values(|e: (Arc<H>, IndexOptions)| e.1)
}

/// What looking `id` up in a snapshot gives.
pub open spec fn lookup_spec<H>(m: Map<Id, (Arc<H>, IndexOptions)>, id: Id) -> Result<
    Arc<H>,
    WorkerError,
> {
    if m.contains_key(id) {
        Ok(m[id].0)
    } else {
        Err(WorkerError::IndexNotFound)
    }
}

/// What asking a snapshot for the configuration of `id` gives.
pub open spec fn config_spec<H>(m: Map<Id, (Arc<H>, IndexOptions)>, id: Id) -> Result<
    IndexOptions,
    WorkerError,
> {
    if m.contains_key(id) {
        Ok(m[id].1)
    } else {
        Err(WorkerError::IndexNotFound)
    }
}

/// A published snapshot of the registry: which index each identifier names,
/// as of one moment. It is never changed after it is built.
pub struct WorkerView<H> {
    indexes: HashMap<Id, (Arc<H>, IndexOptions)>,
}

impl<H> View for WorkerView<H> {
    type V = Map<Id, (Arc<H>, IndexOptions)>;

    open spec fn view(&self) -> Map<Id, (Arc<H>, IndexOptions)> {
        self.spec_indexes()
    }
}

impl<H> WorkerView<H> {
    pub closed spec fn spec_indexes(&self) -> Map<Id, (Arc<H>, IndexOptions)> {
        self.indexes@
    }

    /// The handle of index `id`; the caller keeps it alive for as long as it
    /// holds it, whatever happens to the registry meanwhile.
    pub fn lookup(&self, id: Id) -> (r: Result<Arc<H>, WorkerError>)
        ensures
            r == lookup_spec(self@, id),
    {
        match self.indexes.get(&id) {
            Some(e) => Ok(Arc::clone(&e.0)),
            None => Err(WorkerError::IndexNotFound),
        }
    }

    /// The configuration index `id` is bound to.
    pub fn config(&self, id: Id) -> (r: Result<IndexOptions, WorkerError>)
        ensures
            r == config_spec(self@, id),
    {
        match self.indexes.get(&id) {
            Some(e) => Ok(e.1),
            None => Err(WorkerError::IndexNotFound),
        }
    }
}

/// The authoritative map, owned by the mutation path, together with the
/// record that mirrors it.
pub struct WorkerProtect<H> {
    startup: WorkerStartup,
    indexes: HashMap<Id, (Arc<H>, IndexOptions)>,
}

impl<H> View for WorkerProtect<H> {
    type V = Map<Id, (Arc<H>, IndexOptions)>;

    open spec fn view(&self) -> Map<Id, (Arc<H>, IndexOptions)> {
        self.spec_indexes()
    }
}

impl<H> WorkerProtect<H> {
    pub closed spec fn spec_indexes(&self) -> Map<Id, (Arc<H>, IndexOptions)> {
        self.indexes@
    }

    /// The record as it stands in memory.
    pub closed spec fn spec_startup(&self) -> Map<Id, IndexOptions> {
        self.startup@
    }

    /// The record mirrors the map.
    pub open spec fn wf(&self) -> bool {
        self.spec_startup() == options_of(self@)
    }

    /// The registry of a fresh worker: no index.
    pub fn new() -> (r: Self)
        ensures
            r.wf(),
            r@ == Map::<Id, (Arc<H>, IndexOptions)>::empty(),
    {
        let r = WorkerProtect { startup: WorkerStartup::new(), indexes: HashMap::new() };
        assert(options_of(r@) =~= Map::<Id, IndexOptions>::empty());
        r
    }

    /// The registry of a reopened worker, from its record and the handle
    /// opened for each recorded identifier. It is built only when `opened`
    /// names every recorded identifier exactly once and nothing else.
    pub fn reopen(startup: WorkerStartup, opened: Vec<(Id, Arc<H>)>) -> (r: Option<Self>)
        ensures
            r is Some <==> (pairs_ids(opened@).no_duplicates() && pairs_ids(opened@).to_set()
                == startup@.dom()),
            r matches Some(p) ==> {
                &&& p.wf()
                &&& p@.dom() == startup@.dom()
                &&& options_of(p@) == startup@
                &&& forall|i: int|
                    0 <= i < opened@.len() ==> #[trigger] p@[opened@[i].0].0 == opened@[i].1
            },
    {
        let ghost ids = pairs_ids(opened@);
        let mut indexes: HashMap<Id, (Arc<H>, IndexOptions)> = HashMap::new();
        let mut i: usize = 0;
        while i < opened.len()
            invariant
                0 <= i <= opened@.len(),
                ids == pairs_ids(opened@),
                forall|a: int, b: int| 0 <= a < i && 0 <= b < i && a != b ==> ids[a] != ids[b],
                forall|k: Id| #[trigger] indexes@.contains_key(k) <==> (exists|j: int| 0 <= j < i && ids[j] == k),
                forall|k: Id| #[trigger] indexes@.contains_key(k) ==> startup@.contains_key(k) && indexes@[k].1 == startup@[k],
                forall|j: int| 0 <= j < i ==> #[trigger] indexes@[opened@[j].0].0 == opened@[j].1,
                indexes@.len() == i,
            decreases opened@.len() - i,
        {
            let id = opened[i].0;
            assert(ids[i as int] == id);
            let handle = Arc::clone(&opened[i].1);
            match startup.get(id) {
                None => {
                    assert(ids.contains(id));
                    assert(ids.to_set().contains(id));
                    return None;
                }
                Some(o) => {
                    if indexes.contains_key(&id) {
                        let ghost j = choose|j: int| 0 <= j < i && ids[j] == id;
                        assert(ids[j] == ids[i as int]);
                        return None;
                    }
                    indexes.insert(id, (handle, o));
                }
            }
            i += 1;
            assert forall|j: int| 0 <= j < i implies #[trigger] indexes@[opened@[j].0].0 == opened@[j].1 by {
                assert(ids[j] == opened@[j].0);
            }
            assert forall|k: Id| #[trigger] indexes@.contains_key(k) implies (exists|j: int| 0 <= j < i && ids[j] == k) by {
                if k == id {
                    assert(ids[i - 1] == k);
                }
            }
        }
        assert(ids.no_duplicates());
        assert(indexes@.dom() =~= ids.to_set()) by {
            assert forall|k: Id| ids.to_set().contains(k) implies indexes@.contains_key(k) by {
                assert(ids.contains(k));
            }
        }
        if indexes.len() == startup.len() {
            proof {
                assert(indexes@.dom().subset_of(startup@.dom()));
                vstd::set_lib::lemma_subset_equality(indexes@.dom(), startup@.dom());
            }
            let p = WorkerProtect { startup, indexes };
            assert(options_of(p@) =~= p.spec_startup());
            Some(p)
        } else {
            None
        }
    }

    /// The record as it stands in memory.
    pub fn startup(&self) -> (r: &WorkerStartup)
        ensures
            r@ == self.spec_startup(),
    {
        &self.startup
    }

    /// The maintenance step: the record to persist, equal to the map's
    /// configurations, and the snapshot to publish afterwards, equal to the map.
    pub fn maintain(&self) -> (r: (WorkerStartup, Arc<WorkerView<H>>))
        requires
            self.wf(),
        ensures
            r.0@ == options_of(self@),
            r.1@ == self@,
    {
        let startup = self.startup.duplicate();
        let view = Arc::new(WorkerView { indexes: self.indexes.clone() });
        (startup, view)
    }

    /// Binds `id` to a newly created index, replacing any index it named
    /// before, then runs the maintenance step.
    pub fn create_index(&mut self, id: Id, options: IndexOptions, handle: Arc<H>) -> (r: (
        WorkerStartup,
        Arc<WorkerView<H>>,
    ))
        requires
            old(self).wf(),
        ensures
            final(self).wf(),
            final(self)@ == old(self)@.insert(id, (handle, options)),
            r.0@ == options_of(final(self)@),
            r.1@ == final(self)@,
    {
        self.indexes.insert(id, (handle, options));
        self.startup.insert(id, options);
        assert(options_of(self@) =~= self.spec_startup());
        self.maintain()
    }

    /// Unbinds `id`, if it names an index, then runs the maintenance step. It
    /// never fails.
    pub fn destroy_index(&mut self, id: Id) -> (r: (WorkerStartup, Arc<WorkerView<H>>))
        requires
            old(self).wf(),
        ensures
            final(self).wf(),
            final(self)@ == old(self)@.remove(id),
            r.0@ == options_of(final(self)@),
            r.1@ == final(self)@,
    {
        self.indexes.remove(&id);
        self.startup.remove(id);
        assert(options_of(self@) =~= self.spec_startup());
        self.maintain()
    }
}

/// Why a search on an index was refused.
#[derive(Debug, PartialEq, Eq)]
pub enum SearchError {
    InvalidVector(String),
}

/// Why an insert into an index was refused.
#[derive(Debug, PartialEq, Eq)]
pub enum InsertError {
    InvalidVector(String),
    /// The view the insert went through is older than the index's current
    /// version; it is to be refreshed and the insert tried again.
    OutdatedView,
}

/// The caller-facing result of a search, from the index's own result.
pub open spec fn search_outcome_spec(r: Result<Vec<Pointer>, SearchError>) -> Result<
    Vec<Pointer>,
    WorkerError,
> {
    match r {
        Ok(v) => Ok(v),
        Err(SearchError::InvalidVector(x)) => Err(WorkerError::InvalidVector(x)),
    }
}

/// Translates the result of a search on an index for the caller.
pub fn search_outcome(r: Result<Vec<Pointer>, SearchError>) -> (o: Result<Vec<Pointer>, WorkerError>)
    ensures
        o == search_outcome_spec(r),
{
    match r {
        Ok(v) => Ok(v),
        Err(SearchError::InvalidVector(x)) => Err(WorkerError::InvalidVector(x)),
    }
}

/// What the insert path does after one attempt on an index.
#[derive(Debug, PartialEq, Eq)]
pub enum InsertStep {
    /// The call ends with this result.
    Done(Result<(), WorkerError>),
    /// Refresh the index's view and try the insert again.
    Refresh,
}

/// The next step of the insert path after an attempt that gave `r`.
pub open spec fn insert_step_spec(r: Result<(), InsertError>) -> InsertStep {
    match r {
        Ok(()) => InsertStep::Done(Ok(())),
        Err(InsertError::InvalidVector(x)) => InsertStep::Done(Err(WorkerError::InvalidVector(x))),
        Err(InsertError::OutdatedView) => InsertStep::Refresh,
    }
}

/// Decides the next step of the insert path after an attempt that gave `r`.
pub fn insert_step(r: Result<(), InsertError>) -> (s: InsertStep)
    ensures
        s == insert_step_spec(r),
{
    match r {
        Ok(()) => InsertStep::Done(Ok(())),
        Err(InsertError::InvalidVector(x)) => InsertStep::Done(Err(WorkerError::InvalidVector(x))),
        Err(InsertError::OutdatedView) => InsertStep::Refresh,
    }
}

/// A handle looked up in a snapshot stays what that snapshot names, whatever
/// the registry does afterwards: destroying `id` removes it from the snapshot
/// published next, and leaves every earlier snapshot, and every handle taken
/// from it, as it was.
pub proof fn lemma_lookup_outlives_destroy<H>(
    snapshot: Map<Id, (Arc<H>, IndexOptions)>,
    authoritative: Map<Id, (Arc<H>, IndexOptions)>,
    id: Id,
)
    requires
        snapshot.contains_key(id),
    ensures
        lookup_spec(snapshot, id) == Ok::<Arc<H>, WorkerError>(snapshot[id].0),
        lookup_spec(authoritative.remove(id), id) == Err::<Arc<H>, WorkerError>(
            WorkerError::IndexNotFound,
        ),
{
}

/// Creating `id` with `options` and then asking the snapshot published by
/// that step for the configuration of `id` gives `options` back.
pub proof fn lemma_create_then_config<H>(
    before: Map<Id, (Arc<H>, IndexOptions)>,
    id: Id,
    options: IndexOptions,
    handle: Arc<H>,
)
    ensures
        config_spec(before.insert(id, (handle, options)), id) == Ok::<IndexOptions, WorkerError>(
            options,
        ),
        options_of(before.insert(id, (handle, options)))[id] == options,
{
}

/// Destroying is idempotent: destroying `id` twice leaves the registry as
/// destroying it once, and destroying an identifier that names no index
/// leaves the registry as it was.
pub proof fn lemma_destroy_idempotent<H>(m: Map<Id, (Arc<H>, IndexOptions)>, id: Id)
    ensures
        m.remove(id).remove(id) == m.remove(id),
        !m.contains_key(id) ==> m.remove(id) == m,
{
    assert(m.remove(id).remove(id) =~= m.remove(id));
    if !m.contains_key(id) {
        assert(m.remove(id) =~= m);
    }
}

/// The insert path never hands `OutdatedView` to its caller: every attempt
/// either ends the call with success or `InvalidVector`, or asks for a
/// refresh and another attempt, and it asks for that on `OutdatedView` only.
pub proof fn lemma_insert_never_outdated(r: Result<(), InsertError>)
    ensures
        insert_step_spec(r) is Refresh <==> r == Err::<(), InsertError>(InsertError::OutdatedView),
        insert_step_spec(r) matches InsertStep::Done(x) ==> (x is Ok || x matches Err(
            WorkerError::InvalidVector(_),
        )),
{
}

} // verus!
