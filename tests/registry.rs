use bgworker::registry::{
    insert_step, search_outcome, Distance, Id, IndexOptions, InsertError, InsertStep, Pointer,
    SearchError, WorkerError, WorkerProtect, WorkerStartup,
};
use std::sync::{Arc, Mutex};

/// A small in-memory index: it checks the dimension, stores vectors, and
/// answers searches by squared L2 distance. It can be told to report its next
/// few inserts as made through an outdated view.
struct ToyIndex {
    options: IndexOptions,
    rows: Mutex<Vec<(Vec<f32>, Pointer)>>,
    stale_inserts: Mutex<u32>,
    refreshes: Mutex<u32>,
}

impl ToyIndex {
    fn new(options: IndexOptions) -> ToyIndex {
        ToyIndex {
            options,
            rows: Mutex::new(Vec::new()),
            stale_inserts: Mutex::new(0),
            refreshes: Mutex::new(0),
        }
    }
    fn insert(&self, vector: Vec<f32>, p: Pointer) -> Result<(), InsertError> {
        if vector.len() != self.options.dims as usize {
            return Err(InsertError::InvalidVector(format!("{} dims", vector.len())));
        }
        let mut stale = self.stale_inserts.lock().unwrap();
        if *stale > 0 {
            *stale -= 1;
            return Err(InsertError::OutdatedView);
        }
        self.rows.lock().unwrap().push((vector, p));
        Ok(())
    }
    fn refresh(&self) {
        *self.refreshes.lock().unwrap() += 1;
    }
    fn search(&self, k: usize, q: &[f32]) -> Result<Vec<Pointer>, SearchError> {
        if q.len() != self.options.dims as usize {
            return Err(SearchError::InvalidVector(format!("{} dims", q.len())));
        }
        let rows = self.rows.lock().unwrap();
        let mut scored: Vec<(f32, Pointer)> = rows
            .iter()
            .map(|(v, p)| (v.iter().zip(q).map(|(a, b)| (a - b) * (a - b)).sum(), *p))
            .collect();
        scored.sort_by(|a, b| a.0.partial_cmp(&b.0).unwrap());
        Ok(scored.into_iter().take(k).map(|x| x.1).collect())
    }
    fn sealed_len(&self) -> u32 {
        self.rows.lock().unwrap().len() as u32
    }
}

fn l2(dims: u32) -> IndexOptions {
    IndexOptions { dims, distance: Distance::L2 }
}

fn insert_with_retry(h: &ToyIndex, v: Vec<f32>, p: Pointer) -> Result<(), WorkerError> {
    loop {
        match insert_step(h.insert(v.clone(), p)) {
            InsertStep::Done(r) => break r,
            InsertStep::Refresh => h.refresh(),
        }
    }
}

#[test]
fn scenario_create_insert_search_destroy() {
    let a: Id = 1;
    let mut protect = WorkerProtect::new();
    let (_, view) = protect.create_index(a, l2(4), Arc::new(ToyIndex::new(l2(4))));
    let h = view.lookup(a).unwrap();
    assert_eq!(insert_with_retry(&h, vec![1.0, 0.0, 0.0, 0.0], 11), Ok(()));
    assert!(matches!(
        insert_with_retry(&h, vec![1.0, 0.0, 0.0], 12),
        Err(WorkerError::InvalidVector(_))
    ));
    assert_eq!(search_outcome(h.search(1, &[1.0, 0.0, 0.0, 0.0])), Ok(vec![11]));
    let (record, view2) = protect.destroy_index(a);
    assert_eq!(record.len(), 0);
    assert!(matches!(view2.lookup(a), Err(WorkerError::IndexNotFound)));
    // the handle looked up before the destroy still answers
    assert_eq!(search_outcome(h.search(1, &[1.0, 0.0, 0.0, 0.0])), Ok(vec![11]));
    // and so does the older snapshot
    assert!(view.lookup(a).is_ok());
}

#[test]
fn scenario_reopen_keeps_configuration() {
    let b: Id = 7;
    let cfg = IndexOptions { dims: 3, distance: Distance::Cos };
    let mut protect = WorkerProtect::new();
    let (record, _) = protect.create_index(b, cfg, Arc::new(ToyIndex::new(cfg)));
    drop(protect);
    let opened: Vec<(Id, Arc<ToyIndex>)> = record
        .entries()
        .into_iter()
        .map(|(id, o)| (id, Arc::new(ToyIndex::new(o))))
        .collect();
    let reopened = WorkerProtect::reopen(record, opened).unwrap();
    let (_, view) = reopened.maintain();
    assert_eq!(view.config(b), Ok(cfg));
    assert_eq!(view.lookup(b).unwrap().sealed_len(), 0);
}

#[test]
fn create_then_config_returns_it() {
    let cfg = IndexOptions { dims: 128, distance: Distance::Dot };
    let mut protect = WorkerProtect::new();
    let (record, view) = protect.create_index(42, cfg, Arc::new(ToyIndex::new(cfg)));
    assert_eq!(view.config(42), Ok(cfg));
    assert_eq!(record.get(42), Some(cfg));
    assert_eq!(view.config(43), Err(WorkerError::IndexNotFound));
}

#[test]
fn create_replaces_previous_binding() {
    let mut protect = WorkerProtect::new();
    protect.create_index(5, l2(4), Arc::new(ToyIndex::new(l2(4))));
    let (record, view) = protect.create_index(5, l2(8), Arc::new(ToyIndex::new(l2(8))));
    assert_eq!(record.len(), 1);
    assert_eq!(view.config(5), Ok(l2(8)));
}

#[test]
fn destroy_is_idempotent() {
    let mut protect: WorkerProtect<ToyIndex> = WorkerProtect::new();
    let (record, view) = protect.destroy_index(9);
    assert_eq!(record.len(), 0);
    assert!(view.lookup(9).is_err());
    protect.create_index(9, l2(2), Arc::new(ToyIndex::new(l2(2))));
    protect.create_index(10, l2(2), Arc::new(ToyIndex::new(l2(2))));
    protect.destroy_index(9);
    let (record, view) = protect.destroy_index(9);
    assert_eq!(record.len(), 1);
    assert_eq!(record.get(10), Some(l2(2)));
    assert!(view.lookup(9).is_err());
    assert!(view.lookup(10).is_ok());
}

#[test]
fn insert_retries_through_outdated_views() {
    let mut protect = WorkerProtect::new();
    let (_, view) = protect.create_index(3, l2(2), Arc::new(ToyIndex::new(l2(2))));
    let h = view.lookup(3).unwrap();
    *h.stale_inserts.lock().unwrap() = 3;
    assert_eq!(insert_with_retry(&h, vec![0.5, 0.5], 77), Ok(()));
    assert_eq!(*h.refreshes.lock().unwrap(), 3);
    assert_eq!(h.sealed_len(), 1);
}

#[test]
fn insert_step_decisions() {
    assert_eq!(insert_step(Ok(())), InsertStep::Done(Ok(())));
    assert_eq!(insert_step(Err(InsertError::OutdatedView)), InsertStep::Refresh);
    assert_eq!(
        insert_step(Err(InsertError::InvalidVector("x".to_string()))),
        InsertStep::Done(Err(WorkerError::InvalidVector("x".to_string())))
    );
}

#[test]
fn search_outcome_translates_errors() {
    assert_eq!(search_outcome(Ok(vec![1, 2])), Ok(vec![1, 2]));
    assert_eq!(
        search_outcome(Err(SearchError::InvalidVector("bad".to_string()))),
        Err(WorkerError::InvalidVector("bad".to_string()))
    );
}

#[test]
fn reopen_refuses_mismatched_handles() {
    let mut record = WorkerStartup::new();
    record.insert(1, l2(4));
    record.insert(2, l2(4));
    let one = || Arc::new(ToyIndex::new(l2(4)));
    assert!(WorkerProtect::reopen(record.duplicate(), vec![(1, one())]).is_none());
    assert!(WorkerProtect::reopen(record.duplicate(), vec![(1, one()), (1, one())]).is_none());
    assert!(
        WorkerProtect::reopen(record.duplicate(), vec![(1, one()), (2, one()), (3, one())]).is_none()
    );
    let p = WorkerProtect::reopen(record.duplicate(), vec![(2, one()), (1, one())]).unwrap();
    assert_eq!(p.startup().len(), 2);
    let (r, view) = p.maintain();
    assert_eq!(r.get(1), Some(l2(4)));
    assert!(view.lookup(2).is_ok());
}

#[test]
fn empty_registry() {
    let protect: WorkerProtect<ToyIndex> = WorkerProtect::new();
    let (record, view) = protect.maintain();
    assert_eq!(record.len(), 0);
    assert!(record.entries().is_empty());
    assert!(matches!(view.lookup(0), Err(WorkerError::IndexNotFound)));
    assert_eq!(WorkerStartup::new().len(), 0);
}

#[test]
fn record_entries_list_each_pair_once() {
    let mut record = WorkerStartup::new();
    record.insert(3, l2(1));
    record.insert(4, l2(2));
    record.insert(3, l2(5));
    record.remove(4);
    record.remove(8);
    let mut e = record.entries();
    e.sort_by_key(|p| p.0);
    assert_eq!(e, vec![(3, l2(5))]);
}
