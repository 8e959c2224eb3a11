use vstd::prelude::*;
use crate::task::{Task, TaskModel};
use crate::laws::lemma_round_trip;
use crate::machine::{App, AppModel, Effect, EffectModel, Input, effect_of, next};

verus! {

/// Why the persistence backend refused an operation.
#[derive(Clone, Copy, Debug, PartialEq, Eq, Structural)]
pub enum StorageError {
    /// No record has the given identity.
    NotFound,
    /// Every identity has been handed out.
    Exhausted,
}

/// The durable records, in store order, and the next identity to hand out.
pub struct BackendModel {
    pub records: Seq<TaskModel>,
    pub next_id: int,
}

impl BackendModel {
    /// Every record is persisted, identities are handed out in increasing
    /// order (so no two records share one), and the next one is still free.
    pub open spec fn wf(self) -> bool {
        &&& 1 <= self.next_id <= i64::MAX
        &&& forall|i: int| 0 <= i < self.records.len() ==> {
            let id = (#[trigger] self.records[i]).id;
            id is Some && 1 <= id.unwrap() < self.next_id
        }
        &&& forall|i: int, j: int| 0 <= i < j < self.records.len()
            ==> (#[trigger] self.records[i]).id.unwrap() < (#[trigger] self.records[j]).id.unwrap()
    }

    pub open spec fn contains(self, id: i64) -> bool {
        exists|i: int| 0 <= i < self.records.len() && (#[trigger] self.records[i]).id == Some(id)
    }

    /// Where the record with identity `id` sits.
    pub open spec fn index_of(self, id: i64) -> int {
        choose|i: int| 0 <= i < self.records.len() && (#[trigger] self.records[i]).id == Some(id)
    }

    /// After creating a record, which gets identity `next_id`.
    pub open spec fn created(self, description: Seq<char>, status: bool) -> BackendModel {
        BackendModel {
            records: self.records.push(
                TaskModel { id: Some(self.next_id as i64), description, status },
            ),
            next_id: self.next_id + 1,
        }
    }

    /// After setting the status of the record with identity `id`.
    pub open spec fn updated(self, id: i64, status: bool) -> BackendModel {
        let i = self.index_of(id);
        BackendModel { records: self.records.update(i, self.records[i].with_status(status)), ..self }
    }

    /// After removing the record with identity `id`.
    pub open spec fn deleted(self, id: i64) -> BackendModel {
        BackendModel { records: self.records.remove(self.index_of(id)), ..self }
    }

    /// Whether the backend carries out `e`.
    pub open spec fn accepts(self, e: EffectModel) -> bool {
        match e {
            EffectModel::Nothing => true,
            EffectModel::Create { .. } => self.next_id < i64::MAX,
            EffectModel::UpdateStatus { id, .. } => self.contains(id),
            EffectModel::Delete { id } => self.contains(id),
        }
    }

    /// The records after carrying out `e`, when it is accepted.
    pub open spec fn performed(self, e: EffectModel) -> BackendModel {
        match e {
            EffectModel::Nothing => self,
            EffectModel::Create { description, status, .. } => self.created(description, status),
            EffectModel::UpdateStatus { id, status } => self.updated(id, status),
            EffectModel::Delete { id } => self.deleted(id),
        }
    }

    /// The error the backend gives for `e` when it does not accept it.
    pub open spec fn refusal(self, e: EffectModel) -> StorageError {
        match e {
            EffectModel::Create { .. } => StorageError::Exhausted,
            _ => StorageError::NotFound,
        }
    }
}

/// The application state once the outcome of `e` has been reported back: a
/// created task learns the identity that the backend `b` gave it.
pub open spec fn reported(app: AppModel, e: EffectModel, b: BackendModel) -> AppModel {
    match e {
        EffectModel::Create { index, .. } => app.id_recorded(index, b.next_id as i64),
        _ => app,
    }
}

/// Identities are unique, so the record holding one is where `index_of` points.
pub proof fn lemma_index_of(b: BackendModel, i: int, id: i64)
    requires
        b.wf(),
        0 <= i < b.records.len(),
        b.records[i].id == Some(id),
    ensures
        b.contains(id),
        b.index_of(id) == i,
{
    let k = b.index_of(id);
    assert(b.contains(id));
    if k < i {
        assert(b.records[k].id.unwrap() < b.records[i].id.unwrap());
    } else if i < k {
        assert(b.records[i].id.unwrap() < b.records[k].id.unwrap());
    }
}

/// A persistence backend that keeps its records in memory.
pub struct MemoryBackend {
    records: Vec<Task>,
    next_id: i64,
}

impl View for MemoryBackend {
    type V = BackendModel;

    closed spec fn view(&self) -> BackendModel {
        BackendModel { records: self.records@.map_values(|t: Task| t@), next_id: self.next_id as int }
    }
}

impl MemoryBackend {
    pub open spec fn wf(&self) -> bool {
        self@.wf()
    }

    /// A backend with no records; the first identity it gives out is 1.
    pub fn new() -> (b: MemoryBackend)
        ensures
            b.wf(),
            b@ == (BackendModel { records: Seq::empty(), next_id: 1 }),
    {
        let b = MemoryBackend { records: Vec::new(), next_id: 1 };
        assert(b@.records =~= Seq::<TaskModel>::empty());
        b
    }

    /// A backend with no records whose first identity will be `first_id`.
    pub fn starting_at(first_id: i64) -> (b: MemoryBackend)
        requires
            1 <= first_id,
        ensures
            b.wf(),
            b@ == (BackendModel { records: Seq::empty(), next_id: first_id as int }),
    {
        let b = MemoryBackend { records: Vec::new(), next_id: first_id };
        assert(b@.records =~= Seq::<TaskModel>::empty());
        b
    }

    /// Where the record with identity `id` sits, if there is one.
    fn find(&self, id: i64) -> (r: Option<usize>)
        requires
            self.wf(),
        ensures
            r is Some ==> r.unwrap() < self@.records.len() && self@.contains(id) && r.unwrap()
                == self@.index_of(id),
            r is None ==> !self@.contains(id),
    {
        let mut i: usize = 0;
        while i < self.records.len()
            invariant
                self.wf(),
                i <= self@.records.len(),
                forall|j: int| 0 <= j < i ==> (#[trigger] self@.records[j]).id != Some(id),
            decreases self@.records.len() - i,
        {
            assert(self@.records[i as int] == self.records@[i as int]@);
            if let Some(k) = self.records[i].id {
                if k == id {
                    proof {
                        lemma_index_of(self@, i as int, id);
                    }
                    return Some(i);
                }
            }
            i = i + 1;
        }
        None
    }

    /// Persists a new record and returns the identity it was given.
    pub fn create(&mut self, description: String, status: bool) -> (r: Result<i64, StorageError>)
        requires
            old(self).wf(),
        ensures
            final(self).wf(),
            old(self)@.next_id < i64::MAX ==> r == Ok::<i64, StorageError>(old(self)@.next_id as i64)
                && final(self)@ == old(self)@.created(description@, status),
            old(self)@.next_id == i64::MAX ==> r == Err::<i64, StorageError>(StorageError::Exhausted)
                && final(self)@ == old(self)@,
    {
        if self.next_id == i64::MAX {
            return Err(StorageError::Exhausted);
        }
        let id = self.next_id;
        self.records.push(Task { id: Some(id), description, status });
        self.next_id = id + 1;
        proof {
            assert(self@.records =~= old(self)@.created(description@, status).records);
        }
        Ok(id)
    }

    /// Sets the status of the record with identity `id`.
    pub fn update_status(&mut self, id: i64, status: bool) -> (r: Result<(), StorageError>)
        requires
            old(self).wf(),
        ensures
            final(self).wf(),
            old(self)@.contains(id) ==> r is Ok && final(self)@ == old(self)@.updated(id, status),
            !old(self)@.contains(id) ==> r == Err::<(), StorageError>(StorageError::NotFound)
                && final(self)@ == old(self)@,
    {
        match self.find(id) {
            Some(i) => {
                self.records[i].status = status;
                proof {
                    assert(self@.records =~= old(self)@.updated(id, status).records);
                }
                Ok(())
            },
            None => Err(StorageError::NotFound),
        }
    }

    /// Removes the record with identity `id`; an unknown identity is `NotFound`.
    pub fn delete(&mut self, id: i64) -> (r: Result<(), StorageError>)
        requires
            old(self).wf(),
        ensures
            final(self).wf(),
            old(self)@.contains(id) ==> r is Ok && final(self)@ == old(self)@.deleted(id),
            !old(self)@.contains(id) ==> r == Err::<(), StorageError>(StorageError::NotFound)
                && final(self)@ == old(self)@,
    {
        match self.find(id) {
            Some(i) => {
                let _ = self.records.remove(i);
                proof {
                    assert(self@.records =~= old(self)@.deleted(id).records);
                    assert forall|a: int, c: int| 0 <= a < c < self@.records.len() implies
                        (#[trigger] self@.records[a]).id.unwrap() < (#[trigger] self@.records[c]).id.unwrap() by {
                        let a0 = if a < i { a } else { a + 1 };
                        let c0 = if c < i { c } else { c + 1 };
                        assert(old(self)@.records[a0] == self@.records[a]);
                        assert(old(self)@.records[c0] == self@.records[c]);
                    }
                }
                Ok(())
            },
            None => Err(StorageError::NotFound),
        }
    }

    /// All records, in store order.
    pub fn list(&self) -> (r: Vec<Task>)
        ensures
            r@.map_values(|t: Task| t@) == self@.records,
    {
        let mut out: Vec<Task> = Vec::new();
        let mut i: usize = 0;
        while i < self.records.len()
            invariant
                i <= self.records@.len(),
                out@.len() == i,
                out@.map_values(|t: Task| t@) == self@.records.take(i as int),
            decreases self.records@.len() - i,
        {
            let t = self.records[i].clone();
            assert(t@ == self@.records[i as int]);
            let ghost before = out@;
            out.push(t);
            i = i + 1;
            proof {
                assert(out@ == before.push(t));
                assert forall|j: int| 0 <= j < i - 1 implies out@[j]@ == self@.records[j] by {
                    assert(out@[j] == before[j]);
                    assert(before.map_values(|t: Task| t@)[j] == self@.records.take(i - 1)[j]);
                }
                assert(out@.map_values(|t: Task| t@) =~= self@.records.take(i as int));
            }
        }
        assert(self@.records.take(i as int) =~= self@.records);
        out
    }

    /// Carries out the storage work `e`; for a creation, returns the new identity.
    pub fn perform(&mut self, e: Effect) -> (r: Result<Option<i64>, StorageError>)
        requires
            old(self).wf(),
        ensures
            final(self).wf(),
            old(self)@.accepts(e@) ==> r is Ok && final(self)@ == old(self)@.performed(e@),
            old(self)@.accepts(e@) && e@ is Create ==> r == Ok::<Option<i64>, StorageError>(
                Some(old(self)@.next_id as i64),
            ),
            !old(self)@.accepts(e@) ==> r == Err::<Option<i64>, StorageError>(
                old(self)@.refusal(e@),
            ) && final(self)@ == old(self)@,
    {
        match e {
            Effect::Nothing => Ok(None),
            Effect::Create { description, status, .. } => match self.create(description, status) {
                Ok(id) => Ok(Some(id)),
                Err(err) => Err(err),
            },
            Effect::UpdateStatus { id, status } => match self.update_status(id, status) {
                Ok(()) => Ok(None),
                Err(err) => Err(err),
            },
            Effect::Delete { id } => match self.delete(id) {
                Ok(()) => Ok(None),
                Err(err) => Err(err),
            },
        }
    }
}

/// One full transition against an in-memory backend whose records are the
/// application's tasks: the input is applied to the application, its storage
/// work is carried out, and a created task gets its identity. Afterwards the
/// records are again the application's tasks. A refusal by the backend is
/// returned; the application keeps the in-memory change.
pub fn apply_input(app: &mut App, backend: &mut MemoryBackend, input: Input) -> (r: Result<(), StorageError>)
    requires
        old(app).wf(),
        old(backend).wf(),
        old(app)@.tasks == old(backend)@.records,
    ensures
        final(app).wf(),
        final(backend).wf(),
        r is Ok ==> final(app)@.tasks == final(backend)@.records,
        ({
            let e = effect_of(old(app)@, input);
            &&& old(backend)@.accepts(e) ==> r is Ok
                && final(backend)@ == old(backend)@.performed(e)
                && final(app)@ == reported(next(old(app)@, input), e, old(backend)@)
            &&& !old(backend)@.accepts(e) ==> r == Err::<(), StorageError>(old(backend)@.refusal(e))
                && final(backend)@ == old(backend)@
                && final(app)@ == next(old(app)@, input)
        }),
{
    let ghost app0 = app@;
    let ghost b0 = backend@;
    proof {
        lemma_round_trip(app0, b0, input);
    }
    let e = app.handle_input(input);
    let index = match &e {
        Effect::Create { index, .. } => Some(*index),
        _ => None,
    };
    match backend.perform(e) {
        Ok(created) => {
            if let (Some(i), Some(id)) = (index, created) {
                proof {
                    assert forall|j: int| 0 <= j < app@.tasks.len() && j != i implies
                        (#[trigger] app@.tasks[j]).id != Some(id) by {
                        assert(app@.tasks[j] == b0.records[j]);
                    }
                }
                app.on_created(i, id);
            }
            Ok(())
        },
        Err(err) => Err(err),
    }
}

} // verus!
