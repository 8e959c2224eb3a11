use vstd::prelude::*;
use crate::task::{Task, TaskModel};

verus! {

/// Why a store operation by index could not be carried out.
#[derive(Clone, Copy, Debug, PartialEq, Eq, Structural)]
pub enum StoreError {
    /// The index is not below the number of tasks.
    IndexOutOfRange,
}

/// The in-memory, ordered collection of tasks, in insertion or load order.
pub struct TaskStore {
    tasks: Vec<Task>,
}

impl View for TaskStore {
    type V = Seq<TaskModel>;

    closed spec fn view(&self) -> Seq<TaskModel> {
        self.tasks@.map_values(|t: Task| t@)
    }
}

impl TaskStore {
    /// An empty store.
    pub fn new() -> (s: TaskStore)
        ensures
            s@ == Seq::<TaskModel>::empty(),
    {
        let s = TaskStore { tasks: Vec::new() };
        assert(s@ =~= Seq::<TaskModel>::empty());
        s
    }

    /// A store holding `tasks`, in the given order.
    pub fn from_tasks(tasks: Vec<Task>) -> (s: TaskStore)
        ensures
            s@ == tasks@.map_values(|t: Task| t@),
    {
        TaskStore { tasks }
    }

    pub fn len(&self) -> (n: usize)
        ensures
            n == self@.len(),
    {
        self.tasks.len()
    }

    pub fn is_empty(&self) -> (b: bool)
        ensures
            b == (self@.len() == 0),
    {
        self.tasks.len() == 0
    }

    /// The task at `index`, if there is one.
    pub fn get(&self, index: usize) -> (r: Option<&Task>)
        ensures
            index < self@.len() ==> r.is_some() && r.unwrap()@ == self@[index as int],
            index >= self@.len() ==> r.is_none(),
    {
        if index < self.tasks.len() {
            Some(&self.tasks[index])
        } else {
            None
        }
    }

    /// Read-only access to the tasks, in order.
    pub fn tasks(&self) -> (r: &Vec<Task>)
        ensures
            r@.len() == self@.len(),
            forall|i: int| 0 <= i < r@.len() ==> (#[trigger] r@[i])@ == self@[i],
    {
        &self.tasks
    }

    /// Puts `task` after all the others.
    pub fn append(&mut self, task: Task)
        ensures
            final(self)@ == old(self)@.push(task@),
    {
        self.tasks.push(task);
        proof {
            assert(self@ =~= old(self)@.push(task@));
        }
    }

    /// Takes out the task at `index`; the ones after it move down by one.
    pub fn remove(&mut self, index: usize) -> (r: Result<Task, StoreError>)
        ensures
            index < old(self)@.len() ==> r.is_ok() && r.unwrap()@ == old(self)@[index as int]
                && final(self)@ == old(self)@.remove(index as int),
            index >= old(self)@.len() ==> r == Err::<Task, StoreError>(StoreError::IndexOutOfRange)
                && final(self)@ == old(self)@,
    {
        if index < self.tasks.len() {
            let t = self.tasks.remove(index);
            proof {
                assert(self@ =~= old(self)@.remove(index as int));
            }
            Ok(t)
        } else {
            Err(StoreError::IndexOutOfRange)
        }
    }

    /// The completion status of the task at `index`.
    pub fn status(&self, index: usize) -> (r: Result<bool, StoreError>)
        ensures
            index < self@.len() ==> r == Ok::<bool, StoreError>(self@[index as int].status),
            index >= self@.len() ==> r == Err::<bool, StoreError>(StoreError::IndexOutOfRange),
    {
        if index < self.tasks.len() {
            Ok(self.tasks[index].status)
        } else {
            Err(StoreError::IndexOutOfRange)
        }
    }

    /// Sets the completion status of the task at `index`.
    pub fn set_status(&mut self, index: usize, status: bool) -> (r: Result<(), StoreError>)
        ensures
            index < old(self)@.len() ==> r.is_ok() && final(self)@ == old(self)@.update(
                index as int,
                old(self)@[index as int].with_status(status),
            ),
            index >= old(self)@.len() ==> r == Err::<(), StoreError>(StoreError::IndexOutOfRange)
                && final(self)@ == old(self)@,
    {
        if index < self.tasks.len() {
            self.tasks[index].status = status;
            proof {
                assert(self@ =~= old(self)@.update(index as int, old(self)@[index as int].with_status(status)));
            }
            Ok(())
        } else {
            Err(StoreError::IndexOutOfRange)
        }
    }

    /// Records the durable identity of the task at `index`.
    pub fn set_id(&mut self, index: usize, id: i64) -> (r: Result<(), StoreError>)
        ensures
            index < old(self)@.len() ==> r.is_ok() && final(self)@ == old(self)@.update(
                index as int,
                old(self)@[index as int].with_id(id),
            ),
            index >= old(self)@.len() ==> r == Err::<(), StoreError>(StoreError::IndexOutOfRange)
                && final(self)@ == old(self)@,
    {
        if index < self.tasks.len() {
            self.tasks[index].id = Some(id);
            proof {
                assert(self@ =~= old(self)@.update(index as int, old(self)@[index as int].with_id(id)));
            }
            Ok(())
        } else {
            Err(StoreError::IndexOutOfRange)
        }
    }
}

} // verus!
