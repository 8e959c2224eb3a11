use vstd::prelude::*;
use crate::task::{Task, TaskModel};
use crate::store::TaskStore;

verus! {

/// An abstract input symbol, already decoded from a physical key.
#[derive(Clone, Copy, Debug, PartialEq, Eq, Structural)]
pub enum Input {
    Quit,
    MoveUp,
    MoveDown,
    EnterEditMode,
    AppendChar(char),
    Backspace,
    CancelEdit,
    Confirm,
    DeleteSelected,
}

/// The interaction mode; the text being typed exists only while entering text.
#[derive(Debug)]
pub enum Mode {
    Navigation,
    TextEntry { buffer: String },
}

impl View for Mode {
    /// `None` while navigating, `Some(buffer)` while entering text.
    type V = Option<Seq<char>>;

    open spec fn view(&self) -> Option<Seq<char>> {
        match self {
            Mode::Navigation => None,
            Mode::TextEntry { buffer } => Some(buffer@),
        }
    }
}

/// The storage work that a transition asks of the persistence backend.
#[derive(Debug)]
pub enum Effect {
    Nothing,
    /// Persist a new task, which sits at `index` of the store, and report its
    /// identity back through `App::on_created`.
    Create { index: usize, description: String, status: bool },
    UpdateStatus { id: i64, status: bool },
    Delete { id: i64 },
}

pub enum EffectModel {
    Nothing,
    Create { index: nat, description: Seq<char>, status: bool },
    UpdateStatus { id: i64, status: bool },
    Delete { id: i64 },
}

impl View for Effect {
    type V = EffectModel;

    open spec fn view(&self) -> EffectModel {
        match self {
            Effect::Nothing => EffectModel::Nothing,
            Effect::Create { index, description, status } => EffectModel::Create {
                index: *index as nat,
                description: description@,
                status: *status,
            },
            Effect::UpdateStatus { id, status } => EffectModel::UpdateStatus { id: *id, status: *status },
            Effect::Delete { id } => EffectModel::Delete { id: *id },
        }
    }
}

/// The whole application state as a mathematical value.
pub struct AppModel {
    pub tasks: Seq<TaskModel>,
    pub selected: nat,
    /// `Some(buffer)` while entering text, `None` while navigating.
    pub entry: Option<Seq<char>>,
    pub exit: bool,
}

/// A freshly created, not yet persisted, open task.
pub open spec fn fresh_task(description: Seq<char>) -> TaskModel {
    TaskModel { id: None, description, status: false }
}

/// The selection after the store has shrunk to `len` tasks.
pub open spec fn clamp(selected: nat, len: nat) -> nat {
    if selected < len {
        selected
    } else if len == 0 {
        0
    } else {
        (len - 1) as nat
    }
}

/// No two tasks hold the same durable identity.
pub open spec fn ids_distinct(tasks: Seq<TaskModel>) -> bool {
    forall|i: int, j: int|
        0 <= i < tasks.len() && 0 <= j < tasks.len() && i != j && (#[trigger] tasks[i]).id is Some
            ==> tasks[i].id != (#[trigger] tasks[j]).id
}

impl AppModel {
    /// The selection indexes a task, or is 0 on an empty store, and no two
    /// tasks share a durable identity.
    pub open spec fn wf(self) -> bool {
        &&& if self.tasks.len() == 0 {
            self.selected == 0
        } else {
            self.selected < self.tasks.len()
        }
        &&& ids_distinct(self.tasks)
    }

    /// No task other than the one at `index` holds `id`.
    pub open spec fn id_free_for(self, index: nat, id: i64) -> bool {
        forall|j: int| 0 <= j < self.tasks.len() && j != index ==> (#[trigger] self.tasks[j]).id != Some(id)
    }

    pub open spec fn navigating(self) -> bool {
        self.entry is None
    }

    /// After appending a new task with `description`.
    pub open spec fn added(self, description: Seq<char>) -> AppModel {
        AppModel { tasks: self.tasks.push(fresh_task(description)), ..self }
    }

    /// After removing the task at `index` (nothing happens when there is none).
    pub open spec fn deleted(self, index: nat) -> AppModel {
        if index < self.tasks.len() {
            AppModel {
                tasks: self.tasks.remove(index as int),
                selected: clamp(self.selected, (self.tasks.len() - 1) as nat),
                ..self
            }
        } else {
            self
        }
    }

    /// After setting the status of the task at `index` (nothing happens when there is none).
    pub open spec fn status_set(self, index: nat, status: bool) -> AppModel {
        if index < self.tasks.len() {
            AppModel {
                tasks: self.tasks.update(index as int, self.tasks[index as int].with_status(status)),
                ..self
            }
        } else {
            self
        }
    }

    /// After recording the durable identity of the task at `index`.
    pub open spec fn id_recorded(self, index: nat, id: i64) -> AppModel {
        if index < self.tasks.len() {
            AppModel {
                tasks: self.tasks.update(index as int, self.tasks[index as int].with_id(id)),
                ..self
            }
        } else {
            self
        }
    }
}

/// The storage work owed for deleting the task at `index`.
pub open spec fn delete_effect(s: AppModel, index: nat) -> EffectModel {
    if index < s.tasks.len() {
        match s.tasks[index as int].id {
            Some(id) => EffectModel::Delete { id },
            None => EffectModel::Nothing,
        }
    } else {
        EffectModel::Nothing
    }
}

/// The storage work owed for setting the status of the task at `index`.
pub open spec fn status_effect(s: AppModel, index: nat, status: bool) -> EffectModel {
    if index < s.tasks.len() {
        match s.tasks[index as int].id {
            Some(id) => EffectModel::UpdateStatus { id, status },
            None => EffectModel::Nothing,
        }
    } else {
        EffectModel::Nothing
    }
}

/// The state after one input.
pub open spec fn next(s: AppModel, input: Input) -> AppModel {
    match input {
        Input::Quit => AppModel { exit: true, ..s },
        Input::MoveUp => if s.navigating() && s.selected > 0 {
            AppModel { selected: (s.selected - 1) as nat, ..s }
        } else {
            s
        },
        Input::MoveDown => if s.navigating() && s.selected + 1 < s.tasks.len() {
            AppModel { selected: s.selected + 1, ..s }
        } else {
            s
        },
        Input::EnterEditMode => if s.navigating() {
            AppModel { entry: Some(Seq::empty()), ..s }
        } else {
            s
        },
        Input::AppendChar(c) => match s.entry {
            Some(b) => AppModel { entry: Some(b.push(c)), ..s },
            None => s,
        },
        Input::Backspace => match s.entry {
            Some(b) => if b.len() > 0 {
                AppModel { entry: Some(b.drop_last()), ..s }
            } else {
                s
            },
            None => s,
        },
        Input::CancelEdit => AppModel { entry: None, ..s },
        Input::Confirm => match s.entry {
            Some(b) => if b.len() > 0 {
                AppModel { entry: None, ..s.added(b) }
            } else {
                AppModel { entry: None, ..s }
            },
            None => if s.selected < s.tasks.len() {
                s.status_set(s.selected, !s.tasks[s.selected as int].status)
            } else {
                s
            },
        },
        Input::DeleteSelected => if s.navigating() {
            s.deleted(s.selected)
        } else {
            s
        },
    }
}

/// The storage work owed for one input.
pub open spec fn effect_of(s: AppModel, input: Input) -> EffectModel {
    match input {
        Input::Confirm => match s.entry {
            Some(b) => if b.len() > 0 {
                EffectModel::Create { index: s.tasks.len(), description: b, status: false }
            } else {
                EffectModel::Nothing
            },
            None => if s.selected < s.tasks.len() {
                status_effect(s, s.selected, !s.tasks[s.selected as int].status)
            } else {
                EffectModel::Nothing
            },
        },
        Input::DeleteSelected => if s.navigating() {
            delete_effect(s, s.selected)
        } else {
            EffectModel::Nothing
        },
        _ => EffectModel::Nothing,
    }
}

/// Whether no two of `tasks` hold the same durable identity.
pub fn has_distinct_ids(tasks: &Vec<Task>) -> (r: bool)
    ensures
        r == ids_distinct(tasks@.map_values(|t: Task| t@)),
{
    let ghost m = tasks@.map_values(|t: Task| t@);
    let n = tasks.len();
    let mut i: usize = 0;
    while i < n
        invariant
            n == tasks@.len(),
            m.len() == n,
            forall|k: int| 0 <= k < n ==> (#[trigger] m[k]) == tasks@[k]@,
            i <= n,
            forall|a: int, b: int|
                0 <= a < i && 0 <= b < n && a != b && (#[trigger] m[a]).id is Some ==> m[a].id != (#[trigger] m[b]).id,
        decreases n - i,
    {
        if let Some(id) = tasks[i].id {
            let mut j: usize = 0;
            while j < n
                invariant
                    n == tasks@.len(),
                    m.len() == n,
                    forall|k: int| 0 <= k < n ==> (#[trigger] m[k]) == tasks@[k]@,
                    i < n,
                    j <= n,
                    m[i as int].id == Some(id),
                    forall|b: int| 0 <= b < j && b != i ==> (#[trigger] m[b]).id != Some(id),
                decreases n - j,
            {
                if j != i {
                    if let Some(k) = tasks[j].id {
                        if k == id {
                            assert(m[j as int].id == Some(id));
                            assert(m[i as int].id == m[j as int].id);
                            assert(m[i as int].id is Some && i != j);
                            assert(!ids_distinct(m));
                            assert(m =~= tasks@.map_values(|t: Task| t@));
                            return false;
                        }
                    }
                }
                assert(m[j as int] == tasks@[j as int]@);
                j = j + 1;
            }
        }
        i = i + 1;
    }
    true
}

/// Relies on String::push: the character is added at the end.
#[verifier::external_body]
fn push_char(s: &mut String, c: char)
    ensures
        final(s)@ == old(s)@.push(c),
{
    s.push(c)
}

/// Relies on String::pop: the last character, if any, is taken off and returned.
#[verifier::external_body]
fn pop_char(s: &mut String) -> (r: Option<char>)
    ensures
        old(s)@.len() == 0 ==> r.is_none() && final(s)@ == old(s)@,
        old(s)@.len() > 0 ==> r == Some(old(s)@.last()) && final(s)@ == old(s)@.drop_last(),
{
    s.pop()
}

/// The application: the task store, the selection, the mode and the exit flag.
pub struct App {
    exit: bool,
    store: TaskStore,
    selected_task: usize,
    mode: Mode,
}

impl View for App {
    type V = AppModel;

    closed spec fn view(&self) -> AppModel {
        AppModel {
            tasks: self.store@,
            selected: self.selected_task as nat,
            entry: self.mode@,
            exit: self.exit,
        }
    }
}

impl Default for App {
    fn default() -> (app: App)
        ensures
            app.wf(),
            app@ == (AppModel { tasks: Seq::empty(), selected: 0, entry: None, exit: false }),
    {
        App::new()
    }
}

impl App {
    pub open spec fn wf(&self) -> bool {
        self@.wf()
    }

    /// A navigating application over `tasks`, with the first one selected.
    pub fn with_tasks(tasks: Vec<Task>) -> (app: App)
        requires
            ids_distinct(tasks@.map_values(|t: Task| t@)),
        ensures
            app.wf(),
            app@ == (AppModel {
                tasks: tasks@.map_values(|t: Task| t@),
                selected: 0,
                entry: None,
                exit: false,
            }),
    {
        App { exit: false, store: TaskStore::from_tasks(tasks), selected_task: 0, mode: Mode::Navigation }
    }

    /// A navigating application with no tasks.
    pub fn new() -> (app: App)
        ensures
            app.wf(),
            app@ == (AppModel { tasks: Seq::empty(), selected: 0, entry: None, exit: false }),
    {
        App { exit: false, store: TaskStore::new(), selected_task: 0, mode: Mode::Navigation }
    }

    pub fn exit(&self) -> (r: bool)
        ensures
            r == self@.exit,
    {
        self.exit
    }

    pub fn selected_task(&self) -> (r: usize)
        ensures
            r == self@.selected,
    {
        self.selected_task
    }

    pub fn store(&self) -> (r: &TaskStore)
        ensures
            r@ == self@.tasks,
    {
        &self.store
    }

    pub fn tasks(&self) -> (r: &Vec<Task>)
        ensures
            r@.len() == self@.tasks.len(),
            forall|i: int| 0 <= i < r@.len() ==> (#[trigger] r@[i])@ == self@.tasks[i],
    {
        self.store.tasks()
    }

    pub fn mode(&self) -> (r: &Mode)
        ensures
            r@ == self@.entry,
    {
        &self.mode
    }

    pub fn is_editing(&self) -> (r: bool)
        ensures
            r == (self@.entry is Some),
    {
        match &self.mode {
            Mode::Navigation => false,
            Mode::TextEntry { .. } => true,
        }
    }

    /// The text typed so far; empty while navigating.
    pub fn input_buffer(&self) -> (r: &str)
        ensures
            self@.entry is Some ==> r@ == self@.entry.unwrap(),
            self@.entry is None ==> r@.len() == 0,
    {
        match &self.mode {
            Mode::Navigation => {
                proof {
                    reveal_strlit("");
                }
                ""
            },
            Mode::TextEntry { buffer } => buffer.as_str(),
        }
    }

    /// Appends a new, open task with `description` and asks for it to be persisted.
    pub fn add_task(&mut self, description: String) -> (e: Effect)
        requires
            old(self).wf(),
        ensures
            final(self).wf(),
            final(self)@ == old(self)@.added(description@),
            e@ == (EffectModel::Create {
                index: old(self)@.tasks.len(),
                description: description@,
                status: false,
            }),
    {
        let index = self.store.len();
        let task = Task::new(description.clone());
        self.store.append(task);
        Effect::Create { index, description, status: false }
    }

    /// Removes the task at `task_index`, keeps the selection on a task, and asks for
    /// its durable record to be deleted.
    pub fn delete_task(&mut self, task_index: usize) -> (e: Effect)
        requires
            old(self).wf(),
        ensures
            final(self).wf(),
            final(self)@ == old(self)@.deleted(task_index as nat),
            e@ == delete_effect(old(self)@, task_index as nat),
    {
        match self.store.remove(task_index) {
            Ok(task) => {
                let len = self.store.len();
                if self.selected_task >= len {
                    self.selected_task = if len == 0 { 0 } else { len - 1 };
                }
                match task.id {
                    Some(id) => Effect::Delete { id },
                    None => Effect::Nothing,
                }
            },
            Err(_) => Effect::Nothing,
        }
    }

    /// Sets the status of the task at `task_index` and asks for it to be persisted.
    pub fn update_task_status(&mut self, task_index: usize, status: bool) -> (e: Effect)
        requires
            old(self).wf(),
        ensures
            final(self).wf(),
            final(self)@ == old(self)@.status_set(task_index as nat, status),
            e@ == status_effect(old(self)@, task_index as nat, status),
    {
        let id = match self.store.get(task_index) {
            Some(task) => task.id,
            None => None,
        };
        match self.store.set_status(task_index, status) {
            Ok(()) => match id {
                Some(id) => Effect::UpdateStatus { id, status },
                None => Effect::Nothing,
            },
            Err(_) => Effect::Nothing,
        }
    }

    /// Whether no task other than the one at `task_index` holds `id`.
    pub fn id_is_free(&self, task_index: usize, id: i64) -> (r: bool)
        ensures
            r == self@.id_free_for(task_index as nat, id),
    {
        let tasks = self.store.tasks();
        let mut j: usize = 0;
        while j < tasks.len()
            invariant
                j <= tasks@.len(),
                tasks@.len() == self@.tasks.len(),
                forall|i: int| 0 <= i < tasks@.len() ==> (#[trigger] tasks@[i])@ == self@.tasks[i],
                forall|k: int| 0 <= k < j && k != task_index ==> (#[trigger] self@.tasks[k]).id != Some(id),
            decreases tasks@.len() - j,
        {
            if j != task_index {
                if let Some(k) = tasks[j].id {
                    if k == id {
                        assert(self@.tasks[j as int] == tasks@[j as int]@);
                        return false;
                    }
                }
            }
            assert(self@.tasks[j as int] == tasks@[j as int]@);
            j = j + 1;
        }
        true
    }

    /// Records the durable identity that the backend gave the task at `task_index`.
    pub fn on_created(&mut self, task_index: usize, id: i64)
        requires
            old(self).wf(),
            old(self)@.id_free_for(task_index as nat, id),
        ensures
            final(self).wf(),
            final(self)@ == old(self)@.id_recorded(task_index as nat, id),
    {
        let _ = self.store.set_id(task_index, id);
    }

    /// Processes one input and returns the storage work it calls for.
    pub fn handle_input(&mut self, input: Input) -> (e: Effect)
        requires
            old(self).wf(),
        ensures
            final(self).wf(),
            final(self)@ == next(old(self)@, input),
            e@ == effect_of(old(self)@, input),
    {
        match input {
            Input::Quit => {
                self.exit = true;
                Effect::Nothing
            },
            Input::MoveUp => {
                if !self.is_editing() && self.selected_task > 0 {
                    self.selected_task = self.selected_task - 1;
                }
                Effect::Nothing
            },
            Input::MoveDown => {
                if !self.is_editing() && self.selected_task < self.store.len()
                    && self.selected_task + 1 < self.store.len() {
                    self.selected_task = self.selected_task + 1;
                }
                Effect::Nothing
            },
            Input::EnterEditMode => {
                if !self.is_editing() {
                    self.mode = Mode::TextEntry { buffer: String::new() };
                }
                Effect::Nothing
            },
            Input::AppendChar(c) => {
                if let Mode::TextEntry { buffer } = &mut self.mode {
                    push_char(buffer, c);
                }
                Effect::Nothing
            },
            Input::Backspace => {
                if let Mode::TextEntry { buffer } = &mut self.mode {
                    let _ = pop_char(buffer);
                }
                Effect::Nothing
            },
            Input::CancelEdit => {
                self.mode = Mode::Navigation;
                Effect::Nothing
            },
            Input::Confirm => {
                let mut mode = Mode::Navigation;
                std::mem::swap(&mut mode, &mut self.mode);
                match mode {
                    Mode::TextEntry { buffer } => {
                        if buffer.as_str().is_empty() {
                            Effect::Nothing
                        } else {
                            self.add_task(buffer)
                        }
                    },
                    Mode::Navigation => {
                        match self.store.status(self.selected_task) {
                            Ok(status) => self.update_task_status(self.selected_task, !status),
                            Err(_) => Effect::Nothing,
                        }
                    },
                }
            },
            Input::DeleteSelected => {
                if self.is_editing() {
                    Effect::Nothing
                } else {
                    self.delete_task(self.selected_task)
                }
            },
        }
    }
}

} // verus!
