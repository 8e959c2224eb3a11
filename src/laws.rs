use vstd::prelude::*;
use crate::backend::{BackendModel, lemma_index_of, reported};
use crate::machine::{AppModel, EffectModel, Input, effect_of, fresh_task, next};

verus! {

/// The state after each of `inputs`, in order.
pub open spec fn run(s: AppModel, inputs: Seq<Input>) -> AppModel
    decreases inputs.len(),
{
    if inputs.len() == 0 {
        s
    } else {
        next(run(s, inputs.drop_last()), inputs.last())
    }
}

/// Each of `inputs` appends the matching character of `chars`.
pub open spec fn types_out(inputs: Seq<Input>, chars: Seq<char>) -> bool {
    &&& inputs.len() == chars.len()
    &&& forall|i: int| 0 <= i < inputs.len() ==> #[trigger] inputs[i] == Input::AppendChar(chars[i])
}

pub open spec fn is_move(input: Input) -> bool {
    input == Input::MoveUp || input == Input::MoveDown
}

/// Every input keeps the selection on a task (or at 0 on an empty store).
pub proof fn lemma_next_wf(s: AppModel, input: Input)
    requires
        s.wf(),
    ensures
        next(s, input).wf(),
{
}

/// However many inputs arrive, the selection stays on a task.
pub proof fn lemma_run_wf(s: AppModel, inputs: Seq<Input>)
    requires
        s.wf(),
    ensures
        run(s, inputs).wf(),
    decreases inputs.len(),
{
    if inputs.len() > 0 {
        lemma_run_wf(s, inputs.drop_last());
        lemma_next_wf(run(s, inputs.drop_last()), inputs.last());
    }
}

/// Running `a` and then `b` is running `a + b`.
pub proof fn lemma_run_append(s: AppModel, a: Seq<Input>, b: Seq<Input>)
    ensures
        run(s, a + b) == run(run(s, a), b),
    decreases b.len(),
{
    if b.len() == 0 {
        assert(a + b =~= a);
    } else {
        assert((a + b).drop_last() =~= a + b.drop_last());
        lemma_run_append(s, a, b.drop_last());
    }
}

/// Moves alone keep the tasks as they are.
proof fn lemma_moves_keep_tasks(s: AppModel, inputs: Seq<Input>)
    requires
        s.wf(),
        forall|k: int| 0 <= k < inputs.len() ==> is_move(#[trigger] inputs[k]),
    ensures
        run(s, inputs).tasks == s.tasks,
        run(s, inputs).wf(),
    decreases inputs.len(),
{
    if inputs.len() > 0 {
        let rest = inputs.drop_last();
        assert forall|k: int| 0 <= k < rest.len() implies is_move(#[trigger] rest[k]) by {
            assert(rest[k] == inputs[k]);
        }
        lemma_moves_keep_tasks(s, rest);
        assert(is_move(inputs[inputs.len() - 1]));
    }
}

/// On a store of N > 0 tasks, any run of moves up and down keeps the selection
/// within `[0, N - 1]` after every step, and the store keeps its N tasks.
pub proof fn lemma_moves_stay_in_range(s: AppModel, inputs: Seq<Input>)
    requires
        s.wf(),
        s.tasks.len() > 0,
        forall|k: int| 0 <= k < inputs.len() ==> is_move(#[trigger] inputs[k]),
    ensures
        forall|k: int|
            0 <= k <= inputs.len() ==> (#[trigger] run(s, inputs.take(k))).tasks.len() == s.tasks.len()
                && run(s, inputs.take(k)).selected < s.tasks.len(),
{
    assert forall|k: int| 0 <= k <= inputs.len() implies (#[trigger] run(s, inputs.take(k))).tasks.len()
        == s.tasks.len() && run(s, inputs.take(k)).selected < s.tasks.len() by {
        let p = inputs.take(k);
        assert forall|j: int| 0 <= j < p.len() implies is_move(#[trigger] p[j]) by {
            assert(p[j] == inputs[j]);
        }
        lemma_moves_keep_tasks(s, p);
    }
}

/// Confirming twice while navigating toggles the selected task's status and
/// then toggles it back: the state is as it was.
pub proof fn lemma_toggle_twice(s: AppModel)
    requires
        s.wf(),
        s.navigating(),
    ensures
        next(next(s, Input::Confirm), Input::Confirm) == s,
{
    if s.selected < s.tasks.len() {
        let t = next(s, Input::Confirm);
        assert(next(t, Input::Confirm).tasks =~= s.tasks);
    }
}

/// While entering text, inputs that type `chars` append them to the buffer
/// and change nothing else.
pub proof fn lemma_typing(s: AppModel, inputs: Seq<Input>, chars: Seq<char>)
    requires
        s.entry is Some,
        types_out(inputs, chars),
    ensures
        run(s, inputs) == (AppModel { entry: Some(s.entry.unwrap() + chars), ..s }),
    decreases inputs.len(),
{
    if inputs.len() == 0 {
        assert(s.entry.unwrap() + chars =~= s.entry.unwrap());
    } else {
        let (ri, rc) = (inputs.drop_last(), chars.drop_last());
        assert forall|i: int| 0 <= i < ri.len() implies #[trigger] ri[i] == Input::AppendChar(rc[i]) by {
            assert(ri[i] == inputs[i]);
            assert(rc[i] == chars[i]);
        }
        lemma_typing(s, ri, rc);
        assert(inputs.last() == Input::AppendChar(chars.last()));
        assert(run(s, inputs) == next(run(s, ri), inputs.last()));
        assert((s.entry.unwrap() + rc).push(chars.last()) =~= s.entry.unwrap() + chars);
    }
}

/// Entering text, typing any characters and then cancelling leaves the state
/// as it was, and none of these inputs asks for storage work.
pub proof fn lemma_cancel_discards(s: AppModel, inputs: Seq<Input>, chars: Seq<char>)
    requires
        s.wf(),
        s.navigating(),
        types_out(inputs, chars),
    ensures
        run(s, seq![Input::EnterEditMode] + inputs + seq![Input::CancelEdit]) == s,
        forall|t: AppModel, k: int|
            0 <= k < inputs.len() ==> #[trigger] effect_of(t, inputs[k]) == EffectModel::Nothing,
        forall|t: AppModel|
            effect_of(t, Input::EnterEditMode) == EffectModel::Nothing && #[trigger] effect_of(
                t,
                Input::CancelEdit,
            ) == EffectModel::Nothing,
{
    let enter = seq![Input::EnterEditMode];
    let editing = next(s, Input::EnterEditMode);
    assert(run(s, enter) == editing) by {
        assert(enter.drop_last() =~= Seq::<Input>::empty());
        assert(run(s, enter.drop_last()) == s);
        assert(enter.last() == Input::EnterEditMode);
    }
    lemma_run_append(s, enter, inputs);
    lemma_typing(editing, inputs, chars);
    let typed = run(s, enter + inputs);
    let cancel = seq![Input::CancelEdit];
    lemma_run_append(s, enter + inputs, cancel);
    assert(run(typed, cancel) == next(typed, Input::CancelEdit)) by {
        assert(cancel.drop_last() =~= Seq::<Input>::empty());
        assert(run(typed, cancel.drop_last()) == typed);
        assert(cancel.last() == Input::CancelEdit);
    }
    assert forall|t: AppModel, k: int| 0 <= k < inputs.len() implies #[trigger] effect_of(t, inputs[k])
        == EffectModel::Nothing by {
        assert(inputs[k] == Input::AppendChar(chars[k]));
    }
}

/// Entering text, typing non-empty `chars` and confirming appends exactly one
/// open, not yet persisted task with that description, returns to
/// navigation, and asks the backend to create that task.
pub proof fn lemma_confirm_adds(s: AppModel, inputs: Seq<Input>, chars: Seq<char>)
    requires
        s.wf(),
        s.navigating(),
        types_out(inputs, chars),
        chars.len() > 0,
    ensures
        ({
            let entered = run(s, seq![Input::EnterEditMode] + inputs);
            &&& next(entered, Input::Confirm) == (AppModel { tasks: s.tasks.push(fresh_task(chars)), ..s })
            &&& effect_of(entered, Input::Confirm) == (EffectModel::Create {
                index: s.tasks.len(),
                description: chars,
                status: false,
            })
        }),
{
    let enter = seq![Input::EnterEditMode];
    let editing = next(s, Input::EnterEditMode);
    assert(run(s, enter) == editing) by {
        assert(enter.drop_last() =~= Seq::<Input>::empty());
        assert(run(s, enter.drop_last()) == s);
        assert(enter.last() == Input::EnterEditMode);
    }
    lemma_run_append(s, enter, inputs);
    lemma_typing(editing, inputs, chars);
    assert(Seq::<char>::empty() + chars =~= chars);
}

/// Deleting the only task empties the store and leaves no selection (index 0).
pub proof fn lemma_delete_only_task(s: AppModel)
    requires
        s.wf(),
        s.navigating(),
        s.tasks.len() == 1,
    ensures
        next(s, Input::DeleteSelected).tasks.len() == 0,
        next(s, Input::DeleteSelected).selected == 0,
{
}

/// Deleting on an empty store changes nothing and asks for no storage work.
pub proof fn lemma_delete_on_empty(s: AppModel)
    requires
        s.wf(),
        s.tasks.len() == 0,
    ensures
        next(s, Input::DeleteSelected) == s,
        effect_of(s, Input::DeleteSelected) == EffectModel::Nothing,
{
}

/// Deleting the selected task when it is not the last one moves every later
/// task down by one place and keeps the selection at the same index, which
/// now holds the task that followed.
pub proof fn lemma_delete_shifts(s: AppModel)
    requires
        s.wf(),
        s.navigating(),
        s.selected + 1 < s.tasks.len(),
    ensures
        ({
            let t = next(s, Input::DeleteSelected);
            &&& t.tasks.len() == s.tasks.len() - 1
            &&& forall|j: int| 0 <= j < s.selected ==> #[trigger] t.tasks[j] == s.tasks[j]
            &&& forall|j: int| s.selected <= j < t.tasks.len() ==> #[trigger] t.tasks[j] == s.tasks[j + 1]
            &&& t.selected == s.selected
            &&& t.selected < t.tasks.len()
        }),
{
}

/// When the application's tasks are exactly the backend's records (as after
/// seeding from the backend's list), one input followed by its storage work
/// leaves them exactly equal again: the backend gained, lost or changed
/// precisely the record that the input changed in memory. The backend
/// accepts every such storage work, except a creation once it has run out
/// of identities.
pub proof fn lemma_round_trip(app: AppModel, b: BackendModel, input: Input)
    requires
        app.wf(),
        b.wf(),
        app.tasks == b.records,
    ensures
        !(effect_of(app, input) is Create) ==> b.accepts(effect_of(app, input)),
        b.accepts(effect_of(app, input)) ==> reported(next(app, input), effect_of(app, input), b).tasks
            == b.performed(effect_of(app, input)).records,
{
    let e = effect_of(app, input);
    let sel = app.selected as int;
    match e {
        EffectModel::Nothing => {},
        EffectModel::Create { index, description, status } => {
            let after = next(app, input);
            assert(reported(after, e, b).tasks =~= b.performed(e).records);
        },
        EffectModel::UpdateStatus { id, status } => {
            lemma_index_of(b, sel, id);
            assert(next(app, input).tasks =~= b.performed(e).records);
        },
        EffectModel::Delete { id } => {
            lemma_index_of(b, sel, id);
            assert(next(app, input).tasks =~= b.performed(e).records);
        },
    }
}

/// The application and the backend after one input and its storage work;
/// a refused storage work leaves the backend as it was.
pub open spec fn step_both(app: AppModel, b: BackendModel, input: Input) -> (AppModel, BackendModel) {
    let e = effect_of(app, input);
    if b.accepts(e) {
        (reported(next(app, input), e, b), b.performed(e))
    } else {
        (next(app, input), b)
    }
}

/// The application and the backend after each of `inputs` and its storage work.
pub open spec fn run_both(app: AppModel, b: BackendModel, inputs: Seq<Input>) -> (AppModel, BackendModel)
    decreases inputs.len(),
{
    if inputs.len() == 0 {
        (app, b)
    } else {
        let p = run_both(app, b, inputs.drop_last());
        step_both(p.0, p.1, inputs.last())
    }
}

/// Storage work that the backend accepts keeps it well formed.
pub proof fn lemma_performed_wf(b: BackendModel, e: EffectModel)
    requires
        b.wf(),
        b.accepts(e),
    ensures
        b.performed(e).wf(),
        b.performed(e).next_id <= b.next_id + 1,
{
    match e {
        EffectModel::Nothing => {},
        EffectModel::Create { description, status, .. } => {
            let c = b.created(description, status);
            assert forall|i: int, j: int| 0 <= i < j < c.records.len() implies
                (#[trigger] c.records[i]).id.unwrap() < (#[trigger] c.records[j]).id.unwrap() by {
                if j == b.records.len() {
                    assert(c.records[i] == b.records[i]);
                } else {
                    assert(c.records[i] == b.records[i] && c.records[j] == b.records[j]);
                }
            }
            assert forall|i: int| 0 <= i < c.records.len() implies {
                let id = (#[trigger] c.records[i]).id;
                id is Some && 1 <= id.unwrap() < c.next_id
            } by {
                if i < b.records.len() {
                    assert(c.records[i] == b.records[i]);
                }
            }
        },
        EffectModel::UpdateStatus { id, status } => {
            let u = b.updated(id, status);
            assert forall|i: int| 0 <= i < u.records.len() implies (#[trigger] u.records[i]).id == b.records[i].id by {}
            assert forall|i: int, j: int| 0 <= i < j < u.records.len() implies
                (#[trigger] u.records[i]).id.unwrap() < (#[trigger] u.records[j]).id.unwrap() by {
                assert(u.records[i].id == b.records[i].id && u.records[j].id == b.records[j].id);
            }
        },
        EffectModel::Delete { id } => {
            let d = b.deleted(id);
            let k = b.index_of(id);
            assert forall|i: int| 0 <= i < d.records.len() implies (#[trigger] d.records[i]) == b.records[
                if i < k { i } else { i + 1 }
            ] by {}
            assert forall|i: int, j: int| 0 <= i < j < d.records.len() implies
                (#[trigger] d.records[i]).id.unwrap() < (#[trigger] d.records[j]).id.unwrap() by {
                let i0 = if i < k { i } else { i + 1 };
                let j0 = if j < k { j } else { j + 1 };
                assert(d.records[i] == b.records[i0]);
                assert(d.records[j] == b.records[j0]);
            }
        },
    }
}

/// One input and its storage work, starting in agreement and with an
/// identity left to hand out, end in agreement with both sides well formed.
pub proof fn lemma_step_both(app: AppModel, b: BackendModel, input: Input)
    requires
        app.wf(),
        b.wf(),
        app.tasks == b.records,
        b.next_id < i64::MAX,
    ensures
        step_both(app, b, input).0.wf(),
        step_both(app, b, input).1.wf(),
        step_both(app, b, input).0.tasks == step_both(app, b, input).1.records,
        step_both(app, b, input).1.next_id <= b.next_id + 1,
{
    let e = effect_of(app, input);
    lemma_round_trip(app, b, input);
    lemma_next_wf(app, input);
    lemma_performed_wf(b, e);
    assert(b.accepts(e));
    let after = next(app, input);
    if let EffectModel::Create { index, .. } = e {
        let r = reported(after, e, b);
        assert(r.tasks == b.performed(e).records);
    }
}

/// Starting from an application seeded with the backend's records, after any
/// sequence of inputs, each followed by its storage work, the application's
/// tasks are exactly the backend's records, provided the backend has an
/// identity left for every input.
pub proof fn lemma_stays_in_sync(app: AppModel, b: BackendModel, inputs: Seq<Input>)
    requires
        app.wf(),
        b.wf(),
        app.tasks == b.records,
        b.next_id + inputs.len() <= i64::MAX,
    ensures
        run_both(app, b, inputs).0.tasks == run_both(app, b, inputs).1.records,
        run_both(app, b, inputs).0.wf(),
        run_both(app, b, inputs).1.wf(),
        run_both(app, b, inputs).1.next_id <= b.next_id + inputs.len(),
    decreases inputs.len(),
{
    if inputs.len() > 0 {
        lemma_stays_in_sync(app, b, inputs.drop_last());
        let p = run_both(app, b, inputs.drop_last());
        lemma_step_both(p.0, p.1, inputs.last());
    }
}

} // verus!
