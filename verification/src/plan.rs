//! The plan tools: replacing the plan, creating it from task descriptions,
//! and marking one task completed, after which the first task not completed
//! becomes the one in progress.

use vstd::prelude::*;

use crate::session::{plan_view, Task, TaskStatus, TaskView};
use crate::text::{decimal, push_decimal};

verus! {

/// A task as `create_plan` receives it: its description only.
#[derive(Clone, Debug)]
pub struct NewTask {
    pub description: String,
}

/// The statuses that `update_task_status` may set.
#[derive(Clone, Copy, Debug, PartialEq, Eq, Structural)]
pub enum TaskStatusArgs {
    Completed,
}

/// The arguments of `update_task_status`.
#[derive(Clone, Debug)]
pub struct UpdateTaskStatusArgs {
    pub task_id: String,
    pub status: TaskStatusArgs,
}

/// The number of tasks in progress.
pub open spec fn in_progress_count(s: Seq<TaskView>) -> nat
    decreases s.len(),
{
    if s.len() == 0 {
        0
    } else {
        in_progress_count(s.drop_last()) + if s.last().status == TaskStatus::InProgress {
            1nat
        } else {
            0nat
        }
    }
}

/// The position of the first task not completed, or the plan's length.
pub open spec fn first_open(s: Seq<TaskView>) -> int
    decreases s.len(),
{
    if s.len() == 0 {
        0
    } else if s[0].status != TaskStatus::Completed {
        0
    } else {
        1 + first_open(s.drop_first())
    }
}

/// The plan after its statuses are recalculated: completed tasks stay
/// completed, the first task not completed is in progress, the rest pending.
pub open spec fn advance(s: Seq<TaskView>) -> Seq<TaskView> {
    Seq::new(
        s.len(),
        |i: int|
            TaskView {
                status: if s[i].status == TaskStatus::Completed {
                    TaskStatus::Completed
                } else if i == first_open(s) {
                    TaskStatus::InProgress
                } else {
                    TaskStatus::Pending
                },
                ..s[i]
            },
    )
}

/// The position of the first task whose id is `id`, or the plan's length.
pub open spec fn find_task(s: Seq<TaskView>, id: Seq<char>) -> int
    decreases s.len(),
{
    if s.len() == 0 {
        0
    } else if s[0].id == id {
        0
    } else {
        1 + find_task(s.drop_first(), id)
    }
}

/// The plan after the task with id `id` is marked completed and the
/// statuses are recalculated; `None` where no task has that id.
pub open spec fn complete_spec(s: Seq<TaskView>, id: Seq<char>) -> Option<Seq<TaskView>> {
    let k = find_task(s, id);
    if k < s.len() {
        Some(advance(s.update(k, TaskView { status: TaskStatus::Completed, ..s[k] })))
    } else {
        None
    }
}

/// The tasks that `create_plan` makes of the descriptions `d`.
pub open spec fn created(d: Seq<Seq<char>>) -> Seq<TaskView> {
    Seq::new(
        d.len(),
        |i: int|
            TaskView {
                id: "task_"@ + decimal((i + 1) as nat),
                description: d[i],
                status: if i == 0 {
                    TaskStatus::InProgress
                } else {
                    TaskStatus::Pending
                },
            },
    )
}

/// Whether the evaluation of the plan is over: the plan is empty or every
/// task in it is completed.
pub open spec fn plan_done(s: Seq<TaskView>) -> bool {
    s.len() == 0 || forall|i: int| 0 <= i < s.len() ==> s[i].status == TaskStatus::Completed
}

/// The error that `update_plan` gives for a plan with `n` tasks in progress.
pub open spec fn too_many_in_progress(n: nat) -> Seq<char> {
    "Constraint violation: at most one task may be 'in_progress' at a time, but found "@
        + decimal(n)
        + ". You must mark previous tasks as 'completed' or 'pending' before advancing the plan."@
}

pub open spec fn plan_updated_reply() -> Seq<char> {
    "Plan updated successfully."@
}

pub open spec fn task_updated_reply(id: Seq<char>) -> Seq<char> {
    "Successfully updated task '"@ + id + "' and recalculated active states."@
}

pub open spec fn task_missing_error(id: Seq<char>) -> Seq<char> {
    "Task ID '"@ + id + "' not found in the current plan."@
}

proof fn lemma_first_open(s: Seq<TaskView>)
    ensures
        0 <= first_open(s) <= s.len(),
        first_open(s) < s.len() ==> s[first_open(s)].status != TaskStatus::Completed,
        forall|k: int| 0 <= k < first_open(s) ==> s[k].status == TaskStatus::Completed,
    decreases s.len(),
{
    if s.len() > 0 && s[0].status == TaskStatus::Completed {
        lemma_first_open(s.drop_first());
        assert forall|k: int| 0 <= k < first_open(s) implies s[k].status
            == TaskStatus::Completed by {
            if k > 0 {
                assert(s[k] == s.drop_first()[k - 1]);
            }
        }
    }
}

proof fn lemma_find_task(s: Seq<TaskView>, id: Seq<char>)
    ensures
        0 <= find_task(s, id) <= s.len(),
        find_task(s, id) < s.len() ==> s[find_task(s, id)].id == id,
        forall|k: int| 0 <= k < find_task(s, id) ==> s[k].id != id,
    decreases s.len(),
{
    if s.len() > 0 && s[0].id != id {
        lemma_find_task(s.drop_first(), id);
        assert forall|k: int| 0 <= k < find_task(s, id) implies s[k].id != id by {
            if k > 0 {
                assert(s[k] == s.drop_first()[k - 1]);
            }
        }
    }
}

/// `first_open` is the one position not completed with all before it completed.
proof fn lemma_first_open_unique(s: Seq<TaskView>, j: int)
    requires
        0 <= j < s.len(),
        s[j].status != TaskStatus::Completed,
        forall|k: int| 0 <= k < j ==> s[k].status == TaskStatus::Completed,
    ensures
        first_open(s) == j,
{
    lemma_first_open(s);
}

proof fn lemma_count_in_progress_zero(s: Seq<TaskView>)
    requires
        forall|i: int| 0 <= i < s.len() ==> s[i].status != TaskStatus::InProgress,
    ensures
        in_progress_count(s) == 0,
    decreases s.len(),
{
    if s.len() > 0 {
        lemma_count_in_progress_zero(s.drop_last());
    }
}

/// A plan in which no task but the one at `j` is in progress has at most one
/// task in progress.
proof fn lemma_count_at_most_one(s: Seq<TaskView>, j: int)
    requires
        forall|i: int| 0 <= i < s.len() && i != j ==> s[i].status != TaskStatus::InProgress,
    ensures
        in_progress_count(s) <= 1,
    decreases s.len(),
{
    if s.len() > 0 {
        if s.len() - 1 == j {
            lemma_count_in_progress_zero(s.drop_last());
        } else {
            lemma_count_at_most_one(s.drop_last(), j);
        }
    }
}

/// Law: after the statuses are recalculated, at most one task is in
/// progress, and it is the first task not completed.
pub proof fn law_advance_single_in_progress(s: Seq<TaskView>)
    ensures
        in_progress_count(advance(s)) <= 1,
        forall|i: int|
            0 <= i < s.len() ==> (advance(s)[i].status == TaskStatus::InProgress <==> i
                == first_open(s)),
{
    lemma_first_open(s);
    lemma_count_at_most_one(advance(s), first_open(s));
}

/// Law: recalculating the statuses twice is recalculating them once.
pub proof fn law_advance_idempotent(s: Seq<TaskView>)
    ensures
        advance(advance(s)) == advance(s),
{
    let a = advance(s);
    lemma_first_open(s);
    lemma_first_open(a);
    if first_open(s) < s.len() {
        lemma_first_open_unique(a, first_open(s));
    } else {
        assert forall|k: int| 0 <= k < a.len() implies a[k].status == TaskStatus::Completed by {}
        if first_open(a) < a.len() {
            assert(a[first_open(a)].status == TaskStatus::Completed);
        }
    }
    assert(advance(a) =~= a);
}

/// Law: completing a task keeps every task, in order, with its id and its
/// description; the completed tasks are the named one and those completed
/// before; the first task not completed is in progress and every other task
/// not completed is pending, so at most one task is in progress.
pub proof fn law_complete_keeps_tasks(s: Seq<TaskView>, id: Seq<char>)
    requires
        complete_spec(s, id) is Some,
    ensures
        ({
            let t = complete_spec(s, id)->0;
            let k = find_task(s, id);
            &&& t.len() == s.len()
            &&& forall|i: int|
                0 <= i < s.len() ==> t[i].id == s[i].id && t[i].description == s[i].description
            &&& forall|i: int|
                0 <= i < s.len() ==> (t[i].status == TaskStatus::Completed <==> (i == k
                    || s[i].status == TaskStatus::Completed))
            &&& first_open(t) < t.len() ==> t[first_open(t)].status == TaskStatus::InProgress
            &&& forall|i: int|
                0 <= i < t.len() && i != first_open(t) && t[i].status != TaskStatus::Completed
                    ==> t[i].status == TaskStatus::Pending
            &&& in_progress_count(t) <= 1
        }),
{
    lemma_find_task(s, id);
    let k = find_task(s, id);
    let u = s.update(k, TaskView { status: TaskStatus::Completed, ..s[k] });
    law_advance_single_in_progress(u);
    lemma_advance_open_statuses(u);
}

/// After the statuses are recalculated, the first task not completed is the
/// same as before, it is in progress, and every other task not completed is
/// pending.
proof fn lemma_advance_open_statuses(u: Seq<TaskView>)
    ensures
        first_open(advance(u)) == first_open(u),
        first_open(u) < u.len() ==> advance(u)[first_open(u)].status == TaskStatus::InProgress,
        forall|i: int|
            0 <= i < u.len() && i != first_open(u) && advance(u)[i].status
                != TaskStatus::Completed ==> advance(u)[i].status == TaskStatus::Pending,
{
    let t = advance(u);
    lemma_first_open(u);
    lemma_first_open(t);
    if first_open(u) < u.len() {
        lemma_first_open_unique(t, first_open(u));
    } else if first_open(t) < t.len() {
        assert(t[first_open(t)].status == TaskStatus::Completed);
    }
}

/// Law: completing the same task twice is completing it once.
pub proof fn law_complete_idempotent(s: Seq<TaskView>, id: Seq<char>)
    requires
        complete_spec(s, id) is Some,
    ensures
        complete_spec(complete_spec(s, id)->0, id) == complete_spec(s, id),
{
    lemma_find_task(s, id);
    let k = find_task(s, id);
    let u = s.update(k, TaskView { status: TaskStatus::Completed, ..s[k] });
    let t = advance(u);
    lemma_find_task(t, id);
    assert forall|i: int| 0 <= i < t.len() implies t[i].id == s[i].id by {}
    if find_task(t, id) < k {
        assert(s[find_task(t, id)].id == id);
    }
    if find_task(t, id) > k {
        assert(t[k].id == id);
    }
    assert(find_task(t, id) == k);
    assert(t.update(k, TaskView { status: TaskStatus::Completed, ..t[k] }) =~= t);
    law_advance_idempotent(u);
}

/// Law: a created plan has its first task in progress, the others pending,
/// so at most one task is in progress.
pub proof fn law_created_single_in_progress(d: Seq<Seq<char>>)
    ensures
        in_progress_count(created(d)) <= 1,
{
    lemma_count_at_most_one(created(d), 0);
}

/// The number of tasks in progress in `tasks`.
pub fn count_in_progress(tasks: &Vec<Task>) -> (r: usize)
    ensures
        r == in_progress_count(plan_view(tasks@)),
{
    let mut n: usize = 0;
    let mut i: usize = 0;
    while i < tasks.len()
        invariant
            i <= tasks.len(),
            n <= i,
            n == in_progress_count(plan_view(tasks@.take(i as int))),
        decreases tasks.len() - i,
    {
        assert(plan_view(tasks@.take(i + 1)).drop_last() =~= plan_view(tasks@.take(i as int)));
        if tasks[i].status == TaskStatus::InProgress {
            n = n + 1;
        }
        i = i + 1;
    }
    assert(tasks@.take(tasks.len() as int) =~= tasks@);
    n
}

/// Replaces the plan with `tasks` (the `update_plan` tool), unless more than
/// one of them is in progress: then the plan stays and the error says how many.
pub fn update_plan(plan: &mut Vec<Task>, tasks: Vec<Task>) -> (r: Result<String, String>)
    ensures
        ({
            let n = in_progress_count(plan_view(tasks@));
            if n > 1 {
                &&& r matches Err(e) && e@ == too_many_in_progress(n)
                &&& plan_view(final(plan)@) == plan_view(old(plan)@)
            } else {
                &&& r matches Ok(m) && m@ == plan_updated_reply()
                &&& plan_view(final(plan)@) == plan_view(tasks@)
            }
        }),
        r is Ok ==> in_progress_count(plan_view(final(plan)@)) <= 1,
{
    let n = count_in_progress(&tasks);
    if n > 1 {
        let mut e = String::from_str(
            "Constraint violation: at most one task may be 'in_progress' at a time, but found ",
        );
        push_decimal(&mut e, n as u128);
        e.append(
            ". You must mark previous tasks as 'completed' or 'pending' before advancing the plan.",
        );
        return Err(e);
    }
    *plan = tasks;
    Ok(String::from_str("Plan updated successfully."))
}

/// The id `task_{i}` of the task at position `i - 1` of a created plan.
fn task_id(i: usize) -> (r: String)
    ensures
        r@ == "task_"@ + decimal(i as nat),
{
    let mut r = String::from_str("task_");
    push_decimal(&mut r, i as u128);
    r
}

/// Replaces the plan with one task per description, numbered from
/// `task_1`, the first in progress and the others pending (the
/// `create_plan` tool).
pub fn create_plan(plan: &mut Vec<Task>, tasks: Vec<NewTask>) -> (r: Result<String, String>)
    ensures
        r matches Ok(m) && m@ == plan_updated_reply(),
        plan_view(final(plan)@) == created(tasks@.map_values(|t: NewTask| t.description@)),
        in_progress_count(plan_view(final(plan)@)) <= 1,
{
    proof {
        law_created_single_in_progress(tasks@.map_values(|t: NewTask| t.description@));
    }
    let descriptions = &tasks;
    let ghost d = tasks@.map_values(|t: NewTask| t.description@);
    let mut tasks: Vec<Task> = Vec::new();
    let mut i: usize = 0;
    while i < descriptions.len()
        invariant
            d == descriptions@.map_values(|t: NewTask| t.description@),
            i <= descriptions.len(),
            tasks.len() == i,
            forall|k: int| 0 <= k < i ==> (#[trigger] tasks@[k])@ == created(d)[k],
        decreases descriptions.len() - i,
    {
        let status = if i == 0 {
            TaskStatus::InProgress
        } else {
            TaskStatus::Pending
        };
        tasks.push(
            Task { id: task_id(i + 1), description: descriptions[i].description.clone(), status: status },
        );
        i = i + 1;
    }
    assert(plan_view(tasks@) =~= created(d));
    *plan = tasks;
    Ok(String::from_str("Plan updated successfully."))
}

/// The position of the first task whose id is `id`, or the plan's length.
fn position_of(plan: &Vec<Task>, id: &str) -> (r: usize)
    ensures
        r == find_task(plan_view(plan@), id@),
{
    let ghost s = plan_view(plan@);
    let mut i: usize = 0;
    assert(s.subrange(0, s.len() as int) =~= s);
    while i < plan.len() && !crate::text::same_text(plan[i].id.as_str(), id)
        invariant
            s == plan_view(plan@),
            i <= plan.len(),
            find_task(s, id@) == i + find_task(s.subrange(i as int, s.len() as int), id@),
        decreases plan.len() - i,
    {
        assert(s.subrange(i as int, s.len() as int).drop_first() =~= s.subrange(
            i + 1,
            s.len() as int,
        ));
        i = i + 1;
    }
    i
}

/// Recalculates the statuses: the first task not completed becomes the one in
/// progress, every later task not completed becomes pending.
fn advance_plan(plan: &mut Vec<Task>)
    ensures
        plan_view(final(plan)@) == advance(plan_view(old(plan)@)),
{
    let ghost s = plan_view(plan@);
    proof {
        lemma_first_open(s);
    }
    let mut assigned = false;
    let mut i: usize = 0;
    while i < plan.len()
        invariant
            s.len() == plan.len(),
            0 <= first_open(s) <= s.len(),
            forall|k: int| 0 <= k < first_open(s) ==> s[k].status == TaskStatus::Completed,
            first_open(s) < s.len() ==> s[first_open(s)].status != TaskStatus::Completed,
            i <= plan.len(),
            assigned == (first_open(s) < i),
            forall|k: int| 0 <= k < i ==> (#[trigger] plan@[k])@ == advance(s)[k],
            forall|k: int| i <= k < plan.len() ==> (#[trigger] plan@[k])@ == s[k],
        decreases plan.len() - i,
    {
        let status = plan[i].status;
        if status != TaskStatus::Completed {
            let mut t = plan[i].duplicate();
            if !assigned {
                t.status = TaskStatus::InProgress;
                assigned = true;
            } else {
                t.status = TaskStatus::Pending;
            }
            plan.set(i, t);
        }
        i = i + 1;
    }
    assert(plan_view(plan@) =~= advance(s));
}

/// Marks the task with id `task_id` completed and recalculates the statuses
/// (the `update_task_status` tool). Where no task has that id, the plan stays
/// and the error names the id.
pub fn update_task_status(plan: &mut Vec<Task>, args: &UpdateTaskStatusArgs) -> (r: Result<
    String,
    String,
>)
    ensures
        ({
            let task_id = args.task_id;
        match complete_spec(plan_view(old(plan)@), task_id@) {
            Some(t) => {
                &&& r matches Ok(m) && m@ == task_updated_reply(task_id@)
                &&& plan_view(final(plan)@) == t
            },
            None => {
                &&& r matches Err(e) && e@ == task_missing_error(task_id@)
                &&& plan_view(final(plan)@) == plan_view(old(plan)@)
            },
        }
        }),
        r is Ok ==> in_progress_count(plan_view(final(plan)@)) <= 1,
{
    proof {
        if complete_spec(plan_view(plan@), args.task_id@) is Some {
            assert(in_progress_count(complete_spec(plan_view(plan@), args.task_id@)->0) <= 1) by {
                law_complete_keeps_tasks(plan_view(plan@), args.task_id@);
            }
        }
    }
    let task_id = args.task_id.as_str();
    match args.status {
        TaskStatusArgs::Completed => {},
    }
    let ghost s = plan_view(plan@);
    proof {
        lemma_find_task(s, task_id@);
    }
    let k = position_of(plan, task_id);
    if k >= plan.len() {
        let mut e = String::from_str("Task ID '");
        e.append(task_id);
        e.append("' not found in the current plan.");
        return Err(e);
    }
    let mut t = plan[k].duplicate();
    t.status = TaskStatus::Completed;
    plan.set(k, t);
    assert(plan_view(plan@) =~= s.update(k as int, TaskView { status: TaskStatus::Completed, ..s[k as int] }));
    advance_plan(plan);
    let mut m = String::from_str("Successfully updated task '");
    m.append(task_id);
    m.append("' and recalculated active states.");
    Ok(m)
}

/// Whether the evaluation of the plan is over: it is empty or every task in
/// it is completed.
pub fn plan_finished(plan: &Vec<Task>) -> (r: bool)
    ensures
        r == plan_done(plan_view(plan@)),
{
    let mut i: usize = 0;
    while i < plan.len()
        invariant
            i <= plan.len(),
            forall|k: int| 0 <= k < i ==> plan@[k].status == TaskStatus::Completed,
        decreases plan.len() - i,
    {
        if plan[i].status != TaskStatus::Completed {
            assert(plan_view(plan@)[i as int].status != TaskStatus::Completed);
            return false;
        }
        i = i + 1;
    }
    true
}

/// The decoded arguments of a call of one of the plan tools.
#[derive(Debug)]
pub enum PlanToolCall {
    UpdatePlan(Vec<Task>),
    CreatePlan(Vec<NewTask>),
    UpdateTaskStatus(UpdateTaskStatusArgs),
}

/// Runs a plan tool on `plan`. Besides the tool's reply, says whether the new
/// plan is to be shown: after every creation, and after a replacement or a
/// status update that succeeded.
pub fn run_plan_tool(plan: &mut Vec<Task>, call: PlanToolCall) -> (r: (Result<String, String>, bool))
    ensures
        match call {
            PlanToolCall::UpdatePlan(tasks) => {
                let n = in_progress_count(plan_view(tasks@));
                if n > 1 {
                    &&& r.0 matches Err(e) && e@ == too_many_in_progress(n)
                    &&& plan_view(final(plan)@) == plan_view(old(plan)@)
                    &&& !r.1
                } else {
                    &&& r.0 matches Ok(m) && m@ == plan_updated_reply()
                    &&& plan_view(final(plan)@) == plan_view(tasks@)
                    &&& r.1
                }
            },
            PlanToolCall::CreatePlan(tasks) => {
                &&& r.0 matches Ok(m) && m@ == plan_updated_reply()
                &&& plan_view(final(plan)@) == created(
                    tasks@.map_values(|t: NewTask| t.description@),
                )
                &&& r.1
            },
            PlanToolCall::UpdateTaskStatus(args) => match complete_spec(
                plan_view(old(plan)@),
                args.task_id@,
            ) {
                Some(t) => {
                    &&& r.0 matches Ok(m) && m@ == task_updated_reply(args.task_id@)
                    &&& plan_view(final(plan)@) == t
                    &&& r.1
                },
                None => {
                    &&& r.0 matches Err(e) && e@ == task_missing_error(args.task_id@)
                    &&& plan_view(final(plan)@) == plan_view(old(plan)@)
                    &&& !r.1
                },
            },
        },
        r.1 ==> in_progress_count(plan_view(final(plan)@)) <= 1,
{
    match call {
        PlanToolCall::UpdatePlan(tasks) => {
            let r = update_plan(plan, tasks);
            let shown = r.is_ok();
            (r, shown)
        },
        PlanToolCall::CreatePlan(tasks) => (create_plan(plan, tasks), true),
        PlanToolCall::UpdateTaskStatus(args) => {
            let r = update_task_status(plan, &args);
            let shown = r.is_ok();
            (r, shown)
        },
    }
}

/// Law: while some task is not completed, the plan is not done, so the
/// evaluation goes on.
pub proof fn law_open_task_not_done(s: Seq<TaskView>, i: int)
    requires
        0 <= i < s.len(),
        s[i].status != TaskStatus::Completed,
    ensures
        !plan_done(s),
{
}

/// Law: a plan is done when it is empty or every one of its tasks is
/// completed.
pub proof fn law_all_completed_done(s: Seq<TaskView>)
    requires
        forall|i: int| 0 <= i < s.len() ==> #[trigger] s[i].status == TaskStatus::Completed,
    ensures
        plan_done(s),
{
}

} // verus!
