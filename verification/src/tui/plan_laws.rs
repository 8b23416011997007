//! What holds of every plan: what an answer does to its tasks, which task comes
//! next, and what is said and written of it.

use crate::text;
use crate::tui::message::Timestamp;
use crate::tui::plan;
use crate::tui::plan::{PlanView, TaskStatus, TaskView};
use vstd::prelude::*;

verus! {

/// Whether `part` stands somewhere in `whole`.
pub open spec fn holds(whole: Seq<char>, part: Seq<char>) -> bool {
    exists|before: Seq<char>, after: Seq<char>| whole == #[trigger] (before + part + after)
}

/// Whether the task at `i` is the current one: it is in progress, and none
/// before it is.
pub open spec fn is_current(p: PlanView, i: int) -> bool {
    &&& 0 <= i < p.tasks.len()
    &&& p.tasks[i].status == TaskStatus::InProgress
    &&& forall|j: int| 0 <= j < i ==> (#[trigger] p.tasks[j]).status != TaskStatus::InProgress
}

/// Whether `t` stands in `lower`.
pub open spec fn says(lower: Seq<char>, t: Seq<char>) -> bool {
    text::find_from(lower, 0, t) is Some
}

proof fn lemma_first_with(tasks: Seq<TaskView>, status: TaskStatus, from: int)
    requires
        0 <= from,
    ensures
        match plan::first_with(tasks, status, from) {
            Some(i) => from <= i < tasks.len() && tasks[i].status == status && forall|j: int|
                from <= j < i ==> (#[trigger] tasks[j]).status != status,
            None => forall|j: int| from <= j < tasks.len() ==> (#[trigger] tasks[j]).status
                != status,
        },
    decreases tasks.len() - from,
{
    if from < tasks.len() && tasks[from].status != status {
        lemma_first_with(tasks, status, from + 1);
    }
}

proof fn lemma_first_named(tasks: Seq<TaskView>, id: u128, from: int)
    requires
        0 <= from,
    ensures
        match plan::first_named(tasks, id, from) {
            Some(i) => from <= i < tasks.len() && tasks[i].id == id && forall|j: int|
                from <= j < i ==> (#[trigger] tasks[j]).id != id,
            None => forall|j: int| from <= j < tasks.len() ==> (#[trigger] tasks[j]).id != id,
        },
    decreases tasks.len() - from,
{
    if from < tasks.len() && tasks[from].id != id {
        lemma_first_named(tasks, id, from + 1);
    }
}

proof fn lemma_first_pending(tasks: Seq<TaskView>, order: Seq<usize>, from: int)
    requires
        0 <= from,
    ensures
        match plan::first_pending(tasks, order, from) {
            Some(i) => exists|k: int|
                from <= k < order.len() && i == (#[trigger] order[k]) as int && tasks[i].status
                    == TaskStatus::Pending && forall|j: int|
                    from <= j < k ==> tasks[#[trigger] order[j] as int].status
                        != TaskStatus::Pending,
            None => forall|j: int|
                from <= j < order.len() ==> tasks[#[trigger] order[j] as int].status
                    != TaskStatus::Pending,
        },
    decreases order.len() - from,
{
    if from < order.len() && tasks[order[from] as int].status != TaskStatus::Pending {
        lemma_first_pending(tasks, order, from + 1);
    }
}

/// Whatever words an answer has for it, an answer that speaks of an error fails
/// the current task.
pub proof fn an_answer_with_an_error_fails_the_task(
    p: PlanView,
    i: int,
    lower: Seq<char>,
    at: Timestamp,
)
    requires
        is_current(p, i),
        says(lower, "error:"@) || says(lower, "failed to"@) || says(lower, "cannot"@) || says(
            lower,
            "unable to"@,
        ) || says(lower, "fatal:"@) || says(lower, "compilation error"@) || says(
            lower,
            "build failed"@,
        ) || (says(lower, "error"@) && says(lower, "executing"@)),
    ensures
        plan::with_answer(p, lower, at).1,
        ({
            let next = plan::with_answer(p, lower, at).0;
            &&& next.tasks.len() == p.tasks.len()
            &&& next.tasks[i].status == TaskStatus::Failed
            &&& next.tasks[i].notes == Some(
                "Task failed during execution. Error detected in response."@,
            )
            &&& next.tasks[i].completed_at == p.tasks[i].completed_at
            &&& next.status == p.status
        }),
{
    lemma_first_with(p.tasks, TaskStatus::InProgress, 0);
}

/// An answer that has none of the words for an error completes the current task,
/// at the time it came.
pub proof fn an_answer_without_an_error_completes_the_task(
    p: PlanView,
    i: int,
    lower: Seq<char>,
    at: Timestamp,
)
    requires
        is_current(p, i),
        !says(lower, "error:"@),
        !says(lower, "failed to"@),
        !says(lower, "cannot"@),
        !says(lower, "unable to"@),
        !says(lower, "fatal:"@),
        !says(lower, "compilation error"@),
        !says(lower, "build failed"@),
        !says(lower, "error"@) || !says(lower, "executing"@),
    ensures
        !plan::with_answer(p, lower, at).1,
        ({
            let next = plan::with_answer(p, lower, at).0;
            &&& next.tasks.len() == p.tasks.len()
            &&& next.tasks[i].status == TaskStatus::Completed
            &&& next.tasks[i].notes == Some("Task completed successfully"@)
            &&& next.tasks[i].completed_at == Some(at)
            &&& next.status == p.status
        }),
{
    lemma_first_with(p.tasks, TaskStatus::InProgress, 0);
}

/// An error fails the current task and is noted there.
pub proof fn an_error_is_noted_in_the_task(p: PlanView, i: int, error: Seq<char>)
    requires
        is_current(p, i),
    ensures
        ({
            let next = plan::with_failure(p, error);
            &&& next.tasks.len() == p.tasks.len()
            &&& next.tasks[i].status == TaskStatus::Failed
            &&& next.tasks[i].notes == Some("Task failed: "@ + error)
            &&& next.tasks[i].completed_at == p.tasks[i].completed_at
            &&& next.status == p.status
        }),
{
    lemma_first_with(p.tasks, TaskStatus::InProgress, 0);
}

/// What a task is, apart from how far it is, does not change with an answer or an
/// error, and no task but the current one changes at all. Without a current task
/// nothing changes.
pub proof fn only_the_current_task_changes(
    p: PlanView,
    lower: Seq<char>,
    at: Timestamp,
    error: Seq<char>,
    k: int,
)
    requires
        0 <= k < p.tasks.len(),
    ensures
        plan::with_answer(p, lower, at).0.tasks.len() == p.tasks.len(),
        plan::with_failure(p, error).tasks.len() == p.tasks.len(),
        !is_current(p, k) ==> plan::with_answer(p, lower, at).0.tasks[k] == p.tasks[k]
            && plan::with_failure(p, error).tasks[k] == p.tasks[k],
        plan::with_answer(p, lower, at).0.tasks[k].id == p.tasks[k].id,
        plan::with_answer(p, lower, at).0.tasks[k].order == p.tasks[k].order,
        plan::with_answer(p, lower, at).0.tasks[k].title == p.tasks[k].title,
        plan::with_answer(p, lower, at).0.tasks[k].description == p.tasks[k].description,
        plan::with_answer(p, lower, at).0.tasks[k].dependencies == p.tasks[k].dependencies,
        plan::with_failure(p, error).tasks[k].id == p.tasks[k].id,
        plan::with_failure(p, error).tasks[k].order == p.tasks[k].order,
        plan::with_failure(p, error).tasks[k].title == p.tasks[k].title,
        plan::with_failure(p, error).tasks[k].description == p.tasks[k].description,
        plan::with_failure(p, error).tasks[k].dependencies == p.tasks[k].dependencies,
        plan::with_answer(p, lower, at).0.title == p.title,
        plan::with_answer(p, lower, at).0.id == p.id,
        plan::with_failure(p, error).title == p.title,
        plan::with_failure(p, error).id == p.id,
        (forall|j: int|
            0 <= j < p.tasks.len() ==> (#[trigger] p.tasks[j]).status != TaskStatus::InProgress)
            ==> plan::with_answer(p, lower, at) == (p, false) && plan::with_failure(p, error) == p,
{
    lemma_first_with(p.tasks, TaskStatus::InProgress, 0);
}

/// The next task is the first pending one in the order: it is in progress from
/// now on, no other task changes, and the agent is asked for just that task.
/// Where none is pending, none is started. Tasks have identifiers of their own.
pub proof fn the_first_pending_task_is_next(p: PlanView, order: Seq<usize>, k: int)
    requires
        0 <= k < order.len(),
        forall|j: int| 0 <= j < order.len() ==> (#[trigger] order[j]) < p.tasks.len(),
        forall|i: int, j: int|
            0 <= i < j < p.tasks.len() ==> (#[trigger] p.tasks[i]).id != (#[trigger] p.tasks[j]).id,
        p.tasks[order[k] as int].status == TaskStatus::Pending,
        forall|j: int|
            0 <= j < k ==> p.tasks[#[trigger] order[j] as int].status != TaskStatus::Pending,
    ensures
        plan::with_next_started(p, order) matches Some((next, asked)) && {
            let i = order[k] as int;
            let t = p.tasks[i];
            &&& next.tasks.len() == p.tasks.len()
            &&& next.tasks[i] == (TaskView { status: TaskStatus::InProgress, ..t })
            &&& forall|j: int|
                0 <= j < p.tasks.len() && j != i ==> #[trigger] next.tasks[j] == p.tasks[j]
            &&& next.status == p.status
            &&& next.title == p.title
            &&& next.id == p.id
            &&& asked == "📋 Executing Plan Task #"@ + text::decimal(t.order as nat) + "/"@
                + text::decimal(p.tasks.len()) + "\n\n**"@ + t.title + "**\n\n"@ + t.description
                + "\n\nPlease complete this "@ + "task."@
        },
{
    lemma_found_pending(p.tasks, order, k, 0);
    lemma_found_named(p.tasks, order[k] as int);
}

proof fn lemma_found_pending(tasks: Seq<TaskView>, order: Seq<usize>, k: int, from: int)
    requires
        0 <= from <= k < order.len(),
        tasks[order[k] as int].status == TaskStatus::Pending,
        forall|j: int|
            from <= j < k ==> tasks[#[trigger] order[j] as int].status != TaskStatus::Pending,
    ensures
        plan::first_pending(tasks, order, from) == Some(order[k] as int),
    decreases k - from,
{
    if from < k {
        assert(tasks[order[from] as int].status != TaskStatus::Pending);
        lemma_found_pending(tasks, order, k, from + 1);
    }
}

proof fn lemma_found_named(tasks: Seq<TaskView>, i: int)
    requires
        0 <= i < tasks.len(),
        forall|a: int, b: int|
            0 <= a < b < tasks.len() ==> (#[trigger] tasks[a]).id != (#[trigger] tasks[b]).id,
    ensures
        plan::first_named(tasks, tasks[i].id, 0) == Some(i),
{
    lemma_first_named(tasks, tasks[i].id, 0);
}

/// Where no task in the order is pending, none is started.
pub proof fn without_a_pending_task_none_is_next(p: PlanView, order: Seq<usize>)
    requires
        forall|j: int|
            0 <= j < order.len() ==> p.tasks[#[trigger] order[j] as int].status
                != TaskStatus::Pending,
    ensures
        plan::with_next_started(p, order) is None,
{
    lemma_first_pending(p.tasks, order, 0);
}

proof fn lemma_holds(a: Seq<char>, part: Seq<char>, b: Seq<char>)
    ensures
        holds(a + part + b, part),
{
}

proof fn lemma_holds_deep(whole: Seq<char>, part: Seq<char>, a: Seq<char>, b: Seq<char>)
    requires
        holds(whole, part),
    ensures
        holds(a + whole + b, part),
{
    let (x, y) = choose|x: Seq<char>, y: Seq<char>| whole == #[trigger] (x + part + y);
    assert(a + (x + part + y) + b =~= (a + x) + part + (y + b));
    lemma_holds(a + x, part, y + b);
}

/// What is said of a plan that is done, that waits for approval or that is to be
/// revised has its title and the number of its tasks.
pub proof fn messages_name_the_plan(p: PlanView)
    ensures
        plan::done_text(p) == "✅ Plan '"@ + p.title + "' completed successfully!\nAll "@
            + text::decimal(p.tasks.len()) + " tasks have been executed."@,
        holds(plan::ready_text(p), "✅ Plan '"@ + p.title + "' is ready!\n\n"@),
        holds(plan::ready_text(p), "is ready!\n\n"@ + text::decimal(p.tasks.len()) + " tasks"@),
        holds(
            plan::revision_text(p),
            "Current plan '"@ + p.title + "' has "@ + text::decimal(p.tasks.len()) + " tasks:\n"@,
        ),
{
    let n = text::decimal(p.tasks.len());
    let tail =
        " tasks • Press Ctrl+P to review\n\nActions:\n• Ctrl+A: Approve and execute\n• Ctrl+R: Reject\n• Ctrl+I: Request changes\n• Ctrl+P: View plan"@;
    let none = Seq::<char>::empty();
    let a = "✅ Plan '"@ + p.title + "' is ready!\n\n"@;
    assert(plan::ready_text(p) =~= none + a + (n + tail));
    lemma_holds(none, a, n + tail);
    lemma_ready_tail(p, n, tail);
    lemma_revision_head(p);
}

proof fn lemma_ready_tail(p: PlanView, n: Seq<char>, tail: Seq<char>)
    requires
        n == text::decimal(p.tasks.len()),
        tail
            == " tasks • Press Ctrl+P to review\n\nActions:\n• Ctrl+A: Approve and execute\n• Ctrl+R: Reject\n• Ctrl+I: Request changes\n• Ctrl+P: View plan"@,
    ensures
        holds(plan::ready_text(p), "is ready!\n\n"@ + n + " tasks"@),
{
    reveal_strlit("' is ready!\n\n");
    reveal_strlit("is ready!\n\n");
    reveal_strlit(
        " tasks • Press Ctrl+P to review\n\nActions:\n• Ctrl+A: Approve and execute\n• Ctrl+R: Reject\n• Ctrl+I: Request changes\n• Ctrl+P: View plan",
    );
    reveal_strlit(" tasks");
    let quote = "' is ready!\n\n"@.take(2);
    assert("' is ready!\n\n"@ =~= quote + "is ready!\n\n"@);
    assert(tail =~= " tasks"@ + tail.skip(6));
    let head = "✅ Plan '"@ + p.title + quote;
    let part = "is ready!\n\n"@ + n + " tasks"@;
    assert(plan::ready_text(p) =~= head + part + tail.skip(6));
    lemma_holds(head, part, tail.skip(6));
}

proof fn lemma_revision_head(p: PlanView)
    ensures
        holds(
            plan::revision_text(p),
            "Current plan '"@ + p.title + "' has "@ + text::decimal(p.tasks.len()) + " tasks:\n"@,
        ),
{
    reveal_strlit("Please revise this plan:\n\nCurrent plan '");
    reveal_strlit("Please revise this plan:\n\n");
    reveal_strlit("Current plan '");
    assert("Please revise this plan:\n\nCurrent plan '"@ =~= "Please revise this plan:\n\n"@
        + "Current plan '"@);
    let part = "Current plan '"@ + p.title + "' has "@ + text::decimal(p.tasks.len())
        + " tasks:\n"@;
    let lines = text::joined(
        Seq::new(p.tasks.len(), |i: int| plan::summary_line(i, p.tasks[i])),
        "\n"@,
    );
    let tail = lines + "\n\nRequested changes: "@;
    assert(plan::revision_text(p) =~= "Please revise this plan:\n\n"@ + part + tail);
    lemma_holds("Please revise this plan:\n\n"@, part, tail);
}

proof fn lemma_joined_holds(parts: Seq<Seq<char>>, sep: Seq<char>, i: int)
    requires
        0 <= i < parts.len(),
    ensures
        holds(text::joined(parts, sep), parts[i]),
    decreases parts.len(),
{
    let none = Seq::<char>::empty();
    if parts.len() == 1 {
        assert(parts[0] =~= none + parts[0] + none);
        lemma_holds(none, parts[0], none);
    } else if i == parts.len() - 1 {
        let before = text::joined(parts.drop_last(), sep) + sep;
        assert(text::joined(parts, sep) =~= before + parts[i] + none);
        lemma_holds(before, parts[i], none);
    } else {
        lemma_joined_holds(parts.drop_last(), sep, i);
        let first = text::joined(parts.drop_last(), sep);
        lemma_holds_deep(first, parts[i], none, sep + parts.last());
        assert(text::joined(parts, sep) =~= none + first + (sep + parts.last()));
    }
}

/// The text that asks for a revision lists every task, numbered from one, with
/// its title and its kind, and ends where the user goes on.
pub proof fn a_revision_lists_every_task(p: PlanView, i: int)
    requires
        0 <= i < p.tasks.len(),
    ensures
        holds(
            plan::revision_text(p),
            "  "@ + text::decimal((i + 1) as nat) + ". "@ + p.tasks[i].title + " ("@
                + p.tasks[i].kind + ")"@,
        ),
        text::finishes_with(plan::revision_text(p), "Requested changes: "@),
{
    let all = Seq::new(p.tasks.len(), |i: int| plan::summary_line(i, p.tasks[i]));
    let lines = text::joined(all, "\n"@);
    lemma_joined_holds(all, "\n"@, i);
    let head = "Please revise this plan:\n\nCurrent plan '"@ + p.title + "' has "@ + text::decimal(
        p.tasks.len(),
    ) + " tasks:\n"@;
    let tail = "\n\nRequested changes: "@;
    lemma_holds_deep(lines, all[i], head, tail);
    assert(plan::revision_text(p) =~= head + lines + tail);
    reveal_strlit("\n\nRequested changes: ");
    reveal_strlit("Requested changes: ");
    let r = plan::revision_text(p);
    assert(r.subrange(r.len() - 19, r.len() as int) =~= "Requested changes: "@);
}

/// The orders of the tasks that another depends on are those of the tasks it
/// names, in the order it names them. What names no task is left out.
pub proof fn dependencies_are_named_one_by_one(
    tasks: Seq<TaskView>,
    x: Seq<u128>,
    y: Seq<u128>,
    i: int,
)
    requires
        0 <= i < tasks.len(),
        forall|j: int| 0 <= j < i ==> (#[trigger] tasks[j]).id != tasks[i].id,
    ensures
        plan::orders_of(tasks, x + y) == plan::orders_of(tasks, x) + plan::orders_of(tasks, y),
        plan::orders_of(tasks, seq![tasks[i].id]) == seq![text::decimal(tasks[i].order as nat)],
    decreases y.len(),
{
    let none = Seq::<u128>::empty();
    assert(seq![tasks[i].id].drop_last() =~= none);
    assert(plan::orders_of(tasks, none) =~= Seq::empty());
    lemma_first_named(tasks, tasks[i].id, 0);
    assert(plan::orders_of(tasks, seq![tasks[i].id]) =~= seq![
        text::decimal(tasks[i].order as nat),
    ]);
    if y.len() == 0 {
        assert(x + y =~= x);
        assert(plan::orders_of(tasks, x) + plan::orders_of(tasks, y) =~= plan::orders_of(tasks, x));
    } else {
        dependencies_are_named_one_by_one(tasks, x, y.drop_last(), i);
        assert((x + y).drop_last() =~= x + y.drop_last());
        assert((x + y).last() == y.last());
        assert(plan::orders_of(tasks, x + y) =~= plan::orders_of(tasks, x) + plan::orders_of(
            tasks,
            y,
        ));
    }
}

proof fn lemma_sections_hold(tasks: Seq<TaskView>, n: int, i: int)
    requires
        0 <= i < n <= tasks.len(),
    ensures
        holds(plan::task_sections(tasks, n), plan::task_section(tasks, tasks[i])),
    decreases n,
{
    let none = Seq::<char>::empty();
    let before = plan::task_sections(tasks, n - 1);
    let last = plan::task_section(tasks, tasks[n - 1]);
    if i == n - 1 {
        assert(plan::task_sections(tasks, n) =~= before + last + none);
        lemma_holds(before, last, none);
    } else {
        lemma_sections_hold(tasks, n - 1, i);
        lemma_holds_deep(before, plan::task_section(tasks, tasks[i]), none, last);
        assert(plan::task_sections(tasks, n) =~= none + before + last);
    }
}

proof fn lemma_risks_hold(risks: Seq<Seq<char>>, i: int)
    requires
        0 <= i < risks.len(),
    ensures
        holds(plan::risk_lines(risks), "- "@ + risks[i] + "\n"@),
    decreases risks.len(),
{
    let none = Seq::<char>::empty();
    let before = plan::risk_lines(risks.drop_last());
    let last = "- "@ + risks.last() + "\n"@;
    if i == risks.len() - 1 {
        assert(plan::risk_lines(risks) =~= before + last + none);
        lemma_holds(before, last, none);
    } else {
        lemma_risks_hold(risks.drop_last(), i);
        lemma_holds_deep(before, "- "@ + risks[i] + "\n"@, none, last);
        assert(plan::risk_lines(risks) =~= none + before + last);
    }
}

/// The file of a plan begins with its title and its description and has its
/// context, all its risks and all its tasks; each task with its number, title,
/// kind, complexity, what it needs and how it is done. It ends with the times of
/// its creation and its last change.
pub proof fn a_plan_is_written_whole(
    p: PlanView,
    created: Seq<char>,
    updated: Seq<char>,
    i: int,
    k: int,
)
    ensures
        ({
            let file = plan::plan_file(p, created, updated);
            let t = p.tasks[i];
            let needs = if t.dependencies.len() == 0 {
                Seq::empty()
            } else {
                "**Dependencies:** Task(s) "@ + text::joined(
                    plan::orders_of(p.tasks, t.dependencies),
                    ", "@,
                ) + "\n\n"@
            };
            &&& text::begins_with(file, "# "@ + p.title + "\n\n"@ + p.description + "\n\n"@)
            &&& p.context.len() > 0 ==> holds(file, "## Context\n\n"@ + p.context + "\n\n"@)
            &&& 0 <= k < p.risks.len() ==> holds(file, "- "@ + p.risks[k] + "\n"@)
            &&& 0 <= i < p.tasks.len() ==> holds(
                file,
                "### Task "@ + text::decimal(t.order as nat) + ": "@ + t.title + "\n\n**Type:** "@
                    + t.kind_name + " | **Complexity:** "@ + text::decimal(t.complexity as nat)
                    + "★\n\n"@ + needs + "**Implementation Steps:**\n\n"@ + t.description
                    + "\n\n---\n\n"@,
            )
            &&& text::finishes_with(
                file,
                "\n*Plan created: "@ + created + "*\n*Last updated: "@ + updated + "*\n"@,
            )
        }),
{
    let file = plan::plan_file(p, created, updated);
    let head = "# "@ + p.title + "\n\n"@ + p.description + "\n\n"@;
    let context = plan::context_section(p.context);
    let risks = plan::risk_section(p.risks);
    let sections = plan::task_sections(p.tasks, p.tasks.len() as int);
    let tail = "\n*Plan created: "@ + created + "*\n*Last updated: "@ + updated + "*\n"@;
    lemma_file(p, created, updated);
    assert(file.subrange(0, head.len() as int) =~= head);
    assert(file.subrange(file.len() - tail.len(), file.len() as int) =~= tail);
    if 0 <= i < p.tasks.len() {
        lemma_sections_hold(p.tasks, p.tasks.len() as int, i);
        lemma_holds_deep(
            sections,
            plan::task_section(p.tasks, p.tasks[i]),
            head + context + risks + "## Tasks\n\n"@,
            tail,
        );
    }
    let after = "## Tasks\n\n"@ + sections + tail;
    assert(file =~= head + context + risks + after);
    if 0 <= k < p.risks.len() {
        lemma_risks_hold(p.risks, k);
        let line = "- "@ + p.risks[k] + "\n"@;
        lemma_holds_deep(
            plan::risk_lines(p.risks),
            line,
            "## Risks & Considerations\n\n"@,
            "\n"@,
        );
        lemma_holds_deep(risks, line, head + context, after);
    }
    if p.context.len() > 0 {
        lemma_holds(head, context, risks + after);
        assert(file =~= head + context + (risks + after));
    }
}

proof fn lemma_file(p: PlanView, created: Seq<char>, updated: Seq<char>)
    ensures
        plan::plan_file(p, created, updated) == ("# "@ + p.title + "\n\n"@ + p.description
            + "\n\n"@) + plan::context_section(p.context) + plan::risk_section(p.risks)
            + "## Tasks\n\n"@ + plan::task_sections(p.tasks, p.tasks.len() as int) + (
        "\n*Plan created: "@ + created + "*\n*Last updated: "@ + updated + "*\n"@),
{
    let front = ("# "@ + p.title + "\n\n"@ + p.description + "\n\n"@) + plan::context_section(
        p.context,
    ) + plan::risk_section(p.risks) + "## Tasks\n\n"@ + plan::task_sections(
        p.tasks,
        p.tasks.len() as int,
    );
    assert(front + "\n*Plan created: "@ + created + "*\n*Last updated: "@ + updated + "*\n"@
        =~= front + ("\n*Plan created: "@ + created + "*\n*Last updated: "@ + updated + "*\n"@));
}

} // verus!
