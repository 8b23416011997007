//! Plans: what they say, and how their tasks are worked off.

use crate::text;
use crate::tui::message::Timestamp;
use crate::types;
use vstd::prelude::*;
use vstd::string::*;

verus! {

/// How far a plan is.
#[derive(Clone, Copy, PartialEq, Eq, Structural, Debug)]
pub enum PlanStatus {
    Draft,
    PendingApproval,
    Approved,
    InProgress,
    Completed,
    Rejected,
}

/// How far a task is.
#[derive(Clone, Copy, PartialEq, Eq, Structural, Debug)]
pub enum TaskStatus {
    Pending,
    InProgress,
    Completed,
    Failed,
    Skipped,
}

/// A task of a plan.
#[derive(Debug)]
pub struct PlanTask {
    pub id: u128,
    pub order: u64,
    pub title: String,
    pub description: String,
    /// Its kind, as it is shown in lists.
    pub kind: String,
    /// Its kind, as it is written into files.
    pub kind_name: String,
    pub complexity: u8,
    pub dependencies: Vec<u128>,
    pub status: TaskStatus,
    pub notes: Option<String>,
    pub completed_at: Option<Timestamp>,
}

/// What a [`PlanTask`] holds.
pub struct TaskView {
    pub id: u128,
    pub order: u64,
    pub title: Seq<char>,
    pub description: Seq<char>,
    pub kind: Seq<char>,
    pub kind_name: Seq<char>,
    pub complexity: u8,
    pub dependencies: Seq<u128>,
    pub status: TaskStatus,
    pub notes: Option<Seq<char>>,
    pub completed_at: Option<Timestamp>,
}

impl View for PlanTask {
    type V = TaskView;

    open spec fn view(&self) -> TaskView {
        TaskView {
            id: self.id,
            order: self.order,
            title: self.title@,
            description: self.description@,
            kind: self.kind@,
            kind_name: self.kind_name@,
            complexity: self.complexity,
            dependencies: self.dependencies@,
            status: self.status,
            notes: types::opt_text(self.notes),
            completed_at: self.completed_at,
        }
    }
}

/// What the tasks of a list hold.
pub open spec fn task_views(v: Seq<PlanTask>) -> Seq<TaskView> {
    Seq::new(v.len(), |i: int| v[i]@)
}

/// A plan.
#[derive(Debug)]
pub struct PlanDocument {
    pub id: u128,
    pub title: String,
    pub description: String,
    pub context: String,
    pub risks: Vec<String>,
    pub tasks: Vec<PlanTask>,
    pub status: PlanStatus,
}

/// What a [`PlanDocument`] holds.
pub struct PlanView {
    pub id: u128,
    pub title: Seq<char>,
    pub description: Seq<char>,
    pub context: Seq<char>,
    pub risks: Seq<Seq<char>>,
    pub tasks: Seq<TaskView>,
    pub status: PlanStatus,
}

impl View for PlanDocument {
    type V = PlanView;

    open spec fn view(&self) -> PlanView {
        PlanView {
            id: self.id,
            title: self.title@,
            description: self.description@,
            context: self.context@,
            risks: text::texts(self.risks@),
            tasks: task_views(self.tasks@),
            status: self.status,
        }
    }
}

/// What an optional plan holds.
pub open spec fn opt_plan(p: Option<PlanDocument>) -> Option<PlanView> {
    match p {
        Some(p) => Some(p@),
        None => None,
    }
}

/// The first task at or after `from` with the status `status`.
pub open spec fn first_with(tasks: Seq<TaskView>, status: TaskStatus, from: int) -> Option<int>
    decreases tasks.len() - from,
{
    if from < 0 || from >= tasks.len() {
        None
    } else if tasks[from].status == status {
        Some(from)
    } else {
        first_with(tasks, status, from + 1)
    }
}

/// The first task at or after `from` with the identifier `id`.
pub open spec fn first_named(tasks: Seq<TaskView>, id: u128, from: int) -> Option<int>
    decreases tasks.len() - from,
{
    if from < 0 || from >= tasks.len() {
        None
    } else if tasks[from].id == id {
        Some(from)
    } else {
        first_named(tasks, id, from + 1)
    }
}

/// Whether an answer, in lower case, speaks of an error.
pub open spec fn speaks_of_error(lower: Seq<char>) -> bool {
    ||| text::find_from(lower, 0, "error:"@) is Some
    ||| text::find_from(lower, 0, "failed to"@) is Some
    ||| text::find_from(lower, 0, "cannot"@) is Some
    ||| text::find_from(lower, 0, "unable to"@) is Some
    ||| text::find_from(lower, 0, "fatal:"@) is Some
    ||| (text::find_from(lower, 0, "error"@) is Some && text::find_from(lower, 0, "executing"@)
        is Some)
    ||| text::find_from(lower, 0, "compilation error"@) is Some
    ||| text::find_from(lower, 0, "build failed"@) is Some
}

/// Whether an answer, in lower case, speaks of an error.
pub fn has_error(lower: &str) -> (r: bool)
    ensures
        r == speaks_of_error(lower@),
{
    text::contains(lower, "error:") || text::contains(lower, "failed to") || text::contains(
        lower,
        "cannot",
    ) || text::contains(lower, "unable to") || text::contains(lower, "fatal:") || (text::contains(
        lower,
        "error",
    ) && text::contains(lower, "executing")) || text::contains(lower, "compilation error")
        || text::contains(lower, "build failed")
}

/// A task that failed, and why.
pub open spec fn failed(t: TaskView, why: Seq<char>) -> TaskView {
    TaskView { status: TaskStatus::Failed, notes: Some(why), ..t }
}

/// A task that was completed at the time `at`.
pub open spec fn completed(t: TaskView, at: Timestamp) -> TaskView {
    TaskView {
        status: TaskStatus::Completed,
        notes: Some("Task completed successfully"@),
        completed_at: Some(at),
        ..t
    }
}

/// A plan when the answer to its current task came in at the time `at`, in lower
/// case: the task in progress, if there is one, is completed or has failed. The
/// second part says whether it has failed.
pub open spec fn with_answer(p: PlanView, lower: Seq<char>, at: Timestamp) -> (PlanView, bool) {
    match first_with(p.tasks, TaskStatus::InProgress, 0) {
        Some(i) => if speaks_of_error(lower) {
            (
                PlanView {
                    tasks: p.tasks.update(
                        i,
                        failed(
                            p.tasks[i],
                            "Task failed during execution. Error detected in response."@,
                        ),
                    ),
                    ..p
                },
                true,
            )
        } else {
            (PlanView { tasks: p.tasks.update(i, completed(p.tasks[i], at)), ..p }, false)
        },
        None => (p, false),
    }
}

/// A plan when its current task could not be done for `error`.
pub open spec fn with_failure(p: PlanView, error: Seq<char>) -> PlanView {
    match first_with(p.tasks, TaskStatus::InProgress, 0) {
        Some(i) => PlanView {
            tasks: p.tasks.update(i, failed(p.tasks[i], "Task failed: "@ + error)),
            ..p
        },
        None => p,
    }
}

/// The first of the tasks `order[from..]` that is pending.
pub open spec fn first_pending(tasks: Seq<TaskView>, order: Seq<usize>, from: int) -> Option<int>
    decreases order.len() - from,
{
    if from < 0 || from >= order.len() {
        None
    } else if tasks[order[from] as int].status == TaskStatus::Pending {
        Some(order[from] as int)
    } else {
        first_pending(tasks, order, from + 1)
    }
}

/// What the agent is asked for a task.
pub open spec fn task_request(t: TaskView, total: nat) -> Seq<char> {
    "📋 Executing Plan Task #"@ + text::decimal(t.order as nat) + "/"@ + text::decimal(total)
        + "\n\n**"@ + t.title + "**\n\n"@ + t.description + "\n\nPlease complete this "@ + "task."@
}

/// A plan with the first pending task in the order `order` started, and what the
/// agent is asked for that task. Where no task is pending, there is none.
pub open spec fn with_next_started(p: PlanView, order: Seq<usize>) -> Option<
    (PlanView, Seq<char>),
> {
    match first_pending(p.tasks, order, 0) {
        Some(i) => Some(
            (
                PlanView {
                    tasks: match first_named(p.tasks, p.tasks[i].id, 0) {
                        Some(j) => p.tasks.update(
                            j,
                            TaskView { status: TaskStatus::InProgress, ..p.tasks[j] },
                        ),
                        None => p.tasks,
                    },
                    ..p
                },
                task_request(p.tasks[i], p.tasks.len()),
            ),
        ),
        None => None,
    }
}

/// What is said when a plan is done.
pub open spec fn done_text(p: PlanView) -> Seq<char> {
    "✅ Plan '"@ + p.title + "' completed successfully!\nAll "@ + text::decimal(p.tasks.len())
        + " tasks have been executed."@
}

/// What is said when a plan waits for approval.
pub open spec fn ready_text(p: PlanView) -> Seq<char> {
    "✅ Plan '"@ + p.title + "' is ready!\n\n"@ + text::decimal(p.tasks.len())
        + " tasks • Press Ctrl+P to review\n\nActions:\n• Ctrl+A: Approve and execute\n• Ctrl+R: Reject\n• Ctrl+I: Request changes\n• Ctrl+P: View plan"@
}

/// A task in the summary of a plan.
pub open spec fn summary_line(i: int, t: TaskView) -> Seq<char> {
    "  "@ + text::decimal((i + 1) as nat) + ". "@ + t.title + " ("@ + t.kind + ")"@
}

/// The input with which a revision of a plan is asked for.
pub open spec fn revision_text(p: PlanView) -> Seq<char> {
    "Please revise this plan:\n\nCurrent plan '"@ + p.title + "' has "@ + text::decimal(
        p.tasks.len(),
    ) + " tasks:\n"@ + text::joined(
        Seq::new(p.tasks.len(), |i: int| summary_line(i, p.tasks[i])),
        "\n"@,
    ) + "\n\nRequested changes: "@
}

/// The orders of the tasks that `ids` name, those that are there.
pub open spec fn orders_of(tasks: Seq<TaskView>, ids: Seq<u128>) -> Seq<Seq<char>>
    decreases ids.len(),
{
    if ids.len() == 0 {
        Seq::empty()
    } else {
        let before = orders_of(tasks, ids.drop_last());
        match first_named(tasks, ids.last(), 0) {
            Some(i) => before.push(text::decimal(tasks[i].order as nat)),
            None => before,
        }
    }
}

/// What a task needs, in the file that a plan is written to.
pub open spec fn task_needs(tasks: Seq<TaskView>, t: TaskView) -> Seq<char> {
    if t.dependencies.len() == 0 {
        Seq::empty()
    } else {
        "**Dependencies:** Task(s) "@ + text::joined(orders_of(tasks, t.dependencies), ", "@)
            + "\n\n"@
    }
}

/// A task in the file that a plan is written to.
pub open spec fn task_section(tasks: Seq<TaskView>, t: TaskView) -> Seq<char> {
    "### Task "@ + text::decimal(t.order as nat) + ": "@ + t.title + "\n\n**Type:** "@ + t.kind_name
        + " | **Complexity:** "@ + text::decimal(t.complexity as nat) + "★\n\n"@ + task_needs(tasks, t)
        + "**Implementation Steps:**\n\n"@ + t.description + "\n\n---\n\n"@
}

/// The first `n` tasks in the file that a plan is written to.
pub open spec fn task_sections(tasks: Seq<TaskView>, n: int) -> Seq<char>
    decreases n,
{
    if n <= 0 {
        Seq::empty()
    } else {
        task_sections(tasks, n - 1) + task_section(tasks, tasks[n - 1])
    }
}

/// The risks of a plan as a list.
pub open spec fn risk_lines(risks: Seq<Seq<char>>) -> Seq<char>
    decreases risks.len(),
{
    if risks.len() == 0 {
        Seq::empty()
    } else {
        risk_lines(risks.drop_last()) + "- "@ + risks.last() + "\n"@
    }
}

/// The context of a plan, if it has one.
pub open spec fn context_section(context: Seq<char>) -> Seq<char> {
    if context.len() == 0 {
        Seq::empty()
    } else {
        "## Context\n\n"@ + context + "\n\n"@
    }
}

/// The risks of a plan, if it has any.
pub open spec fn risk_section(risks: Seq<Seq<char>>) -> Seq<char> {
    if risks.len() == 0 {
        Seq::empty()
    } else {
        "## Risks & Considerations\n\n"@ + risk_lines(risks) + "\n"@
    }
}

/// The file that a plan is written to. `created` and `updated` are the times of
/// its creation and of its last change, as they are shown.
pub open spec fn plan_file(p: PlanView, created: Seq<char>, updated: Seq<char>) -> Seq<char> {
    "# "@ + p.title + "\n\n"@ + p.description + "\n\n"@ + context_section(p.context)
        + risk_section(p.risks) + "## Tasks\n\n"@
        + task_sections(p.tasks, p.tasks.len() as int) + "\n*Plan created: "@ + created
        + "*\n*Last updated: "@ + updated + "*\n"@
}

fn copy_text(s: &Option<String>) -> (r: Option<String>)
    ensures
        types::opt_text(r) == types::opt_text(*s),
{
    match s {
        Some(x) => Some(x.clone()),
        None => None,
    }
}

fn copy_texts(v: &Vec<String>) -> (r: Vec<String>)
    ensures
        text::texts(r@) == text::texts(v@),
{
    let mut out: Vec<String> = Vec::new();
    let mut i: usize = 0;
    while i < v.len()
        invariant
            i <= v@.len(),
            out@.len() == i,
            forall|k: int| 0 <= k < i ==> (#[trigger] out@[k])@ == v@[k]@,
        decreases v@.len() - i,
    {
        out.push(v[i].clone());
        i = i + 1;
    }
    assert(text::texts(out@) =~= text::texts(v@));
    out
}

impl PlanTask {
    /// A copy.
    pub fn copy(&self) -> (r: Self)
        ensures
            r@ == self@,
    {
        let mut dependencies: Vec<u128> = Vec::new();
        let mut i: usize = 0;
        while i < self.dependencies.len()
            invariant
                i <= self.dependencies@.len(),
                dependencies@ == self.dependencies@.take(i as int),
            decreases self.dependencies@.len() - i,
        {
            dependencies.push(self.dependencies[i]);
            assert(self.dependencies@.take(i as int + 1) =~= self.dependencies@.take(i as int).push(
                self.dependencies@[i as int],
            ));
            i = i + 1;
        }
        assert(self.dependencies@.take(self.dependencies@.len() as int) =~= self.dependencies@);
        PlanTask {
            id: self.id,
            order: self.order,
            title: self.title.clone(),
            description: self.description.clone(),
            kind: self.kind.clone(),
            kind_name: self.kind_name.clone(),
            complexity: self.complexity,
            dependencies,
            status: self.status,
            notes: copy_text(&self.notes),
            completed_at: self.completed_at,
        }
    }
}

impl PlanDocument {
    /// A copy.
    pub fn copy(&self) -> (r: Self)
        ensures
            r@ == self@,
    {
        let mut tasks: Vec<PlanTask> = Vec::new();
        let mut i: usize = 0;
        while i < self.tasks.len()
            invariant
                i <= self.tasks@.len(),
                tasks@.len() == i,
                forall|k: int| 0 <= k < i ==> (#[trigger] tasks@[k])@ == self.tasks@[k]@,
            decreases self.tasks@.len() - i,
        {
            tasks.push(self.tasks[i].copy());
            i = i + 1;
        }
        assert(task_views(tasks@) =~= task_views(self.tasks@));
        PlanDocument {
            id: self.id,
            title: self.title.clone(),
            description: self.description.clone(),
            context: self.context.clone(),
            risks: copy_texts(&self.risks),
            tasks,
            status: self.status,
        }
    }

    /// The plan is approved.
    pub fn approve(&mut self)
        ensures
            *final(self) == (PlanDocument { status: PlanStatus::Approved, ..*old(self) }),
    {
        self.status = PlanStatus::Approved;
    }

    /// The plan is being worked off.
    pub fn start_execution(&mut self)
        ensures
            *final(self) == (PlanDocument { status: PlanStatus::InProgress, ..*old(self) }),
    {
        self.status = PlanStatus::InProgress;
    }

    /// The plan is rejected.
    pub fn reject(&mut self)
        ensures
            *final(self) == (PlanDocument { status: PlanStatus::Rejected, ..*old(self) }),
    {
        self.status = PlanStatus::Rejected;
    }

    /// The plan is done.
    pub fn complete(&mut self)
        ensures
            *final(self) == (PlanDocument { status: PlanStatus::Completed, ..*old(self) }),
    {
        self.status = PlanStatus::Completed;
    }

    fn find_status(&self, status: TaskStatus) -> (r: Option<usize>)
        ensures
            match r {
                Some(i) => i < self.tasks@.len() && first_with(self@.tasks, status, 0) == Some(
                    i as int,
                ),
                None => first_with(self@.tasks, status, 0) is None,
            },
    {
        let mut i: usize = 0;
        while i < self.tasks.len()
            invariant
                i <= self.tasks@.len(),
                first_with(self@.tasks, status, 0) == first_with(self@.tasks, status, i as int),
            decreases self.tasks@.len() - i,
        {
            assert(self@.tasks[i as int] == self.tasks@[i as int]@);
            if self.tasks[i].status == status {
                return Some(i);
            }
            i = i + 1;
        }
        None
    }

    fn find_named(&self, id: u128) -> (r: Option<usize>)
        ensures
            match r {
                Some(i) => i < self.tasks@.len() && first_named(self@.tasks, id, 0) == Some(
                    i as int,
                ),
                None => first_named(self@.tasks, id, 0) is None,
            },
    {
        let mut i: usize = 0;
        while i < self.tasks.len()
            invariant
                i <= self.tasks@.len(),
                first_named(self@.tasks, id, 0) == first_named(self@.tasks, id, i as int),
            decreases self.tasks@.len() - i,
        {
            assert(self@.tasks[i as int] == self.tasks@[i as int]@);
            if self.tasks[i].id == id {
                return Some(i);
            }
            i = i + 1;
        }
        None
    }

    /// Sets the status of the task at `i`, and its notes and its time of
    /// completion where they are given.
    fn mark(
        &mut self,
        i: usize,
        status: TaskStatus,
        notes: Option<String>,
        completed_at: Option<Timestamp>,
    )
        requires
            i < old(self).tasks@.len(),
        ensures
            final(self)@ == (PlanView {
                tasks: old(self)@.tasks.update(
                    i as int,
                    (TaskView {
                        status,
                        notes: match notes {
                            Some(n) => Some(n@),
                            None => old(self)@.tasks[i as int].notes,
                        },
                        completed_at: match completed_at {
                            Some(at) => Some(at),
                            None => old(self)@.tasks[i as int].completed_at,
                        },
                        ..old(self)@.tasks[i as int]
                    }),
                ),
                ..old(self)@
            }),
    {
        let ghost before = self@.tasks;
        let mut t = self.tasks[i].copy();
        t.status = status;
        if let Some(n) = notes {
            t.notes = Some(n);
        }
        if completed_at.is_some() {
            t.completed_at = completed_at;
        }
        let ghost v = t@;
        assert(before[i as int] == self.tasks@[i as int]@);
        self.tasks.set(i, t);
        assert(task_views(self.tasks@) =~= before.update(i as int, v));
    }

    /// Takes the answer to the current task, in lower case, which came at the
    /// time `at`. The result says whether the task has failed.
    pub fn take_answer(&mut self, lower: &str, at: Timestamp) -> (r: bool)
        ensures
            final(self)@ == with_answer(old(self)@, lower@, at).0,
            r == with_answer(old(self)@, lower@, at).1,
    {
        match self.find_status(TaskStatus::InProgress) {
            Some(i) => {
                if has_error(lower) {
                    self.mark(
                        i,
                        TaskStatus::Failed,
                        Some(
                            "Task failed during execution. Error detected in response.".to_string(),
                        ),
                        None,
                    );
                    true
                } else {
                    self.mark(
                        i,
                        TaskStatus::Completed,
                        Some("Task completed successfully".to_string()),
                        Some(at),
                    );
                    false
                }
            },
            None => false,
        }
    }

    /// The current task could not be done for `error`.
    pub fn take_failure(&mut self, error: &str)
        ensures
            final(self)@ == with_failure(old(self)@, error@),
    {
        if let Some(i) = self.find_status(TaskStatus::InProgress) {
            let mut why = "Task failed: ".to_string();
            why.append(error);
            self.mark(i, TaskStatus::Failed, Some(why), None);
        }
    }

    /// Starts the first pending task in the order `order`, and gives what the
    /// agent is asked for it. Where no task is pending, there is none.
    pub fn start_next(&mut self, order: &Vec<usize>) -> (r: Option<String>)
        requires
            forall|k: int| 0 <= k < order@.len() ==> (#[trigger] order@[k]) < old(self).tasks@.len(),
        ensures
            match with_next_started(old(self)@, order@) {
                Some((next, request)) => r is Some && r.unwrap()@ == request && final(self)@
                    == next,
                None => r is None && *final(self) == *old(self),
            },
    {
        let ghost tasks = self@.tasks;
        let mut k: usize = 0;
        while k < order.len()
            invariant
                k <= order@.len(),
                tasks == self@.tasks,
                *self == *old(self),
                forall|j: int| 0 <= j < order@.len() ==> (#[trigger] order@[j]) < self.tasks@.len(),
                first_pending(tasks, order@, 0) == first_pending(tasks, order@, k as int),
            decreases order@.len() - k,
        {
            let i: usize = order[k];
            assert(tasks[i as int] == self.tasks@[i as int]@);
            if self.tasks[i].status == TaskStatus::Pending {
                let message = self.request_for(i);
                let id = self.tasks[i].id;
                if let Some(j) = self.find_named(id) {
                    self.mark(j, TaskStatus::InProgress, None, None);
                }
                return Some(message);
            }
            k = k + 1;
        }
        None
    }

    fn request_for(&self, i: usize) -> (r: String)
        requires
            i < self.tasks@.len(),
        ensures
            r@ == task_request(self@.tasks[i as int], self@.tasks.len()),
    {
        let t = &self.tasks[i];
        assert(self@.tasks[i as int] == t@);
        let order = text::decimal_string(t.order);
        let total = text::decimal_string(self.tasks.len() as u64);
        let mut out = "📋 Executing Plan Task #".to_string();
        out.append(order.as_str());
        out.append("/");
        out.append(total.as_str());
        out.append("\n\n**");
        out.append(t.title.as_str());
        out.append("**\n\n");
        out.append(t.description.as_str());
        out.append("\n\nPlease complete this ");
        out.append("task.");
        out
    }

    /// What is said when the plan is done.
    pub fn done_message(&self) -> (r: String)
        ensures
            r@ == done_text(self@),
    {
        let total = text::decimal_string(self.tasks.len() as u64);
        let mut out = "✅ Plan '".to_string();
        out.append(self.title.as_str());
        out.append("' completed successfully!\nAll ");
        out.append(total.as_str());
        out.append(" tasks have been executed.");
        out
    }

    /// What is said when the plan waits for approval.
    pub fn ready_message(&self) -> (r: String)
        ensures
            r@ == ready_text(self@),
    {
        let total = text::decimal_string(self.tasks.len() as u64);
        let mut out = "✅ Plan '".to_string();
        out.append(self.title.as_str());
        out.append("' is ready!\n\n");
        out.append(total.as_str());
        out.append(
            " tasks • Press Ctrl+P to review\n\nActions:\n• Ctrl+A: Approve and execute\n• Ctrl+R: Reject\n• Ctrl+I: Request changes\n• Ctrl+P: View plan",
        );
        out
    }

    /// The input with which a revision of the plan is asked for.
    pub fn revision_request(&self) -> (r: String)
        ensures
            r@ == revision_text(self@),
    {
        let total = text::decimal_string(self.tasks.len() as u64);
        let mut lines: Vec<String> = Vec::new();
        let mut i: usize = 0;
        let ghost all = Seq::new(self@.tasks.len(), |i: int| summary_line(i, self@.tasks[i]));
        while i < self.tasks.len()
            invariant
                i <= self.tasks@.len(),
                all == Seq::new(self@.tasks.len(), |i: int| summary_line(i, self@.tasks[i])),
                lines@.len() == i,
                forall|k: int| 0 <= k < i ==> (#[trigger] lines@[k])@ == all[k],
            decreases self.tasks@.len() - i,
        {
            let t = &self.tasks[i];
            assert(self@.tasks[i as int] == t@);
            let number = text::decimal_string(i as u64 + 1);
            let mut line = "  ".to_string();
            line.append(number.as_str());
            line.append(". ");
            line.append(t.title.as_str());
            line.append(" (");
            line.append(t.kind.as_str());
            line.append(")");
            assert(line@ == all[i as int]);
            lines.push(line);
            i = i + 1;
        }
        assert(text::texts(lines@) =~= all);
        let list = text::join(&lines, "\n");
        let mut out = "Please revise this plan:\n\nCurrent plan '".to_string();
        out.append(self.title.as_str());
        out.append("' has ");
        out.append(total.as_str());
        out.append(" tasks:\n");
        out.append(list.as_str());
        out.append("\n\nRequested changes: ");
        out
    }

    /// The orders of the tasks that `ids` name.
    fn order_texts(&self, ids: &Vec<u128>) -> (r: Vec<String>)
        ensures
            text::texts(r@) == orders_of(self@.tasks, ids@),
    {
        let mut out: Vec<String> = Vec::new();
        let mut i: usize = 0;
        assert(text::texts(out@) =~= Seq::empty());
        while i < ids.len()
            invariant
                i <= ids@.len(),
                text::texts(out@) == orders_of(self@.tasks, ids@.take(i as int)),
            decreases ids@.len() - i,
        {
            let ghost before = text::texts(out@);
            proof {
                assert(ids@.take(i as int + 1).drop_last() =~= ids@.take(i as int));
            }
            if let Some(j) = self.find_named(ids[i]) {
                assert(self@.tasks[j as int] == self.tasks@[j as int]@);
                let number = text::decimal_string(self.tasks[j].order);
                out.push(number);
                assert(text::texts(out@) =~= before.push(number@));
            }
            i = i + 1;
        }
        assert(ids@.take(ids@.len() as int) =~= ids@);
        out
    }

    fn append_section(&self, out: &mut String, i: usize)
        requires
            i < self.tasks@.len(),
        ensures
            final(out)@ == old(out)@ + task_section(self@.tasks, self@.tasks[i as int]),
    {
        let t = &self.tasks[i];
        assert(self@.tasks[i as int] == t@);
        let order = text::decimal_string(t.order);
        let complexity = text::decimal_string(t.complexity as u64);
        let needs = self.needs_of(i);
        let mut section = "### Task ".to_string();
        section.append(order.as_str());
        section.append(": ");
        section.append(t.title.as_str());
        section.append("\n\n**Type:** ");
        section.append(t.kind_name.as_str());
        section.append(" | **Complexity:** ");
        section.append(complexity.as_str());
        section.append("★\n\n");
        section.append(needs.as_str());
        section.append("**Implementation Steps:**\n\n");
        section.append(t.description.as_str());
        section.append("\n\n---\n\n");
        out.append(section.as_str());
    }

    fn needs_of(&self, i: usize) -> (r: String)
        requires
            i < self.tasks@.len(),
        ensures
            r@ == task_needs(self@.tasks, self@.tasks[i as int]),
    {
        let t = &self.tasks[i];
        assert(self@.tasks[i as int] == t@);
        if t.dependencies.len() == 0 {
            let r = String::new();
            assert(r@ =~= Seq::empty());
            return r;
        }
        let orders = self.order_texts(&t.dependencies);
        let list = text::join(&orders, ", ");
        let mut r = "**Dependencies:** Task(s) ".to_string();
        r.append(list.as_str());
        r.append("\n\n");
        r
    }

    fn append_context(&self, out: &mut String)
        ensures
            final(out)@ == old(out)@ + context_section(self.context@),
    {
        let ghost start = out@;
        if !self.context.as_str().is_empty() {
            out.append("## Context\n\n");
            out.append(self.context.as_str());
            out.append("\n\n");
        }
        assert(out@ =~= start + context_section(self.context@));
    }

    fn append_risks(&self, out: &mut String)
        ensures
            final(out)@ == old(out)@ + risk_section(text::texts(self.risks@)),
    {
        let ghost before = out@;
        let ghost all = text::texts(self.risks@);
        if self.risks.len() == 0 {
            assert(out@ =~= before + risk_section(all));
            return;
        }
        out.append("## Risks & Considerations\n\n");
        let ghost start = out@;
        let mut i: usize = 0;
        assert(start + risk_lines(all.take(0)) =~= start);
        while i < self.risks.len()
            invariant
                i <= self.risks@.len(),
                all == text::texts(self.risks@),
                out@ == start + risk_lines(all.take(i as int)),
            decreases self.risks@.len() - i,
        {
            out.append("- ");
            out.append(self.risks[i].as_str());
            out.append("\n");
            proof {
                let next = all.take(i as int + 1);
                assert(next.drop_last() =~= all.take(i as int));
                assert(next.last() == self.risks@[i as int]@);
                assert(out@ =~= start + risk_lines(next));
            }
            i = i + 1;
        }
        assert(all.take(self.risks@.len() as int) =~= all);
        out.append("\n");
        assert(out@ =~= before + risk_section(all));
    }

    fn append_sections(&self, out: &mut String)
        ensures
            final(out)@ == old(out)@ + task_sections(self@.tasks, self@.tasks.len() as int),
    {
        let ghost start = out@;
        let mut i: usize = 0;
        assert(start + task_sections(self@.tasks, 0) =~= start);
        while i < self.tasks.len()
            invariant
                i <= self.tasks@.len(),
                out@ == start + task_sections(self@.tasks, i as int),
            decreases self.tasks@.len() - i,
        {
            self.append_section(out, i);
            assert(out@ =~= start + task_sections(self@.tasks, i as int + 1));
            i = i + 1;
        }
    }

    /// The file that the plan is written to.
    pub fn to_markdown(&self, created: &str, updated: &str) -> (r: String)
        ensures
            r@ == plan_file(self@, created@, updated@),
    {
        let mut out = "# ".to_string();
        out.append(self.title.as_str());
        out.append("\n\n");
        out.append(self.description.as_str());
        out.append("\n\n");
        self.append_context(&mut out);
        self.append_risks(&mut out);
        out.append("## Tasks\n\n");
        self.append_sections(&mut out);
        out.append("\n*Plan created: ");
        out.append(created);
        out.append("*\n*Last updated: ");
        out.append(updated);
        out.append("*\n");
        out
    }
}

proof fn lemma_first_with(tasks: Seq<TaskView>, status: TaskStatus, from: int)
    requires
        0 <= from,
    ensures
        match first_with(tasks, status, from) {
            Some(i) => from <= i < tasks.len() && tasks[i].status == status && forall|j: int|
                from <= j < i ==> (#[trigger] tasks[j]).status != status,
            None => forall|j: int| from <= j < tasks.len() ==> (#[trigger] tasks[j]).status != status,
        },
    decreases tasks.len() - from,
{
    if from < tasks.len() && tasks[from].status != status {
        lemma_first_with(tasks, status, from + 1);
    }
}

/// When an answer has come in or could not, the task that was in progress is
/// not in progress any more, and no other task has changed.
pub proof fn a_task_is_never_left_in_progress(
    p: PlanView,
    lower: Seq<char>,
    at: Timestamp,
    error: Seq<char>,
)
    ensures
        match first_with(p.tasks, TaskStatus::InProgress, 0) {
            Some(i) => {
                &&& with_answer(p, lower, at).0.tasks[i].status == (if speaks_of_error(lower) {
                    TaskStatus::Failed
                } else {
                    TaskStatus::Completed
                })
                &&& with_failure(p, error).tasks[i].status == TaskStatus::Failed
                &&& forall|j: int|
                    0 <= j < p.tasks.len() && j != i ==> #[trigger] with_answer(
                        p,
                        lower,
                        at,
                    ).0.tasks[j] == p.tasks[j]
                &&& forall|j: int|
                    0 <= j < p.tasks.len() && j != i ==> #[trigger] with_failure(p, error).tasks[j]
                        == p.tasks[j]
            },
            None => with_answer(p, lower, at).0 == p && with_failure(p, error) == p,
        },
{
    lemma_first_with(p.tasks, TaskStatus::InProgress, 0);
}

} // verus!
