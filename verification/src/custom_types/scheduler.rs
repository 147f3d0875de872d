//! A priority-ordered task scheduler with a strict lifecycle.
//!
//! The lifecycle phase is a type parameter of [`Scheduler`]: an operation that is not
//! legal in a phase does not exist on the scheduler in that phase, and every
//! transition consumes the scheduler it starts from, so no scheduler is ever seen in
//! two phases.

use crate::custom_types::decimal::decimal_string;
use crate::custom_types::decimal::decimal_text;
use crate::custom_types::priority_order::is_descending;
use crate::custom_types::priority_order::is_execution_order;
use crate::custom_types::priority_order::lemma_execution_order_len;
use crate::custom_types::priority_order::sort_by_priority;
use crate::custom_types::task::task_views;
pub use crate::custom_types::task::Task;
pub use crate::custom_types::task::TaskView;
use std::marker::PhantomData;
use vstd::prelude::*;
use vstd::string::StringExecFns;

verus! {

/// Phase of a scheduler that was created and not yet initialized.
pub struct Uninitialized;

/// Phase in which tasks are added.
pub struct Initialized;

/// Phase in which tasks are executed.
pub struct Running;

/// Phase in which the outcome is read.
pub struct Stopped;

/// A lifecycle phase, as a type.
pub trait Phase {
    /// Whether a scheduler in this phase holds its backlog in execution order.
    spec fn keeps_order() -> bool;
}

impl Phase for Uninitialized {
    open spec fn keeps_order() -> bool {
        false
    }
}

impl Phase for Initialized {
    open spec fn keeps_order() -> bool {
        false
    }
}

impl Phase for Running {
    open spec fn keeps_order() -> bool {
        true
    }
}

impl Phase for Stopped {
    open spec fn keeps_order() -> bool {
        true
    }
}

/// What a scheduler holds, whatever its phase: the tasks that wait, next to run
/// first, and the task that ran last.
pub struct SchedulerView {
    pub backlog: Seq<TaskView>,
    pub current: Option<TaskView>,
}

impl SchedulerView {
    /// Nothing waits and nothing has run.
    pub open spec fn empty() -> Self {
        SchedulerView { backlog: Seq::empty(), current: None }
    }

    /// Initializing changes nothing of what is held.
    pub open spec fn initialize(self) -> Self {
        self
    }

    /// The same with `task` added behind the tasks that wait.
    pub open spec fn add_task(self, task: TaskView) -> Self {
        SchedulerView { backlog: self.backlog.push(task), current: self.current }
    }

    /// The same after adding each task of `tasks` in turn.
    pub open spec fn add_tasks(self, tasks: Seq<TaskView>) -> Self
        decreases tasks.len(),
    {
        if tasks.len() == 0 {
            self
        } else {
            self.add_tasks(tasks.drop_last()).add_task(tasks.last())
        }
    }

    /// `started` is what a start makes of this: the backlog in execution order, the
    /// current task as it was.
    pub open spec fn starts_as(self, started: Self) -> bool {
        &&& is_execution_order(started.backlog, self.backlog)
        &&& started.current == self.current
    }

    /// The first task that waits has become the current one; where none waits,
    /// nothing has changed.
    pub open spec fn execute_next(self) -> Self {
        if self.backlog.len() == 0 {
            self
        } else {
            SchedulerView { backlog: self.backlog.skip(1), current: Some(self.backlog[0]) }
        }
    }

    /// The same after `steps` executions.
    pub open spec fn execute_times(self, steps: nat) -> Self
        decreases steps,
    {
        if steps == 0 {
            self
        } else {
            self.execute_times((steps - 1) as nat).execute_next()
        }
    }

    /// Stopping changes nothing of what is held.
    pub open spec fn stop(self) -> Self {
        self
    }

    /// Pausing keeps the backlog; no task is current.
    pub open spec fn pause(self) -> Self {
        SchedulerView { backlog: self.backlog, current: None }
    }

    /// Resetting leaves nothing.
    pub open spec fn reset(self) -> Self {
        Self::empty()
    }

    /// Restarting keeps the backlog in its order; no task is current.
    pub open spec fn restart(self) -> Self {
        SchedulerView { backlog: self.backlog, current: None }
    }

    /// The name of the task that ran last.
    pub open spec fn last_name(self) -> Option<Seq<char>> {
        match self.current {
            Some(task) => Some(task.name),
            None => None,
        }
    }
}

/// What a stopped scheduler reports of `remaining` waiting tasks and of the name of
/// the task that ran last.
pub open spec fn summary_text(remaining: nat, last: Option<Seq<char>>) -> Seq<char> {
    "📊 Scheduler Summary - Remaining tasks: "@ + decimal_text(remaining) + ", "@ + match last {
        Some(name) => "Last executed: "@ + name,
        None => "No tasks executed"@,
    }
}

/// The scheduler in phase `State`.
pub struct Scheduler<State: Phase> {
    tasks: Vec<Task>,
    current_task: Option<Task>,
    _state: PhantomData<State>,
}

impl<State: Phase> View for Scheduler<State> {
    type V = SchedulerView;

    closed spec fn view(&self) -> SchedulerView {
        SchedulerView {
            backlog: task_views(self.tasks@),
            current: match self.current_task {
                Some(task) => Some(task@),
                None => None,
            },
        }
    }
}

impl Scheduler<Uninitialized> {
    /// A scheduler in which nothing waits and nothing has run.
    pub fn new() -> (scheduler: Self)
        ensures
            scheduler@ == SchedulerView::empty(),
    {
        let scheduler = Scheduler { tasks: Vec::new(), current_task: None, _state: PhantomData };
        assert(scheduler@.backlog =~= Seq::empty());
        scheduler
    }

    /// Makes the scheduler ready to take tasks.
    pub fn initialize(self) -> (scheduler: Scheduler<Initialized>)
        ensures
            scheduler@ == self@.initialize(),
    {
        Scheduler { tasks: self.tasks, current_task: self.current_task, _state: PhantomData }
    }
}

impl Scheduler<Initialized> {
    /// Adds `task` behind the tasks that wait.
    pub fn add_task(self, task: Task) -> (scheduler: Self)
        ensures
            scheduler@ == self@.add_task(task@),
    {
        let Scheduler { tasks, current_task, _state } = self;
        let mut tasks = tasks;
        tasks.push(task);
        let scheduler = Scheduler { tasks, current_task, _state: PhantomData };
        assert(scheduler@.backlog =~= self@.backlog.push(task@));
        scheduler
    }

    /// Brings the backlog into execution order and starts running.
    pub fn start(self) -> (scheduler: Scheduler<Running>)
        ensures
            self@.starts_as(scheduler@),
            scheduler@.backlog.len() == self@.backlog.len(),
    {
        let tasks = sort_by_priority(self.tasks);
        proof {
            lemma_execution_order_len(task_views(tasks@), task_views(self.tasks@));
        }
        Scheduler { tasks, current_task: self.current_task, _state: PhantomData }
    }

    /// The number of tasks that wait.
    pub fn task_count(&self) -> (count: usize)
        ensures
            count == self@.backlog.len(),
    {
        self.tasks.len()
    }
}

impl Scheduler<Running> {
    /// Executes the first task that waits: it leaves the backlog and becomes the
    /// current task. Where none waits, nothing changes.
    ///
    /// While a scheduler runs, its backlog is in execution order, so the task that is
    /// executed is one of the highest priority among those that wait.
    pub fn execute_next(self) -> (scheduler: Self)
        ensures
            scheduler@ == self@.execute_next(),
            self@.backlog.len() == 0 ==> scheduler@ == self@,
            is_descending(self@.backlog),
            is_descending(scheduler@.backlog),
            forall|i: int|
                0 <= i < self@.backlog.len() ==> (#[trigger] self@.backlog[i]).priority
                    <= self@.backlog[0].priority,
    {
        proof {
            use_type_invariant(&self);
        }
        let ghost before = self@.backlog;
        let Scheduler { tasks, current_task, _state } = self;
        let mut tasks = tasks;
        let mut current_task = current_task;
        if tasks.len() > 0 {
            let task = tasks.remove(0);
            current_task = Some(task);
            proof {
                let after = task_views(tasks@);
                assert(after =~= before.skip(1));
                assert forall|i: int, j: int| 0 <= i < j < after.len() implies after[i].priority
                    >= after[j].priority by {
                    assert(before[i + 1].priority >= before[j + 1].priority);
                }
            }
        }
        Scheduler { tasks, current_task, _state: PhantomData }
    }

    /// The task that ran last, if any has run since the backlog was last started.
    pub fn current_task(&self) -> (current: Option<&Task>)
        ensures
            match current {
                Some(task) => self@.current == Some(task@),
                None => self@.current is None,
            },
    {
        self.current_task.as_ref()
    }

    /// Whether a task waits.
    pub fn has_tasks(&self) -> (waiting: bool)
        ensures
            waiting == (self@.backlog.len() > 0),
    {
        self.tasks.len() > 0
    }

    /// Stops running.
    pub fn stop(self) -> (scheduler: Scheduler<Stopped>)
        ensures
            scheduler@ == self@.stop(),
            is_descending(scheduler@.backlog),
    {
        proof {
            use_type_invariant(&self);
        }
        Scheduler { tasks: self.tasks, current_task: self.current_task, _state: PhantomData }
    }

    /// Goes back to taking tasks: the backlog stays, no task is current.
    pub fn pause(self) -> (scheduler: Scheduler<Initialized>)
        ensures
            scheduler@ == self@.pause(),
    {
        Scheduler { tasks: self.tasks, current_task: None, _state: PhantomData }
    }
}

impl Scheduler<Stopped> {
    /// A line of text that tells how many tasks still wait and which task ran last.
    pub fn get_summary(&self) -> (summary: String)
        ensures
            summary@ == summary_text(self@.backlog.len(), self@.last_name()),
    {
        let mut summary = String::from_str("📊 Scheduler Summary - Remaining tasks: ");
        let count = decimal_string(self.tasks.len());
        summary.append(count.as_str());
        summary.append(", ");
        match &self.current_task {
            Some(task) => {
                summary.append("Last executed: ");
                summary.append(task.name.as_str());
            },
            None => {
                summary.append("No tasks executed");
            },
        }
        assert(summary@ =~= summary_text(self@.backlog.len(), self@.last_name()));
        summary
    }

    /// Forgets every task and goes back to taking tasks.
    pub fn reset(self) -> (scheduler: Scheduler<Initialized>)
        ensures
            scheduler@ == self@.reset(),
            scheduler@.backlog.len() == 0,
            scheduler@.current is None,
    {
        let scheduler = Scheduler { tasks: Vec::new(), current_task: None, _state: PhantomData };
        assert(scheduler@.backlog =~= Seq::empty());
        scheduler
    }

    /// Runs again on the backlog as it stands: the order is kept, no task is current.
    pub fn restart(self) -> (scheduler: Scheduler<Running>)
        ensures
            scheduler@ == self@.restart(),
            is_descending(scheduler@.backlog),
    {
        proof {
            use_type_invariant(&self);
        }
        Scheduler { tasks: self.tasks, current_task: None, _state: PhantomData }
    }
}

impl<State: Phase> Scheduler<State> {
    /// While a scheduler runs, and when it has stopped, no task of its backlog stands
    /// before one of higher priority.
    #[verifier::type_invariant]
    spec fn ordered_while_running(self) -> bool {
        State::keeps_order() ==> is_descending(task_views(self.tasks@))
    }

    /// The number of tasks that wait, in whatever phase.
    pub fn remaining_tasks(&self) -> (count: usize)
        ensures
            count == self@.backlog.len(),
    {
        self.tasks.len()
    }
}

/// Walks a scheduler through its phases, each step one that its phase allows:
/// initialized, started, one execution, stopped, restarted and stopped again.
pub fn demonstrate_type_safety() -> (stopped: Scheduler<Stopped>)
    ensures
        stopped@ == SchedulerView::empty(),
{
    let scheduler = Scheduler::new();
    let initialized = scheduler.initialize();
    let running = initialized.start();
    let running = running.execute_next();
    let stopped = running.stop();
    let running = stopped.restart();
    let stopped = running.stop();
    assert(stopped@.backlog =~= Seq::empty());
    stopped
}

} // verus!
