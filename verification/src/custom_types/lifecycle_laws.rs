//! What holds of every scheduler, whatever tasks it was given: laws that relate the
//! transitions of the lifecycle to one another.

use crate::custom_types::priority_order::is_descending;
use crate::custom_types::priority_order::is_execution_order;
use crate::custom_types::priority_order::lemma_execution_order_len;
use crate::custom_types::priority_order::with_priority;
use crate::custom_types::scheduler::SchedulerView;
use crate::custom_types::task::TaskView;
use vstd::prelude::*;

verus! {

/// Adding tasks in turn puts them behind the tasks that wait, in the order in which
/// they were added, and leaves the current task alone.
pub proof fn lemma_add_tasks_appends(base: SchedulerView, added: Seq<TaskView>)
    ensures
        base.add_tasks(added).backlog == base.backlog + added,
        base.add_tasks(added).current == base.current,
    decreases added.len(),
{
    if added.len() == 0 {
        assert(base.backlog + added =~= base.backlog);
    } else {
        lemma_add_tasks_appends(base, added.drop_last());
        assert((base.backlog + added.drop_last()).push(added.last()) =~= base.backlog + added);
    }
}

/// Whatever tasks are added to a new scheduler, after the start as many tasks wait as
/// were added, none stands before a task of higher priority, and the tasks of each
/// priority stand in the order in which they were added.
pub proof fn lemma_start_orders_what_was_added(added: Seq<TaskView>, started: SchedulerView)
    requires
        SchedulerView::empty().initialize().add_tasks(added).starts_as(started),
    ensures
        started.backlog.len() == added.len(),
        is_descending(started.backlog),
        forall|p: u8| #[trigger] with_priority(started.backlog, p) == with_priority(added, p),
        started.backlog.to_multiset() == added.to_multiset(),
        started.current is None,
{
    lemma_add_tasks_appends(SchedulerView::empty(), added);
    assert(SchedulerView::empty().backlog + added =~= added);
    lemma_execution_order_len(started.backlog, added);
}

/// Executing on an empty backlog changes nothing, however often: the current task
/// stays and still no task waits.
pub proof fn lemma_execute_on_empty_backlog(running: SchedulerView, steps: nat)
    requires
        running.backlog.len() == 0,
    ensures
        running.execute_times(steps) == running,
    decreases steps,
{
    if steps > 0 {
        lemma_execute_on_empty_backlog(running, (steps - 1) as nat);
    }
}

/// Executing `steps` times takes the first `steps` tasks of the backlog in their
/// order: the rest waits, and the last one taken is the current task.
pub proof fn lemma_execute_follows_backlog(running: SchedulerView, steps: nat)
    requires
        steps <= running.backlog.len(),
    ensures
        running.execute_times(steps).backlog == running.backlog.skip(steps as int),
        steps > 0 ==> running.execute_times(steps).current == Some(
            running.backlog[steps - 1],
        ),
    decreases steps,
{
    if steps == 0 {
        assert(running.backlog.skip(0) =~= running.backlog);
    } else {
        lemma_execute_follows_backlog(running, (steps - 1) as nat);
        assert(running.backlog.skip(steps - 1).skip(1) =~= running.backlog.skip(steps as int));
    }
}

/// On a backlog in execution order, tasks are executed by descending priority: a task
/// that is executed earlier has no lower priority than one that is executed later,
/// and none that still waits has a higher priority than the one executed last.
pub proof fn lemma_execution_descends(running: SchedulerView, earlier: nat, later: nat)
    requires
        is_descending(running.backlog),
        0 < earlier <= later <= running.backlog.len(),
    ensures
        running.execute_times(earlier).current is Some,
        running.execute_times(later).current is Some,
        running.execute_times(earlier).current->0.priority >= running.execute_times(
            later,
        ).current->0.priority,
        is_descending(running.execute_times(later).backlog),
        forall|i: int|
            0 <= i < running.execute_times(later).backlog.len() ==> (#[trigger] running.execute_times(
                later,
            ).backlog[i]).priority <= running.execute_times(later).current->0.priority,
{
    lemma_execute_follows_backlog(running, earlier);
    lemma_execute_follows_backlog(running, later);
    let rest = running.backlog.skip(later as int);
    assert forall|i: int, j: int| 0 <= i < j < rest.len() implies rest[i].priority
        >= rest[j].priority by {
        assert(running.backlog[later + i].priority >= running.backlog[later + j].priority);
    }
    assert forall|i: int| 0 <= i < rest.len() implies (#[trigger] rest[i]).priority
        <= running.backlog[later - 1].priority by {
        assert(running.backlog[later - 1].priority >= running.backlog[later + i].priority);
    }
    if earlier < later {
        assert(running.backlog[earlier - 1].priority >= running.backlog[later - 1].priority);
    }
}

/// After a pause, tasks added and a new start, the whole backlog is in execution
/// order, the tasks that were left over together with the new ones: none stands
/// before a task of higher priority, and the tasks of each priority are those that
/// were left over, followed by the new ones in the order in which they were added.
pub proof fn lemma_pause_add_start_orders_all(
    running: SchedulerView,
    added: Seq<TaskView>,
    started: SchedulerView,
)
    requires
        running.pause().add_tasks(added).starts_as(started),
    ensures
        is_execution_order(started.backlog, running.backlog + added),
        started.backlog.len() == running.backlog.len() + added.len(),
        is_descending(started.backlog),
        forall|p: u8| #[trigger]
            with_priority(started.backlog, p) == with_priority(running.backlog, p)
                + with_priority(added, p),
        started.current is None,
{
    lemma_add_tasks_appends(running.pause(), added);
    lemma_execution_order_len(started.backlog, running.backlog + added);
    assert forall|p: u8| #[trigger]
        with_priority(started.backlog, p) == with_priority(running.backlog, p) + with_priority(
            added,
            p,
        ) by {
        assert(with_priority(started.backlog, p) == with_priority(running.backlog + added, p));
        Seq::filter_distributes_over_add(
            running.backlog,
            added,
            |t: TaskView| t.priority == p,
        );
    }
}

/// Stopping and restarting keeps the backlog in its order: the same tasks wait, and
/// where a task waits, the next execution takes the task that it would have taken
/// before the stop.
pub proof fn lemma_restart_keeps_order(running: SchedulerView)
    ensures
        running.stop().restart().backlog == running.backlog,
        running.stop().restart().current is None,
        running.stop().restart().execute_next().backlog == running.execute_next().backlog,
        running.backlog.len() > 0 ==> running.stop().restart().execute_next().current
            == running.execute_next().current,
{
}

/// Resetting a stopped scheduler leaves no task, whatever it held.
pub proof fn lemma_reset_forgets_all(stopped: SchedulerView)
    ensures
        stopped.reset() == SchedulerView::empty(),
        stopped.reset().backlog.len() == 0,
        stopped.reset().current is None,
{
}

} // verus!
