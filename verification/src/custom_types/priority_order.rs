//! The order in which a backlog is executed: descending priority, and among tasks
//! of equal priority the order in which they were added.

use crate::custom_types::task::task_views;
use crate::custom_types::task::Task;
use crate::custom_types::task::TaskView;
use vstd::prelude::*;
use vstd::seq_lib::to_multiset_insert;
use vstd::seq_lib::to_multiset_len;

verus! {

/// No task stands before one of higher priority.
pub open spec fn is_descending(s: Seq<TaskView>) -> bool {
    forall|i: int, j: int| 0 <= i < j < s.len() ==> s[i].priority >= s[j].priority
}

/// The tasks of `s` whose priority is `p`, in the order in which they stand in `s`.
pub open spec fn with_priority(s: Seq<TaskView>, p: u8) -> Seq<TaskView> {
    s.filter(|t: TaskView| t.priority == p)
}

/// `ordered` is `added` brought into execution order: the same tasks, by descending
/// priority, and for every priority the tasks of that priority in the order in which
/// they stand in `added`.
pub open spec fn is_execution_order(ordered: Seq<TaskView>, added: Seq<TaskView>) -> bool {
    &&& ordered.to_multiset() == added.to_multiset()
    &&& is_descending(ordered)
    &&& forall|p: u8| #[trigger] with_priority(ordered, p) == with_priority(added, p)
}

/// Splitting a sequence at `at` splits the tasks of each priority.
pub proof fn lemma_with_priority_split(s: Seq<TaskView>, at: int, p: u8)
    requires
        0 <= at <= s.len(),
    ensures
        with_priority(s, p) == with_priority(s.take(at), p) + with_priority(s.skip(at), p),
{
    assert(s =~= s.take(at) + s.skip(at));
    Seq::filter_distributes_over_add(s.take(at), s.skip(at), |t: TaskView| t.priority == p);
}

/// The tasks of priority `p` in a sequence of one task.
pub proof fn lemma_with_priority_single(t: TaskView, p: u8)
    ensures
        with_priority(seq![t], p) == if t.priority == p {
            seq![t]
        } else {
            Seq::<TaskView>::empty()
        },
{
    reveal_with_fuel(Seq::filter, 2);
    let pred = |t: TaskView| t.priority == p;
    assert(seq![t].drop_last() =~= Seq::<TaskView>::empty());
    assert(seq![t].last() == t);
    assert(with_priority(seq![t], p) =~= if t.priority == p {
        seq![t]
    } else {
        Seq::<TaskView>::empty()
    });
}

/// A sequence that holds no task of priority `p` has none to show.
pub proof fn lemma_with_priority_none(s: Seq<TaskView>, p: u8)
    requires
        forall|i: int| 0 <= i < s.len() ==> s[i].priority != p,
    ensures
        with_priority(s, p) == Seq::<TaskView>::empty(),
{
    let pred = |t: TaskView| t.priority == p;
    assert(s.all(|t: TaskView| !pred(t)));
    s.lemma_all_neg_filter_empty(pred);
    assert(with_priority(s, p) =~= Seq::<TaskView>::empty());
}

/// Inserting a task puts it, among the tasks of its priority, between those that
/// stand before the place and those that stand after it; the other priorities keep
/// their tasks.
pub proof fn lemma_with_priority_insert(s: Seq<TaskView>, at: int, t: TaskView, p: u8)
    requires
        0 <= at <= s.len(),
    ensures
        with_priority(s.insert(at, t), p) == with_priority(s.take(at), p) + with_priority(
            seq![t],
            p,
        ) + with_priority(s.skip(at), p),
{
    let pred = |t: TaskView| t.priority == p;
    assert(s.insert(at, t) =~= (s.take(at) + seq![t]) + s.skip(at));
    Seq::filter_distributes_over_add(s.take(at) + seq![t], s.skip(at), pred);
    Seq::filter_distributes_over_add(s.take(at), seq![t], pred);
}

/// After adding a task behind the others, the tasks of its priority end with it, and
/// the other priorities keep their tasks.
pub proof fn lemma_with_priority_push(s: Seq<TaskView>, t: TaskView, p: u8)
    ensures
        with_priority(s.push(t), p) == if t.priority == p {
            with_priority(s, p).push(t)
        } else {
            with_priority(s, p)
        },
{
    s.lemma_filter_push(t, |t: TaskView| t.priority == p);
}

/// Every task of a sequence stands among the tasks of its priority.
pub proof fn lemma_with_priority_holds(s: Seq<TaskView>, i: int)
    requires
        0 <= i < s.len(),
    ensures
        with_priority(s, s[i].priority).contains(s[i]),
        with_priority(s, s[i].priority).len() > 0,
{
    let p = s[i].priority;
    s.lemma_filter_contains(|t: TaskView| t.priority == p, i);
}

/// Every task among those of priority `p` has priority `p` and stands in the
/// sequence.
pub proof fn lemma_with_priority_found(s: Seq<TaskView>, p: u8, k: int)
    requires
        0 <= k < with_priority(s, p).len(),
    ensures
        with_priority(s, p)[k].priority == p,
        s.contains(with_priority(s, p)[k]),
{
    let pred = |t: TaskView| t.priority == p;
    s.lemma_filter_pred(pred, k);
    assert(with_priority(s, p).contains(with_priority(s, p)[k]));
    s.lemma_filter_contains_rev(pred, with_priority(s, p)[k]);
}

/// A backlog in execution order is as long as the backlog that was added.
pub proof fn lemma_execution_order_len(ordered: Seq<TaskView>, added: Seq<TaskView>)
    requires
        is_execution_order(ordered, added),
    ensures
        ordered.len() == added.len(),
{
    to_multiset_len(ordered);
    to_multiset_len(added);
}

/// The execution order of a backlog is determined: two sequences that hold, for
/// every priority, the same tasks in the same order, and that both descend in
/// priority, are the same sequence.
pub proof fn lemma_descending_order_unique(a: Seq<TaskView>, b: Seq<TaskView>)
    requires
        is_descending(a),
        is_descending(b),
        forall|p: u8| #[trigger] with_priority(a, p) == with_priority(b, p),
    ensures
        a == b,
    decreases a.len(),
{
    if a.len() == 0 {
        if b.len() > 0 {
            lemma_with_priority_holds(b, 0);
            lemma_with_priority_none(a, b[0].priority);
            assert(with_priority(a, b[0].priority) == with_priority(b, b[0].priority));
        }
        assert(a =~= b);
    } else if b.len() == 0 {
        lemma_with_priority_holds(a, 0);
        lemma_with_priority_none(b, a[0].priority);
        assert(with_priority(a, a[0].priority) == with_priority(b, a[0].priority));
    } else {
        let x = a.last();
        let y = b.last();
        // Each of the two last tasks has the least priority of its sequence, and a
        // task of that priority stands in the other sequence.
        assert(x.priority <= y.priority) by {
            lemma_with_priority_holds(b, b.len() - 1);
            assert(with_priority(a, y.priority) == with_priority(b, y.priority));
            lemma_with_priority_found(a, y.priority, 0);
            let found = with_priority(a, y.priority)[0];
            let k = choose|k: int| 0 <= k < a.len() && a[k] == found;
            assert(a[k].priority >= a[a.len() - 1].priority);
        }
        assert(y.priority <= x.priority) by {
            lemma_with_priority_holds(a, a.len() - 1);
            assert(with_priority(a, x.priority) == with_priority(b, x.priority));
            lemma_with_priority_found(b, x.priority, 0);
            let found = with_priority(b, x.priority)[0];
            let k = choose|k: int| 0 <= k < b.len() && b[k] == found;
            assert(b[k].priority >= b[b.len() - 1].priority);
        }
        let m = x.priority;
        let a0 = a.drop_last();
        let b0 = b.drop_last();
        assert(a =~= a0.push(x));
        assert(b =~= b0.push(y));
        lemma_with_priority_push(a0, x, m);
        lemma_with_priority_push(b0, y, m);
        assert(with_priority(a, m) == with_priority(b, m));
        assert(x == y) by {
            assert(with_priority(a0, m).push(x).last() == x);
            assert(with_priority(b0, m).push(y).last() == y);
        }
        assert forall|p: u8| #[trigger] with_priority(a0, p) == with_priority(b0, p) by {
            lemma_with_priority_push(a0, x, p);
            lemma_with_priority_push(b0, y, p);
            assert(with_priority(a, p) == with_priority(b, p));
            if p == m {
                assert(with_priority(a0, p) =~= with_priority(a0, p).push(x).drop_last());
                assert(with_priority(b0, p) =~= with_priority(b0, p).push(y).drop_last());
            }
        }
        assert(is_descending(a0)) by {
            assert forall|i: int, j: int| 0 <= i < j < a0.len() implies a0[i].priority
                >= a0[j].priority by {
                assert(a[i].priority >= a[j].priority);
            }
        }
        assert(is_descending(b0)) by {
            assert forall|i: int, j: int| 0 <= i < j < b0.len() implies b0[i].priority
                >= b0[j].priority by {
                assert(b[i].priority >= b[j].priority);
            }
        }
        lemma_descending_order_unique(a0, b0);
    }
}

/// A backlog has one execution order only.
pub proof fn lemma_execution_order_unique(
    first: Seq<TaskView>,
    second: Seq<TaskView>,
    added: Seq<TaskView>,
)
    requires
        is_execution_order(first, added),
        is_execution_order(second, added),
    ensures
        first == second,
{
    assert forall|p: u8| #[trigger] with_priority(first, p) == with_priority(second, p) by {
        assert(with_priority(first, p) == with_priority(added, p));
        assert(with_priority(second, p) == with_priority(added, p));
    }
    lemma_descending_order_unique(first, second);
}

/// Brings the tasks into execution order.
pub fn sort_by_priority(tasks: Vec<Task>) -> (ordered: Vec<Task>)
    ensures
        is_execution_order(task_views(ordered@), task_views(tasks@)),
{
    let ghost added = task_views(tasks@);
    let mut rest = tasks;
    let mut ordered: Vec<Task> = Vec::new();
    proof {
        assert(added.skip(rest@.len() as int) =~= Seq::<TaskView>::empty());
        assert(task_views(ordered@) =~= Seq::<TaskView>::empty());
    }
    while rest.len() > 0
        invariant
            rest@.len() <= added.len(),
            task_views(rest@) == added.take(rest@.len() as int),
            is_execution_order(task_views(ordered@), added.skip(rest@.len() as int)),
        decreases rest@.len(),
    {
        let ghost before = task_views(ordered@);
        let ghost m = rest@.len() as int;
        let ghost earlier = rest@;
        let task = rest.pop().unwrap();
        assert(task@ == added[m - 1]) by {
            assert(task_views(earlier)[m - 1] == task@);
        }
        let mut at: usize = 0;
        while at < ordered.len() && ordered[at].priority > task.priority
            invariant
                at <= ordered@.len(),
                forall|i: int| 0 <= i < at ==> ordered@[i].priority > task.priority,
            decreases ordered@.len() - at,
        {
            at += 1;
        }
        ordered.insert(at, task);
        proof {
            let t = task@;
            let after = task_views(ordered@);
            assert(after =~= before.insert(at as int, t));
            assert(task_views(rest@) =~= added.take(m - 1));
            assert(added.skip(m - 1) =~= seq![t] + added.skip(m));
            assert(after.to_multiset() == added.skip(m - 1).to_multiset()) by {
                to_multiset_insert(before, at as int, t);
                to_multiset_insert(added.skip(m), 0, t);
                assert(added.skip(m).insert(0, t) =~= added.skip(m - 1));
            }
            assert forall|i: int| 0 <= i < before.take(at as int).len() implies before.take(
                at as int,
            )[i].priority != t.priority by {}
            assert forall|i: int, j: int| 0 <= i < j < after.len() implies after[i].priority
                >= after[j].priority by {
                let bi = if i < at { i } else { i - 1 };
                let bj = if j < at { j } else { j - 1 };
                if i != at && j != at {
                    assert(before[bi].priority >= before[bj].priority);
                } else if i == at {
                    assert(before[at as int].priority <= t.priority);
                    assert(bj == at || before[at as int].priority >= before[bj].priority);
                } else {
                    assert(before[bi].priority > t.priority);
                }
            }
            assert forall|p: u8| #[trigger]
                with_priority(after, p) == with_priority(added.skip(m - 1), p) by {
                lemma_with_priority_insert(before, at as int, t, p);
                lemma_with_priority_split(before, at as int, p);
                lemma_with_priority_single(t, p);
                Seq::filter_distributes_over_add(
                    seq![t],
                    added.skip(m),
                    |t: TaskView| t.priority == p,
                );
                assert(with_priority(before, p) == with_priority(added.skip(m), p));
                if t.priority == p {
                    lemma_with_priority_none(before.take(at as int), p);
                    assert(with_priority(after, p) =~= seq![t] + with_priority(before, p));
                } else {
                    assert(with_priority(after, p) =~= with_priority(before, p));
                    assert(with_priority(added.skip(m - 1), p) =~= with_priority(
                        added.skip(m),
                        p,
                    ));
                }
            }
        }
    }
    proof {
        assert(added.skip(0) =~= added);
    }
    ordered
}

} // verus!
