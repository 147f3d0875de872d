use rust_higher_kined_types::custom_types::scheduler::{Scheduler, Task};

fn four_tasks() -> Vec<Task> {
    vec![
        Task::new(1, "A", 5),
        Task::new(2, "B", 8),
        Task::new(3, "C", 10),
        Task::new(4, "D", 3),
    ]
}

#[test]
fn task_new_keeps_its_fields() {
    let task = Task::new(7, "Emergency Task", 9);
    assert_eq!(task.id, 7);
    assert_eq!(task.name, "Emergency Task");
    assert_eq!(task.priority, 9);
    let copy = task.clone();
    assert_eq!(copy.id, 7);
    assert_eq!(copy.name, "Emergency Task");
    assert_eq!(copy.priority, 9);
}

#[test]
fn tasks_run_by_descending_priority() {
    let mut scheduler = Scheduler::new().initialize();
    for task in four_tasks() {
        scheduler = scheduler.add_task(task);
    }
    assert_eq!(scheduler.task_count(), 4);
    let mut running = scheduler.start();
    assert_eq!(running.remaining_tasks(), 4);
    assert!(running.current_task().is_none());
    let mut order: Vec<(u32, String, u8)> = Vec::new();
    for _ in 0..4 {
        assert!(running.has_tasks());
        running = running.execute_next();
        let current = running.current_task().unwrap();
        order.push((current.id, current.name.clone(), current.priority));
    }
    assert_eq!(
        order,
        vec![
            (3, "C".to_string(), 10),
            (2, "B".to_string(), 8),
            (1, "A".to_string(), 5),
            (4, "D".to_string(), 3),
        ]
    );
    assert!(!running.has_tasks());
    assert_eq!(running.current_task().unwrap().name, "D");
    assert_eq!(running.current_task().unwrap().id, 4);
}

#[test]
fn empty_scheduler_executes_nothing() {
    let running = Scheduler::new().initialize().start();
    assert!(!running.has_tasks());
    let running = running.execute_next();
    assert!(running.current_task().is_none());
    assert!(!running.has_tasks());
    assert_eq!(running.remaining_tasks(), 0);
}

#[test]
fn executing_on_an_empty_backlog_keeps_the_current_task() {
    let running = Scheduler::new().initialize().add_task(Task::new(1, "only", 1)).start();
    let running = running.execute_next();
    assert!(!running.has_tasks());
    assert_eq!(running.current_task().unwrap().id, 1);
    let running = running.execute_next().execute_next();
    assert!(!running.has_tasks());
    assert_eq!(running.current_task().unwrap().id, 1);
    assert_eq!(running.current_task().unwrap().name, "only");
}

#[test]
fn equal_priorities_keep_the_order_of_adding() {
    let mut running = Scheduler::new()
        .initialize()
        .add_task(Task::new(1, "first", 4))
        .add_task(Task::new(2, "high", 9))
        .add_task(Task::new(3, "second", 4))
        .add_task(Task::new(4, "low", 0))
        .add_task(Task::new(5, "third", 4))
        .add_task(Task::new(6, "top", 255))
        .add_task(Task::new(7, "also high", 9))
        .start();
    let mut ids: Vec<u32> = Vec::new();
    while running.has_tasks() {
        running = running.execute_next();
        ids.push(running.current_task().unwrap().id);
    }
    assert_eq!(ids, vec![6, 2, 7, 1, 3, 5, 4]);
}

#[test]
fn pause_add_start_orders_the_combined_backlog() {
    let running = Scheduler::new()
        .initialize()
        .add_task(Task::new(5, "Backup Data", 7))
        .add_task(Task::new(6, "Send Notifications", 4))
        .add_task(Task::new(8, "Rotate Logs", 7))
        .start();
    let running = running.execute_next();
    assert_eq!(running.current_task().unwrap().id, 5);
    let paused = running.pause();
    assert_eq!(paused.task_count(), 2);
    let mut running = paused
        .add_task(Task::new(7, "Emergency Task", 9))
        .add_task(Task::new(9, "Late Seven", 7))
        .add_task(Task::new(10, "Idle", 1))
        .start();
    assert_eq!(running.remaining_tasks(), 5);
    assert!(running.current_task().is_none());
    let mut ids: Vec<u32> = Vec::new();
    while running.has_tasks() {
        running = running.execute_next();
        ids.push(running.current_task().unwrap().id);
    }
    assert_eq!(ids, vec![7, 8, 9, 6, 10]);
}

#[test]
fn restart_keeps_the_backlog_order() {
    let mut scheduler = Scheduler::new().initialize();
    for task in four_tasks() {
        scheduler = scheduler.add_task(task);
    }
    let running = scheduler.start().execute_next();
    assert_eq!(running.current_task().unwrap().id, 3);
    let stopped = running.stop();
    assert_eq!(stopped.remaining_tasks(), 3);
    let running = stopped.restart();
    assert!(running.current_task().is_none());
    assert_eq!(running.remaining_tasks(), 3);
    let running = running.execute_next();
    assert_eq!(running.current_task().unwrap().id, 2);
    let running = running.execute_next();
    assert_eq!(running.current_task().unwrap().id, 1);
    let running = running.execute_next();
    assert_eq!(running.current_task().unwrap().id, 4);
    assert!(!running.has_tasks());
}

#[test]
fn reset_forgets_every_task() {
    let mut scheduler = Scheduler::new().initialize();
    for task in four_tasks() {
        scheduler = scheduler.add_task(task);
    }
    let stopped = scheduler.start().execute_next().stop();
    let fresh = stopped.reset();
    assert_eq!(fresh.task_count(), 0);
    assert_eq!(fresh.remaining_tasks(), 0);
    let running = fresh.start().execute_next();
    assert!(running.current_task().is_none());
    assert!(!running.has_tasks());
}

#[test]
fn summary_of_a_scheduler_that_ran_nothing() {
    let stopped = Scheduler::new().initialize().start().stop();
    assert_eq!(
        stopped.get_summary(),
        "📊 Scheduler Summary - Remaining tasks: 0, No tasks executed"
    );
}

#[test]
fn summary_names_the_last_task_and_counts_the_rest() {
    let mut scheduler = Scheduler::new().initialize();
    for task in four_tasks() {
        scheduler = scheduler.add_task(task);
    }
    let stopped = scheduler.start().execute_next().execute_next().stop();
    assert_eq!(
        stopped.get_summary(),
        "📊 Scheduler Summary - Remaining tasks: 2, Last executed: B"
    );
}

#[test]
fn summary_counts_in_decimal() {
    let mut scheduler = Scheduler::new().initialize();
    for id in 0..1205u32 {
        scheduler = scheduler.add_task(Task::new(id, "t", (id % 7) as u8));
    }
    let stopped = scheduler.start().execute_next().stop();
    assert_eq!(stopped.remaining_tasks(), 1204);
    assert_eq!(
        stopped.get_summary(),
        "📊 Scheduler Summary - Remaining tasks: 1204, Last executed: t"
    );
}
