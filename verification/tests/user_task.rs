use kernel_core::user_task::{FibonacciFuture, RoundRobinScheduler, UserTask};

fn awake(id: usize) -> UserTask {
    UserTask::new(id)
}

fn asleep(id: usize) -> UserTask {
    let mut task = UserTask::new(id);
    task.mark_sleeping();
    task
}

fn ids(scheduler: &RoundRobinScheduler) -> Vec<(usize, bool)> {
    scheduler.tasks.iter().map(|t| (t.id, t.sleeping)).collect()
}

#[test]
fn task_sleeps_and_wakes() {
    let mut task = UserTask::new(4);
    assert_eq!(task, UserTask { id: 4, sleeping: false });
    assert!(!task.is_sleeping());
    task.mark_sleeping();
    assert!(task.is_sleeping());
    task.mark_ready();
    assert!(!task.is_sleeping());
    assert_eq!(task.id, 4);
}

#[test]
fn tasks_are_served_in_the_order_they_came() {
    let mut scheduler = RoundRobinScheduler::new();
    assert_eq!(scheduler.pop_task(), None);
    scheduler.push_task(awake(1));
    scheduler.push_task(awake(2));
    scheduler.push_task(awake(3));
    assert_eq!(scheduler.pop_task(), Some(awake(1)));
    assert_eq!(scheduler.pop_task(), Some(awake(2)));
    scheduler.push_task(awake(1));
    assert_eq!(scheduler.pop_task(), Some(awake(3)));
    assert_eq!(scheduler.pop_task(), Some(awake(1)));
    assert_eq!(scheduler.pop_task(), None);
}

#[test]
fn sleeping_tasks_are_passed_over_and_go_to_the_end() {
    let mut scheduler = RoundRobinScheduler::new();
    scheduler.push_task(asleep(1));
    scheduler.push_task(asleep(2));
    scheduler.push_task(awake(3));
    scheduler.push_task(awake(4));
    assert_eq!(scheduler.pop_task(), Some(awake(3)));
    assert_eq!(ids(&scheduler), vec![(4, false), (1, true), (2, true)]);
    assert_eq!(scheduler.pop_task(), Some(awake(4)));
    assert_eq!(ids(&scheduler), vec![(1, true), (2, true)]);
}

#[test]
fn poll_loop_keeps_pending_tasks() {
    let mut scheduler = RoundRobinScheduler::new();
    scheduler.push_task(awake(7));
    scheduler.push_task(awake(8));
    let task = scheduler.next_to_poll().unwrap();
    assert_eq!(task, UserTask { id: 7, sleeping: true });
    scheduler.after_poll(task, true);
    assert_eq!(ids(&scheduler), vec![(8, false), (7, false)]);
    let task = scheduler.next_to_poll().unwrap();
    assert_eq!(task.id, 8);
    scheduler.after_poll(task, false);
    assert_eq!(ids(&scheduler), vec![(7, false)]);
    let task = scheduler.next_to_poll().unwrap();
    scheduler.after_poll(task, false);
    assert_eq!(scheduler.next_to_poll(), None);
}

#[test]
fn fibonacci_task_takes_its_steps() {
    let mut task = FibonacciFuture::new(10);
    assert_eq!(task, FibonacciFuture { a: 0, b: 1, i: 0, cnt: 10 });
    let mut trace = Vec::new();
    let mut polls = 0;
    let result = loop {
        polls += 1;
        match task.poll() {
            Some(value) => break value,
            None => trace.push((task.i, task.a, task.b)),
        }
    };
    assert_eq!(result, 55);
    assert_eq!(polls, 11);
    assert_eq!(trace[0], (1, 1, 0));
    assert_eq!(trace[1], (2, 1, 1));
    assert_eq!(trace[4], (5, 5, 3));
    assert_eq!(trace[9], (10, 55, 34));
    assert_eq!(task.poll(), Some(55));
}

#[test]
fn fibonacci_of_nothing_and_of_the_largest() {
    assert_eq!(FibonacciFuture::new(0).poll(), Some(0));
    let mut task = FibonacciFuture::new(93);
    let result = loop {
        if let Some(value) = task.poll() {
            break value;
        }
    };
    assert_eq!(result, 12200160415121876738);
}
