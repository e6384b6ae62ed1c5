use wpass_gui::worker::{step, ChannelPoll, Showcase, Task, TaskDisplayer, TaskState};
use wpass_gui::TaskError;

#[test]
fn should_schedule_successful_task() {
    let mut showcase = Showcase::new();
    let (tx, rx) = std::sync::mpsc::channel();
    let task = Task::new_inner(
        "The answer to the ultimate question of life the universe and everything".to_string(),
        rx,
    );
    showcase.display(task);
    assert_eq!(showcase.length(), 1);
    showcase.poll();
    assert!(matches!(showcase.tasks[0].state, TaskState::Running));
    tx.send(Ok("42")).unwrap();
    showcase.poll();
    assert!(matches!(showcase.tasks[0].state, TaskState::Finished("42")));
}

#[test]
fn should_schedule_failed_task() {
    let mut showcase: Showcase<()> = Showcase::new();
    let (tx, rx) = std::sync::mpsc::channel();
    let task = Task::new_inner(
        "The answer to the ultimate question of life the universe and everything".to_string(),
        rx,
    );
    showcase.display(task);
    tx.send(Err(TaskError::new("Failed".to_string()))).unwrap();
    showcase.poll();
    assert!(matches!(showcase.tasks[0].state, TaskState::Failed(_)));
}

#[test]
fn failure_reason_is_preserved_verbatim() {
    let mut showcase: Showcase<bool> = Showcase::new();
    let (tx, rx) = std::sync::mpsc::channel();
    showcase.display(Task::new_inner("a.7z".to_string(), rx));
    tx.send(Err(TaskError::new("no password matched".to_string())))
        .unwrap();
    showcase.poll();
    match &showcase.tasks[0].state {
        TaskState::Failed(e) => assert_eq!(e.message, "no password matched"),
        _ => panic!("expected Failed"),
    }
}

#[test]
fn disconnected_channel_fails_the_task() {
    let mut showcase: Showcase<bool> = Showcase::new();
    let (tx, rx) = std::sync::mpsc::channel::<Result<bool, TaskError>>();
    showcase.display(Task::new_inner("gone.7z".to_string(), rx));
    drop(tx);
    showcase.poll();
    match &showcase.tasks[0].state {
        TaskState::Failed(e) => assert_eq!(e.message, "Task channel disconnected"),
        _ => panic!("expected Failed after disconnect"),
    }
}

#[test]
fn empty_channel_leaves_task_running() {
    let mut showcase: Showcase<bool> = Showcase::new();
    let (tx, rx) = std::sync::mpsc::channel::<Result<bool, TaskError>>();
    showcase.display(Task::new_inner("slow.7z".to_string(), rx));
    for _ in 0..5 {
        showcase.poll();
        assert!(matches!(showcase.tasks[0].state, TaskState::Running));
    }
    drop(tx);
}

#[test]
fn polling_terminal_tasks_changes_nothing() {
    let mut showcase: Showcase<u32> = Showcase::new();
    let (tx_ok, rx_ok) = std::sync::mpsc::channel();
    let (tx_err, rx_err) = std::sync::mpsc::channel();
    showcase.display(Task::new_inner("ok.7z".to_string(), rx_ok));
    showcase.display(Task::new_inner("bad.7z".to_string(), rx_err));
    tx_ok.send(Ok(7)).unwrap();
    tx_err.send(Err(TaskError::new("boom".to_string()))).unwrap();
    showcase.poll();
    for _ in 0..10 {
        showcase.poll();
        assert!(matches!(showcase.tasks[0].state, TaskState::Finished(7)));
        match &showcase.tasks[1].state {
            TaskState::Failed(e) => assert_eq!(e.message, "boom"),
            _ => panic!("expected Failed to stay Failed"),
        }
        assert_eq!(showcase.tasks[0].description, "ok.7z");
        assert_eq!(showcase.tasks[1].description, "bad.7z");
    }
}

#[test]
fn mixed_outcomes_settle_independently_success_first() {
    let mut showcase: Showcase<bool> = Showcase::new();
    let (tx_a, rx_a) = std::sync::mpsc::channel();
    let (tx_b, rx_b) = std::sync::mpsc::channel();
    showcase.display(Task::new_inner("a.7z".to_string(), rx_a));
    showcase.display(Task::new_inner("b.7z".to_string(), rx_b));
    tx_a.send(Ok(true)).unwrap();
    showcase.poll();
    assert!(matches!(showcase.tasks[0].state, TaskState::Finished(true)));
    assert!(matches!(showcase.tasks[1].state, TaskState::Running));
    tx_b.send(Err(TaskError::new("bad archive".to_string()))).unwrap();
    showcase.poll();
    assert!(matches!(showcase.tasks[0].state, TaskState::Finished(true)));
    assert!(matches!(showcase.tasks[1].state, TaskState::Failed(_)));
}

#[test]
fn mixed_outcomes_settle_independently_failure_first() {
    let mut showcase: Showcase<bool> = Showcase::new();
    let (tx_a, rx_a) = std::sync::mpsc::channel();
    let (tx_b, rx_b) = std::sync::mpsc::channel();
    showcase.display(Task::new_inner("a.7z".to_string(), rx_a));
    showcase.display(Task::new_inner("b.7z".to_string(), rx_b));
    tx_b.send(Err(TaskError::new("bad archive".to_string()))).unwrap();
    showcase.poll();
    assert!(matches!(showcase.tasks[0].state, TaskState::Running));
    assert!(matches!(showcase.tasks[1].state, TaskState::Failed(_)));
    tx_a.send(Ok(false)).unwrap();
    showcase.poll();
    assert!(matches!(showcase.tasks[0].state, TaskState::Finished(false)));
    assert!(matches!(showcase.tasks[1].state, TaskState::Failed(_)));
}

#[test]
fn step_adopts_delivered_results() {
    match step(TaskState::Running, ChannelPoll::Received(Ok(42u32))) {
        TaskState::Finished(v) => assert_eq!(v, 42),
        _ => panic!("expected Finished"),
    }
    match step(
        TaskState::<u32>::Running,
        ChannelPoll::Received(Err(TaskError::new("why".to_string()))),
    ) {
        TaskState::Failed(e) => assert_eq!(e.message, "why"),
        _ => panic!("expected Failed"),
    }
    match step(TaskState::<u32>::Running, ChannelPoll::Empty) {
        TaskState::Running => {}
        _ => panic!("expected Running"),
    }
    match step(TaskState::<u32>::Running, ChannelPoll::Disconnected) {
        TaskState::Failed(e) => assert_eq!(e.message, "Task channel disconnected"),
        _ => panic!("expected Failed"),
    }
    match step(TaskState::Finished(5u32), ChannelPoll::Disconnected) {
        TaskState::Finished(v) => assert_eq!(v, 5),
        _ => panic!("terminal state must not move"),
    }
}
