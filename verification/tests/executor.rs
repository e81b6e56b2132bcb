//! The cooperative executor: fairness, quiescence, and task lifecycle.
use os_practice::keyboard::{add_scancode, ScancodeAdd, ScancodeStream};
use os_practice::task::exec::Exec;
use os_practice::task::simple_exec::SimpleExec;
use os_practice::task::{print_keypresses, Task, TaskBody, TaskPoll};

#[test]
fn immediate_task_completes_in_one_drain_cycle() {
    // A task that is immediately ready completes within one drain cycle
    // without any external wake.
    let mut exec = Exec::new();
    let mut stream = ScancodeStream::new();
    exec.spawn(Task::new(1, TaskBody::Immediate(27)));
    assert_eq!(exec.task_count(), 1);
    exec.run_ready_tasks(&mut stream);
    assert_eq!(exec.task_count(), 0);
}

#[test]
fn pending_task_is_left_quiescent() {
    // A task pending on the bridge with no data stays in the table and is
    // not re-polled until a scancode arrives.
    let mut exec = Exec::new();
    let mut stream = ScancodeStream::new();
    exec.spawn(Task::new(1, print_keypresses()));
    exec.run_ready_tasks(&mut stream);
    assert_eq!(exec.task_count(), 1);
    // Another drain cycle with nothing ready changes nothing.
    exec.run_ready_tasks(&mut stream);
    assert_eq!(exec.task_count(), 1);
    // A scancode arrival wakes exactly the registered task.
    let outcome = add_scancode(&mut stream, 0x1e);
    assert_eq!(outcome, ScancodeAdd::Queued(Some(1)));
    exec.wake(1);
    exec.run_ready_tasks(&mut stream);
    assert_eq!(exec.task_count(), 1);
}

#[test]
fn two_tasks_one_completes_one_stays() {
    // One task resolves immediately, one awaits bridge input: after a run
    // the table holds exactly the pending one.
    let mut exec = Exec::new();
    let mut stream = ScancodeStream::new();
    exec.spawn(Task::new(1, TaskBody::Immediate(42)));
    exec.spawn(Task::new(2, print_keypresses()));
    assert_eq!(exec.task_count(), 2);
    exec.run_ready_tasks(&mut stream);
    assert_eq!(exec.task_count(), 1);
}

#[test]
fn keypress_task_decodes_scancodes_in_order() {
    // Scancode set 1: 0x1e is 'a', 0x30 is 'b' (make codes, no modifiers).
    let mut stream = ScancodeStream::new();
    let mut task = Task::new(5, print_keypresses());
    assert_eq!(add_scancode(&mut stream, 0x1e), ScancodeAdd::Queued(None));
    assert_eq!(add_scancode(&mut stream, 0x9e), ScancodeAdd::Queued(None));
    assert_eq!(add_scancode(&mut stream, 0x30), ScancodeAdd::Queued(None));
    assert_eq!(task.poll(&mut stream, 5), TaskPoll::Pending);
    match &task.body {
        TaskBody::Keypresses(kp) => assert_eq!(kp.printed(), &vec!['a', 'b']),
        _ => panic!("expected the keypress task"),
    }
    // The drained stream left the waker registered.
    assert_eq!(add_scancode(&mut stream, 0x9e), ScancodeAdd::Queued(Some(5)));
}

#[test]
fn immediate_task_polls_done() {
    let mut stream = ScancodeStream::new();
    let mut task = Task::new(3, TaskBody::Immediate(7));
    assert_eq!(task.poll(&mut stream, 3), TaskPoll::Done);
}

#[test]
fn simple_exec_queues_in_spawn_order() {
    let mut exec = SimpleExec::new();
    assert_eq!(exec.task_count(), 0);
    exec.spawn(Task::new(1, TaskBody::Immediate(1)));
    exec.spawn(Task::new(2, TaskBody::Immediate(2)));
    assert_eq!(exec.task_count(), 2);
}

#[test]
fn wake_can_race_with_completion() {
    // An identifier enqueued twice is skipped the second time: the drain
    // cycle must not fail on an identifier whose task is already gone.
    let mut exec = Exec::new();
    let mut stream = ScancodeStream::new();
    exec.spawn(Task::new(9, TaskBody::Immediate(0)));
    exec.wake(9);
    exec.run_ready_tasks(&mut stream);
    assert_eq!(exec.task_count(), 0);
}
