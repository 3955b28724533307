//! Tests for the process scheduler.

use kewve_os::process::ProcessControlBlock;
use kewve_os::process::ProcessState;
use kewve_os::process::Scheduler;

fn scheduler_with(names: &[(u64, &str)]) -> Scheduler {
    let mut s = Scheduler::new();
    for (id, name) in names {
        s.add_process(ProcessControlBlock::new(*id, String::from(*name)));
    }
    s
}

#[test]
fn round_robin_is_cyclic() {
    let mut s = scheduler_with(&[(1, "A"), (2, "B"), (3, "C")]);
    assert_eq!(s.schedule().unwrap().name, "A");
    assert_eq!(s.schedule().unwrap().name, "B");
    assert_eq!(s.schedule().unwrap().name, "C");
    // The fourth selection wraps around to A: cyclic fairness.
    assert_eq!(s.schedule().unwrap().name, "A");
}

#[test]
fn blocked_process_leaves_the_rotation_until_unblocked() {
    let mut s = scheduler_with(&[(1, "A"), (2, "B"), (3, "C")]);
    assert_eq!(s.schedule().unwrap().id, 1);
    assert_eq!(s.schedule().unwrap().id, 2);
    // B is current; block it.
    s.block_current();
    assert_eq!(s.current_process().map(|p| p.id), None);

    // B is out of every following rotation: C, A, C, A, ...
    assert_eq!(s.schedule().unwrap().id, 3);
    assert_eq!(s.schedule().unwrap().id, 1);
    assert_eq!(s.schedule().unwrap().id, 3);

    // After unblocking, B re-enters at the tail, not the head: the rotation
    // was C, A at this point, so B runs only after both.
    s.unblock(2);
    assert_eq!(s.schedule().unwrap().id, 1);
    assert_eq!(s.schedule().unwrap().id, 3);
    assert_eq!(s.schedule().unwrap().id, 2);
}

#[test]
fn remove_of_absent_id_is_a_no_op() {
    let mut s = scheduler_with(&[(1, "A"), (2, "B")]);
    assert!(s.remove_process(77).is_none());
    // The queue and table are untouched: rotation continues as before.
    assert_eq!(s.schedule().unwrap().id, 1);
    assert_eq!(s.schedule().unwrap().id, 2);
    assert_eq!(s.schedule().unwrap().id, 1);
}

#[test]
fn remove_takes_the_process_out_of_rotation() {
    let mut s = scheduler_with(&[(1, "A"), (2, "B"), (3, "C")]);
    let removed = s.remove_process(2).unwrap();
    assert_eq!(removed.id, 2);
    assert_eq!(removed.name, "B");
    assert_eq!(s.schedule().unwrap().id, 1);
    assert_eq!(s.schedule().unwrap().id, 3);
    assert_eq!(s.schedule().unwrap().id, 1);
    assert!(s.remove_process(2).is_none());
}

#[test]
fn empty_scheduler_has_nothing_to_run() {
    let mut s = Scheduler::new();
    assert!(s.schedule().is_none());
    assert!(s.current_process().is_none());
    // Blocking with no current process changes nothing.
    s.block_current();
    assert!(s.schedule().is_none());
}

#[test]
fn unblock_of_non_blocked_process_is_a_no_op() {
    let mut s = scheduler_with(&[(1, "A")]);
    // A is Ready, not Blocked: unblock must not duplicate it in the queue.
    s.unblock(1);
    assert_eq!(s.schedule().unwrap().id, 1);
    assert_eq!(s.schedule().unwrap().id, 1);
    // Unknown id: no-op.
    s.unblock(99);
    assert_eq!(s.schedule().unwrap().id, 1);
}

#[test]
fn current_process_tracks_selection() {
    let mut s = scheduler_with(&[(5, "only")]);
    assert!(s.current_process().is_none());
    let chosen = s.schedule().unwrap();
    assert_eq!(chosen.id, 5);
    let current = s.current_process().unwrap();
    assert_eq!(current.id, 5);
    assert_eq!(current.name, "only");
    // Removing the current process leaves a dangling selection that reads
    // back as no current process.
    s.remove_process(5);
    assert!(s.current_process().is_none());
}

#[test]
fn query_surface_reads_the_table() {
    let mut s = scheduler_with(&[(3, "C"), (1, "A"), (2, "B")]);
    // Enumeration: every identifier exactly once, in increasing order.
    assert_eq!(s.process_ids(), vec![1, 2, 3]);
    // Single-record fetch.
    assert_eq!(s.get_process(2).unwrap().name, "B");
    assert!(s.get_process(9).is_none());
    // Currently running identifier.
    assert_eq!(s.current_pid(), None);
    s.schedule();
    assert_eq!(s.current_pid(), Some(3));
    s.remove_process(1);
    assert_eq!(s.process_ids(), vec![2, 3]);
}

#[test]
fn new_process_control_block_is_ready() {
    let pcb = ProcessControlBlock::new(9, String::from("init"));
    assert_eq!(pcb.id, 9);
    assert_eq!(pcb.name, "init");
    assert_eq!(pcb.state(), ProcessState::Ready);
    assert_eq!(pcb.priority, 0);
    assert_eq!(pcb.stack_pointer, None);
    assert_eq!(pcb.program_counter, None);
    assert_eq!(pcb.registers, [0u64; 16]);
}

#[test]
fn set_state_changes_only_the_state() {
    let mut pcb = ProcessControlBlock::new(4, String::from("worker"));
    pcb.set_state(ProcessState::Blocked);
    assert_eq!(pcb.state(), ProcessState::Blocked);
    assert_eq!(pcb.id, 4);
    assert_eq!(pcb.name, "worker");
    pcb.set_state(ProcessState::Terminated);
    assert_eq!(pcb.state(), ProcessState::Terminated);
}
