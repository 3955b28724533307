//! Process management: process control records, the process table, and the
//! cooperative round-robin scheduler.
//!
//! The scheduler owns a table of process records keyed by identifier and a
//! ready queue of identifiers. The governing invariant: an identifier is in
//! the ready queue exactly when its record's state is `Ready`, the queue
//! holds no duplicates, and every record is stored under its own identifier.
//! Selection is FIFO from the head with re-append at the tail, so rotation is
//! fair; blocked processes leave the queue and re-enter at the tail when
//! unblocked.

use std::collections::BTreeMap;

use vstd::prelude::*;
use vstd::std_specs::iter::IteratorSpec;

verus! {

broadcast use vstd::std_specs::btree::group_btree_axioms, vstd::laws_cmp::group_laws_cmp;

/// Process identifier.
pub type ProcessId = u64;

/// Process states.
#[derive(Debug, Clone, Copy, PartialEq, Eq, Structural)]
pub enum ProcessState {
    Running,
    Ready,
    Blocked,
    Terminated,
}

/// Process control block: one logical process's bookkeeping record.
#[derive(Debug)]
pub struct ProcessControlBlock {
    pub id: ProcessId,
    pub name: String,
    pub state: ProcessState,
    pub priority: u8,
    pub stack_pointer: Option<u64>,
    pub program_counter: Option<u64>,
    /// Saved general-purpose registers, used once real context switching exists.
    pub registers: [u64; 16],
}

/// The record with its state replaced.
pub open spec fn with_state(p: ProcessControlBlock, state: ProcessState) -> ProcessControlBlock {
    ProcessControlBlock { state, ..p }
}

impl Clone for ProcessControlBlock {
    fn clone(&self) -> (r: Self)
        ensures
            r == *self,
    {
        ProcessControlBlock {
            id: self.id,
            name: self.name.clone(),
            state: self.state,
            priority: self.priority,
            stack_pointer: self.stack_pointer,
            program_counter: self.program_counter,
            registers: self.registers,
        }
    }
}

impl ProcessControlBlock {
    /// Create a new process control block, in state `Ready`, with priority 0,
    /// no saved context, and zeroed registers.
    pub fn new(id: ProcessId, name: String) -> (r: Self)
        ensures
            r.id == id,
            r.name == name,
            r.state == ProcessState::Ready,
            r.priority == 0,
            r.stack_pointer is None,
            r.program_counter is None,
            forall|i: int| 0 <= i < 16 ==> r.registers@[i] == 0,
    {
        Self {
            id,
            name,
            state: ProcessState::Ready,
            priority: 0,
            stack_pointer: None,
            program_counter: None,
            registers: [0; 16],
        }
    }

    /// Set the process state.
    pub fn set_state(&mut self, state: ProcessState)
        ensures
            *final(self) == with_state(*old(self), state),
    {
        self.state = state;
    }

    /// Get the process state.
    pub fn state(&self) -> (r: ProcessState)
        ensures
            r == self.state,
    {
        self.state
    }
}

/// Process scheduler: the process table, the ready queue, and the identifier
/// of the currently selected process.
pub struct Scheduler {
    processes: BTreeMap<ProcessId, ProcessControlBlock>,
    ready_queue: Vec<ProcessId>,
    current_process: Option<ProcessId>,
}

impl Scheduler {
    /// The process table as a map from identifier to record.
    pub closed spec fn table(self) -> Map<ProcessId, ProcessControlBlock> {
        self.processes@
    }

    /// The ready queue as a sequence of identifiers, head first.
    pub closed spec fn queue(self) -> Seq<ProcessId> {
        self.ready_queue@
    }

    /// The currently selected process, if any.
    pub closed spec fn current(self) -> Option<ProcessId> {
        self.current_process
    }

    /// The scheduler's invariant:
    /// - every queued identifier names a `Ready` record in the table;
    /// - the queue holds no duplicates;
    /// - every record is stored under its own identifier;
    /// - every `Ready` record's identifier is somewhere in the queue.
    pub open spec fn wf(self) -> bool {
        &&& forall|i: int|
            0 <= i < self.queue().len() ==> self.table().contains_key(#[trigger] self.queue()[i])
                && self.table()[self.queue()[i]].state == ProcessState::Ready
        &&& forall|i: int, j: int|
            0 <= i < j < self.queue().len() ==> self.queue()[i] != self.queue()[j]
        &&& forall|pid: ProcessId|
            #[trigger] self.table().contains_key(pid) ==> self.table()[pid].id == pid
        &&& forall|pid: ProcessId|
            #[trigger] self.table().contains_key(pid) && self.table()[pid].state
                == ProcessState::Ready ==> self.queue().contains(pid)
    }

    /// The observable scheduler state (table, queue, selection) of `self`
    /// equals that of `other`.
    pub open spec fn same_sched_state(self, other: Scheduler) -> bool {
        &&& self.table() == other.table()
        &&& self.queue() == other.queue()
        &&& self.current() == other.current()
    }

    /// Create a new, empty scheduler.
    pub fn new() -> (r: Self)
        ensures
            r.table() == Map::<ProcessId, ProcessControlBlock>::empty(),
            r.queue() == Seq::<ProcessId>::empty(),
            r.current() is None,
            r.wf(),
    {
        let r = Self { processes: BTreeMap::new(), ready_queue: Vec::new(), current_process: None };
        proof {
            assert(r.queue() =~= Seq::<ProcessId>::empty());
        }
        r
    }

    /// Add a process: insert its record into the table and append its
    /// identifier to the ready-queue tail.
    pub fn add_process(&mut self, pcb: ProcessControlBlock)
        requires
            old(self).wf(),
            !old(self).table().contains_key(pcb.id),
            pcb.state == ProcessState::Ready,
        ensures
            final(self).wf(),
            final(self).table() == old(self).table().insert(pcb.id, pcb),
            final(self).queue() == old(self).queue().push(pcb.id),
            final(self).current() == old(self).current(),
    {
        let pid = pcb.id;
        self.processes.insert(pid, pcb);
        self.ready_queue.push(pid);
        proof {
            let oldq = old(self).queue();
            let newq = self.queue();
            assert(newq == oldq.push(pid));
            assert forall|p: ProcessId|
                self.table().contains_key(p) && self.table()[p].state == ProcessState::Ready
                    implies self.queue().contains(p) by {
                if p == pid {
                    assert(newq[newq.len() - 1] == pid);
                } else {
                    assert(old(self).table().contains_key(p));
                    let i = choose|i: int| 0 <= i < oldq.len() && oldq[i] == p;
                    assert(newq[i] == p);
                }
            }
        }
    }

    /// Remove a process from both the table and the ready queue. Removing an
    /// identifier that is not present is a no-op that returns `None` and
    /// leaves the scheduler exactly as it was.
    pub fn remove_process(&mut self, pid: ProcessId) -> (r: Option<ProcessControlBlock>)
        requires
            old(self).wf(),
        ensures
            final(self).wf(),
            final(self).current() == old(self).current(),
            old(self).table().contains_key(pid) ==> {
                &&& r == Some(old(self).table()[pid])
                &&& final(self).table() == old(self).table().remove(pid)
                &&& final(self).queue() == old(self).queue().remove_value(pid)
            },
            !old(self).table().contains_key(pid) ==> {
                &&& r is None
                &&& final(self).same_sched_state(*old(self))
            },
    {
        // Drop the identifier from the ready queue, if it is there.
        remove_from_ready_queue(&mut self.ready_queue, pid);
        let r = self.processes.remove(&pid);
        proof {
            if old(self).table().contains_key(pid) {
                lemma_remove_preserves_wf(*old(self), *self, pid);
            } else {
                // An unknown identifier is in no queue slot, so removing it
                // from the queue changed nothing.
                assert(!old(self).queue().contains(pid)) by {
                    if old(self).queue().contains(pid) {
                        let i = choose|i: int|
                            0 <= i < old(self).queue().len() && old(self).queue()[i] == pid;
                        assert(old(self).table().contains_key(pid));
                    }
                }
                old(self).queue().index_of_first_ensures(pid);
                assert(self.queue() =~= old(self).queue());
                assert(self.table() =~= old(self).table());
            }
        }
        r
    }

    /// The record stored under `pid`, if any: the single-record query of the
    /// observability surface.
    pub fn get_process(&self, pid: ProcessId) -> (r: Option<&ProcessControlBlock>)
        ensures
            self.table().contains_key(pid) ==> r == Some(&self.table()[pid]),
            !self.table().contains_key(pid) ==> r is None,
    {
        self.processes.get(&pid)
    }

    /// The identifiers of all processes in the table, each exactly once: the
    /// enumeration query of the observability surface. The underlying ordered
    /// map yields them in increasing order.
    pub fn process_ids(&self) -> (r: Vec<ProcessId>)
        ensures
            r@.no_duplicates(),
            forall|pid: ProcessId| r@.contains(pid) <==> self.table().contains_key(pid),
            r@.len() == self.table().dom().len(),
    {
        let mut ids: Vec<ProcessId> = Vec::new();
        for k in it: self.processes.keys()
            invariant
                ids@.len() == it.index(),
                forall|j: int| 0 <= j < ids@.len() ==> ids@[j] == *it.seq()[j],
        {
            ids.push(*k);
        }
        proof {
            let rem = vstd::std_specs::btree::spec_keys_iter(&self.processes).remaining();
            assert(ids@ =~= rem.unref());
            assert(rem.unref().to_set() == self.table().dom());
            assert forall|j1: int, j2: int|
                0 <= j1 < j2 < ids@.len() implies ids@[j1] != ids@[j2] by {
                assert(rem[j1] != rem[j2]);
            }
            assert forall|pid: ProcessId|
                ids@.contains(pid) <==> self.table().contains_key(pid) by {
                assert(rem.unref().to_set().contains(pid) == rem.unref().contains(pid));
            }
        }
        ids
    }

    /// The identifier of the currently selected process, if any.
    pub fn current_pid(&self) -> (r: Option<ProcessId>)
        ensures
            r == self.current(),
    {
        self.current_process
    }

    /// The currently selected process's record, if one is selected and still
    /// in the table.
    pub fn current_process(&self) -> (r: Option<&ProcessControlBlock>)
        ensures
            match r {
                Some(p) => {
                    &&& self.current() matches Some(pid)
                    &&& self.table().contains_key(pid)
                    &&& *p == self.table()[pid]
                },
                None => match self.current() {
                    Some(pid) => !self.table().contains_key(pid),
                    None => true,
                },
            },
    {
        match self.current_process {
            Some(pid) => self.processes.get(&pid),
            None => None,
        }
    }

    /// Select the next process, round-robin: pop the queue head, re-append it
    /// at the tail, mark it current, and return its record. With an empty
    /// queue there is nothing to run and nothing changes.
    pub fn schedule(&mut self) -> (r: Option<ProcessControlBlock>)
        requires
            old(self).wf(),
        ensures
            final(self).wf(),
            old(self).queue().len() == 0 ==> r is None && final(self).same_sched_state(
                *old(self),
            ),
            old(self).queue().len() > 0 ==> {
                let head = old(self).queue()[0];
                &&& r == Some(old(self).table()[head])
                &&& final(self).table() == old(self).table()
                &&& final(self).queue() == old(self).queue().drop_first().push(head)
                &&& final(self).current() == Some(head)
            },
    {
        if self.ready_queue.len() == 0 {
            return None;
        }

        // Round-robin: head of the queue runs next and rotates to the tail.
        let next_pid = self.ready_queue.remove(0);
        self.ready_queue.push(next_pid);
        self.current_process = Some(next_pid);

        proof {
            let oldq = old(self).queue();
            assert(oldq.remove(0) =~= oldq.drop_first());
            assert(self.queue() == oldq.drop_first().push(next_pid));
            lemma_rotate_preserves_wf(*old(self), *self);
        }
        match self.processes.get(&next_pid) {
            Some(p) => Some(p.clone()),
            None => None,
        }
    }

    /// Block the currently selected process: mark its record `Blocked`, drop
    /// its identifier from the ready queue, and clear the selection. With no
    /// selection, nothing changes.
    pub fn block_current(&mut self)
        requires
            old(self).wf(),
        ensures
            final(self).wf(),
            old(self).current() is None ==> final(self).same_sched_state(*old(self)),
            old(self).current() matches Some(pid) ==> {
                &&& final(self).current() is None
                &&& !final(self).queue().contains(pid)
                &&& old(self).table().contains_key(pid) ==> {
                    &&& final(self).table() == old(self).table().insert(
                        pid,
                        with_state(old(self).table()[pid], ProcessState::Blocked),
                    )
                    &&& final(self).queue() == old(self).queue().remove_value(pid)
                }
                &&& !old(self).table().contains_key(pid) ==> {
                    &&& final(self).table() == old(self).table()
                    &&& final(self).queue() == old(self).queue()
                }
            },
    {
        let pid = match self.current_process {
            Some(pid) => pid,
            None => {
                return ;
            },
        };
        let blocked = match self.processes.get(&pid) {
            Some(p) => {
                let mut p2 = p.clone();
                p2.set_state(ProcessState::Blocked);
                Some(p2)
            },
            None => None,
        };
        match blocked {
            Some(p2) => {
                self.processes.insert(pid, p2);
                // The record is no longer ready, so its identifier leaves the
                // ready queue.
                remove_from_ready_queue(&mut self.ready_queue, pid);
                self.current_process = None;
                proof {
                    lemma_block_preserves_wf(*old(self), *self, pid);
                }
            },
            None => {
                self.current_process = None;
                proof {
                    assert(self.table() =~= old(self).table());
                    assert(!self.queue().contains(pid)) by {
                        if self.queue().contains(pid) {
                            let i = choose|i: int|
                                0 <= i < self.queue().len() && self.queue()[i] == pid;
                            assert(self.table().contains_key(pid));
                        }
                    }
                }
            },
        }
    }

    /// Unblock a process: if its record is `Blocked`, mark it `Ready` and
    /// append its identifier to the ready-queue tail — behind every process
    /// that is already ready. In any other state, nothing changes.
    pub fn unblock(&mut self, pid: ProcessId)
        requires
            old(self).wf(),
        ensures
            final(self).wf(),
            final(self).current() == old(self).current(),
            old(self).table().contains_key(pid) && old(self).table()[pid].state
                == ProcessState::Blocked ==> {
                &&& final(self).table() == old(self).table().insert(
                    pid,
                    with_state(old(self).table()[pid], ProcessState::Ready),
                )
                &&& final(self).queue() == old(self).queue().push(pid)
            },
            !(old(self).table().contains_key(pid) && old(self).table()[pid].state
                == ProcessState::Blocked) ==> final(self).same_sched_state(*old(self)),
    {
        let ready = match self.processes.get(&pid) {
            Some(p) => {
                if p.state() == ProcessState::Blocked {
                    let mut p2 = p.clone();
                    p2.set_state(ProcessState::Ready);
                    Some(p2)
                } else {
                    None
                }
            },
            None => None,
        };
        match ready {
            Some(p2) => {
                self.processes.insert(pid, p2);
                self.ready_queue.push(pid);
                proof {
                    lemma_unblock_preserves_wf(*old(self), *self, pid);
                }
            },
            None => {},
        }
    }
}

/// Drop `pid` from the ready queue, if it is there: the queue becomes the
/// old queue with the first occurrence of `pid` removed (with no duplicates,
/// the only one), and stays as it was when `pid` is not queued.
fn remove_from_ready_queue(queue: &mut Vec<ProcessId>, pid: ProcessId)
    ensures
        final(queue)@ == old(queue)@.remove_value(pid),
{
    let ghost oldq = queue@;
    let mut i: usize = 0;
    let mut found: bool = false;
    while i < queue.len() && !found
        invariant
            0 <= i <= queue@.len(),
            queue@ == oldq,
            forall|j: int| 0 <= j < i ==> oldq[j] != pid,
            found ==> i < oldq.len() && oldq[i as int] == pid,
        decreases oldq.len() - i + if found { 0int } else { 1int },
    {
        if queue[i] == pid {
            found = true;
        } else {
            i = i + 1;
        }
    }
    proof {
        oldq.index_of_first_ensures(pid);
    }
    if found {
        queue.remove(i);
        proof {
            assert(oldq.index_of_first(pid) == Some(i as int));
            assert(queue@ =~= oldq.remove_value(pid));
        }
    } else {
        proof {
            assert(!oldq.contains(pid));
            assert(queue@ =~= oldq.remove_value(pid));
        }
    }
}

/// Removing `pid` from both the table and the queue preserves the invariant.
proof fn lemma_remove_preserves_wf(pre: Scheduler, post: Scheduler, pid: ProcessId)
    requires
        pre.wf(),
        pre.table().contains_key(pid),
        post.table() == pre.table().remove(pid),
        post.queue() == pre.queue().remove_value(pid),
    ensures
        post.wf(),
{
    pre.queue().index_of_first_ensures(pid);
    let q = pre.queue();
    match q.index_of_first(pid) {
        Some(k) => {
            assert(post.queue() == q.remove(k));
            q.remove_ensures(k);
            assert forall|i: int|
                0 <= i < post.queue().len() implies #[trigger] post.table().contains_key(
                post.queue()[i],
            ) && post.table()[post.queue()[i]].state == ProcessState::Ready by {
                let v = post.queue()[i];
                if i < k {
                    assert(q[i] == v);
                    assert(v != pid);
                } else {
                    assert(q[i + 1] == v);
                    assert(v != pid);
                }
            }
            assert forall|i: int, j: int|
                0 <= i < j < post.queue().len() implies post.queue()[i] != post.queue()[j] by {
                let qi = if i < k {
                    i
                } else {
                    i + 1
                };
                let qj = if j < k {
                    j
                } else {
                    j + 1
                };
                assert(post.queue()[i] == q[qi]);
                assert(post.queue()[j] == q[qj]);
            }
            assert forall|p: ProcessId| #[trigger]
                post.table().contains_key(p) && post.table()[p].state == ProcessState::Ready
                    implies post.queue().contains(p) by {
                assert(pre.table().contains_key(p) && p != pid);
                let i = choose|i: int| 0 <= i < q.len() && q[i] == p;
                if i < k {
                    assert(post.queue()[i] == p);
                } else {
                    // q[k] == pid != p, so i != k.
                    assert(post.queue()[i - 1] == p);
                }
            }
        },
        None => {
            // pid was not ready, so the queue is untouched.
            assert(post.queue() == q);
            assert forall|p: ProcessId| #[trigger]
                post.table().contains_key(p) && post.table()[p].state == ProcessState::Ready
                    implies post.queue().contains(p) by {
                assert(pre.table().contains_key(p));
            }
        },
    }
}

/// Rotating the queue head to the tail (and selecting it) preserves the
/// invariant.
proof fn lemma_rotate_preserves_wf(pre: Scheduler, post: Scheduler)
    requires
        pre.wf(),
        pre.queue().len() > 0,
        post.table() == pre.table(),
        post.queue() == pre.queue().drop_first().push(pre.queue()[0]),
    ensures
        post.wf(),
{
    let q = pre.queue();
    let head = q[0];
    let n = q.len() as int;
    assert forall|i: int|
        0 <= i < post.queue().len() implies #[trigger] post.table().contains_key(post.queue()[i])
            && post.table()[post.queue()[i]].state == ProcessState::Ready by {
        if i < n - 1 {
            assert(post.queue()[i] == q[i + 1]);
        } else {
            assert(post.queue()[i] == head);
        }
    }
    assert forall|i: int, j: int|
        0 <= i < j < post.queue().len() implies post.queue()[i] != post.queue()[j] by {
        let qi = if i < n - 1 {
            i + 1
        } else {
            0
        };
        let qj = if j < n - 1 {
            j + 1
        } else {
            0
        };
        assert(post.queue()[i] == q[qi]);
        assert(post.queue()[j] == q[qj]);
    }
    assert forall|p: ProcessId| #[trigger]
        post.table().contains_key(p) && post.table()[p].state == ProcessState::Ready
            implies post.queue().contains(p) by {
        let i = choose|i: int| 0 <= i < q.len() && q[i] == p;
        if i == 0 {
            assert(post.queue()[n - 1] == p);
        } else {
            assert(post.queue()[i - 1] == p);
        }
    }
}

/// Marking the selected record `Blocked` and dropping it from the queue
/// preserves the invariant.
proof fn lemma_block_preserves_wf(pre: Scheduler, post: Scheduler, pid: ProcessId)
    requires
        pre.wf(),
        pre.table().contains_key(pid),
        post.table() == pre.table().insert(pid, with_state(pre.table()[pid], ProcessState::Blocked)),
        post.queue() == pre.queue().remove_value(pid),
    ensures
        post.wf(),
        !post.queue().contains(pid),
{
    pre.queue().index_of_first_ensures(pid);
    let q = pre.queue();
    match q.index_of_first(pid) {
        Some(k) => {
            assert(post.queue() == q.remove(k));
            q.remove_ensures(k);
            assert forall|i: int|
                0 <= i < post.queue().len() implies #[trigger] post.table().contains_key(
                post.queue()[i],
            ) && post.table()[post.queue()[i]].state == ProcessState::Ready by {
                let v = post.queue()[i];
                let qi = if i < k {
                    i
                } else {
                    i + 1
                };
                assert(q[qi] == v);
                // v != pid: pid appears only at k in q.
                if qi > k {
                    assert(q[qi] != q[k]);
                }
            }
            assert forall|i: int, j: int|
                0 <= i < j < post.queue().len() implies post.queue()[i] != post.queue()[j] by {
                let qi = if i < k {
                    i
                } else {
                    i + 1
                };
                let qj = if j < k {
                    j
                } else {
                    j + 1
                };
                assert(post.queue()[i] == q[qi]);
                assert(post.queue()[j] == q[qj]);
            }
            assert forall|p: ProcessId| #[trigger]
                post.table().contains_key(p) && post.table()[p].state == ProcessState::Ready
                    implies post.queue().contains(p) by {
                assert(pre.table().contains_key(p) && p != pid);
                let i = choose|i: int| 0 <= i < q.len() && q[i] == p;
                if i < k {
                    assert(post.queue()[i] == p);
                } else {
                    assert(post.queue()[i - 1] == p);
                }
            }
            assert(!post.queue().contains(pid)) by {
                if post.queue().contains(pid) {
                    let i = choose|i: int|
                        0 <= i < post.queue().len() && post.queue()[i] == pid;
                    let qi = if i < k {
                        i
                    } else {
                        i + 1
                    };
                    assert(q[qi] == pid);
                    assert(qi != k);
                }
            }
        },
        None => {
            assert(post.queue() == q);
            assert forall|p: ProcessId| #[trigger]
                post.table().contains_key(p) && post.table()[p].state == ProcessState::Ready
                    implies post.queue().contains(p) by {
                assert(pre.table().contains_key(p));
            }
        },
    }
}

/// Marking a blocked record `Ready` and appending its identifier preserves
/// the invariant.
proof fn lemma_unblock_preserves_wf(pre: Scheduler, post: Scheduler, pid: ProcessId)
    requires
        pre.wf(),
        pre.table().contains_key(pid),
        pre.table()[pid].state == ProcessState::Blocked,
        post.table() == pre.table().insert(pid, with_state(pre.table()[pid], ProcessState::Ready)),
        post.queue() == pre.queue().push(pid),
    ensures
        post.wf(),
{
    let q = pre.queue();
    // pid was blocked, so it is not in the old queue.
    assert(!q.contains(pid)) by {
        if q.contains(pid) {
            let i = choose|i: int| 0 <= i < q.len() && q[i] == pid;
            assert(pre.table()[pid].state == ProcessState::Ready);
        }
    }
    assert forall|i: int|
        0 <= i < post.queue().len() implies #[trigger] post.table().contains_key(post.queue()[i])
            && post.table()[post.queue()[i]].state == ProcessState::Ready by {
        if i < q.len() {
            assert(post.queue()[i] == q[i]);
        } else {
            assert(post.queue()[i] == pid);
        }
    }
    assert forall|i: int, j: int|
        0 <= i < j < post.queue().len() implies post.queue()[i] != post.queue()[j] by {
        if j < q.len() {
        } else {
            assert(post.queue()[j] == pid);
            assert(post.queue()[i] == q[i]);
            assert(!q.contains(pid) ==> q[i] != pid);
        }
    }
    assert forall|p: ProcessId| #[trigger]
        post.table().contains_key(p) && post.table()[p].state == ProcessState::Ready
            implies post.queue().contains(p) by {
        if p == pid {
            assert(post.queue()[q.len() as int] == pid);
        } else {
            assert(pre.table().contains_key(p));
            let i = choose|i: int| 0 <= i < q.len() && q[i] == p;
            assert(post.queue()[i] == p);
        }
    }
}

/// A blocked process is in no future rotation: its identifier is not in the
/// ready queue, and in particular it is not the head that `schedule` would
/// select next.
pub proof fn lemma_blocked_not_scheduled(s: Scheduler, pid: ProcessId)
    requires
        s.wf(),
        s.table().contains_key(pid),
        s.table()[pid].state == ProcessState::Blocked,
    ensures
        !s.queue().contains(pid),
        s.queue().len() > 0 ==> s.queue()[0] != pid,
{
    assert(!s.queue().contains(pid)) by {
        if s.queue().contains(pid) {
            let i = choose|i: int| 0 <= i < s.queue().len() && s.queue()[i] == pid;
            assert(s.table()[pid].state == ProcessState::Ready);
        }
    }
}

} // verus!
