//! The scheduling core: dispatch queue, task registry and the worker
//! protocol's state changes.
//!
//! One value of [`MITWorkersInner`] holds the waiting queue, the tasks
//! currently executing on a worker, and the registry that maps each
//! live task id to its progress channel. Well-formedness ties the three
//! together: every queued or executing task is registered, every
//! registered id is queued or executing on exactly one worker, and the
//! registry is exactly as large as queue and executing set combined.
//! The surrounding process serializes access (one lock around the
//! whole state) and performs the waiting, the I/O and the clock; every
//! decision is taken here.

use vstd::prelude::*;

use crate::channel::{TaskWatchMessage, WatchChannel};
use crate::db::{DbTask, TaskTable};
use crate::params::TaskState;
use crate::task::Task;

verus! {

/// One live task: its id and the progress channel its watchers read.
#[derive(Debug)]
pub struct RegistryEntry {
    pub id: String,
    pub chan: WatchChannel,
}

/// The scheduling state of the gateway.
#[derive(Debug)]
pub struct MITWorkersInner {
    /// Tasks waiting for a worker, front first.
    pub queue: Vec<Task>,
    /// Tasks currently executing, each on exactly one worker session.
    pub executing: Vec<Task>,
    /// Progress channel of every live task.
    pub registry: Vec<RegistryEntry>,
}

impl MITWorkersInner {
    /// Whether the registry holds this id.
    pub open spec fn spec_in_registry(&self, id: Seq<char>) -> bool {
        exists|i: int|
            0 <= i < self.registry@.len() && (#[trigger] self.registry@[i]).id@ == id
    }

    /// Whether a queued task carries this id.
    pub open spec fn spec_in_queue(&self, id: Seq<char>) -> bool {
        exists|i: int| 0 <= i < self.queue@.len() && (#[trigger] self.queue@[i]).id@ == id
    }

    /// Whether an executing task carries this id.
    pub open spec fn spec_in_executing(&self, id: Seq<char>) -> bool {
        exists|i: int|
            0 <= i < self.executing@.len() && (#[trigger] self.executing@[i]).id@ == id
    }

    /// A task may be held by the scheduler only if it is neither done
    /// nor failed out, and its failure count can still be counted up.
    pub open spec fn task_admissible(t: Task) -> bool {
        &&& t.state != TaskState::Done
        &&& !(t.state == TaskState::Error && t.failed_count >= 3)
        &&& 0 <= t.failed_count < i32::MAX
    }

    /// Well-formedness of the scheduling state.
    pub open spec fn wf(&self) -> bool {
        // Registered ids are unique, their channels well formed and open.
        &&& forall|i: int, j: int|
            0 <= i < j < self.registry@.len() ==> (#[trigger] self.registry@[i]).id@ != (
            #[trigger] self.registry@[j]).id@
        &&& forall|i: int|
            0 <= i < self.registry@.len() ==> (#[trigger] self.registry@[i]).chan.wf()
                && self.registry@[i].chan.is_open()
        // Queued ids are unique, executing ids are unique, and the two
        // sets are disjoint.
        &&& forall|i: int, j: int|
            0 <= i < j < self.queue@.len() ==> (#[trigger] self.queue@[i]).id@ != (
            #[trigger] self.queue@[j]).id@
        &&& forall|i: int, j: int|
            0 <= i < j < self.executing@.len() ==> (#[trigger] self.executing@[i]).id@ != (
            #[trigger] self.executing@[j]).id@
        &&& forall|i: int|
            0 <= i < self.queue@.len() ==> !self.spec_in_executing(
                (#[trigger] self.queue@[i]).id@,
            )
        // Every held task is registered, and every registered id is held.
        &&& forall|i: int|
            0 <= i < self.queue@.len() ==> self.spec_in_registry((#[trigger] self.queue@[i]).id@)
        &&& forall|i: int|
            0 <= i < self.executing@.len() ==> self.spec_in_registry(
                (#[trigger] self.executing@[i]).id@,
            )
        &&& forall|i: int|
            0 <= i < self.registry@.len() ==> (self.spec_in_queue(
                (#[trigger] self.registry@[i]).id@,
            ) || self.spec_in_executing(self.registry@[i].id@))
        // Registry/queue coherence: the registry is exactly as large as
        // queue and executing set combined.
        &&& self.registry@.len() == self.queue@.len() + self.executing@.len()
        // Held tasks are admissible.
        &&& forall|i: int| 0 <= i < self.queue@.len() ==> Self::task_admissible(#[trigger] self.queue@[i])
        &&& forall|i: int|
            0 <= i < self.executing@.len() ==> Self::task_admissible(#[trigger] self.executing@[i])
    }

    /// An empty scheduler.
    pub fn new() -> (r: MITWorkersInner)
        ensures
            r.wf(),
            r.queue@.len() == 0,
            r.executing@.len() == 0,
            r.registry@.len() == 0,
    {
        MITWorkersInner { queue: Vec::new(), executing: Vec::new(), registry: Vec::new() }
    }

    /// The number of tasks waiting for a worker.
    pub fn queue_len(&self) -> (r: usize)
        ensures
            r == self.queue@.len(),
    {
        self.queue.len()
    }

    /// The number of live tasks in the registry.
    pub fn tasks_len(&self) -> (r: usize)
        ensures
            r == self.registry@.len(),
    {
        self.registry.len()
    }

    /// The registry index of this id, if it is live.
    fn find_registry(&self, id: &str) -> (r: Option<usize>)
        ensures
            match r {
                Some(i) => i < self.registry@.len() && self.registry@[i as int].id@ == id@,
                None => !self.spec_in_registry(id@),
            },
    {
        let n = self.registry.len();
        for i in 0..n
            invariant
                n == self.registry@.len(),
                forall|k: int| 0 <= k < i ==> (#[trigger] self.registry@[k]).id@ != id@,
        {
            if crate::params::str_eq(self.registry[i].id.as_str(), id) {
                return Some(i);
            }
        }
        None
    }

    /// The executing index of this id, if a worker holds it.
    fn find_executing(&self, id: &str) -> (r: Option<usize>)
        ensures
            match r {
                Some(i) => i < self.executing@.len() && self.executing@[i as int].id@ == id@,
                None => !self.spec_in_executing(id@),
            },
    {
        let n = self.executing.len();
        for i in 0..n
            invariant
                n == self.executing@.len(),
                forall|k: int| 0 <= k < i ==> (#[trigger] self.executing@[k]).id@ != id@,
        {
            if crate::params::str_eq(self.executing[i].id.as_str(), id) {
                return Some(i);
            }
        }
        None
    }

    /// The current progress of a live task: its channel's latest value.
    pub fn status(&self, id: &str) -> (r: Option<&TaskWatchMessage>)
        requires
            self.wf(),
        ensures
            match r {
                Some(m) => exists|i: int|
                    0 <= i < self.registry@.len() && (#[trigger] self.registry@[i]).id@ == id@ && *m
                        == self.registry@[i].chan.history().last(),
                None => !self.spec_in_registry(id@),
            },
    {
        match self.find_registry(id) {
            Some(i) => Some(self.registry[i].chan.latest()),
            None => None,
        }
    }

    /// The progress channel of a live task, for a subscriber to follow.
    pub fn subscribe(&self, id: &str) -> (r: Option<&WatchChannel>)
        requires
            self.wf(),
        ensures
            match r {
                Some(c) => exists|i: int|
                    0 <= i < self.registry@.len() && (#[trigger] self.registry@[i]).id@ == id@ && c
                        == &self.registry@[i].chan,
                None => !self.spec_in_registry(id@),
            },
    {
        match self.find_registry(id) {
            Some(i) => Some(&self.registry[i].chan),
            None => None,
        }
    }

    /// Builds the in-memory task a table row denotes, with the source
    /// image payload supplied by the caller.
    pub fn build_task(row: &DbTask, source_image: Vec<u8>) -> (r: Task)
        ensures
            r.id@ == row.id@,
            r.param == crate::task::param_of_db(row.param),
            r.source_image@ == source_image@,
            r.state == row.state,
            r.last_attempted_at == row.last_attempted_at,
            r.failed_count == row.failed_count,
            (match r.result {
                Some(res) => row.translation_mask is Some && res.translation_mask@
                    == row.translation_mask->Some_0@,
                None => row.translation_mask is None,
            }),
    {
        let result = match &row.translation_mask {
            Some(mask) => Some(crate::task::TaskResult { translation_mask: mask.clone() }),
            None => None,
        };
        Task::new(
            row.id.clone(),
            row.param.to_param(),
            source_image,
            row.state,
            row.last_attempted_at,
            row.failed_count,
            result,
        )
    }

    /// Enqueues a task: a fresh progress channel is created at the
    /// current queue position, registered under the task's id, and the
    /// task is appended at the back of the queue.
    pub fn dispatch_task(&mut self, task: Task)
        requires
            old(self).wf(),
            !old(self).spec_in_registry(task.id@),
            Self::task_admissible(task),
        ensures
            final(self).wf(),
            final(self).queue@ == old(self).queue@.push(task),
            final(self).executing@ == old(self).executing@,
            final(self).registry@.len() == old(self).registry@.len() + 1,
            forall|i: int|
                0 <= i < old(self).registry@.len() ==> final(self).registry@[i] == old(self).registry@[i],
            final(self).registry@.last().id@ == task.id@,
            final(self).registry@.last().chan.history() == seq![
                TaskWatchMessage::Pending(old(self).queue@.len() as usize),
            ],
    {
        let pos = self.queue.len();
        let chan = WatchChannel::new(pos);
        let id = task.id.clone();
        self.registry.push(RegistryEntry { id, chan });
        self.queue.push(task);
        proof {
            assert forall|i: int|
                0 <= i < self.queue@.len() implies self.spec_in_registry(
                (#[trigger] self.queue@[i]).id@,
            ) by {
                if i < self.queue@.len() - 1 {
                    assert(old(self).spec_in_registry(old(self).queue@[i].id@));
                    let w = choose|w: int|
                        0 <= w < old(self).registry@.len() && (#[trigger] old(self).registry@[w]).id@ == old(self).queue@[i].id@;
                    assert(self.registry@[w].id@ == self.queue@[i].id@);
                } else {
                    let w = self.registry@.len() - 1;
                    assert(self.registry@[w].id@ == self.queue@[i].id@);
                }
            }
            assert forall|i: int|
                0 <= i < self.executing@.len() implies self.spec_in_registry(
                (#[trigger] self.executing@[i]).id@,
            ) by {
                assert(old(self).spec_in_registry(old(self).executing@[i].id@));
                let w = choose|w: int|
                    0 <= w < old(self).registry@.len() && (#[trigger] old(self).registry@[w]).id@
                        == old(self).executing@[i].id@;
                assert(self.registry@[w].id@ == self.executing@[i].id@);
            }
            assert forall|i: int|
                0 <= i < self.registry@.len() implies (self.spec_in_queue(
                (#[trigger] self.registry@[i]).id@,
            ) || self.spec_in_executing(self.registry@[i].id@)) by {
                if i < self.registry@.len() - 1 {
                    assert(old(self).spec_in_queue(old(self).registry@[i].id@) || old(self).spec_in_executing(old(self).registry@[i].id@));
                    if old(self).spec_in_queue(old(self).registry@[i].id@) {
                        let w = choose|w: int|
                            0 <= w < old(self).queue@.len() && (#[trigger] old(self).queue@[w]).id@
                                == old(self).registry@[i].id@;
                        assert(self.queue@[w].id@ == self.registry@[i].id@);
                    } else {
                        let w = choose|w: int|
                            0 <= w < old(self).executing@.len() && (#[trigger] old(self).executing@[w]).id@ == old(self).registry@[i].id@;
                        assert(self.executing@[w].id@ == self.registry@[i].id@);
                    }
                } else {
                    let w = self.queue@.len() - 1;
                    assert(self.queue@[w].id@ == self.registry@[i].id@);
                }
            }
        }
    }

    /// Publishes one message on the channel at a registry index.
    fn send_at(&mut self, j: usize, m: TaskWatchMessage)
        requires
            j < old(self).registry@.len(),
            old(self).registry@[j as int].chan.wf(),
            old(self).registry@[j as int].chan.is_open(),
        ensures
            final(self).queue@ == old(self).queue@,
            final(self).executing@ == old(self).executing@,
            final(self).registry@.len() == old(self).registry@.len(),
            forall|k: int|
                0 <= k < old(self).registry@.len() && k != j ==> final(self).registry@[k] == old(self).registry@[k],
            final(self).registry@[j as int].id == old(self).registry@[j as int].id,
            final(self).registry@[j as int].chan.wf(),
            final(self).registry@[j as int].chan.history() == old(self).registry@[j as int].chan.history().push(m),
            final(self).registry@[j as int].chan.is_open() == !crate::channel::is_terminal_msg(m),
    {
        let mut entry = self.registry.remove(j);
        entry.chan.send(m);
        self.registry.insert(j, entry);
        proof {
            assert(self.registry@ =~= old(self).registry@.update(
                j as int,
                self.registry@[j as int],
            ));
        }
    }

    /// Builds the task a row denotes and enqueues it.
    pub fn dispatch(&mut self, row: &DbTask, source_image: Vec<u8>)
        requires
            old(self).wf(),
            !old(self).spec_in_registry(row.id@),
            row.state != TaskState::Done,
            !(row.state == TaskState::Error && row.failed_count >= 3),
            0 <= row.failed_count < i32::MAX,
        ensures
            final(self).wf(),
            final(self).queue@.len() == old(self).queue@.len() + 1,
            final(self).executing@ == old(self).executing@,
            final(self).queue@.last().id@ == row.id@,
            final(self).queue@.last().param == crate::task::param_of_db(row.param),
            final(self).queue@.last().source_image@ == source_image@,
            final(self).queue@.last().state == row.state,
            final(self).queue@.last().failed_count == row.failed_count,
            forall|i: int|
                0 <= i < old(self).queue@.len() ==> final(self).queue@[i] == old(self).queue@[i],
            final(self).registry@.len() == old(self).registry@.len() + 1,
            forall|i: int|
                0 <= i < old(self).registry@.len() ==> final(self).registry@[i] == old(self).registry@[i],
            final(self).registry@.last().id@ == row.id@,
            final(self).registry@.last().chan.history() == seq![
                TaskWatchMessage::Pending(old(self).queue@.len() as usize),
            ],
    {
        let task = Self::build_task(row, source_image);
        self.dispatch_task(task);
    }

    /// Claims the task at the front of the queue for a worker session,
    /// if any is waiting. The claimed task moves to the executing set,
    /// and every task still queued is told its new position: the task
    /// now at index `i` receives `Pending(i+1)`. Returns the claimed
    /// task's id.
    pub fn worker_pop(&mut self) -> (r: Option<String>)
        requires
            old(self).wf(),
        ensures
            final(self).wf(),
            old(self).queue@.len() == 0 ==> r is None && *final(self) == *old(self),
            old(self).queue@.len() > 0 ==> {
                &&& r is Some
                &&& r->Some_0@ == old(self).queue@[0].id@
                &&& final(self).queue@ == old(self).queue@.drop_first()
                &&& final(self).executing@ == old(self).executing@.push(old(self).queue@[0])
                &&& final(self).registry@.len() == old(self).registry@.len()
                &&& forall|j: int|
                    0 <= j < old(self).registry@.len() ==> final(self).registry@[j].id == old(self).registry@[j].id
                &&& forall|j: int, i: int|
                    0 <= j < old(self).registry@.len() && 1 <= i < old(self).queue@.len() && (
                    #[trigger] old(self).queue@[i]).id@ == (#[trigger] old(self).registry@[j]).id@
                        ==> final(self).registry@[j].chan.history() == old(self).registry@[j].chan.history().push(TaskWatchMessage::Pending(i as usize))
                &&& forall|j: int|
                    0 <= j < old(self).registry@.len() && (forall|i: int|
                        1 <= i < old(self).queue@.len() ==> (#[trigger] old(self).queue@[i]).id@
                            != old(self).registry@[j].id@) ==> final(self).registry@[j] == old(self).registry@[j]
            },
    {
        if self.queue.len() == 0 {
            return None;
        }
        let task = self.queue.remove(0);
        let id = task.id.clone();
        self.executing.push(task);
        let ghost q_now = self.queue@;
        let ghost reg_snap = self.registry@;
        let n = self.queue.len();
        assert(q_now == old(self).queue@.drop_first());
        assert(forall|i: int| 0 <= i < q_now.len() ==> q_now[i] == old(self).queue@[i + 1]);
        for i in 0..n
            invariant
                n == q_now.len(),
                self.queue@ == q_now,
                self.executing@ == old(self).executing@.push(old(self).queue@[0]),
                self.registry@.len() == reg_snap.len(),
                forall|j: int|
                    0 <= j < reg_snap.len() ==> (#[trigger] self.registry@[j]).id == reg_snap[j].id,
                forall|j: int|
                    0 <= j < reg_snap.len() ==> (#[trigger] self.registry@[j]).chan.wf()
                        && self.registry@[j].chan.is_open(),
                forall|j: int, k: int|
                    0 <= j < reg_snap.len() && 0 <= k < i && (#[trigger] q_now[k]).id@ == (
                    #[trigger] self.registry@[j]).id@ ==> self.registry@[j].chan.history()
                        == reg_snap[j].chan.history().push(
                        TaskWatchMessage::Pending((k + 1) as usize),
                    ),
                forall|j: int|
                    0 <= j < reg_snap.len() && (forall|k: int|
                        0 <= k < i ==> (#[trigger] q_now[k]).id@ != self.registry@[j].id@) ==> (
                    #[trigger] self.registry@[j]) == reg_snap[j],
                forall|i: int, j: int|
                    0 <= i < j < reg_snap.len() ==> (#[trigger] self.registry@[i]).id@ != (
                    #[trigger] self.registry@[j]).id@,
                forall|i: int, j: int|
                    0 <= i < j < q_now.len() ==> (#[trigger] q_now[i]).id@ != (
                    #[trigger] q_now[j]).id@,
                old(self).wf(),
                old(self).queue@.len() > 0,
                q_now == old(self).queue@.drop_first(),
                reg_snap == old(self).registry@,
        {
            proof {
                assert(q_now[i as int] == old(self).queue@[i + 1]);
                assert(old(self).spec_in_registry(old(self).queue@[i + 1].id@));
                let w = choose|w: int|
                    0 <= w < old(self).registry@.len() && (#[trigger] old(self).registry@[w]).id@
                        == old(self).queue@[i + 1].id@;
                assert(reg_snap[w].id@ == q_now[i as int].id@);
                assert(self.registry@[w].id@ == q_now[i as int].id@);
                assert(self.spec_in_registry(q_now[i as int].id@));
            }
            let qid = self.queue[i].id.clone();
            let j = match self.find_registry(qid.as_str()) {
                Some(j) => j,
                None => {
                    proof {
                        assert(false);
                    }
                    0
                },
            };
            self.send_at(j, TaskWatchMessage::Pending(i + 1));
            proof {
                assert forall|jj: int, k: int|
                    0 <= jj < reg_snap.len() && 0 <= k < i + 1 && (#[trigger] q_now[k]).id@ == (
                    #[trigger] self.registry@[jj]).id@ implies self.registry@[jj].chan.history()
                    == reg_snap[jj].chan.history().push(
                    TaskWatchMessage::Pending((k + 1) as usize),
                ) by {
                    if k < i {
                        if jj == j {
                            assert(q_now[k].id@ == q_now[i as int].id@);
                            assert(false);
                        }
                    } else {
                        assert(q_now[k].id@ == qid@);
                        assert(jj == j || self.registry@[jj].id@ != qid@);
                    }
                }
            }
        }
        proof {
            lemma_pop_wf(old(self), self, q_now, reg_snap);
        }
        Some(id)
    }
    /// Marks the executing task running in memory and in the table and
    /// announces the attempt on its channel, as a worker session does
    /// right before sending the task out.
    pub fn worker_start(&mut self, db: &mut TaskTable, id: &str, now: i64)
        requires
            old(self).wf(),
            old(db).wf(),
            old(self).spec_in_executing(id@),
            forall|i: int|
                0 <= i < old(db).rows@.len() && (#[trigger] old(db).rows@[i]).id@ == id@ ==> old(db).rows@[i].state != TaskState::Done,
        ensures
            final(self).wf(),
            final(db).wf(),
            final(db).rows@.len() == old(db).rows@.len(),
            forall|i: int|
                0 <= i < old(db).rows@.len() && (#[trigger] old(db).rows@[i]).id@ != id@ ==> final(db).rows@[i] == old(db).rows@[i],
            forall|i: int|
                0 <= i < old(db).rows@.len() && (#[trigger] old(db).rows@[i]).id@ == id@ ==> final(db).rows@[i] == (DbTask {
                    state: TaskState::Running,
                    last_attempted_at: Some(now),
                    ..old(db).rows@[i]
                }),
            final(self).queue@ == old(self).queue@,
            final(self).executing@.len() == old(self).executing@.len(),
            forall|i: int|
                0 <= i < old(self).executing@.len() && (#[trigger] old(self).executing@[i]).id@
                    != id@ ==> final(self).executing@[i] == old(self).executing@[i],
            forall|i: int|
                0 <= i < old(self).executing@.len() && (#[trigger] old(self).executing@[i]).id@
                    == id@ ==> final(self).executing@[i] == (Task {
                    state: TaskState::Running,
                    last_attempted_at: Some(now),
                    ..old(self).executing@[i]
                }),
            final(self).registry@.len() == old(self).registry@.len(),
            forall|j: int|
                0 <= j < old(self).registry@.len() && (#[trigger] old(self).registry@[j]).id@ != id@
                    ==> final(self).registry@[j] == old(self).registry@[j],
            forall|j: int|
                0 <= j < old(self).registry@.len() && (#[trigger] old(self).registry@[j]).id@ == id@
                    ==> {
                    &&& final(self).registry@[j].id == old(self).registry@[j].id
                    &&& final(self).registry@[j].chan.history().len() == old(self).registry@[j].chan.history().len() + 1
                    &&& final(self).registry@[j].chan.history().drop_last() == old(self).registry@[j].chan.history()
                    &&& crate::channel::is_status_of(
                        final(self).registry@[j].chan.history().last(),
                        "pending"@,
                    )
                },
    {
        let k = match self.find_executing(id) {
            Some(k) => k,
            None => {
                proof {
                    assert(false);
                }
                0
            },
        };
        let j = match self.find_registry(id) {
            Some(j) => j,
            None => {
                proof {
                    assert(false);
                }
                0
            },
        };
        db.set_running(id, now);
        let task = self.executing.remove(k);
        let updated = Task {
            state: TaskState::Running,
            last_attempted_at: Some(now),
            ..task
        };
        self.executing.insert(k, updated);
        proof {
            assert(self.executing@ =~= old(self).executing@.update(
                k as int,
                self.executing@[k as int],
            ));
        }
        self.send_at(j, TaskWatchMessage::Status("pending".to_owned()));
        proof {
            lemma_same_shape_wf(old(self), self);
        }
    }

    /// Publishes a worker-reported phase label on the executing task's
    /// channel.
    pub fn publish_status(&mut self, id: &str, phase: String)
        requires
            old(self).wf(),
            old(self).spec_in_executing(id@),
        ensures
            final(self).wf(),
            final(self).queue@ == old(self).queue@,
            final(self).executing@ == old(self).executing@,
            final(self).registry@.len() == old(self).registry@.len(),
            forall|j: int|
                0 <= j < old(self).registry@.len() && (#[trigger] old(self).registry@[j]).id@ != id@
                    ==> final(self).registry@[j] == old(self).registry@[j],
            forall|j: int|
                0 <= j < old(self).registry@.len() && (#[trigger] old(self).registry@[j]).id@ == id@
                    ==> final(self).registry@[j].id == old(self).registry@[j].id && final(self).registry@[j].chan.history() == old(self).registry@[j].chan.history().push(
                    TaskWatchMessage::Status(phase),
                ),
    {
        let j = match self.find_registry(id) {
            Some(j) => j,
            None => {
                proof {
                    let w = choose|w: int|
                        0 <= w < old(self).executing@.len() && (#[trigger] old(self).executing@[w]).id@ == id@;
                    assert(old(self).spec_in_registry(old(self).executing@[w].id@));
                    assert(false);
                }
                0
            },
        };
        self.send_at(j, TaskWatchMessage::Status(phase));
        proof {
            lemma_same_shape_wf(old(self), self);
        }
    }
    /// Settles a finished task: the table row becomes done and stores
    /// the mask key, the terminal success is published, and the task
    /// leaves registry and executing set. Returns the finished task and
    /// its closed channel.
    pub fn worker_finish(&mut self, db: &mut TaskTable, id: &str, mask_key: &str) -> (r: (
        Task,
        WatchChannel,
    ))
        requires
            old(self).wf(),
            old(db).wf(),
            old(self).spec_in_executing(id@),
        ensures
            final(self).wf(),
            final(db).wf(),
            final(db).rows@.len() == old(db).rows@.len(),
            forall|i: int|
                0 <= i < old(db).rows@.len() && (#[trigger] old(db).rows@[i]).id@ != id@ ==> final(db).rows@[i] == old(db).rows@[i],
            forall|i: int|
                0 <= i < old(db).rows@.len() && (#[trigger] old(db).rows@[i]).id@ == id@ ==> final(db).rows@[i].state == TaskState::Done && final(db).rows@[i].translation_mask is Some
                    && final(db).rows@[i].translation_mask->Some_0@ == mask_key@,
            final(self).queue@ == old(self).queue@,
            !final(self).spec_in_registry(id@),
            exists|k: int|
                0 <= k < old(self).executing@.len() && (#[trigger] old(self).executing@[k]).id@
                    == id@ && final(self).executing@ == old(self).executing@.remove(k) && r.0.id@
                    == id@ && r.0.state == TaskState::Done && r.0.param == old(self).executing@[k].param && r.0.result is Some
                    && r.0.result->Some_0.translation_mask@ == mask_key@,
            exists|j: int|
                0 <= j < old(self).registry@.len() && (#[trigger] old(self).registry@[j]).id@ == id@
                    && final(self).registry@ == old(self).registry@.remove(j)
                    && r.1.history().drop_last() == old(self).registry@[j].chan.history(),
            r.1.wf(),
            r.1.history().len() >= 2,
            crate::channel::is_result_of(r.1.history().last(), mask_key@),
            !r.1.is_open(),
    {
        let k = match self.find_executing(id) {
            Some(k) => k,
            None => {
                proof {
                    assert(false);
                }
                0
            },
        };
        let j = match self.find_registry(id) {
            Some(j) => j,
            None => {
                proof {
                    let w = choose|w: int|
                        0 <= w < old(self).executing@.len() && (#[trigger] old(self).executing@[w]).id@ == id@;
                    assert(old(self).spec_in_registry(old(self).executing@[w].id@));
                    assert(false);
                }
                0
            },
        };
        db.set_finished(id, mask_key);
        let task = self.executing.remove(k);
        let mut entry = self.registry.remove(j);
        entry.chan.send(
            TaskWatchMessage::Result(crate::task::TaskResult { translation_mask: mask_key.to_owned() }),
        );
        let finished = Task {
            state: TaskState::Done,
            result: Some(crate::task::TaskResult { translation_mask: mask_key.to_owned() }),
            ..task
        };
        proof {
            lemma_remove_wf(old(self), self, j as int, k as int);
        }
        (finished, entry.chan)
    }

    /// Settles a failed attempt: the failure is counted in memory and,
    /// when the table update went through, in the table. A task whose
    /// count stays under three is re-queued at the front and its
    /// watchers told a retry will happen; otherwise — the attempts are
    /// exhausted, or the table update failed and the count would be
    /// lost — the terminal failure is published and the task leaves
    /// registry and executing set, its closed channel being returned.
    pub fn worker_fail(&mut self, db: &mut TaskTable, id: &str, db_ok: bool) -> (r: (
        bool,
        Option<WatchChannel>,
    ))
        requires
            old(self).wf(),
            old(db).wf(),
            old(self).spec_in_executing(id@),
            db_ok ==> forall|i: int|
                0 <= i < old(db).rows@.len() && (#[trigger] old(db).rows@[i]).id@ == id@ ==> old(db).rows@[i].state != TaskState::Done && old(db).rows@[i].failed_count < i32::MAX,
        ensures
            final(self).wf(),
            final(db).wf(),
            db_ok ==> final(db).rows@.len() == old(db).rows@.len() && (forall|i: int|
                0 <= i < old(db).rows@.len() && (#[trigger] old(db).rows@[i]).id@ != id@ ==> final(db).rows@[i] == old(db).rows@[i]) && (forall|i: int|
                0 <= i < old(db).rows@.len() && (#[trigger] old(db).rows@[i]).id@ == id@ ==> final(db).rows@[i] == (DbTask {
                    state: TaskState::Error,
                    failed_count: (old(db).rows@[i].failed_count + 1) as i32,
                    ..old(db).rows@[i]
                })),
            !db_ok ==> *final(db) == *old(db),
            forall|k: int|
                0 <= k < old(self).executing@.len() && (#[trigger] old(self).executing@[k]).id@
                    == id@ ==> r.0 == (db_ok && old(self).executing@[k].failed_count + 1 < 3),
            exists|k: int|
                0 <= k < old(self).executing@.len() && (#[trigger] old(self).executing@[k]).id@
                    == id@ && final(self).executing@ == old(self).executing@.remove(k) && (r.0
                    ==> final(self).queue@ == old(self).queue@.insert(
                    0,
                    (Task {
                        failed_count: (old(self).executing@[k].failed_count + 1) as i32,
                        ..old(self).executing@[k]
                    }),
                )),
            r.0 ==> {
                &&& final(self).queue@.len() == old(self).queue@.len() + 1
                &&& final(self).queue@[0].id@ == id@
                &&& final(self).queue@[0].failed_count < 3
                &&& final(self).spec_in_registry(id@)
                &&& final(self).registry@.len() == old(self).registry@.len()
                &&& r.1 is None
                &&& forall|j: int|
                    0 <= j < old(self).registry@.len() && (#[trigger] old(self).registry@[j]).id@
                        != id@ ==> final(self).registry@[j] == old(self).registry@[j]
                &&& forall|j: int|
                    0 <= j < old(self).registry@.len() && (#[trigger] old(self).registry@[j]).id@
                        == id@ ==> final(self).registry@[j].id == old(self).registry@[j].id
                        && final(self).registry@[j].chan.history() == old(self).registry@[j].chan.history().push(TaskWatchMessage::Error(true))
            },
            !r.0 ==> {
                &&& final(self).queue@ == old(self).queue@
                &&& !final(self).spec_in_registry(id@)
                &&& r.1 is Some
                &&& r.1->Some_0.wf()
                &&& !r.1->Some_0.is_open()
                &&& r.1->Some_0.history().last() == TaskWatchMessage::Error(false)
                &&& exists|j: int|
                    0 <= j < old(self).registry@.len() && (#[trigger] old(self).registry@[j]).id@
                        == id@ && final(self).registry@ == old(self).registry@.remove(j)
                        && r.1->Some_0.history().drop_last() == old(self).registry@[j].chan.history()
            },
    {
        let k = match self.find_executing(id) {
            Some(k) => k,
            None => {
                proof {
                    assert(false);
                }
                0
            },
        };
        let j = match self.find_registry(id) {
            Some(j) => j,
            None => {
                proof {
                    let w = choose|w: int|
                        0 <= w < old(self).executing@.len() && (#[trigger] old(self).executing@[w]).id@ == id@;
                    assert(old(self).spec_in_registry(old(self).executing@[w].id@));
                    assert(false);
                }
                0
            },
        };
        if db_ok {
            db.record_failure(id);
        }
        let task = self.executing.remove(k);
        let new_count = task.failed_count + 1;
        let retried = db_ok && new_count < 3;
        if retried {
            self.send_at(j, TaskWatchMessage::Error(true));
            let updated = Task { failed_count: new_count, ..task };
            self.queue.insert(0, updated);
            proof {
                lemma_retry_wf(old(self), self, j as int, k as int);
            }
            (true, None)
        } else {
            let mut entry = self.registry.remove(j);
            entry.chan.send(TaskWatchMessage::Error(false));
            proof {
                lemma_remove_wf(old(self), self, j as int, k as int);
            }
            (false, Some(entry.chan))
        }
    }
}

/// What became of one submission.
#[derive(Debug)]
pub enum DispatchOutcome {
    /// A live channel already exists for the key's row; nothing was
    /// touched, a subscriber can follow that channel.
    AlreadyActive { id: String },
    /// The row is settled — done, or failed out — and is returned as
    /// it stands, without enqueueing.
    Cached { id: String, state: TaskState, translation_mask: Option<String> },
    /// The task was enqueued and registered.
    Enqueued { id: String },
    /// The row needs its source image loaded from the blob store:
    /// fetch it, then either dispatch with the bytes or mark the row
    /// failed.
    NeedsSource { id: String, source_image_file: String },
}

/// A well-formed table holds at most one row per key.
proof fn lemma_key_row_unique(
    db: &TaskTable,
    source_image_id: Seq<char>,
    param: crate::task::DBTaskParam,
    revision: i32,
    a: int,
    b: int,
)
    requires
        db.wf(),
        0 <= a < db.rows@.len(),
        0 <= b < db.rows@.len(),
        crate::db::row_matches_key(db.rows@[a], source_image_id, param, revision),
        crate::db::row_matches_key(db.rows@[b], source_image_id, param, revision),
    ensures
        a == b,
{
    if a != b {
        assert(crate::db::row_matches_key(
            db.rows@[a],
            db.rows@[b].source_image_id@,
            db.rows@[b].param,
            db.rows@[b].worker_revision,
        ));
        assert(crate::db::row_matches_key(
            db.rows@[b],
            db.rows@[a].source_image_id@,
            db.rows@[a].param,
            db.rows@[a].worker_revision,
        ));
    }
}

/// Whether the table's row for this key, if it has one, carries a
/// live channel.
pub open spec fn spec_key_row_live(
    s: &MITWorkersInner,
    db: &TaskTable,
    source_image_id: Seq<char>,
    param: crate::task::DBTaskParam,
    revision: i32,
) -> bool {
    exists|i: int|
        0 <= i < db.rows@.len() && crate::db::row_matches_key(
            #[trigger] db.rows@[i],
            source_image_id,
            param,
            revision,
        ) && s.spec_in_registry(db.rows@[i].id@)
}

/// Whether the table holds a settled row for this key: done, or
/// failed out.
pub open spec fn spec_key_row_settled(
    db: &TaskTable,
    source_image_id: Seq<char>,
    param: crate::task::DBTaskParam,
    revision: i32,
) -> bool {
    exists|i: int|
        0 <= i < db.rows@.len() && crate::db::row_matches_key(
            #[trigger] db.rows@[i],
            source_image_id,
            param,
            revision,
        ) && (db.rows@[i].state == TaskState::Done || (db.rows@[i].state == TaskState::Error
            && db.rows@[i].failed_count >= 3))
}

impl MITWorkersInner {
    /// Deduplicated submission: returns the live channel's id if one
    /// exists for the key, otherwise upserts the row — a retrying
    /// submission resets a settled row to pending — and either returns
    /// a settled row's cached outcome, or enqueues the task, or asks
    /// the caller for the source bytes.
    pub fn upsert_and_dispatch(
        &mut self,
        db: &mut TaskTable,
        source_image_id: &str,
        param: &crate::task::DBTaskParam,
        retry: bool,
        new_id: &str,
        source_image_file: &str,
        revision: i32,
        source_image: Option<Vec<u8>>,
    ) -> (r: DispatchOutcome)
        requires
            old(self).wf(),
            old(db).wf(),
            !old(db).spec_has_id(new_id@),
            !old(self).spec_in_registry(new_id@),
            forall|i: int|
                0 <= i < old(db).rows@.len() ==> 0 <= (#[trigger] old(db).rows@[i]).failed_count
                    < i32::MAX,
        ensures
            final(self).wf(),
            final(db).wf(),
            // A live channel for the key's row ends the call at once.
            (match r {
                DispatchOutcome::AlreadyActive { id } => {
                    &&& *final(self) == *old(self)
                    &&& *final(db) == *old(db)
                    &&& old(self).spec_in_registry(id@)
                    &&& exists|i: int|
                        0 <= i < old(db).rows@.len() && crate::db::row_matches_key(
                            #[trigger] old(db).rows@[i],
                            source_image_id@,
                            *param,
                            revision,
                        ) && old(db).rows@[i].id@ == id@
                },
                // A settled row without retry is returned untouched.
                DispatchOutcome::Cached { id, state, translation_mask } => {
                    &&& *final(self) == *old(self)
                    &&& final(db).rows@ == old(db).rows@
                    &&& !retry
                    &&& (state == TaskState::Done || (state == TaskState::Error))
                    &&& exists|i: int|
                        0 <= i < final(db).rows@.len() && crate::db::row_matches_key(
                            #[trigger] final(db).rows@[i],
                            source_image_id@,
                            *param,
                            revision,
                        ) && final(db).rows@[i].id@ == id@ && final(db).rows@[i].state == state
                            && (final(db).rows@[i].state == TaskState::Done || final(db).rows@[i].failed_count >= 3)
                            && (
                        match translation_mask {
                            Some(mask) => final(db).rows@[i].translation_mask is Some && final(db).rows@[i].translation_mask->Some_0@ == mask@,
                            None => final(db).rows@[i].translation_mask is None,
                        })
                    &&& !old(self).spec_in_registry(id@)
                },
                // The task is queued and registered, its channel opened
                // at its queue position.
                DispatchOutcome::Enqueued { id } => {
                    &&& final(self).queue@.len() == old(self).queue@.len() + 1
                    &&& final(self).queue@.last().id@ == id@
                    &&& final(self).queue@.last().param == crate::task::param_of_db(*param)
                    &&& final(self).queue@.last().source_image@ == source_image->Some_0@
                    &&& final(self).queue@.last().state != TaskState::Done
                    &&& forall|i: int|
                        0 <= i < old(self).queue@.len() ==> final(self).queue@[i] == old(self).queue@[i]
                    &&& final(self).executing@ == old(self).executing@
                    &&& final(self).registry@.len() == old(self).registry@.len() + 1
                    &&& forall|i: int|
                        0 <= i < old(self).registry@.len() ==> final(self).registry@[i] == old(self).registry@[i]
                    &&& final(self).registry@.last().id@ == id@
                    &&& final(self).registry@.last().chan.history() == seq![
                        TaskWatchMessage::Pending(old(self).queue@.len() as usize),
                    ]
                    &&& !old(self).spec_in_registry(id@)
                    &&& source_image is Some
                    &&& final(self).spec_in_registry(id@)
                    &&& exists|i: int|
                        0 <= i < final(db).rows@.len() && crate::db::row_matches_key(
                            #[trigger] final(db).rows@[i],
                            source_image_id@,
                            *param,
                            revision,
                        ) && final(db).rows@[i].id@ == id@
                },
                // No bytes were supplied and the row needs them.
                DispatchOutcome::NeedsSource { id, source_image_file: file } => {
                    &&& *final(self) == *old(self)
                    &&& source_image is None
                    &&& !old(self).spec_in_registry(id@)
                    &&& exists|i: int|
                        0 <= i < final(db).rows@.len() && crate::db::row_matches_key(
                            #[trigger] final(db).rows@[i],
                            source_image_id@,
                            *param,
                            revision,
                        ) && final(db).rows@[i].id@ == id@ && final(db).rows@[i].source_image_file@ == file@
                },
            }),
            // The table changes only by the upsert of this key.
            (r is AlreadyActive ==> *final(db) == *old(db)),
            final(db).rows@.len() >= old(db).rows@.len(),
            // Which outcome the inputs force: a live channel for the
            // key wins; then a settled row without retry is answered
            // from the table; then the bytes decide between enqueueing
            // and asking for the source.
            (r is AlreadyActive <==> spec_key_row_live(
                old(self),
                old(db),
                source_image_id@,
                *param,
                revision,
            )),
            !spec_key_row_live(old(self), old(db), source_image_id@, *param, revision) ==> {
                &&& (r is Cached <==> !retry && spec_key_row_settled(
                    old(db),
                    source_image_id@,
                    *param,
                    revision,
                ))
                &&& (!(r is Cached) ==> (r is Enqueued <==> source_image is Some) && (
                r is NeedsSource <==> source_image is None))
                // Away from a live hit, the table takes exactly the
                // upsert of this key: a retrying submission resets the
                // key's row to pending and clears its mask, a plain one
                // leaves it unchanged, and a missing row is created
                // fresh under the new id.
                &&& forall|i: int|
                    0 <= i < old(db).rows@.len() && crate::db::row_matches_key(
                        #[trigger] old(db).rows@[i],
                        source_image_id@,
                        *param,
                        revision,
                    ) ==> {
                        &&& final(db).rows@.len() == old(db).rows@.len()
                        &&& (if retry {
                            final(db).rows@[i] == (DbTask {
                                state: TaskState::Pending,
                                translation_mask: None,
                                ..old(db).rows@[i]
                            })
                        } else {
                            final(db).rows@[i] == old(db).rows@[i]
                        })
                        &&& forall|k: int|
                            0 <= k < old(db).rows@.len() && k != i ==> final(db).rows@[k] == old(db).rows@[k]
                    }
                &&& (forall|i: int|
                    0 <= i < old(db).rows@.len() ==> !crate::db::row_matches_key(
                        #[trigger] old(db).rows@[i],
                        source_image_id@,
                        *param,
                        revision,
                    )) ==> {
                    &&& final(db).rows@.len() == old(db).rows@.len() + 1
                    &&& forall|k: int|
                        0 <= k < old(db).rows@.len() ==> final(db).rows@[k] == old(db).rows@[k]
                    &&& final(db).rows@.last().id@ == new_id@
                    &&& crate::db::row_matches_key(
                        final(db).rows@.last(),
                        source_image_id@,
                        *param,
                        revision,
                    )
                    &&& final(db).rows@.last().state == TaskState::Pending
                    &&& final(db).rows@.last().failed_count == 0
                    &&& final(db).rows@.last().translation_mask is None
                    &&& final(db).rows@.last().last_attempted_at is None
                    &&& final(db).rows@.last().source_image_file@ == source_image_file@
                }
            },
    {
        // Under the caller's lock, a live channel for the key's row
        // wins over any table work.
        match db.find_by_key(source_image_id, param, revision) {
            Some(i) => {
                let existing_id = db.row_at(i).id.clone();
                if self.find_registry(existing_id.as_str()).is_some() {
                    return DispatchOutcome::AlreadyActive { id: existing_id };
                }
                proof {
                    // The key's row is unique and its id is not live.
                    if spec_key_row_live(old(self), old(db), source_image_id@, *param, revision) {
                        let w = choose|w: int|
                            0 <= w < old(db).rows@.len() && crate::db::row_matches_key(
                                #[trigger] old(db).rows@[w],
                                source_image_id@,
                                *param,
                                revision,
                            ) && old(self).spec_in_registry(old(db).rows@[w].id@);
                        lemma_key_row_unique(old(db), source_image_id@, *param, revision, w, i as int);
                        assert(false);
                    }
                }
            },
            None => {
                proof {
                    assert(!spec_key_row_live(
                        old(self),
                        old(db),
                        source_image_id@,
                        *param,
                        revision,
                    ));
                }
            },
        }
        assert(!spec_key_row_live(old(self), old(db), source_image_id@, *param, revision));
        let ghost had_key_row = exists|w: int|
            0 <= w < old(db).rows@.len() && crate::db::row_matches_key(
                #[trigger] old(db).rows@[w],
                source_image_id@,
                *param,
                revision,
            );
        let idx = db.upsert_task(source_image_id, param, retry, source_image_file, new_id, revision);
        let row = db.row_at(idx).duplicate();
        proof {
            // Without retry the key's pre-existing row, if any, is
            // returned as it stood, so the row at hand is settled
            // exactly when the table held a settled row for the key.
            if had_key_row {
                let w = choose|w: int|
                    0 <= w < old(db).rows@.len() && crate::db::row_matches_key(
                        #[trigger] old(db).rows@[w],
                        source_image_id@,
                        *param,
                        revision,
                    );
                assert(idx == w);
                if !retry {
                    assert(row == old(db).rows@[w]);
                    if spec_key_row_settled(old(db), source_image_id@, *param, revision) {
                        let v = choose|v: int|
                            0 <= v < old(db).rows@.len() && crate::db::row_matches_key(
                                #[trigger] old(db).rows@[v],
                                source_image_id@,
                                *param,
                                revision,
                            ) && (old(db).rows@[v].state == TaskState::Done || (old(db).rows@[v].state == TaskState::Error && old(db).rows@[v].failed_count >= 3));
                        lemma_key_row_unique(old(db), source_image_id@, *param, revision, v, w);
                    }
                }
            } else {
                assert(row.state == TaskState::Pending);
                assert(!spec_key_row_settled(old(db), source_image_id@, *param, revision));
            }
        }
        if !retry && (row.state == TaskState::Done || (row.state == TaskState::Error
            && row.failed_count >= 3)) {
            proof {
                assert(had_key_row);
                assert(spec_key_row_settled(old(db), source_image_id@, *param, revision));
                assert(db.rows@ =~= old(db).rows@);
            }
            let mask = match &row.translation_mask {
                Some(mask) => Some(mask.clone()),
                None => None,
            };
            return DispatchOutcome::Cached { id: row.id, state: row.state, translation_mask: mask };
        }
        // The row is not settled: it is either the row checked against
        // the registry above, or a fresh one under the fresh id, so no
        // live channel carries its id.
        proof {
            assert(!(!retry && spec_key_row_settled(old(db), source_image_id@, *param, revision)));
            if old(self).spec_in_registry(row.id@) {
                assert(exists|w: int|
                    0 <= w < old(db).rows@.len() && crate::db::row_matches_key(
                        #[trigger] old(db).rows@[w],
                        source_image_id@,
                        *param,
                        revision,
                    ));
            }
        }
        match source_image {
            Some(bytes) => {
                let id = row.id.clone();
                self.dispatch(&row, bytes);
                DispatchOutcome::Enqueued { id }
            },
            None => {
                DispatchOutcome::NeedsSource {
                    id: row.id,
                    source_image_file: row.source_image_file,
                }
            },
        }
    }

    /// Late dispatch of a row whose source bytes arrived after the
    /// upsert: if a live channel appeared meanwhile nothing changes,
    /// otherwise the task is enqueued.
    pub fn subscribe_or_dispatch(&mut self, row: &DbTask, source_image: Vec<u8>) -> (dispatched:
        bool)
        requires
            old(self).wf(),
            row.state != TaskState::Done,
            !(row.state == TaskState::Error && row.failed_count >= 3),
            0 <= row.failed_count < i32::MAX,
        ensures
            final(self).wf(),
            !dispatched ==> *final(self) == *old(self) && old(self).spec_in_registry(row.id@),
            dispatched ==> {
                &&& !old(self).spec_in_registry(row.id@)
                &&& final(self).queue@.len() == old(self).queue@.len() + 1
                &&& final(self).queue@.last().id@ == row.id@
                &&& final(self).queue@.last().param == crate::task::param_of_db(row.param)
                &&& final(self).queue@.last().source_image@ == source_image@
                &&& final(self).queue@.last().state == row.state
                &&& final(self).queue@.last().failed_count == row.failed_count
                &&& forall|i: int|
                    0 <= i < old(self).queue@.len() ==> final(self).queue@[i] == old(self).queue@[i]
                &&& final(self).executing@ == old(self).executing@
                &&& final(self).registry@.len() == old(self).registry@.len() + 1
                &&& forall|i: int|
                    0 <= i < old(self).registry@.len() ==> final(self).registry@[i] == old(self).registry@[i]
                &&& final(self).registry@.last().id@ == row.id@
                &&& final(self).registry@.last().chan.history() == seq![
                    TaskWatchMessage::Pending(old(self).queue@.len() as usize),
                ]
            },
    {
        if self.find_registry(row.id.as_str()).is_some() {
            return false;
        }
        self.dispatch(row, source_image);
        true
    }

    /// Whether recovery replays a row: it belongs to the current
    /// protocol revision, is neither done nor failed, and has attempts
    /// left.
    pub fn recovery_admits(row: &DbTask, revision: i32) -> (r: bool)
        ensures
            r == spec_recovery_admits(*row, revision),
    {
        row.worker_revision == revision && row.state != TaskState::Done && row.state
            != TaskState::Error && row.failed_count < 3 && row.failed_count >= 0
    }

    /// Replays the table into the queue on startup. For each fetched
    /// pair, the row is re-checked: rows that vanished, are settled,
    /// are failed out or already live are skipped; a row whose source
    /// bytes arrived is enqueued; a row whose source could not be
    /// loaded is marked failed. Runs before workers connect, under the
    /// same lock as every dispatch.
    #[verifier::rlimit(100)]
    #[verifier::spinoff_prover]
    pub fn resume(&mut self, db: &mut TaskTable, revision: i32, fetched: Vec<(
        String,
        Option<Vec<u8>>,
    )>)
        requires
            old(self).wf(),
            old(db).wf(),
        ensures
            final(self).wf(),
            final(db).wf(),
            final(db).rows@.len() == old(db).rows@.len(),
            final(self).executing@ == old(self).executing@,
            forall|i: int|
                0 <= i < old(self).queue@.len() ==> final(self).queue@[i] == old(self).queue@[i],
            forall|j: int|
                0 <= j < old(self).registry@.len() ==> final(self).registry@[j] == old(self).registry@[j],
            // Recovery registers only fetched ids, and enqueues only
            // fetched pairs whose bytes were loaded.
            forall|j: int|
                old(self).registry@.len() <= j < final(self).registry@.len()
                    ==> #[trigger] reg_id_fetched(final(self).registry@, fetched@, fetched@.len() as int, j),
            forall|q: int|
                old(self).queue@.len() <= q < final(self).queue@.len()
                    ==> #[trigger] queue_id_fetched(final(self).queue@, fetched@, fetched@.len() as int, q),
            // Only ids that were not live and whose row the recovery
            // filter admits are registered or enqueued, and each fresh
            // channel opens with exactly its task's queue position.
            forall|j: int|
                #![trigger final(self).registry@[j]]
                old(self).registry@.len() <= j < final(self).registry@.len() ==> recovered_id(
                    old(self).registry@,
                    old(db).rows@,
                    revision,
                    final(self).registry@[j].id@,
                ) && recovered_channel_at(
                    final(self).registry@,
                    final(self).queue@,
                    old(self).queue@.len() as int,
                    j,
                ),
            forall|q: int|
                #![trigger final(self).queue@[q]]
                old(self).queue@.len() <= q < final(self).queue@.len() ==> recovered_id(
                    old(self).registry@,
                    old(db).rows@,
                    revision,
                    final(self).queue@[q].id@,
                ),
            // The queue extension follows the order of the fetched
            // pairs.
            forall|q1: int, q2: int|
                #![trigger final(self).queue@[q1], final(self).queue@[q2]]
                old(self).queue@.len() <= q1 < q2 < final(self).queue@.len()
                    ==> queue_follows_fetched(
                    final(self).queue@,
                    fetched@,
                    fetched@.len() as int,
                    q1,
                    q2,
                ),
            // A row either stands as it did or was marked failed.
            forall|i: int|
                #![trigger final(db).rows@[i]]
                0 <= i < old(db).rows@.len() ==> (final(db).rows@[i] == old(db).rows@[i] || final(db).rows@[i] == (DbTask { state: TaskState::Error, ..old(db).rows@[i] })),
            // Rows named by no fetched pair are untouched.
            forall|i: int|
                0 <= i < old(db).rows@.len() && (forall|k: int|
                    0 <= k < fetched@.len() ==> (#[trigger] fetched@[k]).0@ != (#[trigger] old(db).rows@[i]).id@) ==> final(db).rows@[i] == old(db).rows@[i],
            // Rows the recovery filter skips are untouched.
            forall|i: int|
                0 <= i < old(db).rows@.len() && !spec_recovery_admits(
                    #[trigger] old(db).rows@[i],
                    revision,
                ) ==> final(db).rows@[i] == old(db).rows@[i],
            // Every fetched pair that names an admitted, not yet live
            // row — and whose id no other pair carries — is settled by
            // its bytes: loaded bytes enqueue and register the task,
            // missing bytes mark the row failed.
            spec_resumed(
                old(self).registry@,
                old(db).rows@,
                old(self).queue@.len() as int,
                final(self).registry@,
                final(self).queue@,
                final(db).rows@,
                revision,
                fetched@,
                fetched@.len() as int,
            ),
    {
        let n = fetched.len();
        let mut fetched = fetched;
        let ghost fetched_snap = fetched@;
        let mut step: usize = 0;
        while step < n
            invariant
                step <= n,
                n == fetched_snap.len(),
                fetched@ == fetched_snap.skip(step as int),
                self.wf(),
                db.wf(),
                db.rows@.len() == old(db).rows@.len(),
                forall|j: int|
                    0 <= j < old(db).rows@.len() ==> (#[trigger] db.rows@[j]).id@ == old(db).rows@[j].id@,
                self.executing@ == old(self).executing@,
                self.queue@.len() >= old(self).queue@.len(),
                forall|i: int|
                    0 <= i < old(self).queue@.len() ==> self.queue@[i] == old(self).queue@[i],
                self.registry@.len() >= old(self).registry@.len(),
                forall|j: int|
                    0 <= j < old(self).registry@.len() ==> self.registry@[j] == old(self).registry@[j],
                forall|j: int|
                    old(self).registry@.len() <= j < self.registry@.len()
                        ==> #[trigger] reg_id_fetched(self.registry@, fetched_snap, step as int, j),
                forall|q: int|
                    old(self).queue@.len() <= q < self.queue@.len()
                        ==> #[trigger] queue_id_fetched(self.queue@, fetched_snap, step as int, q),
                forall|j: int|
                    #![trigger self.registry@[j]]
                    old(self).registry@.len() <= j < self.registry@.len() ==> recovered_id(
                        old(self).registry@,
                        old(db).rows@,
                        revision,
                        self.registry@[j].id@,
                    ) && recovered_channel_at(
                        self.registry@,
                        self.queue@,
                        old(self).queue@.len() as int,
                        j,
                    ),
                forall|q: int|
                    #![trigger self.queue@[q]]
                    old(self).queue@.len() <= q < self.queue@.len() ==> recovered_id(
                        old(self).registry@,
                        old(db).rows@,
                        revision,
                        self.queue@[q].id@,
                    ),
                forall|q1: int, q2: int|
                    #![trigger self.queue@[q1], self.queue@[q2]]
                    old(self).queue@.len() <= q1 < q2 < self.queue@.len()
                        ==> queue_follows_fetched(self.queue@, fetched_snap, step as int, q1, q2),
                forall|i: int|
                    #![trigger db.rows@[i]]
                    0 <= i < old(db).rows@.len() ==> (db.rows@[i] == old(db).rows@[i] || db.rows@[i]
                        == (DbTask { state: TaskState::Error, ..old(db).rows@[i] })),
                forall|i: int|
                    0 <= i < old(db).rows@.len() && (forall|k: int|
                        0 <= k < step ==> (#[trigger] fetched_snap[k]).0@ != (
                        #[trigger] old(db).rows@[i]).id@) ==> db.rows@[i] == old(db).rows@[i],
                forall|i: int|
                    0 <= i < old(db).rows@.len() && !spec_recovery_admits(
                        #[trigger] old(db).rows@[i],
                        revision,
                    ) ==> db.rows@[i] == old(db).rows@[i],
                spec_resumed(
                    old(self).registry@,
                    old(db).rows@,
                    old(self).queue@.len() as int,
                    self.registry@,
                    self.queue@,
                    db.rows@,
                    revision,
                    fetched_snap,
                    step as int,
                ),
            decreases n - step,
        {
            let (id, bytes) = fetched.remove(0);
            let ghost q_at = self.queue@;
            let ghost reg_at = self.registry@;
            let ghost rows_at = db.rows@;
            proof {
                assert(fetched_snap.skip(step as int).remove(0) =~= fetched_snap.skip(
                    step as int + 1,
                ));
                assert(id@ == fetched_snap[step as int].0@);
                assert(bytes == fetched_snap[step as int].1);
                // If this pair's conditions hold — its id is carried by
                // no other pair — the row named by it still stands as
                // it did at entry, and its id is live now exactly when
                // it was live at entry.
                if fetched_distinct_at(fetched_snap, step as int) {
                    assert forall|i: int|
                        0 <= i < old(db).rows@.len() && (#[trigger] old(db).rows@[i]).id@ == id@
                        implies rows_at[i] == old(db).rows@[i] by {
                        assert(forall|k: int|
                            0 <= k < step ==> (#[trigger] fetched_snap[k]).0@ != old(db).rows@[i].id@);
                    }
                    assert(reg_has_id(reg_at, id@) == reg_has_id(old(self).registry@, id@)) by {
                        if reg_has_id(reg_at, id@) {
                            let j = choose|j: int|
                                0 <= j < reg_at.len() && (#[trigger] reg_at[j]).id@ == id@;
                            if j < old(self).registry@.len() {
                                assert(old(self).registry@[j].id@ == id@);
                            } else {
                                assert(reg_id_fetched(reg_at, fetched_snap, step as int, j));
                                let k = choose|k: int|
                                    0 <= k < step && (#[trigger] fetched_snap[k]).0@
                                        == reg_at[j].id@;
                                assert(false);
                            }
                        }
                        if reg_has_id(old(self).registry@, id@) {
                            let j = choose|j: int|
                                0 <= j < old(self).registry@.len() && (#[trigger] old(self).registry@[j]).id@ == id@;
                            assert(reg_at[j].id@ == id@);
                        }
                    }
                }
            }
            match db.find_by_id(id.as_str()) {
                Some(row_idx) => {
                    if Self::recovery_admits(db.row_at(row_idx), revision) {
                        if self.find_registry(id.as_str()).is_none() {
                            match bytes {
                                Some(b) => {
                                    let row = db.row_at(row_idx).duplicate();
                                    self.dispatch(&row, b);
                                    proof {
                                        assert forall|j: int|
                                            old(self).registry@.len() <= j < self.registry@.len()
                                            implies #[trigger] reg_id_fetched(
                                            self.registry@,
                                            fetched_snap,
                                            step + 1,
                                            j,
                                        ) by {
                                            if j < reg_at.len() {
                                                assert(self.registry@[j] == reg_at[j]);
                                                assert(reg_id_fetched(reg_at, fetched_snap, step as int, j));
                                                let k = choose|k: int|
                                                    0 <= k < step && (#[trigger] fetched_snap[k]).0@
                                                        == reg_at[j].id@;
                                                assert(fetched_snap[k].0@ == self.registry@[j].id@);
                                            } else {
                                                assert(self.registry@[j].id@ == id@);
                                                assert(fetched_snap[step as int].0@
                                                    == self.registry@[j].id@);
                                            }
                                        }
                                        assert forall|q: int|
                                            old(self).queue@.len() <= q < self.queue@.len()
                                            implies #[trigger] queue_id_fetched(
                                            self.queue@,
                                            fetched_snap,
                                            step + 1,
                                            q,
                                        ) by {
                                            if q < q_at.len() {
                                                assert(self.queue@[q] == q_at[q]);
                                                assert(queue_id_fetched(q_at, fetched_snap, step as int, q));
                                                let k = choose|k: int|
                                                    0 <= k < step && (#[trigger] fetched_snap[k]).0@
                                                        == q_at[q].id@ && fetched_snap[k].1 is Some;
                                                assert(fetched_snap[k].0@ == self.queue@[q].id@);
                                            } else {
                                                assert(self.queue@[q].id@ == id@);
                                                assert(fetched_snap[step as int].0@
                                                    == self.queue@[q].id@);
                                                assert(fetched_snap[step as int].1 is Some);
                                            }
                                        }
                                        // The claimed row stands as it did
                                        // at entry: a marked row is never
                                        // admitted.
                                        assert(rows_at[row_idx as int] == old(db).rows@[row_idx as int]) by {
                                            if rows_at[row_idx as int] != old(db).rows@[row_idx as int] {
                                                assert(rows_at[row_idx as int].state == TaskState::Error);
                                            }
                                        }
                                        // Its id was not live at entry: the
                                        // entry registry persists into the
                                        // checked one.
                                        assert(recovered_id(
                                            old(self).registry@,
                                            old(db).rows@,
                                            revision,
                                            id@,
                                        )) by {
                                            if reg_has_id(old(self).registry@, id@) {
                                                let w = choose|w: int|
                                                    0 <= w < old(self).registry@.len() && (
                                                    #[trigger] old(self).registry@[w]).id@ == id@;
                                                assert(reg_at[w].id@ == id@);
                                                assert(false);
                                            }
                                            assert(old(db).rows@[row_idx as int].id@ == id@);
                                        }
                                        assert forall|j: int|
                                            #![trigger self.registry@[j]]
                                            old(self).registry@.len() <= j < self.registry@.len()
                                            implies recovered_id(
                                            old(self).registry@,
                                            old(db).rows@,
                                            revision,
                                            self.registry@[j].id@,
                                        ) && recovered_channel_at(
                                            self.registry@,
                                            self.queue@,
                                            old(self).queue@.len() as int,
                                            j,
                                        ) by {
                                            if j < reg_at.len() {
                                                assert(self.registry@[j] == reg_at[j]);
                                                assert(recovered_id(
                                                    old(self).registry@,
                                                    old(db).rows@,
                                                    revision,
                                                    reg_at[j].id@,
                                                ));
                                                assert(recovered_channel_at(
                                                    reg_at,
                                                    q_at,
                                                    old(self).queue@.len() as int,
                                                    j,
                                                ));
                                                let p = choose|p: int|
                                                    old(self).queue@.len() <= p < q_at.len() && (
                                                    #[trigger] q_at[p]).id@ == reg_at[j].id@
                                                        && reg_at[j].chan.history() == seq![
                                                        TaskWatchMessage::Pending(p as usize),
                                                    ];
                                                assert(self.queue@[p] == q_at[p]);
                                            } else {
                                                assert(self.registry@[j].id@ == id@);
                                                let p = q_at.len() as int;
                                                assert(self.queue@[p].id@ == id@);
                                                assert(self.registry@[j].chan.history() == seq![
                                                    TaskWatchMessage::Pending(p as usize),
                                                ]);
                                            }
                                        }
                                        assert forall|q: int|
                                            #![trigger self.queue@[q]]
                                            old(self).queue@.len() <= q < self.queue@.len()
                                            implies recovered_id(
                                            old(self).registry@,
                                            old(db).rows@,
                                            revision,
                                            self.queue@[q].id@,
                                        ) by {
                                            if q < q_at.len() {
                                                assert(self.queue@[q] == q_at[q]);
                                                assert(recovered_id(
                                                    old(self).registry@,
                                                    old(db).rows@,
                                                    revision,
                                                    q_at[q].id@,
                                                ));
                                            } else {
                                                assert(self.queue@[q].id@ == id@);
                                            }
                                        }
                                        assert forall|q1: int, q2: int|
                                            #![trigger self.queue@[q1], self.queue@[q2]]
                                            old(self).queue@.len() <= q1 < q2 < self.queue@.len()
                                            implies queue_follows_fetched(
                                            self.queue@,
                                            fetched_snap,
                                            step + 1,
                                            q1,
                                            q2,
                                        ) by {
                                            if q2 < q_at.len() {
                                                assert(queue_follows_fetched(
                                                    q_at,
                                                    fetched_snap,
                                                    step as int,
                                                    q1,
                                                    q2,
                                                ));
                                                let (k1, k2) = choose|k1: int, k2: int|
                                                    #![trigger fetched_snap[k1], fetched_snap[k2]]
                                                    0 <= k1 < k2 < step && fetched_snap[k1].0@
                                                        == q_at[q1].id@ && fetched_snap[k2].0@
                                                        == q_at[q2].id@ && fetched_snap[k1].1 is Some
                                                        && fetched_snap[k2].1 is Some;
                                                assert(self.queue@[q1] == q_at[q1]);
                                                assert(self.queue@[q2] == q_at[q2]);
                                            } else {
                                                assert(self.queue@[q2].id@ == id@);
                                                assert(q1 < q_at.len());
                                                assert(self.queue@[q1] == q_at[q1]);
                                                assert(queue_id_fetched(
                                                    q_at,
                                                    fetched_snap,
                                                    step as int,
                                                    q1,
                                                ));
                                                let k1 = choose|k1: int|
                                                    0 <= k1 < step && (#[trigger] fetched_snap[k1]).0@
                                                        == q_at[q1].id@ && fetched_snap[k1].1 is Some;
                                                assert(fetched_snap[step as int].0@ == id@);
                                                assert(fetched_snap[step as int].1 is Some);
                                            }
                                        }
                                        assert forall|k: int, i: int|
                                            #![trigger fetched_snap[k], old(db).rows@[i]]
                                            resumed_pair_due(
                                                old(self).registry@,
                                                old(db).rows@,
                                                revision,
                                                fetched_snap,
                                                step as int + 1,
                                                k,
                                                i,
                                            ) implies resumed_pair_done(
                                            old(db).rows@,
                                            old(self).queue@.len() as int,
                                            self.registry@,
                                            self.queue@,
                                            db.rows@,
                                            fetched_snap,
                                            k,
                                            i,
                                        ) by {
                                            if k < step {
                                                lemma_resumed_pair_carried(
                                                    old(db).rows@,
                                                    old(self).queue@.len() as int,
                                                    reg_at,
                                                    q_at,
                                                    rows_at,
                                                    self.registry@,
                                                    self.queue@,
                                                    db.rows@,
                                                    fetched_snap,
                                                    k,
                                                    i,
                                                );
                                            } else {
                                                assert(rows_at[i] == old(db).rows@[i]);
                                                assert(rows_at[row_idx as int].id@ == id@);
                                                assert(i == row_idx as int);
                                                assert(self.registry@.last().id@ == id@);
                                                let q = self.queue@.len() - 1;
                                                assert(self.queue@[q].id@ == id@);
                                            }
                                        }
                                    }
                                },
                                None => {
                                    db.set_error(id.as_str());
                                    proof {
                        lemma_recovery_marks_carried(
                            old(self).registry@.len() as int,
                            old(self).queue@.len() as int,
                            self.registry@,
                            self.queue@,
                            fetched_snap,
                            step as int,
                        );
                                        assert forall|j: int|
                                            0 <= j < old(db).rows@.len() implies (
                                        #[trigger] db.rows@[j]).id@ == old(db).rows@[j].id@ by {
                                            assert(rows_at[j].id@ == old(db).rows@[j].id@);
                                            if rows_at[j].id@ == id@ {
                                                assert(db.rows@[j] == (DbTask {
                                                    state: TaskState::Error,
                                                    ..rows_at[j]
                                                }));
                                            } else {
                                                assert(db.rows@[j] == rows_at[j]);
                                            }
                                        }
                                        assert forall|i: int|
                                            #![trigger db.rows@[i]]
                                            0 <= i < old(db).rows@.len() implies (db.rows@[i]
                                            == old(db).rows@[i] || db.rows@[i] == (DbTask {
                                            state: TaskState::Error,
                                            ..old(db).rows@[i]
                                        })) by {
                                            if rows_at[i].id@ == id@ {
                                                assert(db.rows@[i] == (DbTask {
                                                    state: TaskState::Error,
                                                    ..rows_at[i]
                                                }));
                                            } else {
                                                assert(db.rows@[i] == rows_at[i]);
                                            }
                                        }
                                        assert forall|k: int, i: int|
                                            #![trigger fetched_snap[k], old(db).rows@[i]]
                                            resumed_pair_due(
                                                old(self).registry@,
                                                old(db).rows@,
                                                revision,
                                                fetched_snap,
                                                step as int + 1,
                                                k,
                                                i,
                                            ) implies resumed_pair_done(
                                            old(db).rows@,
                                            old(self).queue@.len() as int,
                                            self.registry@,
                                            self.queue@,
                                            db.rows@,
                                            fetched_snap,
                                            k,
                                            i,
                                        ) by {
                                            if k < step {
                                                assert(fetched_snap[k].0@ != id@);
                                                assert forall|i2: int|
                                                    0 <= i2 < old(db).rows@.len() && (
                                                    #[trigger] old(db).rows@[i2]).id@
                                                        == fetched_snap[k].0@ implies db.rows@[i2]
                                                    == rows_at[i2] by {
                                                    assert(rows_at[i2].id@ != id@);
                                                }
                                                lemma_resumed_pair_carried(
                                                    old(db).rows@,
                                                    old(self).queue@.len() as int,
                                                    reg_at,
                                                    q_at,
                                                    rows_at,
                                                    self.registry@,
                                                    self.queue@,
                                                    db.rows@,
                                                    fetched_snap,
                                                    k,
                                                    i,
                                                );
                                            } else {
                                                assert(rows_at[i] == old(db).rows@[i]);
                                                assert(rows_at[row_idx as int].id@ == id@);
                                                assert(i == row_idx as int);
                                                assert(db.rows@[i] == (DbTask {
                                                    state: TaskState::Error,
                                                    ..rows_at[i]
                                                }));
                                            }
                                        }
                                    }
                                },
                            }
                        } else {
                            proof {
                        lemma_recovery_marks_carried(
                            old(self).registry@.len() as int,
                            old(self).queue@.len() as int,
                            self.registry@,
                            self.queue@,
                            fetched_snap,
                            step as int,
                        );
                                assert forall|k: int, i: int|
                                    #![trigger fetched_snap[k], old(db).rows@[i]]
                                    resumed_pair_due(
                                        old(self).registry@,
                                        old(db).rows@,
                                        revision,
                                        fetched_snap,
                                        step as int + 1,
                                        k,
                                        i,
                                    ) implies resumed_pair_done(
                                    old(db).rows@,
                                    old(self).queue@.len() as int,
                                    self.registry@,
                                    self.queue@,
                                    db.rows@,
                                    fetched_snap,
                                    k,
                                    i,
                                ) by {
                                    if k == step {
                                        // The id is live, and by the entry
                                        // relation it was live at entry,
                                        // contradicting the pair's conditions.
                                        assert(reg_has_id(reg_at, id@));
                                        assert(reg_has_id(old(self).registry@, id@));
                                        assert(old(self).spec_in_registry(id@)) by {
                                            let j = choose|j: int|
                                                0 <= j < old(self).registry@.len() && (
                                                #[trigger] old(self).registry@[j]).id@ == id@;
                                            assert(old(self).registry@[j].id@ == id@);
                                        }
                                        assert(false);
                                    }
                                }
                            }
                        }
                    } else {
                        proof {
                        lemma_recovery_marks_carried(
                            old(self).registry@.len() as int,
                            old(self).queue@.len() as int,
                            self.registry@,
                            self.queue@,
                            fetched_snap,
                            step as int,
                        );
                            assert forall|k: int, i: int|
                                #![trigger fetched_snap[k], old(db).rows@[i]]
                                resumed_pair_due(
                                    old(self).registry@,
                                    old(db).rows@,
                                    revision,
                                    fetched_snap,
                                    step as int + 1,
                                    k,
                                    i,
                                ) implies resumed_pair_done(
                                old(db).rows@,
                                old(self).queue@.len() as int,
                                self.registry@,
                                self.queue@,
                                db.rows@,
                                fetched_snap,
                                k,
                                i,
                            ) by {
                                if k == step {
                                    // The current row is the entry row, so
                                    // the recovery filter would have
                                    // admitted it.
                                    assert(rows_at[i] == old(db).rows@[i]);
                                    assert(rows_at[row_idx as int].id@ == id@);
                                    assert(i == row_idx as int);
                                    assert(false);
                                }
                            }
                        }
                    }
                },
                None => {
                    proof {
                        lemma_recovery_marks_carried(
                            old(self).registry@.len() as int,
                            old(self).queue@.len() as int,
                            self.registry@,
                            self.queue@,
                            fetched_snap,
                            step as int,
                        );
                        assert forall|k: int, i: int|
                            #![trigger fetched_snap[k], old(db).rows@[i]]
                            resumed_pair_due(
                                old(self).registry@,
                                old(db).rows@,
                                revision,
                                fetched_snap,
                                step as int + 1,
                                k,
                                i,
                            ) implies resumed_pair_done(
                            old(db).rows@,
                            old(self).queue@.len() as int,
                            self.registry@,
                            self.queue@,
                            db.rows@,
                            fetched_snap,
                            k,
                            i,
                        ) by {
                            if k == step {
                                // The entry row still stands under this
                                // id, so the lookup could not have missed.
                                assert(rows_at[i] == old(db).rows@[i]);
                                assert(rows_at[i].id@ == id@);
                                assert(!db.spec_has_id(id@));
                                assert(false);
                            }
                        }
                    }
                },
            }
            step = step + 1;
        }
    }
}

impl MITWorkersInner {
    /// The assignment frame for an executing task: its id, its source
    /// image, and the parameter tuple as wire strings.
    pub fn new_task_message(&self, id: &str) -> (r: Option<crate::wire::NewTask>)
        requires
            self.wf(),
        ensures
            (match r {
                Some(m) => exists|k: int|
                    0 <= k < self.executing@.len() && (#[trigger] self.executing@[k]).id@ == id@
                        && m.id@ == self.executing@[k].id@ && m.source_image@
                        == self.executing@[k].source_image@ && m.target_language@
                        == crate::params::language_str(self.executing@[k].param.target_language)
                        && m.detector@ == crate::params::detector_str(
                        self.executing@[k].param.detector,
                    ) && m.direction@ == crate::params::direction_str(
                        self.executing@[k].param.direction,
                    ) && m.translator@ == crate::params::translator_str(
                        self.executing@[k].param.translator,
                    ) && m.size@ == crate::params::size_str(self.executing@[k].param.size),
                None => !self.spec_in_executing(id@),
            }),
    {
        match self.find_executing(id) {
            Some(k) => {
                let task = &self.executing[k];
                Some(
                    crate::wire::NewTask {
                        id: task.id.clone(),
                        source_image: task.source_image.clone(),
                        target_language: task.param.target_language.as_str().to_owned(),
                        detector: task.param.detector.as_str().to_owned(),
                        direction: task.param.direction.as_str().to_owned(),
                        translator: task.param.translator.as_str().to_owned(),
                        size: task.param.size.as_str().to_owned(),
                    },
                )
            },
            None => None,
        }
    }
}

/// What a worker session does with one incoming message while a task
/// executes on it.
#[derive(Debug)]
pub enum ExecuteAction {
    /// Publish the reported phase on the task's channel.
    PublishStatus(String),
    /// Store these mask bytes and settle the task as done.
    Finish(Vec<u8>),
    /// A message about another task, or a task assignment: ignored.
    Ignore,
}

/// Decides one step of the executing protocol: a phase report for the
/// running task is published, its finish message ends the task, and a
/// message with a mismatched id — or a stray task assignment — is
/// ignored.
pub fn execute_step(task_id: &str, msg: crate::wire::WorkerMessage) -> (r: ExecuteAction)
    ensures
        (match msg {
            crate::wire::WorkerMessage::Status(s) => {
                if s.id@ == task_id@ {
                    r matches ExecuteAction::PublishStatus(p) && p@ == s.status@
                } else {
                    r is Ignore
                }
            },
            crate::wire::WorkerMessage::FinishTask(f) => {
                if f.id@ == task_id@ {
                    r matches ExecuteAction::Finish(b) && b@ == f.translation_mask@
                } else {
                    r is Ignore
                }
            },
            crate::wire::WorkerMessage::NewTask(_) => r is Ignore,
        }),
{
    match msg {
        crate::wire::WorkerMessage::Status(s) => {
            if crate::params::str_eq(s.id.as_str(), task_id) {
                ExecuteAction::PublishStatus(s.status)
            } else {
                ExecuteAction::Ignore
            }
        },
        crate::wire::WorkerMessage::FinishTask(f) => {
            if crate::params::str_eq(f.id.as_str(), task_id) {
                ExecuteAction::Finish(f.translation_mask)
            } else {
                ExecuteAction::Ignore
            }
        },
        crate::wire::WorkerMessage::NewTask(_) => ExecuteAction::Ignore,
    }
}

/// One thing a worker socket can yield while the session waits.
#[derive(Debug)]
pub enum SocketEvent {
    /// The queue signalled new work.
    Notified,
    /// A ping frame with its payload.
    Ping(Vec<u8>),
    /// A close frame.
    Close,
    /// The socket ended or failed.
    Gone,
    /// A binary frame with its payload.
    Binary(Vec<u8>),
    /// Any other frame.
    Other,
    /// The inactivity timeout elapsed.
    Timeout,
}

/// What an idle session does with a socket event.
#[derive(Debug)]
pub enum IdleAction {
    /// Try to claim a task from the queue.
    TryPop,
    /// Answer a ping with this pong payload.
    Pong(Vec<u8>),
    /// End the session.
    Terminate,
    /// Keep waiting.
    KeepWaiting,
}

/// Decides one step of the idle loop: the queue's signal sends the
/// session to the queue, pings are answered, a closed or failed socket
/// ends the session, anything else is waited out.
pub fn idle_step(ev: SocketEvent) -> (r: IdleAction)
    ensures
        (match ev {
            SocketEvent::Notified => r is TryPop,
            SocketEvent::Ping(p) => r matches IdleAction::Pong(q) && q@ == p@,
            SocketEvent::Close => r is Terminate,
            SocketEvent::Gone => r is Terminate,
            SocketEvent::Binary(_) => r is KeepWaiting,
            SocketEvent::Other => r is KeepWaiting,
            SocketEvent::Timeout => r is KeepWaiting,
        }),
{
    match ev {
        SocketEvent::Notified => IdleAction::TryPop,
        SocketEvent::Ping(p) => IdleAction::Pong(p),
        SocketEvent::Close => IdleAction::Terminate,
        SocketEvent::Gone => IdleAction::Terminate,
        SocketEvent::Binary(_) => IdleAction::KeepWaiting,
        SocketEvent::Other => IdleAction::KeepWaiting,
        SocketEvent::Timeout => IdleAction::KeepWaiting,
    }
}

/// What the executing receive loop does with a socket event.
#[derive(Debug)]
pub enum RecvAction {
    /// A protocol message arrived.
    Deliver(crate::wire::WorkerMessage),
    /// Answer a ping with this pong payload.
    Pong(Vec<u8>),
    /// Ignore the frame and keep receiving.
    Skip,
    /// The attempt failed: timeout, closed socket, or a frame that is
    /// no protocol message.
    Fail,
}

/// Decides one step of the executing receive loop: a binary frame is
/// decoded and delivered, pings are answered, other frames are
/// skipped, and a timeout, a closed or failed socket or an undecodable
/// frame fails the attempt.
pub fn recv_step(ev: SocketEvent) -> (r: RecvAction)
    ensures
        (match ev {
            SocketEvent::Binary(b) => {
                match r {
                    RecvAction::Deliver(m) => crate::wire::spec_decode(b@) == Some(
                        crate::wire::view_of(m),
                    ),
                    RecvAction::Fail => crate::wire::spec_decode(b@) is None,
                    _ => false,
                }
            },
            SocketEvent::Ping(p) => r matches RecvAction::Pong(q) && q@ == p@,
            SocketEvent::Other => r is Skip,
            SocketEvent::Notified => r is Skip,
            SocketEvent::Timeout => r is Fail,
            SocketEvent::Close => r is Fail,
            SocketEvent::Gone => r is Fail,
        }),
{
    match ev {
        SocketEvent::Binary(b) => {
            match crate::wire::decode_worker_message(b.as_slice()) {
                Some(m) => RecvAction::Deliver(m),
                None => RecvAction::Fail,
            }
        },
        SocketEvent::Ping(p) => RecvAction::Pong(p),
        SocketEvent::Other => RecvAction::Skip,
        SocketEvent::Notified => RecvAction::Skip,
        SocketEvent::Timeout => RecvAction::Fail,
        SocketEvent::Close => RecvAction::Fail,
        SocketEvent::Gone => RecvAction::Fail,
    }
}

/// Whether a registry sequence holds an entry with this id.
pub open spec fn reg_has_id(reg: Seq<RegistryEntry>, id: Seq<char>) -> bool {
    exists|j: int| 0 <= j < reg.len() && (#[trigger] reg[j]).id@ == id
}

/// Whether a registry entry's id is carried by one of the first
/// `upto` fetched pairs.
pub open spec fn reg_id_fetched(
    reg: Seq<RegistryEntry>,
    fetched: Seq<(String, Option<Vec<u8>>)>,
    upto: int,
    j: int,
) -> bool {
    exists|k: int| 0 <= k < upto && (#[trigger] fetched[k]).0@ == reg[j].id@
}

/// Whether a queued task's id is carried by one of the first `upto`
/// fetched pairs together with loaded bytes.
pub open spec fn queue_id_fetched(
    q: Seq<Task>,
    fetched: Seq<(String, Option<Vec<u8>>)>,
    upto: int,
    qi: int,
) -> bool {
    exists|k: int|
        0 <= k < upto && (#[trigger] fetched[k]).0@ == q[qi].id@ && fetched[k].1 is Some
}

/// Whether an id may be registered by recovery: it was not live at
/// entry and it names a row the recovery filter admits.
pub open spec fn recovered_id(
    pre_reg: Seq<RegistryEntry>,
    pre_rows: Seq<DbTask>,
    revision: i32,
    id: Seq<char>,
) -> bool {
    &&& !reg_has_id(pre_reg, id)
    &&& exists|i: int|
        0 <= i < pre_rows.len() && (#[trigger] pre_rows[i]).id@ == id && spec_recovery_admits(
            pre_rows[i],
            revision,
        )
}

/// Whether two queued tasks stand in the order of fetched pairs that
/// loaded their bytes.
pub open spec fn queue_follows_fetched(
    q: Seq<Task>,
    fetched: Seq<(String, Option<Vec<u8>>)>,
    upto: int,
    q1: int,
    q2: int,
) -> bool {
    exists|k1: int, k2: int|
        #![trigger fetched[k1], fetched[k2]]
        0 <= k1 < k2 < upto && fetched[k1].0@ == q[q1].id@ && fetched[k2].0@ == q[q2].id@
            && fetched[k1].1 is Some && fetched[k2].1 is Some
}

/// Whether a registry entry opened by recovery announces exactly its
/// task's queue position as its initial message.
pub open spec fn recovered_channel_at(
    reg: Seq<RegistryEntry>,
    q: Seq<Task>,
    pre_queue_len: int,
    j: int,
) -> bool {
    exists|p: int|
        pre_queue_len <= p < q.len() && (#[trigger] q[p]).id@ == reg[j].id@
            && reg[j].chan.history() == seq![TaskWatchMessage::Pending(p as usize)]
}

/// Whether no other fetched pair carries the same id.
pub open spec fn fetched_distinct_at(fetched: Seq<(String, Option<Vec<u8>>)>, k: int) -> bool {
    forall|k2: int|
        0 <= k2 < fetched.len() && k2 != k ==> (#[trigger] fetched[k2]).0@ != fetched[k].0@
}

/// Whether recovery owes work for the fetched pair `k` and the row
/// `i`: the pair is among the first `upto`, its id is carried by no
/// other pair, the row carries that id, the recovery filter admits the
/// row, and its id was not live at entry.
pub open spec fn resumed_pair_due(
    pre_reg: Seq<RegistryEntry>,
    pre_rows: Seq<DbTask>,
    revision: i32,
    fetched: Seq<(String, Option<Vec<u8>>)>,
    upto: int,
    k: int,
    i: int,
) -> bool {
    &&& 0 <= k < upto <= fetched.len()
    &&& 0 <= i < pre_rows.len()
    &&& pre_rows[i].id@ == fetched[k].0@
    &&& spec_recovery_admits(pre_rows[i], revision)
    &&& fetched_distinct_at(fetched, k)
    &&& !reg_has_id(pre_reg, fetched[k].0@)
}

/// What recovery owes for the fetched pair `k` naming the row `i`:
/// with loaded bytes the task is registered and waits behind the
/// entry queue carrying the row's fields; without them the row is
/// marked failed.
pub open spec fn resumed_pair_done(
    pre_rows: Seq<DbTask>,
    pre_queue_len: int,
    post_reg: Seq<RegistryEntry>,
    post_q: Seq<Task>,
    post_rows: Seq<DbTask>,
    fetched: Seq<(String, Option<Vec<u8>>)>,
    k: int,
    i: int,
) -> bool {
    match fetched[k].1 {
        Some(bytes) => reg_has_id(post_reg, fetched[k].0@) && exists|q: int|
            pre_queue_len <= q < post_q.len() && (#[trigger] post_q[q]).id@ == fetched[k].0@
                && post_q[q].param == crate::task::param_of_db(pre_rows[i].param)
                && post_q[q].source_image@ == bytes@ && post_q[q].state == pre_rows[i].state
                && post_q[q].failed_count == pre_rows[i].failed_count,
        None => post_rows[i] == (DbTask { state: TaskState::Error, ..pre_rows[i] }),
    }
}

/// All work recovery owes for the first `upto` fetched pairs is done.
pub open spec fn spec_resumed(
    pre_reg: Seq<RegistryEntry>,
    pre_rows: Seq<DbTask>,
    pre_queue_len: int,
    post_reg: Seq<RegistryEntry>,
    post_q: Seq<Task>,
    post_rows: Seq<DbTask>,
    revision: i32,
    fetched: Seq<(String, Option<Vec<u8>>)>,
    upto: int,
) -> bool {
    forall|k: int, i: int|
        #![trigger fetched[k], pre_rows[i]]
        resumed_pair_due(pre_reg, pre_rows, revision, fetched, upto, k, i) ==> resumed_pair_done(
            pre_rows,
            pre_queue_len,
            post_reg,
            post_q,
            post_rows,
            fetched,
            k,
            i,
        )
}

/// When an iteration leaves registry and queue untouched, the
/// provenance and order facts carry to the longer fetched prefix.
proof fn lemma_recovery_marks_carried(
    pre_reg_len: int,
    pre_qlen: int,
    reg: Seq<RegistryEntry>,
    q: Seq<Task>,
    fetched: Seq<(String, Option<Vec<u8>>)>,
    step: int,
)
    requires
        0 <= step,
        forall|j: int|
            pre_reg_len <= j < reg.len() ==> #[trigger] reg_id_fetched(reg, fetched, step, j),
        forall|qq: int|
            pre_qlen <= qq < q.len() ==> #[trigger] queue_id_fetched(q, fetched, step, qq),
        forall|q1: int, q2: int|
            #![trigger q[q1], q[q2]]
            pre_qlen <= q1 < q2 < q.len() ==> queue_follows_fetched(q, fetched, step, q1, q2),
    ensures
        forall|j: int|
            pre_reg_len <= j < reg.len() ==> #[trigger] reg_id_fetched(reg, fetched, step + 1, j),
        forall|qq: int|
            pre_qlen <= qq < q.len() ==> #[trigger] queue_id_fetched(q, fetched, step + 1, qq),
        forall|q1: int, q2: int|
            #![trigger q[q1], q[q2]]
            pre_qlen <= q1 < q2 < q.len() ==> queue_follows_fetched(q, fetched, step + 1, q1, q2),
{
    assert forall|j: int|
        pre_reg_len <= j < reg.len() implies #[trigger] reg_id_fetched(
        reg,
        fetched,
        step + 1,
        j,
    ) by {
        assert(reg_id_fetched(reg, fetched, step, j));
        let k = choose|k: int| 0 <= k < step && (#[trigger] fetched[k]).0@ == reg[j].id@;
        assert(0 <= k < step + 1 && fetched[k].0@ == reg[j].id@);
    }
    assert forall|qq: int|
        pre_qlen <= qq < q.len() implies #[trigger] queue_id_fetched(q, fetched, step + 1, qq) by {
        assert(queue_id_fetched(q, fetched, step, qq));
        let k = choose|k: int|
            0 <= k < step && (#[trigger] fetched[k]).0@ == q[qq].id@ && fetched[k].1 is Some;
        assert(0 <= k < step + 1 && fetched[k].0@ == q[qq].id@ && fetched[k].1 is Some);
    }
    assert forall|q1: int, q2: int|
        #![trigger q[q1], q[q2]]
        pre_qlen <= q1 < q2 < q.len() implies queue_follows_fetched(q, fetched, step + 1, q1, q2) by {
        assert(queue_follows_fetched(q, fetched, step, q1, q2));
        let (k1, k2) = choose|k1: int, k2: int|
            #![trigger fetched[k1], fetched[k2]]
            0 <= k1 < k2 < step && fetched[k1].0@ == q[q1].id@ && fetched[k2].0@ == q[q2].id@
                && fetched[k1].1 is Some && fetched[k2].1 is Some;
        assert(0 <= k1 < k2 < step + 1 && fetched[k1].0@ == q[q1].id@ && fetched[k2].0@
            == q[q2].id@ && fetched[k1].1 is Some && fetched[k2].1 is Some);
    }
}

/// Work already done for a pair stays done when registry and queue
/// only grow by appends and the row the pair names keeps its value.
proof fn lemma_resumed_pair_carried(
    pre_rows: Seq<DbTask>,
    pre_queue_len: int,
    mid_reg: Seq<RegistryEntry>,
    mid_q: Seq<Task>,
    mid_rows: Seq<DbTask>,
    post_reg: Seq<RegistryEntry>,
    post_q: Seq<Task>,
    post_rows: Seq<DbTask>,
    fetched: Seq<(String, Option<Vec<u8>>)>,
    k: int,
    i: int,
)
    requires
        0 <= k < fetched.len(),
        0 <= i < pre_rows.len(),
        0 <= pre_queue_len,
        resumed_pair_done(pre_rows, pre_queue_len, mid_reg, mid_q, mid_rows, fetched, k, i),
        post_reg.len() >= mid_reg.len(),
        forall|j: int| 0 <= j < mid_reg.len() ==> post_reg[j] == mid_reg[j],
        post_q.len() >= mid_q.len(),
        forall|q: int| 0 <= q < mid_q.len() ==> post_q[q] == mid_q[q],
        fetched[k].1 is None ==> post_rows[i] == mid_rows[i],
    ensures
        resumed_pair_done(pre_rows, pre_queue_len, post_reg, post_q, post_rows, fetched, k, i),
{
    match fetched[k].1 {
        Some(bytes) => {
            let j = choose|j: int|
                0 <= j < mid_reg.len() && (#[trigger] mid_reg[j]).id@ == fetched[k].0@;
            assert(post_reg[j].id@ == fetched[k].0@);
            let q = choose|q: int|
                pre_queue_len <= q < mid_q.len() && (#[trigger] mid_q[q]).id@ == fetched[k].0@
                    && mid_q[q].param == crate::task::param_of_db(pre_rows[i].param)
                    && mid_q[q].source_image@ == bytes@ && mid_q[q].state == pre_rows[i].state
                    && mid_q[q].failed_count == pre_rows[i].failed_count;
            assert(post_q[q] == mid_q[q]);
        },
        None => {},
    }
}

/// The pairs recovery must fetch, in table order: the id and source
/// image key of every row the recovery filter admits.
pub open spec fn spec_recovery_candidates(rows: Seq<DbTask>, revision: i32) -> Seq<
    (Seq<char>, Seq<char>),
>
    decreases rows.len(),
{
    if rows.len() == 0 {
        Seq::empty()
    } else {
        let rest = spec_recovery_candidates(rows.drop_last(), revision);
        if spec_recovery_admits(rows.last(), revision) {
            rest.push((rows.last().id@, rows.last().source_image_file@))
        } else {
            rest
        }
    }
}

/// Walks the table and collects, in table order, the id and source
/// image key of every row the recovery filter admits; the caller
/// fetches those sources and hands the pairs to `resume`.
pub fn recovery_candidates(db: &TaskTable, revision: i32) -> (r: Vec<(String, String)>)
    ensures
        r@.map_values(|p: (String, String)| (p.0@, p.1@)) == spec_recovery_candidates(
            db.rows@,
            revision,
        ),
{
    let n = db.len();
    let mut out: Vec<(String, String)> = Vec::new();
    for i in 0..n
        invariant
            n == db.rows@.len(),
            out@.map_values(|p: (String, String)| (p.0@, p.1@)) == spec_recovery_candidates(
                db.rows@.subrange(0, i as int),
                revision,
            ),
    {
        proof {
            assert(db.rows@.subrange(0, i + 1).drop_last() =~= db.rows@.subrange(0, i as int));
            assert(db.rows@.subrange(0, i + 1).last() == db.rows@[i as int]);
        }
        let row = db.row_at(i);
        if MITWorkersInner::recovery_admits(row, revision) {
            out.push((row.id.clone(), row.source_image_file.clone()));
            proof {
                assert(out@.map_values(|p: (String, String)| (p.0@, p.1@))
                    =~= spec_recovery_candidates(db.rows@.subrange(0, i + 1), revision));
            }
        }
        proof {
            assert(out@.map_values(|p: (String, String)| (p.0@, p.1@)) =~= spec_recovery_candidates(
                db.rows@.subrange(0, i + 1),
                revision,
            ));
        }
    }
    proof {
        assert(db.rows@.subrange(0, db.rows@.len() as int) =~= db.rows@);
    }
    out
}

/// Whether recovery replays a row.
pub open spec fn spec_recovery_admits(row: DbTask, revision: i32) -> bool {
    &&& row.worker_revision == revision
    &&& row.state != TaskState::Done
    &&& row.state != TaskState::Error
    &&& 0 <= row.failed_count < 3
}

/// A scheduler whose queue, executing set and registry kept their ids,
/// their sizes and admissible tasks pointwise stays well formed.
proof fn lemma_same_shape_wf(pre: &MITWorkersInner, post: &MITWorkersInner)
    requires
        pre.wf(),
        post.queue@.len() == pre.queue@.len(),
        forall|i: int|
            0 <= i < pre.queue@.len() ==> (#[trigger] post.queue@[i]).id@ == pre.queue@[i].id@
                && MITWorkersInner::task_admissible(post.queue@[i]),
        post.executing@.len() == pre.executing@.len(),
        forall|i: int|
            0 <= i < pre.executing@.len() ==> (#[trigger] post.executing@[i]).id@
                == pre.executing@[i].id@ && MITWorkersInner::task_admissible(post.executing@[i]),
        post.registry@.len() == pre.registry@.len(),
        forall|j: int|
            0 <= j < pre.registry@.len() ==> (#[trigger] post.registry@[j]).id@
                == pre.registry@[j].id@ && post.registry@[j].chan.wf()
                && post.registry@[j].chan.is_open(),
    ensures
        post.wf(),
{
    assert forall|i: int| 0 <= i < post.queue@.len() implies !post.spec_in_executing(
        (#[trigger] post.queue@[i]).id@,
    ) by {
        if post.spec_in_executing(post.queue@[i].id@) {
            let w = choose|w: int|
                0 <= w < post.executing@.len() && (#[trigger] post.executing@[w]).id@
                    == post.queue@[i].id@;
            assert(pre.executing@[w].id@ == pre.queue@[i].id@);
            assert(pre.spec_in_executing(pre.queue@[i].id@));
        }
    }
    assert forall|i: int| 0 <= i < post.queue@.len() implies post.spec_in_registry(
        (#[trigger] post.queue@[i]).id@,
    ) by {
        assert(pre.spec_in_registry(pre.queue@[i].id@));
        let w = choose|w: int|
            0 <= w < pre.registry@.len() && (#[trigger] pre.registry@[w]).id@
                == pre.queue@[i].id@;
        assert(post.registry@[w].id@ == post.queue@[i].id@);
    }
    assert forall|i: int| 0 <= i < post.executing@.len() implies post.spec_in_registry(
        (#[trigger] post.executing@[i]).id@,
    ) by {
        assert(pre.spec_in_registry(pre.executing@[i].id@));
        let w = choose|w: int|
            0 <= w < pre.registry@.len() && (#[trigger] pre.registry@[w]).id@
                == pre.executing@[i].id@;
        assert(post.registry@[w].id@ == post.executing@[i].id@);
    }
    assert forall|i: int| 0 <= i < post.registry@.len() implies (post.spec_in_queue(
        (#[trigger] post.registry@[i]).id@,
    ) || post.spec_in_executing(post.registry@[i].id@)) by {
        assert(pre.spec_in_queue(pre.registry@[i].id@) || pre.spec_in_executing(
            pre.registry@[i].id@,
        ));
        if pre.spec_in_queue(pre.registry@[i].id@) {
            let w = choose|w: int|
                0 <= w < pre.queue@.len() && (#[trigger] pre.queue@[w]).id@
                    == pre.registry@[i].id@;
            assert(post.queue@[w].id@ == post.registry@[i].id@);
        } else {
            let w = choose|w: int|
                0 <= w < pre.executing@.len() && (#[trigger] pre.executing@[w]).id@
                    == pre.registry@[i].id@;
            assert(post.executing@[w].id@ == post.registry@[i].id@);
        }
    }
}

/// Removing one task from the executing set together with its registry
/// entry keeps the scheduler well formed.
proof fn lemma_remove_wf(pre: &MITWorkersInner, post: &MITWorkersInner, j: int, k: int)
    requires
        pre.wf(),
        0 <= j < pre.registry@.len(),
        0 <= k < pre.executing@.len(),
        pre.registry@[j].id@ == pre.executing@[k].id@,
        post.queue@ == pre.queue@,
        post.executing@ == pre.executing@.remove(k),
        post.registry@ == pre.registry@.remove(j),
    ensures
        post.wf(),
{
    assert(forall|w: int| 0 <= w < j ==> post.registry@[w] == pre.registry@[w]);
    assert(forall|w: int|
        j <= w < post.registry@.len() ==> post.registry@[w] == pre.registry@[w + 1]);
    assert(forall|w: int| 0 <= w < k ==> post.executing@[w] == pre.executing@[w]);
    assert(forall|w: int|
        k <= w < post.executing@.len() ==> post.executing@[w] == pre.executing@[w + 1]);
    assert forall|i: int| 0 <= i < post.queue@.len() implies !post.spec_in_executing(
        (#[trigger] post.queue@[i]).id@,
    ) by {
        if post.spec_in_executing(post.queue@[i].id@) {
            let w = choose|w: int|
                0 <= w < post.executing@.len() && (#[trigger] post.executing@[w]).id@
                    == post.queue@[i].id@;
            assert(!pre.spec_in_executing(pre.queue@[i].id@));
            if w < k {
                assert(pre.executing@[w].id@ == pre.queue@[i].id@);
            } else {
                assert(pre.executing@[w + 1].id@ == pre.queue@[i].id@);
            }
        }
    }
    assert forall|i: int| 0 <= i < post.queue@.len() implies post.spec_in_registry(
        (#[trigger] post.queue@[i]).id@,
    ) by {
        assert(pre.spec_in_registry(pre.queue@[i].id@));
        let w = choose|w: int|
            0 <= w < pre.registry@.len() && (#[trigger] pre.registry@[w]).id@
                == pre.queue@[i].id@;
        if w == j {
            assert(pre.spec_in_executing(pre.queue@[i].id@));
            assert(false);
        } else if w < j {
            assert(post.registry@[w].id@ == post.queue@[i].id@);
        } else {
            assert(post.registry@[w - 1].id@ == post.queue@[i].id@);
        }
    }
    assert forall|i: int| 0 <= i < post.executing@.len() implies post.spec_in_registry(
        (#[trigger] post.executing@[i]).id@,
    ) by {
        let src: int = if i < k {
            i
        } else {
            i + 1
        };
        assert(post.executing@[i] == pre.executing@[src]);
        assert(pre.spec_in_registry(pre.executing@[src].id@));
        let w = choose|w: int|
            0 <= w < pre.registry@.len() && (#[trigger] pre.registry@[w]).id@
                == pre.executing@[src].id@;
        if w == j {
            assert(pre.executing@[src].id@ == pre.executing@[k].id@);
            assert(src != k);
            assert(false);
        } else if w < j {
            assert(post.registry@[w].id@ == post.executing@[i].id@);
        } else {
            assert(post.registry@[w - 1].id@ == post.executing@[i].id@);
        }
    }
    assert forall|i: int| 0 <= i < post.registry@.len() implies (post.spec_in_queue(
        (#[trigger] post.registry@[i]).id@,
    ) || post.spec_in_executing(post.registry@[i].id@)) by {
        let src: int = if i < j {
            i
        } else {
            i + 1
        };
        assert(post.registry@[i] == pre.registry@[src]);
        assert(src != j);
        assert(pre.spec_in_queue(pre.registry@[src].id@) || pre.spec_in_executing(
            pre.registry@[src].id@,
        ));
        if pre.spec_in_queue(pre.registry@[src].id@) {
            let w = choose|w: int|
                0 <= w < pre.queue@.len() && (#[trigger] pre.queue@[w]).id@
                    == pre.registry@[src].id@;
            assert(post.queue@[w].id@ == post.registry@[i].id@);
        } else {
            let w = choose|w: int|
                0 <= w < pre.executing@.len() && (#[trigger] pre.executing@[w]).id@
                    == pre.registry@[src].id@;
            if w == k {
                assert(pre.registry@[src].id@ == pre.registry@[j].id@);
                assert(false);
            } else if w < k {
                assert(post.executing@[w].id@ == post.registry@[i].id@);
            } else {
                assert(post.executing@[w - 1].id@ == post.registry@[i].id@);
            }
        }
    }
}

/// Re-queuing one executing task at the front, with its registry entry
/// kept, keeps the scheduler well formed.
proof fn lemma_retry_wf(pre: &MITWorkersInner, post: &MITWorkersInner, j: int, k: int)
    requires
        pre.wf(),
        0 <= j < pre.registry@.len(),
        0 <= k < pre.executing@.len(),
        pre.registry@[j].id@ == pre.executing@[k].id@,
        post.queue@.len() == pre.queue@.len() + 1,
        post.queue@[0].id@ == pre.executing@[k].id@,
        MITWorkersInner::task_admissible(post.queue@[0]),
        forall|i: int| 1 <= i < post.queue@.len() ==> #[trigger] post.queue@[i] == pre.queue@[i - 1],
        post.executing@ == pre.executing@.remove(k),
        post.registry@.len() == pre.registry@.len(),
        forall|w: int|
            0 <= w < pre.registry@.len() && w != j ==> #[trigger] post.registry@[w]
                == pre.registry@[w],
        post.registry@[j].id == pre.registry@[j].id,
        post.registry@[j].chan.wf(),
        post.registry@[j].chan.is_open(),
    ensures
        post.wf(),
{
    assert(forall|w: int| 0 <= w < k ==> post.executing@[w] == pre.executing@[w]);
    assert(forall|w: int|
        k <= w < post.executing@.len() ==> post.executing@[w] == pre.executing@[w + 1]);
    assert(forall|w: int|
        0 <= w < pre.registry@.len() ==> (#[trigger] post.registry@[w]).id@
            == pre.registry@[w].id@);
    assert forall|a: int, b: int| 0 <= a < b < post.queue@.len() implies (
    #[trigger] post.queue@[a]).id@ != (#[trigger] post.queue@[b]).id@ by {
        if a == 0 {
            if pre.spec_in_executing(pre.queue@[b - 1].id@) {
            }
            if post.queue@[b].id@ == post.queue@[0].id@ {
                assert(pre.queue@[b - 1].id@ == pre.executing@[k].id@);
                assert(!pre.spec_in_executing(pre.queue@[b - 1].id@));
                assert(false);
            }
        } else {
            assert(pre.queue@[a - 1].id@ != pre.queue@[b - 1].id@);
        }
    }
    assert forall|i: int| 0 <= i < post.queue@.len() implies !post.spec_in_executing(
        (#[trigger] post.queue@[i]).id@,
    ) by {
        if post.spec_in_executing(post.queue@[i].id@) {
            let w = choose|w: int|
                0 <= w < post.executing@.len() && (#[trigger] post.executing@[w]).id@
                    == post.queue@[i].id@;
            let src: int = if w < k {
                w
            } else {
                w + 1
            };
            assert(post.executing@[w] == pre.executing@[src]);
            if i == 0 {
                assert(pre.executing@[src].id@ == pre.executing@[k].id@);
                assert(src != k);
                assert(false);
            } else {
                assert(pre.executing@[src].id@ == pre.queue@[i - 1].id@);
                assert(!pre.spec_in_executing(pre.queue@[i - 1].id@));
                assert(false);
            }
        }
    }
    assert forall|i: int| 0 <= i < post.queue@.len() implies post.spec_in_registry(
        (#[trigger] post.queue@[i]).id@,
    ) by {
        if i == 0 {
            assert(post.registry@[j].id@ == post.queue@[0].id@);
        } else {
            assert(pre.spec_in_registry(pre.queue@[i - 1].id@));
            let w = choose|w: int|
                0 <= w < pre.registry@.len() && (#[trigger] pre.registry@[w]).id@
                    == pre.queue@[i - 1].id@;
            assert(post.registry@[w].id@ == post.queue@[i].id@);
        }
    }
    assert forall|i: int| 0 <= i < post.executing@.len() implies post.spec_in_registry(
        (#[trigger] post.executing@[i]).id@,
    ) by {
        let src: int = if i < k {
            i
        } else {
            i + 1
        };
        assert(post.executing@[i] == pre.executing@[src]);
        assert(pre.spec_in_registry(pre.executing@[src].id@));
        let w = choose|w: int|
            0 <= w < pre.registry@.len() && (#[trigger] pre.registry@[w]).id@
                == pre.executing@[src].id@;
        assert(post.registry@[w].id@ == post.executing@[i].id@);
    }
    assert forall|i: int| 0 <= i < post.registry@.len() implies (post.spec_in_queue(
        (#[trigger] post.registry@[i]).id@,
    ) || post.spec_in_executing(post.registry@[i].id@)) by {
        if i == j {
            assert(post.queue@[0].id@ == post.registry@[j].id@);
        } else {
            assert(pre.spec_in_queue(pre.registry@[i].id@) || pre.spec_in_executing(
                pre.registry@[i].id@,
            ));
            if pre.spec_in_queue(pre.registry@[i].id@) {
                let w = choose|w: int|
                    0 <= w < pre.queue@.len() && (#[trigger] pre.queue@[w]).id@
                        == pre.registry@[i].id@;
                assert(post.queue@[w + 1].id@ == post.registry@[i].id@);
            } else {
                let w = choose|w: int|
                    0 <= w < pre.executing@.len() && (#[trigger] pre.executing@[w]).id@
                        == pre.registry@[i].id@;
                if w == k {
                    assert(pre.registry@[i].id@ == pre.registry@[j].id@);
                    assert(false);
                } else if w < k {
                    assert(post.executing@[w].id@ == post.registry@[i].id@);
                } else {
                    assert(post.executing@[w - 1].id@ == post.registry@[i].id@);
                }
            }
        }
    }
}

/// After a pop and renumber, the scheduler is well formed again.
proof fn lemma_pop_wf(
    pre: &MITWorkersInner,
    post: &MITWorkersInner,
    q_now: Seq<Task>,
    reg_snap: Seq<RegistryEntry>,
)
    requires
        pre.wf(),
        pre.queue@.len() > 0,
        q_now == pre.queue@.drop_first(),
        reg_snap == pre.registry@,
        post.queue@ == q_now,
        post.executing@ == pre.executing@.push(pre.queue@[0]),
        post.registry@.len() == reg_snap.len(),
        forall|j: int|
            0 <= j < reg_snap.len() ==> (#[trigger] post.registry@[j]).id == reg_snap[j].id,
        forall|j: int|
            0 <= j < reg_snap.len() ==> (#[trigger] post.registry@[j]).chan.wf()
                && post.registry@[j].chan.is_open(),
    ensures
        post.wf(),
{
    assert(forall|i: int| 0 <= i < q_now.len() ==> q_now[i] == pre.queue@[i + 1]);
    assert forall|i: int| 0 <= i < post.queue@.len() implies !post.spec_in_executing(
        (#[trigger] post.queue@[i]).id@,
    ) by {
        assert(q_now[i] == pre.queue@[i + 1]);
        if post.spec_in_executing(q_now[i].id@) {
            let w = choose|w: int|
                0 <= w < post.executing@.len() && (#[trigger] post.executing@[w]).id@
                    == q_now[i].id@;
            if w < pre.executing@.len() {
                assert(!pre.spec_in_executing(pre.queue@[i + 1].id@));
                assert(pre.executing@[w].id@ == pre.queue@[i + 1].id@);
            } else {
                assert(pre.queue@[0].id@ == pre.queue@[i + 1].id@);
            }
        }
    }
    assert forall|i: int| 0 <= i < post.queue@.len() implies post.spec_in_registry(
        (#[trigger] post.queue@[i]).id@,
    ) by {
        assert(pre.spec_in_registry(pre.queue@[i + 1].id@));
        let w = choose|w: int|
            0 <= w < pre.registry@.len() && (#[trigger] pre.registry@[w]).id@ == pre.queue@[i
                + 1].id@;
        assert(post.registry@[w].id@ == post.queue@[i].id@);
    }
    assert forall|i: int| 0 <= i < post.executing@.len() implies post.spec_in_registry(
        (#[trigger] post.executing@[i]).id@,
    ) by {
        if i < pre.executing@.len() {
            assert(pre.spec_in_registry(pre.executing@[i].id@));
            let w = choose|w: int|
                0 <= w < pre.registry@.len() && (#[trigger] pre.registry@[w]).id@
                    == pre.executing@[i].id@;
            assert(post.registry@[w].id@ == post.executing@[i].id@);
        } else {
            assert(post.executing@[i] == pre.queue@[0]);
            assert(pre.spec_in_registry(pre.queue@[0].id@));
            let w = choose|w: int|
                0 <= w < pre.registry@.len() && (#[trigger] pre.registry@[w]).id@
                    == pre.queue@[0].id@;
            assert(post.registry@[w].id@ == post.executing@[i].id@);
        }
    }
    assert forall|i: int| 0 <= i < post.registry@.len() implies (post.spec_in_queue(
        (#[trigger] post.registry@[i]).id@,
    ) || post.spec_in_executing(post.registry@[i].id@)) by {
        assert(pre.spec_in_queue(pre.registry@[i].id@) || pre.spec_in_executing(
            pre.registry@[i].id@,
        ));
        if pre.spec_in_queue(pre.registry@[i].id@) {
            let w = choose|w: int|
                0 <= w < pre.queue@.len() && (#[trigger] pre.queue@[w]).id@
                    == pre.registry@[i].id@;
            if w == 0 {
                assert(post.executing@[post.executing@.len() - 1].id@ == post.registry@[i].id@);
            } else {
                assert(post.queue@[w - 1].id@ == post.registry@[i].id@);
            }
        } else {
            let w = choose|w: int|
                0 <= w < pre.executing@.len() && (#[trigger] pre.executing@[w]).id@
                    == pre.registry@[i].id@;
            assert(post.executing@[w].id@ == post.registry@[i].id@);
        }
    }
}

} // verus!
