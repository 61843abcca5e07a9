//! The scheduler's global guarantees, stated and proved over the spec
//! functions that the operations' contracts use.

use vstd::prelude::*;

use crate::channel::{is_terminal_msg, TaskWatchMessage, WatchChannel};
use crate::db::{row_matches_key, TaskTable};
use crate::mit_worker::MITWorkersInner;
use crate::params::TaskState;
use crate::task::{DBTaskParam, Task};

verus! {

/// Deduplication, table side: a well-formed task table holds at most
/// one row per deduplication key, so any sequence of upserts leaves at
/// most one row for a given `(source image, parameters, revision)`.
pub proof fn lemma_dedup_single_row(
    db: &TaskTable,
    source_image_id: Seq<char>,
    param: DBTaskParam,
    revision: i32,
    i: int,
    j: int,
)
    requires
        db.wf(),
        0 <= i < db.rows@.len(),
        0 <= j < db.rows@.len(),
        row_matches_key(db.rows@[i], source_image_id, param, revision),
        row_matches_key(db.rows@[j], source_image_id, param, revision),
    ensures
        i == j,
{
}

/// Deduplication, registry side: a well-formed scheduler holds at most
/// one live entry per task id, and a submission that finds a live
/// entry for its key's row returns it without touching anything.
pub proof fn lemma_dedup_single_entry(s: &MITWorkersInner, id: Seq<char>, i: int, j: int)
    requires
        s.wf(),
        0 <= i < s.registry@.len(),
        0 <= j < s.registry@.len(),
        s.registry@[i].id@ == id,
        s.registry@[j].id@ == id,
    ensures
        i == j,
{
}

/// Registry/queue coherence: at every point the registry holds exactly
/// one entry for each queued task and each executing task, so its size
/// is their sizes combined.
pub proof fn lemma_registry_queue_coherence(s: &MITWorkersInner)
    requires
        s.wf(),
    ensures
        s.registry@.len() == s.queue@.len() + s.executing@.len(),
        forall|i: int|
            0 <= i < s.queue@.len() ==> s.spec_in_registry((#[trigger] s.queue@[i]).id@),
        forall|i: int|
            0 <= i < s.executing@.len() ==> s.spec_in_registry((#[trigger] s.executing@[i]).id@),
        forall|i: int|
            0 <= i < s.registry@.len() ==> (s.spec_in_queue((#[trigger] s.registry@[i]).id@)
                || s.spec_in_executing(s.registry@[i].id@)),
{
}

/// Terminal delivery: in a well-formed channel a terminal message is
/// the last message and the only one, so a subscriber present when the
/// terminal is written — after which the channel closes — observes
/// exactly one terminal message, as the final value.
pub proof fn lemma_terminal_delivery(c: &WatchChannel, i: int)
    requires
        c.wf(),
        0 <= i < c.history().len(),
        is_terminal_msg(c.history()[i]),
    ensures
        i == c.history().len() - 1,
        forall|j: int|
            0 <= j < c.history().len() && is_terminal_msg(#[trigger] c.history()[j]) ==> j == i,
{
}

/// Retry bound: the scheduler never holds a task that failed three
/// times, so no task moves from failure back to the queue more than
/// twice — a third counted failure settles it. A failure re-queues its
/// task only when the new count stays under three, which the re-queue
/// contract states.
pub proof fn lemma_retry_bound(s: &MITWorkersInner)
    requires
        s.wf(),
    ensures
        forall|i: int|
            0 <= i < s.queue@.len() ==> !((#[trigger] s.queue@[i]).state == TaskState::Error
                && s.queue@[i].failed_count >= 3),
        forall|i: int|
            0 <= i < s.executing@.len() ==> !((#[trigger] s.executing@[i]).state
                == TaskState::Error && s.executing@[i].failed_count >= 3),
{
}

/// FIFO with retry priority: re-queuing a failed task puts it at the
/// very front and shifts every waiting task back by one, keeping their
/// order. Since a worker always claims the front, the retried task is
/// processed before every task still waiting — in particular before
/// every task enqueued after its original submission that has not been
/// claimed yet.
pub proof fn lemma_retry_priority(pre: &MITWorkersInner, post: &MITWorkersInner, t: Task)
    requires
        post.queue@ == pre.queue@.insert(0, t),
    ensures
        post.queue@[0] == t,
        post.queue@.len() == pre.queue@.len() + 1,
        forall|i: int| 1 <= i < post.queue@.len() ==> post.queue@[i] == pre.queue@[i - 1],
{
}

/// The number of retry announcements in a message log.
pub open spec fn retry_count(h: Seq<TaskWatchMessage>) -> nat
    decreases h.len(),
{
    if h.len() == 0 {
        0
    } else {
        retry_count(h.drop_last()) + (if h.last() == TaskWatchMessage::Error(true) {
            1nat
        } else {
            0nat
        })
    }
}

/// Appending one message raises the retry count exactly when the
/// message announces a retry.
pub proof fn lemma_retry_count_push(h: Seq<TaskWatchMessage>, m: TaskWatchMessage)
    ensures
        retry_count(h.push(m)) == retry_count(h) + (if m == TaskWatchMessage::Error(true) {
            1nat
        } else {
            0nat
        }),
{
    assert(h.push(m).drop_last() =~= h);
}

/// Retry accounting: every live channel has announced no more retries
/// than its task has counted failures, and never more than two.
pub open spec fn retry_bounded(s: &MITWorkersInner) -> bool {
    &&& forall|j: int, i: int|
        #![trigger s.registry@[j], s.queue@[i]]
        0 <= j < s.registry@.len() && 0 <= i < s.queue@.len() && s.registry@[j].id@
            == s.queue@[i].id@ ==> retry_count(s.registry@[j].chan.history())
            <= s.queue@[i].failed_count && retry_count(s.registry@[j].chan.history()) <= 2
    &&& forall|j: int, i: int|
        #![trigger s.registry@[j], s.executing@[i]]
        0 <= j < s.registry@.len() && 0 <= i < s.executing@.len() && s.registry@[j].id@
            == s.executing@[i].id@ ==> retry_count(s.registry@[j].chan.history())
            <= s.executing@[i].failed_count && retry_count(s.registry@[j].chan.history()) <= 2
}

/// Retry accounting, enqueue side: a fresh channel opens with a
/// pending announcement and no retries.
pub proof fn lemma_dispatch_retry_bounded(pre: &MITWorkersInner, post: &MITWorkersInner)
    requires
        pre.wf(),
        retry_bounded(pre),
        post.queue@.len() == pre.queue@.len() + 1,
        forall|i: int| 0 <= i < pre.queue@.len() ==> post.queue@[i] == pre.queue@[i],
        post.executing@ == pre.executing@,
        post.registry@.len() == pre.registry@.len() + 1,
        forall|i: int| 0 <= i < pre.registry@.len() ==> post.registry@[i] == pre.registry@[i],
        post.registry@.last().id@ == post.queue@.last().id@,
        post.registry@.last().chan.history() == seq![
            TaskWatchMessage::Pending(pre.queue@.len() as usize),
        ],
        post.queue@.last().failed_count >= 0,
        !pre.spec_in_registry(post.queue@.last().id@),
        !pre.spec_in_queue(post.queue@.last().id@),
        !pre.spec_in_executing(post.queue@.last().id@),
    ensures
        retry_bounded(post),
{
    let fresh = post.registry@.last().chan.history();
    assert(retry_count(fresh) == 0) by {
        assert(retry_count(Seq::<TaskWatchMessage>::empty()) == 0);
        assert(fresh.drop_last() =~= Seq::<TaskWatchMessage>::empty());
        assert(fresh.last() != TaskWatchMessage::Error(true));
    }
    assert forall|j: int, i: int|
        #![trigger post.registry@[j], post.queue@[i]]
        0 <= j < post.registry@.len() && 0 <= i < post.queue@.len() && post.registry@[j].id@
            == post.queue@[i].id@ implies retry_count(post.registry@[j].chan.history())
        <= post.queue@[i].failed_count && retry_count(post.registry@[j].chan.history()) <= 2 by {
        if j < pre.registry@.len() {
            if i < pre.queue@.len() {
                assert(post.registry@[j] == pre.registry@[j]);
                assert(post.queue@[i] == pre.queue@[i]);
            } else {
                assert(post.registry@[j] == pre.registry@[j]);
                assert(pre.spec_in_registry(post.queue@.last().id@));
                assert(false);
            }
        } else {
            if i < pre.queue@.len() {
                assert(post.queue@[i] == pre.queue@[i]);
                assert(pre.spec_in_queue(post.queue@.last().id@));
                assert(false);
            }
        }
    }
    assert forall|j: int, i: int|
        #![trigger post.registry@[j], post.executing@[i]]
        0 <= j < post.registry@.len() && 0 <= i < post.executing@.len() && post.registry@[j].id@
            == post.executing@[i].id@ implies retry_count(post.registry@[j].chan.history())
        <= post.executing@[i].failed_count && retry_count(post.registry@[j].chan.history())
        <= 2 by {
        if j < pre.registry@.len() {
            assert(post.registry@[j] == pre.registry@[j]);
        } else {
            assert(pre.spec_in_executing(post.queue@.last().id@));
            assert(false);
        }
    }
}

/// Retry accounting, claim side: the renumber announcements are
/// positions, not retries, and claiming moves the task unchanged.
pub proof fn lemma_pop_retry_bounded(pre: &MITWorkersInner, post: &MITWorkersInner)
    requires
        pre.wf(),
        retry_bounded(pre),
        pre.queue@.len() > 0,
        post.queue@ == pre.queue@.drop_first(),
        post.executing@ == pre.executing@.push(pre.queue@[0]),
        post.registry@.len() == pre.registry@.len(),
        forall|j: int|
            0 <= j < pre.registry@.len() ==> (#[trigger] post.registry@[j]).id == pre.registry@[
                j
            ].id,
        forall|j: int, i: int|
            0 <= j < pre.registry@.len() && 1 <= i < pre.queue@.len() && (
            #[trigger] pre.queue@[i]).id@ == (#[trigger] pre.registry@[j]).id@ ==> post.registry@[
                j
            ].chan.history() == pre.registry@[j].chan.history().push(
                TaskWatchMessage::Pending(i as usize),
            ),
        forall|j: int|
            0 <= j < pre.registry@.len() && (forall|i: int|
                1 <= i < pre.queue@.len() ==> (#[trigger] pre.queue@[i]).id@ != pre.registry@[
                    j
                ].id@) ==> post.registry@[j] == pre.registry@[j],
    ensures
        retry_bounded(post),
{
    assert(forall|i: int|
        0 <= i < post.queue@.len() ==> #[trigger] post.queue@[i] == pre.queue@[i + 1]);
    assert forall|j: int, i: int|
        #![trigger post.registry@[j], post.queue@[i]]
        0 <= j < post.registry@.len() && 0 <= i < post.queue@.len() && post.registry@[j].id@
            == post.queue@[i].id@ implies retry_count(post.registry@[j].chan.history())
        <= post.queue@[i].failed_count && retry_count(post.registry@[j].chan.history()) <= 2 by {
        assert(post.queue@[i] == pre.queue@[i + 1]);
        assert(pre.queue@[i + 1].id@ == pre.registry@[j].id@);
        assert(post.registry@[j].chan.history() == pre.registry@[j].chan.history().push(
            TaskWatchMessage::Pending((i + 1) as usize),
        ));
        lemma_retry_count_push(
            pre.registry@[j].chan.history(),
            TaskWatchMessage::Pending((i + 1) as usize),
        );
    }
    assert forall|j: int, i: int|
        #![trigger post.registry@[j], post.executing@[i]]
        0 <= j < post.registry@.len() && 0 <= i < post.executing@.len() && post.registry@[j].id@
            == post.executing@[i].id@ implies retry_count(post.registry@[j].chan.history())
        <= post.executing@[i].failed_count && retry_count(post.registry@[j].chan.history())
        <= 2 by {
        if i < pre.executing@.len() {
            // An already-executing task is not in the queue, so its
            // entry was not renumbered.
            assert(post.executing@[i] == pre.executing@[i]);
            assert forall|w: int|
                1 <= w < pre.queue@.len() implies (#[trigger] pre.queue@[w]).id@
                != pre.registry@[j].id@ by {
                if pre.queue@[w].id@ == pre.registry@[j].id@ {
                    assert(pre.spec_in_executing(pre.queue@[w].id@));
                    assert(!pre.spec_in_executing(pre.queue@[w].id@));
                }
            }
            assert(post.registry@[j] == pre.registry@[j]);
        } else {
            // The claimed task: its channel was not renumbered — it
            // left the queue — and its count is unchanged.
            assert(post.executing@[i] == pre.queue@[0]);
            assert forall|w: int|
                1 <= w < pre.queue@.len() implies (#[trigger] pre.queue@[w]).id@
                != pre.registry@[j].id@ by {
                if pre.queue@[w].id@ == pre.registry@[j].id@ {
                    assert(pre.queue@[w].id@ == pre.queue@[0].id@);
                }
            }
            assert(post.registry@[j] == pre.registry@[j]);
        }
    }
}

/// Retry accounting, progress side: attempt stamps and phase reports
/// announce no retry and change no count.
pub proof fn lemma_progress_retry_bounded(
    pre: &MITWorkersInner,
    post: &MITWorkersInner,
    pushed: Map<int, TaskWatchMessage>,
)
    requires
        pre.wf(),
        retry_bounded(pre),
        post.queue@ == pre.queue@,
        post.executing@.len() == pre.executing@.len(),
        forall|i: int|
            0 <= i < pre.executing@.len() ==> (#[trigger] post.executing@[i]).id@
                == pre.executing@[i].id@ && post.executing@[i].failed_count == pre.executing@[
                i
            ].failed_count,
        post.registry@.len() == pre.registry@.len(),
        forall|j: int|
            0 <= j < pre.registry@.len() ==> (#[trigger] post.registry@[j]).id == pre.registry@[
                j
            ].id,
        forall|j: int|
            0 <= j < pre.registry@.len() ==> (#[trigger] post.registry@[j]).chan.history()
                == pre.registry@[j].chan.history() || (pushed.dom().contains(j)
                && post.registry@[j].chan.history() == pre.registry@[j].chan.history().push(
                pushed[j],
            ) && pushed[j] != TaskWatchMessage::Error(true)),
    ensures
        retry_bounded(post),
{
    assert forall|j: int|
        0 <= j < post.registry@.len() implies retry_count(
        (#[trigger] post.registry@[j]).chan.history(),
    ) == retry_count(pre.registry@[j].chan.history()) by {
        if post.registry@[j].chan.history() != pre.registry@[j].chan.history() {
            lemma_retry_count_push(pre.registry@[j].chan.history(), pushed[j]);
        }
    }
}

/// Retry accounting, failure side: a retry raises announcement and
/// count together, and only below the bound; a settled task leaves
/// with its channel. The closed channel of a settled task — and every
/// live channel — announces at most two retries: no task is retried a
/// third time.
pub proof fn lemma_fail_retry_bounded(
    pre: &MITWorkersInner,
    post: &MITWorkersInner,
    id: Seq<char>,
    k: int,
    retried: bool,
)
    requires
        pre.wf(),
        retry_bounded(pre),
        0 <= k < pre.executing@.len(),
        pre.executing@[k].id@ == id,
        post.executing@ == pre.executing@.remove(k),
        retried ==> {
            &&& pre.executing@[k].failed_count + 1 < 3
            &&& post.queue@.len() == pre.queue@.len() + 1
            &&& post.queue@[0].id@ == id
            &&& post.queue@[0].failed_count == pre.executing@[k].failed_count + 1
            &&& forall|i: int|
                1 <= i < post.queue@.len() ==> #[trigger] post.queue@[i] == pre.queue@[i - 1]
            &&& post.registry@.len() == pre.registry@.len()
            &&& forall|j: int|
                0 <= j < pre.registry@.len() && (#[trigger] pre.registry@[j]).id@ != id
                    ==> post.registry@[j] == pre.registry@[j]
            &&& forall|j: int|
                0 <= j < pre.registry@.len() && (#[trigger] pre.registry@[j]).id@ == id
                    ==> post.registry@[j].id == pre.registry@[j].id && post.registry@[
                    j
                ].chan.history() == pre.registry@[j].chan.history().push(
                    TaskWatchMessage::Error(true),
                )
        },
        !retried ==> {
            &&& post.queue@ == pre.queue@
            &&& exists|j: int|
                0 <= j < pre.registry@.len() && (#[trigger] pre.registry@[j]).id@ == id
                    && post.registry@ == pre.registry@.remove(j)
        },
    ensures
        retry_bounded(post),
        forall|j: int|
            0 <= j < pre.registry@.len() && (#[trigger] pre.registry@[j]).id@ == id
                ==> retry_count(pre.registry@[j].chan.history().push(TaskWatchMessage::Error(true)))
                <= 2 || !retried,
{
    assert(forall|w: int| 0 <= w < k ==> post.executing@[w] == pre.executing@[w]);
    assert(forall|w: int|
        k <= w < post.executing@.len() ==> post.executing@[w] == pre.executing@[w + 1]);
    if retried {
        assert forall|j: int|
            0 <= j < pre.registry@.len() && (#[trigger] pre.registry@[j]).id@ == id implies
            retry_count(post.registry@[j].chan.history()) <= post.queue@[0].failed_count
            && retry_count(post.registry@[j].chan.history()) <= 2 by {
            lemma_retry_count_push(
                pre.registry@[j].chan.history(),
                TaskWatchMessage::Error(true),
            );
        }
        assert forall|j: int, i: int|
            #![trigger post.registry@[j], post.queue@[i]]
            0 <= j < post.registry@.len() && 0 <= i < post.queue@.len() && post.registry@[j].id@
                == post.queue@[i].id@ implies retry_count(post.registry@[j].chan.history())
            <= post.queue@[i].failed_count && retry_count(post.registry@[j].chan.history())
            <= 2 by {
            if i == 0 {
                assert(pre.registry@[j].id@ == id);
            } else {
                assert(post.queue@[i] == pre.queue@[i - 1]);
                if pre.registry@[j].id@ == id {
                    assert(pre.spec_in_executing(pre.queue@[i - 1].id@));
                    assert(!pre.spec_in_executing(pre.queue@[i - 1].id@));
                } else {
                    assert(post.registry@[j] == pre.registry@[j]);
                }
            }
        }
        assert forall|j: int, i: int|
            #![trigger post.registry@[j], post.executing@[i]]
            0 <= j < post.registry@.len() && 0 <= i < post.executing@.len() && post.registry@[
            j
        ].id@ == post.executing@[i].id@ implies retry_count(post.registry@[j].chan.history())
            <= post.executing@[i].failed_count && retry_count(post.registry@[j].chan.history())
            <= 2 by {
            let src: int = if i < k {
                i
            } else {
                i + 1
            };
            assert(post.executing@[i] == pre.executing@[src]);
            if pre.registry@[j].id@ == id {
                assert(pre.executing@[src].id@ == pre.executing@[k].id@);
                assert(src != k);
                assert(false);
            } else {
                assert(post.registry@[j] == pre.registry@[j]);
            }
        }
    } else {
        let jr = choose|j: int|
            0 <= j < pre.registry@.len() && (#[trigger] pre.registry@[j]).id@ == id
                && post.registry@ == pre.registry@.remove(j);
        assert(forall|w: int| 0 <= w < jr ==> post.registry@[w] == pre.registry@[w]);
        assert(forall|w: int|
            jr <= w < post.registry@.len() ==> post.registry@[w] == pre.registry@[w + 1]);
        assert forall|j: int, i: int|
            #![trigger post.registry@[j], post.queue@[i]]
            0 <= j < post.registry@.len() && 0 <= i < post.queue@.len() && post.registry@[j].id@
                == post.queue@[i].id@ implies retry_count(post.registry@[j].chan.history())
            <= post.queue@[i].failed_count && retry_count(post.registry@[j].chan.history())
            <= 2 by {
            let src: int = if j < jr {
                j
            } else {
                j + 1
            };
            assert(post.registry@[j] == pre.registry@[src]);
            assert(post.queue@[i] == pre.queue@[i]);
        }
        assert forall|j: int, i: int|
            #![trigger post.registry@[j], post.executing@[i]]
            0 <= j < post.registry@.len() && 0 <= i < post.executing@.len() && post.registry@[
            j
        ].id@ == post.executing@[i].id@ implies retry_count(post.registry@[j].chan.history())
            <= post.executing@[i].failed_count && retry_count(post.registry@[j].chan.history())
            <= 2 by {
            let srcj: int = if j < jr {
                j
            } else {
                j + 1
            };
            let srci: int = if i < k {
                i
            } else {
                i + 1
            };
            assert(post.registry@[j] == pre.registry@[srcj]);
            assert(post.executing@[i] == pre.executing@[srci]);
        }
    }
}

/// Position coverage: every pending announcement in a queued task's
/// channel names a position at or behind the task's place in the
/// queue. Enqueueing establishes it and the pop-renumber step keeps
/// it; re-queuing a failed task at the front is the one step that can
/// break it.
pub open spec fn pending_dominated(s: &MITWorkersInner) -> bool {
    forall|i: int, j: int, m: int|
        #![trigger s.queue@[i], s.registry@[j], s.registry@[j].chan.history()[m]]
        0 <= i < s.queue@.len() && 0 <= j < s.registry@.len() && s.queue@[i].id@
            == s.registry@[j].id@ && 0 <= m < s.registry@[j].chan.history().len() && s.registry@[
            j
        ].chan.history()[m] is Pending ==> s.registry@[j].chan.history()[m]->Pending_0 >= i
}

/// Queue-position monotonicity, enqueue side: appending a task whose
/// fresh channel announces the back position keeps every queued task's
/// announcements at or behind its place.
pub proof fn lemma_dispatch_position_monotone(pre: &MITWorkersInner, post: &MITWorkersInner)
    requires
        pre.wf(),
        pending_dominated(pre),
        pre.queue@.len() < usize::MAX,
        post.queue@.len() == pre.queue@.len() + 1,
        forall|i: int| 0 <= i < pre.queue@.len() ==> post.queue@[i] == pre.queue@[i],
        post.registry@.len() == pre.registry@.len() + 1,
        forall|i: int| 0 <= i < pre.registry@.len() ==> post.registry@[i] == pre.registry@[i],
        post.registry@.last().id@ == post.queue@.last().id@,
        post.registry@.last().chan.history() == seq![
            TaskWatchMessage::Pending(pre.queue@.len() as usize),
        ],
        !pre.spec_in_registry(post.queue@.last().id@),
        !pre.spec_in_queue(post.queue@.last().id@),
    ensures
        pending_dominated(post),
{
    assert forall|i: int, j: int, m: int|
        #![trigger post.queue@[i], post.registry@[j], post.registry@[j].chan.history()[m]]
        0 <= i < post.queue@.len() && 0 <= j < post.registry@.len() && post.queue@[i].id@
            == post.registry@[j].id@ && 0 <= m < post.registry@[j].chan.history().len()
            && post.registry@[j].chan.history()[m] is Pending implies post.registry@[
        j
    ].chan.history()[m]->Pending_0 >= i by {
        if j < pre.registry@.len() {
            if i < pre.queue@.len() {
                assert(pre.queue@[i] == post.queue@[i]);
                assert(pre.registry@[j] == post.registry@[j]);
                assert(pre.registry@[j].chan.history()[m] == post.registry@[j].chan.history()[m]);
            } else {
                assert(post.queue@[i] == post.queue@.last());
                assert(pre.registry@[j] == post.registry@[j]);
                assert(pre.spec_in_registry(post.queue@.last().id@));
                assert(false);
            }
        } else {
            if i < pre.queue@.len() {
                assert(pre.queue@[i] == post.queue@[i]);
                assert(pre.spec_in_queue(post.queue@.last().id@));
                assert(false);
            } else {
                assert(post.registry@[j].chan.history() == seq![
                    TaskWatchMessage::Pending(pre.queue@.len() as usize),
                ]);
                assert(m == 0);
                assert(post.registry@[j].chan.history()[0]->Pending_0 == pre.queue@.len());
            }
        }
    }
}

/// Queue-position monotonicity, claim side: after a claim and
/// renumber, every still-queued task's announcements again sit at or
/// behind its place, and the renumber message each task received names
/// a position no greater than any it had been announced before —
/// positions a subscriber observes never increase while the task stays
/// queued.
pub proof fn lemma_pop_position_monotone(pre: &MITWorkersInner, post: &MITWorkersInner)
    requires
        pre.wf(),
        pending_dominated(pre),
        pre.queue@.len() <= usize::MAX,
        pre.queue@.len() > 0,
        post.queue@ == pre.queue@.drop_first(),
        post.registry@.len() == pre.registry@.len(),
        forall|j: int|
            0 <= j < pre.registry@.len() ==> (#[trigger] post.registry@[j]).id == pre.registry@[
                j
            ].id,
        forall|j: int, i: int|
            0 <= j < pre.registry@.len() && 1 <= i < pre.queue@.len() && (
            #[trigger] pre.queue@[i]).id@ == (#[trigger] pre.registry@[j]).id@ ==> post.registry@[
                j
            ].chan.history() == pre.registry@[j].chan.history().push(
                TaskWatchMessage::Pending(i as usize),
            ),
        forall|j: int|
            0 <= j < pre.registry@.len() && (forall|i: int|
                1 <= i < pre.queue@.len() ==> (#[trigger] pre.queue@[i]).id@ != pre.registry@[
                    j
                ].id@) ==> post.registry@[j] == pre.registry@[j],
    ensures
        pending_dominated(post),
        // The renumber message is no greater than any earlier
        // announcement of the same task.
        forall|j: int, i: int, m: int|
            #![trigger pre.queue@[i], pre.registry@[j], pre.registry@[j].chan.history()[m]]
            0 <= j < pre.registry@.len() && 1 <= i < pre.queue@.len() && pre.queue@[i].id@
                == pre.registry@[j].id@ && 0 <= m < pre.registry@[j].chan.history().len()
                && pre.registry@[j].chan.history()[m] is Pending ==> i <= pre.registry@[
                j
            ].chan.history()[m]->Pending_0,
{
    assert(forall|i: int|
        0 <= i < post.queue@.len() ==> #[trigger] post.queue@[i] == pre.queue@[i + 1]);
    assert forall|i: int, j: int, m: int|
        #![trigger post.queue@[i], post.registry@[j], post.registry@[j].chan.history()[m]]
        0 <= i < post.queue@.len() && 0 <= j < post.registry@.len() && post.queue@[i].id@
            == post.registry@[j].id@ && 0 <= m < post.registry@[j].chan.history().len()
            && post.registry@[j].chan.history()[m] is Pending implies post.registry@[
        j
    ].chan.history()[m]->Pending_0 >= i by {
        assert(post.queue@[i] == pre.queue@[i + 1]);
        assert(pre.queue@[i + 1].id@ == pre.registry@[j].id@);
        assert(post.registry@[j].chan.history() == pre.registry@[j].chan.history().push(
            TaskWatchMessage::Pending((i + 1) as usize),
        ));
        if m < pre.registry@[j].chan.history().len() {
            assert(pre.registry@[j].chan.history()[m] == post.registry@[j].chan.history()[m]);
        }
    }
}

} // verus!
