//! Per-task progress channel, modelled as the ordered log of every
//! message the executing side has published.
//!
//! The real gateway hands subscribers a latest-value slot: a reader
//! sees the most recent message at subscription time and every later
//! one in write order, possibly skipping intermediate values. The model
//! keeps the whole log; the latest value is its last element. A channel
//! is well formed when no message follows a terminal one, so a terminal
//! message — success, or failure without retry — is never overwritten
//! and stays the latest value for every reader present at terminal time.

use vstd::prelude::*;

use crate::task::TaskResult;

verus! {

/// One progress message of a task.
#[derive(Debug, Clone, PartialEq, Eq)]
pub enum TaskWatchMessage {
    /// The task is queued at this position.
    Pending(usize),
    /// Worker-reported phase label.
    Status(String),
    /// Terminal success with the stored mask key.
    Result(TaskResult),
    /// Failure; `true` means the task was re-queued and will be retried.
    Error(bool),
}

/// Whether a message ends a task's channel: success, or failure
/// without retry.
pub open spec fn is_terminal_msg(m: TaskWatchMessage) -> bool {
    match m {
        TaskWatchMessage::Result(_) => true,
        TaskWatchMessage::Error(retry) => !retry,
        _ => false,
    }
}

/// Whether a message is a phase report with this label.
pub open spec fn is_status_of(m: TaskWatchMessage, phase: Seq<char>) -> bool {
    match m {
        TaskWatchMessage::Status(s) => s@ == phase,
        _ => false,
    }
}

/// Whether a message is a terminal success carrying this mask key.
pub open spec fn is_result_of(m: TaskWatchMessage, mask_key: Seq<char>) -> bool {
    match m {
        TaskWatchMessage::Result(res) => res.translation_mask@ == mask_key,
        _ => false,
    }
}

impl TaskWatchMessage {
    /// Whether this message ends a task's channel.
    pub fn is_terminal(&self) -> (r: bool)
        ensures
            r == is_terminal_msg(*self),
    {
        match self {
            TaskWatchMessage::Result(_) => true,
            TaskWatchMessage::Error(retry) => !*retry,
            _ => false,
        }
    }
}

/// Single-writer broadcast channel of one task, as the log of the
/// messages written to it.
#[derive(Debug)]
pub struct WatchChannel {
    history: Vec<TaskWatchMessage>,
}

impl WatchChannel {
    /// The messages written so far, oldest first.
    pub closed spec fn history(&self) -> Seq<TaskWatchMessage> {
        self.history@
    }

    /// A channel is well formed when it carries at least its initial
    /// message and nothing follows a terminal message.
    pub open spec fn wf(&self) -> bool {
        &&& self.history().len() >= 1
        &&& forall|i: int|
            0 <= i < self.history().len() - 1 ==> !is_terminal_msg(#[trigger] self.history()[i])
    }

    /// A channel is open while its latest message is not terminal; only
    /// an open channel may be written.
    pub open spec fn is_open(&self) -> bool {
        !is_terminal_msg(self.history().last())
    }

    /// A new channel carrying a queue position as its initial message.
    pub fn new(pos: usize) -> (r: WatchChannel)
        ensures
            r.wf(),
            r.is_open(),
            r.history() == seq![TaskWatchMessage::Pending(pos)],
    {
        let mut history: Vec<TaskWatchMessage> = Vec::new();
        history.push(TaskWatchMessage::Pending(pos));
        assert(history@ =~= seq![TaskWatchMessage::Pending(pos)]);
        WatchChannel { history }
    }

    /// Publishes one message. Terminal messages are never overwritten:
    /// only an open channel accepts a write, so after a terminal write
    /// the channel takes no further message.
    pub fn send(&mut self, m: TaskWatchMessage)
        requires
            old(self).wf(),
            old(self).is_open(),
        ensures
            final(self).wf(),
            final(self).history() == old(self).history().push(m),
            final(self).is_open() == !is_terminal_msg(m),
    {
        self.history.push(m);
    }

    /// The latest value, which a new subscriber observes first.
    pub fn latest(&self) -> (r: &TaskWatchMessage)
        requires
            self.wf(),
        ensures
            *r == self.history().last(),
    {
        &self.history[self.history.len() - 1]
    }

    /// The number of messages written so far.
    pub fn history_len(&self) -> (r: usize)
        ensures
            r == self.history().len(),
    {
        self.history.len()
    }

    /// The message at a position of the log, oldest first.
    pub fn history_at(&self, i: usize) -> (r: &TaskWatchMessage)
        requires
            i < self.history().len(),
        ensures
            *r == self.history()[i as int],
    {
        &self.history[i]
    }
}

} // verus!
