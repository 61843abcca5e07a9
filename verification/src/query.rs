//! The subscriber-facing envelope: the typed frames of the status and
//! follow endpoints, and their exact JSON text.
//!
//! Every frame leaving the gateway is one JSON object with a `type`
//! discriminator; mask keys are rewritten to public URLs before they
//! leave. The JSON text is specified character by character by
//! [`json_of`], with string escaping given by [`json_escaped`].

use vstd::prelude::*;

use crate::channel::TaskWatchMessage;
use crate::db::TaskTable;
use crate::mit_worker::MITWorkersInner;
use crate::params::TaskState;
use crate::r2::{public_url, spec_public_url};
use crate::strfmt::{dec_of, usize_to_dec};
use crate::task::TaskResult;

verus! {

/// One frame of the status or follow endpoint.
#[derive(Debug, Clone, PartialEq, Eq)]
pub enum QueryV1Message {
    /// The task is queued at this position.
    Pending { pos: usize },
    /// Worker-reported phase label.
    Status { status: String },
    /// Terminal success; the mask is given as a public URL.
    Result { result: TaskResult },
    /// Failure; the field carries `"true"` or `"false"` for a pending
    /// retry, or nothing when a settled failure is reported.
    Error { error_id: Option<String> },
    /// The task is unknown.
    NotFound,
}

/// The hexadecimal digit character of a value below sixteen.
pub open spec fn hex_digit(d: int) -> char {
    if d < 10 {
        crate::strfmt::dec_digit(d)
    } else if d == 10 {
        'a'
    } else if d == 11 {
        'b'
    } else if d == 12 {
        'c'
    } else if d == 13 {
        'd'
    } else if d == 14 {
        'e'
    } else {
        'f'
    }
}

/// The JSON escape of one character.
pub open spec fn json_escaped_char(c: char) -> Seq<char> {
    if c == '"' {
        seq!['\\', '"']
    } else if c == '\\' {
        seq!['\\', '\\']
    } else if c == '\u{08}' {
        seq!['\\', 'b']
    } else if c == '\u{0c}' {
        seq!['\\', 'f']
    } else if c == '\n' {
        seq!['\\', 'n']
    } else if c == '\r' {
        seq!['\\', 'r']
    } else if c == '\t' {
        seq!['\\', 't']
    } else if (c as int) < 0x20 {
        seq!['\\', 'u', '0', '0', hex_digit(c as int / 16), hex_digit(c as int % 16)]
    } else {
        seq![c]
    }
}

/// The JSON escape of a string body.
pub open spec fn json_escaped(s: Seq<char>) -> Seq<char>
    decreases s.len(),
{
    if s.len() == 0 {
        Seq::empty()
    } else {
        json_escaped(s.drop_last()) + json_escaped_char(s.last())
    }
}

/// The one-character string of a hexadecimal digit.
fn hex_digit_str(d: u32) -> (r: &'static str)
    requires
        d < 16,
    ensures
        r@ == seq![hex_digit(d as int)],
{
    let r: &'static str = match d {
        0 => "0",
        1 => "1",
        2 => "2",
        3 => "3",
        4 => "4",
        5 => "5",
        6 => "6",
        7 => "7",
        8 => "8",
        9 => "9",
        10 => "a",
        11 => "b",
        12 => "c",
        13 => "d",
        14 => "e",
        _ => "f",
    };
    proof {
        reveal_strlit("0");
        reveal_strlit("1");
        reveal_strlit("2");
        reveal_strlit("3");
        reveal_strlit("4");
        reveal_strlit("5");
        reveal_strlit("6");
        reveal_strlit("7");
        reveal_strlit("8");
        reveal_strlit("9");
        reveal_strlit("a");
        reveal_strlit("b");
        reveal_strlit("c");
        reveal_strlit("d");
        reveal_strlit("e");
        reveal_strlit("f");
        assert(r@ =~= seq![hex_digit(d as int)]);
    }
    r
}

/// Escapes a string body for a JSON text.
pub fn json_escape(s: &str) -> (r: String)
    ensures
        r@ == json_escaped(s@),
{
    let n = s.unicode_len();
    let mut out = String::new();
    for i in 0..n
        invariant
            n == s@.len(),
            out@ == json_escaped(s@.subrange(0, i as int)),
    {
        let c = s.get_char(i);
        proof {
            assert(s@.subrange(0, i + 1).drop_last() =~= s@.subrange(0, i as int));
            assert(s@.subrange(0, i + 1).last() == c);
        }
        if c == '"' {
            out.append("\\\"");
            proof {
                reveal_strlit("\\\"");
                assert("\\\""@ =~= seq!['\\', '"']);
            }
        } else if c == '\\' {
            out.append("\\\\");
            proof {
                reveal_strlit("\\\\");
                assert("\\\\"@ =~= seq!['\\', '\\']);
            }
        } else if c == '\u{08}' {
            out.append("\\b");
            proof {
                reveal_strlit("\\b");
                assert("\\b"@ =~= seq!['\\', 'b']);
            }
        } else if c == '\u{0c}' {
            out.append("\\f");
            proof {
                reveal_strlit("\\f");
                assert("\\f"@ =~= seq!['\\', 'f']);
            }
        } else if c == '\n' {
            out.append("\\n");
            proof {
                reveal_strlit("\\n");
                assert("\\n"@ =~= seq!['\\', 'n']);
            }
        } else if c == '\r' {
            out.append("\\r");
            proof {
                reveal_strlit("\\r");
                assert("\\r"@ =~= seq!['\\', 'r']);
            }
        } else if c == '\t' {
            out.append("\\t");
            proof {
                reveal_strlit("\\t");
                assert("\\t"@ =~= seq!['\\', 't']);
            }
        } else if (c as u32) < 0x20 {
            out.append("\\u00");
            out.append(hex_digit_str((c as u32) / 16));
            out.append(hex_digit_str((c as u32) % 16));
            proof {
                reveal_strlit("\\u00");
                assert("\\u00"@ =~= seq!['\\', 'u', '0', '0']);
                assert(out@ =~= json_escaped(s@.subrange(0, i + 1)));
            }
        } else {
            out.append(s.substring_char(i, i + 1));
            proof {
                assert(s@.subrange(i as int, i + 1) =~= seq![c]);
            }
        }
        proof {
            assert(out@ =~= json_escaped(s@.subrange(0, i + 1)));
        }
    }
    proof {
        assert(s@.subrange(0, s@.len() as int) =~= s@);
    }
    out
}

/// The JSON text of a frame.
pub open spec fn json_of(m: QueryV1Message) -> Seq<char> {
    match m {
        QueryV1Message::Pending { pos } => "{\"type\":\"pending\",\"pos\":"@ + dec_of(pos as nat)
            + "}"@,
        QueryV1Message::Status { status } => "{\"type\":\"status\",\"status\":\""@ + json_escaped(
            status@,
        ) + "\"}"@,
        QueryV1Message::Result { result } => "{\"type\":\"result\",\"result\":{\"translation_mask\":\""@
            + json_escaped(result.translation_mask@) + "\"}}"@,
        QueryV1Message::Error { error_id } => match error_id {
            Some(e) => "{\"type\":\"error\",\"error_id\":\""@ + json_escaped(e@) + "\"}"@,
            None => "{\"type\":\"error\",\"error_id\":null}"@,
        },
        QueryV1Message::NotFound => "{\"type\":\"not_found\"}"@,
    }
}

impl QueryV1Message {
    /// The JSON text of this frame, exactly as it is sent.
    pub fn to_json(&self) -> (r: String)
        ensures
            r@ == json_of(*self),
    {
        match self {
            QueryV1Message::Pending { pos } => {
                let mut s = "{\"type\":\"pending\",\"pos\":".to_owned();
                s.append(usize_to_dec(*pos).as_str());
                s.append("}");
                s
            },
            QueryV1Message::Status { status } => {
                let mut s = "{\"type\":\"status\",\"status\":\"".to_owned();
                s.append(json_escape(status.as_str()).as_str());
                s.append("\"}");
                s
            },
            QueryV1Message::Result { result } => {
                let mut s = "{\"type\":\"result\",\"result\":{\"translation_mask\":\"".to_owned();
                s.append(json_escape(result.translation_mask.as_str()).as_str());
                s.append("\"}}");
                s
            },
            QueryV1Message::Error { error_id } => match error_id {
                Some(e) => {
                    let mut s = "{\"type\":\"error\",\"error_id\":\"".to_owned();
                    s.append(json_escape(e.as_str()).as_str());
                    s.append("\"}");
                    s
                },
                None => "{\"type\":\"error\",\"error_id\":null}".to_owned(),
            },
            QueryV1Message::NotFound => "{\"type\":\"not_found\"}".to_owned(),
        }
    }
}

/// The JSON text of the service overview: the running version and the
/// scheduler's queue length and live-task count.
pub open spec fn overview_json_of(version: Seq<char>, queue: nat, tasks: nat) -> Seq<char> {
    "{\"version\":\""@ + json_escaped(version) + "\",\"mit_worker\":{\"queue\":"@ + dec_of(queue)
        + ",\"tasks\":"@ + dec_of(tasks) + "}}"@
}

/// Renders the service overview.
pub fn overview_json(version: &str, queue: usize, tasks: usize) -> (r: String)
    ensures
        r@ == overview_json_of(version@, queue as nat, tasks as nat),
{
    let mut s = "{\"version\":\"".to_owned();
    s.append(json_escape(version).as_str());
    s.append("\",\"mit_worker\":{\"queue\":");
    s.append(usize_to_dec(queue).as_str());
    s.append(",\"tasks\":");
    s.append(usize_to_dec(tasks).as_str());
    s.append("}}");
    s
}

/// How a progress message appears to a subscriber: positions and
/// phases pass through, the mask key becomes a public URL, and a
/// failure reports whether a retry will happen.
pub fn convert_msg(msg: &TaskWatchMessage, public_base: &str) -> (r: QueryV1Message)
    ensures
        (match *msg {
            TaskWatchMessage::Pending(pos) => r == (QueryV1Message::Pending { pos }),
            TaskWatchMessage::Status(ref s) => r matches QueryV1Message::Status { ref status }
                && status@ == s@,
            TaskWatchMessage::Result(ref res) => r matches QueryV1Message::Result { ref result }
                && result.translation_mask@ == spec_public_url(
                public_base@,
                res.translation_mask@,
            ),
            TaskWatchMessage::Error(retry) => r matches QueryV1Message::Error { error_id }
                && error_id matches Some(e) && e@ == (if retry {
                "true"@
            } else {
                "false"@
            }),
        }),
{
    match msg {
        TaskWatchMessage::Pending(pos) => QueryV1Message::Pending { pos: *pos },
        TaskWatchMessage::Status(s) => QueryV1Message::Status { status: s.clone() },
        TaskWatchMessage::Result(res) => QueryV1Message::Result {
            result: TaskResult {
                translation_mask: public_url(public_base, res.translation_mask.as_str()),
            },
        },
        TaskWatchMessage::Error(retry) => QueryV1Message::Error {
            error_id: Some(if *retry {
                "true".to_owned()
            } else {
                "false".to_owned()
            }),
        },
    }
}

/// One step of a follow session: the frame a progress message becomes,
/// and whether the session closes after sending it — on success, and
/// on failure without retry.
pub fn watch_frame(msg: &TaskWatchMessage, public_base: &str) -> (r: (QueryV1Message, bool))
    ensures
        (match *msg {
            TaskWatchMessage::Pending(pos) => r.0 == (QueryV1Message::Pending { pos }) && !r.1,
            TaskWatchMessage::Status(ref s) => r.0 matches QueryV1Message::Status { ref status }
                && status@ == s@ && !r.1,
            TaskWatchMessage::Result(ref res) => r.0 matches QueryV1Message::Result { ref result }
                && result.translation_mask@ == spec_public_url(
                public_base@,
                res.translation_mask@,
            ) && r.1,
            TaskWatchMessage::Error(retry) => r.0 matches QueryV1Message::Error { error_id }
                && error_id matches Some(e) && e@ == (if retry {
                "true"@
            } else {
                "false"@
            }) && r.1 == !retry,
        }),
{
    let finish = match msg {
        TaskWatchMessage::Result(_) => true,
        TaskWatchMessage::Error(retry) => !*retry,
        _ => false,
    };
    (convert_msg(msg, public_base), finish)
}

/// The status snapshot of a task: the live channel's latest value if
/// the task is live; otherwise, from the table, the public result of a
/// done row, a bare failure for a failed row, and not-found for a
/// pending row or an unknown id.
pub fn status_response(
    sched: &MITWorkersInner,
    db: &TaskTable,
    id: &str,
    public_base: &str,
) -> (r: QueryV1Message)
    requires
        sched.wf(),
        db.wf(),
    ensures
        sched.spec_in_registry(id@) ==> (exists|i: int|
            0 <= i < sched.registry@.len() && (#[trigger] sched.registry@[i]).id@ == id@ && (
            match sched.registry@[i].chan.history().last() {
                TaskWatchMessage::Pending(pos) => r == (QueryV1Message::Pending { pos }),
                TaskWatchMessage::Status(s) => r matches QueryV1Message::Status { status }
                    && status@ == s@,
                TaskWatchMessage::Result(res) => r matches QueryV1Message::Result { result }
                    && result.translation_mask@ == spec_public_url(
                    public_base@,
                    res.translation_mask@,
                ),
                TaskWatchMessage::Error(retry) => r matches QueryV1Message::Error { error_id }
                    && error_id matches Some(e) && e@ == (if retry {
                    "true"@
                } else {
                    "false"@
                }),
            })),
        !sched.spec_in_registry(id@) ==> (forall|i: int|
            0 <= i < db.rows@.len() && (#[trigger] db.rows@[i]).id@ == id@ ==> (
            match db.rows@[i].state {
                TaskState::Done => (r matches QueryV1Message::Result { result }
                    && db.rows@[i].translation_mask is Some && result.translation_mask@
                    == spec_public_url(public_base@, db.rows@[i].translation_mask->Some_0@)),
                TaskState::Error => r == (QueryV1Message::Error { error_id: None }),
                _ => r == QueryV1Message::NotFound,
            })),
        !sched.spec_in_registry(id@) && !db.spec_has_id(id@) ==> r == QueryV1Message::NotFound,
{
    match sched.status(id) {
        Some(msg) => convert_msg(msg, public_base),
        None => {
            match db.find_by_id(id) {
                Some(i) => {
                    let row = db.row_at(i);
                    if row.state == TaskState::Done {
                        match &row.translation_mask {
                            Some(mask) => QueryV1Message::Result {
                                result: TaskResult {
                                    translation_mask: public_url(public_base, mask.as_str()),
                                },
                            },
                            None => QueryV1Message::NotFound,
                        }
                    } else if row.state == TaskState::Error {
                        QueryV1Message::Error { error_id: None }
                    } else {
                        QueryV1Message::NotFound
                    }
                },
                None => QueryV1Message::NotFound,
            }
        },
    }
}

/// Opening step of a follow session: the first frame to send and
/// whether the session stays open to stream further changes. A live
/// task is followed unless its snapshot is already terminal; a settled
/// done row yields its public result and closes; anything else is
/// not-found and closes.
pub fn event_open(
    sched: &MITWorkersInner,
    db: &TaskTable,
    id: &str,
    public_base: &str,
) -> (r: (QueryV1Message, bool))
    requires
        sched.wf(),
        db.wf(),
    ensures
        sched.spec_in_registry(id@) ==> (exists|i: int|
            0 <= i < sched.registry@.len() && (#[trigger] sched.registry@[i]).id@ == id@ && (
            match sched.registry@[i].chan.history().last() {
                TaskWatchMessage::Pending(pos) => r.0 == (QueryV1Message::Pending { pos }) && r.1,
                TaskWatchMessage::Status(s) => r.0 matches QueryV1Message::Status { status }
                    && status@ == s@ && r.1,
                TaskWatchMessage::Result(res) => r.0 matches QueryV1Message::Result { result }
                    && result.translation_mask@ == spec_public_url(
                    public_base@,
                    res.translation_mask@,
                ) && !r.1,
                TaskWatchMessage::Error(retry) => r.0 matches QueryV1Message::Error { error_id }
                    && error_id matches Some(e) && e@ == (if retry {
                    "true"@
                } else {
                    "false"@
                }) && r.1 == retry,
            })),
        !sched.spec_in_registry(id@) ==> !r.1 && (forall|i: int|
            0 <= i < db.rows@.len() && (#[trigger] db.rows@[i]).id@ == id@ ==> (
            match db.rows@[i].state {
                TaskState::Done => (r.0 matches QueryV1Message::Result { result }
                    && db.rows@[i].translation_mask is Some && result.translation_mask@
                    == spec_public_url(public_base@, db.rows@[i].translation_mask->Some_0@)),
                _ => r.0 == QueryV1Message::NotFound,
            })),
        !sched.spec_in_registry(id@) && !db.spec_has_id(id@) ==> r.0 == QueryV1Message::NotFound,
{
    match sched.status(id) {
        Some(msg) => {
            let (frame, finish) = watch_frame(msg, public_base);
            (frame, !finish)
        },
        None => {
            match db.find_by_id(id) {
                Some(i) => {
                    let row = db.row_at(i);
                    if row.state == TaskState::Done {
                        match &row.translation_mask {
                            Some(mask) => (
                                QueryV1Message::Result {
                                    result: TaskResult {
                                        translation_mask: public_url(public_base, mask.as_str()),
                                    },
                                },
                                false,
                            ),
                            None => (QueryV1Message::NotFound, false),
                        }
                    } else {
                        (QueryV1Message::NotFound, false)
                    }
                },
                None => (QueryV1Message::NotFound, false),
            }
        },
    }
}

} // verus!
