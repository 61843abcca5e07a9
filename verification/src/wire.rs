//! The framed binary protocol spoken with workers.
//!
//! A frame is one kind byte — new task, status report, finished task —
//! followed by the message's fields in order, each as a four-byte
//! little-endian length and the field's bytes; text fields carry
//! UTF-8. [`spec_encode`] gives a frame's bytes exactly,
//! [`spec_decode`] the message a byte string denotes, and
//! [`lemma_wire_round_trip`] shows that decoding inverts encoding.

use vstd::bytes::{
    lemma_auto_spec_u32_to_from_le_bytes, spec_u32_from_le_bytes, spec_u32_to_le_bytes,
    u32_from_le_bytes, u32_to_le_bytes,
};
use vstd::prelude::*;
use vstd::slice::{slice_subrange, slice_to_vec};
use vstd::utf8::{decode_utf8, encode_utf8, valid_utf8};

verus! {

/// A task handed to a worker.
#[derive(Debug, Clone, PartialEq, Eq)]
pub struct NewTask {
    pub id: String,
    pub source_image: Vec<u8>,
    pub target_language: String,
    pub detector: String,
    pub direction: String,
    pub translator: String,
    pub size: String,
}

/// A phase report from a worker.
#[derive(Debug, Clone, PartialEq, Eq)]
pub struct TaskStatus {
    pub id: String,
    pub status: String,
}

/// A finished task's mask bytes from a worker.
#[derive(Debug, Clone, PartialEq, Eq)]
pub struct FinishTask {
    pub id: String,
    pub translation_mask: Vec<u8>,
}

/// One message of the worker protocol.
#[derive(Debug, Clone, PartialEq, Eq)]
pub enum WorkerMessage {
    NewTask(NewTask),
    Status(TaskStatus),
    FinishTask(FinishTask),
}

/// The abstract content of a worker message: its fields as sequences.
pub enum WireView {
    NewTask {
        id: Seq<char>,
        source_image: Seq<u8>,
        target_language: Seq<char>,
        detector: Seq<char>,
        direction: Seq<char>,
        translator: Seq<char>,
        size: Seq<char>,
    },
    Status { id: Seq<char>, status: Seq<char> },
    FinishTask { id: Seq<char>, translation_mask: Seq<u8> },
}

/// The abstract content of a message value.
pub open spec fn view_of(m: WorkerMessage) -> WireView {
    match m {
        WorkerMessage::NewTask(t) => WireView::NewTask {
            id: t.id@,
            source_image: t.source_image@,
            target_language: t.target_language@,
            detector: t.detector@,
            direction: t.direction@,
            translator: t.translator@,
            size: t.size@,
        },
        WorkerMessage::Status(s) => WireView::Status { id: s.id@, status: s.status@ },
        WorkerMessage::FinishTask(f) => WireView::FinishTask {
            id: f.id@,
            translation_mask: f.translation_mask@,
        },
    }
}

/// A length-prefixed field: four little-endian length bytes, then the
/// field's bytes.
pub open spec fn lf(b: Seq<u8>) -> Seq<u8> {
    spec_u32_to_le_bytes(b.len() as u32) + b
}

/// Whether every field of a message fits its four-byte length prefix.
pub open spec fn encodable(v: WireView) -> bool {
    match v {
        WireView::NewTask {
            id,
            source_image,
            target_language,
            detector,
            direction,
            translator,
            size,
        } => {
            &&& encode_utf8(id).len() < 0x100000000
            &&& source_image.len() < 0x100000000
            &&& encode_utf8(target_language).len() < 0x100000000
            &&& encode_utf8(detector).len() < 0x100000000
            &&& encode_utf8(direction).len() < 0x100000000
            &&& encode_utf8(translator).len() < 0x100000000
            &&& encode_utf8(size).len() < 0x100000000
        },
        WireView::Status { id, status } => {
            &&& encode_utf8(id).len() < 0x100000000
            &&& encode_utf8(status).len() < 0x100000000
        },
        WireView::FinishTask { id, translation_mask } => {
            &&& encode_utf8(id).len() < 0x100000000
            &&& translation_mask.len() < 0x100000000
        },
    }
}

/// The frame bytes of a message.
pub open spec fn spec_encode(v: WireView) -> Seq<u8> {
    match v {
        WireView::NewTask {
            id,
            source_image,
            target_language,
            detector,
            direction,
            translator,
            size,
        } => seq![1u8] + lf(encode_utf8(id)) + lf(source_image) + lf(encode_utf8(target_language))
            + lf(encode_utf8(detector)) + lf(encode_utf8(direction)) + lf(encode_utf8(translator))
            + lf(encode_utf8(size)),
        WireView::Status { id, status } => seq![2u8] + lf(encode_utf8(id)) + lf(
            encode_utf8(status),
        ),
        WireView::FinishTask { id, translation_mask } => seq![3u8] + lf(encode_utf8(id)) + lf(
            translation_mask,
        ),
    }
}

/// The length-prefixed field starting at a position, if the bytes hold
/// one: its content and the position right after it.
pub open spec fn field_at(data: Seq<u8>, pos: int) -> Option<(Seq<u8>, int)> {
    if pos + 4 <= data.len() {
        let l = spec_u32_from_le_bytes(data.subrange(pos, pos + 4)) as int;
        if pos + 4 + l <= data.len() {
            Some((data.subrange(pos + 4, pos + 4 + l), pos + 4 + l))
        } else {
            None
        }
    } else {
        None
    }
}

/// The message a byte string denotes: the kind byte, then exactly the
/// kind's fields, text fields holding valid UTF-8, with nothing left
/// over.
pub open spec fn spec_decode(data: Seq<u8>) -> Option<WireView> {
    if data.len() < 1 {
        None
    } else if data[0] == 1u8 {
        match field_at(data, 1) {
            Some((f1, p1)) => match field_at(data, p1) {
                Some((f2, p2)) => match field_at(data, p2) {
                    Some((f3, p3)) => match field_at(data, p3) {
                        Some((f4, p4)) => match field_at(data, p4) {
                            Some((f5, p5)) => match field_at(data, p5) {
                                Some((f6, p6)) => match field_at(data, p6) {
                                    Some((f7, p7)) => {
                                        if p7 == data.len() && valid_utf8(f1) && valid_utf8(f3)
                                            && valid_utf8(f4) && valid_utf8(f5) && valid_utf8(f6)
                                            && valid_utf8(f7) {
                                            Some(
                                                WireView::NewTask {
                                                    id: decode_utf8(f1),
                                                    source_image: f2,
                                                    target_language: decode_utf8(f3),
                                                    detector: decode_utf8(f4),
                                                    direction: decode_utf8(f5),
                                                    translator: decode_utf8(f6),
                                                    size: decode_utf8(f7),
                                                },
                                            )
                                        } else {
                                            None
                                        }
                                    },
                                    None => None,
                                },
                                None => None,
                            },
                            None => None,
                        },
                        None => None,
                    },
                    None => None,
                },
                None => None,
            },
            None => None,
        }
    } else if data[0] == 2u8 {
        match field_at(data, 1) {
            Some((f1, p1)) => match field_at(data, p1) {
                Some((f2, p2)) => {
                    if p2 == data.len() && valid_utf8(f1) && valid_utf8(f2) {
                        Some(WireView::Status { id: decode_utf8(f1), status: decode_utf8(f2) })
                    } else {
                        None
                    }
                },
                None => None,
            },
            None => None,
        }
    } else if data[0] == 3u8 {
        match field_at(data, 1) {
            Some((f1, p1)) => match field_at(data, p1) {
                Some((f2, p2)) => {
                    if p2 == data.len() && valid_utf8(f1) {
                        Some(WireView::FinishTask { id: decode_utf8(f1), translation_mask: f2 })
                    } else {
                        None
                    }
                },
                None => None,
            },
            None => None,
        }
    } else {
        None
    }
}

/// Relies on String::from_utf8: it returns `Ok` exactly on valid
/// UTF-8, decoding those bytes.
#[verifier::external_body]
fn string_from_utf8(b: Vec<u8>) -> (r: Option<String>)
    ensures
        (match r {
            Some(s) => valid_utf8(b@) && s@ == decode_utf8(b@),
            None => !valid_utf8(b@),
        }),
{
    String::from_utf8(b).ok()
}

/// Appends bytes to a buffer.
fn push_bytes(out: &mut Vec<u8>, b: &[u8])
    ensures
        final(out)@ == old(out)@ + b@,
{
    let n = b.len();
    for i in 0..n
        invariant
            n == b@.len(),
            out@ == old(out)@ + b@.subrange(0, i as int),
    {
        out.push(b[i]);
        proof {
            assert(out@ =~= old(out)@ + b@.subrange(0, i + 1));
        }
    }
    proof {
        assert(old(out)@ + b@.subrange(0, b@.len() as int) =~= old(out)@ + b@);
    }
}

/// Appends one length-prefixed field to a buffer.
fn push_field(out: &mut Vec<u8>, b: &[u8])
    requires
        b@.len() < 0x100000000,
    ensures
        final(out)@ == old(out)@ + lf(b@),
    {
    let len_bytes = u32_to_le_bytes(b.len() as u32);
    push_bytes(out, len_bytes.as_slice());
    push_bytes(out, b);
    proof {
        assert(out@ =~= old(out)@ + lf(b@));
    }
}

/// Encodes a message into its frame bytes.
pub fn encode_worker_message(m: &WorkerMessage) -> (r: Vec<u8>)
    requires
        encodable(view_of(*m)),
    ensures
        r@ == spec_encode(view_of(*m)),
{
    let mut out: Vec<u8> = Vec::new();
    match m {
        WorkerMessage::NewTask(t) => {
            out.push(1u8);
            push_field(&mut out, t.id.as_str().as_bytes());
            push_field(&mut out, t.source_image.as_slice());
            push_field(&mut out, t.target_language.as_str().as_bytes());
            push_field(&mut out, t.detector.as_str().as_bytes());
            push_field(&mut out, t.direction.as_str().as_bytes());
            push_field(&mut out, t.translator.as_str().as_bytes());
            push_field(&mut out, t.size.as_str().as_bytes());
            proof {
                assert(out@ =~= spec_encode(view_of(*m)));
            }
        },
        WorkerMessage::Status(s) => {
            out.push(2u8);
            push_field(&mut out, s.id.as_str().as_bytes());
            push_field(&mut out, s.status.as_str().as_bytes());
            proof {
                assert(out@ =~= spec_encode(view_of(*m)));
            }
        },
        WorkerMessage::FinishTask(f) => {
            out.push(3u8);
            push_field(&mut out, f.id.as_str().as_bytes());
            push_field(&mut out, f.translation_mask.as_slice());
            proof {
                assert(out@ =~= spec_encode(view_of(*m)));
            }
        },
    }
    out
}

/// Reads the length-prefixed field starting at a position.
fn read_field<'a>(data: &'a [u8], pos: usize) -> (r: Option<(&'a [u8], usize)>)
    requires
        pos <= data@.len(),
    ensures
        (match r {
            Some((f, next)) => field_at(data@, pos as int) == Some((f@, next as int)) && pos + 4
                <= next <= data@.len(),
            None => field_at(data@, pos as int) is None,
        }),
{
    if data.len() - pos < 4 {
        return None;
    }
    let len_bytes = slice_subrange(data, pos, pos + 4);
    let l = u32_from_le_bytes(len_bytes) as usize;
    if l > data.len() - pos - 4 {
        return None;
    }
    let f = slice_subrange(data, pos + 4, pos + 4 + l);
    Some((f, pos + 4 + l))
}

/// Decodes a frame; exactly the byte strings [`spec_decode`] accepts
/// yield a message, with that content.
pub fn decode_worker_message(data: &[u8]) -> (r: Option<WorkerMessage>)
    ensures
        (match r {
            Some(m) => spec_decode(data@) == Some(view_of(m)),
            None => spec_decode(data@) is None,
        }),
{
    if data.len() < 1 {
        return None;
    }
    let kind = data[0];
    if kind == 1 {
        let (f1, p1) = match read_field(data, 1) {
            Some(x) => x,
            None => {
                return None;
            },
        };
        let (f2, p2) = match read_field(data, p1) {
            Some(x) => x,
            None => {
                return None;
            },
        };
        let (f3, p3) = match read_field(data, p2) {
            Some(x) => x,
            None => {
                return None;
            },
        };
        let (f4, p4) = match read_field(data, p3) {
            Some(x) => x,
            None => {
                return None;
            },
        };
        let (f5, p5) = match read_field(data, p4) {
            Some(x) => x,
            None => {
                return None;
            },
        };
        let (f6, p6) = match read_field(data, p5) {
            Some(x) => x,
            None => {
                return None;
            },
        };
        let (f7, p7) = match read_field(data, p6) {
            Some(x) => x,
            None => {
                return None;
            },
        };
        if p7 != data.len() {
            return None;
        }
        let id = match string_from_utf8(slice_to_vec(f1)) {
            Some(s) => s,
            None => {
                return None;
            },
        };
        let target_language = match string_from_utf8(slice_to_vec(f3)) {
            Some(s) => s,
            None => {
                return None;
            },
        };
        let detector = match string_from_utf8(slice_to_vec(f4)) {
            Some(s) => s,
            None => {
                return None;
            },
        };
        let direction = match string_from_utf8(slice_to_vec(f5)) {
            Some(s) => s,
            None => {
                return None;
            },
        };
        let translator = match string_from_utf8(slice_to_vec(f6)) {
            Some(s) => s,
            None => {
                return None;
            },
        };
        let size = match string_from_utf8(slice_to_vec(f7)) {
            Some(s) => s,
            None => {
                return None;
            },
        };
        Some(
            WorkerMessage::NewTask(
                NewTask {
                    id,
                    source_image: slice_to_vec(f2),
                    target_language,
                    detector,
                    direction,
                    translator,
                    size,
                },
            ),
        )
    } else if kind == 2 {
        let (f1, p1) = match read_field(data, 1) {
            Some(x) => x,
            None => {
                return None;
            },
        };
        let (f2, p2) = match read_field(data, p1) {
            Some(x) => x,
            None => {
                return None;
            },
        };
        if p2 != data.len() {
            return None;
        }
        let id = match string_from_utf8(slice_to_vec(f1)) {
            Some(s) => s,
            None => {
                return None;
            },
        };
        let status = match string_from_utf8(slice_to_vec(f2)) {
            Some(s) => s,
            None => {
                return None;
            },
        };
        Some(WorkerMessage::Status(TaskStatus { id, status }))
    } else if kind == 3 {
        let (f1, p1) = match read_field(data, 1) {
            Some(x) => x,
            None => {
                return None;
            },
        };
        let (f2, p2) = match read_field(data, p1) {
            Some(x) => x,
            None => {
                return None;
            },
        };
        if p2 != data.len() {
            return None;
        }
        let id = match string_from_utf8(slice_to_vec(f1)) {
            Some(s) => s,
            None => {
                return None;
            },
        };
        Some(
            WorkerMessage::FinishTask(
                FinishTask { id, translation_mask: slice_to_vec(f2) },
            ),
        )
    } else {
        None
    }
}

/// A length-prefixed field embedded in a byte string parses back to
/// its content.
proof fn lemma_field_at_concat(prefix: Seq<u8>, b: Seq<u8>, suffix: Seq<u8>, data: Seq<u8>)
    requires
        b.len() < 0x100000000,
        data == prefix + lf(b) + suffix,
    ensures
        field_at(data, prefix.len() as int) == Some(
            (b, prefix.len() as int + 4 + b.len() as int),
        ),
{
    lemma_auto_spec_u32_to_from_le_bytes();
    assert(data.subrange(prefix.len() as int, prefix.len() as int + 4) =~= spec_u32_to_le_bytes(
        b.len() as u32,
    ));
    assert(data.subrange(prefix.len() as int + 4, prefix.len() as int + 4 + b.len() as int) =~= b);
}

/// The length in bytes of a length-prefixed field.
proof fn lemma_lf_len(b: Seq<u8>)
    ensures
        lf(b).len() == 4 + b.len(),
{
    lemma_auto_spec_u32_to_from_le_bytes();
}

/// The field of a new-task frame, by number.
pub open spec fn nt_field(v: WireView, k: int) -> Seq<u8> {
    match v {
        WireView::NewTask {
            id,
            source_image,
            target_language,
            detector,
            direction,
            translator,
            size,
        } => {
            if k == 1 {
                encode_utf8(id)
            } else if k == 2 {
                source_image
            } else if k == 3 {
                encode_utf8(target_language)
            } else if k == 4 {
                encode_utf8(detector)
            } else if k == 5 {
                encode_utf8(direction)
            } else if k == 6 {
                encode_utf8(translator)
            } else {
                encode_utf8(size)
            }
        },
        _ => Seq::empty(),
    }
}

/// The byte offset of a new-task frame's field, by number.
pub open spec fn nt_pos(v: WireView, k: int) -> int
    decreases k,
{
    if k <= 1 {
        1
    } else {
        nt_pos(v, k - 1) + 4 + nt_field(v, k - 1).len()
    }
}

/// Field 1 of a new-task frame parses at its offset.
#[verifier::spinoff_prover]
proof fn lemma_nt_field_1(v: WireView)
    requires
        encodable(v),
        v is NewTask,
    ensures
        field_at(spec_encode(v), nt_pos(v, 1)) == Some((nt_field(v, 1), nt_pos(v, 2))),
{
    let data = spec_encode(v);
    match v {
        WireView::NewTask {
            id,
            source_image,
            target_language,
            detector,
            direction,
            translator,
            size,
        } => {
            let f1 = encode_utf8(id);
            let f2 = source_image;
            let f3 = encode_utf8(target_language);
            let f4 = encode_utf8(detector);
            let f5 = encode_utf8(direction);
            let f6 = encode_utf8(translator);
            let f7 = encode_utf8(size);
            let pre = seq![1u8];
            assert(nt_pos(v, 1) == 1);
            lemma_lf_len(f1);
            assert(nt_pos(v, 2) == nt_pos(v, 1) + 4 + f1.len());
            assert(nt_pos(v, 1) == pre.len());
            assert(data =~= pre + lf(f1) + (lf(f2) + lf(f3) + lf(f4) + lf(f5) + lf(f6) + lf(f7)));
            lemma_field_at_concat(pre, f1, lf(f2) + lf(f3) + lf(f4) + lf(f5) + lf(f6) + lf(f7), data);
        },
        _ => {},
    }
}

/// Field 2 of a new-task frame parses at its offset.
#[verifier::spinoff_prover]
proof fn lemma_nt_field_2(v: WireView)
    requires
        encodable(v),
        v is NewTask,
    ensures
        field_at(spec_encode(v), nt_pos(v, 2)) == Some((nt_field(v, 2), nt_pos(v, 3))),
{
    let data = spec_encode(v);
    match v {
        WireView::NewTask {
            id,
            source_image,
            target_language,
            detector,
            direction,
            translator,
            size,
        } => {
            let f1 = encode_utf8(id);
            let f2 = source_image;
            let f3 = encode_utf8(target_language);
            let f4 = encode_utf8(detector);
            let f5 = encode_utf8(direction);
            let f6 = encode_utf8(translator);
            let f7 = encode_utf8(size);
            let pre = seq![1u8] + lf(f1);
            assert(nt_pos(v, 1) == 1);
            lemma_lf_len(f1);
            assert(nt_pos(v, 2) == nt_pos(v, 1) + 4 + f1.len());
            lemma_lf_len(f2);
            assert(nt_pos(v, 3) == nt_pos(v, 2) + 4 + f2.len());
            assert(nt_pos(v, 2) == pre.len());
            assert(data =~= pre + lf(f2) + (lf(f3) + lf(f4) + lf(f5) + lf(f6) + lf(f7)));
            lemma_field_at_concat(pre, f2, lf(f3) + lf(f4) + lf(f5) + lf(f6) + lf(f7), data);
        },
        _ => {},
    }
}

/// Field 3 of a new-task frame parses at its offset.
#[verifier::spinoff_prover]
proof fn lemma_nt_field_3(v: WireView)
    requires
        encodable(v),
        v is NewTask,
    ensures
        field_at(spec_encode(v), nt_pos(v, 3)) == Some((nt_field(v, 3), nt_pos(v, 4))),
{
    let data = spec_encode(v);
    match v {
        WireView::NewTask {
            id,
            source_image,
            target_language,
            detector,
            direction,
            translator,
            size,
        } => {
            let f1 = encode_utf8(id);
            let f2 = source_image;
            let f3 = encode_utf8(target_language);
            let f4 = encode_utf8(detector);
            let f5 = encode_utf8(direction);
            let f6 = encode_utf8(translator);
            let f7 = encode_utf8(size);
            let pre = seq![1u8] + lf(f1) + lf(f2);
            assert(nt_pos(v, 1) == 1);
            lemma_lf_len(f1);
            assert(nt_pos(v, 2) == nt_pos(v, 1) + 4 + f1.len());
            lemma_lf_len(f2);
            assert(nt_pos(v, 3) == nt_pos(v, 2) + 4 + f2.len());
            lemma_lf_len(f3);
            assert(nt_pos(v, 4) == nt_pos(v, 3) + 4 + f3.len());
            assert(nt_pos(v, 3) == pre.len());
            assert(data =~= pre + lf(f3) + (lf(f4) + lf(f5) + lf(f6) + lf(f7)));
            lemma_field_at_concat(pre, f3, lf(f4) + lf(f5) + lf(f6) + lf(f7), data);
        },
        _ => {},
    }
}

/// Field 4 of a new-task frame parses at its offset.
#[verifier::spinoff_prover]
proof fn lemma_nt_field_4(v: WireView)
    requires
        encodable(v),
        v is NewTask,
    ensures
        field_at(spec_encode(v), nt_pos(v, 4)) == Some((nt_field(v, 4), nt_pos(v, 5))),
{
    let data = spec_encode(v);
    match v {
        WireView::NewTask {
            id,
            source_image,
            target_language,
            detector,
            direction,
            translator,
            size,
        } => {
            let f1 = encode_utf8(id);
            let f2 = source_image;
            let f3 = encode_utf8(target_language);
            let f4 = encode_utf8(detector);
            let f5 = encode_utf8(direction);
            let f6 = encode_utf8(translator);
            let f7 = encode_utf8(size);
            let pre = seq![1u8] + lf(f1) + lf(f2) + lf(f3);
            assert(nt_pos(v, 1) == 1);
            lemma_lf_len(f1);
            assert(nt_pos(v, 2) == nt_pos(v, 1) + 4 + f1.len());
            lemma_lf_len(f2);
            assert(nt_pos(v, 3) == nt_pos(v, 2) + 4 + f2.len());
            lemma_lf_len(f3);
            assert(nt_pos(v, 4) == nt_pos(v, 3) + 4 + f3.len());
            lemma_lf_len(f4);
            assert(nt_pos(v, 5) == nt_pos(v, 4) + 4 + f4.len());
            assert(nt_pos(v, 4) == pre.len());
            assert(data =~= pre + lf(f4) + (lf(f5) + lf(f6) + lf(f7)));
            lemma_field_at_concat(pre, f4, lf(f5) + lf(f6) + lf(f7), data);
        },
        _ => {},
    }
}

/// Field 5 of a new-task frame parses at its offset.
#[verifier::spinoff_prover]
proof fn lemma_nt_field_5(v: WireView)
    requires
        encodable(v),
        v is NewTask,
    ensures
        field_at(spec_encode(v), nt_pos(v, 5)) == Some((nt_field(v, 5), nt_pos(v, 6))),
{
    let data = spec_encode(v);
    match v {
        WireView::NewTask {
            id,
            source_image,
            target_language,
            detector,
            direction,
            translator,
            size,
        } => {
            let f1 = encode_utf8(id);
            let f2 = source_image;
            let f3 = encode_utf8(target_language);
            let f4 = encode_utf8(detector);
            let f5 = encode_utf8(direction);
            let f6 = encode_utf8(translator);
            let f7 = encode_utf8(size);
            let pre = seq![1u8] + lf(f1) + lf(f2) + lf(f3) + lf(f4);
            assert(nt_pos(v, 1) == 1);
            lemma_lf_len(f1);
            assert(nt_pos(v, 2) == nt_pos(v, 1) + 4 + f1.len());
            lemma_lf_len(f2);
            assert(nt_pos(v, 3) == nt_pos(v, 2) + 4 + f2.len());
            lemma_lf_len(f3);
            assert(nt_pos(v, 4) == nt_pos(v, 3) + 4 + f3.len());
            lemma_lf_len(f4);
            assert(nt_pos(v, 5) == nt_pos(v, 4) + 4 + f4.len());
            lemma_lf_len(f5);
            assert(nt_pos(v, 6) == nt_pos(v, 5) + 4 + f5.len());
            assert(nt_pos(v, 5) == pre.len());
            assert(data =~= pre + lf(f5) + (lf(f6) + lf(f7)));
            lemma_field_at_concat(pre, f5, lf(f6) + lf(f7), data);
        },
        _ => {},
    }
}

/// Field 6 of a new-task frame parses at its offset.
#[verifier::spinoff_prover]
proof fn lemma_nt_field_6(v: WireView)
    requires
        encodable(v),
        v is NewTask,
    ensures
        field_at(spec_encode(v), nt_pos(v, 6)) == Some((nt_field(v, 6), nt_pos(v, 7))),
{
    let data = spec_encode(v);
    match v {
        WireView::NewTask {
            id,
            source_image,
            target_language,
            detector,
            direction,
            translator,
            size,
        } => {
            let f1 = encode_utf8(id);
            let f2 = source_image;
            let f3 = encode_utf8(target_language);
            let f4 = encode_utf8(detector);
            let f5 = encode_utf8(direction);
            let f6 = encode_utf8(translator);
            let f7 = encode_utf8(size);
            let pre = seq![1u8] + lf(f1) + lf(f2) + lf(f3) + lf(f4) + lf(f5);
            assert(nt_pos(v, 1) == 1);
            lemma_lf_len(f1);
            assert(nt_pos(v, 2) == nt_pos(v, 1) + 4 + f1.len());
            lemma_lf_len(f2);
            assert(nt_pos(v, 3) == nt_pos(v, 2) + 4 + f2.len());
            lemma_lf_len(f3);
            assert(nt_pos(v, 4) == nt_pos(v, 3) + 4 + f3.len());
            lemma_lf_len(f4);
            assert(nt_pos(v, 5) == nt_pos(v, 4) + 4 + f4.len());
            lemma_lf_len(f5);
            assert(nt_pos(v, 6) == nt_pos(v, 5) + 4 + f5.len());
            lemma_lf_len(f6);
            assert(nt_pos(v, 7) == nt_pos(v, 6) + 4 + f6.len());
            assert(nt_pos(v, 6) == pre.len());
            assert(data =~= pre + lf(f6) + (lf(f7)));
            lemma_field_at_concat(pre, f6, lf(f7), data);
        },
        _ => {},
    }
}

/// Field 7 of a new-task frame parses at its offset.
#[verifier::spinoff_prover]
proof fn lemma_nt_field_7(v: WireView)
    requires
        encodable(v),
        v is NewTask,
    ensures
        field_at(spec_encode(v), nt_pos(v, 7)) == Some((nt_field(v, 7), nt_pos(v, 8))),
{
    let data = spec_encode(v);
    match v {
        WireView::NewTask {
            id,
            source_image,
            target_language,
            detector,
            direction,
            translator,
            size,
        } => {
            let f1 = encode_utf8(id);
            let f2 = source_image;
            let f3 = encode_utf8(target_language);
            let f4 = encode_utf8(detector);
            let f5 = encode_utf8(direction);
            let f6 = encode_utf8(translator);
            let f7 = encode_utf8(size);
            let pre = seq![1u8] + lf(f1) + lf(f2) + lf(f3) + lf(f4) + lf(f5) + lf(f6);
            assert(nt_pos(v, 1) == 1);
            lemma_lf_len(f1);
            assert(nt_pos(v, 2) == nt_pos(v, 1) + 4 + f1.len());
            lemma_lf_len(f2);
            assert(nt_pos(v, 3) == nt_pos(v, 2) + 4 + f2.len());
            lemma_lf_len(f3);
            assert(nt_pos(v, 4) == nt_pos(v, 3) + 4 + f3.len());
            lemma_lf_len(f4);
            assert(nt_pos(v, 5) == nt_pos(v, 4) + 4 + f4.len());
            lemma_lf_len(f5);
            assert(nt_pos(v, 6) == nt_pos(v, 5) + 4 + f5.len());
            lemma_lf_len(f6);
            assert(nt_pos(v, 7) == nt_pos(v, 6) + 4 + f6.len());
            lemma_lf_len(f7);
            assert(nt_pos(v, 8) == nt_pos(v, 7) + 4 + f7.len());
            assert(nt_pos(v, 7) == pre.len());
            assert(data =~= pre + lf(f7) + (Seq::empty()));
            lemma_field_at_concat(pre, f7, Seq::empty(), data);
        },
        _ => {},
    }
}

/// Round trip of a new-task frame.
#[verifier::rlimit(100)]
#[verifier::spinoff_prover]
proof fn lemma_round_trip_new_task(v: WireView)
    requires
        encodable(v),
        v is NewTask,
    ensures
        spec_decode(spec_encode(v)) == Some(v),
{
    let data = spec_encode(v);
    lemma_nt_field_1(v);
    lemma_nt_field_2(v);
    lemma_nt_field_3(v);
    lemma_nt_field_4(v);
    lemma_nt_field_5(v);
    lemma_nt_field_6(v);
    lemma_nt_field_7(v);
    match v {
        WireView::NewTask {
            id,
            source_image,
            target_language,
            detector,
            direction,
            translator,
            size,
        } => {
            vstd::utf8::encode_utf8_valid_utf8(id);
            vstd::utf8::encode_utf8_valid_utf8(target_language);
            vstd::utf8::encode_utf8_valid_utf8(detector);
            vstd::utf8::encode_utf8_valid_utf8(direction);
            vstd::utf8::encode_utf8_valid_utf8(translator);
            vstd::utf8::encode_utf8_valid_utf8(size);
            vstd::utf8::encode_utf8_decode_utf8(id);
            vstd::utf8::encode_utf8_decode_utf8(target_language);
            vstd::utf8::encode_utf8_decode_utf8(detector);
            vstd::utf8::encode_utf8_decode_utf8(direction);
            vstd::utf8::encode_utf8_decode_utf8(translator);
            vstd::utf8::encode_utf8_decode_utf8(size);
            let f1 = encode_utf8(id);
            let f2 = source_image;
            let f3 = encode_utf8(target_language);
            let f4 = encode_utf8(detector);
            let f5 = encode_utf8(direction);
            let f6 = encode_utf8(translator);
            let f7 = encode_utf8(size);
            lemma_lf_len(f1);
            lemma_lf_len(f2);
            lemma_lf_len(f3);
            lemma_lf_len(f4);
            lemma_lf_len(f5);
            lemma_lf_len(f6);
            lemma_lf_len(f7);
            assert(data.len() == 1 + lf(f1).len() + lf(f2).len() + lf(f3).len() + lf(f4).len()
                + lf(f5).len() + lf(f6).len() + lf(f7).len());
            assert(nt_pos(v, 8) == data.len());
            assert(data[0] == 1u8);
        },
        _ => {},
    }
}

/// Round trip of a status frame.
#[verifier::rlimit(100)]
#[verifier::spinoff_prover]
proof fn lemma_round_trip_status(v: WireView)
    requires
        encodable(v),
        v is Status,
    ensures
        spec_decode(spec_encode(v)) == Some(v),
{
    let data = spec_encode(v);
    match v {
        WireView::Status { id, status } => {
            vstd::utf8::encode_utf8_valid_utf8(id);
            vstd::utf8::encode_utf8_valid_utf8(status);
            vstd::utf8::encode_utf8_decode_utf8(id);
            vstd::utf8::encode_utf8_decode_utf8(status);
            let f1 = encode_utf8(id);
            let f2 = encode_utf8(status);
            assert(data[0] == 2u8);
            let pre1 = seq![2u8];
            let pre2 = pre1 + lf(f1);
            assert(data =~= pre1 + lf(f1) + lf(f2));
            lemma_field_at_concat(pre1, f1, lf(f2), data);
            assert(data =~= pre2 + lf(f2) + Seq::empty());
            lemma_field_at_concat(pre2, f2, Seq::empty(), data);
            lemma_lf_len(f1);
            lemma_lf_len(f2);
            assert(data.len() == 1 + lf(f1).len() + lf(f2).len());
        },
        _ => {},
    }
}

/// Round trip of a finished-task frame.
#[verifier::rlimit(100)]
#[verifier::spinoff_prover]
proof fn lemma_round_trip_finish(v: WireView)
    requires
        encodable(v),
        v is FinishTask,
    ensures
        spec_decode(spec_encode(v)) == Some(v),
{
    let data = spec_encode(v);
    match v {
        WireView::FinishTask { id, translation_mask } => {
            vstd::utf8::encode_utf8_valid_utf8(id);
            vstd::utf8::encode_utf8_decode_utf8(id);
            let f1 = encode_utf8(id);
            let f2 = translation_mask;
            assert(data[0] == 3u8);
            let pre1 = seq![3u8];
            let pre2 = pre1 + lf(f1);
            assert(data =~= pre1 + lf(f1) + lf(f2));
            lemma_field_at_concat(pre1, f1, lf(f2), data);
            assert(data =~= pre2 + lf(f2) + Seq::empty());
            lemma_field_at_concat(pre2, f2, Seq::empty(), data);
            lemma_lf_len(f1);
            lemma_lf_len(f2);
            assert(data.len() == 1 + lf(f1).len() + lf(f2).len());
        },
        _ => {},
    }
}

/// Round trip of the worker protocol: decoding a frame yields the
/// message it encodes.
pub proof fn lemma_wire_round_trip(v: WireView)
    requires
        encodable(v),
    ensures
        spec_decode(spec_encode(v)) == Some(v),
{
    match v {
        WireView::NewTask { .. } => lemma_round_trip_new_task(v),
        WireView::Status { .. } => lemma_round_trip_status(v),
        WireView::FinishTask { .. } => lemma_round_trip_finish(v),
    }
}


/// A parsed field recomposes into its stretch of the input: the four
/// length bytes and the content are exactly the bytes between the
/// field's offset and the position after it.
proof fn lemma_field_at_recompose(data: Seq<u8>, pos: int)
    requires
        0 <= pos,
        field_at(data, pos) is Some,
    ensures
        ({
            let (f, next) = field_at(data, pos)->Some_0;
            &&& f.len() < 0x100000000
            &&& lf(f) =~= data.subrange(pos, next)
            &&& pos + 4 <= next <= data.len()
        }),
{
    lemma_auto_spec_u32_to_from_le_bytes();
    let (f, next) = field_at(data, pos)->Some_0;
    assert(spec_u32_to_le_bytes((spec_u32_from_le_bytes(data.subrange(pos, pos + 4))))
        =~= data.subrange(pos, pos + 4));
    assert(lf(f) =~= data.subrange(pos, pos + 4) + data.subrange(pos + 4, next));
    assert(data.subrange(pos, pos + 4) + data.subrange(pos + 4, next) =~= data.subrange(
        pos,
        next,
    ));
}

/// Only canonical frames decode: a byte string that decodes to a
/// message is that message's frame.
#[verifier::rlimit(100)]
#[verifier::spinoff_prover]
pub proof fn lemma_decode_canonical(data: Seq<u8>, v: WireView)
    requires
        spec_decode(data) == Some(v),
    ensures
        encodable(v),
        spec_encode(v) == data,
{
    broadcast use vstd::utf8::decode_utf8_encode_utf8;

    if data[0] == 1u8 {
        let (f1, p1) = field_at(data, 1)->Some_0;
        let (f2, p2) = field_at(data, p1)->Some_0;
        let (f3, p3) = field_at(data, p2)->Some_0;
        let (f4, p4) = field_at(data, p3)->Some_0;
        let (f5, p5) = field_at(data, p4)->Some_0;
        let (f6, p6) = field_at(data, p5)->Some_0;
        let (f7, p7) = field_at(data, p6)->Some_0;
        lemma_field_at_recompose(data, 1);
        lemma_field_at_recompose(data, p1);
        lemma_field_at_recompose(data, p2);
        lemma_field_at_recompose(data, p3);
        lemma_field_at_recompose(data, p4);
        lemma_field_at_recompose(data, p5);
        lemma_field_at_recompose(data, p6);
        assert(seq![data[0]] + data.subrange(1, p1) =~= data.subrange(0, p1));
        assert(data.subrange(0, p1) + data.subrange(p1, p2) =~= data.subrange(0, p2));
        assert(data.subrange(0, p2) + data.subrange(p2, p3) =~= data.subrange(0, p3));
        assert(data.subrange(0, p3) + data.subrange(p3, p4) =~= data.subrange(0, p4));
        assert(data.subrange(0, p4) + data.subrange(p4, p5) =~= data.subrange(0, p5));
        assert(data.subrange(0, p5) + data.subrange(p5, p6) =~= data.subrange(0, p6));
        assert(data.subrange(0, p6) + data.subrange(p6, p7) =~= data.subrange(0, p7));
        assert(data.subrange(0, p7) =~= data);
        assert(spec_encode(v) == data);
    } else if data[0] == 2u8 {
        let (f1, p1) = field_at(data, 1)->Some_0;
        let (f2, p2) = field_at(data, p1)->Some_0;
        lemma_field_at_recompose(data, 1);
        lemma_field_at_recompose(data, p1);
        assert(seq![data[0]] + data.subrange(1, p1) =~= data.subrange(0, p1));
        assert(data.subrange(0, p1) + data.subrange(p1, p2) =~= data.subrange(0, p2));
        assert(data.subrange(0, p2) =~= data);
        assert(spec_encode(v) == data);
    } else {
        let (f1, p1) = field_at(data, 1)->Some_0;
        let (f2, p2) = field_at(data, p1)->Some_0;
        lemma_field_at_recompose(data, 1);
        lemma_field_at_recompose(data, p1);
        assert(seq![data[0]] + data.subrange(1, p1) =~= data.subrange(0, p1));
        assert(data.subrange(0, p1) + data.subrange(p1, p2) =~= data.subrange(0, p2));
        assert(data.subrange(0, p2) =~= data);
        assert(spec_encode(v) == data);
    }
}

} // verus!
