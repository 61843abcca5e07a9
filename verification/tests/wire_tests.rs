use cotrans_gateway::wire::{
    decode_worker_message, encode_worker_message, FinishTask, NewTask, TaskStatus, WorkerMessage,
};

#[test]
fn status_frame_bytes_are_exact() {
    let msg = WorkerMessage::Status(TaskStatus {
        id: "T1".to_owned(),
        status: "ok".to_owned(),
    });
    let bytes = encode_worker_message(&msg);
    assert_eq!(
        bytes,
        vec![2u8, 2, 0, 0, 0, b'T', b'1', 2, 0, 0, 0, b'o', b'k']
    );
}

#[test]
fn status_round_trip() {
    let msg = WorkerMessage::Status(TaskStatus {
        id: "task-7".to_owned(),
        status: "upscaling".to_owned(),
    });
    let bytes = encode_worker_message(&msg);
    assert_eq!(decode_worker_message(&bytes).unwrap(), msg);
}

#[test]
fn finish_round_trip() {
    let msg = WorkerMessage::FinishTask(FinishTask {
        id: "T1".to_owned(),
        translation_mask: vec![0, 1, 2, 255, 254],
    });
    let bytes = encode_worker_message(&msg);
    assert_eq!(decode_worker_message(&bytes).unwrap(), msg);
}

#[test]
fn new_task_round_trip() {
    let msg = WorkerMessage::NewTask(NewTask {
        id: "T1".to_owned(),
        source_image: vec![137, 80, 78, 71],
        target_language: "CHS".to_owned(),
        detector: "default".to_owned(),
        direction: "auto".to_owned(),
        translator: "google".to_owned(),
        size: "M".to_owned(),
    });
    let bytes = encode_worker_message(&msg);
    assert_eq!(decode_worker_message(&bytes).unwrap(), msg);
}

#[test]
fn decode_rejects_malformed_frames() {
    // Empty input.
    assert!(decode_worker_message(&[]).is_none());
    // Unknown kind byte.
    assert!(decode_worker_message(&[9u8, 0, 0, 0, 0]).is_none());
    // Truncated length prefix.
    assert!(decode_worker_message(&[2u8, 2, 0]).is_none());
    // Length prefix exceeding the remaining bytes.
    assert!(decode_worker_message(&[2u8, 200, 0, 0, 0, b'a']).is_none());
    // Trailing bytes after a complete message.
    let msg = WorkerMessage::Status(TaskStatus {
        id: "x".to_owned(),
        status: "y".to_owned(),
    });
    let mut bytes = encode_worker_message(&msg);
    bytes.push(0);
    assert!(decode_worker_message(&bytes).is_none());
}

#[test]
fn decode_rejects_invalid_text() {
    // A status frame whose id field is not UTF-8.
    let bytes = vec![2u8, 1, 0, 0, 0, 0xFF, 1, 0, 0, 0, b'y'];
    assert!(decode_worker_message(&bytes).is_none());
}
