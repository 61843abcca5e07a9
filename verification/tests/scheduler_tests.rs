use cotrans_gateway::channel::TaskWatchMessage;
use cotrans_gateway::db::TaskTable;
use cotrans_gateway::mit_worker::{DispatchOutcome, ExecuteAction, MITWorkersInner};
use cotrans_gateway::params::{DbDirection, Detector, Language, Size, TaskState, Translator};
use cotrans_gateway::query::{status_response, watch_frame, QueryV1Message};
use cotrans_gateway::r2::translation_mask_key;
use cotrans_gateway::task::DBTaskParam;
use cotrans_gateway::upload::create_response;
use cotrans_gateway::wire::{TaskStatus, WorkerMessage};
use cotrans_gateway::WORKER_REVISION;

fn chs_google_m() -> DBTaskParam {
    DBTaskParam {
        target_language: Language::CHS,
        detector: Detector::Default,
        direction: DbDirection::Auto,
        translator: Translator::Google,
        size: Size::M,
    }
}

fn submit(
    sched: &mut MITWorkersInner,
    db: &mut TaskTable,
    source: &str,
    new_id: &str,
    retry: bool,
) -> DispatchOutcome {
    let param = chs_google_m();
    sched.upsert_and_dispatch(
        db,
        source,
        &param,
        retry,
        new_id,
        "upload/src.png",
        WORKER_REVISION,
        Some(vec![1, 2, 3]),
    )
}

#[test]
fn happy_path_frames() {
    // A submission with {CHS, default detector, auto direction, google, M}
    // is enqueued as T1; a subscriber joining at once sees pending 0,
    // then the attempt, a phase, and the public result, exactly as the
    // wire carries them.
    let mut sched = MITWorkersInner::new();
    let mut db = TaskTable::new();
    let outcome = submit(&mut sched, &mut db, "src-1", "T1", false);
    assert!(matches!(outcome, DispatchOutcome::Enqueued { .. }));

    let first = status_response(&sched, &db, "T1", "https://pub");
    assert_eq!(first.to_json(), "{\"type\":\"pending\",\"pos\":0}");

    let id = sched.worker_pop().unwrap();
    assert_eq!(id, "T1");
    sched.worker_start(&mut db, "T1", 1700000000);
    let (frame, finish) =
        watch_frame(sched.subscribe("T1").unwrap().latest(), "https://pub");
    assert_eq!(frame.to_json(), "{\"type\":\"status\",\"status\":\"pending\"}");
    assert!(!finish);

    // The worker reports a phase for T1; a report for another task is
    // ignored.
    let stray = WorkerMessage::Status(TaskStatus {
        id: "T9".to_owned(),
        status: "upscaling".to_owned(),
    });
    assert!(matches!(execute(&mut sched, "T1", stray), None));
    let report = WorkerMessage::Status(TaskStatus {
        id: "T1".to_owned(),
        status: "upscaling".to_owned(),
    });
    execute(&mut sched, "T1", report);
    let (frame, finish) =
        watch_frame(sched.subscribe("T1").unwrap().latest(), "https://pub");
    assert_eq!(frame.to_json(), "{\"type\":\"status\",\"status\":\"upscaling\"}");
    assert!(!finish);

    let mask = translation_mask_key("T1");
    assert_eq!(mask, "mask/T1.png");
    let (task, chan) = sched.worker_finish(&mut db, "T1", &mask);
    assert_eq!(task.state, TaskState::Done);
    let (frame, finish) = watch_frame(chan.latest(), "https://pub");
    assert_eq!(
        frame.to_json(),
        "{\"type\":\"result\",\"result\":{\"translation_mask\":\"https://pub/mask/T1.png\"}}"
    );
    assert!(finish);
    assert_eq!(sched.tasks_len(), 0);
    assert_eq!(sched.queue_len(), 0);
}

fn execute(sched: &mut MITWorkersInner, id: &str, msg: WorkerMessage) -> Option<()> {
    match cotrans_gateway::mit_worker::execute_step(id, msg) {
        ExecuteAction::PublishStatus(phase) => {
            sched.publish_status(id, phase);
            Some(())
        }
        ExecuteAction::Finish(_) => Some(()),
        ExecuteAction::Ignore => None,
    }
}

#[test]
fn dedup_returns_cached_result() {
    // After the task settles, an identical submission without retry
    // answers from the table: same id, done, the cached mask URL, and
    // nothing new in the queue.
    let mut sched = MITWorkersInner::new();
    let mut db = TaskTable::new();
    submit(&mut sched, &mut db, "src-1", "T1", false);
    sched.worker_pop();
    sched.worker_start(&mut db, "T1", 1);
    sched.worker_finish(&mut db, "T1", "mask/T1.png");

    let outcome = submit(&mut sched, &mut db, "src-1", "T1-dup", false);
    let response = create_response(&outcome, "https://pub");
    assert_eq!(response.id, "T1");
    assert_eq!(response.status, "done");
    assert_eq!(
        response.result.unwrap().translation_mask,
        "https://pub/mask/T1.png"
    );
    assert_eq!(sched.queue_len(), 0);
    assert_eq!(db.len(), 1);
}

#[test]
fn dedup_while_live_touches_nothing() {
    // While the task is still live, a second submission for the same
    // key returns the live entry and changes neither queue nor table.
    let mut sched = MITWorkersInner::new();
    let mut db = TaskTable::new();
    submit(&mut sched, &mut db, "src-1", "T1", false);
    let outcome = submit(&mut sched, &mut db, "src-1", "T1-dup", false);
    match outcome {
        DispatchOutcome::AlreadyActive { id } => assert_eq!(id, "T1"),
        other => panic!("expected a live entry, got {other:?}"),
    }
    assert_eq!(sched.queue_len(), 1);
    assert_eq!(sched.tasks_len(), 1);
    assert_eq!(db.len(), 1);
}

#[test]
fn retry_after_transient_failure() {
    // A failed attempt with attempts left re-queues the task at the
    // front: the watcher sees the retry announcement, and the next
    // attempt completes the task.
    let mut sched = MITWorkersInner::new();
    let mut db = TaskTable::new();
    submit(&mut sched, &mut db, "src-1", "T1", false);
    sched.worker_pop();
    sched.worker_start(&mut db, "T1", 1);
    let (retried, closed) = sched.worker_fail(&mut db, "T1", true);
    assert!(retried);
    assert!(closed.is_none());
    let (frame, finish) =
        watch_frame(sched.subscribe("T1").unwrap().latest(), "https://pub");
    assert_eq!(frame.to_json(), "{\"type\":\"error\",\"error_id\":\"true\"}");
    assert!(!finish);
    let row = db.row_at(db.find_by_id("T1").unwrap());
    assert_eq!(row.failed_count, 1);
    assert_eq!(row.state, TaskState::Error);
    assert_eq!(sched.queue_len(), 1);

    let id = sched.worker_pop().unwrap();
    assert_eq!(id, "T1");
    sched.worker_start(&mut db, "T1", 2);
    let (_, chan) = sched.worker_finish(&mut db, "T1", "mask/T1.png");
    let (frame, finish) = watch_frame(chan.latest(), "https://pub");
    assert!(finish);
    assert_eq!(
        frame.to_json(),
        "{\"type\":\"result\",\"result\":{\"translation_mask\":\"https://pub/mask/T1.png\"}}"
    );
}

#[test]
fn permanent_failure_after_three_attempts() {
    // Three failures settle the task: the row records three attempts
    // and the error state, the watcher sees a final failure, and the
    // channel closes with the registry entry gone.
    let mut sched = MITWorkersInner::new();
    let mut db = TaskTable::new();
    submit(&mut sched, &mut db, "src-1", "T1", false);
    for attempt in 0..2 {
        sched.worker_pop();
        sched.worker_start(&mut db, "T1", attempt);
        let (retried, closed) = sched.worker_fail(&mut db, "T1", true);
        assert!(retried);
        assert!(closed.is_none());
    }
    sched.worker_pop();
    sched.worker_start(&mut db, "T1", 3);
    let (retried, closed) = sched.worker_fail(&mut db, "T1", true);
    assert!(!retried);
    let chan = closed.unwrap();
    let (frame, finish) = watch_frame(chan.latest(), "https://pub");
    assert_eq!(frame.to_json(), "{\"type\":\"error\",\"error_id\":\"false\"}");
    assert!(finish);
    let row = db.row_at(db.find_by_id("T1").unwrap());
    assert_eq!(row.state, TaskState::Error);
    assert_eq!(row.failed_count, 3);
    assert_eq!(sched.tasks_len(), 0);
    assert_eq!(sched.queue_len(), 0);

    // Exactly one terminal message, and it is the last.
    let mut terminals = 0;
    for i in 0..chan.history_len() {
        if chan.history_at(i).is_terminal() {
            terminals += 1;
            assert_eq!(i, chan.history_len() - 1);
        }
    }
    assert_eq!(terminals, 1);
}

#[test]
fn failed_table_update_settles_without_retry() {
    // When the failure cannot be recorded, the task is not re-queued:
    // the count would be lost, so the terminal failure is published.
    let mut sched = MITWorkersInner::new();
    let mut db = TaskTable::new();
    submit(&mut sched, &mut db, "src-1", "T1", false);
    sched.worker_pop();
    sched.worker_start(&mut db, "T1", 1);
    let (retried, closed) = sched.worker_fail(&mut db, "T1", false);
    assert!(!retried);
    let chan = closed.unwrap();
    assert_eq!(*chan.latest(), TaskWatchMessage::Error(false));
    // The table kept its running state: the failed update changed
    // nothing.
    let row = db.row_at(db.find_by_id("T1").unwrap());
    assert_eq!(row.failed_count, 0);
    assert_eq!(row.state, TaskState::Running);
}

#[test]
fn recovery_replays_pending_rows_only() {
    // Two seeded rows: a clean pending one and one that failed out.
    // Recovery enqueues the first and skips the second.
    let mut sched = MITWorkersInner::new();
    let mut db = TaskTable::new();
    let param = chs_google_m();
    db.upsert_task("src-2", &param, false, "upload/a.png", "T2", WORKER_REVISION);
    let other = DBTaskParam { size: Size::L, ..param };
    db.upsert_task("src-3", &other, false, "upload/b.png", "T3", WORKER_REVISION);
    for _ in 0..5 {
        let idx = db.find_by_id("T3").unwrap();
        let id = db.row_at(idx).id.clone();
        db.record_failure(&id);
    }

    let fetched = vec![
        ("T2".to_owned(), Some(vec![9u8])),
        ("T3".to_owned(), Some(vec![9u8])),
    ];
    sched.resume(&mut db, WORKER_REVISION, fetched);
    assert_eq!(sched.queue_len(), 1);
    assert_eq!(sched.tasks_len(), 1);
    assert!(sched.subscribe("T2").is_some());
    assert!(sched.subscribe("T3").is_none());
}

#[test]
fn recovery_marks_unloadable_sources_failed() {
    let mut sched = MITWorkersInner::new();
    let mut db = TaskTable::new();
    let param = chs_google_m();
    db.upsert_task("src-2", &param, false, "upload/a.png", "T2", WORKER_REVISION);
    sched.resume(&mut db, WORKER_REVISION, vec![("T2".to_owned(), None)]);
    assert_eq!(sched.queue_len(), 0);
    let row = db.row_at(db.find_by_id("T2").unwrap());
    assert_eq!(row.state, TaskState::Error);
    assert_eq!(row.failed_count, 0);
}

#[test]
fn renumber_updates_remaining_positions() {
    // T4, T5, T6 enter at positions 0, 1, 2. Claiming T4 renumbers the
    // rest: T5 hears 1, T6 hears 2, and neither position ever grew.
    let mut sched = MITWorkersInner::new();
    let mut db = TaskTable::new();
    submit(&mut sched, &mut db, "src-4", "T4", false);
    let param5 = DBTaskParam { size: Size::S, ..chs_google_m() };
    sched.upsert_and_dispatch(
        &mut db, "src-5", &param5, false, "T5", "upload/5.png", WORKER_REVISION,
        Some(vec![5]),
    );
    let param6 = DBTaskParam { size: Size::L, ..chs_google_m() };
    sched.upsert_and_dispatch(
        &mut db, "src-6", &param6, false, "T6", "upload/6.png", WORKER_REVISION,
        Some(vec![6]),
    );
    assert_eq!(*sched.subscribe("T4").unwrap().latest(), TaskWatchMessage::Pending(0));
    assert_eq!(*sched.subscribe("T5").unwrap().latest(), TaskWatchMessage::Pending(1));
    assert_eq!(*sched.subscribe("T6").unwrap().latest(), TaskWatchMessage::Pending(2));

    let id = sched.worker_pop().unwrap();
    assert_eq!(id, "T4");
    assert_eq!(*sched.subscribe("T5").unwrap().latest(), TaskWatchMessage::Pending(1));
    assert_eq!(*sched.subscribe("T6").unwrap().latest(), TaskWatchMessage::Pending(2));

    sched.worker_start(&mut db, "T4", 1);
    sched.worker_finish(&mut db, "T4", "mask/T4.png");
    let id = sched.worker_pop().unwrap();
    assert_eq!(id, "T5");
    assert_eq!(*sched.subscribe("T6").unwrap().latest(), TaskWatchMessage::Pending(1));

    // Positions a watcher of T6 observed never increased.
    let chan = sched.subscribe("T6").unwrap();
    let mut last: Option<usize> = None;
    for i in 0..chan.history_len() {
        if let TaskWatchMessage::Pending(p) = chan.history_at(i) {
            if let Some(prev) = last {
                assert!(*p <= prev);
            }
            last = Some(*p);
        }
    }
}

#[test]
fn retried_task_precedes_waiting_tasks() {
    // A enters before B; A is claimed and fails with attempts left, so
    // A returns to the front and is claimed again before B.
    let mut sched = MITWorkersInner::new();
    let mut db = TaskTable::new();
    submit(&mut sched, &mut db, "src-a", "A", false);
    let param_b = DBTaskParam { size: Size::X, ..chs_google_m() };
    sched.upsert_and_dispatch(
        &mut db, "src-b", &param_b, false, "B", "upload/b.png", WORKER_REVISION,
        Some(vec![2]),
    );
    let id = sched.worker_pop().unwrap();
    assert_eq!(id, "A");
    sched.worker_start(&mut db, "A", 1);
    let (retried, _) = sched.worker_fail(&mut db, "A", true);
    assert!(retried);
    let id = sched.worker_pop().unwrap();
    assert_eq!(id, "A");
}

#[test]
fn registry_matches_queue_plus_executing() {
    // Registry/queue coherence at every step of a small run.
    let mut sched = MITWorkersInner::new();
    let mut db = TaskTable::new();
    let check = |s: &MITWorkersInner, executing: usize| {
        assert_eq!(s.tasks_len(), s.queue_len() + executing);
    };
    check(&sched, 0);
    submit(&mut sched, &mut db, "src-a", "A", false);
    check(&sched, 0);
    let param_b = DBTaskParam { size: Size::X, ..chs_google_m() };
    sched.upsert_and_dispatch(
        &mut db, "src-b", &param_b, false, "B", "upload/b.png", WORKER_REVISION,
        Some(vec![2]),
    );
    check(&sched, 0);
    sched.worker_pop();
    check(&sched, 1);
    sched.worker_start(&mut db, "A", 1);
    check(&sched, 1);
    sched.worker_fail(&mut db, "A", true);
    check(&sched, 0);
    sched.worker_pop();
    check(&sched, 1);
    sched.worker_finish(&mut db, "A", "mask/A.png");
    check(&sched, 0);
}

#[test]
fn retry_resubmission_resets_a_settled_row() {
    // A retrying submission of a failed-out key resets the row to
    // pending, clears its mask, and enqueues the task again.
    let mut sched = MITWorkersInner::new();
    let mut db = TaskTable::new();
    submit(&mut sched, &mut db, "src-1", "T1", false);
    for attempt in 0..3 {
        sched.worker_pop();
        sched.worker_start(&mut db, "T1", attempt);
        sched.worker_fail(&mut db, "T1", true);
    }
    assert_eq!(sched.tasks_len(), 0);
    let outcome = submit(&mut sched, &mut db, "src-1", "T1-retry", true);
    assert!(matches!(outcome, DispatchOutcome::Enqueued { .. }));
    let row = db.row_at(db.find_by_id("T1").unwrap());
    assert_eq!(row.state, TaskState::Pending);
    assert!(row.translation_mask.is_none());
    assert_eq!(sched.queue_len(), 1);
}

#[test]
fn failed_out_row_is_cached_without_retry() {
    // Without the retry flag, a failed-out row is answered from the
    // table and not enqueued.
    let mut sched = MITWorkersInner::new();
    let mut db = TaskTable::new();
    submit(&mut sched, &mut db, "src-1", "T1", false);
    for attempt in 0..3 {
        sched.worker_pop();
        sched.worker_start(&mut db, "T1", attempt);
        sched.worker_fail(&mut db, "T1", true);
    }
    let outcome = submit(&mut sched, &mut db, "src-1", "T1-again", false);
    match outcome {
        DispatchOutcome::Cached { id, state, translation_mask } => {
            assert_eq!(id, "T1");
            assert_eq!(state, TaskState::Error);
            assert!(translation_mask.is_none());
        }
        other => panic!("expected the settled row, got {other:?}"),
    }
    assert_eq!(sched.queue_len(), 0);
}

#[test]
fn status_snapshot_paths() {
    let mut sched = MITWorkersInner::new();
    let mut db = TaskTable::new();
    // Unknown id.
    let frame = status_response(&sched, &db, "nope", "https://pub");
    assert_eq!(frame.to_json(), "{\"type\":\"not_found\"}");
    // Live task.
    submit(&mut sched, &mut db, "src-1", "T1", false);
    let frame = status_response(&sched, &db, "T1", "https://pub");
    assert_eq!(frame, QueryV1Message::Pending { pos: 0 });
    // Settled task, from the table.
    sched.worker_pop();
    sched.worker_start(&mut db, "T1", 1);
    sched.worker_finish(&mut db, "T1", "mask/T1.png");
    let frame = status_response(&sched, &db, "T1", "https://pub");
    assert_eq!(
        frame.to_json(),
        "{\"type\":\"result\",\"result\":{\"translation_mask\":\"https://pub/mask/T1.png\"}}"
    );
    // Failed-out task, from the table.
    submit(&mut sched, &mut db, "src-9", "T9", false);
    for attempt in 0..3 {
        sched.worker_pop();
        sched.worker_start(&mut db, "T9", attempt);
        sched.worker_fail(&mut db, "T9", true);
    }
    let frame = status_response(&sched, &db, "T9", "https://pub");
    assert_eq!(frame.to_json(), "{\"type\":\"error\",\"error_id\":null}");
}

#[test]
fn deferred_source_fetch_flow() {
    // A submission without bytes asks for the source; once fetched,
    // the late dispatch enqueues the task unless a live channel
    // appeared meanwhile.
    let mut sched = MITWorkersInner::new();
    let mut db = TaskTable::new();
    let param = chs_google_m();
    let outcome = sched.upsert_and_dispatch(
        &mut db, "src-1", &param, false, "T1", "upload/src.png", WORKER_REVISION, None,
    );
    let (id, file) = match outcome {
        DispatchOutcome::NeedsSource { id, source_image_file } => (id, source_image_file),
        other => panic!("expected a source fetch request, got {other:?}"),
    };
    assert_eq!(id, "T1");
    assert_eq!(file, "upload/src.png");
    assert_eq!(sched.queue_len(), 0);

    let idx = db.find_by_id(&id).unwrap();
    let row = db.row_at(idx).duplicate();
    assert!(sched.subscribe_or_dispatch(&row, vec![7, 8, 9]));
    assert_eq!(sched.queue_len(), 1);
    assert_eq!(sched.tasks_len(), 1);
    // A second late dispatch finds the live channel and changes nothing.
    assert!(!sched.subscribe_or_dispatch(&row, vec![7, 8, 9]));
    assert_eq!(sched.queue_len(), 1);
}

#[test]
fn recovery_keeps_order_and_positions() {
    // Three admitted rows recovered in table order: the queue follows
    // the fetched order and each fresh channel opens with exactly its
    // queue position.
    let mut sched = MITWorkersInner::new();
    let mut db = TaskTable::new();
    let param = chs_google_m();
    db.upsert_task("src-a", &param, false, "upload/a.png", "A", WORKER_REVISION);
    let param_b = DBTaskParam { size: Size::S, ..param };
    db.upsert_task("src-b", &param_b, false, "upload/b.png", "B", WORKER_REVISION);
    let param_c = DBTaskParam { size: Size::L, ..param };
    db.upsert_task("src-c", &param_c, false, "upload/c.png", "C", WORKER_REVISION);

    let fetched: Vec<(String, Option<Vec<u8>>)> =
        cotrans_gateway::mit_worker::recovery_candidates(&db, WORKER_REVISION)
            .into_iter()
            .map(|(id, _file)| (id, Some(vec![1u8])))
            .collect();
    sched.resume(&mut db, WORKER_REVISION, fetched);

    assert_eq!(sched.queue_len(), 3);
    assert_eq!(*sched.subscribe("A").unwrap().latest(), TaskWatchMessage::Pending(0));
    assert_eq!(*sched.subscribe("B").unwrap().latest(), TaskWatchMessage::Pending(1));
    assert_eq!(*sched.subscribe("C").unwrap().latest(), TaskWatchMessage::Pending(2));
    assert_eq!(sched.worker_pop().unwrap(), "A");
    assert_eq!(sched.worker_pop().unwrap(), "B");
    assert_eq!(sched.worker_pop().unwrap(), "C");
}
