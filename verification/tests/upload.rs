use carrybox::upload::{UploadAction, UploadEvent, UploadPlan, UploadRun, UploadState};
use std::collections::HashMap;

const PART: u64 = 16 * 1024 * 1024;

fn plan_of(size: u64) -> UploadPlan {
    UploadPlan { bucket: "cubo".to_string(), key: "a/b.bin".to_string(), size, mtime: 77 }
}

fn saved_state(size: u64, id: &str) -> UploadState {
    UploadState {
        bucket: "cubo".to_string(),
        key: "a/b.bin".to_string(),
        upload_id: id.to_string(),
        file_size: size,
        mtime_secs: 77,
        part_size: PART,
    }
}

fn advance(run: UploadRun, event: UploadEvent) -> (UploadRun, UploadAction) {
    assert!(run.accepts(&event));
    run.step(event)
}

/// A new upload of five parts, the last one byte long, about to read.
fn new_upload() -> UploadRun {
    let (run, action) = UploadRun::start(plan_of(4 * PART + 1), &None);
    assert!(matches!(action, UploadAction::Create));
    let (run, action) = advance(run, UploadEvent::Created(Ok(Some("id-1".to_string()))));
    match action {
        UploadAction::Save(st) => {
            assert_eq!(st.bucket, "cubo");
            assert_eq!(st.key, "a/b.bin");
            assert_eq!(st.upload_id, "id-1");
            assert_eq!(st.file_size, 4 * PART + 1);
            assert_eq!(st.mtime_secs, 77);
            assert_eq!(st.part_size, PART);
        }
        other => panic!("{:?}", other),
    }
    let (run, action) = advance(run, UploadEvent::Saved);
    assert!(matches!(action, UploadAction::Ask(0)));
    let (run, action) = advance(run, UploadEvent::Progress(true));
    match action {
        UploadAction::Read(spans) => {
            let seen: Vec<(i32, u64, u64)> = spans.iter().map(|s| (s.number, s.offset, s.len)).collect();
            assert_eq!(
                seen,
                vec![
                    (1, 0, PART),
                    (2, PART, PART),
                    (3, 2 * PART, PART),
                    (4, 3 * PART, PART),
                    (5, 4 * PART, 1),
                ]
            );
        }
        other => panic!("{:?}", other),
    }
    run
}

/// Reads part `number` and takes the replies of `landed`; storage has then
/// confirmed `sent` bytes.
fn read_and_settle(run: UploadRun, number: i32, landed: &[i32], sent: u64) -> UploadRun {
    let (mut run, action) = advance(run, UploadEvent::PartRead(number));
    assert!(matches!(action, UploadAction::Settle));
    for n in landed {
        let (next, action) = advance(run, confirmed(*n, &format!("t{}", n)));
        assert!(matches!(action, UploadAction::Wait));
        run = next;
    }
    let (run, action) = advance(run, UploadEvent::Settled);
    assert!(matches!(action, UploadAction::Ask(n) if n == sent));
    run
}

/// Reads part `number` and sends it.
fn read_and_send(run: UploadRun, number: i32, landed: &[i32], sent: u64) -> UploadRun {
    let run = read_and_settle(run, number, landed, sent);
    let (run, action) = advance(run, UploadEvent::Progress(true));
    assert!(matches!(action, UploadAction::Upload));
    run
}

fn confirmed(number: i32, tag: &str) -> UploadEvent {
    UploadEvent::PartSent { number, reply: Ok(tag.to_string()) }
}

/// All parts sent and confirmed; storage is asked to put them together.
fn all_sent() -> UploadRun {
    let run = read_and_send(new_upload(), 1, &[], 0);
    let run = read_and_send(run, 2, &[1], PART);
    let run = read_and_send(run, 3, &[], PART);
    let run = read_and_send(run, 4, &[3, 2], 3 * PART);
    let run = read_and_send(run, 5, &[], 3 * PART);
    // Nothing is answered that was not sent, and nothing twice.
    assert!(!run.accepts(&confirmed(5, "t5")));
    let (run, action) = advance(run, UploadEvent::ReadsOver);
    assert!(matches!(action, UploadAction::Drain));
    // The last parts arrive out of order.
    let (run, action) = advance(run, confirmed(5, "t5"));
    assert!(matches!(action, UploadAction::Ask(n) if n == 3 * PART + 1));
    let (run, action) = advance(run, UploadEvent::Progress(true));
    assert!(matches!(action, UploadAction::Wait));
    let (run, action) = advance(run, confirmed(4, "t4"));
    assert!(matches!(action, UploadAction::Ask(n) if n == 4 * PART + 1));
    let (run, _) = advance(run, UploadEvent::Progress(true));
    let (run, action) = advance(run, UploadEvent::ReaderEnded(Ok(())));
    match action {
        UploadAction::Complete { upload_id, parts } => {
            assert_eq!(upload_id, "id-1");
            let seen: Vec<(i32, &str)> = parts.iter().map(|p| (p.number, p.etag.as_str())).collect();
            assert_eq!(seen, vec![(1, "t1"), (2, "t2"), (3, "t3"), (4, "t4"), (5, "t5")]);
        }
        other => panic!("{:?}", other),
    }
    run
}

fn ended_with(action: UploadAction) -> Result<(), String> {
    match action {
        UploadAction::Finish(r) => r,
        other => panic!("{:?}", other),
    }
}

#[test]
fn an_upload_is_completed_and_checked() {
    let run = all_sent();
    let (run, action) = advance(run, UploadEvent::Completed(Ok(())));
    assert!(matches!(action, UploadAction::Measure));
    let (run, action) = advance(run, UploadEvent::Measured(Ok(Some((4 * PART + 1) as i64))));
    assert!(matches!(action, UploadAction::Forget));
    let (run, action) = advance(run, UploadEvent::Forgotten);
    assert_eq!(ended_with(action), Ok(()));
    assert!(!run.accepts(&UploadEvent::PartRead(1)));
    assert!(!run.accepts(&UploadEvent::Forgotten));
}

#[test]
fn a_wrong_size_is_not_trusted() {
    let (run, _) = advance(all_sent(), UploadEvent::Completed(Ok(())));
    let (_, action) = advance(run, UploadEvent::Measured(Ok(Some(12))));
    assert_eq!(
        ended_with(action),
        Err("Verificacion FALLIDA: en S3 hay 12 bytes pero el original tiene 67108865. La subida NO es confiable.".to_string())
    );
}

#[test]
fn a_missing_size_is_not_trusted() {
    let (run, _) = advance(all_sent(), UploadEvent::Completed(Ok(())));
    let (_, action) = advance(run, UploadEvent::Measured(Ok(None)));
    assert_eq!(
        ended_with(action),
        Err("Verificacion FALLIDA: en S3 hay -1 bytes pero el original tiene 67108865. La subida NO es confiable.".to_string())
    );
}

#[test]
fn errors_of_the_last_steps() {
    let (_, action) = advance(all_sent(), UploadEvent::Completed(Err("x".to_string())));
    assert_eq!(ended_with(action), Err("No se pudo completar la subida: x".to_string()));
    let (run, _) = advance(all_sent(), UploadEvent::Completed(Ok(())));
    let (_, action) = advance(run, UploadEvent::Measured(Err("y".to_string())));
    assert_eq!(ended_with(action), Err("No se pudo verificar la subida: y".to_string()));
}

#[test]
fn errors_of_the_first_step() {
    let (run, _) = UploadRun::start(plan_of(5 * PART), &None);
    let (_, action) = advance(run, UploadEvent::Created(Err("z".to_string())));
    assert_eq!(ended_with(action), Err("No se pudo iniciar la subida: z".to_string()));
    let (run, _) = UploadRun::start(plan_of(5 * PART), &None);
    let (_, action) = advance(run, UploadEvent::Created(Ok(None)));
    assert_eq!(ended_with(action), Err("El servidor no devolvio upload_id".to_string()));
}

#[test]
fn cancelling_aborts_and_forgets() {
    let run = read_and_send(new_upload(), 1, &[], 0);
    let run = read_and_settle(run, 2, &[], 0);
    let (run, action) = advance(run, UploadEvent::Progress(false));
    assert!(matches!(action, UploadAction::Drain));
    assert!(!run.accepts(&UploadEvent::ReaderEnded(Ok(()))));
    // The part in flight arrives, and the reader fails: neither matters now.
    let (run, action) = advance(run, confirmed(1, "t1"));
    assert!(matches!(action, UploadAction::Wait));
    let (run, action) = advance(run, UploadEvent::ReaderEnded(Err("Error leyendo el archivo".to_string())));
    assert!(matches!(action, UploadAction::Abort { upload_id } if upload_id == "id-1"));
    let (run, action) = advance(run, UploadEvent::Aborted);
    assert!(matches!(action, UploadAction::Forget));
    let (_, action) = advance(run, UploadEvent::Forgotten);
    assert_eq!(ended_with(action), Err("Cancelado".to_string()));
}

#[test]
fn a_failure_keeps_the_state() {
    let run = read_and_send(new_upload(), 1, &[], 0);
    let run = read_and_send(run, 2, &[], 0);
    let (run, _) = advance(run, UploadEvent::PartRead(3));
    let (run, _) = advance(run, UploadEvent::PartSent { number: 2, reply: Err("red".to_string()) });
    let (run, _) = advance(run, UploadEvent::PartLost("otro".to_string()));
    let (run, action) = advance(run, UploadEvent::Settled);
    assert!(matches!(action, UploadAction::Drain));
    let (_, action) = advance(run, UploadEvent::ReaderEnded(Ok(())));
    // The first failure stays; nothing is aborted or forgotten.
    assert_eq!(ended_with(action), Err("Fallo al subir la parte 2: red".to_string()));
}

#[test]
fn lost_tasks_are_named() {
    let run = read_and_send(new_upload(), 1, &[], 0);
    let (run, _) = advance(run, UploadEvent::ReadsOver);
    let (run, _) = advance(run, UploadEvent::PartLost("panico".to_string()));
    let (_, action) = advance(run, UploadEvent::ReaderLost("hilo".to_string()));
    assert_eq!(ended_with(action), Err("tarea fallo: panico".to_string()));
    let (run, _) = advance(new_upload(), UploadEvent::ReadsOver);
    let (_, action) = advance(run, UploadEvent::ReaderLost("hilo".to_string()));
    assert_eq!(ended_with(action), Err("lector: hilo".to_string()));
    let (run, _) = advance(new_upload(), UploadEvent::ReadsOver);
    let (_, action) = advance(run, UploadEvent::ReaderEnded(Err("Error leyendo el archivo".to_string())));
    assert_eq!(ended_with(action), Err("Error leyendo el archivo".to_string()));
}

#[test]
fn a_reader_that_ends_well_has_read_everything() {
    let (run, _) = advance(new_upload(), UploadEvent::ReadsOver);
    assert!(!run.accepts(&UploadEvent::ReaderEnded(Ok(()))));
    let run = new_upload();
    assert!(!run.accepts(&UploadEvent::PartRead(2)));
    assert!(!run.accepts(&UploadEvent::PartLost("x".to_string())));
}

#[test]
fn a_saved_upload_is_resumed() {
    let size = 4 * PART + 1;
    let (run, action) = UploadRun::start(plan_of(size), &Some(saved_state(size, "id-0")));
    assert!(matches!(action, UploadAction::ListParts { upload_id } if upload_id == "id-0"));
    let mut parts = HashMap::new();
    parts.insert(5, "t5".to_string());
    parts.insert(2, "t2".to_string());
    let (run, action) = advance(run, UploadEvent::Listed(Some(parts)));
    assert!(matches!(action, UploadAction::Ask(n) if n == PART + 1));
    let (run, action) = advance(run, UploadEvent::Progress(true));
    match action {
        UploadAction::Read(spans) => {
            let seen: Vec<i32> = spans.iter().map(|s| s.number).collect();
            assert_eq!(seen, vec![1, 3, 4]);
        }
        other => panic!("{:?}", other),
    }
    // What storage has is not sent again.
    assert!(!run.accepts(&confirmed(2, "x")));
    let run = read_and_send(run, 1, &[], PART + 1);
    let run = read_and_send(run, 3, &[1], 2 * PART + 1);
    let run = read_and_send(run, 4, &[3], 3 * PART + 1);
    let (run, _) = advance(run, UploadEvent::ReadsOver);
    let (run, action) = advance(run, confirmed(4, "t4"));
    // The last report is the size of the file.
    assert!(matches!(action, UploadAction::Ask(n) if n == size));
    let (run, _) = advance(run, UploadEvent::Progress(true));
    let (_, action) = advance(run, UploadEvent::ReaderEnded(Ok(())));
    match action {
        UploadAction::Complete { upload_id, parts } => {
            assert_eq!(upload_id, "id-0");
            let seen: Vec<i32> = parts.iter().map(|p| p.number).collect();
            assert_eq!(seen, vec![1, 2, 3, 4, 5]);
        }
        other => panic!("{:?}", other),
    }
}

#[test]
fn an_upload_that_storage_forgot_starts_anew() {
    let size = 5 * PART;
    let (run, _) = UploadRun::start(plan_of(size), &Some(saved_state(size, "id-0")));
    let (run, action) = advance(run, UploadEvent::Listed(None));
    assert!(matches!(action, UploadAction::Create));
    let (_, action) = advance(run, UploadEvent::Created(Ok(Some("id-9".to_string()))));
    assert!(matches!(action, UploadAction::Save(st) if st.upload_id == "id-9"));
}

#[test]
fn a_saved_upload_without_a_name_is_created_again() {
    let size = 5 * PART;
    let (run, _) = UploadRun::start(plan_of(size), &Some(saved_state(size, "")));
    let (_, action) = advance(run, UploadEvent::Listed(Some(HashMap::new())));
    assert!(matches!(action, UploadAction::Create));
}

#[test]
fn a_changed_file_is_not_resumed() {
    let size = 5 * PART;
    let plan = plan_of(size);
    assert_eq!(plan.resume_id(&Some(saved_state(size, "id"))), Some("id".to_string()));
    assert_eq!(plan.resume_id(&None), None);
    assert_eq!(plan.resume_id(&Some(saved_state(size + 1, "id"))), None);
    let mut st = saved_state(size, "id");
    st.mtime_secs = 78;
    assert_eq!(plan.resume_id(&Some(st)), None);
    let mut st = saved_state(size, "id");
    st.part_size = PART + 1;
    assert_eq!(plan.resume_id(&Some(st)), None);
    let mut st = saved_state(size, "id");
    st.key = "otra".to_string();
    assert_eq!(plan.resume_id(&Some(st)), None);
    let mut st = saved_state(size, "id");
    st.bucket = "otro".to_string();
    assert_eq!(plan.resume_id(&Some(st)), None);
    // What is saved of an upload is what resumes it.
    let st = plan.state(&"id-7".to_string());
    assert_eq!(plan.resume_id(&Some(st)), Some("id-7".to_string()));
}

#[test]
fn parts_of_another_file_are_not_taken() {
    let size = 5 * PART;
    let (run, _) = UploadRun::start(plan_of(size), &Some(saved_state(size, "id-0")));
    for n in [0, -3, 7] {
        let mut parts = HashMap::new();
        parts.insert(n, "t".to_string());
        assert!(!run.accepts(&UploadEvent::Listed(Some(parts))));
    }
    // One that begins where the file ends adds nothing.
    let mut parts = HashMap::new();
    parts.insert(6, "t6".to_string());
    let event = UploadEvent::Listed(Some(parts));
    assert!(run.accepts(&event));
    let (run, action) = run.step(event);
    assert!(matches!(action, UploadAction::Ask(0)));
    match run.step(UploadEvent::Progress(true)).1 {
        UploadAction::Read(spans) => assert_eq!(spans.len(), 5),
        other => panic!("{:?}", other),
    }
}

#[test]
fn an_upload_can_be_cancelled_at_every_report() {
    // Before anything is sent.
    let (run, _) = UploadRun::start(plan_of(5 * PART), &None);
    let (run, _) = advance(run, UploadEvent::Created(Ok(Some("id-1".to_string()))));
    let (run, _) = advance(run, UploadEvent::Saved);
    let (_, action) = advance(run, UploadEvent::Progress(false));
    assert!(matches!(action, UploadAction::Abort { upload_id } if upload_id == "id-1"));
    // While the last parts are awaited.
    let run = read_and_send(read_and_send(new_upload(), 1, &[], 0), 2, &[], 0);
    let (run, _) = advance(run, UploadEvent::ReadsOver);
    let (run, action) = advance(run, confirmed(2, "t2"));
    assert!(matches!(action, UploadAction::Ask(n) if n == PART));
    let (run, action) = advance(run, UploadEvent::Progress(false));
    assert!(matches!(action, UploadAction::Wait));
    let (run, action) = advance(run, confirmed(1, "t1"));
    assert!(matches!(action, UploadAction::Wait));
    let (run, action) = advance(run, UploadEvent::ReaderEnded(Ok(())));
    assert!(matches!(action, UploadAction::Abort { upload_id } if upload_id == "id-1"));
    let (run, _) = advance(run, UploadEvent::Aborted);
    let (_, action) = advance(run, UploadEvent::Forgotten);
    assert_eq!(ended_with(action), Err("Cancelado".to_string()));
}
