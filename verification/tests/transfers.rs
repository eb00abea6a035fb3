use carrybox::batch::{Batch, BatchAction, BatchStep, TransferItem};
use carrybox::copy::{
    send_whole, ChunkCopy, CopyAction, CopyEvent, CopyRoute, WholeStage, WholeStep,
};
use carrybox::events::{
    error, file_advanced, file_report, log_line, logs_target, status, Direction,
};
use carrybox::transfer::{file_step, FileRoute, FileStage, FileStep};

fn copy_step(c: &mut ChunkCopy, event: CopyEvent) -> CopyAction {
    assert!(c.accepts(&event));
    c.step(event)
}

#[test]
fn a_stream_is_copied() {
    let mut c = ChunkCopy::start(CopyRoute::Download, 0);
    assert!(matches!(copy_step(&mut c, CopyEvent::Read(Ok(Some(65536)))), CopyAction::Write));
    assert!(matches!(copy_step(&mut c, CopyEvent::Wrote(Ok(()))), CopyAction::Report(65536)));
    assert!(matches!(copy_step(&mut c, CopyEvent::Reported(true)), CopyAction::Read));
    assert!(matches!(copy_step(&mut c, CopyEvent::Read(Ok(Some(10)))), CopyAction::Write));
    assert!(matches!(copy_step(&mut c, CopyEvent::Wrote(Ok(()))), CopyAction::Report(65546)));
    assert!(matches!(copy_step(&mut c, CopyEvent::Reported(true)), CopyAction::Read));
    assert!(matches!(copy_step(&mut c, CopyEvent::Read(Ok(Some(0)))), CopyAction::Finish));
    assert_eq!(c.total, 65546);
    assert!(!c.accepts(&CopyEvent::Read(Ok(None))));
}

#[test]
fn an_object_goes_on_behind_an_empty_piece() {
    let mut c = ChunkCopy::start(CopyRoute::Object, 100);
    assert!(matches!(copy_step(&mut c, CopyEvent::Read(Ok(Some(0)))), CopyAction::Write));
    assert!(matches!(copy_step(&mut c, CopyEvent::Wrote(Ok(()))), CopyAction::Report(100)));
    assert!(matches!(copy_step(&mut c, CopyEvent::Reported(true)), CopyAction::Read));
    assert!(matches!(copy_step(&mut c, CopyEvent::Read(Ok(Some(5)))), CopyAction::Write));
    assert!(matches!(copy_step(&mut c, CopyEvent::Wrote(Ok(()))), CopyAction::Report(105)));
    assert!(matches!(copy_step(&mut c, CopyEvent::Reported(true)), CopyAction::Read));
    assert!(matches!(copy_step(&mut c, CopyEvent::Read(Ok(None))), CopyAction::Finish));
}

#[test]
fn a_copy_can_be_cancelled() {
    for route in [CopyRoute::Download, CopyRoute::Upload, CopyRoute::Object] {
        let mut c = ChunkCopy::start(route, 0);
        copy_step(&mut c, CopyEvent::Read(Ok(Some(3))));
        copy_step(&mut c, CopyEvent::Wrote(Ok(())));
        let action = copy_step(&mut c, CopyEvent::Reported(false));
        assert!(matches!(action, CopyAction::Stop(e) if e == "Cancelado"));
        assert!(!c.accepts(&CopyEvent::Reported(true)));
        assert!(!c.accepts(&CopyEvent::Read(Ok(Some(1)))));
        assert!(!c.accepts(&CopyEvent::Wrote(Ok(()))));
    }
}

#[test]
fn failures_of_a_copy() {
    for (route, reading, writing) in [
        (CopyRoute::Download, "Error leyendo: x", "Error escribiendo en disco: x"),
        (CopyRoute::Upload, "Error leyendo local: x", "Error subiendo: x"),
        (CopyRoute::Object, "Error leyendo: x", "Error escribiendo: x"),
    ] {
        let mut c = ChunkCopy::start(route, 0);
        let action = copy_step(&mut c, CopyEvent::Read(Err("x".to_string())));
        assert!(matches!(action, CopyAction::Stop(e) if e == reading));
        let mut c = ChunkCopy::start(route, 0);
        copy_step(&mut c, CopyEvent::Read(Ok(Some(1))));
        let action = copy_step(&mut c, CopyEvent::Wrote(Err("x".to_string())));
        assert!(matches!(action, CopyAction::Stop(e) if e == writing));
    }
}

#[test]
fn a_count_that_does_not_fit_is_not_taken() {
    let mut c = ChunkCopy::start(CopyRoute::Object, u64::MAX - 1);
    copy_step(&mut c, CopyEvent::Read(Ok(Some(2))));
    assert!(!c.accepts(&CopyEvent::Wrote(Ok(()))));
}

fn stages_of(route: FileRoute) -> Vec<FileStage> {
    let mut stages = vec![FileStage::OpenSource];
    loop {
        match file_step(route, stages[stages.len() - 1], Ok(())) {
            FileStep::Try(next) => stages.push(next),
            FileStep::Done => return stages,
            FileStep::Failed(e) => panic!("{}", e),
        }
    }
}

#[test]
fn a_file_is_opened_copied_and_finished() {
    let usual = vec![FileStage::OpenSource, FileStage::OpenTarget, FileStage::Copy, FileStage::Finish];
    for route in [
        FileRoute::FtpDownload,
        FileRoute::FtpUpload,
        FileRoute::SftpDownload,
        FileRoute::ObjectFresh,
        FileRoute::ObjectResumed,
    ] {
        assert_eq!(stages_of(route), usual);
    }
    let mut closed = usual.clone();
    closed.push(FileStage::Close);
    assert_eq!(stages_of(FileRoute::SftpUpload), closed);
}

#[test]
fn failures_of_a_file() {
    let fail = |route, stage| match file_step(route, stage, Err("x".to_string())) {
        FileStep::Failed(e) => e,
        other => format!("{:?}", other),
    };
    for (route, source, target, finish) in [
        (
            FileRoute::FtpDownload,
            "No se pudo abrir el archivo remoto: x",
            "No se pudo crear el archivo local: x",
            "Error al finalizar la descarga: x",
        ),
        (
            FileRoute::FtpUpload,
            "No se pudo abrir el archivo local: x",
            "No se pudo crear el archivo remoto: x",
            "Error al finalizar la subida: x",
        ),
        (
            FileRoute::SftpDownload,
            "No se pudo abrir el archivo remoto: x",
            "No se pudo crear el archivo local: x",
            "x",
        ),
        (
            FileRoute::SftpUpload,
            "No se pudo abrir el archivo local: x",
            "No se pudo crear el archivo remoto: x",
            "x",
        ),
        (
            FileRoute::ObjectFresh,
            "No se pudo descargar: x",
            "No se pudo crear el archivo local: x",
            "Done",
        ),
        (
            FileRoute::ObjectResumed,
            "No se pudo descargar: x",
            "No se pudo abrir el archivo local: x",
            "Done",
        ),
    ] {
        assert_eq!(fail(route, FileStage::OpenSource), source);
        assert_eq!(fail(route, FileStage::OpenTarget), target);
        assert_eq!(fail(route, FileStage::Copy), "x");
        assert_eq!(fail(route, FileStage::Finish), finish);
        assert_eq!(fail(route, FileStage::Close), "x");
    }
}

#[test]
fn a_small_file_is_sent_whole() {
    assert!(matches!(send_whole(9, WholeStage::Open, Ok(())), WholeStep::Ask { reported: 0 }));
    let asked = WholeStage::Asked { go_on: true };
    assert!(matches!(send_whole(9, asked, Ok(())), WholeStep::Send));
    assert!(matches!(send_whole(9, WholeStage::Send, Ok(())), WholeStep::Done { reported: 9 }));
    let step = send_whole(9, WholeStage::Open, Err("x".to_string()));
    assert!(matches!(step, WholeStep::Failed(e) if e == "No se pudo leer el archivo local: x"));
    let step = send_whole(9, WholeStage::Send, Err("x".to_string()));
    assert!(matches!(step, WholeStep::Failed(e) if e == "No se pudo subir: x"));
}

#[test]
fn a_small_file_can_be_cancelled() {
    let asked = WholeStage::Asked { go_on: false };
    assert!(matches!(send_whole(9, asked, Ok(())), WholeStep::Failed(e) if e == "Cancelado"));
}

#[test]
fn the_log_shows_commands_and_responses() {
    let l = log_line("suppaftp::sync_ftp", "CMD LIST /a").unwrap();
    assert_eq!((l.kind.as_str(), l.text.as_str()), ("command", "LIST /a"));
    let l = log_line("suppaftp", "230 Entró el usuario").unwrap();
    assert_eq!((l.kind.as_str(), l.text.as_str()), ("response", "230 Entró el usuario"));
    let l = log_line("suppaftp", "CMD").unwrap();
    assert_eq!((l.kind.as_str(), l.text.as_str()), ("response", "CMD"));
    let l = log_line("suppaftp", "CMD ").unwrap();
    assert_eq!((l.kind.as_str(), l.text.as_str()), ("command", ""));
    let l = log_line("suppaftp", "CMD añadir ñ").unwrap();
    assert_eq!((l.kind.as_str(), l.text.as_str()), ("command", "añadir ñ"));
    assert!(log_line("russh", "CMD LIST").is_none());
    assert!(!logs_target("tokio"));
    assert!(logs_target("suppaftp"));
}

#[test]
fn lines_of_the_log() {
    let l = status("bien".to_string());
    assert_eq!((l.kind.as_str(), l.text.as_str()), ("status", "bien"));
    let l = error("mal".to_string());
    assert_eq!((l.kind.as_str(), l.text.as_str()), ("error", "mal"));
}

#[test]
fn progress_of_a_file() {
    let p = file_report(Direction::Download, "a", 10, &None).unwrap();
    assert_eq!(
        format!("{:?}", p),
        "TransferProgress { kind: \"download\", state: \"progress\", name: \"a\", transferred: 0, total: 10 }"
    );
    let p = file_report(Direction::Upload, "a", 10, &Some(Ok(()))).unwrap();
    assert_eq!(
        format!("{:?}", p),
        "TransferProgress { kind: \"upload\", state: \"progress\", name: \"a\", transferred: 10, total: 10 }"
    );
    assert!(file_report(Direction::Upload, "a", 10, &Some(Err("x".to_string()))).is_none());
}

#[test]
fn reports_keep_apart() {
    assert!(file_advanced(Direction::Download, "a", 4, 10, 79_999_999).is_none());
    let p = file_advanced(Direction::Download, "a", 4, 10, 80_000_000).unwrap();
    assert_eq!((p.transferred, p.total, p.state.as_str()), (4, 10, "progress"));
    let gap = std::time::Duration::from_millis(80).as_nanos();
    assert!(file_advanced(Direction::Upload, "a", 4, 10, gap).is_some());
}

fn picked_items(n: usize) -> Vec<TransferItem> {
    (0..n)
        .map(|i| TransferItem { name: format!("f{}", i), path: format!("/p/f{}", i), is_dir: false, size: i as u64 })
        .collect()
}

fn told(step: &BatchStep) -> String {
    let progress = match &step.progress {
        Some(p) => format!("{}/{}/{}/{}/{}", p.kind, p.state, p.name, p.transferred, p.total),
        None => "-".to_string(),
    };
    format!("{}: {} {}", step.log.kind, step.log.text, progress)
}

#[test]
fn a_batch_goes_through_its_items() {
    let (batch, step) = Batch::start(Direction::Download, picked_items(2));
    assert_eq!(told(&step), "status: Descargando: f0 -");
    assert!(matches!(step.action, BatchAction::Transfer(0)));
    assert_eq!(batch.item(0).unwrap().path, "/p/f0");
    assert_eq!(batch.item(1).unwrap().path, "/p/f1");
    assert!(batch.item(2).is_none());
    assert!(batch.is_running());
    let (batch, step) = batch.step(Ok(()));
    assert_eq!(told(&step), "status: Descargando: f1 -");
    assert!(matches!(step.action, BatchAction::Transfer(1)));
    let (batch, step) = batch.step(Ok(()));
    assert_eq!(told(&step), "status: Descarga completada. download/done//0/0");
    assert!(matches!(step.action, BatchAction::End(Ok(()))));
    assert!(!batch.is_running());
}

#[test]
fn a_batch_stops_at_the_first_failure() {
    let (batch, step) = Batch::start(Direction::Upload, picked_items(3));
    assert_eq!(told(&step), "status: Subiendo: f0 -");
    let (batch, _) = batch.step(Ok(()));
    let (batch, step) = batch.step(Err("red".to_string()));
    assert_eq!(told(&step), "error: red upload/error/f1/0/0");
    assert!(matches!(step.action, BatchAction::End(Err(e)) if e == "red"));
    assert!(!batch.is_running());
}

#[test]
fn an_empty_batch_is_done() {
    let (batch, step) = Batch::start(Direction::Upload, picked_items(0));
    assert_eq!(told(&step), "status: Subida completada. upload/done//0/0");
    assert!(matches!(step.action, BatchAction::End(Ok(()))));
    assert!(!batch.is_running());
}
