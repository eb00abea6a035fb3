use carrybox::config::{
    address, announce_connecting, client_settings, default_true, ftp_setup, select_provider,
    ConnConfig, Provider,
};
use carrybox::connect::{
    ftp_connect, s3_connected, s3_probe, ssh_connect, FtpStage, FtpStep, SshStage, SshStep,
};
use carrybox::messages::{complaint, failure, Complaint, Failure};
use carrybox::session::{
    begin_session, listing_begun, listing_ended, listing_step, operation_ended, require_session,
    session_closed, session_folder, session_opened, session_step, ListingStep, SessionEvent,
};

fn config(protocol: &str, passive: bool) -> ConnConfig {
    ConnConfig {
        protocol: protocol.to_string(),
        host: "ejemplo.net".to_string(),
        port: 2121,
        username: "u".to_string(),
        password: "p".to_string(),
        passive,
        endpoint: "https://s3".to_string(),
        region: "".to_string(),
        bucket: "cubo".to_string(),
        access_key: "ak".to_string(),
        secret_key: "sk".to_string(),
        path_style: true,
    }
}

fn ftp_path(cfg: &ConnConfig) -> (Vec<FtpStage>, String) {
    let mut stages = Vec::new();
    let mut stage = FtpStage::Connect;
    loop {
        stages.push(stage);
        match ftp_connect(cfg, stage, Ok(())) {
            FtpStep::Try(next) => stage = next,
            FtpStep::Ready(setup) => {
                return (stages, format!("{} {} {}", setup.secure, setup.passive, setup.nat_workaround));
            }
            FtpStep::Failed(e) => panic!("{}", e),
        }
    }
}

#[test]
fn passive_mode_is_on_unless_switched_off() {
    assert!(default_true());
}

#[test]
fn a_plain_session_logs_in_at_once() {
    let (stages, setup) = ftp_path(&config("ftp", true));
    assert_eq!(stages, vec![FtpStage::Connect, FtpStage::Login]);
    assert_eq!(setup, "false true true");
}

#[test]
fn a_secure_session_is_raised_before_logging_in() {
    let (stages, setup) = ftp_path(&config("ftps", false));
    assert_eq!(
        stages,
        vec![FtpStage::Connect, FtpStage::PrepareTls, FtpStage::RaiseTls, FtpStage::Login]
    );
    assert_eq!(setup, "true false false");
    assert!(ftp_setup(&config("ftps", false)).secure);
}

#[test]
fn failures_of_an_ftp_session() {
    let cfg = config("ftps", true);
    for (stage, text) in [
        (FtpStage::Connect, "No se pudo conectar a ejemplo.net:2121: x"),
        (FtpStage::PrepareTls, "No se pudo iniciar TLS: x"),
        (FtpStage::RaiseTls, "Fallo el cifrado FTPS/TLS: x"),
        (FtpStage::Login, "Login fallo (usuario/clave?): x"),
    ] {
        match ftp_connect(&cfg, stage, Err("x".to_string())) {
            FtpStep::Failed(e) => assert_eq!(e, text),
            other => panic!("{:?}", other),
        }
    }
}

#[test]
fn the_stages_of_an_sftp_session() {
    let cfg = config("sftp", true);
    let mut stages = Vec::new();
    let mut stage = SshStage::Connect;
    loop {
        stages.push(stage);
        match ssh_connect(&cfg, stage, Ok(true)) {
            SshStep::Try(next) => stage = next,
            SshStep::Ready => break,
            SshStep::Failed(e) => panic!("{}", e),
        }
    }
    assert_eq!(
        stages,
        vec![
            SshStage::Connect,
            SshStage::Authenticate,
            SshStage::OpenChannel,
            SshStage::RequestSftp,
            SshStage::StartSession,
        ]
    );
}

#[test]
fn failures_of_an_sftp_session() {
    let cfg = config("sftp", true);
    for (stage, text) in [
        (SshStage::Connect, "No se pudo conectar por SSH a ejemplo.net:2121: x"),
        (SshStage::Authenticate, "Error de autenticacion SSH: x"),
        (SshStage::OpenChannel, "No se pudo abrir el canal SSH: x"),
        (SshStage::RequestSftp, "El server no acepto el subsistema SFTP: x"),
        (SshStage::StartSession, "No se pudo iniciar SFTP: x"),
    ] {
        match ssh_connect(&cfg, stage, Err("x".to_string())) {
            SshStep::Failed(e) => assert_eq!(e, text),
            other => panic!("{:?}", other),
        }
    }
    match ssh_connect(&cfg, SshStage::Authenticate, Ok(false)) {
        SshStep::Failed(e) => assert_eq!(e, "Autenticacion SSH fallida (usuario/clave?)"),
        other => panic!("{:?}", other),
    }
}

#[test]
fn storage_needs_an_endpoint_and_a_bucket() {
    let mut cfg = config("s3", true);
    assert_eq!(s3_probe(&cfg), Ok("cubo".to_string()));
    cfg.endpoint = String::new();
    assert_eq!(s3_probe(&cfg), Err("Faltan el endpoint o el bucket.".to_string()));
    cfg.endpoint = "https://s3".to_string();
    cfg.bucket = String::new();
    assert_eq!(s3_probe(&cfg), Err("Faltan el endpoint o el bucket.".to_string()));
    assert_eq!(s3_connected("cubo".to_string(), Ok(())), Ok("cubo".to_string()));
    assert_eq!(
        s3_connected("cubo".to_string(), Err("403".to_string())),
        Err("No se pudo acceder al bucket: 403".to_string())
    );
}

#[test]
fn settings_of_a_client() {
    let mut cfg = config("s3", true);
    let s = client_settings(&cfg);
    assert_eq!(s.region, "us-east-1");
    assert_eq!(s.endpoint, "https://s3");
    assert_eq!(s.access_key, "ak");
    assert_eq!(s.secret_key, "sk");
    assert_eq!(s.provider_name, "carrybox");
    assert!(s.path_style);
    assert_eq!(s.max_attempts, 6);
    cfg.region = "eu-west-1".to_string();
    assert_eq!(client_settings(&cfg).region, "eu-west-1");
}

#[test]
fn providers() {
    assert_eq!(select_provider("ftp"), Ok(Provider::Ftp));
    assert_eq!(select_provider("ftps"), Ok(Provider::Ftp));
    assert_eq!(select_provider("sftp"), Ok(Provider::Sftp));
    assert_eq!(select_provider("rsync"), Err("Protocolo no soportado: rsync".to_string()));
    assert_eq!(select_provider("FTP"), Err("Protocolo no soportado: FTP".to_string()));
}

#[test]
fn connecting_is_announced_in_capitals() {
    assert_eq!(
        announce_connecting(&config("ftps", true)),
        "Conectando a ejemplo.net:2121 por FTPS ..."
    );
    assert_eq!(
        announce_connecting(&config("straße", true)),
        "Conectando a ejemplo.net:2121 por STRASSE ..."
    );
    assert_eq!(address("h", 0), "h:0");
}

#[test]
fn a_session_begins() {
    let (line, provider) = begin_session(&config("sftp", true));
    assert_eq!((line.kind.as_str(), line.text.as_str()), ("status", "Conectando a ejemplo.net:2121 por SFTP ..."));
    assert_eq!(provider, Ok(Provider::Sftp));
    let (_, provider) = begin_session(&config("nfs", true));
    assert_eq!(provider, Err("Protocolo no soportado: nfs".to_string()));
}

#[test]
fn what_a_session_says() {
    let (line, r) = session_opened(Ok(()));
    assert_eq!((line.kind.as_str(), line.text.as_str()), ("status", "Sesion iniciada (login correcto)."));
    assert_eq!(r, Ok(()));
    let (line, r) = session_opened(Err("mal".to_string()));
    assert_eq!((line.kind.as_str(), line.text.as_str()), ("error", "mal"));
    assert_eq!(r, Err("mal".to_string()));
    let (line, cwd) = session_folder(Ok("/home".to_string()));
    assert_eq!((line.text.as_str(), cwd.as_str()), ("Carpeta inicial: /home", "/home"));
    let (line, cwd) = session_folder(Err("x".to_string()));
    assert_eq!((line.text.as_str(), cwd.as_str()), ("Carpeta inicial: /", "/"));
    assert_eq!(listing_begun("/a").text, "Listando /a ...");
    let line = listing_ended(&Ok(vec![]));
    assert_eq!((line.kind.as_str(), line.text.as_str()), ("status", "Listado correcto: 0 elementos."));
    let line = listing_ended(&Err("no".to_string()));
    assert_eq!((line.kind.as_str(), line.text.as_str()), ("error", "no"));
    assert!(operation_ended(&Ok(())).is_none());
    let line = operation_ended(&Err("no".to_string())).unwrap();
    assert_eq!((line.kind.as_str(), line.text.as_str()), ("error", "no"));
    let line = session_closed();
    assert_eq!((line.kind.as_str(), line.text.as_str()), ("status", "Desconectado del servidor."));
}

#[test]
fn a_session_stays_until_another_stands() {
    assert_eq!(session_step(None, SessionEvent::Connected(1)), (Some(1), None));
    assert_eq!(session_step(Some(1), SessionEvent::Refused), (Some(1), None));
    assert_eq!(session_step(Some(1), SessionEvent::Connected(2)), (Some(2), Some(1)));
    assert_eq!(session_step(Some(2), SessionEvent::Disconnected), (None, Some(2)));
    assert_eq!(session_step::<u8>(None, SessionEvent::Disconnected), (None, None));
    assert_eq!(session_step::<u8>(None, SessionEvent::Refused), (None, None));
    assert_eq!(require_session(Some(3)), Ok(3));
    assert_eq!(require_session::<u8>(None), Err("No conectado".to_string()));
}

/// The sessions that are disconnected, and the one that is stored at the end.
fn session_after(events: Vec<SessionEvent<u8>>) -> (Vec<u8>, Option<u8>) {
    let mut stored = None;
    let mut dropped = Vec::new();
    for event in events {
        let (now, old) = session_step(stored, event);
        stored = now;
        dropped.extend(old);
    }
    (dropped, stored)
}

#[test]
fn nothing_is_listed_without_a_session() {
    let (dropped, stored) = session_after(vec![
        SessionEvent::Connected(1),
        SessionEvent::Connected(2),
        SessionEvent::Disconnected,
        SessionEvent::Refused,
    ]);
    assert_eq!(dropped, vec![1, 2]);
    let step = listing_step(stored);
    assert!(matches!(step, ListingStep::Answer(Err(e)) if e == "No conectado"));
    let (dropped, stored) = session_after(vec![SessionEvent::Refused, SessionEvent::Disconnected]);
    assert!(dropped.is_empty());
    assert!(matches!(listing_step(stored), ListingStep::Answer(Err(e)) if e == "No conectado"));
}

#[test]
fn the_last_session_is_listed() {
    let (dropped, stored) = session_after(vec![
        SessionEvent::Disconnected,
        SessionEvent::Connected(1),
        SessionEvent::Connected(2),
        SessionEvent::Refused,
    ]);
    assert_eq!(dropped, vec![1]);
    assert!(matches!(listing_step(stored), ListingStep::List(2)));
}

#[test]
fn failures_without_a_cause() {
    assert_eq!(complaint(Complaint::Locked), "estado bloqueado");
    assert_eq!(complaint(Complaint::SeekFile), "Error posicionando el archivo");
    assert_eq!(complaint(Complaint::ReadFile), "Error leyendo el archivo");
}

#[test]
fn failures_are_told_with_their_cause() {
    for (f, text) in [
        (Failure::StartRuntime, "No se pudo crear el runtime async: x"),
        (Failure::Task, "tarea fallo: x"),
        (Failure::StartFolder, "No se pudo obtener la carpeta inicial: x"),
        (Failure::ListFolder, "No se pudo listar la carpeta: x"),
        (Failure::OpenRemote, "No se pudo abrir el archivo remoto: x"),
        (Failure::CreateRemote, "No se pudo crear el archivo remoto: x"),
        (Failure::OpenLocal, "No se pudo abrir el archivo local: x"),
        (Failure::CreateLocal, "No se pudo crear el archivo local: x"),
        (Failure::Receive, "Error leyendo: x"),
        (Failure::WriteDisk, "Error escribiendo en disco: x"),
        (Failure::ReadLocal, "Error leyendo local: x"),
        (Failure::Send, "Error subiendo: x"),
        (Failure::FinishDownload, "Error al finalizar la descarga: x"),
        (Failure::FinishUpload, "Error al finalizar la subida: x"),
        (Failure::AccessBucket, "No se pudo acceder al bucket: x"),
        (Failure::ListObjects, "No se pudo listar: x"),
        (Failure::FetchObject, "No se pudo descargar: x"),
        (Failure::WriteObject, "Error escribiendo: x"),
        (Failure::ReadWhole, "No se pudo leer el archivo local: x"),
        (Failure::SendWhole, "No se pudo subir: x"),
        (Failure::ListUploads, "No se pudo listar subidas en progreso: x"),
        (Failure::AbortUpload, "No se pudo abortar: x"),
        (Failure::MakeFolder, "No se pudo crear la carpeta: x"),
        (Failure::Rename, "No se pudo renombrar: x"),
        (Failure::DropOriginal, "No se pudo borrar el original: x"),
        (Failure::DeleteObject, "No se pudo eliminar: x"),
        (Failure::OpenFolder, "No se pudo abrir la carpeta: x"),
        (Failure::DeleteFolder, "No se pudo eliminar la carpeta: x"),
        (Failure::DeleteFile, "No se pudo eliminar el archivo: x"),
    ] {
        assert_eq!(failure(f, "x"), text);
    }
}
