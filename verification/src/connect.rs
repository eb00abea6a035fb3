//! Opening a session, step by step.
//!
//! Each function takes the stage that was just tried and how it went, and says
//! what to try next. The caller talks to the server.

use crate::config::{address, address_of, ftp_setup, ConnConfig, FtpSetup};
use crate::messages::{failure, lead, Failure};
use crate::text::{join2, join3};
use vstd::prelude::*;

verus! {

// ---------------------------------------------------------------------------
// FTP and FTPS
// ---------------------------------------------------------------------------

/// What opening an FTP session consists of.
#[derive(Debug, Clone, Copy, PartialEq, Eq, Structural)]
pub enum FtpStage {
    /// Connect in the clear.
    Connect,
    /// Get TLS ready on this side.
    PrepareTls,
    /// Raise the connection to TLS.
    RaiseTls,
    Login,
}

/// What to do next.
#[derive(Debug)]
pub enum FtpStep {
    Try(FtpStage),
    /// The session stands; set it up like this.
    Ready(FtpSetup),
    Failed(String),
}

/// What follows a stage that went well; nothing follows logging in.
pub open spec fn ftp_next(secure: bool, stage: FtpStage) -> Option<FtpStage> {
    match stage {
        FtpStage::Connect => Some(
            if secure {
                FtpStage::PrepareTls
            } else {
                FtpStage::Login
            },
        ),
        FtpStage::PrepareTls => Some(FtpStage::RaiseTls),
        FtpStage::RaiseTls => Some(FtpStage::Login),
        FtpStage::Login => None,
    }
}

/// What stands before the cause when a stage fails.
pub open spec fn ftp_lead(address: Seq<char>, stage: FtpStage) -> Seq<char> {
    match stage {
        FtpStage::Connect => "No se pudo conectar a "@ + address + ": "@,
        FtpStage::PrepareTls => "No se pudo iniciar TLS: "@,
        FtpStage::RaiseTls => "Fallo el cifrado FTPS/TLS: "@,
        FtpStage::Login => "Login fallo (usuario/clave?): "@,
    }
}

/// The setup that a configuration asks for.
pub open spec fn setup_of(cfg: ConnConfig) -> FtpSetup {
    FtpSetup {
        secure: cfg.protocol@ == "ftps"@,
        passive: cfg.passive,
        nat_workaround: cfg.passive,
    }
}

/// What to do once `stage` was tried.
pub fn ftp_connect(cfg: &ConnConfig, stage: FtpStage, reply: Result<(), String>) -> (r: FtpStep)
    ensures
        match reply {
            Ok(_) => r == match ftp_next(setup_of(*cfg).secure, stage) {
                Some(next) => FtpStep::Try(next),
                None => FtpStep::Ready(setup_of(*cfg)),
            },
            Err(e) => r matches FtpStep::Failed(m) && m@ == ftp_lead(
                address_of(cfg.host@, cfg.port),
                stage,
            ) + e@,
        },
{
    let setup = ftp_setup(cfg);
    match reply {
        Ok(_) => match stage {
            FtpStage::Connect => if setup.secure {
                FtpStep::Try(FtpStage::PrepareTls)
            } else {
                FtpStep::Try(FtpStage::Login)
            },
            FtpStage::PrepareTls => FtpStep::Try(FtpStage::RaiseTls),
            FtpStage::RaiseTls => FtpStep::Try(FtpStage::Login),
            FtpStage::Login => FtpStep::Ready(setup),
        },
        Err(e) => {
            let m = match stage {
                FtpStage::Connect => {
                    let a = address(cfg.host.as_str(), cfg.port);
                    join3("No se pudo conectar a ", a.as_str(), ": ")
                },
                FtpStage::PrepareTls => "No se pudo iniciar TLS: ".to_owned(),
                FtpStage::RaiseTls => "Fallo el cifrado FTPS/TLS: ".to_owned(),
                FtpStage::Login => "Login fallo (usuario/clave?): ".to_owned(),
            };
            FtpStep::Failed(join2(m.as_str(), e.as_str()))
        },
    }
}

/// The stages that a session goes through from `stage` on while all goes well.
pub open spec fn ftp_stages(secure: bool, stage: FtpStage, fuel: nat) -> Seq<FtpStage>
    decreases fuel,
{
    if fuel == 0 {
        Seq::empty()
    } else {
        match ftp_next(secure, stage) {
            Some(next) => seq![stage] + ftp_stages(secure, next, (fuel - 1) as nat),
            None => seq![stage],
        }
    }
}

/// An FTPS session is raised to TLS before the password is sent; a plain FTP
/// session never touches TLS. Four stages are all that there are.
pub proof fn law_ftp_stages(secure: bool, fuel: nat)
    requires
        fuel >= 4,
    ensures
        ftp_stages(secure, FtpStage::Connect, fuel) == if secure {
            seq![FtpStage::Connect, FtpStage::PrepareTls, FtpStage::RaiseTls, FtpStage::Login]
        } else {
            seq![FtpStage::Connect, FtpStage::Login]
        },
{
    reveal_with_fuel(ftp_stages, 5);
    assert(ftp_stages(secure, FtpStage::Connect, fuel) =~= if secure {
        seq![FtpStage::Connect, FtpStage::PrepareTls, FtpStage::RaiseTls, FtpStage::Login]
    } else {
        seq![FtpStage::Connect, FtpStage::Login]
    });
}

/// In an FTPS session the only stage that leads to logging in is raising the
/// connection to TLS.
pub proof fn law_ftps_login_after_tls(stage: FtpStage)
    requires
        ftp_next(true, stage) == Some(FtpStage::Login),
    ensures
        stage == FtpStage::RaiseTls,
{
}

// ---------------------------------------------------------------------------
// SFTP
// ---------------------------------------------------------------------------

/// What opening an SFTP session consists of.
#[derive(Debug, Clone, Copy, PartialEq, Eq, Structural)]
pub enum SshStage {
    Connect,
    /// Send user and password.
    Authenticate,
    OpenChannel,
    /// Ask for the SFTP subsystem.
    RequestSftp,
    StartSession,
}

/// What to do next.
#[derive(Debug)]
pub enum SshStep {
    Try(SshStage),
    Ready,
    Failed(String),
}

/// What follows a stage that went well; nothing follows the last.
pub open spec fn ssh_next(stage: SshStage) -> Option<SshStage> {
    match stage {
        SshStage::Connect => Some(SshStage::Authenticate),
        SshStage::Authenticate => Some(SshStage::OpenChannel),
        SshStage::OpenChannel => Some(SshStage::RequestSftp),
        SshStage::RequestSftp => Some(SshStage::StartSession),
        SshStage::StartSession => None,
    }
}

/// What stands before the cause when a stage fails.
pub open spec fn ssh_lead(address: Seq<char>, stage: SshStage) -> Seq<char> {
    match stage {
        SshStage::Connect => "No se pudo conectar por SSH a "@ + address + ": "@,
        SshStage::Authenticate => "Error de autenticacion SSH: "@,
        SshStage::OpenChannel => "No se pudo abrir el canal SSH: "@,
        SshStage::RequestSftp => "El server no acepto el subsistema SFTP: "@,
        SshStage::StartSession => "No se pudo iniciar SFTP: "@,
    }
}

/// What an [`SshStep`] says.
pub enum SshStepView {
    Try(SshStage),
    Ready,
    Failed(Seq<char>),
}

impl View for SshStep {
    type V = SshStepView;

    open spec fn view(&self) -> SshStepView {
        match *self {
            SshStep::Try(stage) => SshStepView::Try(stage),
            SshStep::Ready => SshStepView::Ready,
            SshStep::Failed(m) => SshStepView::Failed(m@),
        }
    }
}

/// What to do once `stage` was tried at `address`.
pub open spec fn ssh_after(
    address: Seq<char>,
    stage: SshStage,
    reply: Result<bool, Seq<char>>,
) -> SshStepView {
    match reply {
        Ok(taken) => if stage == SshStage::Authenticate && !taken {
            SshStepView::Failed("Autenticacion SSH fallida (usuario/clave?)"@)
        } else {
            match ssh_next(stage) {
                Some(next) => SshStepView::Try(next),
                None => SshStepView::Ready,
            }
        },
        Err(e) => SshStepView::Failed(ssh_lead(address, stage) + e),
    }
}

/// What to do once `stage` was tried. `Ok(false)` is the answer of a server
/// that does not take user and password; no other stage gives it.
pub fn ssh_connect(cfg: &ConnConfig, stage: SshStage, reply: Result<bool, String>) -> (r: SshStep)
    ensures
        r@ == ssh_after(
            address_of(cfg.host@, cfg.port),
            stage,
            match reply {
                Ok(taken) => Ok(taken),
                Err(e) => Err(e@),
            },
        ),
{
    match reply {
        Ok(taken) => match stage {
            SshStage::Connect => SshStep::Try(SshStage::Authenticate),
            SshStage::Authenticate => if taken {
                SshStep::Try(SshStage::OpenChannel)
            } else {
                SshStep::Failed("Autenticacion SSH fallida (usuario/clave?)".to_owned())
            },
            SshStage::OpenChannel => SshStep::Try(SshStage::RequestSftp),
            SshStage::RequestSftp => SshStep::Try(SshStage::StartSession),
            SshStage::StartSession => SshStep::Ready,
        },
        Err(e) => {
            let m = match stage {
                SshStage::Connect => {
                    let a = address(cfg.host.as_str(), cfg.port);
                    join3("No se pudo conectar por SSH a ", a.as_str(), ": ")
                },
                SshStage::Authenticate => "Error de autenticacion SSH: ".to_owned(),
                SshStage::OpenChannel => "No se pudo abrir el canal SSH: ".to_owned(),
                SshStage::RequestSftp => "El server no acepto el subsistema SFTP: ".to_owned(),
                SshStage::StartSession => "No se pudo iniciar SFTP: ".to_owned(),
            };
            SshStep::Failed(join2(m.as_str(), e.as_str()))
        },
    }
}

/// A channel is opened only behind a password that the server took.
pub proof fn law_ssh_channel_after_password(
    address: Seq<char>,
    stage: SshStage,
    reply: Result<bool, Seq<char>>,
)
    requires
        ssh_after(address, stage, reply) == SshStepView::Try(SshStage::OpenChannel),
    ensures
        stage == SshStage::Authenticate,
        reply == Ok::<bool, Seq<char>>(true),
{
}

// ---------------------------------------------------------------------------
// S3
// ---------------------------------------------------------------------------

/// The bucket to ask storage for before anything else, to see that the
/// credentials are good for it.
pub fn s3_probe(cfg: &ConnConfig) -> (r: Result<String, String>)
    ensures
        r is Ok <==> cfg.endpoint@.len() > 0 && cfg.bucket@.len() > 0,
        r matches Ok(b) ==> b@ == cfg.bucket@,
        r matches Err(e) ==> e@ == "Faltan el endpoint o el bucket."@,
{
    if cfg.endpoint.as_str().is_empty() || cfg.bucket.as_str().is_empty() {
        Err("Faltan el endpoint o el bucket.".to_owned())
    } else {
        Ok(cfg.bucket.clone())
    }
}

/// How connecting ended once storage was asked for the bucket.
pub fn s3_connected(bucket: String, reply: Result<(), String>) -> (r: Result<String, String>)
    ensures
        match reply {
            Ok(_) => r == Ok::<String, String>(bucket),
            Err(e) => r matches Err(m) && m@ == lead(Failure::AccessBucket) + e@,
        },
{
    match reply {
        Ok(_) => Ok(bucket),
        Err(e) => Err(failure(Failure::AccessBucket, e.as_str())),
    }
}

/// A session is set up for TLS if and only if the protocol is `ftps`, and for
/// passive mode, with the address of the control connection, if and only if that
/// is asked for.
pub proof fn law_setup(cfg: ConnConfig)
    ensures
        setup_of(cfg).secure <==> cfg.protocol@ == "ftps"@,
        setup_of(cfg).passive == cfg.passive,
        setup_of(cfg).nat_workaround == cfg.passive,
{
}

/// Each stage of an FTP session leads to its own next one; in the clear, logging
/// in follows the connection.
pub proof fn law_ftp_order(secure: bool)
    ensures
        ftp_next(true, FtpStage::Connect) == Some(FtpStage::PrepareTls),
        ftp_next(false, FtpStage::Connect) == Some(FtpStage::Login),
        ftp_next(secure, FtpStage::PrepareTls) == Some(FtpStage::RaiseTls),
        ftp_next(secure, FtpStage::RaiseTls) == Some(FtpStage::Login),
        ftp_next(secure, FtpStage::Login) is None,
{
}

/// What the user is told of a stage that failed is different for each stage, and
/// names the address where there was no connection.
pub proof fn law_ftp_failures(at: Seq<char>)
    ensures
        ftp_lead(at, FtpStage::Connect) == "No se pudo conectar a "@ + at + ": "@,
        ftp_lead(at, FtpStage::PrepareTls) == "No se pudo iniciar TLS: "@,
        ftp_lead(at, FtpStage::RaiseTls) == "Fallo el cifrado FTPS/TLS: "@,
        ftp_lead(at, FtpStage::Login) == "Login fallo (usuario/clave?): "@,
{
}

/// An SFTP session goes from the connection over the password, the channel and
/// the subsystem to the session, as long as the server takes the password.
pub proof fn law_ssh_order(at: Seq<char>, taken: bool)
    ensures
        ssh_after(at, SshStage::Connect, Ok(taken)) == SshStepView::Try(SshStage::Authenticate),
        ssh_after(at, SshStage::Authenticate, Ok(true)) == SshStepView::Try(SshStage::OpenChannel),
        ssh_after(at, SshStage::Authenticate, Ok(false)) == SshStepView::Failed(
            "Autenticacion SSH fallida (usuario/clave?)"@,
        ),
        ssh_after(at, SshStage::OpenChannel, Ok(taken)) == SshStepView::Try(SshStage::RequestSftp),
        ssh_after(at, SshStage::RequestSftp, Ok(taken)) == SshStepView::Try(
            SshStage::StartSession,
        ),
        ssh_after(at, SshStage::StartSession, Ok(taken)) == SshStepView::Ready,
{
}

/// An SFTP session that fails says at which stage and why, and names the address
/// where there was no connection.
pub proof fn law_ssh_failures(at: Seq<char>, e: Seq<char>)
    ensures
        ssh_after(at, SshStage::Connect, Err(e)) == SshStepView::Failed(
            "No se pudo conectar por SSH a "@ + at + ": "@ + e,
        ),
        ssh_after(at, SshStage::Authenticate, Err(e)) == SshStepView::Failed(
            "Error de autenticacion SSH: "@ + e,
        ),
        ssh_after(at, SshStage::OpenChannel, Err(e)) == SshStepView::Failed(
            "No se pudo abrir el canal SSH: "@ + e,
        ),
        ssh_after(at, SshStage::RequestSftp, Err(e)) == SshStepView::Failed(
            "El server no acepto el subsistema SFTP: "@ + e,
        ),
        ssh_after(at, SshStage::StartSession, Err(e)) == SshStepView::Failed(
            "No se pudo iniciar SFTP: "@ + e,
        ),
{
}

} // verus!
