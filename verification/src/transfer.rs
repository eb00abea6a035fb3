//! Transferring one file, from opening it to closing it.
//!
//! [`file_step`] takes the stage that was just tried and how it went, and says
//! what to try next. The caller opens, copies and closes.

use crate::messages::{failure, lead, Failure};
use crate::text::outcome_view;
use vstd::prelude::*;

verus! {

/// Between what a file is transferred.
#[derive(Debug, Clone, Copy, PartialEq, Eq, Structural)]
pub enum FileRoute {
    FtpDownload,
    FtpUpload,
    SftpDownload,
    SftpUpload,
    /// From storage into a new local file.
    ObjectFresh,
    /// From storage behind what the local file holds.
    ObjectResumed,
}

/// What transferring a file consists of.
#[derive(Debug, Clone, Copy, PartialEq, Eq, Structural)]
pub enum FileStage {
    /// Open what is read, or ask storage for it.
    OpenSource,
    /// Open what is written.
    OpenTarget,
    /// Copy all of it, piece by piece.
    Copy,
    /// Make sure that all of it has arrived.
    Finish,
    /// Close what was written.
    Close,
}

/// What to do next.
#[derive(Debug)]
pub enum FileStep {
    Try(FileStage),
    Done,
    Failed(String),
}

/// What a [`FileStep`] says.
pub enum FileStepView {
    Try(FileStage),
    Done,
    Failed(Seq<char>),
}

impl View for FileStep {
    type V = FileStepView;

    open spec fn view(&self) -> FileStepView {
        match *self {
            FileStep::Try(stage) => FileStepView::Try(stage),
            FileStep::Done => FileStepView::Done,
            FileStep::Failed(m) => FileStepView::Failed(m@),
        }
    }
}

/// What follows a stage that went well.
pub open spec fn file_next(route: FileRoute, stage: FileStage) -> FileStepView {
    match stage {
        FileStage::OpenSource => FileStepView::Try(FileStage::OpenTarget),
        FileStage::OpenTarget => FileStepView::Try(FileStage::Copy),
        FileStage::Copy => FileStepView::Try(FileStage::Finish),
        FileStage::Finish => if route == FileRoute::SftpUpload {
            FileStepView::Try(FileStage::Close)
        } else {
            FileStepView::Done
        },
        FileStage::Close => FileStepView::Done,
    }
}

/// What fails where opening what is read fails.
pub open spec fn source_failure(route: FileRoute) -> Failure {
    match route {
        FileRoute::FtpDownload | FileRoute::SftpDownload => Failure::OpenRemote,
        FileRoute::FtpUpload | FileRoute::SftpUpload => Failure::OpenLocal,
        FileRoute::ObjectFresh | FileRoute::ObjectResumed => Failure::FetchObject,
    }
}

/// What fails where opening what is written fails.
pub open spec fn target_failure(route: FileRoute) -> Failure {
    match route {
        FileRoute::FtpDownload | FileRoute::SftpDownload => Failure::CreateLocal,
        FileRoute::FtpUpload | FileRoute::SftpUpload => Failure::CreateRemote,
        FileRoute::ObjectFresh => Failure::CreateLocal,
        FileRoute::ObjectResumed => Failure::OpenLocal,
    }
}

/// What is done where a stage fails. Copying says itself what failed. What is
/// left to write of an object is not insisted on.
pub open spec fn file_failed(route: FileRoute, stage: FileStage, e: Seq<char>) -> FileStepView {
    match stage {
        FileStage::OpenSource => FileStepView::Failed(lead(source_failure(route)) + e),
        FileStage::OpenTarget => FileStepView::Failed(lead(target_failure(route)) + e),
        FileStage::Copy => FileStepView::Failed(e),
        FileStage::Finish => match route {
            FileRoute::FtpDownload => FileStepView::Failed(lead(Failure::FinishDownload) + e),
            FileRoute::FtpUpload => FileStepView::Failed(lead(Failure::FinishUpload) + e),
            FileRoute::SftpDownload | FileRoute::SftpUpload => FileStepView::Failed(e),
            FileRoute::ObjectFresh | FileRoute::ObjectResumed => FileStepView::Done,
        },
        FileStage::Close => FileStepView::Failed(e),
    }
}

/// What to do once `stage` was tried.
pub open spec fn file_after(
    route: FileRoute,
    stage: FileStage,
    reply: Result<(), Seq<char>>,
) -> FileStepView {
    match reply {
        Ok(_) => file_next(route, stage),
        Err(e) => file_failed(route, stage, e),
    }
}

fn failed_at(route: FileRoute, stage: FileStage, e: String) -> (r: FileStep)
    ensures
        r@ == file_failed(route, stage, e@),
{
    match stage {
        FileStage::OpenSource => {
            let f = match route {
                FileRoute::FtpDownload | FileRoute::SftpDownload => Failure::OpenRemote,
                FileRoute::FtpUpload | FileRoute::SftpUpload => Failure::OpenLocal,
                FileRoute::ObjectFresh | FileRoute::ObjectResumed => Failure::FetchObject,
            };
            FileStep::Failed(failure(f, e.as_str()))
        },
        FileStage::OpenTarget => {
            let f = match route {
                FileRoute::FtpDownload | FileRoute::SftpDownload => Failure::CreateLocal,
                FileRoute::FtpUpload | FileRoute::SftpUpload => Failure::CreateRemote,
                FileRoute::ObjectFresh => Failure::CreateLocal,
                FileRoute::ObjectResumed => Failure::OpenLocal,
            };
            FileStep::Failed(failure(f, e.as_str()))
        },
        FileStage::Copy => FileStep::Failed(e),
        FileStage::Finish => match route {
            FileRoute::FtpDownload => FileStep::Failed(
                failure(Failure::FinishDownload, e.as_str()),
            ),
            FileRoute::FtpUpload => FileStep::Failed(failure(Failure::FinishUpload, e.as_str())),
            FileRoute::SftpDownload | FileRoute::SftpUpload => FileStep::Failed(e),
            FileRoute::ObjectFresh | FileRoute::ObjectResumed => FileStep::Done,
        },
        FileStage::Close => FileStep::Failed(e),
    }
}

/// What to do once `stage` was tried.
pub fn file_step(route: FileRoute, stage: FileStage, reply: Result<(), String>) -> (r: FileStep)
    ensures
        r@ == file_after(route, stage, outcome_view(reply)),
{
    match reply {
        Ok(_) => match stage {
            FileStage::OpenSource => FileStep::Try(FileStage::OpenTarget),
            FileStage::OpenTarget => FileStep::Try(FileStage::Copy),
            FileStage::Copy => FileStep::Try(FileStage::Finish),
            FileStage::Finish => if route == FileRoute::SftpUpload {
                FileStep::Try(FileStage::Close)
            } else {
                FileStep::Done
            },
            FileStage::Close => FileStep::Done,
        },
        Err(e) => failed_at(route, stage, e),
    }
}

/// What is written is touched only behind a source that could be opened: a
/// fetch that fails leaves the local file alone.
pub proof fn law_target_behind_source(
    route: FileRoute,
    stage: FileStage,
    reply: Result<(), Seq<char>>,
)
    ensures
        file_after(route, stage, reply) == FileStepView::Try(FileStage::OpenTarget) <==> stage
            == FileStage::OpenSource && reply is Ok,
        stage == FileStage::OpenSource && reply is Err ==> file_after(
            route,
            stage,
            reply,
        ) is Failed,
{
}

/// Copying begins only where both ends are open, and nothing but copying all of
/// it leads on to the end.
pub proof fn law_finish_behind_copy(route: FileRoute, stage: FileStage, reply: Result<(), Seq<char>>)
    ensures
        file_after(route, stage, reply) == FileStepView::Try(FileStage::Copy) <==> stage
            == FileStage::OpenTarget && reply is Ok,
        file_after(route, stage, reply) == FileStepView::Try(FileStage::Finish) <==> stage
            == FileStage::Copy && reply is Ok,
        file_after(route, stage, reply) is Done ==> stage == FileStage::Finish || stage
            == FileStage::Close,
{
}

/// A file goes from its source over its target and the copy to the end; an upload
/// over SFTP is closed as well.
pub proof fn law_file_order(route: FileRoute)
    ensures
        file_after(route, FileStage::OpenSource, Ok(())) == FileStepView::Try(
            FileStage::OpenTarget,
        ),
        file_after(route, FileStage::OpenTarget, Ok(())) == FileStepView::Try(FileStage::Copy),
        file_after(route, FileStage::Copy, Ok(())) == FileStepView::Try(FileStage::Finish),
        route != FileRoute::SftpUpload ==> file_after(route, FileStage::Finish, Ok(()))
            == FileStepView::Done,
        route == FileRoute::SftpUpload ==> file_after(route, FileStage::Finish, Ok(()))
            == FileStepView::Try(FileStage::Close),
        file_after(route, FileStage::Close, Ok(())) == FileStepView::Done,
{
}

/// A file whose source or target cannot be opened fails with which of them and
/// why; a copy, or a close, fails with what was said.
pub proof fn law_file_failures(route: FileRoute, e: Seq<char>)
    ensures
        file_after(route, FileStage::OpenSource, Err(e)) == FileStepView::Failed(
            match route {
                FileRoute::FtpDownload | FileRoute::SftpDownload
                    => "No se pudo abrir el archivo remoto: "@,
                FileRoute::FtpUpload | FileRoute::SftpUpload
                    => "No se pudo abrir el archivo local: "@,
                FileRoute::ObjectFresh | FileRoute::ObjectResumed => "No se pudo descargar: "@,
            } + e,
        ),
        file_after(route, FileStage::OpenTarget, Err(e)) == FileStepView::Failed(
            match route {
                FileRoute::FtpDownload | FileRoute::SftpDownload | FileRoute::ObjectFresh
                    => "No se pudo crear el archivo local: "@,
                FileRoute::FtpUpload | FileRoute::SftpUpload
                    => "No se pudo crear el archivo remoto: "@,
                FileRoute::ObjectResumed => "No se pudo abrir el archivo local: "@,
            } + e,
        ),
        file_after(route, FileStage::Copy, Err(e)) == FileStepView::Failed(e),
        file_after(route, FileStage::Close, Err(e)) == FileStepView::Failed(e),
{
}

/// Where the end of a file fails, so does the transfer, but for what is left to
/// write of an object.
pub proof fn law_file_end_failures(e: Seq<char>)
    ensures
        file_after(FileRoute::FtpDownload, FileStage::Finish, Err(e)) == FileStepView::Failed(
            "Error al finalizar la descarga: "@ + e,
        ),
        file_after(FileRoute::FtpUpload, FileStage::Finish, Err(e)) == FileStepView::Failed(
            "Error al finalizar la subida: "@ + e,
        ),
        file_after(FileRoute::SftpDownload, FileStage::Finish, Err(e)) == FileStepView::Failed(e),
        file_after(FileRoute::SftpUpload, FileStage::Finish, Err(e)) == FileStepView::Failed(e),
        file_after(FileRoute::ObjectFresh, FileStage::Finish, Err(e)) == FileStepView::Done,
        file_after(FileRoute::ObjectResumed, FileStage::Finish, Err(e)) == FileStepView::Done,
{
}

} // verus!
