//! What the user is told when something fails.

use crate::text::join2;
use vstd::prelude::*;

verus! {

/// What was being done when it failed.
#[derive(Debug, Clone, Copy, PartialEq, Eq, Structural)]
pub enum Failure {
    /// Setting up what runs the network code.
    StartRuntime,
    /// A background task.
    Task,
    /// Asking a server for the folder it starts in.
    StartFolder,
    /// Listing a remote folder.
    ListFolder,
    OpenRemote,
    CreateRemote,
    OpenLocal,
    CreateLocal,
    /// Reading what a server sends.
    Receive,
    /// Writing what a server sent.
    WriteDisk,
    /// Reading a local file.
    ReadLocal,
    /// Sending what was read.
    Send,
    FinishDownload,
    FinishUpload,
    /// Asking for a bucket.
    AccessBucket,
    ListObjects,
    FetchObject,
    /// Writing what storage sent.
    WriteObject,
    /// Reading a local file that is sent in one piece.
    ReadWhole,
    /// Sending a file in one piece.
    SendWhole,
    ListUploads,
    AbortUpload,
    MakeFolder,
    Rename,
    /// Deleting an object that was copied.
    DropOriginal,
    DeleteObject,
    OpenFolder,
    DeleteFolder,
    DeleteFile,
}

/// What stands before the cause.
pub open spec fn lead(f: Failure) -> Seq<char> {
    match f {
        Failure::StartRuntime => "No se pudo crear el runtime async: "@,
        Failure::Task => "tarea fallo: "@,
        Failure::StartFolder => "No se pudo obtener la carpeta inicial: "@,
        Failure::ListFolder => "No se pudo listar la carpeta: "@,
        Failure::OpenRemote => "No se pudo abrir el archivo remoto: "@,
        Failure::CreateRemote => "No se pudo crear el archivo remoto: "@,
        Failure::OpenLocal => "No se pudo abrir el archivo local: "@,
        Failure::CreateLocal => "No se pudo crear el archivo local: "@,
        Failure::Receive => "Error leyendo: "@,
        Failure::WriteDisk => "Error escribiendo en disco: "@,
        Failure::ReadLocal => "Error leyendo local: "@,
        Failure::Send => "Error subiendo: "@,
        Failure::FinishDownload => "Error al finalizar la descarga: "@,
        Failure::FinishUpload => "Error al finalizar la subida: "@,
        Failure::AccessBucket => "No se pudo acceder al bucket: "@,
        Failure::ListObjects => "No se pudo listar: "@,
        Failure::FetchObject => "No se pudo descargar: "@,
        Failure::WriteObject => "Error escribiendo: "@,
        Failure::ReadWhole => "No se pudo leer el archivo local: "@,
        Failure::SendWhole => "No se pudo subir: "@,
        Failure::ListUploads => "No se pudo listar subidas en progreso: "@,
        Failure::AbortUpload => "No se pudo abortar: "@,
        Failure::MakeFolder => "No se pudo crear la carpeta: "@,
        Failure::Rename => "No se pudo renombrar: "@,
        Failure::DropOriginal => "No se pudo borrar el original: "@,
        Failure::DeleteObject => "No se pudo eliminar: "@,
        Failure::OpenFolder => "No se pudo abrir la carpeta: "@,
        Failure::DeleteFolder => "No se pudo eliminar la carpeta: "@,
        Failure::DeleteFile => "No se pudo eliminar el archivo: "@,
    }
}

/// What the user is told: what failed, then why.
pub fn failure(f: Failure, cause: &str) -> (r: String)
    ensures
        r@ == lead(f) + cause@,
{
    let text = match f {
        Failure::StartRuntime => "No se pudo crear el runtime async: ",
        Failure::Task => "tarea fallo: ",
        Failure::StartFolder => "No se pudo obtener la carpeta inicial: ",
        Failure::ListFolder => "No se pudo listar la carpeta: ",
        Failure::OpenRemote => "No se pudo abrir el archivo remoto: ",
        Failure::CreateRemote => "No se pudo crear el archivo remoto: ",
        Failure::OpenLocal => "No se pudo abrir el archivo local: ",
        Failure::CreateLocal => "No se pudo crear el archivo local: ",
        Failure::Receive => "Error leyendo: ",
        Failure::WriteDisk => "Error escribiendo en disco: ",
        Failure::ReadLocal => "Error leyendo local: ",
        Failure::Send => "Error subiendo: ",
        Failure::FinishDownload => "Error al finalizar la descarga: ",
        Failure::FinishUpload => "Error al finalizar la subida: ",
        Failure::AccessBucket => "No se pudo acceder al bucket: ",
        Failure::ListObjects => "No se pudo listar: ",
        Failure::FetchObject => "No se pudo descargar: ",
        Failure::WriteObject => "Error escribiendo: ",
        Failure::ReadWhole => "No se pudo leer el archivo local: ",
        Failure::SendWhole => "No se pudo subir: ",
        Failure::ListUploads => "No se pudo listar subidas en progreso: ",
        Failure::AbortUpload => "No se pudo abortar: ",
        Failure::MakeFolder => "No se pudo crear la carpeta: ",
        Failure::Rename => "No se pudo renombrar: ",
        Failure::DropOriginal => "No se pudo borrar el original: ",
        Failure::DeleteObject => "No se pudo eliminar: ",
        Failure::OpenFolder => "No se pudo abrir la carpeta: ",
        Failure::DeleteFolder => "No se pudo eliminar la carpeta: ",
        Failure::DeleteFile => "No se pudo eliminar el archivo: ",
    };
    join2(text, cause)
}

/// What went wrong, where the cause is not told.
#[derive(Debug, Clone, Copy, PartialEq, Eq, Structural)]
pub enum Complaint {
    /// Another task broke off while it held the session.
    Locked,
    /// Finding the place of a part in a local file.
    SeekFile,
    /// Reading a part of a local file.
    ReadFile,
}

/// What the user is told where the cause is not.
pub open spec fn complaint_text(c: Complaint) -> Seq<char> {
    match c {
        Complaint::Locked => "estado bloqueado"@,
        Complaint::SeekFile => "Error posicionando el archivo"@,
        Complaint::ReadFile => "Error leyendo el archivo"@,
    }
}

/// What the user is told where the cause is not.
pub fn complaint(c: Complaint) -> (r: String)
    ensures
        r@ == complaint_text(c),
{
    match c {
        Complaint::Locked => "estado bloqueado".to_owned(),
        Complaint::SeekFile => "Error posicionando el archivo".to_owned(),
        Complaint::ReadFile => "Error leyendo el archivo".to_owned(),
    }
}

} // verus!
