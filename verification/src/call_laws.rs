//! What a caller gets: what the results of the functions say of their arguments.

use crate::batch::{item_views, Batch, BatchActionView, BatchStep, TransferItem};
use crate::config::{
    client_settings, ftp_setup, select_provider, ClientSettings, ConnConfig, FtpSetup, Provider,
};
use crate::connect::{
    ftp_connect, ftp_next, s3_connected, s3_probe, ssh_after, ssh_connect, FtpStage, FtpStep,
    SshStage, SshStep,
};
use crate::copy::{
    send_whole, whole_after, ChunkCopy, CopyEvent, CopyPhase, CopyRoute, WholeStage, WholeStep,
};
use crate::delete::{do_delete, DeleteAction, DeleteActionView, DeleteEvent, DeleteWalk};
use crate::download::{
    do_download, DownloadAction, DownloadEvent, DownloadWalk, TaskView as DownloadTaskView,
};
use crate::events::{file_advanced, file_report, log_line, Direction, LogLine, TransferProgress};
use crate::listing::{entry_views, ordered_entries, EntryView, RemoteEntry};
use crate::listing_laws::{
    law_panel_counts, law_remote_panel, law_sftp_item_is_shown, law_sftp_listing, not_behind,
};
use crate::local::{
    asked_folder, home_dir, list_local, local_listing, local_removal, removal_failed, rename_folder,
    state_base, LocalDir, LocalItem, Removal,
};
use crate::messages::{complaint, failure, Complaint, Failure};
use crate::parts::{law_last_part, law_part_size_is_least, part_count_for, part_size_for};
use crate::path::{join_remote, law_joined_exactly, law_prefix_exactly, norm_prefix};
use crate::s3::{
    following_page, object_key, page_entries, plan_download, plan_rename, rename_after, rename_step,
    DownloadPlan, ListStep, RenamePlan, RenameStage, RenameStep, S3Listing, S3Page,
};
use crate::s3_uploads::{
    abort_all, abort_all_next, abort_step, listing_view, state_file_name, AbortAllStep, AbortStep,
    IncompleteUpload, RequestView, UploadsListing, UploadsReply, UploadsRequest, UploadsStep,
};
use crate::session::{
    begin_session, dropped_with, listing_begun, listing_ended, listing_step, operation_ended,
    require_session, session_closed, session_folder, session_opened, session_step, stored_with,
    ListingStep, SessionEvent,
};
use crate::sources::{
    ftp_entries, ftp_listing, ftp_target, parsed_view, sftp_listing, sftp_target, sftp_views, SftpItem,
    SftpView,
};
use crate::text::{
    decimal, hex_digits, last_path_segment, law_last_segment_of, lowercase, no_slash, outcome_view,
    slash_ended, starts_with, text_view, trim_start, uppercase,
};
use crate::transfer::{file_after, file_step, FileRoute, FileStage, FileStep};
use crate::upload::{
    sent_whole, ActionView, UploadAction, UploadEvent, UploadPlan, UploadRun, UploadState,
};
use crate::upload_walk::{do_upload, UploadWalk, WalkAction, WalkEvent};
use crate::window::window_size;
use vstd::prelude::*;

verus! {

// ---------------------------------------------------------------------------
// Listings
// ---------------------------------------------------------------------------

/// An SFTP folder is shown entry by entry: for every item but `.` and `..` there
/// is an entry with its name, its size or none, its time of change, and a folder
/// if and only if its mode is there and carries the folder bit.
pub proof fn law_sftp_results(items: Vec<SftpItem>, r: Vec<RemoteEntry>, k: int)
    requires
        call_ensures(sftp_listing, (&items,), r),
        0 <= k < items.len(),
        items[k].name@ != "."@,
        items[k].name@ != ".."@,
    ensures
        exists|j: int|
            0 <= j < r.len() && (#[trigger] r@[j]).name@ == items[k].name@ && (r@[j].is_dir
                <==> items[k].permissions is Some && items[k].permissions->0 & 0x4000 == 0x4000)
                && r@[j].size == (if items[k].size is Some {
                items[k].size->0
            } else {
                0
            }) && r@[j].modified == (if items[k].mtime is Some {
                Some(items[k].mtime->0 as u64)
            } else {
                None
            }),
{
    let views = sftp_views(items@);
    let e = EntryView {
        name: items[k].name@,
        is_dir: items[k].permissions is Some && items[k].permissions->0 & 0x4000 == 0x4000,
        size: if items[k].size is Some {
            items[k].size->0
        } else {
            0
        },
        modified: if items[k].mtime is Some {
            Some(items[k].mtime->0 as u64)
        } else {
            None
        },
    };
    assert(views[k] == items[k]@);
    law_sftp_item_is_shown(views, e, k);
    let out = entry_views(r@);
    let j = choose|j: int| 0 <= j < out.len() && out[j] == e;
    assert(r@[j]@ == e);
}

/// The entries of an SFTP folder are as many as its items that are neither `.` nor
/// `..`; folders come before files, and within each the names stand in the order
/// of their lower-case forms.
pub proof fn law_sftp_results_in_order(items: Vec<SftpItem>, r: Vec<RemoteEntry>, i: int, j: int)
    requires
        call_ensures(sftp_listing, (&items,), r),
    ensures
        r.len() == items@.filter(|s: SftpItem| s.name@ != "."@ && s.name@ != ".."@).len(),
        0 <= i < j < r.len() ==> {
            &&& r@[j].is_dir ==> r@[i].is_dir
            &&& r@[i].is_dir == r@[j].is_dir ==> not_behind(
                lowercase(r@[i].name@),
                lowercase(r@[j].name@),
            )
        },
{
    let views = sftp_views(items@);
    let keep = |s: SftpView| s.name != "."@ && s.name != ".."@;
    let made = views.filter(keep).map_values(
        |s: SftpView| crate::listing_laws::shown_of_sftp(s),
    );
    law_sftp_listing(views);
    law_panel_counts(made, Seq::empty());
    filter_of_views(items@);
    let out = entry_views(r@);
    assert(out.len() == r.len());
    if 0 <= i < j < r.len() {
        law_remote_panel(made, i, j, true, Seq::empty());
        assert(out[i] == r@[i]@ && out[j] == r@[j]@);
    }
}

proof fn filter_of_views(items: Seq<SftpItem>)
    ensures
        sftp_views(items).filter(|s: SftpView| s.name != "."@ && s.name != ".."@).len()
            == items.filter(|s: SftpItem| s.name@ != "."@ && s.name@ != ".."@).len(),
    decreases items.len(),
{
    reveal(Seq::filter);
    if items.len() > 0 {
        filter_of_views(items.drop_last());
        assert(sftp_views(items).drop_last() =~= sftp_views(items.drop_last()));
        assert(sftp_views(items).last() == items.last()@);
    }
}

/// An FTP folder is shown as its lines were read, but for `.` and `..`, and a local
/// folder as the disk gives it, with its own path and the one above it.
pub proof fn law_listing_results(
    parsed: Vec<Option<RemoteEntry>>,
    shown: Vec<RemoteEntry>,
    path: String,
    parent: Option<String>,
    items: Vec<Option<LocalItem>>,
    dir: LocalDir,
)
    requires
        call_ensures(ftp_listing, (&parsed,), shown),
        call_ensures(list_local, (path, parent, &items), dir),
    ensures
        entry_views(shown@) == ftp_entries(
            parsed@.map_values(|p: Option<RemoteEntry>| parsed_view(p)),
        ),
        dir.path == path,
        dir.parent == parent,
        crate::listing::local_views(dir.entries@) == local_listing(
            crate::local::item_views(items@),
        ),
{
}

/// Once a page of a folder in storage has come, the next one is asked for where
/// there is one; else all that was found is shown in order; where storage would
/// not list it, the user is told.
pub proof fn law_storage_results(listing: S3Listing, page: S3Page, e: String, r: ListStep, f: ListStep)
    requires
        call_ensures(S3Listing::step, (listing, Ok::<S3Page, String>(page)), r),
        call_ensures(S3Listing::step, (listing, Err::<S3Page, String>(e)), f),
    ensures
        ({
            let found = listing.found() + page_entries(
                listing.prefix(),
                crate::s3::prefix_views(page.prefixes@),
                crate::s3::object_views(page.objects@),
            );
            if page.truncated == Some(true) && page.token is Some {
                r matches ListStep::More { listing: l, token } && token@ == page.token->0@
                    && l.prefix() == listing.prefix() && l.found() == found
            } else {
                r matches ListStep::Listed(entries) && entry_views(entries@) == ordered_entries(
                    found,
                )
            }
        }),
        f matches ListStep::Failed(m) && m@ == "No se pudo listar: "@ + e@,
{
}

/// The folder that a server is asked for is the one that the user chose; where none
/// was chosen, an FTP server is asked for where it is and an SFTP server for `.`.
pub proof fn law_target_results(path: &str, f: Option<String>, s: String)
    requires
        call_ensures(ftp_target, (path,), f),
        call_ensures(sftp_target, (path,), s),
    ensures
        path@.len() > 0 ==> text_view(f) == Some(path@) && s@ == path@,
        path@.len() == 0 ==> f is None && s@ == "."@,
{
}

// ---------------------------------------------------------------------------
// Objects
// ---------------------------------------------------------------------------

/// A file of up to 64 MiB goes to storage in one piece, a larger one in parts.
pub proof fn law_sent_whole(size: u64, r: bool)
    requires
        call_ensures(sent_whole, (size,), r),
    ensures
        r <==> size <= 64 * 1024 * 1024,
{
}

/// An object is fetched by its path without the slashes in front; where some of it
/// is here, from behind that on, and added to it.
pub proof fn law_fetch_plan(path: &str, here: u64, r: DownloadPlan, key: String)
    requires
        call_ensures(plan_download, (path, here), r),
        call_ensures(object_key, (path,), key),
    ensures
        key@ == trim_start(path@),
        r.key@ == trim_start(path@),
        r.append <==> here > 0,
        r.range is Some <==> here > 0,
        r.range matches Some(t) ==> t@ == "bytes="@ + decimal(here as nat) + "-"@,
{
}

/// An object is moved from the key of its path to that of the other, by way of a
/// copy of what the bucket has under the first.
pub proof fn law_move_plan(bucket: &str, from: &str, to: &str, r: RenamePlan)
    requires
        call_ensures(plan_rename, (bucket, from, to), r),
    ensures
        r.from_key@ == trim_start(from@),
        r.to_key@ == trim_start(to@),
        r.copy_source@ == bucket@ + "/"@ + trim_start(from@),
{
}

/// Moving an object goes on as [`rename_after`] says.
pub proof fn law_move_results(stage: RenameStage, reply: Result<(), String>, r: RenameStep)
    requires
        call_ensures(rename_step, (stage, reply), r),
    ensures
        r@ == rename_after(stage, outcome_view(reply)),
{
}

/// What was saved of an upload goes only where storage gave the upload up.
pub proof fn law_abort_results(e: String, ok: AbortStep, no: AbortStep)
    requires
        call_ensures(abort_step, (Ok::<(), String>(()),), ok),
        call_ensures(abort_step, (Err::<(), String>(e),), no),
    ensures
        ok == AbortStep::Forget,
        no matches AbortStep::Failed(m) && m@ == "No se pudo abortar: "@ + e@,
{
}

/// Giving all uploads up goes on as [`abort_all_next`] says, and a search for them
/// as its view does.
pub proof fn law_uploads_results(
    listed: Result<Vec<IncompleteUpload>, String>,
    replies: Vec<bool>,
    r: AbortAllStep,
    search: UploadsListing,
    reply: UploadsReply,
    s: UploadsStep,
    hash: u64,
    name: String,
)
    requires
        call_ensures(abort_all, (&listed, &replies), r),
        call_ensures(UploadsListing::step, (search, reply), s),
        call_ensures(state_file_name, (hash,), name),
    ensures
        r@ == abort_all_next(listing_view(listed), replies@),
        s@ == search@.after(reply),
        name@ == hex_digits(hash as nat, 16) + ".json"@,
{
}

/// A page is followed by another where storage says that it is cut off and names the
/// next.
pub proof fn law_page_results(truncated: Option<bool>, marker: Option<String>, r: Option<String>)
    requires
        call_ensures(following_page, (truncated, &marker), r),
    ensures
        truncated == Some(true) ==> text_view(r) == text_view(marker),
        truncated != Some(true) ==> r is None,
{
}

/// A part has the least number of whole mebibytes, 16 or more, with which 9500 parts
/// hold more than the file; the parts hold the file, and all but the last do not.
pub proof fn law_part_results(size: u64, part: u64, count: i32)
    requires
        call_ensures(part_size_for, (size,), part),
        call_ensures(part_count_for, (size,), count),
    ensures
        part % 1048576 == 0,
        part >= 16 * 1048576,
        part * 9500 > size,
        forall|m: nat|
            #![trigger m * 9500]
            m % 1048576 == 0 && m >= 16 * 1048576 && m * 9500 > size ==> part <= m,
        count * part >= size,
        size > 0 ==> (count - 1) * part < size,
        size == 0 ==> count == 0,
{
    law_part_size_is_least(size as nat, 0);
    law_last_part(size as nat, part as nat);
    assert forall|m: nat|
        #![trigger m * 9500]
        m % 1048576 == 0 && m >= 16 * 1048576 && m * 9500 > size implies part <= m by {
        law_part_size_is_least(size as nat, m);
    }
}

// ---------------------------------------------------------------------------
// Texts
// ---------------------------------------------------------------------------

/// A name is put below a folder with one slash between them; a prefix has no slash in
/// front and one at its end.
pub proof fn law_path_results(base: &str, name: &str, r: String, path: &str, prefix: String)
    requires
        call_ensures(join_remote, (base, name), r),
        call_ensures(norm_prefix, (path,), prefix),
    ensures
        base@.len() > 0 && base@.last() == '/' ==> r@ == base@ + name@,
        base@.len() == 0 || base@.last() != '/' ==> r@ == base@ + seq!['/'] + name@,
        path@.len() > 0 && path@[0] != '/' && path@.last() == '/' ==> prefix@ == path@,
        path@.len() > 0 && path@[0] != '/' && path@.last() != '/' ==> prefix@ == path@ + seq!['/'],
        path@.len() == 0 ==> prefix@ == path@,
{
    law_joined_exactly(base@, name@);
    if path@.len() > 0 && path@[0] != '/' {
        law_prefix_exactly(path@);
    } else if path@.len() == 0 {
        law_prefix_exactly(seq!['a']);
        assert(path@ =~= Seq::empty());
    }
}

/// The last segment of a path is what stands behind its last slash.
pub proof fn law_segment_results(path: &str, head: Seq<char>, name: Seq<char>, r: String)
    requires
        call_ensures(last_path_segment, (path,), r),
        path@ == head + name,
        no_slash(name),
        head.len() == 0 || slash_ended(head),
    ensures
        r@ == name,
{
    law_last_segment_of(head, name);
}

/// Where a server or storage cannot be asked, the user is told what for, and why.
pub proof fn law_access_failure_results(f: Failure, cause: &str, r: String)
    requires
        call_ensures(failure, (f, cause), r),
    ensures
        f == Failure::StartRuntime ==> r@ == "No se pudo crear el runtime async: "@ + cause@,
        f == Failure::Task ==> r@ == "tarea fallo: "@ + cause@,
        f == Failure::StartFolder ==> r@ == "No se pudo obtener la carpeta inicial: "@ + cause@,
        f == Failure::ListFolder ==> r@ == "No se pudo listar la carpeta: "@ + cause@,
        f == Failure::AccessBucket ==> r@ == "No se pudo acceder al bucket: "@ + cause@,
        f == Failure::ListObjects ==> r@ == "No se pudo listar: "@ + cause@,
        f == Failure::ListUploads ==> r@ == "No se pudo listar subidas en progreso: "@ + cause@,
        f == Failure::AbortUpload ==> r@ == "No se pudo abortar: "@ + cause@,
{
}

/// Where a file cannot be transferred, the user is told at which step, and why.
pub proof fn law_transfer_failure_results(f: Failure, cause: &str, r: String)
    requires
        call_ensures(failure, (f, cause), r),
    ensures
        f == Failure::OpenRemote ==> r@ == "No se pudo abrir el archivo remoto: "@ + cause@,
        f == Failure::CreateRemote ==> r@ == "No se pudo crear el archivo remoto: "@ + cause@,
        f == Failure::OpenLocal ==> r@ == "No se pudo abrir el archivo local: "@ + cause@,
        f == Failure::CreateLocal ==> r@ == "No se pudo crear el archivo local: "@ + cause@,
        f == Failure::Receive ==> r@ == "Error leyendo: "@ + cause@,
        f == Failure::WriteDisk ==> r@ == "Error escribiendo en disco: "@ + cause@,
        f == Failure::ReadLocal ==> r@ == "Error leyendo local: "@ + cause@,
        f == Failure::Send ==> r@ == "Error subiendo: "@ + cause@,
        f == Failure::FinishDownload ==> r@ == "Error al finalizar la descarga: "@ + cause@,
        f == Failure::FinishUpload ==> r@ == "Error al finalizar la subida: "@ + cause@,
        f == Failure::FetchObject ==> r@ == "No se pudo descargar: "@ + cause@,
        f == Failure::WriteObject ==> r@ == "Error escribiendo: "@ + cause@,
        f == Failure::ReadWhole ==> r@ == "No se pudo leer el archivo local: "@ + cause@,
        f == Failure::SendWhole ==> r@ == "No se pudo subir: "@ + cause@,
{
}

/// Where something cannot be made, renamed, opened or deleted, the user is told what,
/// and why.
pub proof fn law_change_failure_results(f: Failure, cause: &str, r: String)
    requires
        call_ensures(failure, (f, cause), r),
    ensures
        f == Failure::MakeFolder ==> r@ == "No se pudo crear la carpeta: "@ + cause@,
        f == Failure::Rename ==> r@ == "No se pudo renombrar: "@ + cause@,
        f == Failure::DropOriginal ==> r@ == "No se pudo borrar el original: "@ + cause@,
        f == Failure::DeleteObject ==> r@ == "No se pudo eliminar: "@ + cause@,
        f == Failure::OpenFolder ==> r@ == "No se pudo abrir la carpeta: "@ + cause@,
        f == Failure::DeleteFolder ==> r@ == "No se pudo eliminar la carpeta: "@ + cause@,
        f == Failure::DeleteFile ==> r@ == "No se pudo eliminar el archivo: "@ + cause@,
{
}

/// Where the cause is not told, the user is told what went wrong.
pub proof fn law_complaint_results(c: Complaint, r: String)
    requires
        call_ensures(complaint, (c,), r),
    ensures
        c == Complaint::Locked ==> r@ == "estado bloqueado"@,
        c == Complaint::SeekFile ==> r@ == "Error posicionando el archivo"@,
        c == Complaint::ReadFile ==> r@ == "Error leyendo el archivo"@,
{
}

/// A text starts with another if and only if it is that text and something behind it.
pub proof fn law_beginning_results(prefix: &str, rest: Seq<char>, s: &str, r: bool)
    requires
        call_ensures(starts_with, (s, prefix), r),
    ensures
        s@ == prefix@ + rest ==> r,
        r ==> s@ == prefix@ + s@.skip(prefix@.len() as int),
{
    crate::text::law_begins_with(rest, prefix@);
    crate::text::law_begins_with(s@, prefix@);
}

// ---------------------------------------------------------------------------
// Connections
// ---------------------------------------------------------------------------

/// A connection to storage takes endpoint, keys and style as they were entered, and
/// the region, or a common one where none was; a request is tried six times.
pub proof fn law_client_results(cfg: ConnConfig, r: ClientSettings)
    requires
        call_ensures(client_settings, (&cfg,), r),
    ensures
        r.endpoint@ == cfg.endpoint@,
        r.access_key@ == cfg.access_key@,
        r.secret_key@ == cfg.secret_key@,
        r.path_style == cfg.path_style,
        r.region@ == if cfg.region@.len() > 0 {
            cfg.region@
        } else {
            "us-east-1"@
        },
        r.max_attempts == 6,
        r.provider_name@ == "carrybox"@,
{
}

/// Storage is asked for the bucket that was entered, if and only if bucket and
/// endpoint were; the connection stands where storage answers.
pub proof fn law_bucket_results(
    cfg: ConnConfig,
    r: Result<String, String>,
    bucket: String,
    e: String,
    ok: Result<String, String>,
    no: Result<String, String>,
)
    requires
        call_ensures(s3_probe, (&cfg,), r),
        call_ensures(s3_connected, (bucket, Ok::<(), String>(())), ok),
        call_ensures(s3_connected, (bucket, Err::<(), String>(e)), no),
    ensures
        r is Ok <==> cfg.endpoint@.len() > 0 && cfg.bucket@.len() > 0,
        r matches Ok(b) ==> b@ == cfg.bucket@,
        r matches Err(m) ==> m@ == "Faltan el endpoint o el bucket."@,
        ok == Ok::<String, String>(bucket),
        no matches Err(m) && m@ == "No se pudo acceder al bucket: "@ + e@,
{
}

/// A provider is picked by the protocol alone; the setup of FTP by protocol and
/// mode.
pub proof fn law_provider_results(
    protocol: &str,
    r: Result<Provider, String>,
    cfg: ConnConfig,
    setup: FtpSetup,
)
    requires
        call_ensures(select_provider, (protocol,), r),
        call_ensures(ftp_setup, (&cfg,), setup),
    ensures
        protocol@ == "ftp"@ || protocol@ == "ftps"@ ==> r == Ok::<Provider, String>(Provider::Ftp),
        protocol@ == "sftp"@ ==> r == Ok::<Provider, String>(Provider::Sftp),
        protocol@ != "ftp"@ && protocol@ != "ftps"@ && protocol@ != "sftp"@ ==> (r matches Err(e)
            && e@ == "Protocolo no soportado: "@ + protocol@),
        setup.secure <==> cfg.protocol@ == "ftps"@,
        setup.passive == cfg.passive,
        setup.nat_workaround == cfg.passive,
{
    crate::config::law_providers(protocol@);
}

/// Opening a session goes from stage to stage as long as each goes well, and stands
/// behind the last; where one fails, so does the session.
pub proof fn law_connect_results(
    cfg: ConnConfig,
    stage: FtpStage,
    ok: FtpStep,
    e: String,
    no: FtpStep,
    at: SshStage,
    reply: Result<bool, String>,
    s: SshStep,
)
    requires
        call_ensures(ftp_connect, (&cfg, stage, Ok::<(), String>(())), ok),
        call_ensures(ftp_connect, (&cfg, stage, Err::<(), String>(e)), no),
        call_ensures(ssh_connect, (&cfg, at, reply), s),
    ensures
        ftp_next(cfg.protocol@ == "ftps"@, stage) matches Some(next) ==> ok == FtpStep::Try(next),
        stage == FtpStage::Login ==> (ok matches FtpStep::Ready(setup) && setup.passive
            == cfg.passive && setup.nat_workaround == cfg.passive && setup.secure == (cfg.protocol@
            == "ftps"@)),
        no matches FtpStep::Failed(m) && m@ == crate::connect::ftp_lead(
            cfg.host@ + ":"@ + decimal(cfg.port as nat),
            stage,
        ) + e@,
        s@ == ssh_after(
            cfg.host@ + ":"@ + decimal(cfg.port as nat),
            at,
            match reply {
                Ok(taken) => Ok(taken),
                Err(e) => Err(e@),
            },
        ),
{
}

// ---------------------------------------------------------------------------
// Sessions
// ---------------------------------------------------------------------------

/// The log says where the session connects to, whether it stands, and in which
/// folder it starts; what the server said is handed on.
pub proof fn law_opening_results(
    cfg: ConnConfig,
    b: (LogLine, Result<Provider, String>),
    e: String,
    ok: (LogLine, Result<(), String>),
    no: (LogLine, Result<(), String>),
    folder: String,
    f: (LogLine, String),
    g: (LogLine, String),
)
    requires
        call_ensures(begin_session, (&cfg,), b),
        call_ensures(session_opened, (Ok::<(), String>(()),), ok),
        call_ensures(session_opened, (Err::<(), String>(e),), no),
        call_ensures(session_folder, (Ok::<String, String>(folder),), f),
        call_ensures(session_folder, (Err::<String, String>(e),), g),
    ensures
        b.0.kind@ == "status"@,
        b.0.text@ == "Conectando a "@ + (cfg.host@ + ":"@ + decimal(cfg.port as nat)) + " por "@
            + uppercase(cfg.protocol@) + " ..."@,
        b.1 is Ok <==> cfg.protocol@ == "ftp"@ || cfg.protocol@ == "ftps"@ || cfg.protocol@
            == "sftp"@,
        ok.0.kind@ == "status"@,
        ok.0.text@ == "Sesion iniciada (login correcto)."@,
        ok.1 is Ok,
        no.0.kind@ == "error"@,
        no.0.text@ == e@,
        no.1 matches Err(m) && m@ == e@,
        f.0.kind@ == "status"@,
        f.0.text@ == "Carpeta inicial: "@ + folder@,
        f.1@ == folder@,
        g.0.text@ == "Carpeta inicial: "@ + "/"@,
        g.1@ == "/"@,
{
    assert(b.0@.kind == b.0.kind@ && b.0@.text == b.0.text@);
    assert(ok.0@.kind == ok.0.kind@ && ok.0@.text == ok.0.text@);
    assert(no.0@.kind == no.0.kind@ && no.0@.text == no.0.text@);
    assert(f.0@.kind == f.0.kind@ && f.0@.text == f.0.text@);
    assert(g.0@.kind == g.0.kind@ && g.0@.text == g.0.text@);
}

/// The log says which folder is listed, how many entries it has, and what went
/// wrong; that something went well is not said of other operations.
pub proof fn law_log_results(
    path: &str,
    l: LogLine,
    entries: Vec<RemoteEntry>,
    n: LogLine,
    e: String,
    no: LogLine,
    done: Option<LogLine>,
    failed: Option<LogLine>,
    bye: LogLine,
)
    requires
        call_ensures(listing_begun, (path,), l),
        call_ensures(listing_ended, (&Ok::<Vec<RemoteEntry>, String>(entries),), n),
        call_ensures(listing_ended, (&Err::<Vec<RemoteEntry>, String>(e),), no),
        call_ensures(operation_ended, (&Ok::<(), String>(()),), done),
        call_ensures(operation_ended, (&Err::<(), String>(e),), failed),
        call_ensures(session_closed, (), bye),
    ensures
        l.kind@ == "status"@,
        l.text@ == "Listando "@ + path@ + " ..."@,
        n.kind@ == "status"@,
        n.text@ == "Listado correcto: "@ + decimal(entries@.len()) + " elementos."@,
        no.kind@ == "error"@,
        no.text@ == e@,
        done is None,
        failed matches Some(f) && f.kind@ == "error"@ && f.text@ == e@,
        bye.kind@ == "status"@,
        bye.text@ == "Desconectado del servidor."@,
{
    assert(l@.kind == l.kind@ && l@.text == l.text@);
    assert(n@.kind == n.kind@ && n@.text == n.text@);
    assert(no@.kind == no.kind@ && no@.text == no.text@);
    assert(bye@.kind == bye.kind@ && bye@.text == bye.text@);
    if let Some(f) = failed {
        assert(f@.kind == f.kind@ && f@.text == f.text@);
    }
}

/// A request goes to the session that is stored, or is answered that there is
/// none; what becomes of sessions is as [`stored_with`] and [`dropped_with`] say.
pub proof fn law_session_results<T>(
    stored: Option<T>,
    event: SessionEvent<T>,
    s: (Option<T>, Option<T>),
    q: Result<T, String>,
    l: ListingStep<T>,
)
    requires
        call_ensures(session_step::<T>, (stored, event), s),
        call_ensures(require_session::<T>, (stored,), q),
        call_ensures(listing_step::<T>, (stored,), l),
    ensures
        s.0 == stored_with(stored, event),
        s.1 == dropped_with(stored, event),
        stored matches Some(t) ==> q == Ok::<T, String>(t) && l == ListingStep::List(t),
        stored is None ==> {
            &&& q matches Err(e)
            &&& e@ == "No conectado"@
            &&& l matches ListingStep::Answer(Err(m))
            &&& m@ == "No conectado"@
        },
{
}

/// What the FTP client writes is shown as [`crate::events::shown_line`] says; a
/// file's progress is reported at most every 80 ms, with what has come of it.
pub proof fn law_event_results(
    target: &str,
    message: &str,
    l: Option<LogLine>,
    d: Direction,
    name: &str,
    n: u64,
    size: u64,
    elapsed: u128,
    p: Option<TransferProgress>,
    outcome: Option<Result<(), String>>,
    q: Option<TransferProgress>,
)
    requires
        call_ensures(log_line, (target, message), l),
        call_ensures(file_advanced, (d, name, n, size, elapsed), p),
        call_ensures(file_report, (d, name, size, &outcome), q),
    ensures
        crate::events::shown_line(target@, message@) matches Some(v) ==> (l matches Some(x) && x@
            == v),
        crate::events::shown_line(target@, message@) is None ==> l is None,
        p is Some <==> elapsed >= 80_000_000,
        p matches Some(x) ==> x.kind@ == (if d == Direction::Download {
            "download"@
        } else {
            "upload"@
        }) && x.state@ == "progress"@ && x.name@ == name@ && x.transferred == n && x.total == size,
        q is Some <==> !(outcome matches Some(Err(_))),
        q matches Some(x) ==> x.kind@ == (if d == Direction::Download {
            "download"@
        } else {
            "upload"@
        }) && x.state@ == "progress"@ && x.name@ == name@ && x.total == size && x.transferred == (
        if outcome is Some {
            size
        } else {
            0
        }),
{
    if let Some(x) = p {
        assert(x@.kind == x.kind@);
    }
    if let Some(x) = q {
        assert(x@.kind == x.kind@);
    }
}

// ---------------------------------------------------------------------------
// The local disk and the window
// ---------------------------------------------------------------------------

/// The user's own folder is the first that is known; a folder that was asked for is
/// shown unless it has no name; what is renamed stays in its folder; folders are
/// removed with all that they hold.
pub proof fn law_local_results<T>(
    profile: Option<T>,
    home: Option<T>,
    root: T,
    h: T,
    base: Option<T>,
    path: Option<String>,
    a: Option<String>,
    parent: Option<T>,
    f: Result<T, String>,
    is_dir: bool,
    removal: Removal,
    cause: &str,
    text: String,
)
    requires
        call_ensures(home_dir::<T>, (profile, home, root), h),
        call_ensures(state_base::<T>, (profile, home), base),
        call_ensures(asked_folder, (path,), a),
        call_ensures(rename_folder::<T>, (parent,), f),
        call_ensures(local_removal, (is_dir,), removal),
        call_ensures(removal_failed, (removal, cause), text),
    ensures
        h == if profile is Some {
            profile->0
        } else if home is Some {
            home->0
        } else {
            root
        },
        base == if profile is Some {
            profile
        } else {
            home
        },
        a == if path is Some && path->0@.len() > 0 {
            path
        } else {
            None
        },
        parent matches Some(p) ==> f == Ok::<T, String>(p),
        parent is None ==> (f matches Err(e) && e@ == "Ruta invalida"@),
        is_dir ==> removal == Removal::Tree && text@ == "No se pudo eliminar la carpeta: "@
            + cause@,
        !is_dir ==> removal == Removal::File && text@ == "No se pudo eliminar el archivo: "@
            + cause@,
{
}

/// The window takes 80 % of the screen's width and 85 % of its height, between 1024
/// by 640 and 1600 by 1000.
pub proof fn law_window_results(width: u32, height: u32, r: (u32, u32))
    requires
        call_ensures(window_size, (width, height), r),
    ensures
        1024 <= r.0 <= 1600,
        640 <= r.1 <= 1000,
        1024 < r.0 < 1600 ==> -5 < 10 * r.0 - 8 * width <= 5,
        r.0 == 1024 ==> 8 * width < 10245,
        r.0 == 1600 ==> 8 * width >= 15995,
        640 < r.1 < 1000 ==> -10 < 20 * r.1 - 17 * height <= 10,
        r.1 == 640 ==> 17 * height < 12810,
        r.1 == 1000 ==> 17 * height >= 19990,
{
}

// ---------------------------------------------------------------------------
// Transfers
// ---------------------------------------------------------------------------

/// A batch begins with its first item, and ends at once where nothing was picked;
/// each step is what its view says.
pub proof fn law_batch_results(
    d: Direction,
    items: Vec<TransferItem>,
    s: (Batch, BatchStep),
    batch: Batch,
    reply: Result<(), String>,
    r: (Batch, BatchStep),
)
    requires
        call_ensures(Batch::start, (d, items), s),
        call_ensures(Batch::step, (batch, reply), r),
    ensures
        items.len() > 0 ==> s.1.action@ == BatchActionView::Transfer(0),
        items.len() == 0 ==> s.1.action@ == BatchActionView::End(Ok(())),
        s.0@.items == item_views(items@),
        s.0@.direction == d,
        s.0@.current == 0,
        (r.0@, r.1@) == batch@.after(outcome_view(reply)),
{
    assert(item_views(items@).len() == items@.len());
}

/// A deletion begins with what was picked, and each step is what its view says.
pub proof fn law_delete_results(
    path: &str,
    is_dir: bool,
    s: (DeleteWalk, DeleteAction),
    walk: DeleteWalk,
    event: DeleteEvent,
    r: (DeleteWalk, DeleteAction),
)
    requires
        call_ensures(DeleteWalk::start, (path, is_dir), s),
        call_ensures(do_delete, (walk, event), r),
    ensures
        s.1@ == if is_dir {
            DeleteActionView::List(path@)
        } else {
            DeleteActionView::DeleteFile(path@)
        },
        s.0@.stack.len() == 0,
        (r.0@, r.1@) == walk@.after(event@),
{
}

/// A download begins with what was picked, under its own name, and each step is
/// what its view says.
pub proof fn law_download_results(
    remote: &str,
    name: &str,
    is_dir: bool,
    size: u64,
    s: (DownloadWalk, DownloadAction),
    walk: DownloadWalk,
    event: DownloadEvent,
    r: (DownloadWalk, DownloadAction),
)
    requires
        call_ensures(DownloadWalk::start, (remote, name, is_dir, size), s),
        call_ensures(do_download, (walk, event), r),
    ensures
        s.0@.stack.len() == 0,
        crate::download_laws::takes_its_turn(
            DownloadTaskView {
                remote: remote@,
                target: seq![name@],
                name: name@,
                is_dir,
                size,
            },
            s.0@,
            s.1@,
        ),
        (r.0@, r.1@) == walk@.after(event@),
{
}

/// An upload of files begins with what was picked, under its own name in the
/// folder that was chosen, and each step is what its view says.
pub proof fn law_upload_results<P>(
    path: P,
    name: &str,
    is_dir: bool,
    parent: &str,
    s: (UploadWalk<P>, WalkAction<P>),
    walk: UploadWalk<P>,
    event: WalkEvent<P>,
    r: (UploadWalk<P>, WalkAction<P>),
)
    requires
        call_ensures(UploadWalk::<P>::start, (path, name, is_dir, parent), s),
        call_ensures(do_upload::<P>, (walk, event), r),
    ensures
        crate::upload_walk_laws::takes_its_turn(
            crate::upload_walk::TaskView::Visit {
                path,
                remote: crate::path::joined(parent@, name@),
                name: name@,
                is_dir,
            },
            Seq::empty(),
            s.0@,
            s.1@,
        ),
        (r.0@, r.1@) == walk@.after(event@),
{
    crate::upload_walk_laws::law_upload_begins(
        crate::upload_walk::TaskView::Visit {
            path,
            remote: crate::path::joined(parent@, name@),
            name: name@,
            is_dir,
        },
    );
}

/// Each step of a multipart upload is what its view says, and so is each of a file
/// that goes in one piece or is copied.
pub proof fn law_file_results(
    run: UploadRun,
    event: UploadEvent,
    r: (UploadRun, UploadAction),
    size: u64,
    stage: WholeStage,
    reply: Result<(), String>,
    w: WholeStep,
    route: FileRoute,
    at: FileStage,
    f: FileStep,
)
    requires
        call_ensures(UploadRun::step, (run, event), r),
        call_ensures(send_whole, (size, stage, reply), w),
        call_ensures(file_step, (route, at, reply), f),
    ensures
        (r.0@, r.1@) == run@.after(event@),
        r.0@.ok(),
        w@ == whole_after(size, stage, outcome_view(reply)),
        f@ == file_after(route, at, outcome_view(reply)),
{
}

/// A multipart upload begins by asking for the parts of the saved upload that it can
/// go on with, where there is one, and else for a new upload; nothing of the file
/// counts as sent yet.
pub proof fn law_multipart_start(
    plan: UploadPlan,
    saved: Option<UploadState>,
    id: Option<String>,
    r: (UploadRun, UploadAction),
)
    requires
        call_ensures(UploadPlan::resume_id, (&plan, &saved), id),
        call_ensures(UploadRun::start, (plan, &saved), r),
    ensures
        r.0@.plan == plan@,
        r.0@.parts.dom() == Set::<i32>::empty(),
        r.0@.completed == 0,
        r.0@.failed is None,
        !r.0@.cancelled,
        id matches Some(i) ==> r.1@ == (ActionView::ListParts { upload_id: i@ }) && r.0@.upload_id
            == i@,
        id is None ==> r.1@ == ActionView::Create && r.0@.upload_id.len() == 0,
{
}

/// A copy begins by reading, with what is there already counted; a search for uploads
/// at the first page; a listing of storage with the prefix of the folder and nothing
/// found.
pub proof fn law_start_results(
    route: CopyRoute,
    here: u64,
    copy: ChunkCopy,
    search: (UploadsListing, UploadsRequest),
    path: &str,
    listing: S3Listing,
    prefix: String,
    asked: String,
)
    requires
        call_ensures(ChunkCopy::start, (route, here), copy),
        call_ensures(UploadsListing::start, (), search),
        call_ensures(S3Listing::new, (path,), listing),
        call_ensures(norm_prefix, (path,), prefix),
        call_ensures(S3Listing::request_prefix, (&listing,), asked),
    ensures
        copy.route == route,
        copy.total == here,
        copy.phase == CopyPhase::Reading,
        search.1@ == (RequestView::Uploads { key_marker: None, id_marker: None }),
        search.0@.found.len() == 0,
        search.0@.rest.len() == 0,
        !search.0@.counting,
        asked@ == prefix@,
        listing.found().len() == 0,
{
}

/// What happened is taken if and only if it is waited for.
pub proof fn law_taken_results(
    delete: DeleteWalk,
    deleted: DeleteEvent,
    d: bool,
    download: DownloadWalk,
    downloaded: DownloadEvent,
    w: bool,
    run: UploadRun,
    sent: UploadEvent,
    u: bool,
    copy: ChunkCopy,
    copied: CopyEvent,
    c: bool,
    search: UploadsListing,
    listed: UploadsReply,
    s: bool,
    batch: Batch,
    b: bool,
)
    requires
        call_ensures(DeleteWalk::accepts, (&delete, &deleted), d),
        call_ensures(DownloadWalk::accepts, (&download, &downloaded), w),
        call_ensures(UploadRun::accepts, (&run, &sent), u),
        call_ensures(ChunkCopy::accepts, (&copy, &copied), c),
        call_ensures(UploadsListing::accepts, (&search, &listed), s),
        call_ensures(Batch::is_running, (&batch,), b),
    ensures
        d <==> delete@.expects(deleted@),
        w <==> download@.expects(downloaded@),
        u <==> run@.expects(sent@),
        c <==> copy.expects(copied@),
        s <==> search@.expects(listed),
        b <==> !batch@.over && batch@.current < batch@.items.len(),
{
}

} // verus!
