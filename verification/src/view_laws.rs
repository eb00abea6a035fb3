//! What is said of values leaves nothing out: two values that are said to be the
//! same have the same fields, and lists are said item by item.

use crate::batch::{item_views, BatchAction, BatchActionView, TransferItem};
use crate::delete::{DeleteAction, DeleteActionView, DeleteEvent, DeleteEventView};
use crate::download::{name_views, DownloadAction, DownloadActionView, DownloadEvent, DownloadEventView};
use crate::events::{LogLine, TransferProgress};
use crate::listing::{entry_views, local_views, LocalEntry, RemoteEntry};
use crate::local::LocalItem;
use crate::parts::{completed_views, etag_views, CompletedPart};
use crate::s3::{object_views, prefix_views, S3Object};
use crate::s3_uploads::{incomplete_views, IncompleteUpload};
use crate::sources::{sftp_views, SftpItem};
use crate::text::{outcome_view, text_view};
use crate::upload::{ActionView, EventView, UploadAction, UploadEvent, UploadPlan, UploadState};
use crate::upload_walk::{
    read_views, LocalChild, ReadChild, WalkAction, WalkActionView, WalkEvent, WalkEventView,
};
use vstd::prelude::*;

verus! {

/// A text that may be missing, and an outcome, say what they hold.
pub proof fn law_texts_say(t: String)
    ensures
        text_view(Some(t)) == Some(t@),
        text_view(None) is None,
        outcome_view(Ok(())) == Ok::<(), Seq<char>>(()),
        outcome_view(Err(t)) == Err::<(), Seq<char>>(t@),
{
}

/// Entries of a remote and of a local folder say all that they hold.
pub proof fn law_entries_say(r: RemoteEntry, l: LocalEntry)
    ensures
        r@.name == r.name@,
        r@.is_dir == r.is_dir,
        r@.size == r.size,
        r@.modified == r.modified,
        l@.name == l.name@,
        l@.path == l.path@,
        l@.is_dir == l.is_dir,
        l@.size == l.size,
{
}

/// What servers and the disk give says all that it holds.
pub proof fn law_sources_say<P>(s: SftpItem, o: S3Object, l: LocalItem, c: LocalChild<P>)
    ensures
        s@.name == s.name@,
        s@.permissions == s.permissions,
        s@.size == s.size,
        s@.mtime == s.mtime,
        o@.key == text_view(o.key),
        o@.size == o.size,
        o@.modified == o.modified,
        l@.name == l.name@,
        l@.path == l.path@,
        l@.meta == l.meta,
        c@.path == c.path,
        c@.name == c.name@,
        c@.is_dir == c.is_dir,
{
}

/// What is picked, told and reported says all that it holds.
pub proof fn law_messages_say(i: TransferItem, l: LogLine, p: TransferProgress, u: IncompleteUpload)
    ensures
        i@.name == i.name@,
        i@.path == i.path@,
        i@.is_dir == i.is_dir,
        i@.size == i.size,
        l@.kind == l.kind@,
        l@.text == l.text@,
        p@.kind == p.kind@,
        p@.state == p.state@,
        p@.name == p.name@,
        p@.transferred == p.transferred,
        p@.total == p.total,
        u@.key == u.key@,
        u@.upload_id == u.upload_id@,
        u@.bytes == u.bytes,
        u@.parts == u.parts,
        u@.initiated == u.initiated,
{
}

/// Lists are said item by item, in order.
pub proof fn law_lists_say(
    r: Seq<RemoteEntry>,
    l: Seq<LocalEntry>,
    t: Seq<TransferItem>,
    s: Seq<SftpItem>,
    o: Seq<S3Object>,
    p: Seq<Option<String>>,
    n: Seq<String>,
    c: Seq<CompletedPart>,
    u: Seq<IncompleteUpload>,
    i: int,
)
    ensures
        entry_views(r).len() == r.len(),
        local_views(l).len() == l.len(),
        item_views(t).len() == t.len(),
        sftp_views(s).len() == s.len(),
        object_views(o).len() == o.len(),
        prefix_views(p).len() == p.len(),
        name_views(n).len() == n.len(),
        completed_views(c).len() == c.len(),
        incomplete_views(u).len() == u.len(),
        0 <= i < r.len() ==> entry_views(r)[i] == r[i]@,
        0 <= i < l.len() ==> local_views(l)[i] == l[i]@,
        0 <= i < t.len() ==> item_views(t)[i] == t[i]@,
        0 <= i < s.len() ==> sftp_views(s)[i] == s[i]@,
        0 <= i < o.len() ==> object_views(o)[i] == o[i]@,
        0 <= i < p.len() ==> prefix_views(p)[i] == text_view(p[i]),
        0 <= i < n.len() ==> name_views(n)[i] == n[i]@,
        0 <= i < c.len() ==> completed_views(c)[i] == (c[i].number, c[i].etag@),
        0 <= i < u.len() ==> incomplete_views(u)[i] == u[i]@,
{
}

/// Tags are said part by part.
pub proof fn law_tags_say(m: Map<i32, String>, n: i32)
    ensures
        etag_views(m).contains_key(n) <==> m.contains_key(n),
        m.contains_key(n) ==> etag_views(m)[n] == m[n]@,
{
}

/// What a deletion is answered and asks for says all that it holds.
pub proof fn law_deletions_say(entries: Vec<RemoteEntry>, r: Result<(), String>, t: String)
    ensures
        DeleteEvent::Listed(Ok(entries))@ == DeleteEventView::Listed(Ok(entry_views(entries@))),
        DeleteEvent::Listed(Err(t))@ == DeleteEventView::Listed(Err(t@)),
        DeleteEvent::Done(r)@ == DeleteEventView::Done(outcome_view(r)),
        DeleteAction::List(t)@ == DeleteActionView::List(t@),
        DeleteAction::DeleteFile(t)@ == DeleteActionView::DeleteFile(t@),
        DeleteAction::DeleteDir(t)@ == DeleteActionView::DeleteDir(t@),
        DeleteAction::Finish(r)@ == DeleteActionView::Finish(outcome_view(r)),
{
}

/// What a download is answered and asks for says all that it holds.
pub proof fn law_downloads_say(
    entries: Vec<RemoteEntry>,
    r: Result<(), String>,
    t: String,
    names: Vec<String>,
    p: TransferProgress,
    name: String,
    size: u64,
)
    ensures
        DownloadEvent::Listed(Ok(entries))@ == DownloadEventView::Listed(Ok(entry_views(entries@))),
        DownloadEvent::Listed(Err(t))@ == DownloadEventView::Listed(Err(t@)),
        DownloadEvent::Done(r)@ == DownloadEventView::Done(outcome_view(r)),
        DownloadEvent::Reported@ == DownloadEventView::Reported,
        DownloadAction::MakeDir(names)@ == DownloadActionView::MakeDir(name_views(names@)),
        DownloadAction::List(t)@ == DownloadActionView::List(t@),
        DownloadAction::Report(p)@ == DownloadActionView::Report(p@),
        (DownloadAction::Fetch { remote: t, target: names, name, size })@ == (
        DownloadActionView::Fetch { remote: t@, target: name_views(names@), name: name@, size }),
        DownloadAction::Finish(r)@ == DownloadActionView::Finish(outcome_view(r)),
{
}

/// What an upload of files is answered and asks for says all that it holds.
pub proof fn law_uploads_say<P>(
    children: Vec<ReadChild<P>>,
    r: Result<(), String>,
    t: String,
    path: P,
    p: TransferProgress,
    name: String,
    size: u64,
    measured: Option<u64>,
    i: int,
)
    ensures
        WalkEvent::Read(Ok(children))@ == WalkEventView::Read(Ok(read_views(children@))),
        WalkEvent::<P>::Read(Err(t))@ == WalkEventView::<P>::Read(Err(t@)),
        (WalkEvent::Measured { path, size: measured })@ == (WalkEventView::Measured {
            path,
            size: measured,
        }),
        WalkEvent::<P>::Done(r)@ == WalkEventView::<P>::Done(outcome_view(r)),
        WalkEvent::<P>::Reported@ == WalkEventView::<P>::Reported,
        WalkAction::<P>::MakeDir(t)@ == WalkActionView::<P>::MakeDir(t@),
        WalkAction::ReadDir(path)@ == WalkActionView::ReadDir(path),
        WalkAction::Measure(path)@ == WalkActionView::Measure(path),
        WalkAction::<P>::Report(p)@ == WalkActionView::<P>::Report(p@),
        (WalkAction::Send { path, remote: t, name, size })@ == (WalkActionView::Send {
            path,
            remote: t@,
            name: name@,
            size,
        }),
        WalkAction::<P>::Finish(r)@ == WalkActionView::<P>::Finish(outcome_view(r)),
        read_views(children@).len() == children@.len(),
        0 <= i < children@.len() ==> match children@[i] {
            Ok(c) => read_views(children@)[i] == Ok::<_, Seq<char>>(c@),
            Err(e) => read_views(children@)[i] is Err && read_views(children@)[i]->Err_0 == e@,
        },
{
}

/// What a multipart upload asks for, and what it is answered of parts, says all
/// that it holds.
pub proof fn law_multipart_says(
    st: UploadState,
    plan: UploadPlan,
    id: String,
    parts: Vec<CompletedPart>,
    spans: Vec<crate::parts::PartSpan>,
    n: u64,
    r: Result<(), String>,
    number: i32,
)
    ensures
        st@.bucket == st.bucket@,
        st@.key == st.key@,
        st@.upload_id == st.upload_id@,
        st@.file_size == st.file_size,
        st@.mtime_secs == st.mtime_secs,
        st@.part_size == st.part_size,
        plan@.bucket == plan.bucket@,
        plan@.key == plan.key@,
        plan@.size == plan.size,
        plan@.mtime == plan.mtime,
        (UploadAction::ListParts { upload_id: id })@ == (ActionView::ListParts { upload_id: id@ }),
        UploadAction::Create@ == ActionView::Create,
        UploadAction::Save(st)@ == ActionView::Save(st@),
        UploadAction::Read(spans)@ == ActionView::Read(spans@),
        UploadAction::Settle@ == ActionView::Settle,
        UploadAction::Ask(n)@ == ActionView::Ask(n as int),
        UploadAction::Upload@ == ActionView::Upload,
        UploadAction::Wait@ == ActionView::Wait,
        UploadAction::Drain@ == ActionView::Drain,
        (UploadAction::Abort { upload_id: id })@ == (ActionView::Abort { upload_id: id@ }),
        UploadAction::Forget@ == ActionView::Forget,
        (UploadAction::Complete { upload_id: id, parts })@ == (ActionView::Complete {
            upload_id: id@,
            parts: completed_views(parts@),
        }),
        UploadAction::Measure@ == ActionView::Measure,
        UploadAction::Finish(r)@ == ActionView::Finish(outcome_view(r)),
        (UploadEvent::PartSent { number, reply: Ok(id) })@ == (EventView::PartSent {
            number,
            reply: Ok(id@),
        }),
        (UploadEvent::PartSent { number, reply: Err(id) })@ == (EventView::PartSent {
            number,
            reply: Err(id@),
        }),
        UploadEvent::PartRead(number)@ == EventView::PartRead(number),
        UploadEvent::Created(Ok(Some(id)))@ == EventView::Created(Ok(Some(id@))),
        UploadEvent::Completed(r)@ == EventView::Completed(outcome_view(r)),
        UploadEvent::ReaderEnded(r)@ == EventView::ReaderEnded(outcome_view(r)),
{
}

/// What a batch asks for says all that it holds.
pub proof fn law_batches_say(i: usize, r: Result<(), String>)
    ensures
        BatchAction::Transfer(i)@ == BatchActionView::Transfer(i as nat),
        BatchAction::End(r)@ == BatchActionView::End(outcome_view(r)),
{
}

} // verus!
