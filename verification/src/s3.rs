//! Objects in S3-compatible storage, shown as files and folders.
//!
//! Storage has no folders: a folder is a prefix of keys that ends in a slash.
//! Long answers come in pages.

use crate::listing::{entry_views, ordered_entries, picked, sort_entries, EntryView, RemoteEntry};
use crate::messages::{failure, lead, Failure};
use crate::path::{norm_prefix, prefix_of};
use crate::text::{
    decimal, decimal_text, decimal_value, ends_with_slash, join3, last_path_segment, last_segment,
    law_decimal, outcome_view, slash_ended, text_view, trim_end, trim_end_slashes, trim_start, trim_start_slashes,
};
use vstd::prelude::*;

verus! {

/// A count or a time that storage reports; a negative one counts as zero.
pub open spec fn at_least_zero(n: i64) -> u64 {
    if n < 0 {
        0
    } else {
        n as u64
    }
}

/// A count that storage may leave out, which then is zero.
pub open spec fn count_or_zero(n: Option<i64>) -> u64 {
    match n {
        Some(n) => at_least_zero(n),
        None => 0,
    }
}

/// A time that storage may leave out.
pub open spec fn time_of(n: Option<i64>) -> Option<u64> {
    match n {
        Some(n) => Some(at_least_zero(n)),
        None => None,
    }
}

/// Where to go on: storage said that there is more, and from where.
pub open spec fn next_page(truncated: Option<bool>, marker: Option<Seq<char>>) -> Option<Seq<char>> {
    if truncated == Some(true) {
        marker
    } else {
        None
    }
}

pub(crate) fn clamp(n: i64) -> (r: u64)
    ensures
        r == at_least_zero(n),
{
    if n < 0 {
        0
    } else {
        n as u64
    }
}

pub(crate) fn clamp_or_zero(n: Option<i64>) -> (r: u64)
    ensures
        r == count_or_zero(n),
{
    match n {
        Some(n) => clamp(n),
        None => 0,
    }
}

pub(crate) fn clamp_time(n: Option<i64>) -> (r: Option<u64>)
    ensures
        r == time_of(n),
{
    match n {
        Some(n) => Some(clamp(n)),
        None => None,
    }
}

pub(crate) fn is_truncated(truncated: Option<bool>) -> (r: bool)
    ensures
        r == (truncated == Some(true)),
{
    match truncated {
        Some(b) => b,
        None => false,
    }
}

/// Where to go on: storage said that there is more, and from where.
pub fn following_page(truncated: Option<bool>, marker: &Option<String>) -> (r: Option<String>)
    ensures
        text_view(r) == next_page(truncated, text_view(*marker)),
{
    if is_truncated(truncated) {
        match marker {
            Some(m) => Some(m.clone()),
            None => None,
        }
    } else {
        None
    }
}

// ---------------------------------------------------------------------------
// Listing a folder
// ---------------------------------------------------------------------------

/// An object as storage lists it.
#[derive(Debug)]
pub struct S3Object {
    pub key: Option<String>,
    pub size: Option<i64>,
    /// Seconds since the epoch.
    pub modified: Option<i64>,
}

/// What an [`S3Object`] says.
pub struct ObjectView {
    pub key: Option<Seq<char>>,
    pub size: Option<i64>,
    pub modified: Option<i64>,
}

impl View for S3Object {
    type V = ObjectView;

    open spec fn view(&self) -> ObjectView {
        ObjectView { key: text_view(self.key), size: self.size, modified: self.modified }
    }
}

/// A page of a folder's listing.
#[derive(Debug)]
pub struct S3Page {
    /// Prefixes that the keys below have in common.
    pub prefixes: Vec<Option<String>>,
    pub objects: Vec<S3Object>,
    pub truncated: Option<bool>,
    pub token: Option<String>,
}

/// The folder that a common prefix stands for; none where it has no name.
pub open spec fn folder_entry(prefix: Option<Seq<char>>) -> Option<EntryView> {
    match prefix {
        Some(p) => {
            let name = last_segment(trim_end(p));
            if name.len() == 0 {
                None
            } else {
                Some(EntryView { name, is_dir: true, size: 0, modified: None })
            }
        },
        None => None,
    }
}

/// The file that an object stands for in the folder `prefix`; none where it
/// marks a folder, that one or another.
pub open spec fn file_entry(prefix: Seq<char>, object: ObjectView) -> Option<EntryView> {
    match object.key {
        Some(key) => if key == prefix || slash_ended(key) {
            None
        } else {
            Some(
                EntryView {
                    name: last_segment(key),
                    is_dir: false,
                    size: count_or_zero(object.size),
                    modified: time_of(object.modified),
                },
            )
        },
        None => None,
    }
}

/// What the common prefixes of a page say.
pub open spec fn prefix_views(prefixes: Seq<Option<String>>) -> Seq<Option<Seq<char>>> {
    prefixes.map_values(|p: Option<String>| text_view(p))
}

/// What the objects of a page say.
pub open spec fn object_views(objects: Seq<S3Object>) -> Seq<ObjectView> {
    objects.map_values(|o: S3Object| o@)
}

/// The entries that a page adds to the folder `prefix`: its folders, then its
/// files.
pub open spec fn page_entries(
    prefix: Seq<char>,
    prefixes: Seq<Option<Seq<char>>>,
    objects: Seq<ObjectView>,
) -> Seq<EntryView> {
    picked(prefixes, |p: Option<Seq<char>>| folder_entry(p)) + picked(
        objects,
        |o: ObjectView| file_entry(prefix, o),
    )
}

/// What to do next with a folder that is being listed.
#[derive(Debug)]
pub enum ListStep {
    /// Ask for the page behind `token`.
    More { listing: S3Listing, token: String },
    Listed(Vec<RemoteEntry>),
    Failed(String),
}

/// A folder that is being listed page by page.
#[derive(Debug)]
pub struct S3Listing {
    prefix: String,
    entries: Vec<RemoteEntry>,
}

impl S3Listing {
    /// The prefix of the keys in the folder.
    pub closed spec fn prefix(self) -> Seq<char> {
        self.prefix@
    }

    /// The entries found so far, in the order in which they came.
    pub closed spec fn found(self) -> Seq<EntryView> {
        entry_views(self.entries@)
    }

    /// Begins to list the folder `path`.
    pub fn new(path: &str) -> (r: S3Listing)
        ensures
            r.prefix() == prefix_of(path@),
            r.found() == Seq::<EntryView>::empty(),
    {
        let entries: Vec<RemoteEntry> = Vec::new();
        proof {
            assert(entry_views(entries@) =~= Seq::empty());
        }
        S3Listing { prefix: norm_prefix(path), entries }
    }

    /// The prefix to ask storage for.
    pub fn request_prefix(&self) -> (r: String)
        ensures
            r@ == self.prefix(),
    {
        self.prefix.clone()
    }

    fn push_folders(&mut self, prefixes: &Vec<Option<String>>)
        ensures
            final(self).prefix() == old(self).prefix(),
            final(self).found() == old(self).found() + picked(
                prefix_views(prefixes@),
                |p: Option<Seq<char>>| folder_entry(p),
            ),
    {
        let ghost base = self.found();
        let ghost pick = |p: Option<Seq<char>>| folder_entry(p);
        let ghost views = prefix_views(prefixes@);
        let mut i: usize = 0;
        proof {
            assert(views.take(0) =~= Seq::empty());
            assert(base + Seq::<EntryView>::empty() =~= base);
        }
        while i < prefixes.len()
            invariant
                i <= prefixes.len(),
                views == prefix_views(prefixes@),
                pick == (|p: Option<Seq<char>>| folder_entry(p)),
                self.prefix() == old(self).prefix(),
                self.found() == base + picked(views.take(i as int), pick),
            decreases prefixes.len() - i,
        {
            proof {
                assert(views.take(i + 1).drop_last() =~= views.take(i as int));
                assert(views.take(i + 1).last() == text_view(prefixes@[i as int]));
            }
            let ghost before = self.entries@;
            match &prefixes[i] {
                Some(p) => {
                    let name = last_path_segment(trim_end_slashes(p.as_str()).as_str());
                    if !name.as_str().is_empty() {
                        let e = RemoteEntry { name, is_dir: true, size: 0, modified: None };
                        let ghost e_view = e@;
                        self.entries.push(e);
                        proof {
                            assert(entry_views(self.entries@) =~= entry_views(before).push(e_view));
                            assert(self.found() =~= base + picked(views.take(i as int), pick).push(
                                e_view,
                            ));
                        }
                    }
                },
                None => {},
            }
            i = i + 1;
        }
        proof {
            assert(views.take(prefixes.len() as int) =~= views);
        }
    }

    fn push_files(&mut self, objects: &Vec<S3Object>)
        ensures
            final(self).prefix() == old(self).prefix(),
            final(self).found() == old(self).found() + picked(
                object_views(objects@),
                |o: ObjectView| file_entry(old(self).prefix(), o),
            ),
    {
        let ghost base = self.found();
        let ghost prefix = self.prefix();
        let ghost pick = |o: ObjectView| file_entry(prefix, o);
        let ghost views = object_views(objects@);
        let mut i: usize = 0;
        proof {
            assert(views.take(0) =~= Seq::empty());
            assert(base + Seq::<EntryView>::empty() =~= base);
        }
        while i < objects.len()
            invariant
                i <= objects.len(),
                views == object_views(objects@),
                pick == (|o: ObjectView| file_entry(prefix, o)),
                prefix == old(self).prefix(),
                self.prefix() == prefix,
                self.found() == base + picked(views.take(i as int), pick),
            decreases objects.len() - i,
        {
            proof {
                assert(views.take(i + 1).drop_last() =~= views.take(i as int));
                assert(views.take(i + 1).last() == objects@[i as int]@);
            }
            let ghost before = self.entries@;
            let object = &objects[i];
            match &object.key {
                Some(key) => {
                    if !(*key == self.prefix || ends_with_slash(key.as_str())) {
                        let e = RemoteEntry {
                            name: last_path_segment(key.as_str()),
                            is_dir: false,
                            size: clamp_or_zero(object.size),
                            modified: clamp_time(object.modified),
                        };
                        let ghost e_view = e@;
                        self.entries.push(e);
                        proof {
                            assert(entry_views(self.entries@) =~= entry_views(before).push(e_view));
                            assert(self.found() =~= base + picked(views.take(i as int), pick).push(
                                e_view,
                            ));
                        }
                    }
                },
                None => {},
            }
            i = i + 1;
        }
        proof {
            assert(views.take(objects.len() as int) =~= views);
        }
    }

    /// Takes a page and says where the next one begins; `None` where this was
    /// the last.
    pub fn take_page(&mut self, page: &S3Page) -> (next: Option<String>)
        ensures
            final(self).prefix() == old(self).prefix(),
            final(self).found() == old(self).found() + page_entries(
                old(self).prefix(),
                prefix_views(page.prefixes@),
                object_views(page.objects@),
            ),
            text_view(next) == next_page(page.truncated, text_view(page.token)),
    {
        let ghost base = self.found();
        self.push_folders(&page.prefixes);
        let ghost middle = self.found();
        self.push_files(&page.objects);
        proof {
            assert(self.found() =~= base + page_entries(
                old(self).prefix(),
                prefix_views(page.prefixes@),
                object_views(page.objects@),
            ));
        }
        following_page(page.truncated, &page.token)
    }

    /// What to do once storage answered: ask for the next page, or show what
    /// the pages held.
    pub fn step(self, reply: Result<S3Page, String>) -> (r: ListStep)
        ensures
            match reply {
                Ok(page) => {
                    let found = self.found() + page_entries(
                        self.prefix(),
                        prefix_views(page.prefixes@),
                        object_views(page.objects@),
                    );
                    match next_page(page.truncated, text_view(page.token)) {
                        Some(t) => r matches ListStep::More { listing, token } && token@ == t
                            && listing.prefix() == self.prefix() && listing.found() == found,
                        None => r matches ListStep::Listed(entries) && entry_views(entries@)
                            == ordered_entries(found),
                    }
                },
                Err(e) => r matches ListStep::Failed(m) && m@ == lead(Failure::ListObjects) + e@,
            },
    {
        match reply {
            Ok(page) => {
                let mut listing = self;
                match listing.take_page(&page) {
                    Some(token) => ListStep::More { listing, token },
                    None => ListStep::Listed(listing.finish()),
                }
            },
            Err(e) => ListStep::Failed(failure(Failure::ListObjects, e.as_str())),
        }
    }

    /// The entries of all pages as a panel shows them.
    pub fn finish(self) -> (r: Vec<RemoteEntry>)
        ensures
            entry_views(r@) == ordered_entries(self.found()),
    {
        let mut entries = self.entries;
        sort_entries(&mut entries);
        entries
    }
}

// ---------------------------------------------------------------------------
// Single objects
// ---------------------------------------------------------------------------

/// The key of the object at `path`: the path without the slashes it begins
/// with.
pub fn object_key(path: &str) -> (r: String)
    ensures
        r@ == trim_start(path@),
{
    trim_start_slashes(path)
}

/// How an object is fetched.
#[derive(Debug)]
pub struct DownloadPlan {
    pub key: String,
    /// The range to ask for; all of the object where there is none.
    pub range: Option<String>,
    /// Whether what comes is added to the local file.
    pub append: bool,
}

/// The range from byte `n` to the end.
pub open spec fn range_from(n: nat) -> Seq<char> {
    "bytes="@ + decimal(n) + "-"@
}

/// What is asked for begins right behind the bytes that are here: the number in
/// the range is how many they are.
pub proof fn law_range_resumes(n: nat)
    ensures
        decimal_value(range_from(n).subrange(6, range_from(n).len() - 1)) == n,
{
    reveal_strlit("bytes=");
    reveal_strlit("-");
    law_decimal(n);
    assert(range_from(n).subrange(6, range_from(n).len() - 1) =~= decimal(n));
}

/// How an object is fetched of which `resume_from` bytes are here already.
pub fn plan_download(path: &str, resume_from: u64) -> (r: DownloadPlan)
    ensures
        r.key@ == trim_start(path@),
        r.append == (resume_from > 0),
        text_view(r.range) == if resume_from > 0 {
            Some(range_from(resume_from as nat))
        } else {
            None
        },
{
    DownloadPlan {
        key: trim_start_slashes(path),
        range: if resume_from > 0 {
            Some(join3("bytes=", decimal_text(resume_from).as_str(), "-"))
        } else {
            None
        },
        append: resume_from > 0,
    }
}

/// How an object is moved: it is copied, then the original is deleted.
#[derive(Debug)]
pub struct RenamePlan {
    /// Bucket and key of the original.
    pub copy_source: String,
    pub from_key: String,
    pub to_key: String,
}

/// How the object at `from` is moved to `to`.
pub fn plan_rename(bucket: &str, from: &str, to: &str) -> (r: RenamePlan)
    ensures
        r.from_key@ == trim_start(from@),
        r.to_key@ == trim_start(to@),
        r.copy_source@ == bucket@ + "/"@ + trim_start(from@),
{
    let from_key = trim_start_slashes(from);
    let copy_source = join3(bucket, "/", from_key.as_str());
    RenamePlan { copy_source, from_key, to_key: trim_start_slashes(to) }
}

/// What moving an object consists of.
#[derive(Debug, Clone, Copy, PartialEq, Eq, Structural)]
pub enum RenameStage {
    Copy,
    DropOriginal,
}

/// What to do next.
#[derive(Debug)]
pub enum RenameStep {
    DropOriginal,
    Done,
    Failed(String),
}

/// What a [`RenameStep`] says.
pub enum RenameStepView {
    DropOriginal,
    Done,
    Failed(Seq<char>),
}

impl View for RenameStep {
    type V = RenameStepView;

    open spec fn view(&self) -> RenameStepView {
        match *self {
            RenameStep::DropOriginal => RenameStepView::DropOriginal,
            RenameStep::Done => RenameStepView::Done,
            RenameStep::Failed(m) => RenameStepView::Failed(m@),
        }
    }
}

/// What to do once `stage` was tried.
pub open spec fn rename_after(stage: RenameStage, reply: Result<(), Seq<char>>) -> RenameStepView {
    match (stage, reply) {
        (RenameStage::Copy, Ok(_)) => RenameStepView::DropOriginal,
        (RenameStage::Copy, Err(e)) => RenameStepView::Failed(lead(Failure::Rename) + e),
        (RenameStage::DropOriginal, Ok(_)) => RenameStepView::Done,
        (RenameStage::DropOriginal, Err(e)) => RenameStepView::Failed(
            lead(Failure::DropOriginal) + e,
        ),
    }
}

/// What to do once `stage` was tried.
pub fn rename_step(stage: RenameStage, reply: Result<(), String>) -> (r: RenameStep)
    ensures
        r@ == rename_after(stage, outcome_view(reply)),
{
    match (stage, reply) {
        (RenameStage::Copy, Ok(_)) => RenameStep::DropOriginal,
        (RenameStage::Copy, Err(e)) => RenameStep::Failed(failure(Failure::Rename, e.as_str())),
        (RenameStage::DropOriginal, Ok(_)) => RenameStep::Done,
        (RenameStage::DropOriginal, Err(e)) => RenameStep::Failed(
            failure(Failure::DropOriginal, e.as_str()),
        ),
    }
}

/// The object is deleted at its old place only behind a copy that worked.
pub proof fn law_rename_copies_first(stage: RenameStage, reply: Result<(), Seq<char>>)
    requires
        rename_after(stage, reply) == RenameStepView::DropOriginal,
    ensures
        stage == RenameStage::Copy,
        reply is Ok,
{
}

/// There is another page if and only if storage says that there is more and from
/// where; it is asked for from there.
pub proof fn law_next_page(truncated: Option<bool>, marker: Option<Seq<char>>)
    ensures
        next_page(truncated, marker) is Some <==> truncated == Some(true) && marker is Some,
        next_page(truncated, marker) is Some ==> next_page(truncated, marker) == marker,
{
}

/// What storage counts is taken as it is; what it leaves out, or gives below zero,
/// counts as zero. A time that it leaves out stays out.
pub proof fn law_counts(n: i64)
    ensures
        n >= 0 ==> at_least_zero(n) == n && count_or_zero(Some(n)) == n && time_of(Some(n))
            == Some(n as u64),
        n < 0 ==> at_least_zero(n) == 0 && count_or_zero(Some(n)) == 0 && time_of(Some(n))
            == Some(0u64),
        count_or_zero(None) == 0,
        time_of(None) is None,
{
}

/// The range from a byte on is written as HTTP has it.
pub proof fn law_range_text(n: nat)
    ensures
        range_from(n) == "bytes="@ + decimal(n) + "-"@,
{
}

/// An object is moved by a copy and then the deletion of what was copied; where
/// either fails, the user is told which.
pub proof fn law_rename_steps(e: Seq<char>)
    ensures
        rename_after(RenameStage::Copy, Ok(())) == RenameStepView::DropOriginal,
        rename_after(RenameStage::DropOriginal, Ok(())) == RenameStepView::Done,
        rename_after(RenameStage::Copy, Err(e)) == RenameStepView::Failed(
            "No se pudo renombrar: "@ + e,
        ),
        rename_after(RenameStage::DropOriginal, Err(e)) == RenameStepView::Failed(
            "No se pudo borrar el original: "@ + e,
        ),
{
}

} // verus!
