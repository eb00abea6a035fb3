//! Uploads in S3-compatible storage that are not complete: the parts that have
//! arrived, and the name under which the state of an upload is kept.

use crate::download::name_views;
use crate::local::{first_known, state_base};
use crate::messages::{failure, lead, Failure};
use crate::parts::etag_views;
use crate::s3::{
    clamp_or_zero, clamp_time, count_or_zero, following_page, is_truncated, next_page, time_of,
};
use crate::text::{
    fits_hex, hex16_text, hex_digits, is_lower_hex, join2, law_hex_digits, law_hex_is_lower,
    text_view,
};
use std::collections::hash_map::DefaultHasher;
use std::collections::HashMap;
use std::hash::{Hash, Hasher};
use vstd::prelude::*;
use vstd::std_specs::hash::DefaultHasherAdditionalSpecFns;

verus! {

// ---------------------------------------------------------------------------
// Parts of an upload
// ---------------------------------------------------------------------------

/// A part as storage lists it.
#[derive(Debug)]
pub struct ListedPart {
    pub number: Option<i32>,
    pub etag: Option<String>,
    pub size: Option<i64>,
}

/// A page of the parts of an upload.
#[derive(Debug)]
pub struct PartPage {
    pub parts: Vec<ListedPart>,
    pub truncated: Option<bool>,
    pub marker: Option<String>,
}

/// The number and the tag of a listed part; none where it has no number.
pub open spec fn numbered(p: ListedPart) -> Option<(i32, Seq<char>)> {
    match p.number {
        Some(n) => Some(
            (
                n,
                match p.etag {
                    Some(t) => t@,
                    None => Seq::empty(),
                },
            ),
        ),
        None => None,
    }
}

/// `m` with the numbered parts of `parts` added; a later one replaces an
/// earlier one of the same number.
pub open spec fn with_parts(m: Map<i32, Seq<char>>, parts: Seq<ListedPart>) -> Map<i32, Seq<char>>
    decreases parts.len(),
{
    if parts.len() == 0 {
        m
    } else {
        let front = with_parts(m, parts.drop_last());
        match numbered(parts.last()) {
            Some((n, tag)) => front.insert(n, tag),
            None => front,
        }
    }
}

/// The bytes of listed parts.
pub open spec fn listed_bytes(parts: Seq<ListedPart>) -> int
    decreases parts.len(),
{
    if parts.len() == 0 {
        0
    } else {
        listed_bytes(parts.drop_last()) + count_or_zero(parts.last().size)
    }
}

/// Adds a page to the parts that storage has, and says where the next page
/// begins; `None` where this was the last.
pub fn collect_parts(known: &mut HashMap<i32, String>, page: &PartPage) -> (next: Option<String>)
    ensures
        etag_views(final(known)@) == with_parts(
            etag_views(old(known)@),
            page.parts@,
        ),
        text_view(next) == next_page(page.truncated, text_view(page.marker)),
{
    let ghost base = etag_views(known@);
    let mut i: usize = 0;
    proof {
        assert(page.parts@.take(0) =~= Seq::empty());
    }
    while i < page.parts.len()
        invariant
            i <= page.parts.len(),
            etag_views(known@) == with_parts(base, page.parts@.take(i as int)),
        decreases page.parts.len() - i,
    {
        let ghost before = known@;
        let part = &page.parts[i];
        proof {
            assert(page.parts@.take(i + 1).drop_last() =~= page.parts@.take(i as int));
            assert(page.parts@.take(i + 1).last() == *part);
        }
        match part.number {
            Some(n) => {
                let tag = match &part.etag {
                    Some(t) => t.clone(),
                    None => String::new(),
                };
                let ghost text = tag@;
                known.insert(n, tag);
                proof {
                    assert(etag_views(known@) =~= etag_views(
                        before,
                    ).insert(n, text));
                }
            },
            None => {},
        }
        i = i + 1;
    }
    proof {
        assert(page.parts@.take(page.parts.len() as int) =~= page.parts@);
    }
    following_page(page.truncated, &page.marker)
}

/// What to do next with the parts of an upload that are being listed.
#[derive(Debug)]
pub enum PartsStep {
    /// Ask for the page behind `marker`.
    More { known: HashMap<i32, String>, marker: String },
    Listed(HashMap<i32, String>),
    Failed(String),
}

/// What to do once storage answered with a page of parts: ask for the next, or
/// take what the pages held. Of parts with the same number the last stands.
pub fn list_uploaded_parts(known: HashMap<i32, String>, reply: Result<PartPage, String>) -> (r:
    PartsStep)
    ensures
        match reply {
            Ok(page) => match next_page(page.truncated, text_view(page.marker)) {
                Some(m) => r matches PartsStep::More { known: k, marker } && marker@ == m
                    && etag_views(k@) == with_parts(etag_views(known@), page.parts@),
                None => r matches PartsStep::Listed(k) && etag_views(k@) == with_parts(
                    etag_views(known@),
                    page.parts@,
                ),
            },
            Err(e) => r == PartsStep::Failed(e),
        },
{
    match reply {
        Ok(page) => {
            let mut known = known;
            match collect_parts(&mut known, &page) {
                Some(marker) => PartsStep::More { known, marker },
                None => PartsStep::Listed(known),
            }
        },
        Err(e) => PartsStep::Failed(e),
    }
}

/// How much of an upload has arrived.
#[derive(Debug, Clone, Copy)]
pub struct PartSum {
    pub parts: u32,
    pub bytes: u64,
}

impl PartSum {
    /// Nothing.
    pub fn new() -> (r: PartSum)
        ensures
            r.parts == 0,
            r.bytes == 0,
    {
        PartSum { parts: 0, bytes: 0 }
    }

    /// What has arrived with these parts added.
    pub open spec fn plus(self, parts: Seq<ListedPart>) -> PartSum {
        PartSum {
            parts: (self.parts + parts.len()) as u32,
            bytes: (self.bytes + listed_bytes(parts)) as u64,
        }
    }

    /// Whether adding these parts stays within what the counters can hold.
    pub open spec fn holds(self, parts: Seq<ListedPart>) -> bool {
        &&& self.parts + parts.len() <= u32::MAX
        &&& self.bytes + listed_bytes(parts) <= u64::MAX
    }

    /// Whether adding this page stays within what the counters can hold.
    pub fn can_take(&self, page: &PartPage) -> (r: bool)
        ensures
            r == self.holds(page.parts@),
    {
        if page.parts.len() as u64 > (u32::MAX - self.parts) as u64 {
            return false;
        }
        let mut left: u64 = u64::MAX - self.bytes;
        let mut i: usize = 0;
        proof {
            assert(page.parts@.take(0) =~= Seq::empty());
        }
        while i < page.parts.len()
            invariant
                i <= page.parts.len(),
                self.parts + page.parts@.len() <= u32::MAX,
                left == u64::MAX - self.bytes - listed_bytes(page.parts@.take(i as int)),
            decreases page.parts.len() - i,
        {
            let n: u64 = clamp_or_zero(page.parts[i].size);
            proof {
                assert(page.parts@.take(i + 1).drop_last() =~= page.parts@.take(i as int));
                listed_bytes_monotone(page.parts@, i + 1);
            }
            if n > left {
                return false;
            }
            left = left - n;
            i = i + 1;
        }
        proof {
            assert(page.parts@.take(page.parts.len() as int) =~= page.parts@);
        }
        true
    }

    /// Adds a page and says where the next one begins; `None` where this was
    /// the last.
    pub fn take_page(&mut self, page: &PartPage) -> (next: Option<String>)
        requires
            old(self).holds(page.parts@),
        ensures
            *final(self) == old(self).plus(page.parts@),
            text_view(next) == next_page(page.truncated, text_view(page.marker)),
    {
        let ghost before = *self;
        let mut i: usize = 0;
        proof {
            assert(page.parts@.take(0) =~= Seq::empty());
        }
        while i < page.parts.len()
            invariant
                i <= page.parts.len(),
                before.holds(page.parts@),
                self.parts == before.parts + i,
                self.bytes == before.bytes + listed_bytes(page.parts@.take(i as int)),
            decreases page.parts.len() - i,
        {
            proof {
                assert(page.parts@.take(i + 1).drop_last() =~= page.parts@.take(i as int));
                listed_bytes_monotone(page.parts@, i + 1);
            }
            self.parts = self.parts + 1;
            self.bytes = self.bytes + clamp_or_zero(page.parts[i].size);
            i = i + 1;
        }
        proof {
            assert(page.parts@.take(page.parts.len() as int) =~= page.parts@);
        }
        following_page(page.truncated, &page.marker)
    }
}

proof fn listed_bytes_monotone(parts: Seq<ListedPart>, upto: int)
    requires
        0 <= upto <= parts.len(),
    ensures
        0 <= listed_bytes(parts.take(upto)) <= listed_bytes(parts),
    decreases parts.len(),
{
    if parts.len() > 0 && upto < parts.len() {
        listed_bytes_monotone(parts.drop_last(), upto);
        assert(parts.drop_last().take(upto) =~= parts.take(upto));
    } else {
        assert(parts.take(upto) =~= parts);
        listed_bytes_nonnegative(parts);
    }
}

proof fn listed_bytes_nonnegative(parts: Seq<ListedPart>)
    ensures
        0 <= listed_bytes(parts),
    decreases parts.len(),
{
    if parts.len() > 0 {
        listed_bytes_nonnegative(parts.drop_last());
    }
}

// ---------------------------------------------------------------------------
// Uploads that were never completed
// ---------------------------------------------------------------------------

/// An upload in progress, which does not show in the bucket until it is
/// completed.
#[derive(Debug)]
pub struct IncompleteUpload {
    pub key: String,
    pub upload_id: String,
    pub bytes: u64,
    pub parts: u32,
    pub initiated: Option<u64>,
}

/// What an [`IncompleteUpload`] says.
pub struct IncompleteView {
    pub key: Seq<char>,
    pub upload_id: Seq<char>,
    pub bytes: u64,
    pub parts: u32,
    pub initiated: Option<u64>,
}

impl View for IncompleteUpload {
    type V = IncompleteView;

    open spec fn view(&self) -> IncompleteView {
        IncompleteView {
            key: self.key@,
            upload_id: self.upload_id@,
            bytes: self.bytes,
            parts: self.parts,
            initiated: self.initiated,
        }
    }
}

/// What a list of uploads says.
pub open spec fn incomplete_views(uploads: Seq<IncompleteUpload>) -> Seq<IncompleteView> {
    uploads.map_values(|u: IncompleteUpload| u@)
}

/// A text that may be missing, which then is empty.
pub open spec fn text_or_empty(t: Option<String>) -> Seq<char> {
    match t {
        Some(s) => s@,
        None => Seq::empty(),
    }
}

fn or_empty(t: &Option<String>) -> (r: String)
    ensures
        r@ == text_or_empty(*t),
{
    match t {
        Some(s) => s.clone(),
        None => String::new(),
    }
}

/// An upload in progress as storage lists it.
#[derive(Debug)]
pub struct ListedUpload {
    pub key: Option<String>,
    pub upload_id: Option<String>,
    /// Seconds since the epoch.
    pub initiated: Option<i64>,
}

/// What a [`ListedUpload`] says. What storage leaves out is empty.
pub struct ListedView {
    pub key: Seq<char>,
    pub upload_id: Seq<char>,
    pub initiated: Option<u64>,
}

impl View for ListedUpload {
    type V = ListedView;

    open spec fn view(&self) -> ListedView {
        ListedView {
            key: text_or_empty(self.key),
            upload_id: text_or_empty(self.upload_id),
            initiated: time_of(self.initiated),
        }
    }
}

/// What the uploads of a page say.
pub open spec fn listed_views(uploads: Seq<ListedUpload>) -> Seq<ListedView> {
    uploads.map_values(|u: ListedUpload| u@)
}

impl ListedView {
    /// The upload with what has arrived of it.
    pub open spec fn described(self, sum: PartSum) -> IncompleteView {
        IncompleteView {
            key: self.key,
            upload_id: self.upload_id,
            bytes: sum.bytes,
            parts: sum.parts,
            initiated: self.initiated,
        }
    }
}

impl ListedUpload {
    /// The upload with what has arrived of it.
    pub fn describe(&self, sum: PartSum) -> (r: IncompleteUpload)
        ensures
            r@ == self@.described(sum),
    {
        IncompleteUpload {
            key: or_empty(&self.key),
            upload_id: or_empty(&self.upload_id),
            bytes: sum.bytes,
            parts: sum.parts,
            initiated: clamp_time(self.initiated),
        }
    }
}

/// A page of the uploads in progress.
#[derive(Debug)]
pub struct UploadsPage {
    pub uploads: Vec<ListedUpload>,
    pub truncated: Option<bool>,
    pub next_key: Option<String>,
    pub next_id: Option<String>,
}

/// Where the next page of uploads begins.
#[derive(Debug)]
pub struct UploadMarkers {
    pub key: Option<String>,
    pub id: Option<String>,
}

/// What [`UploadMarkers`] say: a key and an upload.
pub type MarkersView = (Option<Seq<char>>, Option<Seq<char>>);

/// What markers say, where there are any.
pub open spec fn markers_view(m: Option<UploadMarkers>) -> Option<MarkersView> {
    match m {
        Some(m) => Some((text_view(m.key), text_view(m.id))),
        None => None,
    }
}

/// Where the next page of uploads begins: storage said that there is more, and
/// gave at least one of the two markers.
pub open spec fn markers_after(page: UploadsPage) -> Option<MarkersView> {
    if page.truncated == Some(true) && (page.next_key is Some || page.next_id is Some) {
        Some((text_view(page.next_key), text_view(page.next_id)))
    } else {
        None
    }
}

fn following_uploads(page: &UploadsPage) -> (r: Option<UploadMarkers>)
    ensures
        markers_view(r) == markers_after(*page),
{
    if is_truncated(page.truncated) && (page.next_key.is_some() || page.next_id.is_some()) {
        Some(
            UploadMarkers {
                key: following_page(page.truncated, &page.next_key),
                id: following_page(page.truncated, &page.next_id),
            },
        )
    } else {
        None
    }
}

/// What to ask storage for.
#[derive(Debug)]
pub enum UploadsRequest {
    /// A page of the uploads in progress.
    Uploads { key_marker: Option<String>, id_marker: Option<String> },
    /// A page of the parts of an upload.
    Parts { key: String, upload_id: String, marker: Option<String> },
}

/// What an [`UploadsRequest`] says.
pub enum RequestView {
    Uploads { key_marker: Option<Seq<char>>, id_marker: Option<Seq<char>> },
    Parts { key: Seq<char>, upload_id: Seq<char>, marker: Option<Seq<char>> },
}

impl View for UploadsRequest {
    type V = RequestView;

    open spec fn view(&self) -> RequestView {
        match *self {
            UploadsRequest::Uploads { key_marker, id_marker } => RequestView::Uploads {
                key_marker: text_view(key_marker),
                id_marker: text_view(id_marker),
            },
            UploadsRequest::Parts { key, upload_id, marker } => RequestView::Parts {
                key: key@,
                upload_id: upload_id@,
                marker: text_view(marker),
            },
        }
    }
}

/// What storage answered.
#[derive(Debug)]
pub enum UploadsReply {
    Uploads(Result<UploadsPage, String>),
    /// A page of parts; `None` where storage would not list them.
    Parts(Option<PartPage>),
}

/// The uploads in progress that are being listed, each with the parts that have
/// arrived.
#[derive(Debug)]
pub struct UploadsListing {
    found: Vec<IncompleteUpload>,
    /// The uploads of the page that are not done, the next one last.
    waiting: Vec<ListedUpload>,
    /// What has arrived of the upload whose turn it is.
    sum: PartSum,
    next: Option<UploadMarkers>,
    /// Whether storage was asked for parts.
    counting: bool,
}

/// Where an [`UploadsListing`] stands.
pub struct UploadsView {
    pub found: Seq<IncompleteView>,
    /// The uploads of the page that are not done.
    pub rest: Seq<ListedView>,
    pub sum: PartSum,
    pub next: Option<MarkersView>,
    pub counting: bool,
}

impl View for UploadsListing {
    type V = UploadsView;

    closed spec fn view(&self) -> UploadsView {
        UploadsView {
            found: incomplete_views(self.found@),
            rest: listed_views(self.waiting@.reverse()),
            sum: self.sum,
            next: markers_view(self.next),
            counting: self.counting,
        }
    }
}

/// What to do next.
#[derive(Debug)]
pub enum UploadsStep {
    Ask { listing: UploadsListing, request: UploadsRequest },
    End(Result<Vec<IncompleteUpload>, String>),
}

/// What an [`UploadsStep`] says.
pub enum UploadsStepView {
    Ask { listing: UploadsView, request: RequestView },
    End(Result<Seq<IncompleteView>, Seq<char>>),
}

impl View for UploadsStep {
    type V = UploadsStepView;

    open spec fn view(&self) -> UploadsStepView {
        match *self {
            UploadsStep::Ask { listing, request } => UploadsStepView::Ask {
                listing: listing@,
                request: request@,
            },
            UploadsStep::End(r) => UploadsStepView::End(
                match r {
                    Ok(found) => Ok(incomplete_views(found@)),
                    Err(e) => Err(e@),
                },
            ),
        }
    }
}

impl UploadsView {
    /// Nothing has been found, and storage was asked for the first page.
    pub open spec fn begun() -> UploadsView {
        UploadsView {
            found: Seq::empty(),
            rest: Seq::empty(),
            sum: PartSum { parts: 0, bytes: 0 },
            next: None,
            counting: false,
        }
    }

    /// The next upload of the page has its turn; behind the last, the next
    /// page; behind the last page, that was all.
    pub open spec fn proceeding(self) -> UploadsStepView {
        if self.rest.len() > 0 {
            UploadsStepView::Ask {
                listing: UploadsView {
                    sum: PartSum { parts: 0, bytes: 0 },
                    counting: true,
                    ..self
                },
                request: RequestView::Parts {
                    key: self.rest[0].key,
                    upload_id: self.rest[0].upload_id,
                    marker: None,
                },
            }
        } else {
            match self.next {
                Some((key_marker, id_marker)) => UploadsStepView::Ask {
                    listing: UploadsView { next: None, counting: false, ..self },
                    request: RequestView::Uploads { key_marker, id_marker },
                },
                None => UploadsStepView::End(Ok(self.found)),
            }
        }
    }

    /// The upload whose turn it is is done, with what has been counted of it.
    pub open spec fn counted(self) -> UploadsView {
        UploadsView {
            found: self.found.push(self.rest[0].described(self.sum)),
            rest: self.rest.skip(1),
            ..self
        }
    }

    /// Whether the reply is to what storage was asked. What it adds must fit
    /// into the counters.
    pub open spec fn expects(self, reply: UploadsReply) -> bool {
        match reply {
            UploadsReply::Uploads(_) => !self.counting,
            UploadsReply::Parts(None) => self.counting && self.rest.len() > 0,
            UploadsReply::Parts(Some(page)) => self.counting && self.rest.len() > 0
                && self.sum.holds(page.parts@),
        }
    }

    /// What to do once storage answered. Where it would not list the parts of
    /// an upload, what has been counted of it stands.
    pub open spec fn after(self, reply: UploadsReply) -> UploadsStepView {
        match reply {
            UploadsReply::Uploads(Ok(page)) => UploadsView {
                rest: listed_views(page.uploads@),
                next: markers_after(page),
                ..self
            }.proceeding(),
            UploadsReply::Uploads(Err(e)) => UploadsStepView::End(
                Err(lead(Failure::ListUploads) + e@),
            ),
            UploadsReply::Parts(None) => self.counted().proceeding(),
            UploadsReply::Parts(Some(page)) => {
                let v = UploadsView { sum: self.sum.plus(page.parts@), ..self };
                match next_page(page.truncated, text_view(page.marker)) {
                    Some(marker) => UploadsStepView::Ask {
                        listing: v,
                        request: RequestView::Parts {
                            key: self.rest[0].key,
                            upload_id: self.rest[0].upload_id,
                            marker: Some(marker),
                        },
                    },
                    None => v.counted().proceeding(),
                }
            },
        }
    }
}

/// A page of uploads the other way round.
fn turned(uploads: Vec<ListedUpload>) -> (r: Vec<ListedUpload>)
    ensures
        r@ == uploads@.reverse(),
{
    let ghost given = uploads@;
    let mut left = uploads;
    let mut r: Vec<ListedUpload> = Vec::new();
    while left.len() > 0
        invariant
            left.len() + r.len() == given.len(),
            left@ == given.take(left.len() as int),
            r@ == given.reverse().take(r.len() as int),
        decreases left.len(),
    {
        let ghost n = left.len() - 1;
        let u = left.pop().unwrap();
        r.push(u);
        proof {
            assert(given.take(n + 1).drop_last() =~= given.take(n));
            assert(given.reverse()[r.len() - 1] == given[n]);
            assert(r@ =~= given.reverse().take(r.len() as int));
        }
    }
    proof {
        assert(r@ =~= given.reverse());
    }
    r
}

impl UploadsListing {
    /// Begins with the first page.
    pub fn start() -> (r: (UploadsListing, UploadsRequest))
        ensures
            r.0@ == UploadsView::begun(),
            r.1@ == (RequestView::Uploads { key_marker: None, id_marker: None }),
    {
        let listing = UploadsListing {
            found: Vec::new(),
            waiting: Vec::new(),
            sum: PartSum::new(),
            next: None,
            counting: false,
        };
        proof {
            assert(listing@.found =~= Seq::empty());
            assert(listing@.rest =~= Seq::empty());
        }
        (listing, UploadsRequest::Uploads { key_marker: None, id_marker: None })
    }

    /// Whether the reply is to what storage was asked, and fits into the
    /// counters.
    pub fn accepts(&self, reply: &UploadsReply) -> (r: bool)
        ensures
            r == self@.expects(*reply),
    {
        match reply {
            UploadsReply::Uploads(_) => !self.counting,
            UploadsReply::Parts(None) => self.counting && self.waiting.len() > 0,
            UploadsReply::Parts(Some(page)) => self.counting && self.waiting.len() > 0
                && self.sum.can_take(page),
        }
    }

    fn ask_parts(&self, marker: Option<String>) -> (r: UploadsRequest)
        requires
            self@.rest.len() > 0,
        ensures
            r@ == (RequestView::Parts {
                key: self@.rest[0].key,
                upload_id: self@.rest[0].upload_id,
                marker: text_view(marker),
            }),
    {
        let upload = &self.waiting[self.waiting.len() - 1];
        UploadsRequest::Parts {
            key: or_empty(&upload.key),
            upload_id: or_empty(&upload.upload_id),
            marker,
        }
    }

    fn proceed(self) -> (r: UploadsStep)
        ensures
            r@ == self@.proceeding(),
    {
        let mut listing = self;
        if listing.waiting.len() > 0 {
            listing.sum = PartSum::new();
            listing.counting = true;
            let request = listing.ask_parts(None);
            UploadsStep::Ask { listing, request }
        } else {
            listing.counting = false;
            match listing.next.take() {
                Some(m) => UploadsStep::Ask {
                    listing,
                    request: UploadsRequest::Uploads { key_marker: m.key, id_marker: m.id },
                },
                None => UploadsStep::End(Ok(listing.found)),
            }
        }
    }

    fn count(self) -> (r: UploadsStep)
        requires
            self@.rest.len() > 0,
        ensures
            r@ == self@.counted().proceeding(),
    {
        let mut listing = self;
        let ghost before = listing@;
        let done = listing.waiting.pop().unwrap().describe(listing.sum);
        let ghost added = done@;
        listing.found.push(done);
        proof {
            assert(listing@.found =~= before.found.push(added));
            assert(listing@.rest =~= before.rest.skip(1));
        }
        listing.proceed()
    }

    /// Says what to do once storage answered.
    pub fn step(self, reply: UploadsReply) -> (r: UploadsStep)
        requires
            self@.expects(reply),
        ensures
            r@ == self@.after(reply),
    {
        match reply {
            UploadsReply::Uploads(Ok(page)) => {
                let mut listing = self;
                let ghost uploads = page.uploads@;
                listing.next = following_uploads(&page);
                listing.waiting = turned(page.uploads);
                proof {
                    assert(listing@.rest =~= listed_views(uploads));
                }
                listing.proceed()
            },
            UploadsReply::Uploads(Err(e)) => UploadsStep::End(
                Err(failure(Failure::ListUploads, e.as_str())),
            ),
            UploadsReply::Parts(None) => self.count(),
            UploadsReply::Parts(Some(page)) => {
                let mut listing = self;
                match listing.sum.take_page(&page) {
                    Some(marker) => {
                        let request = listing.ask_parts(Some(marker));
                        UploadsStep::Ask { listing, request }
                    },
                    None => listing.count(),
                }
            },
        }
    }
}

// ---------------------------------------------------------------------------
// What holds of every listing of uploads
// ---------------------------------------------------------------------------

/// What is done once storage has answered like this.
pub open spec fn uploads_after(step: UploadsStepView, replies: Seq<UploadsReply>) -> UploadsStepView
    decreases replies.len(),
{
    if replies.len() == 0 {
        step
    } else {
        match uploads_after(step, replies.drop_last()) {
            UploadsStepView::Ask { listing, .. } => listing.after(replies.last()),
            ended => ended,
        }
    }
}

/// Whether each reply came when storage had been asked for it.
pub open spec fn uploads_legal(step: UploadsStepView, replies: Seq<UploadsReply>) -> bool
    decreases replies.len(),
{
    replies.len() == 0 || {
        &&& uploads_legal(step, replies.drop_last())
        &&& uploads_after(step, replies.drop_last()) matches UploadsStepView::Ask { listing, .. }
        &&& listing.expects(replies.last())
    }
}

/// The uploads that storage listed, page by page.
pub open spec fn uploads_listed(replies: Seq<UploadsReply>) -> Seq<ListedView>
    decreases replies.len(),
{
    if replies.len() == 0 {
        Seq::empty()
    } else {
        uploads_listed(replies.drop_last()) + match replies.last() {
            UploadsReply::Uploads(Ok(page)) => listed_views(page.uploads@),
            _ => Seq::empty(),
        }
    }
}

/// An upload without what has arrived of it.
pub open spec fn as_listed(u: IncompleteView) -> ListedView {
    ListedView { key: u.key, upload_id: u.upload_id, initiated: u.initiated }
}

/// Uploads without what has arrived of them.
pub open spec fn all_as_listed(uploads: Seq<IncompleteView>) -> Seq<ListedView> {
    uploads.map_values(|u: IncompleteView| as_listed(u))
}

/// The first thing that a listing of uploads does.
pub open spec fn uploads_begun() -> UploadsStepView {
    UploadsStepView::Ask {
        listing: UploadsView::begun(),
        request: RequestView::Uploads { key_marker: None, id_marker: None },
    }
}

/// Whether a step holds, found or waiting, just these uploads.
pub open spec fn accounts_for(step: UploadsStepView, listed: Seq<ListedView>) -> bool {
    match step {
        UploadsStepView::Ask { listing, .. } => {
            &&& all_as_listed(listing.found) + listing.rest == listed
            &&& !listing.counting ==> listing.rest.len() == 0
        },
        UploadsStepView::End(Ok(found)) => all_as_listed(found) == listed,
        UploadsStepView::End(Err(_)) => true,
    }
}

proof fn proceeding_accounts(v: UploadsView, listed: Seq<ListedView>)
    requires
        all_as_listed(v.found) + v.rest == listed,
    ensures
        accounts_for(v.proceeding(), listed),
{
    if v.rest.len() == 0 {
        assert(all_as_listed(v.found) + v.rest =~= all_as_listed(v.found));
    }
}

proof fn counted_accounts(v: UploadsView)
    requires
        v.rest.len() > 0,
    ensures
        all_as_listed(v.counted().found) + v.counted().rest == all_as_listed(v.found) + v.rest,
{
    assert(as_listed(v.rest[0].described(v.sum)) == v.rest[0]);
    assert(all_as_listed(v.counted().found) =~= all_as_listed(v.found).push(v.rest[0]));
    assert(all_as_listed(v.counted().found) + v.counted().rest =~= all_as_listed(v.found) + v.rest);
}

/// Every upload that storage lists is found, once and in order, whatever became
/// of counting its parts.
pub proof fn law_uploads_all_found(replies: Seq<UploadsReply>)
    requires
        uploads_legal(uploads_begun(), replies),
    ensures
        accounts_for(uploads_after(uploads_begun(), replies), uploads_listed(replies)),
    decreases replies.len(),
{
    if replies.len() == 0 {
        assert(all_as_listed(Seq::empty()) + Seq::<ListedView>::empty() =~= Seq::empty());
    } else {
        let front = replies.drop_last();
        law_uploads_all_found(front);
        let listed = uploads_listed(front);
        if let UploadsStepView::Ask { listing, .. } = uploads_after(uploads_begun(), front) {
            match replies.last() {
                UploadsReply::Uploads(Ok(page)) => {
                    let v = UploadsView {
                        rest: listed_views(page.uploads@),
                        next: markers_after(page),
                        ..listing
                    };
                    assert(all_as_listed(listing.found) + listing.rest =~= all_as_listed(
                        listing.found,
                    ));
                    proceeding_accounts(v, listed + listed_views(page.uploads@));
                },
                UploadsReply::Uploads(Err(_)) => {},
                UploadsReply::Parts(None) => {
                    counted_accounts(listing);
                    proceeding_accounts(listing.counted(), listed);
                    assert(listed + Seq::empty() =~= listed);
                },
                UploadsReply::Parts(Some(page)) => {
                    let v = UploadsView { sum: listing.sum.plus(page.parts@), ..listing };
                    counted_accounts(v);
                    proceeding_accounts(v.counted(), listed);
                    assert(listed + Seq::empty() =~= listed);
                },
            }
        }
    }
}

// ---------------------------------------------------------------------------
// Giving uploads up
// ---------------------------------------------------------------------------

/// What to do once storage was asked to give an upload up.
#[derive(Debug)]
pub enum AbortStep {
    /// Remove what was saved of the upload; then it is done.
    Forget,
    Failed(String),
}

/// What to do once storage was asked to give an upload up: what was saved of it
/// is removed only where storage did.
pub fn abort_step(reply: Result<(), String>) -> (r: AbortStep)
    ensures
        match reply {
            Ok(_) => r == AbortStep::Forget,
            Err(e) => r matches AbortStep::Failed(m) && m@ == lead(Failure::AbortUpload) + e@,
        },
{
    match reply {
        Ok(_) => AbortStep::Forget,
        Err(e) => AbortStep::Failed(failure(Failure::AbortUpload, e.as_str())),
    }
}

/// How many of these went well.
pub open spec fn successes(replies: Seq<bool>) -> nat
    decreases replies.len(),
{
    if replies.len() == 0 {
        0
    } else {
        successes(replies.drop_last()) + if replies.last() {
            1nat
        } else {
            0
        }
    }
}

/// At most all went well, and all did if and only if none failed.
pub proof fn law_successes(replies: Seq<bool>)
    ensures
        successes(replies) <= replies.len(),
        successes(replies) == replies.len() <==> forall|i: int|
            0 <= i < replies.len() ==> #[trigger] replies[i],
    decreases replies.len(),
{
    if replies.len() > 0 {
        let front = replies.drop_last();
        law_successes(front);
        if successes(replies) == replies.len() {
            assert forall|i: int| 0 <= i < replies.len() implies #[trigger] replies[i] by {
                if i < front.len() {
                    assert(front[i]);
                }
            }
        }
        if forall|i: int| 0 <= i < replies.len() ==> #[trigger] replies[i] {
            assert(replies[replies.len() - 1]);
            assert forall|i: int| 0 <= i < front.len() implies #[trigger] front[i] by {
                assert(replies[i]);
            }
        }
    }
}

/// How many uploads were given up, of all that it was tried with.
fn count_aborted(replies: &Vec<bool>) -> (n: usize)
    ensures
        n == successes(replies@),
        n <= replies.len(),
{
    let mut n: usize = 0;
    let mut i: usize = 0;
    proof {
        assert(replies@.take(0) =~= Seq::empty());
    }
    while i < replies.len()
        invariant
            i <= replies.len(),
            n <= i,
            n == successes(replies@.take(i as int)),
        decreases replies.len() - i,
    {
        proof {
            assert(replies@.take(i + 1).drop_last() =~= replies@.take(i as int));
        }
        if replies[i] {
            n = n + 1;
        }
        i = i + 1;
    }
    proof {
        assert(replies@.take(replies.len() as int) =~= replies@);
    }
    n
}

/// What to do next where all uploads in progress are given up.
#[derive(Debug)]
pub enum AbortAllStep {
    /// Try to give this upload up.
    Try { key: String, upload_id: String },
    /// Nothing more: so many were given up, or why none was tried.
    End(Result<usize, String>),
}

/// What an [`AbortAllStep`] says.
pub enum AbortAllView {
    Try { key: Seq<char>, upload_id: Seq<char> },
    End(Result<nat, Seq<char>>),
}

impl View for AbortAllStep {
    type V = AbortAllView;

    open spec fn view(&self) -> AbortAllView {
        match *self {
            AbortAllStep::Try { key, upload_id } => AbortAllView::Try {
                key: key@,
                upload_id: upload_id@,
            },
            AbortAllStep::End(Ok(n)) => AbortAllView::End(Ok(n as nat)),
            AbortAllStep::End(Err(e)) => AbortAllView::End(Err(e@)),
        }
    }
}

/// What a listing of uploads in progress says.
pub open spec fn listing_view(
    listed: Result<Vec<IncompleteUpload>, String>,
) -> Result<Seq<IncompleteView>, Seq<char>> {
    match listed {
        Ok(uploads) => Ok(incomplete_views(uploads@)),
        Err(e) => Err(e@),
    }
}

/// What to do next, once as many tries as `replies` went like this: each upload
/// is tried in its turn, however the others went; then those that were given up
/// are counted.
pub open spec fn abort_all_next(
    listed: Result<Seq<IncompleteView>, Seq<char>>,
    replies: Seq<bool>,
) -> AbortAllView {
    match listed {
        Ok(uploads) => if replies.len() < uploads.len() {
            let u = uploads[replies.len() as int];
            AbortAllView::Try { key: u.key, upload_id: u.upload_id }
        } else {
            AbortAllView::End(Ok(successes(replies)))
        },
        Err(e) => AbortAllView::End(Err(e)),
    }
}

/// Gives all uploads in progress up: says what to do next, from what is listed
/// and whether each try so far went well.
pub fn abort_all(
    listed: &Result<Vec<IncompleteUpload>, String>,
    replies: &Vec<bool>,
) -> (r: AbortAllStep)
    ensures
        r@ == abort_all_next(listing_view(*listed), replies@),
{
    match listed {
        Ok(uploads) => if replies.len() < uploads.len() {
            let u = &uploads[replies.len()];
            AbortAllStep::Try { key: u.key.clone(), upload_id: u.upload_id.clone() }
        } else {
            AbortAllStep::End(Ok(count_aborted(replies)))
        },
        Err(e) => AbortAllStep::End(Err(e.clone())),
    }
}

/// Storage: whether the last of these tries to give an upload up went well.
pub type Aborts = spec_fn(Seq<(Seq<char>, Seq<char>)>) -> bool;

/// What is tried, and how it ends, in at most `tries` more tries.
pub open spec fn abort_all_carried_out(
    storage: Aborts,
    listed: Result<Seq<IncompleteView>, Seq<char>>,
    tried: Seq<(Seq<char>, Seq<char>)>,
    replies: Seq<bool>,
    tries: nat,
) -> Option<(Seq<(Seq<char>, Seq<char>)>, Result<nat, Seq<char>>)>
    decreases tries,
{
    match abort_all_next(listed, replies) {
        AbortAllView::End(r) => Some((tried, r)),
        AbortAllView::Try { key, upload_id } => if tries == 0 {
            None
        } else {
            let now = tried.push((key, upload_id));
            abort_all_carried_out(
                storage,
                listed,
                now,
                replies.push(storage(now)),
                (tries - 1) as nat,
            )
        },
    }
}

/// The keys of uploads, each with its upload's identifier.
pub open spec fn named_uploads(uploads: Seq<IncompleteView>) -> Seq<(Seq<char>, Seq<char>)> {
    uploads.map_values(|u: IncompleteView| (u.key, u.upload_id))
}

/// How the tries with these uploads go, each once and in order.
pub open spec fn abort_answers(storage: Aborts, names: Seq<(Seq<char>, Seq<char>)>) -> Seq<bool> {
    Seq::new(names.len(), |i: int| storage(names.take(i + 1)))
}

proof fn abort_all_from(storage: Aborts, uploads: Seq<IncompleteView>, k: nat)
    requires
        k <= uploads.len(),
    ensures
        abort_all_carried_out(
            storage,
            Ok(uploads),
            named_uploads(uploads).take(k as int),
            abort_answers(storage, named_uploads(uploads)).take(k as int),
            (uploads.len() - k) as nat,
        ) == Some(
            (
                named_uploads(uploads),
                Ok::<nat, Seq<char>>(
                    successes(abort_answers(storage, named_uploads(uploads))),
                ),
            ),
        ),
    decreases uploads.len() - k,
{
    let names = named_uploads(uploads);
    let answers = abort_answers(storage, names);
    if k == uploads.len() {
        assert(names.take(k as int) =~= names);
        assert(answers.take(k as int) =~= answers);
    } else {
        abort_all_from(storage, uploads, k + 1);
        assert(names.take(k as int + 1) =~= names.take(k as int).push(names[k as int]));
        assert(answers.take(k as int + 1) =~= answers.take(k as int).push(answers[k as int]));
    }
}

/// Each upload that is listed is tried exactly once, in order, and one that
/// fails does not stop the rest; the answer is how many were given up.
pub proof fn law_abort_all(storage: Aborts, uploads: Seq<IncompleteView>)
    ensures
        abort_all_carried_out(
            storage,
            Ok(uploads),
            Seq::empty(),
            Seq::empty(),
            uploads.len(),
        ) == Some(
            (
                named_uploads(uploads),
                Ok::<nat, Seq<char>>(
                    successes(abort_answers(storage, named_uploads(uploads))),
                ),
            ),
        ),
{
    let names = named_uploads(uploads);
    abort_all_from(storage, uploads, 0);
    assert(names.take(0) =~= Seq::empty());
    assert(abort_answers(storage, names).take(0) =~= Seq::empty());
}

/// Where the uploads cannot be listed, that is the answer, and none is tried.
pub proof fn law_abort_all_unlisted(storage: Aborts, e: Seq<char>)
    ensures
        abort_all_carried_out(storage, Err(e), Seq::empty(), Seq::empty(), 0) == Some(
            (Seq::<(Seq<char>, Seq<char>)>::empty(), Err::<nat, Seq<char>>(e)),
        ),
{
}

// ---------------------------------------------------------------------------
// The name under which the state of an upload is kept
// ---------------------------------------------------------------------------

/// What hashing a text writes into a hasher.
pub uninterp spec fn hash_writes(s: Seq<char>) -> Seq<Seq<u8>>;

/// Calls `str::hash` on a `DefaultHasher`: the text is written behind what the
/// hasher has taken in. What is written depends on the text alone; its bytes
/// are not spelled out here.
#[verifier::external_body]
fn hash_text(state: &mut DefaultHasher, s: &str)
    ensures
        final(state)@ == old(state)@ + hash_writes(s@),
{
    s.hash(state)
}

/// The name of the file that keeps the state of an upload: the hash of bucket
/// and key in hexadecimal.
pub open spec fn state_name(bucket: Seq<char>, key: Seq<char>) -> Seq<char> {
    hex_digits(
        DefaultHasher::spec_finish(hash_writes(bucket) + hash_writes(key)) as nat,
        16,
    ) + ".json"@
}

/// The name of the file that keeps the state of an upload.
pub fn upload_state_name(bucket: &str, key: &str) -> (r: String)
    ensures
        r@ == state_name(bucket@, key@),
{
    let mut state = DefaultHasher::new();
    hash_text(&mut state, bucket);
    hash_text(&mut state, key);
    proof {
        assert(Seq::<Seq<u8>>::empty() + hash_writes(bucket@) + hash_writes(key@) =~= hash_writes(
            bucket@,
        ) + hash_writes(key@));
    }
    state_file_name(state.finish())
}

/// The name of the file for a hash.
pub fn state_file_name(hash: u64) -> (r: String)
    ensures
        r@ == hex_digits(hash as nat, 16) + ".json"@,
{
    join2(hex16_text(hash).as_str(), ".json")
}

/// Where the state of an upload is kept.
#[derive(Debug)]
pub struct StatePath<T> {
    pub base: T,
    /// The folders below the base, one in the other.
    pub folders: Vec<String>,
    pub file: String,
}

/// What a [`StatePath`] says: the base and the names that lead from it to the
/// file.
pub type StatePathView<T> = (T, Seq<Seq<char>>);

/// What is said of where the state is kept, if it is kept.
pub open spec fn state_path_view<T>(p: Option<StatePath<T>>) -> Option<StatePathView<T>> {
    match p {
        Some(p) => Some((p.base, name_views(p.folders@).push(p.file@))),
        None => None,
    }
}

/// Where the state of an upload is kept: in a folder of this program with the
/// data of applications, or else in the home folder; nowhere where there is
/// neither.
pub open spec fn state_path<T>(
    app_data: Option<T>,
    home: Option<T>,
    bucket: Seq<char>,
    key: Seq<char>,
) -> Option<StatePathView<T>> {
    match first_known(app_data, home) {
        Some(base) => Some((base, seq!["CarryBox"@, "uploads"@, state_name(bucket, key)])),
        None => None,
    }
}

/// Where the state of an upload is kept.
pub fn upload_state_path<T>(
    app_data: Option<T>,
    home: Option<T>,
    bucket: &str,
    key: &str,
) -> (r: Option<StatePath<T>>)
    ensures
        state_path_view(r) == state_path(app_data, home, bucket@, key@),
{
    match state_base(app_data, home) {
        Some(base) => {
            let mut folders: Vec<String> = Vec::new();
            folders.push("CarryBox".to_owned());
            folders.push("uploads".to_owned());
            let file = upload_state_name(bucket, key);
            proof {
                assert(name_views(folders@).push(file@) =~= seq![
                    "CarryBox"@,
                    "uploads"@,
                    state_name(bucket@, key@),
                ]);
            }
            Some(StatePath { base, folders, file })
        },
        None => None,
    }
}

/// The state of an upload is kept unless there is neither a place for the data
/// of applications nor a home folder; the former comes first. Below it stand
/// the two folders, and in them a file of sixteen lower-case hexadecimal digits
/// that ends in `.json`. Where bucket, key and both places are the same, so is
/// the file.
pub proof fn law_state_path<T>(
    app_data: Option<T>,
    home: Option<T>,
    bucket: Seq<char>,
    key: Seq<char>,
)
    ensures
        state_path(app_data, home, bucket, key) is None <==> app_data is None && home is None,
        state_path(app_data, home, bucket, key) matches Some((base, names)) ==> {
            &&& base == if app_data is Some {
                app_data->0
            } else {
                home->0
            }
            &&& names.len() == 3
            &&& names[0] == "CarryBox"@
            &&& names[1] == "uploads"@
            &&& names[2].len() == 21
            &&& names[2].skip(16) == ".json"@
            &&& forall|i: int| 0 <= i < 16 ==> is_lower_hex(#[trigger] names[2][i])
        },
{
    reveal_strlit(".json");
    let hash = DefaultHasher::spec_finish(hash_writes(bucket) + hash_writes(key)) as nat;
    let digits = hex_digits(hash, 16);
    law_hex_digits(hash, hash, 16);
    law_hex_is_lower(hash, 16);
    let file = state_name(bucket, key);
    assert(file.skip(16) =~= ".json"@);
    assert forall|i: int| 0 <= i < 16 implies is_lower_hex(#[trigger] file[i]) by {
        assert(file[i] == digits[i]);
    }
}

/// The name of the file has sixteen digits and an ending, and different hashes
/// give different names.
pub proof fn law_state_file_names(a: u64, b: u64)
    ensures
        (hex_digits(a as nat, 16) + ".json"@).len() == 21,
        hex_digits(a as nat, 16) + ".json"@ == hex_digits(b as nat, 16) + ".json"@ ==> a == b,
{
    reveal_strlit(".json");
    law_hex_digits(a as nat, b as nat, 16);
    law_hex_digits(b as nat, a as nat, 16);
    u64_fits_hex(a);
    u64_fits_hex(b);
    let x = hex_digits(a as nat, 16);
    let y = hex_digits(b as nat, 16);
    if x + ".json"@ == y + ".json"@ {
        assert((x + ".json"@).take(16) =~= x);
        assert((y + ".json"@).take(16) =~= y);
    }
}

proof fn u64_fits_hex(n: u64)
    ensures
        fits_hex(n as nat, 16),
{
    reveal_with_fuel(fits_hex, 17);
}

} // verus!
