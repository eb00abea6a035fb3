//! A multipart upload, from looking for one to resume to checking what
//! arrived.
//!
//! [`UploadRun::step`] takes what just happened and says what to do next. The
//! caller reads the file, talks to storage and keeps the saved state on disk.

use crate::parts::{
    ascending, bytes_held, completed_views, etag_views, law_held_part_adds, law_held_within_file,
    law_part_count, law_part_size, law_part_within, missing_spans, part_begins, part_count,
    part_count_for, part_len, part_offset, part_size_for, part_size_of, span_of, CompletedPart,
    PartSpan, DIRECT_LIMIT,
};
use crate::text::{
    decimal, decimal_text, join2, join3, outcome_view, signed_decimal, signed_decimal_text,
    text_view,
};
use crate::upload_laws::law_step_keeps_count;
use std::collections::HashMap;
use vstd::prelude::*;

verus! {

/// How many parts are sent at a time.
pub const CONCURRENCY: usize = 8;

/// How many parts are read ahead of those that are being sent.
pub const READ_AHEAD: usize = 4;

/// What is kept of an upload in progress so that it can be resumed.
#[derive(Debug)]
pub struct UploadState {
    pub bucket: String,
    pub key: String,
    pub upload_id: String,
    pub file_size: u64,
    pub mtime_secs: u64,
    pub part_size: u64,
}

/// What an [`UploadState`] says.
pub struct StateView {
    pub bucket: Seq<char>,
    pub key: Seq<char>,
    pub upload_id: Seq<char>,
    pub file_size: u64,
    pub mtime_secs: u64,
    pub part_size: u64,
}

impl View for UploadState {
    type V = StateView;

    open spec fn view(&self) -> StateView {
        StateView {
            bucket: self.bucket@,
            key: self.key@,
            upload_id: self.upload_id@,
            file_size: self.file_size,
            mtime_secs: self.mtime_secs,
            part_size: self.part_size,
        }
    }
}

/// The file to send and where it goes.
#[derive(Debug)]
pub struct UploadPlan {
    pub bucket: String,
    pub key: String,
    pub size: u64,
    pub mtime: u64,
}

/// What an [`UploadPlan`] says.
pub struct PlanView {
    pub bucket: Seq<char>,
    pub key: Seq<char>,
    pub size: u64,
    pub mtime: u64,
}

impl View for UploadPlan {
    type V = PlanView;

    open spec fn view(&self) -> PlanView {
        PlanView { bucket: self.bucket@, key: self.key@, size: self.size, mtime: self.mtime }
    }
}

impl PlanView {
    /// The size of the parts that the file is cut into.
    pub open spec fn part_size(self) -> nat {
        part_size_of(self.size as nat)
    }

    /// How many parts the file is cut into.
    pub open spec fn count(self) -> nat {
        part_count(self.size as nat, self.part_size())
    }

    /// The bytes of those parts of the file that `held` names.
    pub open spec fn bytes(self, held: Set<i32>) -> int {
        bytes_held(held, self.size as nat, self.part_size(), self.count())
    }

    /// The parts of the file that `held` does not name.
    pub open spec fn missing(self, held: Set<i32>) -> Seq<PartSpan> {
        missing_spans(held, self.size as nat, self.part_size(), self.count())
    }

    /// Whether every part that `parts` names begins within the file or at its
    /// end.
    pub open spec fn owns(self, parts: Map<i32, Seq<char>>) -> bool {
        forall|n: i32| #[trigger]
            parts.contains_key(n) ==> part_begins(self.size as nat, self.part_size(), n as int)
    }

    /// What is saved of an upload of this file.
    pub open spec fn saved(self, upload_id: Seq<char>) -> StateView {
        StateView {
            bucket: self.bucket,
            key: self.key,
            upload_id,
            file_size: self.size,
            mtime_secs: self.mtime,
            part_size: self.part_size() as u64,
        }
    }

    /// The upload to resume: that of a saved state which speaks of the same
    /// object and of the same, unchanged file, cut in the same way.
    pub open spec fn resumable(self, saved: Option<StateView>) -> Option<Seq<char>> {
        match saved {
            Some(st) => if st == self.saved(st.upload_id) {
                Some(st.upload_id)
            } else {
                None
            },
            None => None,
        }
    }
}

/// Whether a file of `size` bytes goes up in one request.
pub fn sent_whole(size: u64) -> (r: bool)
    ensures
        r == (size <= DIRECT_LIMIT),
{
    size <= DIRECT_LIMIT
}

/// Where an upload stands.
#[derive(Debug, Clone, Copy, PartialEq, Eq, Structural)]
pub enum UploadPhase {
    /// Storage was asked which parts of a saved upload it still has.
    Confirming,
    /// A new upload was asked for.
    Creating,
    /// The state of the new upload is being saved.
    Saving,
    /// It is known what is to be sent; whether to go on was asked.
    Starting,
    /// The next part is being read.
    Sending,
    /// A part was read; the replies that came meanwhile are being taken.
    Settling,
    /// Whether to go on was asked before a part is sent.
    Asking,
    /// Nothing more is read; parts in flight are awaited.
    Draining,
    /// One of the last parts has arrived; whether to go on was asked.
    Reporting,
    /// The upload is being given up.
    Aborting,
    /// The saved state of an upload that was given up is being removed.
    ForgettingCancelled,
    /// Storage was asked to put the parts together.
    Completing,
    /// Storage was asked how large the object is.
    Measuring,
    /// The saved state of a checked upload is being removed.
    ForgettingDone,
    /// The upload is over.
    Finished,
}

/// What just happened.
#[derive(Debug)]
pub enum UploadEvent {
    /// The parts that storage still has, by number; `None` where it could not
    /// say.
    Listed(Option<HashMap<i32, String>>),
    /// The reply to the request for a new upload.
    Created(Result<Option<String>, String>),
    /// The state was saved.
    Saved,
    /// This part was read from disk.
    PartRead(i32),
    /// No reply is waiting to be taken.
    Settled,
    /// Whether the user wants to go on.
    Progress(bool),
    /// No more parts come from disk.
    ReadsOver,
    /// The reply to the sending of a part.
    PartSent { number: i32, reply: Result<String, String> },
    /// The task that sent a part broke down.
    PartLost(String),
    /// How the reading of the file ended.
    ReaderEnded(Result<(), String>),
    /// The task that read the file broke down.
    ReaderLost(String),
    /// The upload was given up.
    Aborted,
    /// The saved state was removed.
    Forgotten,
    /// The reply to the request to put the parts together.
    Completed(Result<(), String>),
    /// The size that storage reports of the object.
    Measured(Result<Option<i64>, String>),
}

/// What an [`UploadEvent`] says.
pub enum EventView {
    Listed(Option<Map<i32, Seq<char>>>),
    Created(Result<Option<Seq<char>>, Seq<char>>),
    Saved,
    PartRead(i32),
    Settled,
    Progress(bool),
    ReadsOver,
    PartSent { number: i32, reply: Result<Seq<char>, Seq<char>> },
    PartLost(Seq<char>),
    ReaderEnded(Result<(), Seq<char>>),
    ReaderLost(Seq<char>),
    Aborted,
    Forgotten,
    Completed(Result<(), Seq<char>>),
    Measured(Result<Option<i64>, Seq<char>>),
}

impl View for UploadEvent {
    type V = EventView;

    open spec fn view(&self) -> EventView {
        match *self {
            UploadEvent::Listed(Some(m)) => EventView::Listed(Some(etag_views(m@))),
            UploadEvent::Listed(None) => EventView::Listed(None),
            UploadEvent::Created(Ok(Some(id))) => EventView::Created(Ok(Some(id@))),
            UploadEvent::Created(Ok(None)) => EventView::Created(Ok(None)),
            UploadEvent::Created(Err(e)) => EventView::Created(Err(e@)),
            UploadEvent::Saved => EventView::Saved,
            UploadEvent::PartRead(number) => EventView::PartRead(number),
            UploadEvent::Settled => EventView::Settled,
            UploadEvent::Progress(go) => EventView::Progress(go),
            UploadEvent::ReadsOver => EventView::ReadsOver,
            UploadEvent::PartSent { number, reply: Ok(tag) } => EventView::PartSent {
                number,
                reply: Ok(tag@),
            },
            UploadEvent::PartSent { number, reply: Err(e) } => EventView::PartSent {
                number,
                reply: Err(e@),
            },
            UploadEvent::PartLost(e) => EventView::PartLost(e@),
            UploadEvent::ReaderEnded(r) => EventView::ReaderEnded(outcome_view(r)),
            UploadEvent::ReaderLost(e) => EventView::ReaderLost(e@),
            UploadEvent::Aborted => EventView::Aborted,
            UploadEvent::Forgotten => EventView::Forgotten,
            UploadEvent::Completed(r) => EventView::Completed(outcome_view(r)),
            UploadEvent::Measured(Ok(n)) => EventView::Measured(Ok(n)),
            UploadEvent::Measured(Err(e)) => EventView::Measured(Err(e@)),
        }
    }
}

/// What to do next.
#[derive(Debug)]
pub enum UploadAction {
    /// Ask storage which parts of this upload it has.
    ListParts { upload_id: String },
    /// Ask storage for a new upload.
    Create,
    /// Save this state, so that the upload can be resumed.
    Save(UploadState),
    /// Begin to read these parts, in this order.
    Read(Vec<PartSpan>),
    /// Take the replies that have come to parts in flight.
    Settle,
    /// Report this many bytes as sent and ask whether to go on.
    Ask(u64),
    /// Send the part that was just read.
    Upload,
    /// Nothing; wait for the next event.
    Wait,
    /// Read no more and wait for the parts in flight.
    Drain,
    /// Give the upload up: storage drops its parts.
    Abort { upload_id: String },
    /// Remove the saved state.
    Forget,
    /// Ask storage to put these parts together.
    Complete { upload_id: String, parts: Vec<CompletedPart> },
    /// Ask storage how large the object is.
    Measure,
    /// Stop: this is how the upload ended.
    Finish(Result<(), String>),
}

/// What an [`UploadAction`] says.
pub enum ActionView {
    ListParts { upload_id: Seq<char> },
    Create,
    Save(StateView),
    Read(Seq<PartSpan>),
    Settle,
    Ask(int),
    Upload,
    Wait,
    Drain,
    Abort { upload_id: Seq<char> },
    Forget,
    Complete { upload_id: Seq<char>, parts: Seq<(i32, Seq<char>)> },
    Measure,
    Finish(Result<(), Seq<char>>),
}

impl View for UploadAction {
    type V = ActionView;

    open spec fn view(&self) -> ActionView {
        match *self {
            UploadAction::ListParts { upload_id } => ActionView::ListParts {
                upload_id: upload_id@,
            },
            UploadAction::Create => ActionView::Create,
            UploadAction::Save(st) => ActionView::Save(st@),
            UploadAction::Read(spans) => ActionView::Read(spans@),
            UploadAction::Settle => ActionView::Settle,
            UploadAction::Ask(n) => ActionView::Ask(n as int),
            UploadAction::Upload => ActionView::Upload,
            UploadAction::Wait => ActionView::Wait,
            UploadAction::Drain => ActionView::Drain,
            UploadAction::Abort { upload_id } => ActionView::Abort { upload_id: upload_id@ },
            UploadAction::Forget => ActionView::Forget,
            UploadAction::Complete { upload_id, parts } => ActionView::Complete {
                upload_id: upload_id@,
                parts: completed_views(parts@),
            },
            UploadAction::Measure => ActionView::Measure,
            UploadAction::Finish(r) => ActionView::Finish(outcome_view(r)),
        }
    }
}

/// A multipart upload in progress.
#[derive(Debug)]
pub struct UploadRun {
    plan: UploadPlan,
    upload_id: String,
    parts: HashMap<i32, String>,
    completed: u64,
    unread: Vec<i32>,
    flying: Vec<i32>,
    lost: bool,
    failed: Option<String>,
    cancelled: bool,
    phase: UploadPhase,
}

/// What an [`UploadRun`] says.
pub struct RunView {
    pub plan: PlanView,
    /// The upload that storage knows; empty until there is one.
    pub upload_id: Seq<char>,
    /// The parts that storage has confirmed, each with its tag.
    pub parts: Map<i32, Seq<char>>,
    /// How many bytes the confirmed parts hold.
    pub completed: int,
    /// The parts that are still to be read; the last comes first.
    pub unread: Seq<i32>,
    /// The parts that were sent and not answered yet.
    pub flying: Set<i32>,
    /// Whether a task that sent a part broke down, so that its reply never
    /// comes.
    pub lost: bool,
    /// The first thing that went wrong.
    pub failed: Option<Seq<char>>,
    /// Whether the user gave up.
    pub cancelled: bool,
    pub phase: UploadPhase,
}

impl View for UploadRun {
    type V = RunView;

    closed spec fn view(&self) -> RunView {
        RunView {
            plan: self.plan@,
            upload_id: self.upload_id@,
            parts: etag_views(self.parts@),
            completed: self.completed as int,
            unread: self.unread@,
            flying: self.flying@.to_set(),
            lost: self.lost,
            failed: text_view(self.failed),
            cancelled: self.cancelled,
            phase: self.phase,
        }
    }
}

impl RunView {
    /// Every confirmed part belongs to the file, and from the sending of the
    /// first part on the running total is what the confirmed parts hold and
    /// every part is accounted for.
    pub open spec fn ok(self) -> bool {
        &&& self.plan.owns(self.parts)
        &&& self.counting() ==> self.completed == self.plan.bytes(self.parts.dom())
        &&& self.counting() ==> self.accounted()
    }

    /// Whether part `n` of the file is confirmed, in flight or still to be
    /// read.
    pub open spec fn knows(self, n: i32) -> bool {
        self.parts.contains_key(n) || self.flying.contains(n) || self.unread.contains(n)
    }

    /// Whether every part of the file is confirmed.
    pub open spec fn all_confirmed(self) -> bool {
        forall|n: i32| 1 <= n <= self.plan.count() ==> #[trigger] self.parts.contains_key(n)
    }

    /// A part is in one place at a time. While nothing went wrong none is
    /// missing, and the parts are put together once all are confirmed.
    pub open spec fn accounted(self) -> bool {
        &&& forall|n: i32| #[trigger]
            self.flying.contains(n) ==> 1 <= n <= self.plan.count() && !self.parts.contains_key(n)
        &&& forall|i: int|
            0 <= i < self.unread.len() ==> {
                let n = #[trigger] self.unread[i];
                1 <= n <= self.plan.count() && !self.parts.contains_key(n)
                    && !self.flying.contains(n)
            }
        &&& forall|i: int, j: int|
            0 <= i < j < self.unread.len() ==> #[trigger] self.unread[i] != #[trigger] self.unread[j]
        &&& self.lost ==> self.failed is Some
        &&& self.failed is None ==> forall|n: i32|
            1 <= n <= self.plan.count() ==> #[trigger] self.knows(n)
        &&& self.phase == UploadPhase::Settling || self.phase == UploadPhase::Asking
            ==> self.unread.len() > 0
        &&& self.concluded() ==> self.all_confirmed() && self.failed is None && !self.cancelled
    }

    /// Whether the parts are being put together, or were.
    pub open spec fn concluded(self) -> bool {
        self.phase == UploadPhase::Completing || self.phase == UploadPhase::Measuring || self.phase
            == UploadPhase::ForgettingDone
    }

    /// Whether parts have begun to be sent and the upload is not over.
    pub open spec fn counting(self) -> bool {
        match self.phase {
            UploadPhase::Confirming | UploadPhase::Creating | UploadPhase::Saving => false,
            UploadPhase::Finished => false,
            _ => true,
        }
    }

    pub open spec fn at(self, phase: UploadPhase) -> RunView {
        RunView { phase, ..self }
    }

    /// The upload ends.
    pub open spec fn ended(self, r: Result<(), Seq<char>>) -> (RunView, ActionView) {
        (self.at(UploadPhase::Finished), ActionView::Finish(r))
    }

    /// What storage does not have yet is to be sent; what it has is reported.
    pub open spec fn starting(self) -> (RunView, ActionView) {
        let held = self.parts.dom();
        let total = self.plan.bytes(held);
        (
            RunView {
                completed: total,
                unread: unread_numbers(self.plan.missing(held)),
                flying: Set::empty(),
                lost: false,
                phase: UploadPhase::Starting,
                ..self
            },
            ActionView::Ask(total),
        )
    }

    /// The user said whether to go on.
    pub open spec fn answered(self, go: bool) -> (RunView, ActionView) {
        if go {
            match self.phase {
                UploadPhase::Starting => (
                    self.at(UploadPhase::Sending),
                    ActionView::Read(self.plan.missing(self.parts.dom())),
                ),
                UploadPhase::Asking => (
                    RunView {
                        unread: self.unread.drop_last(),
                        flying: self.flying.insert(self.unread.last()),
                        phase: UploadPhase::Sending,
                        ..self
                    },
                    ActionView::Upload,
                ),
                _ => (self.at(UploadPhase::Draining), ActionView::Wait),
            }
        } else {
            let v = RunView { cancelled: true, ..self };
            match self.phase {
                UploadPhase::Starting => v.concluding(),
                UploadPhase::Asking => (v.at(UploadPhase::Draining), ActionView::Drain),
                _ => (v.at(UploadPhase::Draining), ActionView::Wait),
            }
        }
    }

    /// Keeps the first thing that went wrong.
    pub open spec fn failing(self, e: Seq<char>) -> RunView {
        match self.failed {
            Some(_) => self,
            None => RunView { failed: Some(e), ..self },
        }
    }

    /// Storage confirmed a part.
    pub open spec fn with_part(self, number: i32, tag: Seq<char>) -> RunView {
        RunView {
            parts: self.parts.insert(number, tag),
            flying: self.flying.remove(number),
            completed: self.completed + part_len(
                self.plan.size as nat,
                self.plan.part_size(),
                number as int,
            ),
            ..self
        }
    }

    /// Nothing is in flight any more: give up, stop with the error, or have
    /// the parts put together.
    pub open spec fn concluding(self) -> (RunView, ActionView) {
        if self.cancelled {
            (self.at(UploadPhase::Aborting), ActionView::Abort { upload_id: self.upload_id })
        } else {
            match self.failed {
                Some(e) => self.ended(Err(e)),
                None => (
                    self.at(UploadPhase::Completing),
                    ActionView::Complete {
                        upload_id: self.upload_id,
                        parts: ascending(self.parts, self.plan.count() + 1),
                    },
                ),
            }
        }
    }

    /// The reader failed; this counts only where nothing else stopped the
    /// upload.
    pub open spec fn reader_failed(self, e: Seq<char>) -> RunView {
        if self.cancelled {
            self
        } else {
            self.failing(e)
        }
    }

    /// Whether this event can come now.
    pub open spec fn expects(self, event: EventView) -> bool {
        match event {
            EventView::Listed(None) => self.phase == UploadPhase::Confirming,
            EventView::Listed(Some(m)) => {
                &&& self.phase == UploadPhase::Confirming
                &&& self.plan.owns(m)
            },
            EventView::Created(_) => self.phase == UploadPhase::Creating,
            EventView::Saved => self.phase == UploadPhase::Saving,
            EventView::PartRead(number) => {
                &&& self.phase == UploadPhase::Sending
                &&& self.unread.len() > 0
                &&& number == self.unread.last()
            },
            EventView::ReadsOver => self.phase == UploadPhase::Sending,
            EventView::Settled => self.phase == UploadPhase::Settling,
            EventView::Progress(_) => self.phase == UploadPhase::Starting || self.phase
                == UploadPhase::Asking || self.phase == UploadPhase::Reporting,
            EventView::PartSent { number, reply } => {
                &&& self.awaiting_parts()
                &&& self.flying.contains(number)
            },
            EventView::PartLost(_) => self.awaiting_parts(),
            EventView::ReaderEnded(r) => self.drained() && (r is Ok && self.failed is None
                && !self.cancelled ==> self.unread.len() == 0),
            EventView::ReaderLost(_) => self.drained(),
            EventView::Aborted => self.phase == UploadPhase::Aborting,
            EventView::Forgotten => self.phase == UploadPhase::ForgettingCancelled || self.phase
                == UploadPhase::ForgettingDone,
            EventView::Completed(_) => self.phase == UploadPhase::Completing,
            EventView::Measured(_) => self.phase == UploadPhase::Measuring,
        }
    }

    /// Whether the reply to the sending of a part can come.
    pub open spec fn awaiting_parts(self) -> bool {
        self.phase == UploadPhase::Settling || self.phase == UploadPhase::Draining
    }

    /// Whether no reply can come any more.
    pub open spec fn drained(self) -> bool {
        self.phase == UploadPhase::Draining && (self.lost || self.flying == Set::<i32>::empty())
    }

    /// What the event changes, and what is done next.
    pub open spec fn after(self, event: EventView) -> (RunView, ActionView) {
        match event {
            EventView::Listed(Some(m)) => {
                let v = RunView { parts: m, ..self };
                if v.upload_id.len() == 0 {
                    (v.at(UploadPhase::Creating), ActionView::Create)
                } else {
                    v.starting()
                }
            },
            EventView::Listed(None) => (
                RunView { upload_id: Seq::empty(), phase: UploadPhase::Creating, ..self },
                ActionView::Create,
            ),
            EventView::Created(Ok(Some(id))) => (
                RunView { upload_id: id, phase: UploadPhase::Saving, ..self },
                ActionView::Save(self.plan.saved(id)),
            ),
            EventView::Created(Ok(None)) => self.ended(
                Err("El servidor no devolvio upload_id"@),
            ),
            EventView::Created(Err(e)) => self.ended(Err("No se pudo iniciar la subida: "@ + e)),
            EventView::Saved => self.starting(),
            EventView::PartRead(_) => (self.at(UploadPhase::Settling), ActionView::Settle),
            EventView::Settled => if self.failed is Some {
                (self.at(UploadPhase::Draining), ActionView::Drain)
            } else {
                (self.at(UploadPhase::Asking), ActionView::Ask(self.completed))
            },
            EventView::Progress(go) => self.answered(go),
            EventView::ReadsOver => (self.at(UploadPhase::Draining), ActionView::Drain),
            EventView::PartSent { number, reply } => {
                let v = match reply {
                    Ok(tag) => self.with_part(number, tag),
                    Err(e) => RunView {
                        flying: self.flying.remove(number),
                        ..self.failing(
                            "Fallo al subir la parte "@ + decimal(number as nat) + ": "@ + e,
                        )
                    },
                };
                v.settled()
            },
            EventView::PartLost(e) => {
                let v = RunView { lost: true, ..self.failing("tarea fallo: "@ + e) };
                v.settled()
            },
            EventView::ReaderEnded(Ok(())) => self.concluding(),
            EventView::ReaderEnded(Err(e)) => self.reader_failed(e).concluding(),
            EventView::ReaderLost(e) => self.reader_failed("lector: "@ + e).concluding(),
            EventView::Aborted => (self.at(UploadPhase::ForgettingCancelled), ActionView::Forget),
            EventView::Forgotten => if self.phase == UploadPhase::ForgettingCancelled {
                self.ended(Err("Cancelado"@))
            } else {
                self.ended(Ok(()))
            },
            EventView::Completed(Ok(())) => (self.at(UploadPhase::Measuring), ActionView::Measure),
            EventView::Completed(Err(e)) => self.ended(
                Err("No se pudo completar la subida: "@ + e),
            ),
            EventView::Measured(Ok(len)) => if len matches Some(n) && n == self.plan.size {
                (self.at(UploadPhase::ForgettingDone), ActionView::Forget)
            } else {
                self.ended(Err(mismatch(len, self.plan.size)))
            },
            EventView::Measured(Err(e)) => self.ended(Err("No se pudo verificar la subida: "@ + e)),
        }
    }

    /// What follows the reply to the sending of a part: while the last parts
    /// are awaited and nothing went wrong, the total is reported.
    pub open spec fn settled(self) -> (RunView, ActionView) {
        if self.phase == UploadPhase::Draining && self.failed is None && !self.cancelled {
            (self.at(UploadPhase::Reporting), ActionView::Ask(self.completed))
        } else {
            (self, ActionView::Wait)
        }
    }
}

/// The numbers of these parts, the first of them last.
pub open spec fn unread_numbers(spans: Seq<PartSpan>) -> Seq<i32> {
    Seq::new(spans.len(), |i: int| spans[spans.len() - 1 - i].number)
}

/// What is said where the object is not as large as the file.
pub open spec fn mismatch(len: Option<i64>, size: u64) -> Seq<char> {
    let remote = match len {
        Some(n) => n as int,
        None => -1,
    };
    "Verificacion FALLIDA: en S3 hay "@ + signed_decimal(remote) + " bytes pero el original tiene "@
        + decimal(size as nat) + ". La subida NO es confiable."@
}

// ---------------------------------------------------------------------------
// The run, carried out
// ---------------------------------------------------------------------------

proof fn plan_bounds(plan: PlanView)
    ensures
        plan.part_size() >= 1,
        plan.part_size() <= u64::MAX,
        plan.count() <= 9500,
{
    law_part_size(plan.size as nat);
    law_part_count(plan.size as nat);
}

impl UploadPlan {
    /// The upload to resume, where the saved state speaks of the same object
    /// and of the same, unchanged file.
    pub fn resume_id(&self, saved: &Option<UploadState>) -> (r: Option<String>)
        ensures
            text_view(r) == self@.resumable(
                match *saved {
                    Some(st) => Some(st@),
                    None => None,
                },
            ),
    {
        proof {
            plan_bounds(self@);
        }
        match saved {
            Some(st) => {
                if st.bucket == self.bucket && st.key == self.key && st.file_size == self.size
                    && st.mtime_secs == self.mtime && st.part_size == part_size_for(self.size) {
                    Some(st.upload_id.clone())
                } else {
                    None
                }
            },
            None => None,
        }
    }

    /// What is saved of an upload of this file.
    pub fn state(&self, upload_id: &String) -> (r: UploadState)
        ensures
            r@ == self@.saved(upload_id@),
    {
        proof {
            plan_bounds(self@);
        }
        UploadState {
            bucket: self.bucket.clone(),
            key: self.key.clone(),
            upload_id: upload_id.clone(),
            file_size: self.size,
            mtime_secs: self.mtime,
            part_size: part_size_for(self.size),
        }
    }

    /// How many bytes of the file the confirmed parts hold.
    fn bytes_of(&self, parts: &HashMap<i32, String>) -> (total: u64)
        ensures
            total == self@.bytes(parts@.dom()),
    {
        let part_size: u64 = part_size_for(self.size);
        let count: i32 = part_count_for(self.size);
        let mut total: u64 = 0;
        let mut n: i32 = 0;
        proof {
            plan_bounds(self@);
        }
        while n < count
            invariant
                0 <= n <= count <= 9500,
                count == self@.count(),
                part_size == self@.part_size(),
                part_size > 0,
                total == bytes_held(parts@.dom(), self.size as nat, part_size as nat, n as nat),
            decreases count - n,
        {
            n = n + 1;
            proof {
                law_part_within(self.size as nat, part_size as nat, n as int);
                law_held_within_file(parts@.dom(), self.size as nat, part_size as nat, n as nat);
            }
            if parts.contains_key(&n) {
                total = total + span(self.size, part_size, n).len;
            }
        }
        total
    }

    /// The parts of the file that are not confirmed yet, in ascending order.
    fn missing_of(&self, parts: &HashMap<i32, String>) -> (spans: Vec<PartSpan>)
        ensures
            spans@ == self@.missing(parts@.dom()),
    {
        let part_size: u64 = part_size_for(self.size);
        let count: i32 = part_count_for(self.size);
        let mut spans: Vec<PartSpan> = Vec::new();
        let mut n: i32 = 0;
        proof {
            plan_bounds(self@);
        }
        while n < count
            invariant
                0 <= n <= count <= 9500,
                count == self@.count(),
                part_size == self@.part_size(),
                part_size > 0,
                spans@ == missing_spans(parts@.dom(), self.size as nat, part_size as nat, n as nat),
            decreases count - n,
        {
            n = n + 1;
            if !parts.contains_key(&n) {
                spans.push(span(self.size, part_size, n));
            }
        }
        spans
    }

    /// The confirmed parts in ascending order.
    fn ascending_of(&self, parts: &HashMap<i32, String>) -> (list: Vec<CompletedPart>)
        ensures
            completed_views(list@) == ascending(etag_views(parts@), self@.count() + 1),
    {
        let count: i32 = part_count_for(self.size);
        let mut list: Vec<CompletedPart> = Vec::new();
        let mut n: i32 = 0;
        proof {
            plan_bounds(self@);
            assert(completed_views(list@) =~= ascending(etag_views(parts@), 0));
        }
        while n < count + 1
            invariant
                0 <= n <= count + 1,
                count <= 9500,
                count == self@.count(),
                completed_views(list@) == ascending(etag_views(parts@), n as nat),
            decreases count + 1 - n,
        {
            n = n + 1;
            let ghost before = list@;
            match parts.get(&n) {
                Some(tag) => {
                    list.push(CompletedPart { number: n, etag: tag.clone() });
                    proof {
                        assert(completed_views(list@) =~= completed_views(before).push(
                            (n, etag_views(parts@)[n]),
                        ));
                    }
                },
                None => {},
            }
        }
        list
    }
}

/// Part `number` of a file of `size` bytes.
fn span(size: u64, part_size: u64, number: i32) -> (r: PartSpan)
    requires
        part_size > 0,
        1 <= number <= part_count(size as nat, part_size as nat),
    ensures
        r == span_of(size as nat, part_size as nat, number as int),
        r.len == part_len(size as nat, part_size as nat, number as int),
        r.offset == part_offset(part_size as nat, number as int),
{
    proof {
        law_part_within(size as nat, part_size as nat, number as int);
    }
    let offset: u64 = (number - 1) as u64 * part_size;
    let left: u64 = size - offset;
    PartSpan {
        number,
        offset,
        len: if left < part_size {
            left
        } else {
            part_size
        },
    }
}

/// The numbers of these parts, the first of them last.
fn numbers_reversed(spans: &Vec<PartSpan>) -> (r: Vec<i32>)
    ensures
        r@ == unread_numbers(spans@),
{
    let mut r: Vec<i32> = Vec::new();
    let mut i: usize = spans.len();
    while i > 0
        invariant
            i <= spans.len(),
            r@ == unread_numbers(spans@).take(spans.len() - i),
        decreases i,
    {
        i = i - 1;
        r.push(spans[i].number);
        proof {
            assert(r@ =~= unread_numbers(spans@).take(spans.len() - i));
        }
    }
    proof {
        assert(r@ =~= unread_numbers(spans@));
    }
    r
}

/// What is said where the object is not as large as the file.
fn mismatch_text(len: Option<i64>, size: u64) -> (r: String)
    ensures
        r@ == mismatch(len, size),
{
    let remote: i64 = match len {
        Some(n) => n,
        None => -1,
    };
    let mut r = join3(
        "Verificacion FALLIDA: en S3 hay ",
        signed_decimal_text(remote).as_str(),
        " bytes pero el original tiene ",
    );
    r.append(decimal_text(size).as_str());
    r.append(". La subida NO es confiable.");
    r
}

impl UploadRun {
    /// Begins an upload: one that can be resumed is looked for first.
    pub fn start(plan: UploadPlan, saved: &Option<UploadState>) -> (r: (UploadRun, UploadAction))
        ensures
            r.0@.ok(),
            ({
                let resumed = plan@.resumable(
                    match *saved {
                        Some(st) => Some(st@),
                        None => None,
                    },
                );
                &&& r.0@ == (RunView {
                    plan: plan@,
                    upload_id: match resumed {
                        Some(id) => id,
                        None => Seq::empty(),
                    },
                    parts: Map::empty(),
                    completed: 0,
                    unread: Seq::empty(),
                    flying: Set::empty(),
                    lost: false,
                    failed: None,
                    cancelled: false,
                    phase: match resumed {
                        Some(_) => UploadPhase::Confirming,
                        None => UploadPhase::Creating,
                    },
                })
                &&& r.1@ == match resumed {
                    Some(id) => ActionView::ListParts { upload_id: id },
                    None => ActionView::Create,
                }
            }),
    {
        let resumed = plan.resume_id(saved);
        let parts: HashMap<i32, String> = HashMap::new();
        proof {
            assert(etag_views(parts@) =~= Map::empty());
            assert(Seq::<i32>::empty().to_set() =~= Set::empty());
        }
        match resumed {
            Some(id) => (
                UploadRun {
                    plan,
                    upload_id: id.clone(),
                    parts,
                    completed: 0,
                    unread: Vec::new(),
                    flying: Vec::new(),
                    lost: false,
                    failed: None,
                    cancelled: false,
                    phase: UploadPhase::Confirming,
                },
                UploadAction::ListParts { upload_id: id },
            ),
            None => (
                UploadRun {
                    plan,
                    upload_id: String::new(),
                    parts,
                    completed: 0,
                    unread: Vec::new(),
                    flying: Vec::new(),
                    lost: false,
                    failed: None,
                    cancelled: false,
                    phase: UploadPhase::Creating,
                },
                UploadAction::Create,
            ),
        }
    }

    /// Whether this event can come now.
    pub fn accepts(&self, event: &UploadEvent) -> (r: bool)
        ensures
            r == self@.expects(event@),
    {
        match event {
            UploadEvent::Listed(listed) => self.phase == UploadPhase::Confirming && match listed {
                Some(m) => self.all_begin(m),
                None => true,
            },
            UploadEvent::Created(_) => self.phase == UploadPhase::Creating,
            UploadEvent::Saved => self.phase == UploadPhase::Saving,
            UploadEvent::PartRead(number) => self.phase == UploadPhase::Sending
                && self.unread.len() > 0 && self.unread[self.unread.len() - 1] == *number,
            UploadEvent::Settled => self.phase == UploadPhase::Settling,
            UploadEvent::ReadsOver => self.phase == UploadPhase::Sending,
            UploadEvent::Progress(_) => self.phase == UploadPhase::Starting || self.phase
                == UploadPhase::Asking || self.phase == UploadPhase::Reporting,
            UploadEvent::PartSent { number, reply: _ } => (self.phase == UploadPhase::Settling
                || self.phase == UploadPhase::Draining) && self.in_flight(*number),
            UploadEvent::PartLost(_) => self.phase == UploadPhase::Settling || self.phase
                == UploadPhase::Draining,
            UploadEvent::ReaderEnded(r) => self.has_drained() && (r.is_err()
                || self.failed.is_some() || self.cancelled || self.unread.len() == 0),
            UploadEvent::ReaderLost(_) => self.has_drained(),
            UploadEvent::Aborted => self.phase == UploadPhase::Aborting,
            UploadEvent::Forgotten => self.phase == UploadPhase::ForgettingCancelled || self.phase
                == UploadPhase::ForgettingDone,
            UploadEvent::Completed(_) => self.phase == UploadPhase::Completing,
            UploadEvent::Measured(_) => self.phase == UploadPhase::Measuring,
        }
    }

    fn in_flight(&self, number: i32) -> (r: bool)
        ensures
            r == self@.flying.contains(number),
    {
        let mut i: usize = 0;
        while i < self.flying.len()
            invariant
                i <= self.flying.len(),
                forall|j: int| 0 <= j < i ==> self.flying@[j] != number,
            decreases self.flying.len() - i,
        {
            if self.flying[i] == number {
                proof {
                    assert(self.flying@.contains(number));
                }
                return true;
            }
            i = i + 1;
        }
        false
    }

    fn has_drained(&self) -> (r: bool)
        ensures
            r == self@.drained(),
    {
        proof {
            if self.flying@.len() == 0 {
                assert(self.flying@.to_set() =~= Set::empty());
            } else {
                assert(self.flying@.to_set().contains(self.flying@[0]));
            }
        }
        self.phase == UploadPhase::Draining && (self.lost || self.flying.len() == 0)
    }

    /// Whether every part that `m` names begins within the file or at its end.
    fn all_begin(&self, m: &HashMap<i32, String>) -> (r: bool)
        ensures
            r == self@.plan.owns(etag_views(m@)),
    {
        let part_size: u64 = part_size_for(self.plan.size);
        let size: u64 = self.plan.size;
        for key in it: m.keys()
            invariant
                size == self@.plan.size,
                part_size == self@.plan.part_size(),
                forall|i: int|
                    0 <= i < it.index() ==> part_begins(
                        size as nat,
                        part_size as nat,
                        *(#[trigger] it.seq()[i]) as int,
                    ),
                it.seq().unref().to_set() == m@.dom(),
        {
            let n: i32 = *key;
            assert(it.seq().unref()[it.index() as int] == n);
            assert(it.seq().unref().to_set().contains(n));
            assert(etag_views(m@).contains_key(n));
            if n < 1 {
                return false;
            }
            proof {
                assert((n - 1) * part_size <= 0x7fff_ffff * 0xffff_ffff_ffff_ffff)
                    by (nonlinear_arith)
                    requires
                        1 <= n <= 0x7fff_ffff,
                        0 <= part_size <= 0xffff_ffff_ffff_ffff,
                ;
                assert((n - 1) * part_size >= 0) by (nonlinear_arith)
                    requires
                        1 <= n,
                        0 <= part_size,
                ;
            }
            if (n - 1) as u128 * part_size as u128 > size as u128 {
                return false;
            }
        }
        proof {
            assert forall|n: i32| #[trigger] etag_views(m@).contains_key(n) implies part_begins(
                size as nat,
                part_size as nat,
                n as int,
            ) by {
                assert(m@.dom().contains(n));
            }
        }
        true
    }

    /// What storage does not have yet is to be sent; what it has is reported.
    fn begin(self) -> (r: (UploadRun, UploadAction))
        ensures
            (r.0@, r.1@) == self@.starting(),
    {
        let mut run = self;
        let total: u64 = run.plan.bytes_of(&run.parts);
        let spans = run.plan.missing_of(&run.parts);
        proof {
            assert(etag_views(run.parts@).dom() =~= run.parts@.dom());
            assert(Seq::<i32>::empty().to_set() =~= Set::empty());
        }
        run.completed = total;
        run.unread = numbers_reversed(&spans);
        run.flying = Vec::new();
        run.lost = false;
        run.phase = UploadPhase::Starting;
        (run, UploadAction::Ask(total))
    }

    /// The user said whether to go on.
    fn answer(self, go: bool) -> (r: (UploadRun, UploadAction))
        requires
            self@.phase == UploadPhase::Asking ==> self@.unread.len() > 0,
        ensures
            (r.0@, r.1@) == self@.answered(go),
    {
        let mut run = self;
        if go {
            match run.phase {
                UploadPhase::Starting => {
                    let spans = run.plan.missing_of(&run.parts);
                    proof {
                        assert(etag_views(run.parts@).dom() =~= run.parts@.dom());
                    }
                    run.phase = UploadPhase::Sending;
                    (run, UploadAction::Read(spans))
                },
                UploadPhase::Asking => {
                    run.launch();
                    run.phase = UploadPhase::Sending;
                    (run, UploadAction::Upload)
                },
                _ => {
                    run.phase = UploadPhase::Draining;
                    (run, UploadAction::Wait)
                },
            }
        } else {
            run.cancelled = true;
            match run.phase {
                UploadPhase::Starting => run.conclude(),
                UploadPhase::Asking => {
                    run.phase = UploadPhase::Draining;
                    (run, UploadAction::Drain)
                },
                _ => {
                    run.phase = UploadPhase::Draining;
                    (run, UploadAction::Wait)
                },
            }
        }
    }

    /// The part that was read is on its way.
    fn launch(&mut self)
        requires
            old(self)@.unread.len() > 0,
        ensures
            final(self)@ == (RunView {
                unread: old(self)@.unread.drop_last(),
                flying: old(self)@.flying.insert(old(self)@.unread.last()),
                ..old(self)@
            }),
    {
        let ghost before = self@;
        let ghost flying = self.flying@;
        if let Some(n) = self.unread.pop() {
            self.flying.push(n);
            proof {
                flying.lemma_push_to_set_commute(n);
                assert(self@.flying =~= before.flying.insert(n));
            }
        }
    }

    /// A part that was in flight has been answered.
    fn land(&mut self, number: i32)
        ensures
            final(self)@ == (RunView { flying: old(self)@.flying.remove(number), ..old(self)@ }),
    {
        let ghost before = self@;
        let ghost all = self.flying@;
        let mut rest: Vec<i32> = Vec::new();
        let mut i: usize = 0;
        while i < self.flying.len()
            invariant
                i <= self.flying.len(),
                self@ == before,
                self.flying@ == all,
                forall|j: int| 0 <= j < i && all[j] != number ==> rest@.contains(#[trigger] all[j]),
                forall|k: int|
                    0 <= k < rest.len() ==> all.contains(#[trigger] rest@[k]) && rest@[k] != number,
            decreases self.flying.len() - i,
        {
            let n: i32 = self.flying[i];
            if n != number {
                let ghost was = rest@;
                rest.push(n);
                proof {
                    assert(rest@[was.len() as int] == n);
                    assert(all.contains(n));
                    assert forall|j: int| 0 <= j <= i && all[j] != number implies rest@.contains(
                        #[trigger] all[j],
                    ) by {
                        if j < i {
                            let k = choose|k: int| 0 <= k < was.len() && was[k] == all[j];
                            assert(rest@[k] == all[j]);
                        }
                    }
                    assert forall|k: int| 0 <= k < rest.len() implies all.contains(
                        #[trigger] rest@[k],
                    ) && rest@[k] != number by {
                        if k < was.len() {
                            assert(rest@[k] == was[k]);
                        }
                    }
                }
            }
            i = i + 1;
        }
        proof {
            assert(rest@.to_set() =~= all.to_set().remove(number)) by {
                assert forall|n: i32| all.to_set().remove(number).contains(n) implies rest@.contains(
                    n,
                ) by {
                    let j = choose|j: int| 0 <= j < all.len() && all[j] == n;
                    assert(rest@.contains(all[j]));
                }
            }
        }
        self.flying = rest;
    }

    /// Keeps the first thing that went wrong.
    fn fail(&mut self, e: String)
        ensures
            final(self)@ == old(self)@.failing(e@),
    {
        if self.failed.is_none() {
            self.failed = Some(e);
        }
    }

    /// Ends the upload.
    fn end(self, r: Result<(), String>) -> (next: (UploadRun, UploadAction))
        ensures
            (next.0@, next.1@) == self@.ended(outcome_view(r)),
    {
        let mut run = self;
        run.phase = UploadPhase::Finished;
        (run, UploadAction::Finish(r))
    }

    /// Takes what just happened and says what to do next.
    pub fn step(self, event: UploadEvent) -> (next: (UploadRun, UploadAction))
        requires
            self@.ok(),
            self@.expects(event@),
        ensures
            (next.0@, next.1@) == self@.after(event@),
            next.0@.ok(),
    {
        proof {
            law_step_keeps_count(self@, event@);
        }
        let mut run = self;
        match event {
            UploadEvent::Listed(Some(m)) => {
                run.parts = m;
                if run.upload_id.as_str().is_empty() {
                    run.phase = UploadPhase::Creating;
                    (run, UploadAction::Create)
                } else {
                    run.begin()
                }
            },
            UploadEvent::Listed(None) => {
                run.upload_id = String::new();
                run.phase = UploadPhase::Creating;
                (run, UploadAction::Create)
            },
            UploadEvent::Created(Ok(Some(id))) => {
                let state = run.plan.state(&id);
                run.upload_id = id;
                run.phase = UploadPhase::Saving;
                (run, UploadAction::Save(state))
            },
            UploadEvent::Created(Ok(None)) => run.end(
                Err("El servidor no devolvio upload_id".to_owned()),
            ),
            UploadEvent::Created(Err(e)) => run.end(
                Err(join2("No se pudo iniciar la subida: ", e.as_str())),
            ),
            UploadEvent::Saved => run.begin(),
            UploadEvent::PartRead(_) => {
                run.phase = UploadPhase::Settling;
                (run, UploadAction::Settle)
            },
            UploadEvent::Settled => {
                if run.failed.is_some() {
                    run.phase = UploadPhase::Draining;
                    (run, UploadAction::Drain)
                } else {
                    run.phase = UploadPhase::Asking;
                    let total: u64 = run.completed;
                    (run, UploadAction::Ask(total))
                }
            },
            UploadEvent::Progress(go) => run.answer(go),
            UploadEvent::ReadsOver => {
                run.phase = UploadPhase::Draining;
                (run, UploadAction::Drain)
            },
            UploadEvent::PartSent { number, reply: Ok(tag) } => {
                run.confirm(number, tag);
                run.settle()
            },
            UploadEvent::PartSent { number, reply: Err(e) } => {
                let mut text = join3(
                    "Fallo al subir la parte ",
                    decimal_text(number as u64).as_str(),
                    ": ",
                );
                text.append(e.as_str());
                run.fail(text);
                run.land(number);
                run.settle()
            },
            UploadEvent::PartLost(e) => {
                run.fail(join2("tarea fallo: ", e.as_str()));
                run.lost = true;
                run.settle()
            },
            UploadEvent::ReaderEnded(Ok(())) => run.conclude(),
            UploadEvent::ReaderEnded(Err(e)) => {
                run.reader_failed(e);
                run.conclude()
            },
            UploadEvent::ReaderLost(e) => {
                run.reader_failed(join2("lector: ", e.as_str()));
                run.conclude()
            },
            UploadEvent::Aborted => {
                run.phase = UploadPhase::ForgettingCancelled;
                (run, UploadAction::Forget)
            },
            UploadEvent::Forgotten => {
                if run.phase == UploadPhase::ForgettingCancelled {
                    run.end(Err("Cancelado".to_owned()))
                } else {
                    run.end(Ok(()))
                }
            },
            UploadEvent::Completed(Ok(())) => {
                run.phase = UploadPhase::Measuring;
                (run, UploadAction::Measure)
            },
            UploadEvent::Completed(Err(e)) => run.end(
                Err(join2("No se pudo completar la subida: ", e.as_str())),
            ),
            UploadEvent::Measured(Ok(len)) => {
                let whole: bool = match len {
                    Some(n) => n >= 0 && n as u64 == run.plan.size,
                    None => false,
                };
                if whole {
                    run.phase = UploadPhase::ForgettingDone;
                    (run, UploadAction::Forget)
                } else {
                    let text = mismatch_text(len, run.plan.size);
                    run.end(Err(text))
                }
            },
            UploadEvent::Measured(Err(e)) => run.end(
                Err(join2("No se pudo verificar la subida: ", e.as_str())),
            ),
        }
    }

    /// Storage confirmed a part.
    fn confirm(&mut self, number: i32, tag: String)
        requires
            old(self)@.ok(),
            old(self)@.awaiting_parts(),
            old(self)@.flying.contains(number),
        ensures
            final(self)@ == old(self)@.with_part(number, tag@),
    {
        let part_size: u64 = part_size_for(self.plan.size);
        let ghost before = self@;
        let ghost tag_text = tag@;
        proof {
            plan_bounds(self@.plan);
            let size = self.plan.size as nat;
            let ps = part_size as nat;
            let held = before.parts.dom();
            law_part_within(size, ps, number as int);
            law_held_part_adds(held, size, ps, before.plan.count(), number);
            law_held_within_file(held.insert(number), size, ps, before.plan.count());
        }
        let len: u64 = span(self.plan.size, part_size, number).len;
        self.completed = self.completed + len;
        self.parts.insert(number, tag);
        proof {
            assert(self@.parts =~= before.parts.insert(number, tag_text));
        }
        self.land(number);
    }

    /// What follows the reply to the sending of a part.
    fn settle(self) -> (next: (UploadRun, UploadAction))
        ensures
            (next.0@, next.1@) == self@.settled(),
    {
        let mut run = self;
        if run.phase == UploadPhase::Draining && run.failed.is_none() && !run.cancelled {
            run.phase = UploadPhase::Reporting;
            let total: u64 = run.completed;
            (run, UploadAction::Ask(total))
        } else {
            (run, UploadAction::Wait)
        }
    }

    /// The reader failed; this counts only where nothing else stopped the
    /// upload.
    fn reader_failed(&mut self, e: String)
        ensures
            final(self)@ == old(self)@.reader_failed(e@),
    {
        if !self.cancelled {
            self.fail(e);
        }
    }

    /// Nothing is in flight any more.
    fn conclude(self) -> (next: (UploadRun, UploadAction))
        ensures
            (next.0@, next.1@) == self@.concluding(),
    {
        let mut run = self;
        if run.cancelled {
            run.phase = UploadPhase::Aborting;
            let upload_id = run.upload_id.clone();
            (run, UploadAction::Abort { upload_id })
        } else {
            match run.failed.clone() {
                Some(e) => run.end(Err(e)),
                None => {
                    run.phase = UploadPhase::Completing;
                    let upload_id = run.upload_id.clone();
                    let parts = run.plan.ascending_of(&run.parts);
                    (run, UploadAction::Complete { upload_id, parts })
                },
            }
        }
    }
}

} // verus!
