//! Copying a file piece by piece, between a server and the disk.
//!
//! [`ChunkCopy::step`] takes what just happened and says what to do next. The
//! caller reads, writes and reports.

use crate::messages::{failure, lead, Failure};
use crate::text::outcome_view;
use vstd::prelude::*;

verus! {

/// How many bytes are read at a time, at most.
pub const CHUNK: usize = 65536;

/// What is copied where.
#[derive(Debug, Clone, Copy, PartialEq, Eq, Structural)]
pub enum CopyRoute {
    /// From an FTP or SFTP server to the disk.
    Download,
    /// From the disk to an FTP or SFTP server.
    Upload,
    /// From S3-compatible storage to the disk.
    Object,
}

/// What fails when reading fails.
pub open spec fn read_failure(route: CopyRoute) -> Failure {
    match route {
        CopyRoute::Download => Failure::Receive,
        CopyRoute::Upload => Failure::ReadLocal,
        CopyRoute::Object => Failure::Receive,
    }
}

/// What fails when writing fails.
pub open spec fn write_failure(route: CopyRoute) -> Failure {
    match route {
        CopyRoute::Download => Failure::WriteDisk,
        CopyRoute::Upload => Failure::Send,
        CopyRoute::Object => Failure::WriteObject,
    }
}

/// Whether this is the end of what is read: reading nothing is the end of a
/// stream, but not of an object, which says so.
pub open spec fn at_end(route: CopyRoute, piece: Option<u64>) -> bool {
    match piece {
        Some(n) => n == 0 && route != CopyRoute::Object,
        None => true,
    }
}

/// What a copy waits for.
#[derive(Debug, Clone, Copy, PartialEq, Eq, Structural)]
pub enum CopyPhase {
    Reading,
    /// A piece of so many bytes is being written.
    Writing(u64),
    Reporting,
    Over,
}

/// What happened.
#[derive(Debug)]
pub enum CopyEvent {
    /// A piece was read, so many bytes; `None` where there is no more.
    Read(Result<Option<u64>, String>),
    Wrote(Result<(), String>),
    /// Whether to go on, as the progress report was answered.
    Reported(bool),
}

/// What a [`CopyEvent`] says.
pub enum CopyEventView {
    Read(Result<Option<u64>, Seq<char>>),
    Wrote(Result<(), Seq<char>>),
    Reported(bool),
}

impl View for CopyEvent {
    type V = CopyEventView;

    open spec fn view(&self) -> CopyEventView {
        match *self {
            CopyEvent::Read(r) => CopyEventView::Read(
                match r {
                    Ok(piece) => Ok(piece),
                    Err(e) => Err(e@),
                },
            ),
            CopyEvent::Wrote(r) => CopyEventView::Wrote(outcome_view(r)),
            CopyEvent::Reported(go_on) => CopyEventView::Reported(go_on),
        }
    }
}

/// What to do next.
#[derive(Debug)]
pub enum CopyAction {
    Read,
    /// Write the piece that was read.
    Write,
    /// Report the bytes copied so far and ask whether to go on.
    Report(u64),
    /// Everything was copied.
    Finish,
    /// Give up.
    Stop(String),
}

/// What a [`CopyAction`] says.
pub enum CopyActionView {
    Read,
    Write,
    Report(u64),
    Finish,
    Stop(Seq<char>),
}

impl View for CopyAction {
    type V = CopyActionView;

    open spec fn view(&self) -> CopyActionView {
        match *self {
            CopyAction::Read => CopyActionView::Read,
            CopyAction::Write => CopyActionView::Write,
            CopyAction::Report(n) => CopyActionView::Report(n),
            CopyAction::Finish => CopyActionView::Finish,
            CopyAction::Stop(e) => CopyActionView::Stop(e@),
        }
    }
}

/// A file that is being copied.
#[derive(Debug, Clone, Copy, PartialEq, Eq, Structural)]
pub struct ChunkCopy {
    pub route: CopyRoute,
    /// Bytes copied so far, with those that were there before.
    pub total: u64,
    pub phase: CopyPhase,
}

impl ChunkCopy {
    /// The copy in another phase.
    pub open spec fn at(self, phase: CopyPhase) -> ChunkCopy {
        ChunkCopy { phase, ..self }
    }

    /// Whether the event is one that the copy waits for. The bytes copied must
    /// fit into the counter.
    pub open spec fn expects(self, event: CopyEventView) -> bool {
        match (self.phase, event) {
            (CopyPhase::Reading, CopyEventView::Read(_)) => true,
            (CopyPhase::Writing(n), CopyEventView::Wrote(_)) => self.total + n <= u64::MAX,
            (CopyPhase::Reporting, CopyEventView::Reported(_)) => true,
            _ => false,
        }
    }

    /// The copy and what to do next, once this happened.
    pub open spec fn after(self, event: CopyEventView) -> (ChunkCopy, CopyActionView) {
        match event {
            CopyEventView::Read(Ok(piece)) => if at_end(self.route, piece) {
                (self.at(CopyPhase::Over), CopyActionView::Finish)
            } else {
                (self.at(CopyPhase::Writing(piece->0)), CopyActionView::Write)
            },
            CopyEventView::Read(Err(e)) => (
                self.at(CopyPhase::Over),
                CopyActionView::Stop(lead(read_failure(self.route)) + e),
            ),
            CopyEventView::Wrote(Ok(())) => {
                let total = (self.total + self.phase->Writing_0) as u64;
                (
                    ChunkCopy { total, phase: CopyPhase::Reporting, ..self },
                    CopyActionView::Report(total),
                )
            },
            CopyEventView::Wrote(Err(e)) => (
                self.at(CopyPhase::Over),
                CopyActionView::Stop(lead(write_failure(self.route)) + e),
            ),
            CopyEventView::Reported(go_on) => if go_on {
                (self.at(CopyPhase::Reading), CopyActionView::Read)
            } else {
                (self.at(CopyPhase::Over), CopyActionView::Stop("Cancelado"@))
            },
        }
    }

    /// Begins a copy of which `resume_from` bytes are there already; the first
    /// thing to do is to read.
    pub fn start(route: CopyRoute, resume_from: u64) -> (r: ChunkCopy)
        ensures
            r == (ChunkCopy { route, total: resume_from, phase: CopyPhase::Reading }),
    {
        ChunkCopy { route, total: resume_from, phase: CopyPhase::Reading }
    }

    /// Whether the event is one that the copy waits for.
    pub fn accepts(&self, event: &CopyEvent) -> (r: bool)
        ensures
            r == self.expects(event@),
    {
        match event {
            CopyEvent::Read(_) => matches!(self.phase, CopyPhase::Reading),
            CopyEvent::Wrote(_) => match self.phase {
                CopyPhase::Writing(n) => n <= u64::MAX - self.total,
                _ => false,
            },
            CopyEvent::Reported(_) => matches!(self.phase, CopyPhase::Reporting),
        }
    }

    /// Says what to do next, once this happened.
    pub fn step(&mut self, event: CopyEvent) -> (action: CopyAction)
        requires
            old(self).expects(event@),
        ensures
            (*final(self), action@) == old(self).after(event@),
    {
        match event {
            CopyEvent::Read(Ok(piece)) => match piece {
                Some(n) if n > 0 || self.route == CopyRoute::Object => {
                    self.phase = CopyPhase::Writing(n);
                    CopyAction::Write
                },
                _ => {
                    self.phase = CopyPhase::Over;
                    CopyAction::Finish
                },
            },
            CopyEvent::Read(Err(e)) => {
                self.phase = CopyPhase::Over;
                let f = match self.route {
                    CopyRoute::Download => Failure::Receive,
                    CopyRoute::Upload => Failure::ReadLocal,
                    CopyRoute::Object => Failure::Receive,
                };
                CopyAction::Stop(failure(f, e.as_str()))
            },
            CopyEvent::Wrote(Ok(_)) => {
                if let CopyPhase::Writing(n) = self.phase {
                    self.total = self.total + n;
                }
                self.phase = CopyPhase::Reporting;
                CopyAction::Report(self.total)
            },
            CopyEvent::Wrote(Err(e)) => {
                self.phase = CopyPhase::Over;
                let f = match self.route {
                    CopyRoute::Download => Failure::WriteDisk,
                    CopyRoute::Upload => Failure::Send,
                    CopyRoute::Object => Failure::WriteObject,
                };
                CopyAction::Stop(failure(f, e.as_str()))
            },
            CopyEvent::Reported(go_on) => {
                if go_on {
                    self.phase = CopyPhase::Reading;
                    CopyAction::Read
                } else {
                    self.phase = CopyPhase::Over;
                    CopyAction::Stop("Cancelado".to_owned())
                }
            },
        }
    }
}

// ---------------------------------------------------------------------------
// Small files, which go to storage in one piece
// ---------------------------------------------------------------------------

/// What sending a file in one piece consists of.
#[derive(Debug, Clone, Copy, PartialEq, Eq, Structural)]
pub enum WholeStage {
    /// Get at the local file.
    Open,
    /// The user was asked whether to go on, and said so.
    Asked { go_on: bool },
    Send,
}

/// What to do next.
#[derive(Debug)]
pub enum WholeStep {
    /// Report so many bytes and ask whether to go on.
    Ask { reported: u64 },
    Send,
    /// Report so many bytes; the file has arrived.
    Done { reported: u64 },
    Failed(String),
}

/// What a [`WholeStep`] says.
pub enum WholeStepView {
    Ask { reported: u64 },
    Send,
    Done { reported: u64 },
    Failed(Seq<char>),
}

impl View for WholeStep {
    type V = WholeStepView;

    open spec fn view(&self) -> WholeStepView {
        match *self {
            WholeStep::Ask { reported } => WholeStepView::Ask { reported },
            WholeStep::Send => WholeStepView::Send,
            WholeStep::Done { reported } => WholeStepView::Done { reported },
            WholeStep::Failed(m) => WholeStepView::Failed(m@),
        }
    }
}

/// What to do with a file of `size` bytes once `stage` was passed. The reply
/// counts where the stage is one that can fail.
pub open spec fn whole_after(
    size: u64,
    stage: WholeStage,
    reply: Result<(), Seq<char>>,
) -> WholeStepView {
    match (stage, reply) {
        (WholeStage::Open, Ok(_)) => WholeStepView::Ask { reported: 0 },
        (WholeStage::Open, Err(e)) => WholeStepView::Failed(lead(Failure::ReadWhole) + e),
        (WholeStage::Asked { go_on }, _) => if go_on {
            WholeStepView::Send
        } else {
            WholeStepView::Failed("Cancelado"@)
        },
        (WholeStage::Send, Ok(_)) => WholeStepView::Done { reported: size },
        (WholeStage::Send, Err(e)) => WholeStepView::Failed(lead(Failure::SendWhole) + e),
    }
}

/// What to do with a file of `size` bytes once `stage` was passed.
pub fn send_whole(size: u64, stage: WholeStage, reply: Result<(), String>) -> (r: WholeStep)
    ensures
        r@ == whole_after(size, stage, outcome_view(reply)),
{
    match (stage, reply) {
        (WholeStage::Open, Ok(_)) => WholeStep::Ask { reported: 0 },
        (WholeStage::Open, Err(e)) => WholeStep::Failed(failure(Failure::ReadWhole, e.as_str())),
        (WholeStage::Asked { go_on }, _) => if go_on {
            WholeStep::Send
        } else {
            WholeStep::Failed("Cancelado".to_owned())
        },
        (WholeStage::Send, Ok(_)) => WholeStep::Done { reported: size },
        (WholeStage::Send, Err(e)) => WholeStep::Failed(failure(Failure::SendWhole, e.as_str())),
    }
}

/// Nothing is sent but behind the user's consent: where they refuse, the file
/// ends as cancelled.
pub proof fn law_whole_cancel(size: u64, stage: WholeStage, reply: Result<(), Seq<char>>)
    ensures
        whole_after(size, stage, reply) == WholeStepView::Send <==> stage == (WholeStage::Asked {
            go_on: true,
        }),
        stage == (WholeStage::Asked { go_on: false }) ==> whole_after(size, stage, reply)
            == WholeStepView::Failed("Cancelado"@),
{
}

/// A file that has arrived was reported whole.
pub proof fn law_whole_reports_size(size: u64, stage: WholeStage, reply: Result<(), Seq<char>>)
    ensures
        whole_after(size, stage, reply) matches WholeStepView::Done { reported } ==> reported == size
            && stage == WholeStage::Send && reply is Ok,
{
}

// ---------------------------------------------------------------------------
// What holds of every copy
// ---------------------------------------------------------------------------

/// Where a copy stands once these events have come, in this order.
pub open spec fn copied_after(c: ChunkCopy, events: Seq<CopyEventView>) -> ChunkCopy
    decreases events.len(),
{
    if events.len() == 0 {
        c
    } else {
        copied_after(c, events.drop_last()).after(events.last()).0
    }
}

/// Whether each event came when the copy waited for it.
pub open spec fn copy_legal(c: ChunkCopy, events: Seq<CopyEventView>) -> bool
    decreases events.len(),
{
    events.len() == 0 || {
        &&& copy_legal(c, events.drop_last())
        &&& copied_after(c, events.drop_last()).expects(events.last())
    }
}

/// The bytes of all pieces that were read.
pub open spec fn bytes_read(events: Seq<CopyEventView>) -> int
    decreases events.len(),
{
    if events.len() == 0 {
        0
    } else {
        bytes_read(events.drop_last()) + match events.last() {
            CopyEventView::Read(Ok(Some(n))) => n as int,
            _ => 0,
        }
    }
}

/// The last thing that a copy said to do.
pub open spec fn last_copy_action(c: ChunkCopy, events: Seq<CopyEventView>) -> CopyActionView
    recommends
        events.len() > 0,
{
    copied_after(c, events.drop_last()).after(events.last()).1
}

/// The count is exact: what is counted, with the piece that is being written,
/// is what was there at the start and all that was read since.
pub proof fn law_copy_count(route: CopyRoute, resume_from: u64, events: Seq<CopyEventView>)
    requires
        copy_legal(ChunkCopy { route, total: resume_from, phase: CopyPhase::Reading }, events),
    ensures
        ({
            let c = copied_after(
                ChunkCopy { route, total: resume_from, phase: CopyPhase::Reading },
                events,
            );
            &&& c.route == route
            &&& c.total >= resume_from
            &&& match c.phase {
                CopyPhase::Writing(n) => c.total + n == resume_from + bytes_read(events),
                CopyPhase::Over => c.total <= resume_from + bytes_read(events),
                _ => c.total == resume_from + bytes_read(events),
            }
        }),
    decreases events.len(),
{
    if events.len() > 0 {
        law_copy_count(route, resume_from, events.drop_last());
    }
}

/// A copy that finishes has copied every byte that was read.
pub proof fn law_copy_complete(route: CopyRoute, resume_from: u64, events: Seq<CopyEventView>)
    requires
        events.len() > 0,
        copy_legal(ChunkCopy { route, total: resume_from, phase: CopyPhase::Reading }, events),
        last_copy_action(
            ChunkCopy { route, total: resume_from, phase: CopyPhase::Reading },
            events,
        ) == CopyActionView::Finish,
    ensures
        copied_after(
            ChunkCopy { route, total: resume_from, phase: CopyPhase::Reading },
            events,
        ).total == resume_from + bytes_read(events),
{
    law_copy_count(route, resume_from, events.drop_last());
}

/// What is counted never shrinks, and what is reported is what is counted.
pub proof fn law_copy_progress(c: ChunkCopy, event: CopyEventView)
    requires
        c.expects(event),
    ensures
        c.after(event).0.total >= c.total,
        c.after(event).1 matches CopyActionView::Report(n) ==> n == c.after(event).0.total,
{
}

/// Once the user says to stop, the copy stops: it asks for nothing more and
/// says that it was cancelled.
pub proof fn law_copy_cancel(c: ChunkCopy)
    requires
        c.expects(CopyEventView::Reported(false)),
    ensures
        c.after(CopyEventView::Reported(false)).1 == CopyActionView::Stop("Cancelado"@),
        forall|e: CopyEventView| !#[trigger] c.after(CopyEventView::Reported(false)).0.expects(e),
{
}

/// A copy that is over waits for nothing: it neither reads, writes nor reports
/// again.
pub proof fn law_copy_over(c: ChunkCopy, event: CopyEventView)
    requires
        c.phase == CopyPhase::Over,
    ensures
        !c.expects(event),
{
}

/// A piece that was read is written whole; reading nothing ends a stream, but of
/// an object only its own end does.
pub proof fn law_copy_reading(c: ChunkCopy, n: u64)
    ensures
        n > 0 || c.route == CopyRoute::Object ==> c.after(CopyEventView::Read(Ok(Some(n)))) == (
            ChunkCopy { route: c.route, total: c.total, phase: CopyPhase::Writing(n) },
            CopyActionView::Write,
        ),
        n == 0 && c.route != CopyRoute::Object ==> c.after(CopyEventView::Read(Ok(Some(n)))) == (
            ChunkCopy { route: c.route, total: c.total, phase: CopyPhase::Over },
            CopyActionView::Finish,
        ),
        c.after(CopyEventView::Read(Ok(None))) == (
            ChunkCopy { route: c.route, total: c.total, phase: CopyPhase::Over },
            CopyActionView::Finish,
        ),
{
}

/// A piece that was written is counted and the count is reported; where the user
/// agrees, the next piece is read.
pub proof fn law_copy_writing(c: ChunkCopy, n: u64)
    requires
        c.phase == CopyPhase::Writing(n),
        c.total + n <= u64::MAX,
    ensures
        c.after(CopyEventView::Wrote(Ok(()))) == (
            ChunkCopy { route: c.route, total: (c.total + n) as u64, phase: CopyPhase::Reporting },
            CopyActionView::Report((c.total + n) as u64),
        ),
        c.after(CopyEventView::Reported(true)) == (
            ChunkCopy { route: c.route, total: c.total, phase: CopyPhase::Reading },
            CopyActionView::Read,
        ),
{
}

/// A copy that fails says on which side and why, and is over.
pub proof fn law_copy_failures(c: ChunkCopy, e: Seq<char>)
    ensures
        c.after(CopyEventView::Read(Err(e))).0.phase == CopyPhase::Over,
        c.after(CopyEventView::Wrote(Err(e))).0.phase == CopyPhase::Over,
        c.after(CopyEventView::Read(Err(e))).1 == CopyActionView::Stop(
            if c.route == CopyRoute::Upload {
                "Error leyendo local: "@ + e
            } else {
                "Error leyendo: "@ + e
            },
        ),
        c.after(CopyEventView::Wrote(Err(e))).1 == CopyActionView::Stop(
            if c.route == CopyRoute::Upload {
                "Error subiendo: "@ + e
            } else if c.route == CopyRoute::Download {
                "Error escribiendo en disco: "@ + e
            } else {
                "Error escribiendo: "@ + e
            },
        ),
{
}

/// A copy takes what it waits for: a piece while it reads, a write while it
/// writes, as long as the count can hold it, an answer once it has reported.
pub proof fn law_copy_answers(
    c: ChunkCopy,
    read: Result<Option<u64>, Seq<char>>,
    wrote: Result<(), Seq<char>>,
    go_on: bool,
)
    ensures
        c.expects(CopyEventView::Read(read)) <==> c.phase == CopyPhase::Reading,
        c.expects(CopyEventView::Wrote(wrote)) <==> c.phase is Writing && c.total
            + c.phase->Writing_0 <= u64::MAX,
        c.expects(CopyEventView::Reported(go_on)) <==> c.phase == CopyPhase::Reporting,
        CHUNK == 65536,
{
}

/// A file that goes in one piece is opened, announced with nothing sent, sent
/// where the user agrees, and reported whole; where opening or sending fails, the
/// user is told which.
pub proof fn law_whole_steps(size: u64, reply: Result<(), Seq<char>>, e: Seq<char>)
    ensures
        whole_after(size, WholeStage::Open, Ok(())) == (WholeStepView::Ask { reported: 0 }),
        whole_after(size, WholeStage::Asked { go_on: true }, reply) == WholeStepView::Send,
        whole_after(size, WholeStage::Asked { go_on: false }, reply) == WholeStepView::Failed(
            "Cancelado"@,
        ),
        whole_after(size, WholeStage::Send, Ok(())) == (WholeStepView::Done { reported: size }),
        whole_after(size, WholeStage::Open, Err(e)) == WholeStepView::Failed(
            "No se pudo leer el archivo local: "@ + e,
        ),
        whole_after(size, WholeStage::Send, Err(e)) == WholeStepView::Failed(
            "No se pudo subir: "@ + e,
        ),
{
}

} // verus!
