//! Uploading a local file, or a folder with all that it holds.
//!
//! [`do_upload`] takes what just happened and says what to do next.
//! [`descend`] is what that amounts to, told as a recursion over the folder.
//!
//! `P` stands for a place on the local disk. It is carried along and handed
//! back; nothing here looks into it.

use crate::events::{
    closing_report, file_at, opening_report, Direction, ProgressView, TransferProgress,
};
use crate::path::{at_or_below, join_remote, joined, law_below_child};
use crate::text::{ok_is_ok, outcome_view};
use vstd::prelude::*;

verus! {

/// An entry of a local folder.
#[derive(Debug)]
pub struct LocalChild<P> {
    pub path: P,
    pub name: String,
    pub is_dir: bool,
}

/// What a [`LocalChild`] says.
pub struct ChildView<P> {
    pub path: P,
    pub name: Seq<char>,
    pub is_dir: bool,
}

impl<P> View for LocalChild<P> {
    type V = ChildView<P>;

    open spec fn view(&self) -> ChildView<P> {
        ChildView { path: self.path, name: self.name@, is_dir: self.is_dir }
    }
}

/// An entry of a local folder, or why it could not be read.
pub type ReadChild<P> = Result<LocalChild<P>, String>;

/// What a [`ReadChild`] says.
pub open spec fn read_view<P>(c: ReadChild<P>) -> Result<ChildView<P>, Seq<char>> {
    match c {
        Ok(child) => Ok(child@),
        Err(e) => Err(e@),
    }
}

/// What the entries of a local folder say, in order.
pub open spec fn read_views<P>(s: Seq<ReadChild<P>>) -> Seq<Result<ChildView<P>, Seq<char>>> {
    s.map_values(|c: ReadChild<P>| read_view(c))
}

/// Something that is still to be done.
#[derive(Debug)]
pub enum UploadTask<P> {
    /// Send a file, or a folder with all that it holds.
    Visit { path: P, remote: String, name: String, is_dir: bool },
    /// Stop: an entry could not be read.
    Fail(String),
}

/// What an [`UploadTask`] says.
pub enum TaskView<P> {
    Visit { path: P, remote: Seq<char>, name: Seq<char>, is_dir: bool },
    Fail(Seq<char>),
}

impl<P> View for UploadTask<P> {
    type V = TaskView<P>;

    open spec fn view(&self) -> TaskView<P> {
        match *self {
            UploadTask::Visit { path, remote, name, is_dir } => TaskView::Visit {
                path,
                remote: remote@,
                name: name@,
                is_dir,
            },
            UploadTask::Fail(e) => TaskView::Fail(e@),
        }
    }
}

/// What the tasks of a stack say.
pub open spec fn task_views<P>(s: Seq<UploadTask<P>>) -> Seq<TaskView<P>> {
    s.map_values(|t: UploadTask<P>| t@)
}

/// What just happened.
#[derive(Debug)]
pub enum WalkEvent<P> {
    /// What the local folder holds, in the order in which it was read.
    Read(Result<Vec<ReadChild<P>>, String>),
    /// How many bytes the file at `path` has, where that can be found out.
    Measured { path: P, size: Option<u64> },
    /// How the making of a folder, or the sending of a file, went.
    Done(Result<(), String>),
    /// The report was made.
    Reported,
}

/// What a [`WalkEvent`] says.
pub enum WalkEventView<P> {
    Read(Result<Seq<Result<ChildView<P>, Seq<char>>>, Seq<char>>),
    Measured { path: P, size: Option<u64> },
    Done(Result<(), Seq<char>>),
    Reported,
}

impl<P> View for WalkEvent<P> {
    type V = WalkEventView<P>;

    open spec fn view(&self) -> WalkEventView<P> {
        match *self {
            WalkEvent::Read(Ok(children)) => WalkEventView::Read(Ok(read_views(children@))),
            WalkEvent::Read(Err(e)) => WalkEventView::Read(Err(e@)),
            WalkEvent::Measured { path, size } => WalkEventView::Measured { path, size },
            WalkEvent::Done(r) => WalkEventView::Done(outcome_view(r)),
            WalkEvent::Reported => WalkEventView::Reported,
        }
    }
}

/// What to do next.
#[derive(Debug)]
pub enum WalkAction<P> {
    /// Make this remote folder; it may be there already.
    MakeDir(String),
    /// Read what this local folder holds.
    ReadDir(P),
    /// Find out how many bytes this local file has, and hand its path back.
    Measure(P),
    /// Tell the user how far a file is.
    Report(TransferProgress),
    /// Send a file.
    Send { path: P, remote: String, name: String, size: u64 },
    /// Nothing more: this is how it ended.
    Finish(Result<(), String>),
}

/// What a [`WalkAction`] says.
pub enum WalkActionView<P> {
    MakeDir(Seq<char>),
    ReadDir(P),
    Measure(P),
    Report(ProgressView),
    Send { path: P, remote: Seq<char>, name: Seq<char>, size: u64 },
    Finish(Result<(), Seq<char>>),
}

impl<P> View for WalkAction<P> {
    type V = WalkActionView<P>;

    open spec fn view(&self) -> WalkActionView<P> {
        match *self {
            WalkAction::MakeDir(remote) => WalkActionView::MakeDir(remote@),
            WalkAction::ReadDir(path) => WalkActionView::ReadDir(path),
            WalkAction::Measure(path) => WalkActionView::Measure(path),
            WalkAction::Report(p) => WalkActionView::Report(p@),
            WalkAction::Send { path, remote, name, size } => WalkActionView::Send {
                path,
                remote: remote@,
                name: name@,
                size,
            },
            WalkAction::Finish(r) => WalkActionView::Finish(outcome_view(r)),
        }
    }
}

/// What was asked for last.
#[derive(Debug)]
enum Stage<P> {
    /// Nothing.
    Idle,
    /// The remote folder is being made; then the local one is read.
    Making { path: P, remote: String },
    /// The local folder is being read.
    Reading { remote: String },
    /// The size of the file is being found out.
    Measuring { remote: String, name: String },
    /// It is being reported that the file's turn has come.
    Opening { path: P, remote: String, name: String, size: u64 },
    /// The file is being sent.
    Sending { name: String, size: u64 },
    /// It is being reported that the file has been sent.
    Closing,
}

/// What is known of what was asked for last.
pub enum StageView<P> {
    Idle,
    Making { path: P, remote: Seq<char> },
    Reading { remote: Seq<char> },
    Measuring { remote: Seq<char>, name: Seq<char> },
    Opening { path: P, remote: Seq<char>, name: Seq<char>, size: u64 },
    Sending { name: Seq<char>, size: u64 },
    Closing,
}

/// An upload of files in progress.
#[derive(Debug)]
pub struct UploadWalk<P> {
    /// What is still to be sent; the last comes first.
    stack: Vec<UploadTask<P>>,
    stage: Stage<P>,
}

/// What an [`UploadWalk`] says.
pub struct WalkView<P> {
    pub stack: Seq<TaskView<P>>,
    pub stage: StageView<P>,
}

impl<P> View for UploadWalk<P> {
    type V = WalkView<P>;

    closed spec fn view(&self) -> WalkView<P> {
        WalkView {
            stack: task_views(self.stack@),
            stage: match self.stage {
                Stage::Idle => StageView::Idle,
                Stage::Making { path, remote } => StageView::Making { path, remote: remote@ },
                Stage::Reading { remote } => StageView::Reading { remote: remote@ },
                Stage::Measuring { remote, name } => StageView::Measuring {
                    remote: remote@,
                    name: name@,
                },
                Stage::Opening { path, remote, name, size } => StageView::Opening {
                    path,
                    remote: remote@,
                    name: name@,
                    size,
                },
                Stage::Sending { name, size } => StageView::Sending { name: name@, size },
                Stage::Closing => StageView::Closing,
            },
        }
    }
}

/// What is reported before a file is sent.
pub open spec fn opening<P>(name: Seq<char>, size: u64) -> WalkActionView<P> {
    WalkActionView::Report(file_at(Direction::Upload, name, 0, size))
}

/// What is reported behind a file that was sent.
pub open spec fn closing<P>(name: Seq<char>, size: u64) -> WalkActionView<P> {
    WalkActionView::Report(file_at(Direction::Upload, name, size, size))
}

/// What a file is taken to hold; nothing where that could not be found out.
pub open spec fn measured(size: Option<u64>) -> u64 {
    match size {
        Some(n) => n,
        None => 0,
    }
}

/// An entry of a local folder that goes into the remote folder `remote`.
pub open spec fn child_task<P>(
    remote: Seq<char>,
    child: Result<ChildView<P>, Seq<char>>,
) -> TaskView<P> {
    match child {
        Ok(c) => TaskView::Visit {
            path: c.path,
            remote: joined(remote, c.name),
            name: c.name,
            is_dir: c.is_dir,
        },
        Err(e) => TaskView::Fail(e),
    }
}

/// The entries of a folder as tasks, the first entry last.
pub open spec fn visits<P>(
    remote: Seq<char>,
    children: Seq<Result<ChildView<P>, Seq<char>>>,
) -> Seq<TaskView<P>> {
    Seq::new(
        children.len(),
        |i: int| child_task(remote, children[children.len() - 1 - i]),
    )
}

/// An upload that ended with an error: nothing more is done.
pub open spec fn stopped<P>(e: Seq<char>) -> (WalkView<P>, WalkActionView<P>) {
    (
        WalkView { stack: Seq::empty(), stage: StageView::Idle },
        WalkActionView::Finish(Err(e)),
    )
}

/// The next thing to do of `stack`.
pub open spec fn resumed<P>(stack: Seq<TaskView<P>>) -> (WalkView<P>, WalkActionView<P>) {
    if stack.len() == 0 {
        (WalkView { stack, stage: StageView::Idle }, WalkActionView::Finish(Ok(())))
    } else {
        let rest = stack.drop_last();
        match stack.last() {
            TaskView::Visit { path, remote, name, is_dir } => if is_dir {
                (
                    WalkView { stack: rest, stage: StageView::Making { path, remote } },
                    WalkActionView::MakeDir(remote),
                )
            } else {
                (
                    WalkView { stack: rest, stage: StageView::Measuring { remote, name } },
                    WalkActionView::Measure(path),
                )
            },
            TaskView::Fail(e) => stopped(e),
        }
    }
}

impl<P> WalkView<P> {
    /// Whether this answers what was done last.
    pub open spec fn expects(self, event: WalkEventView<P>) -> bool {
        match event {
            WalkEventView::Read(_) => self.stage is Reading,
            WalkEventView::Measured { .. } => self.stage is Measuring,
            WalkEventView::Done(_) => self.stage is Making || self.stage is Sending,
            WalkEventView::Reported => self.stage is Opening || self.stage is Closing,
        }
    }

    /// What follows: a remote folder is made (if that fails it is taken to be
    /// there), the local one is read, then its entries are sent in order; a file
    /// is measured, reported, sent, and where that went well reported again;
    /// the first error ends it all.
    pub open spec fn after(self, event: WalkEventView<P>) -> (WalkView<P>, WalkActionView<P>) {
        match (event, self.stage) {
            (WalkEventView::Read(Ok(children)), StageView::Reading { remote }) => resumed(
                self.stack + visits(remote, children),
            ),
            (WalkEventView::Read(Err(e)), _) => stopped(e),
            (WalkEventView::Done(_), StageView::Making { path, remote }) => (
                WalkView { stack: self.stack, stage: StageView::Reading { remote } },
                WalkActionView::ReadDir(path),
            ),
            (
                WalkEventView::Measured { path, size },
                StageView::Measuring { remote, name },
            ) => (
                WalkView {
                    stack: self.stack,
                    stage: StageView::Opening { path, remote, name, size: measured(size) },
                },
                opening(name, measured(size)),
            ),
            (WalkEventView::Reported, StageView::Opening { path, remote, name, size }) => (
                WalkView { stack: self.stack, stage: StageView::Sending { name, size } },
                WalkActionView::Send { path, remote, name, size },
            ),
            (WalkEventView::Done(Err(e)), _) => stopped(e),
            (WalkEventView::Done(Ok(_)), StageView::Sending { name, size }) => (
                WalkView { stack: self.stack, stage: StageView::Closing },
                closing(name, size),
            ),
            _ => resumed(self.stack),
        }
    }
}

impl<P> UploadWalk<P> {
    /// Begins to send a file, or a folder with all that it holds, into the
    /// remote folder `parent`.
    pub fn start(path: P, name: &str, is_dir: bool, parent: &str) -> (r: (
        UploadWalk<P>,
        WalkAction<P>,
    ))
        ensures
            (r.0@, r.1@) == resumed(
                seq![
                    TaskView::Visit { path, remote: joined(parent@, name@), name: name@, is_dir },
                ],
            ),
    {
        let mut stack: Vec<UploadTask<P>> = Vec::new();
        stack.push(
            UploadTask::Visit {
                path,
                remote: join_remote(parent, name),
                name: name.to_owned(),
                is_dir,
            },
        );
        proof {
            assert(task_views(stack@) =~= seq![
                TaskView::Visit { path, remote: joined(parent@, name@), name: name@, is_dir },
            ]);
        }
        resume(stack)
    }

    /// Whether this answers what was done last.
    pub fn accepts(&self, event: &WalkEvent<P>) -> (r: bool)
        ensures
            r == self@.expects(event@),
    {
        match event {
            WalkEvent::Read(_) => matches!(self.stage, Stage::Reading { .. }),
            WalkEvent::Measured { .. } => matches!(self.stage, Stage::Measuring { .. }),
            WalkEvent::Done(_) => matches!(
                self.stage,
                Stage::Making { .. } | Stage::Sending { .. }
            ),
            WalkEvent::Reported => matches!(self.stage, Stage::Opening { .. } | Stage::Closing),
        }
    }
}

/// Takes the next thing to do off `stack`.
fn resume<P>(stack: Vec<UploadTask<P>>) -> (r: (UploadWalk<P>, WalkAction<P>))
    ensures
        (r.0@, r.1@) == resumed(task_views(stack@)),
{
    let ghost views = task_views(stack@);
    let mut stack = stack;
    let top = stack.pop();
    proof {
        if views.len() > 0 {
            assert(task_views(stack@) =~= views.drop_last());
            assert(views.last() == top->0@);
        }
    }
    match top {
        Some(UploadTask::Visit { path, remote, name, is_dir }) => {
            if is_dir {
                let folder = remote.clone();
                (
                    UploadWalk { stack, stage: Stage::Making { path, remote } },
                    WalkAction::MakeDir(folder),
                )
            } else {
                (
                    UploadWalk { stack, stage: Stage::Measuring { remote, name } },
                    WalkAction::Measure(path),
                )
            }
        },
        Some(UploadTask::Fail(e)) => stop(e),
        None => (UploadWalk { stack, stage: Stage::Idle }, WalkAction::Finish(Ok(()))),
    }
}

/// Ends an upload with an error.
fn stop<P>(e: String) -> (r: (UploadWalk<P>, WalkAction<P>))
    ensures
        (r.0@, r.1@) == stopped::<P>(e@),
{
    let stack: Vec<UploadTask<P>> = Vec::new();
    proof {
        assert(task_views(stack@) =~= Seq::empty());
    }
    (UploadWalk { stack, stage: Stage::Idle }, WalkAction::Finish(Err(e)))
}

/// Puts the entries of a folder that goes to `remote` on the stack, the first
/// on top.
fn push_children<P>(
    stack: Vec<UploadTask<P>>,
    remote: &String,
    children: Vec<ReadChild<P>>,
) -> (r: Vec<UploadTask<P>>)
    ensures
        task_views(r@) == task_views(stack@) + visits(remote@, read_views(children@)),
{
    let ghost base = task_views(stack@);
    let ghost views = read_views(children@);
    let ghost given = children@;
    let ghost all = visits(remote@, views);
    let mut stack = stack;
    let mut children = children;
    proof {
        assert(all.take(0) =~= Seq::empty());
        assert(base + Seq::<TaskView<P>>::empty() =~= base);
        assert(given.take(given.len() as int) =~= given);
    }
    while children.len() > 0
        invariant
            children.len() <= given.len(),
            children@ == given.take(children.len() as int),
            views == read_views(given),
            all == visits(remote@, views),
            task_views(stack@) == base + all.take(given.len() - children.len()),
        decreases children.len(),
    {
        let ghost left = children.len() - 1;
        let ghost k = given.len() - 1 - left;
        let ghost prior = stack@;
        let child = children.pop().unwrap();
        proof {
            assert(child == given[left]);
            assert(views[left] == read_view(child));
            assert(given.take(left + 1).drop_last() =~= given.take(left));
        }
        let task = match child {
            Ok(c) => UploadTask::Visit {
                remote: join_remote(remote.as_str(), c.name.as_str()),
                path: c.path,
                name: c.name,
                is_dir: c.is_dir,
            },
            Err(e) => UploadTask::Fail(e),
        };
        stack.push(task);
        proof {
            assert(all[k] == stack@.last()@);
            assert(all.take(k + 1) =~= all.take(k).push(stack@.last()@));
            assert(task_views(stack@) =~= task_views(prior).push(stack@.last()@));
        }
    }
    proof {
        assert(all.take(given.len() as int) =~= all);
    }
    stack
}

/// Takes what just happened and says what to do next.
pub fn do_upload<P>(walk: UploadWalk<P>, event: WalkEvent<P>) -> (r: (UploadWalk<P>, WalkAction<P>))
    requires
        walk@.expects(event@),
    ensures
        (r.0@, r.1@) == walk@.after(event@),
{
    match (event, walk.stage) {
        (WalkEvent::Read(Ok(children)), Stage::Reading { remote }) => resume(
            push_children(walk.stack, &remote, children),
        ),
        (WalkEvent::Read(Err(e)), _) => stop(e),
        (WalkEvent::Done(_), Stage::Making { path, remote }) => (
            UploadWalk { stack: walk.stack, stage: Stage::Reading { remote } },
            WalkAction::ReadDir(path),
        ),
        (WalkEvent::Measured { path, size }, Stage::Measuring { remote, name }) => {
            let size: u64 = match size {
                Some(n) => n,
                None => 0,
            };
            let report = opening_report(Direction::Upload, name.as_str(), size);
            (
                UploadWalk {
                    stack: walk.stack,
                    stage: Stage::Opening { path, remote, name, size },
                },
                WalkAction::Report(report),
            )
        },
        (WalkEvent::Reported, Stage::Opening { path, remote, name, size }) => {
            let sent = name.clone();
            (
                UploadWalk { stack: walk.stack, stage: Stage::Sending { name: sent, size } },
                WalkAction::Send { path, remote, name, size },
            )
        },
        (WalkEvent::Done(Err(e)), _) => stop(e),
        (WalkEvent::Done(Ok(_)), Stage::Sending { name, size }) => {
            let report = closing_report(Direction::Upload, name.as_str(), size);
            (UploadWalk { stack: walk.stack, stage: Stage::Closing }, WalkAction::Report(report))
        },
        _ => resume(walk.stack),
    }
}

// ---------------------------------------------------------------------------
// The same, told as a recursion
// ---------------------------------------------------------------------------

/// The server and the local disk: what comes back of the last of these actions.
pub type World<P> = spec_fn(Seq<WalkActionView<P>>) -> WalkEventView<P>;

/// The actions taken and how it ended.
pub type Ending<P> = (Seq<WalkActionView<P>>, Result<(), Seq<char>>);

/// A report, which cannot fail.
pub open spec fn tell<P>(
    world: World<P>,
    taken: Seq<WalkActionView<P>>,
    report: WalkActionView<P>,
) -> Option<Ending<P>> {
    let now = taken.push(report);
    match world(now) {
        WalkEventView::Reported => Some((now, Ok(()))),
        _ => None,
    }
}

/// The sending of a file of `size` bytes: it is reported, sent, and where that
/// went well reported again.
pub open spec fn sent<P>(
    world: World<P>,
    taken: Seq<WalkActionView<P>>,
    path: P,
    remote: Seq<char>,
    name: Seq<char>,
    size: u64,
) -> Option<Ending<P>> {
    match tell(world, taken, opening(name, size)) {
        Some((opened, _)) => {
            let now = opened.push(WalkActionView::Send { path, remote, name, size });
            match world(now) {
                WalkEventView::Done(Ok(_)) => tell(world, now, closing(name, size)),
                WalkEventView::Done(Err(e)) => Some((now, Err(e))),
                _ => None,
            }
        },
        None => None,
    }
}

/// Sending `t`, told as a recursion: a file is measured, then reported and sent;
/// for a folder, the remote one is made, whether or not it is there already, the
/// local one is read and each of its entries is sent in the order of reading. The
/// first error ends it, an entry that could not be read when its turn comes.
/// `None` where folders nest deeper than `depth` or something comes back that was
/// not asked for.
pub open spec fn descend<P>(
    world: World<P>,
    taken: Seq<WalkActionView<P>>,
    t: TaskView<P>,
    depth: nat,
) -> Option<Ending<P>>
    decreases depth, 0nat,
{
    match t {
        TaskView::Fail(e) => Some((taken, Err(e))),
        TaskView::Visit { path, remote, name, is_dir } => if !is_dir {
            let asked = taken.push(WalkActionView::Measure(path));
            match world(asked) {
                WalkEventView::Measured { path: p, size } => if p == path {
                    sent(world, asked, path, remote, name, measured(size))
                } else {
                    None
                },
                _ => None,
            }
        } else if depth == 0 {
            None
        } else {
            let made = taken.push(WalkActionView::MakeDir(remote));
            let read = made.push(WalkActionView::ReadDir(path));
            match (world(made), world(read)) {
                (WalkEventView::Done(_), WalkEventView::Read(Ok(children))) => descend_each(
                    world,
                    read,
                    remote,
                    children,
                    (depth - 1) as nat,
                ),
                (WalkEventView::Done(_), WalkEventView::Read(Err(e))) => Some((read, Err(e))),
                _ => None,
            }
        },
    }
}

/// Sending the entries of a folder one after the other.
pub open spec fn descend_each<P>(
    world: World<P>,
    taken: Seq<WalkActionView<P>>,
    remote: Seq<char>,
    children: Seq<Result<ChildView<P>, Seq<char>>>,
    depth: nat,
) -> Option<Ending<P>>
    decreases depth, children.len(),
{
    if children.len() == 0 {
        Some((taken, Ok(())))
    } else {
        match descend(world, taken, child_task(remote, children[0]), depth) {
            Some((next, Ok(()))) => descend_each(world, next, remote, children.skip(1), depth),
            other => other,
        }
    }
}

/// A walk carried out for at most `actions` actions.
pub open spec fn carried_out<P>(
    world: World<P>,
    taken: Seq<WalkActionView<P>>,
    walk: WalkView<P>,
    action: WalkActionView<P>,
    actions: nat,
) -> Option<Ending<P>>
    decreases actions,
{
    match action {
        WalkActionView::Finish(r) => Some((taken, r)),
        _ => {
            let now = taken.push(action);
            if actions == 0 || !walk.expects(world(now)) {
                None
            } else {
                let (next, then) = walk.after(world(now));
                carried_out(world, now, next, then, (actions - 1) as nat)
            }
        },
    }
}

/// A stack of tasks carried out.
pub open spec fn stack_carried_out<P>(
    world: World<P>,
    taken: Seq<WalkActionView<P>>,
    stack: Seq<TaskView<P>>,
    actions: nat,
) -> Option<Ending<P>> {
    carried_out(world, taken, resumed(stack).0, resumed(stack).1, actions)
}

proof fn descend_grows<P>(
    world: World<P>,
    taken: Seq<WalkActionView<P>>,
    t: TaskView<P>,
    depth: nat,
)
    ensures
        descend(world, taken, t, depth) matches Some(end) ==> end.0.len() >= taken.len(),
    decreases depth, 0nat,
{
    match t {
        TaskView::Visit { path, remote, name, is_dir } => {
            if is_dir && depth > 0 {
                let made = taken.push(WalkActionView::MakeDir(remote));
                let read = made.push(WalkActionView::ReadDir(path));
                match world(read) {
                    WalkEventView::Read(Ok(children)) => {
                        descend_each_grows(world, read, remote, children, (depth - 1) as nat);
                    },
                    _ => {},
                }
            }
        },
        TaskView::Fail(_) => {},
    }
}

proof fn descend_each_grows<P>(
    world: World<P>,
    taken: Seq<WalkActionView<P>>,
    remote: Seq<char>,
    children: Seq<Result<ChildView<P>, Seq<char>>>,
    depth: nat,
)
    ensures
        descend_each(world, taken, remote, children, depth) matches Some(end) ==> end.0.len()
            >= taken.len(),
    decreases depth, children.len(),
{
    if children.len() > 0 {
        let child = child_task(remote, children[0]);
        descend_grows(world, taken, child, depth);
        match descend(world, taken, child, depth) {
            Some((next, Ok(()))) => {
                descend_each_grows(world, next, remote, children.skip(1), depth);
            },
            _ => {},
        }
    }
}

/// Carrying out a task and then `base` is the recursion and then `base`.
proof fn visit_is_descend<P>(
    world: World<P>,
    taken: Seq<WalkActionView<P>>,
    t: TaskView<P>,
    depth: nat,
    base: Seq<TaskView<P>>,
    more: nat,
    end: Ending<P>,
)
    requires
        descend(world, taken, t, depth) == Some(end),
    ensures
        end.0.len() >= taken.len(),
        stack_carried_out(
            world,
            taken,
            base.push(t),
            (more + end.0.len() - taken.len()) as nat,
        ) == match end.1 {
            Ok(()) => stack_carried_out(world, end.0, base, more),
            Err(e) => Some(end),
        },
    decreases depth, 0nat,
{
    reveal_with_fuel(carried_out, 5);
    descend_grows(world, taken, t, depth);
    ok_is_ok(end.1);
    let stack = base.push(t);
    assert(stack.drop_last() =~= base);
    match t {
        TaskView::Visit { path, remote, name, is_dir } => {
            if is_dir {
                let made = taken.push(WalkActionView::MakeDir(remote));
                let read = made.push(WalkActionView::ReadDir(path));
                let actions = (more + end.0.len() - taken.len()) as nat;
                match (world(made), world(read)) {
                    (WalkEventView::Done(_), WalkEventView::Read(Ok(children))) => {
                        descend_each_grows(world, read, remote, children, (depth - 1) as nat);
                        assert(stack_carried_out(world, taken, stack, actions)
                            == stack_carried_out(
                            world,
                            read,
                            base + visits(remote, children),
                            (actions - 2) as nat,
                        ));
                        visits_are_descend_each(
                            world,
                            read,
                            remote,
                            children,
                            (depth - 1) as nat,
                            base,
                            more,
                            end,
                        );
                    },
                    _ => {},
                }
            }
        },
        TaskView::Fail(_) => {},
    }
}

/// Carrying out the tasks of a folder's entries and then `base` is the recursion
/// over the entries and then `base`.
proof fn visits_are_descend_each<P>(
    world: World<P>,
    taken: Seq<WalkActionView<P>>,
    remote: Seq<char>,
    children: Seq<Result<ChildView<P>, Seq<char>>>,
    depth: nat,
    base: Seq<TaskView<P>>,
    more: nat,
    end: Ending<P>,
)
    requires
        descend_each(world, taken, remote, children, depth) == Some(end),
    ensures
        end.0.len() >= taken.len(),
        stack_carried_out(
            world,
            taken,
            base + visits(remote, children),
            (more + end.0.len() - taken.len()) as nat,
        ) == match end.1 {
            Ok(()) => stack_carried_out(world, end.0, base, more),
            Err(e) => Some(end),
        },
    decreases depth, children.len(),
{
    descend_each_grows(world, taken, remote, children, depth);
    if children.len() == 0 {
        assert(base + visits(remote, children) =~= base);
    } else {
        let child = child_task(remote, children[0]);
        let rest = children.skip(1);
        let below = base + visits(remote, rest);
        assert(base + visits(remote, children) =~= below.push(child));
        let first = descend(world, taken, child, depth)->0;
        descend_grows(world, taken, child, depth);
        match first.1 {
            Ok(()) => {
                descend_each_grows(world, first.0, remote, rest, depth);
                let between = (more + end.0.len() - first.0.len()) as nat;
                visit_is_descend(world, taken, child, depth, below, between, first);
                visits_are_descend_each(world, first.0, remote, rest, depth, base, more, end);
            },
            Err(e) => {
                visit_is_descend(world, taken, child, depth, below, more, first);
            },
        }
    }
}

/// Whatever the server and the disk answer, a walk takes the actions that the
/// recursion takes, in the same order, and ends as it ends.
pub proof fn law_walk_is_recursion<P>(
    world: World<P>,
    t: TaskView<P>,
    depth: nat,
    end: Ending<P>,
)
    requires
        descend(world, Seq::empty(), t, depth) == Some(end),
    ensures
        stack_carried_out(world, Seq::empty(), seq![t], end.0.len()) == Some(end),
{
    visit_is_descend(world, Seq::empty(), t, depth, Seq::empty(), 0, end);
    ok_is_ok(end.1);
    assert(Seq::<TaskView<P>>::empty().push(t) =~= seq![t]);
}

/// Whether what an action makes or sends is at `remote` or below it.
pub open spec fn goes_below<P>(action: WalkActionView<P>, remote: Seq<char>) -> bool {
    match action {
        WalkActionView::MakeDir(r) => at_or_below(r, remote),
        WalkActionView::Send { remote: r, .. } => at_or_below(r, remote),
        _ => true,
    }
}

/// Whether all that was done from the `from`-th action on is at `remote` or
/// below it.
pub open spec fn all_below<P>(taken: Seq<WalkActionView<P>>, from: nat, remote: Seq<char>) -> bool {
    forall|i: int| from <= i < taken.len() ==> goes_below(#[trigger] taken[i], remote)
}

proof fn child_below<P>(
    taken: Seq<WalkActionView<P>>,
    from: nat,
    remote: Seq<char>,
    name: Seq<char>,
)
    requires
        all_below(taken, from, joined(remote, name)),
    ensures
        all_below(taken, from, remote),
{
    let child = joined(remote, name);
    assert forall|i: int| from <= i < taken.len() implies goes_below(#[trigger] taken[i], remote) by {
        assert(goes_below(taken[i], child));
        match taken[i] {
            WalkActionView::MakeDir(r) => {
                law_below_child(r, remote, name);
            },
            WalkActionView::Send { remote: r, .. } => {
                law_below_child(r, remote, name);
            },
            _ => {},
        }
    }
}

proof fn descend_below<P>(
    world: World<P>,
    taken: Seq<WalkActionView<P>>,
    path: P,
    remote: Seq<char>,
    name: Seq<char>,
    is_dir: bool,
    depth: nat,
)
    ensures
        descend(world, taken, TaskView::Visit { path, remote, name, is_dir }, depth) matches Some(
            end,
        ) ==> end.0.len() >= taken.len() && end.0.take(taken.len() as int) == taken && all_below(
            end.0,
            taken.len(),
            remote,
        ),
    decreases depth, 0nat,
{
    if !is_dir {
        let asked = taken.push(WalkActionView::Measure(path));
        if let WalkEventView::Measured { path: _, size } = world(asked) {
            let n = measured(size);
            let opened = asked.push(opening(name, n));
            let now = opened.push(WalkActionView::Send { path, remote, name, size: n });
            let closed = now.push(closing(name, n));
            assert(now.take(taken.len() as int) =~= taken);
            assert(closed.take(taken.len() as int) =~= taken);
            assert(all_below(now, taken.len(), remote));
        }
    } else if depth > 0 {
        let made = taken.push(WalkActionView::MakeDir(remote));
        let read = made.push(WalkActionView::ReadDir(path));
        assert(read.take(taken.len() as int) =~= taken);
        assert(all_below(read, taken.len(), remote));
        if let WalkEventView::Read(Ok(children)) = world(read) {
            let d = (depth - 1) as nat;
            descend_each_below(world, read, remote, children, d);
            if let Some(end) = descend_each(world, read, remote, children, d) {
                let n = read.len() as int;
                assert(end.0.take(taken.len() as int) =~= end.0.take(n).take(taken.len() as int));
                assert forall|i: int| taken.len() <= i < end.0.len() implies goes_below(
                    #[trigger] end.0[i],
                    remote,
                ) by {
                    if i < n {
                        assert(end.0[i] == end.0.take(n)[i]);
                    }
                }
            }
        }
    }
}

proof fn descend_each_below<P>(
    world: World<P>,
    taken: Seq<WalkActionView<P>>,
    remote: Seq<char>,
    children: Seq<Result<ChildView<P>, Seq<char>>>,
    depth: nat,
)
    ensures
        descend_each(world, taken, remote, children, depth) matches Some(end) ==> end.0.len()
            >= taken.len() && end.0.take(taken.len() as int) == taken && all_below(
            end.0,
            taken.len(),
            remote,
        ),
    decreases depth, children.len(),
{
    assert(taken.take(taken.len() as int) =~= taken);
    if children.len() > 0 {
        if let Ok(c) = children[0] {
            let child = joined(remote, c.name);
            descend_below(world, taken, c.path, child, c.name, c.is_dir, depth);
            if let Some(first) = descend(world, taken, child_task(remote, children[0]), depth) {
                child_below(first.0, taken.len(), remote, c.name);
                let rest = children.skip(1);
                if first.1 is Ok {
                    descend_each_below(world, first.0, remote, rest, depth);
                    if let Some(end) = descend_each(world, first.0, remote, rest, depth) {
                        let n = first.0.len() as int;
                        assert(end.0.take(taken.len() as int) =~= end.0.take(n).take(
                            taken.len() as int,
                        ));
                        assert forall|i: int| taken.len() <= i < end.0.len() implies goes_below(
                            #[trigger] end.0[i],
                            remote,
                        ) by {
                            if i < n {
                                assert(end.0[i] == end.0.take(n)[i]);
                            }
                        }
                    }
                }
            }
        }
    }
}

/// Nothing is made or sent on the server but what was picked and what is below
/// it.
pub proof fn law_upload_goes_below<P>(
    world: World<P>,
    path: P,
    remote: Seq<char>,
    name: Seq<char>,
    is_dir: bool,
    depth: nat,
    end: Ending<P>,
)
    requires
        descend(world, Seq::empty(), TaskView::Visit { path, remote, name, is_dir }, depth) == Some(
            end,
        ),
    ensures
        all_below(end.0, 0, remote),
{
    descend_below(world, Seq::empty(), path, remote, name, is_dir, depth);
}

/// Whether the `i`-th action is in its place between the reports: a sending comes
/// right behind the report of its opening, which comes right behind the measuring
/// of its file, and is followed by the report of its closing, which may be missing
/// at the end only where all did not go `well`; and a report is the opening of
/// the sending that follows or the closing of the one before.
pub open spec fn in_frame<P>(
    taken: Seq<WalkActionView<P>>,
    from: nat,
    i: int,
    well: bool,
) -> bool {
    match taken[i] {
        WalkActionView::Send { path, name, size, .. } => {
            &&& i > from + 1
            &&& taken[i - 2] == WalkActionView::Measure(path)
            &&& taken[i - 1] == opening::<P>(name, size)
            &&& i + 1 < taken.len() ==> taken[i + 1] == closing::<P>(name, size)
            &&& well ==> i + 1 < taken.len()
        },
        WalkActionView::Report(_) => {
            ||| i + 1 < taken.len() && (taken[i + 1] matches WalkActionView::Send {
                name,
                size,
                ..
            } && taken[i] == opening::<P>(name, size))
            ||| i > from && (taken[i - 1] matches WalkActionView::Send { name, size, .. }
                && taken[i] == closing::<P>(name, size))
        },
        _ => true,
    }
}

/// Whether every action from the `from`-th on is in its place between the
/// reports.
pub open spec fn framed<P>(taken: Seq<WalkActionView<P>>, from: nat, well: bool) -> bool {
    forall|i: int| from <= i < taken.len() ==> #[trigger] in_frame(taken, from, i, well)
}

proof fn framed_behind<P>(
    first: Seq<WalkActionView<P>>,
    all: Seq<WalkActionView<P>>,
    from: nat,
    well: bool,
)
    requires
        from <= first.len() <= all.len(),
        all.take(first.len() as int) == first,
        framed(first, from, true),
        framed(all, first.len(), well),
    ensures
        framed(all, from, well),
{
    let n = first.len() as int;
    assert forall|i: int| from <= i < all.len() implies #[trigger] in_frame(
        all,
        from,
        i,
        well,
    ) by {
        if i < n {
            assert(in_frame(first, from, i, true));
            assert(all[i] == all.take(n)[i]);
            if i > from {
                assert(all[i - 1] == all.take(n)[i - 1]);
            }
            if i > from + 1 {
                assert(all[i - 2] == all.take(n)[i - 2]);
            }
            if i + 1 < n {
                assert(all[i + 1] == all.take(n)[i + 1]);
            }
        } else {
            assert(in_frame(all, first.len(), i, well));
        }
    }
}

proof fn descend_framed<P>(
    world: World<P>,
    taken: Seq<WalkActionView<P>>,
    t: TaskView<P>,
    depth: nat,
)
    ensures
        descend(world, taken, t, depth) matches Some(end) ==> end.0.len() >= taken.len()
            && end.0.take(taken.len() as int) == taken && framed(
            end.0,
            taken.len(),
            end.1 is Ok,
        ),
    decreases depth, 0nat,
{
    assert(taken.take(taken.len() as int) =~= taken);
    if let TaskView::Visit { path, remote, name, is_dir } = t {
        if !is_dir {
            let asked = taken.push(WalkActionView::Measure(path));
            if let WalkEventView::Measured { path: _, size } = world(asked) {
                let n = measured(size);
                let opened = asked.push(opening(name, n));
                let now = opened.push(WalkActionView::Send { path, remote, name, size: n });
                let closed = now.push(closing(name, n));
                assert(now.take(taken.len() as int) =~= taken);
                assert(closed.take(taken.len() as int) =~= taken);
                assert(framed(now, taken.len(), false));
                assert(framed(closed, taken.len(), true));
            }
        } else if depth > 0 {
            let made = taken.push(WalkActionView::MakeDir(remote));
            let read = made.push(WalkActionView::ReadDir(path));
            assert(read.take(taken.len() as int) =~= taken);
            assert(framed(read, taken.len(), true));
            if let WalkEventView::Read(Ok(children)) = world(read) {
                let d = (depth - 1) as nat;
                descend_each_framed(world, read, remote, children, d);
                if let Some(end) = descend_each(world, read, remote, children, d) {
                    assert(end.0.take(taken.len() as int) =~= end.0.take(read.len() as int).take(
                        taken.len() as int,
                    ));
                    framed_behind(read, end.0, taken.len(), end.1 is Ok);
                }
            }
        }
    }
}

proof fn descend_each_framed<P>(
    world: World<P>,
    taken: Seq<WalkActionView<P>>,
    remote: Seq<char>,
    children: Seq<Result<ChildView<P>, Seq<char>>>,
    depth: nat,
)
    ensures
        descend_each(world, taken, remote, children, depth) matches Some(end) ==> end.0.len()
            >= taken.len() && end.0.take(taken.len() as int) == taken && framed(
            end.0,
            taken.len(),
            end.1 is Ok,
        ),
    decreases depth, children.len(),
{
    assert(taken.take(taken.len() as int) =~= taken);
    if children.len() > 0 {
        let child = child_task(remote, children[0]);
        descend_framed(world, taken, child, depth);
        if let Some(first) = descend(world, taken, child, depth) {
            let rest = children.skip(1);
            if first.1 is Ok {
                descend_each_framed(world, first.0, remote, rest, depth);
                if let Some(end) = descend_each(world, first.0, remote, rest, depth) {
                    assert(end.0.take(taken.len() as int) =~= end.0.take(
                        first.0.len() as int,
                    ).take(taken.len() as int));
                    framed_behind(first.0, end.0, taken.len(), end.1 is Ok);
                }
            }
        }
    }
}

/// Every file is measured and reported right before it is sent, and reported
/// whole right behind; the one that failed, with which it all ends, is not.
pub proof fn law_uploads_are_reported<P>(
    world: World<P>,
    t: TaskView<P>,
    depth: nat,
    end: Ending<P>,
)
    requires
        descend(world, Seq::empty(), t, depth) == Some(end),
    ensures
        framed(end.0, 0, end.1 is Ok),
{
    descend_framed(world, Seq::empty(), t, depth);
}

} // verus!
