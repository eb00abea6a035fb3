//! Downloading a remote file, or a folder with all that it holds.
//!
//! [`do_download`] takes what just happened and says what to do next.
//! [`descend`] is what that amounts to, told as a recursion over the folder.
//!
//! A place on the local disk is given as names that are joined, one after the
//! other, onto the folder that the user chose.

use crate::events::{
    closing_report, file_at, opening_report, Direction, ProgressView, TransferProgress,
};
use crate::listing::{entry_views, EntryView, RemoteEntry};
use crate::path::{join_remote, joined};
use crate::text::{ok_is_ok, outcome_view};
use vstd::prelude::*;

verus! {

/// What a list of names says.
pub open spec fn name_views(names: Seq<String>) -> Seq<Seq<char>> {
    names.map_values(|n: String| n@)
}

/// A file, or a folder with all that it holds, that is still to be fetched.
#[derive(Debug)]
pub struct DownloadTask {
    pub remote: String,
    /// Where it goes.
    pub target: Vec<String>,
    pub name: String,
    pub is_dir: bool,
    pub size: u64,
}

/// What a [`DownloadTask`] says.
pub struct TaskView {
    pub remote: Seq<char>,
    pub target: Seq<Seq<char>>,
    pub name: Seq<char>,
    pub is_dir: bool,
    pub size: u64,
}

impl View for DownloadTask {
    type V = TaskView;

    open spec fn view(&self) -> TaskView {
        TaskView {
            remote: self.remote@,
            target: name_views(self.target@),
            name: self.name@,
            is_dir: self.is_dir,
            size: self.size,
        }
    }
}

/// What just happened.
#[derive(Debug)]
pub enum DownloadEvent {
    /// What the remote folder holds.
    Listed(Result<Vec<RemoteEntry>, String>),
    /// How the making of a folder, or the fetching of a file, went.
    Done(Result<(), String>),
    /// The report was made.
    Reported,
}

/// What a [`DownloadEvent`] says.
pub enum DownloadEventView {
    Listed(Result<Seq<EntryView>, Seq<char>>),
    Done(Result<(), Seq<char>>),
    Reported,
}

impl View for DownloadEvent {
    type V = DownloadEventView;

    open spec fn view(&self) -> DownloadEventView {
        match *self {
            DownloadEvent::Listed(Ok(entries)) => DownloadEventView::Listed(
                Ok(entry_views(entries@)),
            ),
            DownloadEvent::Listed(Err(e)) => DownloadEventView::Listed(Err(e@)),
            DownloadEvent::Done(r) => DownloadEventView::Done(outcome_view(r)),
            DownloadEvent::Reported => DownloadEventView::Reported,
        }
    }
}

/// What to do next.
#[derive(Debug)]
pub enum DownloadAction {
    /// Make this local folder, with those above it.
    MakeDir(Vec<String>),
    /// Ask the server what this folder holds.
    List(String),
    /// Tell the user how far a file is.
    Report(TransferProgress),
    /// Fetch a file.
    Fetch { remote: String, target: Vec<String>, name: String, size: u64 },
    /// Nothing more: this is how it ended.
    Finish(Result<(), String>),
}

/// What a [`DownloadAction`] says.
pub enum DownloadActionView {
    MakeDir(Seq<Seq<char>>),
    List(Seq<char>),
    Report(ProgressView),
    Fetch { remote: Seq<char>, target: Seq<Seq<char>>, name: Seq<char>, size: u64 },
    Finish(Result<(), Seq<char>>),
}

impl View for DownloadAction {
    type V = DownloadActionView;

    open spec fn view(&self) -> DownloadActionView {
        match *self {
            DownloadAction::MakeDir(target) => DownloadActionView::MakeDir(name_views(target@)),
            DownloadAction::List(remote) => DownloadActionView::List(remote@),
            DownloadAction::Report(p) => DownloadActionView::Report(p@),
            DownloadAction::Fetch { remote, target, name, size } => DownloadActionView::Fetch {
                remote: remote@,
                target: name_views(target@),
                name: name@,
                size,
            },
            DownloadAction::Finish(r) => DownloadActionView::Finish(outcome_view(r)),
        }
    }
}

/// What was asked for last.
#[derive(Debug)]
enum Stage {
    /// Nothing.
    Idle,
    /// The local folder is being made; then the remote one is listed.
    Making { remote: String, target: Vec<String> },
    /// The remote folder is being listed.
    Listing { remote: String, target: Vec<String> },
    /// It is being reported that the file's turn has come.
    Opening(DownloadTask),
    /// The file is being fetched.
    Fetching { name: String, size: u64 },
    /// It is being reported that the file has arrived.
    Closing,
}

/// What is known of what was asked for last.
pub enum StageView {
    Idle,
    Making { remote: Seq<char>, target: Seq<Seq<char>> },
    Listing { remote: Seq<char>, target: Seq<Seq<char>> },
    Opening(TaskView),
    Fetching { name: Seq<char>, size: u64 },
    Closing,
}

/// A download in progress.
#[derive(Debug)]
pub struct DownloadWalk {
    /// What is still to be fetched; the last comes first.
    stack: Vec<DownloadTask>,
    stage: Stage,
}

/// What a [`DownloadWalk`] says.
pub struct DownloadView {
    pub stack: Seq<TaskView>,
    pub stage: StageView,
}

impl View for DownloadWalk {
    type V = DownloadView;

    closed spec fn view(&self) -> DownloadView {
        DownloadView {
            stack: self.stack@.map_values(|t: DownloadTask| t@),
            stage: match self.stage {
                Stage::Idle => StageView::Idle,
                Stage::Making { remote, target } => StageView::Making {
                    remote: remote@,
                    target: name_views(target@),
                },
                Stage::Listing { remote, target } => StageView::Listing {
                    remote: remote@,
                    target: name_views(target@),
                },
                Stage::Opening(t) => StageView::Opening(t@),
                Stage::Fetching { name, size } => StageView::Fetching { name: name@, size },
                Stage::Closing => StageView::Closing,
            },
        }
    }
}

/// What is reported before a file is fetched.
pub open spec fn opening(name: Seq<char>, size: u64) -> DownloadActionView {
    DownloadActionView::Report(file_at(Direction::Download, name, 0, size))
}

/// What is reported behind a file that was fetched.
pub open spec fn closing(name: Seq<char>, size: u64) -> DownloadActionView {
    DownloadActionView::Report(file_at(Direction::Download, name, size, size))
}

/// The fetching of a file.
pub open spec fn fetch(t: TaskView) -> DownloadActionView {
    DownloadActionView::Fetch { remote: t.remote, target: t.target, name: t.name, size: t.size }
}

/// An entry of the folder `remote` that goes into `target`.
pub open spec fn child_task(remote: Seq<char>, target: Seq<Seq<char>>, e: EntryView) -> TaskView {
    TaskView {
        remote: joined(remote, e.name),
        target: target.push(e.name),
        name: e.name,
        is_dir: e.is_dir,
        size: e.size,
    }
}

/// The entries of a folder as tasks, the first entry last.
pub open spec fn visits(
    remote: Seq<char>,
    target: Seq<Seq<char>>,
    entries: Seq<EntryView>,
) -> Seq<TaskView> {
    Seq::new(
        entries.len(),
        |i: int| child_task(remote, target, entries[entries.len() - 1 - i]),
    )
}

/// The next thing to do of `stack`.
pub open spec fn resumed(stack: Seq<TaskView>) -> (DownloadView, DownloadActionView) {
    if stack.len() == 0 {
        (DownloadView { stack, stage: StageView::Idle }, DownloadActionView::Finish(Ok(())))
    } else {
        let rest = stack.drop_last();
        let t = stack.last();
        if t.is_dir {
            (
                DownloadView {
                    stack: rest,
                    stage: StageView::Making { remote: t.remote, target: t.target },
                },
                DownloadActionView::MakeDir(t.target),
            )
        } else {
            (
                DownloadView { stack: rest, stage: StageView::Opening(t) },
                opening(t.name, t.size),
            )
        }
    }
}

/// A download that ended with an error: nothing more is done.
pub open spec fn stopped(e: Seq<char>) -> (DownloadView, DownloadActionView) {
    (
        DownloadView { stack: Seq::empty(), stage: StageView::Idle },
        DownloadActionView::Finish(Err(e)),
    )
}

impl DownloadView {
    /// Whether this answers what was done last.
    pub open spec fn expects(self, event: DownloadEventView) -> bool {
        match event {
            DownloadEventView::Listed(_) => self.stage is Listing,
            DownloadEventView::Done(_) => self.stage is Making || self.stage is Fetching,
            DownloadEventView::Reported => self.stage is Opening || self.stage is Closing,
        }
    }

    /// What follows: a folder is made, then listed, then its entries are
    /// fetched in order; a file is reported, fetched, and where that went well
    /// reported again; the first error ends it all.
    pub open spec fn after(self, event: DownloadEventView) -> (DownloadView, DownloadActionView) {
        match (event, self.stage) {
            (
                DownloadEventView::Listed(Ok(entries)),
                StageView::Listing { remote, target },
            ) => resumed(self.stack + visits(remote, target, entries)),
            (DownloadEventView::Listed(Err(e)), _) => stopped(e),
            (DownloadEventView::Done(Err(e)), _) => stopped(e),
            (DownloadEventView::Done(Ok(_)), StageView::Making { remote, target }) => (
                DownloadView { stack: self.stack, stage: StageView::Listing { remote, target } },
                DownloadActionView::List(remote),
            ),
            (DownloadEventView::Done(Ok(_)), StageView::Fetching { name, size }) => (
                DownloadView { stack: self.stack, stage: StageView::Closing },
                closing(name, size),
            ),
            (DownloadEventView::Reported, StageView::Opening(t)) => (
                DownloadView {
                    stack: self.stack,
                    stage: StageView::Fetching { name: t.name, size: t.size },
                },
                fetch(t),
            ),
            _ => resumed(self.stack),
        }
    }
}

/// A copy of a list of names.
pub fn copy_names(names: &Vec<String>) -> (r: Vec<String>)
    ensures
        name_views(r@) == name_views(names@),
{
    let mut r: Vec<String> = Vec::new();
    let mut i: usize = 0;
    while i < names.len()
        invariant
            i <= names.len(),
            r.len() == i,
            forall|j: int| 0 <= j < i ==> (#[trigger] r@[j])@ == names@[j]@,
        decreases names.len() - i,
    {
        r.push(names[i].clone());
        i = i + 1;
    }
    proof {
        assert(name_views(r@) =~= name_views(names@));
    }
    r
}

impl DownloadWalk {
    /// Begins to fetch a file, or a folder with all that it holds, into the
    /// folder that the user chose.
    pub fn start(remote: &str, name: &str, is_dir: bool, size: u64) -> (r: (
        DownloadWalk,
        DownloadAction,
    ))
        ensures
            (r.0@, r.1@) == resumed(
                seq![TaskView { remote: remote@, target: seq![name@], name: name@, is_dir, size }],
            ),
    {
        let mut target: Vec<String> = Vec::new();
        target.push(name.to_owned());
        proof {
            assert(name_views(target@) =~= seq![name@]);
        }
        let mut stack: Vec<DownloadTask> = Vec::new();
        stack.push(
            DownloadTask { remote: remote.to_owned(), target, name: name.to_owned(), is_dir, size },
        );
        proof {
            assert(stack@.map_values(|t: DownloadTask| t@) =~= seq![
                TaskView { remote: remote@, target: seq![name@], name: name@, is_dir, size },
            ]);
        }
        resume(stack)
    }

    /// Whether this answers what was done last.
    pub fn accepts(&self, event: &DownloadEvent) -> (r: bool)
        ensures
            r == self@.expects(event@),
    {
        match event {
            DownloadEvent::Listed(_) => matches!(self.stage, Stage::Listing { .. }),
            DownloadEvent::Done(_) => matches!(
                self.stage,
                Stage::Making { .. } | Stage::Fetching { .. }
            ),
            DownloadEvent::Reported => matches!(self.stage, Stage::Opening(_) | Stage::Closing),
        }
    }
}

/// Takes the next thing to do off `stack`.
fn resume(stack: Vec<DownloadTask>) -> (r: (DownloadWalk, DownloadAction))
    ensures
        (r.0@, r.1@) == resumed(stack@.map_values(|t: DownloadTask| t@)),
{
    let ghost views = stack@.map_values(|t: DownloadTask| t@);
    let mut stack = stack;
    let top = stack.pop();
    proof {
        if views.len() > 0 {
            assert(stack@.map_values(|t: DownloadTask| t@) =~= views.drop_last());
            assert(views.last() == top->0@);
        }
    }
    match top {
        Some(t) => {
            if t.is_dir {
                let target = copy_names(&t.target);
                (
                    DownloadWalk {
                        stack,
                        stage: Stage::Making { remote: t.remote, target: t.target },
                    },
                    DownloadAction::MakeDir(target),
                )
            } else {
                let report = opening_report(Direction::Download, t.name.as_str(), t.size);
                (DownloadWalk { stack, stage: Stage::Opening(t) }, DownloadAction::Report(report))
            }
        },
        None => (DownloadWalk { stack, stage: Stage::Idle }, DownloadAction::Finish(Ok(()))),
    }
}

/// Ends a download with an error.
fn stop(e: String) -> (r: (DownloadWalk, DownloadAction))
    ensures
        (r.0@, r.1@) == stopped(e@),
{
    let stack: Vec<DownloadTask> = Vec::new();
    proof {
        assert(stack@.map_values(|t: DownloadTask| t@) =~= Seq::empty());
    }
    (DownloadWalk { stack, stage: Stage::Idle }, DownloadAction::Finish(Err(e)))
}

/// Puts the entries of the folder `remote` on the stack, the first on top.
fn push_entries(
    stack: Vec<DownloadTask>,
    remote: &String,
    target: &Vec<String>,
    entries: &Vec<RemoteEntry>,
) -> (r: Vec<DownloadTask>)
    ensures
        r@.map_values(|t: DownloadTask| t@) == stack@.map_values(|t: DownloadTask| t@) + visits(
            remote@,
            name_views(target@),
            entry_views(entries@),
        ),
{
    let ghost base = stack@.map_values(|t: DownloadTask| t@);
    let ghost views = entry_views(entries@);
    let ghost all = visits(remote@, name_views(target@), views);
    let mut stack = stack;
    let mut i: usize = entries.len();
    proof {
        assert(all.take(0) =~= Seq::empty());
        assert(base + Seq::<TaskView>::empty() =~= base);
    }
    while i > 0
        invariant
            i <= entries.len(),
            views == entry_views(entries@),
            all == visits(remote@, name_views(target@), views),
            stack@.map_values(|t: DownloadTask| t@) == base + all.take(entries.len() - i),
        decreases i,
    {
        i = i - 1;
        let ghost k = entries.len() - 1 - i;
        let ghost prior = stack@;
        let e = &entries[i];
        let mut place = copy_names(target);
        let ghost above = place@;
        place.push(e.name.clone());
        proof {
            assert(name_views(place@) =~= name_views(above).push(e.name@));
        }
        stack.push(
            DownloadTask {
                remote: join_remote(remote.as_str(), e.name.as_str()),
                target: place,
                name: e.name.clone(),
                is_dir: e.is_dir,
                size: e.size,
            },
        );
        proof {
            assert(views[i as int] == entries@[i as int]@);
            assert(all[k] == stack@.last()@);
            assert(all.take(k + 1) =~= all.take(k).push(stack@.last()@));
            assert(stack@.map_values(|t: DownloadTask| t@) =~= prior.map_values(
                |t: DownloadTask| t@,
            ).push(stack@.last()@));
        }
    }
    proof {
        assert(all.take(entries.len() as int) =~= all);
    }
    stack
}

/// Takes what just happened and says what to do next.
pub fn do_download(walk: DownloadWalk, event: DownloadEvent) -> (r: (DownloadWalk, DownloadAction))
    requires
        walk@.expects(event@),
    ensures
        (r.0@, r.1@) == walk@.after(event@),
{
    let stack = walk.stack;
    match (event, walk.stage) {
        (DownloadEvent::Listed(Ok(entries)), Stage::Listing { remote, target }) => resume(
            push_entries(stack, &remote, &target, &entries),
        ),
        (DownloadEvent::Listed(Err(e)), _) => stop(e),
        (DownloadEvent::Done(Err(e)), _) => stop(e),
        (DownloadEvent::Done(Ok(_)), Stage::Making { remote, target }) => {
            let folder = remote.clone();
            (
                DownloadWalk { stack, stage: Stage::Listing { remote, target } },
                DownloadAction::List(folder),
            )
        },
        (DownloadEvent::Done(Ok(_)), Stage::Fetching { name, size }) => {
            let report = closing_report(Direction::Download, name.as_str(), size);
            (DownloadWalk { stack, stage: Stage::Closing }, DownloadAction::Report(report))
        },
        (DownloadEvent::Reported, Stage::Opening(t)) => {
            let name = t.name.clone();
            let size: u64 = t.size;
            (
                DownloadWalk { stack, stage: Stage::Fetching { name, size } },
                DownloadAction::Fetch {
                    remote: t.remote,
                    target: t.target,
                    name: t.name,
                    size: t.size,
                },
            )
        },
        _ => resume(stack),
    }
}

// ---------------------------------------------------------------------------
// The same, told as a recursion
// ---------------------------------------------------------------------------

/// The server and the local disk: what comes back of the last of these actions.
pub type World = spec_fn(Seq<DownloadActionView>) -> DownloadEventView;

/// The actions taken and how it ended.
pub type Ending = (Seq<DownloadActionView>, Result<(), Seq<char>>);

/// One action that either works or fails.
pub open spec fn act(world: World, taken: Seq<DownloadActionView>, action: DownloadActionView) -> Option<
    Ending,
> {
    let now = taken.push(action);
    match world(now) {
        DownloadEventView::Done(r) => Some((now, r)),
        _ => None,
    }
}

/// A report, which cannot fail.
pub open spec fn tell(
    world: World,
    taken: Seq<DownloadActionView>,
    report: DownloadActionView,
) -> Option<Ending> {
    let now = taken.push(report);
    match world(now) {
        DownloadEventView::Reported => Some((now, Ok(()))),
        _ => None,
    }
}

/// The transfer of a file: it is reported, fetched, and where that went well
/// reported again.
pub open spec fn fetched(
    world: World,
    taken: Seq<DownloadActionView>,
    t: TaskView,
) -> Option<Ending> {
    match tell(world, taken, opening(t.name, t.size)) {
        Some((opened, _)) => match act(world, opened, fetch(t)) {
            Some((got, Ok(_))) => tell(world, got, closing(t.name, t.size)),
            other => other,
        },
        None => None,
    }
}

/// Fetching `t`, told as a recursion: a file is reported and fetched; for a folder, the local
/// one is made, the remote one is listed and each of its entries is fetched in
/// the order of the listing. The first error ends it. `None` where folders nest
/// deeper than `depth` or something comes back that was not asked for.
pub open spec fn descend(
    world: World,
    taken: Seq<DownloadActionView>,
    t: TaskView,
    depth: nat,
) -> Option<Ending>
    decreases depth, 0nat,
{
    if !t.is_dir {
        fetched(world, taken, t)
    } else if depth == 0 {
        None
    } else {
        match act(world, taken, DownloadActionView::MakeDir(t.target)) {
            Some((made, Ok(()))) => {
                let listed = made.push(DownloadActionView::List(t.remote));
                match world(listed) {
                    DownloadEventView::Listed(Ok(entries)) => descend_each(
                        world,
                        listed,
                        t.remote,
                        t.target,
                        entries,
                        (depth - 1) as nat,
                    ),
                    DownloadEventView::Listed(Err(e)) => Some((listed, Err(e))),
                    _ => None,
                }
            },
            other => other,
        }
    }
}

/// Fetching the entries of a folder one after the other.
pub open spec fn descend_each(
    world: World,
    taken: Seq<DownloadActionView>,
    remote: Seq<char>,
    target: Seq<Seq<char>>,
    entries: Seq<EntryView>,
    depth: nat,
) -> Option<Ending>
    decreases depth, entries.len(),
{
    if entries.len() == 0 {
        Some((taken, Ok(())))
    } else {
        match descend(world, taken, child_task(remote, target, entries[0]), depth) {
            Some((next, Ok(()))) => descend_each(
                world,
                next,
                remote,
                target,
                entries.skip(1),
                depth,
            ),
            other => other,
        }
    }
}

/// A walk carried out for at most `actions` actions.
pub open spec fn carried_out(
    world: World,
    taken: Seq<DownloadActionView>,
    walk: DownloadView,
    action: DownloadActionView,
    actions: nat,
) -> Option<Ending>
    decreases actions,
{
    match action {
        DownloadActionView::Finish(r) => Some((taken, r)),
        _ => {
            let now = taken.push(action);
            if actions == 0 || !walk.expects(world(now)) {
                None
            } else {
                let (next, then) = walk.after(world(now));
                carried_out(world, now, next, then, (actions - 1) as nat)
            }
        },
    }
}

/// A stack of tasks carried out.
pub open spec fn stack_carried_out(
    world: World,
    taken: Seq<DownloadActionView>,
    stack: Seq<TaskView>,
    actions: nat,
) -> Option<Ending> {
    carried_out(world, taken, resumed(stack).0, resumed(stack).1, actions)
}

proof fn descend_grows(world: World, taken: Seq<DownloadActionView>, t: TaskView, depth: nat)
    ensures
        descend(world, taken, t, depth) matches Some(end) ==> end.0.len() >= taken.len(),
    decreases depth, 0nat,
{
    if t.is_dir && depth > 0 {
        match act(world, taken, DownloadActionView::MakeDir(t.target)) {
            Some((made, Ok(()))) => {
                let listed = made.push(DownloadActionView::List(t.remote));
                match world(listed) {
                    DownloadEventView::Listed(Ok(entries)) => {
                        descend_each_grows(
                            world,
                            listed,
                            t.remote,
                            t.target,
                            entries,
                            (depth - 1) as nat,
                        );
                    },
                    _ => {},
                }
            },
            _ => {},
        }
    }
}

proof fn descend_each_grows(
    world: World,
    taken: Seq<DownloadActionView>,
    remote: Seq<char>,
    target: Seq<Seq<char>>,
    entries: Seq<EntryView>,
    depth: nat,
)
    ensures
        descend_each(world, taken, remote, target, entries, depth) matches Some(end)
            ==> end.0.len() >= taken.len(),
    decreases depth, entries.len(),
{
    if entries.len() > 0 {
        let child = child_task(remote, target, entries[0]);
        descend_grows(world, taken, child, depth);
        match descend(world, taken, child, depth) {
            Some((next, Ok(()))) => {
                descend_each_grows(world, next, remote, target, entries.skip(1), depth);
            },
            _ => {},
        }
    }
}

/// Carrying out a task and then `base` is the recursion and then `base`.
proof fn visit_is_descend(
    world: World,
    taken: Seq<DownloadActionView>,
    t: TaskView,
    depth: nat,
    base: Seq<TaskView>,
    more: nat,
    end: Ending,
)
    requires
        descend(world, taken, t, depth) == Some(end),
    ensures
        end.0.len() >= taken.len(),
        stack_carried_out(
            world,
            taken,
            base.push(t),
            (more + end.0.len() - taken.len()) as nat,
        ) == match end.1 {
            Ok(()) => stack_carried_out(world, end.0, base, more),
            Err(e) => Some(end),
        },
    decreases depth, 0nat,
{
    reveal_with_fuel(carried_out, 4);
    descend_grows(world, taken, t, depth);
    ok_is_ok(end.1);
    let stack = base.push(t);
    assert(stack.drop_last() =~= base);
    if t.is_dir {
        let made = taken.push(DownloadActionView::MakeDir(t.target));
        let listed = made.push(DownloadActionView::List(t.remote));
        let actions = (more + end.0.len() - taken.len()) as nat;
        match world(made) {
            DownloadEventView::Done(Ok(())) => {
                match world(listed) {
                    DownloadEventView::Listed(Ok(entries)) => {
                        descend_each_grows(
                            world,
                            listed,
                            t.remote,
                            t.target,
                            entries,
                            (depth - 1) as nat,
                        );
                        assert(stack_carried_out(world, taken, stack, actions)
                            == stack_carried_out(
                            world,
                            listed,
                            base + visits(t.remote, t.target, entries),
                            (actions - 2) as nat,
                        ));
                        visits_are_descend_each(
                            world,
                            listed,
                            t.remote,
                            t.target,
                            entries,
                            (depth - 1) as nat,
                            base,
                            more,
                            end,
                        );
                    },
                    _ => {},
                }
            },
            _ => {},
        }
    }
}

/// Carrying out the tasks of a folder's entries and then `base` is the recursion
/// over the entries and then `base`.
proof fn visits_are_descend_each(
    world: World,
    taken: Seq<DownloadActionView>,
    remote: Seq<char>,
    target: Seq<Seq<char>>,
    entries: Seq<EntryView>,
    depth: nat,
    base: Seq<TaskView>,
    more: nat,
    end: Ending,
)
    requires
        descend_each(world, taken, remote, target, entries, depth) == Some(end),
    ensures
        end.0.len() >= taken.len(),
        stack_carried_out(
            world,
            taken,
            base + visits(remote, target, entries),
            (more + end.0.len() - taken.len()) as nat,
        ) == match end.1 {
            Ok(()) => stack_carried_out(world, end.0, base, more),
            Err(e) => Some(end),
        },
    decreases depth, entries.len(),
{
    descend_each_grows(world, taken, remote, target, entries, depth);
    if entries.len() == 0 {
        assert(base + visits(remote, target, entries) =~= base);
    } else {
        let child = child_task(remote, target, entries[0]);
        let rest = entries.skip(1);
        let below = base + visits(remote, target, rest);
        assert(base + visits(remote, target, entries) =~= below.push(child));
        let first = descend(world, taken, child, depth)->0;
        descend_grows(world, taken, child, depth);
        match first.1 {
            Ok(()) => {
                descend_each_grows(world, first.0, remote, target, rest, depth);
                let between = (more + end.0.len() - first.0.len()) as nat;
                visit_is_descend(world, taken, child, depth, below, between, first);
                visits_are_descend_each(
                    world,
                    first.0,
                    remote,
                    target,
                    rest,
                    depth,
                    base,
                    more,
                    end,
                );
            },
            Err(e) => {
                visit_is_descend(world, taken, child, depth, below, more, first);
            },
        }
    }
}

/// Whatever the server and the disk answer, a walk takes the actions that the
/// recursion takes, in the same order, and ends as it ends.
pub proof fn law_walk_is_recursion(world: World, t: TaskView, depth: nat, end: Ending)
    requires
        descend(world, Seq::empty(), t, depth) == Some(end),
    ensures
        stack_carried_out(world, Seq::empty(), seq![t], end.0.len()) == Some(end),
{
    visit_is_descend(world, Seq::empty(), t, depth, Seq::empty(), 0, end);
    ok_is_ok(end.1);
    assert(Seq::<TaskView>::empty().push(t) =~= seq![t]);
}

/// The path of what is reached from `base` through these names.
pub open spec fn joined_all(base: Seq<char>, names: Seq<Seq<char>>) -> Seq<char>
    decreases names.len(),
{
    if names.len() == 0 {
        base
    } else {
        joined(joined_all(base, names.drop_last()), names.last())
    }
}

proof fn joined_all_first(base: Seq<char>, first: Seq<char>, names: Seq<Seq<char>>)
    ensures
        joined_all(base, seq![first] + names) == joined_all(joined(base, first), names),
    decreases names.len(),
{
    let all = seq![first] + names;
    if names.len() == 0 {
        assert(all =~= seq![first]);
        assert(seq![first].drop_last() =~= Seq::empty());
        reveal_with_fuel(joined_all, 2);
    } else {
        assert(all.drop_last() =~= seq![first] + names.drop_last());
        assert(all.last() == names.last());
        joined_all_first(base, first, names.drop_last());
    }
}

/// Whether `target` is where `t` goes or below it.
pub open spec fn within(t: TaskView, target: Seq<Seq<char>>) -> bool {
    &&& t.target.len() <= target.len()
    &&& target.take(t.target.len() as int) == t.target
}

/// Whether `target` stands to where `t` goes as `remote` stands to where `t` is.
pub open spec fn mirrors(t: TaskView, remote: Seq<char>, target: Seq<Seq<char>>) -> bool {
    &&& within(t, target)
    &&& remote == joined_all(t.remote, target.skip(t.target.len() as int))
}

/// Whether what an action puts on the disk has its place there.
pub open spec fn in_place(t: TaskView, action: DownloadActionView) -> bool {
    match action {
        DownloadActionView::Fetch { remote, target, name, .. } => {
            &&& mirrors(t, remote, target)
            &&& target.len() > 0
            &&& name == target.last()
        },
        DownloadActionView::MakeDir(target) => within(t, target),
        _ => true,
    }
}

/// Whether all that was done from the `from`-th action on has its place.
pub open spec fn all_in_place(taken: Seq<DownloadActionView>, from: nat, t: TaskView) -> bool {
    forall|i: int| from <= i < taken.len() ==> in_place(t, #[trigger] taken[i])
}

/// Whether a task goes under the name it says.
pub open spec fn named(t: TaskView) -> bool {
    t.target.len() > 0 && t.target.last() == t.name
}

proof fn mirrors_self(t: TaskView)
    ensures
        mirrors(t, t.remote, t.target),
{
    assert(t.target.take(t.target.len() as int) =~= t.target);
    assert(t.target.skip(t.target.len() as int) =~= Seq::empty());
}

proof fn child_mirrors(t: TaskView, e: EntryView, remote: Seq<char>, target: Seq<Seq<char>>)
    requires
        mirrors(child_task(t.remote, t.target, e), remote, target),
    ensures
        mirrors(t, remote, target),
{
    let child = child_task(t.remote, t.target, e);
    let n = t.target.len() as int;
    assert(child.target.take(n) =~= t.target);
    assert(target.take(n) =~= target.take(n + 1).take(n));
    assert(target[n] == target.take(n + 1)[n]);
    assert(target.skip(n) =~= seq![e.name] + target.skip(n + 1));
    joined_all_first(t.remote, e.name, target.skip(n + 1));
}

proof fn child_in_place(taken: Seq<DownloadActionView>, from: nat, t: TaskView, e: EntryView)
    requires
        all_in_place(taken, from, child_task(t.remote, t.target, e)),
    ensures
        all_in_place(taken, from, t),
{
    let child = child_task(t.remote, t.target, e);
    assert forall|i: int| from <= i < taken.len() implies in_place(t, #[trigger] taken[i]) by {
        assert(in_place(child, taken[i]));
        match taken[i] {
            DownloadActionView::Fetch { remote, target, .. } => {
                child_mirrors(t, e, remote, target);
            },
            DownloadActionView::MakeDir(target) => {
                let n = t.target.len() as int;
                assert(child.target.take(n) =~= t.target);
                assert(target.take(n) =~= target.take(n + 1).take(n));
            },
            _ => {},
        }
    }
}

proof fn descend_in_place(world: World, taken: Seq<DownloadActionView>, t: TaskView, depth: nat)
    requires
        named(t),
    ensures
        descend(world, taken, t, depth) matches Some(end) ==> end.0.len() >= taken.len()
            && end.0.take(taken.len() as int) == taken && all_in_place(end.0, taken.len(), t),
    decreases depth, 0nat,
{
    mirrors_self(t);
    if !t.is_dir {
        let opened = taken.push(opening(t.name, t.size));
        let got = opened.push(fetch(t));
        let closed = got.push(closing(t.name, t.size));
        assert(got.take(taken.len() as int) =~= taken);
        assert(closed.take(taken.len() as int) =~= taken);
        assert(all_in_place(got, taken.len(), t));
    } else if depth > 0 {
        let made = taken.push(DownloadActionView::MakeDir(t.target));
        let listed = made.push(DownloadActionView::List(t.remote));
        assert(made.take(taken.len() as int) =~= taken);
        assert(listed.take(taken.len() as int) =~= taken);
        assert(all_in_place(listed, taken.len(), t));
        if let DownloadEventView::Listed(Ok(entries)) = world(listed) {
            let d = (depth - 1) as nat;
            descend_each_in_place(world, listed, t, entries, d);
            if let Some(end) = descend_each(world, listed, t.remote, t.target, entries, d) {
                assert(end.0.take(taken.len() as int) =~= end.0.take(listed.len() as int).take(
                    taken.len() as int,
                ));
                assert forall|i: int| taken.len() <= i < end.0.len() implies in_place(
                    t,
                    #[trigger] end.0[i],
                ) by {
                    if i < listed.len() {
                        assert(end.0[i] == end.0.take(listed.len() as int)[i]);
                    }
                }
            }
        }
    }
}

proof fn descend_each_in_place(
    world: World,
    taken: Seq<DownloadActionView>,
    t: TaskView,
    entries: Seq<EntryView>,
    depth: nat,
)
    ensures
        descend_each(world, taken, t.remote, t.target, entries, depth) matches Some(end)
            ==> end.0.len() >= taken.len() && end.0.take(taken.len() as int) == taken
            && all_in_place(end.0, taken.len(), t),
    decreases depth, entries.len(),
{
    if entries.len() == 0 {
        assert(taken.take(taken.len() as int) =~= taken);
    } else {
        let child = child_task(t.remote, t.target, entries[0]);
        descend_in_place(world, taken, child, depth);
        if let Some(first) = descend(world, taken, child, depth) {
            child_in_place(first.0, taken.len(), t, entries[0]);
            let rest = entries.skip(1);
            if first.1 is Ok {
                descend_each_in_place(world, first.0, t, rest, depth);
                if let Some(end) = descend_each(world, first.0, t.remote, t.target, rest, depth) {
                    let n = first.0.len() as int;
                    assert(end.0.take(taken.len() as int) =~= end.0.take(n).take(
                        taken.len() as int,
                    ));
                    assert forall|i: int| taken.len() <= i < end.0.len() implies in_place(
                        t,
                        #[trigger] end.0[i],
                    ) by {
                        if i < n {
                            assert(end.0[i] == end.0.take(n)[i]);
                        }
                    }
                }
            }
        }
    }
}

/// Every file lands where it was: the names that lead to it on the server from
/// what was picked lead to it on the disk from where that goes, and it is
/// reported under the last of them.
pub proof fn law_download_mirrors(world: World, t: TaskView, depth: nat, end: Ending)
    requires
        named(t),
        descend(world, Seq::empty(), t, depth) == Some(end),
    ensures
        all_in_place(end.0, 0, t),
{
    descend_in_place(world, Seq::empty(), t, depth);
}

/// Whether the `i`-th action is in its place between the reports: a fetch comes
/// right behind the report of its opening and is followed by that of its closing,
/// which may be missing at the end only where all did not go `well`; and a report
/// is the opening of the fetch that follows or the closing of the one before.
pub open spec fn in_frame(
    taken: Seq<DownloadActionView>,
    from: nat,
    i: int,
    well: bool,
) -> bool {
    match taken[i] {
        DownloadActionView::Fetch { name, size, .. } => {
            &&& i > from
            &&& taken[i - 1] == opening(name, size)
            &&& i + 1 < taken.len() ==> taken[i + 1] == closing(name, size)
            &&& well ==> i + 1 < taken.len()
        },
        DownloadActionView::Report(_) => {
            ||| i + 1 < taken.len() && (taken[i + 1] matches DownloadActionView::Fetch {
                name,
                size,
                ..
            } && taken[i] == opening(name, size))
            ||| i > from && (taken[i - 1] matches DownloadActionView::Fetch { name, size, .. }
                && taken[i] == closing(name, size))
        },
        _ => true,
    }
}

/// Whether every action from the `from`-th on is in its place between the
/// reports.
pub open spec fn framed(taken: Seq<DownloadActionView>, from: nat, well: bool) -> bool {
    forall|i: int| from <= i < taken.len() ==> #[trigger] in_frame(taken, from, i, well)
}

proof fn framed_behind(
    first: Seq<DownloadActionView>,
    all: Seq<DownloadActionView>,
    from: nat,
    well: bool,
)
    requires
        from <= first.len() <= all.len(),
        all.take(first.len() as int) == first,
        framed(first, from, true),
        framed(all, first.len(), well),
    ensures
        framed(all, from, well),
{
    let n = first.len() as int;
    assert forall|i: int| from <= i < all.len() implies #[trigger] in_frame(
        all,
        from,
        i,
        well,
    ) by {
        if i < n {
            assert(in_frame(first, from, i, true));
            assert(all[i] == all.take(n)[i]);
            if i > from {
                assert(all[i - 1] == all.take(n)[i - 1]);
            }
            if i + 1 < n {
                assert(all[i + 1] == all.take(n)[i + 1]);
            }
        } else {
            assert(in_frame(all, first.len(), i, well));
        }
    }
}

proof fn descend_framed(world: World, taken: Seq<DownloadActionView>, t: TaskView, depth: nat)
    ensures
        descend(world, taken, t, depth) matches Some(end) ==> end.0.len() >= taken.len()
            && end.0.take(taken.len() as int) == taken && framed(
            end.0,
            taken.len(),
            end.1 is Ok,
        ),
    decreases depth, 0nat,
{
    if !t.is_dir {
        let opened = taken.push(opening(t.name, t.size));
        let got = opened.push(fetch(t));
        let closed = got.push(closing(t.name, t.size));
        assert(got.take(taken.len() as int) =~= taken);
        assert(closed.take(taken.len() as int) =~= taken);
        assert(framed(got, taken.len(), false));
        assert(framed(closed, taken.len(), true));
    } else if depth > 0 {
        let made = taken.push(DownloadActionView::MakeDir(t.target));
        let listed = made.push(DownloadActionView::List(t.remote));
        assert(made.take(taken.len() as int) =~= taken);
        assert(listed.take(taken.len() as int) =~= taken);
        assert(framed(made, taken.len(), true));
        assert(framed(listed, taken.len(), true));
        if let DownloadEventView::Listed(Ok(entries)) = world(listed) {
            let d = (depth - 1) as nat;
            descend_each_framed(world, listed, t.remote, t.target, entries, d);
            if let Some(end) = descend_each(world, listed, t.remote, t.target, entries, d) {
                assert(end.0.take(taken.len() as int) =~= end.0.take(listed.len() as int).take(
                    taken.len() as int,
                ));
                framed_behind(listed, end.0, taken.len(), end.1 is Ok);
            }
        }
    }
}

proof fn descend_each_framed(
    world: World,
    taken: Seq<DownloadActionView>,
    remote: Seq<char>,
    target: Seq<Seq<char>>,
    entries: Seq<EntryView>,
    depth: nat,
)
    ensures
        descend_each(world, taken, remote, target, entries, depth) matches Some(end)
            ==> end.0.len() >= taken.len() && end.0.take(taken.len() as int) == taken && framed(
            end.0,
            taken.len(),
            end.1 is Ok,
        ),
    decreases depth, entries.len(),
{
    assert(taken.take(taken.len() as int) =~= taken);
    if entries.len() > 0 {
        let child = child_task(remote, target, entries[0]);
        descend_framed(world, taken, child, depth);
        if let Some(first) = descend(world, taken, child, depth) {
            let rest = entries.skip(1);
            if first.1 is Ok {
                descend_each_framed(world, first.0, remote, target, rest, depth);
                if let Some(end) = descend_each(world, first.0, remote, target, rest, depth) {
                    assert(end.0.take(taken.len() as int) =~= end.0.take(
                        first.0.len() as int,
                    ).take(taken.len() as int));
                    framed_behind(first.0, end.0, taken.len(), end.1 is Ok);
                }
            }
        }
    }
}

/// Every file is reported right before it is fetched, and reported whole right
/// behind; the one that failed, with which it all ends, is not.
pub proof fn law_downloads_are_reported(world: World, t: TaskView, depth: nat, end: Ending)
    requires
        descend(world, Seq::empty(), t, depth) == Some(end),
    ensures
        framed(end.0, 0, end.1 is Ok),
{
    descend_framed(world, Seq::empty(), t, depth);
}

} // verus!
