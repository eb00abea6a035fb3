//! Deleting a remote file, or a folder with all that it holds.
//!
//! [`do_delete`] takes what the server just answered and says what to ask of
//! it next. [`descend`] is what that amounts to, told as a recursion over the
//! folder.

use crate::listing::{entry_views, EntryView, RemoteEntry};
use crate::path::{at_or_below, join_remote, joined, law_below_child};
use crate::text::{ok_is_ok, outcome_view, text_view};
use vstd::prelude::*;

verus! {

/// Something that is still to be done.
#[derive(Debug)]
pub enum DeleteTask {
    /// Delete a file, or a folder with all that it holds.
    Visit { path: String, is_dir: bool },
    /// Delete a folder that has been emptied.
    Remove { path: String },
}

/// What a [`DeleteTask`] says.
pub enum TaskView {
    Visit { path: Seq<char>, is_dir: bool },
    Remove { path: Seq<char> },
}

impl View for DeleteTask {
    type V = TaskView;

    open spec fn view(&self) -> TaskView {
        match *self {
            DeleteTask::Visit { path, is_dir } => TaskView::Visit { path: path@, is_dir },
            DeleteTask::Remove { path } => TaskView::Remove { path: path@ },
        }
    }
}

/// What the server answered.
#[derive(Debug)]
pub enum DeleteEvent {
    /// What the folder holds.
    Listed(Result<Vec<RemoteEntry>, String>),
    /// How a deletion went.
    Done(Result<(), String>),
}

/// What a [`DeleteEvent`] says.
pub enum DeleteEventView {
    Listed(Result<Seq<EntryView>, Seq<char>>),
    Done(Result<(), Seq<char>>),
}

impl View for DeleteEvent {
    type V = DeleteEventView;

    open spec fn view(&self) -> DeleteEventView {
        match *self {
            DeleteEvent::Listed(Ok(entries)) => DeleteEventView::Listed(Ok(entry_views(entries@))),
            DeleteEvent::Listed(Err(e)) => DeleteEventView::Listed(Err(e@)),
            DeleteEvent::Done(r) => DeleteEventView::Done(outcome_view(r)),
        }
    }
}

/// What to ask of the server next.
#[derive(Debug)]
pub enum DeleteAction {
    List(String),
    DeleteFile(String),
    DeleteDir(String),
    /// Nothing more: this is how it ended.
    Finish(Result<(), String>),
}

/// What a [`DeleteAction`] says.
pub enum DeleteActionView {
    List(Seq<char>),
    DeleteFile(Seq<char>),
    DeleteDir(Seq<char>),
    Finish(Result<(), Seq<char>>),
}

impl View for DeleteAction {
    type V = DeleteActionView;

    open spec fn view(&self) -> DeleteActionView {
        match *self {
            DeleteAction::List(p) => DeleteActionView::List(p@),
            DeleteAction::DeleteFile(p) => DeleteActionView::DeleteFile(p@),
            DeleteAction::DeleteDir(p) => DeleteActionView::DeleteDir(p@),
            DeleteAction::Finish(r) => DeleteActionView::Finish(outcome_view(r)),
        }
    }
}

/// A deletion in progress.
#[derive(Debug)]
pub struct DeleteWalk {
    /// What is still to be done; the last comes first.
    stack: Vec<DeleteTask>,
    /// The folder of which the server was asked what it holds.
    listing: Option<String>,
}

/// What a [`DeleteWalk`] says.
pub struct DeleteView {
    pub stack: Seq<TaskView>,
    pub listing: Option<Seq<char>>,
}

impl View for DeleteWalk {
    type V = DeleteView;

    closed spec fn view(&self) -> DeleteView {
        DeleteView {
            stack: self.stack@.map_values(|t: DeleteTask| t@),
            listing: text_view(self.listing),
        }
    }
}

/// The entries of a folder as tasks, the first entry last.
pub open spec fn visits(path: Seq<char>, entries: Seq<EntryView>) -> Seq<TaskView> {
    Seq::new(
        entries.len(),
        |i: int|
            TaskView::Visit {
                path: joined(path, entries[entries.len() - 1 - i].name),
                is_dir: entries[entries.len() - 1 - i].is_dir,
            },
    )
}

/// The next thing to do of `stack`.
pub open spec fn resumed(stack: Seq<TaskView>) -> (DeleteView, DeleteActionView) {
    if stack.len() == 0 {
        (DeleteView { stack, listing: None }, DeleteActionView::Finish(Ok(())))
    } else {
        let rest = stack.drop_last();
        match stack.last() {
            TaskView::Visit { path, is_dir } => if is_dir {
                (DeleteView { stack: rest, listing: Some(path) }, DeleteActionView::List(path))
            } else {
                (DeleteView { stack: rest, listing: None }, DeleteActionView::DeleteFile(path))
            },
            TaskView::Remove { path } => (
                DeleteView { stack: rest, listing: None },
                DeleteActionView::DeleteDir(path),
            ),
        }
    }
}

/// A deletion that ended with an error: nothing more is done.
pub open spec fn stopped(e: Seq<char>) -> (DeleteView, DeleteActionView) {
    (DeleteView { stack: Seq::empty(), listing: None }, DeleteActionView::Finish(Err(e)))
}

impl DeleteView {
    /// Whether this is an answer to what was asked last.
    pub open spec fn expects(self, event: DeleteEventView) -> bool {
        match event {
            DeleteEventView::Listed(_) => self.listing is Some,
            DeleteEventView::Done(_) => self.listing is None,
        }
    }

    /// What follows an answer: the entries of a folder are deleted in order and
    /// then the folder; the first error ends it all.
    pub open spec fn after(self, event: DeleteEventView) -> (DeleteView, DeleteActionView) {
        match event {
            DeleteEventView::Listed(Ok(entries)) => {
                let path = self.listing->0;
                resumed(self.stack.push(TaskView::Remove { path }) + visits(path, entries))
            },
            DeleteEventView::Listed(Err(e)) => stopped(e),
            DeleteEventView::Done(Ok(())) => resumed(self.stack),
            DeleteEventView::Done(Err(e)) => stopped(e),
        }
    }
}

impl DeleteWalk {
    /// Begins to delete a file, or a folder with all that it holds.
    pub fn start(path: &str, is_dir: bool) -> (r: (DeleteWalk, DeleteAction))
        ensures
            (r.0@, r.1@) == resumed(seq![TaskView::Visit { path: path@, is_dir }]),
    {
        let mut stack: Vec<DeleteTask> = Vec::new();
        stack.push(DeleteTask::Visit { path: path.to_owned(), is_dir });
        proof {
            assert(stack@.map_values(|t: DeleteTask| t@) =~= seq![
                TaskView::Visit { path: path@, is_dir },
            ]);
        }
        resume(stack)
    }

    /// Whether this is an answer to what was asked last.
    pub fn accepts(&self, event: &DeleteEvent) -> (r: bool)
        ensures
            r == self@.expects(event@),
    {
        match event {
            DeleteEvent::Listed(_) => self.listing.is_some(),
            DeleteEvent::Done(_) => self.listing.is_none(),
        }
    }
}

/// Takes the next thing to do off `stack`.
fn resume(stack: Vec<DeleteTask>) -> (r: (DeleteWalk, DeleteAction))
    ensures
        (r.0@, r.1@) == resumed(stack@.map_values(|t: DeleteTask| t@)),
{
    let ghost views = stack@.map_values(|t: DeleteTask| t@);
    let mut stack = stack;
    let top = stack.pop();
    proof {
        if views.len() > 0 {
            assert(stack@.map_values(|t: DeleteTask| t@) =~= views.drop_last());
            assert(views.last() == top->0@);
        }
    }
    match top {
        Some(DeleteTask::Visit { path, is_dir }) => {
            if is_dir {
                (DeleteWalk { stack, listing: Some(path.clone()) }, DeleteAction::List(path))
            } else {
                (DeleteWalk { stack, listing: None }, DeleteAction::DeleteFile(path))
            }
        },
        Some(DeleteTask::Remove { path }) => {
            (DeleteWalk { stack, listing: None }, DeleteAction::DeleteDir(path))
        },
        None => (DeleteWalk { stack, listing: None }, DeleteAction::Finish(Ok(()))),
    }
}

/// Ends a deletion with an error.
fn stop(e: String) -> (r: (DeleteWalk, DeleteAction))
    ensures
        (r.0@, r.1@) == stopped(e@),
{
    let stack: Vec<DeleteTask> = Vec::new();
    proof {
        assert(stack@.map_values(|t: DeleteTask| t@) =~= Seq::empty());
    }
    (DeleteWalk { stack, listing: None }, DeleteAction::Finish(Err(e)))
}

/// Takes what the server just answered and says what to ask of it next.
pub fn do_delete(walk: DeleteWalk, event: DeleteEvent) -> (r: (DeleteWalk, DeleteAction))
    requires
        walk@.expects(event@),
    ensures
        (r.0@, r.1@) == walk@.after(event@),
{
    match event {
        DeleteEvent::Listed(Ok(entries)) => {
            let ghost before = walk@;
            let ghost views = entry_views(entries@);
            let mut stack = walk.stack;
            let path = walk.listing.unwrap();
            stack.push(DeleteTask::Remove { path: path.clone() });
            let ghost base = before.stack.push(TaskView::Remove { path: path@ });
            let mut i: usize = entries.len();
            proof {
                assert(stack@.map_values(|t: DeleteTask| t@) =~= base);
                assert(visits(path@, views).take(0) =~= Seq::empty());
                assert(base + Seq::<TaskView>::empty() =~= base);
            }
            while i > 0
                invariant
                    i <= entries.len(),
                    views == entry_views(entries@),
                    stack@.map_values(|t: DeleteTask| t@) == base + visits(path@, views).take(
                        entries.len() - i,
                    ),
                decreases i,
            {
                i = i - 1;
                let ghost k = entries.len() - 1 - i;
                let ghost prior = stack@;
                stack.push(
                    DeleteTask::Visit {
                        path: join_remote(path.as_str(), entries[i].name.as_str()),
                        is_dir: entries[i].is_dir,
                    },
                );
                proof {
                    assert(views[i as int] == entries@[i as int]@);
                    assert(visits(path@, views)[k] == stack@.last()@);
                    assert(visits(path@, views).take(k + 1) =~= visits(path@, views).take(k).push(
                        stack@.last()@,
                    ));
                    assert(stack@.map_values(|t: DeleteTask| t@) =~= prior.map_values(
                        |t: DeleteTask| t@,
                    ).push(stack@.last()@));
                }
            }
            proof {
                assert(visits(path@, views).take(entries.len() as int) =~= visits(path@, views));
            }
            resume(stack)
        },
        DeleteEvent::Listed(Err(e)) => stop(e),
        DeleteEvent::Done(Ok(())) => resume(walk.stack),
        DeleteEvent::Done(Err(e)) => stop(e),
    }
}

// ---------------------------------------------------------------------------
// The same, told as a recursion
// ---------------------------------------------------------------------------

/// A server: what it answers to the last of the requests it has seen.
pub type Server = spec_fn(Seq<DeleteActionView>) -> DeleteEventView;

/// The requests that a server has seen and how it ended.
pub type Ending = (Seq<DeleteActionView>, Result<(), Seq<char>>);

/// Deleting `path`, told as a recursion: a file is deleted; a folder is listed,
/// each of its entries is deleted in the order of the listing, and then the
/// folder itself. The first error ends it. `None` where folders nest deeper
/// than `depth` or the server answers what it was not asked.
pub open spec fn descend(
    server: Server,
    seen: Seq<DeleteActionView>,
    path: Seq<char>,
    is_dir: bool,
    depth: nat,
) -> Option<Ending>
    decreases depth, 0nat,
{
    if !is_dir {
        ask(server, seen, DeleteActionView::DeleteFile(path))
    } else if depth == 0 {
        None
    } else {
        let listed = seen.push(DeleteActionView::List(path));
        match server(listed) {
            DeleteEventView::Listed(Ok(entries)) => match descend_each(
                server,
                listed,
                path,
                entries,
                (depth - 1) as nat,
            ) {
                Some((emptied, Ok(()))) => ask(server, emptied, DeleteActionView::DeleteDir(path)),
                other => other,
            },
            DeleteEventView::Listed(Err(e)) => Some((listed, Err(e))),
            DeleteEventView::Done(_) => None,
        }
    }
}

/// Deleting the entries of the folder `path` one after the other.
pub open spec fn descend_each(
    server: Server,
    seen: Seq<DeleteActionView>,
    path: Seq<char>,
    entries: Seq<EntryView>,
    depth: nat,
) -> Option<Ending>
    decreases depth, entries.len(),
{
    if entries.len() == 0 {
        Some((seen, Ok(())))
    } else {
        match descend(
            server,
            seen,
            joined(path, entries[0].name),
            entries[0].is_dir,
            depth,
        ) {
            Some((next, Ok(()))) => descend_each(server, next, path, entries.skip(1), depth),
            other => other,
        }
    }
}

/// One request for a deletion.
pub open spec fn ask(server: Server, seen: Seq<DeleteActionView>, action: DeleteActionView) -> Option<
    Ending,
> {
    let asked = seen.push(action);
    match server(asked) {
        DeleteEventView::Done(r) => Some((asked, r)),
        DeleteEventView::Listed(_) => None,
    }
}

/// A walk carried out against a server for at most `requests` requests.
pub open spec fn carried_out(
    server: Server,
    seen: Seq<DeleteActionView>,
    walk: DeleteView,
    action: DeleteActionView,
    requests: nat,
) -> Option<Ending>
    decreases requests,
{
    match action {
        DeleteActionView::Finish(r) => Some((seen, r)),
        _ => {
            let asked = seen.push(action);
            if requests == 0 || !walk.expects(server(asked)) {
                None
            } else {
                let (next, then) = walk.after(server(asked));
                carried_out(server, asked, next, then, (requests - 1) as nat)
            }
        },
    }
}

/// A stack of tasks carried out.
pub open spec fn stack_carried_out(
    server: Server,
    seen: Seq<DeleteActionView>,
    stack: Seq<TaskView>,
    requests: nat,
) -> Option<Ending> {
    carried_out(server, seen, resumed(stack).0, resumed(stack).1, requests)
}

proof fn descend_grows(
    server: Server,
    seen: Seq<DeleteActionView>,
    path: Seq<char>,
    is_dir: bool,
    depth: nat,
)
    ensures
        descend(server, seen, path, is_dir, depth) matches Some(end) ==> end.0.len() >= seen.len(),
    decreases depth, 0nat,
{
    if is_dir && depth > 0 {
        let listed = seen.push(DeleteActionView::List(path));
        match server(listed) {
            DeleteEventView::Listed(Ok(entries)) => {
                descend_each_grows(server, listed, path, entries, (depth - 1) as nat);
            },
            _ => {},
        }
    }
}

proof fn descend_each_grows(
    server: Server,
    seen: Seq<DeleteActionView>,
    path: Seq<char>,
    entries: Seq<EntryView>,
    depth: nat,
)
    ensures
        descend_each(server, seen, path, entries, depth) matches Some(end) ==> end.0.len()
            >= seen.len(),
    decreases depth, entries.len(),
{
    if entries.len() > 0 {
        let child = joined(path, entries[0].name);
        descend_grows(server, seen, child, entries[0].is_dir, depth);
        match descend(server, seen, child, entries[0].is_dir, depth) {
            Some((next, Ok(()))) => {
                descend_each_grows(server, next, path, entries.skip(1), depth);
            },
            _ => {},
        }
    }
}

/// Carrying out a visit and then `base` is the recursion and then `base`.
proof fn visit_is_descend(
    server: Server,
    seen: Seq<DeleteActionView>,
    path: Seq<char>,
    is_dir: bool,
    depth: nat,
    base: Seq<TaskView>,
    more: nat,
    end: Ending,
)
    requires
        descend(server, seen, path, is_dir, depth) == Some(end),
    ensures
        end.0.len() >= seen.len(),
        stack_carried_out(
            server,
            seen,
            base.push(TaskView::Visit { path, is_dir }),
            (more + end.0.len() - seen.len()) as nat,
        ) == match end.1 {
            Ok(()) => stack_carried_out(server, end.0, base, more),
            Err(e) => Some(end),
        },
    decreases depth, 0nat,
{
    reveal_with_fuel(carried_out, 2);
    descend_grows(server, seen, path, is_dir, depth);
    ok_is_ok(end.1);
    let stack = base.push(TaskView::Visit { path, is_dir });
    assert(stack.drop_last() =~= base);
    if !is_dir {
        let asked = seen.push(DeleteActionView::DeleteFile(path));
        assert(end.0 == asked);
    } else {
        let listed = seen.push(DeleteActionView::List(path));
        let requests = (more + end.0.len() - seen.len()) as nat;
        match server(listed) {
            DeleteEventView::Listed(Ok(entries)) => {
                descend_each_grows(server, listed, path, entries, (depth - 1) as nat);
                let inner = descend_each(server, listed, path, entries, (depth - 1) as nat)->0;
                let below = base.push(TaskView::Remove { path });
                assert(stack_carried_out(server, seen, stack, requests) == stack_carried_out(
                    server,
                    listed,
                    below + visits(path, entries),
                    (requests - 1) as nat,
                ));
                match inner.1 {
                    Ok(()) => {
                        let asked = inner.0.push(DeleteActionView::DeleteDir(path));
                        visits_are_descend_each(
                            server,
                            listed,
                            path,
                            entries,
                            (depth - 1) as nat,
                            below,
                            more + 1,
                            inner,
                        );
                        assert(below.drop_last() =~= base);
                        assert(end.0 == asked);
                    },
                    Err(e) => {
                        visits_are_descend_each(
                            server,
                            listed,
                            path,
                            entries,
                            (depth - 1) as nat,
                            below,
                            more,
                            inner,
                        );
                    },
                }
            },
            DeleteEventView::Listed(Err(e)) => {},
            DeleteEventView::Done(_) => {},
        }
    }
}

/// Carrying out the visits of a folder's entries and then `base` is the
/// recursion over the entries and then `base`.
proof fn visits_are_descend_each(
    server: Server,
    seen: Seq<DeleteActionView>,
    path: Seq<char>,
    entries: Seq<EntryView>,
    depth: nat,
    base: Seq<TaskView>,
    more: nat,
    end: Ending,
)
    requires
        descend_each(server, seen, path, entries, depth) == Some(end),
    ensures
        end.0.len() >= seen.len(),
        stack_carried_out(
            server,
            seen,
            base + visits(path, entries),
            (more + end.0.len() - seen.len()) as nat,
        ) == match end.1 {
            Ok(()) => stack_carried_out(server, end.0, base, more),
            Err(e) => Some(end),
        },
    decreases depth, entries.len(),
{
    descend_each_grows(server, seen, path, entries, depth);
    if entries.len() == 0 {
        assert(base + visits(path, entries) =~= base);
    } else {
        let child = joined(path, entries[0].name);
        let is_dir = entries[0].is_dir;
        let rest = entries.skip(1);
        let below = base + visits(path, rest);
        assert(base + visits(path, entries) =~= below.push(TaskView::Visit { path: child, is_dir }));
        let first = descend(server, seen, child, is_dir, depth)->0;
        descend_grows(server, seen, child, is_dir, depth);
        match first.1 {
            Ok(()) => {
                descend_each_grows(server, first.0, path, rest, depth);
                let between = (more + end.0.len() - first.0.len()) as nat;
                visit_is_descend(server, seen, child, is_dir, depth, below, between, first);
                visits_are_descend_each(server, first.0, path, rest, depth, base, more, end);
            },
            Err(e) => {
                visit_is_descend(server, seen, child, is_dir, depth, below, more, first);
            },
        }
    }
}

/// Whatever the server answers, a walk makes the requests that the recursion
/// makes, in the same order, and ends as it ends.
pub proof fn law_walk_is_recursion(
    server: Server,
    path: Seq<char>,
    is_dir: bool,
    depth: nat,
    end: Ending,
)
    requires
        descend(server, Seq::empty(), path, is_dir, depth) == Some(end),
    ensures
        stack_carried_out(
            server,
            Seq::empty(),
            seq![TaskView::Visit { path, is_dir }],
            end.0.len(),
        ) == Some(end),
{
    visit_is_descend(server, Seq::empty(), path, is_dir, depth, Seq::empty(), 0, end);
    ok_is_ok(end.1);
    assert(Seq::<TaskView>::empty().push(TaskView::Visit { path, is_dir }) =~= seq![
        TaskView::Visit { path, is_dir },
    ]);
}

/// What a request speaks of.
pub open spec fn path_of(action: DeleteActionView) -> Seq<char> {
    match action {
        DeleteActionView::List(p) => p,
        DeleteActionView::DeleteFile(p) => p,
        DeleteActionView::DeleteDir(p) => p,
        DeleteActionView::Finish(_) => Seq::empty(),
    }
}

/// Whether the requests from the `from`-th on speak of `path` or of what is
/// below it.
pub open spec fn stays_below(seen: Seq<DeleteActionView>, from: nat, path: Seq<char>) -> bool {
    forall|i: int| from <= i < seen.len() ==> at_or_below(path_of(#[trigger] seen[i]), path)
}

proof fn below_child_is_below(
    seen: Seq<DeleteActionView>,
    from: nat,
    path: Seq<char>,
    name: Seq<char>,
)
    requires
        stays_below(seen, from, joined(path, name)),
    ensures
        stays_below(seen, from, path),
{
    assert forall|i: int| from <= i < seen.len() implies at_or_below(
        path_of(#[trigger] seen[i]),
        path,
    ) by {
        law_below_child(path_of(seen[i]), path, name);
    }
}

proof fn descend_stays_below(
    server: Server,
    seen: Seq<DeleteActionView>,
    path: Seq<char>,
    is_dir: bool,
    depth: nat,
)
    ensures
        descend(server, seen, path, is_dir, depth) matches Some(end) ==> end.0.len() >= seen.len()
            && end.0.take(seen.len() as int) == seen && stays_below(end.0, seen.len(), path),
    decreases depth, 0nat,
{
    if !is_dir {
        let asked = seen.push(DeleteActionView::DeleteFile(path));
        assert(asked.take(seen.len() as int) =~= seen);
    } else if depth > 0 {
        let listed = seen.push(DeleteActionView::List(path));
        assert(listed.take(seen.len() as int) =~= seen);
        if let DeleteEventView::Listed(Ok(entries)) = server(listed) {
            descend_each_stays_below(server, listed, path, entries, (depth - 1) as nat);
            if let Some(inner) = descend_each(server, listed, path, entries, (depth - 1) as nat) {
                assert(inner.0.take(seen.len() as int) =~= inner.0.take(listed.len() as int).take(
                    seen.len() as int,
                ));
                assert(inner.0[seen.len() as int] == inner.0.take(listed.len() as int)[seen.len() as int]);
                assert(stays_below(inner.0, seen.len(), path));
                let asked = inner.0.push(DeleteActionView::DeleteDir(path));
                assert(asked.take(seen.len() as int) =~= inner.0.take(seen.len() as int));
            }
        }
    }
}

proof fn descend_each_stays_below(
    server: Server,
    seen: Seq<DeleteActionView>,
    path: Seq<char>,
    entries: Seq<EntryView>,
    depth: nat,
)
    ensures
        descend_each(server, seen, path, entries, depth) matches Some(end) ==> end.0.len()
            >= seen.len() && end.0.take(seen.len() as int) == seen && stays_below(
            end.0,
            seen.len(),
            path,
        ),
    decreases depth, entries.len(),
{
    if entries.len() == 0 {
        assert(seen.take(seen.len() as int) =~= seen);
    } else {
        let name = entries[0].name;
        let child = joined(path, name);
        descend_stays_below(server, seen, child, entries[0].is_dir, depth);
        if let Some(first) = descend(server, seen, child, entries[0].is_dir, depth) {
            below_child_is_below(first.0, seen.len(), path, name);
            if first.1 is Ok {
                descend_each_stays_below(server, first.0, path, entries.skip(1), depth);
                if let Some(end) = descend_each(server, first.0, path, entries.skip(1), depth) {
                    assert(end.0.take(seen.len() as int) =~= end.0.take(
                        first.0.len() as int,
                    ).take(seen.len() as int));
                    assert forall|i: int| seen.len() <= i < end.0.len() implies at_or_below(
                        path_of(#[trigger] end.0[i]),
                        path,
                    ) by {
                        if i < first.0.len() {
                            assert(end.0[i] == end.0.take(first.0.len() as int)[i]);
                        }
                    }
                }
            }
        }
    }
}

/// Nothing is asked of the server but about what was to be deleted and what is
/// below it, whatever the server says that the folders hold.
pub proof fn law_deletes_only_below(
    server: Server,
    path: Seq<char>,
    is_dir: bool,
    depth: nat,
    end: Ending,
)
    requires
        descend(server, Seq::empty(), path, is_dir, depth) == Some(end),
    ensures
        stays_below(end.0, 0, path),
{
    descend_stays_below(server, Seq::empty(), path, is_dir, depth);
}

/// A folder goes last: where all went well, the last request was to delete the
/// folder itself.
pub proof fn law_folder_goes_last(server: Server, path: Seq<char>, depth: nat, end: Ending)
    requires
        descend(server, Seq::empty(), path, true, depth) == Some(end),
        end.1 is Ok,
    ensures
        end.0.len() > 0,
        end.0.last() == DeleteActionView::DeleteDir(path),
{
    let listed = Seq::empty().push(DeleteActionView::List(path));
    if let DeleteEventView::Listed(Ok(entries)) = server(listed) {
        if let Some(inner) = descend_each(server, listed, path, entries, (depth - 1) as nat) {
            ok_is_ok(inner.1);
        }
    }
}

} // verus!
