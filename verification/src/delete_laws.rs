//! What holds of every deletion, whatever the server answers: what each answer
//! leads to, and what was asked for by the time it ended.

use crate::delete::{
    carried_out, resumed, stack_carried_out, visits, DeleteActionView, DeleteEventView, DeleteView,
    Ending, Server, TaskView,
};
use crate::listing::EntryView;
use crate::path::joined;
use crate::text::ok_is_ok;
use vstd::prelude::*;

verus! {

// ---------------------------------------------------------------------------
// One answer
// ---------------------------------------------------------------------------

/// A deletion begins with a look into the folder, or by deleting the file.
pub proof fn law_deletion_begins(path: Seq<char>, is_dir: bool)
    ensures
        is_dir ==> resumed(seq![TaskView::Visit { path, is_dir }]).1 == DeleteActionView::List(path),
        !is_dir ==> resumed(seq![TaskView::Visit { path, is_dir }]).1
            == DeleteActionView::DeleteFile(path),
        resumed(seq![TaskView::Visit { path, is_dir }]).0.stack.len() == 0,
        resumed(seq![TaskView::Visit { path, is_dir }]).0.listing == if is_dir {
            Some(path)
        } else {
            None
        },
{
}

/// Once a folder is listed, its first entry has its turn; the others wait in the
/// order of the listing, then comes the folder itself, then what waited before.
/// An empty folder is deleted at once. What an entry is depends on nothing but
/// what the listing says of its kind.
pub proof fn law_listed_entries_wait(v: DeleteView, p: Seq<char>, entries: Seq<EntryView>)
    requires
        v.listing == Some(p),
    ensures
        ({
            let (w, action) = v.after(DeleteEventView::Listed(Ok(entries)));
            let n = v.stack.len() as int;
            let first = joined(p, entries[0].name);
            if entries.len() == 0 {
                &&& action == DeleteActionView::DeleteDir(p)
                &&& w.stack == v.stack
                &&& w.listing is None
            } else {
                &&& action == if entries[0].is_dir {
                    DeleteActionView::List(first)
                } else {
                    DeleteActionView::DeleteFile(first)
                }
                &&& w.listing == if entries[0].is_dir {
                    Some(first)
                } else {
                    None
                }
                &&& w.stack.len() == n + entries.len()
                &&& w.stack.take(n) == v.stack
                &&& w.stack[n] == (TaskView::Remove { path: p })
                &&& forall|k: int|
                    1 <= k < entries.len() ==> w.stack[n + entries.len() - k] == (TaskView::Visit {
                        path: joined(p, (#[trigger] entries[k]).name),
                        is_dir: entries[k].is_dir,
                    })
            }
        }),
{
    let (w, action) = v.after(DeleteEventView::Listed(Ok(entries)));
    let all = v.stack.push(TaskView::Remove { path: p }) + visits(p, entries);
    if entries.len() == 0 {
        assert(all =~= v.stack.push(TaskView::Remove { path: p }));
        assert(all.drop_last() =~= v.stack);
    } else {
        assert(w.stack =~= all.drop_last());
        assert(w.stack.take(v.stack.len() as int) =~= v.stack);
        assert(w.stack[v.stack.len() as int] == all[v.stack.len() as int]);
    }
}

/// What waits has its turn from the last on: a file is deleted, a folder is
/// listed, a folder that has been emptied is deleted. Where nothing waits, all
/// went well.
pub proof fn law_deletion_goes_on(v: DeleteView)
    ensures
        ({
            let (w, action) = v.after(DeleteEventView::Done(Ok(())));
            if v.stack.len() == 0 {
                action == DeleteActionView::Finish(Ok(()))
            } else {
                &&& w.stack == v.stack.drop_last()
                &&& match v.stack[v.stack.len() - 1] {
                    TaskView::Visit { path, is_dir } => if is_dir {
                        action == DeleteActionView::List(path) && w.listing == Some(path)
                    } else {
                        action == DeleteActionView::DeleteFile(path) && w.listing is None
                    },
                    TaskView::Remove { path } => action == DeleteActionView::DeleteDir(path)
                        && w.listing is None,
                }
            }
        }),
{
}

/// The first failure ends a deletion with what the server said, and nothing
/// waits any more.
pub proof fn law_failed_deletion_ends(v: DeleteView, e: Seq<char>)
    ensures
        v.after(DeleteEventView::Listed(Err(e))).1 == DeleteActionView::Finish(Err(e)),
        v.after(DeleteEventView::Done(Err(e))).1 == DeleteActionView::Finish(Err(e)),
        v.after(DeleteEventView::Listed(Err(e))).0.stack.len() == 0,
        v.after(DeleteEventView::Done(Err(e))).0.stack.len() == 0,
{
}

/// A listing is the answer to a look into a folder and to nothing else.
pub proof fn law_deletion_answers(
    v: DeleteView,
    listed: Result<Seq<EntryView>, Seq<char>>,
    done: Result<(), Seq<char>>,
)
    ensures
        v.expects(DeleteEventView::Listed(listed)) <==> v.listing is Some,
        v.expects(DeleteEventView::Done(done)) <==> v.listing is None,
{
}

// ---------------------------------------------------------------------------
// The whole of a deletion
// ---------------------------------------------------------------------------

/// Whether the server was asked to list this folder at `a` and to delete it at
/// `b`, both from the `from`-th request on.
pub open spec fn emptied_at(
    seen: Seq<DeleteActionView>,
    from: int,
    a: int,
    b: int,
    path: Seq<char>,
) -> bool {
    &&& from <= a < b < seen.len()
    &&& seen[a] == DeleteActionView::List(path)
    &&& seen[b] == DeleteActionView::DeleteDir(path)
}

/// Whether the server was asked at `a`, from the `from`-th request on, to delete
/// this file.
pub open spec fn file_deleted_at(
    seen: Seq<DeleteActionView>,
    from: int,
    a: int,
    path: Seq<char>,
) -> bool {
    from <= a < seen.len() && seen[a] == DeleteActionView::DeleteFile(path)
}

/// Whether, from the `from`-th request on, a file was deleted, or a folder was
/// listed and later deleted.
pub open spec fn deleted(
    seen: Seq<DeleteActionView>,
    from: int,
    path: Seq<char>,
    is_dir: bool,
) -> bool {
    if is_dir {
        exists|a: int, b: int| emptied_at(seen, from, a, b, path)
    } else {
        exists|a: int| file_deleted_at(seen, from, a, path)
    }
}

/// Whether the folder `p`, listed at `i`, was deleted at `d`, behind all of its
/// entries.
pub open spec fn emptied_by(
    seen: Seq<DeleteActionView>,
    i: int,
    d: int,
    p: Seq<char>,
    entries: Seq<EntryView>,
) -> bool {
    &&& i < d < seen.len()
    &&& seen[d] == DeleteActionView::DeleteDir(p)
    &&& forall|k: int|
        0 <= k < entries.len() ==> deleted(
            seen.take(d),
            i + 1,
            joined(p, (#[trigger] entries[k]).name),
            entries[k].is_dir,
        )
}

/// Whether the folder at `path` was deleted from the `from`-th request on.
spec fn removed(seen: Seq<DeleteActionView>, from: int, path: Seq<char>) -> bool {
    exists|b: int|
        from <= b < seen.len() && #[trigger] seen[b] == DeleteActionView::DeleteDir(path)
}

/// Whether a task was done from the `from`-th request on.
spec fn carried(seen: Seq<DeleteActionView>, from: int, t: TaskView) -> bool {
    match t {
        TaskView::Visit { path, is_dir } => deleted(seen, from, path, is_dir),
        TaskView::Remove { path } => removed(seen, from, path),
    }
}

proof fn carried_earlier(seen: Seq<DeleteActionView>, from: int, later: int, t: TaskView)
    requires
        from <= later,
        carried(seen, later, t),
    ensures
        carried(seen, from, t),
{
    match t {
        TaskView::Visit { path, is_dir } => {
            if is_dir {
                let (a, b) = choose|a: int, b: int| emptied_at(seen, later, a, b, path);
                assert(emptied_at(seen, from, a, b, path));
            } else {
                let a = choose|a: int| file_deleted_at(seen, later, a, path);
                assert(file_deleted_at(seen, from, a, path));
            }
        },
        TaskView::Remove { path } => {},
    }
}

proof fn run_extends(
    server: Server,
    seen: Seq<DeleteActionView>,
    walk: DeleteView,
    action: DeleteActionView,
    requests: nat,
    end: Ending,
)
    requires
        carried_out(server, seen, walk, action, requests) == Some(end),
    ensures
        seen.len() <= end.0.len(),
        end.0.take(seen.len() as int) == seen,
        !(action is Finish) ==> end.0.len() > seen.len() && end.0.take(seen.len() as int + 1) == seen.push(
            action,
        ),
    decreases requests,
{
    if action is Finish {
        assert(seen.take(seen.len() as int) =~= seen);
    } else {
        let asked = seen.push(action);
        let (next, follows) = walk.after(server(asked));
        run_extends(server, asked, next, follows, (requests - 1) as nat, end);
        assert(end.0.take(seen.len() as int) =~= end.0.take(asked.len() as int).take(
            seen.len() as int,
        ));
    }
}

/// A deletion that goes well does what waits from the last on: by some request
/// all that stands from the `m`-th place on is done, and the rest still waits.
proof fn passes(
    server: Server,
    seen: Seq<DeleteActionView>,
    stack: Seq<TaskView>,
    requests: nat,
    end: Ending,
    m: int,
) -> (r: (Seq<DeleteActionView>, nat))
    requires
        0 <= m <= stack.len(),
        stack_carried_out(server, seen, stack, requests) == Some(end),
        end.1 is Ok,
    ensures
        seen.len() <= r.0.len() <= end.0.len(),
        r.0.take(seen.len() as int) == seen,
        end.0.take(r.0.len() as int) == r.0,
        stack_carried_out(server, r.0, stack.take(m), r.1) == Some(end),
        forall|k: int| m <= k < stack.len() ==> carried(r.0, seen.len() as int, #[trigger] stack[k]),
    decreases requests,
{
    let (walk, action) = resumed(stack);
    run_extends(server, seen, walk, action, requests, end);
    if m == stack.len() {
        assert(stack.take(m) =~= stack);
        assert(seen.take(seen.len() as int) =~= seen);
        (seen, requests)
    } else {
        reveal_with_fuel(carried_out, 2);
        let asked = seen.push(action);
        let from = seen.len() as int;
        if let DeleteEventView::Done(reply) = server(asked) {
            ok_is_ok(reply);
        }
        let rest = stack.drop_last();
        let next = match stack.last() {
            TaskView::Visit { path, is_dir } => if is_dir {
                match server(asked) {
                    DeleteEventView::Listed(Ok(entries)) => rest.push(TaskView::Remove { path })
                        + visits(path, entries),
                    _ => rest,
                }
            } else {
                rest
            },
            TaskView::Remove { .. } => rest,
        };
        assert(stack_carried_out(server, asked, next, (requests - 1) as nat) == Some(end));
        let r = passes(server, asked, next, (requests - 1) as nat, end, m);
        assert(r.0.take(from) =~= r.0.take(from + 1).take(from));
        assert(asked.take(from) =~= seen);
        assert(r.0[from] == r.0.take(from + 1)[from]);
        assert(stack.take(m) =~= next.take(m));
        assert forall|k: int| m <= k < stack.len() implies carried(r.0, from, #[trigger] stack[k]) by {
            if k < rest.len() {
                assert(next[k] == stack[k]);
                carried_earlier(r.0, from, from + 1, next[k]);
            } else {
                match stack.last() {
                    TaskView::Visit { path, is_dir } => {
                        if is_dir {
                            assert(next[rest.len() as int] == (TaskView::Remove { path }));
                            assert(carried(r.0, from + 1, next[rest.len() as int]));
                            let b = choose|b: int|
                                from + 1 <= b < r.0.len() && #[trigger] r.0[b]
                                    == DeleteActionView::DeleteDir(path);
                            assert(emptied_at(r.0, from, from, b, path));
                        } else {
                            assert(file_deleted_at(r.0, from, from, path));
                        }
                    },
                    TaskView::Remove { path } => {
                        assert(r.0[from] == DeleteActionView::DeleteDir(path));
                    },
                }
            }
        }
        r
    }
}

/// Whether the walk waits for the answer to what was asked.
spec fn told(walk: DeleteView, action: DeleteActionView) -> bool {
    action matches DeleteActionView::List(p) ==> walk.listing == Some(p)
}

/// Where a deletion stands when its `i`-th request is made.
proof fn reached(
    server: Server,
    seen: Seq<DeleteActionView>,
    walk: DeleteView,
    action: DeleteActionView,
    requests: nat,
    end: Ending,
    i: int,
) -> (r: (DeleteView, nat))
    requires
        carried_out(server, seen, walk, action, requests) == Some(end),
        told(walk, action),
        seen.len() <= i < end.0.len(),
    ensures
        carried_out(server, end.0.take(i), r.0, end.0[i], r.1) == Some(end),
        told(r.0, end.0[i]),
    decreases requests,
{
    run_extends(server, seen, walk, action, requests, end);
    if i == seen.len() {
        assert(end.0[i] == end.0.take(i + 1)[i]);
        (walk, requests)
    } else {
        let asked = seen.push(action);
        let (next, follows) = walk.after(server(asked));
        reached(server, asked, next, follows, (requests - 1) as nat, end, i)
    }
}

/// Where all went well, every folder that was listed was deleted, and before
/// that each of its entries: those that the listing calls folders were listed
/// and later deleted as folders, the others were deleted as files.
pub proof fn law_folders_are_emptied(
    server: Server,
    path: Seq<char>,
    is_dir: bool,
    requests: nat,
    end: Ending,
    i: int,
    p: Seq<char>,
    entries: Seq<EntryView>,
)
    requires
        stack_carried_out(
            server,
            Seq::empty(),
            seq![TaskView::Visit { path, is_dir }],
            requests,
        ) == Some(end),
        end.1 is Ok,
        0 <= i < end.0.len(),
        end.0[i] == DeleteActionView::List(p),
        server(end.0.take(i + 1)) == DeleteEventView::Listed(Ok(entries)),
    ensures
        exists|d: int| emptied_by(end.0, i, d, p, entries),
{
    let (walk, action) = resumed(seq![TaskView::Visit { path, is_dir }]);
    let (w, n) = reached(server, Seq::empty(), walk, action, requests, end, i);
    let asked = end.0.take(i).push(end.0[i]);
    assert(asked =~= end.0.take(i + 1));
    let below = w.stack.push(TaskView::Remove { path: p });
    let all = below + visits(p, entries);
    assert(stack_carried_out(server, asked, all, (n - 1) as nat) == Some(end));
    let (mid, left) = passes(server, asked, all, (n - 1) as nat, end, below.len() as int);
    assert(all.take(below.len() as int) =~= below);
    let d = mid.len() as int;
    let (v, a) = resumed(below);
    run_extends(server, mid, v, a, left, end);
    assert(end.0[d] == end.0.take(d + 1)[d]);
    assert forall|k: int| 0 <= k < entries.len() implies deleted(
        end.0.take(d),
        i + 1,
        joined(p, (#[trigger] entries[k]).name),
        entries[k].is_dir,
    ) by {
        let at = below.len() + entries.len() - 1 - k;
        assert(all[at] == (TaskView::Visit {
            path: joined(p, entries[k].name),
            is_dir: entries[k].is_dir,
        }));
        assert(carried(mid, asked.len() as int, all[at]));
    }
    assert(emptied_by(end.0, i, d, p, entries));
}

/// Whether the `k`-th entry of the folder that was listed at `i` is at `path`
/// and of this kind.
pub open spec fn names(
    server: Server,
    seen: Seq<DeleteActionView>,
    i: int,
    k: int,
    path: Seq<char>,
    is_dir: bool,
) -> bool {
    &&& 0 <= i < seen.len()
    &&& seen[i] matches DeleteActionView::List(p)
    &&& server(seen.take(i + 1)) matches DeleteEventView::Listed(Ok(entries))
    &&& 0 <= k < entries.len()
    &&& path == joined(p, entries[k].name)
    &&& is_dir == entries[k].is_dir
}

/// Whether `path` is what was to be deleted, or an entry of a folder that was
/// listed, and of this kind.
pub open spec fn called_for(
    server: Server,
    top: (Seq<char>, bool),
    seen: Seq<DeleteActionView>,
    path: Seq<char>,
    is_dir: bool,
) -> bool {
    (path, is_dir) == top || exists|i: int, k: int| names(server, seen, i, k, path, is_dir)
}

/// Whether a request is about a file or a folder that is to be deleted as such.
pub open spec fn request_called_for(
    server: Server,
    top: (Seq<char>, bool),
    seen: Seq<DeleteActionView>,
    action: DeleteActionView,
) -> bool {
    match action {
        DeleteActionView::List(p) => called_for(server, top, seen, p, true),
        DeleteActionView::DeleteDir(p) => called_for(server, top, seen, p, true),
        DeleteActionView::DeleteFile(p) => called_for(server, top, seen, p, false),
        DeleteActionView::Finish(_) => true,
    }
}

spec fn task_called_for(
    server: Server,
    top: (Seq<char>, bool),
    seen: Seq<DeleteActionView>,
    t: TaskView,
) -> bool {
    match t {
        TaskView::Visit { path, is_dir } => called_for(server, top, seen, path, is_dir),
        TaskView::Remove { path } => called_for(server, top, seen, path, true),
    }
}

proof fn called_for_later(
    server: Server,
    top: (Seq<char>, bool),
    seen: Seq<DeleteActionView>,
    later: Seq<DeleteActionView>,
    path: Seq<char>,
    is_dir: bool,
)
    requires
        seen.len() <= later.len(),
        later.take(seen.len() as int) == seen,
        called_for(server, top, seen, path, is_dir),
    ensures
        called_for(server, top, later, path, is_dir),
{
    if (path, is_dir) != top {
        let (i, k) = choose|i: int, k: int| names(server, seen, i, k, path, is_dir);
        assert(later.take(i + 1) =~= seen.take(i + 1));
        assert(later[i] == later.take(i + 1)[i]);
        assert(seen[i] == seen.take(i + 1)[i]);
        assert(names(server, later, i, k, path, is_dir));
    }
}

proof fn all_called_for(
    server: Server,
    top: (Seq<char>, bool),
    seen: Seq<DeleteActionView>,
    stack: Seq<TaskView>,
    requests: nat,
    end: Ending,
    j: int,
)
    requires
        stack_carried_out(server, seen, stack, requests) == Some(end),
        forall|k: int| 0 <= k < stack.len() ==> task_called_for(server, top, seen, #[trigger] stack[k]),
        seen.len() <= j < end.0.len(),
    ensures
        request_called_for(server, top, end.0, end.0[j]),
    decreases requests,
{
    reveal_with_fuel(carried_out, 2);
    let (walk, action) = resumed(stack);
    run_extends(server, seen, walk, action, requests, end);
    let rest = stack.drop_last();
    let asked = seen.push(action);
    assert(task_called_for(server, top, seen, stack[stack.len() - 1]));
    if j == seen.len() {
        assert(end.0[j] == end.0.take(j + 1)[j]);
        match action {
            DeleteActionView::List(p) => called_for_later(server, top, seen, end.0, p, true),
            DeleteActionView::DeleteDir(p) => called_for_later(server, top, seen, end.0, p, true),
            DeleteActionView::DeleteFile(p) => called_for_later(server, top, seen, end.0, p, false),
            DeleteActionView::Finish(_) => {},
        }
    } else {
        assert(asked.take(seen.len() as int) =~= seen);
        let answer = server(asked);
        let next = match answer {
            DeleteEventView::Listed(Ok(entries)) => rest.push(
                TaskView::Remove { path: walk.listing->0 },
            ) + visits(walk.listing->0, entries),
            DeleteEventView::Done(Ok(_)) => rest,
            _ => Seq::empty(),
        };
        assert forall|k: int| 0 <= k < next.len() implies task_called_for(
            server,
            top,
            asked,
            #[trigger] next[k],
        ) by {
            if k < rest.len() {
                assert(next[k] == stack[k]);
                match stack[k] {
                    TaskView::Visit { path, is_dir } => {
                        called_for_later(server, top, seen, asked, path, is_dir);
                    },
                    TaskView::Remove { path } => {
                        called_for_later(server, top, seen, asked, path, true);
                    },
                }
            } else if let DeleteEventView::Listed(Ok(entries)) = answer {
                let p = walk.listing->0;
                if k == rest.len() {
                    called_for_later(server, top, seen, asked, p, true);
                } else {
                    let e = entries.len() - 1 - (k - rest.len() - 1);
                    assert(asked.take(seen.len() as int + 1) =~= asked);
                    assert(names(
                        server,
                        asked,
                        seen.len() as int,
                        e,
                        joined(p, entries[e].name),
                        entries[e].is_dir,
                    ));
                }
            }
        }
        match answer {
            DeleteEventView::Listed(Err(_)) => {},
            DeleteEventView::Done(Err(_)) => {},
            _ => {
                ok_is_ok(
                    match answer {
                        DeleteEventView::Done(r) => r,
                        _ => Ok(()),
                    },
                );
                all_called_for(server, top, asked, next, (requests - 1) as nat, end, j);
            },
        }
    }
}

/// However a deletion ends, nothing is deleted as a file but what was picked as
/// a file or what a listing calls no folder, and nothing is listed or deleted as
/// a folder but what was picked as one or what a listing calls one.
pub proof fn law_kind_decides(
    server: Server,
    path: Seq<char>,
    is_dir: bool,
    requests: nat,
    end: Ending,
    j: int,
)
    requires
        stack_carried_out(
            server,
            Seq::empty(),
            seq![TaskView::Visit { path, is_dir }],
            requests,
        ) == Some(end),
        0 <= j < end.0.len(),
    ensures
        request_called_for(server, (path, is_dir), end.0, end.0[j]),
{
    let stack = seq![TaskView::Visit { path, is_dir }];
    all_called_for(server, (path, is_dir), Seq::empty(), stack, requests, end, j);
}

/// Where all went well, what was picked was deleted: the file, or the folder
/// behind a look into it.
pub proof fn law_picked_is_deleted(
    server: Server,
    path: Seq<char>,
    is_dir: bool,
    requests: nat,
    end: Ending,
)
    requires
        stack_carried_out(
            server,
            Seq::empty(),
            seq![TaskView::Visit { path, is_dir }],
            requests,
        ) == Some(end),
        end.1 is Ok,
    ensures
        deleted(end.0, 0, path, is_dir),
{
    let stack = seq![TaskView::Visit { path, is_dir }];
    let (mid, left) = passes(server, Seq::empty(), stack, requests, end, 0);
    assert(stack.take(0) =~= Seq::empty());
    assert(carried(mid, 0, stack[0]));
    assert(mid =~= end.0);
}

} // verus!
