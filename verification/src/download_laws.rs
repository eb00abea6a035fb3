//! What holds of every download, whatever the server and the disk answer: what
//! each answer leads to, and what was done by the time it ended.

use crate::download::{
    carried_out, child_task, resumed, stack_carried_out, visits, DownloadActionView,
    DownloadEventView, DownloadView, Ending, StageView, TaskView, World,
};
use crate::events::ProgressView;
use crate::listing::EntryView;
use crate::path::joined;
use crate::text::ok_is_ok;
use vstd::prelude::*;

verus! {

/// The report that so many bytes of a file, of so many in all, have arrived.
pub open spec fn arrived(name: Seq<char>, transferred: u64, total: u64) -> DownloadActionView {
    DownloadActionView::Report(
        ProgressView {
            kind: "download"@,
            state: "progress"@,
            name,
            transferred,
            total,
        },
    )
}

// ---------------------------------------------------------------------------
// One answer
// ---------------------------------------------------------------------------

/// Whether this is what is done when the turn of `t` comes: a folder is made on
/// the disk, to be listed next; of a file it is reported that nothing of it has
/// arrived, to be fetched next.
pub open spec fn takes_its_turn(t: TaskView, w: DownloadView, action: DownloadActionView) -> bool {
    if t.is_dir {
        &&& action == DownloadActionView::MakeDir(t.target)
        &&& w.stage == (StageView::Making { remote: t.remote, target: t.target })
    } else {
        &&& action == arrived(t.name, 0, t.size)
        &&& w.stage == StageView::Opening(t)
    }
}

/// A download begins with what was picked, under its own name in the folder that
/// was chosen.
pub proof fn law_download_begins(t: TaskView)
    ensures
        resumed(seq![t]).0.stack.len() == 0,
        takes_its_turn(t, resumed(seq![t]).0, resumed(seq![t]).1),
{
}

/// Once a folder is listed, its first entry has its turn; the others wait in the
/// order of the listing, before what waited already. Each entry is a folder if
/// and only if the listing says so, has the size that the listing gives it, is
/// found under its name in the remote folder and goes under its name into the
/// local one.
pub proof fn law_listed_entries_wait(
    v: DownloadView,
    remote: Seq<char>,
    target: Seq<Seq<char>>,
    entries: Seq<EntryView>,
)
    requires
        v.stage == (StageView::Listing { remote, target }),
        entries.len() > 0,
    ensures
        ({
            let (w, action) = v.after(DownloadEventView::Listed(Ok(entries)));
            let n = v.stack.len() as int;
            &&& takes_its_turn(
                TaskView {
                    remote: joined(remote, entries[0].name),
                    target: target.push(entries[0].name),
                    name: entries[0].name,
                    is_dir: entries[0].is_dir,
                    size: entries[0].size,
                },
                w,
                action,
            )
            &&& w.stack.len() == n + entries.len() - 1
            &&& w.stack.take(n) == v.stack
            &&& forall|k: int|
                1 <= k < entries.len() ==> w.stack[n + entries.len() - 1 - k] == (TaskView {
                    remote: joined(remote, (#[trigger] entries[k]).name),
                    target: target.push(entries[k].name),
                    name: entries[k].name,
                    is_dir: entries[k].is_dir,
                    size: entries[k].size,
                })
        }),
{
    let w = v.after(DownloadEventView::Listed(Ok(entries))).0;
    let all = v.stack + visits(remote, target, entries);
    assert(w.stack =~= all.drop_last());
    assert(w.stack.take(v.stack.len() as int) =~= v.stack);
}

/// What waits has its turn, from the last on, behind a file that has arrived and
/// behind a folder that turned out empty. Where nothing waits, all went well.
pub proof fn law_download_goes_on(v: DownloadView, event: DownloadEventView)
    requires
        ({
            ||| v.stage is Listing && event == DownloadEventView::Listed(Ok(Seq::empty()))
            ||| v.stage is Closing && event is Reported
        }),
    ensures
        v.stack.len() == 0 ==> v.after(event).1 == DownloadActionView::Finish(Ok(())),
        v.stack.len() > 0 ==> {
            &&& v.after(event).0.stack == v.stack.drop_last()
            &&& takes_its_turn(
                v.stack[v.stack.len() - 1],
                v.after(event).0,
                v.after(event).1,
            )
        },
{
    if let StageView::Listing { remote, target } = v.stage {
        assert(v.stack + visits(remote, target, Seq::empty()) =~= v.stack);
    }
}

/// Behind the making of a local folder the remote one is listed; behind the
/// opening report the file is fetched; behind the fetching it is reported that
/// all of it has arrived. What waits is not touched.
pub proof fn law_download_steps(v: DownloadView)
    ensures
        v.stage matches StageView::Making { remote, target } ==> v.after(
            DownloadEventView::Done(Ok(())),
        ) == (
            DownloadView { stack: v.stack, stage: StageView::Listing { remote, target } },
            DownloadActionView::List(remote),
        ),
        v.stage matches StageView::Opening(t) ==> v.after(DownloadEventView::Reported) == (
            DownloadView {
                stack: v.stack,
                stage: StageView::Fetching { name: t.name, size: t.size },
            },
            DownloadActionView::Fetch {
                remote: t.remote,
                target: t.target,
                name: t.name,
                size: t.size,
            },
        ),
        v.stage matches StageView::Fetching { name, size } ==> v.after(
            DownloadEventView::Done(Ok(())),
        ) == (DownloadView { stack: v.stack, stage: StageView::Closing }, arrived(name, size, size)),
{
}

/// The first failure ends a download with what was said, and nothing waits any
/// more.
pub proof fn law_failed_download_ends(v: DownloadView, e: Seq<char>)
    ensures
        v.after(DownloadEventView::Listed(Err(e))).1 == DownloadActionView::Finish(Err(e)),
        v.after(DownloadEventView::Done(Err(e))).1 == DownloadActionView::Finish(Err(e)),
        v.after(DownloadEventView::Listed(Err(e))).0.stack.len() == 0,
        v.after(DownloadEventView::Done(Err(e))).0.stack.len() == 0,
{
}

/// Each answer is taken where it was asked for and nowhere else.
pub proof fn law_download_answers(
    v: DownloadView,
    listed: Result<Seq<EntryView>, Seq<char>>,
    done: Result<(), Seq<char>>,
)
    ensures
        v.expects(DownloadEventView::Listed(listed)) <==> v.stage is Listing,
        v.expects(DownloadEventView::Done(done)) <==> v.stage is Making || v.stage is Fetching,
        v.expects(DownloadEventView::Reported) <==> v.stage is Opening || v.stage is Closing,
{
}

// ---------------------------------------------------------------------------
// The whole of a download
// ---------------------------------------------------------------------------

/// Whether at `a`, from the `from`-th action on, `t` was fetched: a folder was
/// made on the disk and then listed; a file was reported, fetched with its size
/// to its place, and reported whole.
pub open spec fn fetched_at(taken: Seq<DownloadActionView>, from: int, a: int, t: TaskView) -> bool {
    if t.is_dir {
        &&& from <= a < taken.len() - 1
        &&& taken[a] == DownloadActionView::MakeDir(t.target)
        &&& taken[a + 1] == DownloadActionView::List(t.remote)
    } else {
        &&& from <= a < taken.len() - 2
        &&& taken[a] == arrived(t.name, 0, t.size)
        &&& taken[a + 1] == (DownloadActionView::Fetch {
            remote: t.remote,
            target: t.target,
            name: t.name,
            size: t.size,
        })
        &&& taken[a + 2] == arrived(t.name, t.size, t.size)
    }
}

/// Whether `t` was fetched from the `from`-th action on.
pub open spec fn is_fetched(taken: Seq<DownloadActionView>, from: int, t: TaskView) -> bool {
    exists|a: int| fetched_at(taken, from, a, t)
}

proof fn run_extends(
    world: World,
    taken: Seq<DownloadActionView>,
    walk: DownloadView,
    action: DownloadActionView,
    actions: nat,
    end: Ending,
)
    requires
        carried_out(world, taken, walk, action, actions) == Some(end),
    ensures
        taken.len() <= end.0.len(),
        end.0.take(taken.len() as int) == taken,
        !(action is Finish) ==> end.0.len() > taken.len() && end.0.take(taken.len() as int + 1)
            == taken.push(action),
    decreases actions,
{
    if action is Finish {
        assert(taken.take(taken.len() as int) =~= taken);
    } else {
        let now = taken.push(action);
        let (next, follows) = walk.after(world(now));
        run_extends(world, now, next, follows, (actions - 1) as nat, end);
        assert(end.0.take(taken.len() as int) =~= end.0.take(now.len() as int).take(
            taken.len() as int,
        ));
    }
}

/// The actions that are taken for the last of `stack`, and what waits behind
/// them, where all goes well.
spec fn turn_of(world: World, taken: Seq<DownloadActionView>, stack: Seq<TaskView>) -> (
    Seq<DownloadActionView>,
    Seq<TaskView>,
) {
    let t = stack.last();
    if t.is_dir {
        let listed = taken.push(DownloadActionView::MakeDir(t.target)).push(
            DownloadActionView::List(t.remote),
        );
        (
            listed,
            match world(listed) {
                DownloadEventView::Listed(Ok(entries)) => stack.drop_last() + visits(
                    t.remote,
                    t.target,
                    entries,
                ),
                _ => Seq::empty(),
            },
        )
    } else {
        (
            taken.push(arrived(t.name, 0, t.size)).push(
                DownloadActionView::Fetch {
                    remote: t.remote,
                    target: t.target,
                    name: t.name,
                    size: t.size,
                },
            ).push(arrived(t.name, t.size, t.size)),
            stack.drop_last(),
        )
    }
}

/// A turn that goes well leads to the next; one that does not ends it all, and
/// no more was done than belongs to the turn.
proof fn turn_leads_on(
    world: World,
    taken: Seq<DownloadActionView>,
    stack: Seq<TaskView>,
    actions: nat,
    end: Ending,
)
    requires
        stack.len() > 0,
        stack_carried_out(world, taken, stack, actions) == Some(end),
    ensures
        ({
            let (now, next) = turn_of(world, taken, stack);
            ||| {
                &&& actions >= now.len() - taken.len()
                &&& stack_carried_out(
                    world,
                    now,
                    next,
                    (actions - (now.len() - taken.len())) as nat,
                ) == Some(end)
                &&& stack.last().is_dir ==> world(now) matches DownloadEventView::Listed(Ok(_))
            }
            ||| {
                &&& end.1 is Err
                &&& taken.len() < end.0.len() <= now.len()
                &&& end.0 == now.take(end.0.len() as int)
            }
        }),
{
    reveal_with_fuel(carried_out, 4);
    let t = stack.last();
    let (now, next) = turn_of(world, taken, stack);
    if t.is_dir {
        let made = taken.push(DownloadActionView::MakeDir(t.target));
        if let DownloadEventView::Done(r) = world(made) {
            ok_is_ok(r);
        }
        assert(now.take(made.len() as int) =~= made);
        assert(now.take(now.len() as int) =~= now);
    } else {
        let opened = taken.push(arrived(t.name, 0, t.size));
        let got = opened.push(
            DownloadActionView::Fetch {
                remote: t.remote,
                target: t.target,
                name: t.name,
                size: t.size,
            },
        );
        if let DownloadEventView::Done(r) = world(got) {
            ok_is_ok(r);
        }
        assert(now.take(got.len() as int) =~= got);
    }
}

proof fn fetched_earlier(
    taken: Seq<DownloadActionView>,
    from: int,
    later: int,
    t: TaskView,
)
    requires
        from <= later,
        is_fetched(taken, later, t),
    ensures
        is_fetched(taken, from, t),
{
    let a = choose|a: int| fetched_at(taken, later, a, t);
    assert(fetched_at(taken, from, a, t));
}

/// A download that goes well fetches all that waits.
proof fn all_fetched(
    world: World,
    taken: Seq<DownloadActionView>,
    stack: Seq<TaskView>,
    actions: nat,
    end: Ending,
    k: int,
)
    requires
        stack_carried_out(world, taken, stack, actions) == Some(end),
        end.1 is Ok,
        0 <= k < stack.len(),
    ensures
        is_fetched(end.0, taken.len() as int, stack[k]),
    decreases actions,
{
    turn_leads_on(world, taken, stack, actions, end);
    let (now, next) = turn_of(world, taken, stack);
    let left = (actions - (now.len() - taken.len())) as nat;
    let from = taken.len() as int;
    if k < stack.len() - 1 {
        assert(next[k] == stack[k]);
        all_fetched(world, now, next, left, end, k);
        fetched_earlier(end.0, from, now.len() as int, stack[k]);
    } else {
        let (walk, action) = resumed(next);
        run_extends(world, now, walk, action, left, end);
        assert(end.0[from] == end.0.take(now.len() as int)[from]);
        assert(end.0[from + 1] == end.0.take(now.len() as int)[from + 1]);
        if !stack.last().is_dir {
            assert(end.0[from + 2] == end.0.take(now.len() as int)[from + 2]);
        }
        assert(fetched_at(end.0, from, from, stack[k]));
    }
}

/// Whether the entries of a folder that was made at `a` and listed right behind
/// were all fetched since.
pub open spec fn entries_fetched(
    taken: Seq<DownloadActionView>,
    a: int,
    target: Seq<Seq<char>>,
    remote: Seq<char>,
    entries: Seq<EntryView>,
) -> bool {
    forall|k: int|
        0 <= k < entries.len() ==> is_fetched(
            taken,
            a + 2,
            TaskView {
                remote: joined(remote, (#[trigger] entries[k]).name),
                target: target.push(entries[k].name),
                name: entries[k].name,
                is_dir: entries[k].is_dir,
                size: entries[k].size,
            },
        )
}

proof fn listed_is_fetched(
    world: World,
    taken: Seq<DownloadActionView>,
    stack: Seq<TaskView>,
    actions: nat,
    end: Ending,
    i: int,
    remote: Seq<char>,
    entries: Seq<EntryView>,
)
    requires
        stack_carried_out(world, taken, stack, actions) == Some(end),
        end.1 is Ok,
        taken.len() <= i < end.0.len(),
        end.0[i] == DownloadActionView::List(remote),
        world(end.0.take(i + 1)) == DownloadEventView::Listed(Ok(entries)),
    ensures
        i > taken.len(),
        end.0[i - 1] matches DownloadActionView::MakeDir(target) && entries_fetched(
            end.0,
            i - 1,
            target,
            remote,
            entries,
        ),
    decreases actions,
{
    let (w0, a0) = resumed(stack);
    run_extends(world, taken, w0, a0, actions, end);
    turn_leads_on(world, taken, stack, actions, end);
    let (now, next) = turn_of(world, taken, stack);
    let left = (actions - (now.len() - taken.len())) as nat;
    let n = now.len() as int;
    let (walk, action) = resumed(next);
    run_extends(world, now, walk, action, left, end);
    if i >= n {
        listed_is_fetched(world, now, next, left, end, i, remote, entries);
    } else {
        assert(end.0[i] == end.0.take(n)[i]);
        assert(stack.last().is_dir && i == n - 1);
        assert(end.0[i - 1] == end.0.take(n)[i - 1]);
        let target = stack.last().target;
        assert forall|k: int| 0 <= k < entries.len() implies is_fetched(
            end.0,
            i + 1,
            TaskView {
                remote: joined(remote, (#[trigger] entries[k]).name),
                target: target.push(entries[k].name),
                name: entries[k].name,
                is_dir: entries[k].is_dir,
                size: entries[k].size,
            },
        ) by {
            let at = stack.len() - 1 + entries.len() - 1 - k;
            assert(next[at] == child_task(remote, target, entries[k]));
            all_fetched(world, now, next, left, end, at);
        }
    }
}

/// Where all went well, every entry of every folder that was listed was fetched:
/// what the listing calls a folder was made on the disk and listed, anything else
/// was fetched with the size that the listing gave it.
pub proof fn law_entries_are_fetched(
    world: World,
    t: TaskView,
    actions: nat,
    end: Ending,
    i: int,
    remote: Seq<char>,
    entries: Seq<EntryView>,
)
    requires
        stack_carried_out(world, Seq::empty(), seq![t], actions) == Some(end),
        end.1 is Ok,
        0 <= i < end.0.len(),
        end.0[i] == DownloadActionView::List(remote),
        world(end.0.take(i + 1)) == DownloadEventView::Listed(Ok(entries)),
    ensures
        i > 0,
        end.0[i - 1] matches DownloadActionView::MakeDir(target) && entries_fetched(
            end.0,
            i - 1,
            target,
            remote,
            entries,
        ),
{
    listed_is_fetched(world, Seq::empty(), seq![t], actions, end, i, remote, entries);
}

/// Where all went well, what was picked was fetched.
pub proof fn law_picked_is_fetched(world: World, t: TaskView, actions: nat, end: Ending)
    requires
        stack_carried_out(world, Seq::empty(), seq![t], actions) == Some(end),
        end.1 is Ok,
    ensures
        is_fetched(end.0, 0, t),
{
    all_fetched(world, Seq::empty(), seq![t], actions, end, 0);
}

/// Whether `t` is the `k`-th entry of the folder that was listed at `i`, right
/// behind the making of its place on the disk.
pub open spec fn names(
    world: World,
    taken: Seq<DownloadActionView>,
    i: int,
    k: int,
    t: TaskView,
) -> bool {
    &&& 0 < i < taken.len()
    &&& taken[i] matches DownloadActionView::List(remote)
    &&& taken[i - 1] matches DownloadActionView::MakeDir(target)
    &&& world(taken.take(i + 1)) matches DownloadEventView::Listed(Ok(entries))
    &&& 0 <= k < entries.len()
    &&& t.remote == joined(remote, entries[k].name)
    &&& t.target == target.push(entries[k].name)
    &&& t.name == entries[k].name
    &&& t.is_dir == entries[k].is_dir
    &&& t.size == entries[k].size
}

/// Whether `t` is what was picked or an entry of a folder that was listed.
pub open spec fn called_for(
    world: World,
    top: TaskView,
    taken: Seq<DownloadActionView>,
    t: TaskView,
) -> bool {
    t == top || exists|i: int, k: int| names(world, taken, i, k, t)
}

/// Whether some folder that was picked or listed goes to this place.
pub open spec fn folder_called_for(
    world: World,
    top: TaskView,
    taken: Seq<DownloadActionView>,
    target: Seq<Seq<char>>,
) -> bool {
    exists|t: TaskView|
        #[trigger] called_for(world, top, taken, t) && t.is_dir && t.target == target
}

/// Whether an action is about a file that is to be fetched as such, or a folder
/// that is to be made as such.
pub open spec fn action_called_for(
    world: World,
    top: TaskView,
    taken: Seq<DownloadActionView>,
    action: DownloadActionView,
) -> bool {
    match action {
        DownloadActionView::Fetch { remote, target, name, size } => called_for(
            world,
            top,
            taken,
            TaskView { remote, target, name, is_dir: false, size },
        ),
        DownloadActionView::MakeDir(target) => folder_called_for(world, top, taken, target),
        _ => true,
    }
}

proof fn called_for_later(
    world: World,
    top: TaskView,
    taken: Seq<DownloadActionView>,
    later: Seq<DownloadActionView>,
    t: TaskView,
)
    requires
        taken.len() <= later.len(),
        later.take(taken.len() as int) == taken,
        called_for(world, top, taken, t),
    ensures
        called_for(world, top, later, t),
{
    if t != top {
        let (i, k) = choose|i: int, k: int| names(world, taken, i, k, t);
        assert(later.take(i + 1) =~= taken.take(i + 1));
        assert(later[i] == later.take(i + 1)[i]);
        assert(taken[i] == taken.take(i + 1)[i]);
        assert(later[i - 1] == later.take(i + 1)[i - 1]);
        assert(taken[i - 1] == taken.take(i + 1)[i - 1]);
        assert(names(world, later, i, k, t));
    }
}

proof fn all_called_for(
    world: World,
    top: TaskView,
    taken: Seq<DownloadActionView>,
    stack: Seq<TaskView>,
    actions: nat,
    end: Ending,
    j: int,
)
    requires
        stack_carried_out(world, taken, stack, actions) == Some(end),
        forall|k: int| 0 <= k < stack.len() ==> called_for(world, top, taken, #[trigger] stack[k]),
        taken.len() <= j < end.0.len(),
    ensures
        action_called_for(world, top, end.0, end.0[j]),
    decreases actions,
{
    let (w0, a0) = resumed(stack);
    run_extends(world, taken, w0, a0, actions, end);
    turn_leads_on(world, taken, stack, actions, end);
    let (now, next) = turn_of(world, taken, stack);
    let left = (actions - (now.len() - taken.len())) as nat;
    let n = now.len() as int;
    let t = stack.last();
    assert(called_for(world, top, taken, stack[stack.len() - 1]));
    called_for_later(world, top, taken, end.0, t);
    let m = if end.0.len() < n {
        end.0.len() as int
    } else {
        n
    };
    if actions >= now.len() - taken.len() && stack_carried_out(world, now, next, left) == Some(end) {
        let (walk, action) = resumed(next);
        run_extends(world, now, walk, action, left, end);
    }
    if j < m {
        assert(end.0.take(m) =~= now.take(m));
        assert(end.0[j] == now.take(m)[j]);
    } else {
        assert(now.take(taken.len() as int) =~= taken);
        assert forall|k: int| 0 <= k < next.len() implies called_for(
            world,
            top,
            now,
            #[trigger] next[k],
        ) by {
            if k < stack.len() - 1 {
                assert(next[k] == stack[k]);
                called_for_later(world, top, taken, now, stack[k]);
            } else if let DownloadEventView::Listed(Ok(entries)) = world(now) {
                let e = entries.len() - 1 - (k - (stack.len() - 1));
                assert(now.take(n) =~= now);
                assert(names(world, now, n - 1, e, next[k]));
            }
        }
        all_called_for(world, top, now, next, left, end, j);
    }
}

/// However a download ends, nothing is fetched as a file but what was picked as
/// one or what a listing calls no folder, from where it is to where it belongs
/// and with the size that was given; and no folder is made but for what was
/// picked as one or what a listing calls one.
pub proof fn law_kind_decides(world: World, t: TaskView, actions: nat, end: Ending, j: int)
    requires
        stack_carried_out(world, Seq::empty(), seq![t], actions) == Some(end),
        0 <= j < end.0.len(),
    ensures
        action_called_for(world, t, end.0, end.0[j]),
{
    all_called_for(world, t, Seq::empty(), seq![t], actions, end, j);
}

} // verus!
