//! What holds of every upload of files and folders, whatever the server and the
//! disk answer: what each answer leads to, and what was done by the time it
//! ended.

use crate::events::ProgressView;
use crate::path::joined;
use crate::text::ok_is_ok;
use crate::upload_walk::{
    carried_out, child_task, resumed, stack_carried_out, visits, ChildView, Ending, StageView,
    TaskView, WalkActionView, WalkEventView, WalkView, World,
};
use vstd::prelude::*;

verus! {

/// The report that so many bytes of a file, of so many in all, were sent.
pub open spec fn sent_so_far<P>(name: Seq<char>, transferred: u64, total: u64) -> WalkActionView<P> {
    WalkActionView::Report(
        ProgressView { kind: "upload"@, state: "progress"@, name, transferred, total },
    )
}

// ---------------------------------------------------------------------------
// One answer
// ---------------------------------------------------------------------------

/// Whether this is what is done when the turn of `t` comes: a folder is made on
/// the server, to be read next; a file is measured; an entry that could not be
/// read ends it all.
pub open spec fn takes_its_turn<P>(
    t: TaskView<P>,
    rest: Seq<TaskView<P>>,
    w: WalkView<P>,
    action: WalkActionView<P>,
) -> bool {
    match t {
        TaskView::Visit { path, remote, name, is_dir } => if is_dir {
            &&& action == WalkActionView::<P>::MakeDir(remote)
            &&& w.stage == (StageView::Making { path, remote })
            &&& w.stack == rest
        } else {
            &&& action == WalkActionView::Measure(path)
            &&& w.stage == (StageView::<P>::Measuring { remote, name })
            &&& w.stack == rest
        },
        TaskView::Fail(e) => action == WalkActionView::<P>::Finish(Err(e)) && w.stack.len() == 0,
    }
}

/// An upload begins with what was picked, under its own name in the folder that
/// was chosen.
pub proof fn law_upload_begins<P>(t: TaskView<P>)
    ensures
        takes_its_turn(t, Seq::empty(), resumed(seq![t]).0, resumed(seq![t]).1),
{
    assert(seq![t].drop_last() =~= Seq::empty());
}

/// What an entry of a local folder is to be done with: it goes under its own name
/// into the remote folder, as a folder if and only if it is one; one that could
/// not be read ends the upload when its turn comes.
pub open spec fn goes_into<P>(
    remote: Seq<char>,
    child: Result<ChildView<P>, Seq<char>>,
    t: TaskView<P>,
) -> bool {
    match child {
        Ok(c) => t == (TaskView::Visit {
            path: c.path,
            remote: joined(remote, c.name),
            name: c.name,
            is_dir: c.is_dir,
        }),
        Err(e) => t == TaskView::<P>::Fail(e),
    }
}

/// Once a local folder is read, its first entry has its turn; the others wait in
/// the order of reading, before what waited already.
pub proof fn law_read_entries_wait<P>(
    v: WalkView<P>,
    remote: Seq<char>,
    children: Seq<Result<ChildView<P>, Seq<char>>>,
)
    requires
        v.stage == (StageView::<P>::Reading { remote }),
        children.len() > 0,
    ensures
        ({
            let (w, action) = v.after(WalkEventView::Read(Ok(children)));
            let n = v.stack.len() as int;
            &&& exists|t: TaskView<P>, rest: Seq<TaskView<P>>|
                {
                    &&& #[trigger] takes_its_turn(t, rest, w, action)
                    &&& goes_into(remote, children[0], t)
                    &&& rest.len() == n + children.len() - 1
                    &&& rest.take(n) == v.stack
                    &&& forall|k: int|
                        1 <= k < children.len() ==> goes_into(
                            remote,
                            #[trigger] children[k],
                            rest[n + children.len() - 1 - k],
                        )
                }
        }),
{
    let (w, action) = v.after(WalkEventView::Read(Ok(children)));
    let n = v.stack.len() as int;
    let all = v.stack + visits(remote, children);
    let rest = all.drop_last();
    let t = child_task(remote, children[0]);
    assert(all.last() == t);
    assert(takes_its_turn(t, rest, w, action));
    assert(rest.take(n) =~= v.stack);
    assert forall|k: int| 1 <= k < children.len() implies goes_into(
        remote,
        #[trigger] children[k],
        rest[n + children.len() - 1 - k],
    ) by {
        assert(rest[n + children.len() - 1 - k] == child_task(remote, children[k]));
    }
}

/// What waits has its turn, from the last on, behind a file that was sent and
/// behind a folder that turned out empty. Where nothing waits, all went well.
pub proof fn law_upload_goes_on<P>(v: WalkView<P>, event: WalkEventView<P>)
    requires
        ({
            ||| v.stage is Reading && event == WalkEventView::<P>::Read(Ok(Seq::empty()))
            ||| v.stage is Closing && event is Reported
        }),
    ensures
        v.stack.len() == 0 ==> v.after(event).1 == WalkActionView::<P>::Finish(Ok(())),
        v.stack.len() > 0 ==> takes_its_turn(
            v.stack[v.stack.len() - 1],
            v.stack.drop_last(),
            v.after(event).0,
            v.after(event).1,
        ),
{
    if let StageView::Reading { remote } = v.stage {
        assert(v.stack + visits(remote, Seq::empty()) =~= v.stack);
    }
}

/// Whether or not a remote folder could be made, the local one is read; a file
/// that was measured, or could not be and counts as empty, is reported, then
/// sent, then reported whole. What waits is not touched.
pub proof fn law_upload_steps<P>(
    v: WalkView<P>,
    made: Result<(), Seq<char>>,
    handed: P,
    measured: Option<u64>,
)
    ensures
        v.stage matches StageView::Making { path, remote } ==> v.after(WalkEventView::Done(made))
            == (
            WalkView { stack: v.stack, stage: StageView::Reading { remote } },
            WalkActionView::ReadDir(path),
        ),
        v.stage matches StageView::Measuring { remote, name } ==> {
            let size = if measured is Some {
                measured->0
            } else {
                0u64
            };
            v.after(WalkEventView::Measured { path: handed, size: measured }) == (
                WalkView {
                    stack: v.stack,
                    stage: StageView::Opening { path: handed, remote, name, size },
                },
                sent_so_far::<P>(name, 0, size),
            )
        },
        v.stage matches StageView::Opening { path, remote, name, size } ==> v.after(
            WalkEventView::Reported,
        ) == (
            WalkView { stack: v.stack, stage: StageView::Sending { name, size } },
            WalkActionView::Send { path, remote, name, size },
        ),
        v.stage matches StageView::Sending { name, size } ==> v.after(
            WalkEventView::Done(Ok(())),
        ) == (
            WalkView { stack: v.stack, stage: StageView::Closing },
            sent_so_far::<P>(name, size, size),
        ),
{
}

/// The first failure to read a folder or to send a file ends an upload with what
/// was said, and nothing waits any more.
pub proof fn law_failed_upload_ends<P>(v: WalkView<P>, e: Seq<char>)
    ensures
        v.after(WalkEventView::Read(Err(e))).1 == WalkActionView::<P>::Finish(Err(e)),
        v.after(WalkEventView::Read(Err(e))).0.stack.len() == 0,
        v.stage is Sending ==> v.after(WalkEventView::Done(Err(e))).1
            == WalkActionView::<P>::Finish(Err(e)),
        v.stage is Sending ==> v.after(WalkEventView::Done(Err(e))).0.stack.len() == 0,
{
}

/// Each answer is taken where it was asked for and nowhere else.
pub proof fn law_upload_answers<P>(
    v: WalkView<P>,
    read: Result<Seq<Result<ChildView<P>, Seq<char>>>, Seq<char>>,
    done: Result<(), Seq<char>>,
    path: P,
    size: Option<u64>,
)
    ensures
        v.expects(WalkEventView::Read(read)) <==> v.stage is Reading,
        v.expects(WalkEventView::Measured { path, size }) <==> v.stage is Measuring,
        v.expects(WalkEventView::Done(done)) <==> v.stage is Making || v.stage is Sending,
        v.expects(WalkEventView::Reported) <==> v.stage is Opening || v.stage is Closing,
{
}

// ---------------------------------------------------------------------------
// The whole of an upload
// ---------------------------------------------------------------------------

/// What the disk said of the size of the file that was measured last; a file
/// that it said nothing of counts as empty.
pub open spec fn size_told<P>(world: World<P>, taken: Seq<WalkActionView<P>>) -> u64 {
    match world(taken) {
        WalkEventView::Measured { size: Some(n), .. } => n,
        _ => 0,
    }
}

/// Whether at `a`, from the `from`-th action on, this was sent: a folder was made
/// on the server and the local one was read; a file was measured, reported, sent
/// from where the measuring found it to its place, and reported whole.
pub open spec fn sent_at<P>(
    world: World<P>,
    taken: Seq<WalkActionView<P>>,
    from: int,
    a: int,
    path: P,
    remote: Seq<char>,
    name: Seq<char>,
    is_dir: bool,
) -> bool {
    if is_dir {
        &&& from <= a < taken.len() - 1
        &&& taken[a] == WalkActionView::<P>::MakeDir(remote)
        &&& taken[a + 1] == WalkActionView::ReadDir(path)
    } else {
        let size = size_told(world, taken.take(a + 1));
        &&& from <= a < taken.len() - 3
        &&& taken[a] == WalkActionView::Measure(path)
        &&& taken[a + 1] == sent_so_far::<P>(name, 0, size)
        &&& taken[a + 2] matches WalkActionView::Send { path: p, remote: r, name: m, size: s }
        &&& r == remote && m == name && s == size
        &&& world(taken.take(a + 1)) matches WalkEventView::Measured { path: q, .. }
        &&& q == p
        &&& taken[a + 3] == sent_so_far::<P>(name, size, size)
    }
}

/// Whether this was sent from the `from`-th action on. Nothing is ever made of an
/// entry that could not be read.
pub open spec fn is_sent<P>(
    world: World<P>,
    taken: Seq<WalkActionView<P>>,
    from: int,
    t: TaskView<P>,
) -> bool {
    match t {
        TaskView::Visit { path, remote, name, is_dir } => exists|a: int|
            sent_at(world, taken, from, a, path, remote, name, is_dir),
        TaskView::Fail(_) => false,
    }
}

proof fn run_extends<P>(
    world: World<P>,
    taken: Seq<WalkActionView<P>>,
    walk: WalkView<P>,
    action: WalkActionView<P>,
    actions: nat,
    end: Ending<P>,
)
    requires
        carried_out(world, taken, walk, action, actions) == Some(end),
    ensures
        taken.len() <= end.0.len(),
        end.0.take(taken.len() as int) == taken,
        !(action is Finish) ==> end.0.len() > taken.len() && end.0.take(taken.len() as int + 1)
            == taken.push(action),
    decreases actions,
{
    if action is Finish {
        assert(taken.take(taken.len() as int) =~= taken);
    } else {
        let now = taken.push(action);
        let (next, follows) = walk.after(world(now));
        run_extends(world, now, next, follows, (actions - 1) as nat, end);
        assert(end.0.take(taken.len() as int) =~= end.0.take(now.len() as int).take(
            taken.len() as int,
        ));
    }
}

/// The actions that are taken for the last of `stack`, and what waits behind
/// them, where all goes well.
spec fn turn_of<P>(world: World<P>, taken: Seq<WalkActionView<P>>, stack: Seq<TaskView<P>>) -> (
    Seq<WalkActionView<P>>,
    Seq<TaskView<P>>,
) {
    match stack.last() {
        TaskView::Visit { path, remote, name, is_dir } => if is_dir {
            let read = taken.push(WalkActionView::MakeDir(remote)).push(
                WalkActionView::ReadDir(path),
            );
            (
                read,
                match world(read) {
                    WalkEventView::Read(Ok(children)) => stack.drop_last() + visits(
                        remote,
                        children,
                    ),
                    _ => Seq::empty(),
                },
            )
        } else {
            let asked = taken.push(WalkActionView::Measure(path));
            let size = size_told(world, asked);
            let handed = match world(asked) {
                WalkEventView::Measured { path: p, .. } => p,
                _ => path,
            };
            (
                asked.push(sent_so_far(name, 0, size)).push(
                    WalkActionView::Send { path: handed, remote, name, size },
                ).push(sent_so_far(name, size, size)),
                stack.drop_last(),
            )
        },
        TaskView::Fail(_) => (taken, Seq::empty()),
    }
}

/// A turn that goes well leads to the next; one that does not ends it all, and
/// no more was done than belongs to the turn.
proof fn turn_leads_on<P>(
    world: World<P>,
    taken: Seq<WalkActionView<P>>,
    stack: Seq<TaskView<P>>,
    actions: nat,
    end: Ending<P>,
)
    requires
        stack.len() > 0,
        stack_carried_out(world, taken, stack, actions) == Some(end),
    ensures
        ({
            let (now, next) = turn_of(world, taken, stack);
            ||| {
                &&& stack.last() is Visit
                &&& now.len() > taken.len()
                &&& actions >= now.len() - taken.len()
                &&& stack_carried_out(
                    world,
                    now,
                    next,
                    (actions - (now.len() - taken.len())) as nat,
                ) == Some(end)
                &&& stack.last()->is_dir ==> (world(now) matches WalkEventView::Read(Ok(_)))
                &&& !stack.last()->is_dir ==> world(
                    taken.push(WalkActionView::Measure(stack.last()->path)),
                ) is Measured
            }
            ||| {
                &&& end.1 is Err
                &&& taken.len() <= end.0.len() <= now.len()
                &&& end.0 == now.take(end.0.len() as int)
            }
        }),
{
    reveal_with_fuel(carried_out, 5);
    let (now, next) = turn_of(world, taken, stack);
    match stack.last() {
        TaskView::Visit { path, remote, name, is_dir } => {
            if is_dir {
                assert(now.take(now.len() as int) =~= now);
            } else {
                let asked = taken.push(WalkActionView::Measure(path));
                let got = now.drop_last();
                if let WalkEventView::Done(r) = world(got) {
                    ok_is_ok(r);
                }
                assert(now.take(got.len() as int) =~= got);
                assert(got =~= asked.push(now[asked.len() as int]).push(
                    now[asked.len() as int + 1],
                ));
            }
        },
        TaskView::Fail(_) => {
            assert(now.take(now.len() as int) =~= now);
        },
    }
}

proof fn sent_earlier<P>(
    world: World<P>,
    taken: Seq<WalkActionView<P>>,
    from: int,
    later: int,
    t: TaskView<P>,
)
    requires
        from <= later,
        is_sent(world, taken, later, t),
    ensures
        is_sent(world, taken, from, t),
{
    if let TaskView::Visit { path, remote, name, is_dir } = t {
        let a = choose|a: int| sent_at(world, taken, later, a, path, remote, name, is_dir);
        assert(sent_at(world, taken, from, a, path, remote, name, is_dir));
    }
}

/// An upload that goes well sends all that waits.
proof fn all_sent<P>(
    world: World<P>,
    taken: Seq<WalkActionView<P>>,
    stack: Seq<TaskView<P>>,
    actions: nat,
    end: Ending<P>,
    k: int,
)
    requires
        stack_carried_out(world, taken, stack, actions) == Some(end),
        end.1 is Ok,
        0 <= k < stack.len(),
    ensures
        is_sent(world, end.0, taken.len() as int, stack[k]),
    decreases actions,
{
    turn_leads_on(world, taken, stack, actions, end);
    let (now, next) = turn_of(world, taken, stack);
    let left = (actions - (now.len() - taken.len())) as nat;
    let from = taken.len() as int;
    let n = now.len() as int;
    if k < stack.len() - 1 {
        assert(next[k] == stack[k]);
        all_sent(world, now, next, left, end, k);
        sent_earlier(world, end.0, from, n, stack[k]);
    } else {
        let (walk, action) = resumed(next);
        run_extends(world, now, walk, action, left, end);
        assert(end.0[from] == end.0.take(n)[from]);
        assert(end.0[from + 1] == end.0.take(n)[from + 1]);
        if let TaskView::Visit { path, remote, name, is_dir } = stack[k] {
            if !is_dir {
                assert(end.0[from + 2] == end.0.take(n)[from + 2]);
                assert(end.0[from + 3] == end.0.take(n)[from + 3]);
                assert(end.0.take(from + 1) =~= taken.push(WalkActionView::Measure(path))) by {
                    assert(end.0.take(from + 1) =~= end.0.take(n).take(from + 1));
                }
            }
            assert(sent_at(world, end.0, from, from, path, remote, name, is_dir));
        }
    }
}

/// Whether the entries of a local folder, which was read right behind the making
/// of the remote one at `a`, could all be read and were all sent since.
pub open spec fn entries_sent<P>(
    world: World<P>,
    taken: Seq<WalkActionView<P>>,
    a: int,
    remote: Seq<char>,
    children: Seq<Result<ChildView<P>, Seq<char>>>,
) -> bool {
    forall|k: int|
        0 <= k < children.len() ==> {
            &&& #[trigger] children[k] matches Ok(c)
            &&& is_sent(
                world,
                taken,
                a + 2,
                TaskView::Visit {
                    path: c.path,
                    remote: joined(remote, c.name),
                    name: c.name,
                    is_dir: c.is_dir,
                },
            )
        }
}

proof fn read_is_sent<P>(
    world: World<P>,
    taken: Seq<WalkActionView<P>>,
    stack: Seq<TaskView<P>>,
    actions: nat,
    end: Ending<P>,
    i: int,
    path: P,
    children: Seq<Result<ChildView<P>, Seq<char>>>,
)
    requires
        stack_carried_out(world, taken, stack, actions) == Some(end),
        end.1 is Ok,
        taken.len() <= i < end.0.len(),
        end.0[i] == WalkActionView::ReadDir(path),
        world(end.0.take(i + 1)) == WalkEventView::Read(Ok(children)),
    ensures
        i > taken.len(),
        end.0[i - 1] matches WalkActionView::MakeDir(remote) && entries_sent(
            world,
            end.0,
            i - 1,
            remote,
            children,
        ),
    decreases actions,
{
    let (w0, a0) = resumed(stack);
    run_extends(world, taken, w0, a0, actions, end);
    turn_leads_on(world, taken, stack, actions, end);
    let (now, next) = turn_of(world, taken, stack);
    let left = (actions - (now.len() - taken.len())) as nat;
    let n = now.len() as int;
    let (walk, action) = resumed(next);
    run_extends(world, now, walk, action, left, end);
    if i >= n {
        read_is_sent(world, now, next, left, end, i, path, children);
    } else {
        assert(end.0[i] == end.0.take(n)[i]);
        assert(stack.last()->is_dir && i == n - 1);
        assert(end.0[i - 1] == end.0.take(n)[i - 1]);
        let remote = stack.last()->remote;
        assert forall|k: int| 0 <= k < children.len() implies {
            &&& #[trigger] children[k] matches Ok(c)
            &&& is_sent(
                world,
                end.0,
                i + 1,
                TaskView::Visit {
                    path: c.path,
                    remote: joined(remote, c.name),
                    name: c.name,
                    is_dir: c.is_dir,
                },
            )
        } by {
            let at = stack.len() - 1 + children.len() - 1 - k;
            assert(next[at] == child_task(remote, children[k]));
            all_sent(world, now, next, left, end, at);
        }
    }
}

/// Where all went well, every entry of every folder that was read could be read
/// and was sent: a folder was made on the server and read, anything else was
/// measured and sent as a file.
pub proof fn law_entries_are_sent<P>(
    world: World<P>,
    t: TaskView<P>,
    actions: nat,
    end: Ending<P>,
    i: int,
    path: P,
    children: Seq<Result<ChildView<P>, Seq<char>>>,
)
    requires
        stack_carried_out(world, Seq::empty(), seq![t], actions) == Some(end),
        end.1 is Ok,
        0 <= i < end.0.len(),
        end.0[i] == WalkActionView::ReadDir(path),
        world(end.0.take(i + 1)) == WalkEventView::Read(Ok(children)),
    ensures
        i > 0,
        end.0[i - 1] matches WalkActionView::MakeDir(remote) && entries_sent(
            world,
            end.0,
            i - 1,
            remote,
            children,
        ),
{
    read_is_sent(world, Seq::empty(), seq![t], actions, end, i, path, children);
}

/// Where all went well, what was picked was sent.
pub proof fn law_picked_is_sent<P>(world: World<P>, t: TaskView<P>, actions: nat, end: Ending<P>)
    requires
        stack_carried_out(world, Seq::empty(), seq![t], actions) == Some(end),
        end.1 is Ok,
    ensures
        is_sent(world, end.0, 0, t),
{
    all_sent(world, Seq::empty(), seq![t], actions, end, 0);
}

/// Whether this is the `k`-th entry of the local folder that was read at `i`,
/// right behind the making of its place on the server.
pub open spec fn names<P>(
    world: World<P>,
    taken: Seq<WalkActionView<P>>,
    i: int,
    k: int,
    t: TaskView<P>,
) -> bool {
    &&& 0 < i < taken.len()
    &&& taken[i] is ReadDir
    &&& taken[i - 1] matches WalkActionView::MakeDir(remote)
    &&& world(taken.take(i + 1)) matches WalkEventView::Read(Ok(children))
    &&& 0 <= k < children.len()
    &&& goes_into(remote, children[k], t)
}

/// Whether this is what was picked or an entry of a folder that was read.
pub open spec fn called_for<P>(
    world: World<P>,
    top: TaskView<P>,
    taken: Seq<WalkActionView<P>>,
    t: TaskView<P>,
) -> bool {
    t == top || exists|i: int, k: int| names(world, taken, i, k, t)
}

/// Whether something that was picked or read, a folder or not as `is_dir` says,
/// goes to this place.
pub open spec fn place_called_for<P>(
    world: World<P>,
    top: TaskView<P>,
    taken: Seq<WalkActionView<P>>,
    remote: Seq<char>,
    is_dir: bool,
) -> bool {
    exists|t: TaskView<P>|
        #[trigger] called_for(world, top, taken, t) && t is Visit && t->is_dir == is_dir
            && t->remote == remote
}

/// Whether an action is about a file that is to be sent as such, or a folder that
/// is to be made as such.
pub open spec fn action_called_for<P>(
    world: World<P>,
    top: TaskView<P>,
    taken: Seq<WalkActionView<P>>,
    action: WalkActionView<P>,
) -> bool {
    match action {
        WalkActionView::Send { remote, .. } => place_called_for(world, top, taken, remote, false),
        WalkActionView::MakeDir(remote) => place_called_for(world, top, taken, remote, true),
        _ => true,
    }
}

proof fn called_for_later<P>(
    world: World<P>,
    top: TaskView<P>,
    taken: Seq<WalkActionView<P>>,
    later: Seq<WalkActionView<P>>,
    t: TaskView<P>,
)
    requires
        taken.len() <= later.len(),
        later.take(taken.len() as int) == taken,
        called_for(world, top, taken, t),
    ensures
        called_for(world, top, later, t),
{
    if t != top {
        let (i, k) = choose|i: int, k: int| names(world, taken, i, k, t);
        assert(later.take(i + 1) =~= taken.take(i + 1));
        assert(later[i] == later.take(i + 1)[i]);
        assert(taken[i] == taken.take(i + 1)[i]);
        assert(later[i - 1] == later.take(i + 1)[i - 1]);
        assert(taken[i - 1] == taken.take(i + 1)[i - 1]);
        assert(names(world, later, i, k, t));
    }
}

proof fn all_called_for<P>(
    world: World<P>,
    top: TaskView<P>,
    taken: Seq<WalkActionView<P>>,
    stack: Seq<TaskView<P>>,
    actions: nat,
    end: Ending<P>,
    j: int,
)
    requires
        stack_carried_out(world, taken, stack, actions) == Some(end),
        forall|k: int| 0 <= k < stack.len() ==> called_for(world, top, taken, #[trigger] stack[k]),
        taken.len() <= j < end.0.len(),
    ensures
        action_called_for(world, top, end.0, end.0[j]),
    decreases actions,
{
    let (w0, a0) = resumed(stack);
    run_extends(world, taken, w0, a0, actions, end);
    turn_leads_on(world, taken, stack, actions, end);
    let (now, next) = turn_of(world, taken, stack);
    let left = (actions - (now.len() - taken.len())) as nat;
    let n = now.len() as int;
    let t = stack.last();
    assert(called_for(world, top, taken, stack[stack.len() - 1]));
    called_for_later(world, top, taken, end.0, t);
    let m = if end.0.len() < n {
        end.0.len() as int
    } else {
        n
    };
    if actions >= now.len() - taken.len() && stack_carried_out(world, now, next, left) == Some(end) {
        let (walk, action) = resumed(next);
        run_extends(world, now, walk, action, left, end);
    }
    if j < m {
        assert(end.0.take(m) =~= now.take(m));
        assert(end.0[j] == now.take(m)[j]);
    } else {
        assert(now.take(taken.len() as int) =~= taken);
        assert forall|k: int| 0 <= k < next.len() implies called_for(
            world,
            top,
            now,
            #[trigger] next[k],
        ) by {
            if k < stack.len() - 1 {
                assert(next[k] == stack[k]);
                called_for_later(world, top, taken, now, stack[k]);
            } else if let WalkEventView::Read(Ok(children)) = world(now) {
                let e = children.len() - 1 - (k - (stack.len() - 1));
                assert(now.take(n) =~= now);
                assert(next[k] == child_task(stack.last()->remote, children[e]));
                assert(names(world, now, n - 1, e, next[k]));
            }
        }
        all_called_for(world, top, now, next, left, end, j);
    }
}

/// However an upload ends, nothing is sent as a file but to the place of what was
/// picked or read as one, and no remote folder is made but at the place of what
/// was picked or read as one.
pub proof fn law_kind_decides<P>(
    world: World<P>,
    t: TaskView<P>,
    actions: nat,
    end: Ending<P>,
    j: int,
)
    requires
        stack_carried_out(world, Seq::empty(), seq![t], actions) == Some(end),
        0 <= j < end.0.len(),
    ensures
        action_called_for(world, t, end.0, end.0[j]),
{
    all_called_for(world, t, Seq::empty(), seq![t], actions, end, j);
}

} // verus!
