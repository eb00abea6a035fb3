//! What holds of every upload, whatever storage and the disk answer.

use crate::parts::{
    ascending, law_all_parts_make_the_file, law_ascending_exact, law_ascending_whole,
    law_held_part_adds, law_held_within_file, law_last_part, law_missing_completes,
    law_missing_exact, law_part_count, law_part_size, law_part_within, part_begins, span_bytes,
    span_of,
};
use crate::upload::{ActionView, EventView, PlanView, RunView, UploadPhase};
use vstd::prelude::*;

verus! {

/// Where an upload stands once these events have come, in this order.
pub open spec fn state_after(v: RunView, events: Seq<EventView>) -> RunView
    decreases events.len(),
{
    if events.len() == 0 {
        v
    } else {
        state_after(v, events.drop_last()).after(events.last()).0
    }
}

/// What is done on the last of these events.
pub open spec fn last_action(v: RunView, events: Seq<EventView>) -> ActionView {
    state_after(v, events.drop_last()).after(events.last()).1
}

/// Whether each event comes when it can.
pub open spec fn legal(v: RunView, events: Seq<EventView>) -> bool
    decreases events.len(),
{
    events.len() == 0 || (legal(v, events.drop_last()) && state_after(
        v,
        events.drop_last(),
    ).expects(events.last()))
}

/// Whether the upload has just begun.
pub open spec fn begun(v: RunView) -> bool {
    &&& v.phase == UploadPhase::Confirming || v.phase == UploadPhase::Creating
    &&& v.failed is None
    &&& !v.cancelled
    &&& v.parts == Map::<i32, Seq<char>>::empty()
    &&& v.completed == 0
    &&& v.unread == Seq::<i32>::empty()
    &&& v.flying == Set::<i32>::empty()
    &&& !v.lost
}

/// The file and its destination never change during an upload.
pub proof fn law_plan_fixed(v: RunView, events: Seq<EventView>)
    ensures
        state_after(v, events).plan == v.plan,
    decreases events.len(),
{
    if events.len() > 0 {
        law_plan_fixed(v, events.drop_last());
    }
}

proof fn starting_is_ok(v: RunView)
    requires
        v.plan.owns(v.parts),
    ensures
        v.starting().0.ok(),
{
    law_part_size(v.plan.size as nat);
    law_part_count(v.plan.size as nat);
    let held = v.parts.dom();
    let count = v.plan.count();
    let spans = v.plan.missing(held);
    let w = v.starting().0;
    law_missing_exact(held, v.plan.size as nat, v.plan.part_size(), count);
    assert forall|i: int, j: int| 0 <= i < j < w.unread.len() implies #[trigger] w.unread[i]
        != #[trigger] w.unread[j] by {
        let (a, b) = (spans.len() - 1 - j, spans.len() - 1 - i);
        assert(spans[a].number < spans[b].number);
    }
    assert forall|n: i32| 1 <= n <= count implies #[trigger] w.knows(n) by {
        if !held.contains(n) {
            let span = span_of(v.plan.size as nat, v.plan.part_size(), n as int);
            assert(spans.contains(span));
            let k = choose|k: int| 0 <= k < spans.len() && spans[k] == span;
            assert(w.unread[spans.len() - 1 - k] == n);
        }
    }
}

proof fn launching_is_ok(v: RunView)
    requires
        v.ok(),
        v.phase == UploadPhase::Asking,
    ensures
        v.answered(true).0.ok(),
{
    let w = v.answered(true).0;
    let last = v.unread.last();
    assert forall|n: i32| v.knows(n) implies #[trigger] w.knows(n) by {
        if v.unread.contains(n) && n != last {
            let i = choose|i: int| 0 <= i < v.unread.len() && v.unread[i] == n;
            assert(w.unread[i] == n);
        }
    }
    assert forall|i: int| 0 <= i < w.unread.len() implies ({
        let n = #[trigger] w.unread[i];
        1 <= n <= w.plan.count() && !w.parts.contains_key(n) && !w.flying.contains(n)
    }) by {
        assert(v.unread[i] != v.unread[v.unread.len() - 1]);
    }
    assert forall|n: i32| #[trigger] w.flying.contains(n) implies 1 <= n <= w.plan.count()
        && !w.parts.contains_key(n) by {
        if n == last {
            assert(v.unread[v.unread.len() - 1] == n);
        }
    }
}

proof fn landing_is_ok(v: RunView, number: i32, reply: Result<Seq<char>, Seq<char>>)
    requires
        v.ok(),
        v.expects(EventView::PartSent { number, reply }),
    ensures
        v.after(EventView::PartSent { number, reply }).0.ok(),
{
    law_part_size(v.plan.size as nat);
    law_part_count(v.plan.size as nat);
    let w = v.after(EventView::PartSent { number, reply }).0;
    if let Ok(tag) = reply {
        law_held_part_adds(
            v.parts.dom(),
            v.plan.size as nat,
            v.plan.part_size(),
            v.plan.count(),
            number,
        );
        assert(w.parts.dom() =~= v.parts.dom().insert(number));
        law_part_within(v.plan.size as nat, v.plan.part_size(), number as int);
        assert forall|n: i32| v.knows(n) implies #[trigger] w.knows(n) by {}
    }
}

proof fn concluding_is_ok(v: RunView)
    requires
        v.ok(),
        v.drained(),
        v.failed is None && !v.cancelled ==> v.unread.len() == 0,
    ensures
        v.concluding().0.ok(),
{
    let w = v.concluding().0;
    if v.failed is None && !v.cancelled {
        assert forall|n: i32| 1 <= n <= v.plan.count() implies #[trigger] w.parts.contains_key(n) by {
            assert(v.knows(n));
        }
    }
    if v.failed is None {
        assert forall|n: i32| 1 <= n <= w.plan.count() implies #[trigger] w.knows(n) by {
            assert(v.knows(n));
        }
    }
}

proof fn knows_at(v: RunView, w: RunView)
    requires
        w.parts == v.parts,
        w.flying == v.flying,
        w.unread == v.unread,
    ensures
        forall|n: i32| #[trigger] w.knows(n) == v.knows(n),
{
}

/// Each event leaves an upload whose total is what its confirmed parts hold and
/// whose parts are all accounted for.
pub proof fn law_step_keeps_count(v: RunView, event: EventView)
    requires
        v.ok(),
        v.expects(event),
    ensures
        v.after(event).0.ok(),
{
    let w = v.after(event).0;
    match event {
        EventView::Listed(Some(m)) => {
            starting_is_ok(RunView { parts: m, ..v });
        },
        EventView::Saved => {
            starting_is_ok(v);
        },
        EventView::Progress(go) => {
            if go && v.phase == UploadPhase::Asking {
                launching_is_ok(v);
            } else {
                knows_at(v, w);
            }
        },
        EventView::PartSent { number, reply } => {
            landing_is_ok(v, number, reply);
        },
        EventView::ReaderEnded(Ok(_)) => {
            concluding_is_ok(v);
        },
        EventView::ReaderEnded(Err(e)) => {
            knows_at(v, v.reader_failed(e));
            concluding_is_ok(v.reader_failed(e));
        },
        EventView::ReaderLost(e) => {
            let f = v.reader_failed("lector: "@ + e);
            knows_at(v, f);
            concluding_is_ok(f);
        },
        _ => {
            if w.parts == v.parts && w.flying == v.flying && w.unread == v.unread {
                knows_at(v, w);
            }
        },
    }
}

/// At every moment of an upload the total is what the confirmed parts hold.
pub proof fn law_count_exact(v: RunView, events: Seq<EventView>)
    requires
        begun(v),
        legal(v, events),
    ensures
        state_after(v, events).ok(),
    decreases events.len(),
{
    if events.len() > 0 {
        law_count_exact(v, events.drop_last());
        law_step_keeps_count(state_after(v, events.drop_last()), events.last());
    }
}

/// The total never exceeds the file, and while parts are sent it never falls.
pub proof fn law_progress(v: RunView, event: EventView)
    requires
        v.ok(),
        v.counting(),
        v.expects(event),
    ensures
        0 <= v.completed <= v.plan.size,
        v.completed <= v.after(event).0.completed <= v.plan.size,
{
    law_part_size(v.plan.size as nat);
    law_part_count(v.plan.size as nat);
    law_held_within_file(
        v.parts.dom(),
        v.plan.size as nat,
        v.plan.part_size(),
        v.plan.count(),
    );
    law_step_keeps_count(v, event);
    let w = v.after(event).0;
    law_held_within_file(
        w.parts.dom(),
        v.plan.size as nat,
        v.plan.part_size(),
        v.plan.count(),
    );
    match event {
        EventView::PartSent { number, reply } => {
            law_part_within(v.plan.size as nat, v.plan.part_size(), number as int);
        },
        _ => {},
    }
}

/// Once every part is confirmed, the whole file has been counted, nothing is
/// missing, and the parts are put together as number one, two, three and so on.
pub proof fn law_whole_file(v: RunView)
    requires
        v.ok(),
        v.counting(),
        forall|n: int| 1 <= n <= v.plan.count() ==> v.parts.contains_key(#[trigger] (n as i32)),
    ensures
        v.completed == v.plan.size,
        v.plan.missing(v.parts.dom()).len() == 0,
        forall|i: int|
            0 <= i < v.plan.count() ==> #[trigger] ascending(v.parts, v.plan.count())[i] == (
                (i + 1) as i32,
                v.parts[(i + 1) as i32],
            ),
{
    law_part_size(v.plan.size as nat);
    law_part_count(v.plan.size as nat);
    let held = v.parts.dom();
    let count = v.plan.count();
    assert forall|n: int| 1 <= n <= count implies held.contains(#[trigger] (n as i32)) by {
        assert(v.parts.contains_key(n as i32));
    }
    law_all_parts_make_the_file(held, v.plan.size as nat, v.plan.part_size());
    law_ascending_whole(v.parts, count);
    law_missing_exact(held, v.plan.size as nat, v.plan.part_size(), count);
    let missing = v.plan.missing(held);
    if missing.len() > 0 {
        let n = missing[0].number;
        assert(v.parts.contains_key((n as int) as i32));
    }
}

proof fn past_confirming(v: RunView, events: Seq<EventView>)
    requires
        legal(v, events),
        events.len() > 0,
    ensures
        state_after(v, events).phase != UploadPhase::Confirming,
{
}

/// A part that storage confirmed stays confirmed, with the tag it got.
pub proof fn law_sent_part_is_confirmed(
    v: RunView,
    events: Seq<EventView>,
    number: i32,
    tag: Seq<char>,
)
    requires
        begun(v),
        legal(v, events),
        events.contains(EventView::PartSent { number, reply: Ok(tag) }),
    ensures
        state_after(v, events).parts.contains_key(number),
        state_after(v, events).parts[number] == tag,
    decreases events.len(),
{
    let sent = EventView::PartSent { number, reply: Ok(tag) };
    let front = events.drop_last();
    law_count_exact(v, front);
    let k = choose|k: int| 0 <= k < events.len() && events[k] == sent;
    if k < front.len() {
        assert(front[k] == sent);
        law_sent_part_is_confirmed(v, front, number, tag);
        past_confirming(v, front);
    }
}

/// A part that storage still had when the upload was resumed counts as
/// confirmed.
pub proof fn law_listed_part_is_confirmed(
    v: RunView,
    events: Seq<EventView>,
    listed: Map<i32, Seq<char>>,
    number: i32,
)
    requires
        begun(v),
        legal(v, events),
        events.contains(EventView::Listed(Some(listed))),
        listed.contains_key(number),
    ensures
        state_after(v, events).parts.contains_key(number),
        state_after(v, events).parts[number] == listed[number],
    decreases events.len(),
{
    let event = EventView::Listed(Some(listed));
    let front = events.drop_last();
    law_count_exact(v, front);
    let k = choose|k: int| 0 <= k < events.len() && events[k] == event;
    if k < front.len() {
        assert(front[k] == event);
        law_listed_part_is_confirmed(v, front, listed, number);
        past_confirming(v, front);
    }
}

/// Whether storage had part `number` when the upload was resumed, or confirmed
/// it since.
pub open spec fn got(events: Seq<EventView>, number: i32) -> bool {
    ||| exists|tag: Seq<char>|
        events.contains(EventView::PartSent { number, reply: Ok(tag) })
    ||| exists|listed: Map<i32, Seq<char>>|
        #[trigger] events.contains(EventView::Listed(Some(listed))) && listed.contains_key(number)
}

/// Once storage has every part, the whole file has been counted.
pub proof fn law_all_parts_is_whole(v: RunView, events: Seq<EventView>)
    requires
        begun(v),
        legal(v, events),
        state_after(v, events).counting(),
        forall|n: i32| 1 <= n <= v.plan.count() ==> #[trigger] got(events, n),
    ensures
        state_after(v, events).completed == v.plan.size,
{
    law_count_exact(v, events);
    law_plan_fixed(v, events);
    law_part_count(v.plan.size as nat);
    let s = state_after(v, events);
    assert forall|n: int| 1 <= n <= s.plan.count() implies s.parts.contains_key(
        #[trigger] (n as i32),
    ) by {
        let m = n as i32;
        assert(got(events, m));
        if exists|tag: Seq<char>| events.contains(EventView::PartSent { number: m, reply: Ok(tag) }) {
            let tag = choose|tag: Seq<char>|
                events.contains(EventView::PartSent { number: m, reply: Ok(tag) });
            law_sent_part_is_confirmed(v, events, m, tag);
        } else {
            let listed = choose|listed: Map<i32, Seq<char>>|
                #[trigger] events.contains(EventView::Listed(Some(listed))) && listed.contains_key(
                    m,
                );
            law_listed_part_is_confirmed(v, events, listed, m);
        }
    }
    law_whole_file(s);
}

/// What an action reports as sent.
pub open spec fn report_of(action: ActionView) -> Option<int> {
    match action {
        ActionView::Ask(n) => Some(n),
        _ => None,
    }
}

/// What was reported last on these events.
pub open spec fn last_report(v: RunView, events: Seq<EventView>) -> Option<int>
    decreases events.len(),
{
    if events.len() == 0 {
        None
    } else {
        match report_of(last_action(v, events)) {
            Some(n) => Some(n),
            None => last_report(v, events.drop_last()),
        }
    }
}

/// What is reported is what has been counted: it never falls and never exceeds
/// the file.
pub proof fn law_reports(v: RunView, events: Seq<EventView>)
    requires
        begun(v),
        legal(v, events),
        events.len() > 0,
    ensures
        report_of(last_action(v, events)) matches Some(n) ==> {
            &&& n == state_after(v, events).completed
            &&& 0 <= n <= v.plan.size
            &&& last_report(v, events.drop_last()) matches Some(m) ==> m <= n
        },
{
    let front = events.drop_last();
    law_count_exact(v, events);
    law_plan_fixed(v, events);
    law_count_exact(v, front);
    let w = state_after(v, events);
    law_part_size(v.plan.size as nat);
    law_part_count(v.plan.size as nat);
    if w.counting() {
        law_held_within_file(
            w.parts.dom(),
            v.plan.size as nat,
            v.plan.part_size(),
            v.plan.count(),
        );
    }
    reported_so_far(v, front);
    if state_after(v, front).counting() {
        law_progress(state_after(v, front), events.last());
    }
}

proof fn reported_so_far(v: RunView, events: Seq<EventView>)
    requires
        begun(v),
        legal(v, events),
    ensures
        ({
            let s = state_after(v, events);
            &&& s.counting() <==> last_report(v, events) is Some && s.phase
                != UploadPhase::Finished
            &&& s.counting() && s.failed is None && !s.cancelled && s.phase
                != UploadPhase::Settling ==> last_report(v, events) == Some(s.completed)
            &&& last_report(v, events) matches Some(n) ==> n <= s.completed
        }),
    decreases events.len(),
{
    if events.len() > 0 {
        let front = events.drop_last();
        reported_so_far(v, front);
        law_count_exact(v, front);
        cancelled_phase(v, front);
        let s = state_after(v, front);
        if s.counting() {
            law_progress(s, events.last());
        }
    }
}

/// The last report of an upload that ends well is the size of the file: every
/// part was confirmed, and every confirmed part was counted and reported.
pub proof fn law_last_report_is_size(v: RunView, events: Seq<EventView>)
    requires
        begun(v),
        legal(v, events),
        events.len() > 0,
        last_action(v, events) == ActionView::Finish(Ok(())),
    ensures
        last_report(v, events) == Some(v.plan.size as int),
        state_after(v, events).all_confirmed(),
{
    let front = events.drop_last();
    let s = state_after(v, front);
    law_count_exact(v, front);
    law_plan_fixed(v, front);
    law_part_count(v.plan.size as nat);
    reported_so_far(v, front);
    assert forall|n: int| 1 <= n <= s.plan.count() implies s.parts.contains_key(
        #[trigger] (n as i32),
    ) by {
        let m = n as i32;
        assert(s.parts.contains_key(m));
    }
    law_whole_file(s);
}

/// Storage is asked to put together every confirmed part, each once, with its
/// own tag, in ascending order.
pub proof fn law_complete_lists_all(v: RunView, n: i32)
    requires
        v.ok(),
        v.parts.contains_key(n),
    ensures
        ascending(v.parts, v.plan.count() + 1).contains((n, v.parts[n])),
{
    law_part_size(v.plan.size as nat);
    law_part_count(v.plan.size as nat);
    let size = v.plan.size as nat;
    let ps = v.plan.part_size();
    let count = v.plan.count();
    assert(part_begins(size, ps, n as int));
    if n > count + 1 {
        law_last_part(size, ps);
        assert((n - 1) * ps >= (count + 1) * ps) by (nonlinear_arith)
            requires
                n >= count + 2,
                ps > 0,
        ;
        assert((count + 1) * ps == count * ps + ps) by (nonlinear_arith);
    }
    law_ascending_exact(v.parts, count + 1);
}

/// An upload ends well only where storage put the parts together and then
/// reported exactly the size of the file.
pub proof fn law_success_is_checked(v: RunView, events: Seq<EventView>)
    requires
        begun(v),
        legal(v, events),
        events.len() > 0,
        last_action(v, events) == ActionView::Finish(Ok(())),
    ensures
        events.contains(EventView::Completed(Ok(()))),
        exists|n: i64|
            n == v.plan.size && #[trigger] events.contains(EventView::Measured(Ok(Some(n)))),
{
    let front = events.drop_last();
    checked_so_far(v, front);
    law_plan_fixed(v, front);
    assert forall|e: EventView| #[trigger] front.contains(e) implies events.contains(e) by {
        let k = choose|k: int| 0 <= k < front.len() && front[k] == e;
        assert(events[k] == e);
    }
}

proof fn checked_so_far(v: RunView, events: Seq<EventView>)
    requires
        begun(v),
        legal(v, events),
    ensures
        ({
            let s = state_after(v, events);
            &&& s.phase == UploadPhase::Measuring || s.phase == UploadPhase::ForgettingDone
                ==> events.contains(EventView::Completed(Ok(())))
            &&& s.phase == UploadPhase::ForgettingDone ==> exists|n: i64|
                n == v.plan.size && #[trigger] events.contains(EventView::Measured(Ok(Some(n))))
        }),
    decreases events.len(),
{
    if events.len() > 0 {
        let front = events.drop_last();
        let last = events.last();
        checked_so_far(v, front);
        law_plan_fixed(v, front);
        assert forall|e: EventView| #[trigger] front.contains(e) implies events.contains(e) by {
            let k = choose|k: int| 0 <= k < front.len() && front[k] == e;
            assert(events[k] == e);
        }
        assert(events[events.len() - 1] == last);
        assert(events.contains(last));
        match last {
            EventView::Completed(Ok(unit)) => {
                assert(unit == ());
                assert(last == EventView::Completed(Ok(())));
            },
            EventView::Measured(Ok(Some(n))) => {
                assert(last == EventView::Measured(Ok(Some(n))));
            },
            _ => {},
        }
    }
}

/// Once the user gave up, an upload ends in no other way than as cancelled.
pub proof fn law_cancelled_stays_cancelled(v: RunView, events: Seq<EventView>)
    requires
        begun(v),
        legal(v, events),
        events.len() > 0,
        state_after(v, events).cancelled,
    ensures
        last_action(v, events) is Finish ==> last_action(v, events) == ActionView::Finish(
            Err("Cancelado"@),
        ),
        !(last_action(v, events) is Complete),
{
    cancelled_phase(v, events.drop_last());
    cancelled_phase(v, events);
}

proof fn cancelled_phase(v: RunView, events: Seq<EventView>)
    requires
        begun(v),
        legal(v, events),
    ensures
        ({
            let s = state_after(v, events);
            &&& s.cancelled ==> s.phase == UploadPhase::Draining || s.phase == UploadPhase::Aborting
                || s.phase == UploadPhase::ForgettingCancelled || s.phase == UploadPhase::Finished
            &&& s.phase == UploadPhase::Aborting || s.phase == UploadPhase::ForgettingCancelled
                ==> s.cancelled
        }),
    decreases events.len(),
{
    if events.len() > 0 {
        cancelled_phase(v, events.drop_last());
    }
}

/// Whenever the user refuses to go on, the upload is cancelled: it ends in no
/// other way, and nothing more is sent.
pub proof fn law_refusal_cancels(v: RunView, events: Seq<EventView>)
    requires
        begun(v),
        legal(v, events),
        events.contains(EventView::Progress(false)),
    ensures
        state_after(v, events).cancelled,
        last_action(v, events) is Finish ==> last_action(v, events) == ActionView::Finish(
            Err("Cancelado"@),
        ),
        !(last_action(v, events) is Upload),
        !(last_action(v, events) is Complete),
    decreases events.len(),
{
    let front = events.drop_last();
    let k = choose|k: int| 0 <= k < events.len() && events[k] == EventView::Progress(false);
    if k < front.len() {
        assert(front[k] == EventView::Progress(false));
        law_refusal_cancels(v, front);
    }
    cancelled_phase(v, front);
    law_cancelled_stays_cancelled(v, events);
}

/// An upload that ends as cancelled was given up, so that storage dropped its
/// parts, and then its saved state was removed: it will not be resumed.
pub proof fn law_cancel_cleans_up(v: RunView, events: Seq<EventView>)
    requires
        begun(v),
        legal(v, events),
        events.len() > 0,
        state_after(v, events).cancelled,
        last_action(v, events) is Finish,
    ensures
        events.contains(EventView::Aborted),
        events.last() == EventView::Forgotten,
{
    let front = events.drop_last();
    cancelled_phase(v, front);
    aborted_so_far(v, front);
    if front.contains(EventView::Aborted) {
        let k = choose|k: int| 0 <= k < front.len() && front[k] == EventView::Aborted;
        assert(events[k] == EventView::Aborted);
    }
}

proof fn aborted_so_far(v: RunView, events: Seq<EventView>)
    requires
        begun(v),
        legal(v, events),
    ensures
        state_after(v, events).phase == UploadPhase::ForgettingCancelled ==> events.contains(
            EventView::Aborted,
        ),
{
    if events.len() > 0 {
        assert(events[events.len() - 1] == events.last());
    }
}

/// Whether none of these events made the upload be given up or its saved state
/// be removed.
pub open spec fn kept_resumable(v: RunView, events: Seq<EventView>) -> bool
    decreases events.len(),
{
    events.len() == 0 || {
        &&& kept_resumable(v, events.drop_last())
        &&& !(last_action(v, events) is Abort)
        &&& !(last_action(v, events) is Forget)
    }
}

/// An upload that fails and was not cancelled is neither given up nor
/// forgotten: it can be resumed.
pub proof fn law_failure_stays_resumable(v: RunView, events: Seq<EventView>, e: Seq<char>)
    requires
        begun(v),
        legal(v, events),
        events.len() > 0,
        last_action(v, events) == ActionView::Finish(Err(e)),
        !state_after(v, events).cancelled,
    ensures
        kept_resumable(v, events),
{
    kept_so_far(v, events.drop_last());
    cancelled_phase(v, events.drop_last());
}

proof fn kept_so_far(v: RunView, events: Seq<EventView>)
    requires
        begun(v),
        legal(v, events),
    ensures
        ({
            let s = state_after(v, events);
            !s.cancelled && s.phase != UploadPhase::ForgettingDone && s.phase
                != UploadPhase::Finished ==> kept_resumable(v, events)
        }),
    decreases events.len(),
{
    if events.len() > 0 {
        kept_so_far(v, events.drop_last());
        cancelled_phase(v, events.drop_last());
    }
}

/// The first thing that went wrong is the one that is reported.
pub proof fn law_first_failure_stays(v: RunView, events: Seq<EventView>, e: Seq<char>)
    requires
        v.failed == Some(e),
    ensures
        state_after(v, events).failed == Some(e),
    decreases events.len(),
{
    if events.len() > 0 {
        law_first_failure_stays(v, events.drop_last(), e);
    }
}

/// What one run saves, another run for the same unchanged file resumes.
pub proof fn law_saved_state_resumes(plan: PlanView, upload_id: Seq<char>)
    ensures
        plan.resumable(Some(plan.saved(upload_id))) == Some(upload_id),
{
}

/// A saved state of another object, or of a file that changed since, is not
/// resumed.
pub proof fn law_changed_file_starts_anew(plan: PlanView, then: PlanView, upload_id: Seq<char>)
    requires
        plan.bucket != then.bucket || plan.key != then.key || plan.size != then.size || plan.mtime
            != then.mtime,
    ensures
        plan.resumable(Some(then.saved(upload_id))) is None,
{
}

/// A resumed upload sends what is missing and no more: what storage has is
/// reported first, no confirmed part is sent again, and what is sent makes up
/// the rest of the file.
pub proof fn law_resume_sends_the_rest(v: RunView)
    ensures
        v.starting().1 is Ask,
        v.starting().0.answered(true).1 is Read,
        v.starting().1->Ask_0 + span_bytes(v.starting().0.answered(true).1->Read_0)
            == v.plan.size,
        forall|i: int|
            0 <= i < v.starting().0.answered(true).1->Read_0.len() ==> !v.parts.contains_key(
                (#[trigger] v.starting().0.answered(true).1->Read_0[i]).number,
            ),
{
    law_part_size(v.plan.size as nat);
    law_part_count(v.plan.size as nat);
    law_missing_completes(v.parts.dom(), v.plan.size as nat, v.plan.part_size());
    law_missing_exact(
        v.parts.dom(),
        v.plan.size as nat,
        v.plan.part_size(),
        v.plan.count(),
    );
}

} // verus!
