//! What each event of a multipart upload leads to, and what storage is asked to
//! put together at the end.

use crate::parts::{
    ascending, bytes_held, law_ascending_whole, law_last_part, law_missing_exact, law_part_count,
    law_part_place, law_part_size, law_part_size_is_least, part_count, part_size_of, span_of,
    PartSpan,
};
use crate::text::{decimal, signed_decimal};
use crate::upload::{
    ActionView, EventView, PlanView, RunView, StateView, UploadPhase, CONCURRENCY, READ_AHEAD,
};
use crate::upload_laws::{
    begun, last_action, law_count_exact, law_plan_fixed, law_step_keeps_count, legal, state_after,
};
use vstd::prelude::*;

verus! {

// ---------------------------------------------------------------------------
// The plan
// ---------------------------------------------------------------------------

/// A file is cut into parts of the least size that is allowed, and into just as
/// many as hold it.
pub proof fn law_plan_cut(plan: PlanView, m: nat)
    ensures
        plan.part_size() % 1048576 == 0,
        plan.part_size() >= 16777216,
        plan.part_size() * 9500 > plan.size,
        m % 1048576 == 0 && m >= 16777216 && m * 9500 > plan.size ==> plan.part_size() <= m,
        plan.count() * plan.part_size() >= plan.size,
        plan.size > 0 ==> (plan.count() - 1) * plan.part_size() < plan.size,
        plan.size == 0 ==> plan.count() == 0,
        plan.count() <= 9500,
{
    law_part_size(plan.size as nat);
    law_part_size_is_least(plan.size as nat, m);
    law_part_count(plan.size as nat);
    law_last_part(plan.size as nat, plan.part_size());
}

/// Eight parts are sent at a time, and four are read ahead of them.
pub proof fn law_pace()
    ensures
        CONCURRENCY == 8,
        READ_AHEAD == 4,
{
}

/// What is saved of an upload names the object, the upload, and the file by its
/// size, its time of change and its parts.
pub proof fn law_saved_fields(plan: PlanView, upload_id: Seq<char>)
    ensures
        plan.saved(upload_id).bucket == plan.bucket,
        plan.saved(upload_id).key == plan.key,
        plan.saved(upload_id).upload_id == upload_id,
        plan.saved(upload_id).file_size == plan.size,
        plan.saved(upload_id).mtime_secs == plan.mtime,
        plan.saved(upload_id).part_size == plan.part_size(),
{
    law_part_size(plan.size as nat);
}

/// A saved upload is resumed if and only if it is of the same object and of a
/// file with the same size, time of change and parts.
pub proof fn law_resumes_the_same(plan: PlanView, saved: Option<StateView>)
    ensures
        plan.resumable(saved) is Some <==> {
            &&& saved matches Some(st)
            &&& st.bucket == plan.bucket
            &&& st.key == plan.key
            &&& st.file_size == plan.size
            &&& st.mtime_secs == plan.mtime
            &&& st.part_size == plan.part_size()
        },
        plan.resumable(saved) matches Some(id) ==> id == saved->0.upload_id,
{
    law_part_size(plan.size as nat);
}

// ---------------------------------------------------------------------------
// Beginning
// ---------------------------------------------------------------------------

/// Whether parts are about to be sent: what storage has of the file is reported,
/// and just the other parts wait to be read, the first of them last.
pub open spec fn sets_out(v: RunView, w: RunView, action: ActionView) -> bool {
    let size = v.plan.size as nat;
    let part_size = part_size_of(size);
    let count = part_count(size, part_size);
    &&& w.plan == v.plan
    &&& w.upload_id == v.upload_id
    &&& w.parts == v.parts
    &&& w.failed == v.failed
    &&& w.cancelled == v.cancelled
    &&& w.phase == UploadPhase::Starting
    &&& w.flying == Set::<i32>::empty()
    &&& !w.lost
    &&& w.completed == bytes_held(v.parts.dom(), size, part_size, count)
    &&& action == ActionView::Ask(w.completed)
    &&& forall|i: int|
        0 <= i < w.unread.len() ==> 1 <= #[trigger] w.unread[i] <= count && !v.parts.contains_key(
            w.unread[i],
        )
    &&& forall|i: int, j: int|
        0 <= i < j < w.unread.len() ==> #[trigger] w.unread[i] > #[trigger] w.unread[j]
    &&& forall|n: i32|
        1 <= n <= count && !v.parts.contains_key(n) ==> #[trigger] w.unread.contains(n)
}

proof fn starting_sets_out(v: RunView)
    ensures
        sets_out(v, v.starting().0, v.starting().1),
{
    let size = v.plan.size as nat;
    let part_size = part_size_of(size);
    let count = part_count(size, part_size);
    law_part_count(size);
    let held = v.parts.dom();
    let spans = v.plan.missing(held);
    let w = v.starting().0;
    law_missing_exact(held, size, part_size, count);
    assert forall|i: int| 0 <= i < w.unread.len() implies 1 <= #[trigger] w.unread[i] <= count
        && !v.parts.contains_key(w.unread[i]) by {
        assert(w.unread[i] == spans[spans.len() - 1 - i].number);
    }
    assert forall|i: int, j: int| 0 <= i < j < w.unread.len() implies #[trigger] w.unread[i]
        > #[trigger] w.unread[j] by {
        let (a, b) = (spans.len() - 1 - j, spans.len() - 1 - i);
        assert(spans[a].number < spans[b].number);
    }
    assert forall|n: i32| 1 <= n <= count && !v.parts.contains_key(n) implies #[trigger] w.unread.contains(
        n,
    ) by {
        let span = span_of(size, part_size, n as int);
        assert(spans.contains(span));
        let k = choose|k: int| 0 <= k < spans.len() && spans[k] == span;
        assert(w.unread[spans.len() - 1 - k] == n);
    }
}

/// Where storage says which parts it has of a saved upload, those count as
/// confirmed and the rest is sent under the same upload; where it cannot say, a
/// new upload is asked for, as where none was saved.
pub proof fn law_confirming(v: RunView, m: Map<i32, Seq<char>>)
    ensures
        v.upload_id.len() > 0 ==> ({
            let (w, action) = v.after(EventView::Listed(Some(m)));
            sets_out(RunView { parts: m, ..v }, w, action)
        }),
        v.upload_id.len() == 0 ==> v.after(EventView::Listed(Some(m))) == (
            RunView { parts: m, phase: UploadPhase::Creating, ..v },
            ActionView::Create,
        ),
        v.after(EventView::Listed(None)) == (
            RunView { upload_id: Seq::empty(), phase: UploadPhase::Creating, ..v },
            ActionView::Create,
        ),
{
    starting_sets_out(RunView { parts: m, ..v });
}

/// A new upload is saved under the identifier that storage gave, with what
/// resuming it asks for, and then the parts are sent; where storage gave none, or
/// would not begin one, the upload ends.
pub proof fn law_creating(v: RunView, id: Seq<char>, e: Seq<char>)
    ensures
        v.after(EventView::Created(Ok(Some(id)))).0 == (RunView {
            upload_id: id,
            phase: UploadPhase::Saving,
            ..v
        }),
        v.after(EventView::Created(Ok(Some(id)))).1 matches ActionView::Save(st) && st.bucket
            == v.plan.bucket && st.key == v.plan.key && st.upload_id == id && st.file_size
            == v.plan.size && st.mtime_secs == v.plan.mtime && st.part_size == part_size_of(
            v.plan.size as nat,
        ),
        v.after(EventView::Created(Ok(None))).1 == ActionView::Finish(
            Err("El servidor no devolvio upload_id"@),
        ),
        v.after(EventView::Created(Err(e))).1 == ActionView::Finish(
            Err("No se pudo iniciar la subida: "@ + e),
        ),
        v.after(EventView::Created(Ok(None))).0.phase == UploadPhase::Finished,
        v.after(EventView::Created(Err(e))).0.phase == UploadPhase::Finished,
        sets_out(v, v.after(EventView::Saved).0, v.after(EventView::Saved).1),
{
    starting_sets_out(v);
    law_part_size(v.plan.size as nat);
}

// ---------------------------------------------------------------------------
// Sending
// ---------------------------------------------------------------------------

/// Whether these are just the parts of the file that storage does not have, in
/// ascending order, each where it begins and as long as it is.
pub open spec fn is_the_rest(v: RunView, spans: Seq<PartSpan>) -> bool {
    let size = v.plan.size as int;
    let part_size = part_size_of(v.plan.size as nat) as int;
    let count = part_count(v.plan.size as nat, part_size_of(v.plan.size as nat));
    &&& forall|i: int|
        0 <= i < spans.len() ==> {
            let span = #[trigger] spans[i];
            &&& 1 <= span.number <= count
            &&& !v.parts.contains_key(span.number)
            &&& span.offset == (span.number - 1) * part_size
            &&& span.len == if size - (span.number - 1) * part_size < part_size {
                size - (span.number - 1) * part_size
            } else {
                part_size
            }
        }
    &&& forall|i: int, j: int|
        0 <= i < j < spans.len() ==> (#[trigger] spans[i]).number < (#[trigger] spans[j]).number
    &&& forall|n: i32|
        1 <= n <= count && !v.parts.contains_key(n) ==> exists|i: int|
            0 <= i < spans.len() && #[trigger] spans[i].number == n
}

/// Once the user agrees, the rest of the file is read, and each part that was
/// read is sent; what is in flight is awaited. Nothing else changes.
pub proof fn law_agreed(v: RunView)
    ensures
        v.phase == UploadPhase::Starting ==> {
            &&& v.after(EventView::Progress(true)).0 == (RunView {
                phase: UploadPhase::Sending,
                ..v
            })
            &&& v.after(EventView::Progress(true)).1 matches ActionView::Read(spans)
            &&& is_the_rest(v, spans)
        },
        v.phase == UploadPhase::Asking ==> v.after(EventView::Progress(true)) == (
            RunView {
                unread: v.unread.drop_last(),
                flying: v.flying.insert(v.unread[v.unread.len() - 1]),
                phase: UploadPhase::Sending,
                ..v
            },
            ActionView::Upload,
        ),
        v.phase == UploadPhase::Reporting ==> v.after(EventView::Progress(true)) == (
            RunView { phase: UploadPhase::Draining, ..v },
            ActionView::Wait,
        ),
{
    let size = v.plan.size as nat;
    let part_size = part_size_of(size);
    let count = part_count(size, part_size);
    law_part_count(size);
    law_part_size(size);
    law_missing_exact(v.parts.dom(), size, part_size, count);
    let spans = v.plan.missing(v.parts.dom());
    assert forall|i: int| 0 <= i < spans.len() implies {
        let span = #[trigger] spans[i];
        &&& 1 <= span.number <= count
        &&& !v.parts.contains_key(span.number)
        &&& span.offset == (span.number - 1) * part_size
        &&& span.len == if size - (span.number - 1) * part_size < part_size {
            size - (span.number - 1) * part_size
        } else {
            part_size as int
        }
    } by {
        let span = spans[i];
        assert(span == span_of(size, part_size, span.number as int));
        law_part_place(size, part_size, span.number as int);
    }
    assert forall|n: i32| 1 <= n <= count && !v.parts.contains_key(n) implies exists|i: int|
        0 <= i < spans.len() && #[trigger] spans[i].number == n by {
        assert(spans.contains(span_of(size, part_size, n as int)));
        let k = choose|k: int| 0 <= k < spans.len() && spans[k] == span_of(size, part_size, n as int);
        assert(spans[k].number == n);
    }
    assert(is_the_rest(v, spans));
}

/// Once the user refuses, the upload is cancelled: nothing more is sent, and it is
/// given up as soon as nothing is in flight.
pub proof fn law_refused(v: RunView)
    ensures
        v.phase == UploadPhase::Starting ==> v.after(EventView::Progress(false)) == (
            RunView { cancelled: true, phase: UploadPhase::Aborting, ..v },
            ActionView::Abort { upload_id: v.upload_id },
        ),
        v.phase == UploadPhase::Asking ==> v.after(EventView::Progress(false)) == (
            RunView { cancelled: true, phase: UploadPhase::Draining, ..v },
            ActionView::Drain,
        ),
        v.phase == UploadPhase::Reporting ==> v.after(EventView::Progress(false)) == (
            RunView { cancelled: true, phase: UploadPhase::Draining, ..v },
            ActionView::Wait,
        ),
{
}

/// A part that was read waits until the replies that came meanwhile are taken;
/// then the user is asked, unless something went wrong. Where nothing more comes
/// from the disk, what is in flight is awaited.
pub proof fn law_reading(v: RunView, number: i32)
    ensures
        v.after(EventView::PartRead(number)) == (
            RunView { phase: UploadPhase::Settling, ..v },
            ActionView::Settle,
        ),
        v.failed is None ==> v.after(EventView::Settled) == (
            RunView { phase: UploadPhase::Asking, ..v },
            ActionView::Ask(v.completed),
        ),
        v.failed is Some ==> v.after(EventView::Settled) == (
            RunView { phase: UploadPhase::Draining, ..v },
            ActionView::Drain,
        ),
        v.after(EventView::ReadsOver) == (
            RunView { phase: UploadPhase::Draining, ..v },
            ActionView::Drain,
        ),
{
}

/// Whether a reply was taken: while the last parts are awaited and nothing went
/// wrong, the total is reported and the user is asked; else the next is awaited.
pub open spec fn reply_taken(phase: UploadPhase, w: RunView, action: ActionView) -> bool {
    if phase == UploadPhase::Draining && w.failed is None && !w.cancelled {
        w.phase == UploadPhase::Reporting && action == ActionView::Ask(w.completed)
    } else {
        w.phase == phase && action == ActionView::Wait
    }
}

/// A part that storage confirms is kept with its tag and counted with its bytes.
pub proof fn law_part_confirmed(v: RunView, number: i32, tag: Seq<char>)
    ensures
        ({
            let (w, action) = v.after(EventView::PartSent { number, reply: Ok(tag) });
            let part_size = part_size_of(v.plan.size as nat) as int;
            let left = v.plan.size - (number - 1) * part_size;
            &&& w.parts == v.parts.insert(number, tag)
            &&& w.flying == v.flying.remove(number)
            &&& w.completed == v.completed + if left < part_size {
                left
            } else {
                part_size
            }
            &&& w.plan == v.plan && w.upload_id == v.upload_id && w.unread == v.unread && w.lost
                == v.lost && w.failed == v.failed && w.cancelled == v.cancelled
            &&& reply_taken(v.phase, w, action)
        }),
{
    law_part_place(v.plan.size as nat, part_size_of(v.plan.size as nat), number as int);
}

/// A part that storage refuses, or a task that breaks down, is what the upload
/// fails with, unless something went wrong before; what is confirmed stays.
pub proof fn law_part_failed(v: RunView, number: i32, e: Seq<char>)
    ensures
        ({
            let (w, action) = v.after(EventView::PartSent { number, reply: Err(e) });
            &&& w.failed == if v.failed is Some {
                v.failed
            } else {
                Some("Fallo al subir la parte "@ + decimal(number as nat) + ": "@ + e)
            }
            &&& w.flying == v.flying.remove(number)
            &&& w.parts == v.parts && w.completed == v.completed
            &&& w.plan == v.plan && w.upload_id == v.upload_id && w.unread == v.unread && w.lost
                == v.lost && w.cancelled == v.cancelled
            &&& w.phase == v.phase && action == ActionView::Wait
        }),
        ({
            let (w, action) = v.after(EventView::PartLost(e));
            &&& w.failed == if v.failed is Some {
                v.failed
            } else {
                Some("tarea fallo: "@ + e)
            }
            &&& w.lost
            &&& w.flying == v.flying && w.parts == v.parts && w.completed == v.completed
            &&& w.plan == v.plan && w.upload_id == v.upload_id && w.unread == v.unread
                && w.cancelled == v.cancelled
            &&& w.phase == v.phase && action == ActionView::Wait
        }),
{
}

// ---------------------------------------------------------------------------
// Ending
// ---------------------------------------------------------------------------

/// Whether this is every confirmed part once, by its number from one on, with the
/// tag that storage gave it. Storage may have one empty part behind the file.
pub open spec fn is_every_part(v: RunView, parts: Seq<(i32, Seq<char>)>) -> bool {
    let count = v.plan.count();
    &&& forall|n: i32| #[trigger] v.parts.contains_key(n) ==> 1 <= n <= count + 1
    &&& forall|n: i32| 1 <= n <= count ==> #[trigger] v.parts.contains_key(n)
    &&& parts.len() == count + if v.parts.contains_key((count + 1) as i32) {
        1int
    } else {
        0
    }
    &&& forall|i: int|
        0 <= i < parts.len() ==> (#[trigger] parts[i]).0 == i + 1 && parts[i].1 == v.parts[(i
            + 1) as i32]
}

proof fn complete_has_every_part(v: RunView)
    requires
        v.plan.owns(v.parts),
        v.all_confirmed(),
    ensures
        is_every_part(v, ascending(v.parts, v.plan.count() + 1)),
{
    let size = v.plan.size as nat;
    let ps = v.plan.part_size();
    let count = v.plan.count();
    law_part_size(size);
    law_part_count(size);
    law_last_part(size, ps);
    assert forall|n: i32| #[trigger] v.parts.contains_key(n) implies 1 <= n <= count + 1 by {
        if n > count + 1 {
            assert((n - 1) * ps >= (count + 1) * ps) by (nonlinear_arith)
                requires
                    n >= count + 2,
                    ps > 0,
            ;
            assert((count + 1) * ps == count * ps + ps) by (nonlinear_arith);
        }
    }
    assert forall|n: int| 1 <= n <= count implies v.parts.contains_key(#[trigger] (n as i32)) by {
        let m = n as i32;
        assert(v.parts.contains_key(m));
    }
    law_ascending_whole(v.parts, count);
}

/// Whenever storage is asked to put the parts together, it is given the upload
/// and every part of the file, each with the number and the tag under which it
/// was confirmed.
pub proof fn law_complete_carries_every_part(v: RunView, event: EventView)
    requires
        v.ok(),
        v.expects(event),
        v.after(event).1 is Complete,
    ensures
        v.after(event).1 matches ActionView::Complete { upload_id, parts } && upload_id
            == v.upload_id && is_every_part(v, parts),
        v.after(event).0.phase == UploadPhase::Completing,
        v.failed is None,
        !v.cancelled,
{
    law_step_keeps_count(v, event);
    let w = v.after(event).0;
    assert(w.parts == v.parts);
    assert(w.all_confirmed());
    assert forall|n: i32| 1 <= n <= v.plan.count() implies #[trigger] v.parts.contains_key(n) by {
        assert(w.parts.contains_key(n));
    }
    complete_has_every_part(v);
}

/// Once nothing is in flight and the reader is done, a cancelled upload is given
/// up; one that failed ends with the first failure, which may be the reader's;
/// any other is put together.
pub proof fn law_concluding(v: RunView, e: Seq<char>)
    ensures
        v.cancelled ==> {
            &&& v.after(EventView::ReaderEnded(Ok(()))).1 == (ActionView::Abort {
                upload_id: v.upload_id,
            })
            &&& v.after(EventView::ReaderEnded(Err(e))).1 == (ActionView::Abort {
                upload_id: v.upload_id,
            })
            &&& v.after(EventView::ReaderLost(e)).1 == (ActionView::Abort {
                upload_id: v.upload_id,
            })
            &&& v.after(EventView::ReaderEnded(Ok(()))).0 == (RunView {
                phase: UploadPhase::Aborting,
                ..v
            })
            &&& v.after(EventView::ReaderEnded(Err(e))).0 == (RunView {
                phase: UploadPhase::Aborting,
                ..v
            })
            &&& v.after(EventView::ReaderLost(e)).0 == (RunView {
                phase: UploadPhase::Aborting,
                ..v
            })
        },
        !v.cancelled && v.failed is Some ==> {
            &&& v.after(EventView::ReaderEnded(Ok(()))).1 == ActionView::Finish(Err(v.failed->0))
            &&& v.after(EventView::ReaderEnded(Err(e))).1 == ActionView::Finish(Err(v.failed->0))
            &&& v.after(EventView::ReaderLost(e)).1 == ActionView::Finish(Err(v.failed->0))
        },
        !v.cancelled && v.failed is None ==> {
            &&& v.after(EventView::ReaderEnded(Ok(()))).1 is Complete
            &&& v.after(EventView::ReaderEnded(Err(e))).1 == ActionView::Finish(Err(e))
            &&& v.after(EventView::ReaderLost(e)).1 == ActionView::Finish(Err("lector: "@ + e))
            &&& v.after(EventView::ReaderEnded(Ok(()))).0 == (RunView {
                phase: UploadPhase::Completing,
                ..v
            })
        },
        !v.cancelled ==> {
            &&& v.after(EventView::ReaderEnded(Err(e))).0.phase == UploadPhase::Finished
            &&& v.after(EventView::ReaderLost(e)).0.phase == UploadPhase::Finished
        },
{
}

/// An upload that was given up is forgotten and ends as cancelled. One that was
/// put together is measured; where the object is just as large as the file, the
/// saved state is removed and the upload ends well; else it ends with what
/// storage has and what the file has.
pub proof fn law_checking(v: RunView, n: i64, e: Seq<char>)
    ensures
        v.after(EventView::Aborted) == (
            RunView { phase: UploadPhase::ForgettingCancelled, ..v },
            ActionView::Forget,
        ),
        v.phase == UploadPhase::ForgettingCancelled ==> v.after(EventView::Forgotten).1
            == ActionView::Finish(Err("Cancelado"@)),
        v.phase == UploadPhase::ForgettingDone ==> v.after(EventView::Forgotten).1
            == ActionView::Finish(Ok(())),
        v.after(EventView::Forgotten).0.phase == UploadPhase::Finished,
        v.after(EventView::Completed(Ok(()))) == (
            RunView { phase: UploadPhase::Measuring, ..v },
            ActionView::Measure,
        ),
        v.after(EventView::Completed(Err(e))).1 == ActionView::Finish(
            Err("No se pudo completar la subida: "@ + e),
        ),
        n == v.plan.size ==> v.after(EventView::Measured(Ok(Some(n)))) == (
            RunView { phase: UploadPhase::ForgettingDone, ..v },
            ActionView::Forget,
        ),
        n != v.plan.size ==> v.after(EventView::Measured(Ok(Some(n)))).1 == ActionView::Finish(
            Err(
                "Verificacion FALLIDA: en S3 hay "@ + signed_decimal(n as int)
                    + " bytes pero el original tiene "@ + decimal(v.plan.size as nat)
                    + ". La subida NO es confiable."@,
            ),
        ),
        v.after(EventView::Measured(Ok(None))).1 == ActionView::Finish(
            Err(
                "Verificacion FALLIDA: en S3 hay "@ + signed_decimal(-1)
                    + " bytes pero el original tiene "@ + decimal(v.plan.size as nat)
                    + ". La subida NO es confiable."@,
            ),
        ),
        v.after(EventView::Measured(Err(e))).1 == ActionView::Finish(
            Err("No se pudo verificar la subida: "@ + e),
        ),
{
}

/// Each event is taken when it can come and at no other time. The parts that
/// storage lists must begin within the file or at its end; the parts come from
/// the disk in their order; a reply is to a part in flight.
pub proof fn law_when_events_come(v: RunView, e: EventView)
    ensures
        v.expects(e) <==> match e {
            EventView::Listed(None) => v.phase == UploadPhase::Confirming,
            EventView::Listed(Some(m)) => v.phase == UploadPhase::Confirming && forall|n: i32|
                #[trigger] m.contains_key(n) ==> n >= 1 && (n - 1) * part_size_of(
                    v.plan.size as nat,
                ) <= v.plan.size,
            EventView::Created(_) => v.phase == UploadPhase::Creating,
            EventView::Saved => v.phase == UploadPhase::Saving,
            EventView::PartRead(n) => v.phase == UploadPhase::Sending && v.unread.len() > 0
                && v.unread[v.unread.len() - 1] == n,
            EventView::Settled => v.phase == UploadPhase::Settling,
            EventView::Progress(_) => v.phase == UploadPhase::Starting || v.phase
                == UploadPhase::Asking || v.phase == UploadPhase::Reporting,
            EventView::ReadsOver => v.phase == UploadPhase::Sending,
            EventView::PartSent { number, .. } => (v.phase == UploadPhase::Settling || v.phase
                == UploadPhase::Draining) && v.flying.contains(number),
            EventView::PartLost(_) => v.phase == UploadPhase::Settling || v.phase
                == UploadPhase::Draining,
            EventView::ReaderEnded(Ok(_)) => v.phase == UploadPhase::Draining && (v.lost || v.flying
                == Set::<i32>::empty()) && (v.unread.len() == 0 || v.failed is Some || v.cancelled),
            EventView::ReaderEnded(Err(_)) => v.phase == UploadPhase::Draining && (v.lost
                || v.flying == Set::<i32>::empty()),
            EventView::ReaderLost(_) => v.phase == UploadPhase::Draining && (v.lost || v.flying
                == Set::<i32>::empty()),
            EventView::Aborted => v.phase == UploadPhase::Aborting,
            EventView::Forgotten => v.phase == UploadPhase::ForgettingCancelled || v.phase
                == UploadPhase::ForgettingDone,
            EventView::Completed(_) => v.phase == UploadPhase::Completing,
            EventView::Measured(_) => v.phase == UploadPhase::Measuring,
        },
{
    if let EventView::Listed(Some(m)) = e {
        let ps = part_size_of(v.plan.size as nat);
        assert forall|n: i32| #[trigger] m.contains_key(n) implies crate::parts::part_begins(
            v.plan.size as nat,
            v.plan.part_size(),
            n as int,
        ) == (n >= 1 && (n - 1) * ps <= v.plan.size) by {
            law_part_place(v.plan.size as nat, ps, n as int);
        }
        if v.expects(e) {
            assert forall|n: i32| #[trigger] m.contains_key(n) implies n >= 1 && (n - 1) * ps
                <= v.plan.size by {
                assert(crate::parts::part_begins(
                    v.plan.size as nat,
                    v.plan.part_size(),
                    n as int,
                ));
            }
        }
    }
}

// ---------------------------------------------------------------------------
// The whole of an upload
// ---------------------------------------------------------------------------

/// Whether storage gave part `number` this tag, when the upload was resumed or
/// since.
pub open spec fn tagged(events: Seq<EventView>, number: i32, tag: Seq<char>) -> bool {
    ||| events.contains(EventView::PartSent { number, reply: Ok(tag) })
    ||| exists|listed: Map<i32, Seq<char>>|
        #[trigger] events.contains(EventView::Listed(Some(listed))) && listed.contains_key(number)
            && listed[number] == tag
}

proof fn confirmed_is_tagged(v: RunView, events: Seq<EventView>, number: i32)
    requires
        begun(v),
        legal(v, events),
        state_after(v, events).parts.contains_key(number),
    ensures
        tagged(events, number, state_after(v, events).parts[number]),
    decreases events.len(),
{
    if events.len() > 0 {
        let front = events.drop_last();
        let last = events.last();
        let before = state_after(v, front);
        let tag = state_after(v, events).parts[number];
        assert(events[events.len() - 1] == last);
        assert forall|e: EventView| #[trigger] front.contains(e) implies events.contains(e) by {
            let k = choose|k: int| 0 <= k < front.len() && front[k] == e;
            assert(events[k] == e);
        }
        match last {
            EventView::PartSent { number: n, reply: Ok(t) } if n == number => {
                assert(events.contains(EventView::PartSent { number, reply: Ok(tag) }));
            },
            EventView::Listed(Some(m)) => {
                assert(events.contains(EventView::Listed(Some(m))));
            },
            _ => {
                assert(before.parts.contains_key(number) && before.parts[number] == tag);
                confirmed_is_tagged(v, front, number);
                if !front.contains(EventView::PartSent { number, reply: Ok(tag) }) {
                    let m = choose|m: Map<i32, Seq<char>>|
                        #[trigger] front.contains(EventView::Listed(Some(m))) && m.contains_key(
                            number,
                        ) && m[number] == tag;
                    assert(events.contains(EventView::Listed(Some(m))));
                }
            },
        }
    }
}

/// The identifier that storage gave on these events, or the one there was.
pub open spec fn given_id(v: RunView, events: Seq<EventView>) -> Seq<char>
    decreases events.len(),
{
    if events.len() == 0 {
        v.upload_id
    } else {
        match events.last() {
            EventView::Created(Ok(Some(id))) => id,
            EventView::Listed(None) => Seq::empty(),
            _ => given_id(v, events.drop_last()),
        }
    }
}

proof fn id_is_given(v: RunView, events: Seq<EventView>)
    ensures
        state_after(v, events).upload_id == given_id(v, events),
    decreases events.len(),
{
    if events.len() > 0 {
        id_is_given(v, events.drop_last());
    }
}

/// However an upload went, where storage is asked to put the parts together the
/// list begins with part one and has every part of the file in ascending order,
/// each with a tag that storage gave to just that part; and it is the upload that
/// storage began last, or the one that was resumed.
pub proof fn law_all_parts_are_put_together(v: RunView, events: Seq<EventView>, i: int)
    requires
        begun(v),
        legal(v, events),
        events.len() > 0,
        last_action(v, events) is Complete,
    ensures
        last_action(v, events) matches ActionView::Complete { upload_id, parts } && {
            &&& upload_id == given_id(v, events)
            &&& v.plan.count() <= parts.len() <= v.plan.count() + 1
            &&& 0 <= i < parts.len() ==> parts[i].0 == i + 1 && tagged(
                events,
                (i + 1) as i32,
                parts[i].1,
            )
        },
{
    let front = events.drop_last();
    let s = state_after(v, front);
    law_count_exact(v, front);
    law_plan_fixed(v, front);
    law_part_count(v.plan.size as nat);
    law_complete_carries_every_part(s, events.last());
    id_is_given(v, front);
    let parts = last_action(v, events)->parts;
    if 0 <= i < parts.len() {
        let n = (i + 1) as i32;
        assert(parts[i].0 == i + 1);
        assert(s.parts.contains_key(n));
        assert(state_after(v, events).parts == s.parts);
        confirmed_is_tagged(v, events, n);
    }
}

} // verus!
