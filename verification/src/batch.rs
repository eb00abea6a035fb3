//! Transferring what the user picked, one item after the other.
//!
//! [`Batch::step`] takes how the last item went and says what to tell the user
//! and what to do next.

use crate::events::{
    error, error_line, marked, progress, status, status_line, Direction, LineView, LogLine,
    ProgressView, TransferProgress,
};
use crate::text::{join2, outcome_view};
use vstd::prelude::*;

verus! {

/// Something that the user picked.
#[derive(Debug)]
pub struct TransferItem {
    pub name: String,
    /// Where it is: on the server for a download, on the disk for an upload.
    pub path: String,
    pub is_dir: bool,
    pub size: u64,
}

/// What a [`TransferItem`] says.
pub struct ItemView {
    pub name: Seq<char>,
    pub path: Seq<char>,
    pub is_dir: bool,
    pub size: u64,
}

impl View for TransferItem {
    type V = ItemView;

    open spec fn view(&self) -> ItemView {
        ItemView { name: self.name@, path: self.path@, is_dir: self.is_dir, size: self.size }
    }
}

/// What to do next.
#[derive(Debug)]
pub enum BatchAction {
    /// Transfer this item.
    Transfer(usize),
    /// That was all, and it ended like this.
    End(Result<(), String>),
}

/// What a [`BatchAction`] says.
pub enum BatchActionView {
    Transfer(nat),
    End(Result<(), Seq<char>>),
}

impl View for BatchAction {
    type V = BatchActionView;

    open spec fn view(&self) -> BatchActionView {
        match *self {
            BatchAction::Transfer(i) => BatchActionView::Transfer(i as nat),
            BatchAction::End(r) => BatchActionView::End(outcome_view(r)),
        }
    }
}

/// What to tell the user, and what to do next.
#[derive(Debug)]
pub struct BatchStep {
    pub log: LogLine,
    pub progress: Option<TransferProgress>,
    pub action: BatchAction,
}

/// What a [`BatchStep`] says.
pub struct StepView {
    pub log: LineView,
    pub progress: Option<ProgressView>,
    pub action: BatchActionView,
}

impl View for BatchStep {
    type V = StepView;

    open spec fn view(&self) -> StepView {
        StepView {
            log: self.log@,
            progress: match self.progress {
                Some(p) => Some(p@),
                None => None,
            },
            action: self.action@,
        }
    }
}

/// What is announced when an item's turn comes.
pub open spec fn turn_text(d: Direction, name: Seq<char>) -> Seq<char> {
    match d {
        Direction::Download => "Descargando: "@ + name,
        Direction::Upload => "Subiendo: "@ + name,
    }
}

/// What is announced when all is done.
pub open spec fn done_text(d: Direction) -> Seq<char> {
    match d {
        Direction::Download => "Descarga completada."@,
        Direction::Upload => "Subida completada."@,
    }
}

/// What is done when `next` items have been transferred.
pub open spec fn turn(d: Direction, items: Seq<ItemView>, next: nat) -> StepView {
    if next < items.len() {
        StepView {
            log: status_line(turn_text(d, items[next as int].name)),
            progress: None,
            action: BatchActionView::Transfer(next),
        }
    } else {
        StepView {
            log: status_line(done_text(d)),
            progress: Some(marked(d, "done"@, Seq::empty())),
            action: BatchActionView::End(Ok(())),
        }
    }
}

/// What is done when the item `name` could not be transferred.
pub open spec fn broken_off(d: Direction, name: Seq<char>, e: Seq<char>) -> StepView {
    StepView {
        log: error_line(e),
        progress: Some(marked(d, "error"@, name)),
        action: BatchActionView::End(Err(e)),
    }
}

/// What items say.
pub open spec fn item_views(items: Seq<TransferItem>) -> Seq<ItemView> {
    items.map_values(|i: TransferItem| i@)
}

/// Items that are being transferred, in order.
#[derive(Debug)]
pub struct Batch {
    direction: Direction,
    items: Vec<TransferItem>,
    /// The item whose turn it is.
    current: usize,
    over: bool,
}

/// Where a [`Batch`] stands.
pub struct BatchView {
    pub direction: Direction,
    pub items: Seq<ItemView>,
    pub current: nat,
    pub over: bool,
}

impl View for Batch {
    type V = BatchView;

    closed spec fn view(&self) -> BatchView {
        BatchView {
            direction: self.direction,
            items: item_views(self.items@),
            current: self.current as nat,
            over: self.over,
        }
    }
}

impl BatchView {
    /// A batch that has just begun, or is over since nothing was picked.
    pub open spec fn begun(d: Direction, items: Seq<ItemView>) -> BatchView {
        BatchView { direction: d, items, current: 0, over: items.len() == 0 }
    }

    /// Whether an item is being transferred.
    pub open spec fn running(self) -> bool {
        !self.over && self.current < self.items.len()
    }

    /// Where it stands, and what is done, once the item was tried.
    pub open spec fn after(self, reply: Result<(), Seq<char>>) -> (BatchView, StepView) {
        match reply {
            Ok(_) => {
                let next = self.current + 1;
                (
                    BatchView { current: next, over: next >= self.items.len(), ..self },
                    turn(self.direction, self.items, next),
                )
            },
            Err(e) => (
                BatchView { over: true, ..self },
                broken_off(self.direction, self.items[self.current as int].name, e),
            ),
        }
    }
}

impl Batch {
    /// Begins with the first item.
    pub fn start(direction: Direction, items: Vec<TransferItem>) -> (r: (Batch, BatchStep))
        ensures
            r.0@ == BatchView::begun(direction, item_views(items@)),
            r.1@ == turn(direction, item_views(items@), 0),
    {
        let over = items.len() == 0;
        let batch = Batch { direction, items, current: 0, over };
        let step = batch.turn();
        (batch, step)
    }

    /// Whether an item is being transferred.
    pub fn is_running(&self) -> (r: bool)
        ensures
            r == self@.running(),
    {
        !self.over && self.current < self.items.len()
    }

    /// An item that was picked; none where there are not so many.
    pub fn item(&self, i: usize) -> (r: Option<&TransferItem>)
        ensures
            match r {
                Some(item) => i < self@.items.len() && item@ == self@.items[i as int],
                None => i >= self@.items.len(),
            },
    {
        if i < self.items.len() {
            Some(&self.items[i])
        } else {
            None
        }
    }

    fn turn(&self) -> (r: BatchStep)
        ensures
            r@ == turn(self@.direction, self@.items, self@.current),
    {
        if self.current < self.items.len() {
            let name = self.items[self.current].name.as_str();
            let text = match self.direction {
                Direction::Download => join2("Descargando: ", name),
                Direction::Upload => join2("Subiendo: ", name),
            };
            BatchStep {
                log: status(text),
                progress: None,
                action: BatchAction::Transfer(self.current),
            }
        } else {
            let text = match self.direction {
                Direction::Download => "Descarga completada.".to_owned(),
                Direction::Upload => "Subida completada.".to_owned(),
            };
            proof {
                reveal_strlit("");
                assert(""@ =~= Seq::<char>::empty());
            }
            BatchStep {
                log: status(text),
                progress: Some(progress(self.direction, "done", "", 0, 0)),
                action: BatchAction::End(Ok(())),
            }
        }
    }

    /// Says what to tell the user and what to do next, once the item was tried.
    pub fn step(self, reply: Result<(), String>) -> (r: (Batch, BatchStep))
        requires
            self@.running(),
        ensures
            (r.0@, r.1@) == self@.after(outcome_view(reply)),
    {
        let mut batch = self;
        match reply {
            Ok(_) => {
                proof {
                    assert(batch.current < batch.items.len());
                }
                batch.current = batch.current + 1;
                batch.over = batch.current >= batch.items.len();
                let step = batch.turn();
                (batch, step)
            },
            Err(e) => {
                batch.over = true;
                let name = batch.items[batch.current].name.as_str();
                let step = BatchStep {
                    log: error(e.clone()),
                    progress: Some(progress(batch.direction, "error", name, 0, 0)),
                    action: BatchAction::End(Err(e)),
                };
                (batch, step)
            },
        }
    }
}

// ---------------------------------------------------------------------------
// What holds of every batch
// ---------------------------------------------------------------------------

/// Where a batch stands once its first items went like this.
pub open spec fn batch_after(v: BatchView, replies: Seq<Result<(), Seq<char>>>) -> BatchView
    decreases replies.len(),
{
    if replies.len() == 0 {
        v
    } else {
        batch_after(v, replies.drop_last()).after(replies.last()).0
    }
}

/// Items are taken in order, one for each that went well.
pub proof fn law_batch_in_order(
    d: Direction,
    items: Seq<ItemView>,
    replies: Seq<Result<(), Seq<char>>>,
)
    requires
        replies.len() <= items.len(),
        forall|i: int| 0 <= i < replies.len() ==> #[trigger] replies[i] is Ok,
    ensures
        ({
            let v = batch_after(BatchView::begun(d, items), replies);
            &&& v.direction == d
            &&& v.items == items
            &&& v.current == replies.len()
            &&& v.running() == (replies.len() < items.len())
        }),
    decreases replies.len(),
{
    if replies.len() > 0 {
        let front = replies.drop_last();
        assert forall|i: int| 0 <= i < front.len() implies #[trigger] front[i] is Ok by {
            assert(front[i] == replies[i]);
        }
        law_batch_in_order(d, items, front);
        assert(replies[replies.len() - 1] is Ok);
    }
}

/// A batch whose items all went well ends well, and says so.
pub proof fn law_batch_completes(
    d: Direction,
    items: Seq<ItemView>,
    replies: Seq<Result<(), Seq<char>>>,
)
    requires
        0 < replies.len() == items.len(),
        forall|i: int| 0 <= i < replies.len() ==> #[trigger] replies[i] is Ok,
    ensures
        batch_after(BatchView::begun(d, items), replies.drop_last()).after(replies.last()).1
            == turn(d, items, items.len()),
{
    let front = replies.drop_last();
    assert forall|i: int| 0 <= i < front.len() implies #[trigger] front[i] is Ok by {
        assert(front[i] == replies[i]);
    }
    law_batch_in_order(d, items, front);
    assert(replies[replies.len() - 1] is Ok);
}

/// The first item that fails ends the batch with its error: no item after it is
/// tried.
pub proof fn law_batch_stops(
    d: Direction,
    items: Seq<ItemView>,
    replies: Seq<Result<(), Seq<char>>>,
    e: Seq<char>,
)
    requires
        replies.len() < items.len(),
        forall|i: int| 0 <= i < replies.len() ==> #[trigger] replies[i] is Ok,
    ensures
        ({
            let (v, step) = batch_after(BatchView::begun(d, items), replies).after(Err(e));
            &&& !v.running()
            &&& step == broken_off(d, items[replies.len() as int].name, e)
        }),
{
    law_batch_in_order(d, items, replies);
}

/// What a batch said last, once its first items went like this.
pub open spec fn step_behind(
    d: Direction,
    items: Seq<ItemView>,
    replies: Seq<Result<(), Seq<char>>>,
) -> StepView {
    if replies.len() == 0 {
        turn(d, items, 0)
    } else {
        batch_after(BatchView::begun(d, items), replies.drop_last()).after(replies.last()).1
    }
}

proof fn step_behind_is_turn(
    d: Direction,
    items: Seq<ItemView>,
    replies: Seq<Result<(), Seq<char>>>,
)
    requires
        replies.len() <= items.len(),
        forall|i: int| 0 <= i < replies.len() ==> #[trigger] replies[i] is Ok,
    ensures
        step_behind(d, items, replies) == turn(d, items, replies.len()),
{
    if replies.len() > 0 {
        let front = replies.drop_last();
        assert forall|i: int| 0 <= i < front.len() implies #[trigger] front[i] is Ok by {
            assert(front[i] == replies[i]);
        }
        law_batch_in_order(d, items, front);
        assert(replies[replies.len() - 1] is Ok);
    }
}

/// Where as many items as there are replies went well and there are more, the
/// next one is transferred: the items are handed out by their places in the list,
/// from the first on, each once. It is announced by its own name, and nothing is
/// marked as done or failed.
pub proof fn law_each_item_once(
    d: Direction,
    items: Seq<ItemView>,
    replies: Seq<Result<(), Seq<char>>>,
)
    requires
        replies.len() < items.len(),
        forall|i: int| 0 <= i < replies.len() ==> #[trigger] replies[i] is Ok,
    ensures
        step_behind(d, items, replies).action == BatchActionView::Transfer(replies.len()),
        step_behind(d, items, replies).progress is None,
        step_behind(d, items, replies).log.kind == "status"@,
        step_behind(d, items, replies).log.text == if d == Direction::Download {
            "Descargando: "@ + items[replies.len() as int].name
        } else {
            "Subiendo: "@ + items[replies.len() as int].name
        },
{
    step_behind_is_turn(d, items, replies);
}

/// Once every item went well, or where none was picked, the batch ends well: the
/// log says so, and the transfer is marked as done.
pub proof fn law_end_is_told(
    d: Direction,
    items: Seq<ItemView>,
    replies: Seq<Result<(), Seq<char>>>,
)
    requires
        replies.len() == items.len(),
        forall|i: int| 0 <= i < replies.len() ==> #[trigger] replies[i] is Ok,
    ensures
        step_behind(d, items, replies).action == BatchActionView::End(Ok(())),
        step_behind(d, items, replies).log.kind == "status"@,
        step_behind(d, items, replies).log.text == if d == Direction::Download {
            "Descarga completada."@
        } else {
            "Subida completada."@
        },
        step_behind(d, items, replies).progress == Some(
            ProgressView {
                kind: if d == Direction::Download {
                    "download"@
                } else {
                    "upload"@
                },
                state: "done"@,
                name: Seq::empty(),
                transferred: 0,
                total: 0,
            },
        ),
        !batch_after(BatchView::begun(d, items), replies).running(),
{
    step_behind_is_turn(d, items, replies);
    law_batch_in_order(d, items, replies);
}

/// Where an item fails, the log says why, the item is marked as failed by its own
/// name, and the batch ends with what was said.
pub proof fn law_failure_is_told(
    d: Direction,
    items: Seq<ItemView>,
    replies: Seq<Result<(), Seq<char>>>,
    e: Seq<char>,
)
    requires
        replies.len() < items.len(),
        forall|i: int| 0 <= i < replies.len() ==> #[trigger] replies[i] is Ok,
    ensures
        ({
            let step = step_behind(d, items, replies.push(Err(e)));
            &&& step.action == BatchActionView::End(Err(e))
            &&& step.log.kind == "error"@
            &&& step.log.text == e
            &&& step.progress == Some(
                ProgressView {
                    kind: if d == Direction::Download {
                        "download"@
                    } else {
                        "upload"@
                    },
                    state: "error"@,
                    name: items[replies.len() as int].name,
                    transferred: 0,
                    total: 0,
                },
            )
            &&& !batch_after(BatchView::begun(d, items), replies.push(Err(e))).running()
        }),
{
    law_batch_in_order(d, items, replies);
    assert(replies.push(Err(e)).drop_last() =~= replies);
}

/// An item is being transferred as long as the batch is not over and there is one
/// whose turn it is.
pub proof fn law_running(v: BatchView)
    ensures
        v.running() <==> !v.over && v.current < v.items.len(),
{
}

} // verus!
