//! The scheduler: the live blocks in registration order, the time at which
//! each is next due for an automatic update, and the routing of clicks.
//!
//! The scheduler decides, and whoever drives it acts: the driver asks which
//! blocks are due, runs the command that a block wants, hands the output to
//! `update`, launches the commands that `click` hands back, and sleeps until
//! `next_due`. Times are nanoseconds on a clock of the driver's choice.

use crate::blocks::{Block, CommandLine, Interval, Update};
use crate::errors::BlockError;
use crate::input::I3BarEvent;
use crate::text::str_equal;
use crate::widget::{Widget, WidgetModel};
use vstd::prelude::*;

verus! {

/// The blocks of a bar with their due times.
pub struct Scheduler<B: Block> {
    blocks: Vec<B>,
    due: Vec<Option<u128>>,
}

/// A block with the due time `due` is to be updated at the time `now`.
pub open spec fn is_due(due: Option<u128>, now: u128) -> bool {
    due matches Some(at) && at <= now
}

/// The due time of a block that asked at `now` to be polled after `next`: the
/// delay counts from `now`, and stops at the largest time there is.
pub open spec fn due_after(now: u128, next: Option<Interval>) -> Option<u128> {
    match next {
        None => None,
        Some(delay) => if now + delay.nanos <= u128::MAX {
            Some((now + delay.nanos) as u128)
        } else {
            Some(u128::MAX)
        },
    }
}

/// The widgets of `blocks`, block after block.
pub open spec fn all_widgets<B: Block>(blocks: Seq<B>) -> Seq<WidgetModel>
    decreases blocks.len(),
{
    if blocks.len() == 0 {
        Seq::empty()
    } else {
        all_widgets(blocks.drop_last()) + blocks.last().widgets()
    }
}

/// The commands among `answers`, in their order.
pub open spec fn asked_for(answers: Seq<Option<CommandLine>>) -> Seq<CommandLine>
    decreases answers.len(),
{
    if answers.len() == 0 {
        Seq::empty()
    } else {
        match answers.last() {
            Some(command) => asked_for(answers.drop_last()).push(command),
            None => asked_for(answers.drop_last()),
        }
    }
}

/// No block of `blocks` is the target of `event`.
pub open spec fn aims_at_none<B: Block>(event: &I3BarEvent, blocks: Seq<B>) -> bool {
    forall|i: int| 0 <= i < blocks.len() ==> !event.targets(#[trigger] blocks[i].identity())
}

/// No two blocks of `blocks` have the same identity.
pub open spec fn distinct_identities<B: Block>(blocks: Seq<B>) -> bool {
    forall|i: int, j: int|
        0 <= i < j < blocks.len() ==> (#[trigger] blocks[i]).identity() != (
        #[trigger] blocks[j]).identity()
}

impl<B: Block> Scheduler<B> {
    /// The live blocks, in registration order.
    pub closed spec fn blocks(&self) -> Seq<B> {
        self.blocks@
    }

    /// The due time of each block; `None` for a block that is not polled.
    pub closed spec fn due(&self) -> Seq<Option<u128>> {
        self.due@
    }

    /// Every block has a due time and is well-formed, and no two blocks share
    /// an identity.
    pub open spec fn well_formed(&self) -> bool {
        &&& self.blocks().len() == self.due().len()
        &&& forall|i: int| 0 <= i < self.blocks().len() ==> (#[trigger] self.blocks()[i]).well_formed()
        &&& distinct_identities(self.blocks())
    }

    /// A scheduler without blocks.
    pub fn new() -> (r: Scheduler<B>)
        ensures
            r.well_formed(),
            r.blocks().len() == 0,
    {
        Scheduler { blocks: Vec::new(), due: Vec::new() }
    }

    /// The number of live blocks.
    pub fn len(&self) -> (r: usize)
        ensures
            r == self.blocks().len(),
    {
        self.blocks.len()
    }

    /// The block registered as number `index`.
    pub fn block(&self, index: usize) -> (r: &B)
        requires
            index < self.blocks().len(),
        ensures
            *r == self.blocks()[index as int],
    {
        &self.blocks[index]
    }

    /// Registers `block` behind the blocks that are there, due at once. A
    /// block whose identity a live block already has is handed back.
    pub fn register(&mut self, block: B, now: u128) -> (r: Result<usize, B>)
        requires
            old(self).well_formed(),
            block.well_formed(),
        ensures
            final(self).well_formed(),
            match r {
                Ok(index) => {
                    &&& index == old(self).blocks().len()
                    &&& final(self).blocks() == old(self).blocks().push(block)
                    &&& final(self).due() == old(self).due().push(Some(now))
                    &&& forall|i: int|
                        0 <= i < old(self).blocks().len() ==> (#[trigger] old(self).blocks()[i]).identity()
                            != block.identity()
                },
                Err(back) => {
                    &&& back == block
                    &&& final(self).blocks() == old(self).blocks()
                    &&& final(self).due() == old(self).due()
                    &&& exists|i: int|
                        0 <= i < old(self).blocks().len() && (#[trigger] old(self).blocks()[i]).identity()
                            == block.identity()
                },
            },
    {
        let mut i: usize = 0;
        while i < self.blocks.len()
            invariant
                i <= self.blocks.len(),
                *self == *old(self),
                self.well_formed(),
                block.well_formed(),
                forall|j: int| 0 <= j < i ==> (#[trigger] self.blocks@[j]).identity() != block.identity(),
            decreases self.blocks.len() - i,
        {
            if str_equal(self.blocks[i].id(), block.id()) {
                return Err(block);
            }
            i += 1;
        }
        let index = self.blocks.len();
        self.blocks.push(block);
        self.due.push(Some(now));
        Ok(index)
    }

    /// The earliest due time of any block; `None` where no block is polled.
    pub fn next_due(&self) -> (r: Option<u128>)
        ensures
            match r {
                Some(at) => self.due().contains(Some(at)) && forall|i: int|
                    0 <= i < self.due().len() ==> (#[trigger] self.due()[i] matches Some(other)
                        ==> at <= other),
                None => forall|i: int| 0 <= i < self.due().len() ==> #[trigger] self.due()[i] is None,
            },
    {
        let mut earliest: Option<u128> = None;
        let mut i: usize = 0;
        while i < self.due.len()
            invariant
                i <= self.due.len(),
                match earliest {
                    Some(at) => (exists|k: int| 0 <= k < i && self.due@[k] == Some(at)) && forall|j: int|
                        0 <= j < i ==> (#[trigger] self.due@[j] matches Some(other) ==> at <= other),
                    None => forall|j: int| 0 <= j < i ==> #[trigger] self.due@[j] is None,
                },
            decreases self.due.len() - i,
        {
            match self.due[i] {
                Some(at) => {
                    let better = match earliest {
                        Some(best) => at < best,
                        None => true,
                    };
                    if better {
                        earliest = Some(at);
                    }
                },
                None => {},
            }
            i += 1;
        }
        earliest
    }

    /// The blocks to update at the time `now`: those whose due time has come,
    /// in registration order.
    pub fn due_blocks(&self, now: u128) -> (r: Vec<usize>)
        ensures
            forall|k: int|
                0 <= k < r@.len() ==> (#[trigger] r@[k]) < self.due().len() && is_due(
                    self.due()[r@[k] as int],
                    now,
                ),
            forall|k: int, l: int| 0 <= k < l < r@.len() ==> r@[k] < r@[l],
            forall|i: int|
                0 <= i < self.due().len() && is_due(#[trigger] self.due()[i], now) ==> r@.contains(
                    i as usize,
                ),
    {
        let mut found: Vec<usize> = Vec::new();
        let mut i: usize = 0;
        while i < self.due.len()
            invariant
                i <= self.due.len(),
                forall|k: int|
                    0 <= k < found@.len() ==> (#[trigger] found@[k]) < i && is_due(
                        self.due@[found@[k] as int],
                        now,
                    ),
                forall|k: int, l: int| 0 <= k < l < found@.len() ==> found@[k] < found@[l],
                forall|j: int|
                    0 <= j < i && is_due(#[trigger] self.due@[j], now) ==> found@.contains(j as usize),
            decreases self.due.len() - i,
        {
            let due_now = match self.due[i] {
                Some(at) => at <= now,
                None => false,
            };
            if due_now {
                let ghost before = found@;
                found.push(i);
                proof {
                    assert(found@[before.len() as int] == i);
                    assert forall|j: int|
                        0 <= j < i + 1 && is_due(#[trigger] self.due@[j], now) implies found@.contains(
                        j as usize,
                    ) by {
                        if j < i {
                            let k = choose|k: int| 0 <= k < before.len() && before[k] == j as usize;
                            assert(found@[k] == j as usize);
                        }
                    }
                }
            }
            i += 1;
        }
        found
    }

    /// The command that block number `index` wants run before its update.
    pub fn probe(&self, index: usize) -> (r: Option<CommandLine>)
        requires
            index < self.blocks().len(),
        ensures
            r.deep_view() == self.blocks()[index as int].wanted(),
    {
        self.blocks[index].probe()
    }

    /// Updates block number `index` on `report` and sets its next due time,
    /// counted from `now` and not from the time that was missed: the delay
    /// that the block returned, or `retry` where the update failed. A block
    /// without a delay is no longer polled. No other block changes.
    pub fn update(&mut self, index: usize, now: u128, report: &str, retry: Option<Interval>) -> (r:
        Result<Update, BlockError>)
        requires
            old(self).well_formed(),
            index < old(self).blocks().len(),
        ensures
            final(self).well_formed(),
            final(self).blocks().len() == old(self).blocks().len(),
            forall|j: int|
                0 <= j < old(self).blocks().len() && j != index ==> #[trigger] final(self).blocks()[j]
                    == old(self).blocks()[j],
            final(self).blocks()[index as int].identity() == old(self).blocks()[index as int].identity(),
            old(self).blocks()[index as int].polled(report@, final(self).blocks()[index as int], r),
            r is Err ==> final(self).blocks()[index as int].widgets() == old(
                self,
            ).blocks()[index as int].widgets(),
            final(self).due() == old(self).due().update(
                index as int,
                match r {
                    Ok(update) => due_after(now, update.next),
                    Err(_) => due_after(now, retry),
                },
            ),
    {
        let r = self.blocks[index].update(report);
        let next = match &r {
            Ok(update) => update.next,
            Err(_) => retry,
        };
        let at: Option<u128> = match next {
            None => None,
            Some(delay) => if delay.nanos <= u128::MAX - now {
                Some(now + delay.nanos)
            } else {
                Some(u128::MAX)
            },
        };
        self.due[index] = at;
        r
    }

    /// Hands `event` to every block, in registration order, and collects the
    /// commands that they ask to launch. A block that is not the target of
    /// the event stays as it is; no due time changes.
    pub fn click(&mut self, event: &I3BarEvent) -> (r: Vec<CommandLine>)
        requires
            old(self).well_formed(),
        ensures
            final(self).well_formed(),
            final(self).due() == old(self).due(),
            final(self).blocks().len() == old(self).blocks().len(),
            forall|i: int|
                0 <= i < old(self).blocks().len() ==> (#[trigger] final(self).blocks()[i]).identity()
                    == old(self).blocks()[i].identity(),
            forall|i: int|
                0 <= i < old(self).blocks().len() && !event.targets(old(self).blocks()[i].identity())
                    ==> #[trigger] final(self).blocks()[i] == old(self).blocks()[i],
            aims_at_none(event, old(self).blocks()) ==> final(self).blocks() == old(self).blocks()
                && r@.len() == 0,
            exists|answers: Seq<Option<CommandLine>>|
                #![trigger asked_for(answers)]
                {
                    &&& answers.len() == old(self).blocks().len()
                    &&& forall|i: int|
                        0 <= i < answers.len() ==> (#[trigger] old(self).blocks()[i]).clicked(
                            *event,
                            final(self).blocks()[i],
                            answers[i],
                        )
                    &&& r@ == asked_for(answers)
                },
    {
        let mut launched: Vec<CommandLine> = Vec::new();
        let ghost mut answers: Seq<Option<CommandLine>> = Seq::empty();
        let mut i: usize = 0;
        while i < self.blocks.len()
            invariant
                i <= self.blocks.len(),
                self.due@ == old(self).due@,
                self.blocks@.len() == old(self).blocks@.len(),
                self.blocks@.len() == self.due@.len(),
                forall|j: int| 0 <= j < self.blocks@.len() ==> (#[trigger] self.blocks@[j]).well_formed(),
                forall|j: int|
                    0 <= j < self.blocks@.len() ==> (#[trigger] self.blocks@[j]).identity() == old(
                        self,
                    ).blocks@[j].identity(),
                forall|j: int|
                    0 <= j < self.blocks@.len() && !event.targets(old(self).blocks@[j].identity())
                        ==> #[trigger] self.blocks@[j] == old(self).blocks@[j],
                forall|j: int| i <= j < self.blocks@.len() ==> #[trigger] self.blocks@[j] == old(self).blocks@[j],
                aims_at_none(event, old(self).blocks@) ==> launched@.len() == 0,
                answers.len() == i,
                forall|j: int|
                    0 <= j < i ==> (#[trigger] old(self).blocks@[j]).clicked(
                        *event,
                        self.blocks@[j],
                        answers[j],
                    ),
                launched@ == asked_for(answers),
            decreases self.blocks.len() - i,
        {
            let answer = self.blocks[i].click(event);
            proof {
                assert(answers.push(answer).drop_last() =~= answers);
                answers = answers.push(answer);
            }
            match answer {
                Some(command) => {
                    launched.push(command);
                },
                None => {},
            }
            i += 1;
        }
        launched
    }

    /// The widgets of all blocks, block after block in registration order.
    pub fn view(&self) -> (r: Vec<&Widget>)
        ensures
            r@.len() == all_widgets(self.blocks()).len(),
            forall|k: int| 0 <= k < r@.len() ==> (#[trigger] r@[k])@ == all_widgets(self.blocks())[k],
    {
        let mut shown: Vec<&Widget> = Vec::new();
        let mut i: usize = 0;
        while i < self.blocks.len()
            invariant
                i <= self.blocks.len(),
                shown@.len() == all_widgets(self.blocks@.take(i as int)).len(),
                forall|k: int|
                    0 <= k < shown@.len() ==> (#[trigger] shown@[k])@ == all_widgets(
                        self.blocks@.take(i as int),
                    )[k],
            decreases self.blocks.len() - i,
        {
            let mut part = self.blocks[i].view();
            proof {
                assert(self.blocks@.take(i + 1).drop_last() =~= self.blocks@.take(i as int));
            }
            shown.append(&mut part);
            i += 1;
        }
        assert(self.blocks@.take(i as int) =~= self.blocks@);
        shown
    }
}

/// With distinct identities an event has at most one target among the blocks.
pub proof fn lemma_one_target<B: Block>(event: &I3BarEvent, blocks: Seq<B>, i: int, j: int)
    requires
        distinct_identities(blocks),
        0 <= i < blocks.len(),
        0 <= j < blocks.len(),
        event.targets(blocks[i].identity()),
        event.targets(blocks[j].identity()),
    ensures
        i == j,
{
}

} // verus!
