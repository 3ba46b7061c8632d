//! The stage worker's decision core: fan one block batch out to every unit
//! in fixed order, and move through the two-phase commit discipline — a
//! batch counts as consumed only once the downstream send was confirmed, so
//! a crash in between leads to safe redelivery, never to a silent loss.

use super::Reducer;
use crate::model::{cmds_view, Block, BlockContext, CmdSpec, CRDTCommand};
use vstd::prelude::*;

verus! {

/// Where the worker stands in its receive/reduce/commit cycle.
#[derive(Debug, Clone, Copy, PartialEq, Eq, Structural)]
pub enum StagePhase {
    Idle,
    Committing,
    Failed,
}

/// What the supervisor is asked to do after an error.
#[derive(Debug, Clone, Copy, PartialEq, Eq, Structural)]
pub enum StageAction {
    Restart,
    Stop,
}

/// The concatenation of every unit's commands for one block, in unit order.
pub open spec fn all_cmds(reducers: Seq<Reducer>, ctx: BlockContext, block: Block) -> Seq<CmdSpec>
    decreases reducers.len(),
{
    if reducers.len() == 0 {
        Seq::empty()
    } else {
        reducers[0].cmds_spec(ctx, block) + all_cmds(reducers.skip(1), ctx, block)
    }
}

/// The stage worker: its ordered units and its commit bookkeeping. The
/// counters record how many batches were received and how many were
/// acknowledged; at most one batch is ever in flight.
pub struct Worker {
    pub reducers: Vec<Reducer>,
    pub phase: StagePhase,
    pub received: u64,
    pub committed: u64,
}

impl Worker {
    /// The commit discipline: acknowledged batches never outnumber received
    /// ones, at most one batch is in flight, and the phase tells whether one
    /// is.
    pub open spec fn wf(&self) -> bool {
        &&& self.committed <= self.received
        &&& self.received - self.committed <= 1
        &&& (self.phase == StagePhase::Committing ==> self.received == self.committed + 1)
        &&& (self.phase == StagePhase::Idle ==> self.received == self.committed)
        &&& (forall|i: int| 0 <= i < self.reducers@.len() ==> (#[trigger] self.reducers@[i]).wf())
    }

    /// A fresh worker: idle, nothing received, nothing acknowledged.
    pub fn new(reducers: Vec<Reducer>) -> (w: Worker)
        requires
            forall|i: int| 0 <= i < reducers@.len() ==> (#[trigger] reducers@[i]).wf(),
        ensures
            w.wf(),
            w.phase == StagePhase::Idle,
            w.received == 0,
            w.committed == 0,
            w.reducers == reducers,
    {
        Worker { reducers, phase: StagePhase::Idle, received: 0, committed: 0 }
    }

    /// The commands of the units from index `i` on, concatenated in order.
    fn reduce_from(reducers: &Vec<Reducer>, i: usize, block: &Block, ctx: &BlockContext) -> (cmds:
        Vec<CRDTCommand>)
        requires
            i <= reducers@.len(),
            forall|j: int| 0 <= j < reducers@.len() ==> (#[trigger] reducers@[j]).wf(),
        ensures
            cmds_view(cmds@) == all_cmds(reducers@.skip(i as int), *ctx, *block),
        decreases reducers@.len() - i,
    {
        if i == reducers.len() {
            proof {
                assert(reducers@.skip(i as int) =~= Seq::<Reducer>::empty());
                assert(cmds_view(Seq::<CRDTCommand>::empty()) =~= Seq::<CmdSpec>::empty());
            }
            Vec::new()
        } else {
            let mut head = reducers[i].reduce_block(block, ctx);
            let mut rest = Self::reduce_from(reducers, i + 1, block, ctx);
            head.append(&mut rest);
            proof {
                assert(reducers@.skip(i as int)[0] == reducers@[i as int]);
                assert(reducers@.skip(i as int).skip(1) =~= reducers@.skip(i + 1));
                assert(cmds_view(head@) =~= all_cmds(reducers@.skip(i as int), *ctx, *block));
            }
            head
        }
    }

    /// Receives one batch while idle: every unit reduces it in fixed order
    /// and the concatenated commands are handed back for the downstream
    /// send. The batch is counted received but not yet consumed.
    pub fn on_batch(&mut self, block: &Block, ctx: &BlockContext) -> (cmds: Vec<CRDTCommand>)
        requires
            old(self).wf(),
            old(self).phase == StagePhase::Idle,
            old(self).received < u64::MAX,
        ensures
            final(self).wf(),
            final(self).phase == StagePhase::Committing,
            final(self).received == old(self).received + 1,
            final(self).committed == old(self).committed,
            final(self).reducers == old(self).reducers,
            cmds_view(cmds@) == all_cmds(old(self).reducers@, *ctx, *block),
    {
        let cmds = Self::reduce_from(&self.reducers, 0, block, ctx);
        proof {
            assert(self.reducers@.skip(0) =~= self.reducers@);
        }
        self.received = self.received + 1;
        self.phase = StagePhase::Committing;
        cmds
    }

    /// Confirms that the downstream accepted the commands: only now is the
    /// input batch acknowledged as consumed.
    pub fn on_send_ok(&mut self)
        requires
            old(self).wf(),
            old(self).phase == StagePhase::Committing,
        ensures
            final(self).wf(),
            final(self).phase == StagePhase::Idle,
            final(self).committed == old(self).committed + 1,
            final(self).received == old(self).received,
            final(self).reducers == old(self).reducers,
    {
        self.committed = self.committed + 1;
        self.phase = StagePhase::Idle;
    }

    /// Handles an error surfaced by a unit or by the downstream send. A
    /// recoverable error asks the supervisor for a restart with the
    /// unacknowledged batch left for redelivery; anything else is fatal,
    /// since partial application would silently diverge the index.
    pub fn on_error(&mut self, recoverable: bool) -> (a: StageAction)
        requires
            old(self).wf(),
        ensures
            final(self).wf(),
            final(self).reducers == old(self).reducers,
            final(self).committed == old(self).committed,
            recoverable ==> a == StageAction::Restart && final(self).phase == StagePhase::Idle
                && final(self).received == old(self).committed,
            !recoverable ==> a == StageAction::Stop && final(self).phase == StagePhase::Failed
                && final(self).received == old(self).received,
    {
        if recoverable {
            self.received = self.committed;
            self.phase = StagePhase::Idle;
            StageAction::Restart
        } else {
            self.phase = StagePhase::Failed;
            StageAction::Stop
        }
    }
}

} // verus!
