//! The reduction stage: the configured projection units, their dispatch, and
//! the worker that drives them over incoming blocks under a two-phase commit
//! discipline.

use crate::crosscut::ChainWellKnownInfo;
use crate::model::{cmds_view, Block, BlockContext, CmdSpec, CRDTCommand};
use crate::reducer_state::ReducerState;
use vstd::prelude::*;

pub mod books_by_address;
pub mod reducer_state;
pub mod worker;

verus! {

/// The configuration of one projection unit, tagged by projection.
pub enum Config {
    BookByAddress(books_by_address::Config),
}

impl Config {
    /// Builds the projection unit this configuration describes, against the
    /// chain schedule and a policy filter snapshot.
    pub fn plugin(self, chain: &ChainWellKnownInfo, state: ReducerState) -> (r: Reducer)
        ensures
            match self {
                Config::BookByAddress(c) => r matches Reducer::BookByAddress(b) && b.config == c
                    && b.chain == *chain && b.state == state,
            },
    {
        match self {
            Config::BookByAddress(c) => c.plugin(chain, state),
        }
    }
}

/// One configured projection unit.
pub enum Reducer {
    BookByAddress(books_by_address::Reducer),
}

impl Reducer {
    /// The unit's own well-formedness.
    pub open spec fn wf(&self) -> bool {
        match self {
            Reducer::BookByAddress(b) => b.wf(),
        }
    }

    /// Every command this unit emits for a block: a pure function of the
    /// block, the context and the unit's filter snapshot.
    pub open spec fn cmds_spec(&self, ctx: BlockContext, block: Block) -> Seq<CmdSpec> {
        match self {
            Reducer::BookByAddress(b) => books_by_address::block_cmds(
                b.state,
                b.config,
                b.chain,
                ctx,
                block,
            ),
        }
    }

    /// Reduces one block through this unit.
    pub fn reduce_block(&self, block: &Block, ctx: &BlockContext) -> (cmds: Vec<CRDTCommand>)
        requires
            self.wf(),
        ensures
            cmds_view(cmds@) == self.cmds_spec(*ctx, *block),
    {
        match self {
            Reducer::BookByAddress(x) => x.reduce_block(block, ctx),
        }
    }
}

/// Assembles the ordered unit list from configuration; the pipeline wiring
/// around it lives at the process edge.
pub struct Bootstrapper {
    pub reducers: Vec<Reducer>,
}

impl Bootstrapper {
    /// Builds one unit per configuration, pairing each with its policy
    /// filter snapshot, in configuration order.
    pub fn new(configs: Vec<Config>, chain: &ChainWellKnownInfo, states: Vec<ReducerState>) -> (r:
        Bootstrapper)
        requires
            configs@.len() == states@.len(),
        ensures
            r.reducers@.len() == configs@.len(),
            forall|i: int|
                0 <= i < r.reducers@.len() ==> match configs@[i] {
                    Config::BookByAddress(c) => (#[trigger] r.reducers@[i]) matches
                        Reducer::BookByAddress(b) && b.config == c && b.chain == *chain && b.state
                        == states@[i],
                },
    {
        let ghost orig_configs = configs@;
        let ghost orig_states = states@;
        let mut configs_left = configs;
        let mut states_left = states;
        let mut reducers: Vec<Reducer> = Vec::new();
        let mut i: usize = 0;
        let n = configs_left.len();
        while i < n
            invariant
                i <= n,
                n == orig_configs.len(),
                orig_configs.len() == orig_states.len(),
                configs_left@ == orig_configs.skip(i as int),
                states_left@ == orig_states.skip(i as int),
                reducers@.len() == i,
                forall|j: int|
                    0 <= j < i ==> match orig_configs[j] {
                        Config::BookByAddress(c) => (#[trigger] reducers@[j]) matches
                            Reducer::BookByAddress(b) && b.config == c && b.chain == *chain
                            && b.state == orig_states[j],
                    },
            decreases n - i,
        {
            let cfg = configs_left.remove(0);
            let st = states_left.remove(0);
            proof {
                assert(cfg == orig_configs[i as int]);
                assert(st == orig_states[i as int]);
                assert(configs_left@ =~= orig_configs.skip(i + 1));
                assert(states_left@ =~= orig_states.skip(i + 1));
            }
            let unit = cfg.plugin(chain, st);
            reducers.push(unit);
            i = i + 1;
        }
        Bootstrapper { reducers }
    }

    /// Hands the assembled unit list to the stage worker.
    pub fn into_reducers(self) -> (r: Vec<Reducer>)
        ensures
            r == self.reducers,
    {
        self.reducers
    }
}

} // verus!
