//! The representative projection: for every transaction it watches, remove
//! the fingerprints of spent assets from the spending address's set and add
//! the fingerprints of produced assets to the receiving address's set,
//! removals strictly before additions within one transaction.

use crate::codec::{
    dec_digits, dec_seq_of, hex_encode, lemma_hex_decode_append, lemma_hex_encode_valid,
    lemma_hex_round_trip,
};
use crate::crosscut::{
    block_epoch, epoch_of, eval_predicate, tx_matches, ChainWellKnownInfo, Predicate,
};
use crate::fingerprint::{asset_fingerprint, bech32_asset_of, blake2b_160_of, fingerprint_chars};
use crate::model::{
    cmds_view, resolve_spec, Asset, Block, BlockContext, CmdSpec, CRDTCommand, OutputRef,
    PolicyId, Tx, TxOutput,
};
use crate::reducer_state::ReducerState;
use crate::text::string_from_chars;
use vstd::prelude::*;

verus! {

/// How a unit may aggregate its keys.
#[derive(Debug, Clone, Copy, PartialEq, Eq, Structural)]
pub enum AggrType {
    Epoch,
}

/// One unit's configuration: key prefix, backing allow-list file, optional
/// transaction predicate, optional aggregation.
#[derive(Debug, Clone, PartialEq, Eq)]
pub struct Config {
    pub key_prefix: Option<String>,
    pub policy_ids_file: Option<String>,
    pub filter: Option<Predicate>,
    pub aggr_by: Option<AggrType>,
}

/// The projection's name, used as the key prefix when none is configured.
pub open spec fn default_prefix() -> Seq<char> {
    seq!['B', 'o', 'o', 'k', 'B', 'y', 'A', 'd', 'd', 'r', 'e', 's', 's']
}

/// The index key a unit writes for an address: the configured or default
/// prefix, a dot, the address, and a dot plus the epoch when aggregating by
/// epoch.
pub open spec fn key_chars(cfg: Config, addr: Seq<char>, epoch: u64) -> Seq<char> {
    let prefix = match cfg.key_prefix {
        Some(p) => p@,
        None => default_prefix(),
    };
    let base = prefix + seq!['.'] + addr;
    match cfg.aggr_by {
        Some(AggrType::Epoch) => base + seq!['.'] + dec_seq_of(epoch as nat),
        None => base,
    }
}

/// The set member written for one native asset: the shared fingerprint of
/// its policy bytes and name bytes.
pub open spec fn member_chars(policy: Seq<u8>, name: Seq<u8>) -> Seq<char> {
    bech32_asset_of(blake2b_160_of(policy + name))
}

/// The commands one asset list contributes under one key: one add or remove
/// per native asset whose policy the filter accepts, in asset order.
pub open spec fn asset_cmds(
    state: ReducerState,
    key: Seq<char>,
    assets: Seq<Asset>,
    add: bool,
) -> Seq<CmdSpec>
    decreases assets.len(),
{
    if assets.len() == 0 {
        Seq::empty()
    } else {
        let head = match assets[0] {
            Asset::NativeAsset(pid, name, _) => {
                if state.accepts_spec(pid@) {
                    if add {
                        seq![CmdSpec::Add(key, member_chars(pid@, name@))]
                    } else {
                        seq![CmdSpec::Remove(key, member_chars(pid@, name@))]
                    }
                } else {
                    Seq::empty()
                }
            },
            Asset::Ada(_) => Seq::empty(),
        };
        head + asset_cmds(state, key, assets.skip(1), add)
    }
}

/// The commands one consumed reference contributes: removals for the
/// resolved output's accepted assets, nothing when resolution misses.
pub open spec fn consumed_cmds(
    state: ReducerState,
    cfg: Config,
    ctx: BlockContext,
    input: OutputRef,
    epoch: u64,
) -> Seq<CmdSpec> {
    match resolve_spec(ctx.utxos@, input) {
        None => Seq::empty(),
        Some(utxo) => asset_cmds(state, key_chars(cfg, utxo.address@, epoch), utxo.assets@, false),
    }
}

/// The commands one produced output contributes: additions for its accepted
/// assets.
pub open spec fn produced_cmds(
    state: ReducerState,
    cfg: Config,
    out: TxOutput,
    epoch: u64,
) -> Seq<CmdSpec> {
    asset_cmds(state, key_chars(cfg, out.address@, epoch), out.assets@, true)
}

/// The removals for a transaction's consumed references, in input order.
pub open spec fn inputs_cmds(
    state: ReducerState,
    cfg: Config,
    ctx: BlockContext,
    inputs: Seq<OutputRef>,
    epoch: u64,
) -> Seq<CmdSpec>
    decreases inputs.len(),
{
    if inputs.len() == 0 {
        Seq::empty()
    } else {
        consumed_cmds(state, cfg, ctx, inputs[0], epoch) + inputs_cmds(
            state,
            cfg,
            ctx,
            inputs.skip(1),
            epoch,
        )
    }
}

/// The additions for a transaction's produced outputs, in output order.
pub open spec fn outputs_cmds(
    state: ReducerState,
    cfg: Config,
    outputs: Seq<TxOutput>,
    epoch: u64,
) -> Seq<CmdSpec>
    decreases outputs.len(),
{
    if outputs.len() == 0 {
        Seq::empty()
    } else {
        produced_cmds(state, cfg, outputs[0], epoch) + outputs_cmds(
            state,
            cfg,
            outputs.skip(1),
            epoch,
        )
    }
}

/// The commands one transaction contributes when it matches the unit's
/// predicate: all removals for consumed inputs strictly before all additions
/// for produced outputs.
pub open spec fn tx_cmds(
    state: ReducerState,
    cfg: Config,
    ctx: BlockContext,
    tx: Tx,
    epoch: u64,
) -> Seq<CmdSpec> {
    if tx_matches(cfg.filter, tx) {
        inputs_cmds(state, cfg, ctx, tx.inputs@, epoch) + outputs_cmds(
            state,
            cfg,
            tx.outputs@,
            epoch,
        )
    } else {
        Seq::empty()
    }
}

/// The commands of a run of transactions, in chain order.
pub open spec fn txs_cmds(
    state: ReducerState,
    cfg: Config,
    ctx: BlockContext,
    txs: Seq<Tx>,
    epoch: u64,
) -> Seq<CmdSpec>
    decreases txs.len(),
{
    if txs.len() == 0 {
        Seq::empty()
    } else {
        tx_cmds(state, cfg, ctx, txs[0], epoch) + txs_cmds(state, cfg, ctx, txs.skip(1), epoch)
    }
}

/// Every command a block makes this unit emit: a pure function of the block,
/// the resolution context and the filter snapshot.
pub open spec fn block_cmds(
    state: ReducerState,
    cfg: Config,
    chain: ChainWellKnownInfo,
    ctx: BlockContext,
    block: Block,
) -> Seq<CmdSpec> {
    txs_cmds(state, cfg, ctx, block.txs@, epoch_of(chain, block.slot))
}

/// Every command an asset list contributes is an addition when adding and a
/// removal when removing.
pub proof fn lemma_asset_cmds_kind(
    state: ReducerState,
    key: Seq<char>,
    assets: Seq<Asset>,
    add: bool,
)
    ensures
        forall|i: int|
            0 <= i < asset_cmds(state, key, assets, add).len() ==> ((#[trigger] asset_cmds(
                state,
                key,
                assets,
                add,
            )[i]) is Add <==> add),
    decreases assets.len(),
{
    if assets.len() > 0 {
        lemma_asset_cmds_kind(state, key, assets.skip(1), add);
        let whole = asset_cmds(state, key, assets, add);
        let rest = asset_cmds(state, key, assets.skip(1), add);
        assert forall|i: int| 0 <= i < whole.len() implies ((#[trigger] whole[i]) is Add
            <==> add) by {
            let headlen = whole.len() - rest.len();
            if i >= headlen {
                assert(whole[i] == rest[i - headlen]);
            }
        }
    }
}

/// Every command the consumed side of a transaction contributes is a
/// removal.
pub proof fn lemma_inputs_only_removals(
    state: ReducerState,
    cfg: Config,
    ctx: BlockContext,
    inputs: Seq<OutputRef>,
    epoch: u64,
)
    ensures
        forall|i: int|
            0 <= i < inputs_cmds(state, cfg, ctx, inputs, epoch).len() ==> !((
            #[trigger] inputs_cmds(state, cfg, ctx, inputs, epoch)[i]) is Add),
    decreases inputs.len(),
{
    if inputs.len() > 0 {
        lemma_inputs_only_removals(state, cfg, ctx, inputs.skip(1), epoch);
        match resolve_spec(ctx.utxos@, inputs[0]) {
            None => {},
            Some(utxo) => {
                lemma_asset_cmds_kind(
                    state,
                    key_chars(cfg, utxo.address@, epoch),
                    utxo.assets@,
                    false,
                );
            },
        }
        let whole = inputs_cmds(state, cfg, ctx, inputs, epoch);
        let head = consumed_cmds(state, cfg, ctx, inputs[0], epoch);
        let rest = inputs_cmds(state, cfg, ctx, inputs.skip(1), epoch);
        assert forall|i: int| 0 <= i < whole.len() implies !((#[trigger] whole[i]) is Add) by {
            if i >= head.len() {
                assert(whole[i] == rest[i - head.len()]);
            } else {
                assert(whole[i] == head[i]);
            }
        }
    }
}

/// Every command the produced side of a transaction contributes is an
/// addition.
pub proof fn lemma_outputs_only_additions(
    state: ReducerState,
    cfg: Config,
    outputs: Seq<TxOutput>,
    epoch: u64,
)
    ensures
        forall|i: int|
            0 <= i < outputs_cmds(state, cfg, outputs, epoch).len() ==> (#[trigger] outputs_cmds(
                state,
                cfg,
                outputs,
                epoch,
            )[i]) is Add,
    decreases outputs.len(),
{
    if outputs.len() > 0 {
        lemma_outputs_only_additions(state, cfg, outputs.skip(1), epoch);
        lemma_asset_cmds_kind(state, key_chars(cfg, outputs[0].address@, epoch), outputs[0].assets@, true);
        let whole = outputs_cmds(state, cfg, outputs, epoch);
        let head = produced_cmds(state, cfg, outputs[0], epoch);
        let rest = outputs_cmds(state, cfg, outputs.skip(1), epoch);
        assert forall|i: int| 0 <= i < whole.len() implies (#[trigger] whole[i]) is Add by {
            if i >= head.len() {
                assert(whole[i] == rest[i - head.len()]);
            } else {
                assert(whole[i] == head[i]);
            }
        }
    }
}

/// The ordering contract within one transaction: once an addition appears in
/// its command run, no removal follows — every removal for a consumed input
/// stands strictly before every addition for a produced output, so an
/// address that spends and immediately receives the same asset ends present.
pub proof fn lemma_removals_precede_additions(
    state: ReducerState,
    cfg: Config,
    ctx: BlockContext,
    tx: Tx,
    epoch: u64,
)
    ensures
        forall|i: int, j: int|
            0 <= i < j < tx_cmds(state, cfg, ctx, tx, epoch).len() && (#[trigger] tx_cmds(
                state,
                cfg,
                ctx,
                tx,
                epoch,
            )[i]) is Add ==> (#[trigger] tx_cmds(state, cfg, ctx, tx, epoch)[j]) is Add,
{
    if tx_matches(cfg.filter, tx) {
        lemma_inputs_only_removals(state, cfg, ctx, tx.inputs@, epoch);
        lemma_outputs_only_additions(state, cfg, tx.outputs@, epoch);
        let whole = tx_cmds(state, cfg, ctx, tx, epoch);
        let ins = inputs_cmds(state, cfg, ctx, tx.inputs@, epoch);
        let outs = outputs_cmds(state, cfg, tx.outputs@, epoch);
        assert forall|i: int, j: int|
            0 <= i < j < whole.len() && (#[trigger] whole[i]) is Add implies (
        #[trigger] whole[j]) is Add by {
            if i < ins.len() {
                assert(whole[i] == ins[i]);
            } else {
                assert(j >= ins.len());
                assert(whole[j] == outs[j - ins.len()]);
            }
        }
    }
}

/// One projection unit: its configuration, the chain schedule, and its
/// snapshot of the policy filter.
pub struct Reducer {
    pub config: Config,
    pub chain: ChainWellKnownInfo,
    pub state: ReducerState,
}

impl Reducer {
    /// The chain schedule must be usable.
    pub open spec fn wf(&self) -> bool {
        self.chain.wf()
    }

    /// Whether the unit's filter snapshot accepts a policy.
    pub fn is_policy_id_accepted(&self, policy_id: &PolicyId) -> (r: bool)
        ensures
            r == self.state.accepts_spec(policy_id@),
    {
        self.state.contains(policy_id)
    }

    /// Builds the index key for an address under this unit's configuration.
    fn make_key(&self, address: &String, epoch: u64) -> (k: String)
        ensures
            k@ == key_chars(self.config, address@, epoch),
    {
        let prefix: String = match &self.config.key_prefix {
            Some(p) => p.clone(),
            None => {
                let d = String::from_str("BookByAddress");
                proof {
                    reveal_strlit("BookByAddress");
                    assert(d@ =~= default_prefix());
                }
                d
            },
        };
        let base = prefix.concat(".").concat(address.as_str());
        proof {
            reveal_strlit(".");
            assert("."@ =~= seq!['.']);
        }
        match &self.config.aggr_by {
            Some(AggrType::Epoch) => {
                let digits = string_from_chars(&dec_digits(epoch));
                let k = base.concat(".").concat(digits.as_str());
                proof {
                    assert(k@ =~= key_chars(self.config, address@, epoch));
                }
                k
            },
            None => {
                proof {
                    assert(base@ =~= key_chars(self.config, address@, epoch));
                }
                base
            },
        }
    }

    /// Derives the fingerprint member for one asset of this unit. The hex
    /// texts are produced by the verified encoder, so the shared fingerprint
    /// function cannot reject them.
    fn asset_fingerprint(&self, policy: &PolicyId, name: &Vec<u8>) -> (r: String)
        ensures
            r@ == member_chars(policy@, name@),
    {
        let ph = string_from_chars(&hex_encode(&policy.bytes));
        let nh = string_from_chars(&hex_encode(name));
        proof {
            lemma_hex_encode_valid(policy@);
            lemma_hex_encode_valid(name@);
            lemma_hex_decode_append(ph@, nh@);
            lemma_hex_round_trip(policy@);
            lemma_hex_round_trip(name@);
            assert(crate::codec::hex_decode_seq(ph@ + nh@) =~= policy@ + name@);
        }
        match asset_fingerprint(ph.as_str(), nh.as_str()) {
            Ok(s) => {
                proof {
                    assert(fingerprint_chars(ph@, nh@) == member_chars(policy@, name@));
                }
                s
            },
            Err(_) => {
                proof {
                    assert(false);
                }
                String::new()
            },
        }
    }

    /// Emits the commands for the accepted assets of one list, under one
    /// key, from index `i` on.
    fn emit_assets_from(&self, key: &String, assets: &Vec<Asset>, i: usize, add: bool) -> (cmds:
        Vec<CRDTCommand>)
        requires
            i <= assets@.len(),
        ensures
            cmds_view(cmds@) == asset_cmds(self.state, key@, assets@.skip(i as int), add),
        decreases assets@.len() - i,
    {
        if i == assets.len() {
            proof {
                assert(assets@.skip(i as int) =~= Seq::<Asset>::empty());
                assert(cmds_view(Seq::<CRDTCommand>::empty()) =~= Seq::<CmdSpec>::empty());
            }
            Vec::new()
        } else {
            let mut rest = self.emit_assets_from(key, assets, i + 1, add);
            let mut head: Vec<CRDTCommand> = Vec::new();
            match &assets[i] {
                Asset::NativeAsset(pid, name, _) => {
                    if self.is_policy_id_accepted(pid) {
                        let member = self.asset_fingerprint(pid, name);
                        if add {
                            head.push(CRDTCommand::SetAdd(key.clone(), member));
                        } else {
                            head.push(CRDTCommand::SetRemove(key.clone(), member));
                        }
                    }
                },
                Asset::Ada(_) => {},
            }
            head.append(&mut rest);
            proof {
                assert(assets@.skip(i as int)[0] == assets@[i as int]);
                assert(assets@.skip(i as int).skip(1) =~= assets@.skip(i + 1));
                assert(cmds_view(head@) =~= asset_cmds(self.state, key@, assets@.skip(i as int), add));
            }
            head
        }
    }

    /// Emits the removals owed for one consumed reference: nothing when the
    /// context cannot resolve it, which is benign, never an error.
    fn process_consumed_txo(&self, ctx: &BlockContext, input: &OutputRef, epoch_no: u64) -> (cmds:
        Vec<CRDTCommand>)
        ensures
            cmds_view(cmds@) == consumed_cmds(self.state, self.config, *ctx, *input, epoch_no),
    {
        match ctx.find_utxo(input) {
            None => {
                proof {
                    assert(cmds_view(Seq::<CRDTCommand>::empty()) =~= Seq::<CmdSpec>::empty());
                }
                Vec::new()
            },
            Some(utxo) => {
                let key = self.make_key(&utxo.address, epoch_no);
                let r = self.emit_assets_from(&key, &utxo.assets, 0, false);
                proof {
                    assert(utxo.assets@.skip(0) =~= utxo.assets@);
                }
                r
            },
        }
    }

    /// Emits the additions owed for one produced output.
    fn process_produced_txo(&self, tx_output: &TxOutput, epoch_no: u64) -> (cmds: Vec<
        CRDTCommand,
    >)
        ensures
            cmds_view(cmds@) == produced_cmds(self.state, self.config, *tx_output, epoch_no),
    {
        let key = self.make_key(&tx_output.address, epoch_no);
        let r = self.emit_assets_from(&key, &tx_output.assets, 0, true);
        proof {
            assert(tx_output.assets@.skip(0) =~= tx_output.assets@);
        }
        r
    }

    /// The removals for the transaction's inputs from index `i` on.
    fn inputs_from(&self, ctx: &BlockContext, inputs: &Vec<OutputRef>, i: usize, epoch: u64) -> (cmds:
        Vec<CRDTCommand>)
        requires
            i <= inputs@.len(),
        ensures
            cmds_view(cmds@) == inputs_cmds(
                self.state,
                self.config,
                *ctx,
                inputs@.skip(i as int),
                epoch,
            ),
        decreases inputs@.len() - i,
    {
        if i == inputs.len() {
            proof {
                assert(inputs@.skip(i as int) =~= Seq::<OutputRef>::empty());
                assert(cmds_view(Seq::<CRDTCommand>::empty()) =~= Seq::<CmdSpec>::empty());
            }
            Vec::new()
        } else {
            let mut head = self.process_consumed_txo(ctx, &inputs[i], epoch);
            let mut rest = self.inputs_from(ctx, inputs, i + 1, epoch);
            head.append(&mut rest);
            proof {
                assert(inputs@.skip(i as int)[0] == inputs@[i as int]);
                assert(inputs@.skip(i as int).skip(1) =~= inputs@.skip(i + 1));
                assert(cmds_view(head@) =~= inputs_cmds(
                    self.state,
                    self.config,
                    *ctx,
                    inputs@.skip(i as int),
                    epoch,
                ));
            }
            head
        }
    }

    /// The additions for the transaction's outputs from index `i` on.
    fn outputs_from(&self, outputs: &Vec<TxOutput>, i: usize, epoch: u64) -> (cmds: Vec<
        CRDTCommand,
    >)
        requires
            i <= outputs@.len(),
        ensures
            cmds_view(cmds@) == outputs_cmds(self.state, self.config, outputs@.skip(i as int), epoch),
        decreases outputs@.len() - i,
    {
        if i == outputs.len() {
            proof {
                assert(outputs@.skip(i as int) =~= Seq::<TxOutput>::empty());
                assert(cmds_view(Seq::<CRDTCommand>::empty()) =~= Seq::<CmdSpec>::empty());
            }
            Vec::new()
        } else {
            let mut head = self.process_produced_txo(&outputs[i], epoch);
            let mut rest = self.outputs_from(outputs, i + 1, epoch);
            head.append(&mut rest);
            proof {
                assert(outputs@.skip(i as int)[0] == outputs@[i as int]);
                assert(outputs@.skip(i as int).skip(1) =~= outputs@.skip(i + 1));
                assert(cmds_view(head@) =~= outputs_cmds(
                    self.state,
                    self.config,
                    outputs@.skip(i as int),
                    epoch,
                ));
            }
            head
        }
    }

    /// The commands for the block's transactions from index `i` on.
    fn txs_from(&self, ctx: &BlockContext, txs: &Vec<Tx>, i: usize, epoch: u64) -> (cmds: Vec<
        CRDTCommand,
    >)
        requires
            i <= txs@.len(),
        ensures
            cmds_view(cmds@) == txs_cmds(self.state, self.config, *ctx, txs@.skip(i as int), epoch),
        decreases txs@.len() - i,
    {
        if i == txs.len() {
            proof {
                assert(txs@.skip(i as int) =~= Seq::<Tx>::empty());
                assert(cmds_view(Seq::<CRDTCommand>::empty()) =~= Seq::<CmdSpec>::empty());
            }
            Vec::new()
        } else {
            let tx = &txs[i];
            let mut head: Vec<CRDTCommand> = if eval_predicate(&self.config.filter, tx) {
                let mut h = self.inputs_from(ctx, &tx.inputs, 0, epoch);
                let mut o = self.outputs_from(&tx.outputs, 0, epoch);
                h.append(&mut o);
                proof {
                    assert(tx.inputs@.skip(0) =~= tx.inputs@);
                    assert(tx.outputs@.skip(0) =~= tx.outputs@);
                    assert(cmds_view(h@) =~= tx_cmds(self.state, self.config, *ctx, *tx, epoch));
                }
                h
            } else {
                proof {
                    assert(cmds_view(Seq::<CRDTCommand>::empty()) =~= Seq::<CmdSpec>::empty());
                }
                Vec::new()
            };
            let mut rest = self.txs_from(ctx, txs, i + 1, epoch);
            head.append(&mut rest);
            proof {
                assert(txs@.skip(i as int)[0] == txs@[i as int]);
                assert(txs@.skip(i as int).skip(1) =~= txs@.skip(i + 1));
                assert(cmds_view(head@) =~= txs_cmds(
                    self.state,
                    self.config,
                    *ctx,
                    txs@.skip(i as int),
                    epoch,
                ));
            }
            head
        }
    }

    /// Reduces one block against its resolution context: the emitted
    /// commands are exactly the block's specification under this unit's
    /// configuration and filter snapshot, removals before additions within
    /// each transaction, transactions in chain order.
    pub fn reduce_block(&self, block: &Block, ctx: &BlockContext) -> (cmds: Vec<CRDTCommand>)
        requires
            self.wf(),
        ensures
            cmds_view(cmds@) == block_cmds(self.state, self.config, self.chain, *ctx, *block),
    {
        let epoch_no = block_epoch(&self.chain, block.slot);
        let r = self.txs_from(ctx, &block.txs, 0, epoch_no);
        proof {
            assert(block.txs@.skip(0) =~= block.txs@);
        }
        r
    }
}

impl Config {
    /// Wraps this configuration, the chain schedule and a filter snapshot
    /// into a unit of the stage's dispatch enum.
    pub fn plugin(self, chain: &ChainWellKnownInfo, state: ReducerState) -> (r: super::Reducer)
        ensures
            r matches super::Reducer::BookByAddress(b) && b.config == self && b.chain == *chain
                && b.state == state,
    {
        let reducer = Reducer { config: self, chain: chain.clone(), state };
        super::Reducer::BookByAddress(reducer)
    }
}

} // verus!
