use chain_reducers::crosscut::{ChainWellKnownInfo, Predicate};
use chain_reducers::fingerprint::asset_fingerprint;
use chain_reducers::model::{Asset, Block, BlockContext, CRDTCommand, OutputRef, PolicyId, Tx, TxOutput};
use chain_reducers::reducer_state::ReducerState;
use chain_reducers::reducers::books_by_address::{AggrType, Config};
use chain_reducers::reducers::worker::{StageAction, StagePhase, Worker};
use chain_reducers::reducers::{Bootstrapper, Config as StageConfig, Reducer};
use chain_reducers::store::NamedSetStore;

const POLICY: &str = "b0d07d45fe9514f80213f4020e5a61241458be626841cde717cb38a7";
const POLICY_OTHER: &str = "7eae28af2208be856f7a119668ae52a49b73725e326dc16579dcc373";

fn pid(hex_text: &str) -> PolicyId {
    PolicyId { bytes: hex::decode(hex_text).unwrap() }
}

fn chain() -> ChainWellKnownInfo {
    ChainWellKnownInfo {
        byron_epoch_length: 21600,
        shelley_epoch_length: 432000,
        shelley_known_slot: 4492800,
        shelley_known_epoch: 208,
    }
}

fn cfg(prefix: &str) -> Config {
    Config {
        key_prefix: Some(prefix.to_string()),
        policy_ids_file: Some("config.json".to_string()),
        filter: None,
        aggr_by: None,
    }
}

fn state_with(ids: &[&str]) -> ReducerState {
    let hashes = ids.iter().map(|i| pid(i)).collect();
    ReducerState::new(Some("config.json".to_string()), Some(hashes))
}

fn fp(policy_hex: &str, name: &[u8]) -> String {
    asset_fingerprint(policy_hex, &hex::encode(name)).unwrap()
}

fn asset(policy_hex: &str, name: &[u8]) -> Asset {
    Asset::NativeAsset(pid(policy_hex), name.to_vec(), 1)
}

fn out(addr: &str, assets: Vec<Asset>) -> TxOutput {
    TxOutput { address: addr.to_string(), assets }
}

fn oref(n: u8, index: u64) -> OutputRef {
    OutputRef { tx_hash: vec![n; 32], index }
}

fn unit(config: Config, ids: &[&str]) -> Reducer {
    StageConfig::BookByAddress(config).plugin(&chain(), state_with(ids))
}

#[test]
fn remove_then_add_for_spend_and_receive() {
    // One transaction spends O1 (address A1, asset POLICY."X") and produces O2
    // (address A2, same asset): exactly one removal, then one addition.
    let consumed = oref(1, 0);
    let ctx = BlockContext { utxos: vec![(consumed.clone(), out("A1", vec![asset(POLICY, b"X")]))] };
    let tx = Tx { inputs: vec![consumed], outputs: vec![out("A2", vec![asset(POLICY, b"X")])] };
    let block = Block { slot: 5000000, txs: vec![tx] };
    let cmds = unit(cfg("Key"), &[POLICY]).reduce_block(&block, &ctx);
    let member = fp(POLICY, b"X");
    assert_eq!(
        cmds,
        vec![
            CRDTCommand::SetRemove("Key.A1".to_string(), member.clone()),
            CRDTCommand::SetAdd("Key.A2".to_string(), member),
        ]
    );
}

#[test]
fn filtered_policy_emits_nothing() {
    let consumed = oref(1, 0);
    let ctx = BlockContext { utxos: vec![(consumed.clone(), out("A1", vec![asset(POLICY_OTHER, b"X")]))] };
    let tx = Tx { inputs: vec![consumed], outputs: vec![out("A2", vec![asset(POLICY_OTHER, b"X")])] };
    let block = Block { slot: 5000000, txs: vec![tx] };
    let cmds = unit(cfg("Key"), &[POLICY]).reduce_block(&block, &ctx);
    assert!(cmds.is_empty());
}

#[test]
fn unresolved_input_is_skipped_silently() {
    // The consumed reference is absent from the context: no removal and no
    // error, and the produced side of the block is still processed.
    let ctx = BlockContext { utxos: vec![] };
    let tx = Tx { inputs: vec![oref(9, 3)], outputs: vec![out("A2", vec![asset(POLICY, b"X")])] };
    let block = Block { slot: 5000000, txs: vec![tx] };
    let cmds = unit(cfg("Key"), &[POLICY]).reduce_block(&block, &ctx);
    assert_eq!(cmds, vec![CRDTCommand::SetAdd("Key.A2".to_string(), fp(POLICY, b"X"))]);
}

#[test]
fn ada_assets_are_ignored() {
    let ctx = BlockContext { utxos: vec![] };
    let tx = Tx { inputs: vec![], outputs: vec![out("A2", vec![Asset::Ada(5), asset(POLICY, b"X")])] };
    let block = Block { slot: 5000000, txs: vec![tx] };
    let cmds = unit(cfg("Key"), &[POLICY]).reduce_block(&block, &ctx);
    assert_eq!(cmds.len(), 1);
}

#[test]
fn default_prefix_names_the_projection() {
    let mut c = cfg("ignored");
    c.key_prefix = None;
    let ctx = BlockContext { utxos: vec![] };
    let tx = Tx { inputs: vec![], outputs: vec![out("A2", vec![asset(POLICY, b"X")])] };
    let block = Block { slot: 5000000, txs: vec![tx] };
    let cmds = unit(c, &[POLICY]).reduce_block(&block, &ctx);
    assert_eq!(cmds, vec![CRDTCommand::SetAdd("BookByAddress.A2".to_string(), fp(POLICY, b"X"))]);
}

#[test]
fn epoch_aggregation_suffixes_the_key() {
    let mut c = cfg("Key");
    c.aggr_by = Some(AggrType::Epoch);
    let ctx = BlockContext { utxos: vec![] };
    let tx = Tx { inputs: vec![], outputs: vec![out("A2", vec![asset(POLICY, b"X")])] };
    // slot 4924800 = known slot + one whole epoch: epoch 209.
    let block = Block { slot: 4924800, txs: vec![tx] };
    let cmds = unit(c, &[POLICY]).reduce_block(&block, &ctx);
    assert_eq!(cmds, vec![CRDTCommand::SetAdd("Key.A2.209".to_string(), fp(POLICY, b"X"))]);
}

#[test]
fn predicate_limits_transactions() {
    let mut c = cfg("Key");
    c.filter = Some(Predicate::AnyOutputAddressEquals("A2".to_string()));
    let ctx = BlockContext { utxos: vec![] };
    let watched = Tx { inputs: vec![], outputs: vec![out("A2", vec![asset(POLICY, b"X")])] };
    let other = Tx { inputs: vec![], outputs: vec![out("B7", vec![asset(POLICY, b"Y")])] };
    let block = Block { slot: 5000000, txs: vec![other, watched] };
    let cmds = unit(c, &[POLICY]).reduce_block(&block, &ctx);
    assert_eq!(cmds, vec![CRDTCommand::SetAdd("Key.A2".to_string(), fp(POLICY, b"X"))]);
}

#[test]
fn unconfigured_filter_keeps_everything_visible() {
    let st = ReducerState::new(None, None);
    let r = StageConfig::BookByAddress(cfg("Key")).plugin(&chain(), st);
    let ctx = BlockContext { utxos: vec![] };
    let tx = Tx { inputs: vec![], outputs: vec![out("A2", vec![asset(POLICY_OTHER, b"X")])] };
    let block = Block { slot: 5000000, txs: vec![tx] };
    let cmds = r.reduce_block(&block, &ctx);
    assert_eq!(cmds.len(), 1);
}

#[test]
fn worker_runs_two_phase_commit() {
    let boot = Bootstrapper::new(
        vec![StageConfig::BookByAddress(cfg("Key"))],
        &chain(),
        vec![state_with(&[POLICY])],
    );
    let mut w = Worker::new(boot.into_reducers());
    assert_eq!(w.phase, StagePhase::Idle);
    let consumed = oref(1, 0);
    let ctx = BlockContext { utxos: vec![(consumed.clone(), out("A1", vec![asset(POLICY, b"X")]))] };
    let tx = Tx { inputs: vec![consumed], outputs: vec![out("A2", vec![asset(POLICY, b"X")])] };
    let block = Block { slot: 5000000, txs: vec![tx] };
    let cmds = w.on_batch(&block, &ctx);
    assert_eq!(cmds.len(), 2);
    assert_eq!(w.phase, StagePhase::Committing);
    assert_eq!(w.received, 1);
    assert_eq!(w.committed, 0);
    w.on_send_ok();
    assert_eq!(w.phase, StagePhase::Idle);
    assert_eq!(w.committed, 1);
}

#[test]
fn worker_error_handling() {
    let mut w = Worker::new(vec![]);
    let block = Block { slot: 5000000, txs: vec![] };
    let ctx = BlockContext { utxos: vec![] };
    let _ = w.on_batch(&block, &ctx);
    assert_eq!(w.on_error(true), StageAction::Restart);
    assert_eq!(w.phase, StagePhase::Idle);
    assert_eq!(w.received, w.committed);
    let _ = w.on_batch(&block, &ctx);
    assert_eq!(w.on_error(false), StageAction::Stop);
    assert_eq!(w.phase, StagePhase::Failed);
}

#[test]
fn worker_concatenates_units_in_fixed_order() {
    let boot = Bootstrapper::new(
        vec![
            StageConfig::BookByAddress(cfg("First")),
            StageConfig::BookByAddress(cfg("Second")),
        ],
        &chain(),
        vec![state_with(&[POLICY]), state_with(&[POLICY])],
    );
    let mut w = Worker::new(boot.into_reducers());
    let ctx = BlockContext { utxos: vec![] };
    let tx = Tx { inputs: vec![], outputs: vec![out("A2", vec![asset(POLICY, b"X")])] };
    let block = Block { slot: 5000000, txs: vec![tx] };
    let cmds = w.on_batch(&block, &ctx);
    let member = fp(POLICY, b"X");
    assert_eq!(
        cmds,
        vec![
            CRDTCommand::SetAdd("First.A2".to_string(), member.clone()),
            CRDTCommand::SetAdd("Second.A2".to_string(), member),
        ]
    );
}

#[test]
fn same_address_spend_and_receive_ends_present() {
    // An address both spends and immediately receives the same asset in one
    // transaction: because removals come strictly first, applying the
    // emitted commands leaves the asset present.
    let consumed = oref(1, 0);
    let ctx = BlockContext { utxos: vec![(consumed.clone(), out("A1", vec![asset(POLICY, b"X")]))] };
    let tx = Tx { inputs: vec![consumed], outputs: vec![out("A1", vec![asset(POLICY, b"X")])] };
    let block = Block { slot: 5000000, txs: vec![tx] };
    let cmds = unit(cfg("Key"), &[POLICY]).reduce_block(&block, &ctx);
    let mut store = NamedSetStore::new();
    store.apply_all(&cmds);
    assert!(store.contains(&"Key.A1".to_string(), &fp(POLICY, b"X")));
}
