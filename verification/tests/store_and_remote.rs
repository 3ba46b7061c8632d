use chain_reducers::model::{CRDTCommand, PolicyId};
use chain_reducers::reducers::reducer_state::ReducerState as RemoteState;
use chain_reducers::store::NamedSetStore;
use chain_reducers::ConfigError;

const POLICY_A: &str = "b0d07d45fe9514f80213f4020e5a61241458be626841cde717cb38a7";
const POLICY_B: &str = "7eae28af2208be856f7a119668ae52a49b73725e326dc16579dcc373";

fn pid(hex_text: &str) -> PolicyId {
    PolicyId { bytes: hex::decode(hex_text).unwrap() }
}

fn add(k: &str, x: &str) -> CRDTCommand {
    CRDTCommand::SetAdd(k.to_string(), x.to_string())
}

fn rem(k: &str, x: &str) -> CRDTCommand {
    CRDTCommand::SetRemove(k.to_string(), x.to_string())
}

fn has(s: &NamedSetStore, k: &str, x: &str) -> bool {
    s.contains(&k.to_string(), &x.to_string())
}

#[test]
fn store_applies_adds_and_removes() {
    let mut s = NamedSetStore::new();
    s.apply(&add("k", "a"));
    s.apply(&add("k", "b"));
    s.apply(&rem("k", "a"));
    assert!(!has(&s, "k", "a"));
    assert!(has(&s, "k", "b"));
    assert!(!has(&s, "other", "b"));
}

#[test]
fn replaying_a_sequence_changes_nothing() {
    // The command model is convergent: the same batch applied twice to an
    // initially empty store leaves the same membership as applied once.
    let cmds = vec![
        add("k1", "a"),
        add("k1", "b"),
        rem("k1", "a"),
        add("k2", "a"),
        rem("k3", "zz"),
        add("k1", "a"),
        rem("k1", "b"),
    ];
    let mut once = NamedSetStore::new();
    once.apply_all(&cmds);
    let mut twice = NamedSetStore::new();
    twice.apply_all(&cmds);
    twice.apply_all(&cmds);
    for k in ["k1", "k2", "k3"] {
        for x in ["a", "b", "zz"] {
            assert_eq!(has(&once, k, x), has(&twice, k, x), "mismatch at {}/{}", k, x);
        }
    }
    assert!(has(&once, "k1", "a"));
    assert!(!has(&once, "k1", "b"));
    assert!(has(&once, "k2", "a"));
}

#[test]
fn duplicate_commands_are_idempotent() {
    let mut s = NamedSetStore::new();
    s.apply(&add("k", "a"));
    s.apply(&add("k", "a"));
    s.apply(&rem("k", "a"));
    assert!(!has(&s, "k", "a"));
}

#[test]
fn remote_exist_checks_fetched_members() {
    let st = RemoteState::new();
    let members = vec![POLICY_A.to_string(), POLICY_B.to_string()];
    assert_eq!(st.exist(&members, &pid(POLICY_A)), Ok(true));
    assert_eq!(
        st.exist(&members, &pid("1e349c9bdea19fd6c147626a5260bc44b71635f398b67c59881df209")),
        Ok(false)
    );
}

#[test]
fn remote_exist_rejects_bad_members() {
    let st = RemoteState::new();
    let members = vec![POLICY_A.to_string(), "nothex".to_string()];
    assert_eq!(st.exist(&members, &pid(POLICY_A)), Err(ConfigError::BadPolicyId));
}

#[test]
fn remote_merge_appends_fetched_ids() {
    let mut st = RemoteState::new();
    st.connection_params("redis://localhost".to_string());
    assert!(st.needs_connection());
    st.mark_connected();
    assert!(!st.needs_connection());
    st.policy_ids(&vec![POLICY_A.to_string()]).unwrap();
    st.policy_ids(&vec![POLICY_B.to_string()]).unwrap();
    assert_eq!(st.policy_ids.len(), 2);
    assert_eq!(st.policy_ids[0], pid(POLICY_A));
    assert_eq!(st.policy_ids[1], pid(POLICY_B));
    assert_eq!(st.policy_ids(&vec!["bad".to_string()]), Err(ConfigError::BadPolicyId));
    assert_eq!(st.policy_ids.len(), 2);
}
