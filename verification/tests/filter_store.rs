use chain_reducers::model::PolicyId;
use chain_reducers::reducer_state::{config_to_hash, load_config, ReducerState};
use chain_reducers::ConfigError;

const POLICY_A: &str = "b0d07d45fe9514f80213f4020e5a61241458be626841cde717cb38a7";
const POLICY_B: &str = "7eae28af2208be856f7a119668ae52a49b73725e326dc16579dcc373";
const POLICY_C: &str = "1e349c9bdea19fd6c147626a5260bc44b71635f398b67c59881df209";

fn pid(hex_text: &str) -> PolicyId {
    PolicyId { bytes: hex::decode(hex_text).unwrap() }
}

fn doc(ids: &[&str]) -> String {
    let quoted: Vec<String> = ids.iter().map(|i| format!("\"{}\"", i)).collect();
    format!("{{\"policy_ids\": [{}]}}", quoted.join(", "))
}

fn loaded_state(text: &str) -> ReducerState {
    let pids = load_config(text).unwrap();
    let hashes = config_to_hash(&pids.policy_ids).unwrap();
    ReducerState::new(Some(String::from("config.json")), Some(hashes))
}

#[test]
fn load_parses_listed_ids() {
    let text = doc(&[POLICY_A, POLICY_B]);
    let pids = load_config(&text).unwrap();
    assert_eq!(pids.policy_ids, vec![POLICY_A.to_string(), POLICY_B.to_string()]);
}

#[test]
fn load_accepts_empty_list_and_whitespace() {
    let pids = load_config(" { \"policy_ids\" : [ ] } ").unwrap();
    assert!(pids.policy_ids.is_empty());
}

#[test]
fn load_rejects_empty_file() {
    assert_eq!(load_config("").unwrap_err(), ConfigError::Empty);
}

#[test]
fn load_rejects_bad_json() {
    assert_eq!(load_config("{\"policy_ids\": [").unwrap_err(), ConfigError::Invalid);
    assert_eq!(load_config("policy_ids").unwrap_err(), ConfigError::Invalid);
    assert_eq!(load_config("{\"other\": []}").unwrap_err(), ConfigError::Invalid);
}

#[test]
fn config_to_hash_rejects_bad_entries() {
    let bad = vec!["nothex".to_string()];
    assert_eq!(config_to_hash(&bad).unwrap_err(), ConfigError::BadPolicyId);
    let short = vec!["abcd".to_string()];
    assert_eq!(config_to_hash(&short).unwrap_err(), ConfigError::BadPolicyId);
}

#[test]
fn load_then_contains_iff_listed() {
    let st = loaded_state(&doc(&[POLICY_A, POLICY_B]));
    assert!(st.contains(&pid(POLICY_A)));
    assert!(st.contains(&pid(POLICY_B)));
    assert!(!st.contains(&pid(POLICY_C)));
}

#[test]
fn unconfigured_filter_accepts_all() {
    let st = ReducerState::new(None, None);
    assert!(st.contains(&pid(POLICY_A)));
    assert!(st.contains(&pid(POLICY_C)));
}

#[test]
fn reload_swaps_whole_list() {
    let mut st = loaded_state(&doc(&[POLICY_A]));
    assert!(st.contains(&pid(POLICY_A)));
    assert!(!st.contains(&pid(POLICY_B)));
    let ok = st.reload(&doc(&[POLICY_B]));
    assert!(ok);
    assert!(!st.contains(&pid(POLICY_A)));
    assert!(st.contains(&pid(POLICY_B)));
}

#[test]
fn failed_reload_keeps_last_good_list() {
    let mut st = loaded_state(&doc(&[POLICY_A]));
    assert!(!st.reload(""));
    assert!(!st.reload("{\"policy_ids\": [\"zz\"]}"));
    assert!(!st.reload("not json at all"));
    assert!(st.contains(&pid(POLICY_A)));
    assert!(!st.contains(&pid(POLICY_B)));
}

#[test]
fn begin_watch_reports_only_first_start() {
    let mut st = loaded_state(&doc(&[POLICY_A]));
    assert!(st.begin_watch());
    assert!(!st.begin_watch());
    assert!(!st.begin_watch());
}
