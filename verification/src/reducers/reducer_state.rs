//! The remote-backed policy filter: the member list is fetched on demand
//! from a set-valued remote store, whose connection lives at the process
//! edge. This side validates the fetched hex identifiers, answers
//! membership, and merges fetched lists into the in-memory one.

use crate::codec::hex_decode_seq;
use crate::model::PolicyId;
use crate::reducer_state::valid_policy_hex;
use crate::ConfigError;
use vstd::prelude::*;

verus! {

/// The remote backing's configuration.
pub struct Config {
    pub connection_params: String,
}

/// The shape of a fetched member list: hex strings as the remote store holds
/// them.
#[derive(Debug)]
pub struct PolicyIds {
    pub policy_ids: Vec<String>,
}

/// Turns fetched hex strings into policy identifiers; any entry that is not
/// a 28-byte hash rejects the whole answer — a bad remote answer is an
/// error, never a silent empty list.
pub fn strings_to_hashes(pids_str: &Vec<String>) -> (r: Result<Vec<PolicyId>, ConfigError>)
    ensures
        r is Ok <==> (forall|i: int|
            0 <= i < pids_str@.len() ==> valid_policy_hex((#[trigger] pids_str@[i])@)),
        r matches Ok(v) ==> ({
            &&& v@.len() == pids_str@.len()
            &&& forall|i: int|
                0 <= i < v@.len() ==> (#[trigger] v@[i])@ == hex_decode_seq(pids_str@[i]@)
                    && v@[i].wf()
        }),
        r matches Err(e) ==> e == ConfigError::BadPolicyId,
{
    crate::reducer_state::config_to_hash(pids_str)
}

/// The in-memory side of the remote-backed filter: the connection
/// parameters, the merged list so far, and whether the lazily-made
/// connection exists yet.
pub struct ReducerState {
    pub connection_params: Option<String>,
    pub policy_ids: Vec<PolicyId>,
    pub connected: bool,
}

impl ReducerState {
    /// A fresh state: no parameters, no list, no connection.
    pub fn new() -> (r: ReducerState)
        ensures
            r.connection_params is None,
            r.policy_ids@.len() == 0,
            !r.connected,
    {
        ReducerState { connection_params: None, policy_ids: Vec::new(), connected: false }
    }

    /// Records the connection parameters to use on first contact.
    pub fn connection_params(&mut self, params: String)
        ensures
            final(self).connection_params == Some(params),
            final(self).policy_ids == old(self).policy_ids,
            final(self).connected == old(self).connected,
    {
        self.connection_params = Some(params);
    }

    /// Whether the caller must establish the lazily-made connection before
    /// the next query.
    pub fn needs_connection(&self) -> (r: bool)
        ensures
            r == !self.connected,
    {
        !self.connected
    }

    /// Records that the connection was established and is kept for reuse.
    pub fn mark_connected(&mut self)
        ensures
            final(self).connected,
            final(self).connection_params == old(self).connection_params,
            final(self).policy_ids == old(self).policy_ids,
    {
        self.connected = true;
    }

    /// Answers whether a policy identifier stands in a fetched member list.
    pub fn exist(&self, members: &Vec<String>, policy_id: &PolicyId) -> (r: Result<
        bool,
        ConfigError,
    >)
        ensures
            r is Ok <==> (forall|i: int|
                0 <= i < members@.len() ==> valid_policy_hex((#[trigger] members@[i])@)),
            r matches Ok(b) ==> (b <==> (exists|i: int|
                0 <= i < members@.len() && hex_decode_seq((#[trigger] members@[i])@)
                    == policy_id@)),
            r matches Err(e) ==> e == ConfigError::BadPolicyId,
    {
        match strings_to_hashes(members) {
            Err(e) => Err(e),
            Ok(hashes) => {
                let mut i: usize = 0;
                while i < hashes.len()
                    invariant
                        i <= hashes@.len(),
                        hashes@.len() == members@.len(),
                        forall|j: int|
                            0 <= j < hashes@.len() ==> (#[trigger] hashes@[j])@ == hex_decode_seq(
                                members@[j]@,
                            ),
                        forall|j: int| 0 <= j < i ==> (#[trigger] hashes@[j])@ != policy_id@,
                        forall|j: int|
                            0 <= j < members@.len() ==> valid_policy_hex((#[trigger] members@[j])@),
                    decreases hashes@.len() - i,
                {
                    if hashes[i].same_as(policy_id) {
                        proof {
                            assert(hex_decode_seq(members@[i as int]@) == policy_id@);
                        }
                        return Ok(true);
                    }
                    i = i + 1;
                }
                proof {
                    assert forall|j: int|
                        0 <= j < members@.len() implies hex_decode_seq(
                        (#[trigger] members@[j])@,
                    ) != policy_id@ by {
                        assert(hashes@[j]@ == hex_decode_seq(members@[j]@));
                    }
                }
                Ok(false)
            },
        }
    }

    /// Merges a fetched member list into the in-memory one, keeping what was
    /// there and appending the fetched identifiers in order.
    pub fn policy_ids(&mut self, members: &Vec<String>) -> (r: Result<(), ConfigError>)
        ensures
            final(self).connection_params == old(self).connection_params,
            final(self).connected == old(self).connected,
            r is Ok <==> (forall|i: int|
                0 <= i < members@.len() ==> valid_policy_hex((#[trigger] members@[i])@)),
            r matches Ok(u) ==> ({
                &&& final(self).policy_ids@.len() == old(self).policy_ids@.len() + members@.len()
                &&& forall|i: int|
                    0 <= i < old(self).policy_ids@.len() ==> (#[trigger] final(self).policy_ids@[i])
                        == old(self).policy_ids@[i]
                &&& forall|i: int|
                    0 <= i < members@.len() ==> (#[trigger] final(self).policy_ids@[old(self).policy_ids@.len()
                        + i])@ == hex_decode_seq(members@[i]@)
            }),
            r is Err ==> final(self).policy_ids == old(self).policy_ids,
            r matches Err(e) ==> e == ConfigError::BadPolicyId,
    {
        match strings_to_hashes(members) {
            Err(e) => Err(e),
            Ok(hashes) => {
                let ghost olds = self.policy_ids@;
                let ghost fetched = hashes@;
                let mut hashes_mut = hashes;
                self.policy_ids.append(&mut hashes_mut);
                proof {
                    assert(self.policy_ids@ == olds + fetched);
                    assert forall|i: int|
                        0 <= i < members@.len() implies (#[trigger] self.policy_ids@[olds.len()
                        + i])@ == hex_decode_seq(members@[i]@) by {
                        assert(self.policy_ids@[olds.len() + i] == fetched[i]);
                    }
                }
                Ok(())
            },
        }
    }
}

} // verus!
