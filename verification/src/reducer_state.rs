//! The shared policy filter backed by a watched config file: loading and
//! validating the allow-list, answering membership queries, and swapping in a
//! reloaded list atomically — a failed reload keeps the last good list.

use crate::codec::{hex_decode_seq, is_hex_seq};
use crate::model::PolicyId;
use crate::policy_json::{parse_doc, parse_doc_exec};
use crate::text::chars_of;
use crate::ConfigError;
use vstd::prelude::*;

verus! {

/// The shape of the allow-list document once parsed: the hex strings as they
/// stood in the file.
#[derive(Debug)]
pub struct PolicyIds {
    pub policy_ids: Vec<String>,
}

/// Reads the allow-list document out of the config file's text. An empty
/// file and a text outside the grammar are rejected, never treated as an
/// empty list.
pub fn load_config(text: &str) -> (r: Result<PolicyIds, ConfigError>)
    ensures
        r is Ok <==> (text@.len() > 0 && parse_doc(text@) is Some),
        r matches Ok(p) ==> p.policy_ids@.map_values(|t: String| t@) == parse_doc(text@)->0,
        text@.len() == 0 ==> (r matches Err(e) && e == ConfigError::Empty),
        (text@.len() > 0 && parse_doc(text@) is None) ==> (r matches Err(e) && e
            == ConfigError::Invalid),
{
    if text.is_empty() {
        return Err(ConfigError::Empty);
    }
    match parse_doc_exec(text) {
        Some(ids) => Ok(PolicyIds { policy_ids: ids }),
        None => Err(ConfigError::Invalid),
    }
}

/// An allow-list entry must spell a 28-byte hash: 56 hex digits.
pub open spec fn valid_policy_hex(s: Seq<char>) -> bool {
    is_hex_seq(s) && s.len() == 56
}

/// Turns the document's hex strings into policy identifiers; any entry that
/// is not a 28-byte hash rejects the whole list.
pub fn config_to_hash(pids_str: &Vec<String>) -> (r: Result<Vec<PolicyId>, ConfigError>)
    ensures
        r is Ok <==> (forall|i: int|
            0 <= i < pids_str@.len() ==> valid_policy_hex((#[trigger] pids_str@[i])@)),
        r matches Ok(v) ==> ({
            &&& v@.len() == pids_str@.len()
            &&& forall|i: int|
                0 <= i < v@.len() ==> (#[trigger] v@[i])@ == hex_decode_seq(pids_str@[i]@)
                    && v@[i].wf()
        }),
        r matches Err(e) ==> e == ConfigError::BadPolicyId,
{
    let mut out: Vec<PolicyId> = Vec::new();
    let mut i: usize = 0;
    while i < pids_str.len()
        invariant
            i <= pids_str@.len(),
            out@.len() == i,
            forall|j: int| 0 <= j < i ==> valid_policy_hex((#[trigger] pids_str@[j])@),
            forall|j: int|
                0 <= j < i ==> (#[trigger] out@[j])@ == hex_decode_seq(pids_str@[j]@)
                    && out@[j].wf(),
        decreases pids_str@.len() - i,
    {
        let cs = chars_of(pids_str[i].as_str());
        match PolicyId::from_hex_chars(&cs) {
            Some(id) => {
                out.push(id);
            },
            None => {
                return Err(ConfigError::BadPolicyId);
            },
        }
        i = i + 1;
    }
    Ok(out)
}

/// Whether a policy identifier is accepted by a list, under the store's
/// acceptance mode: an unconfigured filter accepts everything.
pub open spec fn accepts_listed(ids: Seq<Seq<u8>>, configured: bool, id: Seq<u8>) -> bool {
    !configured || (exists|i: int| 0 <= i < ids.len() && ids[i] == id)
}

/// Whether a whole reload attempt succeeds on a file text: the text parses
/// and every entry is a 28-byte hash.
pub open spec fn reload_ok(text: Seq<char>) -> bool {
    text.len() > 0 && parse_doc(text) is Some && (forall|i: int|
        0 <= i < parse_doc(text)->0.len() ==> valid_policy_hex(#[trigger] parse_doc(text)->0[i]))
}

/// The identifiers a successful reload installs.
pub open spec fn reload_ids(text: Seq<char>) -> Seq<Seq<u8>> {
    parse_doc(text)->0.map_values(|s: Seq<char>| hex_decode_seq(s))
}

/// The in-memory side of the file-watched policy filter: the last good list,
/// the acceptance mode, and whether a watcher has been started. The mutex
/// and the watcher thread around it live at the process edge; every mutation
/// here swaps the whole list at once, so a reader holding the lock sees
/// either the entirely-prior or the entirely-new list.
pub struct ReducerState {
    pub config_file: Option<String>,
    pub policy_ids: Vec<PolicyId>,
    pub configured: bool,
    pub watching: bool,
}

impl ReducerState {
    /// Whether the filter accepts a policy identifier.
    pub open spec fn accepts_spec(&self, id: Seq<u8>) -> bool {
        !self.configured || (exists|i: int|
            0 <= i < self.policy_ids@.len() && (#[trigger] self.policy_ids@[i])@ == id)
    }

    /// Builds the store; `None` for the initial list leaves the filter
    /// unconfigured, which accepts every identifier rather than silently
    /// dropping data.
    pub fn new(config_file: Option<String>, initial: Option<Vec<PolicyId>>) -> (r: ReducerState)
        ensures
            r.config_file == config_file,
            r.configured == initial is Some,
            initial matches Some(v) ==> r.policy_ids == v,
            initial is None ==> r.policy_ids@.len() == 0,
            !r.watching,
    {
        match initial {
            Some(v) => ReducerState {
                config_file,
                policy_ids: v,
                configured: true,
                watching: false,
            },
            None => ReducerState {
                config_file,
                policy_ids: Vec::new(),
                configured: false,
                watching: false,
            },
        }
    }

    /// Tests membership of one policy identifier; an unconfigured filter
    /// accepts all of them.
    pub fn contains(&self, id: &PolicyId) -> (r: bool)
        ensures
            r == self.accepts_spec(id@),
    {
        if !self.configured {
            return true;
        }
        let mut i: usize = 0;
        while i < self.policy_ids.len()
            invariant
                i <= self.policy_ids@.len(),
                forall|j: int| 0 <= j < i ==> (#[trigger] self.policy_ids@[j])@ != id@,
            decreases self.policy_ids@.len() - i,
        {
            if self.policy_ids[i].same_as(id) {
                return true;
            }
            i = i + 1;
        }
        false
    }

    /// Applies one reload attempt from the file's current text. A text that
    /// fails to parse or validate is discarded whole: the store keeps its
    /// last good list and never turns transiently empty.
    pub fn reload(&mut self, text: &str) -> (ok: bool)
        ensures
            final(self).config_file == old(self).config_file,
            final(self).configured == old(self).configured,
            final(self).watching == old(self).watching,
            ok == reload_ok(text@),
            ok ==> final(self).policy_ids@.map_values(|p: PolicyId| p@) == reload_ids(text@),
            !ok ==> final(self).policy_ids == old(self).policy_ids,
    {
        match load_config(text) {
            Err(_) => false,
            Ok(pids) => {
                match config_to_hash(&pids.policy_ids) {
                    Err(_) => {
                        proof {
                            let ids = parse_doc(text@);
                            let k = choose|k: int|
                                0 <= k < pids.policy_ids@.len() && !valid_policy_hex(
                                    (#[trigger] pids.policy_ids@[k])@,
                                );
                            assert(pids.policy_ids@.map_values(|t: String| t@)[k] == ids->0[k]);
                        }
                        false
                    },
                    Ok(hashes) => {
                        self.policy_ids = hashes;
                        proof {
                            let ids = parse_doc(text@)->0;
                            let strs = pids.policy_ids@.map_values(|t: String| t@);
                            assert forall|i: int|
                                0 <= i < ids.len() implies valid_policy_hex(
                                #[trigger] ids[i],
                            ) by {
                                assert(strs[i] == ids[i]);
                                assert(valid_policy_hex(pids.policy_ids@[i]@));
                            }
                            assert(self.policy_ids@.map_values(|p: PolicyId| p@) =~= reload_ids(
                                text@,
                            ));
                        }
                        true
                    },
                }
            },
        }
    }

    /// A by-value copy of the filter's current contents, handed to a unit
    /// as its snapshot at call time.
    pub fn snapshot(&self) -> (r: ReducerState)
        ensures
            r.config_file == self.config_file,
            r.configured == self.configured,
            r.watching == self.watching,
            r.policy_ids@.len() == self.policy_ids@.len(),
            forall|i: int|
                0 <= i < r.policy_ids@.len() ==> (#[trigger] r.policy_ids@[i])@
                    == self.policy_ids@[i]@,
    {
        let config_file = match &self.config_file {
            Some(s) => Some(s.clone()),
            None => None,
        };
        let mut ids: Vec<PolicyId> = Vec::new();
        let mut i: usize = 0;
        while i < self.policy_ids.len()
            invariant
                i <= self.policy_ids@.len(),
                ids@.len() == i,
                forall|j: int|
                    0 <= j < i ==> (#[trigger] ids@[j])@ == self.policy_ids@[j]@,
            decreases self.policy_ids@.len() - i,
        {
            ids.push(self.policy_ids[i].duplicate());
            i = i + 1;
        }
        ReducerState {
            config_file,
            policy_ids: ids,
            configured: self.configured,
            watching: self.watching,
        }
    }

    /// Marks the watcher as started; only the first call reports that a
    /// watcher must be spawned, so watching a path twice cannot start a
    /// second watcher.
    pub fn begin_watch(&mut self) -> (started: bool)
        ensures
            final(self).watching,
            started == !old(self).watching,
            final(self).config_file == old(self).config_file,
            final(self).configured == old(self).configured,
            final(self).policy_ids == old(self).policy_ids,
    {
        let started = !self.watching;
        self.watching = true;
        started
    }
}

/// After a successful load, membership holds exactly for the identifiers
/// whose hex text stood in the document; after a failed one the store
/// answers exactly as before.
pub proof fn lemma_load_then_contains(text: Seq<char>, st: ReducerState, x: PolicyId)
    requires
        reload_ok(text),
        st.configured,
        st.policy_ids@.map_values(|p: PolicyId| p@) == reload_ids(text),
    ensures
        st.accepts_spec(x@) <==> (exists|i: int|
            0 <= i < parse_doc(text)->0.len() && hex_decode_seq(#[trigger] parse_doc(text)->0[i])
                == x@),
{
    let ids = parse_doc(text)->0;
    let views = st.policy_ids@.map_values(|p: PolicyId| p@);
    assert(views == reload_ids(text));
    assert(views.len() == st.policy_ids@.len());
    assert(reload_ids(text).len() == ids.len());
    if st.accepts_spec(x@) {
        let i = choose|i: int|
            0 <= i < st.policy_ids@.len() && (#[trigger] st.policy_ids@[i])@ == x@;
        assert(views[i] == st.policy_ids@[i]@);
        assert(reload_ids(text)[i] == hex_decode_seq(ids[i]));
        assert(hex_decode_seq(ids[i]) == x@);
    }
    if exists|i: int|
        0 <= i < ids.len() && hex_decode_seq(#[trigger] ids[i]) == x@ {
        let i = choose|i: int| 0 <= i < ids.len() && hex_decode_seq(#[trigger] ids[i]) == x@;
        assert(reload_ids(text)[i] == hex_decode_seq(ids[i]));
        assert(views[i] == st.policy_ids@[i]@);
        assert(st.policy_ids@[i]@ == x@);
    }
}

/// Reload atomicity: after a reload step, every membership query is answered
/// entirely from the new list when the reload succeeded, and entirely from
/// the prior list when it did not — never from a mix of the two.
pub proof fn lemma_reload_atomic(pre: ReducerState, post: ReducerState, text: Seq<char>, ok: bool)
    requires
        post.configured == pre.configured,
        ok == reload_ok(text),
        ok ==> post.policy_ids@.map_values(|p: PolicyId| p@) == reload_ids(text),
        !ok ==> post.policy_ids == pre.policy_ids,
    ensures
        ok ==> (forall|id: Seq<u8>|
            #[trigger] post.accepts_spec(id) == accepts_listed(
                reload_ids(text),
                pre.configured,
                id,
            )),
        !ok ==> (forall|id: Seq<u8>| #[trigger] post.accepts_spec(id) == pre.accepts_spec(id)),
{
    if ok {
        assert forall|id: Seq<u8>|
            #[trigger] post.accepts_spec(id) == accepts_listed(
                reload_ids(text),
                pre.configured,
                id,
            ) by {
            let views = post.policy_ids@.map_values(|p: PolicyId| p@);
            if post.configured {
                if post.accepts_spec(id) {
                    let i = choose|i: int|
                        0 <= i < post.policy_ids@.len() && (#[trigger] post.policy_ids@[i])@ == id;
                    assert(views[i] == id);
                    assert(reload_ids(text)[i] == id);
                }
                if exists|i: int| 0 <= i < reload_ids(text).len() && reload_ids(text)[i] == id {
                    let i = choose|i: int|
                        0 <= i < reload_ids(text).len() && reload_ids(text)[i] == id;
                    assert(views[i] == id);
                    assert(post.policy_ids@[i]@ == id);
                }
            }
        }
    } else {
        assert forall|id: Seq<u8>|
            #[trigger] post.accepts_spec(id) == pre.accepts_spec(id) by {
            if post.accepts_spec(id) && post.configured {
                let i = choose|i: int|
                    0 <= i < post.policy_ids@.len() && (#[trigger] post.policy_ids@[i])@ == id;
                assert(pre.policy_ids@[i]@ == id);
            }
            if pre.accepts_spec(id) && pre.configured {
                let i = choose|i: int|
                    0 <= i < pre.policy_ids@.len() && (#[trigger] pre.policy_ids@[i])@ == id;
                assert(post.policy_ids@[i]@ == id);
            }
        }
    }
}

} // verus!
