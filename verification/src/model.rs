//! The data the reduction stage works on: decoded blocks, their resolution
//! context, native assets, and the set-update commands the stage emits.

use vstd::prelude::*;

verus! {

/// Compares two byte vectors for equality of contents.
pub fn bytes_eq(a: &Vec<u8>, b: &Vec<u8>) -> (r: bool)
    ensures
        r == (a@ == b@),
{
    if a.len() != b.len() {
        return false;
    }
    let mut i: usize = 0;
    while i < a.len()
        invariant
            i <= a@.len(),
            a@.len() == b@.len(),
            forall|j: int| 0 <= j < i ==> a@[j] == b@[j],
        decreases a@.len() - i,
    {
        if a[i] != b[i] {
            return false;
        }
        i = i + 1;
    }
    proof {
        assert(a@ =~= b@);
    }
    true
}

/// A 28-byte hash grouping a family of native assets.
#[derive(Debug, Clone, PartialEq, Eq)]
pub struct PolicyId {
    pub bytes: Vec<u8>,
}

impl View for PolicyId {
    type V = Seq<u8>;

    open spec fn view(&self) -> Seq<u8> {
        self.bytes@
    }
}

impl PolicyId {
    /// A policy identifier is exactly 28 bytes.
    pub open spec fn wf(&self) -> bool {
        self.bytes@.len() == 28
    }

    /// Builds a policy identifier from its hex text; `None` unless the text
    /// is exactly 56 hex digits.
    pub fn from_hex_chars(s: &Vec<char>) -> (r: Option<PolicyId>)
        ensures
            r is Some <==> (crate::codec::is_hex_seq(s@) && s@.len() == 56),
            r is Some ==> r->0@ == crate::codec::hex_decode_seq(s@) && r->0.wf(),
    {
        if s.len() != 56 {
            return None;
        }
        match crate::codec::hex_decode(s) {
            Some(bytes) => {
                proof {
                    crate::codec::lemma_hex_decode_len(s@);
                }
                Some(PolicyId { bytes })
            },
            None => None,
        }
    }

    /// A by-value copy of the identifier.
    pub fn duplicate(&self) -> (r: PolicyId)
        ensures
            r@ == self@,
    {
        let mut bytes: Vec<u8> = Vec::new();
        let mut i: usize = 0;
        while i < self.bytes.len()
            invariant
                i <= self.bytes@.len(),
                bytes@ == self.bytes@.take(i as int),
            decreases self.bytes@.len() - i,
        {
            bytes.push(self.bytes[i]);
            proof {
                assert(bytes@ =~= self.bytes@.take(i + 1));
            }
            i = i + 1;
        }
        proof {
            assert(bytes@ =~= self.bytes@);
        }
        PolicyId { bytes }
    }

    /// Whether two policy identifiers hold the same hash.
    pub fn same_as(&self, other: &PolicyId) -> (r: bool)
        ensures
            r == (self@ == other@),
    {
        bytes_eq(&self.bytes, &other.bytes)
    }
}

/// One asset carried by an output. Quantity is kept but never read: the
/// projections track presence, not balance.
#[derive(Debug, Clone, PartialEq, Eq)]
pub enum Asset {
    /// The chain's own currency, in its smallest unit.
    Ada(u64),
    /// A native asset: policy identifier, raw name bytes, quantity.
    NativeAsset(PolicyId, Vec<u8>, u64),
}

/// A pointer to one produced output: transaction hash plus output index.
#[derive(Debug, Clone, PartialEq, Eq)]
pub struct OutputRef {
    pub tx_hash: Vec<u8>,
    pub index: u64,
}

impl OutputRef {
    /// Whether two references point at the same output.
    pub fn same_as(&self, other: &OutputRef) -> (r: bool)
        ensures
            r == (self.tx_hash@ == other.tx_hash@ && self.index == other.index),
    {
        self.index == other.index && bytes_eq(&self.tx_hash, &other.tx_hash)
    }
}

/// One produced output: the receiving address and the assets it carries.
#[derive(Debug, Clone, PartialEq, Eq)]
pub struct TxOutput {
    pub address: String,
    pub assets: Vec<Asset>,
}

/// One transaction: the references it consumes and the outputs it produces.
#[derive(Debug, Clone, PartialEq, Eq)]
pub struct Tx {
    pub inputs: Vec<OutputRef>,
    pub outputs: Vec<TxOutput>,
}

/// One decoded block: its slot and its transactions, in chain order.
#[derive(Debug, Clone, PartialEq, Eq)]
pub struct Block {
    pub slot: u64,
    pub txs: Vec<Tx>,
}

/// The resolution context delivered beside a block: for each consumed
/// reference that lies inside the indexed window, the output it spent.
#[derive(Debug, Clone, PartialEq, Eq)]
pub struct BlockContext {
    pub utxos: Vec<(OutputRef, TxOutput)>,
}

/// The first entry of `utxos` that matches the reference, if any; resolution
/// may legitimately fail, which is not an error.
pub open spec fn resolve_spec(utxos: Seq<(OutputRef, TxOutput)>, r: OutputRef) -> Option<TxOutput>
    decreases utxos.len(),
{
    if utxos.len() == 0 {
        None
    } else if utxos[0].0.tx_hash@ == r.tx_hash@ && utxos[0].0.index == r.index {
        Some(utxos[0].1)
    } else {
        resolve_spec(utxos.skip(1), r)
    }
}

impl BlockContext {
    /// Looks a consumed reference up; `None` when the output lies outside the
    /// indexed window.
    pub fn find_utxo(&self, r: &OutputRef) -> (res: Option<&TxOutput>)
        ensures
            match res {
                Some(o) => resolve_spec(self.utxos@, *r) == Some(*o),
                None => resolve_spec(self.utxos@, *r) is None,
            },
    {
        let mut i: usize = 0;
        proof {
            assert(self.utxos@.skip(0) =~= self.utxos@);
        }
        while i < self.utxos.len()
            invariant
                i <= self.utxos@.len(),
                resolve_spec(self.utxos@, *r) == resolve_spec(self.utxos@.skip(i as int), *r),
            decreases self.utxos@.len() - i,
        {
            let entry = &self.utxos[i];
            if entry.0.same_as(r) {
                proof {
                    assert(self.utxos@.skip(i as int)[0] == self.utxos@[i as int]);
                }
                return Some(&self.utxos[i].1);
            }
            proof {
                assert(self.utxos@.skip(i as int)[0] == self.utxos@[i as int]);
                assert(self.utxos@.skip(i as int).skip(1) =~= self.utxos@.skip(i + 1));
            }
            i = i + 1;
        }
        proof {
            assert(self.utxos@.skip(i as int) =~= Seq::<(OutputRef, TxOutput)>::empty());
        }
        None
    }
}

/// The spec-level shape of an emitted command.
pub enum CmdSpec {
    Add(Seq<char>, Seq<char>),
    Remove(Seq<char>, Seq<char>),
}

/// A convergent, idempotent set-membership mutation against the external
/// index: add or remove one member of one named set.
#[derive(Debug, Clone, PartialEq, Eq)]
pub enum CRDTCommand {
    SetAdd(String, String),
    SetRemove(String, String),
}

impl View for CRDTCommand {
    type V = CmdSpec;

    open spec fn view(&self) -> CmdSpec {
        match self {
            CRDTCommand::SetAdd(k, m) => CmdSpec::Add(k@, m@),
            CRDTCommand::SetRemove(k, m) => CmdSpec::Remove(k@, m@),
        }
    }
}

/// The views of a vector of commands, in order.
pub open spec fn cmds_view(s: Seq<CRDTCommand>) -> Seq<CmdSpec> {
    s.map_values(|c: CRDTCommand| c@)
}

} // verus!
