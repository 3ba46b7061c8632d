//! Chain-wide facts shared by the projections: the epoch schedule and the
//! optional transaction predicate a unit may carry.

use crate::model::Tx;
use vstd::prelude::*;

verus! {

/// The slot-to-epoch schedule of the chain: fixed-length epochs before the
/// known boundary slot, fixed-length epochs after it.
#[derive(Debug, Clone, Copy, PartialEq, Eq, Structural)]
pub struct ChainWellKnownInfo {
    pub byron_epoch_length: u64,
    pub shelley_epoch_length: u64,
    pub shelley_known_slot: u64,
    pub shelley_known_epoch: u64,
}

impl ChainWellKnownInfo {
    /// Epoch lengths of zero slots would make the schedule meaningless.
    pub open spec fn wf(&self) -> bool {
        self.byron_epoch_length > 0 && self.shelley_epoch_length > 0
    }
}

/// The epoch a slot falls in, saturating at the largest representable epoch.
pub open spec fn epoch_of(chain: ChainWellKnownInfo, slot: u64) -> u64
    recommends
        chain.wf(),
{
    if slot < chain.shelley_known_slot {
        (slot as int / chain.byron_epoch_length as int) as u64
    } else {
        let e = chain.shelley_known_epoch + (slot - chain.shelley_known_slot) as int
            / chain.shelley_epoch_length as int;
        if e > u64::MAX {
            u64::MAX
        } else {
            e as u64
        }
    }
}

/// Computes the epoch a block's slot falls in.
pub fn block_epoch(chain: &ChainWellKnownInfo, slot: u64) -> (r: u64)
    requires
        chain.wf(),
    ensures
        r == epoch_of(*chain, slot),
{
    if slot < chain.shelley_known_slot {
        slot / chain.byron_epoch_length
    } else {
        let q = (slot - chain.shelley_known_slot) / chain.shelley_epoch_length;
        if q <= u64::MAX - chain.shelley_known_epoch {
            chain.shelley_known_epoch + q
        } else {
            u64::MAX
        }
    }
}

/// The optional transaction predicate of a unit: either every transaction
/// matches, or only those that pay some output to a given address.
#[derive(Debug, Clone, PartialEq, Eq)]
pub enum Predicate {
    AllowAll,
    AnyOutputAddressEquals(String),
}

/// Whether a transaction matches a unit's optional predicate; a unit without
/// one processes every transaction.
pub open spec fn tx_matches(filter: Option<Predicate>, tx: Tx) -> bool {
    match filter {
        None => true,
        Some(Predicate::AllowAll) => true,
        Some(Predicate::AnyOutputAddressEquals(a)) => exists|i: int|
            0 <= i < tx.outputs@.len() && (#[trigger] tx.outputs@[i]).address@ == a@,
    }
}

/// Evaluates a unit's predicate on one transaction.
pub fn eval_predicate(filter: &Option<Predicate>, tx: &Tx) -> (r: bool)
    ensures
        r == tx_matches(*filter, *tx),
{
    match filter {
        None => true,
        Some(Predicate::AllowAll) => true,
        Some(Predicate::AnyOutputAddressEquals(a)) => {
            let mut i: usize = 0;
            while i < tx.outputs.len()
                invariant
                    i <= tx.outputs@.len(),
                    tx_matches(*filter, *tx) == (exists|j: int|
                        0 <= j < tx.outputs@.len() && (#[trigger] tx.outputs@[j]).address@ == a@),
                    forall|j: int| 0 <= j < i ==> (#[trigger] tx.outputs@[j]).address@ != a@,
                decreases tx.outputs@.len() - i,
            {
                if tx.outputs[i].address.eq(a) {
                    proof {
                        let wi = i as int;
                        assert(0 <= wi < tx.outputs@.len() && (tx.outputs@[wi]).address@ == a@);
                    }
                    return true;
                }
                i = i + 1;
            }
            false
        },
    }
}

} // verus!
