use vstd::prelude::*;

verus! {

/// Identifies a spendable output: the id of the transaction that created it
/// and the output's index within that transaction.
#[derive(Clone, Copy, Debug)]
pub struct Outpoint {
    pub transaction_id: [u8; 32],
    pub index: u32,
}

impl PartialEq for Outpoint {
    fn eq(&self, o: &Outpoint) -> (r: bool) {
        if self.index != o.index {
            return false;
        }
        let mut i: usize = 0;
        while i < 32
            invariant
                i <= 32,
                forall|j: int| 0 <= j < i ==> self.transaction_id[j] == o.transaction_id[j],
            decreases 32 - i,
        {
            if self.transaction_id[i] != o.transaction_id[i] {
                return false;
            }
            i = i + 1;
        }
        proof {
            broadcast use vstd::array::group_array_axioms;
            assert(self.transaction_id =~= o.transaction_id);
        }
        true
    }
}

impl vstd::std_specs::cmp::PartialEqSpecImpl for Outpoint {
    open spec fn obeys_eq_spec() -> bool {
        true
    }

    open spec fn eq_spec(&self, o: &Outpoint) -> bool {
        *self == *o
    }
}

impl Eq for Outpoint {
}

/// What the wallet logic reads of an unspent output: its amount, the DAA score
/// of the block that created it, and whether it is a block reward.
#[derive(Clone, Copy, Debug, PartialEq, Eq, Structural)]
pub struct UtxoEntry {
    pub amount: u64,
    pub block_daa_score: u64,
    pub is_coinbase: bool,
}

/// An unspent output together with the outpoint that identifies it.
pub type Utxo = (Outpoint, UtxoEntry);

} // verus!
