use vstd::prelude::*;

use crate::pending::PendingMap;
use crate::selection::{free_of, is_selection_count, lemma_free_not_pending, lemma_total_take, nothing_covers, prefix_total, select_utxos, total, MAX_UTXOS};
use crate::types::{Outpoint, Utxo};

verus! {

/// The amount each generated transaction sends.
pub const DEFAULT_SEND_AMOUNT: u64 = 10_000;

/// The outpoints of `s`, in order.
pub open spec fn outpoints_of(s: Seq<Utxo>) -> Seq<Outpoint> {
    s.map_values(|u: Utxo| u.0)
}

/// Outputs of a transaction in the given mode: one when consolidating, else two.
pub open spec fn num_outs_for(maximize: bool) -> u64 {
    if maximize {
        1
    } else {
        2
    }
}

/// An unsigned transaction as the generator plans it: the outputs it spends,
/// captured when they were chosen, and the values of its outputs, all paid to
/// the wallet's own address.
pub struct TxPlan {
    pub inputs: Vec<Utxo>,
    pub outputs: Vec<u64>,
}

/// What one generation step returns and does to the pending map `after`
/// (from `before`): the plan for the least covering prefix of the free
/// outputs, whose outpoints are then marked at `now`; or nothing, with the
/// map unchanged, when no count of inputs covers the payment.
pub open spec fn send_outcome(
    utxos: Seq<Utxo>,
    before: Map<Outpoint, u64>,
    after: Map<Outpoint, u64>,
    maximize: bool,
    now: u64,
    r: Option<TxPlan>,
) -> bool {
    let avail = free_of(utxos, before);
    let m = num_outs_for(maximize);
    match r {
        None => nothing_covers(avail, DEFAULT_SEND_AMOUNT, m, maximize) && after == before,
        Some(plan) => {
            &&& is_selection_count(avail, plan.inputs@.len() as int, DEFAULT_SEND_AMOUNT, m, maximize)
            &&& plan.inputs@ == avail.take(plan.inputs@.len() as int)
            &&& plan.outputs@.len() == m
            &&& forall|i: int| 0 <= i < plan.outputs@.len() ==> #[trigger] plan.outputs@[i] == DEFAULT_SEND_AMOUNT / m
            &&& forall|k: Outpoint| #[trigger] after.contains_key(k) == (before.contains_key(k)
                || outpoints_of(plan.inputs@).contains(k))
            &&& forall|k: Outpoint| #[trigger] after.contains_key(k) ==> after[k] == if outpoints_of(plan.inputs@).contains(k) {
                now
            } else {
                before[k]
            }
        },
    }
}

impl TxPlan {
    /// The sum of the amounts that the inputs spend, or nothing where it
    /// does not fit in 64 bits.
    pub fn amount_used(&self) -> (r: Option<u64>)
        ensures
            r == (if total(self.inputs@) <= u64::MAX {
                Some(total(self.inputs@) as u64)
            } else {
                None
            }),
    {
        let mut sum: u64 = 0;
        let mut i: usize = 0;
        while i < self.inputs.len()
            invariant
                i <= self.inputs@.len(),
                sum == total(self.inputs@.take(i as int)),
            decreases self.inputs@.len() - i,
        {
            proof {
                assert(self.inputs@.take(i + 1).drop_last() =~= self.inputs@.take(i as int));
                lemma_total_take(self.inputs@, i + 1);
            }
            if sum > u64::MAX - self.inputs[i].1.amount {
                proof {
                    assert(total(self.inputs@.take(i + 1)) > u64::MAX);
                }
                return None;
            }
            sum = sum + self.inputs[i].1.amount;
            i = i + 1;
        }
        proof {
            assert(self.inputs@.take(self.inputs@.len() as int) =~= self.inputs@);
        }
        Some(sum)
    }
}

/// `num_outs` outputs of `send_amount / num_outs` each; what the division
/// leaves over is not paid out.
pub fn generate_outputs(send_amount: u64, num_outs: u64) -> (r: Vec<u64>)
    requires
        num_outs > 0,
    ensures
        r@.len() == num_outs,
        forall|i: int| 0 <= i < r@.len() ==> #[trigger] r@[i] == send_amount / num_outs,
{
    let value = send_amount / num_outs;
    let mut outs: Vec<u64> = Vec::new();
    let mut i: u64 = 0;
    while i < num_outs
        invariant
            i <= num_outs,
            outs@.len() == i,
            forall|k: int| 0 <= k < outs@.len() ==> #[trigger] outs@[k] == value,
        decreases num_outs - i,
    {
        outs.push(value);
        i = i + 1;
    }
    outs
}

fn outpoints(utxos: &Vec<Utxo>) -> (r: Vec<Outpoint>)
    ensures
        r@ == outpoints_of(utxos@),
{
    let mut r: Vec<Outpoint> = Vec::new();
    let mut i: usize = 0;
    while i < utxos.len()
        invariant
            i <= utxos@.len(),
            r@ == outpoints_of(utxos@.take(i as int)),
        decreases utxos@.len() - i,
    {
        r.push(utxos[i].0);
        i = i + 1;
        proof {
            assert(r@ =~= outpoints_of(utxos@.take(i as int)));
        }
    }
    proof {
        assert(utxos@.take(utxos@.len() as int) =~= utxos@);
    }
    r
}

/// One generation step: chooses inputs for a payment of `DEFAULT_SEND_AMOUNT`
/// (one output when `maximize_inputs` holds, else two), marks them in flight
/// at time `now`, and returns the planned transaction. Returns nothing, and
/// leaves `pending` as it was, when the free outputs cannot pay.
pub fn maybe_send_tx(utxos: &Vec<Utxo>, pending: &mut PendingMap, maximize_inputs: bool, now: u64) -> (r: Option<
    TxPlan,
>)
    requires
        old(pending).wf(),
        prefix_total(free_of(utxos@, old(pending)@), MAX_UTXOS as int + 1) <= u64::MAX,
    ensures
        final(pending).wf(),
        send_outcome(utxos@, old(pending)@, final(pending)@, maximize_inputs, now, r),
{
    let num_outs: u64 = if maximize_inputs {
        1
    } else {
        2
    };
    let (selected, selected_amount) = select_utxos(utxos, DEFAULT_SEND_AMOUNT, num_outs, maximize_inputs, pending);
    if selected_amount == 0 {
        return None;
    }
    let outputs = generate_outputs(DEFAULT_SEND_AMOUNT, num_outs);
    let ops = outpoints(&selected);
    pending.insert_all(&ops, now);
    Some(TxPlan { inputs: selected, outputs })
}

} // verus!

verus! {

/// Two successive generation steps never spend the same outpoint: the first
/// marks its inputs pending, and the second chooses only outputs that are not.
pub proof fn lemma_steps_disjoint(
    utxos1: Seq<Utxo>,
    utxos2: Seq<Utxo>,
    p0: Map<Outpoint, u64>,
    p1: Map<Outpoint, u64>,
    p2: Map<Outpoint, u64>,
    maximize1: bool,
    maximize2: bool,
    now1: u64,
    now2: u64,
    plan1: TxPlan,
    plan2: TxPlan,
)
    requires
        send_outcome(utxos1, p0, p1, maximize1, now1, Some(plan1)),
        send_outcome(utxos2, p1, p2, maximize2, now2, Some(plan2)),
    ensures
        forall|i: int, j: int|
            0 <= i < plan1.inputs@.len() && 0 <= j < plan2.inputs@.len() ==> #[trigger] plan1.inputs@[i].0
                != #[trigger] plan2.inputs@[j].0,
{
    lemma_free_not_pending(utxos2, p1);
    let avail2 = free_of(utxos2, p1);
    assert forall|i: int, j: int|
        0 <= i < plan1.inputs@.len() && 0 <= j < plan2.inputs@.len() implies #[trigger] plan1.inputs@[i].0
            != #[trigger] plan2.inputs@[j].0 by {
        assert(outpoints_of(plan1.inputs@)[i] == plan1.inputs@[i].0);
        assert(outpoints_of(plan1.inputs@).contains(plan1.inputs@[i].0));
        assert(p1.contains_key(plan1.inputs@[i].0));
        assert(plan2.inputs@[j] == avail2[j]);
    }
}

} // verus!
