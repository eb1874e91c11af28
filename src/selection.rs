use vstd::prelude::*;

use crate::pending::PendingMap;
use crate::types::{Outpoint, Utxo};

verus! {

/// Fee paid per unit of mass.
pub const FEE_PER_MASS: u64 = 10;

/// The most inputs one transaction may spend.
pub const MAX_UTXOS: usize = 84;

/// Estimated mass of a transaction with `num_utxos` inputs and `num_outs` outputs.
pub open spec fn mass_of(num_utxos: int, num_outs: int) -> int {
    200 + 34 * num_outs + 1000 * num_utxos
}

/// Fee owed by a transaction with `num_utxos` inputs and `num_outs` outputs.
pub open spec fn fee_of(num_utxos: int, num_outs: int) -> int {
    FEE_PER_MASS * mass_of(num_utxos, num_outs)
}

/// The sum of the amounts of `s`.
pub open spec fn total(s: Seq<Utxo>) -> nat
    decreases s.len(),
{
    if s.len() == 0 {
        0
    } else {
        total(s.drop_last()) + s.last().1.amount as nat
    }
}

/// The sum of the amounts of the first `n` items of `s` (of all of them when
/// `s` is shorter).
pub open spec fn prefix_total(s: Seq<Utxo>, n: int) -> nat {
    if s.len() <= n {
        total(s)
    } else {
        total(s.take(n))
    }
}

/// The outputs of `s` whose outpoint is not in `pending`, in the order of `s`.
pub open spec fn free_of(s: Seq<Utxo>, pending: Map<Outpoint, u64>) -> Seq<Utxo>
    decreases s.len(),
{
    if s.len() == 0 {
        Seq::empty()
    } else {
        let rest = free_of(s.drop_last(), pending);
        if pending.contains_key(s.last().0) {
            rest
        } else {
            rest.push(s.last())
        }
    }
}

/// The first `k` outputs of `avail` pay `min_amount` plus the fee of a
/// transaction with `k` inputs, and `k` is a count that the mode accepts.
pub open spec fn covers(avail: Seq<Utxo>, k: int, min_amount: u64, num_outs: u64, maximize: bool) -> bool {
    &&& total(avail.take(k)) >= min_amount + fee_of(k, num_outs as int)
    &&& (!maximize || k == MAX_UTXOS as int)
}

/// `k` is the least count of inputs, no more than `MAX_UTXOS`, at which the
/// first `k` outputs of `avail` cover the amount and the fee.
pub open spec fn is_selection_count(avail: Seq<Utxo>, k: int, min_amount: u64, num_outs: u64, maximize: bool) -> bool {
    &&& 1 <= k <= MAX_UTXOS as int
    &&& k <= avail.len()
    &&& covers(avail, k, min_amount, num_outs, maximize)
    &&& forall|j: int| 1 <= j < k ==> !#[trigger] covers(avail, j, min_amount, num_outs, maximize)
}

/// No count of inputs, no more than `MAX_UTXOS`, covers the amount and the fee.
pub open spec fn nothing_covers(avail: Seq<Utxo>, min_amount: u64, num_outs: u64, maximize: bool) -> bool {
    forall|k: int|
        1 <= k <= MAX_UTXOS as int && k <= avail.len() ==> !#[trigger] covers(avail, k, min_amount, num_outs, maximize)
}

/// What a selection returns: the least covering prefix of the outputs that are
/// not pending, with the amount left once the fee is paid; or nothing.
pub open spec fn is_selection(
    utxos: Seq<Utxo>,
    pending: Map<Outpoint, u64>,
    min_amount: u64,
    num_outs: u64,
    maximize: bool,
    selected: Seq<Utxo>,
    net: u64,
) -> bool {
    let avail = free_of(utxos, pending);
    ||| (selected.len() == 0 && net == 0 && nothing_covers(avail, min_amount, num_outs, maximize))
    ||| (is_selection_count(avail, selected.len() as int, min_amount, num_outs, maximize) && selected
        == avail.take(selected.len() as int) && net == total(selected) - fee_of(
        selected.len() as int,
        num_outs as int,
    ))
}

/// Estimated mass of a transaction with `num_utxos` inputs and `num_outs` outputs.
pub fn estimated_mass(num_utxos: usize, num_outs: u64) -> (r: u64)
    requires
        mass_of(num_utxos as int, num_outs as int) <= u64::MAX,
    ensures
        r == mass_of(num_utxos as int, num_outs as int),
{
    200 + 34 * num_outs + 1000 * (num_utxos as u64)
}

/// Fee owed by a transaction with `num_utxos` inputs and `num_outs` outputs.
pub fn required_fee(num_utxos: usize, num_outs: u64) -> (r: u64)
    requires
        fee_of(num_utxos as int, num_outs as int) <= u64::MAX,
    ensures
        r == fee_of(num_utxos as int, num_outs as int),
{
    FEE_PER_MASS * estimated_mass(num_utxos, num_outs)
}

pub(crate) proof fn lemma_total_take(s: Seq<Utxo>, i: int)
    requires
        0 <= i <= s.len(),
    ensures
        total(s.take(i)) <= total(s),
    decreases s.len(),
{
    if i < s.len() {
        assert(s.drop_last().take(i) =~= s.take(i));
        lemma_total_take(s.drop_last(), i);
    } else {
        assert(s.take(i) =~= s);
    }
}

proof fn lemma_total_free(s: Seq<Utxo>, pending: Map<Outpoint, u64>)
    ensures
        total(free_of(s, pending)) <= total(s),
    decreases s.len(),
{
    if s.len() > 0 {
        lemma_total_free(s.drop_last(), pending);
        let rest = free_of(s.drop_last(), pending);
        assert(rest.push(s.last()).drop_last() =~= rest);
    }
}

proof fn lemma_free_prefix(s: Seq<Utxo>, pending: Map<Outpoint, u64>, i: int)
    requires
        0 <= i <= s.len(),
    ensures
        free_of(s.take(i), pending).len() <= free_of(s, pending).len(),
        free_of(s, pending).take(free_of(s.take(i), pending).len() as int) == free_of(s.take(i), pending),
    decreases s.len(),
{
    if i == s.len() {
        assert(s.take(i) =~= s);
        assert(free_of(s, pending).take(free_of(s, pending).len() as int) =~= free_of(s, pending));
    } else {
        assert(s.drop_last().take(i) =~= s.take(i));
        lemma_free_prefix(s.drop_last(), pending, i);
        let rest = free_of(s.drop_last(), pending);
        let n = free_of(s.take(i), pending).len() as int;
        assert(rest.push(s.last()).take(n) =~= rest.take(n));
    }
}

/// Chooses inputs for a payment of `min_amount` with `num_outs` outputs:
/// walks `utxos` in order, skips the pending ones, and stops at the first
/// count of inputs that pays the amount and the fee (and, when `maximize_utxos`
/// holds, is exactly `MAX_UTXOS`). Returns the inputs and the amount left once
/// the fee is paid, or nothing with an amount of zero.
pub fn select_utxos(
    utxos: &Vec<Utxo>,
    min_amount: u64,
    num_outs: u64,
    maximize_utxos: bool,
    pending: &PendingMap,
) -> (r: (Vec<Utxo>, u64))
    requires
        pending.wf(),
        prefix_total(free_of(utxos@, pending@), MAX_UTXOS as int + 1) <= u64::MAX,
        fee_of(MAX_UTXOS as int + 1, num_outs as int) <= u64::MAX,
    ensures
        is_selection(utxos@, pending@, min_amount, num_outs, maximize_utxos, r.0@, r.1),
{
    let ghost avail = free_of(utxos@, pending@);
    let mut selected_amount: u64 = 0;
    let mut selected: Vec<Utxo> = Vec::new();
    let mut i: usize = 0;
    while i < utxos.len()
        invariant
            pending.wf(),
            avail == free_of(utxos@, pending@),
            prefix_total(avail, MAX_UTXOS as int + 1) <= u64::MAX,
            fee_of(MAX_UTXOS as int + 1, num_outs as int) <= u64::MAX,
            i <= utxos@.len(),
            selected@ == free_of(utxos@.take(i as int), pending@),
            selected_amount == total(selected@),
            selected@.len() <= MAX_UTXOS,
            forall|k: int|
                1 <= k <= selected@.len() ==> !#[trigger] covers(selected@, k, min_amount, num_outs, maximize_utxos),
        decreases utxos@.len() - i,
    {
        let u = utxos[i];
        proof {
            assert(utxos@.take(i + 1).drop_last() =~= utxos@.take(i as int));
        }
        if !pending.contains(&u.0) {
            let ghost before = selected@;
            proof {
                assert(before.push(u).drop_last() =~= before);
                lemma_free_prefix(utxos@, pending@, i + 1);
                let n = before.len() as int + 1;
                assert(avail.take(n) == before.push(u));
                if avail.len() <= MAX_UTXOS + 1 {
                    lemma_total_take(avail, n);
                } else {
                    assert(avail.take(MAX_UTXOS as int + 1).take(n) =~= avail.take(n));
                    lemma_total_take(avail.take(MAX_UTXOS as int + 1), n);
                }
            }
            selected_amount = selected_amount + u.1.amount;
            selected.push(u);
            proof {
                assert forall|k: int| 1 <= k <= before.len() implies selected@.take(k) == before.take(k) by {
                    assert(selected@.take(k) =~= before.take(k));
                }
                assert(selected@.take(selected@.len() as int) =~= selected@);
                lemma_free_prefix(utxos@, pending@, i + 1);
            }
            if selected.len() > MAX_UTXOS {
                proof {
                    assert forall|k: int|
                        1 <= k <= MAX_UTXOS as int && k <= avail.len() implies !#[trigger] covers(
                        avail,
                        k,
                        min_amount,
                        num_outs,
                        maximize_utxos,
                    ) by {
                        assert(avail.take(k) =~= selected@.take(k));
                        assert(!covers(before, k, min_amount, num_outs, maximize_utxos));
                    }
                }
                return (Vec::new(), 0);
            }
            let fee = required_fee(selected.len(), num_outs);
            if selected_amount as u128 >= min_amount as u128 + fee as u128 && (!maximize_utxos
                || selected.len() == MAX_UTXOS) {
                proof {
                    let n = selected@.len() as int;
                    assert(avail.take(n) =~= selected@);
                    assert forall|j: int| 1 <= j < n implies !#[trigger] covers(
                        avail,
                        j,
                        min_amount,
                        num_outs,
                        maximize_utxos,
                    ) by {
                        assert(avail.take(j) =~= selected@.take(j));
                        assert(!covers(before, j, min_amount, num_outs, maximize_utxos));
                    }
                }
                return (selected, selected_amount - fee);
            }
            proof {
                assert forall|k: int| 1 <= k <= selected@.len() implies !#[trigger] covers(
                    selected@,
                    k,
                    min_amount,
                    num_outs,
                    maximize_utxos,
                ) by {
                    if k < selected@.len() {
                        assert(!covers(before, k, min_amount, num_outs, maximize_utxos));
                    }
                }
            }
        }
        i = i + 1;
    }
    proof {
        assert(utxos@.take(utxos@.len() as int) =~= utxos@);
        assert forall|k: int|
            1 <= k <= MAX_UTXOS as int && k <= avail.len() implies !#[trigger] covers(
            avail,
            k,
            min_amount,
            num_outs,
            maximize_utxos,
        ) by {
            assert(!covers(selected@, k, min_amount, num_outs, maximize_utxos));
        }
    }
    (Vec::new(), 0)
}

} // verus!

verus! {

pub(crate) proof fn lemma_free_not_pending(s: Seq<Utxo>, pending: Map<Outpoint, u64>)
    ensures
        forall|i: int|
            0 <= i < free_of(s, pending).len() ==> !pending.contains_key(#[trigger] free_of(s, pending)[i].0),
    decreases s.len(),
{
    if s.len() > 0 {
        lemma_free_not_pending(s.drop_last(), pending);
        let rest = free_of(s.drop_last(), pending);
        if !pending.contains_key(s.last().0) {
            assert forall|i: int| 0 <= i < rest.len() + 1 implies !pending.contains_key(
                #[trigger] rest.push(s.last())[i].0,
            ) by {
                if i < rest.len() {
                    assert(rest.push(s.last())[i] == rest[i]);
                }
            }
        }
    }
}

/// A selection never spends an outpoint that is pending.
pub proof fn lemma_selection_skips_pending(
    utxos: Seq<Utxo>,
    pending: Map<Outpoint, u64>,
    min_amount: u64,
    num_outs: u64,
    maximize: bool,
    selected: Seq<Utxo>,
    net: u64,
)
    requires
        is_selection(utxos, pending, min_amount, num_outs, maximize, selected, net),
    ensures
        forall|i: int| 0 <= i < selected.len() ==> !pending.contains_key(#[trigger] selected[i].0),
{
    lemma_free_not_pending(utxos, pending);
    let avail = free_of(utxos, pending);
    assert forall|i: int| 0 <= i < selected.len() implies !pending.contains_key(#[trigger] selected[i].0) by {
        assert(selected[i] == avail[i]);
    }
}

/// For a fixed number of outputs, mass and fee grow strictly with the number
/// of inputs.
pub proof fn lemma_fee_increasing(n1: int, n2: int, num_outs: int)
    requires
        0 <= n1 < n2,
        0 <= num_outs,
    ensures
        mass_of(n1, num_outs) < mass_of(n2, num_outs),
        fee_of(n1, num_outs) < fee_of(n2, num_outs),
{
}

/// A selection for a positive amount is either empty, with nothing left over,
/// or between one and `MAX_UTXOS` inputs with a positive amount left once the
/// fee is paid.
pub proof fn lemma_selection_shape(
    utxos: Seq<Utxo>,
    pending: Map<Outpoint, u64>,
    min_amount: u64,
    num_outs: u64,
    maximize: bool,
    selected: Seq<Utxo>,
    net: u64,
)
    requires
        is_selection(utxos, pending, min_amount, num_outs, maximize, selected, net),
        min_amount > 0,
    ensures
        (selected.len() == 0 && net == 0) || (1 <= selected.len() <= MAX_UTXOS && net >= min_amount && net > 0),
{
}

} // verus!
