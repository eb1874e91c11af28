use vstd::prelude::*;

use crate::types::{Utxo, UtxoEntry};

verus! {

/// Confirmations an ordinary output needs before it is spent.
pub const REQUIRED_CONFIRMATIONS: u64 = 10;

/// Confirmations that `entry` needs: `REQUIRED_CONFIRMATIONS`, or twice the
/// coinbase maturity for a block reward.
pub open spec fn needed_confirmations(entry: UtxoEntry, coinbase_maturity: u64) -> int {
    if !entry.is_coinbase {
        REQUIRED_CONFIRMATIONS as int
    } else {
        2 * coinbase_maturity
    }
}

/// `entry` may be spent once the virtual DAA score lies beyond its creation
/// score plus the confirmations it needs.
pub open spec fn spendable(entry: UtxoEntry, virtual_daa_score: u64, coinbase_maturity: u64) -> bool {
    entry.block_daa_score + needed_confirmations(entry, coinbase_maturity) < virtual_daa_score
}

/// The spendable outputs of `s`, in the order of `s`.
pub open spec fn spendable_of(s: Seq<Utxo>, virtual_daa_score: u64, coinbase_maturity: u64) -> Seq<Utxo>
    decreases s.len(),
{
    if s.len() == 0 {
        Seq::empty()
    } else {
        let rest = spendable_of(s.drop_last(), virtual_daa_score, coinbase_maturity);
        if spendable(s.last().1, virtual_daa_score, coinbase_maturity) {
            rest.push(s.last())
        } else {
            rest
        }
    }
}

/// Amounts never grow along `s`.
pub open spec fn sorted_desc(s: Seq<Utxo>) -> bool {
    forall|a: int, b: int| 0 <= a < b < s.len() ==> #[trigger] s[a].1.amount >= #[trigger] s[b].1.amount
}

/// The items of `s` whose amount is `v`, in the order of `s`.
pub open spec fn of_amount(s: Seq<Utxo>, v: u64) -> Seq<Utxo>
    decreases s.len(),
{
    if s.len() == 0 {
        Seq::empty()
    } else {
        let rest = of_amount(s.drop_last(), v);
        if s.last().1.amount == v {
            rest.push(s.last())
        } else {
            rest
        }
    }
}

proof fn lemma_of_amount_add(a: Seq<Utxo>, b: Seq<Utxo>, v: u64)
    ensures
        of_amount(a + b, v) == of_amount(a, v) + of_amount(b, v),
    decreases b.len(),
{
    if b.len() == 0 {
        assert(a + b =~= a);
        assert(of_amount(a, v) + of_amount(b, v) =~= of_amount(a, v));
    } else {
        assert((a + b).drop_last() =~= a + b.drop_last());
        lemma_of_amount_add(a, b.drop_last(), v);
        assert(of_amount(a, v) + of_amount(b.drop_last(), v).push(b.last()) =~= (of_amount(a, v)
            + of_amount(b.drop_last(), v)).push(b.last()));
    }
}

proof fn lemma_of_amount_none(s: Seq<Utxo>, v: u64)
    requires
        forall|i: int| 0 <= i < s.len() ==> #[trigger] s[i].1.amount != v,
    ensures
        of_amount(s, v) == Seq::<Utxo>::empty(),
    decreases s.len(),
{
    if s.len() > 0 {
        lemma_of_amount_none(s.drop_last(), v);
    }
}

/// Inserting `u` at `j` in `s`, where everything from `j` on is smaller
/// than `u`, appends `u` to the items of its own amount and leaves the rest.
proof fn lemma_of_amount_insert(s: Seq<Utxo>, j: int, u: Utxo, v: u64)
    requires
        0 <= j <= s.len(),
        forall|k: int| j <= k < s.len() ==> #[trigger] s[k].1.amount < u.1.amount,
    ensures
        of_amount(s.insert(j, u), v) == if v == u.1.amount {
            of_amount(s, v).push(u)
        } else {
            of_amount(s, v)
        },
{
    let head = s.take(j);
    let tail = s.skip(j);
    assert(s =~= head + tail);
    assert(s.insert(j, u) =~= head.push(u) + tail);
    lemma_of_amount_add(head, tail, v);
    lemma_of_amount_add(head.push(u), tail, v);
    assert(head.push(u).drop_last() =~= head);
    if v == u.1.amount {
        assert forall|i: int| 0 <= i < tail.len() implies #[trigger] tail[i].1.amount != v by {
            assert(tail[i] == s[j + i]);
        }
        lemma_of_amount_none(tail, v);
        assert(of_amount(head, v) + Seq::<Utxo>::empty() =~= of_amount(head, v));
        assert(of_amount(head, v).push(u) + Seq::<Utxo>::empty() =~= of_amount(head, v).push(u));
    }
}

/// Whether `entry` may be spent at virtual DAA score `virtual_daa_score`.
pub fn is_utxo_spendable(entry: &UtxoEntry, virtual_daa_score: u64, coinbase_maturity: u64) -> (r: bool)
    ensures
        r == spendable(*entry, virtual_daa_score, coinbase_maturity),
{
    let needed_confs: u128 = if !entry.is_coinbase {
        REQUIRED_CONFIRMATIONS as u128
    } else {
        coinbase_maturity as u128 * 2
    };
    (entry.block_daa_score as u128) + needed_confs < virtual_daa_score as u128
}

/// The spendable outputs of `entries`, sorted by amount from the largest down;
/// outputs of equal amount keep their order.
pub fn spendable_sorted(entries: &Vec<Utxo>, virtual_daa_score: u64, coinbase_maturity: u64) -> (r: Vec<Utxo>)
    ensures
        sorted_desc(r@),
        forall|v: u64|
            #[trigger] of_amount(r@, v) == of_amount(
                spendable_of(entries@, virtual_daa_score, coinbase_maturity),
                v,
            ),
        r@.to_multiset() == spendable_of(entries@, virtual_daa_score, coinbase_maturity).to_multiset(),
{
    broadcast use vstd::seq_lib::group_to_multiset_ensures;

    let mut out: Vec<Utxo> = Vec::new();
    let mut i: usize = 0;
    while i < entries.len()
        invariant
            i <= entries@.len(),
            sorted_desc(out@),
            out@.to_multiset() == spendable_of(entries@.take(i as int), virtual_daa_score, coinbase_maturity).to_multiset(),
            forall|v: u64|
                #[trigger] of_amount(out@, v) == of_amount(
                    spendable_of(entries@.take(i as int), virtual_daa_score, coinbase_maturity),
                    v,
                ),
        decreases entries@.len() - i,
    {
        let u = entries[i];
        proof {
            assert(entries@.take(i + 1).drop_last() =~= entries@.take(i as int));
        }
        if is_utxo_spendable(&u.1, virtual_daa_score, coinbase_maturity) {
            let mut j: usize = 0;
            while j < out.len() && out[j].1.amount >= u.1.amount
                invariant
                    j <= out@.len(),
                    forall|k: int| 0 <= k < j ==> #[trigger] out@[k].1.amount >= u.1.amount,
                decreases out@.len() - j,
            {
                j = j + 1;
            }
            let ghost before = out@;
            out.insert(j, u);
            proof {
                assert(out@ == before.insert(j as int, u));
                assert forall|k: int| j <= k < before.len() implies #[trigger] before[k].1.amount < u.1.amount by {
                    if k > j {
                        assert(before[j as int].1.amount >= before[k].1.amount);
                    }
                }
                let prev = spendable_of(entries@.take(i as int), virtual_daa_score, coinbase_maturity);
                assert forall|v: u64| #[trigger] of_amount(out@, v) == of_amount(prev.push(u), v) by {
                    lemma_of_amount_insert(before, j as int, u, v);
                    assert(prev.push(u).drop_last() =~= prev);
                }
                vstd::seq_lib::to_multiset_insert(before, j as int, u);
                vstd::seq_lib::to_multiset_build(
                    spendable_of(entries@.take(i as int), virtual_daa_score, coinbase_maturity),
                    u,
                );
                assert forall|a: int, b: int| 0 <= a < b < out@.len() implies #[trigger] out@[a].1.amount
                    >= #[trigger] out@[b].1.amount by {
                    if b < j {
                        assert(out@[a] == before[a] && out@[b] == before[b]);
                    } else if b == j {
                        assert(out@[a] == before[a]);
                    } else if a < j {
                        assert(out@[a] == before[a] && out@[b] == before[b - 1]);
                    } else if a == j {
                        assert(out@[b] == before[b - 1]);
                        assert(before[j as int].1.amount < u.1.amount);
                        if b - 1 > j {
                            assert(before[j as int].1.amount >= before[b - 1].1.amount);
                        }
                    } else {
                        assert(out@[a] == before[a - 1] && out@[b] == before[b - 1]);
                    }
                }
            }
        }
        i = i + 1;
    }
    proof {
        assert(entries@.take(entries@.len() as int) =~= entries@);
    }
    out
}

} // verus!
