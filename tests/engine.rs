use rothschild::controller::{estimated_free_utxos, mempool_is_full, next_mode, should_maximize_inputs, should_refresh};
use rothschild::generator::Generator;
use rothschild::pending::{clean_old_pending_outpoints, PendingMap};
use rothschild::selection::{estimated_mass, required_fee, select_utxos, MAX_UTXOS};
use rothschild::spend::{is_utxo_spendable, spendable_sorted};
use rothschild::stats::Stats;
use rothschild::tx::{generate_outputs, maybe_send_tx, DEFAULT_SEND_AMOUNT};
use rothschild::types::{Outpoint, Utxo, UtxoEntry};

fn op(n: u8) -> Outpoint {
    Outpoint { transaction_id: [n; 32], index: n as u32 }
}

fn utxo(n: u8, amount: u64) -> Utxo {
    (op(n), UtxoEntry { amount, block_daa_score: 0, is_coinbase: false })
}

#[test]
fn selection_example_picks_largest() {
    let utxos = vec![utxo(1, 100_000), utxo(2, 50_000), utxo(3, 20_000)];
    let pending = PendingMap::new();
    let (selected, net) = select_utxos(&utxos, 10_000, 2, false, &pending);
    assert_eq!(selected.len(), 1);
    assert_eq!(selected[0].0, op(1));
    assert_eq!(selected[0].1.amount, 100_000);
    assert_eq!(net, 87_320);
}

#[test]
fn selection_skips_pending_outpoints() {
    let utxos = vec![utxo(1, 100_000), utxo(2, 50_000), utxo(3, 20_000)];
    let mut pending = PendingMap::new();
    pending.insert(op(1), 5);
    let (selected, net) = select_utxos(&utxos, 10_000, 2, false, &pending);
    assert_eq!(selected.len(), 1);
    assert_eq!(selected[0].0, op(2));
    assert_eq!(net, 50_000 - 12_680);
    pending.insert(op(2), 5);
    let (selected, net) = select_utxos(&utxos, 10_000, 2, false, &pending);
    assert!(selected.iter().all(|u| !pending.contains(&u.0)));
    assert!(selected.is_empty());
    assert_eq!(net, 0);
}

#[test]
fn selection_accumulates_small_outputs() {
    let utxos = vec![utxo(1, 15_000), utxo(2, 15_000), utxo(3, 15_000)];
    let pending = PendingMap::new();
    // one input: 15000 < 10000 + 12680; two: 30000 < 10000 + 22680;
    // three: 45000 >= 10000 + 32680
    let (selected, net) = select_utxos(&utxos, 10_000, 2, false, &pending);
    assert_eq!(selected.len(), 3);
    assert_eq!(net, 45_000 - 32_680);
}

#[test]
fn selection_empty_when_funds_run_out() {
    let utxos = vec![utxo(1, 5_000), utxo(2, 4_000)];
    let pending = PendingMap::new();
    let (selected, net) = select_utxos(&utxos, 10_000, 2, false, &pending);
    assert!(selected.is_empty());
    assert_eq!(net, 0);
    let (selected, net) = select_utxos(&Vec::new(), 10_000, 2, false, &pending);
    assert!(selected.is_empty());
    assert_eq!(net, 0);
}

#[test]
fn maximizing_selection_takes_the_cap() {
    let utxos: Vec<Utxo> = (0..100u8).map(|i| utxo(i, 1_000_000)).collect();
    let pending = PendingMap::new();
    let (selected, net) = select_utxos(&utxos, 10_000, 1, true, &pending);
    assert_eq!(selected.len(), MAX_UTXOS);
    assert_eq!(selected.len(), 84);
    let fee = 10 * (200 + 34 + 1000 * 84);
    assert_eq!(net, 84 * 1_000_000 - fee);
    assert_eq!(selected[83].0, op(83));
}

#[test]
fn maximizing_selection_empty_below_cap() {
    let utxos: Vec<Utxo> = (0..50u8).map(|i| utxo(i, 1_000_000)).collect();
    let pending = PendingMap::new();
    let (selected, net) = select_utxos(&utxos, 10_000, 1, true, &pending);
    assert!(selected.is_empty());
    assert_eq!(net, 0);
}

#[test]
fn selection_never_exceeds_cap() {
    // 84 inputs of 10150 pay 852600 < 852680; 85 would pay, but exceed the cap
    let utxos: Vec<Utxo> = (0..90u8).map(|i| utxo(i, 10_150)).collect();
    let pending = PendingMap::new();
    let (selected, net) = select_utxos(&utxos, 10_000, 2, false, &pending);
    assert!(selected.is_empty());
    assert_eq!(net, 0);
}

#[test]
fn mass_and_fee_values() {
    assert_eq!(estimated_mass(1, 2), 1_268);
    assert_eq!(required_fee(1, 2), 12_680);
    assert_eq!(estimated_mass(0, 0), 200);
    assert_eq!(required_fee(84, 1), 10 * (200 + 34 + 84_000));
}

#[test]
fn fee_grows_with_inputs() {
    for outs in 1..4u64 {
        for n in 0..90usize {
            assert!(estimated_mass(n, outs) < estimated_mass(n + 1, outs));
            assert!(required_fee(n, outs) < required_fee(n + 1, outs));
        }
    }
}

#[test]
fn pending_sweep_boundary() {
    let t: u64 = 1_000;
    let mut pending = PendingMap::new();
    pending.insert(op(7), t);
    pending.remove_expired(t + 3_600_000);
    assert!(pending.contains(&op(7)));
    assert_eq!(pending.len(), 1);
    pending.remove_expired(t + 3_600_001);
    assert!(!pending.contains(&op(7)));
    assert_eq!(pending.len(), 0);
}

#[test]
fn pending_insert_overwrites() {
    let mut pending = PendingMap::new();
    pending.insert(op(1), 10);
    pending.insert(op(2), 10);
    pending.insert(op(1), 5_000_000);
    assert_eq!(pending.len(), 2);
    pending.remove_expired(3_600_011);
    assert!(pending.contains(&op(1)));
    assert!(!pending.contains(&op(2)));
    assert_eq!(pending.len(), 1);
}

#[test]
fn pending_insert_all_marks_each() {
    let mut pending = PendingMap::new();
    pending.insert_all(&vec![op(1), op(2), op(1)], 42);
    assert_eq!(pending.len(), 2);
    assert!(pending.contains(&op(1)));
    assert!(pending.contains(&op(2)));
    assert!(!pending.contains(&op(3)));
}

#[test]
fn outpoints_differ_by_id_or_index() {
    let a = op(1);
    let mut b = op(1);
    assert_eq!(a, b);
    b.index = 2;
    assert_ne!(a, b);
    let mut c = op(1);
    c.transaction_id[31] = 9;
    assert_ne!(a, c);
}

#[test]
fn controller_hysteresis() {
    assert!(next_mode(false, 1_000_001));
    assert!(!next_mode(true, 499_999));
    assert!(!next_mode(false, 700_000));
    assert!(next_mode(true, 700_000));
    assert!(!next_mode(false, 1_000_000));
    assert!(next_mode(true, 500_000));
}

#[test]
fn free_estimate_saturates() {
    assert_eq!(estimated_free_utxos(10, 3), 7);
    assert_eq!(estimated_free_utxos(3, 10), 0);
    assert_eq!(estimated_free_utxos(5, 5), 0);
}

#[test]
fn should_maximize_uses_free_estimate() {
    let utxos = vec![utxo(1, 1), utxo(2, 2)];
    let pending = PendingMap::new();
    assert!(!should_maximize_inputs(false, &utxos, &pending));
    assert!(!should_maximize_inputs(true, &utxos, &pending));
}

#[test]
fn spendability_thresholds() {
    let plain = UtxoEntry { amount: 1, block_daa_score: 100, is_coinbase: false };
    assert!(is_utxo_spendable(&plain, 111, 1_000));
    assert!(!is_utxo_spendable(&plain, 110, 1_000));
    let coinbase = UtxoEntry { amount: 1, block_daa_score: 100, is_coinbase: true };
    assert!(is_utxo_spendable(&coinbase, 301, 100));
    assert!(!is_utxo_spendable(&coinbase, 300, 100));
    assert!(!is_utxo_spendable(&coinbase, 111, 100));
    let huge = UtxoEntry { amount: 1, block_daa_score: u64::MAX, is_coinbase: true };
    assert!(!is_utxo_spendable(&huge, u64::MAX, u64::MAX));
}

#[test]
fn spendable_sorted_filters_and_orders() {
    let mut young = utxo(4, 70_000);
    young.1.block_daa_score = 95;
    let mut reward = utxo(5, 90_000);
    reward.1.is_coinbase = true;
    let entries = vec![utxo(1, 20_000), young, utxo(2, 100_000), reward, utxo(3, 50_000)];
    let sorted = spendable_sorted(&entries, 100, 1_000);
    let amounts: Vec<u64> = sorted.iter().map(|u| u.1.amount).collect();
    assert_eq!(amounts, vec![100_000, 50_000, 20_000]);
    assert_eq!(sorted[0].0, op(2));
}

#[test]
fn generated_outputs_split_send_amount() {
    assert_eq!(generate_outputs(10_000, 2), vec![5_000, 5_000]);
    assert_eq!(generate_outputs(10_000, 1), vec![10_000]);
    let three = generate_outputs(10_000, 3);
    assert_eq!(three, vec![3_333, 3_333, 3_333]);
    assert_eq!(three.iter().sum::<u64>(), 9_999);
}

#[test]
fn send_step_marks_inputs_pending() {
    let utxos = vec![utxo(1, 100_000), utxo(2, 50_000), utxo(3, 20_000)];
    let mut pending = PendingMap::new();
    let plan = maybe_send_tx(&utxos, &mut pending, false, 77).unwrap();
    assert_eq!(plan.inputs.len(), 1);
    assert_eq!(plan.inputs[0].0, op(1));
    assert_eq!(plan.outputs, vec![DEFAULT_SEND_AMOUNT / 2, DEFAULT_SEND_AMOUNT / 2]);
    assert!(pending.contains(&op(1)));
    assert_eq!(pending.len(), 1);
    let plan = maybe_send_tx(&utxos, &mut pending, false, 78).unwrap();
    assert_eq!(plan.inputs[0].0, op(2));
    assert_eq!(pending.len(), 2);
    assert!(maybe_send_tx(&utxos, &mut pending, false, 79).is_none());
    assert_eq!(pending.len(), 2);
}

#[test]
fn tick_decides_refresh() {
    let utxos = vec![utxo(1, 100_000)];
    let mut pending = PendingMap::new();
    let mut g = Generator::new(1_000);
    let out = g.tick(&utxos, &mut pending, 2_000);
    assert!(out.plan.is_some());
    assert!(!out.refresh);
    assert!(!g.maximize_inputs);
    let out = g.tick(&utxos, &mut pending, 3_000);
    assert!(out.plan.is_none());
    assert!(out.refresh);
    g.refreshed(3_100);
    assert_eq!(g.last_refresh, 3_100);
    pending.remove_expired(3_600_000 + 2_001);
    let out = g.tick(&utxos, &mut pending, 63_101);
    assert!(out.plan.is_some());
    assert!(out.refresh);
}

#[test]
fn refresh_and_mempool_rules() {
    assert!(should_refresh(false, 0, 0));
    assert!(!should_refresh(true, 60_000, 0));
    assert!(should_refresh(true, 60_001, 0));
    assert!(!should_refresh(true, 5, 10));
    assert!(mempool_is_full(10_000));
    assert!(!mempool_is_full(9_999));
}

#[test]
fn stats_report_after_window() {
    let mut stats = Stats::new(0);
    assert!(stats.record(2, 30_000, 2, 10_000, 5).is_none());
    assert_eq!(stats.num_txs, 1);
    assert!(stats.record(4, 60_000, 1, 50_000, 5).is_none());
    let report = stats.record(3, 30_000, 2, 50_001, 9).unwrap();
    assert_eq!(report.elapsed_ms, 50_001);
    assert_eq!(report.num_txs, 3);
    assert_eq!(report.avg_utxo_amount, 120_000 / 9);
    assert_eq!(report.avg_utxos_per_tx, 3);
    assert_eq!(report.avg_outs_per_tx, 1);
    assert_eq!(report.estimated_available, 9);
    assert_eq!(stats.num_txs, 0);
    assert_eq!(stats.num_utxos, 0);
    assert_eq!(stats.utxos_amount, 0);
    assert_eq!(stats.num_outs, 0);
    assert_eq!(stats.since, 50_001);
}

#[test]
fn tick_sweep_drops_old_and_keeps_recent() {
    let mut pending = PendingMap::new();
    pending.insert(op(1), 0);
    pending.insert(op(2), 7_200_000);
    clean_old_pending_outpoints(&mut pending, 7_200_001);
    assert!(!pending.contains(&op(1)));
    assert!(pending.contains(&op(2)));
    assert_eq!(pending.len(), 1);
}

#[test]
fn plan_amount_used_sums_inputs() {
    let utxos = vec![utxo(1, 15_000), utxo(2, 15_000), utxo(3, 15_000)];
    let mut pending = PendingMap::new();
    let plan = maybe_send_tx(&utxos, &mut pending, false, 1).unwrap();
    assert_eq!(plan.inputs.len(), 3);
    assert_eq!(plan.amount_used(), Some(45_000));
}

#[test]
fn successive_steps_use_distinct_inputs() {
    let utxos: Vec<Utxo> = (0..10u8).map(|i| utxo(i, 30_000)).collect();
    let mut pending = PendingMap::new();
    let first = maybe_send_tx(&utxos, &mut pending, false, 1).unwrap();
    let second = maybe_send_tx(&utxos, &mut pending, false, 2).unwrap();
    assert!(!first.inputs.is_empty() && !second.inputs.is_empty());
    for a in &first.inputs {
        for b in &second.inputs {
            assert_ne!(a.0, b.0);
        }
    }
}

#[test]
fn spendable_sorted_keeps_order_of_equal_amounts() {
    let entries = vec![utxo(1, 500), utxo(2, 900), utxo(3, 500), utxo(4, 900), utxo(5, 500)];
    let sorted = spendable_sorted(&entries, 100, 1_000);
    let ids: Vec<u8> = sorted.iter().map(|u| u.0.transaction_id[0]).collect();
    assert_eq!(ids, vec![2, 4, 1, 3, 5]);
}
