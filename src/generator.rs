use vstd::prelude::*;

use crate::controller::{free_estimate, next_mode_of, should_maximize_inputs, should_refresh, REFRESH_INTERVAL_MS};
use crate::pending::PendingMap;
use crate::selection::{free_of, prefix_total, MAX_UTXOS};
use crate::tx::{maybe_send_tx, send_outcome, TxPlan};
use crate::types::Utxo;

verus! {

/// The state the generation loop carries from tick to tick.
pub struct Generator {
    pub maximize_inputs: bool,
    pub last_refresh: u64,
}

/// What one tick decided: the transaction to hand to the signer, if any, and
/// whether the output set is fetched again before the next tick.
pub struct TickOutcome {
    pub plan: Option<TxPlan>,
    pub refresh: bool,
}

impl Generator {
    /// A generator in the normal mode whose output set was fetched at `now`.
    pub fn new(now: u64) -> (r: Generator)
        ensures
            !r.maximize_inputs,
            r.last_refresh == now,
    {
        Generator { maximize_inputs: false, last_refresh: now }
    }

    /// One tick at time `now`: updates the consolidation mode from the
    /// current outputs and pending map, plans a transaction in that mode, and
    /// decides whether to fetch the outputs again.
    pub fn tick(&mut self, utxos: &Vec<Utxo>, pending: &mut PendingMap, now: u64) -> (r: TickOutcome)
        requires
            old(pending).wf(),
            prefix_total(free_of(utxos@, old(pending)@), MAX_UTXOS as int + 1) <= u64::MAX,
        ensures
            final(pending).wf(),
            final(self).maximize_inputs == next_mode_of(
                old(self).maximize_inputs,
                free_estimate(utxos@.len() as int, old(pending)@.dom().len() as int),
            ),
            final(self).last_refresh == old(self).last_refresh,
            send_outcome(utxos@, old(pending)@, final(pending)@, final(self).maximize_inputs, now, r.plan),
            r.refresh == (r.plan.is_none() || now as int - old(self).last_refresh as int
                > REFRESH_INTERVAL_MS as int),
    {
        self.maximize_inputs = should_maximize_inputs(self.maximize_inputs, utxos, pending);
        let plan = maybe_send_tx(utxos, pending, self.maximize_inputs, now);
        let has_funds = plan.is_some();
        let refresh = should_refresh(has_funds, now, self.last_refresh);
        TickOutcome { plan, refresh }
    }

    /// Records that the output set was fetched again at `now`.
    pub fn refreshed(&mut self, now: u64)
        ensures
            final(self).maximize_inputs == old(self).maximize_inputs,
            final(self).last_refresh == now,
    {
        self.last_refresh = now;
    }
}

} // verus!
