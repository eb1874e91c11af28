use vstd::prelude::*;

verus! {

/// Length of the reporting window, in milliseconds.
pub const REPORT_WINDOW_MS: u64 = 50_000;

/// Rolling counters of submitted transactions since `since` (milliseconds).
pub struct Stats {
    pub num_txs: u64,
    pub num_utxos: u64,
    pub utxos_amount: u64,
    pub num_outs: u64,
    pub since: u64,
}

/// A throughput report over one window. The rate in transactions per second
/// is `1000 * num_txs / elapsed_ms`.
pub struct Report {
    pub elapsed_ms: u64,
    pub num_txs: u64,
    pub avg_utxo_amount: u64,
    pub avg_utxos_per_tx: u64,
    pub avg_outs_per_tx: u64,
    pub estimated_available: usize,
}

impl Stats {
    /// Empty counters whose window opens at `now`.
    pub fn new(now: u64) -> (r: Stats)
        ensures
            r.num_txs == 0 && r.num_utxos == 0 && r.utxos_amount == 0 && r.num_outs == 0,
            r.since == now,
    {
        Stats { num_txs: 0, num_utxos: 0, utxos_amount: 0, num_outs: 0, since: now }
    }

    /// Counts one submitted transaction with `num_inputs` inputs spending
    /// `amount_used` in all and `num_outs` outputs, at time `now`. Once more
    /// than `REPORT_WINDOW_MS` passed since the window opened, returns the
    /// window's report and opens a new window at `now`.
    pub fn record(&mut self, num_inputs: u64, amount_used: u64, num_outs: u64, now: u64, estimated_available: usize) -> (r:
        Option<Report>)
        requires
            num_inputs > 0,
            old(self).num_txs < u64::MAX,
            old(self).num_utxos + num_inputs <= u64::MAX,
            old(self).utxos_amount + amount_used <= u64::MAX,
            old(self).num_outs + num_outs <= u64::MAX,
        ensures
            ({
                let txs = old(self).num_txs + 1;
                let utxos = old(self).num_utxos + num_inputs;
                let amount = old(self).utxos_amount + amount_used;
                let outs = old(self).num_outs + num_outs;
                if now as int - old(self).since as int > REPORT_WINDOW_MS as int {
                    &&& r == Some(
                        Report {
                            elapsed_ms: (now - old(self).since) as u64,
                            num_txs: txs as u64,
                            avg_utxo_amount: (amount / utxos) as u64,
                            avg_utxos_per_tx: (utxos / txs) as u64,
                            avg_outs_per_tx: (outs / txs) as u64,
                            estimated_available,
                        },
                    )
                    &&& final(self).num_txs == 0 && final(self).num_utxos == 0
                    &&& final(self).utxos_amount == 0 && final(self).num_outs == 0
                    &&& final(self).since == now
                } else {
                    &&& r.is_none()
                    &&& final(self).num_txs == txs && final(self).num_utxos == utxos
                    &&& final(self).utxos_amount == amount && final(self).num_outs == outs
                    &&& final(self).since == old(self).since
                }
            }),
    {
        self.num_txs = self.num_txs + 1;
        self.num_utxos = self.num_utxos + num_inputs;
        self.utxos_amount = self.utxos_amount + amount_used;
        self.num_outs = self.num_outs + num_outs;
        if now > self.since && now - self.since > REPORT_WINDOW_MS {
            let report = Report {
                elapsed_ms: now - self.since,
                num_txs: self.num_txs,
                avg_utxo_amount: self.utxos_amount / self.num_utxos,
                avg_utxos_per_tx: self.num_utxos / self.num_txs,
                avg_outs_per_tx: self.num_outs / self.num_txs,
                estimated_available,
            };
            self.since = now;
            self.num_txs = 0;
            self.num_utxos = 0;
            self.utxos_amount = 0;
            self.num_outs = 0;
            Some(report)
        } else {
            None
        }
    }
}

} // verus!
