use vstd::prelude::*;

use crate::pending::PendingMap;
use crate::types::Utxo;

verus! {

/// Above this many free outputs the generator starts to consolidate.
pub const MAXIMIZE_ENTER_THRESHOLD: usize = 1_000_000;

/// Below this many free outputs the generator stops consolidating.
pub const MAXIMIZE_EXIT_THRESHOLD: usize = 500_000;

/// Milliseconds after which the output set is fetched again.
pub const REFRESH_INTERVAL_MS: u64 = 60_000;

/// Mempool size at which generation pauses.
pub const MEMPOOL_PAUSE_THRESHOLD: u64 = 10_000;

/// The controller's next mode: enter consolidation above the upper threshold,
/// leave it below the lower one, otherwise stay.
pub open spec fn next_mode_of(currently_maximizing: bool, estimated_free: int) -> bool {
    if !currently_maximizing && estimated_free > MAXIMIZE_ENTER_THRESHOLD as int {
        true
    } else if currently_maximizing && estimated_free < MAXIMIZE_EXIT_THRESHOLD as int {
        false
    } else {
        currently_maximizing
    }
}

/// The number of known outputs less the number in flight, or zero.
pub open spec fn free_estimate(utxos_len: int, pending_len: int) -> int {
    if utxos_len > pending_len {
        utxos_len - pending_len
    } else {
        0
    }
}

/// Estimated count of outputs that are free to spend.
pub fn estimated_free_utxos(utxos_len: usize, pending_len: usize) -> (r: usize)
    ensures
        r == free_estimate(utxos_len as int, pending_len as int),
{
    if utxos_len > pending_len {
        utxos_len - pending_len
    } else {
        0
    }
}

/// The hysteresis step of the consolidation controller.
pub fn next_mode(currently_maximizing: bool, estimated_free: usize) -> (r: bool)
    ensures
        r == next_mode_of(currently_maximizing, estimated_free as int),
{
    if !currently_maximizing && estimated_free > MAXIMIZE_ENTER_THRESHOLD {
        true
    } else if currently_maximizing && estimated_free < MAXIMIZE_EXIT_THRESHOLD {
        false
    } else {
        currently_maximizing
    }
}

/// Whether the next transaction should spend as many inputs as it may, given
/// the current mode, the known outputs and those in flight.
pub fn should_maximize_inputs(old_value: bool, utxos: &Vec<Utxo>, pending: &PendingMap) -> (r: bool)
    requires
        pending.wf(),
    ensures
        r == next_mode_of(old_value, free_estimate(utxos@.len() as int, pending@.dom().len() as int)),
{
    next_mode(old_value, estimated_free_utxos(utxos.len(), pending.len()))
}

/// Whether the output set is fetched again after a tick: when the tick found
/// no funds, or when more than `REFRESH_INTERVAL_MS` passed since the last fetch.
pub fn should_refresh(has_funds: bool, now: u64, last_refresh: u64) -> (r: bool)
    ensures
        r == (!has_funds || now as int - last_refresh as int > REFRESH_INTERVAL_MS as int),
{
    !has_funds || (now > last_refresh && now - last_refresh > REFRESH_INTERVAL_MS)
}

/// Whether generation pauses for a mempool of `mempool_size` entries.
pub fn mempool_is_full(mempool_size: u64) -> (r: bool)
    ensures
        r == (mempool_size >= MEMPOOL_PAUSE_THRESHOLD),
{
    mempool_size >= MEMPOOL_PAUSE_THRESHOLD
}

} // verus!
