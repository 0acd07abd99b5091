//! Sampling of the memory-pressure metric.
//!
//! Pressure is a fraction of physical memory in use, carried as an integer in
//! per-mille units: 0 stands for an idle machine, 1000 for exhausted memory.
//! The probe may misbehave, so a raw sample is clamped into `[0, 1000]`
//! before anything is decided from it.

use vstd::arithmetic::div_mod::{lemma_div_is_ordered, lemma_div_multiples_vanish};
use vstd::prelude::*;

verus! {

/// A neutral pressure, reported when the memory probe fails.
pub const NEUTRAL_PERMILLE: i64 = 500;

pub open spec fn clamp_spec(p: int) -> int {
    if p < 0 {
        0
    } else if p > 1000 {
        1000
    } else {
        p
    }
}

/// Clamp a raw pressure sample into `[0, 1000]` per-mille: negative samples
/// become 0, samples above 1000 become 1000, in-range samples pass unchanged.
pub fn clamp_permille(p: i64) -> (r: u32)
    ensures
        r == clamp_spec(p as int),
{
    if p < 0 {
        0
    } else if p > 1000 {
        1000
    } else {
        p as u32
    }
}

/// The fraction of memory in use, in per-mille, given available and total
/// memory. A probe that reports no memory at all (`total == 0`) yields the
/// neutral value, and one that reports more available than total yields 0.
pub open spec fn usage_spec(avail: u64, total: u64) -> int {
    if total == 0 {
        NEUTRAL_PERMILLE as int
    } else if avail >= total {
        0
    } else {
        (total - avail) * 1000 / (total as int)
    }
}

/// Compute the memory pressure from one probe reading.
pub fn usage_permille(avail: u64, total: u64) -> (r: i64)
    ensures
        r == usage_spec(avail, total),
        0 <= r <= 1000,
{
    if total == 0 {
        NEUTRAL_PERMILLE
    } else if avail >= total {
        0
    } else {
        let used: u64 = total - avail;
        let q: u128 = (used as u128) * 1000 / (total as u128);
        proof {
            lemma_div_is_ordered(used * 1000, (total as int) * 1000, total as int);
            lemma_div_multiples_vanish(1000, total as int);
        }
        q as i64
    }
}

/// Relies on sys_info::mem_info: it reads the machine's memory counters and
/// reports available and total physical memory, or an error when the probe
/// fails. Nothing is assumed of the values it yields.
#[verifier::external_body]
fn mem_sample() -> (r: Option<(u64, u64)>) {
    match sys_info::mem_info() {
        Ok(m) => Some((m.avail, m.total)),
        Err(_) => None,
    }
}

/// The pressure derived from one probe outcome: the neutral value when the
/// probe failed, the exact usage fraction of its reading otherwise. A failed
/// probe is not retried.
pub fn usage_of_sample(sample: Option<(u64, u64)>) -> (r: i64)
    ensures
        sample is None ==> r == NEUTRAL_PERMILLE,
        sample matches Some((avail, total)) ==> r == usage_spec(avail, total),
        0 <= r <= 1000,
{
    match sample {
        Some((avail, total)) => usage_permille(avail, total),
        None => NEUTRAL_PERMILLE,
    }
}

/// Sample the current memory pressure, in per-mille: the probe's reading,
/// folded through [`usage_of_sample`], as a best-effort value.
pub fn ram_usage() -> (r: i64)
    ensures
        0 <= r <= 1000,
{
    usage_of_sample(mem_sample())
}

} // verus!
