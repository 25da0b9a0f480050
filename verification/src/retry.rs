//! Retries of batchexecute calls: how many attempts are made, how long the
//! client waits before each, and what it reports when all of them failed.

use vstd::prelude::*;
use crate::text::{decimal, owned, push_decimal, push_str};

verus! {

/// Retries after the first attempt of a batchexecute call.
pub const MAX_RETRIES: u32 = 3;

/// The longest wait before a retry, in milliseconds.
pub const MAX_RETRY_DELAY_MS: u64 = 30000;

/// `2` to the power `k`.
pub open spec fn two_pow(k: nat) -> nat
    decreases k,
{
    if k == 0 {
        1
    } else {
        2 * two_pow((k - 1) as nat)
    }
}

/// The base wait before attempt `attempt`, in seconds: doubling with each
/// attempt, at most 64 seconds.
pub open spec fn base_delay_secs(attempt: u32) -> nat {
    two_pow(if attempt < 6 { attempt as nat } else { 6 })
}

/// The wait before attempt `attempt` (counted from 0) in milliseconds: none
/// before the first; otherwise the base delay plus `jitter_ms`, capped at
/// 30 seconds.
pub open spec fn retry_delay(attempt: u32, jitter_ms: u64) -> nat {
    if attempt == 0 {
        0
    } else {
        let total: nat = base_delay_secs(attempt) * 1000 + jitter_ms as nat;
        if total < MAX_RETRY_DELAY_MS {
            total
        } else {
            MAX_RETRY_DELAY_MS as nat
        }
    }
}

/// The wait before attempt `attempt`, given the random jitter (which the
/// caller draws between 100 and 999 milliseconds).
pub fn retry_delay_ms(attempt: u32, jitter_ms: u64) -> (r: u64)
    ensures
        r == retry_delay(attempt, jitter_ms),
        r <= MAX_RETRY_DELAY_MS,
{
    if attempt == 0 {
        return 0;
    }
    let k: u32 = if attempt < 6 { attempt } else { 6 };
    proof {
        reveal_with_fuel(two_pow, 7);
    }
    let base: u64 = match k {
        1 => 2,
        2 => 4,
        3 => 8,
        4 => 16,
        5 => 32,
        _ => 64,
    };
    assert(base == base_delay_secs(attempt));
    let millis: u64 = base * 1000;
    if millis >= MAX_RETRY_DELAY_MS || jitter_ms >= MAX_RETRY_DELAY_MS - millis {
        MAX_RETRY_DELAY_MS
    } else {
        millis + jitter_ms
    }
}

/// Whether another attempt follows a failed one.
pub fn should_retry(attempt: u32, max_retries: u32) -> (r: bool)
    ensures
        r == (attempt < max_retries),
{
    attempt < max_retries
}

/// The error reported when every attempt failed.
pub open spec fn retries_failed_text(max_retries: u32, last_error: Seq<char>) -> Seq<char> {
    "Failed after "@ + decimal(max_retries as nat + 1) + " retries: "@ + last_error
}

pub fn retries_failed(max_retries: u32, last_error: &str) -> (r: String)
    ensures
        r@ == retries_failed_text(max_retries, last_error@),
{
    let mut out = owned("Failed after ");
    push_decimal(&mut out, max_retries as u64 + 1);
    push_str(&mut out, " retries: ");
    push_str(&mut out, last_error);
    out
}

/// The wait never exceeds 30 seconds and never shrinks from one retry to the
/// next for the same jitter.
pub proof fn law_retry_delay_grows(attempt: u32, jitter_ms: u64)
    requires
        0 < attempt < u32::MAX,
    ensures
        retry_delay(attempt, jitter_ms) <= MAX_RETRY_DELAY_MS,
        retry_delay(attempt, jitter_ms) <= retry_delay((attempt + 1) as u32, jitter_ms),
{
    reveal_with_fuel(two_pow, 7);
    let a = if attempt < 6 { attempt as nat } else { 6 };
    let b = if attempt + 1 < 6 { (attempt + 1) as nat } else { 6 };
    assert(two_pow(a) <= two_pow(b));
}

} // verus!
