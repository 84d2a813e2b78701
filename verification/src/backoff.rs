//! Join backoff and downlink buffering for the LoRaWAN task.

use vstd::prelude::*;

verus! {

/// Longest base delay between join attempts, in seconds.
pub const MAX_BASE_DELAY: u16 = 3600;

/// Base delay before join retry number `retries`: ten seconds more per
/// retry, starting at ten and capped at an hour.
pub open spec fn base_delay(retries: u16) -> int {
    let b = 10 + 10 * retries;
    if b < MAX_BASE_DELAY {
        b
    } else {
        MAX_BASE_DELAY as int
    }
}

/// The delay for a random draw: the base delay plus a jitter of up to a fifth
/// of it, picked by `random` modulo the number of choices.
pub open spec fn spec_delay(random: u32, retries: u16) -> int {
    let base = base_delay(retries);
    let jitter = base / 5;
    base + (random as int) % (jitter + 1)
}

/// Seconds to wait before the next join attempt, given a random word drawn
/// from the radio's RNG and the number of failed attempts so far.
pub fn generate_delay(random: u32, retries: u16) -> (d: u16)
    requires
        10 + 10 * retries <= u16::MAX,
    ensures
        d == spec_delay(random, retries),
{
    let base = if 10 + 10 * retries < MAX_BASE_DELAY {
        10 + 10 * retries
    } else {
        MAX_BASE_DELAY
    };
    let jitter = base / 5;
    let range = 2 * jitter - jitter + 1;  // jitter..=2*jitter
    let random_jitter = (random % (range as u32)) as u16 + jitter;
    (base - jitter).saturating_add(random_jitter)
}

/// The delay grows with the base and stays within a fifth above it.
pub proof fn lemma_delay_bounds(random: u32, retries: u16)
    ensures
        base_delay(retries) <= spec_delay(random, retries) <= base_delay(retries) + base_delay(
            retries,
        ) / 5,
        10 <= base_delay(retries) <= MAX_BASE_DELAY,
{
}

/// Copies a received downlink into `buf`, truncated to the buffer's size,
/// and returns the number of bytes copied.
pub fn copy_downlink(data: &[u8], buf: &mut [u8]) -> (n: usize)
    ensures
        n == if data@.len() < old(buf)@.len() {
            data@.len()
        } else {
            old(buf)@.len()
        },
        final(buf)@ == data@.take(n as int) + old(buf)@.skip(n as int),
{
    let n = if data.len() < buf.len() {
        data.len()
    } else {
        buf.len()
    };
    let mut i: usize = 0;
    while i < n
        invariant
            n <= data@.len(),
            n <= buf@.len(),
            buf@.len() == old(buf)@.len(),
            i <= n,
            forall|j: int| 0 <= j < i ==> buf@[j] == data@[j],
            forall|j: int| i <= j < buf@.len() ==> buf@[j] == old(buf)@[j],
        decreases n - i,
    {
        buf[i] = data[i];
        i = i + 1;
    }
    assert(buf@ == data@.take(n as int) + old(buf)@.skip(n as int));
    n
}

} // verus!
