use std::hash::{BuildHasher, RandomState};
use std::time::{Duration, SystemTime};
use vstd::prelude::*;

use crate::value::UUID;

verus! {

#[verifier::external_type_specification]
#[verifier::external_body]
pub struct ExSystemTime(SystemTime);

/// Relies on `RandomState::new`: a fresh set of hashing keys, drawn from the
/// operating system's entropy source once per thread and changed on every
/// call after that.
pub assume_specification[ RandomState::new ]() -> RandomState;

/// Relies on `SystemTime::now`: the current time of the system clock.
pub assume_specification[ SystemTime::now ]() -> SystemTime;

/// Relies on `Duration::as_secs`: the whole seconds of a duration.
pub assume_specification[ Duration::as_secs ](d: &Duration) -> u64;

/// Relies on `Duration::subsec_nanos`: the fractional part of a duration in
/// nanoseconds, documented to be always below one billion.
pub assume_specification[ Duration::subsec_nanos ](d: &Duration) -> (r: u32)
    ensures
        r < 1_000_000_000,
;

/// Relies on `BuildHasher::hash_one`: hashes `tag` under the keys of `keys`.
/// The keys are secret and random, so nothing is stated of the word.
#[verifier::external_body]
fn hash_word(keys: &RandomState, tag: u64) -> u64 {
    keys.hash_one(tag)
}

/// Relies on `SystemTime::duration_since`: how long after the Unix epoch `t`
/// lies, or `None` where it lies before it.
#[verifier::external_body]
fn since_unix_epoch(t: &SystemTime) -> Option<Duration> {
    t.duration_since(SystemTime::UNIX_EPOCH).ok()
}

/// 100-nanosecond intervals from the start of the Gregorian calendar
/// (1582-10-15) to the Unix epoch.
pub const GREGORIAN_OFFSET: u64 = 0x01b2_1dd2_1381_4000;

/// Two to the sixtieth: time-based identifiers keep a 60-bit timestamp.
pub const TIMESTAMP_SPAN: u128 = 0x1000_0000_0000_0000;

/// The timestamp of a time-based identifier for a moment `secs` seconds and
/// `nanos` nanoseconds after the Unix epoch: 100-nanosecond intervals since
/// the start of the Gregorian calendar, modulo two to the sixtieth.
pub open spec fn ticks_spec(secs: u64, nanos: u32) -> nat {
    ((secs as nat * 10_000_000 + nanos as nat / 100 + GREGORIAN_OFFSET as nat) % (
    TIMESTAMP_SPAN as nat)) as nat
}

/// Counts 100-nanosecond intervals since the start of the Gregorian calendar,
/// for a moment `secs` seconds and `nanos` nanoseconds after the Unix epoch,
/// modulo two to the sixtieth.
pub fn gregorian_ticks(secs: u64, nanos: u32) -> (r: u64)
    requires
        nanos < 1_000_000_000,
    ensures
        r as nat == ticks_spec(secs, nanos),
        r < 0x1000_0000_0000_0000,
{
    assert(secs as u128 * 10_000_000 < 0x1_0000_0000_0000_0000_0000_0000) by (nonlinear_arith)
        requires
            secs < 0x1_0000_0000_0000_0000,
    ;
    let total: u128 = secs as u128 * 10_000_000 + (nanos / 100) as u128 + GREGORIAN_OFFSET as u128;
    (total % TIMESTAMP_SPAN) as u64
}

/// Lays out a random identifier (version 4): every bit comes from `hi` and
/// `lo` but the four version bits, set to `0100`, and the two variant bits,
/// set to `10`.
pub fn from_random_words(hi: u64, lo: u64) -> (r: UUID)
    ensures
        r.v1 == (hi & 0xffff_ffff_ffff_0fff) | 0x4000,
        r.v2 == (lo & 0x3fff_ffff_ffff_ffff) | 0x8000_0000_0000_0000,
        r.version() == 4,
        r.variant() == 2,
{
    let v1 = (hi & 0xffff_ffff_ffff_0fff) | 0x4000;
    let v2 = (lo & 0x3fff_ffff_ffff_ffff) | 0x8000_0000_0000_0000;
    assert(((((hi & 0xffff_ffff_ffff_0fff) | 0x4000) >> 12u64) & 0xf) == 4) by (bit_vector);
    assert((((lo & 0x3fff_ffff_ffff_ffff) | 0x8000_0000_0000_0000) >> 62u64) == 2) by (bit_vector);
    UUID { v1, v2 }
}

/// Lays out a time-based identifier (version 1) from a 60-bit timestamp, a
/// 14-bit clock sequence and a 48-bit node; higher bits of each are dropped.
pub fn from_time_fields(ticks: u64, clock_seq: u16, node: u64) -> (r: UUID)
    ensures
        r.version() == 1,
        r.variant() == 2,
        r.timestamp() == ticks & 0x0fff_ffff_ffff_ffff,
        r.clock_seq() == clock_seq as u64 & 0x3fff,
        r.node() == node & 0xffff_ffff_ffff,
{
    let time_low = ticks & 0xffff_ffff;
    let time_mid = (ticks >> 32u64) & 0xffff;
    let time_hi = (ticks >> 48u64) & 0x0fff;
    let v1 = (time_low << 32u64) | (time_mid << 16u64) | time_hi | 0x1000;
    let seq = ((clock_seq as u64) & 0x3fff) | 0x8000;
    let v2 = (seq << 48u64) | (node & 0xffff_ffff_ffff);
    let r = UUID { v1, v2 };
    assert(((((ticks & 0xffff_ffff) << 32u64) | (((ticks >> 32u64) & 0xffff) << 16u64) | ((
    ticks >> 48u64) & 0x0fff) | 0x1000) >> 12u64) & 0xf == 1) by (bit_vector);
    let c = clock_seq as u64;
    assert(c < 0x1_0000 ==> (((((c & 0x3fff) | 0x8000) << 48u64) | (node & 0xffff_ffff_ffff))
        >> 62u64) == 2) by (bit_vector);
    assert(c < 0x1_0000 ==> ((((((c & 0x3fff) | 0x8000) << 48u64) | (node & 0xffff_ffff_ffff))
        >> 48u64) & 0x3fff) == c & 0x3fff) by (bit_vector);
    assert((((((c & 0x3fff) | 0x8000) << 48u64) | (node & 0xffff_ffff_ffff)) & 0xffff_ffff_ffff)
        == node & 0xffff_ffff_ffff) by (bit_vector);
    assert({
        let w = ((ticks & 0xffff_ffff) << 32u64) | (((ticks >> 32u64) & 0xffff) << 16u64) | ((
        ticks >> 48u64) & 0x0fff) | 0x1000;
        ((w & 0xfff) << 48u64) | (((w >> 16u64) & 0xffff) << 32u64) | (w >> 32u64)
    } == ticks & 0x0fff_ffff_ffff_ffff) by (bit_vector);
    r
}

/// Draws a fresh random identifier (version 4).
#[allow(non_snake_case)]
pub fn UUID_random() -> (r: UUID)
    ensures
        r.version() == 4,
        r.variant() == 2,
{
    let keys = RandomState::new();
    let hi = hash_word(&keys, 0);
    let lo = hash_word(&keys, 1);
    from_random_words(hi, lo)
}

/// Makes an identifier with the default strategy, which is the random one.
#[allow(non_snake_case)]
pub fn UUID() -> (r: UUID)
    ensures
        r.version() == 4,
        r.variant() == 2,
{
    UUID_random()
}

/// Bit of the node that marks it as random rather than a hardware address.
pub const MULTICAST_BIT: u64 = 0x0100_0000_0000;

/// Makes a time-based identifier (version 1) from the system clock. The clock
/// sequence and the node are random, and the node carries the multicast bit,
/// so that it cannot be taken for a hardware address. A clock set before the
/// Unix epoch counts as the epoch itself.
#[allow(non_snake_case)]
pub fn UUID_time() -> (r: UUID)
    ensures
        r.version() == 1,
        r.variant() == 2,
        r.node() & MULTICAST_BIT != 0,
{
    let now = SystemTime::now();
    let (secs, nanos) = match since_unix_epoch(&now) {
        Some(d) => (d.as_secs(), d.subsec_nanos()),
        None => (0u64, 0u32),
    };
    let ticks = gregorian_ticks(secs, nanos);
    let keys = RandomState::new();
    let w = hash_word(&keys, 0);
    let clock_seq = (w >> 48u64) as u16;
    let node = (w & 0xffff_ffff_ffff) | MULTICAST_BIT;
    assert(((w & 0xffff_ffff_ffff) | 0x0100_0000_0000) & 0xffff_ffff_ffff & 0x0100_0000_0000 != 0)
        by (bit_vector);
    from_time_fields(ticks, clock_seq, node)
}

} // verus!
