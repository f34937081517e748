//! Identifiers for newly imported scripts: `s_<milliseconds>_<salt>`, where
//! the milliseconds come from the clock and the salt from hashing the time.
use vstd::prelude::*;
use std::collections::hash_map::DefaultHasher;
use std::hash::Hasher;
use vstd::std_specs::hash::DefaultHasherAdditionalSpecFns;
use std::time::{Duration, SystemTime, SystemTimeError};
use crate::text::{decimal, push_char, push_decimal, lemma_decimal_reads_back};

verus! {

#[verifier::external_type_specification]
#[verifier::external_body]
pub struct ExSystemTime(SystemTime);

#[verifier::external_type_specification]
#[verifier::external_body]
pub struct ExSystemTimeError(SystemTimeError);

/// Trusted: calls `SystemTime::now`. Nothing is stated of the result: it is
/// the clock's reading.
#[verifier::external_body]
fn system_time_now() -> SystemTime {
    SystemTime::now()
}

/// Trusted: calls `SystemTime::duration_since` with `UNIX_EPOCH`. Nothing is
/// stated of the result: it depends on the clock reading passed in, which is
/// opaque here.
#[verifier::external_body]
fn duration_since_epoch(t: &SystemTime) -> Result<Duration, SystemTimeError> {
    t.duration_since(std::time::UNIX_EPOCH)
}

/// Trusted: calls `Duration::as_millis`. Nothing is stated of the result:
/// the duration is opaque here.
#[verifier::external_body]
fn duration_as_millis(d: &Duration) -> u128 {
    d.as_millis()
}

/// Trusted: calls `Hash::hash` of `SystemTime` on the given hasher. Nothing
/// is stated: the hasher's state is opaque here.
#[verifier::external_body]
fn hash_system_time(t: &SystemTime, h: &mut DefaultHasher) {
    std::hash::Hash::hash(t, h)
}

/// The low 32 bits of a 64-bit value.
pub fn truncate_to_u32(h: u64) -> (r: u32)
    ensures
        r as int == h as int % 0x1_0000_0000,
{
    let masked: u64 = h & 0xFFFF_FFFF;
    assert(masked == h % 0x1_0000_0000) by (bit_vector)
        requires
            masked == h & 0xFFFF_FFFF,
    ;
    masked as u32
}

/// The salt obtained from a fresh `DefaultHasher` that has been fed the
/// writes `w`: the low 32 bits of its digest.
pub open spec fn salt_of_writes(w: Seq<Seq<u8>>) -> int {
    DefaultHasher::spec_finish(w) as int % 0x1_0000_0000
}

/// A pseudo-random 32-bit number: the low 32 bits of the digest of a fresh
/// `DefaultHasher` fed the current time. Which writes hashing the time makes
/// depends on the clock, so only that shape is stated.
pub fn rand_u32() -> (r: u32)
    ensures
        exists|w: Seq<Seq<u8>>| r as int == salt_of_writes(w),
{
    let mut hasher = DefaultHasher::new();
    let now = system_time_now();
    hash_system_time(&now, &mut hasher);
    let ghost writes = hasher@;
    let r = truncate_to_u32(hasher.finish());
    assert(r as int == salt_of_writes(writes));
    r
}

/// The identifier built from a millisecond count and a salt:
/// `s_<millis>_<salt>` in decimal.
pub open spec fn script_id(millis: nat, salt: nat) -> Seq<char> {
    seq!['s', '_'] + decimal(millis) + seq!['_'] + decimal(salt)
}

/// Renders the identifier for the given millisecond count and salt.
pub fn format_script_id(millis: u128, salt: u32) -> (r: String)
    ensures
        r@ == script_id(millis as nat, salt as nat),
{
    let mut s = String::new();
    push_char(&mut s, 's');
    push_char(&mut s, '_');
    push_decimal(&mut s, millis);
    push_char(&mut s, '_');
    push_decimal(&mut s, salt as u128);
    assert(s@ =~= script_id(millis as nat, salt as nat));
    s
}

/// The identifier for a clock reading and a salt: `s_<millis>_<salt>` when
/// the clock reads `millis` milliseconds after the Unix epoch, and none when
/// it reads before the epoch (`None`), where no identifier can be formed.
pub fn id_for_clock(since_epoch: Option<u128>, salt: u32) -> (r: Option<String>)
    ensures
        match since_epoch {
            Some(m) => r is Some && r->0@ == script_id(m as nat, salt as nat),
            None => r is None,
        },
{
    match since_epoch {
        Some(m) => Some(format_script_id(m, salt)),
        None => None,
    }
}

/// A fresh script identifier: the milliseconds since the Unix epoch and a
/// salt from `rand_u32` (see `id_for_clock`); none when the clock reads
/// before the epoch.
pub fn generate_id() -> (r: Option<String>)
    ensures
        r matches Some(id) ==> exists|millis: u128, w: Seq<Seq<u8>>|
            0 <= salt_of_writes(w) < 0x1_0000_0000 && id@ == #[trigger] script_id(
                millis as nat,
                salt_of_writes(w) as nat,
            ),
{
    let now = system_time_now();
    let since_epoch: Option<u128> = match duration_since_epoch(&now) {
        Ok(d) => Some(duration_as_millis(&d)),
        Err(_) => None,
    };
    let salt = rand_u32();
    let r = id_for_clock(since_epoch, salt);
    proof {
        if since_epoch is Some {
            let w = choose|w: Seq<Seq<u8>>| salt as int == salt_of_writes(w);
            let m = since_epoch->0;
            assert(r->0@ == script_id(m as nat, salt_of_writes(w) as nat));
        }
    }
    r
}

/// Identifiers built from different (milliseconds, salt) pairs differ: the
/// identifier determines both numbers.
pub proof fn lemma_script_id_injective(m1: nat, s1: nat, m2: nat, s2: nat)
    requires
        script_id(m1, s1) == script_id(m2, s2),
    ensures
        m1 == m2,
        s1 == s2,
{
    lemma_decimal_reads_back(m1);
    lemma_decimal_reads_back(m2);
    lemma_decimal_reads_back(s1);
    lemma_decimal_reads_back(s2);
    let d1 = decimal(m1);
    let d2 = decimal(m2);
    let e1 = decimal(s1);
    let e2 = decimal(s2);
    let x = script_id(m1, s1);
    assert(x == seq!['s', '_'] + d1 + seq!['_'] + e1);
    assert(x == seq!['s', '_'] + d2 + seq!['_'] + e2);
    if d1.len() < d2.len() {
        assert(x[2 + d1.len() as int] == '_');
        assert(x[2 + d1.len() as int] == d2[d1.len() as int]);
        assert(false);
    }
    if d2.len() < d1.len() {
        assert(x[2 + d2.len() as int] == '_');
        assert(x[2 + d2.len() as int] == d1[d2.len() as int]);
        assert(false);
    }
    assert(d1 =~= x.subrange(2, 2 + d1.len() as int));
    assert(d2 =~= x.subrange(2, 2 + d2.len() as int));
    assert(e1 =~= x.subrange(3 + d1.len() as int, x.len() as int));
    assert(e2 =~= x.subrange(3 + d2.len() as int, x.len() as int));
}

} // verus!
