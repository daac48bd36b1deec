//! Reconnect backoff, one per pool key.
//!
//! The delay starts at one second and doubles with each failure up to one
//! minute, with a jitter of less than a quarter of the exponential part. Non-
//! persistent transports are neither pooled nor backed off.

use vstd::arithmetic::power2::{lemma2_to64, lemma_pow2_strictly_increases, lemma_pow2_unfold, pow2};
use vstd::prelude::*;

verus! {

/// The first delay, in milliseconds.
pub const BACKOFF_BASE: u64 = 1000;

/// The longest delay, in milliseconds.
pub const BACKOFF_CAP: u64 = 60000;

/// The exponential part of the delay after `attempts` failures: the base doubled
/// once for each failure after the first, up to the cap.
pub open spec fn exponential_delay(attempts: nat) -> nat
    recommends
        attempts > 0,
{
    let doubled = BACKOFF_BASE as nat * pow2((attempts - 1) as nat);
    if doubled < BACKOFF_CAP {
        doubled
    } else {
        BACKOFF_CAP as nat
    }
}

/// The offset that spreads the delay after `attempts` failures: one round of
/// splitmix64 on the number of failures.
pub open spec fn jitter(attempts: u32) -> u64 {
    let a: u64 = (attempts as u64).wrapping_add(0x9e37_79b9_7f4a_7c15);
    let b: u64 = (a ^ (a >> 30)).wrapping_mul(0xbf58_476d_1ce4_e5b9);
    let c: u64 = (b ^ (b >> 27)).wrapping_mul(0x94d0_49bb_1331_11eb);
    c ^ (c >> 31)
}

/// The delay after `attempts` failures in a row; none without a failure.
pub open spec fn delay_after(attempts: u32) -> Option<u64> {
    if attempts == 0 {
        None
    } else {
        let exponential = exponential_delay(attempts as nat);
        if exponential >= BACKOFF_CAP {
            Some(BACKOFF_CAP)
        } else {
            Some((exponential + jitter(attempts) % ((exponential / 4) as u64)) as u64)
        }
    }
}

/// The retry backoff of one pool key.
#[derive(Clone, Copy, Debug, PartialEq, Eq, Structural)]
pub struct Backoff {
    attempts: u32,
}

impl Backoff {
    /// How many failures in a row stand behind the next attempt.
    pub closed spec fn failures(&self) -> u32 {
        self.attempts
    }

    /// A backoff without a failure.
    pub fn new() -> (backoff: Self)
        ensures
            backoff.failures() == 0,
    {
        Self { attempts: 0 }
    }

    /// Counts one more failure.
    pub fn record_failure(&mut self)
        ensures
            final(self).failures() == if old(self).failures() == u32::MAX {
                u32::MAX
            } else {
                (old(self).failures() + 1) as u32
            },
    {
        self.attempts = self.attempts.saturating_add(1);
    }

    /// Forgets all failures.
    pub fn reset(&mut self)
        ensures
            final(self).failures() == 0,
    {
        self.attempts = 0;
    }

    /// The delay before the next attempt, in milliseconds.
    pub fn next_delay(&mut self) -> (delay: Option<u64>)
        ensures
            delay == delay_after(old(self).failures()),
            old(self).failures() == 0 <==> delay is None,
            old(self).failures() == 1 ==> 1000 <= delay->0 < 1250,
            old(self).failures() == 2 ==> 2000 <= delay->0 < 2500,
            old(self).failures() == 3 ==> 4000 <= delay->0 < 5000,
            old(self).failures() == 4 ==> 8000 <= delay->0 < 10000,
            old(self).failures() == 5 ==> 16000 <= delay->0 < 20000,
            old(self).failures() == 6 ==> 32000 <= delay->0 < 40000,
            old(self).failures() >= 7 ==> delay->0 == 60000,
            *final(self) == *old(self),
    {
        proof {
            delay_doubles_up_to_a_minute(self.attempts);
        }
        if self.attempts == 0 {
            return None;
        }
        proof {
            lemma2_to64();
            delay_is_bounded(self.attempts);
        }
        let mut exponential: u64 = BACKOFF_BASE;
        let mut doublings: u32 = 0;
        while doublings < self.attempts - 1 && exponential < BACKOFF_CAP
            invariant
                1 <= self.attempts,
                doublings <= self.attempts - 1,
                exponential < 2 * BACKOFF_CAP,
                exponential == BACKOFF_BASE as nat * pow2(doublings as nat),
            decreases self.attempts - doublings,
        {
            proof {
                lemma_pow2_unfold((doublings + 1) as nat);
                let half = pow2(doublings as nat);
                assert(1000 * (2 * half) == 2 * (1000 * half)) by (nonlinear_arith);
            }
            exponential = exponential * 2;
            doublings = doublings + 1;
        }
        proof {
            if doublings < self.attempts - 1 {
                lemma_pow2_strictly_increases(doublings as nat, (self.attempts - 1) as nat);
            }
        }
        if exponential >= BACKOFF_CAP {
            return Some(BACKOFF_CAP);
        }
        proof {
            lemma_exponential_at_least_base(self.attempts as nat);
        }
        let span: u64 = exponential / 4;
        let offset: u64 = deterministic_jitter(self.attempts) % span;
        Some(exponential + offset)
    }
}

impl Default for Backoff {
    fn default() -> (backoff: Self)
        ensures
            backoff.failures() == 0,
    {
        Self::new()
    }
}

/// One round of splitmix64 on the number of failures.
pub fn deterministic_jitter(attempts: u32) -> (offset: u64)
    ensures
        offset == jitter(attempts),
{
    let mut z: u64 = (attempts as u64).wrapping_add(0x9e37_79b9_7f4a_7c15);
    z = (z ^ (z >> 30)).wrapping_mul(0xbf58_476d_1ce4_e5b9);
    z = (z ^ (z >> 27)).wrapping_mul(0x94d0_49bb_1331_11eb);
    z ^ (z >> 31)
}

proof fn lemma_exponential_at_least_base(attempts: nat)
    requires
        attempts > 0,
    ensures
        BACKOFF_BASE <= exponential_delay(attempts) <= BACKOFF_CAP,
{
    lemma2_to64();
    if attempts > 1 {
        lemma_pow2_strictly_increases(0, (attempts - 1) as nat);
    }
}

proof fn lemma_exponential_doubles(attempts: nat)
    requires
        attempts > 0,
    ensures
        exponential_delay(attempts) < BACKOFF_CAP ==> exponential_delay(attempts + 1) == if 2
            * exponential_delay(attempts) < BACKOFF_CAP {
            2 * exponential_delay(attempts)
        } else {
            BACKOFF_CAP as nat
        },
        exponential_delay(attempts) == BACKOFF_CAP ==> exponential_delay(attempts + 1)
            == BACKOFF_CAP,
{
    lemma_pow2_unfold(attempts);
    let half = pow2((attempts - 1) as nat);
    assert(1000 * (2 * half) == 2 * (1000 * half)) by (nonlinear_arith);
}

/// After any failure the delay lies between the base and the cap.
pub proof fn delay_is_bounded(attempts: u32)
    requires
        attempts > 0,
    ensures
        delay_after(attempts) matches Some(delay) && BACKOFF_BASE <= delay <= BACKOFF_CAP,
{
    lemma_exponential_at_least_base(attempts as nat);
    lemma_exponential_doubles(attempts as nat);
    lemma_reaches_cap(attempts as nat);
}

/// Below the cap the exponential part is one of six values.
proof fn lemma_reaches_cap(attempts: nat)
    requires
        attempts > 0,
    ensures
        exponential_delay(attempts) < BACKOFF_CAP ==> exponential_delay(attempts) <= 32000,
{
    lemma2_to64();
    if attempts >= 7 {
        if attempts > 7 {
            lemma_pow2_strictly_increases(6, (attempts - 1) as nat);
        }
    } else if attempts < 6 {
        lemma_pow2_strictly_increases((attempts - 1) as nat, 5);
    }
}

/// The first delay is one second and each further one twice as long, each lengthened
/// by less than a quarter of itself; from the seventh failure on it is one minute
/// sharp. Without a failure there is none.
pub proof fn delay_doubles_up_to_a_minute(attempts: u32)
    ensures
        attempts == 0 ==> delay_after(attempts) is None,
        attempts >= 1 ==> delay_after(attempts) is Some,
        1 <= attempts <= 6 ==> 1000 * pow2((attempts - 1) as nat) <= delay_after(attempts)->0
            < 1250 * pow2((attempts - 1) as nat),
        attempts == 1 ==> 1000 <= delay_after(attempts)->0 < 1250,
        attempts == 2 ==> 2000 <= delay_after(attempts)->0 < 2500,
        attempts == 3 ==> 4000 <= delay_after(attempts)->0 < 5000,
        attempts == 4 ==> 8000 <= delay_after(attempts)->0 < 10000,
        attempts == 5 ==> 16000 <= delay_after(attempts)->0 < 20000,
        attempts == 6 ==> 32000 <= delay_after(attempts)->0 < 40000,
        attempts >= 7 ==> delay_after(attempts) == Some(60000u64),
{
    lemma2_to64();
    if attempts > 7 {
        lemma_pow2_strictly_increases(6, (attempts - 1) as nat);
    }
}

/// Within the time that it takes to reach the cap, each delay is longer than the one
/// before it.
pub proof fn delay_grows_until_the_cap(attempts: u32)
    requires
        1 <= attempts <= 6,
    ensures
        delay_after(attempts)->0 < delay_after((attempts + 1) as u32)->0,
{
    delay_doubles_up_to_a_minute(attempts);
    delay_doubles_up_to_a_minute((attempts + 1) as u32);
}

/// A further failure never shortens the delay.
pub proof fn delay_never_shrinks(fewer: u32, more: u32)
    requires
        0 < fewer <= more,
    ensures
        delay_after(fewer)->0 <= delay_after(more)->0,
    decreases more - fewer,
{
    if fewer < more {
        let next = (fewer + 1) as u32;
        delay_never_shrinks(next, more);
        lemma_exponential_at_least_base(fewer as nat);
        lemma_exponential_doubles(fewer as nat);
        lemma_reaches_cap(fewer as nat);
        lemma_exponential_at_least_base(next as nat);
    }
}

/// A round of the jitter, value by value.
proof fn lemma_round(attempts: u32, a: u64, x: u64, b: u64, y: u64, c: u64, z: u64)
    requires
        a == attempts + 0x9e37_79b9_7f4a_7c15,
        a ^ (a >> 30) == x,
        b == (x as nat * 0xbf58_476d_1ce4_e5b9nat) % 0x1_0000_0000_0000_0000nat,
        b ^ (b >> 27) == y,
        c == (y as nat * 0x94d0_49bb_1331_11ebnat) % 0x1_0000_0000_0000_0000nat,
        c ^ (c >> 31) == z,
    ensures
        jitter(attempts) == z,
{
}

proof fn lemma_jitter_1()
    ensures
        jitter(1) == 0x910a2dec89025cc1,
{
    assert(0x9e3779b97f4a7c16u64 ^ (0x9e3779b97f4a7c16u64 >> 30) == 0x9e3779bb07979af3u64) by (bit_vector);
    assert(0xad70fc62ae96589bu64 ^ (0xad70fc62ae96589bu64 >> 27) == 0xad70fc770089d4ceu64) by (bit_vector);
    assert(0x910a2dedab16071au64 ^ (0x910a2dedab16071au64 >> 31) == 0x910a2dec89025cc1u64) by (bit_vector);
    lemma_round(1, 0x9e3779b97f4a7c16, 0x9e3779bb07979af3, 0xad70fc62ae96589b, 0xad70fc770089d4ce, 0x910a2dedab16071a, 0x910a2dec89025cc1);
}

proof fn lemma_jitter_2()
    ensures
        jitter(2) == 0x975835de1c9756ce,
{
    assert(0x9e3779b97f4a7c17u64 ^ (0x9e3779b97f4a7c17u64 >> 30) == 0x9e3779bb07979af2u64) by (bit_vector);
    assert(0xee18b4f591b172e2u64 ^ (0xee18b4f591b172e2u64 >> 27) == 0xee18b4e852a7ec50u64) by (bit_vector);
    assert(0x975835df32273d70u64 ^ (0x975835df32273d70u64 >> 31) == 0x975835de1c9756ceu64) by (bit_vector);
    lemma_round(2, 0x9e3779b97f4a7c17, 0x9e3779bb07979af2, 0xee18b4f591b172e2, 0xee18b4e852a7ec50, 0x975835df32273d70, 0x975835de1c9756ce);
}

proof fn lemma_jitter_3()
    ensures
        jitter(3) == 0x1d0b14e4db018fed,
{
    assert(0x9e3779b97f4a7c18u64 ^ (0x9e3779b97f4a7c18u64 >> 30) == 0x9e3779bb07979afdu64) by (bit_vector);
    assert(0x26e3c6a5cf8751d5u64 ^ (0x26e3c6a5cf8751d5u64 >> 27) == 0x26e3c6a113ff856cu64) by (bit_vector);
    assert(0x1d0b14e4e117a624u64 ^ (0x1d0b14e4e117a624u64 >> 31) == 0x1d0b14e4db018fedu64) by (bit_vector);
    lemma_round(3, 0x9e3779b97f4a7c18, 0x9e3779bb07979afd, 0x26e3c6a5cf8751d5, 0x26e3c6a113ff856c, 0x1d0b14e4e117a624, 0x1d0b14e4db018fed);
}

proof fn lemma_jitter_4()
    ensures
        jitter(4) == 0x6e73e372e2338aca,
{
    assert(0x9e3779b97f4a7c19u64 ^ (0x9e3779b97f4a7c19u64 >> 30) == 0x9e3779bb07979afcu64) by (bit_vector);
    assert(0x678b7f38b2a26c1cu64 ^ (0x678b7f38b2a26c1cu64 >> 27) == 0x678b7f3443cd8b0au64) by (bit_vector);
    assert(0x6e73e3723ed44c2eu64 ^ (0x6e73e3723ed44c2eu64 >> 31) == 0x6e73e372e2338acau64) by (bit_vector);
    lemma_round(4, 0x9e3779b97f4a7c19, 0x9e3779bb07979afc, 0x678b7f38b2a26c1c, 0x678b7f3443cd8b0a, 0x6e73e3723ed44c2e, 0x6e73e372e2338aca);
}

proof fn lemma_jitter_5()
    ensures
        jitter(5) == 0x63033b0ca389c35a,
{
    assert(0x9e3779b97f4a7c1au64 ^ (0x9e3779b97f4a7c1au64 >> 30) == 0x9e3779bb07979affu64) by (bit_vector);
    assert(0xa594558009511d47u64 ^ (0xa594558009511d47u64 >> 27) == 0xa5945594bbdbad46u64) by (bit_vector);
    assert(0x63033b0c658fb542u64 ^ (0x63033b0c658fb542u64 >> 31) == 0x63033b0ca389c35au64) by (bit_vector);
    lemma_round(5, 0x9e3779b97f4a7c1a, 0x9e3779bb07979aff, 0xa594558009511d47, 0xa5945594bbdbad46, 0x63033b0c658fb542, 0x63033b0ca389c35a);
}

proof fn lemma_jitter_6()
    ensures
        jitter(6) == 0xbd64a5d9adefe000,
{
    assert(0x9e3779b97f4a7c1bu64 ^ (0x9e3779b97f4a7c1bu64 >> 30) == 0x9e3779bb07979afeu64) by (bit_vector);
    assert(0xe63c0e12ec6c378eu64 ^ (0xe63c0e12ec6c378eu64 >> 27) == 0xe63c0e0e2bedf5d3u64) by (bit_vector);
    assert(0xbd64a5d8d726abb1u64 ^ (0xbd64a5d8d726abb1u64 >> 31) == 0xbd64a5d9adefe000u64) by (bit_vector);
    lemma_round(6, 0x9e3779b97f4a7c1b, 0x9e3779bb07979afe, 0xe63c0e12ec6c378e, 0xe63c0e0e2bedf5d3, 0xbd64a5d8d726abb1, 0xbd64a5d9adefe000);
}

/// The delays are the same everywhere and every time: the jitter depends on the number of
/// failures alone, and up to the cap there are six of them.
pub proof fn delays_are_the_same_every_time(attempts: u32)
    ensures
        attempts == 1 ==> delay_after(attempts) == Some(1215u64),
        attempts == 2 ==> delay_after(attempts) == Some(2110u64),
        attempts == 3 ==> delay_after(attempts) == Some(4053u64),
        attempts == 4 ==> delay_after(attempts) == Some(9978u64),
        attempts == 5 ==> delay_after(attempts) == Some(18618u64),
        attempts == 6 ==> delay_after(attempts) == Some(38592u64),
        attempts >= 7 ==> delay_after(attempts) == Some(60000u64),
{
    delay_doubles_up_to_a_minute(attempts);
    lemma2_to64();
    if attempts == 1 {
        lemma_jitter_1();
        assert(0x910a2dec89025cc1u64 % 250 == 215);
    }
    if attempts == 2 {
        lemma_jitter_2();
        assert(0x975835de1c9756ceu64 % 500 == 110);
    }
    if attempts == 3 {
        lemma_jitter_3();
        assert(0x1d0b14e4db018fedu64 % 1000 == 53);
    }
    if attempts == 4 {
        lemma_jitter_4();
        assert(0x6e73e372e2338acau64 % 2000 == 1978);
    }
    if attempts == 5 {
        lemma_jitter_5();
        assert(0x63033b0ca389c35au64 % 4000 == 2618);
    }
    if attempts == 6 {
        lemma_jitter_6();
        assert(0xbd64a5d9adefe000u64 % 8000 == 6592);
    }
}

} // verus!
