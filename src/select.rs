//! Choosing one server among the usable ones, and the small generator that
//! supplies the choice's randomness.

use vstd::prelude::*;
use vstd::wrapping::u64_specs::{wrapping_add, wrapping_mul};
use crate::config::Server;
use crate::error::ClientError;

verus! {

/// The usable entries of `s`, in their order.
pub open spec fn valid_servers(s: Seq<Server>) -> Seq<Server>
    decreases s.len(),
{
    if s.len() == 0 {
        Seq::empty()
    } else {
        let r = valid_servers(s.drop_last());
        if s.last().valid() {
            r.push(s.last())
        } else {
            r
        }
    }
}

/// The high 32 bits of `entropy`, the part of a generator output that varies best.
pub open spec fn high_bits(entropy: u64) -> nat {
    (entropy as nat) / 0x1_0000_0000
}

/// How many high-bit values are accepted when choosing among `n`: the
/// largest multiple of `n` that fits in 32 bits.
pub open spec fn accept_limit(n: nat) -> nat {
    n * (0x1_0000_0000nat / n)
}

/// The index picked among `n` candidates by the number `entropy`: its high
/// bits modulo `n`, or none when the high bits fall in the uneven remainder
/// past `accept_limit(n)` and a new number must be drawn.
pub open spec fn pick(entropy: u64, n: nat) -> Option<int> {
    if high_bits(entropy) < accept_limit(n) {
        Some((high_bits(entropy) as int) % (n as int))
    } else {
        None
    }
}

/// Every usable entry is an entry of the list, and is usable.
pub proof fn lemma_valid_servers_members(s: Seq<Server>)
    ensures
        forall|i: int|
            0 <= i < valid_servers(s).len() ==> s.contains(#[trigger] valid_servers(s)[i])
                && valid_servers(s)[i].valid(),
        valid_servers(s).len() <= s.len(),
    decreases s.len(),
{
    if s.len() > 0 {
        lemma_valid_servers_members(s.drop_last());
        let r = valid_servers(s.drop_last());
        assert forall|i: int| 0 <= i < valid_servers(s).len() implies s.contains(
            #[trigger] valid_servers(s)[i],
        ) && valid_servers(s)[i].valid() by {
            if i < r.len() {
                assert(s.drop_last().contains(r[i]));
                let k = choose|k: int| 0 <= k < s.drop_last().len() && s.drop_last()[k] == r[i];
                assert(s[k] == r[i]);
            } else {
                assert(s[s.len() - 1] == s.last());
            }
        }
    }
}

/// The choice is unbiased: the accepted high-bit values correspond one to one
/// with the pairs (round, index) where the round is below `2^32 / n` and the
/// index below `n`. So each of the `n` indices is picked by exactly
/// `2^32 / n` accepted values.
pub proof fn lemma_pick_is_unbiased(n: nat)
    requires
        n > 0,
    ensures
        forall|h: nat|
            h < accept_limit(n) ==> (#[trigger] (h / n)) < 0x1_0000_0000nat / n && h % n < n && h == (h
                / n) * n + h % n,
        forall|a: nat, i: nat|
            a < 0x1_0000_0000nat / n && i < n ==> #[trigger] (a * n + i) < accept_limit(n) && (a * n + i)
                % n == i && (a * n + i) / n == a,
{
    let q: nat = 0x1_0000_0000nat / n;
    assert forall|h: nat| h < accept_limit(n) implies (#[trigger] (h / n)) < q && h % n < n && h == (h
        / n) * n + h % n by {
        vstd::arithmetic::div_mod::lemma_fundamental_div_mod(h as int, n as int);
        let d = h / n;
        if d >= q {
            assert(d * n >= q * n) by (nonlinear_arith)
                requires d >= q;
        }
    }
    assert forall|a: nat, i: nat| a < q && i < n implies #[trigger] (a * n + i) < accept_limit(n)
        && (a * n + i) % n == i && (a * n + i) / n == a by {
        assert(a * n + i < q * n) by (nonlinear_arith)
            requires a < q, i < n;
        vstd::arithmetic::div_mod::lemma_fundamental_div_mod_converse(
            (a * n + i) as int,
            n as int,
            a as int,
            i as int,
        );
    }
}

/// Picks one usable server of `servers` with the number `entropy`: the one
/// at index `pick(entropy, n)` among the `n` usable ones, or `Ok(None)` when
/// that number is rejected and a new one must be drawn.
pub fn select_server(servers: &Vec<Server>, entropy: u64) -> (r: Result<Option<Server>, ClientError>)
    requires
        servers@.len() <= u32::MAX,
    ensures
        servers@.len() == 0 ==> r == Err::<Option<Server>, ClientError>(ClientError::NoServers),
        servers@.len() > 0 && valid_servers(servers@).len() == 0 ==> r == Err::<
            Option<Server>,
            ClientError,
        >(ClientError::NoValidServers),
        valid_servers(servers@).len() > 0 ==> (r matches Ok(o) && match pick(
            entropy,
            valid_servers(servers@).len(),
        ) {
            Some(i) => o matches Some(s) && s@ == valid_servers(servers@)[i]@,
            None => o is None,
        }),
        r matches Ok(Some(s)) ==> exists|i: int|
            0 <= i < servers@.len() && servers@[i].valid() && #[trigger] servers@[i]@ == s@,
{
    proof {
        lemma_valid_servers_members(servers@);
    }
    if servers.len() == 0 {
        return Err(ClientError::NoServers);
    }
    let mut valid: Vec<usize> = Vec::new();
    let ghost mut vs: Seq<Server> = Seq::empty();
    let mut i: usize = 0;
    assert(servers@.subrange(0, 0) =~= Seq::<Server>::empty());
    while i < servers.len()
        invariant
            i <= servers.len(),
            vs == valid_servers(servers@.subrange(0, i as int)),
            valid@.len() == vs.len(),
            forall|k: int|
                0 <= k < valid@.len() ==> #[trigger] valid@[k] < servers.len() && servers@[valid@[k] as int]
                    == vs[k],
        decreases servers.len() - i,
    {
        assert(servers@.subrange(0, i + 1).drop_last() =~= servers@.subrange(0, i as int));
        assert(servers@.subrange(0, i + 1).last() == servers@[i as int]);
        if servers[i].is_valid() {
            valid.push(i);
            proof {
                vs = vs.push(servers@[i as int]);
            }
        }
        i += 1;
    }
    assert(servers@.subrange(0, i as int) =~= servers@);
    if valid.len() == 0 {
        return Err(ClientError::NoValidServers);
    }
    let n = valid.len() as u64;
    let q = 0x1_0000_0000u64 / n;
    proof {
        vstd::arithmetic::div_mod::lemma_fundamental_div_mod(0x1_0000_0000int, n as int);
        vstd::arithmetic::div_mod::lemma_mod_pos_bound(0x1_0000_0000int, n as int);
        assert(q as int == 0x1_0000_0000int / (n as int));
        assert((n as int) * (q as int) <= 0x1_0000_0000int);
    }
    let limit = n * q;
    let high = entropy / 0x1_0000_0000;
    if high >= limit {
        return Ok(None);
    }
    let k = (high % n) as usize;
    assert(valid@[k as int] < servers.len());
    let chosen = servers[valid[k]].duplicate();
    proof {
        assert(vs[k as int] == servers@[valid@[k as int] as int]);
        assert(servers@[valid@[k as int] as int].valid());
    }
    Ok(Some(chosen))
}

/// One step of the linear congruential generator.
pub open spec fn lcg(x: u64) -> u64 {
    wrapping_add(wrapping_mul(x, 1103515245), 12345)
}

/// Relies on `SystemTime::now` measured with `duration_since(UNIX_EPOCH)`:
/// nanoseconds since the epoch, truncated to 64 bits, or `None` when the clock
/// reads earlier than the epoch. Nothing is promised of the value.
#[verifier::external_body]
fn clock_nanos() -> (r: Option<u64>) {
    std::time::SystemTime::now().duration_since(std::time::UNIX_EPOCH).ok().map(|d| d.as_nanos() as u64)
}

/// The seed taken from a clock reading: the reading itself, or 12345 when
/// there is none.
pub open spec fn seed_of(reading: Option<u64>) -> u64 {
    match reading {
        Some(n) => n,
        None => 12345,
    }
}

/// The seed taken from a clock reading.
pub fn seed_from(reading: Option<u64>) -> (r: u64)
    ensures
        r == seed_of(reading),
{
    match reading {
        Some(n) => n,
        None => 12345,
    }
}

/// One generator step on `seed`.
pub fn stir(seed: u64) -> (r: u64)
    ensures
        r == lcg(seed),
{
    seed.wrapping_mul(1103515245).wrapping_add(12345)
}

/// A number drawn from a clock reading: one generator step on its seed.
pub fn random_from(reading: Option<u64>) -> (r: u64)
    ensures
        r == lcg(seed_of(reading)),
{
    stir(seed_from(reading))
}

/// A number drawn from the clock, stirred by one generator step.
pub fn simple_random() -> u64 {
    random_from(clock_nanos())
}

/// A small pseudo-random generator.
pub struct SimpleRng {
    pub state: u64,
}

impl SimpleRng {
    /// A generator seeded from the clock.
    pub fn new() -> SimpleRng {
        SimpleRng::from_reading(clock_nanos())
    }

    /// A generator seeded from a clock reading.
    pub fn from_reading(reading: Option<u64>) -> (r: SimpleRng)
        ensures
            r.state == seed_of(reading),
    {
        SimpleRng { state: seed_from(reading) }
    }

    /// A generator with the given seed.
    pub fn from_seed(seed: u64) -> (r: SimpleRng)
        ensures
            r.state == seed,
    {
        SimpleRng { state: seed }
    }

    /// Advances the generator and returns its new state.
    pub fn next_u64(&mut self) -> (r: u64)
        ensures
            final(self).state == lcg(old(self).state),
            r == final(self).state,
    {
        self.state = stir(self.state);
        self.state
    }

    /// Advances the generator and returns its new state modulo `max`.
    pub fn usize(&mut self, max: usize) -> (r: usize)
        requires
            max > 0,
        ensures
            final(self).state == lcg(old(self).state),
            r as int == lcg(old(self).state) as int % max as int,
            r < max,
    {
        let x = self.next_u64();
        (x % (max as u64)) as usize
    }
}

} // verus!
