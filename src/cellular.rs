//! SimpleCellular latency model, in whole nanoseconds: propagation over the
//! air and over fibre, one packet's transmission per hop, and one queueing
//! delay per hop drawn by the caller.
use vstd::prelude::*;

verus! {

/// Range of one base station, in metres.
pub const MAX_WIRELESS_M: u64 = 500;

/// Length of one backhaul hop, in metres.
pub const MAX_BACKHAUL_M: u64 = 10000;

/// Transmission of one 1500-byte packet at 100 Mbit/s, in nanoseconds.
pub const ACCESS_TX_NS: u64 = 120000;

/// Transmission of one 1500-byte packet at 10 Gbit/s, in nanoseconds.
pub const BACKHAUL_TX_NS: u64 = 1200;

/// Mean of the exponential queueing delay per hop, in nanoseconds.
pub const MEAN_QUEUE_NS: u64 = 500000;

/// How long an estimate stays fresh, in milliseconds.
pub const ESTIMATE_TTL_MS: u64 = 60000;

/// Access hops: one under the same base station, two otherwise.
pub open spec fn access_hops(d: nat) -> nat {
    if d <= MAX_WIRELESS_M {
        1
    } else {
        2
    }
}

/// Backhaul hops: none under the same base station, otherwise one per
/// started `MAX_BACKHAUL_M` beyond the wireless range.
pub open spec fn backhaul_hops(d: nat) -> nat {
    if d <= MAX_WIRELESS_M {
        0
    } else {
        ((d - MAX_WIRELESS_M + MAX_BACKHAUL_M - 1) as nat / MAX_BACKHAUL_M as nat) as nat
    }
}

/// Sum of a sequence of delays.
pub open spec fn total(q: Seq<u64>) -> nat
    decreases q.len(),
{
    if q.len() == 0 {
        0
    } else {
        total(q.drop_last()) + q.last() as nat
    }
}

/// Modelled one-way latency over `d` metres, `q` holding one queueing
/// delay per hop: air propagation at 3e8 m/s over at most the wireless range
/// for each access hop, fibre propagation at 2e8 m/s over the rest, one
/// packet transmission per hop on its link, and the queueing delays.
pub open spec fn latency_ns(d: nat, q: Seq<u64>) -> nat {
    let air = if d <= MAX_WIRELESS_M { d } else { MAX_WIRELESS_M as nat };
    let fibre = if d <= MAX_WIRELESS_M { 0 } else { (d - MAX_WIRELESS_M) as nat };
    ((air * 10 * access_hops(d)) / 3 + fibre * 5 + access_hops(d) * ACCESS_TX_NS + backhaul_hops(d) * BACKHAUL_TX_NS
        + total(q)) as nat
}

/// Number of access and backhaul hops over `distance_m` metres.
pub fn cellular_hops(distance_m: u64) -> (r: (u64, u64))
    ensures
        r.0 == access_hops(distance_m as nat),
        r.1 == backhaul_hops(distance_m as nat),
        r.1 <= 0x8_0000_0000_0000,
{
    if distance_m <= MAX_WIRELESS_M {
        (1, 0)
    } else {
        let beyond = distance_m - MAX_WIRELESS_M;
        let hops = beyond / MAX_BACKHAUL_M + if beyond % MAX_BACKHAUL_M == 0 { 0 } else { 1 };
        assert(hops == (beyond + MAX_BACKHAUL_M - 1) as nat / MAX_BACKHAUL_M as nat) by {
            lemma_ceil_div(beyond as nat, MAX_BACKHAUL_M as nat);
        }
        assert(beyond / MAX_BACKHAUL_M <= 0x7_0000_0000_0000) by (nonlinear_arith)
            requires
                beyond <= 0xFFFF_FFFF_FFFF_FFFF,
        ;
        (2, hops)
    }
}

proof fn lemma_ceil_div(x: nat, d: nat)
    requires
        d > 0,
    ensures
        (x + d - 1) as nat / d == x / d + if x % d == 0 { 0nat } else { 1nat },
{
    vstd::arithmetic::div_mod::lemma_fundamental_div_mod(x as int, d as int);
    let q = x / d;
    let r = x % d;
    vstd::arithmetic::div_mod::lemma_mod_bound(x as int, d as int);
    if r == 0 {
        assert(x + d - 1 == d * q + (d - 1));
        vstd::arithmetic::div_mod::lemma_div_multiples_vanish_fancy(q as int, (d - 1) as int, d as int);
    } else {
        assert(x + d - 1 == d * (q + 1) + (r - 1)) by (nonlinear_arith)
            requires
                x == d * q + r,
        ;
        vstd::arithmetic::div_mod::lemma_div_multiples_vanish_fancy(q as int + 1, (r - 1) as int, d as int);
    }
}

/// The modelled latency over `distance_m` metres with the queueing delays
/// `queue_ns`, one per hop, access hops first; saturates at `u64::MAX`.
pub fn cellular_latency_ns(distance_m: u64, queue_ns: &Vec<u64>) -> (r: u64)
    requires
        queue_ns@.len() == access_hops(distance_m as nat) + backhaul_hops(distance_m as nat),
    ensures
        r == (if latency_ns(distance_m as nat, queue_ns@) <= u64::MAX {
            latency_ns(distance_m as nat, queue_ns@)
        } else {
            u64::MAX as nat
        }),
{
    let (access, backhaul) = cellular_hops(distance_m);
    assert(backhaul as u128 * BACKHAUL_TX_NS as u128 <= 0x8_0000_0000_0000 * 1200) by (nonlinear_arith)
        requires
            backhaul <= 0x8_0000_0000_0000,
    ;
    let air: u128 = if distance_m <= MAX_WIRELESS_M { distance_m as u128 } else { MAX_WIRELESS_M as u128 };
    let fibre: u128 = if distance_m <= MAX_WIRELESS_M { 0 } else { (distance_m - MAX_WIRELESS_M) as u128 };
    assert(air * 10 * access as u128 <= 0xFFFF_FFFF_FFFF_FFFF * 20) by (nonlinear_arith)
        requires
            air <= 0xFFFF_FFFF_FFFF_FFFF,
            access <= 2,
    ;
    assert(access as u128 * ACCESS_TX_NS as u128 <= 240000) by (nonlinear_arith)
        requires
            access <= 2,
    ;
    let mut sum: u128 = (air * 10 * access as u128) / 3 + fibre * 5 + access as u128 * ACCESS_TX_NS as u128
        + backhaul as u128 * BACKHAUL_TX_NS as u128;
    let ghost base = sum as nat;
    let mut k: usize = 0;
    while k < queue_ns.len()
        invariant
            0 <= k <= queue_ns@.len(),
            base < 0x1_0000_0000_0000_0000_0000,
            sum == base + total(queue_ns@.subrange(0, k as int)),
            total(queue_ns@.subrange(0, k as int)) <= k * 0xFFFF_FFFF_FFFF_FFFF,
            queue_ns@.len() <= 0x8_0000_0000_0002,
        decreases queue_ns@.len() - k,
    {
        assert(queue_ns@.subrange(0, k + 1).drop_last() == queue_ns@.subrange(0, k as int));
        assert(total(queue_ns@.subrange(0, k + 1)) <= (k + 1) * 0xFFFF_FFFF_FFFF_FFFF) by (nonlinear_arith)
            requires
                total(queue_ns@.subrange(0, k + 1)) == total(queue_ns@.subrange(0, k as int)) + queue_ns@[k as int],
                total(queue_ns@.subrange(0, k as int)) <= k * 0xFFFF_FFFF_FFFF_FFFF,
                queue_ns@[k as int] <= 0xFFFF_FFFF_FFFF_FFFF,
        ;
        assert((k + 1) * 0xFFFF_FFFF_FFFF_FFFFnat <= 0x8_0000_0000_0002 * 0xFFFF_FFFF_FFFF_FFFFnat) by (nonlinear_arith)
            requires
                k + 1 <= 0x8_0000_0000_0002,
        ;
        sum = sum + queue_ns[k] as u128;
        k = k + 1;
    }
    assert(queue_ns@.subrange(0, queue_ns@.len() as int) == queue_ns@);
    if sum > u64::MAX as u128 {
        u64::MAX
    } else {
        sum as u64
    }
}

/// Whether a cached estimate must be recomputed at `now_ms`: it was never
/// computed (zero) or it is older than `ESTIMATE_TTL_MS`.
pub fn estimate_is_stale(latency_ns: u64, computed_at_ms: u64, now_ms: u64) -> (r: bool)
    ensures
        r == (latency_ns == 0 || now_ms > computed_at_ms + ESTIMATE_TTL_MS),
{
    latency_ns == 0 || (now_ms >= computed_at_ms && now_ms - computed_at_ms > ESTIMATE_TTL_MS)
}

} // verus!
