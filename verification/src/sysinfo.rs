//! Memory use and network speed as the capsule shows them.
use vstd::prelude::*;
use vstd::arithmetic::power2::{pow2, lemma2_to64, lemma_pow2_unfold, lemma_pow2_pos, lemma_pow2_strictly_increases};
use crate::text::{decimal, digit, digit_char, push_char, push_decimal, push_text};

verus! {

/// What the expanded capsule shows of the system.
pub struct SystemStats {
    pub memory_percent: u32,
    pub net_up_speed: String,
    pub net_down_speed: String,
}

/// `a / d` rounded to the nearest integer, a tie going to the even one.
pub open spec fn round_half_even(a: nat, d: nat) -> nat {
    let q = a / d;
    let r = a % d;
    if 2 * r > d || (2 * r == d && q % 2 == 1) {
        q + 1
    } else {
        q
    }
}

/// The number of binary digits of `n` (0 for zero).
pub open spec fn bit_length(n: nat) -> nat
    decreases n,
{
    if n == 0 {
        0
    } else {
        1 + bit_length(n / 2)
    }
}

/// The value of `n as f64`: `n` itself where it fits in the 53 bits of an
/// `f64`'s significand, otherwise the nearest multiple of the unit of its
/// last significant bit, a tie going to the even multiple.
pub open spec fn f64_nearest(n: nat) -> nat {
    if bit_length(n) <= 53 {
        n
    } else {
        let u = pow2((bit_length(n) - 53) as nat);
        round_half_even(n, u) * u
    }
}

/// A number of tenths written with one decimal: `12.3` for 123.
pub open spec fn tenths_text(t: nat) -> Seq<char> {
    decimal(t / 10) + seq!['.', digit_char(t % 10)]
}

/// A speed in bytes per second as the capsule shows it: whole bytes below
/// 1024, else kilobytes below 1024 * 1024, else megabytes, the last two
/// rounded to one decimal as `{:.1}` rounds the `f64` value.
pub open spec fn speed_text(bytes: nat) -> Seq<char> {
    if bytes < 1024 {
        decimal(bytes) + " B/s"@
    } else if bytes < 1048576 {
        tenths_text(round_half_even(bytes * 10, 1024)) + " KB/s"@
    } else {
        tenths_text(round_half_even(f64_nearest(bytes) * 10, 1048576)) + " MB/s"@
    }
}

fn round_half_even_exec(a: u128, d: u128) -> (r: u128)
    requires
        0 < d <= 0x1_0000_0000,
        a < 0x1_0000_0000_0000_0000_0000_0000,
    ensures
        r == round_half_even(a as nat, d as nat),
        r <= a / d + 1,
{
    let q = a / d;
    let r = a % d;
    assert(q <= a) by (nonlinear_arith)
        requires
            d > 0,
            q == a / d,
    ;
    if 2 * r > d || (2 * r == d && q % 2 == 1) {
        q + 1
    } else {
        q
    }
}

proof fn lemma_bit_length_bound(n: nat, k: nat)
    requires
        n < pow2(k),
    ensures
        bit_length(n) <= k,
    decreases k,
{
    if n > 0 {
        if k == 0 {
            assert(pow2(0) == 1) by {
                lemma2_to64();
            }
        } else {
            lemma_pow2_unfold(k);
            lemma_bit_length_bound(n / 2, (k - 1) as nat);
        }
    }
}

proof fn lemma_round_bound(n: nat, u: nat)
    requires
        u > 0,
    ensures
        round_half_even(n, u) * u <= n + u,
{
    let q = n / u;
    let r = n % u;
    assert(q * u + r == n && r >= 0) by (nonlinear_arith)
        requires
            u > 0,
            q == n / u,
            r == n % u,
    ;
    assert((q + 1) * u == q * u + u) by (nonlinear_arith);
    assert(q * u <= n);
    assert(round_half_even(n, u) <= q + 1);
    assert(round_half_even(n, u) * u <= (q + 1) * u) by (nonlinear_arith)
        requires
            round_half_even(n, u) <= q + 1,
            u > 0,
    ;
}

fn bit_length_exec(n: u64) -> (r: u32)
    ensures
        r == bit_length(n as nat),
        r <= 64,
{
    proof {
        lemma2_to64();
        lemma_bit_length_bound(n as nat, 64);
    }
    let mut m = n;
    let mut len: u32 = 0;
    while m > 0
        invariant
            bit_length(n as nat) == len + bit_length(m as nat),
            bit_length(n as nat) <= 64,
        decreases m,
    {
        m = m / 2;
        len = len + 1;
    }
    len
}

fn pow2_exec(e: u32) -> (r: u128)
    requires
        e <= 11,
    ensures
        r == pow2(e as nat),
        r <= 2048,
{
    proof {
        lemma2_to64();
    }
    let mut u: u128 = 1;
    let mut i: u32 = 0;
    while i < e
        invariant
            i <= e <= 11,
            u == pow2(i as nat),
        decreases e - i,
    {
        proof {
            lemma_pow2_unfold((i + 1) as nat);
            lemma_pow2_strictly_increases(i as nat, 11);
            lemma2_to64();
        }
        u = u * 2;
        i = i + 1;
    }
    u
}

/// `n as f64`, as a whole number.
fn f64_nearest_exec(n: u64) -> (r: u128)
    ensures
        r == f64_nearest(n as nat),
        r <= 0x1_0000_0000_0000_0000 + 2048,
{
    let bl = bit_length_exec(n);
    if bl <= 53 {
        return n as u128;
    }
    let u = pow2_exec(bl - 53);
    proof {
        lemma_pow2_pos((bl - 53) as nat);
    }
    let q = round_half_even_exec(n as u128, u);
    proof {
        lemma_round_bound(n as nat, u as nat);
    }
    q * u
}

fn push_tenths(s: &mut String, t: u64)
    ensures
        final(s)@ == old(s)@ + tenths_text(t as nat),
{
    push_decimal(s, t / 10);
    push_char(s, '.');
    push_char(s, digit(t % 10));
    assert(final(s)@ =~= old(s)@ + tenths_text(t as nat));
}

/// A speed in bytes per second as the capsule shows it, such as `512 B/s`,
/// `1.5 KB/s` or `2.0 MB/s`.
pub fn format_speed(bytes: u64) -> (r: String)
    ensures
        r@ == speed_text(bytes as nat),
{
    let mut s = String::new();
    if bytes < 1024 {
        push_decimal(&mut s, bytes);
        push_text(&mut s, " B/s");
    } else if bytes < 1048576 {
        let t = round_half_even_exec(bytes as u128 * 10, 1024);
        push_tenths(&mut s, t as u64);
        push_text(&mut s, " KB/s");
    } else {
        let f = f64_nearest_exec(bytes);
        let t = round_half_even_exec(f * 10, 1048576);
        push_tenths(&mut s, t as u64);
        push_text(&mut s, " MB/s");
    }
    s
}

/// The figures of the expanded capsule: the memory load as given, and both
/// network speeds written out.
pub fn get_system_stats(memory_percent: u32, net_up: u64, net_down: u64) -> (r: SystemStats)
    ensures
        r.memory_percent == memory_percent,
        r.net_up_speed@ == speed_text(net_up as nat),
        r.net_down_speed@ == speed_text(net_down as nat),
{
    SystemStats {
        memory_percent,
        net_up_speed: format_speed(net_up),
        net_down_speed: format_speed(net_down),
    }
}

/// The sum of the first octet counter over the table's rows.
pub open spec fn sum_out(rows: Seq<(u32, u32)>) -> nat
    decreases rows.len(),
{
    if rows.len() == 0 {
        0
    } else {
        sum_out(rows.drop_last()) + rows.last().0 as nat
    }
}

/// The sum of the second octet counter over the table's rows.
pub open spec fn sum_in(rows: Seq<(u32, u32)>) -> nat
    decreases rows.len(),
{
    if rows.len() == 0 {
        0
    } else {
        sum_in(rows.drop_last()) + rows.last().1 as nat
    }
}

/// The octets sent and received over all interfaces, from the rows
/// `(sent, received)` of the interface table (which has at most `u32::MAX`
/// rows).
pub fn total_octets(rows: &Vec<(u32, u32)>) -> (r: (u64, u64))
    requires
        rows@.len() <= u32::MAX,
    ensures
        r.0 == sum_out(rows@),
        r.1 == sum_in(rows@),
{
    let n = rows.len();
    let mut up: u64 = 0;
    let mut down: u64 = 0;
    let mut i: usize = 0;
    while i < n
        invariant
            n == rows@.len(),
            n <= u32::MAX,
            i <= n,
            up == sum_out(rows@.take(i as int)),
            down == sum_in(rows@.take(i as int)),
            up <= i * 0xFFFF_FFFF,
            down <= i * 0xFFFF_FFFF,
        decreases n - i,
    {
        assert(rows@.take(i + 1).drop_last() =~= rows@.take(i as int));
        up = up + rows[i].0 as u64;
        down = down + rows[i].1 as u64;
        i = i + 1;
    }
    assert(rows@.take(n as int) =~= rows@);
    (up, down)
}

/// Bytes per second from two readings of a counter: 0 where the counter went
/// back.
pub open spec fn speed_of(total: u64, prev: u64, duration: u64) -> u64 {
    if total >= prev {
        ((total - prev) as u64) / duration
    } else {
        0
    }
}

/// The last reading of the octet counters, from which the next reading
/// gives the speeds.
pub struct NetworkSampler {
    pub prev_up: u64,
    pub prev_down: u64,
    pub prev_time: u64,
}

impl NetworkSampler {
    /// No reading yet.
    pub fn new() -> (r: Self)
        ensures
            r.prev_up == 0 && r.prev_down == 0 && r.prev_time == 0,
    {
        NetworkSampler { prev_up: 0, prev_down: 0, prev_time: 0 }
    }

    /// Takes a reading at `now_secs` (seconds since the Unix epoch).
    /// `totals` holds the octets sent and received, or none where the
    /// interface table could not be read; then the speeds are 0 and the last
    /// reading stays. Otherwise the reading replaces the last one, and the
    /// speeds are 0 for the first reading or where the clock did not advance.
    pub fn sample(&mut self, now_secs: u64, totals: Option<(u64, u64)>) -> (r: (u64, u64))
        ensures
            totals is None ==> r == (0u64, 0u64) && *final(self) == *old(self),
            totals matches Some(t) ==> {
                &&& final(self).prev_up == t.0
                &&& final(self).prev_down == t.1
                &&& final(self).prev_time == now_secs
                &&& r == (if old(self).prev_time == 0 || now_secs <= old(self).prev_time {
                    (0u64, 0u64)
                } else {
                    (
                        speed_of(t.0, old(self).prev_up, (now_secs - old(self).prev_time) as u64),
                        speed_of(t.1, old(self).prev_down, (now_secs - old(self).prev_time) as u64),
                    )
                })
            },
    {
        match totals {
            None => (0, 0),
            Some((up, down)) => {
                let prev_up = self.prev_up;
                let prev_down = self.prev_down;
                let prev_time = self.prev_time;
                self.prev_up = up;
                self.prev_down = down;
                self.prev_time = now_secs;
                if prev_time == 0 || now_secs <= prev_time {
                    return (0, 0);
                }
                let duration = now_secs - prev_time;
                let speed_up = if up >= prev_up {
                    (up - prev_up) / duration
                } else {
                    0
                };
                let speed_down = if down >= prev_down {
                    (down - prev_down) / duration
                } else {
                    0
                };
                (speed_up, speed_down)
            },
        }
    }
}

/// Law: a speed never claims more bytes over the interval than the counter
/// grew by.
pub proof fn law_speed_within_growth(total: u64, prev: u64, duration: u64)
    requires
        duration > 0,
    ensures
        speed_of(total, prev, duration) * duration <= (if total >= prev {
            total - prev
        } else {
            0
        }),
{
    if total >= prev {
        let g = (total - prev) as u64;
        assert((g / duration) * duration <= g) by (nonlinear_arith)
            requires
                duration > 0,
        ;
        let sp = speed_of(total, prev, duration);
        assert(sp == g / duration);
        assert(g == total - prev);
        assert(sp * duration <= g) by (nonlinear_arith)
            requires
                sp == g / duration,
                (g / duration) * duration <= g,
        ;
    } else {
        assert(speed_of(total, prev, duration) == 0);
    }
}

} // verus!
