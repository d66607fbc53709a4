//! Retry policy for TypeSafe requests.
//!
//! TypeSafe's own SDKs retry with backoff by default; the HTTP API does not do
//! it for you. The defaults match the documented SDK policy.

use vstd::prelude::*;

use crate::text::{parse_u64, parsed_u64, trim, trimmed};
use crate::time::{max_nanos, nanos_per_second, Duration};

verus! {

/// Two to the power `e`.
pub open spec fn pow2(e: nat) -> nat
    decreases e,
{
    if e == 0 {
        1
    } else {
        2 * pow2((e - 1) as nat)
    }
}

/// The doubling exponent for attempt number `attempt`: one less than the
/// attempt, floored at zero and capped at 16.
pub open spec fn backoff_exponent(attempt: u32) -> nat {
    let e: nat = if attempt >= 1 {
        (attempt - 1) as nat
    } else {
        0
    };
    if e > 16 {
        16
    } else {
        e
    }
}

/// The span `d * k`, or the longest span when that would not fit.
pub open spec fn saturating_product(d: nat, k: nat) -> nat {
    if d * k <= max_nanos() {
        d * k
    } else {
        max_nanos()
    }
}

/// The smaller of two numbers.
pub open spec fn min_nat(a: nat, b: nat) -> nat {
    if a <= b {
        a
    } else {
        b
    }
}

/// The jitter fraction in millionths, capped at one whole.
pub open spec fn jitter_fraction(jitter: u32) -> nat {
    min_nat(jitter as nat, 1_000_000)
}

/// `base` scaled by `1 + jitter * (2 * unit - 1)`, where `unit` is
/// `entropy % 1_000_000` millionths and `jitter` is in millionths, rounded
/// down to whole nanoseconds.
pub open spec fn jittered(base: nat, jitter: u32, entropy: u32) -> int {
    let unit = (entropy % 1_000_000) as nat;
    let j = jitter_fraction(jitter);
    if 2 * unit >= 1_000_000 {
        base + (base * (j * (2 * unit - 1_000_000))) / 1_000_000_000_000
    } else {
        base - (base * (j * (1_000_000 - 2 * unit)) + 999_999_999_999) / 1_000_000_000_000
    }
}

/// Retry statuses of the documented SDK policy: 408, 429, and every 5xx.
pub open spec fn default_statuses() -> Seq<u16> {
    seq![408u16, 429u16] + Seq::new(100, |i: int| (500 + i) as u16)
}

#[verifier::external_type_specification]
#[verifier::external_body]
pub struct ExSystemTime(std::time::SystemTime);

/// The current wall-clock time.
///
/// Trusted: calls `std::time::SystemTime::now`. The value depends on when it
/// is called, so the contract says nothing of it.
#[verifier::external_body]
fn clock_now() -> (t: std::time::SystemTime) {
    std::time::SystemTime::now()
}

/// The span from the Unix epoch to `t`, or `None` when `t` is earlier.
///
/// Trusted: calls `SystemTime::duration_since(UNIX_EPOCH)` and keeps its
/// `Ok` value. The result depends on the clock reading, so the contract says
/// nothing of it.
#[verifier::external_body]
fn since_unix_epoch(t: std::time::SystemTime) -> (d: Option<std::time::Duration>) {
    t.duration_since(std::time::UNIX_EPOCH).ok()
}

/// The nanoseconds of `d` past its whole seconds.
///
/// Trusted: calls `std::time::Duration::subsec_nanos`, which std documents as
/// always less than one billion; the contract says that.
#[verifier::external_body]
fn subsec_nanos_of(d: std::time::Duration) -> (n: u32)
    ensures
        n < 1_000_000_000,
{
    d.subsec_nanos()
}

/// Sub-second nanoseconds of the wall clock since the Unix epoch, or 0 when
/// the clock is set before it; used to spread retries.
fn clock_subsec_nanos() -> (n: u32)
    ensures
        n < 1_000_000_000,
{
    match since_unix_epoch(clock_now()) {
        Some(d) => subsec_nanos_of(d),
        None => 0,
    }
}

/// How the client reacts to retryable failures.
#[derive(Clone, Debug)]
pub struct RetryPolicy {
    /// Retries after the initial attempt. 0 disables retrying.
    pub max_retries: u32,
    /// Delay before the first retry; doubles each attempt.
    pub backoff_initial: Duration,
    /// Ceiling for the doubling.
    pub backoff_max: Duration,
    /// Fraction of the delay to randomize, in millionths, spreading retries
    /// from concurrent callers so they do not land together. 250_000 means
    /// +/-25%; anything above 1_000_000 counts as 1_000_000.
    pub backoff_jitter: u32,
    /// Statuses worth another attempt.
    pub retry_statuses: Vec<u16>,
    /// Honour a `retry-after` header instead of the computed backoff.
    pub respect_retry_after: bool,
    /// Retry when the connection itself failed.
    pub retry_on_connection_error: bool,
    /// Retry when the request timed out.
    pub retry_on_timeout: bool,
}

/// The computed backoff before attempt number `attempt`, before jitter:
/// the initial delay doubled per attempt after the first, saturating, and
/// capped at the ceiling.
pub open spec fn backoff_base(p: RetryPolicy, attempt: u32) -> nat {
    min_nat(saturating_product(p.backoff_initial@, pow2(backoff_exponent(attempt))), p.backoff_max@)
}

/// Whether jitter can never push the backoff before attempt number
/// `attempt` past the longest span.
pub open spec fn jitter_fits_at(p: RetryPolicy, attempt: u32) -> bool {
    p.backoff_jitter == 0 || backoff_base(p, attempt) + (backoff_base(p, attempt) * jitter_fraction(
        p.backoff_jitter,
    )) / 1_000_000 <= max_nanos()
}

/// Whether `d` is a delay that `delay_for(attempt, retry_after)` may give:
/// the server's delay when the policy honours it, the computed backoff when
/// there is no jitter, and otherwise that backoff jittered by some clock
/// reading.
pub open spec fn delay_allowed(
    p: RetryPolicy,
    attempt: u32,
    retry_after: Option<Duration>,
    d: Duration,
) -> bool {
    if p.respect_retry_after && retry_after is Some {
        d == retry_after->Some_0
    } else if p.backoff_jitter == 0 {
        d@ == backoff_base(p, attempt)
    } else {
        exists|e: u32| e < 1_000_000_000 && d@ == jittered(backoff_base(p, attempt), p.backoff_jitter, e)
    }
}

fn pow2_u32(e: u32) -> (r: u32)
    requires
        e <= 16,
    ensures
        r == pow2(e as nat),
{
    let mut r: u32 = 1;
    let mut i: u32 = 0;
    while i < e
        invariant
            i <= e <= 16,
            r == pow2(i as nat),
            r <= 65536,
        decreases e - i,
    {
        proof {
            lemma_pow2_le(i as nat + 1, 16);
            lemma_pow2_16();
            assert(pow2((i + 1) as nat) == 2 * pow2(i as nat));
        }
        r = r * 2;
        i = i + 1;
    }
    r
}

/// `pow2` grows with its exponent.
pub proof fn lemma_pow2_le(a: nat, b: nat)
    requires
        a <= b,
    ensures
        pow2(a) <= pow2(b),
    decreases b,
{
    if b > a {
        lemma_pow2_le(a, (b - 1) as nat);
    }
}

proof fn lemma_pow2_16()
    ensures
        pow2(16) == 65536,
{
    reveal_with_fuel(pow2, 17);
}

/// Dividing `x * m + c` by `d` splits over the quotient and remainder of `x`.
proof fn lemma_split_product(x: int, m: int, d: int, c: int)
    requires
        x >= 0,
        m >= 0,
        c >= 0,
        d > 0,
    ensures
        (x * m + c) / d == (x / d) * m + ((x % d) * m + c) / d,
{
    let q = x / d;
    let r = x % d;
    let t = r * m + c;
    vstd::arithmetic::div_mod::lemma_fundamental_div_mod(x, d);
    assert(x * m + c == q * m * d + t) by (nonlinear_arith)
        requires
            x == d * q + r,
            t == r * m + c,
    ;
    let tq = t / d;
    let tr = t % d;
    vstd::arithmetic::div_mod::lemma_fundamental_div_mod(t, d);
    assert(x * m + c == (q * m + tq) * d + tr) by (nonlinear_arith)
        requires
            x * m + c == q * m * d + t,
            t == d * tq + tr,
    ;
    vstd::arithmetic::div_mod::lemma_fundamental_div_mod_converse(x * m + c, d, q * m + tq, tr);
}

impl RetryPolicy {
    /// A policy that never retries. Use when the caller sits in a latency
    /// budget it cannot overrun, and would rather fail fast.
    pub fn none() -> (p: RetryPolicy)
        ensures
            p.max_retries == 0,
            p.backoff_initial@ == 500_000_000,
            p.backoff_max@ == 5_000_000_000,
            p.backoff_jitter == 250_000,
            p.retry_statuses@ == default_statuses(),
            p.respect_retry_after,
            p.retry_on_connection_error,
            p.retry_on_timeout,
    {
        RetryPolicy { max_retries: 0, ..RetryPolicy::default() }
    }

    /// Whether this status is worth another attempt.
    pub fn retries_status(&self, status: u16) -> (b: bool)
        ensures
            b == self.retry_statuses@.contains(status),
    {
        let n = self.retry_statuses.len();
        for i in 0..n
            invariant
                n == self.retry_statuses@.len(),
                forall|j: int| 0 <= j < i ==> self.retry_statuses@[j] != status,
        {
            if self.retry_statuses[i] == status {
                return true;
            }
        }
        false
    }

    /// The computed backoff before attempt number `attempt`, without jitter.
    pub fn backoff(&self, attempt: u32) -> (d: Duration)
        ensures
            d@ == backoff_base(*self, attempt),
    {
        let e0: u32 = if attempt >= 1 {
            attempt - 1
        } else {
            0
        };
        let exponent: u32 = if e0 > 16 {
            16
        } else {
            e0
        };
        let factor = pow2_u32(exponent);
        self.backoff_initial.saturating_mul(factor).min(self.backoff_max)
    }

    /// Whether jitter can never push the backoff before attempt number
    /// `attempt` past the longest span; `delay_for` needs this.
    pub fn jitter_bounded(&self, attempt: u32) -> (b: bool)
        ensures
            b == jitter_fits_at(*self, attempt),
    {
        if self.backoff_jitter == 0 {
            return true;
        }
        let j: u128 = if self.backoff_jitter > 1_000_000 {
            1_000_000
        } else {
            self.backoff_jitter as u128
        };
        let m = self.backoff(attempt).as_nanos();
        assert(m * j <= 18_446_744_073_709_551_615_999_999_999u128 * 1_000_000) by (nonlinear_arith)
            requires
                m <= 18_446_744_073_709_551_615_999_999_999u128,
                j <= 1_000_000,
        ;
        m + (m * j) / 1_000_000 <= 18_446_744_073_709_551_615_999_999_999u128
    }

    /// `base` with jitter applied for the clock reading `entropy`: scaled by
    /// `1 + jitter * (2 * unit - 1)` where `unit` is `entropy % 1_000_000`
    /// millionths, or `base` itself when the policy has no jitter.
    pub fn apply_jitter(&self, base: Duration, entropy: u32) -> (d: Duration)
        requires
            self.backoff_jitter == 0 || jittered(base@, self.backoff_jitter, entropy) <= max_nanos(),
        ensures
            d@ == if self.backoff_jitter == 0 {
                base@ as int
            } else {
                jittered(base@, self.backoff_jitter, entropy)
            },
    {
        if self.backoff_jitter == 0 {
            return base;
        }
        let b = base.as_nanos();
        let unit: u128 = (entropy % 1_000_000) as u128;
        let j: u128 = if self.backoff_jitter > 1_000_000 {
            1_000_000
        } else {
            self.backoff_jitter as u128
        };
        let q = b / 1_000_000_000_000;
        let r = b % 1_000_000_000_000;
        if 2 * unit >= 1_000_000 {
            assert(j * (2 * unit - 1_000_000) <= 1_000_000_000_000) by (nonlinear_arith)
                requires
                    j <= 1_000_000,
                    unit < 1_000_000,
                    2 * unit >= 1_000_000,
            ;
            let swing = j * (2 * unit - 1_000_000);
            assert(q <= 18_446_744_073_709_552);
            assert(q * swing <= 18_446_744_073_709_552 * 1_000_000_000_000) by (nonlinear_arith)
                requires
                    q <= 18_446_744_073_709_552,
                    swing <= 1_000_000_000_000,
            ;
            assert(r * swing <= 1_000_000_000_000 * 1_000_000_000_000) by (nonlinear_arith)
                requires
                    r < 1_000_000_000_000,
                    swing <= 1_000_000_000_000,
            ;
            let add = q * swing + (r * swing) / 1_000_000_000_000;
            proof {
                lemma_split_product(b as int, swing as int, 1_000_000_000_000, 0);
            }
            Duration::from_total_nanos(b + add)
        } else {
            assert(j * (1_000_000 - 2 * unit) <= 1_000_000_000_000) by (nonlinear_arith)
                requires
                    j <= 1_000_000,
                    2 * unit < 1_000_000,
            ;
            let swing = j * (1_000_000 - 2 * unit);
            assert(q <= 18_446_744_073_709_552);
            assert(q * swing <= 18_446_744_073_709_552 * 1_000_000_000_000) by (nonlinear_arith)
                requires
                    q <= 18_446_744_073_709_552,
                    swing <= 1_000_000_000_000,
            ;
            assert(r * swing <= 1_000_000_000_000 * 1_000_000_000_000) by (nonlinear_arith)
                requires
                    r < 1_000_000_000_000,
                    swing <= 1_000_000_000_000,
            ;
            let sub = q * swing + (r * swing + 999_999_999_999) / 1_000_000_000_000;
            proof {
                lemma_split_product(b as int, swing as int, 1_000_000_000_000, 999_999_999_999);
                assert(b * swing + 999_999_999_999 <= b * 1_000_000_000_000 + 999_999_999_999) by (nonlinear_arith)
                    requires
                        swing <= 1_000_000_000_000,
                ;
                assert((b * 1_000_000_000_000 + 999_999_999_999) / 1_000_000_000_000 == b as int) by {
                    vstd::arithmetic::div_mod::lemma_fundamental_div_mod_converse(
                        b * 1_000_000_000_000 + 999_999_999_999,
                        1_000_000_000_000,
                        b as int,
                        999_999_999_999,
                    );
                }
                vstd::arithmetic::div_mod::lemma_div_is_ordered(
                    b * swing + 999_999_999_999,
                    b * 1_000_000_000_000 + 999_999_999_999,
                    1_000_000_000_000,
                );
            }
            Duration::from_total_nanos(b - sub)
        }
    }

    /// How long to wait before attempt number `attempt`, where the first
    /// retry is attempt 1.
    ///
    /// A `retry_after` from the server wins over the computed backoff when
    /// the policy respects it, because the server knows when its own limit
    /// resets.
    pub fn delay_for(&self, attempt: u32, retry_after: Option<Duration>) -> (d: Duration)
        requires
            !(self.respect_retry_after && retry_after is Some) ==> jitter_fits_at(*self, attempt),
        ensures
            delay_allowed(*self, attempt, retry_after, d),
    {
        if self.respect_retry_after {
            if let Some(after) = retry_after {
                let d = after.min(self.backoff_max.max(after));
                proof {
                    crate::time::lemma_view_injective(d, after);
                }
                return d;
            }
        }
        let base = self.backoff(attempt);
        let entropy = clock_subsec_nanos();
        proof {
            if self.backoff_jitter != 0 {
                lemma_jitter_band(base@, self.backoff_jitter, entropy);
            }
        }
        let d = self.apply_jitter(base, entropy);
        proof {
            if self.backoff_jitter != 0 {
                assert(d@ == jittered(backoff_base(*self, attempt), self.backoff_jitter, entropy));
            }
        }
        d
    }
}

impl Default for RetryPolicy {
    fn default() -> (p: RetryPolicy)
        ensures
            p.max_retries == 2,
            p.backoff_initial@ == 500_000_000,
            p.backoff_max@ == 5_000_000_000,
            p.backoff_jitter == 250_000,
            p.retry_statuses@ == default_statuses(),
            p.respect_retry_after,
            p.retry_on_connection_error,
            p.retry_on_timeout,
    {
        let mut statuses: Vec<u16> = Vec::new();
        statuses.push(408);
        statuses.push(429);
        let mut s: u16 = 500;
        while s < 600
            invariant
                500 <= s <= 600,
                statuses@ == seq![408u16, 429u16] + Seq::new((s - 500) as nat, |i: int| (500 + i) as u16),
            decreases 600 - s,
        {
            statuses.push(s);
            proof {
                assert(statuses@ =~= seq![408u16, 429u16] + Seq::new((s + 1 - 500) as nat, |i: int| (500 + i) as u16));
            }
            s = s + 1;
        }
        RetryPolicy {
            max_retries: 2,
            backoff_initial: Duration::from_millis(500),
            backoff_max: Duration::from_secs(5),
            backoff_jitter: 250_000,
            retry_statuses: statuses,
            respect_retry_after: true,
            retry_on_connection_error: true,
            retry_on_timeout: true,
        }
    }
}

/// Jitter moves a delay by at most its fraction of the delay, either way.
pub proof fn lemma_jitter_band(base: nat, jitter: u32, entropy: u32)
    ensures
        base - (base * jitter_fraction(jitter) + 999_999) / 1_000_000 <= jittered(base, jitter, entropy),
        jittered(base, jitter, entropy) <= base + (base * jitter_fraction(jitter)) / 1_000_000,
        0 <= jittered(base, jitter, entropy),
{
    let unit: int = (entropy % 1_000_000) as int;
    let j: int = jitter_fraction(jitter) as int;
    let b: int = base as int;
    let big: int = 1_000_000_000_000;
    if 2 * unit >= 1_000_000 {
        let swing = j * (2 * unit - 1_000_000);
        assert(swing <= j * 1_000_000) by (nonlinear_arith)
            requires
                0 <= unit < 1_000_000,
                2 * unit >= 1_000_000,
                j >= 0,
                swing == j * (2 * unit - 1_000_000),
        ;
        assert(b * swing <= b * j * 1_000_000) by (nonlinear_arith)
            requires
                swing <= j * 1_000_000,
                b >= 0,
        ;
        vstd::arithmetic::div_mod::lemma_div_is_ordered(b * swing, b * j * 1_000_000, big);
        assert((b * j * 1_000_000) / big == (b * j) / 1_000_000) by {
            assert(b * j * 1_000_000 == (b * j) * 1_000_000) by (nonlinear_arith);
            vstd::arithmetic::div_mod::lemma_div_denominator((b * j * 1_000_000) as int, 1_000_000, 1_000_000);
            vstd::arithmetic::div_mod::lemma_div_multiples_vanish((b * j) as int, 1_000_000);
        }
        assert(swing >= 0) by (nonlinear_arith)
            requires
                2 * unit >= 1_000_000,
                j >= 0,
                swing == j * (2 * unit - 1_000_000),
        ;
        assert(b * swing >= 0) by (nonlinear_arith)
            requires
                swing >= 0,
                b >= 0,
        ;
        vstd::arithmetic::div_mod::lemma_div_pos_is_pos(b * swing, big);
        assert(0 <= (b * j + 999_999) / 1_000_000) by {
            vstd::arithmetic::div_mod::lemma_div_pos_is_pos((b * j + 999_999) as int, 1_000_000);
        }
    } else {
        let swing = j * (1_000_000 - 2 * unit);
        assert(swing <= j * 1_000_000) by (nonlinear_arith)
            requires
                0 <= unit,
                2 * unit < 1_000_000,
                j >= 0,
                swing == j * (1_000_000 - 2 * unit),
        ;
        assert(j * 1_000_000 <= big) by (nonlinear_arith)
            requires
                j <= 1_000_000,
                big == 1_000_000_000_000,
        ;
        assert(b * swing + 999_999_999_999 <= b * j * 1_000_000 + 999_999_999_999) by (nonlinear_arith)
            requires
                swing <= j * 1_000_000,
                b >= 0,
        ;
        vstd::arithmetic::div_mod::lemma_div_is_ordered(
            b * swing + 999_999_999_999,
            b * j * 1_000_000 + 999_999_999_999,
            big,
        );
        assert((b * j * 1_000_000 + 999_999_999_999) / big == (b * j + 999_999) / 1_000_000) by {
            let a = b * j;
            let qa = a / 1_000_000;
            let ra = a % 1_000_000;
            vstd::arithmetic::div_mod::lemma_fundamental_div_mod(a as int, 1_000_000);
            // Both sides round a up to whole millionths.
            assert(a * 1_000_000 + 999_999_999_999 == qa * big + (ra * 1_000_000 + 999_999_999_999)) by (nonlinear_arith)
                requires
                    a == qa * 1_000_000 + ra,
                    big == 1_000_000_000_000,
            ;
            let lhs_q: int = if ra == 0 { qa } else { qa + 1 };
            let lhs_r: int = if ra == 0 { 999_999_999_999 } else { (ra - 1) * 1_000_000 + 999_999 };
            vstd::arithmetic::div_mod::lemma_fundamental_div_mod_converse(
                a * 1_000_000 + 999_999_999_999,
                big,
                lhs_q,
                lhs_r,
            );
            vstd::arithmetic::div_mod::lemma_fundamental_div_mod_converse(
                a + 999_999,
                1_000_000,
                lhs_q,
                if ra == 0 { 999_999 } else { ra - 1 },
            );
        }
        assert(b * swing + 999_999_999_999 <= b * big + 999_999_999_999) by (nonlinear_arith)
            requires
                swing <= j * 1_000_000,
                j * 1_000_000 <= big,
                b >= 0,
        ;
        vstd::arithmetic::div_mod::lemma_div_is_ordered(
            b * swing + 999_999_999_999,
            b * big + 999_999_999_999,
            big,
        );
        vstd::arithmetic::div_mod::lemma_fundamental_div_mod_converse(
            b * big + 999_999_999_999,
            big,
            b as int,
            999_999_999_999,
        );
    }
}

/// The computed backoff never exceeds the policy's ceiling.
pub proof fn lemma_backoff_capped(p: RetryPolicy, attempt: u32)
    ensures
        backoff_base(p, attempt) <= p.backoff_max@,
{
}

/// The computed backoff never shrinks from one attempt to a later one.
pub proof fn lemma_backoff_grows(p: RetryPolicy, earlier: u32, later: u32)
    requires
        earlier <= later,
    ensures
        backoff_base(p, earlier) <= backoff_base(p, later),
{
    let e1 = backoff_exponent(earlier);
    let e2 = backoff_exponent(later);
    lemma_pow2_le(e1, e2);
    let d = p.backoff_initial@;
    assert(d * pow2(e1) <= d * pow2(e2)) by (nonlinear_arith)
        requires
            pow2(e1) <= pow2(e2),
    ;
}

/// The documented policy retries exactly 408, 429 and every 5xx.
pub proof fn lemma_default_statuses(status: u16)
    ensures
        default_statuses().contains(status) <==> (status == 408 || status == 429 || (500 <= status
            && status < 600)),
{
    let s = default_statuses();
    if status == 408 {
        assert(s[0] == status);
    } else if status == 429 {
        assert(s[1] == status);
    } else if 500 <= status < 600 {
        assert(s[status - 498] == status);
    } else {
        assert forall|i: int| 0 <= i < s.len() implies s[i] != status by {
            if i >= 2 {
                assert(s[i] == (500 + (i - 2)) as u16);
            }
        }
    }
}

/// Parse a `retry-after` header value.
///
/// Only the delay-seconds form is handled. The HTTP-date form gives `None`,
/// which falls back to exponential backoff rather than retrying immediately.
pub fn parse_retry_after(value: &str) -> (r: Option<Duration>)
    ensures
        match parsed_u64(trimmed(value@)) {
            Some(secs) => r matches Some(d) && d@ == secs * nanos_per_second(),
            None => r is None,
        },
{
    let t = trim(value);
    match parse_u64(t.as_str()) {
        Some(secs) => Some(Duration::from_secs(secs)),
        None => None,
    }
}

} // verus!
