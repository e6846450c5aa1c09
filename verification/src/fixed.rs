//! Exact decimal fixed-point scalars.
//!
//! A `Fixed` stores a real quantity as an integer count of 10^-9 units, so
//! temperatures, pressures, partial pressures and bed coordinates are carried
//! exactly and every arithmetic step is proved free of overflow. Division and
//! scaling truncate toward zero, which `tdiv` states precisely.

use vstd::arithmetic::div_mod::{
    lemma_div_is_ordered, lemma_div_is_ordered_by_denominator, lemma_div_multiples_vanish,
    lemma_fundamental_div_mod, lemma_mod_bound,
};
use vstd::prelude::*;

verus! {

/// Number of raw steps in one unit: `Fixed { raw: SCALE }` is the value one.
pub const SCALE: i128 = 1_000_000_000;

/// Magnitude bound (10^9 units) under which the operations here are proved
/// free of overflow.
pub const RAW_BOUND: i128 = 1_000_000_000_000_000_000;

/// Absolute value of a mathematical integer.
pub open spec fn abs_int(x: int) -> int {
    if x >= 0 {
        x
    } else {
        -x
    }
}

/// Division truncated toward zero, the rounding that the executable
/// operations below perform. `q` must not be zero for the result to be
/// meaningful.
pub open spec fn tdiv(p: int, q: int) -> int {
    if (p >= 0) == (q >= 0) {
        abs_int(p) / abs_int(q)
    } else {
        -(abs_int(p) / abs_int(q))
    }
}

/// A real quantity held as `raw` counts of 10^-9 units.
#[derive(Clone, Copy, Debug, PartialEq, Eq, Structural)]
pub struct Fixed {
    pub raw: i128,
}

impl Fixed {
    /// The magnitude range on which `sub`, `mul` and `div` are proved
    /// free of overflow.
    pub open spec fn bounded(self) -> bool {
        -RAW_BOUND <= self.raw <= RAW_BOUND
    }

    /// The fixed-point image of a whole number of units.
    pub fn from_int(n: i64) -> (r: Fixed)
        ensures
            r.raw == n * SCALE,
    {
        Fixed { raw: (n as i128) * SCALE }
    }

    pub fn from_raw(raw: i128) -> (r: Fixed)
        ensures
            r.raw == raw,
    {
        Fixed { raw }
    }

    pub fn sub(self, o: Fixed) -> (r: Fixed)
        requires
            self.bounded(),
            o.bounded(),
        ensures
            r.raw == self.raw - o.raw,
    {
        Fixed { raw: self.raw - o.raw }
    }

    /// Fixed-point product: the raw product scaled back down, truncated
    /// toward zero.
    pub fn mul(self, o: Fixed) -> (r: Fixed)
        requires
            self.bounded(),
            o.bounded(),
        ensures
            r.raw == tdiv(self.raw * o.raw, SCALE as int),
    {
        proof {
            assert(-RAW_BOUND * RAW_BOUND <= self.raw * o.raw <= RAW_BOUND * RAW_BOUND)
                by (nonlinear_arith)
                requires
                    -RAW_BOUND <= self.raw <= RAW_BOUND,
                    -RAW_BOUND <= o.raw <= RAW_BOUND,
            ;
        }
        let p: i128 = self.raw * o.raw;
        if p >= 0 {
            Fixed { raw: p / SCALE }
        } else {
            Fixed { raw: -((-p) / SCALE) }
        }
    }

    /// Fixed-point quotient: the numerator brought to raw scale, divided,
    /// truncated toward zero.
    pub fn div(self, o: Fixed) -> (r: Fixed)
        requires
            self.bounded(),
            o.raw != 0,
            -RAW_BOUND * SCALE <= o.raw,
        ensures
            r.raw == tdiv(self.raw * SCALE, o.raw as int),
    {
        let pm: i128 = if self.raw >= 0 {
            self.raw
        } else {
            -self.raw
        };
        let qm: i128 = if o.raw >= 0 {
            o.raw
        } else {
            -o.raw
        };
        let m: i128 = (pm * SCALE) / qm;
        if (self.raw >= 0) == (o.raw >= 0) {
            Fixed { raw: m }
        } else {
            Fixed { raw: -m }
        }
    }

}

/// A numerator between zero and the denominator divides to a value between
/// zero and one.
pub proof fn lemma_tdiv_unit_interval(p: int, q: int)
    requires
        0 <= p <= q,
        0 < q,
    ensures
        0 <= tdiv(p * SCALE, q) <= SCALE,
{
    let s = SCALE as int;
    assert(p * s >= 0 && q * s > 0 && p * s <= q * s) by (nonlinear_arith)
        requires
            0 <= p <= q,
            0 < q,
            s == SCALE,
    ;
    lemma_div_is_ordered(p * s, q * s, q);
    lemma_div_multiples_vanish(s, q);
    assert(q * s == s * q) by (nonlinear_arith);
    lemma_div_pos_is_pos_local(p * s, q);
}

proof fn lemma_div_pos_is_pos_local(x: int, d: int)
    requires
        0 <= x,
        0 < d,
    ensures
        0 <= x / d,
{
    lemma_fundamental_div_mod(x, d);
    lemma_mod_bound(x, d);
    assert(x == d * (x / d) + x % d);
    if x / d < 0 {
        assert(d * (x / d) <= -d) by (nonlinear_arith)
            requires
                0 < d,
                x / d <= -1,
        ;
    }
}

/// Five nonnegative shares of a positive total, each normalized by the
/// total, lie in the unit interval and sum to one up to four raw steps of
/// truncation loss.
pub proof fn lemma_norm_sum(a: int, b: int, c: int, d: int, e: int, t: int)
    requires
        0 <= a,
        0 <= b,
        0 <= c,
        0 <= d,
        0 <= e,
        t == a + b + c + d + e,
        0 < t,
    ensures
        0 <= tdiv(a * SCALE, t) <= SCALE,
        0 <= tdiv(b * SCALE, t) <= SCALE,
        0 <= tdiv(c * SCALE, t) <= SCALE,
        0 <= tdiv(d * SCALE, t) <= SCALE,
        0 <= tdiv(e * SCALE, t) <= SCALE,
        SCALE - 4 <= tdiv(a * SCALE, t) + tdiv(b * SCALE, t) + tdiv(c * SCALE, t) + tdiv(
            d * SCALE,
            t,
        ) + tdiv(e * SCALE, t) <= SCALE,
{
    let s = SCALE as int;
    lemma_tdiv_unit_interval(a, t);
    lemma_tdiv_unit_interval(b, t);
    lemma_tdiv_unit_interval(c, t);
    lemma_tdiv_unit_interval(d, t);
    lemma_tdiv_unit_interval(e, t);
    lemma_fundamental_div_mod(a * s, t);
    lemma_fundamental_div_mod(b * s, t);
    lemma_fundamental_div_mod(c * s, t);
    lemma_fundamental_div_mod(d * s, t);
    lemma_fundamental_div_mod(e * s, t);
    lemma_mod_bound(a * s, t);
    lemma_mod_bound(b * s, t);
    lemma_mod_bound(c * s, t);
    lemma_mod_bound(d * s, t);
    lemma_mod_bound(e * s, t);
    let qa = (a * s) / t;
    let qb = (b * s) / t;
    let qc = (c * s) / t;
    let qd = (d * s) / t;
    let qe = (e * s) / t;
    let q = qa + qb + qc + qd + qe;
    assert(a * s + b * s + c * s + d * s + e * s == t * s) by (nonlinear_arith)
        requires
            t == a + b + c + d + e,
    ;
    assert(t * q <= t * s && t * s < t * q + 5 * t) by (nonlinear_arith)
        requires
            a * s == t * qa + (a * s) % t,
            b * s == t * qb + (b * s) % t,
            c * s == t * qc + (c * s) % t,
            d * s == t * qd + (d * s) % t,
            e * s == t * qe + (e * s) % t,
            a * s + b * s + c * s + d * s + e * s == t * s,
            q == qa + qb + qc + qd + qe,
            0 <= (a * s) % t < t,
            0 <= (b * s) % t < t,
            0 <= (c * s) % t < t,
            0 <= (d * s) % t < t,
            0 <= (e * s) % t < t,
    ;
    assert(q <= s && s - 5 < q) by (nonlinear_arith)
        requires
            0 < t,
            t * q <= t * s,
            t * s < t * q + 5 * t,
    ;
}

/// Truncated division never grows the magnitude of the numerator.
pub proof fn lemma_tdiv_abs(p: int, q: int)
    requires
        q != 0,
    ensures
        abs_int(tdiv(p, q)) <= abs_int(p),
{
    let ap = abs_int(p);
    let aq = abs_int(q);
    lemma_div_pos_is_pos_local(ap, aq);
    assert(ap / 1 == ap) by (nonlinear_arith);
    if aq > 1 {
        lemma_div_is_ordered_by_denominator(ap, 1, aq);
    }
}

} // verus!
