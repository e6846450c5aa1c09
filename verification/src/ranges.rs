//! Derived scalar ranges over all stored results, and the run summary:
//! what downstream scaling and reporting read once the beds have run.

use crate::configuration::HaberBoschInstance;
use crate::fixed::{abs_int, lemma_tdiv_abs, Fixed, RAW_BOUND, SCALE};
use crate::series::{
    flat_len_upto, flat_pairs, lemma_flat_index, lemma_flat_samples_bounded, lemma_flat_total,
    lemma_upto_monotone, lemma_upto_unfold, series_spec, spec_norm, spec_transform,
};
use crate::simulation::State;
use vstd::prelude::*;

verus! {

/// A closed scalar interval, `start` through `end`.
#[derive(Clone, Copy, Debug, PartialEq, Eq, Structural)]
pub struct FixedRange {
    pub start: Fixed,
    pub end: Fixed,
}

/// The largest of the five raw mixture components of one sample.
pub open spec fn spec_max5(st: State) -> int {
    let m1 = if st.h2.raw > st.n2.raw {
        st.h2.raw as int
    } else {
        st.n2.raw as int
    };
    let m2 = if st.nh3.raw > m1 {
        st.nh3.raw as int
    } else {
        m1
    };
    let m3 = if st.ar.raw > m2 {
        st.ar.raw as int
    } else {
        m2
    };
    if st.ch4.raw > m3 {
        st.ch4.raw as int
    } else {
        m3
    }
}

/// One sample's peak concentration: its largest mixture component
/// normalized by the component sum.
pub open spec fn spec_conc(st: State) -> int {
    spec_norm(spec_max5(st), st.spec_sum5())
}

fn max5(st: &State) -> (r: i128)
    ensures
        r == spec_max5(*st),
{
    let mut m: i128 = st.n2.raw;
    if st.h2.raw > m {
        m = st.h2.raw;
    }
    if st.nh3.raw > m {
        m = st.nh3.raw;
    }
    if st.ar.raw > m {
        m = st.ar.raw;
    }
    if st.ch4.raw > m {
        m = st.ch4.raw;
    }
    m
}

fn concentration_of(st: &State) -> (r: i128)
    requires
        st.bounded(),
        st.spec_sum5() != 0,
    ensures
        r == spec_conc(*st),
        abs_int(r as int) <= RAW_BOUND * SCALE,
{
    let m = max5(st);
    let s = st.sum5();
    let c = Fixed { raw: m }.div(Fixed { raw: s });
    proof {
        lemma_tdiv_abs(m * SCALE, s as int);
        assert(abs_int(m * SCALE) <= RAW_BOUND * SCALE) by (nonlinear_arith)
            requires
                -RAW_BOUND <= m <= RAW_BOUND,
                SCALE > 0,
    ;
    }
    c.raw
}

/// The run summary: each bed's length along the integration coordinate,
/// the total reactor length, and the final ammonia yield.
#[derive(Clone, Debug)]
pub struct HaberBoschSummary {
    pub bed_lengths: Vec<Fixed>,
    pub total_length: Fixed,
    pub final_yield: Fixed,
}

impl HaberBoschInstance {
    /// The temperature interval covered by all stored samples, in Celsius:
    /// the unit interval when nothing is stored, a half-unit margin around
    /// a single sample, else exactly the attained minimum and maximum.
    pub fn get_temperature_range(&self) -> (r: FixedRange)
        requires
            self.wf(),
        ensures
            ({
                let ts = series_spec(*self, 5, false);
                &&& ts.len() == 0 ==> r.start.raw == 0 && r.end.raw == SCALE
                &&& ts.len() == 1 ==> r.start.raw == ts[0].1.raw - 500_000_000 && r.end.raw
                    == ts[0].1.raw + 500_000_000
                &&& ts.len() >= 2 ==> {
                    &&& forall|k: int|
                        0 <= k < ts.len() ==> r.start.raw <= (#[trigger] ts[k]).1.raw
                            <= r.end.raw
                    &&& exists|k: int| 0 <= k < ts.len() && (#[trigger] ts[k]).1.raw == r.start.raw
                    &&& exists|k: int| 0 <= k < ts.len() && (#[trigger] ts[k]).1.raw == r.end.raw
                }
            }),
    {
        let ghost ts = series_spec(*self, 5, false);
        proof {
            lemma_flat_samples_bounded(*self);
            assert forall|k: int|
                0 <= k < ts.len() implies -(RAW_BOUND + 273 * SCALE) <= (#[trigger] ts[k]).1.raw
                <= RAW_BOUND + 273 * SCALE by {
                assert(ts[k].1 == spec_transform(flat_pairs(*self)[k].1, 5, false));
                assert(flat_pairs(*self)[k].1.bounded());
            }
        }
        let pts = match self.series_points(5, false) {
            Ok(v) => v,
            Err(_) => {
                return FixedRange { start: Fixed { raw: 0 }, end: Fixed { raw: SCALE } };
            },
        };
        if pts.len() == 0 {
            return FixedRange { start: Fixed { raw: 0 }, end: Fixed { raw: SCALE } };
        }
        let mut lo: Fixed = pts[0].1;
        let mut hi: Fixed = pts[0].1;
        let mut i: usize = 1;
        proof {
            assert(ts[0].1.raw == lo.raw);
        }
        while i < pts.len()
            invariant
                1 <= i <= pts.len(),
                pts@ == ts,
                pts.len() == ts.len(),
                forall|k: int| 0 <= k < i ==> lo.raw <= (#[trigger] ts[k]).1.raw <= hi.raw,
                exists|k: int| 0 <= k < i && (#[trigger] ts[k]).1.raw == lo.raw,
                exists|k: int| 0 <= k < i && (#[trigger] ts[k]).1.raw == hi.raw,
                forall|k: int|
                    0 <= k < ts.len() ==> -(RAW_BOUND + 273 * SCALE) <= (#[trigger] ts[k]).1.raw
                        <= RAW_BOUND + 273 * SCALE,
            decreases pts.len() - i,
        {
            let v = pts[i].1;
            if v.raw < lo.raw {
                lo = v;
            }
            if v.raw > hi.raw {
                hi = v;
            }
            proof {
                assert(ts[i as int].1 == pts@[i as int].1);
            }
            i = i + 1;
        }
        if pts.len() == 1 {
            FixedRange {
                start: Fixed { raw: lo.raw - 500_000_000 },
                end: Fixed { raw: hi.raw + 500_000_000 },
            }
        } else {
            FixedRange { start: lo, end: hi }
        }
    }

    /// The covered stretch of the integration coordinate: zero through the
    /// last stored sample's position of the last bed.
    pub fn get_x_range(&self) -> (r: FixedRange)
        requires
            self.wf(),
            self.results().len() >= 1,
        ensures
            r.start.raw == 0,
            r.end == self.results().last().spec_last_x(),
    {
        let last = self.result_at(self.results_len() - 1);
        let x = last.x_out[last.x_out.len() - 1];
        FixedRange { start: Fixed { raw: 0 }, end: x }
    }

    /// The concentration interval for plotting: zero through the largest
    /// per-sample peak concentration, widened by a tenth of a unit.
    pub fn get_concentration_range(&self) -> (r: FixedRange)
        requires
            self.wf(),
            self.results().len() >= 1,
            forall|k: int|
                0 <= k < flat_pairs(*self).len() ==> (#[trigger] flat_pairs(
                    *self,
                )[k]).1.spec_sum5() != 0,
        ensures
            r.start.raw == 0,
            forall|k: int|
                0 <= k < flat_pairs(*self).len() ==> spec_conc((#[trigger] flat_pairs(*self)[k]).1)
                    + 100_000_000 <= r.end.raw,
            exists|k: int|
                0 <= k < flat_pairs(*self).len() && spec_conc((#[trigger] flat_pairs(*self)[k]).1)
                    + 100_000_000 == r.end.raw,
    {
        let ghost res = self.results();
        proof {
            lemma_flat_samples_bounded(*self);
            lemma_flat_total(res);
            lemma_flat_index(res, 0, 0);
        }
        let first = self.result_at(0);
        let mut best: i128 = concentration_of(&first.y_out[0]);
        let ghost mut wit: int = 0;
        let n = self.results_len();
        let mut b: usize = 0;
        while b < n
            invariant
                self.wf(),
                res == self.results(),
                n == res.len(),
                0 <= b <= n,
                forall|k: int|
                    0 <= k < flat_pairs(*self).len() ==> (#[trigger] flat_pairs(
                        *self,
                    )[k]).1.spec_sum5() != 0,
                forall|k: int|
                    0 <= k < flat_len_upto(res, b as int) ==> spec_conc(
                        (#[trigger] flat_pairs(*self)[k]).1,
                    ) <= best,
                b == 0 ==> best == spec_conc(flat_pairs(*self)[0].1),
                b > 0 ==> 0 <= wit < flat_len_upto(res, b as int) && best == spec_conc(
                    flat_pairs(*self)[wit].1,
                ),
                abs_int(best as int) <= RAW_BOUND * SCALE,
            decreases n - b,
        {
            proof {
                lemma_upto_monotone(res, 0, b as int);
                lemma_upto_unfold(res, b as int + 1);
                lemma_flat_total(res);
            }
            let cur = self.result_at(b);
            let m = cur.y_out.len();
            let mut e: usize = 0;
            while e < m
                invariant
                    self.wf(),
                    res == self.results(),
                    n == res.len(),
                    0 <= b < n,
                    m == res[b as int].y_out@.len(),
                    cur == res[b as int],
                    0 <= e <= m,
                    forall|k: int|
                        0 <= k < flat_pairs(*self).len() ==> (#[trigger] flat_pairs(
                            *self,
                        )[k]).1.spec_sum5() != 0,
                    forall|k: int|
                        0 <= k < flat_len_upto(res, b as int) + e ==> spec_conc(
                            (#[trigger] flat_pairs(*self)[k]).1,
                        ) <= best,
                    b == 0 && e == 0 ==> best == spec_conc(flat_pairs(*self)[0].1),
                    b as int + e > 0 ==> 0 <= wit < flat_len_upto(res, b as int) + e && best
                        == spec_conc(flat_pairs(*self)[wit].1),
                    abs_int(best as int) <= RAW_BOUND * SCALE,
                decreases m - e,
            {
                let ghost p = flat_len_upto(res, b as int) + e;
                proof {
                    lemma_flat_index(res, b as int, e as int);
                }
                let c = concentration_of(&cur.y_out[e]);
                if c > best {
                    best = c;
                    proof {
                        wit = p;
                    }
                } else {
                    proof {
                        if b == 0 && e == 0 {
                            wit = 0;
                        }
                    }
                }
                e = e + 1;
            }
            b = b + 1;
        }
        proof {
            lemma_flat_total(res);
        }
        FixedRange { start: Fixed { raw: 0 }, end: Fixed { raw: best + 100_000_000 } }
    }

    /// The run summary. Each bed's length is its last position minus the
    /// previous bed's last position (zero before bed zero); the yield is
    /// the final ammonia fraction of the final component sum.
    pub fn summary(&self) -> (r: HaberBoschSummary)
        requires
            self.wf(),
            self.results().len() >= 1,
            self.results().last().spec_last_y().spec_sum5() != 0,
        ensures
            r.bed_lengths@.len() == self.results().len(),
            forall|i: int|
                0 <= i < self.results().len() ==> (#[trigger] r.bed_lengths@[i]).raw
                    == self.results()[i].spec_last_x().raw - (if i == 0 {
                    0int
                } else {
                    self.results()[i - 1].spec_last_x().raw as int
                }),
            r.total_length == self.results().last().spec_last_x(),
            r.final_yield.raw == spec_norm(
                self.results().last().spec_last_y().nh3.raw as int,
                self.results().last().spec_last_y().spec_sum5(),
            ),
    {
        let n = self.results_len();
        let mut bed_lengths: Vec<Fixed> = Vec::new();
        let mut before: Fixed = Fixed { raw: 0 };
        let mut i: usize = 0;
        while i < n
            invariant
                self.wf(),
                n == self.results().len(),
                0 <= i <= n,
                bed_lengths@.len() == i,
                forall|j: int|
                    0 <= j < i ==> (#[trigger] bed_lengths@[j]).raw == self.results()[
                    j].spec_last_x().raw - (if j == 0 {
                        0int
                    } else {
                        self.results()[j - 1].spec_last_x().raw as int
                    }),
                i == 0 ==> before.raw == 0,
                i > 0 ==> before == self.results()[i - 1].spec_last_x(),
            decreases n - i,
        {
            let cur = self.result_at(i);
            let last_x = cur.x_out[cur.x_out.len() - 1];
            bed_lengths.push(last_x.sub(before));
            before = last_x;
            i = i + 1;
        }
        let last = self.result_at(n - 1);
        let total_length = last.x_out[last.x_out.len() - 1];
        let last_y = last.y_out[last.y_out.len() - 1];
        let s = last_y.sum5();
        let final_yield = last_y.nh3.div(Fixed { raw: s });
        HaberBoschSummary { bed_lengths, total_length, final_yield }
    }
}

} // verus!
