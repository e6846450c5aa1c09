//! Trajectory series: a lazy, restartable cursor that flattens all beds'
//! stored trajectories into one per-component curve, with optional mole
//! fraction normalization, and the laws that hold of every produced pair.

use crate::configuration::{HaberBoschBedResult, HaberBoschInstance};
use crate::errors::HaberBoschError;
use crate::fixed::{lemma_norm_sum, tdiv, Fixed, SCALE};
use crate::simulation::State;
use vstd::prelude::*;

verus! {

/// The (position, state) samples of one bed's trajectory, in order.
pub open spec fn result_pairs(r: HaberBoschBedResult) -> Seq<(Fixed, State)> {
    Seq::new(r.x_out@.len(), |k: int| (r.x_out@[k], r.y_out@[k]))
}

/// All stored samples from bed `b` on, in bed order then sample order.
pub open spec fn flat_pairs_from(results: Seq<HaberBoschBedResult>, b: int) -> Seq<(Fixed, State)>
    decreases results.len() - b,
{
    if b < 0 || b >= results.len() {
        Seq::empty()
    } else {
        result_pairs(results[b]) + flat_pairs_from(results, b + 1)
    }
}

/// All stored samples of the instance, flattened across bed boundaries.
pub open spec fn flat_pairs(inst: HaberBoschInstance) -> Seq<(Fixed, State)> {
    flat_pairs_from(inst.results(), 0)
}

/// How many samples the beds before bed `b` store.
pub open spec fn flat_len_upto(results: Seq<HaberBoschBedResult>, b: int) -> int
    decreases b,
{
    if b <= 0 {
        0
    } else {
        flat_len_upto(results, b - 1) + results[b - 1].x_out@.len()
    }
}

pub(crate) proof fn lemma_upto_monotone(results: Seq<HaberBoschBedResult>, b1: int, b2: int)
    requires
        0 <= b1 <= b2,
    ensures
        flat_len_upto(results, b1) <= flat_len_upto(results, b2),
    decreases b2 - b1,
{
    if b1 < b2 {
        lemma_upto_monotone(results, b1, b2 - 1);
    }
}

/// The flattened suffix from bed `b` holds exactly the samples that the
/// prefix count leaves: suffix length plus prefix count is the total.
proof fn lemma_flat_len_from(results: Seq<HaberBoschBedResult>, b: int)
    requires
        0 <= b <= results.len(),
    ensures
        flat_pairs_from(results, b).len() + flat_len_upto(results, b) == flat_len_upto(
            results,
            results.len() as int,
        ),
    decreases results.len() - b,
{
    if b < results.len() {
        lemma_flat_len_from(results, b + 1);
        lemma_upto_unfold(results, b + 1);
    }
}

pub(crate) proof fn lemma_upto_unfold(results: Seq<HaberBoschBedResult>, b: int)
    requires
        1 <= b,
    ensures
        flat_len_upto(results, b) == flat_len_upto(results, b - 1) + results[b - 1].x_out@.len(),
{
}

/// The total number of stored samples.
pub open spec fn flat_total(results: Seq<HaberBoschBedResult>) -> int {
    flat_len_upto(results, results.len() as int)
}

pub(crate) proof fn lemma_flat_total(results: Seq<HaberBoschBedResult>)
    ensures
        flat_pairs_from(results, 0).len() == flat_total(results),
{
    lemma_flat_len_from(results, 0);
}

proof fn lemma_flat_index_from(results: Seq<HaberBoschBedResult>, b0: int, b: int, e: int)
    requires
        0 <= b0 <= b < results.len(),
        0 <= e < results[b].x_out@.len(),
        forall|i: int| 0 <= i < results.len() ==> (#[trigger] results[i]).wf(),
    ensures
        0 <= flat_len_upto(results, b) - flat_len_upto(results, b0) + e < flat_pairs_from(
            results,
            b0,
        ).len(),
        flat_pairs_from(results, b0)[flat_len_upto(results, b) - flat_len_upto(results, b0) + e]
            == (results[b].x_out@[e], results[b].y_out@[e]),
    decreases b - b0,
{
    lemma_upto_monotone(results, b0, b);
    let head = result_pairs(results[b0]);
    let tail = flat_pairs_from(results, b0 + 1);
    let i0 = flat_len_upto(results, b) - flat_len_upto(results, b0) + e;
    if b0 == b {
        assert(flat_pairs_from(results, b0)[i0] == head[e]);
    } else {
        lemma_flat_index_from(results, b0 + 1, b, e);
        lemma_upto_unfold(results, b0 + 1);
        lemma_upto_monotone(results, b0 + 1, b);
        assert(i0 - head.len() == flat_len_upto(results, b) - flat_len_upto(results, b0 + 1) + e);
        assert(flat_pairs_from(results, b0)[i0] == tail[i0 - head.len()]);
    }
}

/// The flattened position of sample `e` of bed `b`, and what stands there.
pub proof fn lemma_flat_index(results: Seq<HaberBoschBedResult>, b: int, e: int)
    requires
        0 <= b < results.len(),
        0 <= e < results[b].x_out@.len(),
        forall|i: int| 0 <= i < results.len() ==> (#[trigger] results[i]).wf(),
    ensures
        0 <= flat_len_upto(results, b) + e < flat_pairs_from(results, 0).len(),
        flat_pairs_from(results, 0)[flat_len_upto(results, b) + e] == (
            results[b].x_out@[e],
            results[b].y_out@[e],
        ),
{
    lemma_flat_index_from(results, 0, b, e);
}

/// Mole fraction normalization of one raw component against the raw sum of
/// the five mixture components; a zero sum leaves the value unnormalized.
pub open spec fn spec_norm(y: int, s: int) -> int {
    if s == 0 {
        y
    } else {
        tdiv(y * SCALE, s)
    }
}

/// The `y` value that the series yields for one sample: temperature shifted
/// from Kelvin to Celsius for component 5 (`normalize` ignored there), the
/// normalized or raw component value otherwise.
pub open spec fn spec_transform(st: State, comp: int, normalize: bool) -> Fixed {
    if comp == 5 {
        Fixed { raw: (st.t.raw - 273 * SCALE) as i128 }
    } else if normalize {
        Fixed { raw: spec_norm(st.spec_component(comp).raw as int, st.spec_sum5()) as i128 }
    } else {
        st.spec_component(comp)
    }
}

/// The whole series that `iter_my(comp, normalize)` walks: every stored
/// sample, in bed order then sample order, paired as (position, value).
pub open spec fn series_spec(inst: HaberBoschInstance, comp: int, normalize: bool) -> Seq<
    (Fixed, Fixed),
> {
    flat_pairs(inst).map_values(|p: (Fixed, State)| (p.0, spec_transform(p.1, comp, normalize)))
}

fn transform(st: &State, comp: usize, normalize: bool) -> (r: Fixed)
    requires
        comp <= 5,
        st.bounded(),
    ensures
        r == spec_transform(*st, comp as int, normalize),
{
    if comp == 5 {
        Fixed { raw: st.t.raw - 273_000_000_000 }
    } else if normalize {
        let y = st.component(comp);
        let s: i128 = st.sum5();
        if s == 0 {
            y
        } else {
            y.div(Fixed { raw: s })
        }
    } else {
        st.component(comp)
    }
}

/// A lazy, restartable cursor over the flattened trajectory series: the
/// next bed and the next sample within it. It does not borrow the
/// instance; each step takes the instance it walks.
#[derive(Clone, Copy, Debug)]
pub struct MyIterator {
    normalize: bool,
    comp_idx: usize,
    bed_idx: usize,
    ele_idx: usize,
}

impl MyIterator {
    pub closed spec fn spec_comp_idx(self) -> int {
        self.comp_idx as int
    }

    pub closed spec fn spec_normalize(self) -> bool {
        self.normalize
    }

    pub closed spec fn spec_bed_idx(self) -> int {
        self.bed_idx as int
    }

    pub closed spec fn spec_ele_idx(self) -> int {
        self.ele_idx as int
    }

    /// A cursor position that exists in `inst`: on a stored sample, or one
    /// past the last bed.
    pub open spec fn cursor_wf(self, inst: HaberBoschInstance) -> bool {
        &&& self.spec_comp_idx() <= 5
        &&& self.spec_bed_idx() <= inst.results().len()
        &&& if self.spec_bed_idx() < inst.results().len() {
            self.spec_ele_idx() < inst.results()[self.spec_bed_idx()].x_out@.len()
        } else {
            self.spec_ele_idx() == 0
        }
    }

    /// The flattened index of the sample the cursor stands on.
    pub open spec fn pos(self, inst: HaberBoschInstance) -> int {
        flat_len_upto(inst.results(), self.spec_bed_idx()) + self.spec_ele_idx()
    }

    /// Yields the pair at the cursor and advances it, or `None` once every
    /// stored sample has been yielded. Deterministic: the result is a
    /// function of the instance and the cursor position alone.
    pub fn next(&mut self, inst: &HaberBoschInstance) -> (r: Option<(Fixed, Fixed)>)
        requires
            inst.wf(),
            old(self).cursor_wf(*inst),
        ensures
            final(self).cursor_wf(*inst),
            final(self).spec_comp_idx() == old(self).spec_comp_idx(),
            final(self).spec_normalize() == old(self).spec_normalize(),
            old(self).pos(*inst) == series_spec(
                *inst,
                old(self).spec_comp_idx(),
                old(self).spec_normalize(),
            ).len() ==> r is None && *final(self) == *old(self),
            old(self).pos(*inst) < series_spec(
                *inst,
                old(self).spec_comp_idx(),
                old(self).spec_normalize(),
            ).len() ==> r == Some(
                series_spec(*inst, old(self).spec_comp_idx(), old(self).spec_normalize())[old(
                    self,
                ).pos(*inst)],
            ) && final(self).pos(*inst) == old(self).pos(*inst) + 1,
            old(self).pos(*inst) <= series_spec(
                *inst,
                old(self).spec_comp_idx(),
                old(self).spec_normalize(),
            ).len(),
    {
        let ghost res = inst.results();
        let ghost whole = series_spec(*inst, old(self).spec_comp_idx(), old(self).spec_normalize());
        let ghost p = old(self).pos(*inst);
        proof {
            lemma_flat_total(res);
            lemma_flat_len_from(res, self.spec_bed_idx());
            lemma_upto_monotone(res, 0, self.spec_bed_idx());
            assert(whole.len() == flat_pairs(*inst).len());
        }
        if self.bed_idx >= inst.results_len() {
            proof {
                assert(p == whole.len());
            }
            return None;
        }
        let ghost b = self.spec_bed_idx();
        let ghost e = self.spec_ele_idx();
        proof {
            lemma_flat_index(res, b, e);
            assert(p < whole.len());
        }
        let bed_res = inst.result_at(self.bed_idx);
        let x = bed_res.x_out[self.ele_idx];
        let y = transform(&bed_res.y_out[self.ele_idx], self.comp_idx, self.normalize);
        proof {
            assert(flat_pairs(*inst)[p] == (res[b].x_out@[e], res[b].y_out@[e]));
            assert(whole[p] == (x, y));
        }
        let n = bed_res.x_out.len();
        self.ele_idx = self.ele_idx + 1;
        if self.ele_idx >= n {
            self.ele_idx = 0;
            self.bed_idx = self.bed_idx + 1;
            proof {
                lemma_upto_unfold(res, b + 1);
            }
        }
        proof {
            assert(self.pos(*inst) == p + 1);
        }
        Some((x, y))
    }
}

impl HaberBoschInstance {
    /// A fresh series cursor for one component, optionally normalized.
    /// Fails with `InvalidComponentIndex` when `component` exceeds 5.
    pub fn iter_my(&self, component: usize, normalize: bool) -> (r: Result<
        MyIterator,
        HaberBoschError,
    >)
        requires
            self.wf(),
        ensures
            component > 5 ==> r == Err::<MyIterator, HaberBoschError>(
                HaberBoschError::InvalidComponentIndex,
            ),
            component <= 5 ==> (r matches Ok(it) && it.spec_comp_idx() == component
                && it.spec_normalize() == normalize && it.pos(*self) == 0 && it.cursor_wf(*self)),
    {
        if component > 5 {
            return Err(HaberBoschError::InvalidComponentIndex);
        }
        let it = MyIterator { normalize, comp_idx: component, bed_idx: 0, ele_idx: 0 };
        Ok(it)
    }

    /// The whole series as a vector: every stored sample's pair, in bed
    /// order then sample order. A second call with the same arguments
    /// yields the same sequence; nothing is mutated.
    pub fn series_points(&self, component: usize, normalize: bool) -> (r: Result<
        Vec<(Fixed, Fixed)>,
        HaberBoschError,
    >)
        requires
            self.wf(),
        ensures
            component > 5 ==> r == Err::<Vec<(Fixed, Fixed)>, HaberBoschError>(
                HaberBoschError::InvalidComponentIndex,
            ),
            component <= 5 ==> (r matches Ok(v) && v@ == series_spec(
                *self,
                component as int,
                normalize,
            )),
    {
        let ghost whole = series_spec(*self, component as int, normalize);
        let mut it = match self.iter_my(component, normalize) {
            Ok(i) => i,
            Err(e) => {
                return Err(e);
            },
        };
        let mut v: Vec<(Fixed, Fixed)> = Vec::new();
        let mut going = true;
        while going
            invariant
                self.wf(),
                it.cursor_wf(*self),
                it.spec_comp_idx() == component,
                it.spec_normalize() == normalize,
                whole == series_spec(*self, component as int, normalize),
                0 <= it.pos(*self) <= whole.len(),
                going ==> v@ == whole.take(it.pos(*self)),
                !going ==> v@ == whole,
            decreases whole.len() - it.pos(*self) + (if going {
                1int
            } else {
                0int
            }),
        {
            let ghost p = it.pos(*self);
            match it.next(self) {
                Some(pair) => {
                    v.push(pair);
                    proof {
                        assert(whole.take(p + 1) =~= whole.take(p).push(whole[p]));
                    }
                },
                None => {
                    going = false;
                    proof {
                        assert(whole.take(p) =~= whole);
                    }
                },
            }
        }
        Ok(v)
    }
}

/// The `y` of every temperature pair is the stored temperature shifted by
/// exactly 273 raw units of one, whatever `normalize` was: the temperature
/// series is independent of normalization.
pub proof fn lemma_temperature_series(inst: HaberBoschInstance, n1: bool, n2: bool)
    requires
        inst.wf(),
    ensures
        series_spec(inst, 5, n1) == series_spec(inst, 5, n2),
        forall|k: int|
            0 <= k < flat_pairs(inst).len() ==> (#[trigger] series_spec(inst, 5, n1)[k]).1.raw
                == flat_pairs(inst)[k].1.t.raw - 273 * SCALE,
        forall|k: int|
            0 <= k < flat_pairs(inst).len() ==> (#[trigger] series_spec(inst, 5, n1)[k]).0
                == flat_pairs(inst)[k].0,
{
    lemma_flat_samples_bounded(inst);
    assert(series_spec(inst, 5, n1) =~= series_spec(inst, 5, n2));
    assert forall|k: int| 0 <= k < flat_pairs(inst).len() implies (#[trigger] series_spec(
        inst,
        5,
        n1,
    )[k]).1.raw == flat_pairs(inst)[k].1.t.raw - 273 * SCALE by {
        let st = flat_pairs(inst)[k].1;
        assert(st.bounded());
        assert(series_spec(inst, 5, n1)[k].1 == spec_transform(st, 5, n1));
    }
}

/// Every flattened sample of a well-formed instance is bounded.
proof fn lemma_flat_samples_bounded_from(results: Seq<HaberBoschBedResult>, b: int)
    requires
        forall|i: int| 0 <= i < results.len() ==> (#[trigger] results[i]).wf(),
        0 <= b,
    ensures
        forall|k: int|
            0 <= k < flat_pairs_from(results, b).len() ==> (#[trigger] flat_pairs_from(results, b)[
            k]).1.bounded() && flat_pairs_from(results, b)[k].0.bounded(),
    decreases results.len() - b,
{
    if b < results.len() {
        lemma_flat_samples_bounded_from(results, b + 1);
        let head = result_pairs(results[b]);
        let tail = flat_pairs_from(results, b + 1);
        assert forall|k: int| 0 <= k < flat_pairs_from(results, b).len() implies (
        #[trigger] flat_pairs_from(results, b)[k]).1.bounded() && flat_pairs_from(results, b)[
            k].0.bounded() by {
            if k < head.len() {
                assert(flat_pairs_from(results, b)[k] == head[k]);
                assert(results[b].wf());
            } else {
                assert(flat_pairs_from(results, b)[k] == tail[k - head.len()]);
            }
        }
    }
}

pub proof fn lemma_flat_samples_bounded(inst: HaberBoschInstance)
    requires
        inst.wf(),
    ensures
        forall|k: int|
            0 <= k < flat_pairs(inst).len() ==> (#[trigger] flat_pairs(inst)[k]).1.bounded()
                && flat_pairs(inst)[k].0.bounded(),
{
    lemma_flat_samples_bounded_from(inst.results(), 0);
}

/// A sample whose five mixture components are nonnegative with a positive
/// sum; the feed and any physically meaningful solver output satisfy it.
pub open spec fn nonneg_composition(st: State) -> bool {
    &&& st.n2.raw >= 0
    &&& st.h2.raw >= 0
    &&& st.nh3.raw >= 0
    &&& st.ar.raw >= 0
    &&& st.ch4.raw >= 0
    &&& st.spec_sum5() > 0
}

/// The normalized values of one sample's five mixture components, summed.
pub open spec fn spec_norm_sum5(st: State) -> int {
    spec_norm(st.n2.raw as int, st.spec_sum5()) + spec_norm(st.h2.raw as int, st.spec_sum5())
        + spec_norm(st.nh3.raw as int, st.spec_sum5()) + spec_norm(
        st.ar.raw as int,
        st.spec_sum5(),
    ) + spec_norm(st.ch4.raw as int, st.spec_sum5())
}

/// On samples with nonnegative components and a positive sum, every
/// normalized series value lies in the unit interval, and at each sample
/// the five normalized components sum to one up to four raw steps of
/// truncation loss.
pub proof fn lemma_normalized_series_bounds(inst: HaberBoschInstance, comp: int)
    requires
        inst.wf(),
        0 <= comp < 5,
        forall|k: int|
            0 <= k < flat_pairs(inst).len() ==> nonneg_composition(
                (#[trigger] flat_pairs(inst)[k]).1,
            ),
    ensures
        forall|k: int|
            0 <= k < flat_pairs(inst).len() ==> 0 <= (#[trigger] series_spec(inst, comp, true)[
            k]).1.raw <= SCALE,
        forall|k: int|
            0 <= k < flat_pairs(inst).len() ==> SCALE - 4 <= spec_norm_sum5(
                (#[trigger] flat_pairs(inst)[k]).1,
            ) <= SCALE,
{
    assert forall|k: int| 0 <= k < flat_pairs(inst).len() implies 0 <= (#[trigger] series_spec(
        inst,
        comp,
        true,
    )[k]).1.raw <= SCALE by {
        let st = flat_pairs(inst)[k].1;
        lemma_norm_sum(
            st.n2.raw as int,
            st.h2.raw as int,
            st.nh3.raw as int,
            st.ar.raw as int,
            st.ch4.raw as int,
            st.spec_sum5(),
        );
        assert(series_spec(inst, comp, true)[k].1 == spec_transform(st, comp, true));
    }
    assert forall|k: int| 0 <= k < flat_pairs(inst).len() implies SCALE - 4 <= spec_norm_sum5(
        (#[trigger] flat_pairs(inst)[k]).1,
    ) <= SCALE by {
        let st = flat_pairs(inst)[k].1;
        lemma_norm_sum(
            st.n2.raw as int,
            st.h2.raw as int,
            st.nh3.raw as int,
            st.ar.raw as int,
            st.ch4.raw as int,
            st.spec_sum5(),
        );
    }
}

} // verus!
