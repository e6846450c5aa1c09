//! Reactor configuration: the catalyst set, per-bed thermal profiles, the
//! instance that owns beds and their results, and the builder that
//! assembles it.

use crate::errors::HaberBoschError;
use crate::fixed::{tdiv, Fixed, SCALE};
use crate::simulation::{feed_fractions, spec_feed_fractions, spec_model, HaberBoschModel, HaberBoschSolverInfo, State};
use vstd::prelude::*;

verus! {

/// The closed set of supported catalysts.
#[derive(Clone, Copy, Debug, PartialEq, Eq, Structural)]
pub enum Catalyst {
    KMIR,
    FN,
}

/// The whitespace that `Catalyst::from_str` strips from both ends.
pub open spec fn spec_is_space(c: char) -> bool {
    c == ' ' || c == '\t' || c == '\n' || c == '\r'
}

pub open spec fn trim_front(s: Seq<char>) -> Seq<char>
    decreases s.len(),
{
    if s.len() > 0 && spec_is_space(s[0]) {
        trim_front(s.drop_first())
    } else {
        s
    }
}

pub open spec fn trim_back(s: Seq<char>) -> Seq<char>
    decreases s.len(),
{
    if s.len() > 0 && spec_is_space(s[s.len() - 1]) {
        trim_back(s.drop_last())
    } else {
        s
    }
}

/// The text with leading and trailing whitespace removed.
pub open spec fn spec_trim(s: Seq<char>) -> Seq<char> {
    trim_back(trim_front(s))
}

/// A case-insensitive match of the four letters of "kmir".
pub open spec fn spec_matches_kmir(s: Seq<char>) -> bool {
    &&& s.len() == 4
    &&& (s[0] == 'k' || s[0] == 'K')
    &&& (s[1] == 'm' || s[1] == 'M')
    &&& (s[2] == 'i' || s[2] == 'I')
    &&& (s[3] == 'r' || s[3] == 'R')
}

/// A case-insensitive match of the two letters of "fn".
pub open spec fn spec_matches_fn(s: Seq<char>) -> bool {
    &&& s.len() == 2
    &&& (s[0] == 'f' || s[0] == 'F')
    &&& (s[1] == 'n' || s[1] == 'N')
}

/// What parsing catalyst text returns: the matching catalyst, or
/// `UnknownCatalyst` when the trimmed text names neither.
pub open spec fn spec_parse_catalyst(s: Seq<char>) -> Result<Catalyst, HaberBoschError> {
    if spec_matches_kmir(spec_trim(s)) {
        Ok(Catalyst::KMIR)
    } else if spec_matches_fn(spec_trim(s)) {
        Ok(Catalyst::FN)
    } else {
        Err(HaberBoschError::UnknownCatalyst)
    }
}

fn is_space(c: char) -> (r: bool)
    ensures
        r == spec_is_space(c),
{
    c == ' ' || c == '\t' || c == '\n' || c == '\r'
}

impl Catalyst {
    /// Parses catalyst text, ignoring case and surrounding whitespace.
    pub fn from_str(s: &str) -> (r: Result<Catalyst, HaberBoschError>)
        ensures
            r == spec_parse_catalyst(s@),
    {
        let n: usize = s.unicode_len();
        let mut lo: usize = 0;
        proof {
            assert(s@.skip(0) =~= s@);
        }
        while lo < n && is_space(s.get_char(lo))
            invariant
                lo <= n,
                n == s@.len(),
                trim_front(s@) == trim_front(s@.skip(lo as int)),
            decreases n - lo,
        {
            proof {
                assert(s@.skip(lo as int)[0] == s@[lo as int]);
                assert(s@.skip(lo as int).drop_first() =~= s@.skip(lo as int + 1));
            }
            lo = lo + 1;
        }
        proof {
            if lo < n {
                assert(s@.skip(lo as int)[0] == s@[lo as int]);
            }
            assert(trim_front(s@) =~= s@.skip(lo as int));
            assert(s@.skip(lo as int) =~= s@.subrange(lo as int, n as int));
        }
        let mut hi: usize = n;
        while hi > lo && is_space(s.get_char(hi - 1))
            invariant
                lo <= hi <= n,
                n == s@.len(),
                trim_front(s@) == s@.skip(lo as int),
                trim_back(s@.skip(lo as int)) == trim_back(s@.subrange(lo as int, hi as int)),
            decreases hi,
        {
            proof {
                let sub = s@.subrange(lo as int, hi as int);
                assert(sub[sub.len() - 1] == s@[hi as int - 1]);
                assert(sub.drop_last() =~= s@.subrange(lo as int, hi as int - 1));
            }
            hi = hi - 1;
        }
        proof {
            let sub = s@.subrange(lo as int, hi as int);
            if hi > lo {
                assert(sub[sub.len() - 1] == s@[hi as int - 1]);
            }
            assert(spec_trim(s@) =~= s@.subrange(lo as int, hi as int));
        }
        let len: usize = hi - lo;
        if len == 4 {
            let c0 = s.get_char(lo);
            let c1 = s.get_char(lo + 1);
            let c2 = s.get_char(lo + 2);
            let c3 = s.get_char(lo + 3);
            if (c0 == 'k' || c0 == 'K') && (c1 == 'm' || c1 == 'M') && (c2 == 'i' || c2 == 'I')
                && (c3 == 'r' || c3 == 'R') {
                return Ok(Catalyst::KMIR);
            }
        } else if len == 2 {
            let c0 = s.get_char(lo);
            let c1 = s.get_char(lo + 1);
            if (c0 == 'f' || c0 == 'F') && (c1 == 'n' || c1 == 'N') {
                return Ok(Catalyst::FN);
            }
        }
        Err(HaberBoschError::UnknownCatalyst)
    }

    /// The display label of the catalyst.
    pub open spec fn spec_label(self) -> Seq<char> {
        match self {
            Catalyst::FN => "Catalyst FN"@,
            Catalyst::KMIR => "Catalyst KMIR"@,
        }
    }

    /// A text form of the catalyst name, as reports print it.
    pub fn to_string(&self) -> (r: String)
        ensures
            r@ == self.spec_label(),
    {
        match self {
            Catalyst::FN => "Catalyst FN".to_owned(),
            Catalyst::KMIR => "Catalyst KMIR".to_owned(),
        }
    }
}

/// One bed's thermal profile: `beta` parameterizes the equilibrium-constant
/// correlation, and `t_start`/`t_slope`/`t_max` define the clamped linear
/// temperature ramp along the bed's integration coordinate.
#[derive(Clone, Copy, Debug, PartialEq, Eq, Structural)]
pub struct HaberBoschBedSetup {
    pub beta: Fixed,
    pub t_start: Fixed,
    pub t_slope: Fixed,
    pub t_max: Fixed,
}

impl Default for HaberBoschBedSetup {
    fn default() -> (r: Self)
        ensures
            r.beta.raw == 0,
            r.t_start.raw == 0,
            r.t_slope.raw == 0,
            r.t_max.raw == 0,
    {
        HaberBoschBedSetup {
            beta: Fixed { raw: 0 },
            t_start: Fixed { raw: 0 },
            t_slope: Fixed { raw: 0 },
            t_max: Fixed { raw: 0 },
        }
    }
}

/// The built-in bed profiles of the two reference case studies, by catalyst
/// and bed position. Temperatures are Kelvin; beds beyond the tabulated two
/// have no entry.
pub open spec fn spec_bed_constants(cat: Catalyst, idx: u32) -> Option<HaberBoschBedSetup> {
    match cat {
        Catalyst::KMIR => if idx == 0 {
            Some(
                HaberBoschBedSetup {
                    beta: Fixed { raw: -2_691_122_000i128 },
                    t_start: Fixed { raw: 713_000_000_000 },
                    t_slope: Fixed { raw: 10_000_000_000 },
                    t_max: Fixed { raw: 727_000_000_000 },
                },
            )
        } else if idx == 1 {
            Some(
                HaberBoschBedSetup {
                    beta: Fixed { raw: -2_708_000_000i128 },
                    t_start: Fixed { raw: 673_000_000_000 },
                    t_slope: Fixed { raw: 7_500_000_000 },
                    t_max: Fixed { raw: 727_000_000_000 },
                },
            )
        } else {
            None
        },
        Catalyst::FN => if idx == 0 {
            Some(
                HaberBoschBedSetup {
                    beta: Fixed { raw: -2_691_122_000i128 },
                    t_start: Fixed { raw: 643_000_000_000 },
                    t_slope: Fixed { raw: 30_000_000_000 },
                    t_max: Fixed { raw: 727_000_000_000 },
                },
            )
        } else if idx == 1 {
            Some(
                HaberBoschBedSetup {
                    beta: Fixed { raw: -2_708_000_000i128 },
                    t_start: Fixed { raw: 623_000_000_000 },
                    t_slope: Fixed { raw: 15_000_000_000 },
                    t_max: Fixed { raw: 727_000_000_000 },
                },
            )
        } else {
            None
        },
    }
}

impl HaberBoschBedSetup {
    /// A zeroed profile, to be filled field by field.
    pub fn new() -> (r: Self)
        ensures
            r.beta.raw == 0,
            r.t_start.raw == 0,
            r.t_slope.raw == 0,
            r.t_max.raw == 0,
    {
        Self::default()
    }

    /// The tabulated profile of bed `idx` for the named catalyst:
    /// `UnknownCatalyst` when the text parses to no catalyst,
    /// `BedIndexOutOfRange` when the table has no bed `idx`.
    pub fn from_constants(idx: u32, catalyst: &str) -> (r: Result<Self, HaberBoschError>)
        ensures
            r == match spec_parse_catalyst(catalyst@) {
                Err(e) => Err::<Self, HaberBoschError>(e),
                Ok(cat) => match spec_bed_constants(cat, idx) {
                    Some(b) => Ok::<Self, HaberBoschError>(b),
                    None => Err::<Self, HaberBoschError>(HaberBoschError::BedIndexOutOfRange),
                },
            },
    {
        let cat = match Catalyst::from_str(catalyst) {
            Ok(c) => c,
            Err(e) => {
                return Err(e);
            },
        };
        match cat {
            Catalyst::KMIR => {
                if idx == 0 {
                    Ok(
                        HaberBoschBedSetup {
                            beta: Fixed { raw: -2_691_122_000 },
                            t_start: Fixed { raw: 713_000_000_000 },
                            t_slope: Fixed { raw: 10_000_000_000 },
                            t_max: Fixed { raw: 727_000_000_000 },
                        },
                    )
                } else if idx == 1 {
                    Ok(
                        HaberBoschBedSetup {
                            beta: Fixed { raw: -2_708_000_000 },
                            t_start: Fixed { raw: 673_000_000_000 },
                            t_slope: Fixed { raw: 7_500_000_000 },
                            t_max: Fixed { raw: 727_000_000_000 },
                        },
                    )
                } else {
                    Err(HaberBoschError::BedIndexOutOfRange)
                }
            },
            Catalyst::FN => {
                if idx == 0 {
                    Ok(
                        HaberBoschBedSetup {
                            beta: Fixed { raw: -2_691_122_000 },
                            t_start: Fixed { raw: 643_000_000_000 },
                            t_slope: Fixed { raw: 30_000_000_000 },
                            t_max: Fixed { raw: 727_000_000_000 },
                        },
                    )
                } else if idx == 1 {
                    Ok(
                        HaberBoschBedSetup {
                            beta: Fixed { raw: -2_708_000_000 },
                            t_start: Fixed { raw: 623_000_000_000 },
                            t_slope: Fixed { raw: 15_000_000_000 },
                            t_max: Fixed { raw: 727_000_000_000 },
                        },
                    )
                } else {
                    Err(HaberBoschError::BedIndexOutOfRange)
                }
            },
        }
    }

    /// The profile's fields all lie in the overflow-safe range.
    pub open spec fn bounded(self) -> bool {
        &&& self.beta.bounded()
        &&& self.t_start.bounded()
        &&& self.t_slope.bounded()
        &&& self.t_max.bounded()
    }
}

/// One bed's stored trajectory: positions `x_out` and the parallel states
/// `y_out`, produced exactly once per bed and immutable afterwards.
#[derive(Clone, Debug)]
pub struct HaberBoschBedResult {
    pub x_out: Vec<Fixed>,
    pub y_out: Vec<State>,
}

impl HaberBoschBedResult {
    /// A well-formed trajectory: parallel sequences, at least the initial
    /// sample, strictly increasing positions, and every value in the
    /// overflow-safe range.
    pub open spec fn wf(self) -> bool {
        &&& self.x_out@.len() == self.y_out@.len()
        &&& self.x_out@.len() >= 1
        &&& forall|i: int| 0 <= i < self.x_out@.len() ==> (#[trigger] self.x_out@[i]).bounded()
        &&& forall|i: int| 0 <= i < self.y_out@.len() ==> (#[trigger] self.y_out@[i]).bounded()
        &&& forall|i: int|
            0 <= i < self.x_out@.len() - 1 ==> (#[trigger] self.x_out@[i]).raw < self.x_out@[i
                + 1].raw
    }

    /// The position where the trajectory ends.
    pub open spec fn spec_last_x(self) -> Fixed {
        self.x_out@.last()
    }

    /// The state where the trajectory ends.
    pub open spec fn spec_last_y(self) -> State {
        self.y_out@.last()
    }
}

/// A reactor run: the pressure shared by all beds, the catalyst, the
/// ordered bed profiles fixed at construction, and the ordered, append-only
/// per-bed results that the integrating collaborator feeds back in.
#[derive(Clone, Debug)]
pub struct HaberBoschInstance {
    partial_pressure: Fixed,
    catalyst: Catalyst,
    reactor_beds: Vec<HaberBoschBedSetup>,
    reactor_results: Vec<HaberBoschBedResult>,
}

impl HaberBoschInstance {
    pub closed spec fn spec_pressure(self) -> Fixed {
        self.partial_pressure
    }

    pub closed spec fn spec_catalyst(self) -> Catalyst {
        self.catalyst
    }

    pub closed spec fn beds(self) -> Seq<HaberBoschBedSetup> {
        self.reactor_beds@
    }

    pub closed spec fn results(self) -> Seq<HaberBoschBedResult> {
        self.reactor_results@
    }

    /// The instance invariant: at least one bed, never more results than
    /// beds, every stored value in the overflow-safe range, every stored
    /// trajectory well formed.
    pub open spec fn wf(self) -> bool {
        &&& self.beds().len() >= 1
        &&& self.results().len() <= self.beds().len()
        &&& self.spec_pressure().bounded()
        &&& forall|i: int| 0 <= i < self.beds().len() ==> (#[trigger] self.beds()[i]).bounded()
        &&& forall|i: int| 0 <= i < self.results().len() ==> (#[trigger] self.results()[i]).wf()
    }

    /// How many beds the reactor has.
    pub fn len(&self) -> (r: usize)
        ensures
            r == self.beds().len(),
    {
        self.reactor_beds.len()
    }

    pub fn cat(&self) -> (r: Catalyst)
        ensures
            r == self.spec_catalyst(),
    {
        self.catalyst
    }

    pub fn pres(&self) -> (r: Fixed)
        ensures
            r == self.spec_pressure(),
    {
        self.partial_pressure
    }

    /// How many beds already have a stored result.
    pub fn results_len(&self) -> (r: usize)
        ensures
            r == self.results().len(),
    {
        self.reactor_results.len()
    }

    /// True when every bed already has a result, so that a further append
    /// must fail.
    pub open spec fn spec_results_exhausted(self) -> bool {
        self.results().len() >= self.beds().len()
    }

    /// Stores the next bed's trajectory, in bed order. Fails with
    /// `ResultsExhausted`, leaving the instance unchanged, exactly when
    /// every bed already has a result.
    pub fn add_next_results(&mut self, x: Vec<Fixed>, y: Vec<State>) -> (r: Result<
        (),
        HaberBoschError,
    >)
        requires
            old(self).wf(),
            (HaberBoschBedResult { x_out: x, y_out: y }).wf(),
        ensures
            old(self).spec_results_exhausted() ==> r == Err::<(), HaberBoschError>(
                HaberBoschError::ResultsExhausted,
            ) && *final(self) == *old(self),
            !old(self).spec_results_exhausted() ==> r == Ok::<(), HaberBoschError>(())
                && final(self).results() == old(self).results().push(
                HaberBoschBedResult { x_out: x, y_out: y },
            ),
            final(self).beds() == old(self).beds(),
            final(self).spec_pressure() == old(self).spec_pressure(),
            final(self).spec_catalyst() == old(self).spec_catalyst(),
            final(self).wf(),
    {
        if self.reactor_results.len() >= self.reactor_beds.len() {
            return Err(HaberBoschError::ResultsExhausted);
        }
        self.reactor_results.push(HaberBoschBedResult { x_out: x, y_out: y });
        Ok(())
    }

    /// The feed composition scaled to partial pressures.
    pub open spec fn spec_scaled_feed(self) -> State {
        let f = spec_feed_fractions();
        let p = self.spec_pressure().raw as int;
        State {
            n2: Fixed { raw: tdiv(f.n2.raw * p, SCALE as int) as i128 },
            h2: Fixed { raw: tdiv(f.h2.raw * p, SCALE as int) as i128 },
            nh3: Fixed { raw: tdiv(f.nh3.raw * p, SCALE as int) as i128 },
            ar: Fixed { raw: tdiv(f.ar.raw * p, SCALE as int) as i128 },
            ch4: Fixed { raw: tdiv(f.ch4.raw * p, SCALE as int) as i128 },
            t: Fixed { raw: 0 },
        }
    }

    /// The position where bed `idx` starts: zero for the first bed, else
    /// where the previous bed's trajectory ended.
    pub open spec fn spec_x0(self, idx: int) -> Fixed {
        if idx == 0 {
            Fixed { raw: 0 }
        } else {
            self.results()[idx - 1].spec_last_x()
        }
    }

    /// The state entering bed `idx`: the scaled feed for the first bed,
    /// else the previous bed's final state; in either case the temperature
    /// entry is reset to the bed's start temperature.
    pub open spec fn spec_y0(self, idx: int) -> State {
        let base = if idx == 0 {
            self.spec_scaled_feed()
        } else {
            self.results()[idx - 1].spec_last_y()
        };
        State { t: self.beds()[idx].t_start, ..base }
    }

    /// The solver inputs for bed `idx`: the bed's kinetics model, the start
    /// position, and the entering state. Fails with `BedIndexOutOfRange`
    /// beyond the bed list and with `PredecessorMissing` when bed `idx - 1`
    /// has no stored result yet.
    pub fn get_solver_info(&self, idx: usize) -> (r: Result<
        HaberBoschSolverInfo,
        HaberBoschError,
    >)
        requires
            self.wf(),
        ensures
            idx >= self.beds().len() ==> r == Err::<HaberBoschSolverInfo, HaberBoschError>(
                HaberBoschError::BedIndexOutOfRange,
            ),
            idx < self.beds().len() && idx > self.results().len() ==> r == Err::<
                HaberBoschSolverInfo,
                HaberBoschError,
            >(HaberBoschError::PredecessorMissing),
            idx < self.beds().len() && idx <= self.results().len() ==> r == Ok::<
                HaberBoschSolverInfo,
                HaberBoschError,
            >(
                HaberBoschSolverInfo {
                    model: spec_model(
                        self.spec_pressure(),
                        self.spec_catalyst(),
                        self.beds()[idx as int],
                    ),
                    x0: self.spec_x0(idx as int),
                    y0: self.spec_y0(idx as int),
                },
            ),
    {
        if idx >= self.reactor_beds.len() {
            return Err(HaberBoschError::BedIndexOutOfRange);
        }
        if idx > self.reactor_results.len() {
            return Err(HaberBoschError::PredecessorMissing);
        }
        let model = HaberBoschModel::new(
            self.partial_pressure,
            self.catalyst,
            self.reactor_beds[idx],
        );
        let x0: Fixed = if idx == 0 {
            Fixed { raw: 0 }
        } else {
            let prev = &self.reactor_results[idx - 1];
            prev.x_out[prev.x_out.len() - 1]
        };
        let base: State = if idx == 0 {
            self.scaled_feed()
        } else {
            let prev = &self.reactor_results[idx - 1];
            prev.y_out[prev.y_out.len() - 1]
        };
        let y0 = base.with_temperature(self.reactor_beds[idx].t_start);
        Ok(HaberBoschSolverInfo { model, x0, y0 })
    }

    /// The profile of bed `i`.
    pub fn bed_at(&self, i: usize) -> (r: &HaberBoschBedSetup)
        requires
            i < self.beds().len(),
        ensures
            *r == self.beds()[i as int],
    {
        &self.reactor_beds[i]
    }

    /// The stored trajectory of bed `i`.
    pub fn result_at(&self, i: usize) -> (r: &HaberBoschBedResult)
        requires
            i < self.results().len(),
        ensures
            *r == self.results()[i as int],
    {
        &self.reactor_results[i]
    }

    fn scaled_feed(&self) -> (r: State)
        requires
            self.spec_pressure().bounded(),
        ensures
            r == self.spec_scaled_feed(),
    {
        let f = feed_fractions();
        let p = self.partial_pressure;
        State {
            n2: f.n2.mul(p),
            h2: f.h2.mul(p),
            nh3: f.nh3.mul(p),
            ar: f.ar.mul(p),
            ch4: f.ch4.mul(p),
            t: Fixed { raw: 0 },
        }
    }
}

/// Temperature always resets at bed entry: the state entering bed `idx`
/// starts at that bed's configured start temperature, whatever the
/// previous bed left behind.
pub proof fn lemma_entry_temperature_reset(inst: HaberBoschInstance, idx: int)
    requires
        inst.wf(),
        0 <= idx < inst.beds().len(),
    ensures
        inst.spec_y0(idx).t == inst.beds()[idx].t_start,
{
}

/// Composition carries over unchanged across a bed boundary: apart from
/// the temperature entry, the state entering bed `idx` is exactly the
/// previous bed's final stored state.
pub proof fn lemma_composition_carries_over(inst: HaberBoschInstance, idx: int)
    requires
        inst.wf(),
        1 <= idx < inst.beds().len(),
        idx <= inst.results().len(),
    ensures
        inst.spec_y0(idx).n2 == inst.results()[idx - 1].spec_last_y().n2,
        inst.spec_y0(idx).h2 == inst.results()[idx - 1].spec_last_y().h2,
        inst.spec_y0(idx).nh3 == inst.results()[idx - 1].spec_last_y().nh3,
        inst.spec_y0(idx).ar == inst.results()[idx - 1].spec_last_y().ar,
        inst.spec_y0(idx).ch4 == inst.results()[idx - 1].spec_last_y().ch4,
{
}

/// Once every bed has a result, a further `add_next_results` is bound to
/// fail: the instance can never hold more results than beds.
pub proof fn lemma_append_fails_when_complete(inst: HaberBoschInstance)
    requires
        inst.wf(),
        inst.results().len() == inst.beds().len(),
    ensures
        inst.spec_results_exhausted(),
{
}

/// Accumulates pressure, catalyst and bed profiles for a new instance.
pub struct HaberBoschInstanceBuilder {
    wip: HaberBoschInstance,
}

impl HaberBoschInstanceBuilder {
    /// The instance as assembled so far.
    pub closed spec fn pending(self) -> HaberBoschInstance {
        self.wip
    }

    /// What `create` and `add_bed` maintain: bounded inputs, no results.
    pub open spec fn inv(self) -> bool {
        &&& self.pending().spec_pressure().bounded()
        &&& self.pending().results().len() == 0
        &&& forall|i: int|
            0 <= i < self.pending().beds().len() ==> (#[trigger] self.pending().beds()[
            i]).bounded()
    }

    /// Starts a configuration from the shared pressure and the catalyst.
    pub fn create(p: Fixed, c: Catalyst) -> (r: Self)
        requires
            p.bounded(),
        ensures
            r.inv(),
            r.pending().spec_pressure() == p,
            r.pending().spec_catalyst() == c,
            r.pending().beds().len() == 0,
    {
        HaberBoschInstanceBuilder {
            wip: HaberBoschInstance {
                partial_pressure: p,
                catalyst: c,
                reactor_beds: Vec::new(),
                reactor_results: Vec::new(),
            },
        }
    }

    /// Appends one bed's thermal profile.
    pub fn add_bed(self, t_start: Fixed, t_slope: Fixed, t_max: Fixed, beta: Fixed) -> (r: Self)
        requires
            self.inv(),
            t_start.bounded(),
            t_slope.bounded(),
            t_max.bounded(),
            beta.bounded(),
        ensures
            r.inv(),
            r.pending().beds() == self.pending().beds().push(
                HaberBoschBedSetup { beta, t_start, t_slope, t_max },
            ),
            r.pending().spec_pressure() == self.pending().spec_pressure(),
            r.pending().spec_catalyst() == self.pending().spec_catalyst(),
    {
        let HaberBoschInstanceBuilder { wip } = self;
        let HaberBoschInstance { partial_pressure, catalyst, mut reactor_beds, reactor_results } =
            wip;
        reactor_beds.push(HaberBoschBedSetup { beta, t_start, t_slope, t_max });
        let r = HaberBoschInstanceBuilder {
            wip: HaberBoschInstance { partial_pressure, catalyst, reactor_beds, reactor_results },
        };
        proof {
            let bs = r.pending().beds();
            assert forall|i: int| 0 <= i < bs.len() implies (#[trigger] bs[i]).bounded() by {
                if i < bs.len() - 1 {
                    assert(bs[i] == self.pending().beds()[i]);
                }
            }
        }
        r
    }

    /// Finishes the configuration. Fails with `EmptyBedList` when no bed
    /// was added; otherwise the instance is well formed and ready for the
    /// integration loop.
    pub fn build(self) -> (r: Result<HaberBoschInstance, HaberBoschError>)
        requires
            self.inv(),
        ensures
            self.pending().beds().len() == 0 ==> r == Err::<HaberBoschInstance, HaberBoschError>(
                HaberBoschError::EmptyBedList,
            ),
            self.pending().beds().len() > 0 ==> r == Ok::<HaberBoschInstance, HaberBoschError>(
                self.pending(),
            ) && self.pending().wf(),
    {
        if self.wip.reactor_beds.len() == 0 {
            return Err(HaberBoschError::EmptyBedList);
        }
        Ok(self.wip)
    }
}

} // verus!
