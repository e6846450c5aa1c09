//! The per-bed kinetics model: the 6-component state vector, the catalyst
//! constant table, and the model parameters handed to the integrating
//! collaborator.
//!
//! The reaction-rate right-hand side itself is evaluated in floating point
//! by that collaborator; this module owns everything that can be stated
//! exactly: which constants parameterize a bed, the clamped temperature
//! ramp, the early-stop threshold, and the integration-domain defaults.

use crate::configuration::{Catalyst, HaberBoschBedSetup};
use crate::fixed::{Fixed, RAW_BOUND};
use vstd::prelude::*;

verus! {

/// Raw threshold (10^-3 units) on the ammonia derivative under which a
/// bed's integration may stop early: the reaction has reached steady state.
pub const AMMONIA_THRESHOLD_RAW: i128 = 1_000_000;

/// Raw length (25 units) of each bed's integration domain, a design
/// constant of the reference reactor geometry.
pub const SOLVER_DOMAIN_RAW: i128 = 25_000_000_000;

/// Raw internal step hint (25/2000 units) for the integrating collaborator.
pub const SOLVER_STEP_RAW: i128 = 12_500_000;

/// Raw gas constant (1.987 cal/(mol K)), consistent with the tabulated
/// activation energies.
pub const GAS_CONSTANT_RAW: i128 = 1_987_000_000;

/// One sample of the reactor state: five mixture components (nitrogen,
/// hydrogen, ammonia, argon, methane) and the temperature in Kelvin.
#[derive(Clone, Copy, Debug, PartialEq, Eq, Structural)]
pub struct State {
    pub n2: Fixed,
    pub h2: Fixed,
    pub nh3: Fixed,
    pub ar: Fixed,
    pub ch4: Fixed,
    pub t: Fixed,
}

impl State {
    pub fn new(n2: Fixed, h2: Fixed, nh3: Fixed, ar: Fixed, ch4: Fixed, t: Fixed) -> (r: State)
        ensures
            r == (State { n2, h2, nh3, ar, ch4, t }),
    {
        State { n2, h2, nh3, ar, ch4, t }
    }

    /// Component `i` of the state vector, in the fixed order
    /// nitrogen, hydrogen, ammonia, argon, methane, temperature.
    pub open spec fn spec_component(self, i: int) -> Fixed {
        if i == 0 {
            self.n2
        } else if i == 1 {
            self.h2
        } else if i == 2 {
            self.nh3
        } else if i == 3 {
            self.ar
        } else if i == 4 {
            self.ch4
        } else {
            self.t
        }
    }

    pub fn component(&self, i: usize) -> (r: Fixed)
        requires
            i <= 5,
        ensures
            r == self.spec_component(i as int),
    {
        if i == 0 {
            self.n2
        } else if i == 1 {
            self.h2
        } else if i == 2 {
            self.nh3
        } else if i == 3 {
            self.ar
        } else if i == 4 {
            self.ch4
        } else {
            self.t
        }
    }

    /// The raw sum of the five mixture components (temperature excluded).
    pub open spec fn spec_sum5(self) -> int {
        self.n2.raw + self.h2.raw + self.nh3.raw + self.ar.raw + self.ch4.raw
    }

    /// All six entries lie in the overflow-safe range.
    pub open spec fn bounded(self) -> bool {
        &&& self.n2.bounded()
        &&& self.h2.bounded()
        &&& self.nh3.bounded()
        &&& self.ar.bounded()
        &&& self.ch4.bounded()
        &&& self.t.bounded()
    }

    pub fn sum5(&self) -> (r: i128)
        requires
            self.bounded(),
        ensures
            r == self.spec_sum5(),
    {
        self.n2.raw + self.h2.raw + self.nh3.raw + self.ar.raw + self.ch4.raw
    }

    /// The same composition with the temperature entry replaced.
    pub fn with_temperature(self, t: Fixed) -> (r: State)
        ensures
            r == (State { t, ..self }),
    {
        State { t, ..self }
    }
}

/// The kinetic constants of one catalyst: activation energy, pre-exponential
/// factor, and the asymmetry exponent of the rate expression.
#[derive(Clone, Copy, Debug, PartialEq, Eq, Structural)]
pub struct CatalystConstants {
    pub ea: Fixed,
    pub big_a: Fixed,
    pub alpha: Fixed,
}

/// The hard-coded constant table, total over the closed catalyst set.
pub open spec fn spec_catalyst_constants(cat: Catalyst) -> CatalystConstants {
    match cat {
        Catalyst::KMIR => CatalystConstants {
            ea: Fixed { raw: 40_131_000_000_000 },
            big_a: Fixed { raw: 1_606_600_000_000_000_000_000_000 },
            alpha: Fixed { raw: 500_000_000 },
        },
        Catalyst::FN => CatalystConstants {
            ea: Fixed { raw: 38_007_000_000_000 },
            big_a: Fixed { raw: 7_668_300_000_000_000_000_000_000 },
            alpha: Fixed { raw: 400_000_000 },
        },
    }
}

impl CatalystConstants {
    /// The constants of `cat`; a total lookup, no error path.
    pub fn lookup(cat: Catalyst) -> (r: CatalystConstants)
        ensures
            r == spec_catalyst_constants(cat),
    {
        match cat {
            Catalyst::KMIR => CatalystConstants {
                ea: Fixed { raw: 40_131_000_000_000 },
                big_a: Fixed { raw: 1_606_600_000_000_000_000_000_000 },
                alpha: Fixed { raw: 500_000_000 },
            },
            Catalyst::FN => CatalystConstants {
                ea: Fixed { raw: 38_007_000_000_000 },
                big_a: Fixed { raw: 7_668_300_000_000_000_000_000_000 },
                alpha: Fixed { raw: 400_000_000 },
            },
        }
    }
}

/// Everything the derivative function of one bed depends on: reactor
/// pressure, the catalyst constants, and the bed's thermal profile.
#[derive(Clone, Copy, Debug, PartialEq, Eq, Structural)]
pub struct HaberBoschModel {
    pub pressure: Fixed,
    pub alpha: Fixed,
    pub ea: Fixed,
    pub big_a: Fixed,
    pub beta: Fixed,
    pub t_slope: Fixed,
    pub t_max: Fixed,
}

/// The model that `HaberBoschModel::new` assembles from the catalyst table
/// and one bed's profile.
pub open spec fn spec_model(
    pressure: Fixed,
    catalyst: Catalyst,
    bed: HaberBoschBedSetup,
) -> HaberBoschModel {
    let c = spec_catalyst_constants(catalyst);
    HaberBoschModel {
        pressure,
        alpha: c.alpha,
        ea: c.ea,
        big_a: c.big_a,
        beta: bed.beta,
        t_slope: bed.t_slope,
        t_max: bed.t_max,
    }
}

impl HaberBoschModel {
    pub fn new(pressure: Fixed, catalyst: Catalyst, bed: HaberBoschBedSetup) -> (r:
        HaberBoschModel)
        ensures
            r == spec_model(pressure, catalyst, bed),
    {
        let c = CatalystConstants::lookup(catalyst);
        HaberBoschModel {
            pressure,
            alpha: c.alpha,
            ea: c.ea,
            big_a: c.big_a,
            beta: bed.beta,
            t_slope: bed.t_slope,
            t_max: bed.t_max,
        }
    }

    /// The clamped temperature ramp: the profile slope below `t_max`, and
    /// from `t_max` on a self-correcting pull back toward `t_max` — an
    /// intentional control law, not a hard clamp to zero.
    pub open spec fn spec_temperature_derivative(self, t: int) -> int {
        if t < self.t_max.raw {
            self.t_slope.raw as int
        } else {
            self.t_max.raw - t
        }
    }

    pub fn temperature_derivative(&self, t: Fixed) -> (r: Fixed)
        requires
            t.bounded(),
            self.t_max.bounded(),
            -RAW_BOUND <= self.t_slope.raw <= RAW_BOUND,
        ensures
            r.raw == self.spec_temperature_derivative(t.raw as int),
    {
        if t.raw < self.t_max.raw {
            Fixed { raw: self.t_slope.raw }
        } else {
            Fixed { raw: self.t_max.raw - t.raw }
        }
    }

    /// The early-termination signal for the integrator: true when the
    /// ammonia derivative has fallen below the steady-state threshold.
    pub fn should_stop(&self, dy: &State) -> (r: bool)
        ensures
            r == (dy.nh3.raw < AMMONIA_THRESHOLD_RAW),
    {
        dy.nh3.raw < AMMONIA_THRESHOLD_RAW
    }
}

/// What the integrating collaborator needs for one bed: the model and the
/// initial position and state.
#[derive(Clone, Copy, Debug, PartialEq, Eq, Structural)]
pub struct HaberBoschSolverInfo {
    pub model: HaberBoschModel,
    pub x0: Fixed,
    pub y0: State,
}

/// The fixed feed composition entering bed zero, as fractions that
/// `get_solver_info` scales by the reactor pressure; the temperature entry
/// is zero until the first bed's start temperature replaces it.
pub open spec fn spec_feed_fractions() -> State {
    State {
        n2: Fixed { raw: 239_100_000 },
        h2: Fixed { raw: 623_000_000 },
        nh3: Fixed { raw: 41_300_000 },
        ar: Fixed { raw: 79_300_000 },
        ch4: Fixed { raw: 17_200_000 },
        t: Fixed { raw: 0 },
    }
}

pub fn feed_fractions() -> (r: State)
    ensures
        r == spec_feed_fractions(),
{
    State {
        n2: Fixed { raw: 239_100_000 },
        h2: Fixed { raw: 623_000_000 },
        nh3: Fixed { raw: 41_300_000 },
        ar: Fixed { raw: 79_300_000 },
        ch4: Fixed { raw: 17_200_000 },
        t: Fixed { raw: 0 },
    }
}

} // verus!
