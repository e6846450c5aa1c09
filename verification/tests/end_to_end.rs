//! Full two-bed KMIR scenario: the library supplies per-bed solver inputs,
//! an adaptive Dormand-Prince integrator produces the trajectories in
//! floating point, and the library stores them and reports the summary.

use haber_bosch::configuration::{Catalyst, HaberBoschInstance, HaberBoschInstanceBuilder};
use haber_bosch::fixed::Fixed;
use haber_bosch::simulation::{HaberBoschModel, State};
use ode_solvers::{Dopri5, System, Vector6};

type V6 = Vector6<f64>;

const R: f64 = 1.987;

fn to_f64(x: Fixed) -> f64 {
    (x.raw as f64) / 1e9
}

fn to_fixed(v: f64) -> Fixed {
    Fixed::from_raw((v * 1e9).round() as i128)
}

struct FloatModel {
    pressure: f64,
    alpha: f64,
    ea: f64,
    big_a: f64,
    beta: f64,
    t_slope: f64,
    t_max: f64,
}

impl FloatModel {
    fn from_params(m: &HaberBoschModel) -> FloatModel {
        FloatModel {
            pressure: to_f64(m.pressure),
            alpha: to_f64(m.alpha),
            ea: to_f64(m.ea),
            big_a: to_f64(m.big_a),
            beta: to_f64(m.beta),
            t_slope: to_f64(m.t_slope),
            t_max: to_f64(m.t_max),
        }
    }
}

impl System<f64, V6> for FloatModel {
    fn system(&self, _x: f64, y: &V6, dy: &mut V6) {
        let (n2, h2, nh3) = (y[0], y[1], y[2]);
        let temp = y[5];

        let k = self.big_a * (-self.ea / (R * temp)).exp();
        let log10_ka = self.beta * temp.log10() - 5.519265e-5 * temp
            + 1.848863e-7 * temp.powi(2)
            + (2001.6 / temp)
            + 2.6899;
        let ka = 10f64.powf(log10_ka);

        let t1 = ka.powi(2) * n2 * (h2.powi(3) / nh3.powi(2)).powf(self.alpha);
        let t2 = (nh3.powi(2) / h2.powi(3)).powf(1. - self.alpha);

        let rnh3 = k * (t1 - t2);
        let rn2 = rnh3 / 2.;
        let rh2 = rnh3 / 2. * 3.;

        dy[0] = -rn2;
        dy[1] = -rh2;
        dy[2] = rnh3;
        dy[3] = 0.;
        dy[4] = 0.;

        dy[5] = if y[5] < self.t_max {
            self.t_slope
        } else {
            self.t_max - y[5]
        };

        let mut fug = V6::repeat(1.);
        let (t, p) = (temp, self.pressure);
        let t_squared = t.powi(2);
        let p_squared = p.powi(2);

        fug[0] = 0.93431737 + 0.3101804e-3 * t + 0.295896e-3 * p - 0.2707279e-6 * t_squared
            + 0.4775207e-6 * p_squared;
        let e = std::f64::consts::E;
        fug[1] = e.powf(
            e.powf(-3.84027 * t.powf(1.25) + 0.541) * p
                - e.powf(-0.012637 * t.powf(0.5) - 15.980) * p.powf(2.0)
                + 300.0 * e.powf(-0.0119017 * t - 5.941) * (e.powf(-p / 300.0) - 1.0),
        );
        fug[2] = 0.1438996 + 0.2028538e-2 * t - 0.448762e-3 * p - 0.1142945e-5 * t_squared
            + 0.2761216e-6 * p_squared;

        *dy = dy.component_mul(&fug);
    }

    fn solout(&mut self, _x: f64, _y: &V6, dy: &V6) -> bool {
        dy[2] < 1e-3
    }
}

fn run_bed(inst: &mut HaberBoschInstance, idx: usize) {
    let info = inst.get_solver_info(idx).unwrap();
    let model = FloatModel::from_params(&info.model);
    let x0 = to_f64(info.x0);
    let y0 = V6::new(
        to_f64(info.y0.n2),
        to_f64(info.y0.h2),
        to_f64(info.y0.nh3),
        to_f64(info.y0.ar),
        to_f64(info.y0.ch4),
        to_f64(info.y0.t),
    );
    let mut stepper = Dopri5::new(model, x0, x0 + 25., 25.0 / 2000., y0, 10e-12, 10e-16);
    stepper.integrate().unwrap();

    let mut xs: Vec<Fixed> = Vec::new();
    let mut ys: Vec<State> = Vec::new();
    for (x, y) in stepper.x_out().iter().zip(stepper.y_out().iter()) {
        let fx = to_fixed(*x);
        // keep positions strictly increasing after quantization
        if let Some(last) = xs.last() {
            if fx.raw <= last.raw {
                continue;
            }
        }
        xs.push(fx);
        ys.push(State::new(
            to_fixed(y[0]),
            to_fixed(y[1]),
            to_fixed(y[2]),
            to_fixed(y[3]),
            to_fixed(y[4]),
            to_fixed(y[5]),
        ));
    }
    assert!(!xs.is_empty());
    inst.add_next_results(xs, ys).unwrap();
}

#[test]
fn kmir_two_bed_scenario() {
    let mut inst = HaberBoschInstanceBuilder::create(Fixed::from_int(200), Catalyst::KMIR)
        .add_bed(
            Fixed::from_int(713),
            Fixed::from_int(10),
            Fixed::from_int(727),
            Fixed::from_raw(-2_691_122_000),
        )
        .add_bed(
            Fixed::from_int(673),
            Fixed::from_raw(7_500_000_000),
            Fixed::from_int(727),
            Fixed::from_raw(-2_708_000_000),
        )
        .build()
        .unwrap();

    run_bed(&mut inst, 0);
    run_bed(&mut inst, 1);

    assert_eq!(inst.len(), 2);
    assert_eq!(inst.results_len(), 2);

    // the final ammonia yield is a proper fraction
    let s = inst.summary();
    assert!(s.final_yield.raw > 0);
    assert!(s.final_yield.raw < 1_000_000_000);
    assert!(s.total_length.raw > 0);

    // temperatures stay between the second bed's entry and the shared
    // ceiling of 727 K, reported in Celsius
    let tr = inst.get_temperature_range();
    assert!(tr.start.raw < 440_000_000_000);
    assert!(tr.end.raw <= (727 - 273) * 1_000_000_000);

    // the trajectory ends where the x range ends
    let xr = inst.get_x_range();
    assert_eq!(xr.start.raw, 0);
    assert_eq!(xr.end.raw, s.total_length.raw);
}
