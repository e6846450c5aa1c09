use haber_bosch::configuration::{Catalyst, HaberBoschInstanceBuilder};
use haber_bosch::errors::HaberBoschError;
use haber_bosch::fixed::Fixed;
use haber_bosch::simulation::State;

fn fx(raw: i128) -> Fixed {
    Fixed::from_raw(raw)
}

fn state(n2: i128, h2: i128, nh3: i128, ar: i128, ch4: i128, t: i128) -> State {
    State::new(fx(n2), fx(h2), fx(nh3), fx(ar), fx(ch4), fx(t))
}

fn two_bed_instance() -> haber_bosch::configuration::HaberBoschInstance {
    HaberBoschInstanceBuilder::create(Fixed::from_int(200), Catalyst::KMIR)
        .add_bed(
            Fixed::from_int(713),
            Fixed::from_int(10),
            Fixed::from_int(727),
            fx(-2_691_122_000),
        )
        .add_bed(
            Fixed::from_int(673),
            fx(7_500_000_000),
            Fixed::from_int(727),
            fx(-2_708_000_000),
        )
        .build()
        .unwrap()
}

#[test]
fn builder_with_zero_beds_fails() {
    let r = HaberBoschInstanceBuilder::create(Fixed::from_int(200), Catalyst::KMIR).build();
    assert_eq!(r.unwrap_err(), HaberBoschError::EmptyBedList);
}

#[test]
fn builder_keeps_pressure_and_catalyst() {
    let inst = two_bed_instance();
    assert_eq!(inst.len(), 2);
    assert_eq!(inst.cat(), Catalyst::KMIR);
    assert_eq!(inst.pres().raw, 200_000_000_000);
}

#[test]
fn first_bed_solver_input_scales_feed_and_resets_temperature() {
    let inst = two_bed_instance();
    let info = inst.get_solver_info(0).unwrap();
    // feed fractions times pressure 200, exactly
    assert_eq!(info.x0.raw, 0);
    assert_eq!(info.y0.n2.raw, 47_820_000_000); // 0.2391 * 200
    assert_eq!(info.y0.h2.raw, 124_600_000_000); // 0.623 * 200
    assert_eq!(info.y0.nh3.raw, 8_260_000_000); // 0.0413 * 200
    assert_eq!(info.y0.ar.raw, 15_860_000_000); // 0.0793 * 200
    assert_eq!(info.y0.ch4.raw, 3_440_000_000); // 0.0172 * 200
    // temperature always resets to the bed's start temperature
    assert_eq!(info.y0.t.raw, 713_000_000_000);
    // the model carries the catalyst constants and the bed profile
    assert_eq!(info.model.pressure.raw, 200_000_000_000);
    assert_eq!(info.model.ea.raw, 40_131_000_000_000);
    assert_eq!(info.model.alpha.raw, 500_000_000);
    assert_eq!(info.model.beta.raw, -2_691_122_000);
    assert_eq!(info.model.t_slope.raw, 10_000_000_000);
    assert_eq!(info.model.t_max.raw, 727_000_000_000);
}

#[test]
fn second_bed_carries_composition_and_resets_temperature() {
    let mut inst = two_bed_instance();
    let xs = vec![fx(0), fx(1_000_000_000), fx(2_000_000_000)];
    let ys = vec![
        state(10, 20, 30, 40, 50, 713_000_000_000),
        state(11, 21, 31, 41, 51, 715_000_000_000),
        state(12, 22, 32, 42, 52, 717_000_000_000),
    ];
    inst.add_next_results(xs, ys).unwrap();
    let info = inst.get_solver_info(1).unwrap();
    // x continues where the previous trajectory ended
    assert_eq!(info.x0.raw, 2_000_000_000);
    // composition carries over unchanged from the last stored state
    assert_eq!(info.y0.n2.raw, 12);
    assert_eq!(info.y0.h2.raw, 22);
    assert_eq!(info.y0.nh3.raw, 32);
    assert_eq!(info.y0.ar.raw, 42);
    assert_eq!(info.y0.ch4.raw, 52);
    // but the temperature resets to the second bed's start temperature
    assert_eq!(info.y0.t.raw, 673_000_000_000);
}

#[test]
fn solver_info_errors() {
    let mut inst = two_bed_instance();
    // beyond the bed list
    assert_eq!(
        inst.get_solver_info(2).unwrap_err(),
        HaberBoschError::BedIndexOutOfRange
    );
    // bed 1 before bed 0 produced a result
    assert_eq!(
        inst.get_solver_info(1).unwrap_err(),
        HaberBoschError::PredecessorMissing
    );
    inst.add_next_results(vec![fx(0)], vec![state(1, 1, 1, 1, 1, 713_000_000_000)])
        .unwrap();
    assert!(inst.get_solver_info(1).is_ok());
}

#[test]
fn append_fails_once_every_bed_has_a_result() {
    // three appends on a two-bed instance: the third fails
    let mut inst = two_bed_instance();
    for _ in 0..2 {
        let xs = vec![fx(0), fx(1_000_000_000)];
        let ys = vec![
            state(1, 2, 3, 4, 5, 713_000_000_000),
            state(2, 3, 4, 5, 6, 714_000_000_000),
        ];
        inst.add_next_results(xs, ys).unwrap();
    }
    let xs = vec![fx(0)];
    let ys = vec![state(1, 2, 3, 4, 5, 713_000_000_000)];
    assert_eq!(
        inst.add_next_results(xs, ys),
        Err(HaberBoschError::ResultsExhausted)
    );
    // the failed call changed nothing
    assert_eq!(inst.results_len(), 2);
}

#[test]
fn invalid_component_index_is_rejected() {
    let inst = two_bed_instance();
    assert_eq!(
        inst.iter_my(6, false).unwrap_err(),
        HaberBoschError::InvalidComponentIndex
    );
    assert_eq!(
        inst.series_points(6, true).unwrap_err(),
        HaberBoschError::InvalidComponentIndex
    );
    assert!(inst.iter_my(5, false).is_ok());
}
