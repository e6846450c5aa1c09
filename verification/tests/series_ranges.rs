use haber_bosch::configuration::{Catalyst, HaberBoschInstance, HaberBoschInstanceBuilder};
use haber_bosch::errors::HaberBoschError;
use haber_bosch::fixed::Fixed;
use haber_bosch::simulation::State;

fn fx(raw: i128) -> Fixed {
    Fixed::from_raw(raw)
}

fn state(n2: i128, h2: i128, nh3: i128, ar: i128, ch4: i128, t: i128) -> State {
    State::new(fx(n2), fx(h2), fx(nh3), fx(ar), fx(ch4), fx(t))
}

const UNIT: i128 = 1_000_000_000;

/// Two beds with two samples each, small round numbers.
fn filled_instance() -> HaberBoschInstance {
    let mut inst = HaberBoschInstanceBuilder::create(Fixed::from_int(200), Catalyst::KMIR)
        .add_bed(
            Fixed::from_int(713),
            Fixed::from_int(10),
            Fixed::from_int(727),
            fx(-2_691_122_000),
        )
        .add_bed(
            Fixed::from_int(673),
            fx(7_500_000_000),
            Fixed::from_int(727),
            fx(-2_708_000_000),
        )
        .build()
        .unwrap();
    inst.add_next_results(
        vec![fx(0), fx(UNIT)],
        vec![
            state(4 * UNIT, 3 * UNIT, UNIT, UNIT, UNIT, 713 * UNIT),
            state(3 * UNIT, 3 * UNIT, 2 * UNIT, UNIT, UNIT, 723 * UNIT),
        ],
    )
    .unwrap();
    inst.add_next_results(
        vec![fx(UNIT), fx(3 * UNIT)],
        vec![
            state(3 * UNIT, 3 * UNIT, 2 * UNIT, UNIT, UNIT, 673 * UNIT),
            state(2 * UNIT, 2 * UNIT, 4 * UNIT, UNIT, UNIT, 680 * UNIT),
        ],
    )
    .unwrap();
    inst
}

#[test]
fn series_flattens_beds_in_order() {
    let inst = filled_instance();
    // raw ammonia curve across both beds
    let pts = inst.series_points(2, false).unwrap();
    assert_eq!(pts.len(), 4);
    let xs: Vec<i128> = pts.iter().map(|p| p.0.raw).collect();
    assert_eq!(xs, vec![0, UNIT, UNIT, 3 * UNIT]);
    let ys: Vec<i128> = pts.iter().map(|p| p.1.raw).collect();
    assert_eq!(ys, vec![UNIT, 2 * UNIT, 2 * UNIT, 4 * UNIT]);
}

#[test]
fn temperature_series_is_celsius_and_ignores_normalize() {
    let inst = filled_instance();
    let plain = inst.series_points(5, false).unwrap();
    let normalized = inst.series_points(5, true).unwrap();
    assert_eq!(plain.len(), 4);
    let expect = [713, 723, 673, 680];
    for (p, t) in plain.iter().zip(expect.iter()) {
        assert_eq!(p.1.raw, (t - 273) * UNIT);
    }
    for (a, b) in plain.iter().zip(normalized.iter()) {
        assert_eq!(a, b);
    }
}

#[test]
fn normalized_series_is_a_mole_fraction() {
    let inst = filled_instance();
    // first sample sums to 10 units, so nitrogen 4/10, ammonia 1/10
    let n2 = inst.series_points(0, true).unwrap();
    assert_eq!(n2[0].1.raw, 400_000_000);
    let nh3 = inst.series_points(2, true).unwrap();
    assert_eq!(nh3[0].1.raw, 100_000_000);
    // every normalized value lies in [0, 1]
    for c in 0..5 {
        for p in inst.series_points(c, true).unwrap() {
            assert!(p.1.raw >= 0);
            assert!(p.1.raw <= UNIT);
        }
    }
    // the five normalized components of one sample sum to one, up to
    // four raw steps of truncation loss
    let per_comp: Vec<Vec<(Fixed, Fixed)>> = (0..5)
        .map(|c| inst.series_points(c, true).unwrap())
        .collect();
    for k in 0..4 {
        let total: i128 = per_comp.iter().map(|v| v[k].1.raw).sum();
        assert!(total <= UNIT);
        assert!(total >= UNIT - 4);
    }
}

#[test]
fn series_is_restartable_and_idempotent() {
    let inst = filled_instance();
    let a = inst.series_points(3, true).unwrap();
    let b = inst.series_points(3, true).unwrap();
    assert_eq!(a, b);
    // the cursor form walks the same pairs
    let mut it = inst.iter_my(3, true).unwrap();
    let mut walked = Vec::new();
    while let Some(p) = it.next(&inst) {
        walked.push(p);
    }
    assert_eq!(walked, a);
    // and a fresh cursor starts over
    let mut it2 = inst.iter_my(3, true).unwrap();
    assert_eq!(it2.next(&inst), Some(a[0]));
}

#[test]
fn x_range_spans_zero_to_last_sample() {
    let inst = filled_instance();
    let r = inst.get_x_range();
    assert_eq!(r.start.raw, 0);
    assert_eq!(r.end.raw, 3 * UNIT);
}

#[test]
fn temperature_range_is_min_and_max_in_celsius() {
    let inst = filled_instance();
    let r = inst.get_temperature_range();
    assert_eq!(r.start.raw, (673 - 273) * UNIT);
    assert_eq!(r.end.raw, (723 - 273) * UNIT);
}

#[test]
fn temperature_range_of_empty_results_is_unit_interval() {
    let inst = HaberBoschInstanceBuilder::create(Fixed::from_int(100), Catalyst::FN)
        .add_bed(
            Fixed::from_int(643),
            Fixed::from_int(30),
            Fixed::from_int(727),
            fx(-2_691_122_000),
        )
        .build()
        .unwrap();
    let r = inst.get_temperature_range();
    assert_eq!(r.start.raw, 0);
    assert_eq!(r.end.raw, UNIT);
}

#[test]
fn temperature_range_of_single_sample_gets_half_unit_margin() {
    let mut inst = HaberBoschInstanceBuilder::create(Fixed::from_int(100), Catalyst::FN)
        .add_bed(
            Fixed::from_int(643),
            Fixed::from_int(30),
            Fixed::from_int(727),
            fx(-2_691_122_000),
        )
        .build()
        .unwrap();
    inst.add_next_results(vec![fx(0)], vec![state(UNIT, UNIT, UNIT, UNIT, UNIT, 673 * UNIT)])
        .unwrap();
    let r = inst.get_temperature_range();
    assert_eq!(r.start.raw, 400 * UNIT - 500_000_000);
    assert_eq!(r.end.raw, 400 * UNIT + 500_000_000);
}

#[test]
fn concentration_range_tracks_peak_fraction() {
    let inst = filled_instance();
    let r = inst.get_concentration_range();
    assert_eq!(r.start.raw, 0);
    // the largest component fraction over all samples is 4/10
    assert_eq!(r.end.raw, 400_000_000 + 100_000_000);
}

#[test]
fn summary_reports_lengths_and_yield() {
    let inst = filled_instance();
    let s = inst.summary();
    assert_eq!(s.bed_lengths.len(), 2);
    assert_eq!(s.bed_lengths[0].raw, UNIT); // bed 0 ends at 1
    assert_eq!(s.bed_lengths[1].raw, 2 * UNIT); // 3 - 1
    assert_eq!(s.total_length.raw, 3 * UNIT);
    // final state: ammonia 4 of a 10-unit sum
    assert_eq!(s.final_yield.raw, 400_000_000);
}

#[test]
fn series_component_out_of_range_fails() {
    let inst = filled_instance();
    assert_eq!(
        inst.series_points(6, false).unwrap_err(),
        HaberBoschError::InvalidComponentIndex
    );
}
