use raytrace::integrator::{estimate, sample_contribution, Accumulator, Sample};
use raytrace::vector::{Rgb, ONE};

fn sample(radiance: Rgb, g_term: u64, pdf: u64) -> Sample {
    Sample { radiance, g_term, pdf }
}

#[test]
fn single_sample_is_its_contribution() {
    let s = sample(Rgb::new(2 * ONE, ONE, 0), ONE / 2, 2 * ONE);
    let expected = Rgb::new(ONE / 2, ONE / 4, 0);
    assert_eq!(sample_contribution(&s, ONE), expected);
    assert_eq!(estimate(&vec![s], ONE), expected);
}

#[test]
fn sensitivity_scales_contribution() {
    let s = sample(Rgb::new(ONE, ONE, ONE), ONE, ONE);
    assert_eq!(sample_contribution(&s, 3 * ONE), Rgb::new(3 * ONE, 3 * ONE, 3 * ONE));
}

#[test]
fn estimate_is_mean_not_sum() {
    let a = sample(Rgb::new(ONE, 0, 2 * ONE), ONE, ONE);
    let b = sample(Rgb::new(3 * ONE, 4 * ONE, 0), ONE, ONE);
    assert_eq!(estimate(&vec![a, b], ONE), Rgb::new(2 * ONE, 2 * ONE, ONE));
}

#[test]
fn constant_red_scene_gives_red_estimate() {
    let s = sample(Rgb::new(ONE, 0, 0), ONE, ONE);
    assert_eq!(estimate(&vec![s, s, s, s], ONE), Rgb::new(ONE, 0, 0));
}

#[test]
fn accumulator_counts_and_averages() {
    let mut acc = Accumulator::new(ONE);
    assert_eq!(acc.count(), 0);
    acc.add(sample(Rgb::new(ONE, 0, 0), ONE, ONE));
    acc.add(sample(Rgb::new(0, 0, 0), ONE, ONE));
    assert_eq!(acc.count(), 2);
    assert_eq!(acc.estimate(), Rgb::new(ONE / 2, 0, 0));
}
