use raytrace::config::{
    plan_render, select_worker_count, worker_count, ConfigError, Integrator, OutputFormat,
};

#[test]
fn integrator_names() {
    assert_eq!(Integrator::from_name("pt"), Some(Integrator::PathTracing));
    assert_eq!(Integrator::from_name("pt-direct"), Some(Integrator::PathTracingDirect));
    assert_eq!(Integrator::from_name("bogus"), None);
    assert_eq!(Integrator::from_name("pt-"), None);
    assert_eq!(Integrator::from_config(None), Some(Integrator::PathTracingDirect));
}

#[test]
fn output_format_names() {
    assert_eq!(OutputFormat::from_name("hdr"), Some(OutputFormat::Hdr));
    assert_eq!(OutputFormat::from_name("png"), Some(OutputFormat::Png));
    assert_eq!(OutputFormat::from_name("bmp"), None);
    assert!(OutputFormat::Png.applies_gamma());
    assert!(!OutputFormat::Hdr.applies_gamma());
}

#[test]
fn bogus_integrator_fails_before_dispatch() {
    assert_eq!(plan_render(2, 2, 4, 1, Some("bogus"), "png"), Err(ConfigError::UnknownIntegrator));
}

#[test]
fn bmp_output_is_rejected() {
    assert_eq!(plan_render(2, 2, 4, 1, Some("pt"), "bmp"), Err(ConfigError::UnsupportedFormat));
}

#[test]
fn zero_samples_rejected() {
    assert_eq!(plan_render(2, 2, 0, 1, None, "hdr"), Err(ConfigError::NoSamples));
}

#[test]
fn oversized_image_rejected() {
    assert_eq!(plan_render(usize::MAX, 2, 1, 1, None, "hdr"), Err(ConfigError::TooLarge));
}

#[test]
fn valid_plan() {
    let plan = plan_render(4, 3, 16, 2, Some("pt"), "hdr").unwrap();
    assert_eq!((plan.width, plan.height, plan.spp, plan.workers), (4, 3, 16, 2));
    assert_eq!(plan.integrator, Integrator::PathTracing);
    assert_eq!(plan.format, OutputFormat::Hdr);
}

#[test]
fn worker_count_fallback() {
    assert_eq!(select_worker_count(0, 8), 8);
    assert_eq!(select_worker_count(3, 8), 3);
    assert_eq!(worker_count(5), 5);
    let fallback = worker_count(0);
    assert!(fallback >= 1);
    assert_eq!(fallback, num_cpus::get());
}
