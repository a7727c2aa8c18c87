use raytrace::integrator::{estimate, Sample};
use raytrace::render::{collect, pixel_jobs, CollectError, ImageBuffer};
use raytrace::vector::{Rgb, ONE};

#[test]
fn jobs_are_row_major() {
    assert_eq!(pixel_jobs(3, 2), vec![(0, 0), (1, 0), (2, 0), (0, 1), (1, 1), (2, 1)]);
    assert!(pixel_jobs(0, 5).is_empty());
}

#[test]
fn buffer_starts_zero_and_incomplete() {
    let img = ImageBuffer::new(2, 1);
    assert_eq!(img.pixels(), &vec![Rgb::zero(), Rgb::zero()]);
    assert!(!img.is_complete());
    assert!(ImageBuffer::new(0, 3).is_complete());
}

#[test]
fn accept_writes_once() {
    let mut img = ImageBuffer::new(2, 1);
    assert_eq!(img.accept(1, 0, Rgb::new(1, 2, 3)), Ok(()));
    assert_eq!(img.get(1, 0), Rgb::new(1, 2, 3));
    assert_eq!(img.accept(1, 0, Rgb::new(9, 9, 9)), Err(CollectError::AlreadyWritten));
    assert_eq!(img.get(1, 0), Rgb::new(1, 2, 3));
    assert_eq!(img.accept(2, 0, Rgb::zero()), Err(CollectError::OutOfBounds));
    assert!(!img.is_complete());
    assert_eq!(img.accept(0, 0, Rgb::new(4, 5, 6)), Ok(()));
    assert!(img.is_complete());
    assert_eq!((img.width(), img.height()), (2, 1));
}

#[test]
fn collect_places_each_result() {
    let results = vec![(1, 1, Rgb::new(4, 0, 0)), (0, 0, Rgb::new(1, 0, 0)), (1, 0, Rgb::new(2, 0, 0)), (0, 1, Rgb::new(3, 0, 0))];
    let img = collect(2, 2, &results).unwrap();
    assert!(img.is_complete());
    assert_eq!(img.pixels(), &vec![Rgb::new(1, 0, 0), Rgb::new(2, 0, 0), Rgb::new(3, 0, 0), Rgb::new(4, 0, 0)]);
}

#[test]
fn collect_rejects_bad_results() {
    let dup = vec![(0, 0, Rgb::zero()), (0, 0, Rgb::zero())];
    assert_eq!(collect(2, 1, &dup).err(), Some(CollectError::AlreadyWritten));
    let outside = vec![(0, 0, Rgb::zero()), (0, 1, Rgb::zero())];
    assert_eq!(collect(2, 1, &outside).err(), Some(CollectError::OutOfBounds));
    let short = vec![(0, 0, Rgb::zero())];
    assert_eq!(collect(2, 1, &short).err(), Some(CollectError::WrongCount));
}

#[test]
fn arrival_order_does_not_change_image() {
    let forward: Vec<(usize, usize, Rgb)> = pixel_jobs(3, 2)
        .into_iter()
        .map(|(x, y)| (x, y, Rgb::new(x as u64, y as u64, (x * y) as u64)))
        .collect();
    let mut backward = forward.clone();
    backward.reverse();
    let a = collect(3, 2, &forward).unwrap();
    let b = collect(3, 2, &backward).unwrap();
    assert_eq!(a.pixels(), b.pixels());
}

#[test]
fn two_by_two_constant_red_scene() {
    let spp = 4;
    let results: Vec<(usize, usize, Rgb)> = pixel_jobs(2, 2)
        .into_iter()
        .map(|(x, y)| {
            let samples: Vec<Sample> = (0..spp)
                .map(|_| Sample { radiance: Rgb::new(ONE, 0, 0), g_term: ONE, pdf: ONE })
                .collect();
            (x, y, estimate(&samples, ONE))
        })
        .collect();
    let img = collect(2, 2, &results).unwrap();
    for y in 0..2 {
        for x in 0..2 {
            assert_eq!(img.get(x, y), Rgb::new(ONE, 0, 0));
        }
    }
}
