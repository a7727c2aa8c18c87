use raytrace::sky::{IBLSky, SimpleSky, Sky, UniformSky, HALF_TURN, TURN};
use raytrace::vector::{Ray, Rgb, Vector3, ONE};

fn ray_towards(x: i64, y: i64, z: i64) -> Ray {
    Ray { origin: Vector3::new(0, 0, 0), direction: Vector3::new(x, y, z) }
}

const UNIT: i64 = ONE as i64;

#[test]
fn uniform_sky_ignores_direction() {
    let sky = UniformSky { emission: Rgb::new(3, 4, 5) };
    assert_eq!(sky.radiance(&ray_towards(0, UNIT, 0)), Rgb::new(3, 4, 5));
    assert_eq!(sky.radiance(&ray_towards(UNIT, 0, 0)), Rgb::new(3, 4, 5));
}

fn gradient() -> SimpleSky {
    SimpleSky { meridian: Rgb::new(ONE, 2 * ONE, 0), horizon: Rgb::new(0, ONE, 4 * ONE) }
}

#[test]
fn simple_sky_straight_up_is_meridian() {
    assert_eq!(gradient().radiance(&ray_towards(0, UNIT, 0)), Rgb::new(ONE, 2 * ONE, 0));
}

#[test]
fn simple_sky_straight_down_is_meridian() {
    assert_eq!(gradient().radiance(&ray_towards(0, -UNIT, 0)), Rgb::new(ONE, 2 * ONE, 0));
}

#[test]
fn simple_sky_horizontal_is_horizon() {
    assert_eq!(gradient().radiance(&ray_towards(UNIT, 0, 0)), Rgb::new(0, ONE, 4 * ONE));
    assert_eq!(gradient().radiance(&ray_towards(0, 0, -UNIT)), Rgb::new(0, ONE, 4 * ONE));
}

#[test]
fn simple_sky_blends_halfway() {
    let c = gradient().radiance(&ray_towards(0, UNIT / 2, 0));
    assert_eq!(c, Rgb::new(ONE / 2, ONE + ONE / 2, 2 * ONE));
}

fn numbered_texels(n: u64) -> Vec<Rgb> {
    (0..n).map(|i| Rgb::new(i, 0, 0)).collect()
}

#[test]
fn ibl_rejects_wrong_texel_count() {
    assert!(IBLSky::from_texels(numbered_texels(7), 2, 0).is_none());
    assert!(IBLSky::from_texels(Vec::new(), 0, 0).is_none());
    assert!(IBLSky::from_texels(numbered_texels(8), 2, 0).is_some());
}

#[test]
fn ibl_selects_nearest_texel() {
    // height 2, width 4: texel index = row * 4 + column
    let sky = IBLSky::from_texels(numbered_texels(8), 2, 0).unwrap();
    // phi = -pi maps to u = 0, theta = 0 to v = 0
    assert_eq!(sky.radiance_at(0, -HALF_TURN), Rgb::new(0, 0, 0));
    // phi = 0 maps to u = 1/2: column 2; theta = pi/2 maps to row 1
    assert_eq!(sky.radiance_at(HALF_TURN / 2, 0), Rgb::new(6, 0, 0));
    // theta = pi wraps to row 0
    assert_eq!(sky.radiance_at(HALF_TURN, 0), Rgb::new(2, 0, 0));
}

#[test]
fn ibl_longitude_offset_shifts_columns() {
    let sky = IBLSky::from_texels(numbered_texels(8), 2, (TURN / 4) as i64).unwrap();
    assert_eq!(sky.radiance_at(0, 0), Rgb::new(3, 0, 0));
}

#[test]
fn ibl_longitude_wraps_after_full_turn() {
    let sky = IBLSky::from_texels(numbered_texels(8), 2, 1000).unwrap();
    let t = TURN as i64;
    for phi in [-HALF_TURN + 1, -5000, 0, 12345, HALF_TURN] {
        assert_eq!(sky.radiance_at(HALF_TURN / 2, phi), sky.radiance_at(HALF_TURN / 2, phi + t));
        assert_eq!(sky.radiance_at(100, phi), sky.radiance_at(100, phi - t));
    }
}
