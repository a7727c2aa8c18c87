use vstd::prelude::*;
use crate::vector::{Ray, Rgb, MAX_VALUE, ONE};
use vstd::arithmetic::div_mod::lemma_mod_multiples_vanish;

verus! {

/// Radiance arriving along a ray that has left the scene's geometry.
pub trait Sky {
    spec fn wf(&self) -> bool;

    spec fn radiance_of(&self, ray: Ray) -> Rgb;

    fn radiance(&self, ray: &Ray) -> (r: Rgb)
        requires
            self.wf(),
            ray.wf(),
        ensures
            r == self.radiance_of(*ray),
    ;
}

/// The same emission in every direction.
pub struct UniformSky {
    pub emission: Rgb,
}

impl Sky for UniformSky {
    open spec fn wf(&self) -> bool {
        true
    }

    open spec fn radiance_of(&self, ray: Ray) -> Rgb {
        self.emission
    }

    fn radiance(&self, ray: &Ray) -> (r: Rgb) {
        self.emission
    }
}

/// Blend of one channel: `meridian * w + horizon * (1 - w)`, `w` in fixed point.
pub open spec fn blend(meridian: u64, horizon: u64, w: int) -> int {
    (meridian * w + horizon * (ONE - w)) / (ONE as int)
}

/// `|y|`: how far a direction points away from the horizon, in fixed point.
pub open spec fn vertical_weight(ray: Ray) -> int {
    if ray.direction.y < 0 { -ray.direction.y } else { ray.direction.y as int }
}

/// A two-tone sky: `meridian` straight up or down, `horizon` at the horizon,
/// blended by the vertical component of the direction.
pub struct SimpleSky {
    pub meridian: Rgb,
    pub horizon: Rgb,
}

fn blend_channel(meridian: u64, horizon: u64, w: u64) -> (r: u64)
    requires
        meridian <= MAX_VALUE,
        horizon <= MAX_VALUE,
        w <= ONE,
    ensures
        r == blend(meridian, horizon, w as int),
        r <= MAX_VALUE,
{
    assert(meridian * w <= MAX_VALUE * w) by (nonlinear_arith)
        requires meridian <= MAX_VALUE;
    assert(horizon * (ONE - w) <= MAX_VALUE * (ONE - w)) by (nonlinear_arith)
        requires horizon <= MAX_VALUE, w <= ONE;
    assert(MAX_VALUE * w + MAX_VALUE * (ONE - w)
        == MAX_VALUE * ONE) by (nonlinear_arith);
    let m: u64 = meridian * w;
    let h: u64 = horizon * (ONE - w);
    (m + h) / ONE
}

impl Sky for SimpleSky {
    open spec fn wf(&self) -> bool {
        self.meridian.bounded() && self.horizon.bounded()
    }

    open spec fn radiance_of(&self, ray: Ray) -> Rgb {
        let w = vertical_weight(ray);
        Rgb {
            r: blend(self.meridian.r, self.horizon.r, w) as u64,
            g: blend(self.meridian.g, self.horizon.g, w) as u64,
            b: blend(self.meridian.b, self.horizon.b, w) as u64,
        }
    }

    fn radiance(&self, ray: &Ray) -> (r: Rgb) {
        let y = ray.direction.y;
        let w: u64 = if y < 0 { (-y) as u64 } else { y as u64 };
        Rgb {
            r: blend_channel(self.meridian.r, self.horizon.r, w),
            g: blend_channel(self.meridian.g, self.horizon.g, w),
            b: blend_channel(self.meridian.b, self.horizon.b, w),
        }
    }
}

/// A gradient sky gives exactly its meridian colour straight up, and
/// exactly its horizon colour along any horizontal direction.
pub proof fn lemma_simple_sky_boundary(sky: SimpleSky, up: Ray, level: Ray)
    requires
        sky.wf(),
        up.direction.x == 0 && up.direction.y == ONE && up.direction.z == 0,
        level.direction.y == 0,
    ensures
        sky.radiance_of(up) == sky.meridian,
        sky.radiance_of(level) == sky.horizon,
{
    assert forall|m: u64, h: u64| #![auto] blend(m, h, ONE as int) == m && blend(m, h, 0) == h by {
        assert(m * ONE / (ONE as int) == m) by (nonlinear_arith);
        assert(h * ONE / (ONE as int) == h) by (nonlinear_arith);
    }
}

/// Angle unit: `TURN` stands for a full turn (2π).
pub const TURN: u64 = 65536;

/// Half a turn (π).
pub const HALF_TURN: i64 = 32768;

/// The largest magnitude admitted for a longitude or longitude offset.
pub const MAX_ANGLE: i64 = 1099511627776;

/// The largest admitted environment-image height.
pub const MAX_HEIGHT: usize = 1048576;

/// A multiple of `TURN` that lifts any admitted longitude sum above zero.
const ANGLE_SHIFT: i64 = 4398046511104;

/// Index of the texel seen along the direction with polar angle `theta`
/// and longitude `phi`, on an equirectangular image of the given height
/// (its width is twice that).
pub open spec fn texel_index(height: int, offset: int, theta: int, phi: int) -> int {
    let width = 2 * height;
    let u = (phi + HALF_TURN + offset) % (TURN as int);
    let v = (2 * theta) % (TURN as int);
    let x = u * width / (TURN as int);
    let y = v * height / (TURN as int);
    (y * width + x) % (width * height)
}

/// Image-based lighting: a 2:1 equirectangular environment image, looked up
/// nearest-neighbour.
pub struct IBLSky {
    texels: Vec<Rgb>,
    height: usize,
    longitude_offset: i64,
}

impl IBLSky {
    pub closed spec fn texels_view(&self) -> Seq<Rgb> {
        self.texels@
    }

    pub closed spec fn height_view(&self) -> int {
        self.height as int
    }

    pub closed spec fn offset_view(&self) -> int {
        self.longitude_offset as int
    }

    pub closed spec fn wf(&self) -> bool {
        &&& 1 <= self.height <= MAX_HEIGHT
        &&& self.texels@.len() == 2 * self.height * self.height
        &&& -MAX_ANGLE <= self.longitude_offset <= MAX_ANGLE
    }

    /// Builds the sky from decoded texels, row by row, top row first.
    /// Returns `None` unless there are exactly `2 * height * height` of them.
    pub fn from_texels(texels: Vec<Rgb>, height: usize, longitude_offset: i64) -> (r: Option<IBLSky>)
        ensures
            r is Some <==> (1 <= height <= MAX_HEIGHT
                && texels@.len() == 2 * height * height
                && -MAX_ANGLE <= longitude_offset <= MAX_ANGLE),
            r matches Some(s) ==> s.wf() && s.texels_view() == texels@
                && s.height_view() == height && s.offset_view() == longitude_offset,
    {
        if height < 1 || height > MAX_HEIGHT || longitude_offset < -MAX_ANGLE
            || longitude_offset > MAX_ANGLE {
            return None;
        }
        assert(2 * height * height <= 2 * MAX_HEIGHT * MAX_HEIGHT) by (nonlinear_arith)
            requires height <= MAX_HEIGHT;
        if texels.len() as u64 != 2 * (height as u64) * (height as u64) {
            return None;
        }
        Some(IBLSky { texels, height, longitude_offset })
    }

    /// Radiance seen along the direction with polar angle `theta` in
    /// `[0, HALF_TURN]` and longitude `phi` (any admitted value: it wraps).
    pub fn radiance_at(&self, theta: i64, phi: i64) -> (r: Rgb)
        requires
            self.wf(),
            0 <= theta <= HALF_TURN,
            -MAX_ANGLE <= phi <= MAX_ANGLE,
        ensures
            0 <= texel_index(self.height_view(), self.offset_view(), theta as int, phi as int)
                < self.texels_view().len(),
            r == self.texels_view()[texel_index(
                self.height_view(), self.offset_view(), theta as int, phi as int)],
    {
        let h = self.height as u64;
        let w: u64 = 2 * h;
        let s: i64 = phi + HALF_TURN + self.longitude_offset + ANGLE_SHIFT;
        let u: u64 = (s as u64) % TURN;
        let v: u64 = ((2 * theta) as u64) % TURN;
        proof {
            let a = phi + HALF_TURN + self.longitude_offset;
            lemma_mod_multiples_vanish(67108864, a as int, TURN as int);
            assert(s as int == TURN * 67108864 + a);
        }
        assert(u * w / (TURN as int) < w) by (nonlinear_arith)
            requires u < TURN, w > 0;
        assert(v * h / (TURN as int) < h) by (nonlinear_arith)
            requires v < TURN, h > 0;
        assert(u * w <= TURN * (2 * MAX_HEIGHT)) by (nonlinear_arith)
            requires u < TURN, w <= 2 * MAX_HEIGHT;
        assert(v * h <= TURN * MAX_HEIGHT) by (nonlinear_arith)
            requires v < TURN, h <= MAX_HEIGHT;
        let x: u64 = u * w / TURN;
        let y: u64 = v * h / TURN;
        assert(y * w + x < h * w) by (nonlinear_arith)
            requires y < h, x < w;
        assert(h * w <= MAX_HEIGHT * (2 * MAX_HEIGHT)) by (nonlinear_arith)
            requires h <= MAX_HEIGHT, w <= 2 * MAX_HEIGHT;
        let all: u64 = w * h;
        let index: u64 = (y * w + x) % all;
        assert(w * h == 2 * h * h) by (nonlinear_arith)
            requires w == 2 * h;
        assert(u == (phi + HALF_TURN + self.longitude_offset) % (TURN as int));
        assert(index == texel_index(self.height as int, self.longitude_offset as int, theta as int, phi as int));
        assert(index < self.texels@.len());
        let n: usize = self.texels.len();
        assert(index < n);
        let i: usize = index as usize;
        self.texels[i]
    }
}

/// Longitudes a full turn apart select the same texel.
pub proof fn lemma_longitude_wraps(height: int, offset: int, theta: int, phi: int)
    ensures
        texel_index(height, offset, theta, phi + TURN) == texel_index(height, offset, theta, phi),
{
    lemma_mod_multiples_vanish(1, phi + HALF_TURN + offset, TURN as int);
    assert(phi + TURN + HALF_TURN + offset == TURN * 1 + (phi + HALF_TURN + offset));
}

} // verus!
