use vstd::prelude::*;
use vstd::relations::injective_on;
use vstd::set_lib::{lemma_int_range, lemma_map_size, lemma_subset_equality, set_int_range};
use crate::vector::Rgb;

verus! {

/// Position of pixel `(x, y)` in row-major order.
pub open spec fn pixel_index(width: int, x: int, y: int) -> int {
    y * width + x
}

pub open spec fn in_bounds(width: int, height: int, x: int, y: int) -> bool {
    0 <= x < width && 0 <= y < height
}

/// Distinct in-bounds pixels have distinct positions.
pub proof fn lemma_pixel_index_injective(width: int, x1: int, y1: int, x2: int, y2: int)
    requires
        0 <= x1 < width,
        0 <= x2 < width,
        0 <= y1,
        0 <= y2,
        pixel_index(width, x1, y1) == pixel_index(width, x2, y2),
    ensures
        x1 == x2 && y1 == y2,
{
    assert(y2 * width - y1 * width == (y2 - y1) * width) by (nonlinear_arith);
    if y1 < y2 {
        assert((y2 - y1) * width >= width) by (nonlinear_arith)
            requires y2 - y1 >= 1, width > 0;
    } else if y2 < y1 {
        assert((y1 - y2) * width >= width) by (nonlinear_arith)
            requires y1 - y2 >= 1, width > 0;
        assert((y1 - y2) * width == -((y2 - y1) * width)) by (nonlinear_arith);
    }
}

proof fn lemma_pixel_index_bound(width: int, height: int, x: int, y: int)
    requires
        in_bounds(width, height, x, y),
    ensures
        0 <= pixel_index(width, x, y) < width * height,
{
    assert(y * width + x < width * height) by (nonlinear_arith)
        requires 0 <= x < width, 0 <= y < height;
    assert(0 <= y * width) by (nonlinear_arith)
        requires 0 <= y, 0 <= width;
}

/// The per-pixel jobs of a `width` x `height` image, in row-major order:
/// the job at position `y * width + x` is pixel `(x, y)`.
pub fn pixel_jobs(width: usize, height: usize) -> (jobs: Vec<(usize, usize)>)
    requires
        width * height <= usize::MAX,
    ensures
        jobs@.len() == width * height,
        forall|x: int, y: int| #[trigger] in_bounds(width as int, height as int, x, y)
            ==> jobs@[pixel_index(width as int, x, y)] == (x as usize, y as usize),
{
    let mut jobs: Vec<(usize, usize)> = Vec::new();
    let mut y: usize = 0;
    while y < height
        invariant
            width * height <= usize::MAX,
            y <= height,
            jobs@.len() == y * width,
            forall|xx: int, yy: int| 0 <= xx < width && 0 <= yy < y
                ==> #[trigger] jobs@[pixel_index(width as int, xx, yy)] == (xx as usize, yy as usize),
        decreases height - y,
    {
        let mut x: usize = 0;
        while x < width
            invariant
                width * height <= usize::MAX,
                y < height,
                x <= width,
                jobs@.len() == y * width + x,
                forall|xx: int, yy: int| 0 <= xx < width && 0 <= yy < y
                    ==> #[trigger] jobs@[pixel_index(width as int, xx, yy)] == (xx as usize, yy as usize),
                forall|xx: int| 0 <= xx < x
                    ==> #[trigger] jobs@[pixel_index(width as int, xx, y as int)] == (xx as usize, y as usize),
            decreases width - x,
        {
            proof {
                assert(y * width + x < width * height) by (nonlinear_arith)
                    requires x < width, y < height;
                assert forall|xx: int, yy: int| 0 <= xx < width && 0 <= yy < y
                    implies pixel_index(width as int, xx, yy) < jobs@.len() by {
                    lemma_pixel_index_bound(width as int, y as int, xx, yy);
                    assert(width * y <= y * width) by (nonlinear_arith);
                }
            }
            jobs.push((x, y));
            x = x + 1;
        }
        assert((y + 1) * width == y * width + width) by (nonlinear_arith);
        y = y + 1;
        proof {
            assert forall|xx: int, yy: int| 0 <= xx < width && 0 <= yy < y
                implies #[trigger] jobs@[pixel_index(width as int, xx, yy)] == (xx as usize, yy as usize) by {
                if yy < y - 1 {
                } else {
                    assert(yy == y - 1);
                }
            }
        }
    }
    assert(height * width == width * height) by (nonlinear_arith);
    jobs
}

/// Every pixel of the image has exactly one job.
pub proof fn lemma_jobs_cover_each_pixel_once(
    width: usize,
    height: usize,
    jobs: Seq<(usize, usize)>,
    x: usize,
    y: usize,
)
    requires
        jobs.len() == width * height,
        forall|xx: int, yy: int| #[trigger] in_bounds(width as int, height as int, xx, yy)
            ==> jobs[pixel_index(width as int, xx, yy)] == (xx as usize, yy as usize),
        x < width && y < height,
    ensures
        0 <= pixel_index(width as int, x as int, y as int) < jobs.len(),
        jobs[pixel_index(width as int, x as int, y as int)] == (x, y),
        forall|i: int| 0 <= i < jobs.len() && #[trigger] jobs[i] == (x, y)
            ==> i == pixel_index(width as int, x as int, y as int),
{
    let width = width as int;
    let height = height as int;
    assert(in_bounds(width, height, x as int, y as int));
    lemma_pixel_index_bound(width, height, x as int, y as int);
    assert forall|i: int| 0 <= i < jobs.len() && #[trigger] jobs[i] == (x, y)
        implies i == pixel_index(width, x as int, y as int) by {
        let xi = i % width;
        let yi = i / width;
        assert(width > 0) by (nonlinear_arith)
            requires 0 <= i < width * height, height >= 0;
        assert(i == yi * width + xi && 0 <= xi < width && 0 <= yi) by (nonlinear_arith)
            requires xi == i % width, yi == i / width, width > 0, i >= 0;
        assert(yi < height) by (nonlinear_arith)
            requires i == yi * width + xi, 0 <= xi, i < width * height, width > 0;
        assert(in_bounds(width, height, xi, yi));
        assert(jobs[pixel_index(width, xi, yi)] == (xi as usize, yi as usize));
        assert(xi == x && yi == y);
    }
}

/// Why a result could not be placed into the image.
#[derive(Clone, Copy, Debug, PartialEq, Eq, Structural)]
pub enum CollectError {
    /// The result names a pixel outside the image.
    OutOfBounds,
    /// The pixel already holds a result.
    AlreadyWritten,
    /// The number of results differs from the number of pixels.
    WrongCount,
}

/// The image being assembled: one RGB value per pixel, row-major, each
/// written at most once.
pub struct ImageBuffer {
    width: usize,
    height: usize,
    pixels: Vec<Rgb>,
    written: Vec<bool>,
    remaining: usize,
    written_set: Ghost<Set<int>>,
}

impl ImageBuffer {
    pub closed spec fn width_view(&self) -> int {
        self.width as int
    }

    pub closed spec fn height_view(&self) -> int {
        self.height as int
    }

    /// The pixel values, row-major.
    pub closed spec fn pixels_view(&self) -> Seq<Rgb> {
        self.pixels@
    }

    /// Positions of the pixels written so far.
    pub closed spec fn written_view(&self) -> Set<int> {
        self.written_set@
    }

    pub open spec fn len_spec(&self) -> int {
        self.width_view() * self.height_view()
    }

    /// Every pixel has been written.
    pub open spec fn complete(&self) -> bool {
        self.written_view() == set_int_range(0, self.len_spec())
    }

    pub closed spec fn wf(&self) -> bool {
        &&& self.width * self.height <= usize::MAX
        &&& self.pixels@.len() == self.width * self.height
        &&& self.written@.len() == self.width * self.height
        &&& self.written_set@.finite()
        &&& self.written_set@.subset_of(set_int_range(0, self.width * self.height))
        &&& forall|i: int| 0 <= i < self.written@.len() ==>
                (#[trigger] self.written@[i] <==> self.written_set@.contains(i))
        &&& self.remaining == self.width * self.height - self.written_set@.len()
    }

    proof fn lemma_view_len(&self)
        requires
            self.wf(),
        ensures
            self.pixels_view().len() == self.len_spec(),
            self.written_view().len() <= self.len_spec(),
    {
        lemma_int_range(0, self.width * self.height);
        vstd::set_lib::lemma_len_subset(self.written_set@, set_int_range(0, self.width * self.height));
    }

    /// An image of the given size with every pixel zero and none written.
    pub fn new(width: usize, height: usize) -> (img: ImageBuffer)
        requires
            width * height <= usize::MAX,
        ensures
            img.wf(),
            img.width_view() == width,
            img.height_view() == height,
            img.pixels_view() == Seq::new((width * height) as nat, |i: int| Rgb::zero_spec()),
            img.written_view() == Set::<int>::empty(),
    {
        let n: usize = width * height;
        let mut pixels: Vec<Rgb> = Vec::new();
        let mut written: Vec<bool> = Vec::new();
        let mut i: usize = 0;
        while i < n
            invariant
                i <= n,
                pixels@.len() == i,
                written@.len() == i,
                forall|j: int| 0 <= j < i ==> pixels@[j] == Rgb::zero_spec(),
                forall|j: int| 0 <= j < i ==> !written@[j],
            decreases n - i,
        {
            pixels.push(Rgb::zero());
            written.push(false);
            i = i + 1;
        }
        let img = ImageBuffer { width, height, pixels, written, remaining: n, written_set: Ghost(Set::empty()) };
        assert(img.pixels_view() == Seq::new((width * height) as nat, |i: int| Rgb::zero_spec()));
        img
    }

    pub fn width(&self) -> (r: usize)
        ensures
            r == self.width_view(),
    {
        self.width
    }

    pub fn height(&self) -> (r: usize)
        ensures
            r == self.height_view(),
    {
        self.height
    }

    /// The pixel values, row-major.
    pub fn pixels(&self) -> (r: &Vec<Rgb>)
        ensures
            r@ == self.pixels_view(),
    {
        &self.pixels
    }

    /// The value at pixel `(x, y)`.
    pub fn get(&self, x: usize, y: usize) -> (r: Rgb)
        requires
            self.wf(),
            x < self.width_view(),
            y < self.height_view(),
        ensures
            0 <= pixel_index(self.width_view(), x as int, y as int) < self.pixels_view().len(),
            r == self.pixels_view()[pixel_index(self.width_view(), x as int, y as int)],
    {
        proof {
            lemma_pixel_index_bound(self.width as int, self.height as int, x as int, y as int);
        }
        self.pixels[y * self.width + x]
    }

    /// Writes the result for pixel `(x, y)`, once.
    pub fn accept(&mut self, x: usize, y: usize, value: Rgb) -> (r: Result<(), CollectError>)
        requires
            old(self).wf(),
        ensures
            final(self).wf(),
            final(self).width_view() == old(self).width_view(),
            final(self).height_view() == old(self).height_view(),
            !in_bounds(old(self).width_view(), old(self).height_view(), x as int, y as int)
                ==> r == Err::<(), CollectError>(CollectError::OutOfBounds),
            in_bounds(old(self).width_view(), old(self).height_view(), x as int, y as int)
                && old(self).written_view().contains(pixel_index(old(self).width_view(), x as int, y as int))
                ==> r == Err::<(), CollectError>(CollectError::AlreadyWritten),
            r is Err ==> *final(self) == *old(self),
            in_bounds(old(self).width_view(), old(self).height_view(), x as int, y as int)
                && !old(self).written_view().contains(pixel_index(old(self).width_view(), x as int, y as int))
                ==> r is Ok
                && final(self).pixels_view() == old(self).pixels_view().update(
                    pixel_index(old(self).width_view(), x as int, y as int), value)
                && final(self).written_view() == old(self).written_view().insert(
                    pixel_index(old(self).width_view(), x as int, y as int)),
    {
        if x >= self.width || y >= self.height {
            return Err(CollectError::OutOfBounds);
        }
        proof {
            lemma_pixel_index_bound(self.width as int, self.height as int, x as int, y as int);
        }
        let i: usize = y * self.width + x;
        if self.written[i] {
            return Err(CollectError::AlreadyWritten);
        }
        proof {
            self.lemma_view_len();
        }
        self.pixels.set(i, value);
        self.written.set(i, true);
        let ghost ws = self.written_set@.insert(i as int);
        proof {
            lemma_int_range(0, self.width * self.height);
            vstd::set_lib::lemma_len_subset(ws, set_int_range(0, self.width * self.height));
        }
        self.written_set = Ghost(ws);
        self.remaining = self.remaining - 1;
        Ok(())
    }

    /// Whether every pixel has been written.
    pub fn is_complete(&self) -> (r: bool)
        requires
            self.wf(),
        ensures
            r == self.complete(),
    {
        proof {
            let full = set_int_range(0, self.width * self.height);
            lemma_int_range(0, self.width * self.height);
            if self.remaining == 0 {
                lemma_subset_equality(self.written_set@, full);
            }
        }
        self.remaining == 0
    }
}

/// Results that fill a `width` x `height` image exactly: one per pixel,
/// each inside the image, no pixel named twice.
pub open spec fn fills_exactly(width: int, height: int, results: Seq<(usize, usize, Rgb)>) -> bool {
    &&& results.len() == width * height
    &&& forall|i: int| 0 <= i < results.len() ==> in_bounds(width, height,
            (#[trigger] results[i]).0 as int, results[i].1 as int)
    &&& forall|i: int, j: int| 0 <= i < results.len() && 0 <= j < results.len() && i != j
            ==> !((#[trigger] results[i]).0 == (#[trigger] results[j]).0 && results[i].1 == results[j].1)
}

/// Results that fill the image exactly name every pixel, each exactly once.
pub proof fn lemma_results_cover_each_pixel_once(
    width: int,
    height: int,
    results: Seq<(usize, usize, Rgb)>,
    x: int,
    y: int,
)
    requires
        width >= 0 && height >= 0,
        fills_exactly(width, height, results),
        in_bounds(width, height, x, y),
    ensures
        exists|i: int| 0 <= i < results.len() && (#[trigger] results[i]).0 == x && results[i].1 == y,
        forall|i: int, j: int| 0 <= i < results.len() && 0 <= j < results.len()
            && (#[trigger] results[i]).0 == x && results[i].1 == y
            && (#[trigger] results[j]).0 == x && results[j].1 == y ==> i == j,
{
    let n = width * height;
    let dom = set_int_range(0, n);
    let f = |i: int| pixel_index(width, results[i].0 as int, results[i].1 as int);
    let img = dom.map(f);
    lemma_int_range(0, n);
    assert(injective_on(f, dom)) by {
        assert forall|i: int, j: int| dom.contains(i) && dom.contains(j) && #[trigger] f(i) == #[trigger] f(j)
            implies i == j by {
            assert(in_bounds(width, height, results[i].0 as int, results[i].1 as int));
            assert(in_bounds(width, height, results[j].0 as int, results[j].1 as int));
            lemma_pixel_index_injective(width, results[i].0 as int, results[i].1 as int,
                results[j].0 as int, results[j].1 as int);
        }
    }
    lemma_map_size(dom, img, f);
    assert(img.subset_of(dom)) by {
        assert forall|p: int| #[trigger] img.contains(p) implies dom.contains(p) by {
            let i = choose|i: int| dom.contains(i) && f(i) == p;
            assert(in_bounds(width, height, results[i].0 as int, results[i].1 as int));
            lemma_pixel_index_bound(width, height, results[i].0 as int, results[i].1 as int);
        }
    }
    lemma_subset_equality(img, dom);
    let p = pixel_index(width, x, y);
    lemma_pixel_index_bound(width, height, x, y);
    assert(dom.contains(p));
    assert(img.contains(p));
    let i = choose|i: int| dom.contains(i) && f(i) == p;
    assert(in_bounds(width, height, results[i].0 as int, results[i].1 as int));
    lemma_pixel_index_injective(width, results[i].0 as int, results[i].1 as int, x, y);
    assert(results[i].0 == x && results[i].1 == y);
}

/// The image that results filling it exactly describe: each position holds
/// the value of the result that names it.
pub open spec fn assembled(width: int, height: int, results: Seq<(usize, usize, Rgb)>) -> Seq<Rgb> {
    Seq::new((width * height) as nat, |p: int|
        results[choose|i: int| 0 <= i < results.len()
            && pixel_index(width, (#[trigger] results[i]).0 as int, results[i].1 as int) == p].2)
}

proof fn lemma_position_has_result(width: int, height: int, results: Seq<(usize, usize, Rgb)>, p: int)
    requires
        width >= 0 && height >= 0,
        fills_exactly(width, height, results),
        0 <= p < width * height,
    ensures
        exists|i: int| 0 <= i < results.len()
            && pixel_index(width, (#[trigger] results[i]).0 as int, results[i].1 as int) == p,
{
    let x = p % width;
    let y = p / width;
    assert(width > 0) by (nonlinear_arith)
        requires 0 <= p < width * height, height >= 0;
    assert(p == y * width + x && 0 <= x < width && 0 <= y) by (nonlinear_arith)
        requires x == p % width, y == p / width, width > 0, p >= 0;
    assert(y < height) by (nonlinear_arith)
        requires p == y * width + x, 0 <= x, p < width * height, width > 0;
    lemma_results_cover_each_pixel_once(width, height, results, x, y);
    let i = choose|i: int| 0 <= i < results.len() && (#[trigger] results[i]).0 == x && results[i].1 == y;
    assert(pixel_index(width, results[i].0 as int, results[i].1 as int) == p);
}

/// The assembled image does not depend on the order in which results
/// arrive: two orderings of the same results give the same image.
pub proof fn lemma_assembly_order_independent(
    width: int,
    height: int,
    a: Seq<(usize, usize, Rgb)>,
    b: Seq<(usize, usize, Rgb)>,
)
    requires
        width >= 0 && height >= 0,
        fills_exactly(width, height, a),
        fills_exactly(width, height, b),
        forall|i: int| 0 <= i < a.len() ==> exists|j: int| 0 <= j < b.len() && b[j] == #[trigger] a[i],
    ensures
        assembled(width, height, a) == assembled(width, height, b),
{
    assert forall|p: int| 0 <= p < width * height implies
        #[trigger] assembled(width, height, a)[p] == assembled(width, height, b)[p] by {
        lemma_position_has_result(width, height, a, p);
        lemma_position_has_result(width, height, b, p);
        let ia = choose|i: int| 0 <= i < a.len()
            && pixel_index(width, (#[trigger] a[i]).0 as int, a[i].1 as int) == p;
        let ib = choose|i: int| 0 <= i < b.len()
            && pixel_index(width, (#[trigger] b[i]).0 as int, b[i].1 as int) == p;
        let j = choose|j: int| 0 <= j < b.len() && b[j] == a[ia];
        assert(in_bounds(width, height, b[j].0 as int, b[j].1 as int));
        assert(in_bounds(width, height, b[ib].0 as int, b[ib].1 as int));
        lemma_pixel_index_injective(width, b[j].0 as int, b[j].1 as int, b[ib].0 as int, b[ib].1 as int);
        assert(j == ib);
    }
    assert(assembled(width, height, a) =~= assembled(width, height, b));
}

/// Assembles the image from per-pixel results that arrive in any order.
/// Succeeds exactly when the results fill the image exactly; each pixel then
/// holds the value its result carried.
pub fn collect(width: usize, height: usize, results: &Vec<(usize, usize, Rgb)>)
    -> (r: Result<ImageBuffer, CollectError>)
    requires
        width * height <= usize::MAX,
    ensures
        r is Ok <==> fills_exactly(width as int, height as int, results@),
        r matches Ok(img) ==> {
            &&& img.wf()
            &&& img.width_view() == width
            &&& img.height_view() == height
            &&& img.complete()
            &&& img.pixels_view() == assembled(width as int, height as int, results@)
            &&& forall|i: int| 0 <= i < results@.len() ==> img.pixels_view()[pixel_index(
                    width as int, (#[trigger] results@[i]).0 as int, results@[i].1 as int)] == results@[i].2
        },
{
    if results.len() != width * height {
        return Err(CollectError::WrongCount);
    }
    let mut img = ImageBuffer::new(width, height);
    let mut i: usize = 0;
    while i < results.len()
        invariant
            width * height <= usize::MAX,
            results@.len() == width * height,
            i <= results@.len(),
            img.wf(),
            img.width_view() == width,
            img.height_view() == height,
            img.written_view().finite(),
            img.written_view().len() == i,
            forall|p: int| #[trigger] img.written_view().contains(p) <==> exists|j: int|
                0 <= j < i && p == pixel_index(width as int, (#[trigger] results@[j]).0 as int, results@[j].1 as int),
            forall|j: int| 0 <= j < i ==> in_bounds(width as int, height as int,
                (#[trigger] results@[j]).0 as int, results@[j].1 as int),
            forall|j: int, k: int| 0 <= j < i && 0 <= k < i && j != k
                ==> !((#[trigger] results@[j]).0 == (#[trigger] results@[k]).0 && results@[j].1 == results@[k].1),
            forall|j: int| 0 <= j < i ==> img.pixels_view()[pixel_index(
                width as int, (#[trigger] results@[j]).0 as int, results@[j].1 as int)] == results@[j].2,
        decreases results@.len() - i,
    {
        let (x, y, value) = results[i];
        let ghost before = img;
        let ghost p = pixel_index(width as int, x as int, y as int);
        match img.accept(x, y, value) {
            Err(e) => {
                proof {
                    if in_bounds(width as int, height as int, x as int, y as int) {
                        let j = choose|j: int| 0 <= j < i && p == pixel_index(
                            width as int, (#[trigger] results@[j]).0 as int, results@[j].1 as int);
                        lemma_pixel_index_injective(width as int, x as int, y as int,
                            results@[j].0 as int, results@[j].1 as int);
                        assert(results@[j].0 == results@[i as int].0 && results@[j].1 == results@[i as int].1);
                    }
                }
                return Err(e);
            }
            Ok(()) => {}
        }
        proof {
            lemma_pixel_index_bound(width as int, height as int, x as int, y as int);
            assert forall|j: int, k: int| 0 <= j < i + 1 && 0 <= k < i + 1 && j != k
                implies !((#[trigger] results@[j]).0 == (#[trigger] results@[k]).0
                    && results@[j].1 == results@[k].1) by {
                if j == i || k == i {
                    let o = if j == i { k } else { j };
                    assert(before.written_view().contains(pixel_index(width as int,
                        results@[o].0 as int, results@[o].1 as int)));
                }
            }
            assert forall|j: int| 0 <= j < i + 1 implies img.pixels_view()[pixel_index(
                width as int, (#[trigger] results@[j]).0 as int, results@[j].1 as int)] == results@[j].2 by {
                if j < i {
                    let q = pixel_index(width as int, results@[j].0 as int, results@[j].1 as int);
                    assert(before.written_view().contains(q));
                    assert(q != p);
                }
            }
            assert forall|q: int| #[trigger] img.written_view().contains(q) <==> exists|j: int|
                0 <= j < i + 1 && q == pixel_index(width as int, (#[trigger] results@[j]).0 as int, results@[j].1 as int) by {
                if q == p {
                    assert(results@[i as int].0 == x);
                }
            }
        }
        i = i + 1;
    }
    proof {
        lemma_int_range(0, width * height);
        let full = set_int_range(0, width * height);
        lemma_subset_equality(img.written_view(), full);
        img.lemma_view_len();
        assert forall|p: int| 0 <= p < width * height implies
            #[trigger] img.pixels_view()[p] == assembled(width as int, height as int, results@)[p] by {
            lemma_position_has_result(width as int, height as int, results@, p);
        }
        assert(img.pixels_view() =~= assembled(width as int, height as int, results@));
    }
    Ok(img)
}

} // verus!
