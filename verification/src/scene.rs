//! The pixel grid of a render and the rules that read and fill it.
use vstd::prelude::*;
use vstd::arithmetic::div_mod::lemma_fundamental_div_mod_converse;
use crate::color::Rgb;
use crate::encode::file_of;
use crate::encode::encodable;
use crate::encode::encode_rgb;
use crate::encode::is_encodable;
use crate::encode::png_bytes;
use crate::encode::EncodeError;
use crate::hit::all_miss;
use crate::hit::is_nearest;
use crate::hit::lemma_nearest_is;
use crate::hit::lemma_nearest_none;
use crate::hit::nearest;
use crate::hit::occluder_of;
use crate::hit::Hit;
use crate::pixel::mean_color;
use crate::pixel::Pixel;
use crate::pixel::Ratio;

verus! {

/// The screen coordinate of grid index `i` along an axis of `extent`
/// cells: `(i - extent / 2) / extent`, kept exact as
/// `(2 i - extent) / (2 extent)`.
pub open spec fn screen_coordinate(i: int, extent: int) -> Ratio {
    Ratio { num: (2 * i - extent) as i64, den: (2 * extent) as i64 }
}

/// Every cell's screen coordinate lies in the half-open interval from
/// -1/2 to 1/2, and the middle index of an even extent sits at zero.
pub proof fn lemma_screen_coordinate_range(i: int, extent: int)
    requires
        0 <= i < extent,
        2 * extent <= i64::MAX,
    ensures
        screen_coordinate(i, extent).den == 2 * extent,
        screen_coordinate(i, extent).num == 2 * i - extent,
        -screen_coordinate(i, extent).den <= 2 * screen_coordinate(i, extent).num,
        2 * screen_coordinate(i, extent).num < screen_coordinate(i, extent).den,
        2 * i == extent ==> screen_coordinate(i, extent).num == 0,
{
}

/// A cell once the background has been given to it: a cell without
/// samples takes the background as its one sample, any other stays as it
/// is.
pub open spec fn backed(cell: Pixel, background: Rgb) -> Pixel {
    if cell.samples == 0 {
        Pixel { x: cell.x, y: cell.y, color: Some(background), samples: 1 }
    } else {
        cell
    }
}

/// The grid of cells a render fills, `height` rows of `width` cells.
pub struct Scene {
    pub height: usize,
    pub width: usize,
    pub pixels: Vec<Vec<Pixel>>,
}

impl Scene {
    /// The first `rows` rows are complete: each has `width` cells, all
    /// well formed and at their screen coordinates.
    pub open spec fn rows_wf(pixels: Seq<Vec<Pixel>>, rows: int, height: int, width: int) -> bool {
        &&& forall|y: int| 0 <= y < rows ==> (#[trigger] pixels[y])@.len() == width
        &&& forall|y: int, x: int|
            0 <= y < rows && 0 <= x < width ==> {
                &&& (#[trigger] pixels[y]@[x]).wf()
                &&& pixels[y]@[x].x == screen_coordinate(x, width)
                &&& pixels[y]@[x].y == screen_coordinate(y, height)
            }
    }

    /// Where the grid has cells, their screen coordinates must be
    /// representable: twice each dimension fits in an `i64`.
    pub open spec fn in_range(height: int, width: int) -> bool {
        height > 0 && width > 0 ==> 2 * height <= i64::MAX && 2 * width <= i64::MAX
    }

    /// The grid has the shape its dimensions announce, and every cell is
    /// well formed and sits at its screen coordinate.
    pub open spec fn wf(&self) -> bool {
        &&& Self::in_range(self.height as int, self.width as int)
        &&& self.pixels@.len() == self.height
        &&& Self::rows_wf(self.pixels@, self.height as int, self.height as int, self.width as int)
    }

    /// The colour the image shows at row `y`, column `x`: the cell's mean,
    /// black where no sample arrived.
    pub open spec fn shown(&self, y: int, x: int) -> Rgb {
        self.pixels@[y]@[x].mean()
    }

    /// The image as one row-major sequence, rows outermost.
    pub open spec fn image(&self) -> Seq<Rgb> {
        Seq::new(
            (self.height * self.width) as nat,
            |k: int| self.shown(k / self.width as int, k % self.width as int),
        )
    }

    /// A grid of `h` rows and `w` columns in which no cell has received a
    /// sample.
    pub fn new(h: usize, w: usize) -> (scene: Scene)
        requires
            Self::in_range(h as int, w as int),
        ensures
            scene.wf(),
            scene.height == h,
            scene.width == w,
            forall|y: int, x: int|
                0 <= y < h && 0 <= x < w ==> (#[trigger] scene.pixels@[y]@[x]).samples == 0,
    {
        let mut pixels: Vec<Vec<Pixel>> = Vec::new();
        let mut i: usize = 0;
        while i < h
            invariant
                0 <= i <= h,
                Self::in_range(h as int, w as int),
                pixels@.len() == i,
                Self::rows_wf(pixels@, i as int, h as int, w as int),
                forall|y: int, x: int|
                    0 <= y < i && 0 <= x < w ==> (#[trigger] pixels@[y]@[x]).samples == 0,
            decreases h - i,
        {
            let mut pixel_row: Vec<Pixel> = Vec::new();
            let mut j: usize = 0;
            while j < w
                invariant
                    0 <= j <= w,
                    0 <= i < h,
                    Self::in_range(h as int, w as int),
                    pixel_row@.len() == j,
                    forall|x: int|
                        0 <= x < j ==> {
                            &&& (#[trigger] pixel_row@[x]).wf()
                            &&& pixel_row@[x].samples == 0
                            &&& pixel_row@[x].x == screen_coordinate(x, w as int)
                            &&& pixel_row@[x].y == screen_coordinate(i as int, h as int)
                        },
                decreases w - j,
            {
                let x = Ratio { num: 2 * (j as i64) - (w as i64), den: 2 * (w as i64) };
                let y = Ratio { num: 2 * (i as i64) - (h as i64), den: 2 * (h as i64) };
                pixel_row.push(Pixel::new(x, y));
                j = j + 1;
            }
            let ghost before = pixels@;
            pixels.push(pixel_row);
            proof {
                assert(forall|y: int| 0 <= y < i ==> pixels@[y] == before[y]);
            }
            i = i + 1;
        }
        Scene { height: h, width: w, pixels }
    }

    /// Folds one colour sample into the cell at row `y`, column `x` and
    /// returns that cell's new mean. No other cell changes.
    pub fn add_sample(&mut self, y: usize, x: usize, sample: Rgb) -> (mean: Rgb)
        requires
            old(self).wf(),
            y < old(self).height,
            x < old(self).width,
            old(self).pixels@[y as int]@[x as int].samples < u64::MAX,
        ensures
            final(self).wf(),
            final(self).height == old(self).height,
            final(self).width == old(self).width,
            final(self).pixels@[y as int]@[x as int].color == Some(mean),
            final(self).pixels@[y as int]@[x as int].samples == old(self).pixels@[y as int]@[
                x as int
            ].samples + 1,
            (mean.r as int, mean.g as int, mean.b as int) == mean_color(
                old(self).pixels@[y as int]@[x as int].mean(),
                sample,
                old(self).pixels@[y as int]@[x as int].samples + 1,
            ),
            forall|v: int, u: int|
                0 <= v < old(self).height && 0 <= u < old(self).width && (v != y || u != x)
                    ==> final(self).pixels@[v]@[u] == old(self).pixels@[v]@[u],
    {
        assert(self.pixels@[y as int]@[x as int].wf());
        self.pixels[y][x].avg_colors(sample)
    }

    /// Tests whether the grid is well formed.
    pub fn is_wf(&self) -> (ok: bool)
        ensures
            ok == self.wf(),
    {
        if self.height > 0 && self.width > 0 && (self.height as u64 > 0x3fff_ffff_ffff_ffff
            || self.width as u64 > 0x3fff_ffff_ffff_ffff) {
            return false;
        }
        if self.pixels.len() != self.height {
            return false;
        }
        let mut y: usize = 0;
        while y < self.height
            invariant
                0 <= y <= self.height,
                Self::in_range(self.height as int, self.width as int),
                self.pixels@.len() == self.height,
                Self::rows_wf(self.pixels@, y as int, self.height as int, self.width as int),
            decreases self.height - y,
        {
            if self.pixels[y].len() != self.width {
                return false;
            }
            let mut x: usize = 0;
            while x < self.width
                invariant
                    0 <= y < self.height,
                    0 <= x <= self.width,
                    Self::in_range(self.height as int, self.width as int),
                    self.pixels@.len() == self.height,
                    self.pixels@[y as int]@.len() == self.width,
                    forall|u: int|
                        0 <= u < x ==> {
                            &&& (#[trigger] self.pixels@[y as int]@[u]).wf()
                            &&& self.pixels@[y as int]@[u].x == screen_coordinate(
                                u,
                                self.width as int,
                            )
                            &&& self.pixels@[y as int]@[u].y == screen_coordinate(
                                y as int,
                                self.height as int,
                            )
                        },
                decreases self.width - x,
            {
                let p = self.pixels[y][x];
                let placed_x = p.x.num == 2 * (x as i64) - (self.width as i64) && p.x.den == 2
                    * (self.width as i64);
                let placed_y = p.y.num == 2 * (y as i64) - (self.height as i64) && p.y.den == 2
                    * (self.height as i64);
                let counted = match p.color {
                    None => p.samples == 0,
                    Some(_) => p.samples != 0,
                };
                if !placed_x || !placed_y || !counted {
                    assert(!self.pixels@[y as int]@[x as int].wf() || self.pixels@[y as int]@[x as int].x
                        != screen_coordinate(x as int, self.width as int)
                        || self.pixels@[y as int]@[x as int].y != screen_coordinate(
                        y as int,
                        self.height as int,
                    ));
                    return false;
                }
                x = x + 1;
            }
            y = y + 1;
        }
        true
    }

    /// Gives every cell that has received no sample the background
    /// colour, as its one sample. Cells with samples stay as they are.
    pub fn fill_unsampled(&mut self, background: Rgb)
        requires
            old(self).wf(),
        ensures
            final(self).wf(),
            final(self).height == old(self).height,
            final(self).width == old(self).width,
            forall|y: int, x: int|
                0 <= y < old(self).height && 0 <= x < old(self).width ==> (
                #[trigger] final(self).pixels@[y]@[x]) == backed(
                    old(self).pixels@[y]@[x],
                    background,
                ),
    {
        let ghost start = *self;
        let mut y: usize = 0;
        while y < self.height
            invariant
                start.wf(),
                self.wf(),
                self.height == start.height,
                self.width == start.width,
                0 <= y <= self.height,
                forall|v: int, u: int|
                    0 <= v < self.height && 0 <= u < self.width ==> (
                    #[trigger] self.pixels@[v]@[u]) == if v < y {
                        backed(start.pixels@[v]@[u], background)
                    } else {
                        start.pixels@[v]@[u]
                    },
            decreases self.height - y,
        {
            let mut x: usize = 0;
            while x < self.width
                invariant
                    start.wf(),
                    self.wf(),
                    self.height == start.height,
                    self.width == start.width,
                    0 <= y < self.height,
                    0 <= x <= self.width,
                    forall|v: int, u: int|
                        0 <= v < self.height && 0 <= u < self.width ==> (
                        #[trigger] self.pixels@[v]@[u]) == if v < y || (v == y && u < x) {
                            backed(start.pixels@[v]@[u], background)
                        } else {
                            start.pixels@[v]@[u]
                        },
                decreases self.width - x,
            {
                let ghost before = *self;
                assert(self.pixels@[y as int]@[x as int].wf());
                if self.pixels[y][x].samples == 0 {
                    let mean = self.add_sample(y, x, background);
                    assert(mean == background);
                    assert(self.pixels@[y as int]@[x as int].wf());
                }
                assert forall|v: int, u: int|
                    0 <= v < self.height && 0 <= u < self.width implies (
                #[trigger] self.pixels@[v]@[u]) == if v < y || (v == y && u < x + 1) {
                    backed(start.pixels@[v]@[u], background)
                } else {
                    start.pixels@[v]@[u]
                } by {
                    if v != y || u != x {
                        assert(self.pixels@[v]@[u] == before.pixels@[v]@[u]);
                    }
                }
                x = x + 1;
            }
            y = y + 1;
        }
    }

    /// Scans the candidates front to back and keeps a hit only when it is
    /// strictly nearer than the one held so far.
    pub fn check_hits(candidates: &Vec<Option<Hit>>) -> (min: Option<Hit>)
        ensures
            min == nearest(candidates@),
            min is None <==> all_miss(candidates@),
            min is Some ==> exists|i: int| is_nearest(candidates@, i) && candidates@[i] == min,
    {
        let mut min: Option<Hit> = None;
        let ghost mut at: int = 0;
        let mut k: usize = 0;
        while k < candidates.len()
            invariant
                0 <= k <= candidates.len(),
                min is None ==> all_miss(candidates@.take(k as int)),
                min is Some ==> is_nearest(candidates@.take(k as int), at) && candidates@[at] == min,
            decreases candidates.len() - k,
        {
            let ghost before = candidates@.take(k as int);
            let ghost after = candidates@.take(k as int + 1);
            assert(forall|j: int| 0 <= j < k ==> after[j] == before[j]);
            assert(after[k as int] == candidates@[k as int]);
            match candidates[k] {
                None => {
                    proof {
                        if min is Some {
                            assert(after[at] == before[at]);
                        }
                    }
                },
                Some(hit) => {
                    match min {
                        None => {
                            min = Some(hit);
                            proof {
                                at = k as int;
                                assert forall|j: int| 0 <= j < k implies !((#[trigger] after[j]) is Some) by {
                                    assert(before[j] is None);
                                }
                            }
                        },
                        Some(prev) => {
                            proof {
                                assert(after[at] == before[at]);
                            }
                            if hit.t < prev.t {
                                min = Some(hit);
                                proof {
                                    assert forall|j: int|
                                        0 <= j < k && (#[trigger] after[j]) is Some implies hit.t
                                        < after[j]->0.t by {
                                        assert(before[j] is Some);
                                    }
                                    at = k as int;
                                }
                            } else {
                                proof {
                                    assert forall|j: int|
                                        0 <= j < after.len() && (#[trigger] after[j]) is Some implies prev.t
                                        <= after[j]->0.t by {
                                        if j < k {
                                            assert(before[j] is Some);
                                        }
                                    }
                                }
                            }
                        },
                    }
                },
            }
            k = k + 1;
        }
        proof {
            assert(candidates@.take(k as int) =~= candidates@);
            if min is Some {
                lemma_nearest_is(candidates@, at);
            } else {
                lemma_nearest_none(candidates@);
            }
        }
        min
    }

    /// Decides whether a surface is shadowed, from the candidates of the
    /// shadow ray cast towards the light and the light's reference
    /// distance. Returns the occluder, or `None` where the light is
    /// visible.
    pub fn trace_ray(candidates: &Vec<Option<Hit>>, light_reach: u64) -> (light_hit: Option<Hit>)
        ensures
            light_hit == occluder_of(candidates@, light_reach),
            all_miss(candidates@) ==> light_hit is None,
    {
        match Self::check_hits(candidates) {
            None => None,
            Some(k) => {
                if light_reach < k.reach {
                    None
                } else {
                    Some(k)
                }
            },
        }
    }

    /// Encodes the image as a PNG file held in memory.
    ///
    /// An image too large to encode is refused before the encoder is
    /// called, with an error that says so. Otherwise the encoder decides:
    /// on success the bytes are its output for the row-major image; a grid
    /// without cells it always refuses.
    pub fn make_png(&self) -> (file: Result<Vec<u8>, EncodeError>)
        requires
            self.wf(),
        ensures
            (file matches Err(e) && e is TooLarge) <==> !encodable(
                self.width as int,
                self.height as int,
            ),
            file matches Ok(bytes) ==> bytes@ == png_bytes(
                self.image(),
                self.width as int,
                self.height as int,
            ),
            self.width == 0 || self.height == 0 ==> file is Err,
            self.width > u32::MAX || self.height > u32::MAX ==> file is Err,
    {
        if !is_encodable(self.width, self.height) {
            return Err(EncodeError::TooLarge);
        }
        let render_pixels = self.buffer();
        assert(self.height * self.width == self.width * self.height) by (nonlinear_arith);
        // Whether a file comes out is the encoder's to say.
        let outcome = encode_rgb(&render_pixels, self.width, self.height);
        file_of(outcome)
    }

    /// Collects the image into a row-major buffer.
    pub fn buffer(&self) -> (render_pixels: Vec<Rgb>)
        requires
            self.wf(),
        ensures
            render_pixels@ == self.image(),
            render_pixels@.len() == self.height * self.width,
            forall|y: int, x: int|
                0 <= y < self.height && 0 <= x < self.width ==> render_pixels@[y * self.width + x]
                    == self.shown(y, x),
    {
        let mut render_pixels: Vec<Rgb> = Vec::new();
        let mut y: usize = 0;
        while y < self.height
            invariant
                self.wf(),
                0 <= y <= self.height,
                render_pixels@.len() == y * self.width,
                forall|k: int|
                    0 <= k < render_pixels@.len() ==> render_pixels@[k] == self.shown(
                        k / self.width as int,
                        k % self.width as int,
                    ),
            decreases self.height - y,
        {
            let mut x: usize = 0;
            while x < self.width
                invariant
                    self.wf(),
                    0 <= y < self.height,
                    0 <= x <= self.width,
                    render_pixels@.len() == y * self.width + x,
                    forall|k: int|
                        0 <= k < render_pixels@.len() ==> render_pixels@[k] == self.shown(
                            k / self.width as int,
                            k % self.width as int,
                        ),
                decreases self.width - x,
            {
                proof {
                    lemma_cell_index(y as int, x as int, self.width as int);
                }
                let c = match self.pixels[y][x].color {
                    Some(c) => c,
                    None => Rgb::black(),
                };
                render_pixels.push(c);
                x = x + 1;
            }
            assert(y * self.width + self.width == (y + 1) * self.width) by (nonlinear_arith);
            y = y + 1;
        }
        proof {
            assert(render_pixels@ =~= self.image());
            assert forall|y: int, x: int| 0 <= y < self.height && 0 <= x < self.width implies
                render_pixels@[y * self.width + x] == self.shown(y, x) by {
                lemma_cell_index(y, x, self.width as int);
                assert(y * self.width + x < self.height * self.width) by (nonlinear_arith)
                    requires
                        0 <= y < self.height,
                        0 <= x < self.width,
                ;
            }
        }
        render_pixels
    }
}

/// Row `y`, column `x` of a grid `width` wide is found again from its
/// row-major index.
pub proof fn lemma_cell_index(y: int, x: int, width: int)
    requires
        0 <= y,
        0 <= x < width,
    ensures
        (y * width + x) / width == y,
        (y * width + x) % width == x,
{
    lemma_fundamental_div_mod_converse(y * width + x, width, y, x);
}

} // verus!
