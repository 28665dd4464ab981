//! The library's own model of a raster image: RGBA bytes in row-major order.
//!
//! The compositor's pixel transforms are defined and verified on this type;
//! decoding and encoding of on-disk image formats happen outside the library,
//! which only ever sees the plain pixel bytes.

use std::collections::VecDeque;

use vstd::prelude::*;

verus! {

/// An RGBA raster image: `pixels` holds `4 * width * height` bytes, row by
/// row, each pixel as red, green, blue, alpha.
pub struct Raster {
    pub width: u32,
    pub height: u32,
    pub pixels: Vec<u8>,
}

/// Whether the pixel starting at byte `4 * q` of `s` matches the color key
/// exactly, componentwise on red, green and blue, alpha ignored.
pub open spec fn key_at(s: Seq<u8>, q: int, key: [u8; 3]) -> bool {
    &&& s[4 * q] == key[0]
    &&& s[4 * q + 1] == key[1]
    &&& s[4 * q + 2] == key[2]
}

impl Raster {
    /// The byte buffer holds exactly one RGBA quadruple per pixel.
    pub open spec fn wf(self) -> bool {
        self.pixels@.len() == 4 * (self.width as int) * (self.height as int)
    }

    /// Channel `c` (0 red, 1 green, 2 blue, 3 alpha) of the pixel at `(x, y)`.
    pub open spec fn chan(self, x: int, y: int, c: int) -> u8 {
        self.pixels@[4 * (y * self.width + x) + c]
    }

    /// The RGBA quadruple of the pixel at `(x, y)`.
    pub open spec fn spec_pixel(self, x: int, y: int) -> (u8, u8, u8, u8) {
        (self.chan(x, y, 0), self.chan(x, y, 1), self.chan(x, y, 2), self.chan(x, y, 3))
    }

    /// Whether the pixel at `(x, y)` matches the color key, alpha ignored.
    pub open spec fn matches_key(self, x: int, y: int, key: [u8; 3]) -> bool {
        key_at(self.pixels@, y * self.width + x, key)
    }

    /// The byte index where the RGBA quadruple of pixel `(x, y)` starts.
    fn pixel_base(&self, x: u32, y: u32) -> (base: usize)
        requires
            self.wf(),
            x < self.width,
            y < self.height,
        ensures
            base == 4 * ((y as int) * (self.width as int) + (x as int)),
            base + 3 < self.pixels@.len(),
    {
        let n = self.pixels.len();
        proof {
            lemma_pixel_in_bounds(self.width as int, self.height as int, x as int, y as int);
        }
        let q: usize = (y as usize) * (self.width as usize) + (x as usize);
        4 * q
    }

    /// A solid image: every pixel holds `color`.
    pub fn new_solid(width: u32, height: u32, color: [u8; 4]) -> (r: Raster)
        requires
            4 * (width as int) * (height as int) <= usize::MAX,
        ensures
            r.wf(),
            r.width == width,
            r.height == height,
            forall|x: int, y: int|
                0 <= x < width && 0 <= y < height ==> #[trigger] r.spec_pixel(x, y) == (
                color[0],
                color[1],
                color[2],
                color[3],
            ),
    {
        proof {
            assert((width as int) * (height as int) * 4 == 4 * (width as int) * (height as int)
                && 0 <= (width as int) * (height as int)) by (nonlinear_arith);
        }
        let count: usize = (width as usize) * (height as usize);
        let mut pixels: Vec<u8> = Vec::new();
        let mut p: usize = 0;
        while p < count
            invariant
                p <= count,
                count == (width as int) * (height as int),
                count * 4 <= usize::MAX,
                pixels@.len() == 4 * p,
                forall|j: int| 0 <= j < 4 * p ==> #[trigger] pixels@[j] == color[j % 4],
            decreases count - p,
        {
            pixels.push(color[0]);
            pixels.push(color[1]);
            pixels.push(color[2]);
            pixels.push(color[3]);
            proof {
                lemma_quad_mod(p as int);
            }
            p = p + 1;
        }
        let r = Raster { width, height, pixels };
        proof {
            assert(r.wf()) by {
                assert(4 * (width as int) * (height as int) == (width as int) * (height as int)
                    * 4) by (nonlinear_arith);
            }
            assert forall|x: int, y: int| 0 <= x < width && 0 <= y < height implies #[trigger] r
                .spec_pixel(x, y) == (color[0], color[1], color[2], color[3]) by {
                lemma_pixel_in_bounds(width as int, height as int, x, y);
                lemma_quad_mod(y * width + x);
            }
        }
        r
    }

    /// Read the RGBA quadruple of the pixel at `(x, y)`.
    pub fn get_pixel(&self, x: u32, y: u32) -> (p: [u8; 4])
        requires
            self.wf(),
            x < self.width,
            y < self.height,
        ensures
            (p[0], p[1], p[2], p[3]) == self.spec_pixel(x as int, y as int),
    {
        let base = self.pixel_base(x, y);
        [self.pixels[base], self.pixels[base + 1], self.pixels[base + 2], self.pixels[base + 3]]
    }

    /// Overwrite the pixel at `(x, y)` with `color`.
    pub fn put_pixel(&mut self, x: u32, y: u32, color: [u8; 4])
        requires
            old(self).wf(),
            x < old(self).width,
            y < old(self).height,
        ensures
            final(self).wf(),
            final(self).width == old(self).width,
            final(self).height == old(self).height,
            final(self).spec_pixel(x as int, y as int) == (color[0], color[1], color[2], color[3]),
            forall|x2: int, y2: int|
                0 <= x2 < old(self).width && 0 <= y2 < old(self).height && !(x2 == x && y2 == y)
                    ==> #[trigger] final(self).spec_pixel(x2, y2) == old(self).spec_pixel(x2, y2),
    {
        let base = self.pixel_base(x, y);
        self.pixels.set(base, color[0]);
        self.pixels.set(base + 1, color[1]);
        self.pixels.set(base + 2, color[2]);
        self.pixels.set(base + 3, color[3]);
        proof {
            assert forall|x2: int, y2: int|
                0 <= x2 < old(self).width && 0 <= y2 < old(self).height && !(x2 == x && y2 == y)
                    implies #[trigger] final(self).spec_pixel(x2, y2) == old(self).spec_pixel(
                x2,
                y2,
            ) by {
                lemma_pixel_in_bounds(old(self).width as int, old(self).height as int, x2, y2);
                lemma_distinct_pixels(old(self).width as int, x as int, y as int, x2, y2);
            }
        }
    }
}

/// The four byte indices of pixel `q` have residues 0 through 3 modulo 4.
pub proof fn lemma_quad_mod(q: int)
    requires
        0 <= q,
    ensures
        (4 * q) % 4 == 0,
        (4 * q + 1) % 4 == 1,
        (4 * q + 2) % 4 == 2,
        (4 * q + 3) % 4 == 3,
        4 * q == q * 4,
{
    assert((4 * q) % 4 == 0 && (4 * q + 1) % 4 == 1 && (4 * q + 2) % 4 == 2 && (4 * q + 3) % 4
        == 3 && 4 * q == q * 4) by (nonlinear_arith)
        requires
            0 <= q,
    ;
}

/// A pixel coordinate in bounds gives a byte range in bounds.
pub proof fn lemma_pixel_in_bounds(width: int, height: int, x: int, y: int)
    requires
        0 <= x < width,
        0 <= y < height,
    ensures
        0 <= y * width + x < width * height,
        4 * (y * width + x) + 3 < 4 * width * height,
        0 <= 4 * (y * width + x),
{
    assert(0 <= y * width + x < width * height && 4 * (y * width + x) + 3 < 4 * width * height)
        by (nonlinear_arith)
        requires
            0 <= x < width,
            0 <= y < height,
    ;
}

/// Distinct pixel coordinates give distinct pixel indices.
pub proof fn lemma_distinct_pixels(width: int, x1: int, y1: int, x2: int, y2: int)
    requires
        0 <= x1 < width,
        0 <= x2 < width,
        0 <= y1,
        0 <= y2,
        !(x1 == x2 && y1 == y2),
    ensures
        y1 * width + x1 != y2 * width + x2,
        4 * (y2 * width + x2) + 3 < 4 * (y1 * width + x1) || 4 * (y1 * width + x1) + 3 < 4 * (y2
            * width + x2),
{
    assert(4 * (y2 * width + x2) + 3 < 4 * (y1 * width + x1) || 4 * (y1 * width + x1) + 3 < 4 * (
    y2 * width + x2)) by (nonlinear_arith)
        requires
            0 <= x1 < width,
            0 <= x2 < width,
            0 <= y1,
            0 <= y2,
            !(x1 == x2 && y1 == y2),
    ;
}

/// The RGBA quadruple starting at byte `4 * q` of `s`.
pub open spec fn quad(s: Seq<u8>, q: int) -> (u8, u8, u8, u8) {
    (s[4 * q], s[4 * q + 1], s[4 * q + 2], s[4 * q + 3])
}

/// How many of the first `k` pixels of `s` hold exactly `color`.
pub open spec fn count_matching(s: Seq<u8>, color: (u8, u8, u8, u8), k: int) -> nat
    decreases k,
{
    if k <= 0 {
        0
    } else {
        count_matching(s, color, k - 1) + (if quad(s, k - 1) == color {
            1nat
        } else {
            0nat
        })
    }
}

/// A flat pixel index names exactly one in-bounds coordinate pair.
proof fn lemma_pixel_coords(width: int, height: int, p: int)
    requires
        width > 0,
        0 <= p < width * height,
    ensures
        0 <= p % width < width,
        0 <= p / width < height,
        (p / width) * width + p % width == p,
{
    assert(0 <= p % width < width && 0 <= p / width < height && (p / width) * width + p % width
        == p) by (nonlinear_arith)
        requires
            width > 0,
            0 <= p < width * height,
    ;
}

/// Repainting one pixel away from `color` lowers the count of matching
/// pixels: the flood fill's termination measure.
proof fn lemma_count_after_paint(
    s1: Seq<u8>,
    s2: Seq<u8>,
    color: (u8, u8, u8, u8),
    k: int,
    q: int,
    kmax: int,
)
    requires
        0 <= q < kmax,
        quad(s1, q) == color,
        quad(s2, q) != color,
        forall|p: int| 0 <= p < kmax && p != q ==> quad(s1, p) == quad(s2, p),
    ensures
        k <= q ==> count_matching(s2, color, k) == count_matching(s1, color, k),
        q < k <= kmax ==> count_matching(s2, color, k) + 1 == count_matching(s1, color, k),
    decreases k,
{
    if k > 0 {
        lemma_count_after_paint(s1, s2, color, k - 1, q, kmax);
    }
}

/// The count-lowering lemma in pixel-coordinate form.
proof fn lemma_count_decreases_on_paint(
    before: Raster,
    after: Raster,
    x: int,
    y: int,
    color: (u8, u8, u8, u8),
)
    requires
        before.wf(),
        after.wf(),
        after.width == before.width,
        after.height == before.height,
        0 <= x < before.width,
        0 <= y < before.height,
        before.spec_pixel(x, y) == color,
        after.spec_pixel(x, y) != color,
        forall|x2: int, y2: int|
            0 <= x2 < before.width && 0 <= y2 < before.height && !(x2 == x && y2 == y)
                ==> #[trigger] after.spec_pixel(x2, y2) == before.spec_pixel(x2, y2),
    ensures
        count_matching(
            after.pixels@,
            color,
            (before.width as int) * (before.height as int),
        ) < count_matching(
            before.pixels@,
            color,
            (before.width as int) * (before.height as int),
        ),
{
    let w = before.width as int;
    let h = before.height as int;
    let q = y * w + x;
    lemma_pixel_in_bounds(w, h, x, y);
    assert(quad(before.pixels@, q) == before.spec_pixel(x, y));
    assert(quad(after.pixels@, q) == after.spec_pixel(x, y));
    assert forall|p: int| 0 <= p < w * h && p != q implies quad(before.pixels@, p) == quad(
        after.pixels@,
        p,
    ) by {
        lemma_pixel_coords(w, h, p);
        let x2 = p % w;
        let y2 = p / w;
        assert(after.spec_pixel(x2, y2) == before.spec_pixel(x2, y2)) by {
            lemma_distinct_pixels(w, x, y, x2, y2);
        }
        assert(quad(before.pixels@, p) == before.spec_pixel(x2, y2));
        assert(quad(after.pixels@, p) == after.spec_pixel(x2, y2));
    }
    lemma_count_after_paint(before.pixels@, after.pixels@, color, w * h, q, w * h);
}

/// Whether two RGBA quadruples are equal.
fn px_eq(a: [u8; 4], b: [u8; 4]) -> (r: bool)
    ensures
        r == ((a[0], a[1], a[2], a[3]) == (b[0], b[1], b[2], b[3])),
{
    a[0] == b[0] && a[1] == b[1] && a[2] == b[2] && a[3] == b[3]
}

/// Flood fill: repaint the 4-connected region of pixels holding the start
/// coordinate's color with `fill_color`. Every pixel either keeps its old
/// value or goes from the start color to the fill color; if the start pixel
/// already holds the fill color the image is untouched, otherwise it ends
/// repainted.
pub fn bucket_fill(img: &mut Raster, start_x: u32, start_y: u32, fill_color: [u8; 4])
    requires
        old(img).wf(),
        start_x < old(img).width,
        start_y < old(img).height,
    ensures
        final(img).wf(),
        final(img).width == old(img).width,
        final(img).height == old(img).height,
        forall|x: int, y: int|
            0 <= x < old(img).width && 0 <= y < old(img).height ==> (#[trigger] final(img)
                .spec_pixel(x, y) == old(img).spec_pixel(x, y) || (old(img).spec_pixel(x, y)
                == old(img).spec_pixel(start_x as int, start_y as int) && final(img).spec_pixel(
                x,
                y,
            ) == (fill_color[0], fill_color[1], fill_color[2], fill_color[3]))),
        old(img).spec_pixel(start_x as int, start_y as int) == (
            fill_color[0],
            fill_color[1],
            fill_color[2],
            fill_color[3],
        ) ==> final(img).pixels@ == old(img).pixels@,
        old(img).spec_pixel(start_x as int, start_y as int) != (
            fill_color[0],
            fill_color[1],
            fill_color[2],
            fill_color[3],
        ) ==> final(img).spec_pixel(start_x as int, start_y as int) == (
            fill_color[0],
            fill_color[1],
            fill_color[2],
            fill_color[3],
        ),
{
    let start_color = img.get_pixel(start_x, start_y);
    let ghost start = (start_color[0], start_color[1], start_color[2], start_color[3]);
    let ghost fill = (fill_color[0], fill_color[1], fill_color[2], fill_color[3]);
    if px_eq(start_color, fill_color) {
        return ;
    }
    let mut queue: VecDeque<(u32, u32)> = VecDeque::new();
    queue.push_back((start_x, start_y));
    let ghost w = img.width as int;
    let ghost h = img.height as int;
    proof {
        assert(queue@[0] == (start_x, start_y));
    }
    loop
        invariant
            img.wf(),
            img.width == old(img).width,
            img.height == old(img).height,
            start_x < img.width,
            start_y < img.height,
            start == old(img).spec_pixel(start_x as int, start_y as int),
            start != fill,
            start == (start_color[0], start_color[1], start_color[2], start_color[3]),
            fill == (fill_color[0], fill_color[1], fill_color[2], fill_color[3]),
            w == img.width as int,
            h == img.height as int,
            forall|j: int|
                0 <= j < queue@.len() ==> (#[trigger] queue@[j]).0 < img.width && queue@[j].1
                    < img.height,
            forall|x: int, y: int|
                0 <= x < img.width && 0 <= y < img.height ==> (#[trigger] img.spec_pixel(x, y)
                    == old(img).spec_pixel(x, y) || (old(img).spec_pixel(x, y) == start
                    && img.spec_pixel(x, y) == fill)),
            img.spec_pixel(start_x as int, start_y as int) == start ==> exists|j: int|
                0 <= j < queue@.len() && queue@[j] == (start_x, start_y),
        ensures
            queue@.len() == 0,
        decreases count_matching(img.pixels@, start, w * h), queue@.len(),
    {
        let ghost entry_q = queue@;
        let popped = queue.pop_front();
        let (x, y) = match popped {
            None => {
                break ;
            },
            Some(c) => c,
        };
        let ghost qpre = queue@;
        let ghost pre = *img;
        proof {
            assert(entry_q[0] == (x, y));
            assert(qpre =~= entry_q.subrange(1, entry_q.len() as int));
        }
        let current = img.get_pixel(x, y);
        if px_eq(current, start_color) {
            img.put_pixel(x, y, fill_color);
            proof {
                lemma_count_decreases_on_paint(pre, *img, x as int, y as int, start);
            }
            if x > 0 {
                queue.push_back((x - 1, y));
            }
            if x < img.width - 1 {
                queue.push_back((x + 1, y));
            }
            if y > 0 {
                queue.push_back((x, y - 1));
            }
            if y < img.height - 1 {
                queue.push_back((x, y + 1));
            }
            proof {
                if img.spec_pixel(start_x as int, start_y as int) == start {
                    assert(!(x == start_x && y == start_y));
                    assert(pre.spec_pixel(start_x as int, start_y as int) == start);
                    let j = choose|j: int|
                        0 <= j < entry_q.len() && entry_q[j] == (start_x, start_y);
                    assert(j >= 1);
                    assert(qpre[j - 1] == entry_q[j]);
                    assert(queue@[j - 1] == (start_x, start_y));
                }
            }
        } else {
            proof {
                if img.spec_pixel(start_x as int, start_y as int) == start {
                    let j = choose|j: int|
                        0 <= j < entry_q.len() && entry_q[j] == (start_x, start_y);
                    if j == 0 {
                        assert((x, y) == (start_x, start_y));
                        assert(img.spec_pixel(x as int, y as int) != start);
                        assert(false);
                    }
                    assert(qpre[j - 1] == entry_q[j]);
                    assert(queue@[j - 1] == (start_x, start_y));
                }
            }
        }
    }
    proof {
        if img.spec_pixel(start_x as int, start_y as int) == start {
            assert(false);
        }
    }
}

} // verus!
