use crate::color::Rgba;
use vstd::prelude::*;

verus! {

/// A `width × height` grid of pixels, stored row-major with the origin at
/// the top-left corner.
#[derive(Clone, Debug)]
pub struct Image {
    width: u32,
    height: u32,
    pixels: Vec<Rgba>,
}

impl Image {
    /// The pixel vector holds exactly `width * height` pixels.
    pub closed spec fn wf(&self) -> bool {
        self.pixels@.len() == self.width as int * self.height as int
    }

    pub closed spec fn spec_width(&self) -> nat {
        self.width as nat
    }

    pub closed spec fn spec_height(&self) -> nat {
        self.height as nat
    }

    /// The pixel in column `x` and row `y`.
    pub closed spec fn spec_pixel(&self, x: int, y: int) -> Rgba {
        self.pixels@[y * self.width + x]
    }

    /// An image of the given size, every pixel transparent black.
    pub fn new(width: u32, height: u32) -> (img: Image)
        requires
            width as int * height as int <= usize::MAX,
        ensures
            img.wf(),
            img.spec_width() == width,
            img.spec_height() == height,
            forall|x: int, y: int|
                0 <= x < width && 0 <= y < height ==> #[trigger] img.spec_pixel(x, y) == (Rgba {
                    r: 0,
                    g: 0,
                    b: 0,
                    a: 0,
                }),
    {
        Image::filled(width, height, Rgba { r: 0, g: 0, b: 0, a: 0 })
    }

    /// An image of the given size, every pixel equal to `p`.
    pub fn filled(width: u32, height: u32, p: Rgba) -> (img: Image)
        requires
            width as int * height as int <= usize::MAX,
        ensures
            img.wf(),
            img.spec_width() == width,
            img.spec_height() == height,
            forall|x: int, y: int|
                0 <= x < width && 0 <= y < height ==> #[trigger] img.spec_pixel(x, y) == p,
    {
        let n = (width as usize) * (height as usize);
        let mut pixels: Vec<Rgba> = Vec::with_capacity(n);
        let mut i: usize = 0;
        while i < n
            invariant
                i <= n,
                pixels@.len() == i,
                forall|k: int| 0 <= k < i ==> pixels@[k] == p,
            decreases n - i,
        {
            pixels.push(p);
            i = i + 1;
        }
        let img = Image { width, height, pixels };
        proof {
            assert forall|x: int, y: int| 0 <= x < width && 0 <= y < height implies #[trigger] img.spec_pixel(x, y) == p by {
                Image::lemma_index_in_bounds(x, y, width as int, height as int);
            }
        }
        img
    }

    /// An image of the given size from its pixels in row-major order; `None`
    /// when their number is not `width * height`.
    pub fn from_pixels(width: u32, height: u32, pixels: Vec<Rgba>) -> (r: Option<Image>)
        ensures
            r is Some <==> pixels@.len() == width as int * height as int,
            r matches Some(img) ==> {
                &&& img.wf()
                &&& img.spec_width() == width
                &&& img.spec_height() == height
                &&& forall|x: int, y: int|
                    0 <= x < width && 0 <= y < height ==> #[trigger] img.spec_pixel(x, y)
                        == pixels@[y * width + x]
            },
    {
        assert((width as u64) * (height as u64) <= u64::MAX) by (nonlinear_arith)
            requires
                width <= u32::MAX,
                height <= u32::MAX,
        ;
        if (pixels.len() as u64) == (width as u64) * (height as u64) {
            Some(Image { width, height, pixels })
        } else {
            None
        }
    }

    pub fn width(&self) -> (w: u32)
        ensures
            w == self.spec_width(),
    {
        self.width
    }

    pub fn height(&self) -> (h: u32)
        ensures
            h == self.spec_height(),
    {
        self.height
    }

    /// The pixels in row-major order.
    pub fn pixels(&self) -> (v: &Vec<Rgba>)
        requires
            self.wf(),
        ensures
            v@.len() == self.spec_width() * self.spec_height(),
            forall|x: int, y: int|
                0 <= x < self.spec_width() && 0 <= y < self.spec_height() ==> #[trigger] self.spec_pixel(x, y)
                    == v@[y * self.spec_width() + x],
    {
        &self.pixels
    }

    pub fn get_pixel(&self, x: u32, y: u32) -> (p: Rgba)
        requires
            self.wf(),
            x < self.spec_width(),
            y < self.spec_height(),
        ensures
            p == self.spec_pixel(x as int, y as int),
    {
        proof {
            Image::lemma_index_in_bounds(x as int, y as int, self.width as int, self.height as int);
        }
        let _n = self.pixels.len();
        self.pixels[(y as usize) * (self.width as usize) + (x as usize)]
    }

    pub fn put_pixel(&mut self, x: u32, y: u32, p: Rgba)
        requires
            old(self).wf(),
            x < old(self).spec_width(),
            y < old(self).spec_height(),
        ensures
            final(self).wf(),
            final(self).spec_width() == old(self).spec_width(),
            final(self).spec_height() == old(self).spec_height(),
            final(self).spec_pixel(x as int, y as int) == p,
            forall|i: int, j: int|
                0 <= i < old(self).spec_width() && 0 <= j < old(self).spec_height() && (i != x || j
                    != y) ==> #[trigger] final(self).spec_pixel(i, j) == old(self).spec_pixel(i, j),
    {
        proof {
            Image::lemma_index_in_bounds(x as int, y as int, self.width as int, self.height as int);
        }
        let _n = self.pixels.len();
        let k = (y as usize) * (self.width as usize) + (x as usize);
        self.pixels.set(k, p);
        proof {
            assert forall|i: int, j: int|
                0 <= i < self.width && 0 <= j < self.height && (i != x || j != y) implies
                #[trigger] self.spec_pixel(i, j) == old(self).spec_pixel(i, j) by {
                Image::lemma_index_in_bounds(i, j, self.width as int, self.height as int);
                Image::lemma_index_injective(i, j, x as int, y as int, self.width as int);
            }
        }
    }

    /// A new image of the same size, each pixel the result of `f` on the
    /// pixel at the same place; `g` states what `f` computes.
    pub(crate) fn map_pixels<F: Fn(Rgba) -> Rgba>(&self, f: F, Ghost(g): Ghost<spec_fn(Rgba) -> Rgba>) -> (out: Image)
        requires
            self.wf(),
            forall|p: Rgba| #[trigger] f.requires((p,)),
            forall|p: Rgba, q: Rgba| f.ensures((p,), q) ==> q == g(p),
        ensures
            out.wf(),
            out.spec_width() == self.spec_width(),
            out.spec_height() == self.spec_height(),
            forall|x: int, y: int|
                0 <= x < self.spec_width() && 0 <= y < self.spec_height() ==> #[trigger] out.spec_pixel(x, y)
                    == g(self.spec_pixel(x, y)),
    {
        let n = self.pixels.len();
        let mut pixels: Vec<Rgba> = Vec::with_capacity(n);
        let mut i: usize = 0;
        while i < n
            invariant
                i <= n,
                n == self.pixels@.len(),
                pixels@.len() == i,
                forall|p: Rgba| #[trigger] f.requires((p,)),
                forall|p: Rgba, q: Rgba| f.ensures((p,), q) ==> q == g(p),
                forall|k: int| 0 <= k < i ==> pixels@[k] == g(self.pixels@[k]),
            decreases n - i,
        {
            let q = f(self.pixels[i]);
            pixels.push(q);
            i = i + 1;
        }
        let out = Image { width: self.width, height: self.height, pixels };
        proof {
            assert forall|x: int, y: int|
                0 <= x < self.spec_width() && 0 <= y < self.spec_height() implies #[trigger] out.spec_pixel(x, y)
                    == g(self.spec_pixel(x, y)) by {
                Image::lemma_index_in_bounds(x, y, self.width as int, self.height as int);
            }
        }
        out
    }

    proof fn lemma_index_in_bounds(x: int, y: int, w: int, h: int)
        requires
            0 <= x < w,
            0 <= y < h,
        ensures
            0 <= y * w + x < w * h,
            y * w + x < (y + 1) * w,
    {
        assert(0 <= y * w) by (nonlinear_arith)
            requires
                0 <= y,
                0 <= w,
        ;
        assert((y + 1) * w <= w * h) by (nonlinear_arith)
            requires
                y + 1 <= h,
                0 <= w,
        ;
        assert((y + 1) * w == y * w + w) by (nonlinear_arith);
    }

    proof fn lemma_index_injective(i: int, j: int, x: int, y: int, w: int)
        requires
            0 <= i < w,
            0 <= x < w,
            0 <= j,
            0 <= y,
            i != x || j != y,
        ensures
            j * w + i != y * w + x,
    {
        if j == y {
        } else if j < y {
            assert(j * w + w <= y * w) by (nonlinear_arith)
                requires
                    j + 1 <= y,
                    0 <= w,
            ;
        } else {
            assert(y * w + w <= j * w) by (nonlinear_arith)
                requires
                    y + 1 <= j,
                    0 <= w,
            ;
        }
    }
}

} // verus!
