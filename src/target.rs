use vstd::prelude::*;
use crate::color::Color;
use crate::depth::Depth;

verus! {

/// Largest width or height of a render target, in pixels.
pub const MAX_DIMENSION: usize = 16384;

/// Field of view a new target starts with, in degrees.
pub const DEFAULT_FOV_DEGREES: u32 = 60;

/// A vector of `n` copies of `v`.
fn filled<T: Copy>(v: T, n: usize) -> (r: Vec<T>)
    ensures
        r@ == Seq::new(n as nat, |i: int| v),
{
    let mut r: Vec<T> = Vec::with_capacity(n);
    let mut i: usize = 0;
    while i < n
        invariant
            i <= n,
            r@ == Seq::new(i as nat, |k: int| v),
        decreases n - i,
    {
        r.push(v);
        i = i + 1;
        assert(r@ =~= Seq::new(i as nat, |k: int| v));
    }
    r
}

/// A width and height that a target may have.
pub open spec fn valid_dimensions(width: int, height: int) -> bool {
    0 < width <= MAX_DIMENSION && 0 < height <= MAX_DIMENSION
}

/// Whether `n` may be a width or a height of a target.
pub fn valid_dimension(n: usize) -> (r: bool)
    ensures
        r == (0 < n <= MAX_DIMENSION),
{
    0 < n && n <= MAX_DIMENSION
}

/// The colour and depth buffers that triangles are drawn into. Both are stored
/// row by row: the cell of pixel `(x, y)` is at index `y * width + x`.
pub struct RenderTarget {
    pub width: usize,
    pub height: usize,
    pub pixels: Vec<Color>,
    /// Vertical field of view, in degrees.
    pub fov: u32,
    pub depth_buffer: Vec<Depth>,
}

impl RenderTarget {
    /// Both buffers hold exactly `width * height` cells and every depth is well formed.
    pub open spec fn wf(&self) -> bool {
        &&& valid_dimensions(self.width as int, self.height as int)
        &&& self.pixels@.len() == self.width * self.height
        &&& self.depth_buffer@.len() == self.width * self.height
        &&& forall|i: int| 0 <= i < self.depth_buffer@.len() ==> (#[trigger] self.depth_buffer@[i]).wf()
    }

    /// Every pixel is black and every depth is infinite.
    pub open spec fn is_cleared(&self) -> bool {
        &&& forall|i: int| 0 <= i < self.pixels@.len() ==> #[trigger] self.pixels@[i] == Color {
            r: 0,
            g: 0,
            b: 0,
        }
        &&& forall|i: int|
            0 <= i < self.depth_buffer@.len() ==> #[trigger] self.depth_buffer@[i] == Depth::Infinite
    }

    pub open spec fn pixel_at(&self, x: int, y: int) -> Color {
        self.pixels@[y * self.width + x]
    }

    pub open spec fn depth_at(&self, x: int, y: int) -> Depth {
        self.depth_buffer@[y * self.width + x]
    }

    /// The colour and depth held for pixel `(x, y)`.
    pub open spec fn cell_at(&self, x: int, y: int) -> (Color, Depth) {
        (self.pixel_at(x, y), self.depth_at(x, y))
    }

    /// A cleared target of the given size, with the default field of view.
    pub fn new(width: usize, height: usize) -> (t: RenderTarget)
        requires
            valid_dimensions(width as int, height as int),
        ensures
            t.wf(),
            t.is_cleared(),
            t.width == width,
            t.height == height,
            t.fov == DEFAULT_FOV_DEGREES,
    {
        proof {
            assert(width * height <= MAX_DIMENSION * MAX_DIMENSION) by (nonlinear_arith)
                requires
                    valid_dimensions(width as int, height as int),
            ;
        }
        let n = width * height;
        RenderTarget {
            width,
            height,
            pixels: filled(Color::black(), n),
            fov: DEFAULT_FOV_DEGREES,
            depth_buffer: filled(Depth::Infinite, n),
        }
    }

    /// Sets every pixel to black and every depth to infinity.
    pub fn clear(&mut self)
        requires
            old(self).wf(),
        ensures
            final(self).wf(),
            final(self).is_cleared(),
            final(self).width == old(self).width,
            final(self).height == old(self).height,
            final(self).fov == old(self).fov,
    {
        let n = self.pixels.len();
        let mut i: usize = 0;
        while i < n
            invariant
                self.wf(),
                n == self.pixels@.len(),
                self.width == old(self).width,
                self.height == old(self).height,
                self.fov == old(self).fov,
                i <= n,
                forall|k: int| 0 <= k < i ==> #[trigger] self.pixels@[k] == Color::black_spec(),
                forall|k: int| 0 <= k < i ==> #[trigger] self.depth_buffer@[k] == Depth::Infinite,
            decreases n - i,
        {
            self.pixels.set(i, Color::black());
            self.depth_buffer.set(i, Depth::Infinite);
            i = i + 1;
        }
    }

    /// Reallocates both buffers at the new size, cleared. A size with a zero
    /// (or over-large) side is refused: the target is then left as it was and
    /// `false` is returned.
    pub fn resize(&mut self, width: usize, height: usize) -> (r: bool)
        requires
            old(self).wf(),
        ensures
            final(self).wf(),
            r == valid_dimensions(width as int, height as int),
            r ==> final(self).width == width && final(self).height == height
                && final(self).is_cleared() && final(self).fov == old(self).fov,
            !r ==> *final(self) == *old(self),
    {
        if width == 0 || height == 0 || width > MAX_DIMENSION || height > MAX_DIMENSION {
            return false;
        }
        proof {
            assert(width * height <= MAX_DIMENSION * MAX_DIMENSION) by (nonlinear_arith)
                requires
                    valid_dimensions(width as int, height as int),
            ;
        }
        let n = width * height;
        self.width = width;
        self.height = height;
        self.pixels = filled(Color::black(), n);
        self.depth_buffer = filled(Depth::Infinite, n);
        true
    }

    /// The target's `(width, height)`, in pixels.
    pub fn size(&self) -> (r: (usize, usize))
        ensures
            r == (self.width, self.height),
    {
        (self.width, self.height)
    }

    /// The pixels as a frame of bytes, row by row: red, green, blue and an
    /// opaque alpha of 255 for each pixel.
    pub fn to_rgba(&self) -> (r: Vec<u8>)
        requires
            self.wf(),
        ensures
            r@.len() == 4 * self.pixels@.len(),
            forall|i: int|
                0 <= i < self.pixels@.len() ==> {
                    &&& r@[4 * i] == (#[trigger] self.pixels@[i]).r
                    &&& r@[4 * i + 1] == self.pixels@[i].g
                    &&& r@[4 * i + 2] == self.pixels@[i].b
                    &&& r@[4 * i + 3] == 255
                },
    {
        proof {
            lemma_cell_index(self.width as int, self.height as int, 0, 0);
        }
        let n = self.pixels.len();
        let mut frame: Vec<u8> = Vec::with_capacity(4 * n);
        let mut i: usize = 0;
        while i < n
            invariant
                n == self.pixels@.len(),
                n <= MAX_DIMENSION * MAX_DIMENSION,
                i <= n,
                frame@.len() == 4 * i,
                forall|k: int|
                    0 <= k < i ==> {
                        &&& frame@[4 * k] == (#[trigger] self.pixels@[k]).r
                        &&& frame@[4 * k + 1] == self.pixels@[k].g
                        &&& frame@[4 * k + 2] == self.pixels@[k].b
                        &&& frame@[4 * k + 3] == 255
                    },
            decreases n - i,
        {
            let c = self.pixels[i];
            frame.push(c.r);
            frame.push(c.g);
            frame.push(c.b);
            frame.push(255);
            i = i + 1;
        }
        frame
    }

    /// The colour of pixel `(x, y)`.
    pub fn pixel(&self, x: usize, y: usize) -> (c: Color)
        requires
            self.wf(),
            x < self.width,
            y < self.height,
        ensures
            c == self.pixel_at(x as int, y as int),
    {
        proof {
            lemma_cell_index(self.width as int, self.height as int, x as int, y as int);
        }
        self.pixels[y * self.width + x]
    }

    /// The depth stored for pixel `(x, y)`.
    pub fn depth(&self, x: usize, y: usize) -> (d: Depth)
        requires
            self.wf(),
            x < self.width,
            y < self.height,
        ensures
            d == self.depth_at(x as int, y as int),
            d.wf(),
    {
        proof {
            lemma_cell_index(self.width as int, self.height as int, x as int, y as int);
        }
        self.depth_buffer[y * self.width + x]
    }
}

/// Two different pixels of a grid have different cells.
pub proof fn lemma_cells_distinct(width: int, x1: int, y1: int, x2: int, y2: int)
    requires
        0 <= x1 < width,
        0 <= x2 < width,
        0 <= y1,
        0 <= y2,
        x1 != x2 || y1 != y2,
    ensures
        y1 * width + x1 != y2 * width + x2,
{
    if y1 < y2 {
        assert(y1 * width + width <= y2 * width) by (nonlinear_arith)
            requires
                y1 < y2,
                0 <= width,
        ;
    } else if y2 < y1 {
        assert(y2 * width + width <= y1 * width) by (nonlinear_arith)
            requires
                y2 < y1,
                0 <= width,
        ;
    }
}

/// The cell of a pixel inside a `width` by `height` grid lies inside the buffer.
pub proof fn lemma_cell_index(width: int, height: int, x: int, y: int)
    requires
        0 <= x < width <= MAX_DIMENSION,
        0 <= y < height <= MAX_DIMENSION,
    ensures
        0 <= y * width + x < width * height <= MAX_DIMENSION * MAX_DIMENSION,
{
    assert(0 <= y * width + x < width * height) by (nonlinear_arith)
        requires
            0 <= x < width,
            0 <= y < height,
    ;
    assert(width * height <= MAX_DIMENSION * MAX_DIMENSION) by (nonlinear_arith)
        requires
            0 <= width <= MAX_DIMENSION,
            0 <= height <= MAX_DIMENSION,
    ;
}

} // verus!
