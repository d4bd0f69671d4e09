use vstd::prelude::*;

use crate::hue::Rgba;

verus! {

/// The mathematical content of a drawing surface: its size and its
/// pixels, stored row-major: pixel `(x, y)` at index `y * width + x`,
/// plus the color the next write will paint with.
pub struct SurfaceView {
    pub width: int,
    pub height: int,
    pub pixels: Seq<Rgba>,
    pub current: Rgba,
}

impl SurfaceView {
    pub open spec fn wf(self) -> bool {
        &&& 0 <= self.width
        &&& 0 <= self.height
        &&& self.width * self.height <= usize::MAX
        &&& self.pixels.len() == self.width * self.height
    }

    pub open spec fn in_bounds(self, x: int, y: int) -> bool {
        0 <= x < self.width && 0 <= y < self.height
    }

    /// The buffer index of pixel `(x, y)`.
    pub open spec fn idx(self, x: int, y: int) -> int {
        y * self.width + x
    }

    pub open spec fn pixel_at(self, x: int, y: int) -> Rgba {
        self.pixels[self.idx(x, y)]
    }
}

/// The buffer index of an in-bounds pixel lies inside the buffer.
pub proof fn lemma_pixel_idx_bounds(s: SurfaceView, x: int, y: int)
    requires
        s.in_bounds(x, y),
    ensures
        0 <= s.idx(x, y) < s.width * s.height,
{
    assert(0 <= y * s.width + x < s.width * s.height) by (nonlinear_arith)
        requires
            0 <= x < s.width,
            0 <= y < s.height,
    ;
}

/// Distinct in-bounds pixels have distinct buffer indices.
pub proof fn lemma_pixel_idx_injective(s: SurfaceView, x1: int, y1: int, x2: int, y2: int)
    requires
        s.in_bounds(x1, y1),
        s.in_bounds(x2, y2),
        s.idx(x1, y1) == s.idx(x2, y2),
    ensures
        x1 == x2 && y1 == y2,
{
    assert(x1 == x2 && y1 == y2) by (nonlinear_arith)
        requires
            0 <= x1 < s.width,
            0 <= y1 < s.height,
            0 <= x2 < s.width,
            0 <= y2 < s.height,
            y1 * s.width + x1 == y2 * s.width + x2,
    ;
}

/// A pixel surface the renderer draws on: a dense RGBA buffer with a
/// current drawing color. Writes outside the surface are silently
/// dropped.
pub struct Surface {
    width: usize,
    height: usize,
    pixels: Vec<Rgba>,
    current: Rgba,
}

impl View for Surface {
    type V = SurfaceView;

    closed spec fn view(&self) -> SurfaceView {
        SurfaceView {
            width: self.width as int,
            height: self.height as int,
            pixels: self.pixels@,
            current: self.current,
        }
    }
}

fn filled_pixels(n: usize, v: Rgba) -> (r: Vec<Rgba>)
    ensures
        r@.len() == n,
        forall|i: int| 0 <= i < n ==> #[trigger] r@[i] == v,
{
    let mut r: Vec<Rgba> = Vec::new();
    while r.len() < n
        invariant
            r@.len() <= n,
            forall|i: int| 0 <= i < r@.len() ==> #[trigger] r@[i] == v,
        decreases n - r@.len(),
    {
        r.push(v);
    }
    r
}

impl Surface {
    /// A surface of the given size with every pixel painted the
    /// background color, which is also the initial drawing color.
    pub fn new(width: usize, height: usize, background: Rgba) -> (s: Surface)
        requires
            width * height <= usize::MAX,
        ensures
            s@.wf(),
            s@.width == width,
            s@.height == height,
            s@.current == background,
            forall|x: int, y: int|
                s@.in_bounds(x, y) ==> #[trigger] s@.pixel_at(x, y) == background,
    {
        let s = Surface {
            width,
            height,
            pixels: filled_pixels(width * height, background),
            current: background,
        };
        proof {
            assert forall|x: int, y: int| s@.in_bounds(x, y) implies #[trigger] s@.pixel_at(x, y)
                == background by {
                lemma_pixel_idx_bounds(s@, x, y);
            }
        }
        s
    }

    /// Number of pixel columns.
    pub fn width(&self) -> (w: usize)
        ensures
            w == self@.width,
    {
        self.width
    }

    /// Number of pixel rows.
    pub fn height(&self) -> (h: usize)
        ensures
            h == self@.height,
    {
        self.height
    }

    /// The color subsequent `set_pixel` calls will paint with.
    pub fn set_current_color(&mut self, color: Rgba)
        ensures
            final(self)@ == (SurfaceView { current: color, ..old(self)@ }),
    {
        self.current = color;
    }

    /// Paint one pixel with the current color; coordinates outside the
    /// surface are silently dropped.
    pub fn set_pixel(&mut self, x: usize, y: usize)
        requires
            old(self)@.wf(),
        ensures
            final(self)@.wf(),
            final(self)@.width == old(self)@.width,
            final(self)@.height == old(self)@.height,
            final(self)@.current == old(self)@.current,
            !old(self)@.in_bounds(x as int, y as int) ==> *final(self) == *old(self),
            old(self)@.in_bounds(x as int, y as int) ==> final(self)@.pixel_at(x as int, y as int)
                == old(self)@.current,
            forall|a: int, b: int|
                old(self)@.in_bounds(a, b) && !(a == x && b == y) ==> #[trigger] final(self)@.pixel_at(a, b) == old(self)@.pixel_at(a, b),
    {
        if x < self.width && y < self.height {
            proof {
                lemma_pixel_idx_bounds(self@, x as int, y as int);
            }
            let i: usize = y * self.width + x;
            self.pixels[i] = self.current;
            proof {
                assert forall|a: int, b: int|
                    old(self)@.in_bounds(a, b) && !(a == x && b == y) implies #[trigger] final(self)@.pixel_at(a, b) == old(self)@.pixel_at(a, b) by {
                    lemma_pixel_idx_bounds(old(self)@, a, b);
                    if old(self)@.idx(a, b) == i {
                        lemma_pixel_idx_injective(old(self)@, a, b, x as int, y as int);
                    }
                }
            }
        }
    }

    /// The color of one in-bounds pixel.
    pub fn pixel(&self, x: usize, y: usize) -> (c: Rgba)
        requires
            self@.wf(),
            self@.in_bounds(x as int, y as int),
        ensures
            c == self@.pixel_at(x as int, y as int),
    {
        proof {
            lemma_pixel_idx_bounds(self@, x as int, y as int);
        }
        self.pixels[y * self.width + x]
    }

    /// Paint every pixel with the given color; the current drawing color
    /// is left as it is.
    pub fn fill(&mut self, color: Rgba)
        requires
            old(self)@.wf(),
        ensures
            final(self)@.wf(),
            final(self)@.width == old(self)@.width,
            final(self)@.height == old(self)@.height,
            final(self)@.current == old(self)@.current,
            forall|a: int, b: int|
                final(self)@.in_bounds(a, b) ==> #[trigger] final(self)@.pixel_at(a, b) == color,
    {
        let n: usize = self.pixels.len();
        let mut i: usize = 0;
        while i < n
            invariant
                i <= n,
                self.pixels@.len() == n,
                self.width == old(self).width,
                self.height == old(self).height,
                self.current == old(self).current,
                forall|j: int| 0 <= j < i ==> #[trigger] self.pixels@[j] == color,
            decreases n - i,
        {
            self.pixels[i] = color;
            i += 1;
        }
        proof {
            assert forall|a: int, b: int| final(self)@.in_bounds(a, b) implies #[trigger] final(self)@.pixel_at(a, b) == color by {
                lemma_pixel_idx_bounds(final(self)@, a, b);
            }
        }
    }
}

} // verus!
