use vstd::prelude::*;

verus! {

/// The background: every byte of a cleared frame (opaque white).
pub const BACKGROUND: u8 = 0xff;

/// Bytes per pixel of the drawing surface: blue, green, red, then padding.
pub const SURFACE_BYTES_PER_PIXEL: usize = 4;

/// Overwrites every byte of a frame with the background.
pub fn clear_frame(buf: &mut [u8])
    ensures
        final(buf)@ == Seq::new(old(buf)@.len(), |_i: int| BACKGROUND),
{
    let n = buf.len();
    let mut i: usize = 0;
    while i < n
        invariant
            n == buf@.len(),
            n == old(buf)@.len(),
            i <= n,
            forall|j: int| 0 <= j < i ==> buf@[j] == BACKGROUND,
        decreases n - i,
    {
        buf[i] = BACKGROUND;
        i = i + 1;
    }
    proof {
        assert(buf@ =~= Seq::new(n as nat, |_i: int| BACKGROUND));
    }
}

/// The layout of a display: its visible size in pixels, the bytes of each
/// pixel (blue, green, red first), the bytes of each row, and the rows of
/// its buffer (at least the visible ones).
#[derive(Clone, Copy, Debug, PartialEq, Eq, Structural)]
pub struct Geometry {
    pub width: usize,
    pub height: usize,
    pub bytes_per_pixel: usize,
    pub line_length: usize,
    pub buffer_rows: usize,
}

impl Geometry {
    /// Each pixel holds blue, green and red, and a row holds its pixels.
    pub open spec fn wf(self) -> bool {
        &&& self.bytes_per_pixel >= 3
        &&& self.width * self.bytes_per_pixel <= self.line_length
        &&& self.height <= self.buffer_rows
        &&& self.line_length * self.buffer_rows <= usize::MAX
    }

    /// The bytes of one full frame.
    pub open spec fn frame_len(self) -> int {
        self.line_length * self.buffer_rows
    }

    /// The screen's `(width, height)` in pixels.
    pub fn dims(&self) -> (r: (usize, usize))
        ensures
            r == (self.width, self.height),
    {
        (self.width, self.height)
    }
}

/// Byte `i` of a display frame copied from a drawing surface whose rows are
/// `stride` bytes apart: the blue, green and red bytes of each visible pixel
/// come from the surface, every other byte (padding, rows below the visible
/// ones) is zero.
pub open spec fn packed_byte(g: Geometry, surface: Seq<u8>, stride: int, i: int) -> u8 {
    let y = i / g.line_length as int;
    let col = i % g.line_length as int;
    let x = col / g.bytes_per_pixel as int;
    let c = col % g.bytes_per_pixel as int;
    if y < g.height && x < g.width && c < 3 {
        surface[y * stride + x * SURFACE_BYTES_PER_PIXEL + c]
    } else {
        0
    }
}

/// A visible pixel's byte lies inside a surface of `height` rows.
proof fn lemma_pixel_index(i: int, ll: int, h: int, w: int, st: int, y: int, x: int, c: int)
    requires
        0 <= i,
        ll > 0,
        y == i / ll,
        y < h,
        0 <= x < w,
        0 <= c < 3,
        w * 4 <= st,
    ensures
        0 <= y * st,
        y * st + x * 4 + c < st * h,
{
    assert(0 <= y) by (nonlinear_arith)
        requires
            y == i / ll,
            0 <= i,
            ll > 0,
    ;
    assert(0 <= y * st + x * 4 + c < st * h) by (nonlinear_arith)
        requires
            0 <= y < h,
            0 <= x < w,
            0 <= c < 3,
            w * 4 <= st,
    ;
    assert(0 <= y * st) by (nonlinear_arith)
        requires
            0 <= y,
            0 <= w * 4 <= st,
            0 <= x,
    ;
}

/// Copies a drawn surface into the byte layout of a display.
pub fn pack_surface(g: &Geometry, surface: &[u8], stride: usize) -> (r: Vec<u8>)
    requires
        g.wf(),
        g.width * SURFACE_BYTES_PER_PIXEL <= stride,
        stride * g.height <= surface@.len(),
    ensures
        r@.len() == g.frame_len(),
        forall|i: int| 0 <= i < r@.len() ==> r@[i] == packed_byte(*g, surface@, stride as int, i),
{
    let n = g.line_length * g.buffer_rows;
    let surface_len = surface.len();
    let mut r: Vec<u8> = Vec::new();
    let mut i: usize = 0;
    while i < n
        invariant
            g.wf(),
            g.width * SURFACE_BYTES_PER_PIXEL <= stride,
            stride * g.height <= surface@.len(),
            surface_len == surface@.len(),
            n == g.frame_len(),
            i <= n,
            r@.len() == i,
            forall|j: int| 0 <= j < i ==> r@[j] == packed_byte(*g, surface@, stride as int, j),
        decreases n - i,
    {
        let ll = g.line_length;
        let bpp = g.bytes_per_pixel;
        let y = i / ll;
        let col = i % ll;
        let x = col / bpp;
        let c = col % bpp;
        let b: u8 = if y < g.height && x < g.width && c < 3 {
            proof {
                lemma_pixel_index(i as int, ll as int, g.height as int, g.width as int, stride as int, y as int, x as int, c as int);
            }
            surface[y * stride + x * SURFACE_BYTES_PER_PIXEL + c]
        } else {
            0
        };
        r.push(b);
        i = i + 1;
    }
    r
}

/// A surface in the drawing layout (blue, green, red, padding; rows
/// `4 * width` bytes apart) from pixels given as `(red, green, blue)` in
/// row-major order.
pub fn surface_from_rgb(pixels: &Vec<(u8, u8, u8)>) -> (r: Vec<u8>)
    requires
        pixels@.len() * 4 <= usize::MAX,
    ensures
        r@.len() == pixels@.len() * 4,
        forall|k: int|
            0 <= k < pixels@.len() ==> r@[4 * k] == (#[trigger] pixels@[k]).2 && r@[4 * k + 1]
                == pixels@[k].1 && r@[4 * k + 2] == pixels@[k].0 && r@[4 * k + 3] == 0,
{
    let mut r: Vec<u8> = Vec::new();
    let mut k: usize = 0;
    while k < pixels.len()
        invariant
            pixels@.len() * 4 <= usize::MAX,
            k <= pixels@.len(),
            r@.len() == 4 * k,
            forall|j: int|
                0 <= j < k ==> r@[4 * j] == (#[trigger] pixels@[j]).2 && r@[4 * j + 1]
                    == pixels@[j].1 && r@[4 * j + 2] == pixels@[j].0 && r@[4 * j + 3] == 0,
        decreases pixels@.len() - k,
    {
        let (red, green, blue) = pixels[k];
        let ghost before = r@;
        r.push(blue);
        r.push(green);
        r.push(red);
        r.push(0);
        proof {
            assert forall|j: int| 0 <= j < k + 1 implies r@[4 * j] == (#[trigger] pixels@[j]).2
                && r@[4 * j + 1] == pixels@[j].1 && r@[4 * j + 2] == pixels@[j].0 && r@[4 * j + 3]
                == 0 by {
                if j < k {
                    assert(r@[4 * j] == before[4 * j]);
                    assert(r@[4 * j + 1] == before[4 * j + 1]);
                    assert(r@[4 * j + 2] == before[4 * j + 2]);
                    assert(r@[4 * j + 3] == before[4 * j + 3]);
                }
            }
        }
        k = k + 1;
    }
    r
}

} // verus!
