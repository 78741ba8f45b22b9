use vstd::arithmetic::div_mod::lemma_fundamental_div_mod_converse;
use vstd::prelude::*;

verus! {

/// Grayscale intensity of an escape count `n` under the cap `max_iterations`.
pub open spec fn intensity_of(n: nat, max_iterations: nat) -> nat {
    (n * 255) / max_iterations
}

/// Maps an escape count to a byte intensity: `n * 255 / max_iterations`,
/// truncated.
pub fn intensity(n: u32, max_iterations: u32) -> (r: u8)
    requires
        0 < max_iterations,
        n <= max_iterations,
    ensures
        r as nat == intensity_of(n as nat, max_iterations as nat),
{
    let scaled: u64 = n as u64 * 255;
    assert(scaled / (max_iterations as u64) <= 255) by (nonlinear_arith)
        requires
            scaled == n as u64 * 255,
            n <= max_iterations,
            0 < max_iterations,
    ;
    (scaled / max_iterations as u64) as u8
}

/// Index of the first byte of pixel `(x, y)` in a row-major buffer of the
/// given width.
pub open spec fn offset_of(width: nat, x: nat, y: nat) -> nat {
    (y * width + x) * 3
}

/// `bytes` with every channel of pixel `(x, y)` set to `c`.
pub open spec fn with_pixel(bytes: Seq<u8>, width: nat, x: nat, y: nat, c: u8) -> Seq<u8> {
    let o = offset_of(width, x, y) as int;
    bytes.update(o, c).update(o + 1, c).update(o + 2, c)
}

/// The bytes of pixel `(x, y)`.
pub open spec fn pixel_of(bytes: Seq<u8>, width: nat, x: nat, y: nat) -> Seq<u8> {
    let o = offset_of(width, x, y) as int;
    bytes.subrange(o, o + 3)
}

/// Distinct pixels of an image have disjoint three-byte ranges.
proof fn lemma_offsets_apart(width: nat, x1: nat, y1: nat, x2: nat, y2: nat)
    requires
        x1 < width,
        x2 < width,
        x1 != x2 || y1 != y2,
    ensures
        offset_of(width, x1, y1) + 3 <= offset_of(width, x2, y2) || offset_of(width, x2, y2)
            + 3 <= offset_of(width, x1, y1),
{
    let i1 = y1 * width + x1;
    let i2 = y2 * width + x2;
    if i1 == i2 {
        lemma_fundamental_div_mod_converse(i1 as int, width as int, y1 as int, x1 as int);
        lemma_fundamental_div_mod_converse(i2 as int, width as int, y2 as int, x2 as int);
    }
}

/// Pixel writes are disjoint: writes to two distinct pixels give the same
/// bytes in either order, each of the two pixels holds its own intensity, and
/// every other pixel keeps its bytes.
pub proof fn lemma_disjoint_pixel_writes(
    bytes: Seq<u8>,
    width: nat,
    height: nat,
    x1: nat,
    y1: nat,
    c1: u8,
    x2: nat,
    y2: nat,
    c2: u8,
    x3: nat,
    y3: nat,
)
    requires
        bytes.len() == width * height * 3,
        x1 < width && y1 < height,
        x2 < width && y2 < height,
        x3 < width && y3 < height,
        x1 != x2 || y1 != y2,
        x3 != x1 || y3 != y1,
        x3 != x2 || y3 != y2,
    ensures
        with_pixel(with_pixel(bytes, width, x1, y1, c1), width, x2, y2, c2) == with_pixel(
            with_pixel(bytes, width, x2, y2, c2),
            width,
            x1,
            y1,
            c1,
        ),
        pixel_of(with_pixel(with_pixel(bytes, width, x1, y1, c1), width, x2, y2, c2), width, x1, y1)
            == seq![c1, c1, c1],
        pixel_of(with_pixel(with_pixel(bytes, width, x1, y1, c1), width, x2, y2, c2), width, x2, y2)
            == seq![c2, c2, c2],
        pixel_of(with_pixel(with_pixel(bytes, width, x1, y1, c1), width, x2, y2, c2), width, x3, y3)
            == pixel_of(bytes, width, x3, y3),
{
    lemma_offsets_apart(width, x1, y1, x2, y2);
    lemma_offsets_apart(width, x1, y1, x3, y3);
    lemma_offsets_apart(width, x2, y2, x3, y3);
    lemma_offset_in_bounds(width, height, x1, y1);
    lemma_offset_in_bounds(width, height, x2, y2);
    lemma_offset_in_bounds(width, height, x3, y3);
    let a = with_pixel(with_pixel(bytes, width, x1, y1, c1), width, x2, y2, c2);
    let b = with_pixel(with_pixel(bytes, width, x2, y2, c2), width, x1, y1, c1);
    assert(a =~= b);
    assert(pixel_of(a, width, x1, y1) =~= seq![c1, c1, c1]);
    assert(pixel_of(a, width, x2, y2) =~= seq![c2, c2, c2]);
    assert(pixel_of(a, width, x3, y3) =~= pixel_of(bytes, width, x3, y3));
}

/// The bytes of a pixel of the image lie inside the buffer.
proof fn lemma_offset_in_bounds(width: nat, height: nat, x: nat, y: nat)
    requires
        x < width,
        y < height,
    ensures
        offset_of(width, x, y) + 3 <= width * height * 3,
{
    assert((y * width + x) * 3 + 3 <= width * height * 3) by (nonlinear_arith)
        requires
            x < width,
            y < height,
    ;
}

/// What a framebuffer holds: its resolution and its bytes.
pub struct FrameView {
    pub width: nat,
    pub height: nat,
    pub bytes: Seq<u8>,
}

/// A row-major image of three-byte grayscale pixels, written one pixel at a
/// time as escape counts arrive.
pub struct FrameBuffer {
    width: u32,
    height: u32,
    bytes: Vec<u8>,
}

impl View for FrameBuffer {
    type V = FrameView;

    closed spec fn view(&self) -> FrameView {
        FrameView { width: self.width as nat, height: self.height as nat, bytes: self.bytes@ }
    }
}

impl FrameBuffer {
    /// The buffer holds exactly three bytes for every pixel, and its size
    /// fits in memory.
    pub open spec fn wf(&self) -> bool {
        &&& self@.width <= u32::MAX
        &&& self@.height <= u32::MAX
        &&& self@.width * self@.height * 3 <= usize::MAX
        &&& self@.bytes.len() == self@.width * self@.height * 3
    }

    /// A black image of `width` by `height` pixels.
    pub fn new(width: u32, height: u32) -> (r: FrameBuffer)
        requires
            width as nat * height as nat * 3 <= usize::MAX,
        ensures
            r.wf(),
            r@.width == width,
            r@.height == height,
            r@.bytes == Seq::new(width as nat * height as nat * 3, |i: int| 0u8),
    {
        let len: usize = width as usize * height as usize * 3;
        let mut bytes: Vec<u8> = Vec::with_capacity(len);
        let mut i: usize = 0;
        while i < len
            invariant
                i <= len,
                len == width as nat * height as nat * 3,
                bytes@ == Seq::new(i as nat, |j: int| 0u8),
            decreases len - i,
        {
            bytes.push(0u8);
            i = i + 1;
        }
        FrameBuffer { width, height, bytes }
    }

    pub fn width(&self) -> (r: u32)
        ensures
            r == self@.width,
    {
        self.width
    }

    pub fn height(&self) -> (r: u32)
        ensures
            r == self@.height,
    {
        self.height
    }

    /// The image bytes, row-major, three per pixel.
    pub fn bytes(&self) -> (r: &Vec<u8>)
        ensures
            r@ == self@.bytes,
    {
        &self.bytes
    }

    /// Byte offset of pixel `(x, y)`.
    pub fn offset(&self, x: u32, y: u32) -> (r: usize)
        requires
            self.wf(),
            x < self@.width,
            y < self@.height,
        ensures
            r == offset_of(self@.width, x as nat, y as nat),
            r + 3 <= self@.bytes.len(),
    {
        proof {
            lemma_offset_in_bounds(self.width as nat, self.height as nat, x as nat, y as nat);
        }
        (y as usize * self.width as usize + x as usize) * 3
    }

    /// Writes the intensity of escape count `n` into every channel of pixel
    /// `(x, y)`; no other byte changes.
    pub fn apply_result(&mut self, x: u32, y: u32, n: u32, max_iterations: u32)
        requires
            old(self).wf(),
            x < old(self)@.width,
            y < old(self)@.height,
            0 < max_iterations,
            n <= max_iterations,
        ensures
            final(self).wf(),
            final(self)@.width == old(self)@.width,
            final(self)@.height == old(self)@.height,
            final(self)@.bytes == with_pixel(
                old(self)@.bytes,
                old(self)@.width,
                x as nat,
                y as nat,
                intensity_of(n as nat, max_iterations as nat) as u8,
            ),
    {
        let c = intensity(n, max_iterations);
        let offset = self.offset(x, y);
        self.bytes.set(offset, c);
        self.bytes.set(offset + 1, c);
        self.bytes.set(offset + 2, c);
    }
}

} // verus!
