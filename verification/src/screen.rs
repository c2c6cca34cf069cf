//! The display surface: a fixed 64x32 grid of one-bit pixels stored as bytes
//! (0 or 1), a dirty flag, and sprite blitting with XOR compositing and
//! collision reporting.

use vstd::prelude::*;
use vstd::arithmetic::div_mod::lemma_add_mod_noop;

verus! {

/// Pixels per row of the surface.
pub const SCREEN_WIDTH: usize = 64;

/// Rows of the surface.
pub const SCREEN_HEIGHT: usize = 32;

/// The monochrome display surface.
pub struct Screen {
    buffer: Vec<u8>,
    dirty: bool,
}

/// A surface state threaded through the blit specification: the pixel grid,
/// whether any collision has been recorded so far, and the dirty flag.
pub ghost struct Frame {
    pub pixels: Seq<u8>,
    pub collision: bool,
    pub dirty: bool,
}

/// Index of pixel `(x, y)` in the row-major grid.
pub open spec fn pix(x: int, y: int) -> int {
    y * 64 + x
}

/// One bit of one sprite row composited onto the surface. Bit `bi` of `row`
/// (most significant first), when set, toggles the pixel at the wrapped
/// coordinates, records a collision if that pixel was already set, and marks
/// the surface dirty; a clear bit leaves everything untouched.
pub open spec fn blit_bit(f: Frame, x0: int, y0: int, row: u8, j: int, bi: int) -> Frame {
    if (row >> ((7 - bi) as u8)) & 1 == 1 {
        let p = pix((x0 + bi) % 64, (y0 + j) % 32);
        Frame {
            pixels: f.pixels.update(p, if f.pixels[p] == 1 { 0u8 } else { 1u8 }),
            collision: f.collision || f.pixels[p] == 1,
            dirty: true,
        }
    } else {
        f
    }
}

/// The first `nbits` bits of sprite row `j` composited in order.
pub open spec fn blit_row(f: Frame, x0: int, y0: int, row: u8, j: int, nbits: int) -> Frame
    decreases nbits,
{
    if nbits <= 0 {
        f
    } else {
        blit_bit(blit_row(f, x0, y0, row, j, nbits - 1), x0, y0, row, j, nbits - 1)
    }
}

/// The first `nrows` rows of the sprite composited in order.
pub open spec fn blit_rows(f: Frame, x0: int, y0: int, sprite: Seq<u8>, nrows: int) -> Frame
    decreases nrows,
{
    if nrows <= 0 {
        f
    } else {
        blit_row(blit_rows(f, x0, y0, sprite, nrows - 1), x0, y0, sprite[nrows - 1], nrows - 1, 8)
    }
}

/// The whole effect of drawing `sprite` at origin `(x0, y0)` on a surface
/// with pixels `pixels` and dirty flag `dirty`: the resulting pixels, whether
/// any collision occurred, and the resulting dirty flag.
pub open spec fn spec_draw(pixels: Seq<u8>, dirty: bool, x0: int, y0: int, sprite: Seq<u8>) -> Frame {
    blit_rows(Frame { pixels, collision: false, dirty }, x0, y0, sprite, sprite.len() as int)
}

/// A well-formed frame: 64 x 32 pixels, each either 0 or 1.
pub open spec fn frame_wf(pixels: Seq<u8>) -> bool {
    &&& pixels.len() == 2048
    &&& forall|k: int| 0 <= k < 2048 ==> pixels[k] == 0 || pixels[k] == 1
}

impl View for Screen {
    type V = Seq<u8>;

    closed spec fn view(&self) -> Seq<u8> {
        self.buffer@
    }
}

impl Screen {
    /// The grid has one byte per pixel and every pixel is 0 or 1.
    pub open spec fn wf(&self) -> bool {
        frame_wf(self@)
    }

    /// The dirty flag: pixels have changed since the flag was last reset.
    pub closed spec fn spec_dirty(&self) -> bool {
        self.dirty
    }

    /// A surface with every pixel off; it starts dirty so that a consumer
    /// presents the initial blank frame.
    pub fn new() -> (r: Screen)
        ensures
            r.wf(),
            forall|k: int| 0 <= k < 2048 ==> r@[k] == 0,
            r.spec_dirty(),
    {
        Screen { buffer: zero_buffer(), dirty: true }
    }

    /// Turn every pixel off and mark the surface dirty.
    pub fn clear(&mut self)
        ensures
            final(self).wf(),
            forall|k: int| 0 <= k < 2048 ==> final(self)@[k] == 0,
            final(self).spec_dirty(),
    {
        self.buffer = zero_buffer();
        self.set_dirty(true);
    }

    /// The value (0 or 1) of the pixel at `(x, y)`.
    pub fn get_pixel(&self, x: usize, y: usize) -> (r: u8)
        requires
            self.wf(),
            x < 64,
            y < 32,
        ensures
            r == self@[pix(x as int, y as int)],
    {
        self.buffer[y * SCREEN_WIDTH + x]
    }

    /// Set the pixel at `(x, y)` to `value` and mark the surface dirty.
    pub fn set_pixel(&mut self, x: usize, y: usize, value: bool)
        requires
            old(self).wf(),
            x < 64,
            y < 32,
        ensures
            final(self).wf(),
            final(self)@ == old(self)@.update(pix(x as int, y as int), if value { 1u8 } else { 0u8 }),
            final(self).spec_dirty(),
    {
        self.buffer.set(y * SCREEN_WIDTH + x, if value { 1 } else { 0 });
        self.dirty = true;
    }

    /// Composite `sprite_data` at origin `coords` with XOR semantics:
    /// each set bit toggles its (wrapped) target pixel, and the result
    /// reports whether any toggled pixel was already set.
    pub fn draw(&mut self, coords: (usize, usize), sprite_data: &[u8]) -> (collision: bool)
        requires
            old(self).wf(),
        ensures
            final(self).wf(),
            ({
                let f = spec_draw(
                    old(self)@,
                    old(self).spec_dirty(),
                    coords.0 as int,
                    coords.1 as int,
                    sprite_data@,
                );
                &&& final(self)@ == f.pixels
                &&& collision == f.collision
                &&& final(self).spec_dirty() == f.dirty
            }),
    {
        let rows = sprite_data.len();
        let mut collision = false;
        let ghost f0 = Frame {
            pixels: self@,
            collision: false,
            dirty: self.spec_dirty(),
        };
        let ghost x0 = coords.0 as int;
        let ghost y0 = coords.1 as int;
        let xbase = coords.0 % SCREEN_WIDTH;
        let ybase = coords.1 % SCREEN_HEIGHT;
        for j in 0..rows
            invariant
                self.wf(),
                rows == sprite_data@.len(),
                xbase == x0 % 64,
                ybase == y0 % 32,
                x0 == coords.0 as int,
                y0 == coords.1 as int,
                frame_wf(f0.pixels),
                blit_rows(f0, x0, y0, sprite_data@, j as int) == (Frame {
                    pixels: self@,
                    collision: collision,
                    dirty: self.spec_dirty(),
                }),
        {
            let row = sprite_data[j];
            let ghost fj = Frame { pixels: self@, collision: collision, dirty: self.spec_dirty() };
            for i in 0..8usize
                invariant
                    self.wf(),
                    xbase == x0 % 64,
                    ybase == y0 % 32,
                    x0 >= 0,
                    y0 >= 0,
                    xbase < 64,
                    ybase < 32,
                    blit_row(fj, x0, y0, row, j as int, i as int) == (Frame {
                        pixels: self@,
                        collision: collision,
                        dirty: self.spec_dirty(),
                    }),
            {
                let sh: u8 = (7 - i) as u8;
                let new_value = (row >> sh) & 0x01;
                if new_value == 1 {
                    let x_new = (xbase + i) % SCREEN_WIDTH;
                    let y_new = (ybase + j % SCREEN_HEIGHT) % SCREEN_HEIGHT;
                    proof {
                        lemma_add_mod_noop(x0, i as int, 64);
                        lemma_add_mod_noop(y0, j as int, 32);
                    }
                    let old_value = self.get_pixel(x_new, y_new);
                    if old_value == 1 {
                        collision = true;
                    }
                    self.set_pixel(x_new, y_new, !(old_value == 1));
                }
            }
            proof {
                assert(blit_rows(f0, x0, y0, sprite_data@, j + 1) == blit_row(
                    blit_rows(f0, x0, y0, sprite_data@, j as int),
                    x0,
                    y0,
                    sprite_data@[j as int],
                    j as int,
                    8,
                ));
            }
        }
        collision
    }

    /// Whether pixels have changed since the flag was last reset.
    pub fn is_dirty(&self) -> (r: bool)
        ensures
            r == self.spec_dirty(),
    {
        self.dirty
    }

    /// Set or reset the dirty flag.
    pub fn set_dirty(&mut self, value: bool)
        ensures
            final(self)@ == old(self)@,
            final(self).spec_dirty() == value,
    {
        self.dirty = value;
    }
}

/// A 64 x 32 grid with every pixel off.
fn zero_buffer() -> (r: Vec<u8>)
    ensures
        r@.len() == 2048,
        forall|k: int| 0 <= k < 2048 ==> r@[k] == 0,
{
    let mut buffer: Vec<u8> = Vec::new();
    for idx in 0..2048usize
        invariant
            buffer@.len() == idx,
            forall|k: int| 0 <= k < idx ==> buffer@[k] == 0,
    {
        buffer.push(0);
    }
    buffer
}

} // verus!
