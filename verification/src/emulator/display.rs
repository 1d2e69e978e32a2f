//! The framebuffer: a grid of on/off pixels that sprites are XOR-ed onto.
//!
//! Coordinates wrap: a pixel addressed beyond the right or bottom edge lands
//! on the opposite side, so a sprite is never clipped.

use vstd::prelude::*;
use vstd::arithmetic::div_mod::{lemma_add_mod_noop, lemma_add_mod_noop_right, lemma_mod_twice};
use super::frame::{sprite_bit, Frame};

verus! {

/// Whether a draw turned a lit pixel off.
pub type Collision = bool;

/// A resizable grid of pixels with its dimensions.
#[derive(Debug)]
pub struct Display {
    /// The rows of the grid, top to bottom.
    pub pixel_map: Vec<Vec<bool>>,
    /// Number of rows.
    pub height: u8,
    /// Number of pixels in each row.
    pub width: u8,
}

impl View for Display {
    type V = Frame;

    open spec fn view(&self) -> Frame {
        Frame {
            width: self.width as nat,
            height: self.height as nat,
            pixels: Seq::new(self.pixel_map@.len(), |y: int| self.pixel_map@[y]@),
        }
    }
}

impl Default for Display {
    /// A display without pixels.
    fn default() -> (display: Self)
        ensures
            display@ == Frame::blank(0, 0),
            display.wf(),
    {
        let display = Display { pixel_map: Vec::new(), height: 0, width: 0 };
        assert(display@ =~~= Frame::blank(0, 0));
        display
    }
}

impl Display {
    /// The grid has `height` rows of `width` pixels each. A display put
    /// together by hand need not be in this state; `resize` and `clear`
    /// bring any display into it.
    pub open spec fn wf(&self) -> bool {
        self@.wf()
    }

    /// Resizes the grid in place to `width` by `height`. Pixels inside both
    /// the old and the new bounds stay where they are; rows and columns
    /// beyond the new bounds are dropped, and new pixels are off.
    pub fn resize(&mut self, width: u8, height: u8)
        ensures
            final(self).wf(),
            final(self)@ == old(self)@.resized(width as nat, height as nat),
    {
        let ghost before = self.pixel_map@;
        self.pixel_map.truncate(height as usize);
        while self.pixel_map.len() < height as usize
            invariant
                self.pixel_map@.len() <= height,
                self.pixel_map@.len() >= before.len() || self.pixel_map@.len() == height,
                forall|r: int|
                    0 <= r < self.pixel_map@.len() && r < before.len() ==> self.pixel_map@[r]
                        == before[r],
                forall|r: int|
                    before.len() <= r < self.pixel_map@.len() ==> (#[trigger] self.pixel_map@[r])@
                        == Seq::new(width as nat, |x: int| false),
            decreases height - self.pixel_map@.len(),
        {
            let row = vec![false; width as usize];
            assert(row@ =~= Seq::new(width as nat, |x: int| false));
            self.pixel_map.push(row);
        }
        let mut y: usize = 0;
        while y < height as usize
            invariant
                y <= height,
                self.pixel_map@.len() == height,
                forall|r: int|
                    0 <= r < y ==> (#[trigger] self.pixel_map@[r])@ == Seq::new(
                        width as nat,
                        |x: int|
                            if r < before.len() && x < before[r]@.len() {
                                before[r]@[x]
                            } else {
                                false
                            },
                    ),
                forall|r: int| y <= r < height && r < before.len() ==> self.pixel_map@[r] == before[r],
                forall|r: int|
                    y <= r < height && before.len() <= r ==> (#[trigger] self.pixel_map@[r])@
                        == Seq::new(width as nat, |x: int| false),
            decreases height - y,
        {
            let ghost row_before = self.pixel_map@[y as int]@;
            self.pixel_map[y].resize(width as usize, false);
            assert(self.pixel_map@[y as int]@ =~= Seq::new(
                width as nat,
                |x: int|
                    if y < before.len() && x < before[y as int]@.len() {
                        before[y as int]@[x]
                    } else {
                        false
                    },
            )) by {
                let row_after = self.pixel_map@[y as int]@;
                assert(row_after.len() == width);
                assert forall|x: int| 0 <= x < width implies row_after[x] == (if x
                    < row_before.len() {
                    row_before[x]
                } else {
                    false
                }) by {
                    if x < row_before.len() {
                        if width as int <= row_before.len() {
                        } else {
                            assert(row_after.subrange(0, row_before.len() as int)[x]
                                == row_after[x]);
                        }
                    }
                }
            }
            y += 1;
        }
        self.width = width;
        self.height = height;
        assert(self@ =~~= old(self)@.resized(width as nat, height as nat));
    }

    /// The eight bits of a sprite byte, leftmost pixel first.
    pub fn byte_to_bits(byte: u8) -> (bits: [bool; 8])
        ensures
            forall|k: int| 0 <= k < 8 ==> bits@[k] == sprite_bit(byte, k),
    {
        assert((byte & 0b10000000 != 0) == ((byte / 128) % 2 == 1)) by (bit_vector);
        assert((byte & 0b01000000 != 0) == ((byte / 64) % 2 == 1)) by (bit_vector);
        assert((byte & 0b00100000 != 0) == ((byte / 32) % 2 == 1)) by (bit_vector);
        assert((byte & 0b00010000 != 0) == ((byte / 16) % 2 == 1)) by (bit_vector);
        assert((byte & 0b00001000 != 0) == ((byte / 8) % 2 == 1)) by (bit_vector);
        assert((byte & 0b00000100 != 0) == ((byte / 4) % 2 == 1)) by (bit_vector);
        assert((byte & 0b00000010 != 0) == ((byte / 2) % 2 == 1)) by (bit_vector);
        assert((byte & 0b00000001 != 0) == ((byte / 1) % 2 == 1)) by (bit_vector);
        [
            byte & 0b10000000 != 0,
            byte & 0b01000000 != 0,
            byte & 0b00100000 != 0,
            byte & 0b00010000 != 0,
            byte & 0b00001000 != 0,
            byte & 0b00000100 != 0,
            byte & 0b00000010 != 0,
            byte & 0b00000001 != 0,
        ]
    }

    /// XORs one bit onto the pixel that `(x, y)` addresses after wrapping,
    /// on a display that has at least one pixel. A collision is the turning
    /// off of a lit pixel.
    pub fn draw_bit_at(&mut self, x: u8, y: u8, bit: bool) -> (collision: Collision)
        requires
            old(self).wf(),
            old(self).width > 0,
            old(self).height > 0,
        ensures
            final(self).wf(),
            final(self)@ == old(self)@.plot(x as int, y as int, bit),
            collision == old(self)@.erases(x as int, y as int, bit),
    {
        let row = (y % self.height) as usize;
        let col = (x % self.width) as usize;
        assert(self@.pixels[row as int].len() == self.width);
        let px = self.pixel_map[row][col];
        let new = px ^ bit;
        let collision = px && !new;
        self.pixel_map[row][col] = new;
        assert(self@ =~~= old(self)@.plot(x as int, y as int, bit));
        collision
    }

    /// XORs the eight bits of `byte` onto one row, left to right from
    /// `(x, y)`, and reports whether any of them turned a lit pixel off.
    pub fn draw_byte_at(&mut self, x: u8, y: u8, byte: u8) -> (collision: Collision)
        requires
            old(self).wf(),
            old(self).width > 0,
            old(self).height > 0,
        ensures
            final(self).wf(),
            (final(self)@, collision) == old(self)@.draw_row(x as int, y as int, byte, 8),
    {
        let bits = Display::byte_to_bits(byte);
        let mut collision = false;
        let mut i: u8 = 0;
        while i < 8
            invariant
                i <= 8,
                self.wf(),
                self.width == old(self).width,
                self.height == old(self).height,
                self.width > 0,
                self.height > 0,
                forall|k: int| 0 <= k < 8 ==> bits@[k] == sprite_bit(byte, k),
                (self@, collision) == old(self)@.draw_row(x as int, y as int, byte, i as nat),
            decreases 8 - i,
        {
            let width = self.width as u16;
            let col = (((x as u16) % width + i as u16) % width) as u8;
            proof {
                lemma_add_mod_noop_right(i as int, x as int, width as int);
                lemma_mod_twice(x as int + i as int, width as int);
                self@.lemma_plot_wraps(col as int, y as int, x as int + i as int, y as int);
            }
            let hit = self.draw_bit_at(col, y, bits[i as usize]);
            collision = collision || hit;
            i += 1;
        }
        collision
    }

    /// Draws a sprite of any length, one row of eight pixels per byte, top
    /// to bottom from `(x, y)`, on a display that has at least one pixel.
    /// Each bit is XOR-ed onto the pixel it addresses after wrapping; the
    /// result tells whether any lit pixel was turned off.
    pub fn draw_bytes_at(&mut self, x: u8, y: u8, bytes: &[u8]) -> (collision: Collision)
        requires
            old(self).wf(),
            old(self).width > 0,
            old(self).height > 0,
        ensures
            final(self).wf(),
            (final(self)@, collision) == old(self)@.draw_sprite(x as int, y as int, bytes@),
    {
        let mut collision = false;
        let mut i: usize = 0;
        while i < bytes.len()
            invariant
                i <= bytes@.len(),
                self.wf(),
                self.width == old(self).width,
                self.height == old(self).height,
                self.width > 0,
                self.height > 0,
                (self@, collision) == old(self)@.draw_sprite(x as int, y as int, bytes@.take(i as int)),
            decreases bytes@.len() - i,
        {
            let height = self.height as usize;
            let row = (((y as usize) % height + i % height) % height) as u8;
            proof {
                lemma_add_mod_noop(y as int, i as int, height as int);
                lemma_mod_twice(y as int + i as int, height as int);
                self@.lemma_draw_row_wraps(x as int, row as int, y as int + i as int, bytes@[i as int], 8);
                self@.lemma_draw_row_keeps_size(x as int, row as int, bytes@[i as int], 8);
                assert(bytes@.take(i as int + 1).drop_last() == bytes@.take(i as int));
            }
            let hit = self.draw_byte_at(x, row, bytes[i]);
            collision = collision || hit;
            i += 1;
        }
        assert(bytes@.take(bytes@.len() as int) == bytes@);
        collision
    }

    /// Turns every pixel off; the dimensions stay as they are.
    pub fn clear(&mut self)
        ensures
            final(self).wf(),
            final(self)@ == Frame::blank(old(self).width as nat, old(self).height as nat),
    {
        self.pixel_map = vec![vec![false; self.width as usize]; self.height as usize];
        assert(self@ =~~= Frame::blank(old(self).width as nat, old(self).height as nat));
    }
}

} // verus!
