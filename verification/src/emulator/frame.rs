//! The picture on a display, as a mathematical value, and what drawing does
//! to it.
//!
//! A sprite is a sequence of bytes, one per row, the most significant bit
//! leftmost. Drawing XORs each bit onto the pixel it addresses; coordinates
//! wrap around both edges. A draw collides when it turns a lit pixel off.

use vstd::prelude::*;

verus! {

/// The picture a display shows: `pixels[y][x]` is the pixel in column `x` of
/// row `y`.
#[verifier::ext_equal]
pub struct Frame {
    /// Number of pixels in a row.
    pub width: nat,
    /// Number of rows.
    pub height: nat,
    /// The rows, top to bottom, each from left to right.
    pub pixels: Seq<Seq<bool>>,
}

/// The weight of bit `k` of a sprite byte, the most significant bit being
/// bit 0, the leftmost pixel of the row.
pub open spec fn bit_weight(k: int) -> int {
    if k == 0 {
        128
    } else if k == 1 {
        64
    } else if k == 2 {
        32
    } else if k == 3 {
        16
    } else if k == 4 {
        8
    } else if k == 5 {
        4
    } else if k == 6 {
        2
    } else {
        1
    }
}

/// Whether bit `k` of a sprite byte is set, counted from the left.
pub open spec fn sprite_bit(byte: u8, k: int) -> bool {
    (byte as int / bit_weight(k)) % 2 == 1
}

impl Frame {
    /// There are `height` rows and each has `width` pixels.
    pub open spec fn wf(self) -> bool {
        &&& self.pixels.len() == self.height
        &&& forall|y: int| 0 <= y < self.height ==> (#[trigger] self.pixels[y]).len() == self.width
    }

    /// The frame of the given size with every pixel off.
    pub open spec fn blank(width: nat, height: nat) -> Frame {
        Frame { width, height, pixels: Seq::new(height, |y: int| Seq::new(width, |x: int| false)) }
    }

    /// The pixel that the coordinates `(x, y)` address after wrapping.
    pub open spec fn pixel_at(self, x: int, y: int) -> bool {
        self.pixels[y % (self.height as int)][x % (self.width as int)]
    }

    /// The frame after XOR-ing `bit` onto the pixel addressed by `(x, y)`.
    pub open spec fn plot(self, x: int, y: int, bit: bool) -> Frame {
        let row = y % (self.height as int);
        let col = x % (self.width as int);
        Frame {
            pixels: self.pixels.update(row, self.pixels[row].update(col, self.pixels[row][col] ^ bit)),
            ..self
        }
    }

    /// Whether XOR-ing `bit` onto the pixel addressed by `(x, y)` turns a lit
    /// pixel off.
    pub open spec fn erases(self, x: int, y: int, bit: bool) -> bool {
        self.pixel_at(x, y) && bit
    }

    /// The frame and the collision report after drawing the first `count`
    /// bits of `byte`, left to right, starting at `(x, y)`.
    pub open spec fn draw_row(self, x: int, y: int, byte: u8, count: nat) -> (Frame, bool)
        decreases count,
    {
        if count == 0 {
            (self, false)
        } else {
            let k = count - 1;
            let (frame, collision) = self.draw_row(x, y, byte, k as nat);
            let bit = sprite_bit(byte, k);
            (frame.plot(x + k, y, bit), collision || frame.erases(x + k, y, bit))
        }
    }

    /// The frame and the collision report after drawing the sprite `bytes`,
    /// one row per byte, top to bottom, starting at `(x, y)`.
    pub open spec fn draw_sprite(self, x: int, y: int, bytes: Seq<u8>) -> (Frame, bool)
        decreases bytes.len(),
    {
        if bytes.len() == 0 {
            (self, false)
        } else {
            let i = bytes.len() - 1;
            let (frame, collision) = self.draw_sprite(x, y, bytes.drop_last());
            let (drawn, row_collision) = frame.draw_row(x, y + i, bytes.last(), 8);
            (drawn, collision || row_collision)
        }
    }

    /// The frame cut or extended to `width` by `height`: pixels inside both
    /// the old and the new bounds keep their value, all others are off.
    pub open spec fn resized(self, width: nat, height: nat) -> Frame {
        Frame {
            width,
            height,
            pixels: Seq::new(
                height,
                |y: int|
                    Seq::new(
                        width,
                        |x: int|
                            if y < self.pixels.len() && x < self.pixels[y].len() {
                                self.pixels[y][x]
                            } else {
                                false
                            },
                    ),
            ),
        }
    }

    /// Two coordinate pairs that wrap to the same pixel plot alike.
    pub proof fn lemma_plot_wraps(self, x1: int, y1: int, x2: int, y2: int)
        requires
            x1 % (self.width as int) == x2 % (self.width as int),
            y1 % (self.height as int) == y2 % (self.height as int),
        ensures
            forall|bit: bool| self.plot(x1, y1, bit) == self.plot(x2, y2, bit),
            forall|bit: bool| self.erases(x1, y1, bit) == self.erases(x2, y2, bit),
    {
    }

    /// Two rows that wrap to the same row of the frame draw alike.
    pub proof fn lemma_draw_row_wraps(self, x: int, y1: int, y2: int, byte: u8, count: nat)
        requires
            y1 % (self.height as int) == y2 % (self.height as int),
        ensures
            self.draw_row(x, y1, byte, count) == self.draw_row(x, y2, byte, count),
        decreases count,
    {
        if count > 0 {
            let k = (count - 1) as nat;
            self.lemma_draw_row_wraps(x, y1, y2, byte, k);
            self.lemma_draw_row_keeps_size(x, y1, byte, k);
            self.draw_row(x, y1, byte, k).0.lemma_plot_wraps(x + k, y1, x + k, y2);
        }
    }

    /// Drawing changes no dimension.
    pub proof fn lemma_draw_row_keeps_size(self, x: int, y: int, byte: u8, count: nat)
        ensures
            self.draw_row(x, y, byte, count).0.width == self.width,
            self.draw_row(x, y, byte, count).0.height == self.height,
        decreases count,
    {
        if count > 0 {
            self.lemma_draw_row_keeps_size(x, y, byte, (count - 1) as nat);
        }
    }

    /// Drawing a sprite changes no dimension.
    pub proof fn lemma_draw_sprite_keeps_size(self, x: int, y: int, bytes: Seq<u8>)
        ensures
            self.draw_sprite(x, y, bytes).0.width == self.width,
            self.draw_sprite(x, y, bytes).0.height == self.height,
        decreases bytes.len(),
    {
        if bytes.len() > 0 {
            self.lemma_draw_sprite_keeps_size(x, y, bytes.drop_last());
            self.draw_sprite(x, y, bytes.drop_last()).0.lemma_draw_row_keeps_size(
                x,
                y + bytes.len() - 1,
                bytes.last(),
                8,
            );
        }
    }
}

} // verus!
