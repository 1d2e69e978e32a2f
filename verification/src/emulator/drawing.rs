//! The laws of drawing.
//!
//! For frames and sprites of any size:
//! - the pixel law (`lemma_draw_sprite_parity`): a pixel changes exactly if
//!   an odd number of set bits land on it, bit `k` of row `i` landing in
//!   column `(x + k) mod width` of row `(y + i) mod height`;
//! - the collision law (`lemma_collision`): a draw collides exactly if a
//!   set bit lands on a pixel lit before the draw (`lemma_draw_collides`)
//!   or two set bits land on the same pixel (`lemma_draw_overlapping`);
//!   otherwise it does not (`lemma_draw_cleanly`), as on a blank frame
//!   (`lemma_draw_on_blank`);
//! - the redraw law (`lemma_draw_twice`): drawing twice undoes the draw.
//!
//! For a sprite that cannot wrap onto itself, on a frame at least eight
//! pixels wide and at least as high as the sprite, `lemma_draw_sprite` gives
//! every pixel and the collision in closed form, `lemma_draw_wraps` follows
//! the sprite across the edges and `lemma_redraw_collides` tells when the
//! second of two draws collides.

use vstd::prelude::*;
use vstd::arithmetic::div_mod::{
    lemma_fundamental_div_mod, lemma_fundamental_div_mod_converse, lemma_mod_bound,
    lemma_mod_multiples_vanish, lemma_small_mod,
};
use super::frame::{sprite_bit, Frame};

verus! {

/// How many steps `position` lies beyond `origin` on a ring of `size`
/// positions.
pub open spec fn ring_offset(position: int, origin: int, size: int) -> int {
    (position - origin) % size
}

/// On a ring, the first step beyond the last position leads to position 0,
/// and `k` steps lead where `k - 1` steps lead from position 0.
pub proof fn lemma_edge(origin: int, k: int, size: int)
    requires
        size > 0,
        origin % size == size - 1,
    ensures
        (origin + k) % size == (k - 1) % size,
        1 <= k <= size ==> (origin + k) % size == k - 1,
{
    lemma_fundamental_div_mod(origin, size);
    let q = origin / size;
    assert(origin + k == size * (q + 1) + (k - 1)) by (nonlinear_arith)
        requires
            origin == size * q + (size - 1),
    ;
    lemma_mod_multiples_vanish(q + 1, k - 1, size);
    if 1 <= k <= size {
        lemma_small_mod((k - 1) as nat, size as nat);
    }
}

/// On a ring, the position `k` steps beyond `origin` is `position` exactly
/// when `position` lies `k` steps beyond `origin`.
pub proof fn lemma_ring_offset(origin: int, k: int, position: int, size: int)
    requires
        size > 0,
        0 <= k < size,
        0 <= position < size,
    ensures
        (origin + k) % size == position <==> ring_offset(position, origin, size) == k,
{
    lemma_fundamental_div_mod(origin + k, size);
    lemma_fundamental_div_mod(position - origin, size);
    if (origin + k) % size == position {
        let q = (origin + k) / size;
        assert(position - origin == (-q) * size + k) by (nonlinear_arith)
            requires
                origin + k == size * q + position,
        ;
        lemma_fundamental_div_mod_converse(position - origin, size, -q, k);
    }
    if (position - origin) % size == k {
        let q = (position - origin) / size;
        assert(origin + k == (-q) * size + position) by (nonlinear_arith)
            requires
                position - origin == size * q + k,
        ;
        lemma_fundamental_div_mod_converse(origin + k, size, -q, position);
    }
}

impl Frame {
    /// Whether the first `count` bits of `byte`, drawn from `(x, y)`, land
    /// a set bit on the pixel in column `px` of row `py`.
    pub open spec fn row_toggles(self, x: int, y: int, byte: u8, count: nat, px: int, py: int) -> bool {
        let k = ring_offset(px, x, self.width as int);
        py == y % (self.height as int) && k < count && sprite_bit(byte, k)
    }

    /// Whether the sprite `bytes`, drawn from `(x, y)`, lands a set bit on
    /// the pixel in column `px` of row `py`.
    pub open spec fn sprite_toggles(self, x: int, y: int, bytes: Seq<u8>, px: int, py: int) -> bool {
        let k = ring_offset(px, x, self.width as int);
        let i = ring_offset(py, y, self.height as int);
        k < 8 && i < bytes.len() && sprite_bit(bytes[i], k)
    }

    /// Whether one of the first `count` bits of `byte`, drawn from
    /// `(x, y)`, is set and addresses a lit pixel.
    pub open spec fn row_hits(self, x: int, y: int, byte: u8, count: nat) -> bool {
        exists|k: int| 0 <= k < count && #[trigger] sprite_bit(byte, k) && self.pixel_at(x + k, y)
    }

    /// Whether a set bit of the sprite `bytes`, drawn from `(x, y)`,
    /// addresses a lit pixel.
    pub open spec fn sprite_hits(self, x: int, y: int, bytes: Seq<u8>) -> bool {
        exists|i: int, k: int|
            0 <= i < bytes.len() && 0 <= k < 8 && #[trigger] sprite_bit(bytes[i], k)
                && self.pixel_at(x + k, y + i)
    }

    /// Plotting keeps the frame's shape and changes the addressed pixel
    /// only.
    pub proof fn lemma_plot(self, x: int, y: int, bit: bool)
        requires
            self.wf(),
            self.width > 0,
            self.height > 0,
        ensures
            self.plot(x, y, bit).wf(),
            self.plot(x, y, bit).width == self.width,
            self.plot(x, y, bit).height == self.height,
            forall|px: int, py: int|
                0 <= px < self.width && 0 <= py < self.height ==> #[trigger] self.plot(
                    x,
                    y,
                    bit,
                ).pixels[py][px] == (self.pixels[py][px] ^ (bit && px == x % (self.width as int)
                    && py == y % (self.height as int))),
    {
    }

    /// Drawing part of a row, where no two of its bits share a pixel:
    /// each pixel is XOR-ed with the bit that lands on it, and the draw
    /// collides exactly if a set bit addresses a pixel that was lit.
    pub proof fn lemma_draw_row(self, x: int, y: int, byte: u8, count: nat)
        requires
            self.wf(),
            self.width > 0,
            self.height > 0,
            count <= 8,
            count <= self.width,
        ensures
            self.draw_row(x, y, byte, count).0.wf(),
            self.draw_row(x, y, byte, count).0.width == self.width,
            self.draw_row(x, y, byte, count).0.height == self.height,
            forall|px: int, py: int|
                0 <= px < self.width && 0 <= py < self.height ==> #[trigger] self.draw_row(
                    x,
                    y,
                    byte,
                    count,
                ).0.pixels[py][px] == (self.pixels[py][px] ^ self.row_toggles(
                    x,
                    y,
                    byte,
                    count,
                    px,
                    py,
                )),
            self.draw_row(x, y, byte, count).1 == self.row_hits(x, y, byte, count),
        decreases count,
    {
        if count > 0 {
            let k = count - 1;
            let w = self.width as int;
            let h = self.height as int;
            let (before, collided) = self.draw_row(x, y, byte, k as nat);
            let bit = sprite_bit(byte, k);
            let after = before.plot(x + k, y, bit);
            self.lemma_draw_row(x, y, byte, k as nat);
            before.lemma_plot(x + k, y, bit);
            let col = (x + k) % w;
            let row = y % h;
            assert forall|px: int, py: int| 0 <= px < w && 0 <= py < h implies #[trigger] after.pixels[py][px]
                == (self.pixels[py][px] ^ self.row_toggles(x, y, byte, count, px, py)) by {
                lemma_ring_offset(x, k, px, w);
            }
            lemma_ring_offset(x, k, col, w);
            assert(before.pixels[row][col] == self.pixels[row][col]);
            assert(before.erases(x + k, y, bit) == (bit && self.pixel_at(x + k, y)));
            if self.row_hits(x, y, byte, count) {
                let j = choose|j: int|
                    0 <= j < count && #[trigger] sprite_bit(byte, j) && self.pixel_at(x + j, y);
                if j < k {
                    assert(self.row_hits(x, y, byte, k as nat));
                }
            }
            if self.row_hits(x, y, byte, k as nat) {
                let j = choose|j: int|
                    0 <= j < k && #[trigger] sprite_bit(byte, j) && self.pixel_at(x + j, y);
                assert(0 <= j < count && sprite_bit(byte, j) && self.pixel_at(x + j, y));
            }
            if bit && self.pixel_at(x + k, y) {
                assert(0 <= k < count && sprite_bit(byte, k) && self.pixel_at(x + k, y));
            }
        }
    }

    /// Drawing a sprite that does not wrap onto itself, on a frame at least
    /// eight pixels wide and at least as high as the sprite: each pixel is
    /// XOR-ed with the sprite bit that lands on it, bit `k` of row `i`
    /// landing where `(x + k, y + i)` points after wrapping, and the draw
    /// collides exactly if a set bit addresses a pixel that was lit.
    pub proof fn lemma_draw_sprite(self, x: int, y: int, bytes: Seq<u8>)
        requires
            self.wf(),
            self.width >= 8,
            bytes.len() <= self.height,
        ensures
            self.draw_sprite(x, y, bytes).0.wf(),
            self.draw_sprite(x, y, bytes).0.width == self.width,
            self.draw_sprite(x, y, bytes).0.height == self.height,
            forall|px: int, py: int|
                0 <= px < self.width && 0 <= py < self.height ==> #[trigger] self.draw_sprite(
                    x,
                    y,
                    bytes,
                ).0.pixels[py][px] == (self.pixels[py][px] ^ self.sprite_toggles(
                    x,
                    y,
                    bytes,
                    px,
                    py,
                )),
            self.draw_sprite(x, y, bytes).1 == self.sprite_hits(x, y, bytes),
        decreases bytes.len(),
    {
        if bytes.len() > 0 {
            let i = bytes.len() - 1;
            let w = self.width as int;
            let h = self.height as int;
            let rest = bytes.drop_last();
            let byte = bytes.last();
            let (before, collided) = self.draw_sprite(x, y, rest);
            let (after, row_collided) = before.draw_row(x, y + i, byte, 8);
            self.lemma_draw_sprite(x, y, rest);
            before.lemma_draw_row(x, y + i, byte, 8);
            let row = (y + i) % h;
            assert forall|px: int, py: int| 0 <= px < w && 0 <= py < h implies #[trigger] after.pixels[py][px]
                == (self.pixels[py][px] ^ self.sprite_toggles(x, y, bytes, px, py)) by {
                lemma_ring_offset(y, i, py, h);
                assert(before.row_toggles(x, y + i, byte, 8, px, py) == self.row_toggles(
                    x,
                    y + i,
                    byte,
                    8,
                    px,
                    py,
                ));
            }
            lemma_ring_offset(y, i, row, h);
            assert forall|k: int| 0 <= k < 8 && #[trigger] sprite_bit(byte, k) implies before.pixel_at(
                x + k,
                y + i,
            ) == self.pixel_at(x + k, y + i) by {
                let col = (x + k) % w;
                assert(before.pixels[row][col] == (self.pixels[row][col] ^ self.sprite_toggles(
                    x,
                    y,
                    rest,
                    col,
                    row,
                )));
            }
            assert(row_collided == before.row_hits(x, y + i, byte, 8));
            if self.sprite_hits(x, y, bytes) {
                let (r, k) = choose|r: int, k: int|
                    0 <= r < bytes.len() && 0 <= k < 8 && #[trigger] sprite_bit(bytes[r], k)
                        && self.pixel_at(x + k, y + r);
                if r < i {
                    assert(sprite_bit(rest[r], k));
                    assert(self.sprite_hits(x, y, rest));
                } else {
                    assert(0 <= k < 8 && sprite_bit(byte, k) && before.pixel_at(x + k, y + i));
                    assert(before.row_hits(x, y + i, byte, 8));
                }
            }
            if self.sprite_hits(x, y, rest) {
                let (r, k) = choose|r: int, k: int|
                    0 <= r < rest.len() && 0 <= k < 8 && #[trigger] sprite_bit(rest[r], k)
                        && self.pixel_at(x + k, y + r);
                assert(0 <= r < bytes.len() && 0 <= k < 8 && sprite_bit(bytes[r], k)
                    && self.pixel_at(x + k, y + r));
            }
            if before.row_hits(x, y + i, byte, 8) {
                let k = choose|k: int|
                    0 <= k < 8 && #[trigger] sprite_bit(byte, k) && before.pixel_at(x + k, y + i);
                assert(0 <= i < bytes.len() && 0 <= k < 8 && sprite_bit(bytes[i], k)
                    && self.pixel_at(x + k, y + i));
            }
        }
    }

    /// Collision law. A draw that lands a set bit on a pixel that was lit
    /// before the draw reports a collision, whatever the size of the frame
    /// and of the sprite. A draw that reports none has left every lit
    /// pixel lit.
    pub proof fn lemma_draw_collides(self, x: int, y: int, bytes: Seq<u8>)
        requires
            self.wf(),
            self.width > 0,
            self.height > 0,
        ensures
            self.sprite_hits(x, y, bytes) ==> self.draw_sprite(x, y, bytes).1,
            !self.draw_sprite(x, y, bytes).1 ==> forall|px: int, py: int|
                0 <= px < self.width && 0 <= py < self.height && self.pixels[py][px]
                    ==> #[trigger] self.draw_sprite(x, y, bytes).0.pixels[py][px],
            self.draw_sprite(x, y, bytes).0.wf(),
            self.draw_sprite(x, y, bytes).0.width == self.width,
            self.draw_sprite(x, y, bytes).0.height == self.height,
        decreases bytes.len(),
    {
        if bytes.len() > 0 {
            let i = bytes.len() - 1;
            let rest = bytes.drop_last();
            let byte = bytes.last();
            let (before, collided) = self.draw_sprite(x, y, rest);
            self.lemma_draw_collides(x, y, rest);
            before.lemma_draw_row_collides(x, y + i, byte, 8);
            let (after, row_collided) = before.draw_row(x, y + i, byte, 8);
            if self.sprite_hits(x, y, bytes) && !collided {
                let (r, k) = choose|r: int, k: int|
                    0 <= r < bytes.len() && 0 <= k < 8 && #[trigger] sprite_bit(bytes[r], k)
                        && self.pixel_at(x + k, y + r);
                if r < i {
                    assert(sprite_bit(rest[r], k));
                    assert(self.sprite_hits(x, y, rest));
                } else {
                    let col = (x + k) % (self.width as int);
                    let row = (y + i) % (self.height as int);
                    assert(before.pixels[row][col]);
                    assert(0 <= k < 8 && sprite_bit(byte, k) && before.pixel_at(x + k, y + i));
                    assert(before.row_hits(x, y + i, byte, 8));
                }
            }
        }
    }

    /// The collision law for part of a row.
    pub proof fn lemma_draw_row_collides(self, x: int, y: int, byte: u8, count: nat)
        requires
            self.wf(),
            self.width > 0,
            self.height > 0,
        ensures
            self.row_hits(x, y, byte, count) ==> self.draw_row(x, y, byte, count).1,
            !self.draw_row(x, y, byte, count).1 ==> forall|px: int, py: int|
                0 <= px < self.width && 0 <= py < self.height && self.pixels[py][px]
                    ==> #[trigger] self.draw_row(x, y, byte, count).0.pixels[py][px],
            self.draw_row(x, y, byte, count).0.wf(),
            self.draw_row(x, y, byte, count).0.width == self.width,
            self.draw_row(x, y, byte, count).0.height == self.height,
        decreases count,
    {
        if count > 0 {
            let k = count - 1;
            let (before, collided) = self.draw_row(x, y, byte, k as nat);
            let bit = sprite_bit(byte, k);
            self.lemma_draw_row_collides(x, y, byte, k as nat);
            before.lemma_plot(x + k, y, bit);
            let col = (x + k) % (self.width as int);
            let row = y % (self.height as int);
            if self.row_hits(x, y, byte, count) && !collided {
                let j = choose|j: int|
                    0 <= j < count && #[trigger] sprite_bit(byte, j) && self.pixel_at(x + j, y);
                if j < k {
                    assert(self.row_hits(x, y, byte, k as nat));
                } else {
                    assert(before.pixels[row][col]);
                }
            }
        }
    }

    /// Whether the first `count` bits of `byte`, drawn from `(x, y)`,
    /// land an odd number of set bits on the pixel in column `px` of row
    /// `py`.
    pub open spec fn row_parity(self, x: int, y: int, byte: u8, count: nat, px: int, py: int) -> bool
        decreases count,
    {
        if count == 0 {
            false
        } else {
            let k = count - 1;
            self.row_parity(x, y, byte, k as nat, px, py) ^ (sprite_bit(byte, k) && px == (x + k) % (
            self.width as int) && py == y % (self.height as int))
        }
    }

    /// Whether the sprite `bytes`, drawn from `(x, y)`, lands an odd
    /// number of set bits on the pixel in column `px` of row `py`.
    pub open spec fn sprite_parity(self, x: int, y: int, bytes: Seq<u8>, px: int, py: int) -> bool
        decreases bytes.len(),
    {
        if bytes.len() == 0 {
            false
        } else {
            let i = bytes.len() - 1;
            self.sprite_parity(x, y, bytes.drop_last(), px, py) ^ self.row_parity(
                x,
                y + i,
                bytes.last(),
                8,
                px,
                py,
            )
        }
    }

    /// What a pixel is after part of a row was drawn: it has changed if an
    /// odd number of set bits landed on it.
    pub proof fn lemma_draw_row_parity(self, x: int, y: int, byte: u8, count: nat)
        requires
            self.wf(),
            self.width > 0,
            self.height > 0,
        ensures
            self.draw_row(x, y, byte, count).0.wf(),
            self.draw_row(x, y, byte, count).0.width == self.width,
            self.draw_row(x, y, byte, count).0.height == self.height,
            forall|px: int, py: int|
                0 <= px < self.width && 0 <= py < self.height ==> #[trigger] self.draw_row(
                    x,
                    y,
                    byte,
                    count,
                ).0.pixels[py][px] == (self.pixels[py][px] ^ self.row_parity(
                    x,
                    y,
                    byte,
                    count,
                    px,
                    py,
                )),
        decreases count,
    {
        if count > 0 {
            let k = count - 1;
            let before = self.draw_row(x, y, byte, k as nat).0;
            self.lemma_draw_row_parity(x, y, byte, k as nat);
            before.lemma_plot(x + k, y, sprite_bit(byte, k));
        }
    }

    /// Pixel law. After a sprite was drawn, a pixel has changed exactly if
    /// an odd number of set bits landed on it, where bit `k` of row `i`
    /// lands in column `(x + k) mod width` of row `(y + i) mod height`: a
    /// sprite is never clipped, it goes on at the opposite edge. Which
    /// pixels change does not depend on what the frame showed.
    pub proof fn lemma_draw_sprite_parity(self, x: int, y: int, bytes: Seq<u8>)
        requires
            self.wf(),
            self.width > 0,
            self.height > 0,
        ensures
            self.draw_sprite(x, y, bytes).0.wf(),
            self.draw_sprite(x, y, bytes).0.width == self.width,
            self.draw_sprite(x, y, bytes).0.height == self.height,
            forall|px: int, py: int|
                0 <= px < self.width && 0 <= py < self.height ==> #[trigger] self.draw_sprite(
                    x,
                    y,
                    bytes,
                ).0.pixels[py][px] == (self.pixels[py][px] ^ self.sprite_parity(
                    x,
                    y,
                    bytes,
                    px,
                    py,
                )),
        decreases bytes.len(),
    {
        if bytes.len() > 0 {
            let i = bytes.len() - 1;
            let before = self.draw_sprite(x, y, bytes.drop_last()).0;
            self.lemma_draw_sprite_parity(x, y, bytes.drop_last());
            before.lemma_draw_row_parity(x, y + i, bytes.last(), 8);
            let row = y + i;
            assert forall|px: int, py: int| 0 <= px < self.width && 0 <= py < self.height implies
                #[trigger] before.row_parity(x, row, bytes.last(), 8, px, py) == self.row_parity(
                x,
                row,
                bytes.last(),
                8,
                px,
                py,
            ) by {
                before.lemma_parity_of_size(self, x, row, bytes.last(), 8, px, py);
            }
        }
    }

    /// Where the bits of a row land depends on the size of the frame only.
    pub proof fn lemma_parity_of_size(
        self,
        other: Frame,
        x: int,
        y: int,
        byte: u8,
        count: nat,
        px: int,
        py: int,
    )
        requires
            self.width == other.width,
            self.height == other.height,
        ensures
            self.row_parity(x, y, byte, count, px, py) == other.row_parity(
                x,
                y,
                byte,
                count,
                px,
                py,
            ),
        decreases count,
    {
        if count > 0 {
            self.lemma_parity_of_size(other, x, y, byte, (count - 1) as nat, px, py);
        }
    }

    /// Where the bits of a sprite land depends on the size of the frame
    /// only.
    pub proof fn lemma_sprite_parity_of_size(
        self,
        other: Frame,
        x: int,
        y: int,
        bytes: Seq<u8>,
        px: int,
        py: int,
    )
        requires
            self.width == other.width,
            self.height == other.height,
        ensures
            self.sprite_parity(x, y, bytes, px, py) == other.sprite_parity(x, y, bytes, px, py),
        decreases bytes.len(),
    {
        if bytes.len() > 0 {
            self.lemma_sprite_parity_of_size(other, x, y, bytes.drop_last(), px, py);
            self.lemma_parity_of_size(other, x, y + bytes.len() - 1, bytes.last(), 8, px, py);
        }
    }

    /// Redraw law. Drawing the same sprite at the same place twice in a
    /// row gives back the frame as it was, whatever the size of the frame
    /// and of the sprite; and the second draw collides if a set bit of the
    /// sprite addresses a pixel that the first draw left lit.
    pub proof fn lemma_draw_twice(self, x: int, y: int, bytes: Seq<u8>)
        requires
            self.wf(),
            self.width > 0,
            self.height > 0,
        ensures
            ({
                let (once, first) = self.draw_sprite(x, y, bytes);
                let (twice, second) = once.draw_sprite(x, y, bytes);
                &&& twice == self
                &&& once.sprite_hits(x, y, bytes) ==> second
            }),
    {
        let once = self.draw_sprite(x, y, bytes).0;
        let twice = once.draw_sprite(x, y, bytes).0;
        self.lemma_draw_sprite_parity(x, y, bytes);
        once.lemma_draw_sprite_parity(x, y, bytes);
        once.lemma_draw_collides(x, y, bytes);
        assert forall|py: int| 0 <= py < self.height implies #[trigger] twice.pixels[py]
            =~= self.pixels[py] by {
            assert forall|px: int| 0 <= px < self.width implies #[trigger] twice.pixels[py][px]
                == self.pixels[py][px] by {
                once.lemma_sprite_parity_of_size(self, x, y, bytes, px, py);
            }
        }
        assert(twice.pixels =~= self.pixels);
    }

    /// Redraw law, for a sprite that does not wrap onto itself: the first
    /// draw has lit every pixel that was off and got a set bit, so the
    /// second draw collides exactly if there was such a pixel.
    pub proof fn lemma_redraw_collides(self, x: int, y: int, bytes: Seq<u8>)
        requires
            self.wf(),
            self.width >= 8,
            bytes.len() <= self.height,
        ensures
            ({
                let (once, first) = self.draw_sprite(x, y, bytes);
                let (twice, second) = once.draw_sprite(x, y, bytes);
                second == exists|i: int, k: int|
                    0 <= i < bytes.len() && 0 <= k < 8 && #[trigger] sprite_bit(bytes[i], k)
                        && !self.pixel_at(x + k, y + i)
            }),
    {
        let once = self.draw_sprite(x, y, bytes).0;
        self.lemma_draw_sprite(x, y, bytes);
        once.lemma_draw_sprite(x, y, bytes);
        self.lemma_draw_wraps(x, y, bytes);
        if once.sprite_hits(x, y, bytes) {
            let (i, k) = choose|i: int, k: int|
                0 <= i < bytes.len() && 0 <= k < 8 && #[trigger] sprite_bit(bytes[i], k)
                    && once.pixel_at(x + k, y + i);
            assert(!self.pixel_at(x + k, y + i));
        }
        if exists|i: int, k: int|
            0 <= i < bytes.len() && 0 <= k < 8 && #[trigger] sprite_bit(bytes[i], k)
                && !self.pixel_at(x + k, y + i) {
            let (i, k) = choose|i: int, k: int|
                0 <= i < bytes.len() && 0 <= k < 8 && #[trigger] sprite_bit(bytes[i], k)
                    && !self.pixel_at(x + k, y + i);
            assert(once.pixel_at(x + k, y + i));
        }
    }

    /// Whether bit `k` of row `i` of a sprite drawn from `(x, y)` lands on
    /// the pixel in column `px` of row `py`.
    pub open spec fn lands_on(self, x: int, y: int, i: int, k: int, px: int, py: int) -> bool {
        (x + k) % (self.width as int) == px && (y + i) % (self.height as int) == py
    }

    /// Whether no two set bits of the sprite `bytes`, drawn from `(x, y)`,
    /// land on the same pixel.
    pub open spec fn spreads_out(self, x: int, y: int, bytes: Seq<u8>) -> bool {
        forall|i1: int, k1: int, i2: int, k2: int|
            0 <= i1 < bytes.len() && 0 <= k1 < 8 && 0 <= i2 < bytes.len() && 0 <= k2 < 8 && (i1
                != i2 || k1 != k2) && #[trigger] sprite_bit(bytes[i1], k1) && #[trigger] sprite_bit(
                bytes[i2],
                k2,
            ) ==> !((x + k1) % (self.width as int) == (x + k2) % (self.width as int) && (y + i1)
                % (self.height as int) == (y + i2) % (self.height as int))
    }

    /// Whether a set bit of the sprite that is drawn before bit `bits` of
    /// row `rows` lands on the pixel in column `px` of row `py`.
    pub open spec fn drawn_onto(
        self,
        x: int,
        y: int,
        bytes: Seq<u8>,
        rows: int,
        bits: int,
        px: int,
        py: int,
    ) -> bool {
        exists|i: int, k: int|
            0 <= i < bytes.len() && 0 <= k < 8 && (i < rows || (i == rows && k < bits))
                && #[trigger] sprite_bit(bytes[i], k) && self.lands_on(x, y, i, k, px, py)
    }

    /// One more row of a sprite whose set bits land on no lit pixel and
    /// on no pixel twice: the row does not collide, and whatever is lit
    /// afterwards was lit at the start or has been drawn onto.
    proof fn lemma_clean_row(
        self,
        before: Frame,
        x: int,
        y: int,
        bytes: Seq<u8>,
        row: int,
        count: nat,
    )
        requires
            self.wf(),
            self.width > 0,
            self.height > 0,
            before.wf(),
            before.width == self.width,
            before.height == self.height,
            0 <= row < bytes.len(),
            count <= 8,
            !self.sprite_hits(x, y, bytes),
            self.spreads_out(x, y, bytes),
            forall|px: int, py: int|
                0 <= px < self.width && 0 <= py < self.height && #[trigger] before.pixels[py][px]
                    ==> self.pixels[py][px] || self.drawn_onto(x, y, bytes, row, 0, px, py),
        ensures
            !before.draw_row(x, y + row, bytes[row], count).1,
            before.draw_row(x, y + row, bytes[row], count).0.wf(),
            before.draw_row(x, y + row, bytes[row], count).0.width == self.width,
            before.draw_row(x, y + row, bytes[row], count).0.height == self.height,
            forall|px: int, py: int|
                0 <= px < self.width && 0 <= py < self.height && #[trigger] before.draw_row(
                    x,
                    y + row,
                    bytes[row],
                    count,
                ).0.pixels[py][px] ==> self.pixels[py][px] || self.drawn_onto(
                    x,
                    y,
                    bytes,
                    row,
                    count as int,
                    px,
                    py,
                ),
        decreases count,
    {
        let w = self.width as int;
        let h = self.height as int;
        if count == 0 {
        } else {
            let k = count - 1;
            self.lemma_clean_row(before, x, y, bytes, row, k as nat);
            let (partial, collided) = before.draw_row(x, y + row, bytes[row], k as nat);
            let bit = sprite_bit(bytes[row], k);
            let after = partial.plot(x + k, y + row, bit);
            partial.lemma_plot(x + k, y + row, bit);
            let col = (x + k) % w;
            let line = (y + row) % h;
            lemma_mod_bound(x + k, w);
            lemma_mod_bound(y + row, h);
            if bit && partial.pixels[line][col] {
                if self.pixels[line][col] {
                    assert(sprite_bit(bytes[row], k) && self.pixel_at(x + k, y + row));
                    assert(self.sprite_hits(x, y, bytes));
                } else {
                    assert(self.drawn_onto(x, y, bytes, row, k, col, line));
                    let (i2, k2) = choose|i2: int, k2: int|
                        0 <= i2 < bytes.len() && 0 <= k2 < 8 && (i2 < row || (i2 == row && k2 < k))
                            && #[trigger] sprite_bit(bytes[i2], k2) && self.lands_on(
                            x,
                            y,
                            i2,
                            k2,
                            col,
                            line,
                        );
                    assert(sprite_bit(bytes[row], k) && sprite_bit(bytes[i2], k2));
                    assert(false);
                }
            }
            assert forall|px: int, py: int|
                0 <= px < w && 0 <= py < h && #[trigger] after.pixels[py][px] implies self.pixels[py][px]
                || self.drawn_onto(x, y, bytes, row, count as int, px, py) by {
                if bit && px == col && py == line {
                    assert(sprite_bit(bytes[row], k) && self.lands_on(x, y, row, k, px, py));
                } else {
                    assert(partial.pixels[py][px]);
                    if !self.pixels[py][px] {
                        let (i2, k2) = choose|i2: int, k2: int|
                            0 <= i2 < bytes.len() && 0 <= k2 < 8 && (i2 < row || (i2 == row && k2
                                < k)) && #[trigger] sprite_bit(bytes[i2], k2) && self.lands_on(
                                x,
                                y,
                                i2,
                                k2,
                                px,
                                py,
                            );
                        assert(sprite_bit(bytes[i2], k2) && self.lands_on(x, y, i2, k2, px, py));
                    }
                }
            }
        }
    }

    /// The first `rows` rows of a sprite whose set bits land on no lit
    /// pixel and on no pixel twice do not collide.
    proof fn lemma_clean_rows(self, x: int, y: int, bytes: Seq<u8>, rows: nat)
        requires
            self.wf(),
            self.width > 0,
            self.height > 0,
            rows <= bytes.len(),
            !self.sprite_hits(x, y, bytes),
            self.spreads_out(x, y, bytes),
        ensures
            !self.draw_sprite(x, y, bytes.take(rows as int)).1,
            self.draw_sprite(x, y, bytes.take(rows as int)).0.wf(),
            self.draw_sprite(x, y, bytes.take(rows as int)).0.width == self.width,
            self.draw_sprite(x, y, bytes.take(rows as int)).0.height == self.height,
            forall|px: int, py: int|
                0 <= px < self.width && 0 <= py < self.height && #[trigger] self.draw_sprite(
                    x,
                    y,
                    bytes.take(rows as int),
                ).0.pixels[py][px] ==> self.pixels[py][px] || self.drawn_onto(
                    x,
                    y,
                    bytes,
                    rows as int,
                    0,
                    px,
                    py,
                ),
        decreases rows,
    {
        if rows > 0 {
            let row = rows - 1;
            let prefix = bytes.take(rows as int);
            assert(prefix.drop_last() =~= bytes.take(row));
            assert(prefix.last() == bytes[row]);
            self.lemma_clean_rows(x, y, bytes, row as nat);
            let before = self.draw_sprite(x, y, bytes.take(row)).0;
            self.lemma_clean_row(before, x, y, bytes, row, 8);
            let after = before.draw_row(x, y + row, bytes[row], 8).0;
            assert forall|px: int, py: int|
                0 <= px < self.width && 0 <= py < self.height && #[trigger] after.pixels[py][px] implies self.pixels[py][px]
                || self.drawn_onto(x, y, bytes, rows as int, 0, px, py) by {
                if !self.pixels[py][px] {
                    let (i2, k2) = choose|i2: int, k2: int|
                        0 <= i2 < bytes.len() && 0 <= k2 < 8 && (i2 < row || (i2 == row && k2 < 8))
                            && #[trigger] sprite_bit(bytes[i2], k2) && self.lands_on(
                            x,
                            y,
                            i2,
                            k2,
                            px,
                            py,
                        );
                    assert(sprite_bit(bytes[i2], k2) && self.lands_on(x, y, i2, k2, px, py));
                }
            }
        }
    }

    /// Clean-draw law. A sprite whose set bits land on no lit pixel, and
    /// no two of them on the same pixel, is drawn without collision,
    /// whatever the size of the frame and of the sprite.
    pub proof fn lemma_draw_cleanly(self, x: int, y: int, bytes: Seq<u8>)
        requires
            self.wf(),
            self.width > 0,
            self.height > 0,
            !self.sprite_hits(x, y, bytes),
            self.spreads_out(x, y, bytes),
        ensures
            !self.draw_sprite(x, y, bytes).1,
    {
        self.lemma_clean_rows(x, y, bytes, bytes.len());
        assert(bytes.take(bytes.len() as int) =~= bytes);
    }

    /// Blank law. A sprite drawn on a frame with every pixel off reports
    /// no collision, provided that no two of its set bits land on the same
    /// pixel.
    pub proof fn lemma_draw_on_blank(width: nat, height: nat, x: int, y: int, bytes: Seq<u8>)
        requires
            width > 0,
            height > 0,
            Frame::blank(width, height).spreads_out(x, y, bytes),
        ensures
            !Frame::blank(width, height).draw_sprite(x, y, bytes).1,
    {
        let blank = Frame::blank(width, height);
        if blank.sprite_hits(x, y, bytes) {
            let (i, k) = choose|i: int, k: int|
                0 <= i < bytes.len() && 0 <= k < 8 && #[trigger] sprite_bit(bytes[i], k)
                    && blank.pixel_at(x + k, y + i);
            let col = (x + k) % (width as int);
            let row = (y + i) % (height as int);
            lemma_mod_bound(x + k, width as int);
            lemma_mod_bound(y + i, height as int);
            assert(!blank.pixels[row][col]);
        }
        blank.lemma_draw_cleanly(x, y, bytes);
    }

    /// Whether no two set bits of the sprite that are drawn before bit
    /// `bits` of row `rows` land on the same pixel.
    pub open spec fn spread_so_far(self, x: int, y: int, bytes: Seq<u8>, rows: int, bits: int) -> bool {
        forall|i1: int, k1: int, i2: int, k2: int|
            0 <= i1 < bytes.len() && 0 <= k1 < 8 && 0 <= i2 < bytes.len() && 0 <= k2 < 8 && (i1
                != i2 || k1 != k2) && (i1 < rows || (i1 == rows && k1 < bits)) && (i2 < rows || (i2
                == rows && k2 < bits)) && #[trigger] sprite_bit(bytes[i1], k1)
                && #[trigger] sprite_bit(bytes[i2], k2) ==> !((x + k1) % (self.width as int) == (x
                + k2) % (self.width as int) && (y + i1) % (self.height as int) == (y + i2) % (
            self.height as int))
    }

    /// One more row of a sprite: as long as nothing has collided,
    /// whatever was lit at the start or has been drawn onto is lit, and no
    /// pixel has been drawn onto twice.
    proof fn lemma_crowded_row(
        self,
        before: Frame,
        x: int,
        y: int,
        bytes: Seq<u8>,
        row: int,
        count: nat,
    )
        requires
            self.wf(),
            self.width > 0,
            self.height > 0,
            before.wf(),
            before.width == self.width,
            before.height == self.height,
            0 <= row < bytes.len(),
            count <= 8,
            self.spread_so_far(x, y, bytes, row, 0),
            forall|px: int, py: int|
                0 <= px < self.width && 0 <= py < self.height && (self.pixels[py][px]
                    || self.drawn_onto(x, y, bytes, row, 0, px, py))
                    ==> #[trigger] before.pixels[py][px],
        ensures
            before.draw_row(x, y + row, bytes[row], count).0.wf(),
            before.draw_row(x, y + row, bytes[row], count).0.width == self.width,
            before.draw_row(x, y + row, bytes[row], count).0.height == self.height,
            !before.draw_row(x, y + row, bytes[row], count).1 ==> self.spread_so_far(
                x,
                y,
                bytes,
                row,
                count as int,
            ),
            !before.draw_row(x, y + row, bytes[row], count).1 ==> forall|px: int, py: int|
                0 <= px < self.width && 0 <= py < self.height && (self.pixels[py][px]
                    || self.drawn_onto(x, y, bytes, row, count as int, px, py))
                    ==> #[trigger] before.draw_row(x, y + row, bytes[row], count).0.pixels[py][px],
        decreases count,
    {
        let w = self.width as int;
        let h = self.height as int;
        if count > 0 {
            let k = count - 1;
            self.lemma_crowded_row(before, x, y, bytes, row, k as nat);
            let (partial, collided) = before.draw_row(x, y + row, bytes[row], k as nat);
            let bit = sprite_bit(bytes[row], k);
            let after = partial.plot(x + k, y + row, bit);
            partial.lemma_plot(x + k, y + row, bit);
            let col = (x + k) % w;
            let line = (y + row) % h;
            lemma_mod_bound(x + k, w);
            lemma_mod_bound(y + row, h);
            if !before.draw_row(x, y + row, bytes[row], count).1 {
                assert(!collided);
                assert(!(bit && partial.pixels[line][col]));
                assert forall|px: int, py: int|
                    0 <= px < w && 0 <= py < h && (self.pixels[py][px] || self.drawn_onto(
                        x,
                        y,
                        bytes,
                        row,
                        count as int,
                        px,
                        py,
                    )) implies #[trigger] after.pixels[py][px] by {
                    if self.pixels[py][px] {
                        assert(partial.pixels[py][px]);
                    } else {
                        let (i2, k2) = choose|i2: int, k2: int|
                            0 <= i2 < bytes.len() && 0 <= k2 < 8 && (i2 < row || (i2 == row && k2
                                < count)) && #[trigger] sprite_bit(bytes[i2], k2) && self.lands_on(
                                x,
                                y,
                                i2,
                                k2,
                                px,
                                py,
                            );
                        if i2 == row && k2 == k {
                            assert(px == col && py == line && bit);
                        } else {
                            assert(sprite_bit(bytes[i2], k2) && self.lands_on(x, y, i2, k2, px, py));
                            assert(self.drawn_onto(x, y, bytes, row, k, px, py));
                            assert(partial.pixels[py][px]);
                        }
                    }
                }
                assert forall|i1: int, k1: int, i2: int, k2: int|
                    0 <= i1 < bytes.len() && 0 <= k1 < 8 && 0 <= i2 < bytes.len() && 0 <= k2 < 8
                        && (i1 != i2 || k1 != k2) && (i1 < row || (i1 == row && k1 < count)) && (i2
                        < row || (i2 == row && k2 < count)) && #[trigger] sprite_bit(bytes[i1], k1)
                        && #[trigger] sprite_bit(bytes[i2], k2) implies !((x + k1) % w == (x + k2)
                    % w && (y + i1) % h == (y + i2) % h) by {
                    if (x + k1) % w == (x + k2) % w && (y + i1) % h == (y + i2) % h {
                        if i1 == row && k1 == k {
                            assert(sprite_bit(bytes[i2], k2) && self.lands_on(
                                x,
                                y,
                                i2,
                                k2,
                                col,
                                line,
                            ));
                            assert(self.drawn_onto(x, y, bytes, row, k, col, line));
                            assert(partial.pixels[line][col]);
                        } else if i2 == row && k2 == k {
                            assert(sprite_bit(bytes[i1], k1) && self.lands_on(
                                x,
                                y,
                                i1,
                                k1,
                                col,
                                line,
                            ));
                            assert(self.drawn_onto(x, y, bytes, row, k, col, line));
                            assert(partial.pixels[line][col]);
                        } else {
                            assert(self.spread_so_far(x, y, bytes, row, k));
                        }
                    }
                }
            }
        }
    }

    /// The first `rows` rows of a sprite: as long as nothing has collided,
    /// whatever was lit at the start or has been drawn onto is lit, and no
    /// pixel has been drawn onto twice.
    proof fn lemma_crowded_rows(self, x: int, y: int, bytes: Seq<u8>, rows: nat)
        requires
            self.wf(),
            self.width > 0,
            self.height > 0,
            rows <= bytes.len(),
        ensures
            self.draw_sprite(x, y, bytes.take(rows as int)).0.wf(),
            self.draw_sprite(x, y, bytes.take(rows as int)).0.width == self.width,
            self.draw_sprite(x, y, bytes.take(rows as int)).0.height == self.height,
            !self.draw_sprite(x, y, bytes.take(rows as int)).1 ==> self.spread_so_far(
                x,
                y,
                bytes,
                rows as int,
                0,
            ),
            !self.draw_sprite(x, y, bytes.take(rows as int)).1 ==> forall|px: int, py: int|
                0 <= px < self.width && 0 <= py < self.height && (self.pixels[py][px]
                    || self.drawn_onto(x, y, bytes, rows as int, 0, px, py))
                    ==> #[trigger] self.draw_sprite(x, y, bytes.take(rows as int)).0.pixels[py][px],
        decreases rows,
    {
        if rows > 0 {
            let row = rows - 1;
            let prefix = bytes.take(rows as int);
            assert(prefix.drop_last() =~= bytes.take(row));
            assert(prefix.last() == bytes[row]);
            self.lemma_crowded_rows(x, y, bytes, row as nat);
            let (before, collided) = self.draw_sprite(x, y, bytes.take(row));
            before.lemma_draw_row_parity(x, y + row, bytes[row], 8);
            if !self.draw_sprite(x, y, prefix).1 {
                assert(!collided);
                self.lemma_crowded_row(before, x, y, bytes, row, 8);
                let after = before.draw_row(x, y + row, bytes[row], 8).0;
                assert forall|px: int, py: int|
                    0 <= px < self.width && 0 <= py < self.height && (self.pixels[py][px]
                        || self.drawn_onto(x, y, bytes, rows as int, 0, px, py))
                        implies #[trigger] after.pixels[py][px] by {
                    if !self.pixels[py][px] {
                        let (i2, k2) = choose|i2: int, k2: int|
                            0 <= i2 < bytes.len() && 0 <= k2 < 8 && (i2 < rows || (i2 == rows && k2
                                < 0)) && #[trigger] sprite_bit(bytes[i2], k2) && self.lands_on(
                                x,
                                y,
                                i2,
                                k2,
                                px,
                                py,
                            );
                        assert(sprite_bit(bytes[i2], k2) && self.lands_on(x, y, i2, k2, px, py));
                        assert(self.drawn_onto(x, y, bytes, row, 8, px, py));
                    }
                }
                assert(self.spread_so_far(x, y, bytes, row, 8));
            }
        }
    }

    /// Overlap law. A sprite of which two set bits land on the same pixel
    /// collides, whatever the frame shows: the second of the two bits
    /// turns off the pixel that the first has lit.
    pub proof fn lemma_draw_overlapping(self, x: int, y: int, bytes: Seq<u8>)
        requires
            self.wf(),
            self.width > 0,
            self.height > 0,
            !self.spreads_out(x, y, bytes),
        ensures
            self.draw_sprite(x, y, bytes).1,
    {
        self.lemma_crowded_rows(x, y, bytes, bytes.len());
        assert(bytes.take(bytes.len() as int) =~= bytes);
        if !self.draw_sprite(x, y, bytes).1 {
            assert(self.spread_so_far(x, y, bytes, bytes.len() as int, 0));
            assert(self.spreads_out(x, y, bytes));
        }
    }

    /// Collision law, in full. A draw collides exactly if a set bit of the
    /// sprite lands on a pixel that was lit before the draw, or two set
    /// bits land on the same pixel.
    pub proof fn lemma_collision(self, x: int, y: int, bytes: Seq<u8>)
        requires
            self.wf(),
            self.width > 0,
            self.height > 0,
        ensures
            self.draw_sprite(x, y, bytes).1 <==> self.sprite_hits(x, y, bytes) || !self.spreads_out(
                x,
                y,
                bytes,
            ),
    {
        self.lemma_draw_collides(x, y, bytes);
        if !self.spreads_out(x, y, bytes) {
            self.lemma_draw_overlapping(x, y, bytes);
        } else if !self.sprite_hits(x, y, bytes) {
            self.lemma_draw_cleanly(x, y, bytes);
        }
    }

    /// On a frame at least eight pixels wide and at least as high as the
    /// sprite, no two bits of the sprite land on the same pixel.
    pub proof fn lemma_spreads_out(self, x: int, y: int, bytes: Seq<u8>)
        requires
            self.width >= 8,
            bytes.len() <= self.height,
        ensures
            self.spreads_out(x, y, bytes),
    {
        let w = self.width as int;
        let h = self.height as int;
        assert forall|i1: int, k1: int, i2: int, k2: int|
            0 <= i1 < bytes.len() && 0 <= k1 < 8 && 0 <= i2 < bytes.len() && 0 <= k2 < 8 && (i1
                != i2 || k1 != k2) && #[trigger] sprite_bit(bytes[i1], k1) && #[trigger] sprite_bit(
                bytes[i2],
                k2,
            ) implies !((x + k1) % w == (x + k2) % w && (y + i1) % h == (y + i2) % h) by {
            lemma_mod_bound(x + k1, w);
            lemma_mod_bound(y + i1, h);
            lemma_ring_offset(x, k1, (x + k1) % w, w);
            lemma_ring_offset(x, k2, (x + k1) % w, w);
            lemma_ring_offset(y, i1, (y + i1) % h, h);
            lemma_ring_offset(y, i2, (y + i1) % h, h);
        }
    }

    /// Wraparound law. For a sprite that does not wrap onto itself, bit `k`
    /// of row `i` lands on the pixel that `(x + k, y + i)` addresses modulo
    /// the width and the height: a row that starts in the last column goes
    /// on in column 0 of the same row, and a sprite that starts in the
    /// last row goes on in row 0.
    pub proof fn lemma_draw_wraps(self, x: int, y: int, bytes: Seq<u8>)
        requires
            self.wf(),
            self.width >= 8,
            bytes.len() <= self.height,
        ensures
            forall|i: int, k: int|
                0 <= i < bytes.len() && 0 <= k < 8 ==> self.draw_sprite(x, y, bytes).0.pixel_at(
                    x + k,
                    y + i,
                ) == (self.pixel_at(x + k, y + i) ^ #[trigger] sprite_bit(bytes[i], k)),
            forall|i: int, k: int|
                0 <= i < bytes.len() && 1 <= k < 8 && x % (self.width as int) == self.width - 1
                    ==> self.draw_sprite(x, y, bytes).0.pixels[(y + i) % (self.height as int)][k
                    - 1] == (self.pixels[(y + i) % (self.height as int)][k - 1]
                    ^ #[trigger] sprite_bit(bytes[i], k)),
            forall|i: int, k: int|
                1 <= i < bytes.len() && 0 <= k < 8 && y % (self.height as int) == self.height - 1
                    ==> self.draw_sprite(x, y, bytes).0.pixels[i - 1][(x + k) % (
                self.width as int)] == (self.pixels[i - 1][(x + k) % (self.width as int)]
                    ^ #[trigger] sprite_bit(bytes[i], k)),
    {
        let w = self.width as int;
        let h = self.height as int;
        let drawn = self.draw_sprite(x, y, bytes).0;
        self.lemma_draw_sprite(x, y, bytes);
        assert forall|i: int, k: int| 0 <= i < bytes.len() && 0 <= k < 8 implies drawn.pixel_at(
            x + k,
            y + i,
        ) == (self.pixel_at(x + k, y + i) ^ #[trigger] sprite_bit(bytes[i], k)) by {
            let col = (x + k) % w;
            let row = (y + i) % h;
            lemma_ring_offset(x, k, col, w);
            lemma_ring_offset(y, i, row, h);
            assert(drawn.pixels[row][col] == (self.pixels[row][col] ^ self.sprite_toggles(
                x,
                y,
                bytes,
                col,
                row,
            )));
        }
        assert forall|i: int, k: int|
            0 <= i < bytes.len() && 1 <= k < 8 && x % w == w - 1 implies drawn.pixels[(y + i)
            % h][k - 1] == (self.pixels[(y + i) % h][k - 1] ^ #[trigger] sprite_bit(
            bytes[i],
            k,
        )) by {
            lemma_edge(x, k, w);
            assert(drawn.pixel_at(x + k, y + i) == (self.pixel_at(x + k, y + i) ^ sprite_bit(
                bytes[i],
                k,
            )));
        }
        assert forall|i: int, k: int|
            1 <= i < bytes.len() && 0 <= k < 8 && y % h == h - 1 implies drawn.pixels[i - 1][(x
            + k) % w] == (self.pixels[i - 1][(x + k) % w] ^ #[trigger] sprite_bit(bytes[i], k)) by {
            lemma_edge(y, i, h);
            assert(drawn.pixel_at(x + k, y + i) == (self.pixel_at(x + k, y + i) ^ sprite_bit(
                bytes[i],
                k,
            )));
        }
    }
}

} // verus!
