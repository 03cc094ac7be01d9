use vstd::prelude::*;

verus! {

/// Width of the framebuffer in pixels.
pub const COLS: usize = 64;

/// Height of the framebuffer in pixels.
pub const ROWS: usize = 32;

/// Number of pixels in the framebuffer.
pub const PIXELS: usize = 2048;

/// Bit `k` of a sprite row, counted from the most significant bit (the
/// leftmost pixel).
pub open spec fn sprite_bit(row: u8, k: int) -> bool {
    (row >> ((7 - k) as u8)) & 1u8 == 1u8
}

/// How many rows below the sprite's top row pixel `p` lies, wrapping
/// vertically.
pub open spec fn row_offset(p: int, y: int) -> int {
    (p / COLS as int - y) % ROWS as int
}

/// How many columns right of the sprite's left edge pixel `p` lies,
/// wrapping horizontally.
pub open spec fn col_offset(p: int, x: int) -> int {
    (p % COLS as int - x) % COLS as int
}

/// Whether a set bit of `sprite`, placed with its top-left corner at
/// `(x, y)`, lands on pixel `p`.
pub open spec fn covers(sprite: Seq<u8>, x: int, y: int, p: int) -> bool {
    let dr = row_offset(p, y);
    let dc = col_offset(p, x);
    dr < sprite.len() && dc < 8 && sprite_bit(sprite[dr], dc)
}

/// The framebuffer after XOR-drawing `sprite` at `(x, y)`.
pub open spec fn drawn(d: Seq<bool>, sprite: Seq<u8>, x: int, y: int) -> Seq<bool> {
    Seq::new(d.len(), |p: int| d[p] != covers(sprite, x, y, p))
}

/// Whether drawing `sprite` at `(x, y)` turns some lit pixel off.
pub open spec fn collides(d: Seq<bool>, sprite: Seq<u8>, x: int, y: int) -> bool {
    exists|p: int| 0 <= p < d.len() && d[p] && #[trigger] covers(sprite, x, y, p)
}

/// The index of the pixel at `(col, row)`, row-major.
pub open spec fn pixel_index(row: int, col: int) -> int {
    row * COLS as int + col
}

/// A pixel lies at the row and column offsets `(r, b)` from `(x, y)` exactly
/// when it is the wrapped position `((y + r) mod 32, (x + b) mod 64)`.
pub proof fn lemma_offsets(p: int, x: int, y: int, r: int, b: int)
    requires
        0 <= p < PIXELS,
        0 <= x,
        0 <= y,
        0 <= r < ROWS,
        0 <= b < COLS,
    ensures
        (row_offset(p, y) == r && col_offset(p, x) == b) <==> p == pixel_index(
            (y + r) % ROWS as int,
            (x + b) % COLS as int,
        ),
{
    let row = p / 64;
    let col = p % 64;
    assert(p == row * 64 + col);
    assert(0 <= row < 32);
}

/// Some bit of some row of `sprite` is set.
pub open spec fn has_set_bit(sprite: Seq<u8>) -> bool {
    exists|r: int, k: int| 0 <= r < sprite.len() && 0 <= k < 8 && #[trigger] sprite_bit(sprite[r], k)
}

/// Drawing a sprite twice at the same place gives back the framebuffer it
/// started from. Where every pixel the sprite covers starts off and the sprite
/// has a set bit, the first draw reports no collision and the second one does.
pub proof fn lemma_draw_twice(d: Seq<bool>, sprite: Seq<u8>, x: u8, y: u8)
    requires
        d.len() == PIXELS,
        sprite.len() <= ROWS,
    ensures
        drawn(drawn(d, sprite, x as int, y as int), sprite, x as int, y as int) == d,
        has_set_bit(sprite) && (forall|p: int| 0 <= p < PIXELS && #[trigger] covers(sprite, x as int, y as int, p) ==> !d[p])
            ==> !collides(d, sprite, x as int, y as int)
                && collides(drawn(d, sprite, x as int, y as int), sprite, x as int, y as int),
{
    assert(drawn(drawn(d, sprite, x as int, y as int), sprite, x as int, y as int) =~= d);
    if has_set_bit(sprite) && (forall|p: int| 0 <= p < PIXELS && #[trigger] covers(sprite, x as int, y as int, p) ==> !d[p]) {
        let (r, k) = choose|r: int, k: int| 0 <= r < sprite.len() && 0 <= k < 8 && #[trigger] sprite_bit(sprite[r], k);
        let p = pixel_index((y + r) % ROWS as int, (x + k) % COLS as int);
        assert(0 <= p < PIXELS) by (nonlinear_arith)
            requires p == ((y + r) % 32) * 64 + (x + k) % 64, 0 <= y, 0 <= r, 0 <= x, 0 <= k;
        lemma_offsets(p, x as int, y as int, r, k);
        assert(covers(sprite, x as int, y as int, p));
        let e = drawn(d, sprite, x as int, y as int);
        assert(0 <= p < e.len() && e[p] && covers(sprite, x as int, y as int, p));
    }
}

/// A 64 x 32 monochrome framebuffer, row-major.
pub struct Display {
    buffer: Vec<bool>,
}

impl View for Display {
    type V = Seq<bool>;

    closed spec fn view(&self) -> Seq<bool> {
        self.buffer@
    }
}

impl Display {
    pub open spec fn wf(&self) -> bool {
        self@.len() == PIXELS
    }

    /// A framebuffer with every pixel off.
    pub fn new() -> (r: Display)
        ensures
            r.wf(),
            forall|p: int| 0 <= p < PIXELS ==> !r@[p],
    {
        let mut buffer: Vec<bool> = Vec::new();
        let mut i: usize = 0;
        while i < PIXELS
            invariant
                i <= PIXELS,
                buffer@.len() == i,
                forall|p: int| 0 <= p < i ==> !buffer@[p],
            decreases PIXELS - i,
        {
            buffer.push(false);
            i = i + 1;
        }
        Display { buffer }
    }

    pub fn rows() -> (r: usize)
        ensures
            r == ROWS,
    {
        ROWS
    }

    pub fn cols() -> (r: usize)
        ensures
            r == COLS,
    {
        COLS
    }

    /// Whether the pixel at `(col, row)` is on.
    pub fn pixel(&self, row: usize, col: usize) -> (r: bool)
        requires
            self.wf(),
            row < ROWS,
            col < COLS,
        ensures
            r == self@[pixel_index(row as int, col as int)],
    {
        self.buffer[row * COLS + col]
    }

    /// Turns every pixel off.
    pub fn clear(&mut self)
        requires
            old(self).wf(),
        ensures
            final(self).wf(),
            forall|p: int| 0 <= p < PIXELS ==> !final(self)@[p],
    {
        let mut i: usize = 0;
        while i < PIXELS
            invariant
                i <= PIXELS,
                self.buffer@.len() == PIXELS,
                forall|p: int| 0 <= p < i ==> !self.buffer@[p],
            decreases PIXELS - i,
        {
            self.buffer.set(i, false);
            i = i + 1;
        }
    }

    /// XOR-draws the `n` sprite rows `memory[start..start + n]` with their
    /// top-left corner at `(x, y)`, wrapping at the edges. Returns whether
    /// some lit pixel was turned off.
    pub fn draw_sprite(&mut self, memory: &Vec<u8>, start: usize, n: usize, x: u8, y: u8) -> (collision: bool)
        requires
            old(self).wf(),
            start + n <= memory@.len(),
            n <= ROWS,
        ensures
            final(self).wf(),
            final(self)@ == drawn(old(self)@, memory@.subrange(start as int, start + n), x as int, y as int),
            collision == collides(old(self)@, memory@.subrange(start as int, start + n), x as int, y as int),
    {
        let ghost d0 = self@;
        let ghost sprite = memory@.subrange(start as int, start + n);
        let mut collision = false;
        let mut r: usize = 0;
        while r < n
            invariant
                r <= n,
                n <= ROWS,
                start + n <= memory.len(),
                sprite == memory@.subrange(start as int, start + n),
                d0.len() == PIXELS,
                self@.len() == PIXELS,
                forall|p: int|
                    0 <= p < PIXELS ==> #[trigger] self@[p] == (d0[p] != (covers(sprite, x as int, y as int, p)
                        && row_offset(p, y as int) < r)),
                collision == exists|p: int|
                    0 <= p < PIXELS && d0[p] && #[trigger] covers(sprite, x as int, y as int, p)
                        && row_offset(p, y as int) < r,
            decreases n - r,
        {
            let row = (y as usize + r) % ROWS;
            let byte = memory[start + r];
            let mut b: usize = 0;
            while b < 8
                invariant
                    r < n,
                    n <= ROWS,
                    b <= 8,
                    start + n <= memory@.len(),
                    sprite == memory@.subrange(start as int, start + n),
                    byte == sprite[r as int],
                    row == (y + r) % ROWS as int,
                    d0.len() == PIXELS,
                    self@.len() == PIXELS,
                    forall|p: int|
                        0 <= p < PIXELS ==> #[trigger] self@[p] == (d0[p] != (covers(sprite, x as int, y as int, p)
                            && (row_offset(p, y as int) < r || (row_offset(p, y as int) == r && col_offset(p, x as int) < b)))),
                    collision == exists|p: int|
                        0 <= p < PIXELS && d0[p] && #[trigger] covers(sprite, x as int, y as int, p)
                            && (row_offset(p, y as int) < r || (row_offset(p, y as int) == r && col_offset(p, x as int) < b)),
                decreases 8 - b,
            {
                let col = (x as usize + b) % COLS;
                let p = row * COLS + col;
                let shift = (7 - b) as u8;
                let bit = (byte >> shift) & 1u8 == 1u8;
                proof {
                    assert(p < PIXELS) by (nonlinear_arith)
                        requires p == row * 64 + col, row < 32, col < 64;
                    lemma_offsets(p as int, x as int, y as int, r as int, b as int);
                    assert(covers(sprite, x as int, y as int, p as int) == bit);
                    assert forall|q: int| 0 <= q < PIXELS && q != p implies
                        !(row_offset(q, y as int) == r && col_offset(q, x as int) == b) by {
                        lemma_offsets(q, x as int, y as int, r as int, b as int);
                    }
                }
                let cur = self.buffer[p];
                if bit {
                    if cur {
                        collision = true;
                    }
                    self.buffer.set(p, !cur);
                }
                proof {
                    assert forall|q: int| 0 <= q < PIXELS implies #[trigger] self@[q] == (d0[q] != (covers(sprite, x as int, y as int, q)
                        && (row_offset(q, y as int) < r || (row_offset(q, y as int) == r && col_offset(q, x as int) < b + 1)))) by {
                        if q != p {
                            lemma_offsets(q, x as int, y as int, r as int, b as int);
                        }
                    }
                    if collision {
                        if bit && cur {
                            assert(0 <= p < PIXELS && d0[p as int] && covers(sprite, x as int, y as int, p as int)
                                && (row_offset(p as int, y as int) < r || (row_offset(p as int, y as int) == r && col_offset(p as int, x as int) < b + 1)));
                        }
                    } else {
                        assert forall|q: int| 0 <= q < PIXELS && d0[q] && #[trigger] covers(sprite, x as int, y as int, q) implies
                            !(row_offset(q, y as int) < r || (row_offset(q, y as int) == r && col_offset(q, x as int) < b + 1)) by {
                            if q != p {
                                lemma_offsets(q, x as int, y as int, r as int, b as int);
                            }
                        }
                    }
                }
                b = b + 1;
            }
            proof {
                assert forall|q: int| 0 <= q < PIXELS implies #[trigger] self@[q] == (d0[q] != (covers(sprite, x as int, y as int, q)
                    && row_offset(q, y as int) < r + 1)) by {}
                if !collision {
                    assert forall|q: int| 0 <= q < PIXELS && d0[q] && #[trigger] covers(sprite, x as int, y as int, q) implies
                        !(row_offset(q, y as int) < r + 1) by {}
                }
            }
            r = r + 1;
        }
        proof {
            assert(self@ =~= drawn(d0, sprite, x as int, y as int));
        }
        collision
    }
}

} // verus!
