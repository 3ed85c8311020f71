//! Sprite drawing on the 64 by 32 display: what a draw does to each pixel,
//! when it reports a collision, and the loop that performs it.

use vstd::prelude::*;

verus! {

/// A sprite placed on the display: its rows, top first, each a byte whose
/// highest bit is the leftmost pixel, and the position of its top left corner.
pub struct Sprite {
    pub rows: Seq<u8>,
    pub x: u8,
    pub y: u8,
}

/// The display as a sequence of rows.
pub open spec fn screen_view(gfx: [[u8; 64]; 32]) -> Seq<Seq<u8>> {
    Seq::new(32, |r: int| gfx@[r]@)
}

/// A display with every pixel off.
pub open spec fn blank_screen() -> Seq<Seq<u8>> {
    Seq::new(32, |r: int| Seq::new(64, |c: int| 0u8))
}

/// A display of 32 rows of 64 pixels.
pub open spec fn is_screen(g: Seq<Seq<u8>>) -> bool {
    &&& g.len() == 32
    &&& forall|r: int| 0 <= r < 32 ==> (#[trigger] g[r]).len() == 64
}

/// Bit `col` of a sprite row, counted from the left, as 0 or 1.
pub open spec fn sprite_pixel(byte: u8, col: int) -> u8 {
    (byte >> ((7 - col) as u8)) & 1
}

/// Whether a sprite bit and a pixel are both set.
pub open spec fn overlaps(bit: u8, pixel: u8) -> bool {
    bit & pixel == 1
}

impl Sprite {
    /// The sprite row that lands on display row `r`; the display wraps.
    pub open spec fn row_at(self, r: int) -> int {
        (r - self.y) % 32
    }

    /// The sprite column that lands on display column `c`; the display wraps.
    pub open spec fn col_at(self, c: int) -> int {
        (c - self.x) % 64
    }

    /// Whether the sprite reaches the pixel in row `r`, column `c`.
    pub open spec fn covers(self, r: int, c: int) -> bool {
        self.row_at(r) < self.rows.len() && self.col_at(c) < 8
    }

    /// The sprite's bit for a pixel that it covers.
    pub open spec fn bit_at(self, r: int, c: int) -> u8 {
        sprite_pixel(self.rows[self.row_at(r)], self.col_at(c))
    }

    /// Whether bit `j` of sprite row `i` is set and lands on a pixel of `g`
    /// that is set.
    pub open spec fn hits(self, g: Seq<Seq<u8>>, i: int, j: int) -> bool {
        overlaps(sprite_pixel(self.rows[i], j), g[(self.y + i) % 32][(self.x + j) % 64])
    }

    /// Whether the sprite covers the pixel with one of its first `row` rows,
    /// or with one of the first `col` bits of row `row`.
    pub open spec fn covers_before(self, r: int, c: int, row: int, col: int) -> bool {
        self.covers(r, c) && (self.row_at(r) < row || (self.row_at(r) == row && self.col_at(c)
            < col))
    }
}

/// The display after the sprite was drawn on `g`: each covered pixel is
/// combined with the sprite's bit by exclusive or, the others stay.
pub open spec fn drawn(g: Seq<Seq<u8>>, s: Sprite) -> Seq<Seq<u8>> {
    Seq::new(
        32,
        |r: int|
            Seq::new(
                64,
                |c: int|
                    if s.covers(r, c) {
                        g[r][c] ^ s.bit_at(r, c)
                    } else {
                        g[r][c]
                    },
            ),
    )
}

/// Whether drawing the sprite on `g` collides: some set bit of the sprite
/// lands on a pixel that was set before the draw.
pub open spec fn collides(g: Seq<Seq<u8>>, s: Sprite) -> bool {
    exists|i: int, j: int| 0 <= i < s.rows.len() && 0 <= j < 8 && #[trigger] s.hits(g, i, j)
}

/// The sprite of `n` rows that starts at `i` in `memory`, placed at `(x, y)`.
pub open spec fn sprite_of(memory: Seq<u8>, i: int, n: int, x: u8, y: u8) -> Sprite {
    Sprite { rows: Seq::new(n as nat, |k: int| memory[i + k]), x, y }
}

/// Drawing the same sprite twice at the same place gives back the display as
/// it was before the first draw.
pub proof fn lemma_draw_twice_restores(g: Seq<Seq<u8>>, s: Sprite)
    requires
        is_screen(g),
    ensures
        drawn(drawn(g, s), s) == g,
{
    let once = drawn(g, s);
    let twice = drawn(once, s);
    assert forall|r: int, c: int| 0 <= r < 32 && 0 <= c < 64 implies twice[r][c] == g[r][c] by {
        let p = g[r][c];
        let b = s.bit_at(r, c);
        assert((p ^ b) ^ b == p) by (bit_vector);
    }
    assert(twice =~~= g);
}

/// A draw on a display whose pixels are all 0 or 1 leaves a display whose
/// pixels are all 0 or 1.
pub proof fn lemma_draw_keeps_pixels_binary(g: Seq<Seq<u8>>, s: Sprite)
    requires
        is_screen(g),
        forall|r: int, c: int| 0 <= r < 32 && 0 <= c < 64 ==> g[r][c] <= 1,
    ensures
        is_screen(drawn(g, s)),
        forall|r: int, c: int| 0 <= r < 32 && 0 <= c < 64 ==> drawn(g, s)[r][c] <= 1,
{
    assert forall|r: int, c: int| 0 <= r < 32 && 0 <= c < 64 implies drawn(g, s)[r][c] <= 1 by {
        let p = g[r][c];
        let byte = s.rows[s.row_at(r)];
        let shift = (7 - s.col_at(c)) as u8;
        assert(p <= 1 ==> p ^ ((byte >> shift) & 1) <= 1) by (bit_vector);
    }
}

/// On a display that is all clear no draw collides.
pub proof fn lemma_collision_needs_set_pixel(g: Seq<Seq<u8>>, s: Sprite)
    requires
        is_screen(g),
        forall|r: int, c: int| 0 <= r < 32 && 0 <= c < 64 ==> g[r][c] == 0,
    ensures
        !collides(g, s),
{
    assert forall|i: int, j: int| 0 <= i < s.rows.len() && 0 <= j < 8 implies !s.hits(g, i, j) by {
        let b = sprite_pixel(s.rows[i], j);
        let p = g[(s.y + i) % 32][(s.x + j) % 64];
        assert(p == 0);
        assert(b & 0 != 1) by (bit_vector);
    }
}

/// Bit `col` of `byte`, counted from the left.
pub fn pixel_of(byte: u8, col: u8) -> (bit: u8)
    requires
        col < 8,
    ensures
        bit == sprite_pixel(byte, col as int),
        bit <= 1,
{
    let shift: u8 = 7 - col;
    let bit: u8 = (byte >> shift) & 1;
    assert((byte >> shift) & 1 <= 1) by (bit_vector);
    bit
}

/// Draws the sprite of `n` rows found at `i` in `memory` on the display at
/// `(x, y)` and reports whether it collided.
pub fn draw_sprite(
    gfx: &mut [[u8; 64]; 32],
    memory: &[u8; 4096],
    i: u16,
    n: u8,
    x: u8,
    y: u8,
) -> (hit: bool)
    requires
        n <= 15,
        n > 0 ==> i + n <= 4096,
    ensures
        screen_view(*final(gfx)) == drawn(
            screen_view(*old(gfx)),
            sprite_of(memory@, i as int, n as int, x, y),
        ),
        hit == collides(screen_view(*old(gfx)), sprite_of(memory@, i as int, n as int, x, y)),
{
    let ghost g0 = screen_view(*gfx);
    let ghost s = sprite_of(memory@, i as int, n as int, x, y);
    let mut hit = false;
    let ghost mut wi: int = 0;
    let ghost mut wj: int = 0;
    let mut row: u8 = 0;
    while row < n
        invariant
            n <= 15,
            n > 0 ==> i + n <= 4096,
            row <= n,
            g0 == screen_view(*old(gfx)),
            s == sprite_of(memory@, i as int, n as int, x, y),
            forall|r: int, c: int|
                0 <= r < 32 && 0 <= c < 64 ==> #[trigger] gfx@[r]@[c] == (if s.covers_before(
                    r,
                    c,
                    row as int,
                    0,
                ) {
                    g0[r][c] ^ s.bit_at(r, c)
                } else {
                    g0[r][c]
                }),
            hit ==> 0 <= wi < n && 0 <= wj < 8 && s.hits(g0, wi, wj),
            !hit ==> forall|a: int, b: int|
                0 <= a < row && 0 <= b < 8 ==> !#[trigger] s.hits(g0, a, b),
        decreases n - row,
    {
        let byte: u8 = memory[(i + row as u16) as usize];
        let r: usize = (y as usize + row as usize) % 32;
        let mut col: u8 = 0;
        while col < 8
            invariant
                n <= 15,
                row < n,
                col <= 8,
                r == (y + row) % 32,
                byte == s.rows[row as int],
                g0 == screen_view(*old(gfx)),
                s == sprite_of(memory@, i as int, n as int, x, y),
                forall|r: int, c: int|
                    0 <= r < 32 && 0 <= c < 64 ==> #[trigger] gfx@[r]@[c] == (if s.covers_before(
                        r,
                        c,
                        row as int,
                        col as int,
                    ) {
                        g0[r][c] ^ s.bit_at(r, c)
                    } else {
                        g0[r][c]
                    }),
                hit ==> 0 <= wi < n && 0 <= wj < 8 && s.hits(g0, wi, wj),
                !hit ==> forall|a: int, b: int|
                    0 <= a < n && 0 <= b < 8 && (a < row || (a == row && b < col))
                        ==> !#[trigger] s.hits(g0, a, b),
            decreases 8 - col,
        {
            let c: usize = (x as usize + col as usize) % 64;
            let bit = pixel_of(byte, col);
            let pixel: u8 = gfx[r][c];
            proof {
                assert(s.row_at(r as int) == row);
                assert(s.col_at(c as int) == col);
            }
            if bit & pixel == 1 {
                hit = true;
                proof {
                    wi = row as int;
                    wj = col as int;
                }
            }
            gfx[r][c] = pixel ^ bit;
            proof {
                assert forall|r2: int, c2: int| 0 <= r2 < 32 && 0 <= c2 < 64 implies (
                s.covers_before(r2, c2, row as int, col as int + 1) <==> (s.covers_before(
                    r2,
                    c2,
                    row as int,
                    col as int,
                ) || (r2 == r && c2 == c))) by {}
            }
            col += 1;
        }
        proof {
            assert forall|r2: int, c2: int| 0 <= r2 < 32 && 0 <= c2 < 64 implies (s.covers_before(
                r2,
                c2,
                row as int,
                8,
            ) <==> s.covers_before(r2, c2, row as int + 1, 0)) by {}
        }
        row += 1;
    }
    proof {
        let g1 = screen_view(*gfx);
        let want = drawn(g0, s);
        assert forall|r: int, c: int| 0 <= r < 32 && 0 <= c < 64 implies g1[r][c] == want[r][c] by {
            assert(gfx@[r]@[c] == g1[r][c]);
            assert(s.covers_before(r, c, n as int, 0) <==> s.covers(r, c));
        }
        assert(g1 =~~= want);
    }
    hit
}

} // verus!
