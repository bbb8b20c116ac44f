//! The 64x32 monochrome display buffer and its sprite compositor.
//!
//! The buffer is 32 rows of 64 one-bit pixels, one `u64` word per row with
//! bit 0 as the leftmost column. Sprites are XOR-composited: a sprite byte is
//! MSB-first left-to-right, so it is bit-reversed, shifted to its column, and
//! XORed into each touched row. Bits shifted past column 63 are truncated
//! (no mid-sprite wraparound), and rows past the bottom edge are dropped.

use vstd::prelude::*;

verus! {

/// Font built in to Chip-8. 16 characters (0-F), 5 bytes each, for a grand
/// total of 80 bytes. This is loaded into the reserved low region of program
/// memory before execution starts.
pub const CHIP8_FONT: [u8; 80] = [
    0xF0, 0x90, 0x90, 0x90, 0xF0, // 0
    0x20, 0x60, 0x20, 0x20, 0x70, // 1
    0xF0, 0x10, 0xF0, 0x80, 0xF0, // 2
    0xF0, 0x10, 0xF0, 0x10, 0xF0, // 3
    0x90, 0x90, 0xF0, 0x10, 0x10, // 4
    0xF0, 0x80, 0xF0, 0x10, 0xF0, // 5
    0xF0, 0x80, 0xF0, 0x90, 0xF0, // 6
    0xF0, 0x10, 0x20, 0x40, 0x40, // 7
    0xF0, 0x90, 0xF0, 0x90, 0xF0, // 8
    0xF0, 0x90, 0xF0, 0x10, 0xF0, // 9
    0xF0, 0x90, 0xF0, 0x90, 0x90, // A
    0xE0, 0x90, 0xE0, 0x90, 0xE0, // B
    0xF0, 0x80, 0x80, 0x80, 0xF0, // C
    0xE0, 0x90, 0x90, 0x90, 0xE0, // D
    0xF0, 0x80, 0xF0, 0x80, 0xF0, // E
    0xF0, 0x80, 0xF0, 0x80, 0x80, // F
];

/// The font table as a mathematical sequence of its 80 bytes.
pub open spec fn font_seq() -> Seq<u8> {
    CHIP8_FONT@
}

/// Offset of a hex digit's 5-byte glyph within the font table.
pub fn character_offset(character: u16) -> (r: u16)
    requires
        character <= 13107,
    ensures
        r == character * 5,
{
    character * 5
}

/// A sprite byte with its bit order reversed, reconciling the MSB-first
/// sprite convention with the bit-0-leftmost row storage.
pub open spec fn spec_rev_byte(b: u8) -> u8 {
    ((b & 0x01) << 7) | ((b & 0x02) << 5) | ((b & 0x04) << 3) | ((b & 0x08) << 1) | ((b & 0x10)
        >> 1) | ((b & 0x20) >> 3) | ((b & 0x40) >> 5) | ((b & 0x80) >> 7)
}

fn rev_byte(b: u8) -> (r: u8)
    ensures
        r == spec_rev_byte(b),
{
    ((b & 0x01) << 7) | ((b & 0x02) << 5) | ((b & 0x04) << 3) | ((b & 0x08) << 1) | ((b & 0x10)
        >> 1) | ((b & 0x20) >> 3) | ((b & 0x40) >> 5) | ((b & 0x80) >> 7)
}

/// One sprite row prepared for compositing: bit-reversed and shifted to start
/// at column `x`; bits pushed past column 63 are truncated.
pub open spec fn shifted_row(line: u8, x: int) -> u64 {
    (spec_rev_byte(line) as u64) << x
}

/// How many rows of a sprite take part in a draw: at most 15.
pub open spec fn sprite_rows(sprite: Seq<u8>) -> int {
    if sprite.len() > 15 {
        15int
    } else {
        sprite.len() as int
    }
}

/// Row `r` of the buffer after compositing `sprite` at column `x`, row `y`
/// (both already normalized). Rows past the bottom edge do not exist in the
/// buffer, so sprite rows falling there are dropped.
pub open spec fn blit_row(grid: Seq<u64>, x: int, y: int, sprite: Seq<u8>, r: int) -> u64 {
    if y <= r < y + sprite_rows(sprite) {
        grid[r] ^ shifted_row(sprite[r - y], x)
    } else {
        grid[r]
    }
}

/// The whole buffer after compositing `sprite` at normalized `x`, `y`.
pub open spec fn blit_grid(grid: Seq<u64>, x: int, y: int, sprite: Seq<u8>) -> Seq<u64> {
    Seq::new(32, |r: int| blit_row(grid, x, y, sprite, r))
}

/// Whether any of the first `k` sprite rows clears a previously set pixel:
/// some touched row has a bit set both in the old buffer and in the shifted
/// sprite row.
pub open spec fn collides_prefix(grid: Seq<u64>, x: int, y: int, sprite: Seq<u8>, k: int) -> bool {
    exists|r: int|
        0 <= r < 32 && y <= r < y + k && #[trigger] (grid[r] & shifted_row(sprite[r - y], x)) != 0
}

/// Whether the draw cleared any previously set pixel.
pub open spec fn blit_collides(grid: Seq<u64>, x: int, y: int, sprite: Seq<u8>) -> bool {
    collides_prefix(grid, x, y, sprite, sprite_rows(sprite))
}

/// Extending the checked prefix by one row adds exactly that row's overlap
/// test (a row below the bottom edge adds nothing).
proof fn lemma_collides_prefix_step(grid: Seq<u64>, x: int, y: int, sprite: Seq<u8>, k: int)
    requires
        0 <= k,
        0 <= y,
    ensures
        collides_prefix(grid, x, y, sprite, k + 1) <==> (collides_prefix(grid, x, y, sprite, k)
            || (y + k < 32 && (grid[y + k] & shifted_row(sprite[k], x)) != 0)),
{
    if collides_prefix(grid, x, y, sprite, k + 1) {
        let r = choose|r: int|
            0 <= r < 32 && y <= r < y + (k + 1) && #[trigger] (grid[r] & shifted_row(
                sprite[r - y],
                x,
            )) != 0;
        if r < y + k {
            assert(collides_prefix(grid, x, y, sprite, k));
        } else {
            assert(r == y + k);
        }
    }
    if collides_prefix(grid, x, y, sprite, k) {
        let r = choose|r: int|
            0 <= r < 32 && y <= r < y + k && #[trigger] (grid[r] & shifted_row(
                sprite[r - y],
                x,
            )) != 0;
        assert(0 <= r < 32 && y <= r < y + (k + 1) && (grid[r] & shifted_row(sprite[r - y], x))
            != 0);
    }
    if y + k < 32 && (grid[y + k] & shifted_row(sprite[k], x)) != 0 {
        let r = y + k;
        assert(0 <= r < 32 && y <= r < y + (k + 1) && (grid[r] & shifted_row(sprite[r - y], x))
            != 0);
    }
}

/// The buffer after a draw at raw coordinates: the origin wraps around the
/// grid, then the sprite is composited with edge truncation.
pub open spec fn write_sprite_grid(grid: Seq<u64>, x: int, y: int, sprite: Seq<u8>) -> Seq<u64> {
    blit_grid(grid, x % 64, y % 32, sprite)
}

/// The collision report of a draw at raw coordinates.
pub open spec fn write_sprite_collides(grid: Seq<u64>, x: int, y: int, sprite: Seq<u8>) -> bool {
    blit_collides(grid, x % 64, y % 32, sprite)
}

/// The all-clear buffer.
pub open spec fn zero_grid() -> Seq<u64> {
    Seq::new(32, |r: int| 0u64)
}

proof fn bv_zero_and(a: u64)
    by (bit_vector)
    ensures
        (0u64 & a) == 0u64,
{
}

proof fn bv_xor_zero(a: u64)
    by (bit_vector)
    ensures
        (0u64 ^ a) == a,
{
}

proof fn bv_xor_cancel(g: u64, a: u64)
    by (bit_vector)
    ensures
        ((g ^ a) ^ a) == g,
{
}

proof fn bv_and_self(a: u64)
    by (bit_vector)
    ensures
        (a & a) == a,
{
}

proof fn bv_shift_keeps_low_bits(g: u64, b: u64, x: u64, c: u64)
    by (bit_vector)
    requires
        c < x,
        x < 64,
    ensures
        (((g ^ (b << x)) >> c) & 1) == ((g >> c) & 1),
{
}

/// Law: drawing a sprite twice at the same coordinates restores the buffer,
/// because XOR-compositing an identical pattern clears exactly the pixels it
/// had set.
pub proof fn lemma_draw_twice_restores(grid: Seq<u64>, x: int, y: int, sprite: Seq<u8>)
    requires
        grid.len() == 32,
        0 <= x,
        0 <= y,
    ensures
        write_sprite_grid(write_sprite_grid(grid, x, y, sprite), x, y, sprite) == grid,
{
    let nx = x % 64;
    let ny = y % 32;
    let g1 = blit_grid(grid, nx, ny, sprite);
    let g2 = blit_grid(g1, nx, ny, sprite);
    assert forall|r: int| 0 <= r < 32 implies g2[r] == grid[r] by {
        if ny <= r < ny + sprite_rows(sprite) {
            bv_xor_cancel(grid[r], shifted_row(sprite[r - ny], nx));
        }
    }
    assert(g2 =~= grid);
}

/// Law: on an empty buffer a draw never reports a collision; an immediately
/// repeated draw at the same coordinates reports one exactly when the first
/// draw lit some pixel.
pub proof fn lemma_draw_twice_on_empty(x: int, y: int, sprite: Seq<u8>)
    requires
        0 <= x,
        0 <= y,
    ensures
        !write_sprite_collides(zero_grid(), x, y, sprite),
        write_sprite_collides(write_sprite_grid(zero_grid(), x, y, sprite), x, y, sprite)
            <==> write_sprite_grid(zero_grid(), x, y, sprite) != zero_grid(),
{
    let nx = x % 64;
    let ny = y % 32;
    let rows = sprite_rows(sprite);
    let g1 = blit_grid(zero_grid(), nx, ny, sprite);

    if write_sprite_collides(zero_grid(), x, y, sprite) {
        let r = choose|r: int|
            0 <= r < 32 && ny <= r < ny + rows && #[trigger] (zero_grid()[r] & shifted_row(
                sprite[r - ny],
                nx,
            )) != 0;
        bv_zero_and(shifted_row(sprite[r - ny], nx));
        assert(false);
    }

    if write_sprite_collides(g1, x, y, sprite) {
        let r = choose|r: int|
            0 <= r < 32 && ny <= r < ny + rows && #[trigger] (g1[r] & shifted_row(
                sprite[r - ny],
                nx,
            )) != 0;
        bv_zero_and(shifted_row(sprite[r - ny], nx));
        assert(g1[r] != 0);
        assert(g1 != zero_grid());
    }

    if g1 != zero_grid() {
        assert(exists|r: int| 0 <= r < 32 && #[trigger] g1[r] != 0) by {
            if !(exists|r: int| 0 <= r < 32 && #[trigger] g1[r] != 0) {
                assert forall|r: int| 0 <= r < 32 implies g1[r] == 0 by {}
                assert(g1 =~= zero_grid());
                assert(false);
            }
        }
        let r = choose|r: int| 0 <= r < 32 && #[trigger] g1[r] != 0;
        if !(ny <= r < ny + rows) {
            assert(g1[r] == zero_grid()[r]);
            assert(false);
        }
        let s = shifted_row(sprite[r - ny], nx);
        bv_xor_zero(s);
        assert(g1[r] == s);
        bv_and_self(s);
        assert((g1[r] & shifted_row(sprite[r - ny], nx)) != 0);
        assert(write_sprite_collides(g1, x, y, sprite));
    }
}

/// Law: edge truncation. A sprite composited at column `x` never changes a
/// pixel in a column left of `x`: bits shifted past column 63 are dropped,
/// not wrapped around into the low columns.
pub proof fn lemma_no_wrap(grid: Seq<u64>, x: int, y: int, sprite: Seq<u8>, r: int, c: int)
    requires
        grid.len() == 32,
        0 <= x < 64,
        0 <= y < 32,
        0 <= r < 32,
        0 <= c < x,
    ensures
        ((write_sprite_grid(grid, x, y, sprite)[r] >> c) & 1) == ((grid[r] >> c) & 1),
{
    assert(x % 64 == x);
    assert(y % 32 == y);
    let bg = blit_grid(grid, x, y, sprite);
    assert(bg[r] == blit_row(grid, x, y, sprite, r));
    if y <= r < y + sprite_rows(sprite) {
        let b = spec_rev_byte(sprite[r - y]) as u64;
        bv_shift_keeps_low_bits(grid[r], b, x as u64, c as u64);
        assert(shifted_row(sprite[r - y], x) == (b << (x as u64)));
        assert(((bg[r] >> (c as u64)) & 1) == ((grid[r] >> (c as u64)) & 1));
    }
}

/// The bit-packed frame buffer: 32 rows of 64 one-bit pixels.
pub struct Screen {
    raw: [u64; 32],
}

impl View for Screen {
    type V = Seq<u64>;

    closed spec fn view(&self) -> Seq<u64> {
        self.raw@
    }
}

impl Screen {
    pub fn new_empty() -> (s: Screen)
        ensures
            s@ == zero_grid(),
    {
        let s = Screen { raw: [0; 32] };
        proof {
            assert(s@ =~= zero_grid());
        }
        s
    }

    /// The raw row words, bit 0 of row `r` being the pixel at column 0.
    pub fn as_raw(&self) -> (r: [u64; 32])
        ensures
            r@ == self@,
    {
        self.raw
    }

    /// Resets every pixel to off.
    pub fn clear(&mut self)
        ensures
            final(self)@ == zero_grid(),
    {
        self.raw = [0; 32];
        proof {
            assert(self@ =~= zero_grid());
        }
    }

    /// XOR-composites a sprite at column `x`, row `y`, reporting whether any
    /// previously set pixel was cleared. The origin wraps; the blit itself
    /// truncates at the right and bottom edges.
    pub fn write_sprite(&mut self, x: usize, y: usize, sprite: &[u8]) -> (collided: bool)
        ensures
            final(self)@ == write_sprite_grid(old(self)@, x as int, y as int, sprite@),
            collided == write_sprite_collides(old(self)@, x as int, y as int, sprite@),
    {
        let mut cx = x;
        let mut cy = y;
        if cx > 0x3F {
            cx = cx % 64;
        }
        if cy > 0x1F {
            cy = cy % 32;
        }
        let rows: usize = if sprite.len() > 15 {
            15
        } else {
            sprite.len()
        };
        let ghost g0 = self.raw@;
        let mut did_collide = false;
        let mut i: usize = 0;
        while i < rows
            invariant
                i <= rows,
                rows == sprite_rows(sprite@),
                cx < 64,
                cy < 32,
                self.raw@.len() == 32,
                g0.len() == 32,
                forall|r: int|
                    0 <= r < 32 ==> #[trigger] self.raw@[r] == (if cy <= r < cy + i {
                        g0[r] ^ shifted_row(sprite@[r - cy], cx as int)
                    } else {
                        g0[r]
                    }),
                did_collide == collides_prefix(g0, cx as int, cy as int, sprite@, i as int),
            decreases rows - i,
        {
            proof {
                lemma_collides_prefix_step(g0, cx as int, cy as int, sprite@, i as int);
            }
            if cy + i < 32 {
                let line = sprite[i];
                let sr: u64 = (rev_byte(line) as u64) << (cx as u32);
                let row = self.raw[cy + i];
                if (row & sr) != 0 {
                    did_collide = true;
                }
                self.raw[cy + i] = row ^ sr;
            }
            i += 1;
        }
        proof {
            assert(self.raw@ =~= blit_grid(g0, cx as int, cy as int, sprite@));
        }
        did_collide
    }
}

} // verus!
