use vstd::prelude::*;
use vstd::pervasive::VecAdditionalExecFns;

verus! {

/// Width of the pixel grid.
pub const SCREEN_WIDTH: usize = 64;

/// Height of the pixel grid.
pub const SCREEN_HEIGHT: usize = 32;

/// Number of pixels in the grid.
pub const SCREEN_PIXELS: usize = 2048;

/// The grid as a flat sequence: pixel (x, y) lives at index y * 64 + x.
pub open spec fn pixel_index(x: int, y: int) -> int {
    y * (SCREEN_WIDTH as int) + x
}

/// The all-dark screen.
pub open spec fn all_clear() -> Seq<bool> {
    Seq::new(SCREEN_PIXELS as nat, |j: int| false)
}

/// Whether bit `c` (counted from the left, 0 through 7) of a sprite row byte
/// is set.
pub open spec fn row_bit(byte: u8, c: int) -> bool
    recommends
        0 <= c < 8,
{
    byte >> (7 - c) as u8 & 1 == 1
}

/// The screen after XORing the leftmost `bits` bits of sprite row `byte`
/// onto row `py`, starting at column `x0` and wrapping each row
/// horizontally.
pub open spec fn spec_blit_row(fb: Seq<bool>, x0: int, py: int, byte: u8, bits: int) -> Seq<bool>
    recommends
        fb.len() == SCREEN_PIXELS,
        0 <= x0 < SCREEN_WIDTH,
        0 <= py < SCREEN_HEIGHT,
        0 <= bits <= 8,
    decreases bits,
{
    if bits <= 0 {
        fb
    } else {
        let prev = spec_blit_row(fb, x0, py, byte, bits - 1);
        let c = bits - 1;
        let idx = pixel_index((x0 + c) % (SCREEN_WIDTH as int), py);
        prev.update(idx, prev[idx] ^ row_bit(byte, c))
    }
}

/// Whether XORing the leftmost `bits` bits of `byte` onto row `py` turns any
/// pixel from set to unset.
pub open spec fn spec_row_collision(fb: Seq<bool>, x0: int, py: int, byte: u8, bits: int) -> bool
    decreases bits,
{
    if bits <= 0 {
        false
    } else {
        let prev = spec_blit_row(fb, x0, py, byte, bits - 1);
        let c = bits - 1;
        let idx = pixel_index((x0 + c) % (SCREEN_WIDTH as int), py);
        spec_row_collision(fb, x0, py, byte, bits - 1) || (row_bit(byte, c) && prev[idx])
    }
}

/// The screen after blitting the sprite `rows` with its top-left corner at
/// (`x0`, `y0`): row `r` lands on grid row (`y0` + `r`) mod 32, so rows that
/// run past the bottom wrap back to the top of the grid.
pub open spec fn spec_blit(fb: Seq<bool>, x0: int, y0: int, rows: Seq<u8>) -> Seq<bool>
    decreases rows.len(),
{
    if rows.len() == 0 {
        fb
    } else {
        let prev = spec_blit(fb, x0, y0, rows.drop_last());
        let r = rows.len() - 1;
        spec_blit_row(prev, x0, (y0 + r) % (SCREEN_HEIGHT as int), rows.last(), 8)
    }
}

/// Whether blitting the sprite `rows` at (`x0`, `y0`) turns any pixel from
/// set to unset; this becomes the VF collision flag.
pub open spec fn spec_collision(fb: Seq<bool>, x0: int, y0: int, rows: Seq<u8>) -> bool
    decreases rows.len(),
{
    if rows.len() == 0 {
        false
    } else {
        let prev = spec_blit(fb, x0, y0, rows.drop_last());
        let r = rows.len() - 1;
        spec_collision(fb, x0, y0, rows.drop_last()) || spec_row_collision(
            prev,
            x0,
            (y0 + r) % (SCREEN_HEIGHT as int),
            rows.last(),
            8,
        )
    }
}

/// Whether one of the leftmost `bits` set bits of sprite row `byte`, blitted
/// at column `x0` of grid row `py`, lands on pixel `p`.
pub open spec fn row_hits(x0: int, py: int, byte: u8, bits: int, p: int) -> bool {
    exists|c: int|
        0 <= c < bits && row_bit(byte, c) && p == pixel_index((x0 + c) % (SCREEN_WIDTH as int), py)
}

/// Whether some set bit of the sprite `rows`, blitted at (`x0`, `y0`), lands
/// on pixel `p`.
pub open spec fn sprite_hits(x0: int, y0: int, rows: Seq<u8>, p: int) -> bool {
    exists|r: int|
        0 <= r < rows.len() && row_hits(x0, (y0 + r) % (SCREEN_HEIGHT as int), rows[r], 8, p)
}

/// Two different bit positions of one sprite row land on two different
/// pixels: the row spans eight columns of a 64-wide grid.
proof fn lemma_row_columns_injective(x0: int, py: int, c1: int, c2: int)
    requires
        0 <= x0 < SCREEN_WIDTH,
        0 <= c1 < 8,
        0 <= c2 < 8,
        c1 != c2,
    ensures
        pixel_index((x0 + c1) % (SCREEN_WIDTH as int), py) != pixel_index(
            (x0 + c2) % (SCREEN_WIDTH as int),
            py,
        ),
{
    let w = SCREEN_WIDTH as int;
    assert((x0 + c1) % w == if x0 + c1 < w {
        x0 + c1
    } else {
        x0 + c1 - w
    });
    assert((x0 + c2) % w == if x0 + c2 < w {
        x0 + c2
    } else {
        x0 + c2 - w
    });
}

/// A blitted row only changes pixels of its own grid row, and on that row
/// each pixel ends up as its old value XOR the sprite bit that lands there.
proof fn lemma_blit_row_pointwise(fb: Seq<bool>, x0: int, py: int, byte: u8, bits: int, p: int)
    requires
        fb.len() == SCREEN_PIXELS,
        0 <= x0 < SCREEN_WIDTH,
        0 <= py < SCREEN_HEIGHT,
        0 <= bits <= 8,
        0 <= p < SCREEN_PIXELS,
    ensures
        spec_blit_row(fb, x0, py, byte, bits).len() == SCREEN_PIXELS,
        spec_blit_row(fb, x0, py, byte, bits)[p] == (fb[p] ^ row_hits(x0, py, byte, bits, p)),
        !(py * (SCREEN_WIDTH as int) <= p < (py + 1) * (SCREEN_WIDTH as int)) ==> !row_hits(
            x0,
            py,
            byte,
            bits,
            p,
        ),
    decreases bits,
{
    let w = SCREEN_WIDTH as int;
    if bits <= 0 {
        assert(!row_hits(x0, py, byte, bits, p));
    } else {
        lemma_blit_row_pointwise(fb, x0, py, byte, bits - 1, p);
        let prev = spec_blit_row(fb, x0, py, byte, bits - 1);
        let c = bits - 1;
        let idx = pixel_index((x0 + c) % w, py);
        assert(0 <= (x0 + c) % w < w);
        if p == idx {
            // No earlier bit of this row lands on the same pixel.
            assert forall|c2: int| 0 <= c2 < bits - 1 implies p != #[trigger] pixel_index(
                (x0 + c2) % w,
                py,
            ) by {
                lemma_row_columns_injective(x0, py, c2, c);
            }
            assert(!row_hits(x0, py, byte, bits - 1, p));
            if row_bit(byte, c) {
                assert(row_hits(x0, py, byte, bits, p));
            } else {
                assert forall|c2: int|
                    0 <= c2 < bits && row_bit(byte, c2) implies p != #[trigger] pixel_index(
                    (x0 + c2) % w,
                    py,
                ) by {
                    if c2 < bits - 1 {
                        lemma_row_columns_injective(x0, py, c2, c);
                    }
                }
                assert(!row_hits(x0, py, byte, bits, p));
            }
        } else {
            // The last bit lands elsewhere, so the hit set does not change.
            assert(row_hits(x0, py, byte, bits - 1, p) ==> row_hits(x0, py, byte, bits, p));
            if row_hits(x0, py, byte, bits, p) {
                let c2 = choose|c2: int|
                    0 <= c2 < bits && row_bit(byte, c2) && p == pixel_index((x0 + c2) % w, py);
                assert(c2 != c);
                assert(row_hits(x0, py, byte, bits - 1, p));
            }
        }
    }
}

/// Two different sprite rows land on two different grid rows: a sprite is at
/// most fifteen rows tall on a 32-row grid.
proof fn lemma_rows_injective(y0: int, r1: int, r2: int)
    requires
        0 <= y0 < SCREEN_HEIGHT,
        0 <= r1 < 16,
        0 <= r2 < 16,
        r1 != r2,
    ensures
        (y0 + r1) % (SCREEN_HEIGHT as int) != (y0 + r2) % (SCREEN_HEIGHT as int),
{
    let h = SCREEN_HEIGHT as int;
    assert((y0 + r1) % h == if y0 + r1 < h {
        y0 + r1
    } else {
        y0 + r1 - h
    });
    assert((y0 + r2) % h == if y0 + r2 < h {
        y0 + r2
    } else {
        y0 + r2 - h
    });
}

/// Each pixel of a blitted sprite ends up as its old value XOR the sprite
/// bit that lands there; distinct sprite cells land on distinct pixels.
proof fn lemma_blit_pointwise(fb: Seq<bool>, x0: int, y0: int, rows: Seq<u8>, p: int)
    requires
        fb.len() == SCREEN_PIXELS,
        0 <= x0 < SCREEN_WIDTH,
        0 <= y0 < SCREEN_HEIGHT,
        rows.len() <= 15,
        0 <= p < SCREEN_PIXELS,
    ensures
        spec_blit(fb, x0, y0, rows).len() == SCREEN_PIXELS,
        spec_blit(fb, x0, y0, rows)[p] == (fb[p] ^ sprite_hits(x0, y0, rows, p)),
    decreases rows.len(),
{
    let h = SCREEN_HEIGHT as int;
    let w = SCREEN_WIDTH as int;
    if rows.len() == 0 {
        assert(!sprite_hits(x0, y0, rows, p));
    } else {
        let head = rows.drop_last();
        lemma_blit_pointwise(fb, x0, y0, head, p);
        let prev = spec_blit(fb, x0, y0, head);
        let r = rows.len() - 1;
        let py = (y0 + r) % h;
        lemma_blit_row_pointwise(prev, x0, py, rows.last(), 8, p);
        // A pixel is never hit both by the last row and by an earlier one.
        if row_hits(x0, py, rows.last(), 8, p) && sprite_hits(x0, y0, head, p) {
            let r2 = choose|r2: int|
                0 <= r2 < head.len() && #[trigger] row_hits(x0, (y0 + r2) % h, head[r2], 8, p);
            let py2 = (y0 + r2) % h;
            lemma_rows_injective(y0, r2, r);
            lemma_blit_row_pointwise(fb, x0, py2, head[r2], 8, p);
            assert(false);
        }
        // The hit set of all rows splits into the earlier rows and the last.
        if sprite_hits(x0, y0, rows, p) {
            let r3 = choose|r3: int|
                0 <= r3 < rows.len() && #[trigger] row_hits(x0, (y0 + r3) % h, rows[r3], 8, p);
            if r3 < rows.len() - 1 {
                assert(head[r3] == rows[r3]);
                assert(sprite_hits(x0, y0, head, p));
            } else {
                assert(row_hits(x0, py, rows.last(), 8, p));
            }
        }
        if sprite_hits(x0, y0, head, p) {
            let r4 = choose|r4: int|
                0 <= r4 < head.len() && #[trigger] row_hits(x0, (y0 + r4) % h, head[r4], 8, p);
            assert(rows[r4] == head[r4]);
            assert(sprite_hits(x0, y0, rows, p));
        }
        if row_hits(x0, py, rows.last(), 8, p) {
            assert(rows[r] == rows.last());
            assert(sprite_hits(x0, y0, rows, p));
        }
    }
}

/// A row blit erases a pixel exactly when a set sprite bit lands on a pixel
/// that was already lit before this row was blitted.
proof fn lemma_row_collision_pointwise(fb: Seq<bool>, x0: int, py: int, byte: u8, bits: int)
    requires
        fb.len() == SCREEN_PIXELS,
        0 <= x0 < SCREEN_WIDTH,
        0 <= py < SCREEN_HEIGHT,
        0 <= bits <= 8,
    ensures
        spec_row_collision(fb, x0, py, byte, bits) == exists|c: int|
            0 <= c < bits && #[trigger] row_bit(byte, c) && fb[pixel_index(
                (x0 + c) % (SCREEN_WIDTH as int),
                py,
            )],
    decreases bits,
{
    let w = SCREEN_WIDTH as int;
    if bits <= 0 {
    } else {
        lemma_row_collision_pointwise(fb, x0, py, byte, bits - 1);
        let c = bits - 1;
        let idx = pixel_index((x0 + c) % w, py);
        lemma_blit_row_pointwise(fb, x0, py, byte, bits - 1, idx);
        assert forall|c2: int| 0 <= c2 < bits - 1 implies idx != #[trigger] pixel_index(
            (x0 + c2) % w,
            py,
        ) by {
            lemma_row_columns_injective(x0, py, c2, c);
        }
        assert(!row_hits(x0, py, byte, bits - 1, idx));
        assert(spec_blit_row(fb, x0, py, byte, bits - 1)[idx] == fb[idx]);
        if spec_row_collision(fb, x0, py, byte, bits) {
            if spec_row_collision(fb, x0, py, byte, bits - 1) {
                let c2 = choose|c2: int|
                    0 <= c2 < bits - 1 && #[trigger] row_bit(byte, c2) && fb[pixel_index(
                        (x0 + c2) % w,
                        py,
                    )];
                assert(0 <= c2 < bits && row_bit(byte, c2) && fb[pixel_index((x0 + c2) % w, py)]);
            } else {
                assert(row_bit(byte, c) && fb[idx]);
            }
        }
        if exists|c2: int|
            0 <= c2 < bits && #[trigger] row_bit(byte, c2) && fb[pixel_index((x0 + c2) % w, py)] {
            let c2 = choose|c2: int|
                0 <= c2 < bits && #[trigger] row_bit(byte, c2) && fb[pixel_index(
                    (x0 + c2) % w,
                    py,
                )];
            if c2 < bits - 1 {
                assert(spec_row_collision(fb, x0, py, byte, bits - 1));
            } else {
                assert(spec_row_collision(fb, x0, py, byte, bits));
            }
        }
    }
}

/// A sprite blit reports a collision exactly when some set sprite bit lands
/// on a pixel that was lit before the blit started.
proof fn lemma_collision_pointwise(fb: Seq<bool>, x0: int, y0: int, rows: Seq<u8>)
    requires
        fb.len() == SCREEN_PIXELS,
        0 <= x0 < SCREEN_WIDTH,
        0 <= y0 < SCREEN_HEIGHT,
        rows.len() <= 15,
    ensures
        spec_collision(fb, x0, y0, rows) == exists|r: int, c: int|
            0 <= r < rows.len() && 0 <= c < 8 && #[trigger] row_bit(rows[r], c) && fb[pixel_index(
                (x0 + c) % (SCREEN_WIDTH as int),
                (y0 + r) % (SCREEN_HEIGHT as int),
            )],
    decreases rows.len(),
{
    let h = SCREEN_HEIGHT as int;
    let w = SCREEN_WIDTH as int;
    if rows.len() == 0 {
    } else {
        let head = rows.drop_last();
        lemma_collision_pointwise(fb, x0, y0, head);
        let prev = spec_blit(fb, x0, y0, head);
        let r = rows.len() - 1;
        let py = (y0 + r) % h;
        lemma_blit_pointwise(fb, x0, y0, head, 0);
        lemma_row_collision_pointwise(prev, x0, py, rows.last(), 8);
        // On the last row's band, the earlier rows changed nothing, so the
        // collision test there reads the original screen.
        assert forall|c: int| 0 <= c < 8 implies prev[pixel_index((x0 + c) % w, py)] == fb[
            #[trigger] pixel_index((x0 + c) % w, py)
        ] by {
            let p = pixel_index((x0 + c) % w, py);
            lemma_blit_pointwise(fb, x0, y0, head, p);
            if sprite_hits(x0, y0, head, p) {
                let r2 = choose|r2: int|
                    0 <= r2 < head.len() && #[trigger] row_hits(x0, (y0 + r2) % h, head[r2], 8, p);
                lemma_rows_injective(y0, r2, r);
                lemma_blit_row_pointwise(fb, x0, (y0 + r2) % h, head[r2], 8, p);
                assert(false);
            }
        }
        if spec_collision(fb, x0, y0, rows) {
            if spec_collision(fb, x0, y0, head) {
                let (r2, c2) = choose|r2: int, c2: int|
                    0 <= r2 < head.len() && 0 <= c2 < 8 && #[trigger] row_bit(head[r2], c2)
                        && fb[pixel_index((x0 + c2) % w, (y0 + r2) % h)];
                assert(row_bit(rows[r2], c2) && fb[pixel_index((x0 + c2) % w, (y0 + r2) % h)]);
            } else {
                let c2 = choose|c2: int|
                    0 <= c2 < 8 && #[trigger] row_bit(rows.last(), c2) && prev[pixel_index(
                        (x0 + c2) % w,
                        py,
                    )];
                assert(row_bit(rows[r], c2) && fb[pixel_index((x0 + c2) % w, (y0 + r) % h)]);
            }
        }
        if exists|r2: int, c2: int|
            0 <= r2 < rows.len() && 0 <= c2 < 8 && #[trigger] row_bit(rows[r2], c2)
                && fb[pixel_index((x0 + c2) % w, (y0 + r2) % h)] {
            let (r2, c2) = choose|r2: int, c2: int|
                0 <= r2 < rows.len() && 0 <= c2 < 8 && #[trigger] row_bit(rows[r2], c2)
                    && fb[pixel_index((x0 + c2) % w, (y0 + r2) % h)];
            if r2 < rows.len() - 1 {
                assert(row_bit(head[r2], c2) && fb[pixel_index((x0 + c2) % w, (y0 + r2) % h)]);
                assert(spec_collision(fb, x0, y0, head));
            } else {
                assert(prev[pixel_index((x0 + c2) % w, py)] == fb[pixel_index((x0 + c2) % w, py)]);
                assert(spec_row_collision(prev, x0, py, rows.last(), 8));
            }
        }
    }
}

/// Blitting the same sprite twice at the same coordinates restores every
/// pixel: the XOR blit is its own inverse, so the second draw erases exactly
/// what the first drew — whatever was on the screen before.
pub proof fn lemma_blit_involution(fb: Seq<bool>, x0: int, y0: int, rows: Seq<u8>)
    requires
        fb.len() == SCREEN_PIXELS,
        0 <= x0 < SCREEN_WIDTH,
        0 <= y0 < SCREEN_HEIGHT,
        rows.len() <= 15,
    ensures
        spec_blit(spec_blit(fb, x0, y0, rows), x0, y0, rows) == fb,
{
    let fb1 = spec_blit(fb, x0, y0, rows);
    lemma_blit_pointwise(fb, x0, y0, rows, 0);
    assert forall|p: int| 0 <= p < SCREEN_PIXELS implies spec_blit(fb1, x0, y0, rows)[p] == fb[
        p
    ] by {
        lemma_blit_pointwise(fb, x0, y0, rows, p);
        lemma_blit_pointwise(fb1, x0, y0, rows, p);
    }
    lemma_blit_pointwise(fb1, x0, y0, rows, 0);
    assert(spec_blit(fb1, x0, y0, rows) =~= fb);
}

/// On a cleared screen, the first draw of a sprite reports no collision, and
/// drawing the same non-zero sprite again at the same coordinates reports a
/// collision and leaves the screen cleared again.
pub proof fn lemma_second_draw_collides(x0: int, y0: int, rows: Seq<u8>)
    requires
        0 <= x0 < SCREEN_WIDTH,
        0 <= y0 < SCREEN_HEIGHT,
        rows.len() <= 15,
        exists|r: int, c: int| 0 <= r < rows.len() && 0 <= c < 8 && #[trigger] row_bit(rows[r], c),
    ensures
        !spec_collision(all_clear(), x0, y0, rows),
        spec_collision(spec_blit(all_clear(), x0, y0, rows), x0, y0, rows),
        spec_blit(spec_blit(all_clear(), x0, y0, rows), x0, y0, rows) == all_clear(),
{
    let h = SCREEN_HEIGHT as int;
    let w = SCREEN_WIDTH as int;
    let fb1 = spec_blit(all_clear(), x0, y0, rows);
    lemma_blit_pointwise(all_clear(), x0, y0, rows, 0);
    lemma_blit_involution(all_clear(), x0, y0, rows);
    lemma_collision_pointwise(all_clear(), x0, y0, rows);
    lemma_collision_pointwise(fb1, x0, y0, rows);
    let (r, c) = choose|r: int, c: int|
        0 <= r < rows.len() && 0 <= c < 8 && #[trigger] row_bit(rows[r], c);
    let p = pixel_index((x0 + c) % w, (y0 + r) % h);
    assert(0 <= (x0 + c) % w < w);
    assert(0 <= (y0 + r) % h < h);
    lemma_blit_pointwise(all_clear(), x0, y0, rows, p);
    assert(row_hits(x0, (y0 + r) % h, rows[r], 8, p));
    assert(sprite_hits(x0, y0, rows, p));
    assert(fb1[p]);
}

/// The 64x32 one-bit pixel grid, mutated only by whole-screen clears and by
/// sprite XOR-blits.
pub struct Framebuffer {
    px: Vec<bool>,
}

impl View for Framebuffer {
    type V = Seq<bool>;

    closed spec fn view(&self) -> Seq<bool> {
        self.px@
    }
}

impl Framebuffer {
    pub open spec fn wf(&self) -> bool {
        self@.len() == SCREEN_PIXELS
    }

    /// Fresh, all-dark screen.
    pub fn new() -> (fb: Framebuffer)
        ensures
            fb.wf(),
            fb@ == all_clear(),
    {
        let mut px: Vec<bool> = Vec::new();
        let mut k: usize = 0;
        while k < SCREEN_PIXELS
            invariant
                k <= SCREEN_PIXELS,
                px@.len() == k,
                forall|j: int| 0 <= j < k ==> px@[j] == false,
            decreases SCREEN_PIXELS - k,
        {
            px.push(false);
            k += 1;
        }
        let fb = Framebuffer { px };
        proof {
            assert(fb@ =~= all_clear());
        }
        fb
    }

    /// Turn every pixel off. Whatever was drawn before, the screen afterwards
    /// is all dark.
    pub fn clear(&mut self)
        requires
            old(self).wf(),
        ensures
            final(self).wf(),
            final(self)@ == all_clear(),
    {
        let mut k: usize = 0;
        while k < SCREEN_PIXELS
            invariant
                k <= SCREEN_PIXELS,
                self@.len() == SCREEN_PIXELS,
                forall|j: int| 0 <= j < k ==> self@[j] == false,
            decreases SCREEN_PIXELS - k,
        {
            self.px.set(k, false);
            k += 1;
        }
        proof {
            assert(self@ =~= all_clear());
        }
    }

    /// Whether the pixel at (`x`, `y`) is lit.
    pub fn pixel(&self, x: usize, y: usize) -> (lit: bool)
        requires
            self.wf(),
            x < SCREEN_WIDTH,
            y < SCREEN_HEIGHT,
        ensures
            lit == self@[pixel_index(x as int, y as int)],
    {
        self.px[y * SCREEN_WIDTH + x]
    }

    /// XOR-blit the sprite `rows` with its top-left corner at
    /// (`x` mod 64, `y` mod 32). Each row wraps horizontally; rows past the
    /// bottom of the grid wrap back to the top. Returns whether any pixel
    /// flipped from set to unset.
    pub fn draw_sprite(&mut self, x: u8, y: u8, rows: &Vec<u8>) -> (collision: bool)
        requires
            old(self).wf(),
            rows@.len() <= 15,  // a sprite height is a nibble of the opcode
        ensures
            final(self).wf(),
            final(self)@ == spec_blit(
                old(self)@,
                x as int % (SCREEN_WIDTH as int),
                y as int % (SCREEN_HEIGHT as int),
                rows@,
            ),
            collision == spec_collision(
                old(self)@,
                x as int % (SCREEN_WIDTH as int),
                y as int % (SCREEN_HEIGHT as int),
                rows@,
            ),
    {
        let x0 = (x as usize) % SCREEN_WIDTH;
        let y0 = (y as usize) % SCREEN_HEIGHT;
        let ghost orig = self@;
        let mut collision = false;
        let mut r: usize = 0;
        while r < rows.len()
            invariant
                self.wf(),
                r <= rows@.len(),
                rows@.len() <= 15,
                x0 < SCREEN_WIDTH,
                y0 < SCREEN_HEIGHT,
                self@ == spec_blit(orig, x0 as int, y0 as int, rows@.take(r as int)),
                collision == spec_collision(orig, x0 as int, y0 as int, rows@.take(r as int)),
            decreases rows@.len() - r,
        {
            let py = (y0 + r) % SCREEN_HEIGHT;
            let byte = rows[r];
            let ghost row_base = self@;
            let mut c: usize = 0;
            while c < 8
                invariant
                    self.wf(),
                    c <= 8,
                    x0 < SCREEN_WIDTH,
                    py < SCREEN_HEIGHT,
                    self@ == spec_blit_row(row_base, x0 as int, py as int, byte, c as int),
                    collision == (spec_collision(orig, x0 as int, y0 as int, rows@.take(r as int))
                        || spec_row_collision(row_base, x0 as int, py as int, byte, c as int)),
                decreases 8 - c,
            {
                let px_col = (x0 + c) % SCREEN_WIDTH;
                let idx = py * SCREEN_WIDTH + px_col;
                assert(idx < SCREEN_PIXELS);
                let was_lit = self.px[idx];
                let bit = (byte >> (7 - c) as u8) & 1 == 1;
                self.px.set(idx, was_lit ^ bit);
                if bit && was_lit {
                    collision = true;
                }
                c += 1;
            }
            r += 1;
            proof {
                assert(rows@.take(r as int).drop_last() =~= rows@.take(r as int - 1));
                assert(rows@.take(r as int).last() == rows@[r as int - 1]);
            }
        }
        proof {
            assert(rows@.take(rows@.len() as int) =~= rows@);
        }
        collision
    }
}

} // verus!
