//! The 64x32 monochrome framebuffer: row-major bit grid, full clear, and the
//! XOR sprite-row compositor with collision detection. Columns wrap around
//! the right edge; a row below the bottom edge is clipped (nothing is drawn
//! and no collision is reported).

use vstd::prelude::*;

verus! {

/// Bit `i` of a sprite byte, most significant first: bit 0 is the leftmost
/// pixel of the row.
pub open spec fn sprite_bit(b: u8, i: int) -> bool {
    (b >> ((7 - i) as u8)) & 1 == 1
}

/// The column that pixel offset `i` of a sprite row drawn at `x` lands in:
/// `(x + i) mod 64`, so a row starting near the right edge wraps to the
/// left edge.
pub open spec fn wrap_col(x: u8, i: int) -> int {
    if (x as int) % 64 + i < 64 {
        (x as int) % 64 + i
    } else {
        (x as int) % 64 + i - 64
    }
}

/// The flat, row-major index of the cell that pixel offset `i` of a sprite
/// row at `(x, y)` lands in.
pub open spec fn blit_index(x: u8, y: int, i: int) -> int {
    y * 64 + wrap_col(x, i)
}

/// The framebuffer after the first `k` pixels of a sprite row `b` have been
/// composited at `(x, y)`: each set sprite bit toggles its target cell (XOR
/// with the previous contents). Off-screen rows (`y` outside [0, 32)) change
/// nothing.
pub open spec fn spec_blit_upto(fb: Seq<bool>, x: u8, y: int, b: u8, k: int) -> Seq<bool>
    decreases k,
{
    if k <= 0 {
        fb
    } else {
        let prev = spec_blit_upto(fb, x, y, b, k - 1);
        if 0 <= y < 32 && sprite_bit(b, k - 1) {
            prev.update(blit_index(x, y, k - 1), !prev[blit_index(x, y, k - 1)])
        } else {
            prev
        }
    }
}

/// The framebuffer after a whole 8-pixel sprite row has been composited.
pub open spec fn spec_blit_row(fb: Seq<bool>, x: u8, y: int, b: u8) -> Seq<bool> {
    spec_blit_upto(fb, x, y, b, 8)
}

/// Whether any of the first `k` pixels of the row collides: a set sprite bit
/// meeting a cell that was already set when that pixel was drawn.
pub open spec fn spec_coll_upto(fb: Seq<bool>, x: u8, y: int, b: u8, k: int) -> bool
    decreases k,
{
    if k <= 0 {
        false
    } else {
        spec_coll_upto(fb, x, y, b, k - 1) || (0 <= y < 32 && sprite_bit(b, k - 1)
            && spec_blit_upto(fb, x, y, b, k - 1)[blit_index(x, y, k - 1)])
    }
}

/// Whether compositing a whole sprite row turns any previously-set cell off:
/// the collision flag the blit reports.
pub open spec fn spec_row_collision(fb: Seq<bool>, x: u8, y: int, b: u8) -> bool {
    spec_coll_upto(fb, x, y, b, 8)
}

/// The 64x32 bit grid, stored row-major: cell `(x, y)` lives at `y * 64 + x`.
pub struct Display {
    pub grid: Vec<bool>,
}

impl View for Display {
    type V = Seq<bool>;

    open spec fn view(&self) -> Seq<bool> {
        self.grid@
    }
}

impl Display {
    /// The grid always holds exactly 64 * 32 cells.
    pub open spec fn wf(&self) -> bool {
        self.grid.len() == 2048
    }

    /// A cleared framebuffer: every cell off.
    pub fn new() -> (d: Display)
        ensures
            d.wf(),
            d@.len() == 2048,
            forall|i: int| 0 <= i < 2048 ==> d@[i] == false,
    {
        let mut grid: Vec<bool> = Vec::new();
        let mut k: usize = 0;
        while k < 2048
            invariant
                k <= 2048,
                grid@.len() == k,
                forall|i: int| 0 <= i < k ==> grid@[i] == false,
            decreases 2048 - k,
        {
            grid.push(false);
            k += 1;
        }
        Display { grid }
    }

    /// Writes one cell.
    pub fn set(&mut self, x: usize, y: usize, value: bool)
        requires
            old(self).wf(),
            x < 64,
            y < 32,
        ensures
            final(self).wf(),
            final(self)@ == old(self)@.update(y * 64 + x, value),
    {
        self.grid[y * 64 + x] = value;
    }

    /// Reads one cell.
    pub fn get(&self, x: usize, y: usize) -> (r: bool)
        requires
            self.wf(),
            x < 64,
            y < 32,
        ensures
            r == self@[y * 64 + x],
    {
        self.grid[y * 64 + x]
    }

    /// The whole grid, read-only, row-major.
    pub fn inner(&self) -> (r: &Vec<bool>)
        ensures
            r@ == self@,
    {
        &self.grid
    }

    /// The whole grid, writable, row-major.
    pub fn inner_mut(&mut self) -> (r: &mut Vec<bool>)
        ensures
            r@ == old(self)@,
            final(self)@ == final(r)@,
            final(r)@.len() == 2048 ==> final(self).wf(),
    {
        &mut self.grid
    }

    /// Drawing happens straight into the grid; presenting it is the host's
    /// part, so there is nothing to flush here.
    pub fn render(&mut self)
        ensures
            *final(self) == *old(self),
    {
    }

    /// The grid is 64 cells wide.
    pub fn width(&self) -> (r: u8)
        ensures
            r == 64,
    {
        64
    }

    /// The grid is 32 cells high.
    pub fn height(&self) -> (r: u8)
        ensures
            r == 32,
    {
        32
    }

    /// Turns every cell off.
    pub fn clear(&mut self)
        requires
            old(self).wf(),
        ensures
            final(self).wf(),
            final(self)@.len() == 2048,
            forall|i: int| 0 <= i < 2048 ==> final(self)@[i] == false,
    {
        let mut k: usize = 0;
        while k < 2048
            invariant
                k <= 2048,
                self.wf(),
                forall|i: int| 0 <= i < k ==> self.grid@[i] == false,
            decreases 2048 - k,
        {
            self.grid[k] = false;
            k += 1;
        }
    }

    /// Composites one 8-pixel sprite row at `(x, y)`, most significant bit
    /// leftmost. Each set sprite bit toggles its cell; columns wrap modulo
    /// 64. The collision register is set to 1 when some set bit lands on a
    /// cell that was already on, and to 0 otherwise. A row at `y >= 32` is
    /// clipped: nothing is drawn and no collision is reported.
    pub fn render_sprite_byte_at(&mut self, x: u8, y: u8, sprite_data: u8, collision_reg: &mut u8)
        requires
            old(self).wf(),
        ensures
            final(self).wf(),
            final(self)@ == spec_blit_row(old(self)@, x, y as int, sprite_data),
            *final(collision_reg) == (if spec_row_collision(old(self)@, x, y as int, sprite_data) {
                1u8
            } else {
                0u8
            }),
    {
        if y >= 32 {
            *collision_reg = 0;
            proof {
                lemma_blit_oob(self.grid@, x, y as int, sprite_data, 8);
            }
            return;
        }
        let x0 = (x % 64) as usize;
        let mut collision = false;
        let mut i: usize = 0;
        while i < 8
            invariant
                i <= 8,
                y < 32,
                x0 == (x as int) % 64,
                self.wf(),
                old(self).wf(),
                self.grid@ == spec_blit_upto(old(self).grid@, x, y as int, sprite_data, i as int),
                collision == spec_coll_upto(old(self).grid@, x, y as int, sprite_data, i as int),
            decreases 8 - i,
        {
            let sh = (7 - i) as u8;
            let bit = (sprite_data >> sh) & 1 == 1;
            let col = if x0 + i < 64 {
                x0 + i
            } else {
                x0 + i - 64
            };
            let idx = (y as usize) * 64 + col;
            let cur = self.grid[idx];
            let ghost prev = self.grid@;
            self.grid[idx] = bit != cur;
            collision = collision || (cur && bit);
            proof {
                assert(col == wrap_col(x, i as int));
                assert(idx == blit_index(x, y as int, i as int));
                assert(bit == sprite_bit(sprite_data, i as int));
                if bit {
                    assert(self.grid@ == prev.update(idx as int, !prev[idx as int]));
                } else {
                    assert(self.grid@ =~= prev);
                }
                assert(self.grid@ == spec_blit_upto(
                    old(self).grid@, x, y as int, sprite_data, i + 1));
            }
            i += 1;
        }
        *collision_reg = if collision {
            1
        } else {
            0
        };
    }
}

/// Off-screen rows leave the framebuffer untouched whatever the sprite byte.
pub proof fn lemma_blit_oob(fb: Seq<bool>, x: u8, y: int, b: u8, k: int)
    requires
        !(0 <= y < 32),
    ensures
        spec_blit_upto(fb, x, y, b, k) == fb,
        !spec_coll_upto(fb, x, y, b, k),
    decreases k,
{
    if k > 0 {
        lemma_blit_oob(fb, x, y, b, k - 1);
    }
}

/// Two distinct pixel offsets of one sprite row always land in distinct
/// cells: the eight wrapped columns never overlap.
pub proof fn lemma_blit_index_distinct(x: u8, y: int, i1: int, i2: int)
    requires
        0 <= i1 < 8,
        0 <= i2 < 8,
        i1 != i2,
    ensures
        blit_index(x, y, i1) != blit_index(x, y, i2),
{
}

/// The target cells of a sprite row stay inside the grid.
pub proof fn lemma_blit_index_bounds(x: u8, y: int, i: int)
    requires
        0 <= y < 32,
        0 <= i < 8,
    ensures
        0 <= blit_index(x, y, i) < 2048,
{
}

/// The wrapped column really is `(x + i) mod 64`: a sprite row that starts
/// near the right edge continues at the left edge instead of faulting.
pub proof fn lemma_wrap_col_mod(x: u8, i: int)
    requires
        0 <= i < 8,
    ensures
        wrap_col(x, i) == ((x as int) + i) % 64,
{
    let q = (x as int) / 64;
    let r = (x as int) % 64;
    vstd::arithmetic::div_mod::lemma_fundamental_div_mod(x as int, 64);
    vstd::arithmetic::div_mod::lemma_mod_bound(x as int, 64);
    if r + i < 64 {
        vstd::arithmetic::div_mod::lemma_fundamental_div_mod_converse(x as int + i, 64, q, r + i);
    } else {
        vstd::arithmetic::div_mod::lemma_fundamental_div_mod_converse(
            x as int + i,
            64,
            q + 1,
            r + i - 64,
        );
    }
}

/// What a finished blit holds, cell by cell: a cell is toggled exactly when
/// some set sprite bit lands on it, and every other cell keeps its value.
pub proof fn lemma_blit_upto_cells(fb: Seq<bool>, x: u8, y: int, b: u8, k: int, j: int)
    requires
        fb.len() == 2048,
        0 <= y < 32,
        0 <= k <= 8,
        0 <= j < 2048,
    ensures
        spec_blit_upto(fb, x, y, b, k).len() == 2048,
        spec_blit_upto(fb, x, y, b, k)[j] == (fb[j] != (exists|i: int|
            0 <= i < k && sprite_bit(b, i) && j == blit_index(x, y, i))),
    decreases k,
{
    if k > 0 {
        lemma_blit_upto_cells(fb, x, y, b, k - 1, j);
        let prev = spec_blit_upto(fb, x, y, b, k - 1);
        lemma_blit_index_bounds(x, y, k - 1);
        if sprite_bit(b, k - 1) && j == blit_index(x, y, k - 1) {
            assert forall|i: int| 0 <= i < k - 1 implies !(sprite_bit(b, i)
                && j == blit_index(x, y, i)) by {
                lemma_blit_index_distinct(x, y, i, k - 1);
            }
            assert(!(exists|i: int| 0 <= i < k - 1 && sprite_bit(b, i)
                && j == blit_index(x, y, i)));
            assert(exists|i: int| 0 <= i < k && sprite_bit(b, i) && j == blit_index(x, y, i)) by {
                assert(sprite_bit(b, k - 1) && j == blit_index(x, y, k - 1));
            }
        } else {
            if exists|i: int| 0 <= i < k && sprite_bit(b, i) && j == blit_index(x, y, i) {
                let i = choose|i: int| 0 <= i < k && sprite_bit(b, i) && j == blit_index(x, y, i);
                assert(i != k - 1 || !(sprite_bit(b, k - 1) && j == blit_index(x, y, k - 1)));
                assert(exists|i0: int| 0 <= i0 < k - 1 && sprite_bit(b, i0)
                    && j == blit_index(x, y, i0)) by {
                    if i != k - 1 {
                        assert(0 <= i < k - 1 && sprite_bit(b, i) && j == blit_index(x, y, i));
                    }
                }
            }
        }
    }
}

/// The first `k` pixels of a row collide exactly when one of them is a set
/// sprite bit whose target cell was already set before the blit began: the
/// pixels drawn earlier in the same row never disturb the cells the later
/// ones read, because the eight target cells are distinct.
pub proof fn lemma_coll_upto_cells(fb: Seq<bool>, x: u8, y: int, b: u8, k: int)
    requires
        fb.len() == 2048,
        0 <= y < 32,
        0 <= k <= 8,
    ensures
        spec_coll_upto(fb, x, y, b, k) == (exists|i: int|
            0 <= i < k && sprite_bit(b, i) && fb[blit_index(x, y, i)]),
    decreases k,
{
    if k > 0 {
        lemma_coll_upto_cells(fb, x, y, b, k - 1);
        lemma_blit_index_bounds(x, y, k - 1);
        lemma_blit_upto_cells(fb, x, y, b, k - 1, blit_index(x, y, k - 1));
        assert forall|i: int| 0 <= i < k - 1 implies #[trigger] blit_index(x, y, i)
            != blit_index(x, y, k - 1) by {
            lemma_blit_index_distinct(x, y, i, k - 1);
        }
        // the cell pixel k-1 reads still holds its pre-blit value
        assert(spec_blit_upto(fb, x, y, b, k - 1)[blit_index(x, y, k - 1)] == fb[blit_index(
            x,
            y,
            k - 1,
        )]);
        if spec_coll_upto(fb, x, y, b, k) {
            if spec_coll_upto(fb, x, y, b, k - 1) {
                let i = choose|i: int|
                    0 <= i < k - 1 && sprite_bit(b, i) && fb[blit_index(x, y, i)];
                assert(0 <= i < k && sprite_bit(b, i) && fb[blit_index(x, y, i)]);
            } else {
                assert(sprite_bit(b, k - 1) && fb[blit_index(x, y, k - 1)]);
            }
        }
        if exists|i: int| 0 <= i < k && sprite_bit(b, i) && fb[blit_index(x, y, i)] {
            let i = choose|i: int| 0 <= i < k && sprite_bit(b, i) && fb[blit_index(x, y, i)];
            if i < k - 1 {
                assert(exists|i0: int|
                    0 <= i0 < k - 1 && sprite_bit(b, i0) && fb[blit_index(x, y, i0)]);
            }
        }
    }
}

/// The collision flag of a whole row, over the framebuffer as it stood
/// before the blit: some set sprite bit lands on a cell that was on.
pub proof fn lemma_row_collision_cells(fb: Seq<bool>, x: u8, y: int, b: u8)
    requires
        fb.len() == 2048,
        0 <= y < 32,
    ensures
        spec_row_collision(fb, x, y, b) == (exists|i: int|
            0 <= i < 8 && sprite_bit(b, i) && fb[blit_index(x, y, i)]),
{
    lemma_coll_upto_cells(fb, x, y, b, 8);
}

/// Compositing the same sprite row twice restores the framebuffer: XOR of
/// XOR is the identity, cell by cell.
pub proof fn lemma_blit_involution(fb: Seq<bool>, x: u8, y: int, b: u8)
    requires
        fb.len() == 2048,
    ensures
        spec_blit_row(spec_blit_row(fb, x, y, b), x, y, b) == fb,
{
    if 0 <= y < 32 {
        let fb1 = spec_blit_row(fb, x, y, b);
        let fb2 = spec_blit_row(fb1, x, y, b);
        assert forall|j: int| 0 <= j < 2048 implies fb2[j] == fb[j] by {
            lemma_blit_upto_cells(fb, x, y, b, 8, j);
            lemma_blit_upto_cells(fb1, x, y, b, 8, j);
        }
        // the two blits also keep the length at 2048
        lemma_blit_upto_cells(fb, x, y, b, 8, 0);
        lemma_blit_upto_cells(fb1, x, y, b, 8, 0);
        assert(fb2 =~= fb);
    } else {
        lemma_blit_oob(fb, x, y, b, 8);
        lemma_blit_oob(spec_blit_row(fb, x, y, b), x, y, b, 8);
    }
}

} // verus!
