//! The 64x32 monochrome display buffer and the XOR sprite-drawing rule.
//!
//! The buffer stores one byte per pixel, row-major (`index = x + y * 64`),
//! each byte 0 or 1.  Sprites are eight pixels wide and up to fifteen rows
//! tall; a set sprite bit toggles the pixel under it, and coordinates
//! that run past an edge wrap to the opposite edge.

use vstd::prelude::*;

verus! {

/// The all-zero display buffer.
pub open spec fn blank_buffer() -> Seq<u8> {
    Seq::new(2048, |p: int| 0u8)
}

/// Whether bit `j` of a sprite row byte is set, counting the
/// most significant bit as column 0.
pub open spec fn sprite_row_bit(row: u8, j: int) -> bool {
    row & (0x80u8 >> (j as u8)) != 0
}

/// Column of the screen hit by sprite column `j` drawn from origin
/// column `x0`, wrapping at the right edge (valid for `x0 < 64`,
/// `j < 8`).
pub open spec fn wrap_col(x0: int, j: int) -> int {
    if x0 + j < 64 {
        x0 + j
    } else {
        x0 + j - 64
    }
}

/// Row of the screen hit by sprite row `i` drawn from origin row `y0`,
/// wrapping at the bottom edge (valid for `y0 < 32`, `i < 32`).
pub open spec fn wrap_row(y0: int, i: int) -> int {
    if y0 + i < 32 {
        y0 + i
    } else {
        y0 + i - 32
    }
}

/// The sprite column that lands on screen column `px` when drawing from
/// origin column `x0`: the inverse of [`wrap_col`] (valid for
/// `x0 < 64`, `px < 64`).
pub open spec fn col_offset(x0: int, px: int) -> int {
    if px >= x0 {
        px - x0
    } else {
        px + 64 - x0
    }
}

/// The sprite row that lands on screen row `py` when drawing from origin
/// row `y0`: the inverse of [`wrap_row`] (valid for `y0 < 32`,
/// `py < 32`).
pub open spec fn row_offset(y0: int, py: int) -> int {
    if py >= y0 {
        py - y0
    } else {
        py + 32 - y0
    }
}

/// Whether drawing an `n`-row sprite fetched from `mem` at `base`, with
/// its origin at `(x0, y0)`, toggles the pixel `(px, py)`.
pub open spec fn sprite_hits(
    mem: Seq<u8>,
    base: int,
    x0: int,
    y0: int,
    n: int,
    px: int,
    py: int,
) -> bool {
    let j = col_offset(x0, px);
    let i = row_offset(y0, py);
    i < n && j < 8 && sprite_row_bit(mem[base + i], j)
}

/// The display buffer after the draw: every pixel the sprite hits
/// toggles, every other pixel keeps its value.
pub open spec fn draw_buf(
    buf: Seq<u8>,
    mem: Seq<u8>,
    base: int,
    x0: int,
    y0: int,
    n: int,
) -> Seq<u8> {
    Seq::new(
        2048,
        |p: int|
            if sprite_hits(mem, base, x0, y0, n, p % 64, p / 64) {
                (1 - buf[p]) as u8
            } else {
                buf[p]
            },
    )
}

/// Whether the draw toggles some pixel that was already set: the
/// collision condition reported in the flag register.
pub open spec fn draw_collision(
    buf: Seq<u8>,
    mem: Seq<u8>,
    base: int,
    x0: int,
    y0: int,
    n: int,
) -> bool {
    exists|px: int, py: int|
        0 <= px < 64 && 0 <= py < 32 && sprite_hits(mem, base, x0, y0, n, px, py) && buf[py * 64
            + px] == 1
}

/// Whether the draw turns some pixel on that was off before it.
pub open spec fn draw_sets_pixel(
    buf: Seq<u8>,
    mem: Seq<u8>,
    base: int,
    x0: int,
    y0: int,
    n: int,
) -> bool {
    exists|px: int, py: int|
        0 <= px < 64 && 0 <= py < 32 && sprite_hits(mem, base, x0, y0, n, px, py) && buf[py * 64
            + px] == 0
}

/// [`sprite_hits`] restricted to the part of the sprite already
/// processed by the drawing loop: the first `rows` full rows, plus the
/// first `cols` columns of row `rows`.
pub open spec fn sprite_hits_upto(
    mem: Seq<u8>,
    base: int,
    x0: int,
    y0: int,
    n: int,
    rows: int,
    cols: int,
    px: int,
    py: int,
) -> bool {
    let j = col_offset(x0, px);
    let i = row_offset(y0, py);
    (i < rows || (i == rows && j < cols)) && i < n && j < 8 && sprite_row_bit(mem[base + i], j)
}

/// [`draw_buf`] restricted to the part of the sprite already processed.
pub open spec fn draw_buf_upto(
    buf: Seq<u8>,
    mem: Seq<u8>,
    base: int,
    x0: int,
    y0: int,
    n: int,
    rows: int,
    cols: int,
) -> Seq<u8> {
    Seq::new(
        2048,
        |p: int|
            if sprite_hits_upto(mem, base, x0, y0, n, rows, cols, p % 64, p / 64) {
                (1 - buf[p]) as u8
            } else {
                buf[p]
            },
    )
}

/// [`draw_collision`] restricted to the part of the sprite already
/// processed.
pub open spec fn draw_collision_upto(
    buf: Seq<u8>,
    mem: Seq<u8>,
    base: int,
    x0: int,
    y0: int,
    n: int,
    rows: int,
    cols: int,
) -> bool {
    exists|px: int, py: int|
        0 <= px < 64 && 0 <= py < 32 && sprite_hits_upto(mem, base, x0, y0, n, rows, cols, px, py)
            && buf[py * 64 + px] == 1
}

/// Two cuts of the sprite that hit the same pixels toggle the same
/// buffer and collide under the same conditions.
pub proof fn lemma_upto_same(
    buf: Seq<u8>,
    mem: Seq<u8>,
    base: int,
    x0: int,
    y0: int,
    n: int,
    r1: int,
    c1: int,
    r2: int,
    c2: int,
)
    requires
        forall|qx: int, qy: int|
            0 <= qx < 64 && 0 <= qy < 32 ==> sprite_hits_upto(
                mem,
                base,
                x0,
                y0,
                n,
                r1,
                c1,
                qx,
                qy,
            ) == sprite_hits_upto(mem, base, x0, y0, n, r2, c2, qx, qy),
    ensures
        draw_buf_upto(buf, mem, base, x0, y0, n, r1, c1) == draw_buf_upto(
            buf,
            mem,
            base,
            x0,
            y0,
            n,
            r2,
            c2,
        ),
        draw_collision_upto(buf, mem, base, x0, y0, n, r1, c1) == draw_collision_upto(
            buf,
            mem,
            base,
            x0,
            y0,
            n,
            r2,
            c2,
        ),
{
    assert forall|p: int| 0 <= p < 2048 implies draw_buf_upto(buf, mem, base, x0, y0, n, r1, c1)[p]
        == draw_buf_upto(buf, mem, base, x0, y0, n, r2, c2)[p] by {
        assert(0 <= p % 64 < 64 && 0 <= p / 64 < 32);
    }
    assert(draw_buf_upto(buf, mem, base, x0, y0, n, r1, c1) =~= draw_buf_upto(
        buf,
        mem,
        base,
        x0,
        y0,
        n,
        r2,
        c2,
    ));
    if draw_collision_upto(buf, mem, base, x0, y0, n, r1, c1) {
        let (px, py): (int, int) = choose|px: int, py: int|
            0 <= px < 64 && 0 <= py < 32 && sprite_hits_upto(
                mem,
                base,
                x0,
                y0,
                n,
                r1,
                c1,
                px,
                py,
            ) && buf[py * 64 + px] == 1;
        assert(sprite_hits_upto(mem, base, x0, y0, n, r2, c2, px, py));
        assert(draw_collision_upto(buf, mem, base, x0, y0, n, r2, c2));
    }
    if draw_collision_upto(buf, mem, base, x0, y0, n, r2, c2) {
        let (px, py): (int, int) = choose|px: int, py: int|
            0 <= px < 64 && 0 <= py < 32 && sprite_hits_upto(
                mem,
                base,
                x0,
                y0,
                n,
                r2,
                c2,
                px,
                py,
            ) && buf[py * 64 + px] == 1;
        assert(sprite_hits_upto(mem, base, x0, y0, n, r1, c1, px, py));
        assert(draw_collision_upto(buf, mem, base, x0, y0, n, r1, c1));
    }
}

/// Before any sprite row is processed nothing is hit: the buffer reads
/// back unchanged and no collision has happened.
pub proof fn lemma_upto_start(buf: Seq<u8>, mem: Seq<u8>, base: int, x0: int, y0: int, n: int)
    requires
        buf.len() == 2048,
        0 <= x0 < 64,
        0 <= y0 < 32,
    ensures
        draw_buf_upto(buf, mem, base, x0, y0, n, 0, 0) == buf,
        !draw_collision_upto(buf, mem, base, x0, y0, n, 0, 0),
{
    assert forall|qx: int, qy: int| 0 <= qx < 64 && 0 <= qy < 32 implies !sprite_hits_upto(
        mem,
        base,
        x0,
        y0,
        n,
        0,
        0,
        qx,
        qy,
    ) by {
        assert(col_offset(x0, qx) >= 0 && row_offset(y0, qy) >= 0);
    }
    assert forall|p: int| 0 <= p < 2048 implies draw_buf_upto(buf, mem, base, x0, y0, n, 0, 0)[p]
        == buf[p] by {
        assert(0 <= p % 64 < 64 && 0 <= p / 64 < 32);
        assert(!sprite_hits_upto(mem, base, x0, y0, n, 0, 0, p % 64, p / 64));
    }
    assert(draw_buf_upto(buf, mem, base, x0, y0, n, 0, 0) =~= buf);
}

/// Finishing the last row means the whole sprite is processed.
pub proof fn lemma_upto_full(buf: Seq<u8>, mem: Seq<u8>, base: int, x0: int, y0: int, n: int)
    ensures
        draw_buf_upto(buf, mem, base, x0, y0, n, n, 0) == draw_buf(buf, mem, base, x0, y0, n),
        draw_collision_upto(buf, mem, base, x0, y0, n, n, 0) == draw_collision(
            buf,
            mem,
            base,
            x0,
            y0,
            n,
        ),
{
    assert forall|p: int| 0 <= p < 2048 implies draw_buf_upto(buf, mem, base, x0, y0, n, n, 0)[p]
        == draw_buf(buf, mem, base, x0, y0, n)[p] by {
    }
    assert(draw_buf_upto(buf, mem, base, x0, y0, n, n, 0) =~= draw_buf(buf, mem, base, x0, y0, n));
    if draw_collision_upto(buf, mem, base, x0, y0, n, n, 0) {
        let (px, py): (int, int) = choose|px: int, py: int|
            0 <= px < 64 && 0 <= py < 32 && sprite_hits_upto(
                mem,
                base,
                x0,
                y0,
                n,
                n,
                0,
                px,
                py,
            ) && buf[py * 64 + px] == 1;
        assert(sprite_hits(mem, base, x0, y0, n, px, py));
        assert(draw_collision(buf, mem, base, x0, y0, n));
    }
    if draw_collision(buf, mem, base, x0, y0, n) {
        let (px, py): (int, int) = choose|px: int, py: int|
            0 <= px < 64 && 0 <= py < 32 && sprite_hits(mem, base, x0, y0, n, px, py) && buf[py
                * 64 + px] == 1;
        assert(sprite_hits_upto(mem, base, x0, y0, n, n, 0, px, py));
        assert(draw_collision_upto(buf, mem, base, x0, y0, n, n, 0));
    }
}

/// A full row of eight processed columns is the same cut as the start
/// of the next row.
pub proof fn lemma_upto_row_done(
    buf: Seq<u8>,
    mem: Seq<u8>,
    base: int,
    x0: int,
    y0: int,
    n: int,
    row: int,
)
    requires
        0 <= x0 < 64,
        0 <= y0 < 32,
    ensures
        draw_buf_upto(buf, mem, base, x0, y0, n, row, 8) == draw_buf_upto(
            buf,
            mem,
            base,
            x0,
            y0,
            n,
            row + 1,
            0,
        ),
        draw_collision_upto(buf, mem, base, x0, y0, n, row, 8) == draw_collision_upto(
            buf,
            mem,
            base,
            x0,
            y0,
            n,
            row + 1,
            0,
        ),
{
    assert forall|qx: int, qy: int| 0 <= qx < 64 && 0 <= qy < 32 implies sprite_hits_upto(
        mem,
        base,
        x0,
        y0,
        n,
        row,
        8,
        qx,
        qy,
    ) == sprite_hits_upto(mem, base, x0, y0, n, row + 1, 0, qx, qy) by {
    }
    lemma_upto_same(buf, mem, base, x0, y0, n, row, 8, row + 1, 0);
}

/// Processing one more sprite column changes the hit set in exactly one
/// pixel: the one under that column, and only when its sprite bit is
/// set.
pub proof fn lemma_upto_step(
    mem: Seq<u8>,
    base: int,
    x0: int,
    y0: int,
    n: int,
    row: int,
    col: int,
    col2: int,
)
    requires
        0 <= x0 < 64,
        0 <= y0 < 32,
        0 <= row < n,
        n <= 32,
        0 <= col < 8,
        col2 == col + 1,
    ensures
        col_offset(x0, wrap_col(x0, col)) == col,
        row_offset(y0, wrap_row(y0, row)) == row,
        0 <= wrap_col(x0, col) < 64,
        0 <= wrap_row(y0, row) < 32,
        forall|qx: int, qy: int|
            0 <= qx < 64 && 0 <= qy < 32 && !(qx == wrap_col(x0, col) && qy == wrap_row(y0, row))
                ==> sprite_hits_upto(mem, base, x0, y0, n, row, col2, qx, qy)
                == sprite_hits_upto(mem, base, x0, y0, n, row, col, qx, qy),
        !sprite_hits_upto(mem, base, x0, y0, n, row, col, wrap_col(x0, col), wrap_row(y0, row)),
        sprite_hits_upto(
            mem,
            base,
            x0,
            y0,
            n,
            row,
            col2,
            wrap_col(x0, col),
            wrap_row(y0, row),
        ) == sprite_row_bit(mem[base + row], col),
{
    let px = wrap_col(x0, col);
    let py = wrap_row(y0, row);
    assert forall|qx: int, qy: int|
        0 <= qx < 64 && 0 <= qy < 32 && !(qx == px && qy == py) implies sprite_hits_upto(
        mem,
        base,
        x0,
        y0,
        n,
        row,
        col2,
        qx,
        qy,
    ) == sprite_hits_upto(mem, base, x0, y0, n, row, col, qx, qy) by {
        // The only pixel whose sprite coordinates are exactly
        // (row, col) is (px, py) itself.
        if col_offset(x0, qx) == col && row_offset(y0, qy) == row {
            assert(qx == px && qy == py);
        }
    }
}

/// Processing one more sprite column: when its bit is set, exactly the
/// pixel under it toggles and a collision is recorded exactly when that
/// pixel was set; when its bit is clear, nothing changes.
pub proof fn lemma_upto_advance(
    buf: Seq<u8>,
    mem: Seq<u8>,
    base: int,
    x0: int,
    y0: int,
    n: int,
    row: int,
    col: int,
    col2: int,
)
    requires
        buf.len() == 2048,
        0 <= x0 < 64,
        0 <= y0 < 32,
        0 <= row < n,
        n <= 32,
        0 <= col < 8,
        col2 == col + 1,
    ensures
        ({
            let px = wrap_col(x0, col);
            let py = wrap_row(y0, row);
            let p = py * 64 + px;
            let bit = sprite_row_bit(mem[base + row], col);
            &&& draw_buf_upto(buf, mem, base, x0, y0, n, row, col)[p] == buf[p]
            &&& draw_buf_upto(buf, mem, base, x0, y0, n, row, col2) == (if bit {
                draw_buf_upto(buf, mem, base, x0, y0, n, row, col).update(p, (1 - buf[p]) as u8)
            } else {
                draw_buf_upto(buf, mem, base, x0, y0, n, row, col)
            })
            &&& draw_collision_upto(buf, mem, base, x0, y0, n, row, col2) == (
            draw_collision_upto(buf, mem, base, x0, y0, n, row, col) || (bit && buf[p] == 1))
        }),
{
    lemma_upto_step(mem, base, x0, y0, n, row, col, col2);
    let px = wrap_col(x0, col);
    let py = wrap_row(y0, row);
    let p = py * 64 + px;
    let bit = sprite_row_bit(mem[base + row], col);
    assert(p % 64 == px && p / 64 == py);
    assert(draw_buf_upto(buf, mem, base, x0, y0, n, row, col)[p] == buf[p]);
    let before = draw_buf_upto(buf, mem, base, x0, y0, n, row, col);
    let after = draw_buf_upto(buf, mem, base, x0, y0, n, row, col2);
    assert forall|q: int| 0 <= q < 2048 && q != p implies after[q] == before[q] by {
        let qx = q % 64;
        let qy = q / 64;
        assert(0 <= qx < 64 && 0 <= qy < 32);
        assert(q == qy * 64 + qx);
        assert(!(qx == px && qy == py));
    }
    if bit {
        assert(after[p] == (1 - buf[p]) as u8);
        assert(after =~= before.update(p, (1 - buf[p]) as u8));
    } else {
        assert(after[p] == buf[p]);
        assert(after =~= before);
    }
    // The collision carried over from the columns already processed.
    if draw_collision_upto(buf, mem, base, x0, y0, n, row, col) {
        let (qx, qy): (int, int) = choose|qx: int, qy: int|
            0 <= qx < 64 && 0 <= qy < 32 && sprite_hits_upto(
                mem,
                base,
                x0,
                y0,
                n,
                row,
                col,
                qx,
                qy,
            ) && buf[qy * 64 + qx] == 1;
        assert(sprite_hits_upto(mem, base, x0, y0, n, row, col2, qx, qy));
        assert(draw_collision_upto(buf, mem, base, x0, y0, n, row, col2));
    }
    // The collision contributed by this very column.
    if bit && buf[p] == 1 {
        assert(sprite_hits_upto(mem, base, x0, y0, n, row, col2, px, py));
        assert(draw_collision_upto(buf, mem, base, x0, y0, n, row, col2));
    }
    // And nothing else can have produced one.
    if draw_collision_upto(buf, mem, base, x0, y0, n, row, col2) {
        let (qx, qy): (int, int) = choose|qx: int, qy: int|
            0 <= qx < 64 && 0 <= qy < 32 && sprite_hits_upto(
                mem,
                base,
                x0,
                y0,
                n,
                row,
                col2,
                qx,
                qy,
            ) && buf[qy * 64 + qx] == 1;
        if qx == px && qy == py {
            assert(bit && buf[p] == 1);
        } else {
            assert(sprite_hits_upto(mem, base, x0, y0, n, row, col, qx, qy));
            assert(draw_collision_upto(buf, mem, base, x0, y0, n, row, col));
        }
    }
}

/// Law: drawing the same sprite twice at the same coordinates restores
/// the buffer exactly (toggling is its own inverse), and the second draw
/// reports a collision precisely when the first draw turned some pixel
/// on.
#[verifier::rlimit(30)]
pub proof fn lemma_draw_twice(buf: Seq<u8>, mem: Seq<u8>, base: int, x0: int, y0: int, n: int)
    requires
        buf.len() == 2048,
        forall|p: int| 0 <= p < 2048 ==> buf[p] <= 1,
        0 <= x0 < 64,
        0 <= y0 < 32,
    ensures
        draw_buf(draw_buf(buf, mem, base, x0, y0, n), mem, base, x0, y0, n) == buf,
        draw_collision(draw_buf(buf, mem, base, x0, y0, n), mem, base, x0, y0, n)
            == draw_sets_pixel(buf, mem, base, x0, y0, n),
{
    let once = draw_buf(buf, mem, base, x0, y0, n);
    let twice = draw_buf(once, mem, base, x0, y0, n);
    assert forall|p: int| 0 <= p < 2048 implies twice[p] == buf[p] by {
        if sprite_hits(mem, base, x0, y0, n, p % 64, p / 64) {
            assert(once[p] == (1 - buf[p]) as u8);
            assert(twice[p] == (1 - once[p]) as u8);
        }
    }
    assert(twice =~= buf);
    if draw_collision(once, mem, base, x0, y0, n) {
        let (px, py): (int, int) = choose|px: int, py: int|
            0 <= px < 64 && 0 <= py < 32 && sprite_hits(mem, base, x0, y0, n, px, py) && once[py
                * 64 + px] == 1;
        assert(py * 64 + px == (py * 64 + px));
        assert((py * 64 + px) % 64 == px && (py * 64 + px) / 64 == py);
        assert(buf[py * 64 + px] == 0);
        assert(draw_sets_pixel(buf, mem, base, x0, y0, n));
    }
    if draw_sets_pixel(buf, mem, base, x0, y0, n) {
        let (px, py): (int, int) = choose|px: int, py: int|
            0 <= px < 64 && 0 <= py < 32 && sprite_hits(mem, base, x0, y0, n, px, py) && buf[py
                * 64 + px] == 0;
        assert((py * 64 + px) % 64 == px && (py * 64 + px) / 64 == py);
        assert(once[py * 64 + px] == 1);
        assert(draw_collision(once, mem, base, x0, y0, n));
    }
}

/// The display buffer: a 64x32 grid of single-bit pixels stored as
/// bytes, mutated only by the clear-screen and draw-sprite opcodes.
pub struct Screen {
    /// Row-major pixel bytes, each 0 or 1; `index = x + y * 64`.
    pub buffer: Vec<u8>,
}

impl Screen {
    /// A well-formed screen holds exactly 64x32 pixel bytes, each 0 or 1.
    pub open spec fn wf(self) -> bool {
        &&& self.buffer@.len() == 2048
        &&& forall|p: int| 0 <= p < 2048 ==> self.buffer@[p] <= 1
    }

    /// Create a screen with every pixel off.
    pub fn new() -> (s: Screen)
        ensures
            s.wf(),
            s.buffer@ == blank_buffer(),
    {
        Screen { buffer: zero_pixels() }
    }

    /// Turn every pixel off.
    pub fn clear(&mut self)
        ensures
            final(self).wf(),
            final(self).buffer@ == blank_buffer(),
    {
        self.buffer = zero_pixels();
    }

    /// Toggle the pixel at `(x, y)` and report whether it was set before
    /// the call: the single-pixel XOR update the draw opcode is built
    /// from.
    pub fn toggle(&mut self, x: usize, y: usize) -> (was_set: bool)
        requires
            old(self).wf(),
            x < 64,
            y < 32,
    ensures
            final(self).wf(),
            final(self).buffer@ == old(self).buffer@.update(
                y * 64 + x,
                (1 - old(self).buffer@[y * 64 + x]) as u8,
            ),
            was_set == (old(self).buffer@[y * 64 + x] == 1),
    {
        let idx = y * 64 + x;
        let prev = self.buffer[idx];
        self.buffer.set(idx, 1 - prev);
        prev == 1
    }

    /// Read the pixel at `(x, y)`.
    pub fn pixel(&self, x: usize, y: usize) -> (v: u8)
        requires
            self.wf(),
            x < 64,
            y < 32,
        ensures
            v == self.buffer@[y * 64 + x],
    {
        self.buffer[y * 64 + x]
    }
}

/// Build the 2048 zero bytes of a blank display buffer.
fn zero_pixels() -> (v: Vec<u8>)
    ensures
        v@ == blank_buffer(),
{
    let mut v: Vec<u8> = Vec::new();
    let mut p: usize = 0;
    while p < 2048
        invariant
            v@.len() == p,
            p <= 2048,
            forall|q: int| 0 <= q < p ==> v@[q] == 0,
        decreases 2048 - p,
    {
        v.push(0);
        p = p + 1;
    }
    assert(v@ =~= blank_buffer());
    v
}

} // verus!
