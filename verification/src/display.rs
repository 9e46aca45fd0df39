//! The framebuffer: a 64x32 grid of one-bit pixels that sprites are XOR-drawn into.
//!
//! Contracts speak of the grid as a `Seq<Seq<u8>>`, rows of columns, so that
//! `grid[y][x]` is the cell in column `x` of row `y`.

use vstd::prelude::*;

verus! {

/// Columns of the display.
pub const DISPLAY_WIDTH: usize = 64;

/// Rows of the display.
pub const DISPLAY_HEIGHT: usize = 32;

/// The built-in glyphs for the digits 0 to F, five bytes each, as they lie at the
/// bottom of memory.
pub const FONT_SET: [u8; 80] = [
    0xF0, 0x90, 0x90, 0x90, 0xF0,
    0x20, 0x60, 0x20, 0x20, 0x70,
    0xF0, 0x10, 0xF0, 0x80, 0xF0,
    0xF0, 0x10, 0xF0, 0x10, 0xF0,
    0x90, 0x90, 0xF0, 0x10, 0x10,
    0xF0, 0x80, 0xF0, 0x10, 0xF0,
    0xF0, 0x80, 0xF0, 0x90, 0xF0,
    0xF0, 0x10, 0x20, 0x40, 0x40,
    0xF0, 0x90, 0xF0, 0x90, 0xF0,
    0xF0, 0x90, 0xF0, 0x10, 0xF0,
    0xF0, 0x90, 0xF0, 0x90, 0x90,
    0xE0, 0x90, 0xE0, 0x90, 0xE0,
    0xF0, 0x80, 0x80, 0x80, 0xF0,
    0xE0, 0x90, 0x90, 0x90, 0xE0,
    0xF0, 0x80, 0xF0, 0x80, 0xF0,
    0xF0, 0x80, 0xF0, 0x80, 0x80,
];

/// The framebuffer and the flag that says it changed since it was last presented.
#[derive(Clone, Copy)]
pub struct Display {
    /// The cells, row by row; a cell is 0 (off) or 1 (on).
    pub gfx: [[u8; DISPLAY_WIDTH]; DISPLAY_HEIGHT],
    /// Set by every operation that writes the cells; a host clears it once it has
    /// presented the frame.
    pub dirty: bool,
}

impl View for Display {
    type V = Seq<Seq<u8>>;

    /// The cells as rows of columns.
    open spec fn view(&self) -> Seq<Seq<u8>> {
        Seq::new(DISPLAY_HEIGHT as nat, |y: int| self.gfx[y]@)
    }
}

/// Whether `grid` has 32 rows of 64 cells.
pub open spec fn shaped(grid: Seq<Seq<u8>>) -> bool {
    &&& grid.len() == DISPLAY_HEIGHT
    &&& forall|y: int| 0 <= y < DISPLAY_HEIGHT ==> (#[trigger] grid[y]).len() == DISPLAY_WIDTH
}

/// Whether every cell of `grid` is 0 or 1.
pub open spec fn binary(grid: Seq<Seq<u8>>) -> bool {
    forall|x: int, y: int|
        0 <= x < DISPLAY_WIDTH && 0 <= y < DISPLAY_HEIGHT ==> #[trigger] grid[y][x] <= 1
}

/// The grid in which every cell is off.
pub open spec fn blank() -> Seq<Seq<u8>> {
    Seq::new(DISPLAY_HEIGHT as nat, |y: int| Seq::new(DISPLAY_WIDTH as nat, |x: int| 0u8))
}

/// Whether bit `col` of a sprite row is set; bit 0 is the leftmost pixel.
pub open spec fn sprite_bit(row: u8, col: int) -> bool {
    row & (0x80u8 >> (col as u8)) != 0
}

/// Whether one of the first `k` bits of a sprite row, drawn with its leftmost bit in
/// the column of `xpos`, is set and falls on column `x`. Columns wrap around the edge
/// of the display.
pub open spec fn row_covers(row: u8, xpos: int, k: int, x: int) -> bool {
    let col = (x - xpos) % (DISPLAY_WIDTH as int);
    col < k && sprite_bit(row, col)
}

/// Whether row `r` of `sprite`, drawn from (`xpos`, `ypos`), has a set bit on the cell
/// (`x`, `y`). Rows and columns wrap around the edges of the display.
pub open spec fn row_hits(sprite: Seq<u8>, r: int, xpos: int, ypos: int, x: int, y: int) -> bool {
    (ypos + r) % (DISPLAY_HEIGHT as int) == y && row_covers(sprite[r], xpos, 8, x)
}

/// Whether the first `n` rows of `sprite` have a set bit on the cell (`x`, `y`) an odd
/// number of times. A sprite of up to 32 rows meets a cell at most once.
pub open spec fn toggled(sprite: Seq<u8>, n: nat, xpos: int, ypos: int, x: int, y: int) -> bool
    decreases n,
{
    if n == 0 {
        false
    } else {
        toggled(sprite, (n - 1) as nat, xpos, ypos, x, y) != row_hits(
            sprite,
            n - 1,
            xpos,
            ypos,
            x,
            y,
        )
    }
}

/// A cell after it was flipped, or left alone.
pub open spec fn flipped(cell: u8, flip: bool) -> u8 {
    if flip {
        cell ^ 1
    } else {
        cell
    }
}

/// The grid after the first `n` rows of `sprite` were XOR-drawn into `grid` from
/// (`xpos`, `ypos`).
pub open spec fn drawn(grid: Seq<Seq<u8>>, sprite: Seq<u8>, n: nat, xpos: int, ypos: int) -> Seq<
    Seq<u8>,
> {
    Seq::new(
        DISPLAY_HEIGHT as nat,
        |y: int|
            Seq::new(
                DISPLAY_WIDTH as nat,
                |x: int| flipped(grid[y][x], toggled(sprite, n, xpos, ypos, x, y)),
            ),
    )
}

/// Whether bit `c` of a sprite row is set and has a lit cell (one equal to 1) of line
/// `ty` under it, the leftmost bit being in the column of `xpos`.
pub open spec fn bit_meets(grid: Seq<Seq<u8>>, row: u8, ty: int, xpos: int, c: int) -> bool {
    sprite_bit(row, c) && grid[ty][(xpos + c) % (DISPLAY_WIDTH as int)] == 1
}

/// Whether bit `c` of row `r` is set and finds its cell lit at the moment the row is
/// drawn, that is after the rows before it.
pub open spec fn meets_lit(
    grid: Seq<Seq<u8>>,
    sprite: Seq<u8>,
    r: int,
    c: int,
    xpos: int,
    ypos: int,
) -> bool {
    bit_meets(
        drawn(grid, sprite, r as nat, xpos, ypos),
        sprite[r],
        (ypos + r) % (DISPLAY_HEIGHT as int),
        xpos,
        c,
    )
}

/// Whether drawing the first `n` rows of `sprite` turns off a cell that was lit.
pub open spec fn collided(grid: Seq<Seq<u8>>, sprite: Seq<u8>, n: nat, xpos: int, ypos: int) -> bool {
    exists|r: int, c: int|
        0 <= r < n && 0 <= c < 8 && #[trigger] meets_lit(grid, sprite, r, c, xpos, ypos)
}

/// The grid with the first `k` bits of a sprite row XOR-drawn into line `ty`, the
/// leftmost bit in the column of `xpos`.
spec fn row_drawn(grid: Seq<Seq<u8>>, row: u8, ty: int, xpos: int, k: int) -> Seq<
    Seq<u8>,
> {
    Seq::new(
        DISPLAY_HEIGHT as nat,
        |y: int|
            Seq::new(
                DISPLAY_WIDTH as nat,
                |x: int|
                    flipped(grid[y][x], y == ty && row_covers(row, xpos, k, x)),
            ),
    )
}

/// Whether one of the first `k` bits of a sprite row meets a lit cell of line `ty`.
spec fn row_met(grid: Seq<Seq<u8>>, row: u8, ty: int, xpos: int, k: int) -> bool {
    exists|c: int| 0 <= c < k && #[trigger] bit_meets(grid, row, ty, xpos, c)
}

/// The column `i` places to the right of `x0`, around the edge, is the one column
/// whose distance from `x0` is `i`.
proof fn lemma_column(x0: int, i: int, cx: int)
    requires
        0 <= x0 < DISPLAY_WIDTH,
        0 <= i < DISPLAY_WIDTH,
        0 <= cx < DISPLAY_WIDTH,
    ensures
        ((cx - x0) % (DISPLAY_WIDTH as int) == i) == (cx == (x0 + i) % (DISPLAY_WIDTH as int)),
{
}

/// Distances and places around the edge do not change when the origin is reduced
/// modulo the width.
proof fn lemma_reduced_origin(xpos: int, x: int, c: int)
    requires
        0 <= xpos,
    ensures
        (x - xpos % (DISPLAY_WIDTH as int)) % (DISPLAY_WIDTH as int) == (x - xpos) % (
        DISPLAY_WIDTH as int),
        (xpos % (DISPLAY_WIDTH as int) + c) % (DISPLAY_WIDTH as int) == (xpos + c) % (
        DISPLAY_WIDTH as int),
{
}

/// The line that a sprite row lands on, computed from reduced operands.
proof fn lemma_reduced_line(ypos: int, j: int)
    requires
        0 <= ypos,
        0 <= j,
    ensures
        (ypos % (DISPLAY_HEIGHT as int) + j % (DISPLAY_HEIGHT as int)) % (DISPLAY_HEIGHT as int)
            == (ypos + j) % (DISPLAY_HEIGHT as int),
{
}

/// Among the first 32 rows, the row that lands on line `y` is the one whose index is
/// the distance of `y` from `ypos`.
proof fn lemma_line(ypos: int, r: int, y: int)
    requires
        0 <= r < DISPLAY_HEIGHT,
        0 <= y < DISPLAY_HEIGHT,
    ensures
        ((ypos + r) % (DISPLAY_HEIGHT as int) == y) == (r == (y - ypos) % (DISPLAY_HEIGHT as int)),
{
}

/// Two flips in a row are one flip if exactly one of them happens, and a flip keeps a
/// cell of 0 or 1 a cell of 0 or 1.
proof fn lemma_flip_twice(cell: u8, a: bool, b: bool)
    ensures
        flipped(flipped(cell, a), b) == flipped(cell, a != b),
        cell <= 1 ==> flipped(cell, a) <= 1,
{
    assert((cell ^ 1) ^ 1 == cell) by (bit_vector);
    assert(cell <= 1 ==> cell ^ 1 <= 1) by (bit_vector);
}

impl Display {
    /// Whether every cell is 0 or 1, as it is on every display that was made by
    /// [`Display::new`] and written by the methods of this type.
    pub open spec fn wf(&self) -> bool {
        binary(self@)
    }

    /// A blank display, marked changed so that a host presents it once.
    pub fn new() -> (d: Display)
        ensures
            d@ == blank(),
            d.dirty,
            d.wf(),
    {
        let d = Display { gfx: [[0u8; DISPLAY_WIDTH]; DISPLAY_HEIGHT], dirty: true };
        assert(d@ =~~= blank());
        d
    }

    /// Turns every cell off and marks the display changed, whatever it held.
    pub fn clear(&mut self)
        ensures
            final(self)@ == blank(),
            final(self).dirty,
            final(self).wf(),
    {
        self.gfx = [[0u8; DISPLAY_WIDTH]; DISPLAY_HEIGHT];
        self.dirty = true;
        assert(self@ =~~= blank());
    }

    /// XOR-draws one sprite row into line `y`, the leftmost bit in column `x0`.
    /// Returns whether a lit cell was turned off.
    fn draw_row(&mut self, x0: usize, y: usize, row: u8) -> (hit: bool)
        requires
            x0 < DISPLAY_WIDTH,
            y < DISPLAY_HEIGHT,
        ensures
            final(self)@ == row_drawn(old(self)@, row, y as int, x0 as int, 8),
            hit == row_met(old(self)@, row, y as int, x0 as int, 8),
            final(self).dirty == old(self).dirty,
    {
        let mut hit = false;
        let ghost before = self@;
        assert(self@ =~~= row_drawn(before, row, y as int, x0 as int, 0));
        let mut i: u8 = 0;
        while i < 8
            invariant
                i <= 8,
                x0 < DISPLAY_WIDTH,
                y < DISPLAY_HEIGHT,
                before == old(self)@,
                self.dirty == old(self).dirty,
                self@ == row_drawn(before, row, y as int, x0 as int, i as int),
                hit == row_met(before, row, y as int, x0 as int, i as int),
            decreases 8 - i,
        {
            let x: usize = (x0 + i as usize) % DISPLAY_WIDTH;
            let ghost now = self@;
            let set: bool = row & (0x80u8 >> i) != 0;
            if set {
                if self.gfx[y][x] == 1 {
                    hit = true;
                }
                self.gfx[y][x] ^= 1;
                assert(self@ =~~= now.update(
                    y as int,
                    now[y as int].update(x as int, now[y as int][x as int] ^ 1),
                ));
            }
            proof {
                lemma_row_step(before, now, self@, row, y as int, x0 as int, i as int);
                assert(bit_meets(before, row, y as int, x0 as int, i as int) == (set
                    && now[y as int][x as int] == 1));
            }
            i += 1;
        }
        hit
    }

    /// XOR-draws `sprite`, one byte per row and eight pixels wide, with its top left
    /// corner at (`xpos`, `ypos`), wrapping around the edges. Returns whether a lit
    /// cell was turned off on the way, and marks the display changed.
    pub fn draw(&mut self, xpos: usize, ypos: usize, sprite: &[u8]) -> (collision: bool)
        ensures
            final(self)@ == drawn(old(self)@, sprite@, sprite@.len(), xpos as int, ypos as int),
            collision == collided(old(self)@, sprite@, sprite@.len(), xpos as int, ypos as int),
            final(self).dirty,
            old(self).wf() ==> final(self).wf(),
    {
        let mut collision = false;
        let h: usize = sprite.len();
        let x0: usize = xpos % DISPLAY_WIDTH;
        let y0: usize = ypos % DISPLAY_HEIGHT;
        let ghost start = self@;
        assert(self@ =~~= drawn(start, sprite@, 0, xpos as int, ypos as int));
        let mut j: usize = 0;
        while j < h
            invariant
                j <= h == sprite@.len(),
                x0 == xpos % DISPLAY_WIDTH,
                y0 == ypos % DISPLAY_HEIGHT,
                start == old(self)@,
                self@ == drawn(start, sprite@, j as nat, xpos as int, ypos as int),
                collision == collided(start, sprite@, j as nat, xpos as int, ypos as int),
            decreases h - j,
        {
            let y: usize = (y0 + j % DISPLAY_HEIGHT) % DISPLAY_HEIGHT;
            let hit = self.draw_row(x0, y, sprite[j]);
            proof {
                lemma_next_row(start, sprite@, j as int, xpos as int, ypos as int);
            }
            collision = collision || hit;
            j += 1;
        }
        self.dirty = true;
        proof {
            if binary(start) {
                lemma_drawn_binary(start, sprite@, sprite@.len(), xpos as int, ypos as int);
            }
        }
        collision
    }
}

/// One step of drawing a row: `next` is `now` with bit `i` applied.
proof fn lemma_row_step(
    before: Seq<Seq<u8>>,
    now: Seq<Seq<u8>>,
    next: Seq<Seq<u8>>,
    row: u8,
    y: int,
    x0: int,
    i: int,
)
    requires
        0 <= x0 < DISPLAY_WIDTH,
        0 <= y < DISPLAY_HEIGHT,
        0 <= i < 8,
        now == row_drawn(before, row, y, x0, i),
        next == if sprite_bit(row, i) {
            let x = (x0 + i) % (DISPLAY_WIDTH as int);
            now.update(y, now[y].update(x, now[y][x] ^ 1))
        } else {
            now
        },
    ensures
        next == row_drawn(before, row, y, x0, i + 1),
        now[y][(x0 + i) % (DISPLAY_WIDTH as int)] == before[y][(x0 + i) % (DISPLAY_WIDTH as int)],
        row_met(before, row, y, x0, i + 1) == (row_met(before, row, y, x0, i) || bit_meets(
            before,
            row,
            y,
            x0,
            i,
        )),
{
    let x = (x0 + i) % (DISPLAY_WIDTH as int);
    let goal = row_drawn(before, row, y, x0, i + 1);
    lemma_column(x0, i, x);
    assert forall|cx: int, cy: int|
        0 <= cx < DISPLAY_WIDTH && 0 <= cy < DISPLAY_HEIGHT implies next[cy][cx]
        == goal[cy][cx] by {
        lemma_column(x0, i, cx);
        let col = (cx - x0) % (DISPLAY_WIDTH as int);
        if cy == y && cx == x {
            assert(col == i);
            assert(!row_covers(row, x0, i, cx));
            assert(row_covers(row, x0, i + 1, cx) == sprite_bit(row, i));
        } else {
            assert(col != i || cy != y);
            assert(cy == y ==> row_covers(row, x0, i + 1, cx) == row_covers(row, x0, i, cx));
        }
    }
    assert(next =~~= goal);
    if row_met(before, row, y, x0, i + 1) && !row_met(before, row, y, x0, i) {
        let c = choose|c: int| 0 <= c < i + 1 && #[trigger] bit_meets(before, row, y, x0, c);
        assert(c == i);
    }
    if row_met(before, row, y, x0, i) {
        let c = choose|c: int| 0 <= c < i && #[trigger] bit_meets(before, row, y, x0, c);
        assert(bit_meets(before, row, y, x0, c));
    }
}

/// Drawing row `j` onto the grid that the rows before it left gives the grid that the
/// rows up to `j` leave, and the collisions add up.
proof fn lemma_next_row(start: Seq<Seq<u8>>, sprite: Seq<u8>, j: int, xpos: int, ypos: int)
    requires
        0 <= j < sprite.len(),
        0 <= xpos,
        0 <= ypos,
    ensures
        ({
            let ty = (ypos % (DISPLAY_HEIGHT as int) + j % (DISPLAY_HEIGHT as int)) % (
            DISPLAY_HEIGHT as int);
            let x0 = xpos % (DISPLAY_WIDTH as int);
            let before = drawn(start, sprite, j as nat, xpos, ypos);
            &&& row_drawn(before, sprite[j], ty, x0, 8) == drawn(
                start,
                sprite,
                (j + 1) as nat,
                xpos,
                ypos,
            )
            &&& collided(start, sprite, (j + 1) as nat, xpos, ypos) == (collided(
                start,
                sprite,
                j as nat,
                xpos,
                ypos,
            ) || row_met(before, sprite[j], ty, x0, 8))
        }),
{
    let w = DISPLAY_WIDTH as int;
    let ty = (ypos + j) % (DISPLAY_HEIGHT as int);
    lemma_reduced_line(ypos, j);
    let x0 = xpos % w;
    let before = drawn(start, sprite, j as nat, xpos, ypos);
    let after = row_drawn(before, sprite[j], ty, x0, 8);
    let goal = drawn(start, sprite, (j + 1) as nat, xpos, ypos);
    assert forall|cx: int, cy: int|
        0 <= cx < DISPLAY_WIDTH && 0 <= cy < DISPLAY_HEIGHT implies after[cy][cx]
        == goal[cy][cx] by {
        lemma_reduced_origin(xpos, cx, 0);
        assert(row_covers(sprite[j], x0, 8, cx) == row_covers(sprite[j], xpos, 8, cx));
        lemma_flip_twice(
            start[cy][cx],
            toggled(sprite, j as nat, xpos, ypos, cx, cy),
            row_hits(sprite, j, xpos, ypos, cx, cy),
        );
    }
    assert(after =~~= goal);
    assert forall|c: int| 0 <= c < 8 implies #[trigger] bit_meets(before, sprite[j], ty, x0, c)
        == meets_lit(start, sprite, j, c, xpos, ypos) by {
        lemma_reduced_origin(xpos, 0, c);
    }
    let met = row_met(before, sprite[j], ty, x0, 8);
    let old_hit = collided(start, sprite, j as nat, xpos, ypos);
    let new_hit = collided(start, sprite, (j + 1) as nat, xpos, ypos);
    if met {
        let c = choose|c: int| 0 <= c < 8 && #[trigger] bit_meets(before, sprite[j], ty, x0, c);
        assert(meets_lit(start, sprite, j, c, xpos, ypos));
    }
    if old_hit {
        let (r, c) = choose|r: int, c: int|
            0 <= r < j && 0 <= c < 8 && #[trigger] meets_lit(start, sprite, r, c, xpos, ypos);
        assert(meets_lit(start, sprite, r, c, xpos, ypos));
    }
    if new_hit && !old_hit {
        let (r, c) = choose|r: int, c: int|
            0 <= r < j + 1 && 0 <= c < 8 && #[trigger] meets_lit(start, sprite, r, c, xpos, ypos);
        assert(r == j);
        assert(bit_meets(before, sprite[j], ty, x0, c));
    }
}

/// Drawing keeps a grid of zeros and ones a grid of zeros and ones.
pub proof fn lemma_drawn_binary(grid: Seq<Seq<u8>>, sprite: Seq<u8>, n: nat, xpos: int, ypos: int)
    requires
        binary(grid),
    ensures
        binary(drawn(grid, sprite, n, xpos, ypos)),
        shaped(drawn(grid, sprite, n, xpos, ypos)),
{
    assert forall|x: int, y: int|
        0 <= x < DISPLAY_WIDTH && 0 <= y < DISPLAY_HEIGHT implies #[trigger] drawn(
        grid,
        sprite,
        n,
        xpos,
        ypos,
    )[y][x] <= 1 by {
        lemma_flip_twice(grid[y][x], toggled(sprite, n, xpos, ypos, x, y), false);
    }
}

/// Drawing the same sprite twice at the same place gives back the grid as it was.
pub proof fn lemma_draw_twice_restores(
    grid: Seq<Seq<u8>>,
    sprite: Seq<u8>,
    xpos: int,
    ypos: int,
)
    requires
        shaped(grid),
    ensures
        drawn(drawn(grid, sprite, sprite.len(), xpos, ypos), sprite, sprite.len(), xpos, ypos)
            == grid,
{
    let n = sprite.len();
    let once = drawn(grid, sprite, n, xpos, ypos);
    let twice = drawn(once, sprite, n, xpos, ypos);
    assert forall|x: int, y: int|
        0 <= x < DISPLAY_WIDTH && 0 <= y < DISPLAY_HEIGHT implies twice[y][x] == grid[y][x] by {
        let t = toggled(sprite, n, xpos, ypos, x, y);
        lemma_flip_twice(grid[y][x], t, t);
    }
    assert(twice =~~= grid);
}

/// Where some row below `n` has a set bit on the cell (`x`, `y`), there is a first such
/// row, and no row before it has touched the cell.
proof fn lemma_first_hit(sprite: Seq<u8>, n: nat, xpos: int, ypos: int, x: int, y: int) -> (r: int)
    requires
        exists|k: int| 0 <= k < n && row_hits(sprite, k, xpos, ypos, x, y),
    ensures
        0 <= r < n,
        row_hits(sprite, r, xpos, ypos, x, y),
        !toggled(sprite, r as nat, xpos, ypos, x, y),
    decreases n,
{
    if exists|k: int| 0 <= k < n - 1 && row_hits(sprite, k, xpos, ypos, x, y) {
        lemma_first_hit(sprite, (n - 1) as nat, xpos, ypos, x, y)
    } else {
        lemma_untouched(sprite, (n - 1) as nat, xpos, ypos, x, y);
        n - 1
    }
}

/// A cell that no row below `n` has a set bit on is not toggled by those rows.
proof fn lemma_untouched(sprite: Seq<u8>, n: nat, xpos: int, ypos: int, x: int, y: int)
    requires
        forall|k: int| 0 <= k < n ==> !row_hits(sprite, k, xpos, ypos, x, y),
    ensures
        !toggled(sprite, n, xpos, ypos, x, y),
    decreases n,
{
    if n > 0 {
        lemma_untouched(sprite, (n - 1) as nat, xpos, ypos, x, y);
    }
}

/// A cell that the first `n` rows toggle has a set bit of one of them on it.
proof fn lemma_toggled_is_hit(sprite: Seq<u8>, n: nat, xpos: int, ypos: int, x: int, y: int)
    requires
        toggled(sprite, n, xpos, ypos, x, y),
    ensures
        exists|k: int| 0 <= k < n && row_hits(sprite, k, xpos, ypos, x, y),
    decreases n,
{
    if n > 0 && !row_hits(sprite, n - 1, xpos, ypos, x, y) {
        lemma_toggled_is_hit(sprite, (n - 1) as nat, xpos, ypos, x, y);
    }
}

/// A draw reports a collision wherever a cell under a set bit of the sprite is lit
/// when the draw begins.
pub proof fn lemma_lit_under_sprite_collides(
    grid: Seq<Seq<u8>>,
    sprite: Seq<u8>,
    xpos: int,
    ypos: int,
    x: int,
    y: int,
)
    requires
        shaped(grid),
        0 <= x < DISPLAY_WIDTH,
        0 <= y < DISPLAY_HEIGHT,
        grid[y][x] == 1,
        exists|k: int| 0 <= k < sprite.len() && row_hits(sprite, k, xpos, ypos, x, y),
    ensures
        collided(grid, sprite, sprite.len(), xpos, ypos),
{
    let r = lemma_first_hit(sprite, sprite.len(), xpos, ypos, x, y);
    let c = (x - xpos) % (DISPLAY_WIDTH as int);
    assert((xpos + c) % (DISPLAY_WIDTH as int) == x);
    assert(meets_lit(grid, sprite, r, c, xpos, ypos));
}

/// Where the first draw of a sprite turned a cell on, drawing the sprite again at the
/// same place reports a collision.
pub proof fn lemma_redraw_collides(
    grid: Seq<Seq<u8>>,
    sprite: Seq<u8>,
    xpos: int,
    ypos: int,
    x: int,
    y: int,
)
    requires
        shaped(grid),
        0 <= x < DISPLAY_WIDTH,
        0 <= y < DISPLAY_HEIGHT,
        grid[y][x] != 1,
        drawn(grid, sprite, sprite.len(), xpos, ypos)[y][x] == 1,
    ensures
        collided(
            drawn(grid, sprite, sprite.len(), xpos, ypos),
            sprite,
            sprite.len(),
            xpos,
            ypos,
        ),
{
    let once = drawn(grid, sprite, sprite.len(), xpos, ypos);
    lemma_toggled_is_hit(sprite, sprite.len(), xpos, ypos, x, y);
    lemma_lit_under_sprite_collides(once, sprite, xpos, ypos, x, y);
}

/// A sprite of at most 32 rows meets each cell at most once: the cell is flipped
/// exactly if the one row that lands on its line has a set bit there.
pub proof fn lemma_short_sprite(sprite: Seq<u8>, n: nat, xpos: int, ypos: int, x: int, y: int)
    requires
        n <= sprite.len() <= DISPLAY_HEIGHT,
        0 <= y < DISPLAY_HEIGHT,
    ensures
        toggled(sprite, n, xpos, ypos, x, y) == {
            let r = (y - ypos) % (DISPLAY_HEIGHT as int);
            r < n && row_hits(sprite, r, xpos, ypos, x, y)
        },
    decreases n,
{
    if n > 0 {
        lemma_short_sprite(sprite, (n - 1) as nat, xpos, ypos, x, y);
        lemma_line(ypos, n - 1, y);
    }
}

/// Whether the cell (`x`, `y`) is lit and the sprite flips it.
pub open spec fn lit_under(
    grid: Seq<Seq<u8>>,
    sprite: Seq<u8>,
    xpos: int,
    ypos: int,
    x: int,
    y: int,
) -> bool {
    grid[y][x] == 1 && toggled(sprite, sprite.len(), xpos, ypos, x, y)
}

/// A sprite of at most 32 rows collides exactly if one of the cells that it flips was
/// lit before the draw.
pub proof fn lemma_short_sprite_collides(
    grid: Seq<Seq<u8>>,
    sprite: Seq<u8>,
    xpos: int,
    ypos: int,
)
    requires
        shaped(grid),
        sprite.len() <= DISPLAY_HEIGHT,
    ensures
        collided(grid, sprite, sprite.len(), xpos, ypos) <==> exists|x: int, y: int|
            0 <= x < DISPLAY_WIDTH && 0 <= y < DISPLAY_HEIGHT && #[trigger] lit_under(
                grid,
                sprite,
                xpos,
                ypos,
                x,
                y,
            ),
{
    let n = sprite.len();
    if collided(grid, sprite, n, xpos, ypos) {
        let (r, c) = choose|r: int, c: int|
            0 <= r < n && 0 <= c < 8 && #[trigger] meets_lit(grid, sprite, r, c, xpos, ypos);
        let x = (xpos + c) % (DISPLAY_WIDTH as int);
        let y = (ypos + r) % (DISPLAY_HEIGHT as int);
        lemma_line(ypos, r, y);
        lemma_short_sprite(sprite, r as nat, xpos, ypos, x, y);
        lemma_short_sprite(sprite, n, xpos, ypos, x, y);
        assert((x - xpos) % (DISPLAY_WIDTH as int) == c);
        assert(lit_under(grid, sprite, xpos, ypos, x, y));
    }
    if exists|x: int, y: int|
        0 <= x < DISPLAY_WIDTH && 0 <= y < DISPLAY_HEIGHT && #[trigger] lit_under(
            grid,
            sprite,
            xpos,
            ypos,
            x,
            y,
        ) {
        let (x, y) = choose|x: int, y: int|
            0 <= x < DISPLAY_WIDTH && 0 <= y < DISPLAY_HEIGHT && #[trigger] lit_under(
                grid,
                sprite,
                xpos,
                ypos,
                x,
                y,
            );
        lemma_toggled_is_hit(sprite, n, xpos, ypos, x, y);
        lemma_lit_under_sprite_collides(grid, sprite, xpos, ypos, x, y);
    }
}

} // verus!
