use vstd::prelude::*;

verus! {

/// A pixel grid, rows outer and columns inner.
pub type Grid = Seq<Seq<u8>>;

/// The monochrome 64x32 framebuffer.
pub struct Display {
    screen: [[u8; 64]; 32],
    /// Toroidal addressing (true) or clipping (false) when drawing.
    pub wrap: bool,
}

/// The grid that a raw screen array holds.
pub open spec fn grid_of(screen: [[u8; 64]; 32]) -> Grid {
    screen@.map_values(|row: [u8; 64]| row@)
}

/// The all-zero grid.
pub open spec fn blank_grid() -> Grid {
    Seq::new(32, |r: int| Seq::new(64, |c: int| 0u8))
}

/// `g` has 32 rows of 64 cells each.
pub open spec fn is_grid(g: Grid) -> bool {
    &&& g.len() == 32
    &&& forall|r: int| 0 <= r < 32 ==> #[trigger] g[r].len() == 64
}

/// Every cell of `g` is 0 or 1.
pub open spec fn is_binary(g: Grid) -> bool {
    forall|r: int, c: int| 0 <= r < 32 && 0 <= c < 64 ==> (#[trigger] g[r][c] == 0 || g[r][c] == 1)
}

/// Bit `i` of `byte`, counting from the most significant bit (`i == 0`).
pub open spec fn bit_on(byte: u8, i: int) -> bool {
    0 <= i < 8 && (byte >> ((7 - i) as u8)) & 1u8 == 1u8
}

/// The row that a sprite row at `y` lands on.
pub open spec fn target_row(y: int, wrap: bool) -> int {
    if wrap { y % 32 } else { y }
}

/// Which bit of a sprite row drawn at column `x` lands on column `c`
/// (a value outside `0..8` means none does).
pub open spec fn bit_index(x: int, c: int, wrap: bool) -> int {
    if wrap { (c - x % 64 + 64) % 64 } else { c - x }
}

/// Cell `(r, c)` is toggled by one of the first `k` bits of `byte` drawn at `(x, y)`.
pub open spec fn hit_before(byte: u8, x: int, y: int, wrap: bool, r: int, c: int, k: int) -> bool {
    &&& r == target_row(y, wrap)
    &&& bit_index(x, c, wrap) < k
    &&& bit_on(byte, bit_index(x, c, wrap))
}

/// Cell `(r, c)` is toggled when `byte` is drawn at `(x, y)`.
pub open spec fn hit(byte: u8, x: int, y: int, wrap: bool, r: int, c: int) -> bool {
    hit_before(byte, x, y, wrap, r, c, 8)
}

/// `g` after XOR-drawing the first `k` bits of `byte` at `(x, y)`.
pub open spec fn drawn_before(g: Grid, byte: u8, x: int, y: int, wrap: bool, k: int) -> Grid {
    Seq::new(
        32,
        |r: int|
            Seq::new(
                64,
                |c: int|
                    if hit_before(byte, x, y, wrap, r, c, k) {
                        g[r][c] ^ 1u8
                    } else {
                        g[r][c]
                    },
            ),
    )
}

/// `g` after XOR-drawing the sprite row `byte` at `(x, y)`.
pub open spec fn drawn(g: Grid, byte: u8, x: int, y: int, wrap: bool) -> Grid {
    drawn_before(g, byte, x, y, wrap, 8)
}

/// One of the first `k` bits of `byte` drawn at `(x, y)` lands on a set cell of `g`.
pub open spec fn collides_before(g: Grid, byte: u8, x: int, y: int, wrap: bool, k: int) -> bool {
    exists|r: int, c: int|
        0 <= r < 32 && 0 <= c < 64 && #[trigger] hit_before(byte, x, y, wrap, r, c, k) && g[r][c]
            == 1
}

/// Drawing `byte` at `(x, y)` on `g` turns a set cell off.
pub open spec fn collides(g: Grid, byte: u8, x: int, y: int, wrap: bool) -> bool {
    collides_before(g, byte, x, y, wrap, 8)
}

proof fn lemma_toggle_binary(b: u8)
    ensures
        (b == 0 || b == 1) ==> (b ^ 1u8 == 0 || b ^ 1u8 == 1),
        b ^ 1u8 ^ 1u8 == b,
        b == 1 ==> b ^ 1u8 == 0,
        b == 0 ==> b ^ 1u8 == 1,
{
    assert((b == 0 || b == 1) ==> (b ^ 1u8 == 0 || b ^ 1u8 == 1)) by (bit_vector);
    assert(b ^ 1u8 ^ 1u8 == b) by (bit_vector);
    assert(b == 1 ==> b ^ 1u8 == 0) by (bit_vector);
    assert(b == 0 ==> b ^ 1u8 == 1) by (bit_vector);
}

proof fn lemma_drawn_wf(g: Grid, byte: u8, x: int, y: int, wrap: bool, k: int)
    requires
        is_grid(g),
        is_binary(g),
    ensures
        is_grid(drawn_before(g, byte, x, y, wrap, k)),
        is_binary(drawn_before(g, byte, x, y, wrap, k)),
{
    let d = drawn_before(g, byte, x, y, wrap, k);
    assert forall|r: int, c: int| 0 <= r < 32 && 0 <= c < 64 implies (#[trigger] d[r][c] == 0 || d[r][c]
        == 1) by {
        lemma_toggle_binary(g[r][c]);
    }
}

proof fn lemma_wrap_column(x: int, i: int)
    requires
        0 <= x,
        0 <= i < 8,
    ensures
        bit_index(x, (x % 64 + i) % 64, true) == i,
        forall|c: int| 0 <= c < 64 && bit_index(x, c, true) == i ==> c == (x % 64 + i) % 64,
{
    let m = x % 64;
    assert(0 <= m < 64);
    assert forall|c: int| 0 <= c < 64 && bit_index(x, c, true) == i implies c == (m + i) % 64 by {
        if c - m + 64 >= 64 {
            assert((c - m + 64) % 64 == c - m);
        } else {
            assert((c - m + 64) % 64 == c - m + 64);
        }
        if m + i >= 64 {
            assert((m + i) % 64 == m + i - 64);
        } else {
            assert((m + i) % 64 == m + i);
        }
    }
    if m + i >= 64 {
        assert((m + i) % 64 == m + i - 64);
        assert((m + i - 64 - m + 64) % 64 == i);
    } else {
        assert((m + i) % 64 == m + i);
        assert((m + i - m + 64) % 64 == i);
    }
}

/// Some bit of a nonzero byte is set.
proof fn lemma_some_bit_on(byte: u8) -> (i: int)
    requires
        byte != 0,
    ensures
        bit_on(byte, i),
{
    assert(byte != 0 ==> (byte >> 7u8) & 1u8 == 1u8 || (byte >> 6u8) & 1u8 == 1u8 || (byte >> 5u8) & 1u8
        == 1u8 || (byte >> 4u8) & 1u8 == 1u8 || (byte >> 3u8) & 1u8 == 1u8 || (byte >> 2u8) & 1u8 == 1u8
        || (byte >> 1u8) & 1u8 == 1u8 || (byte >> 0u8) & 1u8 == 1u8) by (bit_vector);
    if (byte >> 7u8) & 1u8 == 1u8 {
        0
    } else if (byte >> 6u8) & 1u8 == 1u8 {
        1
    } else if (byte >> 5u8) & 1u8 == 1u8 {
        2
    } else if (byte >> 4u8) & 1u8 == 1u8 {
        3
    } else if (byte >> 3u8) & 1u8 == 1u8 {
        4
    } else if (byte >> 2u8) & 1u8 == 1u8 {
        5
    } else if (byte >> 1u8) & 1u8 == 1u8 {
        6
    } else {
        7
    }
}

/// Drawing the same sprite row twice at the same place gives back the grid
/// that was there before, in either wrap mode.
pub proof fn lemma_draw_twice_restores(g: Grid, byte: u8, x: int, y: int, wrap: bool)
    requires
        is_grid(g),
    ensures
        drawn(drawn(g, byte, x, y, wrap), byte, x, y, wrap) == g,
{
    let d2 = drawn(drawn(g, byte, x, y, wrap), byte, x, y, wrap);
    assert forall|r: int| 0 <= r < 32 implies #[trigger] d2[r] =~= g[r] by {
        assert forall|c: int| 0 <= c < 64 implies d2[r][c] == g[r][c] by {
            lemma_toggle_binary(g[r][c]);
        }
    }
    assert(d2 =~= g);
}

/// With wrap mode on, a nonzero sprite row drawn where every cell it touches
/// is clear reports no collision, and drawing it again at the same place
/// reports one.
pub proof fn lemma_redraw_collides(g: Grid, byte: u8, x: int, y: int)
    requires
        is_grid(g),
        0 <= x,
        0 <= y,
        byte != 0,
        forall|r: int, c: int|
            0 <= r < 32 && 0 <= c < 64 && #[trigger] hit(byte, x, y, true, r, c) ==> g[r][c] == 0,
    ensures
        !collides(g, byte, x, y, true),
        collides(drawn(g, byte, x, y, true), byte, x, y, true),
{
    let i = lemma_some_bit_on(byte);
    lemma_wrap_column(x, i);
    let c = (x % 64 + i) % 64;
    let r = y % 32;
    assert(hit_before(byte, x, y, true, r, c, 8));
    assert(hit(byte, x, y, true, r, c));
    lemma_toggle_binary(g[r][c]);
    assert forall|r1: int, c1: int|
        0 <= r1 < 32 && 0 <= c1 < 64 && #[trigger] hit_before(byte, x, y, true, r1, c1, 8) implies g[r1][c1]
        == 0 by {
        assert(hit(byte, x, y, true, r1, c1));
    }
    assert(drawn(g, byte, x, y, true)[r][c] == 1);
}

/// With wrap mode off, drawing at `(x, y)` changes no pixel outside row `y`
/// and columns `x` to `x + 7`: bits past the right edge are dropped rather
/// than wrapped to the left.
pub proof fn lemma_clip_touches_only_target(g: Grid, byte: u8, x: int, y: int)
    requires
        is_grid(g),
    ensures
        forall|r: int, c: int|
            0 <= r < 32 && 0 <= c < 64 && !(r == y && x <= c < x + 8) ==> #[trigger] drawn(
                g,
                byte,
                x,
                y,
                false,
            )[r][c] == g[r][c],
{
}

/// With wrap mode on, a set bit `i` of a row drawn at column `x` whose column
/// `x + i` lies past the right edge toggles column `x + i - 64` instead.
pub proof fn lemma_wrap_toggles_left_edge(g: Grid, byte: u8, x: int, y: int, i: int)
    requires
        is_grid(g),
        0 <= x < 64,
        0 <= y,
        0 <= i < 8,
        x + i >= 64,
        bit_on(byte, i),
    ensures
        drawn(g, byte, x, y, true)[y % 32][x + i - 64] == g[y % 32][x + i - 64] ^ 1u8,
{
    lemma_wrap_column(x, i);
    assert((x % 64 + i) % 64 == x + i - 64);
}

impl View for Display {
    type V = Grid;

    closed spec fn view(&self) -> Grid {
        grid_of(self.screen)
    }
}

impl Display {
    /// The grid is 64x32 and every cell is 0 or 1.
    pub open spec fn wf(&self) -> bool {
        is_grid(self@) && is_binary(self@)
    }

    /// Whether wrap mode is on.
    pub closed spec fn wrap_on(&self) -> bool {
        self.wrap
    }

    /// A blank display with wrap mode on.
    pub fn new() -> (r: Self)
        ensures
            r.wf(),
            r@ == blank_grid(),
            r.wrap_on(),
    {
        let r = Display { screen: [[0u8; 64]; 32], wrap: true };
        assert(r@ =~~= blank_grid());
        r
    }

    /// Sets every pixel to 0.
    pub fn clear(&mut self)
        ensures
            final(self).wf(),
            final(self)@ == blank_grid(),
            final(self).wrap_on() == old(self).wrap_on(),
    {
        self.screen = [[0u8; 64]; 32];
        assert(self@ =~~= blank_grid());
    }

    /// A copy of the whole grid.
    pub fn get_screen(&self) -> (r: [[u8; 64]; 32])
        ensures
            grid_of(r) == self@,
    {
        self.screen
    }

    /// XOR-draws one sprite row `byte` at column `x`, row `y`, most significant
    /// bit leftmost, and reports whether a set pixel was turned off.
    pub fn draw_byte(&mut self, byte: u8, x: usize, y: usize) -> (collided: bool)
        requires
            old(self).wf(),
        ensures
            final(self).wf(),
            final(self).wrap_on() == old(self).wrap_on(),
            final(self)@ == drawn(old(self)@, byte, x as int, y as int, old(self).wrap_on()),
            collided == collides(old(self)@, byte, x as int, y as int, old(self).wrap_on()),
    {
        let ghost g0 = self@;
        let ghost wrap = self.wrap;
        let mut col = false;
        let mut i: usize = 0;
        assert(self@ =~~= drawn_before(g0, byte, x as int, y as int, wrap, 0));
        while i < 8
            invariant
                0 <= i <= 8,
                is_grid(g0),
                is_binary(g0),
                self.wrap == wrap,
                self@ == drawn_before(g0, byte, x as int, y as int, wrap, i as int),
                col == collides_before(g0, byte, x as int, y as int, wrap, i as int),
            decreases 8 - i,
        {
            let ghost gi = self@;
            let (cx, cy, valid) = if self.wrap {
                ((x % 64 + i) % 64, y % 32, true)
            } else if x < 64 && i < 64 - x && y < 32 {
                (x + i, y, true)
            } else {
                (0, 0, false)
            };
            let on = (byte >> (7 - i as u8)) & 1 == 1;
            proof {
                if wrap {
                    lemma_wrap_column(x as int, i as int);
                }
            }
            if valid && on {
                let mut row = self.screen[cy];
                let cell = row[cx];
                if cell == 1 {
                    col = true;
                }
                row[cx] = cell ^ 1;
                self.screen[cy] = row;
                proof {
                    lemma_toggle_binary(cell);
                    assert forall|r: int, c: int| 0 <= r < 32 && 0 <= c < 64 implies #[trigger] self@[r][c]
                        == if r == cy as int && c == cx as int { gi[r][c] ^ 1u8 } else { gi[r][c] } by {
                        if r == cy as int {
                            assert(self@[r] == row@);
                        } else {
                            assert(self@[r] == gi[r]);
                        }
                    }
                }
            }
            proof {
                let k = i as int;
                let xi = x as int;
                let yi = y as int;
                assert forall|r: int, c: int| 0 <= r < 32 && 0 <= c < 64 implies
                    hit_before(byte, xi, yi, wrap, r, c, k + 1) == (hit_before(byte, xi, yi, wrap, r, c, k)
                        || (valid && on && r == cy as int && c == cx as int)) by {
                    if wrap {
                        lemma_wrap_column(xi, k);
                    }
                }
                let d1 = drawn_before(g0, byte, xi, yi, wrap, k + 1);
                assert(self@ =~~= d1) by {
                    assert forall|r: int| 0 <= r < 32 implies #[trigger] self@[r] =~= d1[r] by {
                        assert forall|c: int| 0 <= c < 64 implies self@[r][c] == d1[r][c] by {
                            if valid && on {
                                assert(self@[r][c] == if r == cy as int && c == cx as int { gi[r][c] ^ 1u8 } else { gi[r][c] });
                            }
                            assert(hit_before(byte, xi, yi, wrap, r, c, k + 1) == (hit_before(byte, xi, yi, wrap, r, c, k)
                                || (valid && on && r == cy as int && c == cx as int)));
                        }
                    }
                }
                if valid && on {
                    assert(gi[cy as int][cx as int] == g0[cy as int][cx as int]);
                    assert(hit_before(byte, xi, yi, wrap, cy as int, cx as int, k + 1));
                }
                assert(col == collides_before(g0, byte, xi, yi, wrap, k + 1)) by {
                    if col && !collides_before(g0, byte, xi, yi, wrap, k) {
                        assert(hit_before(byte, xi, yi, wrap, cy as int, cx as int, k + 1));
                    }
                    if collides_before(g0, byte, xi, yi, wrap, k + 1) {
                        let (r, c) = choose|r: int, c: int|
                            0 <= r < 32 && 0 <= c < 64 && #[trigger] hit_before(byte, xi, yi, wrap, r, c, k + 1)
                                && g0[r][c] == 1;
                        assert(hit_before(byte, xi, yi, wrap, r, c, k) || (valid && on && r == cy as int && c == cx as int));
                    }
                }
            }
            i = i + 1;
        }
        proof {
            lemma_drawn_wf(g0, byte, x as int, y as int, wrap, 8);
        }
        col
    }
}

} // verus!
