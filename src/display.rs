use vstd::arithmetic::div_mod::{
    lemma_fundamental_div_mod,
    lemma_fundamental_div_mod_converse_div,
    lemma_fundamental_div_mod_converse_mod,
    lemma_mod_pos_bound,
};
use vstd::prelude::*;

verus! {

pub const HEIGHT: usize = 32;
pub const WIDTH: usize = 64;
pub const REAL_HEIGHT: usize = 320;
pub const REAL_WIDTH: usize = 640;

/// Side of the square block of screen pixels that shows one logical pixel.
pub const SCALE: usize = 10;

/// Bit `k` of a sprite row, counted from the most significant bit.
pub open spec fn bit_set(b: u8, k: int) -> bool {
    (b >> ((7 - k) as u8)) & 1u8 == 1u8
}

/// Whether a sprite of rows `bytes` drawn at (`x`, `y`) sets the pixel at
/// row `r`, column `c`: columns wrap modulo the width, rows do not wrap.
pub open spec fn sprite_pixel(bytes: Seq<u8>, x: u8, y: u8, r: int, c: int) -> bool {
    let k = (c - x) % (WIDTH as int);
    &&& y <= r < y + bytes.len()
    &&& k < 8
    &&& bit_set(bytes[r - y], k)
}

/// The grid `d` after XOR-ing in the sprite.
pub open spec fn drawn(d: Seq<Seq<bool>>, bytes: Seq<u8>, x: u8, y: u8) -> Seq<Seq<bool>> {
    Seq::new(
        HEIGHT as nat,
        |r: int| Seq::new(WIDTH as nat, |c: int| d[r][c] != sprite_pixel(bytes, x, y, r, c)),
    )
}

/// Whether the sprite turns some pixel of `d` off.
pub open spec fn collides(d: Seq<Seq<bool>>, bytes: Seq<u8>, x: u8, y: u8) -> bool {
    exists|r: int, c: int|
        0 <= r < HEIGHT && 0 <= c < WIDTH && #[trigger] d[r][c] && sprite_pixel(bytes, x, y, r, c)
}

/// Whether cell (`r`, `c`) is set by the first `j` rows of the sprite
/// or by the first `k` bits of its row `j`.
spec fn covered(bytes: Seq<u8>, x: u8, y: u8, j: int, k: int, r: int, c: int) -> bool {
    &&& sprite_pixel(bytes, x, y, r, c)
    &&& (r < y + j || (r == y + j && (c - x) % (WIDTH as int) < k))
}

/// Drawing a sprite twice at the same place gives the grid back, and the
/// second draw reports a collision exactly when the first one turned a pixel on.
pub proof fn draw_twice_restores(d: Seq<Seq<bool>>, bytes: Seq<u8>, x: u8, y: u8)
    requires
        d.len() == HEIGHT,
        forall|r: int| 0 <= r < HEIGHT ==> (#[trigger] d[r]).len() == WIDTH,
    ensures
        drawn(drawn(d, bytes, x, y), bytes, x, y) == d,
        collides(drawn(d, bytes, x, y), bytes, x, y) == exists|r: int, c: int|
            0 <= r < HEIGHT && 0 <= c < WIDTH && !#[trigger] d[r][c] && sprite_pixel(
                bytes,
                x,
                y,
                r,
                c,
            ),
{
    let once = drawn(d, bytes, x, y);
    assert(drawn(once, bytes, x, y) =~~= d);
    if collides(once, bytes, x, y) {
        let (r, c) = choose|r: int, c: int|
            0 <= r < HEIGHT && 0 <= c < WIDTH && #[trigger] once[r][c] && sprite_pixel(
                bytes,
                x,
                y,
                r,
                c,
            );
        assert(!d[r][c]);
    }
    if exists|r: int, c: int|
        0 <= r < HEIGHT && 0 <= c < WIDTH && !#[trigger] d[r][c] && sprite_pixel(bytes, x, y, r, c) {
        let (r, c) = choose|r: int, c: int|
            0 <= r < HEIGHT && 0 <= c < WIDTH && !#[trigger] d[r][c] && sprite_pixel(
                bytes,
                x,
                y,
                r,
                c,
            );
        assert(once[r][c]);
    }
}

/// Logical row shown by screen pixel `p` of a `REAL_WIDTH` by `REAL_HEIGHT` buffer.
pub open spec fn cell_row(p: int) -> int {
    p / (REAL_WIDTH * SCALE) as int
}

/// Logical column shown by screen pixel `p`.
pub open spec fn cell_col(p: int) -> int {
    (p % REAL_WIDTH as int) / SCALE as int
}

/// Index of the top-left screen pixel of the block that shows cell (`r`, `c`).
pub open spec fn block_corner(r: int, c: int) -> int {
    r * (REAL_WIDTH * SCALE) as int + c * SCALE as int
}

/// The screen buffer after presenting grid `d`: the block of each cell whose
/// pixel differs from the state its top-left screen pixel shows is filled with
/// the complement of that top-left pixel; every other block is left alone.
pub open spec fn presented(screen: Seq<u32>, d: Seq<Seq<bool>>) -> Seq<u32> {
    Seq::new(
        screen.len(),
        |p: int|
            {
                let corner = screen[block_corner(cell_row(p), cell_col(p))];
                if (corner != 0) != d[cell_row(p)][cell_col(p)] {
                    !corner
                } else {
                    screen[p]
                }
            },
    )
}

/// Row of screen pixel `p` inside its block.
spec fn off_row(p: int) -> int {
    (p % (REAL_WIDTH * SCALE) as int) / REAL_WIDTH as int
}

/// Column of screen pixel `p` inside its block.
spec fn off_col(p: int) -> int {
    p % SCALE as int
}

proof fn lemma_block_split(p: int)
    requires
        0 <= p < REAL_HEIGHT * REAL_WIDTH,
    ensures
        0 <= cell_row(p) < HEIGHT,
        0 <= cell_col(p) < WIDTH,
        0 <= off_row(p) < SCALE,
        0 <= off_col(p) < SCALE,
        p == block_corner(cell_row(p), cell_col(p)) + off_row(p) * REAL_WIDTH + off_col(p),
{
    let q = p / 6400;
    let rm = p % 6400;
    lemma_fundamental_div_mod(p, 6400);
    lemma_mod_pos_bound(p, 6400);
    let a = rm / 640;
    lemma_fundamental_div_mod(rm, 640);
    lemma_mod_pos_bound(rm, 640);
    let m = rm % 640;
    lemma_fundamental_div_mod_converse_mod(p, 640, 10 * q + a, m);
    lemma_fundamental_div_mod(m, 10);
    lemma_mod_pos_bound(m, 10);
    let c = m / 10;
    let b = m % 10;
    lemma_fundamental_div_mod_converse_mod(p, 10, 640 * q + 64 * a + c, b);
}

proof fn lemma_block_join(r: int, c: int, a: int, b: int)
    requires
        0 <= r < HEIGHT,
        0 <= c < WIDTH,
        0 <= a < SCALE,
        0 <= b < SCALE,
    ensures
        ({
            let p = block_corner(r, c) + a * REAL_WIDTH + b;
            &&& 0 <= p < REAL_HEIGHT * REAL_WIDTH
            &&& cell_row(p) == r
            &&& cell_col(p) == c
            &&& off_row(p) == a
            &&& off_col(p) == b
        }),
{
    let p = block_corner(r, c) + a * REAL_WIDTH + b;
    lemma_fundamental_div_mod_converse_div(p, 6400, r, 640 * a + 10 * c + b);
    lemma_fundamental_div_mod_converse_mod(p, 6400, r, 640 * a + 10 * c + b);
    lemma_fundamental_div_mod_converse_div(640 * a + 10 * c + b, 640, a, 10 * c + b);
    lemma_fundamental_div_mod_converse_mod(p, 640, 10 * r + a, 10 * c + b);
    lemma_fundamental_div_mod_converse_div(10 * c + b, 10, c, b);
    lemma_fundamental_div_mod_converse_mod(p, 10, 640 * r + 64 * a + c, b);
}

/// A grid with every pixel off.
pub open spec fn blank() -> Seq<Seq<bool>> {
    Seq::new(HEIGHT as nat, |r: int| Seq::new(WIDTH as nat, |c: int| false))
}

/// The 64 by 32 monochrome frame.
pub struct Display {
    buf: Vec<Vec<bool>>,
}

impl View for Display {
    type V = Seq<Seq<bool>>;

    closed spec fn view(&self) -> Seq<Seq<bool>> {
        self.buf@.map_values(|row: Vec<bool>| row@)
    }
}

/// Up to fifteen rows of eight pixels, and where to draw them.
pub struct Sprite {
    pub x: u8,
    pub y: u8,
    pub bytes: Vec<u8>,
}

impl Display {
    /// The grid has `HEIGHT` rows of `WIDTH` pixels.
    pub open spec fn wf(&self) -> bool {
        &&& self@.len() == HEIGHT
        &&& forall|r: int| 0 <= r < HEIGHT ==> (#[trigger] self@[r]).len() == WIDTH
    }

    proof fn lemma_rows_wf(&self)
        requires
            self.wf(),
        ensures
            self.buf@.len() == HEIGHT,
            forall|r: int| 0 <= r < HEIGHT ==> (#[trigger] self.buf@[r])@.len() == WIDTH,
            forall|r: int| 0 <= r < HEIGHT ==> (#[trigger] self.buf@[r])@ == self@[r],
    {
        assert forall|r: int| 0 <= r < HEIGHT implies (#[trigger] self.buf@[r])@ == self@[r] by {}
    }

    pub fn new() -> (r: Display)
        ensures
            r.wf(),
            r@ == blank(),
    {
        let mut buf: Vec<Vec<bool>> = Vec::new();
        let mut k: usize = 0;
        while k < HEIGHT
            invariant
                k <= HEIGHT,
                buf@.len() == k,
                forall|r: int| 0 <= r < k ==> (#[trigger] buf@[r])@ == Seq::new(WIDTH as nat, |c: int| false),
            decreases HEIGHT - k,
        {
            let row: Vec<bool> = vec![false; WIDTH];
            assert(row@ =~= Seq::new(WIDTH as nat, |c: int| false));
            buf.push(row);
            k = k + 1;
        }
        let d = Display { buf };
        assert(d@ =~= blank());
        d
    }

    /// Whether the pixel at row `r`, column `c` is on.
    pub fn pixel(&self, r: usize, c: usize) -> (on: bool)
        requires
            self.wf(),
            r < HEIGHT,
            c < WIDTH,
        ensures
            on == self@[r as int][c as int],
    {
        proof {
            self.lemma_rows_wf();
        }
        self.buf[r][c]
    }

    /// Turns every pixel off.
    pub fn clear_display(&mut self)
        requires
            old(self).wf(),
        ensures
            final(self).wf(),
            final(self)@ == blank(),
    {
        proof {
            self.lemma_rows_wf();
        }
        let mut r: usize = 0;
        while r < HEIGHT
            invariant
                r <= HEIGHT,
                self.buf@.len() == HEIGHT,
                forall|j: int| 0 <= j < HEIGHT ==> (#[trigger] self.buf@[j])@.len() == WIDTH,
                forall|j: int| 0 <= j < r ==> (#[trigger] self.buf@[j])@ == Seq::new(WIDTH as nat, |c: int| false),
            decreases HEIGHT - r,
        {
            let mut c: usize = 0;
            while c < WIDTH
                invariant
                    r < HEIGHT,
                    c <= WIDTH,
                    self.buf@.len() == HEIGHT,
                    forall|j: int| 0 <= j < HEIGHT ==> (#[trigger] self.buf@[j])@.len() == WIDTH,
                    forall|j: int| 0 <= j < r ==> (#[trigger] self.buf@[j])@ == Seq::new(WIDTH as nat, |c: int| false),
                    forall|i: int| 0 <= i < c ==> !(#[trigger] self.buf@[r as int]@[i]),
                decreases WIDTH - c,
            {
                self.buf[r][c] = false;
                c = c + 1;
            }
            assert(self.buf@[r as int]@ =~= Seq::new(WIDTH as nat, |c: int| false));
            r = r + 1;
        }
        assert(self@ =~= blank());
    }

    /// XORs the sprite onto the grid and reports whether a pixel went from on to off.
    pub fn add_sprite(&mut self, sprite: Sprite) -> (collision: bool)
        requires
            old(self).wf(),
        ensures
            final(self).wf(),
            final(self)@ == drawn(old(self)@, sprite.bytes@, sprite.x, sprite.y),
            collision == collides(old(self)@, sprite.bytes@, sprite.x, sprite.y),
    {
        proof {
            self.lemma_rows_wf();
        }
        let ghost start = self@;
        let ghost bs = sprite.bytes@;
        let x = sprite.get_x();
        let y = sprite.get_y();
        let bytes = sprite.as_slice();
        let n = bytes.len();
        let mut collision = false;
        let mut j: usize = 0;
        while j < n && (y as usize) < HEIGHT && j < HEIGHT - (y as usize)
            invariant
                j <= n,
                n == bs.len(),
                bytes@ == bs,
                start.len() == HEIGHT,
                forall|r: int| 0 <= r < HEIGHT ==> (#[trigger] start[r]).len() == WIDTH,
                self.buf@.len() == HEIGHT,
                forall|r: int| 0 <= r < HEIGHT ==> (#[trigger] self.buf@[r])@.len() == WIDTH,
                forall|r: int, c: int|
                    0 <= r < HEIGHT && 0 <= c < WIDTH ==> (#[trigger] self.buf@[r]@[c]) == (start[r][c]
                        != covered(bs, x, y, j as int, 0, r, c)),
                collision == exists|r: int, c: int|
                    0 <= r < HEIGHT && 0 <= c < WIDTH && #[trigger] start[r][c] && covered(
                        bs,
                        x,
                        y,
                        j as int,
                        0,
                        r,
                        c,
                    ),
            decreases n - j,
        {
            let row = y as usize + j;
            let byte = bytes[j];
            let mut k: usize = 0;
            while k < 8
                invariant
                    k <= 8,
                    j < n,
                    row == y + j,
                    row < HEIGHT,
                    n == bs.len(),
                    byte == bs[j as int],
                    bytes@ == bs,
                    start.len() == HEIGHT,
                    forall|r: int| 0 <= r < HEIGHT ==> (#[trigger] start[r]).len() == WIDTH,
                    self.buf@.len() == HEIGHT,
                    forall|r: int| 0 <= r < HEIGHT ==> (#[trigger] self.buf@[r])@.len() == WIDTH,
                    forall|r: int, c: int|
                        0 <= r < HEIGHT && 0 <= c < WIDTH ==> (#[trigger] self.buf@[r]@[c]) == (
                        start[r][c] != covered(bs, x, y, j as int, k as int, r, c)),
                    collision == exists|r: int, c: int|
                        0 <= r < HEIGHT && 0 <= c < WIDTH && #[trigger] start[r][c] && covered(
                            bs,
                            x,
                            y,
                            j as int,
                            k as int,
                            r,
                            c,
                        ),
                decreases 8 - k,
            {
                let col = (x as usize + k) % WIDTH;
                let shift: u8 = 7 - (k as u8);
                let bit = (byte >> shift) & 1u8 == 1u8;
                proof {
                    assert((col - x) % (WIDTH as int) == k);
                }
                if bit {
                    if self.buf[row][col] {
                        collision = true;
                    }
                    let flipped = !self.buf[row][col];
                    self.buf[row][col] = flipped;
                }
                k = k + 1;
            }
            j = j + 1;
        }
        assert(self@ =~~= drawn(start, bs, x, y));
        collision
    }

    /// Brings a `REAL_WIDTH` by `REAL_HEIGHT` screen buffer up to date with the grid,
    /// inverting the block of each cell that changed.
    pub fn draw(&self, buf: &mut [u32])
        requires
            self.wf(),
            old(buf)@.len() == REAL_HEIGHT * REAL_WIDTH,
        ensures
            final(buf)@ == presented(old(buf)@, self@),
    {
        proof {
            self.lemma_rows_wf();
        }
        let ghost start = buf@;
        let ghost d = self@;
        let mut n_row: usize = 0;
        while n_row < HEIGHT
            invariant
                n_row <= HEIGHT,
                d == self@,
                self.wf(),
                self.buf@.len() == HEIGHT,
                forall|r: int| 0 <= r < HEIGHT ==> (#[trigger] self.buf@[r])@ == self@[r],
                buf@.len() == REAL_HEIGHT * REAL_WIDTH,
                start.len() == REAL_HEIGHT * REAL_WIDTH,
                forall|p: int|
                    0 <= p < REAL_HEIGHT * REAL_WIDTH ==> #[trigger] buf@[p] == if cell_row(p)
                        < n_row {
                        presented(start, d)[p]
                    } else {
                        start[p]
                    },
            decreases HEIGHT - n_row,
        {
            let mut n_col: usize = 0;
            while n_col < WIDTH
                invariant
                    n_row < HEIGHT,
                    n_col <= WIDTH,
                    d == self@,
                    self.wf(),
                    self.buf@.len() == HEIGHT,
                    forall|r: int| 0 <= r < HEIGHT ==> (#[trigger] self.buf@[r])@ == self@[r],
                    buf@.len() == REAL_HEIGHT * REAL_WIDTH,
                    start.len() == REAL_HEIGHT * REAL_WIDTH,
                    forall|p: int|
                        0 <= p < REAL_HEIGHT * REAL_WIDTH ==> #[trigger] buf@[p] == if cell_row(p)
                            < n_row || (cell_row(p) == n_row && cell_col(p) < n_col) {
                            presented(start, d)[p]
                        } else {
                            start[p]
                        },
                decreases WIDTH - n_col,
            {
                proof {
                    lemma_block_join(n_row as int, n_col as int, 0, 0);
                }
                let start_pixel = n_row * (REAL_WIDTH * SCALE) + n_col * SCALE;
                let pixel_color = buf[start_pixel];
                let last_value = pixel_color != 0;
                let ghost before = buf@;
                proof {
                    assert(before[start_pixel as int] == start[start_pixel as int]);
                    assert(d[n_row as int][n_col as int] == self.buf@[n_row as int]@[n_col as int]);
                }
                if last_value != self.buf[n_row][n_col] {
                    fill_block(buf, n_row, n_col, !pixel_color);
                }
                proof {
                    assert forall|p: int| 0 <= p < REAL_HEIGHT * REAL_WIDTH implies #[trigger] buf@[p]
                        == if cell_row(p) < n_row || (cell_row(p) == n_row && cell_col(p) < n_col
                        + 1) {
                        presented(start, d)[p]
                    } else {
                        start[p]
                    } by {
                        lemma_block_split(p);
                        if cell_row(p) == n_row && cell_col(p) == n_col {
                            assert(block_corner(cell_row(p), cell_col(p)) == start_pixel);
                            assert(presented(start, d)[p] == if (pixel_color != 0) != d[n_row as int][n_col as int] {
                                !pixel_color
                            } else {
                                start[p]
                            });
                        } else {
                            assert(before[p] == buf@[p]);
                        }
                    }
                }
                n_col = n_col + 1;
            }
            n_row = n_row + 1;
        }
        proof {
            assert forall|p: int| 0 <= p < REAL_HEIGHT * REAL_WIDTH implies #[trigger] buf@[p]
                == presented(start, d)[p] by {
                lemma_block_split(p);
            }
        }
        assert(buf@ =~= presented(start, d));
    }
}

impl Default for Display {
    fn default() -> (r: Display)
        ensures
            r.wf(),
            r@ == blank(),
    {
        Display::new()
    }
}

/// Fills the screen block of cell (`r`, `c`) with `color`.
fn fill_block(buf: &mut [u32], r: usize, c: usize, color: u32)
    requires
        old(buf)@.len() == REAL_HEIGHT * REAL_WIDTH,
        r < HEIGHT,
        c < WIDTH,
    ensures
        final(buf)@.len() == old(buf)@.len(),
        forall|p: int|
            0 <= p < REAL_HEIGHT * REAL_WIDTH ==> #[trigger] final(buf)@[p] == if cell_row(p) == r
                && cell_col(p) == c {
                color
            } else {
                old(buf)@[p]
            },
{
    let ghost start = buf@;
    proof {
        lemma_block_join(r as int, c as int, 0, 0);
    }
    let corner = r * (REAL_WIDTH * SCALE) + c * SCALE;
    let mut a: usize = 0;
    while a < SCALE
        invariant
            a <= SCALE,
            r < HEIGHT,
            c < WIDTH,
            corner == block_corner(r as int, c as int),
            buf@.len() == REAL_HEIGHT * REAL_WIDTH,
            forall|p: int|
                0 <= p < REAL_HEIGHT * REAL_WIDTH ==> #[trigger] buf@[p] == if cell_row(p) == r
                    && cell_col(p) == c && off_row(p) < a {
                    color
                } else {
                    start[p]
                },
        decreases SCALE - a,
    {
        let mut b: usize = 0;
        while b < SCALE
            invariant
                a < SCALE,
                b <= SCALE,
                r < HEIGHT,
                c < WIDTH,
                corner == block_corner(r as int, c as int),
                buf@.len() == REAL_HEIGHT * REAL_WIDTH,
                forall|p: int|
                    0 <= p < REAL_HEIGHT * REAL_WIDTH ==> #[trigger] buf@[p] == if cell_row(p) == r
                        && cell_col(p) == c && (off_row(p) < a || (off_row(p) == a && off_col(p)
                        < b)) {
                        color
                    } else {
                        start[p]
                    },
            decreases SCALE - b,
        {
            proof {
                lemma_block_join(r as int, c as int, a as int, b as int);
                assert forall|p: int| 0 <= p < REAL_HEIGHT * REAL_WIDTH && p != block_corner(r as int, c as int) + a * REAL_WIDTH + b implies !(
                cell_row(p) == r && cell_col(p) == c && off_row(p) == a && #[trigger] off_col(p)
                    == b) by {
                    lemma_block_split(p);
                }
            }
            let i = corner + a * REAL_WIDTH + b;
            buf[i] = color;
            b = b + 1;
        }
        a = a + 1;
    }
}

impl Sprite {
    /// Copies up to fifteen rows into a sprite to be drawn at (`x`, `y`).
    pub fn from_slice(slice: &[u8], x: u8, y: u8) -> (r: Sprite)
        requires
            slice@.len() <= 15,
        ensures
            r.bytes@ == slice@,
            r.x == x,
            r.y == y,
    {
        let mut bytes: Vec<u8> = Vec::new();
        let mut k: usize = 0;
        while k < slice.len()
            invariant
                k <= slice@.len(),
                bytes@ == slice@.subrange(0, k as int),
            decreases slice@.len() - k,
        {
            bytes.push(slice[k]);
            k = k + 1;
            assert(bytes@ =~= slice@.subrange(0, k as int));
        }
        assert(bytes@ =~= slice@);
        Sprite { bytes: bytes, x: x, y: y }
    }

    pub fn as_slice(&self) -> (r: &[u8])
        ensures
            r@ == self.bytes@,
    {
        self.bytes.as_slice()
    }

    pub fn get_x(&self) -> (r: u8)
        ensures
            r == self.x,
    {
        self.x
    }

    pub fn get_y(&self) -> (r: u8)
        ensures
            r == self.y,
    {
        self.y
    }
}

} // verus!
