//! Conway's Game of Life on a bounded grid, with a small deterministic
//! random number generator that drops patterns onto the grid.

use vstd::prelude::*;

verus! {

/// The generator's next state: a linear congruential step, modulo 2^64.
pub open spec fn lcg_step(state: u64) -> u64 {
    state.wrapping_mul(1664525).wrapping_add(1013904223)
}

/// The number that a state gives out: its bits 16 to 47.
pub open spec fn lcg_output(state: u64) -> u32 {
    ((state / 0x1_0000) % 0x1_0000_0000) as u32
}

/// A draw from `[lo, hi)`: the new state and the number. An empty range
/// gives `lo` and leaves the state alone.
pub open spec fn picked(state: u64, lo: u32, hi: u32) -> (u64, u32) {
    if hi <= lo {
        (state, lo)
    } else {
        (lcg_step(state), (lo + lcg_output(lcg_step(state)) % ((hi - lo) as u32)) as u32)
    }
}

/// A draw that comes out true `n` times in `d`: the new state and the
/// outcome.
pub open spec fn chanced(state: u64, n: u32, d: u32) -> (u64, bool) {
    (lcg_step(state), lcg_output(lcg_step(state)) % d < n)
}

/// A linear congruential generator.
#[derive(Clone, Copy, Debug)]
pub struct Lcg {
    pub state: u64,
}

impl Lcg {
    /// A generator in the state `seed`.
    pub fn new(seed: u64) -> (g: Lcg)
        ensures
            g.state == seed,
    {
        Lcg { state: seed }
    }

    /// Advances the generator and returns the number of its new state.
    pub fn next_u32(&mut self) -> (out: u32)
        ensures
            final(self).state == lcg_step(old(self).state),
            out == lcg_output(final(self).state),
    {
        self.state = self.state.wrapping_mul(1664525).wrapping_add(1013904223);
        ((self.state / 0x1_0000) % 0x1_0000_0000) as u32
    }

    /// A number in `[lo, hi)`, or `lo` if that range is empty.
    pub fn gen_range(&mut self, lo: u32, hi: u32) -> (out: u32)
        ensures
            (final(self).state, out) == picked(old(self).state, lo, hi),
            lo < hi ==> lo <= out < hi,
    {
        if hi <= lo {
            return lo;
        }
        let r = self.next_u32() % (hi - lo);
        lo + r
    }

    /// True `n` times in `d`.
    pub fn chance(&mut self, n: u32, d: u32) -> (hit: bool)
        requires
            d > 0,
        ensures
            (final(self).state, hit) == chanced(old(self).state, n, d),
    {
        (self.next_u32() % d) < n
    }
}

/// What a grid holds: its size, its cells row by row, the state of its
/// generator and the number of steps taken.
pub struct LifeView {
    pub width: nat,
    pub height: nat,
    pub cells: Seq<bool>,
    pub rng: u64,
    pub tick: u64,
}

/// The seed of the generator of a grid of this size.
pub open spec fn seed_for(width: usize, height: usize) -> u64 {
    0xC0FFEEu64 ^ (width as u64) ^ ((height as u64) << 32)
}

/// A width or height as the spawning rules see it: its low 32 bits.
pub open spec fn low32(n: nat) -> u32 {
    (n % 0x1_0000_0000) as u32
}

/// `a - b`, or zero if that is negative.
pub open spec fn minus(a: u32, b: u32) -> u32 {
    if a >= b {
        (a - b) as u32
    } else {
        0
    }
}

/// Whether `(x, y)` lies on the grid.
pub open spec fn on_grid(v: LifeView, x: int, y: int) -> bool {
    0 <= x < v.width && 0 <= y < v.height
}

/// Whether the cell at `(x, y)` is alive. Cells off the grid are dead.
pub open spec fn alive(v: LifeView, x: int, y: int) -> bool {
    on_grid(v, x, y) && v.cells[y * v.width + x]
}

/// One for true, zero for false.
pub open spec fn one_if(b: bool) -> int {
    if b {
        1
    } else {
        0
    }
}

/// How many of the eight cells around `(x, y)` are alive.
pub open spec fn neighbours(v: LifeView, x: int, y: int) -> int {
    one_if(alive(v, x - 1, y - 1)) + one_if(alive(v, x, y - 1)) + one_if(alive(v, x + 1, y - 1))
        + one_if(alive(v, x - 1, y)) + one_if(alive(v, x + 1, y)) + one_if(
        alive(v, x - 1, y + 1),
    ) + one_if(alive(v, x, y + 1)) + one_if(alive(v, x + 1, y + 1))
}

/// Conway's rule: a live cell stays alive with two or three live
/// neighbours, a dead cell comes alive with exactly three.
pub open spec fn lives_on(v: LifeView, x: int, y: int) -> bool {
    let n = neighbours(v, x, y);
    (alive(v, x, y) && (n == 2 || n == 3)) || (!alive(v, x, y) && n == 3)
}

/// The grid with the cell at `(x, y)` set to `val`; unchanged if `(x, y)`
/// is off the grid.
pub open spec fn with_cell(v: LifeView, x: int, y: int, val: bool) -> LifeView {
    if on_grid(v, x, y) {
        LifeView { cells: v.cells.update(y * v.width + x, val), ..v }
    } else {
        v
    }
}

/// The grid with every cell dead.
pub open spec fn cleared(v: LifeView) -> LifeView {
    LifeView { cells: Seq::new(v.cells.len(), |i: int| false), ..v }
}

/// The grid with the cells at `(x, y)` plus each offset in `pts` alive.
/// Offsets with a negative part are left out.
pub open spec fn stamped(v: LifeView, x: int, y: int, pts: Seq<(int, int)>) -> LifeView
    decreases pts.len(),
{
    if pts.len() == 0 {
        v
    } else {
        let p = pts.last();
        let before = stamped(v, x, y, pts.drop_last());
        if p.0 >= 0 && p.1 >= 0 {
            with_cell(before, x + p.0, y + p.1, true)
        } else {
            before
        }
    }
}

/// `p` turned by `turns` quarter turns about `c`. One quarter turn takes
/// the offset `(dx, dy)` from the centre to `(-dy, dx)`.
pub open spec fn turned(p: (int, int), c: (int, int), turns: int) -> (int, int) {
    let dx = p.0 - c.0;
    let dy = p.1 - c.1;
    if turns % 4 == 0 {
        p
    } else if turns % 4 == 1 {
        (c.0 - dy, c.1 + dx)
    } else if turns % 4 == 2 {
        (c.0 - dx, c.1 - dy)
    } else {
        (c.0 + dy, c.1 - dx)
    }
}

/// Each point of `pts` turned by `turns` quarter turns about `c`.
pub open spec fn all_turned(pts: Seq<(int, int)>, c: (int, int), turns: int) -> Seq<(int, int)> {
    Seq::new(pts.len(), |i: int| turned(pts[i], c, turns))
}

/// The quarter turns that a glider's direction stands for: 0 is up-right,
/// 1 down-left, 2 down-right (the pattern as drawn), 3 up-left.
pub open spec fn glider_turns(dir: u8) -> int {
    if dir % 4 == 0 {
        1
    } else if dir % 4 == 1 {
        3
    } else if dir % 4 == 2 {
        0
    } else {
        2
    }
}

/// A glider, turned about the middle of its three-by-three box.
pub open spec fn glider_points(dir: u8) -> Seq<(int, int)> {
    all_turned(seq![(1, 0), (2, 1), (0, 2), (1, 2), (2, 2)], (1, 1), glider_turns(dir))
}

/// Three cells in a row, or, for an odd direction, in a column.
pub open spec fn blinker_points(dir: u8) -> Seq<(int, int)> {
    if dir % 2 == 0 {
        seq![(0, 0), (1, 0), (2, 0)]
    } else {
        seq![(0, 0), (0, 1), (0, 2)]
    }
}

/// A lightweight spaceship, turned by `dir` quarter turns about `(2, 1)`.
pub open spec fn lwss_points(dir: u8) -> Seq<(int, int)> {
    all_turned(
        seq![(1, 0), (4, 0), (0, 1), (0, 2), (4, 2), (0, 3), (1, 3), (2, 3), (3, 3)],
        (2, 1),
        dir as int,
    )
}

/// A toad, lying or, for an odd direction, standing.
pub open spec fn toad_points(dir: u8) -> Seq<(int, int)> {
    if dir % 2 == 0 {
        seq![(1, 0), (2, 0), (3, 0), (0, 1), (1, 1), (2, 1)]
    } else {
        seq![(0, 1), (0, 2), (0, 3), (1, 0), (1, 1), (1, 2)]
    }
}

/// A beacon: two blocks of two by two cells at opposite corners.
pub open spec fn beacon_points() -> Seq<(int, int)> {
    seq![(0, 0), (3, 3), (1, 0), (4, 3), (0, 1), (3, 4), (1, 1), (4, 4)]
}

/// The grid after a blinker was dropped at a random place.
pub open spec fn with_random_blinker(v: LifeView) -> LifeView {
    if v.width < 3 || v.height < 3 {
        v
    } else {
        let (r1, x) = picked(v.rng, 2, minus(low32(v.width), 2));
        let (r2, y) = picked(r1, 2, minus(low32(v.height), 2));
        let (r3, flat) = chanced(r2, 1, 2);
        stamped(LifeView { rng: r3, ..v }, x as int, y as int, blinker_points(if flat {
            0
        } else {
            1
        }))
    }
}

/// The grid after a toad was dropped at a random place.
pub open spec fn with_random_toad(v: LifeView) -> LifeView {
    if v.width < 6 || v.height < 4 {
        v
    } else {
        let (r1, x) = picked(v.rng, 2, minus(low32(v.width), 4));
        let (r2, y) = picked(r1, 1, minus(low32(v.height), 3));
        let r3 = lcg_step(r2);
        stamped(
            LifeView { rng: r3, ..v },
            x as int,
            y as int,
            toad_points((lcg_output(r3) % 2) as u8),
        )
    }
}

/// The grid after a beacon was dropped at a random place.
pub open spec fn with_random_beacon(v: LifeView) -> LifeView {
    if v.width < 6 || v.height < 6 {
        v
    } else {
        let (r1, x) = picked(v.rng, 2, minus(low32(v.width), 5));
        let (r2, y) = picked(r1, 2, minus(low32(v.height), 5));
        stamped(LifeView { rng: r2, ..v }, x as int, y as int, beacon_points())
    }
}

/// The grid after a blinker, a toad or a beacon, chosen at random, was
/// dropped at a random place.
pub open spec fn with_random_oscillator(v: LifeView) -> LifeView {
    let (r1, choice) = picked(v.rng, 0, 3);
    let w = LifeView { rng: r1, ..v };
    if choice == 0 {
        with_random_blinker(w)
    } else if choice == 1 {
        with_random_toad(w)
    } else {
        with_random_beacon(w)
    }
}

/// The grid after `n` random oscillators were dropped, one after the other.
pub open spec fn with_random_oscillators(v: LifeView, n: nat) -> LifeView
    decreases n,
{
    if n == 0 {
        v
    } else {
        with_random_oscillator(with_random_oscillators(v, (n - 1) as nat))
    }
}

/// `n - k`, or zero if that is negative.
pub open spec fn less(n: nat, k: nat) -> int {
    if n >= k {
        n - k
    } else {
        0
    }
}

/// The grid after a glider was set at a random place on a random edge,
/// heading inward.
pub open spec fn with_inward_glider(v: LifeView) -> LifeView {
    if v.width < 6 || v.height < 6 {
        v
    } else {
        let (r1, side) = picked(v.rng, 0, 4);
        if side == 0 {
            let (r2, x) = picked(r1, 1, minus(low32(v.width), 6));
            stamped(LifeView { rng: r2, ..v }, x as int, 1, glider_points(2))
        } else if side == 1 {
            let (r2, y) = picked(r1, 1, minus(low32(v.height), 6));
            stamped(LifeView { rng: r2, ..v }, less(v.width, 6), y as int, glider_points(3))
        } else if side == 2 {
            let (r2, x) = picked(r1, 1, minus(low32(v.width), 6));
            stamped(LifeView { rng: r2, ..v }, x as int, less(v.height, 6), glider_points(0))
        } else {
            let (r2, y) = picked(r1, 1, minus(low32(v.height), 6));
            stamped(LifeView { rng: r2, ..v }, 1, y as int, glider_points(1))
        }
    }
}

/// The grid after a lightweight spaceship was set at a random place on a
/// random edge, heading inward.
pub open spec fn with_inward_lwss(v: LifeView) -> LifeView {
    if v.width < 8 || v.height < 6 {
        v
    } else {
        let (r1, side) = picked(v.rng, 0, 4);
        if side == 0 {
            let (r2, x) = picked(r1, 1, minus(low32(v.width), 7));
            stamped(LifeView { rng: r2, ..v }, x as int, 1, lwss_points(2))
        } else if side == 1 {
            let (r2, y) = picked(r1, 1, minus(low32(v.height), 5));
            stamped(LifeView { rng: r2, ..v }, less(v.width, 7), y as int, lwss_points(3))
        } else if side == 2 {
            let (r2, x) = picked(r1, 1, minus(low32(v.width), 7));
            stamped(LifeView { rng: r2, ..v }, x as int, less(v.height, 5), lwss_points(0))
        } else {
            let (r2, y) = picked(r1, 1, minus(low32(v.height), 5));
            stamped(LifeView { rng: r2, ..v }, 1, y as int, lwss_points(1))
        }
    }
}

/// The grid after the spawning rule was applied: on every thirtieth step,
/// two times in three, a glider, a spaceship or an oscillator appears, and
/// one time in four a further oscillator.
pub open spec fn with_spawn(v: LifeView) -> LifeView {
    if v.tick % 30 != 0 {
        v
    } else {
        let (r1, hit) = chanced(v.rng, 2, 3);
        let v1 = LifeView { rng: r1, ..v };
        if !hit {
            v1
        } else {
            let (r2, choice) = picked(r1, 0, 6);
            let v2 = LifeView { rng: r2, ..v };
            let v3 = if choice == 0 || choice == 1 {
                with_inward_glider(v2)
            } else if choice == 2 {
                with_inward_lwss(v2)
            } else {
                with_random_oscillator(v2)
            };
            let (r4, again) = chanced(v3.rng, 1, 4);
            let v4 = LifeView { rng: r4, ..v3 };
            if again {
                with_random_oscillator(v4)
            } else {
                v4
            }
        }
    }
}

/// The grid with a pair of gliders, one in row 2 and one in row `low`, at
/// every twelfth column from `x` on while `x + 6` is below `limit`.
pub open spec fn with_glider_rows(v: LifeView, x: int, limit: int, low: int) -> LifeView
    decreases limit + 12 - x,
{
    if x + 6 < limit {
        let top = stamped(v, x, 2, glider_points(2));
        let both = stamped(top, x, low, glider_points(0));
        with_glider_rows(both, x + 12, limit, low)
    } else {
        v
    }
}

/// The starting pattern: an empty grid, and, if it is at least ten wide and
/// seven high, a glider in each corner, gliders along the top and the
/// bottom, and eight random oscillators.
pub open spec fn seeded(v: LifeView) -> LifeView {
    let c = cleared(v);
    if v.width < 10 || v.height < 7 {
        c
    } else {
        let right = minus(low32(v.width), 6) as int;
        let low = minus(low32(v.height), 6) as int;
        let c1 = stamped(c, 2, 2, glider_points(0));
        let c2 = stamped(c1, right, 2, glider_points(1));
        let c3 = stamped(c2, 2, low, glider_points(2));
        let c4 = stamped(c3, right, low, glider_points(3));
        with_random_oscillators(with_glider_rows(c4, 2, low32(v.width) as int, low), 8)
    }
}

/// A new grid of this size before its starting pattern is set.
pub open spec fn blank_view(width: usize, height: usize) -> LifeView {
    LifeView {
        width: width as nat,
        height: height as nat,
        cells: Seq::new((width * height) as nat, |i: int| false),
        rng: seed_for(width, height),
        tick: 0,
    }
}

/// A cell on the grid has its index within the grid's cells.
proof fn lemma_cell_index(width: nat, height: nat, x: int, y: int)
    requires
        0 <= x < width,
        0 <= y < height,
    ensures
        0 <= y * width + x < width * height,
{
    assert(y * width + x < width * height) by (nonlinear_arith)
        requires
            0 <= x < width,
            0 <= y < height,
    ;
    assert(0 <= y * width) by (nonlinear_arith)
        requires
            0 <= y,
            0 <= width,
    ;
}

/// Two different cells of a row-by-row grid have different indices.
proof fn lemma_cell_index_differs(width: nat, x1: int, y1: int, x2: int, y2: int)
    requires
        0 <= x1 < width,
        0 <= x2 < width,
        0 <= y1,
        0 <= y2,
        x1 != x2 || y1 != y2,
    ensures
        y1 * width + x1 != y2 * width + x2,
{
    if y1 < y2 {
        assert(y1 * width + x1 < y2 * width + x2) by (nonlinear_arith)
            requires
                0 <= x1 < width,
                0 <= x2,
                0 <= y1 < y2,
        ;
    } else if y2 < y1 {
        assert(y2 * width + x2 < y1 * width + x1) by (nonlinear_arith)
            requires
                0 <= x2 < width,
                0 <= x1,
                0 <= y2 < y1,
        ;
    }
}

/// One more point of a pattern: stamping the first `k + 1` points is
/// stamping the first `k` and then the point at `k`.
proof fn lemma_stamped_next(v: LifeView, x: int, y: int, pts: Seq<(int, int)>, k: int)
    requires
        0 <= k < pts.len(),
    ensures
        stamped(v, x, y, pts.take(k + 1)) == (if pts[k].0 >= 0 && pts[k].1 >= 0 {
            with_cell(stamped(v, x, y, pts.take(k)), x + pts[k].0, y + pts[k].1, true)
        } else {
            stamped(v, x, y, pts.take(k))
        }),
{
    assert(pts.take(k + 1).drop_last() == pts.take(k));
}

/// A grid of Conway's Game of Life. Cells off the grid count as dead.
pub struct Life {
    pub width: usize,
    pub height: usize,
    cells: Vec<bool>,
    scratch: Vec<bool>,
    rng: Lcg,
    tick: u64,
}

impl View for Life {
    type V = LifeView;

    closed spec fn view(&self) -> LifeView {
        LifeView {
            width: self.width as nat,
            height: self.height as nat,
            cells: self.cells@,
            rng: self.rng.state,
            tick: self.tick,
        }
    }
}

fn blank(n: usize) -> (v: Vec<bool>)
    ensures
        v@ == Seq::new(n as nat, |i: int| false),
{
    let mut v: Vec<bool> = Vec::new();
    let mut i: usize = 0;
    while i < n
        invariant
            i <= n,
            v@ == Seq::new(i as nat, |j: int| false),
        decreases n - i,
    {
        v.push(false);
        i += 1;
        assert(v@ =~= Seq::new(i as nat, |j: int| false));
    }
    v
}

fn low32_of(n: usize) -> (r: u32)
    ensures
        r == low32(n as nat),
{
    (n as u64 % 0x1_0000_0000) as u32
}

fn minus_of(a: u32, b: u32) -> (r: u32)
    ensures
        r == minus(a, b),
{
    if a >= b {
        a - b
    } else {
        0
    }
}

fn less_of(n: usize, k: usize) -> (r: usize)
    ensures
        r == less(n as nat, k as nat),
{
    if n >= k {
        n - k
    } else {
        0
    }
}

fn turn_point(px: i32, py: i32, cx: i32, cy: i32, turns: u8) -> (r: (i32, i32))
    requires
        -64 <= px <= 64,
        -64 <= py <= 64,
        -64 <= cx <= 64,
        -64 <= cy <= 64,
    ensures
        (r.0 as int, r.1 as int) == turned((px as int, py as int), (cx as int, cy as int), turns as int),
{
    let dx = px - cx;
    let dy = py - cy;
    let t = turns % 4;
    if t == 0 {
        (px, py)
    } else if t == 1 {
        (cx - dy, cy + dx)
    } else if t == 2 {
        (cx - dx, cy - dy)
    } else {
        (cx + dy, cy - dx)
    }
}

impl Life {
    /// The grid has one cell for each place, and a second buffer of the
    /// same size.
    pub closed spec fn wf(&self) -> bool {
        &&& self.cells.len() == self.width * self.height
        &&& self.scratch.len() == self.cells.len()
    }

    /// A grid of the given size with the starting pattern on it.
    pub fn new(width: usize, height: usize) -> (life: Life)
        requires
            width * height <= isize::MAX,
        ensures
            life.wf(),
            life@.width == width,
            life@.height == height,
            life@ == seeded(blank_view(width, height)),
    {
        let cap = width * height;
        let mut me = Life {
            width,
            height,
            cells: blank(cap),
            scratch: blank(cap),
            rng: Lcg::new(0xC0FFEEu64 ^ (width as u64) ^ ((height as u64) << 32)),
            tick: 0,
        };
        me.seed_initial();
        me
    }

    /// Gives the grid a new size and starts it afresh. Does nothing if the
    /// size is the old one.
    pub fn resize(&mut self, width: usize, height: usize)
        requires
            old(self).wf(),
            width * height <= isize::MAX,
        ensures
            final(self).wf(),
            final(self)@.width == width,
            final(self)@.height == height,
            final(self)@ == (if width == old(self)@.width && height == old(self)@.height {
                old(self)@
            } else {
                seeded(blank_view(width, height))
            }),
    {
        if width == self.width && height == self.height {
            return ;
        }
        self.width = width;
        self.height = height;
        let cap = width * height;
        self.cells = blank(cap);
        self.scratch = blank(cap);
        self.rng = Lcg::new(0xC0FFEEu64 ^ (width as u64) ^ ((height as u64) << 32));
        self.tick = 0;
        self.seed_initial();
    }

    fn idx(&self, x: usize, y: usize) -> (i: usize)
        requires
            y * self.width + x <= usize::MAX,
        ensures
            i == y * self.width + x,
    {
        assert(y * self.width <= y * self.width + x);
        y * self.width + x
    }

    /// The cell at row-by-row position `y * width + x`.
    pub fn get(&self, x: usize, y: usize) -> (cell: bool)
        requires
            self.wf(),
            y * self@.width + x < self@.width * self@.height,
        ensures
            cell == self@.cells[y * self@.width + x],
            x < self@.width && y < self@.height ==> cell == alive(self@, x as int, y as int),
    {
        self.cells[self.idx(x, y)]
    }

    /// Sets the cell at `(x, y)`; does nothing if that is off the grid.
    pub fn set(&mut self, x: usize, y: usize, val: bool)
        requires
            old(self).wf(),
        ensures
            final(self).wf(),
            final(self)@.width == old(self)@.width,
            final(self)@.height == old(self)@.height,
            final(self)@ == with_cell(old(self)@, x as int, y as int, val),
    {
        if x < self.width && y < self.height {
            proof {
                lemma_cell_index(self.width as nat, self.height as nat, x as int, y as int);
            }
            let i = self.idx(x, y);
            self.cells.set(i, val);
        }
    }

    /// Makes every cell dead.
    pub fn clear(&mut self)
        requires
            old(self).wf(),
        ensures
            final(self).wf(),
            final(self)@.width == old(self)@.width,
            final(self)@.height == old(self)@.height,
            final(self)@ == cleared(old(self)@),
    {
        let n = self.cells.len();
        let mut i: usize = 0;
        while i < n
            invariant
                i <= n == self.cells.len(),
                self.wf(),
                self.width == old(self).width,
                self.height == old(self).height,
                self.rng == old(self).rng,
                self.tick == old(self).tick,
                forall|j: int| 0 <= j < i ==> !self.cells@[j],
            decreases n - i,
        {
            self.cells.set(i, false);
            i += 1;
        }
        assert(self.cells@ =~= Seq::new(old(self).cells@.len(), |i: int| false));
    }

    fn probe(&self, x: usize, y: usize, dx: i8, dy: i8) -> (cell: bool)
        requires
            self.wf(),
            x < self.width,
            y < self.height,
            -1 <= dx <= 1,
            -1 <= dy <= 1,
        ensures
            cell == alive(self@, x + dx, y + dy),
    {
        if (dx < 0 && x == 0) || (dy < 0 && y == 0) {
            return false;
        }
        let nx: usize = if dx < 0 {
            x - 1
        } else if dx > 0 {
            x + 1
        } else {
            x
        };
        let ny: usize = if dy < 0 {
            y - 1
        } else if dy > 0 {
            y + 1
        } else {
            y
        };
        if nx >= self.width || ny >= self.height {
            return false;
        }
        proof {
            lemma_cell_index(self.width as nat, self.height as nat, nx as int, ny as int);
        }
        self.cells[self.idx(nx, ny)]
    }

    fn count_neighbours(&self, x: usize, y: usize) -> (n: u8)
        requires
            self.wf(),
            x < self.width,
            y < self.height,
        ensures
            n == neighbours(self@, x as int, y as int),
    {
        let mut n: u8 = 0;
        if self.probe(x, y, -1, -1) {
            n += 1;
        }
        if self.probe(x, y, 0, -1) {
            n += 1;
        }
        if self.probe(x, y, 1, -1) {
            n += 1;
        }
        if self.probe(x, y, -1, 0) {
            n += 1;
        }
        if self.probe(x, y, 1, 0) {
            n += 1;
        }
        if self.probe(x, y, -1, 1) {
            n += 1;
        }
        if self.probe(x, y, 0, 1) {
            n += 1;
        }
        if self.probe(x, y, 1, 1) {
            n += 1;
        }
        n
    }

    /// One generation: every cell on the grid follows Conway's rule, and
    /// the step counter goes up by one, wrapping round.
    pub fn step(&mut self)
        requires
            old(self).wf(),
        ensures
            final(self).wf(),
            final(self)@.width == old(self)@.width,
            final(self)@.height == old(self)@.height,
            final(self)@.width == old(self)@.width,
            final(self)@.height == old(self)@.height,
            final(self)@.cells.len() == old(self)@.cells.len(),
            final(self)@.rng == old(self)@.rng,
            final(self)@.tick == old(self)@.tick.wrapping_add(1),
            forall|x: int, y: int|
                on_grid(old(self)@, x, y) ==> alive(final(self)@, x, y) == #[trigger] lives_on(
                    old(self)@,
                    x,
                    y,
                ),
    {
        let w = self.width;
        let h = self.height;
        let mut y: usize = 0;
        while y < h
            invariant
                y <= h,
                self.wf(),
                w == self.width == old(self).width,
                h == self.height == old(self).height,
                self.cells@ == old(self).cells@,
                self.rng == old(self).rng,
                self.tick == old(self).tick,
                forall|cx: int, cy: int|
                    0 <= cx < w && 0 <= cy < y ==> self.scratch@[cy * w + cx] == #[trigger] lives_on(
                        old(self)@,
                        cx,
                        cy,
                    ),
            decreases h - y,
        {
            let mut x: usize = 0;
            while x < w
                invariant
                    x <= w,
                    y < h,
                    self.wf(),
                    w == self.width == old(self).width,
                    h == self.height == old(self).height,
                    self.cells@ == old(self).cells@,
                    self.rng == old(self).rng,
                    self.tick == old(self).tick,
                    forall|cx: int, cy: int|
                        0 <= cx < w && 0 <= cy < y ==> self.scratch@[cy * w + cx]
                            == #[trigger] lives_on(old(self)@, cx, cy),
                    forall|cx: int|
                        0 <= cx < x ==> self.scratch@[y * w + cx] == #[trigger] lives_on(
                            old(self)@,
                            cx,
                            y as int,
                        ),
                decreases w - x,
            {
                let n = self.count_neighbours(x, y);
                proof {
                    lemma_cell_index(w as nat, h as nat, x as int, y as int);
                }
                let i = self.idx(x, y);
                let was = self.cells[i];
                let next = (was && (n == 2 || n == 3)) || (!was && n == 3);
                let ghost before = self.scratch@;
                self.scratch.set(i, next);
                proof {
                    assert(self@ == old(self)@);
                    assert forall|cx: int, cy: int| 0 <= cx < w && 0 <= cy < y implies self.scratch@[cy
                        * w + cx] == #[trigger] lives_on(old(self)@, cx, cy) by {
                        lemma_cell_index(w as nat, h as nat, cx, cy);
                        lemma_cell_index_differs(w as nat, cx, cy, x as int, y as int);
                        assert(before[cy * w + cx] == lives_on(old(self)@, cx, cy));
                    }
                    assert forall|cx: int| 0 <= cx < x + 1 implies self.scratch@[y * w + cx]
                        == #[trigger] lives_on(old(self)@, cx, y as int) by {
                        lemma_cell_index(w as nat, h as nat, cx, y as int);
                        if cx < x {
                            lemma_cell_index_differs(w as nat, cx, y as int, x as int, y as int);
                            assert(before[y * w + cx] == lives_on(old(self)@, cx, y as int));
                        }
                    }
                }
                x += 1;
            }
            y += 1;
        }
        let ghost src = self.scratch@;
        core::mem::swap(&mut self.cells, &mut self.scratch);
        self.tick = self.tick.wrapping_add(1);
        proof {
            assert forall|x: int, y: int| on_grid(old(self)@, x, y) implies alive(self@, x, y)
                == #[trigger] lives_on(old(self)@, x, y) by {
                lemma_cell_index(w as nat, h as nat, x, y);
                assert(src[y * w + x] == lives_on(old(self)@, x, y));
            }
        }
    }

    /// Applies the spawning rule of this step.
    pub fn maybe_spawn(&mut self)
        requires
            old(self).wf(),
        ensures
            final(self).wf(),
            final(self)@.width == old(self)@.width,
            final(self)@.height == old(self)@.height,
            final(self)@ == with_spawn(old(self)@),
    {
        if self.tick % 30 == 0 && self.rng.chance(2, 3) {
            let choice = self.rng.gen_range(0, 6);
            if choice == 0 || choice == 1 {
                self.spawn_glider_inward();
            } else if choice == 2 {
                self.spawn_lwss_inward();
            } else {
                self.spawn_oscillator_random();
            }
            if self.rng.chance(1, 4) {
                self.spawn_oscillator_random();
            }
        }
    }

    /// Clears the grid and sets the starting pattern.
    pub fn seed_initial(&mut self)
        requires
            old(self).wf(),
        ensures
            final(self).wf(),
            final(self)@.width == old(self)@.width,
            final(self)@.height == old(self)@.height,
            final(self)@ == seeded(old(self)@),
    {
        self.clear();
        if self.width < 10 || self.height < 7 {
            return ;
        }
        let w = low32_of(self.width);
        let h = low32_of(self.height);
        let right = minus_of(w, 6) as usize;
        let low = minus_of(h, 6) as usize;
        self.seed_glider(2, 2, 0);
        self.seed_glider(right, 2, 1);
        self.seed_glider(2, low, 2);
        self.seed_glider(right, low, 3);
        let ghost corners = self@;
        let mut x: u64 = 2;
        while x + 6 < w as u64
            invariant
                2 <= x <= w as u64 + 12,
                self.wf(),
                self.width == old(self).width,
                self.height == old(self).height,
                w == low32(self.width as nat),
                with_glider_rows(self@, x as int, w as int, low as int) == with_glider_rows(
                    corners,
                    2,
                    w as int,
                    low as int,
                ),
            decreases w as u64 + 12 - x,
        {
            self.seed_glider(x as usize, 2, 2);
            self.seed_glider(x as usize, low, 0);
            x += 12;
        }
        let ghost rows = self@;
        let mut i: u8 = 0;
        while i < 8
            invariant
                i <= 8,
                self.wf(),
                self.width == old(self).width,
                self.height == old(self).height,
                self@ == with_random_oscillators(rows, i as nat),
            decreases 8 - i,
        {
            self.spawn_oscillator_random();
            i += 1;
        }
    }

    fn spawn_glider_inward(&mut self)
        requires
            old(self).wf(),
        ensures
            final(self).wf(),
            final(self)@.width == old(self)@.width,
            final(self)@.height == old(self)@.height,
            final(self)@ == with_inward_glider(old(self)@),
    {
        if self.width < 6 || self.height < 6 {
            return ;
        }
        let side = self.rng.gen_range(0, 4);
        if side == 0 {
            let x = self.rng.gen_range(1, minus_of(low32_of(self.width), 6)) as usize;
            self.seed_glider(x, 1, 2);
        } else if side == 1 {
            let y = self.rng.gen_range(1, minus_of(low32_of(self.height), 6)) as usize;
            let x = less_of(self.width, 6);
            self.seed_glider(x, y, 3);
        } else if side == 2 {
            let x = self.rng.gen_range(1, minus_of(low32_of(self.width), 6)) as usize;
            let y = less_of(self.height, 6);
            self.seed_glider(x, y, 0);
        } else {
            let y = self.rng.gen_range(1, minus_of(low32_of(self.height), 6)) as usize;
            self.seed_glider(1, y, 1);
        }
    }

    fn spawn_lwss_inward(&mut self)
        requires
            old(self).wf(),
        ensures
            final(self).wf(),
            final(self)@.width == old(self)@.width,
            final(self)@.height == old(self)@.height,
            final(self)@ == with_inward_lwss(old(self)@),
    {
        if self.width < 8 || self.height < 6 {
            return ;
        }
        let side = self.rng.gen_range(0, 4);
        if side == 0 {
            let x = self.rng.gen_range(1, minus_of(low32_of(self.width), 7)) as usize;
            self.seed_lwss(x, 1, 2);
        } else if side == 1 {
            let y = self.rng.gen_range(1, minus_of(low32_of(self.height), 5)) as usize;
            let x = less_of(self.width, 7);
            self.seed_lwss(x, y, 3);
        } else if side == 2 {
            let x = self.rng.gen_range(1, minus_of(low32_of(self.width), 7)) as usize;
            let y = less_of(self.height, 5);
            self.seed_lwss(x, y, 0);
        } else {
            let y = self.rng.gen_range(1, minus_of(low32_of(self.height), 5)) as usize;
            self.seed_lwss(1, y, 1);
        }
    }

    fn spawn_blinker_random(&mut self)
        requires
            old(self).wf(),
        ensures
            final(self).wf(),
            final(self)@.width == old(self)@.width,
            final(self)@.height == old(self)@.height,
            final(self)@ == with_random_blinker(old(self)@),
    {
        if self.width < 3 || self.height < 3 {
            return ;
        }
        let x = self.rng.gen_range(2, minus_of(low32_of(self.width), 2)) as usize;
        let y = self.rng.gen_range(2, minus_of(low32_of(self.height), 2)) as usize;
        let d: u8 = if self.rng.chance(1, 2) {
            0
        } else {
            1
        };
        self.seed_blinker(x, y, d);
    }

    fn spawn_oscillator_random(&mut self)
        requires
            old(self).wf(),
        ensures
            final(self).wf(),
            final(self)@.width == old(self)@.width,
            final(self)@.height == old(self)@.height,
            final(self)@ == with_random_oscillator(old(self)@),
    {
        let choice = self.rng.gen_range(0, 3);
        if choice == 0 {
            self.spawn_blinker_random();
        } else if choice == 1 {
            self.spawn_toad_random();
        } else {
            self.spawn_beacon_random();
        }
    }

    fn spawn_toad_random(&mut self)
        requires
            old(self).wf(),
        ensures
            final(self).wf(),
            final(self)@.width == old(self)@.width,
            final(self)@.height == old(self)@.height,
            final(self)@ == with_random_toad(old(self)@),
    {
        if self.width < 6 || self.height < 4 {
            return ;
        }
        let x = self.rng.gen_range(2, minus_of(low32_of(self.width), 4)) as usize;
        let y = self.rng.gen_range(1, minus_of(low32_of(self.height), 3)) as usize;
        let dir = (self.rng.next_u32() % 2) as u8;
        self.seed_toad(x, y, dir);
    }

    fn spawn_beacon_random(&mut self)
        requires
            old(self).wf(),
        ensures
            final(self).wf(),
            final(self)@.width == old(self)@.width,
            final(self)@.height == old(self)@.height,
            final(self)@ == with_random_beacon(old(self)@),
    {
        if self.width < 6 || self.height < 6 {
            return ;
        }
        let x = self.rng.gen_range(2, minus_of(low32_of(self.width), 5)) as usize;
        let y = self.rng.gen_range(2, minus_of(low32_of(self.height), 5)) as usize;
        self.seed_beacon(x, y);
    }

    /// Makes the cell at `(x + dx, y + dy)` alive as point `k` of the
    /// pattern `pts` that is being stamped onto `start`.
    fn stamp_next(
        &mut self,
        x: usize,
        y: usize,
        dx: i32,
        dy: i32,
        Ghost(start): Ghost<LifeView>,
        Ghost(pts): Ghost<Seq<(int, int)>>,
        Ghost(k): Ghost<int>,
    )
        requires
            old(self).wf(),
            0 <= k < pts.len(),
            pts[k] == (dx as int, dy as int),
            old(self)@ == stamped(start, x as int, y as int, pts.take(k)),
        ensures
            final(self).wf(),
            final(self)@.width == old(self)@.width,
            final(self)@.height == old(self)@.height,
            final(self)@ == stamped(start, x as int, y as int, pts.take(k + 1)),
    {
        proof {
            lemma_stamped_next(start, x as int, y as int, pts, k);
        }
        if dx < 0 || dy < 0 {
            return ;
        }
        let px = x.checked_add(dx as usize);
        let py = y.checked_add(dy as usize);
        match (px, py) {
            (Some(px), Some(py)) => {
                self.set(px, py, true);
            },
            _ => {},
        }
    }

    /// Sets a glider with its box's corner at `(x, y)`. `dir` gives its
    /// heading: 0 up-right, 1 down-left, 2 down-right, 3 up-left.
    pub fn seed_glider(&mut self, x: usize, y: usize, dir: u8)
        requires
            old(self).wf(),
        ensures
            final(self).wf(),
            final(self)@.width == old(self)@.width,
            final(self)@.height == old(self)@.height,
            final(self)@ == stamped(old(self)@, x as int, y as int, glider_points(dir)),
    {
        let turns: u8 = match dir % 4 {
            0 => 1,
            1 => 3,
            2 => 0,
            _ => 2,
        };
        let ghost start = self@;
        let ghost pts = glider_points(dir);
        let p = turn_point(1, 0, 1, 1, turns);
        self.stamp_next(x, y, p.0, p.1, Ghost(start), Ghost(pts), Ghost(0));
        let p = turn_point(2, 1, 1, 1, turns);
        self.stamp_next(x, y, p.0, p.1, Ghost(start), Ghost(pts), Ghost(1));
        let p = turn_point(0, 2, 1, 1, turns);
        self.stamp_next(x, y, p.0, p.1, Ghost(start), Ghost(pts), Ghost(2));
        let p = turn_point(1, 2, 1, 1, turns);
        self.stamp_next(x, y, p.0, p.1, Ghost(start), Ghost(pts), Ghost(3));
        let p = turn_point(2, 2, 1, 1, turns);
        self.stamp_next(x, y, p.0, p.1, Ghost(start), Ghost(pts), Ghost(4));
        assert(pts.take(5) == pts);
    }

    /// Sets three cells in a row from `(x, y)` to the right, or, for an odd
    /// `dir`, downward.
    pub fn seed_blinker(&mut self, x: usize, y: usize, dir: u8)
        requires
            old(self).wf(),
        ensures
            final(self).wf(),
            final(self)@.width == old(self)@.width,
            final(self)@.height == old(self)@.height,
            final(self)@ == stamped(old(self)@, x as int, y as int, blinker_points(dir)),
    {
        let ghost start = self@;
        let ghost pts = blinker_points(dir);
        if dir % 2 == 0 {
            self.stamp_next(x, y, 0, 0, Ghost(start), Ghost(pts), Ghost(0));
            self.stamp_next(x, y, 1, 0, Ghost(start), Ghost(pts), Ghost(1));
            self.stamp_next(x, y, 2, 0, Ghost(start), Ghost(pts), Ghost(2));
        } else {
            self.stamp_next(x, y, 0, 0, Ghost(start), Ghost(pts), Ghost(0));
            self.stamp_next(x, y, 0, 1, Ghost(start), Ghost(pts), Ghost(1));
            self.stamp_next(x, y, 0, 2, Ghost(start), Ghost(pts), Ghost(2));
        }
        assert(pts.take(3) == pts);
    }

    /// Sets a lightweight spaceship, turned by `dir` quarter turns about the
    /// point `(2, 1)` of its box, whose corner is `(x, y)`. Cells that the
    /// turn takes left of `x` or above `y` are left out.
    pub fn seed_lwss(&mut self, x: usize, y: usize, dir: u8)
        requires
            old(self).wf(),
        ensures
            final(self).wf(),
            final(self)@.width == old(self)@.width,
            final(self)@.height == old(self)@.height,
            final(self)@ == stamped(old(self)@, x as int, y as int, lwss_points(dir)),
    {
        let ghost start = self@;
        let ghost pts = lwss_points(dir);
        let p = turn_point(1, 0, 2, 1, dir);
        self.stamp_next(x, y, p.0, p.1, Ghost(start), Ghost(pts), Ghost(0));
        let p = turn_point(4, 0, 2, 1, dir);
        self.stamp_next(x, y, p.0, p.1, Ghost(start), Ghost(pts), Ghost(1));
        let p = turn_point(0, 1, 2, 1, dir);
        self.stamp_next(x, y, p.0, p.1, Ghost(start), Ghost(pts), Ghost(2));
        let p = turn_point(0, 2, 2, 1, dir);
        self.stamp_next(x, y, p.0, p.1, Ghost(start), Ghost(pts), Ghost(3));
        let p = turn_point(4, 2, 2, 1, dir);
        self.stamp_next(x, y, p.0, p.1, Ghost(start), Ghost(pts), Ghost(4));
        let p = turn_point(0, 3, 2, 1, dir);
        self.stamp_next(x, y, p.0, p.1, Ghost(start), Ghost(pts), Ghost(5));
        let p = turn_point(1, 3, 2, 1, dir);
        self.stamp_next(x, y, p.0, p.1, Ghost(start), Ghost(pts), Ghost(6));
        let p = turn_point(2, 3, 2, 1, dir);
        self.stamp_next(x, y, p.0, p.1, Ghost(start), Ghost(pts), Ghost(7));
        let p = turn_point(3, 3, 2, 1, dir);
        self.stamp_next(x, y, p.0, p.1, Ghost(start), Ghost(pts), Ghost(8));
        assert(pts.take(9) == pts);
    }

    /// Sets a toad with its box's corner at `(x, y)`, lying or, for an odd
    /// `dir`, standing.
    pub fn seed_toad(&mut self, x: usize, y: usize, dir: u8)
        requires
            old(self).wf(),
        ensures
            final(self).wf(),
            final(self)@.width == old(self)@.width,
            final(self)@.height == old(self)@.height,
            final(self)@ == stamped(old(self)@, x as int, y as int, toad_points(dir)),
    {
        let ghost start = self@;
        let ghost pts = toad_points(dir);
        if dir % 2 == 0 {
            self.stamp_next(x, y, 1, 0, Ghost(start), Ghost(pts), Ghost(0));
            self.stamp_next(x, y, 2, 0, Ghost(start), Ghost(pts), Ghost(1));
            self.stamp_next(x, y, 3, 0, Ghost(start), Ghost(pts), Ghost(2));
            self.stamp_next(x, y, 0, 1, Ghost(start), Ghost(pts), Ghost(3));
            self.stamp_next(x, y, 1, 1, Ghost(start), Ghost(pts), Ghost(4));
            self.stamp_next(x, y, 2, 1, Ghost(start), Ghost(pts), Ghost(5));
        } else {
            self.stamp_next(x, y, 0, 1, Ghost(start), Ghost(pts), Ghost(0));
            self.stamp_next(x, y, 0, 2, Ghost(start), Ghost(pts), Ghost(1));
            self.stamp_next(x, y, 0, 3, Ghost(start), Ghost(pts), Ghost(2));
            self.stamp_next(x, y, 1, 0, Ghost(start), Ghost(pts), Ghost(3));
            self.stamp_next(x, y, 1, 1, Ghost(start), Ghost(pts), Ghost(4));
            self.stamp_next(x, y, 1, 2, Ghost(start), Ghost(pts), Ghost(5));
        }
        assert(pts.take(6) == pts);
    }

    /// Sets a beacon with its box's corner at `(x, y)`.
    pub fn seed_beacon(&mut self, x: usize, y: usize)
        requires
            old(self).wf(),
        ensures
            final(self).wf(),
            final(self)@.width == old(self)@.width,
            final(self)@.height == old(self)@.height,
            final(self)@ == stamped(old(self)@, x as int, y as int, beacon_points()),
    {
        let ghost start = self@;
        let ghost pts = beacon_points();
        self.stamp_next(x, y, 0, 0, Ghost(start), Ghost(pts), Ghost(0));
        self.stamp_next(x, y, 3, 3, Ghost(start), Ghost(pts), Ghost(1));
        self.stamp_next(x, y, 1, 0, Ghost(start), Ghost(pts), Ghost(2));
        self.stamp_next(x, y, 4, 3, Ghost(start), Ghost(pts), Ghost(3));
        self.stamp_next(x, y, 0, 1, Ghost(start), Ghost(pts), Ghost(4));
        self.stamp_next(x, y, 3, 4, Ghost(start), Ghost(pts), Ghost(5));
        self.stamp_next(x, y, 1, 1, Ghost(start), Ghost(pts), Ghost(6));
        self.stamp_next(x, y, 4, 4, Ghost(start), Ghost(pts), Ghost(7));
        assert(pts.take(8) == pts);
    }
}

} // verus!
