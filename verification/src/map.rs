use vstd::prelude::*;

use crate::knowledge::{grid_of, grid_set, grid_trues, lemma_grid_trues_bounds,
    lemma_grid_trues_update_row, lemma_grid_trues_zero, lemma_row_trues_update};
use crate::types::TileType;

verus! {

/// The planetary terrain: a square grid of ground-truth tiles and the fixed
/// coordinates of the central station.
pub struct TerrainMap {
    pub tiles: Vec<Vec<TileType>>,
    pub station_x: usize,
    pub station_y: usize,
}

/// Chebyshev distance at most 2: the protected block around the station.
pub open spec fn near_station(sx: int, sy: int, x: int, y: int) -> bool {
    -2 <= x - sx <= 2 && -2 <= y - sy <= 2
}

/// 8-connectivity: distinct cells whose coordinates differ by at most one.
pub open spec fn adjacent8(x1: int, y1: int, x2: int, y2: int) -> bool {
    (x1 != x2 || y1 != y2) && -1 <= x2 - x1 <= 1 && -1 <= y2 - y1 <= 1
}

/// An in-bounds cell that is not an obstacle.
pub open spec fn open_cell(g: Seq<Seq<TileType>>, x: int, y: int) -> bool {
    0 <= y < g.len() && 0 <= x < g[y].len() && g[y][x] != TileType::Obstacle
}

/// A walk over open cells, each step 8-adjacent to the previous one.
pub open spec fn is_open_path(g: Seq<Seq<TileType>>, p: Seq<(int, int)>) -> bool {
    &&& forall|i: int| 0 <= i < p.len() ==> open_cell(g, (#[trigger] p[i]).0, p[i].1)
    &&& forall|i: int|
        0 <= i < p.len() - 1 ==> adjacent8(
            (#[trigger] p[i]).0,
            p[i].1,
            p[i + 1].0,
            p[i + 1].1,
        )
}

/// An 8-connected path of non-obstacle cells leads from one cell to the other.
pub open spec fn connected(g: Seq<Seq<TileType>>, x1: int, y1: int, x2: int, y2: int) -> bool {
    exists|p: Seq<(int, int)>|
        {
            &&& #[trigger] is_open_path(g, p)
            &&& p.len() > 0
            &&& p.first() == (x1, y1)
            &&& p.last() == (x2, y2)
        }
}

/// An open cell is connected to itself.
pub proof fn lemma_connected_refl(g: Seq<Seq<TileType>>, x: int, y: int)
    requires
        open_cell(g, x, y),
    ensures
        connected(g, x, y, x, y),
{
    let p: Seq<(int, int)> = seq![(x, y)];
    assert(is_open_path(g, p));
    assert(p.first() == (x, y) && p.last() == (x, y));
}

/// A connection extends by one step onto an adjacent open cell.
pub proof fn lemma_connected_step(
    g: Seq<Seq<TileType>>,
    x1: int,
    y1: int,
    x2: int,
    y2: int,
    x3: int,
    y3: int,
)
    requires
        connected(g, x1, y1, x2, y2),
        adjacent8(x2, y2, x3, y3),
        open_cell(g, x3, y3),
    ensures
        connected(g, x1, y1, x3, y3),
{
    let p = choose|p: Seq<(int, int)>|
        {
            &&& #[trigger] is_open_path(g, p)
            &&& p.len() > 0
            &&& p.first() == (x1, y1)
            &&& p.last() == (x2, y2)
        };
    let q = p.push((x3, y3));
    assert forall|i: int| 0 <= i < q.len() implies open_cell(g, (#[trigger] q[i]).0, q[i].1) by {
        if i < p.len() {
            assert(q[i] == p[i]);
        }
    }
    assert forall|i: int| 0 <= i < q.len() - 1 implies adjacent8(
        (#[trigger] q[i]).0,
        q[i].1,
        q[i + 1].0,
        q[i + 1].1,
    ) by {
        if i < p.len() - 1 {
            assert(q[i] == p[i] && q[i + 1] == p[i + 1]);
        } else {
            assert(q[i] == p[p.len() - 1] && q[i + 1] == (x3, y3));
        }
    }
    assert(is_open_path(g, q));
    assert(q.first() == (x1, y1) && q.last() == (x3, y3));
}

/// Connectivity survives any change that keeps every open cell open
/// (clearing obstacles never severs a path).
pub proof fn lemma_connected_monotone(
    g1: Seq<Seq<TileType>>,
    g2: Seq<Seq<TileType>>,
    x1: int,
    y1: int,
    x2: int,
    y2: int,
)
    requires
        connected(g1, x1, y1, x2, y2),
        forall|x: int, y: int| #[trigger] open_cell(g1, x, y) ==> open_cell(g2, x, y),
    ensures
        connected(g2, x1, y1, x2, y2),
{
    let p = choose|p: Seq<(int, int)>|
        {
            &&& #[trigger] is_open_path(g1, p)
            &&& p.len() > 0
            &&& p.first() == (x1, y1)
            &&& p.last() == (x2, y2)
        };
    assert forall|i: int| 0 <= i < p.len() implies open_cell(g2, (#[trigger] p[i]).0, p[i].1) by {
        assert(open_cell(g1, p[i].0, p[i].1));
    }
    assert(is_open_path(g2, p));
}

/// The flag grid `v` is closed under stepping from a flagged open cell onto
/// an adjacent open cell.
pub open spec fn visited_closed(g: Seq<Seq<TileType>>, v: Seq<Seq<bool>>) -> bool {
    forall|x1: int, y1: int, x2: int, y2: int|
        #![trigger v[y1][x1], v[y2][x2]]
        open_cell(g, x1, y1) && 0 <= y1 < v.len() && 0 <= x1 < v[y1].len() && v[y1][x1]
            && adjacent8(x1, y1, x2, y2) && open_cell(g, x2, y2) && 0 <= y2 < v.len() && 0 <= x2
            < v[y2].len() ==> v[y2][x2]
}

/// A flag grid that holds a path's start and is closed under adjacency holds
/// the path's end: nothing outside the flags is reachable from inside.
proof fn lemma_walk_visited(g: Seq<Seq<TileType>>, v: Seq<Seq<bool>>, p: Seq<(int, int)>)
    requires
        v.len() == g.len(),
        forall|y: int| 0 <= y < v.len() ==> (#[trigger] v[y]).len() == v.len(),
        forall|y: int| 0 <= y < g.len() ==> (#[trigger] g[y]).len() == g.len(),
        visited_closed(g, v),
        is_open_path(g, p),
        p.len() >= 1,
        v[p.first().1][p.first().0],
    ensures
        v[p.last().1][p.last().0],
    decreases p.len(),
{
    if p.len() > 1 {
        let q = p.drop_last();
        assert forall|i: int| 0 <= i < q.len() implies open_cell(
            g,
            (#[trigger] q[i]).0,
            q[i].1,
        ) by {
            assert(q[i] == p[i]);
        }
        assert forall|i: int| 0 <= i < q.len() - 1 implies adjacent8(
            (#[trigger] q[i]).0,
            q[i].1,
            q[i + 1].0,
            q[i + 1].1,
        ) by {
            assert(q[i] == p[i] && q[i + 1] == p[i + 1]);
        }
        lemma_walk_visited(g, v, q);
        let a = p[p.len() - 2];
        let b = p[p.len() - 1];
        assert(adjacent8(a.0, a.1, b.0, b.1));
        assert(open_cell(g, a.0, a.1) && open_cell(g, b.0, b.1));
        assert(v[a.1][a.0]);
        assert(v[b.1][b.0]);
    }
}

/// Relies on rand::random: a sample of the thread-local generator's `Standard`
/// distribution; nothing is promised of the value drawn.
pub assume_specification<T>[ rand::random::<T> ]() -> (r: T)
    where
        rand::distributions::Standard: rand::distributions::Distribution<T>,
;

/// How the coherent-noise field, scaled to thousandths, partitions into tiles.
pub open spec fn classify_spec(v: int) -> TileType {
    if v > 500 {
        TileType::Obstacle
    } else if v > 300 {
        TileType::Energy
    } else if v > 100 {
        TileType::Mineral
    } else if v > 0 {
        TileType::Scientific
    } else {
        TileType::Empty
    }
}

/// What generation owes a cell before connectivity repair: cells near the
/// grid-center station are forced empty, every other cell is classified by its
/// noise value.
pub open spec fn base_tile(noise: Seq<Seq<i32>>, x: int, y: int) -> TileType {
    if near_station(noise.len() as int / 2, noise.len() as int / 2, x, y) {
        TileType::Empty
    } else {
        classify_spec(noise[y][x] as int)
    }
}

/// Classifies one noise sample, given in thousandths of the field's unit range.
pub fn classify_noise(v: i32) -> (t: TileType)
    ensures
        t == classify_spec(v as int),
{
    if v > 500 {
        TileType::Obstacle
    } else if v > 300 {
        TileType::Energy
    } else if v > 100 {
        TileType::Mineral
    } else if v > 0 {
        TileType::Scientific
    } else {
        TileType::Empty
    }
}

/// Which cells of a tile grid hold the given tile kind.
pub open spec fn tile_mask(g: Seq<Seq<TileType>>, t: TileType) -> Seq<Seq<bool>> {
    Seq::new(g.len(), |y: int| Seq::new(g[y].len(), |x: int| g[y][x] == t))
}

/// How many cells of a tile grid hold the given tile kind.
pub open spec fn tile_count(g: Seq<Seq<TileType>>, t: TileType) -> int {
    grid_trues(tile_mask(g, t))
}

/// `v` lies between `a` and `b`, whichever order they come in.
pub open spec fn within_span(v: int, a: int, b: int) -> bool {
    (a <= v && v <= b) || (b <= v && v <= a)
}

/// Distance between two coordinates.
pub open spec fn dist1(a: int, b: int) -> int {
    if a <= b {
        b - a
    } else {
        a - b
    }
}

/// A square grid of `false` flags.
fn false_grid(n: usize) -> (g: Vec<Vec<bool>>)
    ensures
        grid_of(&g).len() == n,
        forall|y: int| 0 <= y < n ==> (#[trigger] grid_of(&g)[y]).len() == n,
        forall|y: int, x: int| 0 <= y < n && 0 <= x < n ==> !(#[trigger] grid_of(&g)[y][x]),
{
    let mut g: Vec<Vec<bool>> = Vec::new();
    let mut y: usize = 0;
    while y < n
        invariant
            y <= n,
            grid_of(&g).len() == y,
            forall|yy: int| 0 <= yy < y ==> (#[trigger] grid_of(&g)[yy]).len() == n,
            forall|yy: int, xx: int| 0 <= yy < y && 0 <= xx < n ==> !(#[trigger] grid_of(&g)[yy][xx]),
        decreases n - y,
    {
        let mut row: Vec<bool> = Vec::new();
        let mut x: usize = 0;
        while x < n
            invariant
                x <= n,
                row@.len() == x,
                forall|xx: int| 0 <= xx < x ==> !(#[trigger] row@[xx]),
            decreases n - x,
        {
            row.push(false);
            x = x + 1;
        }
        let ghost g0 = grid_of(&g);
        g.push(row);
        proof {
            assert(grid_of(&g) =~= g0.push(row@));
        }
        y = y + 1;
    }
    g
}

impl TerrainMap {
    /// The grid of ground-truth tiles.
    pub open spec fn grid(&self) -> Seq<Seq<TileType>> {
        grid_of(&self.tiles)
    }

    /// Side length of the square grid.
    pub open spec fn side(&self) -> int {
        self.grid().len() as int
    }

    pub open spec fn square(&self) -> bool {
        forall|y: int| 0 <= y < self.side() ==> (#[trigger] self.grid()[y]).len() == self.side()
    }

    pub open spec fn in_bounds(&self, x: int, y: int) -> bool {
        0 <= x < self.side() && 0 <= y < self.side()
    }

    /// No obstacle stands within Chebyshev distance 2 of the station.
    pub open spec fn station_clear(&self) -> bool {
        forall|x: int, y: int|
            self.in_bounds(x, y) && near_station(
                self.station_x as int,
                self.station_y as int,
                x,
                y,
            ) ==> (#[trigger] self.grid()[y][x]) != TileType::Obstacle
    }

    /// Every resource-bearing tile is reachable from the station over an
    /// 8-connected path of non-obstacle cells.
    pub open spec fn resources_reachable(&self) -> bool {
        forall|x: int, y: int|
            self.in_bounds(x, y) && (#[trigger] self.grid()[y][x]).is_resource() ==> connected(
                self.grid(),
                self.station_x as int,
                self.station_y as int,
                x,
                y,
            )
    }

    /// The terrain invariant, established at construction and preserved by
    /// resource consumption.
    pub open spec fn wf(&self) -> bool {
        &&& 1 <= self.side() <= 46340
        &&& self.square()
        &&& self.in_bounds(self.station_x as int, self.station_y as int)
        &&& self.station_clear()
        &&& self.resources_reachable()
    }

    pub open spec fn tile_at(&self, x: int, y: int) -> TileType {
        self.grid()[y][x]
    }

    pub fn get_tile(&self, x: usize, y: usize) -> (t: TileType)
        requires
            self.square(),
            self.in_bounds(x as int, y as int),
        ensures
            t == self.tile_at(x as int, y as int),
    {
        self.tiles[y][x]
    }

    /// In bounds and not an obstacle.
    pub fn is_valid_position(&self, x: usize, y: usize) -> (r: bool)
        requires
            self.square(),
        ensures
            r == open_cell(self.grid(), x as int, y as int),
    {
        if x < self.tiles.len() && y < self.tiles.len() {
            proof {
                assert(self.grid()[y as int].len() == self.side());
            }
            self.tiles[y][x] != TileType::Obstacle
        } else {
            false
        }
    }

    /// Consumes the resource at a position: a resource tile becomes empty, any
    /// other tile is left alone. Idempotent, and it preserves the terrain
    /// invariant: clearing a cell never severs a path.
    pub fn consume_resource(&mut self, x: usize, y: usize)
        requires
            old(self).wf(),
            old(self).in_bounds(x as int, y as int),
        ensures
            final(self).wf(),
            final(self).station_x == old(self).station_x,
            final(self).station_y == old(self).station_y,
            final(self).side() == old(self).side(),
            old(self).tile_at(x as int, y as int).is_resource() ==> final(self).grid() == old(
                self,
            ).grid().update(
                y as int,
                old(self).grid()[y as int].update(x as int, TileType::Empty),
            ),
            !old(self).tile_at(x as int, y as int).is_resource() ==> *final(self) == *old(self),
    {
        let t = self.tiles[y][x];
        if t == TileType::Energy || t == TileType::Mineral || t == TileType::Scientific {
            grid_set(&mut self.tiles, y, x, TileType::Empty);
            proof {
                let g1 = old(self).grid();
                let g2 = self.grid();
                assert forall|xx: int, yy: int| #[trigger]
                    open_cell(g1, xx, yy) implies open_cell(g2, xx, yy) by {}
                assert forall|xx: int, yy: int|
                    self.in_bounds(xx, yy) && (#[trigger] g2[yy][xx]).is_resource() implies connected(
                    g2,
                    self.station_x as int,
                    self.station_y as int,
                    xx,
                    yy,
                ) by {
                    assert(g1[yy][xx].is_resource());
                    lemma_connected_monotone(
                        g1,
                        g2,
                        self.station_x as int,
                        self.station_y as int,
                        xx,
                        yy,
                    );
                }
            }
        }
    }

    /// How many cells of the grid hold the given tile kind.
    pub fn count_tiles(&self, t: TileType) -> (c: usize)
        requires
            self.square(),
            1 <= self.side() <= 46340,
        ensures
            c == tile_count(self.grid(), t),
    {
        let ghost m = self.grid();
        let ghost mask = tile_mask(m, t);
        let n = self.tiles.len();
        let mut c: usize = 0;
        let mut y: usize = 0;
        proof {
            assert(n * n <= 46340 * 46340) by (nonlinear_arith)
                requires
                    1 <= n <= 46340,
            ;
        }
        while y < n
            invariant
                y <= n,
                c == grid_trues(mask.take(y as int)),
                c <= y * n,
            decreases n - y,
        {
            let mut x: usize = 0;
            let mut rc: usize = 0;
            while x < n
                invariant
                    x <= n,
                    y < n,
                    rc == crate::knowledge::row_trues(mask[y as int].take(x as int)),
                    rc <= x,
                decreases n - x,
            {
                proof {
                    crate::knowledge::lemma_row_trues_take_step(mask[y as int], x as int);
                    assert(self.grid()[y as int].len() == n);
                    assert(mask[y as int][x as int] == (m[y as int][x as int] == t));
                }
                if self.tiles[y][x] == t {
                    rc = rc + 1;
                }
                x = x + 1;
            }
            proof {
                crate::knowledge::lemma_grid_trues_take_step(mask, y as int);
                assert(mask[y as int].take(n as int) =~= mask[y as int]);
                crate::knowledge::lemma_row_trues_bounds(mask[y as int]);
                lemma_grid_trues_bounds(mask.take(y as int), n as int);
                assert(y * n + n == (y + 1) * n) by (nonlinear_arith);
                assert((y + 1) * n <= n * n) by (nonlinear_arith)
                    requires
                        y + 1 <= n,
                        n >= 0,
                ;
            }
            c = c + rc;
            y = y + 1;
        }
        proof {
            assert(mask.take(n as int) =~= mask);
        }
        c
    }

    /// A breadth-first search over non-obstacle cells: answers exactly
    /// whether an 8-connected open path joins the two cells.
    pub fn is_accessible(
        &self,
        start_x: usize,
        start_y: usize,
        target_x: usize,
        target_y: usize,
    ) -> (r: bool)
        requires
            self.square(),
            1 <= self.side() <= 46340,
            self.in_bounds(start_x as int, start_y as int),
            self.in_bounds(target_x as int, target_y as int),
            open_cell(self.grid(), start_x as int, start_y as int),
        ensures
            r == connected(
                self.grid(),
                start_x as int,
                start_y as int,
                target_x as int,
                target_y as int,
            ),
    {
        let n = self.tiles.len();
        let ghost g = self.grid();
        let mut visited = false_grid(n);
        let mut queue: Vec<(usize, usize)> = Vec::new();
        let ghost v0 = grid_of(&visited);
        grid_set(&mut visited, start_y, start_x, true);
        proof {
            lemma_grid_trues_zero(v0);
            lemma_row_trues_update(v0[start_y as int], start_x as int, true);
            lemma_grid_trues_update_row(
                v0,
                start_y as int,
                v0[start_y as int].update(start_x as int, true),
            );
            crate::knowledge::lemma_row_trues_zero(v0[start_y as int]);
            lemma_grid_trues_bounds(grid_of(&visited), n as int);
            lemma_connected_refl(g, start_x as int, start_y as int);
        }
        queue.push((start_x, start_y));
        proof {
            assert forall|x: int, y: int|
                0 <= x < n && 0 <= y < n && (#[trigger] grid_of(&visited)[y][x]) implies exists|
                k: int,
            |
                0 <= k < queue@.len() && (#[trigger] queue@[k]).0 as int == x && queue@[k].1 as int
                    == y by {
                if x == start_x as int && y == start_y as int {
                    assert(queue@[0].0 as int == x && queue@[0].1 as int == y);
                } else {
                    assert(!v0[y][x]);
                }
            }
        }
        let mut qi: usize = 0;
        while qi < queue.len()
            invariant
                qi <= queue@.len(),
                grid_of(&visited).len() == n,
                forall|y: int| 0 <= y < n ==> (#[trigger] grid_of(&visited)[y]).len() == n,
                forall|k: int|
                    0 <= k < queue@.len() ==> (#[trigger] queue@[k]).0 < n && queue@[k].1 < n,
                forall|k: int|
                    0 <= k < queue@.len() ==> grid_of(&visited)[(#[trigger] queue@[k]).1 as int][queue@[k].0 as int],
                forall|x: int, y: int|
                    0 <= x < n && 0 <= y < n && (#[trigger] grid_of(&visited)[y][x]) ==> connected(
                        g,
                        start_x as int,
                        start_y as int,
                        x,
                        y,
                    ),
                forall|x: int, y: int|
                    0 <= x < n && 0 <= y < n && (#[trigger] grid_of(&visited)[y][x])
                        ==> exists|k: int|
                        0 <= k < queue@.len() && (#[trigger] queue@[k]).0 as int == x
                            && queue@[k].1 as int == y,
                forall|k: int|
                    0 <= k < qi ==> !((#[trigger] queue@[k]).0 == target_x && queue@[k].1
                        == target_y),
                forall|k: int, x2: int, y2: int|
                    #![trigger queue@[k], open_cell(g, x2, y2)]
                    0 <= k < qi && adjacent8(queue@[k].0 as int, queue@[k].1 as int, x2, y2)
                        && open_cell(g, x2, y2) ==> grid_of(&visited)[y2][x2],
                grid_of(&visited)[start_y as int][start_x as int],
                queue@.len() <= grid_trues(grid_of(&visited)),
                grid_trues(grid_of(&visited)) <= n * n,
            decreases 9 * (n * n - grid_trues(grid_of(&visited))) + (queue@.len() - qi),
        {
            let (x, y) = queue[qi];
            if x == target_x && y == target_y {
                return true;
            }
            let ghost base_trues = grid_trues(grid_of(&visited));
            let ghost base_len = queue@.len();
            let mut dy: usize = 0;
            while dy < 3
                invariant
                    dy <= 3,
                    qi < queue@.len(),
                    queue@[qi as int].0 == x && queue@[qi as int].1 == y,
                    grid_of(&visited).len() == n,
                    forall|yy: int| 0 <= yy < n ==> (#[trigger] grid_of(&visited)[yy]).len() == n,
                    forall|k: int|
                        0 <= k < queue@.len() ==> (#[trigger] queue@[k]).0 < n && queue@[k].1 < n,
                    forall|k: int|
                        0 <= k < queue@.len() ==> grid_of(&visited)[(#[trigger] queue@[k]).1 as int][queue@[k].0 as int],
                    forall|x2: int, y2: int|
                        0 <= x2 < n && 0 <= y2 < n && (#[trigger] grid_of(&visited)[y2][x2])
                            ==> connected(g, start_x as int, start_y as int, x2, y2),
                    forall|x2: int, y2: int|
                        0 <= x2 < n && 0 <= y2 < n && (#[trigger] grid_of(&visited)[y2][x2])
                            ==> exists|k: int|
                            0 <= k < queue@.len() && (#[trigger] queue@[k]).0 as int == x2
                                && queue@[k].1 as int == y2,
                    forall|k: int|
                        0 <= k < qi ==> !((#[trigger] queue@[k]).0 == target_x && queue@[k].1
                            == target_y),
                    forall|k: int, x2: int, y2: int|
                        #![trigger queue@[k], open_cell(g, x2, y2)]
                        0 <= k < qi && adjacent8(queue@[k].0 as int, queue@[k].1 as int, x2, y2)
                            && open_cell(g, x2, y2) ==> grid_of(&visited)[y2][x2],
                    forall|ddy: int, ddx: int|
                        0 <= ddy < 3 && 0 <= ddx < 3 && ddy < dy && !(ddx == 1 && ddy == 1)
                            && #[trigger] open_cell(g, x as int + ddx - 1, y as int + ddy - 1)
                            ==> grid_of(&visited)[y as int + ddy - 1][x as int + ddx - 1],
                    grid_of(&visited)[start_y as int][start_x as int],
                    queue@.len() - base_len == grid_trues(grid_of(&visited)) - base_trues,
                    base_trues <= grid_trues(grid_of(&visited)),
                    queue@.len() <= grid_trues(grid_of(&visited)),
                    grid_trues(grid_of(&visited)) <= n * n,
                decreases 3 - dy,
            {
                let mut dx: usize = 0;
                while dx < 3
                    invariant
                        dx <= 3,
                        dy < 3,
                        qi < queue@.len(),
                        queue@[qi as int].0 == x && queue@[qi as int].1 == y,
                        grid_of(&visited).len() == n,
                        forall|yy: int|
                            0 <= yy < n ==> (#[trigger] grid_of(&visited)[yy]).len() == n,
                        forall|k: int|
                            0 <= k < queue@.len() ==> (#[trigger] queue@[k]).0 < n && queue@[k].1
                                < n,
                        forall|k: int|
                            0 <= k < queue@.len() ==> grid_of(&visited)[(#[trigger] queue@[k]).1 as int][queue@[k].0 as int],
                        forall|x2: int, y2: int|
                            0 <= x2 < n && 0 <= y2 < n && (#[trigger] grid_of(&visited)[y2][x2])
                                ==> connected(g, start_x as int, start_y as int, x2, y2),
                        forall|x2: int, y2: int|
                            0 <= x2 < n && 0 <= y2 < n && (#[trigger] grid_of(&visited)[y2][x2])
                                ==> exists|k: int|
                                0 <= k < queue@.len() && (#[trigger] queue@[k]).0 as int == x2
                                    && queue@[k].1 as int == y2,
                        forall|k: int|
                            0 <= k < qi ==> !((#[trigger] queue@[k]).0 == target_x && queue@[k].1
                                == target_y),
                        forall|k: int, x2: int, y2: int|
                            #![trigger queue@[k], open_cell(g, x2, y2)]
                            0 <= k < qi && adjacent8(
                                queue@[k].0 as int,
                                queue@[k].1 as int,
                                x2,
                                y2,
                            ) && open_cell(g, x2, y2) ==> grid_of(&visited)[y2][x2],
                        forall|ddy: int, ddx: int|
                            0 <= ddy < 3 && 0 <= ddx < 3 && (ddy < dy || (ddy == dy && ddx < dx))
                                && !(ddx == 1 && ddy == 1) && #[trigger] open_cell(
                                g,
                                x as int + ddx - 1,
                                y as int + ddy - 1,
                            ) ==> grid_of(&visited)[y as int + ddy - 1][x as int + ddx - 1],
                        grid_of(&visited)[start_y as int][start_x as int],
                        queue@.len() - base_len == grid_trues(grid_of(&visited)) - base_trues,
                        base_trues <= grid_trues(grid_of(&visited)),
                        queue@.len() <= grid_trues(grid_of(&visited)),
                        grid_trues(grid_of(&visited)) <= n * n,
                    decreases 3 - dx,
                {
                    if !(dx == 1 && dy == 1) && x + dx >= 1 && y + dy >= 1 {
                        let nx = x + dx - 1;
                        let ny = y + dy - 1;
                        if nx < n && ny < n {
                            proof {
                                assert(grid_of(&visited)[ny as int].len() == n);
                                assert(self.grid()[ny as int].len() == n);
                            }
                            if !visited[ny][nx] && self.tiles[ny][nx] != TileType::Obstacle {
                                proof {
                                    assert(grid_of(&visited)[y as int][x as int]);
                                    assert(connected(
                                        g,
                                        start_x as int,
                                        start_y as int,
                                        x as int,
                                        y as int,
                                    ));
                                    lemma_connected_step(
                                        g,
                                        start_x as int,
                                        start_y as int,
                                        x as int,
                                        y as int,
                                        nx as int,
                                        ny as int,
                                    );
                                }
                                let ghost vold = grid_of(&visited);
                                let ghost qold = queue@;
                                grid_set(&mut visited, ny, nx, true);
                                proof {
                                    lemma_row_trues_update(vold[ny as int], nx as int, true);
                                    lemma_grid_trues_update_row(
                                        vold,
                                        ny as int,
                                        vold[ny as int].update(nx as int, true),
                                    );
                                    lemma_grid_trues_bounds(grid_of(&visited), n as int);
                                }
                                queue.push((nx, ny));
                                proof {
                                    assert forall|x2: int, y2: int|
                                        0 <= x2 < n && 0 <= y2 < n && (#[trigger] grid_of(
                                            &visited,
                                        )[y2][x2]) implies exists|k: int|
                                        0 <= k < queue@.len() && (#[trigger] queue@[k]).0 as int
                                            == x2 && queue@[k].1 as int == y2 by {
                                        if x2 == nx as int && y2 == ny as int {
                                            let kn = queue@.len() - 1;
                                            assert(queue@[kn].0 as int == x2 && queue@[kn].1 as int
                                                == y2);
                                        } else {
                                            assert(vold[y2][x2]);
                                            let k = choose|k: int|
                                                0 <= k < qold.len() && (#[trigger] qold[k]).0 as int
                                                    == x2 && qold[k].1 as int == y2;
                                            assert(queue@[k].0 as int == x2 && queue@[k].1 as int
                                                == y2);
                                        }
                                    }
                                }
                            }
                        }
                    }
                    dx = dx + 1;
                }
                dy = dy + 1;
            }
            proof {
                assert forall|x2: int, y2: int|
                    adjacent8(x as int, y as int, x2, y2) && #[trigger] open_cell(
                        g,
                        x2,
                        y2,
                    ) implies grid_of(&visited)[y2][x2] by {
                    let ddx = x2 - x as int + 1;
                    let ddy = y2 - y as int + 1;
                    assert(0 <= ddx < 3 && 0 <= ddy < 3 && !(ddx == 1 && ddy == 1));
                    assert(open_cell(g, x as int + ddx - 1, y as int + ddy - 1));
                }
            }
            qi = qi + 1;
        }
        proof {
            if connected(g, start_x as int, start_y as int, target_x as int, target_y as int) {
                let v = grid_of(&visited);
                assert forall|x1: int, y1: int, x2: int, y2: int|
                    #![trigger v[y1][x1], v[y2][x2]]
                    open_cell(g, x1, y1) && 0 <= y1 < v.len() && 0 <= x1 < v[y1].len() && v[y1][x1]
                        && adjacent8(x1, y1, x2, y2) && open_cell(g, x2, y2) && 0 <= y2 < v.len()
                        && 0 <= x2 < v[y2].len() implies v[y2][x2] by {
                    let k = choose|k: int|
                        0 <= k < queue@.len() && (#[trigger] queue@[k]).0 as int == x1
                            && queue@[k].1 as int == y1;
                    assert(0 <= k < qi);
                    assert(adjacent8(queue@[k].0 as int, queue@[k].1 as int, x2, y2));
                }
                assert(visited_closed(g, v));
                let p = choose|p: Seq<(int, int)>|
                    {
                        &&& #[trigger] is_open_path(g, p)
                        &&& p.len() > 0
                        &&& p.first() == (start_x as int, start_y as int)
                        &&& p.last() == (target_x as int, target_y as int)
                    };
                lemma_walk_visited(g, v, p);
                assert(v[target_y as int][target_x as int]);
                let k = choose|k: int|
                    0 <= k < queue@.len() && (#[trigger] queue@[k]).0 as int == target_x as int
                        && queue@[k].1 as int == target_y as int;
                assert(0 <= k < qi);
                assert(false);
            }
        }
        false
    }

    /// Carves a path from the station to the target by stepping one cell at a
    /// time toward it, randomly favoring the horizontal or the vertical move,
    /// and turning every obstacle traversed into empty ground.
    pub fn create_path(&mut self, target_x: usize, target_y: usize)
        requires
            old(self).square(),
            1 <= old(self).side() <= 46340,
            old(self).in_bounds(old(self).station_x as int, old(self).station_y as int),
            old(self).in_bounds(target_x as int, target_y as int),
            open_cell(old(self).grid(), old(self).station_x as int, old(self).station_y as int),
        ensures
            final(self).station_x == old(self).station_x,
            final(self).station_y == old(self).station_y,
            final(self).side() == old(self).side(),
            final(self).square(),
            forall|x: int, y: int|
                final(self).in_bounds(x, y) ==> (#[trigger] final(self).grid()[y][x]) == old(
                    self,
                ).grid()[y][x] || (old(self).grid()[y][x] == TileType::Obstacle
                    && final(self).grid()[y][x] == TileType::Empty),
            forall|x: int, y: int|
                final(self).in_bounds(x, y) && (#[trigger] final(self).grid()[y][x]) != old(
                    self,
                ).grid()[y][x] ==> within_span(x, old(self).station_x as int, target_x as int)
                    && within_span(y, old(self).station_y as int, target_y as int),
            connected(
                final(self).grid(),
                final(self).station_x as int,
                final(self).station_y as int,
                target_x as int,
                target_y as int,
            ),
    {
        let n = self.tiles.len();
        let sx = self.station_x;
        let sy = self.station_y;
        let mut cx = sx;
        let mut cy = sy;
        let ghost g0 = self.grid();
        let ghost mut path: Seq<(int, int)> = seq![(cx as int, cy as int)];
        while cx != target_x || cy != target_y
            invariant
                cx < n,
                cy < n,
                self.station_x == sx,
                self.station_y == sy,
                grid_of(&self.tiles).len() == n,
                forall|y: int| 0 <= y < n ==> (#[trigger] grid_of(&self.tiles)[y]).len() == n,
                forall|x: int, y: int|
                    0 <= x < n && 0 <= y < n ==> (#[trigger] self.grid()[y][x]) == g0[y][x] || (
                    g0[y][x] == TileType::Obstacle && self.grid()[y][x] == TileType::Empty),
                within_span(cx as int, sx as int, target_x as int),
                within_span(cy as int, sy as int, target_y as int),
                forall|x: int, y: int|
                    0 <= x < n && 0 <= y < n && (#[trigger] self.grid()[y][x]) != g0[y][x]
                        ==> within_span(x, sx as int, target_x as int) && within_span(
                        y,
                        sy as int,
                        target_y as int,
                    ),
                is_open_path(self.grid(), path),
                path.len() >= 1,
                path.first() == (sx as int, sy as int),
                path.last() == (cx as int, cy as int),
            decreases dist1(cx as int, target_x as int) + dist1(cy as int, target_y as int),
        {
            let ghost pcx = cx;
            let ghost pcy = cy;
            let flip: bool = rand::random();
            if flip && cx != target_x {
                if cx < target_x {
                    cx = cx + 1;
                } else {
                    cx = cx - 1;
                }
            } else if cy != target_y {
                if cy < target_y {
                    cy = cy + 1;
                } else {
                    cy = cy - 1;
                }
            } else {
                if cx < target_x {
                    cx = cx + 1;
                } else {
                    cx = cx - 1;
                }
            }
            let ghost gb = self.grid();
            proof {
                assert(gb[cy as int].len() == n);
            }
            if self.tiles[cy][cx] == TileType::Obstacle {
                grid_set(&mut self.tiles, cy, cx, TileType::Empty);
            }
            proof {
                assert forall|i: int| 0 <= i < path.len() implies open_cell(
                    self.grid(),
                    (#[trigger] path[i]).0,
                    path[i].1,
                ) by {
                    assert(open_cell(gb, path[i].0, path[i].1));
                }
                assert(open_cell(self.grid(), cx as int, cy as int));
                assert(adjacent8(pcx as int, pcy as int, cx as int, cy as int));
                let prev = path;
                path = path.push((cx as int, cy as int));
                assert forall|i: int| 0 <= i < path.len() - 1 implies adjacent8(
                    (#[trigger] path[i]).0,
                    path[i].1,
                    path[i + 1].0,
                    path[i + 1].1,
                ) by {
                    if i < prev.len() - 1 {
                        assert(path[i] == prev[i] && path[i + 1] == prev[i + 1]);
                        assert(adjacent8(prev[i].0, prev[i].1, prev[i + 1].0, prev[i + 1].1));
                    } else {
                        assert(path[i] == prev[prev.len() - 1]);
                        assert(path[i + 1] == (cx as int, cy as int));
                    }
                }
                assert(is_open_path(self.grid(), path));
            }
        }
        proof {
            assert(path.last() == (target_x as int, target_y as int));
            assert(connected(
                self.grid(),
                sx as int,
                sy as int,
                target_x as int,
                target_y as int,
            ));
        }
    }

    /// Generates the terrain from a square grid of noise samples, given in
    /// thousandths of the noise field's unit range. The station sits at the
    /// grid center; every cell within Chebyshev distance 2 of it is forced
    /// empty; every other cell is classified by its noise value; and every
    /// resource left unreachable by that classification has a path to the
    /// station carved free of obstacles.
    pub fn new(noise: &Vec<Vec<i32>>) -> (m: TerrainMap)
        requires
            1 <= grid_of(noise).len() <= 46340,
            forall|y: int|
                0 <= y < grid_of(noise).len() ==> (#[trigger] grid_of(noise)[y]).len() == grid_of(
                    noise,
                ).len(),
        ensures
            m.wf(),
            m.side() == grid_of(noise).len(),
            m.station_x == grid_of(noise).len() / 2,
            m.station_y == grid_of(noise).len() / 2,
            forall|x: int, y: int|
                m.in_bounds(x, y) ==> (#[trigger] m.grid()[y][x]) == base_tile(grid_of(noise), x, y)
                    || (base_tile(grid_of(noise), x, y) == TileType::Obstacle && m.grid()[y][x]
                    == TileType::Empty),
    {
        let n = noise.len();
        let sx = n / 2;
        let sy = n / 2;
        let ghost nv = grid_of(noise);

        // Classification pass, with the block around the station forced empty.
        let mut tiles: Vec<Vec<TileType>> = Vec::new();
        let mut y: usize = 0;
        while y < n
            invariant
                y <= n,
                grid_of(&tiles).len() == y,
                forall|yy: int| 0 <= yy < y ==> (#[trigger] grid_of(&tiles)[yy]).len() == n,
                forall|yy: int, xx: int|
                    0 <= yy < y && 0 <= xx < n ==> (#[trigger] grid_of(&tiles)[yy][xx])
                        == base_tile(nv, xx, yy),
            decreases n - y,
        {
            let mut row: Vec<TileType> = Vec::new();
            let mut x: usize = 0;
            while x < n
                invariant
                    x <= n,
                    y < n,
                    row@.len() == x,
                    forall|xx: int| 0 <= xx < x ==> (#[trigger] row@[xx]) == base_tile(nv, xx, y as int),
                decreases n - x,
            {
                let near = x + 2 >= sx && x <= sx + 2 && y + 2 >= sy && y <= sy + 2;
                let t = if near {
                    TileType::Empty
                } else {
                    proof {
                        assert(grid_of(noise)[y as int].len() == n);
                    }
                    classify_noise(noise[y][x])
                };
                row.push(t);
                x = x + 1;
            }
            let ghost t0 = grid_of(&tiles);
            tiles.push(row);
            proof {
                assert(grid_of(&tiles) =~= t0.push(row@));
            }
            y = y + 1;
        }

        let mut m = TerrainMap { tiles, station_x: sx, station_y: sy };
        let ghost g2 = m.grid();
        proof {
            assert forall|x: int, y2: int| 0 <= x < n && 0 <= y2 < n implies (#[trigger] g2[y2][x])
                == base_tile(nv, x, y2) by {}
            assert(g2[sy as int][sx as int] == TileType::Empty);
        }

        // Connectivity repair: every resource cell gets a path to the station.
        let mut ry: usize = 0;
        while ry < n
            invariant
                ry <= n,
                m.station_x == sx,
                m.station_y == sy,
                grid_of(&m.tiles).len() == n,
                forall|yy: int| 0 <= yy < n ==> (#[trigger] grid_of(&m.tiles)[yy]).len() == n,
                forall|x: int, y2: int|
                    0 <= x < n && 0 <= y2 < n ==> (#[trigger] m.grid()[y2][x]) == g2[y2][x] || (
                    g2[y2][x] == TileType::Obstacle && m.grid()[y2][x] == TileType::Empty),
                forall|x: int, y2: int|
                    0 <= x < n && 0 <= y2 < ry && (#[trigger] m.grid()[y2][x]).is_resource()
                        ==> connected(m.grid(), sx as int, sy as int, x, y2),
            decreases n - ry,
        {
            let mut rx: usize = 0;
            while rx < n
                invariant
                    rx <= n,
                    ry < n,
                    m.station_x == sx,
                    m.station_y == sy,
                    grid_of(&m.tiles).len() == n,
                    forall|yy: int| 0 <= yy < n ==> (#[trigger] grid_of(&m.tiles)[yy]).len() == n,
                    forall|x: int, y2: int|
                        0 <= x < n && 0 <= y2 < n ==> (#[trigger] m.grid()[y2][x]) == g2[y2][x] || (
                        g2[y2][x] == TileType::Obstacle && m.grid()[y2][x] == TileType::Empty),
                    forall|x: int, y2: int|
                        0 <= x < n && 0 <= y2 < n && (y2 < ry || (y2 == ry && x < rx)) && (
                        #[trigger] m.grid()[y2][x]).is_resource() ==> connected(
                            m.grid(),
                            sx as int,
                            sy as int,
                            x,
                            y2,
                        ),
                decreases n - rx,
            {
                proof {
                    assert(m.grid()[sy as int][sx as int] != TileType::Obstacle);
                }
                let t = m.get_tile(rx, ry);
                let isres = t == TileType::Energy || t == TileType::Mineral || t
                    == TileType::Scientific;
                if isres {
                    if !m.is_accessible(sx, sy, rx, ry) {
                        let ghost gb = m.grid();
                        m.create_path(rx, ry);
                        proof {
                            assert forall|x2: int, y3: int| #[trigger]
                                open_cell(gb, x2, y3) implies open_cell(m.grid(), x2, y3) by {}
                            assert forall|x2: int, y3: int|
                                0 <= x2 < n && 0 <= y3 < n && (y3 < ry || (y3 == ry && x2 < rx))
                                    && (#[trigger] m.grid()[y3][x2]).is_resource() implies connected(
                                m.grid(),
                                sx as int,
                                sy as int,
                                x2,
                                y3,
                            ) by {
                                assert(gb[y3][x2] == m.grid()[y3][x2]);
                                lemma_connected_monotone(
                                    gb,
                                    m.grid(),
                                    sx as int,
                                    sy as int,
                                    x2,
                                    y3,
                                );
                            }
                        }
                    }
                }
                rx = rx + 1;
            }
            ry = ry + 1;
        }
        m
    }
}

} // verus!
