use vstd::prelude::*;

use crate::types::RobotType;

verus! {

/// One belief about a grid cell: whether it has been explored, at which tick,
/// and by which robot. Absence of exploration means "unknown", not "empty".
#[derive(Clone, Copy, Debug, PartialEq, Eq, Structural)]
pub struct TerrainData {
    pub explored: bool,
    pub timestamp: u32,
    pub robot_id: usize,
    pub robot_type: RobotType,
}

impl TerrainData {
    /// The pristine record every knowledge grid starts from.
    pub open spec fn unknown_spec() -> TerrainData {
        TerrainData { explored: false, timestamp: 0, robot_id: 0, robot_type: RobotType::Explorer }
    }

    pub fn unknown() -> (r: TerrainData)
        ensures
            r == TerrainData::unknown_spec(),
    {
        TerrainData { explored: false, timestamp: 0, robot_id: 0, robot_type: RobotType::Explorer }
    }
}

/// Mathematical view of a nested vector as a sequence of rows.
pub open spec fn grid_of<T>(g: &Vec<Vec<T>>) -> Seq<Seq<T>> {
    g@.map_values(|row: Vec<T>| row@)
}

/// A well-formed knowledge grid: square, and every unexplored cell still holds
/// the pristine record (no stale authorship survives un-exploration, which
/// never happens; records are only ever written together with `explored`).
pub open spec fn mem_wf(m: Seq<Seq<TerrainData>>) -> bool {
    &&& forall|y: int| 0 <= y < m.len() ==> (#[trigger] m[y]).len() == m.len()
    &&& forall|y: int, x: int|
        0 <= y < m.len() && 0 <= x < m.len() && !(#[trigger] m[y][x]).explored
            ==> m[y][x] == TerrainData::unknown_spec()
}

/// Last-writer-wins reconciliation of one cell: the robot's record `r` replaces
/// the station's record `s` when the station knows nothing, or when the robot's
/// observation is strictly newer.
pub open spec fn merge_cell(r: TerrainData, s: TerrainData) -> TerrainData {
    if r.explored && s.explored {
        if r.timestamp > s.timestamp {
            r
        } else {
            s
        }
    } else if r.explored {
        r
    } else {
        s
    }
}

/// A conflict: both sides know the cell and the robot's record wins.
pub open spec fn cell_conflict(r: TerrainData, s: TerrainData) -> bool {
    r.explored && s.explored && r.timestamp > s.timestamp
}

/// The station's grid after merging a robot grid `r` into station grid `s`.
pub open spec fn merged_grid(r: Seq<Seq<TerrainData>>, s: Seq<Seq<TerrainData>>) -> Seq<
    Seq<TerrainData>,
> {
    Seq::new(s.len(), |y: int| Seq::new(s[y].len(), |x: int| merge_cell(r[y][x], s[y][x])))
}

/// How many trues a row of booleans holds.
pub open spec fn row_trues(r: Seq<bool>) -> int
    decreases r.len(),
{
    if r.len() == 0 {
        0
    } else {
        row_trues(r.drop_last()) + if r.last() {
            1int
        } else {
            0int
        }
    }
}

/// How many trues a grid of booleans holds.
pub open spec fn grid_trues(g: Seq<Seq<bool>>) -> int
    decreases g.len(),
{
    if g.len() == 0 {
        0
    } else {
        grid_trues(g.drop_last()) + row_trues(g.last())
    }
}

/// The exploration flags of a knowledge grid.
pub open spec fn explored_mask(m: Seq<Seq<TerrainData>>) -> Seq<Seq<bool>> {
    Seq::new(m.len(), |y: int| Seq::new(m[y].len(), |x: int| m[y][x].explored))
}

/// How many cells of a knowledge grid are explored.
pub open spec fn explored_cells(m: Seq<Seq<TerrainData>>) -> int {
    grid_trues(explored_mask(m))
}

/// Which cells a merge of robot grid `r` into station grid `s` counts as conflicts.
pub open spec fn conflict_mask(r: Seq<Seq<TerrainData>>, s: Seq<Seq<TerrainData>>) -> Seq<
    Seq<bool>,
> {
    Seq::new(s.len(), |y: int| Seq::new(s[y].len(), |x: int| cell_conflict(r[y][x], s[y][x])))
}

/// How many conflicts a merge of robot grid `r` into station grid `s` resolves.
pub open spec fn merge_conflicts(r: Seq<Seq<TerrainData>>, s: Seq<Seq<TerrainData>>) -> int {
    grid_trues(conflict_mask(r, s))
}

/// A robot grid after it adopts every explored record of station grid `s`.
pub open spec fn adopted_grid(r: Seq<Seq<TerrainData>>, s: Seq<Seq<TerrainData>>) -> Seq<
    Seq<TerrainData>,
> {
    Seq::new(
        r.len(),
        |y: int|
            Seq::new(
                r[y].len(),
                |x: int|
                    if s[y][x].explored {
                        s[y][x]
                    } else {
                        r[y][x]
                    },
            ),
    )
}

/// Grid `b` knows at least everything grid `a` knows, cell for cell.
pub open spec fn explored_grows(a: Seq<Seq<TerrainData>>, b: Seq<Seq<TerrainData>>) -> bool {
    &&& a.len() == b.len()
    &&& forall|y: int| 0 <= y < a.len() ==> (#[trigger] a[y]).len() == b[y].len()
    &&& forall|y: int, x: int|
        0 <= y < a.len() && 0 <= x < a[y].len() && (#[trigger] a[y][x]).explored
            ==> b[y][x].explored
}

pub proof fn lemma_explored_grows_trans(
    a: Seq<Seq<TerrainData>>,
    b: Seq<Seq<TerrainData>>,
    c: Seq<Seq<TerrainData>>,
)
    requires
        explored_grows(a, b),
        explored_grows(b, c),
    ensures
        explored_grows(a, c),
{
}

/// Knowledge that only grows never loses explored cells from the count.
pub proof fn lemma_explored_le(a: Seq<Seq<TerrainData>>, b: Seq<Seq<TerrainData>>)
    requires
        explored_grows(a, b),
    ensures
        explored_cells(a) <= explored_cells(b),
{
    lemma_grid_trues_le(explored_mask(a), explored_mask(b));
}

/// The merge protocol is idempotent once the two sides have converged: merging
/// a grid with an identical grid resolves no conflicts and changes nothing, so
/// a second docking with no movement in between leaves `conflict_count` alone.
pub proof fn lemma_merge_idempotent(m: Seq<Seq<TerrainData>>)
    ensures
        merge_conflicts(m, m) == 0,
        merged_grid(m, m) == m,
        adopted_grid(m, m) == m,
{
    let cm = conflict_mask(m, m);
    assert forall|y: int, x: int|
        0 <= y < cm.len() && 0 <= x < cm[y].len() implies !(#[trigger] cm[y][x]) by {
        assert(!cell_conflict(m[y][x], m[y][x]));
    }
    lemma_grid_trues_zero(cm);
    assert(merged_grid(m, m) =~~= m);
    assert(adopted_grid(m, m) =~~= m);
}

pub proof fn lemma_grid_trues_nonneg(g: Seq<Seq<bool>>)
    ensures
        grid_trues(g) >= 0,
    decreases g.len(),
{
    if g.len() > 0 {
        lemma_grid_trues_nonneg(g.drop_last());
        lemma_row_trues_bounds(g.last());
    }
}

pub proof fn lemma_row_trues_bounds(r: Seq<bool>)
    ensures
        0 <= row_trues(r) <= r.len(),
    decreases r.len(),
{
    if r.len() > 0 {
        lemma_row_trues_bounds(r.drop_last());
    }
}

pub proof fn lemma_grid_trues_bounds(g: Seq<Seq<bool>>, m: int)
    requires
        m >= 0,
        forall|y: int| 0 <= y < g.len() ==> (#[trigger] g[y]).len() <= m,
    ensures
        0 <= grid_trues(g) <= g.len() * m,
    decreases g.len(),
{
    if g.len() > 0 {
        lemma_grid_trues_bounds(g.drop_last(), m);
        lemma_row_trues_bounds(g.last());
        assert((g.len() - 1) * m + m == g.len() * m) by (nonlinear_arith);
    }
}

pub proof fn lemma_row_trues_le(a: Seq<bool>, b: Seq<bool>)
    requires
        a.len() == b.len(),
        forall|i: int| 0 <= i < a.len() && (#[trigger] a[i]) ==> b[i],
    ensures
        row_trues(a) <= row_trues(b),
    decreases a.len(),
{
    if a.len() > 0 {
        lemma_row_trues_le(a.drop_last(), b.drop_last());
    }
}

pub proof fn lemma_grid_trues_le(a: Seq<Seq<bool>>, b: Seq<Seq<bool>>)
    requires
        a.len() == b.len(),
        forall|y: int| 0 <= y < a.len() ==> (#[trigger] a[y]).len() == b[y].len(),
        forall|y: int, x: int|
            0 <= y < a.len() && 0 <= x < a[y].len() && (#[trigger] a[y][x]) ==> b[y][x],
    ensures
        grid_trues(a) <= grid_trues(b),
    decreases a.len(),
{
    if a.len() > 0 {
        lemma_grid_trues_le(a.drop_last(), b.drop_last());
        lemma_row_trues_le(a.last(), b.last());
    }
}

pub proof fn lemma_row_trues_zero(a: Seq<bool>)
    requires
        forall|i: int| 0 <= i < a.len() ==> !(#[trigger] a[i]),
    ensures
        row_trues(a) == 0,
    decreases a.len(),
{
    if a.len() > 0 {
        lemma_row_trues_zero(a.drop_last());
    }
}

pub proof fn lemma_grid_trues_zero(g: Seq<Seq<bool>>)
    requires
        forall|y: int, x: int| 0 <= y < g.len() && 0 <= x < g[y].len() ==> !(#[trigger] g[y][x]),
    ensures
        grid_trues(g) == 0,
    decreases g.len(),
{
    if g.len() > 0 {
        lemma_grid_trues_zero(g.drop_last());
        lemma_row_trues_zero(g.last());
    }
}

pub proof fn lemma_row_trues_take_step(r: Seq<bool>, k: int)
    requires
        0 <= k < r.len(),
    ensures
        row_trues(r.take(k + 1)) == row_trues(r.take(k)) + if r[k] {
            1int
        } else {
            0int
        },
{
    assert(r.take(k + 1).drop_last() =~= r.take(k));
    assert(r.take(k + 1).last() == r[k]);
}

pub proof fn lemma_grid_trues_take_step(g: Seq<Seq<bool>>, k: int)
    requires
        0 <= k < g.len(),
    ensures
        grid_trues(g.take(k + 1)) == grid_trues(g.take(k)) + row_trues(g[k]),
{
    assert(g.take(k + 1).drop_last() =~= g.take(k));
    assert(g.take(k + 1).last() == g[k]);
}

pub proof fn lemma_row_trues_update(r: Seq<bool>, i: int, b: bool)
    requires
        0 <= i < r.len(),
    ensures
        row_trues(r.update(i, b)) == row_trues(r) - (if r[i] {
            1int
        } else {
            0int
        }) + (if b {
            1int
        } else {
            0int
        }),
    decreases r.len(),
{
    let u = r.update(i, b);
    if i == r.len() - 1 {
        assert(u.drop_last() =~= r.drop_last());
    } else {
        assert(u.drop_last() =~= r.drop_last().update(i, b));
        lemma_row_trues_update(r.drop_last(), i, b);
    }
}

pub proof fn lemma_grid_trues_update_row(g: Seq<Seq<bool>>, y: int, row: Seq<bool>)
    requires
        0 <= y < g.len(),
    ensures
        grid_trues(g.update(y, row)) == grid_trues(g) - row_trues(g[y]) + row_trues(row),
    decreases g.len(),
{
    let u = g.update(y, row);
    if y == g.len() - 1 {
        assert(u.drop_last() =~= g.drop_last());
    } else {
        assert(u.drop_last() =~= g.drop_last().update(y, row));
        lemma_grid_trues_update_row(g.drop_last(), y, row);
    }
}

/// Writes one cell of a nested grid.
pub fn grid_set<T>(g: &mut Vec<Vec<T>>, y: usize, x: usize, v: T)
    requires
        y < old(g)@.len(),
        x < old(g)@[y as int]@.len(),
    ensures
        grid_of(final(g)) == grid_of(old(g)).update(
            y as int,
            grid_of(old(g))[y as int].update(x as int, v),
        ),
{
    g[y][x] = v;
    proof {
        assert(grid_of(g) =~= grid_of(old(g)).update(
            y as int,
            grid_of(old(g))[y as int].update(x as int, v),
        ));
    }
}

/// A fresh square knowledge grid with nothing explored.
pub fn unknown_grid(n: usize) -> (g: Vec<Vec<TerrainData>>)
    ensures
        grid_of(&g).len() == n,
        mem_wf(grid_of(&g)),
        forall|y: int, x: int|
            0 <= y < n && 0 <= x < n ==> grid_of(&g)[y][x] == TerrainData::unknown_spec(),
{
    let mut g: Vec<Vec<TerrainData>> = Vec::new();
    let mut y: usize = 0;
    while y < n
        invariant
            y <= n,
            grid_of(&g).len() == y,
            forall|yy: int| 0 <= yy < y ==> (#[trigger] grid_of(&g)[yy]).len() == n,
            forall|yy: int, xx: int|
                0 <= yy < y && 0 <= xx < n ==> (#[trigger] grid_of(&g)[yy][xx])
                    == TerrainData::unknown_spec(),
        decreases n - y,
    {
        let mut row: Vec<TerrainData> = Vec::new();
        let mut x: usize = 0;
        while x < n
            invariant
                x <= n,
                row@.len() == x,
                forall|xx: int| 0 <= xx < x ==> (#[trigger] row@[xx]) == TerrainData::unknown_spec(),
            decreases n - x,
        {
            row.push(TerrainData::unknown());
            x = x + 1;
        }
        let ghost g0 = grid_of(&g);
        g.push(row);
        proof {
            assert(grid_of(&g) =~= g0.push(row@));
        }
        y = y + 1;
    }
    g
}

/// An element-wise copy of a nested grid.
pub fn copy_grid<T: Copy>(g: &Vec<Vec<T>>) -> (r: Vec<Vec<T>>)
    ensures
        grid_of(&r) == grid_of(g),
{
    let mut r: Vec<Vec<T>> = Vec::new();
    let mut y: usize = 0;
    while y < g.len()
        invariant
            y <= g@.len(),
            grid_of(&r) =~= grid_of(g).take(y as int),
        decreases g@.len() - y,
    {
        let src = &g[y];
        let mut row: Vec<T> = Vec::new();
        let mut x: usize = 0;
        while x < src.len()
            invariant
                x <= src@.len(),
                row@ =~= src@.take(x as int),
            decreases src@.len() - x,
        {
            row.push(src[x]);
            x = x + 1;
        }
        proof {
            assert(row@ =~= src@);
        }
        r.push(row);
        y = y + 1;
    }
    proof {
        assert(grid_of(&r) =~= grid_of(g));
    }
    r
}

/// Folds a robot's knowledge grid into the station's grid, cell by cell, and
/// counts how many conflicts the merge resolved in the robot's favor.
pub fn merge_into(gm: &mut Vec<Vec<TerrainData>>, rm: &Vec<Vec<TerrainData>>) -> (conflicts: usize)
    requires
        grid_of(old(gm)).len() <= 46340,
        forall|y: int|
            0 <= y < grid_of(old(gm)).len() ==> (#[trigger] grid_of(old(gm))[y]).len() == grid_of(
                old(gm),
            ).len(),
        grid_of(rm).len() == grid_of(old(gm)).len(),
        forall|y: int|
            0 <= y < grid_of(rm).len() ==> (#[trigger] grid_of(rm)[y]).len() == grid_of(rm).len(),
    ensures
        grid_of(final(gm)) == merged_grid(grid_of(rm), grid_of(old(gm))),
        conflicts == merge_conflicts(grid_of(rm), grid_of(old(gm))),
        conflicts <= grid_of(old(gm)).len() * grid_of(old(gm)).len(),
{
    let n = gm.len();
    let ghost rmv = grid_of(rm);
    let ghost gm0 = grid_of(old(gm));
    let ghost cmask = conflict_mask(rmv, gm0);
    let mut conflicts: usize = 0;
    let mut y: usize = 0;
    while y < n
        invariant
            y <= n,
            grid_of(gm).len() == n,
            forall|yy: int| 0 <= yy < n ==> (#[trigger] grid_of(gm)[yy]).len() == n,
            forall|yy: int, xx: int|
                0 <= yy < n && 0 <= xx < n && yy < y ==> (#[trigger] grid_of(gm)[yy][xx])
                    == merge_cell(rmv[yy][xx], gm0[yy][xx]),
            forall|yy: int, xx: int|
                0 <= yy < n && 0 <= xx < n && yy >= y ==> (#[trigger] grid_of(gm)[yy][xx])
                    == gm0[yy][xx],
            conflicts == grid_trues(cmask.take(y as int)),
            conflicts <= y * n,
        decreases n - y,
    {
        let mut x: usize = 0;
        while x < n
            invariant
                x <= n,
                y < n,
                grid_of(gm).len() == n,
                forall|yy: int| 0 <= yy < n ==> (#[trigger] grid_of(gm)[yy]).len() == n,
                forall|yy: int, xx: int|
                    0 <= yy < n && 0 <= xx < n && (yy < y || (yy == y && xx < x)) ==> (
                    #[trigger] grid_of(gm)[yy][xx]) == merge_cell(rmv[yy][xx], gm0[yy][xx]),
                forall|yy: int, xx: int|
                    0 <= yy < n && 0 <= xx < n && (yy > y || (yy == y && xx >= x)) ==> (
                    #[trigger] grid_of(gm)[yy][xx]) == gm0[yy][xx],
                conflicts == grid_trues(cmask.take(y as int)) + row_trues(
                    cmask[y as int].take(x as int),
                ),
                conflicts <= y * n + x,
            decreases n - x,
        {
            proof {
                assert(grid_of(rm)[y as int].len() == n);
                assert(grid_of(gm)[y as int].len() == n);
                lemma_row_trues_take_step(cmask[y as int], x as int);
                assert(cmask[y as int][x as int] == cell_conflict(
                    rmv[y as int][x as int],
                    gm0[y as int][x as int],
                ));
            }
            proof {
                assert(y * n + x + 1 <= n * n) by (nonlinear_arith)
                    requires
                        y < n,
                        x < n,
                ;
                assert(n * n <= 46340 * 46340) by (nonlinear_arith)
                    requires
                        n <= 46340,
                ;
            }
            let rec = rm[y][x];
            if rec.explored {
                if gm[y][x].explored {
                    if rec.timestamp > gm[y][x].timestamp {
                        grid_set(gm, y, x, rec);
                        conflicts = conflicts + 1;
                    }
                } else {
                    grid_set(gm, y, x, rec);
                }
            }
            proof {
                assert(grid_of(gm)[y as int][x as int] == merge_cell(
                    rmv[y as int][x as int],
                    gm0[y as int][x as int],
                ));
            }
            x = x + 1;
        }
        proof {
            lemma_grid_trues_take_step(cmask, y as int);
            assert(cmask[y as int].take(n as int) =~= cmask[y as int]);
            lemma_row_trues_bounds(cmask[y as int]);
            lemma_grid_trues_bounds(cmask.take(y as int), n as int);
            assert(y * n + n == (y + 1) * n) by (nonlinear_arith);
            assert((y + 1) * n <= n * n) by (nonlinear_arith)
                requires
                    y + 1 <= n,
                    n >= 0,
            ;
        }
        y = y + 1;
    }
    proof {
        assert(cmask.take(n as int) =~= cmask);
        assert(grid_of(gm) =~~= merged_grid(rmv, gm0));
    }
    conflicts
}

/// Overwrites a robot's knowledge grid with every explored record of the
/// station's grid; cells the station has not explored are left alone.
pub fn adopt_explored(rm: &mut Vec<Vec<TerrainData>>, gm: &Vec<Vec<TerrainData>>)
    requires
        grid_of(old(rm)).len() == grid_of(gm).len(),
        forall|y: int|
            0 <= y < grid_of(old(rm)).len() ==> (#[trigger] grid_of(old(rm))[y]).len() == grid_of(
                old(rm),
            ).len(),
        forall|y: int|
            0 <= y < grid_of(gm).len() ==> (#[trigger] grid_of(gm)[y]).len() == grid_of(gm).len(),
    ensures
        grid_of(final(rm)) == adopted_grid(grid_of(old(rm)), grid_of(gm)),
{
    let n = rm.len();
    let ghost rm0 = grid_of(old(rm));
    let ghost gmv = grid_of(gm);
    let mut y: usize = 0;
    while y < n
        invariant
            y <= n,
            grid_of(rm).len() == n,
            forall|yy: int| 0 <= yy < n ==> (#[trigger] grid_of(rm)[yy]).len() == n,
            forall|yy: int, xx: int|
                0 <= yy < n && 0 <= xx < n && yy < y ==> (#[trigger] grid_of(rm)[yy][xx]) == (
                if gmv[yy][xx].explored {
                    gmv[yy][xx]
                } else {
                    rm0[yy][xx]
                }),
            forall|yy: int, xx: int|
                0 <= yy < n && 0 <= xx < n && yy >= y ==> (#[trigger] grid_of(rm)[yy][xx])
                    == rm0[yy][xx],
        decreases n - y,
    {
        let mut x: usize = 0;
        while x < n
            invariant
                x <= n,
                y < n,
                grid_of(rm).len() == n,
                forall|yy: int| 0 <= yy < n ==> (#[trigger] grid_of(rm)[yy]).len() == n,
                forall|yy: int, xx: int|
                    0 <= yy < n && 0 <= xx < n && (yy < y || (yy == y && xx < x)) ==> (
                    #[trigger] grid_of(rm)[yy][xx]) == (if gmv[yy][xx].explored {
                        gmv[yy][xx]
                    } else {
                        rm0[yy][xx]
                    }),
                forall|yy: int, xx: int|
                    0 <= yy < n && 0 <= xx < n && (yy > y || (yy == y && xx >= x)) ==> (
                    #[trigger] grid_of(rm)[yy][xx]) == rm0[yy][xx],
            decreases n - x,
        {
            proof {
                assert(grid_of(gm)[y as int].len() == n);
                assert(grid_of(rm)[y as int].len() == n);
            }
            let rec = gm[y][x];
            if rec.explored {
                grid_set(rm, y, x, rec);
            }
            x = x + 1;
        }
        y = y + 1;
    }
    proof {
        assert(grid_of(rm) =~~= adopted_grid(rm0, gmv));
    }
}

/// How many cells of a square knowledge grid are explored.
pub fn count_explored(g: &Vec<Vec<TerrainData>>) -> (c: usize)
    requires
        forall|y: int| 0 <= y < grid_of(g).len() ==> (#[trigger] grid_of(g)[y]).len() == grid_of(
            g,
        ).len(),
        grid_of(g).len() * grid_of(g).len() <= usize::MAX,
    ensures
        c == explored_cells(grid_of(g)),
        c <= grid_of(g).len() * grid_of(g).len(),
{
    let ghost m = grid_of(g);
    let ghost mask = explored_mask(m);
    let n = g.len();
    let mut c: usize = 0;
    let mut y: usize = 0;
    proof {
        assert(forall|yy: int| 0 <= yy < n ==> (#[trigger] mask[yy]).len() == n);
    }
    while y < n
        invariant
            y <= n,
            n == m.len(),
            mask == explored_mask(m),
            mask.len() == n,
            forall|yy: int| 0 <= yy < n ==> (#[trigger] mask[yy]).len() == n,
            n * n <= usize::MAX,
            c == grid_trues(mask.take(y as int)),
            c <= y * n,
        decreases n - y,
    {
        let mut x: usize = 0;
        let mut rc: usize = 0;
        while x < n
            invariant
                x <= n,
                y < n,
                n == m.len(),
                mask == explored_mask(m),
                mask.len() == n,
                forall|yy: int| 0 <= yy < n ==> (#[trigger] mask[yy]).len() == n,
                n * n <= usize::MAX,
                m == grid_of(g),
                forall|yy: int| 0 <= yy < n ==> (#[trigger] grid_of(g)[yy]).len() == n,
                rc == row_trues(mask[y as int].take(x as int)),
                rc <= x,
            decreases n - x,
        {
            proof {
                lemma_row_trues_take_step(mask[y as int], x as int);
                assert(mask[y as int][x as int] == m[y as int][x as int].explored);
            }
            if g[y][x].explored {
                rc = rc + 1;
            }
            x = x + 1;
        }
        proof {
            lemma_grid_trues_take_step(mask, y as int);
            assert(mask[y as int].take(n as int) =~= mask[y as int]);
            lemma_row_trues_bounds(mask[y as int]);
            lemma_grid_trues_bounds(mask.take(y as int), n as int);
            assert(y * n + n == (y + 1) * n) by (nonlinear_arith);
            assert((y + 1) * n <= n * n) by (nonlinear_arith)
                requires
                    y + 1 <= n,
                    n >= 0,
            ;
        }
        c = c + rc;
        y = y + 1;
    }
    proof {
        assert(mask.take(n as int) =~= mask);
    }
    c
}

} // verus!
