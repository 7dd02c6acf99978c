use vstd::prelude::*;

use crate::grid::CharMatrix;

verus! {

/// Length units in the side of one map cell: positions are fixed-point
/// numbers with this many units per cell.
pub const CELL: i64 = 65536;

/// A ray advances by one sixth of the movement step at a time.
pub const RAY_SUBSTEPS: i64 = 6;

/// Ray positions are tracked exactly, in units of `1 / (RAY_SUBSTEPS * CELL)`
/// length units; this many of them make one cell.
pub const FINE: i64 = RAY_SUBSTEPS * CELL * CELL;

/// Largest width or height of a map or screen.
pub const MAX_DIM: usize = 1048576;

/// Largest movement step, in length units (1024 cells).
pub const MAX_STEP: i64 = 67108864;

/// The map character of a wall.
pub const WALL: char = '#';

/// A direction vector `(sin, cos)` scaled by `CELL`, rounded: each component
/// lies in `[-CELL, CELL]`, they are not both zero, and the vector's length
/// is within one unit of `CELL`.
pub open spec fn unit_like(d: (i64, i64)) -> bool {
    &&& -CELL <= d.0 <= CELL
    &&& -CELL <= d.1 <= CELL
    &&& (d.0 != 0 || d.1 != 0)
    &&& near_cell_length(d.0 as int, d.1 as int)
}

/// Square of `CELL - 1`.
pub const NORM_LOW: i64 = 4294836225;

/// Square of `CELL + 1`.
pub const NORM_HIGH: i64 = 4295098369;

/// The vector `(s, c)` is within one unit of `CELL` long.
#[verifier::opaque]
pub open spec fn near_cell_length(s: int, c: int) -> bool {
    NORM_LOW <= s * s + c * c <= NORM_HIGH
}

/// The map has the usual limits on its size.
pub open spec fn map_ok(map: CharMatrix) -> bool {
    &&& map.wf()
    &&& 0 < map.width <= MAX_DIM
    &&& 0 < map.height <= MAX_DIM
}

/// A ray may pass the fine point `(fx, fy)`: it is inside the map and not in a wall.
pub open spec fn passable(map: CharMatrix, fx: int, fy: int) -> bool {
    &&& 0 <= fx < map.width * FINE
    &&& 0 <= fy < map.height * FINE
    &&& map.view()[fy / (FINE as int)][fx / (FINE as int)] != WALL
}

/// Fine coordinate of a ray after `k` steps, from the position `p` (length
/// units) along the direction component `d` with movement step `step`.
pub open spec fn ray_coord(p: int, d: int, step: int, k: int) -> int {
    p * (RAY_SUBSTEPS * CELL) + k * (d * step)
}

/// The ray from `(x, y)` along `(s, c)` passes its first `n` points and stops at point `n`.
pub open spec fn stops_at(map: CharMatrix, x: int, y: int, s: int, c: int, step: int, n: nat) -> bool {
    &&& forall|k: int|
        0 <= k < n ==> #[trigger] passable(map, ray_coord(x, s, step, k), ray_coord(y, c, step, k))
    &&& !passable(map, ray_coord(x, s, step, n as int), ray_coord(y, c, step, n as int))
}

/// Number of steps a ray takes before it leaves the map or meets a wall.
pub open spec fn ray_length(map: CharMatrix, x: int, y: int, s: int, c: int, step: int) -> nat {
    choose|n: nat| stops_at(map, x, y, s, c, step, n)
}

/// A ray stops at one point only.
pub proof fn lemma_stop_unique(map: CharMatrix, x: int, y: int, s: int, c: int, step: int, n: nat, m: nat)
    requires
        stops_at(map, x, y, s, c, step, n),
        stops_at(map, x, y, s, c, step, m),
    ensures
        n == m,
{
    if n < m {
        assert(passable(map, ray_coord(x, s, step, n as int), ray_coord(y, c, step, n as int)));
    } else if m < n {
        assert(passable(map, ray_coord(x, s, step, m as int), ray_coord(y, c, step, m as int)));
    }
}

/// What is left of a ray's way out of the map, measured along one axis on
/// which it moves; it shrinks by at least one at every step.
pub open spec fn way_left(map: CharMatrix, fx: int, fy: int, dx: int, dy: int) -> int {
    if dx > 0 {
        map.width * FINE + dx - fx
    } else if dx < 0 {
        fx - dx
    } else if dy > 0 {
        map.height * FINE + dy - fy
    } else {
        fy - dy
    }
}

/// Marches a ray from `(x, y)` (length units) along `(s, c)` in steps of
/// `step / RAY_SUBSTEPS`, and returns how many steps it takes before it
/// leaves the map or meets a wall.
pub fn march(map: &CharMatrix, x: i64, y: i64, s: i64, c: i64, step: i64) -> (n: u64)
    requires
        map_ok(*map),
        0 <= x < map.width * CELL,
        0 <= y < map.height * CELL,
        unit_like((s, c)),
        0 < step <= MAX_STEP,
    ensures
        stops_at(*map, x as int, y as int, s as int, c as int, step as int, n as nat),
        n == ray_length(*map, x as int, y as int, s as int, c as int, step as int),
        (n - 1) * ((CELL - 1) * step) < (map.width + map.height) * FINE,
{
    assert(-CELL * step <= s * step <= CELL * step) by (nonlinear_arith)
        requires
            -CELL <= s <= CELL,
            0 < step,
    ;
    assert(-CELL * step <= c * step <= CELL * step) by (nonlinear_arith)
        requires
            -CELL <= c <= CELL,
            0 < step,
    ;
    assert(s * step != 0 || c * step != 0) by (nonlinear_arith)
        requires
            s != 0 || c != 0,
            0 < step,
    ;
    assert(CELL * step <= CELL * MAX_STEP) by (nonlinear_arith)
        requires
            step <= MAX_STEP,
    ;
    assert(map.width * FINE <= MAX_DIM * FINE && map.height * FINE <= MAX_DIM * FINE) by (nonlinear_arith)
        requires
            map.width <= MAX_DIM,
            map.height <= MAX_DIM,
    ;
    let dx: i64 = s * step;
    let dy: i64 = c * step;
    let wf: i64 = map.width as i64 * FINE;
    let hf: i64 = map.height as i64 * FINE;
    assert(0 <= x * (RAY_SUBSTEPS * CELL) < map.width * FINE) by (nonlinear_arith)
        requires
            0 <= x < map.width * CELL,
    ;
    assert(0 <= y * (RAY_SUBSTEPS * CELL) < map.height * FINE) by (nonlinear_arith)
        requires
            0 <= y < map.height * CELL,
    ;
    let mut fx: i64 = x * (RAY_SUBSTEPS * CELL);
    let mut fy: i64 = y * (RAY_SUBSTEPS * CELL);
    let ghost start = way_left(*map, fx as int, fy as int, dx as int, dy as int);
    let mut n: u64 = 0;
    loop
        invariant
            map_ok(*map),
            wf == map.width * FINE,
            hf == map.height * FINE,
            wf <= MAX_DIM * FINE,
            hf <= MAX_DIM * FINE,
            dx == s * step,
            dy == c * step,
            dx != 0 || dy != 0,
            -CELL * MAX_STEP <= dx <= CELL * MAX_STEP,
            -CELL * MAX_STEP <= dy <= CELL * MAX_STEP,
            fx == ray_coord(x as int, s as int, step as int, n as int),
            fy == ray_coord(y as int, c as int, step as int, n as int),
            -CELL * MAX_STEP <= fx <= wf + CELL * MAX_STEP,
            -CELL * MAX_STEP <= fy <= hf + CELL * MAX_STEP,
            0 <= way_left(*map, fx as int, fy as int, dx as int, dy as int),
            n + way_left(*map, fx as int, fy as int, dx as int, dy as int) <= start,
            start <= 2 * (MAX_DIM * FINE) + 2 * CELL * MAX_STEP,
            forall|k: int|
                0 <= k < n ==> #[trigger] passable(
                    *map,
                    ray_coord(x as int, s as int, step as int, k),
                    ray_coord(y as int, c as int, step as int, k),
                ),
        ensures
            stops_at(*map, x as int, y as int, s as int, c as int, step as int, n as nat),
        decreases way_left(*map, fx as int, fy as int, dx as int, dy as int),
    {
        if fx < 0 || fx >= wf || fy < 0 || fy >= hf {
            break;
        }
        let col_i: i64 = fx / FINE;
        let row_i: i64 = fy / FINE;
        assert(0 <= col_i < map.width && 0 <= row_i < map.height) by (nonlinear_arith)
            requires
                0 <= fx < map.width * FINE,
                0 <= fy < map.height * FINE,
                col_i == fx / FINE,
                row_i == fy / FINE,
        ;
        let col: usize = col_i as usize;
        let row: usize = row_i as usize;
        if map.get(row, col) == WALL {
            break;
        }
        assert(ray_coord(x as int, s as int, step as int, n + 1) == fx + dx) by (nonlinear_arith)
            requires
                fx == ray_coord(x as int, s as int, step as int, n as int),
                dx == s * step,
        ;
        assert(ray_coord(y as int, c as int, step as int, n + 1) == fy + dy) by (nonlinear_arith)
            requires
                fy == ray_coord(y as int, c as int, step as int, n as int),
                dy == c * step,
        ;
        fx = fx + dx;
        fy = fy + dy;
        n = n + 1;
    }
    proof {
        let l = ray_length(*map, x as int, y as int, s as int, c as int, step as int);
        assert(stops_at(*map, x as int, y as int, s as int, c as int, step as int, l));
        lemma_stop_unique(*map, x as int, y as int, s as int, c as int, step as int, l, n as nat);
        lemma_ray_length_bound(*map, x, y, s, c, step, n as nat);
    }
    n
}

/// A ray that is inside the map at its start and again after `k` steps has
/// covered less than the map's width plus its height: each step moves it at
/// least `(CELL - 1) * step` fine units, counted along both axes together.
proof fn lemma_travel_bound(map: CharMatrix, x: i64, y: i64, s: i64, c: i64, step: i64, k: int)
    requires
        map_ok(map),
        0 <= x < map.width * CELL,
        0 <= y < map.height * CELL,
        unit_like((s, c)),
        0 < step,
        0 <= k,
        0 <= ray_coord(x as int, s as int, step as int, k) < map.width * FINE,
        0 <= ray_coord(y as int, c as int, step as int, k) < map.height * FINE,
    ensures
        k * ((CELL - 1) * step) < (map.width + map.height) * FINE,
{
    let w = map.width as int;
    let h = map.height as int;
    let x0 = x * (RAY_SUBSTEPS * CELL);
    let y0 = y * (RAY_SUBSTEPS * CELL);
    assert(0 <= x0 < w * FINE && 0 <= y0 < h * FINE) by (nonlinear_arith)
        requires
            x0 == x * (RAY_SUBSTEPS * CELL),
            y0 == y * (RAY_SUBSTEPS * CELL),
            0 <= x < w * CELL,
            0 <= y < h * CELL,
    ;
    let ax: int = if s >= 0 { s as int } else { -s };
    let ay: int = if c >= 0 { c as int } else { -c };
    reveal(near_cell_length);
    assert(ax * ax + ay * ay == s * s + c * c) by (nonlinear_arith)
        requires
            ax == s || ax == -s,
            ay == c || ay == -c,
    ;
    assert(ax + ay >= CELL - 1) by (nonlinear_arith)
        requires
            ax >= 0,
            ay >= 0,
            ax * ax + ay * ay >= NORM_LOW,
            NORM_LOW == (CELL - 1) * (CELL - 1),
    ;
    let tx = k * (s * step);
    let ty = k * (c * step);
    let fxk = ray_coord(x as int, s as int, step as int, k);
    let fyk = ray_coord(y as int, c as int, step as int, k);
    assert(fxk == x0 + tx && fyk == y0 + ty);
    assert(-w * FINE < tx < w * FINE && -h * FINE < ty < h * FINE) by (nonlinear_arith)
        requires
            fxk == x0 + tx,
            fyk == y0 + ty,
            0 <= x0 < w * FINE,
            0 <= y0 < h * FINE,
            0 <= fxk < w * FINE,
            0 <= fyk < h * FINE,
    ;
    assert(k * (ax * step) < w * FINE) by (nonlinear_arith)
        requires
            tx == k * (s * step),
            -w * FINE < tx < w * FINE,
            ax == s || ax == -s,
            0 <= k,
    ;
    assert(k * (ay * step) < h * FINE) by (nonlinear_arith)
        requires
            ty == k * (c * step),
            -h * FINE < ty < h * FINE,
            ay == c || ay == -c,
            0 <= k,
    ;
    assert(k * ((CELL - 1) * step) <= k * (ax * step) + k * (ay * step)) by (nonlinear_arith)
        requires
            ax + ay >= CELL - 1,
            0 <= k,
            0 < step,
    ;
    assert(w * FINE + h * FINE == (w + h) * FINE) by (nonlinear_arith);
}

/// However the map is laid out, a ray from a point inside it that stops
/// after `n` steps has passed `n - 1` steps inside the map: `n` is at most one
/// more than `(width + height) * FINE / ((CELL - 1) * step)`, about
/// `RAY_SUBSTEPS * (width + height) * CELL / step`.
pub proof fn lemma_ray_length_bound(map: CharMatrix, x: i64, y: i64, s: i64, c: i64, step: i64, n: nat)
    requires
        map_ok(map),
        0 <= x < map.width * CELL,
        0 <= y < map.height * CELL,
        unit_like((s, c)),
        0 < step,
        stops_at(map, x as int, y as int, s as int, c as int, step as int, n),
    ensures
        (n - 1) * ((CELL - 1) * step) < (map.width + map.height) * FINE,
{
    if n > 0 {
        let k = n - 1;
        assert(passable(map, ray_coord(x as int, s as int, step as int, k), ray_coord(y as int, c as int, step as int, k)));
        lemma_travel_bound(map, x, y, s, c, step, k);
    } else {
        assert((n - 1) * ((CELL - 1) * step) < 0) by (nonlinear_arith)
            requires
                n == 0,
                0 < step,
        ;
    }
}

/// Every cell on the outer ring of the map is a wall.
pub open spec fn closed(map: CharMatrix) -> bool {
    forall|r: int, c: int|
        0 <= r < map.height && 0 <= c < map.width && (r == 0 || r == map.height - 1 || c == 0 || c
            == map.width - 1) ==> #[trigger] map.view()[r][c] == WALL
}

/// A coordinate that leaves `[0, limit * FINE)` by a move of less than one
/// cell was last in the first or the last cell along its axis.
proof fn lemma_edge_cell(prev: int, d: int, limit: int)
    requires
        0 <= prev < limit * FINE,
        -FINE < d < FINE,
        prev + d < 0 || prev + d >= limit * FINE,
    ensures
        prev / (FINE as int) == 0 || prev / (FINE as int) == limit - 1,
{
    assert(prev / (FINE as int) == 0 || prev / (FINE as int) == limit - 1) by (nonlinear_arith)
        requires
            0 <= prev < limit * FINE,
            -FINE < d < FINE,
            prev + d < 0 || prev + d >= limit * FINE,
    ;
}

/// In a map closed by walls, a ray from a point of the map whose steps are
/// shorter than a cell stops at a wall inside the map, after fewer than
/// `(width + height) * FINE / ((CELL - 1) * step)` steps, about
/// `RAY_SUBSTEPS * (width + height) * CELL / step`.
pub proof fn lemma_ray_stops_at_wall(map: CharMatrix, x: i64, y: i64, s: i64, c: i64, step: i64, n: nat)
    requires
        map_ok(map),
        closed(map),
        0 <= x < map.width * CELL,
        0 <= y < map.height * CELL,
        unit_like((s, c)),
        0 < step < RAY_SUBSTEPS * CELL,
        stops_at(map, x as int, y as int, s as int, c as int, step as int, n),
    ensures
        ({
            let fx = ray_coord(x as int, s as int, step as int, n as int);
            let fy = ray_coord(y as int, c as int, step as int, n as int);
            &&& 0 <= fx < map.width * FINE
            &&& 0 <= fy < map.height * FINE
            &&& map.view()[fy / (FINE as int)][fx / (FINE as int)] == WALL
        }),
        n * ((CELL - 1) * step) < (map.width + map.height) * FINE,
{
    let w = map.width as int;
    let h = map.height as int;
    let dx = s * step;
    let dy = c * step;
    assert(-FINE < dx < FINE && -FINE < dy < FINE && (dx != 0 || dy != 0)) by (nonlinear_arith)
        requires
            dx == s * step,
            dy == c * step,
            -CELL <= s <= CELL,
            -CELL <= c <= CELL,
            s != 0 || c != 0,
            0 < step < RAY_SUBSTEPS * CELL,
    ;
    let x0 = ray_coord(x as int, s as int, step as int, 0);
    let y0 = ray_coord(y as int, c as int, step as int, 0);
    assert(0 <= x0 < w * FINE && 0 <= y0 < h * FINE) by (nonlinear_arith)
        requires
            x0 == x * (RAY_SUBSTEPS * CELL),
            y0 == y * (RAY_SUBSTEPS * CELL),
            0 <= x < w * CELL,
            0 <= y < h * CELL,
    ;
    let fx = ray_coord(x as int, s as int, step as int, n as int);
    let fy = ray_coord(y as int, c as int, step as int, n as int);
    if n > 0 {
        let k = n - 1;
        let px = ray_coord(x as int, s as int, step as int, k);
        let py = ray_coord(y as int, c as int, step as int, k);
        assert(passable(map, px, py));
        assert(fx == px + dx && fy == py + dy) by (nonlinear_arith)
            requires
                px == x * (RAY_SUBSTEPS * CELL) + k * dx,
                py == y * (RAY_SUBSTEPS * CELL) + k * dy,
                fx == x * (RAY_SUBSTEPS * CELL) + (k + 1) * dx,
                fy == y * (RAY_SUBSTEPS * CELL) + (k + 1) * dy,
        ;
        let pc = px / (FINE as int);
        let pr = py / (FINE as int);
        assert(0 <= pc < w && 0 <= pr < h) by (nonlinear_arith)
            requires
                0 <= px < w * FINE,
                0 <= py < h * FINE,
                pc == px / (FINE as int),
                pr == py / (FINE as int),
        ;
        if fx < 0 || fx >= w * FINE {
            lemma_edge_cell(px, dx, w);
            assert(map.view()[pr][pc] == WALL);
        }
        if fy < 0 || fy >= h * FINE {
            lemma_edge_cell(py, dy, h);
            assert(map.view()[pr][pc] == WALL);
        }
    }
    assert(0 <= fx < w * FINE && 0 <= fy < h * FINE);
    lemma_travel_bound(map, x, y, s, c, step, n as int);
}

} // verus!
