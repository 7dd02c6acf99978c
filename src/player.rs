use vstd::prelude::*;

use crate::grid::CharMatrix;
use crate::ray::{
    map_ok, march, near_cell_length, FINE, ray_length, unit_like, CELL, MAX_DIM, MAX_STEP, NORM_HIGH, NORM_LOW,
    WALL,
};

verus! {

/// Angle units in a full turn: facings and fields of view are whole numbers of them.
pub const TURN: i64 = 960;

/// The map character of open floor.
pub const FLOOR: char = '.';

/// The map character of the cell the player stands in.
pub const OCCUPIED: char = '█';

/// Raw ray steps per distance bucket.
pub const BUCKET_STEPS: u64 = 15;

/// Largest distance bucket that has a shade of its own.
pub const FARTHEST: u64 = 4;

/// Wall shade for a distance bucket, densest when near.
pub open spec fn wall_shade(bucket: int) -> char {
    if bucket <= 0 {
        '█'
    } else if bucket == 1 {
        '█'
    } else if bucket == 2 {
        '▒'
    } else if bucket == 3 {
        '░'
    } else {
        '•'
    }
}

/// Floor shade for a distance bucket.
pub open spec fn floor_shade(bucket: int) -> char {
    if bucket <= 0 {
        '•'
    } else if bucket <= 2 {
        '.'
    } else {
        '_'
    }
}

/// The shade bucket of a ray that took `steps` steps.
pub open spec fn shade_bucket(steps: int) -> int {
    let d = steps / BUCKET_STEPS as int;
    if d < FARTHEST { d } else { FARTHEST as int }
}

/// Rows of sky above the wall in a column whose ray took `steps` steps.
pub open spec fn sky_rows(steps: int, screen_width: int) -> int {
    let d = steps / BUCKET_STEPS as int;
    let cap = screen_width / 5;
    (if d * 10 < cap { d * 10 } else { cap }) / 4
}

/// The character at `row` of a screen column whose ray took `steps` steps.
pub open spec fn column_cell(row: int, screen_height: int, screen_width: int, steps: int) -> char {
    let top = sky_rows(steps, screen_width);
    if row <= top {
        ' '
    } else if row + top <= screen_height {
        wall_shade(shade_bucket(steps))
    } else {
        floor_shade(shade_bucket(steps))
    }
}

/// More raw steps never give a nearer shade.
pub proof fn lemma_shade_bucket_monotonic(a: int, b: int)
    requires
        0 <= a <= b,
    ensures
        shade_bucket(a) <= shade_bucket(b),
{
    vstd::arithmetic::div_mod::lemma_div_is_ordered(a, b, BUCKET_STEPS as int);
}

fn wall_shade_char(bucket: u64) -> (ch: char)
    ensures
        ch == wall_shade(bucket as int),
{
    if bucket == 0 {
        '█'
    } else if bucket == 1 {
        '█'
    } else if bucket == 2 {
        '▒'
    } else if bucket == 3 {
        '░'
    } else {
        '•'
    }
}

fn floor_shade_char(bucket: u64) -> (ch: char)
    ensures
        ch == floor_shade(bucket as int),
{
    if bucket == 0 {
        '•'
    } else if bucket <= 2 {
        '.'
    } else {
        '_'
    }
}

/// A table of direction vectors, one for each angle unit of a turn: entry `k`
/// is `(sin, cos)` of `k / TURN` of a full turn, scaled by `CELL`.
pub struct DirectionTable {
    pub entries: Vec<(i64, i64)>,
}

impl DirectionTable {
    /// One direction for each angle unit, each a usable direction vector.
    pub open spec fn wf(&self) -> bool {
        &&& self.entries@.len() == TURN
        &&& forall|k: int| 0 <= k < TURN ==> #[trigger] unit_like(self.entries@[k])
    }

    /// The table of these entries, or `None` when there are not `TURN` of
    /// them or one of them is not a usable direction vector.
    pub fn new(entries: Vec<(i64, i64)>) -> (res: Option<DirectionTable>)
        ensures
            match res {
                Some(t) => t.wf() && t.entries@ == entries@,
                None => !(entries@.len() == TURN && forall|k: int|
                    0 <= k < TURN ==> #[trigger] unit_like(entries@[k])),
            },
    {
        if entries.len() != TURN as usize {
            return None;
        }
        let mut k: usize = 0;
        while k < entries.len()
            invariant
                entries@.len() == TURN,
                0 <= k <= TURN,
                forall|j: int| 0 <= j < k ==> #[trigger] unit_like(entries@[j]),
            decreases TURN - k,
        {
            let (s, c) = entries[k];
            if s < -CELL || s > CELL || c < -CELL || c > CELL || (s == 0 && c == 0) {
                assert(!unit_like(entries@[k as int]));
                return None;
            }
            assert(0 <= s * s <= CELL * CELL && 0 <= c * c <= CELL * CELL) by (nonlinear_arith)
                requires
                    -CELL <= s <= CELL,
                    -CELL <= c <= CELL,
            ;
            let norm: i64 = s * s + c * c;
            if norm < NORM_LOW || norm > NORM_HIGH {
                assert(!unit_like(entries@[k as int])) by {
                    reveal(near_cell_length);
                }
                return None;
            }
            assert(unit_like(entries@[k as int])) by {
                reveal(near_cell_length);
            }
            k = k + 1;
        }
        Some(DirectionTable { entries })
    }
}

/// Angle units of one turn to the left: a sixty-fourth of a full turn.
pub const ROTATION_STEP: i64 = 15;

/// What the player is asked to do.
pub enum Command {
    MoveForward,
    MoveBackward,
    RotateLeft,
    RotateRight,
    Quit,
    Nothing,
}

/// The command of a character key: `w` forward, `s` back, `a` left, `d`
/// right; any other key does nothing.
pub open spec fn key_command(key: char) -> Command {
    if key == 'w' {
        Command::MoveForward
    } else if key == 's' {
        Command::MoveBackward
    } else if key == 'a' {
        Command::RotateLeft
    } else if key == 'd' {
        Command::RotateRight
    } else {
        Command::Nothing
    }
}

/// The command of a character key.
pub fn command_for_key(key: char) -> (cmd: Command)
    ensures
        cmd == key_command(key),
{
    if key == 'w' {
        Command::MoveForward
    } else if key == 's' {
        Command::MoveBackward
    } else if key == 'a' {
        Command::RotateLeft
    } else if key == 'd' {
        Command::RotateRight
    } else {
        Command::Nothing
    }
}

/// `v * step / CELL`, rounded toward zero: the part `v / CELL` of a step.
pub open spec fn scaled(v: int, step: int) -> int {
    if v >= 0 {
        v * step / CELL as int
    } else {
        -((-v) * step / CELL as int)
    }
}

fn scale(v: i64, step: i64) -> (r: i64)
    requires
        -CELL <= v <= CELL,
        0 < step <= MAX_STEP,
    ensures
        r == scaled(v as int, step as int),
        -step <= r <= step,
{
    if v >= 0 {
        assert(0 <= v * step <= CELL * step && (v * step) / (CELL as int) <= step) by (nonlinear_arith)
            requires
                0 <= v <= CELL,
                0 < step,
        ;
        v * step / CELL
    } else {
        assert(0 <= (-v) * step <= CELL * step && ((-v) * step) / (CELL as int) <= step) by (nonlinear_arith)
            requires
                0 < -v <= CELL,
                0 < step,
        ;
        -((-v) * step / CELL)
    }
}

/// The cell that holds a point at length `v` along an axis.
pub open spec fn cell_of(v: int) -> int {
    v / CELL as int
}

/// The facing after turning from `facing` by `delta` angle units, in `[0, TURN)`.
pub open spec fn turned(facing: int, delta: int) -> int {
    (facing + delta) % (TURN as int)
}

/// The facing after turning by each of `deltas` in order.
pub open spec fn turned_by_all(facing: int, deltas: Seq<int>) -> int
    decreases deltas.len(),
{
    if deltas.len() == 0 {
        facing
    } else {
        turned_by_all(turned(facing, deltas[0]), deltas.drop_first())
    }
}

/// The sum of `deltas`.
pub open spec fn total_turn(deltas: Seq<int>) -> int
    decreases deltas.len(),
{
    if deltas.len() == 0 {
        0
    } else {
        deltas[0] + total_turn(deltas.drop_first())
    }
}

/// Turning by several angles in turn is turning by their sum; when the sum
/// is a whole number of turns, the facing comes back to where it was.
pub proof fn lemma_turns_accumulate(facing: int, deltas: Seq<int>)
    requires
        0 <= facing < TURN,
    ensures
        turned_by_all(facing, deltas) == turned(facing, total_turn(deltas)),
        total_turn(deltas) % (TURN as int) == 0 ==> turned_by_all(facing, deltas) == facing,
    decreases deltas.len(),
{
    let t = TURN as int;
    if deltas.len() == 0 {
        vstd::arithmetic::div_mod::lemma_small_mod(facing as nat, t as nat);
    } else {
        let f1 = turned(facing, deltas[0]);
        let rest = deltas.drop_first();
        lemma_turns_accumulate(f1, rest);
        vstd::arithmetic::div_mod::lemma_add_mod_noop_right(total_turn(rest), facing + deltas[0], t);
        assert(facing + deltas[0] + total_turn(rest) == facing + total_turn(deltas));
    }
    if total_turn(deltas) % t == 0 {
        vstd::arithmetic::div_mod::lemma_add_mod_noop_right(facing, total_turn(deltas), t);
        vstd::arithmetic::div_mod::lemma_small_mod(facing as nat, t as nat);
    }
}

/// A player on a map, with the screen that its view is drawn on.
///
/// Positions are in length units (`CELL` to a cell), angles in angle units
/// (`TURN` to a full turn).
pub struct Player {
    pub x: i64,
    pub y: i64,
    pub facing: i64,
    pub fov: i64,
    pub step: i64,
    pub map: CharMatrix,
    pub screen: CharMatrix,
    pub directions: DirectionTable,
}

/// `after` is `before` after a move in direction `dir`: a move into a wall
/// or out of the map changes nothing; a move that is taken changes the
/// position, and where it enters another cell, that cell becomes occupied and
/// the one left becomes floor, and no other map cell changes.
pub open spec fn moved(before: Player, after: Player, dir: int) -> bool {
    let (tx, ty) = before.target(dir);
    let (oc, or) = (cell_of(before.x as int), cell_of(before.y as int));
    let (nc, nr) = (cell_of(tx), cell_of(ty));
    if before.can_enter(tx, ty) {
        &&& after.x == tx
        &&& after.y == ty
        &&& after.facing == before.facing
        &&& after.fov == before.fov
        &&& after.step == before.step
        &&& after.screen == before.screen
        &&& after.directions == before.directions
        &&& after.map.width == before.map.width
        &&& after.map.height == before.map.height
        &&& after.map.view()[nr][nc] == OCCUPIED
        &&& (nr != or || nc != oc) ==> after.map.view()[or][oc] == FLOOR
        &&& forall|r: int, c: int|
            0 <= r < before.map.height && 0 <= c < before.map.width && (r != nr || c != nc) && (r
                != or || c != oc) ==> #[trigger] after.map.view()[r][c] == before.map.view()[r][c]
    } else {
        after == before
    }
}

/// `after` is `before` turned by `delta` angle units, with its position
/// snapped to the corner of its cell.
pub open spec fn rotated(before: Player, after: Player, delta: int) -> bool {
    &&& after.facing == turned(before.facing as int, delta)
    &&& after.x == cell_of(before.x as int) * CELL
    &&& after.y == cell_of(before.y as int) * CELL
    &&& after.fov == before.fov
    &&& after.step == before.step
    &&& after.map == before.map
    &&& after.screen == before.screen
    &&& after.directions == before.directions
}

impl Player {
    /// The player stands inside the map in a cell marked occupied, faces an
    /// angle of `[0, TURN)`, and the grids and the table are well formed.
    pub open spec fn wf(&self) -> bool {
        &&& map_ok(self.map)
        &&& self.screen.wf()
        &&& self.screen.width <= MAX_DIM
        &&& self.screen.height <= MAX_DIM
        &&& 0 <= self.x < self.map.width * CELL
        &&& 0 <= self.y < self.map.height * CELL
        &&& 0 <= self.facing < TURN
        &&& 0 < self.step <= MAX_STEP
        &&& self.directions.wf()
        &&& self.map.view()[cell_of(self.y as int)][cell_of(self.x as int)] == OCCUPIED
    }

    /// The direction vector the player faces.
    pub open spec fn heading(&self) -> (i64, i64) {
        self.directions.entries@[self.facing as int]
    }

    /// Where a move in direction `dir` (`1` forward, `-1` back) would take the player.
    pub open spec fn target(&self, dir: int) -> (int, int) {
        (
            self.x - dir * scaled(self.heading().0 as int, self.step as int),
            self.y - dir * scaled(self.heading().1 as int, self.step as int),
        )
    }

    /// A move to `(tx, ty)` is taken: the point is inside the map and its cell
    /// is no wall. Columns are bounded by the map's width and rows by its
    /// height; a point left of or above the map is refused outright.
    pub open spec fn can_enter(&self, tx: int, ty: int) -> bool {
        &&& 0 <= tx
        &&& 0 <= ty
        &&& cell_of(tx) < self.map.width
        &&& cell_of(ty) < self.map.height
        &&& self.map.view()[cell_of(ty)][cell_of(tx)] != WALL
    }

    /// A player at `(x, y)` facing `facing`, on `map`, drawing on `screen`;
    /// the map cell it stands in is marked occupied.
    pub fn new(
        x: i64,
        y: i64,
        facing: i64,
        fov: i64,
        step: i64,
        map: CharMatrix,
        screen: CharMatrix,
        directions: DirectionTable,
    ) -> (p: Player)
        requires
            map_ok(map),
            screen.wf(),
            screen.width <= MAX_DIM,
            screen.height <= MAX_DIM,
            0 <= x < map.width * CELL,
            0 <= y < map.height * CELL,
            0 <= facing < TURN,
            0 < step <= MAX_STEP,
            directions.wf(),
        ensures
            p.wf(),
            p.x == x,
            p.y == y,
            p.facing == facing,
            p.fov == fov,
            p.step == step,
            p.screen == screen,
            p.directions == directions,
            p.map.width == map.width,
            p.map.height == map.height,
            p.map.view() == map.view().update(
                cell_of(y as int),
                map.view()[cell_of(y as int)].update(cell_of(x as int), OCCUPIED),
            ),
    {
        let mut map = map;
        let row: usize = (y / CELL) as usize;
        let col: usize = (x / CELL) as usize;
        assert(row < map.height && col < map.width) by (nonlinear_arith)
            requires
                0 <= x < map.width * CELL,
                0 <= y < map.height * CELL,
                row == y / CELL,
                col == x / CELL,
        ;
        map.set(row, col, OCCUPIED);
        Player { x, y, facing, fov, step, map, screen, directions }
    }

    /// Moves one step forward (`dir == 1`) or back (`dir == -1`) along the
    /// facing. A move into a wall or out of the map is refused and changes
    /// nothing. A move that is taken changes the position; where it enters
    /// another cell, that cell becomes occupied and the one left becomes floor.
    pub fn mv(&mut self, dir: i8)
        requires
            old(self).wf(),
            dir == 1 || dir == -1,
        ensures
            final(self).wf(),
            moved(*old(self), *final(self), dir as int),
    {
        assert(unit_like(self.directions.entries@[self.facing as int]));
        let (s, c) = self.directions.entries[self.facing as usize];
        let sx = scale(s, self.step);
        let sy = scale(c, self.step);
        let tx: i64 = if dir == 1 { self.x - sx } else { self.x + sx };
        let ty: i64 = if dir == 1 { self.y - sy } else { self.y + sy };
        if tx < 0 || ty < 0 {
            return;
        }
        let nc: i64 = tx / CELL;
        let nr: i64 = ty / CELL;
        if nc >= self.map.width as i64 || nr >= self.map.height as i64 {
            return;
        }
        if self.map.get(nr as usize, nc as usize) == WALL {
            return;
        }
        let oc: i64 = self.x / CELL;
        let or: i64 = self.y / CELL;
        assert(or < self.map.height && oc < self.map.width) by (nonlinear_arith)
            requires
                0 <= self.x < self.map.width * CELL,
                0 <= self.y < self.map.height * CELL,
                or == self.y / CELL,
                oc == self.x / CELL,
        ;
        if nc != oc || nr != or {
            self.map.set(nr as usize, nc as usize, OCCUPIED);
            self.map.set(or as usize, oc as usize, FLOOR);
        }
        assert(tx < self.map.width * CELL && ty < self.map.height * CELL) by (nonlinear_arith)
            requires
                nc == tx / CELL,
                nr == ty / CELL,
                0 <= tx,
                0 <= ty,
                nc < self.map.width,
                nr < self.map.height,
        ;
        self.x = tx;
        self.y = ty;
    }

    /// Turns by `delta` angle units, wrapping the facing into `[0, TURN)` (a
    /// turn right from facing `0` gives `TURN - delta`, never a negative
    /// facing), and snaps the position to the corner of the cell it is in.
    pub fn rotate(&mut self, delta: i64)
        requires
            old(self).wf(),
        ensures
            final(self).wf(),
            rotated(*old(self), *final(self), delta as int),
    {
        let d: i64 = match delta.checked_rem_euclid(TURN) {
            Some(d) => d,
            None => 0,
        };
        assert(d == (delta as int) % (TURN as int));
        let sum: i64 = self.facing + d;
        let f: i64 = if sum >= TURN { sum - TURN } else { sum };
        proof {
            let t = TURN as int;
            vstd::arithmetic::div_mod::lemma_add_mod_noop_right(self.facing as int, delta as int, t);
            if sum >= TURN {
                vstd::arithmetic::div_mod::lemma_mod_add_multiples_vanish(f as int, t);
                vstd::arithmetic::div_mod::lemma_small_mod(f as nat, t as nat);
            } else {
                vstd::arithmetic::div_mod::lemma_small_mod(sum as nat, t as nat);
            }
        }
        let nx: i64 = self.x / CELL * CELL;
        let ny: i64 = self.y / CELL * CELL;
        assert(cell_of(nx as int) == cell_of(self.x as int) && cell_of(ny as int) == cell_of(self.y as int)
            && 0 <= nx <= self.x && 0 <= ny <= self.y) by (nonlinear_arith)
            requires
                nx == self.x / CELL * CELL,
                ny == self.y / CELL * CELL,
                0 <= self.x,
                0 <= self.y,
        ;
        self.facing = f;
        self.x = nx;
        self.y = ny;
    }

    /// Angle of the ray of screen column `i`: column `0` looks one field of
    /// view past the facing, and each next column `fov / width` further on
    /// (rounded down to a whole angle unit).
    pub open spec fn column_angle(&self, i: int) -> int {
        (self.facing + self.fov + i * self.fov / self.screen.width as int) % (TURN as int)
    }

    /// Steps that the ray of screen column `i` takes before it stops.
    pub open spec fn column_steps(&self, i: int) -> nat {
        let d = self.directions.entries@[self.column_angle(i)];
        ray_length(self.map, self.x as int, self.y as int, d.0 as int, d.1 as int, self.step as int)
    }

    /// Draws the view: each screen column shows sky, wall and floor as its
    /// ray's length gives them. Nothing but the screen changes.
    pub fn render(&mut self)
        requires
            old(self).wf(),
        ensures
            final(self).wf(),
            final(self).x == old(self).x,
            final(self).y == old(self).y,
            final(self).facing == old(self).facing,
            final(self).fov == old(self).fov,
            final(self).step == old(self).step,
            final(self).map == old(self).map,
            final(self).directions == old(self).directions,
            final(self).screen.width == old(self).screen.width,
            final(self).screen.height == old(self).screen.height,
            forall|j: int, i: int|
                0 <= j < old(self).screen.height && 0 <= i < old(self).screen.width
                    ==> #[trigger] final(self).screen.view()[j][i] == column_cell(
                    j,
                    old(self).screen.height as int,
                    old(self).screen.width as int,
                    old(self).column_steps(i) as int,
                ),
            forall|i: int|
                0 <= i < old(self).screen.width ==> (#[trigger] old(self).column_steps(i) - 1) * ((CELL - 1)
                    * old(self).step) < (old(self).map.width + old(self).map.height) * FINE,
    {
        let ghost p0 = *self;
        let w: usize = self.screen.width;
        let h: usize = self.screen.height;
        let mut i: usize = 0;
        while i < w
            invariant
                p0.wf(),
                w == p0.screen.width,
                h == p0.screen.height,
                0 <= i <= w,
                self.x == p0.x,
                self.y == p0.y,
                self.facing == p0.facing,
                self.fov == p0.fov,
                self.step == p0.step,
                self.map == p0.map,
                self.directions == p0.directions,
                self.screen.wf(),
                self.screen.width == w,
                self.screen.height == h,
                forall|j: int, ii: int|
                    0 <= j < h && 0 <= ii < i ==> #[trigger] self.screen.view()[j][ii] == column_cell(
                        j,
                        h as int,
                        w as int,
                        p0.column_steps(ii) as int,
                    ),
                forall|ii: int|
                    0 <= ii < i ==> (#[trigger] p0.column_steps(ii) - 1) * ((CELL - 1) * p0.step) < (
                    p0.map.width + p0.map.height) * FINE,
            decreases w - i,
        {
            let fov: i128 = self.fov as i128;
            assert(-MAX_DIM * 0x8000_0000_0000_0000 <= i * fov <= MAX_DIM * 0x8000_0000_0000_0000)
                by (nonlinear_arith)
                requires
                    0 <= i <= MAX_DIM,
                    -0x8000_0000_0000_0000 <= fov < 0x8000_0000_0000_0000,
            ;
            let sweep: i128 = (i as i128) * fov;
            assert(-MAX_DIM * 0x8000_0000_0000_0000 <= (sweep as int) / (w as int) <= MAX_DIM
                * 0x8000_0000_0000_0000) by (nonlinear_arith)
                requires
                    w >= 1,
                    -MAX_DIM * 0x8000_0000_0000_0000 <= sweep <= MAX_DIM * 0x8000_0000_0000_0000,
            ;
            let spread: i128 = match sweep.checked_div_euclid(w as i128) {
                Some(q) => q,
                None => 0,
            };
            assert(spread == (sweep as int) / (w as int));
            let total: i128 = self.facing as i128 + fov + spread;
            let angle_wide: i128 = match total.checked_rem_euclid(TURN as i128) {
                Some(a) => a,
                None => 0,
            };
            assert(angle_wide == (total as int) % (TURN as int));
            let angle: i64 = angle_wide as i64;
            assert(angle == p0.column_angle(i as int));
            assert(unit_like(self.directions.entries@[angle as int]));
            let (s, c) = self.directions.entries[angle as usize];
            let steps: u64 = march(&self.map, self.x, self.y, s, c, self.step);
            assert(steps == p0.column_steps(i as int));
            let d: u64 = steps / BUCKET_STEPS;
            let cap: u64 = (w / 5) as u64;
            let top: u64 = (if d > cap {
                cap
            } else if d * 10 < cap {
                d * 10
            } else {
                cap
            }) / 4;
            assert(top == sky_rows(steps as int, w as int));
            let bucket: u64 = if d < FARTHEST { d } else { FARTHEST };
            let wall = wall_shade_char(bucket);
            let floor = floor_shade_char(bucket);
            let mut j: usize = 0;
            while j < h
                invariant
                    p0.wf(),
                    w == p0.screen.width,
                    h == p0.screen.height,
                    0 <= i < w,
                    0 <= j <= h,
                    self.x == p0.x,
                    self.y == p0.y,
                    self.facing == p0.facing,
                    self.fov == p0.fov,
                    self.step == p0.step,
                    self.map == p0.map,
                    self.directions == p0.directions,
                    self.screen.wf(),
                    self.screen.width == w,
                    self.screen.height == h,
                    top == sky_rows(steps as int, w as int),
                    wall == wall_shade(shade_bucket(steps as int)),
                    floor == floor_shade(shade_bucket(steps as int)),
                    steps == p0.column_steps(i as int),
                    forall|jj: int, ii: int|
                        0 <= jj < h && 0 <= ii < i ==> #[trigger] self.screen.view()[jj][ii] == column_cell(
                            jj,
                            h as int,
                            w as int,
                            p0.column_steps(ii) as int,
                        ),
                    forall|jj: int|
                        0 <= jj < j ==> #[trigger] self.screen.view()[jj][i as int] == column_cell(
                            jj,
                            h as int,
                            w as int,
                            steps as int,
                        ),
                    forall|ii: int|
                        0 <= ii < i ==> (#[trigger] p0.column_steps(ii) - 1) * ((CELL - 1) * p0.step) < (
                        p0.map.width + p0.map.height) * FINE,
                    (steps - 1) * ((CELL - 1) * p0.step) < (p0.map.width + p0.map.height) * FINE,
                decreases h - j,
            {
                let ch: char = if (j as u64) <= top {
                    ' '
                } else if (j as u64) + top <= h as u64 {
                    wall
                } else {
                    floor
                };
                self.screen.set(j, i, ch);
                j = j + 1;
            }
            i = i + 1;
        }
    }

    /// The frame to show: the screen's text followed by the map's text.
    pub fn frame_text(&self) -> (text: String)
        requires
            self.wf(),
        ensures
            text@ == crate::grid::text_of(self.screen.view()) + crate::grid::text_of(self.map.view()),
    {
        let mut text = self.screen.to_text();
        let map_text = self.map.to_text();
        text.append(map_text.as_str());
        text
    }

    /// Carries out `cmd`; returns `false` for `Quit` and `true` otherwise.
    pub fn apply(&mut self, cmd: Command) -> (go_on: bool)
        requires
            old(self).wf(),
        ensures
            final(self).wf(),
            go_on == !(cmd is Quit),
            match cmd {
                Command::MoveForward => moved(*old(self), *final(self), 1),
                Command::MoveBackward => moved(*old(self), *final(self), -1),
                Command::RotateLeft => rotated(*old(self), *final(self), ROTATION_STEP as int),
                Command::RotateRight => rotated(*old(self), *final(self), -ROTATION_STEP),
                _ => *final(self) == *old(self),
            },
    {
        match cmd {
            Command::MoveForward => self.mv(1),
            Command::MoveBackward => self.mv(-1),
            Command::RotateLeft => self.rotate(ROTATION_STEP),
            Command::RotateRight => self.rotate(-ROTATION_STEP),
            Command::Quit => {
                return false;
            },
            Command::Nothing => {},
        }
        true
    }
}

} // verus!
