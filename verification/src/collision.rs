//! Grid-based collision representation and the axis-separable move resolver.
//!
//! Gameplay truth lives in a simplified grid of unit cells, each either solid
//! or empty, addressed by integer cell coordinates derived from a world-space
//! origin and a positive cell size. World coordinates are fixed-point: one
//! world unit is [`SUBUNITS_PER_UNIT`] subunits, so every position, extent and
//! movement delta in this module is an exact integer and resolution is
//! bit-for-bit reproducible.
//!
//! The core algorithm is axis-separable move-and-slide: X movement is resolved
//! fully against the grid first, then Y movement is resolved from the already
//! corrected X position. This ordering produces the "slide along a wall"
//! behaviour platformers expect and avoids diagonal tunneling. For each axis
//! the candidate position is the unclamped `start + delta`; the row (or
//! column) of cells swept by the leading edge is scanned, shrunk inward by one
//! subunit at each side so that an edge exactly touching a cell boundary does
//! not count as overlapping; if a swept cell is solid the candidate is clamped
//! flush against the facing cell boundary; and a final guardrail keeps
//! resolution from ever moving the box opposite to its intended direction.

use vstd::prelude::*;
use vstd::arithmetic::div_mod::{
    lemma_fundamental_div_mod,
    lemma_div_is_ordered,
    lemma_mod_bound,
};
use crate::num::{floor_div, min_i, max_i, lemma_div_between};

verus! {

/// Fixed-point scale: subunits per world unit.
pub const SUBUNITS_PER_UNIT: i64 = 9216;

/// Largest cell size (in world units) the resolver accepts.
pub const CELL_SIZE_LIMIT: i32 = 0x10_0000;

/// Bound on movement deltas handed to the resolver, in subunits.
pub const DELTA_LIMIT: i64 = 0x400_0000_0000;

/// Bound on AABB centre coordinates accepted by `move_and_collide`, in
/// subunits. Intermediate positions stay within three times this bound.
pub const POS_LIMIT: i64 = 0x400_0000_0000;

/// One grid cell coordinate.
#[derive(Debug, Clone, Copy, PartialEq, Eq, Hash, Structural)]
pub struct GridCell {
    pub x: i32,
    pub y: i32,
}

/// World-space origin of cell `(0, 0)`, in world units.
#[derive(Debug, Clone, Copy, Default, PartialEq, Eq, Structural)]
pub struct GridOrigin {
    pub x: i32,
    pub y: i32,
}

/// Declarative description of a collision grid, as a loader hands it over.
#[derive(Debug, Clone)]
pub struct CollisionFile {
    pub version: String,
    pub collision_id: String,
    pub cell_size: i32,
    pub origin: GridOrigin,
    pub width: i32,
    pub height: i32,
    pub solids: Vec<GridCell>,
}

/// Axis-aligned bounding box: centre plus half extents, in subunits.
#[derive(Debug, Clone, Copy, PartialEq, Eq, Structural)]
pub struct Aabb {
    pub center_x: i64,
    pub center_y: i64,
    pub half_w: i64,
    pub half_h: i64,
}

/// Outcome of one move resolution: the resolved box and which sides blocked.
#[derive(Debug, Clone, Copy, PartialEq, Eq, Structural)]
pub struct CollisionMoveResult {
    pub aabb: Aabb,
    pub collided_y: bool,
    pub blocked_left: bool,
    pub blocked_right: bool,
    pub blocked_down: bool,
    pub blocked_up: bool,
}

/// Immutable-per-load collision grid.
#[derive(Debug, Clone)]
pub struct CollisionGrid {
    pub version: String,
    pub collision_id: String,
    pub cell_size: i32,
    pub origin: GridOrigin,
    pub width: i32,
    pub height: i32,
    /// The solid set. Treated as read-only after construction; query through
    /// `is_solid` and enumerate through `solids_iter`.
    pub solids: Vec<GridCell>,
}

/// Whether the cell `(x, y)` occurs in the sequence.
pub open spec fn cell_in(s: Seq<GridCell>, x: int, y: int) -> bool {
    exists|i: int| 0 <= i < s.len() && s[i].x == x && s[i].y == y
}

/// Membership in a sequence extended by one cell.
pub proof fn lemma_cell_in_push(s: Seq<GridCell>, c: GridCell, x: int, y: int)
    ensures
        cell_in(s.push(c), x, y) <==> (cell_in(s, x, y) || (c.x == x && c.y == y)),
{
    if cell_in(s, x, y) {
        let i = choose|i: int| 0 <= i < s.len() && s[i].x == x && s[i].y == y;
        assert(s.push(c)[i].x == x && s.push(c)[i].y == y);
    }
    if c.x == x && c.y == y {
        assert(s.push(c)[s.len() as int].x == x && s.push(c)[s.len() as int].y == y);
    }
    if cell_in(s.push(c), x, y) {
        let i = choose|i: int| 0 <= i < s.push(c).len() && s.push(c)[i].x == x && s.push(c)[i].y == y;
        if i < s.len() {
            assert(s[i].x == x && s[i].y == y);
        }
    }
}

/// Whether a sequence of cells holds no coordinate twice.
pub open spec fn cells_unique(s: Seq<GridCell>) -> bool {
    forall|i: int, j: int|
        0 <= i < j < s.len() ==> !(#[trigger] s[i] == #[trigger] s[j])
}

impl Aabb {
    /// Extents are at least one subunit and the centre is within the range the
    /// resolver's arithmetic covers.
    pub open spec fn ok(self) -> bool {
        &&& 1 <= self.half_w <= POS_LIMIT
        &&& 1 <= self.half_h <= POS_LIMIT
        &&& -3 * POS_LIMIT <= self.center_x <= 3 * POS_LIMIT
        &&& -3 * POS_LIMIT <= self.center_y <= 3 * POS_LIMIT
    }
}

impl CollisionGrid {
    /// Geometry the resolver relies on: positive cell size within the
    /// supported range, positive dimensions.
    pub open spec fn ok(self) -> bool {
        &&& 0 < self.cell_size <= CELL_SIZE_LIMIT
        &&& 0 < self.width
        &&& 0 < self.height
    }

    /// Cell size in subunits.
    pub open spec fn cs(self) -> int {
        self.cell_size * SUBUNITS_PER_UNIT
    }

    /// Grid origin in subunits, X component.
    pub open spec fn ox(self) -> int {
        self.origin.x * SUBUNITS_PER_UNIT
    }

    /// Grid origin in subunits, Y component.
    pub open spec fn oy(self) -> int {
        self.origin.y * SUBUNITS_PER_UNIT
    }

    /// Cell column containing world X coordinate `w` (subunits).
    pub open spec fn cell_x_of(self, w: int) -> int {
        (w - self.ox()) / self.cs()
    }

    /// Cell row containing world Y coordinate `w` (subunits).
    pub open spec fn cell_y_of(self, w: int) -> int {
        (w - self.oy()) / self.cs()
    }

    /// World X of the left face of cell column `cx`.
    pub open spec fn cell_left(self, cx: int) -> int {
        self.ox() + cx * self.cs()
    }

    /// World X of the right face of cell column `cx`.
    pub open spec fn cell_right(self, cx: int) -> int {
        self.ox() + (cx + 1) * self.cs()
    }

    /// World Y of the bottom face of cell row `cy`.
    pub open spec fn cell_bottom(self, cy: int) -> int {
        self.oy() + cy * self.cs()
    }

    /// World Y of the top face of cell row `cy`.
    pub open spec fn cell_top(self, cy: int) -> int {
        self.oy() + (cy + 1) * self.cs()
    }

    /// The grid's answer for cell `(x, y)`: solid iff in bounds and listed.
    pub open spec fn solid(self, x: int, y: int) -> bool {
        &&& 0 <= x < self.width
        &&& 0 <= y < self.height
        &&& cell_in(self.solids@, x, y)
    }

    /// The solid set as a sequence, for contracts over `solids_iter`.
    pub open spec fn solids_seq(self) -> Seq<GridCell> {
        self.solids@
    }

    /// Build a grid from a declarative description. Duplicate coordinates in
    /// the description collapse to one entry; membership is otherwise kept
    /// exactly. (A loader validates the description first; see
    /// [`validate_collision_file`].)
    pub fn from_file(file: CollisionFile) -> (grid: CollisionGrid)
        ensures
            grid.version@ == file.version@,
            grid.collision_id@ == file.collision_id@,
            grid.cell_size == file.cell_size,
            grid.origin == file.origin,
            grid.width == file.width,
            grid.height == file.height,
            cells_unique(grid.solids_seq()),
            forall|x: int, y: int| cell_in(grid.solids_seq(), x, y) == cell_in(file.solids@, x, y),
    {
        let mut solids: Vec<GridCell> = Vec::new();
        let n = file.solids.len();
        let mut i: usize = 0;
        while i < n
            invariant
                i <= n,
                n == file.solids@.len(),
                cells_unique(solids@),
                forall|x: int, y: int|
                    cell_in(solids@, x, y) == cell_in(file.solids@.subrange(0, i as int), x, y),
            decreases n - i,
        {
            let c = file.solids[i];
            let ghost pre = solids@;
            let dup = contains_cell(&solids, c);
            if !dup {
                solids.push(c);
            }
            proof {
                assert(file.solids@.subrange(0, i as int + 1)
                    == file.solids@.subrange(0, i as int).push(c));
                if !dup {
                    assert forall|p: int, q: int|
                        0 <= p < q < solids@.len() implies !(#[trigger] solids@[p]
                        == #[trigger] solids@[q]) by {
                        if q == pre.len() {
                            assert(solids@[p] == pre[p]);
                            if solids@[p] == c {
                                assert(pre[p].x == c.x && pre[p].y == c.y);
                                assert(cell_in(pre, c.x as int, c.y as int));
                            }
                        }
                    }
                }
                assert forall|x: int, y: int|
                    cell_in(solids@, x, y) == cell_in(
                    #[trigger] file.solids@.subrange(0, i as int + 1),
                    x,
                    y,
                ) by {
                    lemma_cell_in_push(file.solids@.subrange(0, i as int), c, x, y);
                    if !dup {
                        lemma_cell_in_push(pre, c, x, y);
                    }
                }
            }
            i = i + 1;
        }
        proof {
            assert(file.solids@.subrange(0, n as int) == file.solids@);
        }
        CollisionGrid {
            version: file.version,
            collision_id: file.collision_id,
            cell_size: file.cell_size,
            origin: file.origin,
            width: file.width,
            height: file.height,
            solids,
        }
    }

    /// True iff the coordinate is within grid bounds and present in the solid
    /// set; always false otherwise, so out-of-range queries are benign.
    pub fn is_solid(&self, x: i32, y: i32) -> (r: bool)
        ensures
            r == self.solid(x as int, y as int),
    {
        if x < 0 || x >= self.width || y < 0 || y >= self.height {
            return false;
        }
        contains_cell(&self.solids, GridCell { x, y })
    }

    /// Solidity query on wide cell coordinates, used by the resolver (a swept
    /// edge can land far outside the grid's `i32` cell range).
    fn solid_wide(&self, x: i64, y: i64) -> (r: bool)
        ensures
            r == self.solid(x as int, y as int),
    {
        if x < 0 || x >= self.width as i64 || y < 0 || y >= self.height as i64 {
            return false;
        }
        contains_cell(&self.solids, GridCell { x: x as i32, y: y as i32 })
    }

    /// All solid cells, in load order with duplicates collapsed.
    pub fn solids_iter(&self) -> (r: &Vec<GridCell>)
        ensures
            r@ == self.solids_seq(),
    {
        &self.solids
    }
}

/// Linear membership scan for a cell coordinate.
fn contains_cell(v: &Vec<GridCell>, c: GridCell) -> (r: bool)
    ensures
        r == cell_in(v@, c.x as int, c.y as int),
{
    let n = v.len();
    let mut i: usize = 0;
    while i < n
        invariant
            i <= n,
            n == v@.len(),
            !cell_in(v@.subrange(0, i as int), c.x as int, c.y as int),
        decreases n - i,
    {
        if v[i].x == c.x && v[i].y == c.y {
            return true;
        }
        proof {
            assert(v@.subrange(0, i as int + 1) == v@.subrange(0, i as int).push(v@[i as int]));
            lemma_cell_in_push(v@.subrange(0, i as int), v@[i as int], c.x as int, c.y as int);
        }
        i = i + 1;
    }
    proof {
        assert(v@.subrange(0, n as int) == v@);
    }
    false
}

/// Check a grid description before building a grid from it: positive cell
/// size and dimensions, every solid cell in bounds, no duplicates. On failure
/// the error says which rule broke and no grid is produced.
pub fn validate_collision_file(file: &CollisionFile) -> (r: Result<(), String>)
    ensures
        r is Ok <==> {
            &&& file.cell_size > 0
            &&& file.width > 0
            &&& file.height > 0
            &&& forall|i: int| 0 <= i < file.solids@.len()
                ==> 0 <= #[trigger] file.solids@[i].x < file.width
                    && 0 <= file.solids@[i].y < file.height
            &&& cells_unique(file.solids@)
        },
{
    if file.cell_size <= 0 {
        return Err("Collision validation failed: cell_size must be > 0".to_owned());
    }
    if file.width <= 0 || file.height <= 0 {
        return Err("Collision validation failed: width and height must be > 0".to_owned());
    }
    let n = file.solids.len();
    let mut i: usize = 0;
    while i < n
        invariant
            i <= n,
            n == file.solids@.len(),
            file.width > 0,
            file.height > 0,
            forall|k: int| 0 <= k < i
                ==> 0 <= #[trigger] file.solids@[k].x < file.width
                    && 0 <= file.solids@[k].y < file.height,
            forall|p: int, q: int| 0 <= p < q < i
                ==> !(#[trigger] file.solids@[p] == #[trigger] file.solids@[q]),
        decreases n - i,
    {
        let cell = file.solids[i];
        if cell.x < 0 || cell.x >= file.width || cell.y < 0 || cell.y >= file.height {
            return Err("Collision validation failed: solid cell out of bounds".to_owned());
        }
        let mut j: usize = 0;
        while j < i
            invariant
                j <= i,
                i < n,
                n == file.solids@.len(),
                cell == file.solids@[i as int],
                forall|p: int| 0 <= p < j ==> !(#[trigger] file.solids@[p] == file.solids@[i as int]),
            decreases i - j,
        {
            if file.solids[j].x == cell.x && file.solids[j].y == cell.y {
                return Err("Collision validation failed: duplicate solid cell".to_owned());
            }
            proof {
                let pj = file.solids@[j as int];
                let pi = file.solids@[i as int];
                assert(!(pj.x == pi.x && pj.y == pi.y) ==> !(pj == pi));
            }
            j = j + 1;
        }
        i = i + 1;
    }
    Ok(())
}

/// The cell column a rightward-moving box's leading edge lands in.
pub open spec fn lead_cell_x_pos(g: CollisionGrid, a: Aabb, dx: int) -> int {
    g.cell_x_of(a.center_x + dx + a.half_w - 1)
}

/// The cell column a leftward-moving box's leading edge lands in.
pub open spec fn lead_cell_x_neg(g: CollisionGrid, a: Aabb, dx: int) -> int {
    g.cell_x_of(a.center_x + dx - a.half_w + 1)
}

/// The cell row an upward-moving box's leading edge lands in.
pub open spec fn lead_cell_y_pos(g: CollisionGrid, a: Aabb, dy: int) -> int {
    g.cell_y_of(a.center_y + dy + a.half_h - 1)
}

/// The cell row a downward-moving box's leading edge lands in.
pub open spec fn lead_cell_y_neg(g: CollisionGrid, a: Aabb, dy: int) -> int {
    g.cell_y_of(a.center_y + dy - a.half_h + 1)
}

/// Lowest cell row the box's body overlaps (one subunit inward).
pub open spec fn row_lo(g: CollisionGrid, a: Aabb) -> int {
    g.cell_y_of(a.center_y - a.half_h + 1)
}

/// Highest cell row the box's body overlaps (one subunit inward).
pub open spec fn row_hi(g: CollisionGrid, a: Aabb) -> int {
    g.cell_y_of(a.center_y + a.half_h - 1)
}

/// Lowest cell column the box's body overlaps (one subunit inward).
pub open spec fn col_lo(g: CollisionGrid, a: Aabb) -> int {
    g.cell_x_of(a.center_x - a.half_w + 1)
}

/// Highest cell column the box's body overlaps (one subunit inward).
pub open spec fn col_hi(g: CollisionGrid, a: Aabb) -> int {
    g.cell_x_of(a.center_x + a.half_w - 1)
}

/// Whether a rightward X move hits a solid in the leading column.
pub open spec fn hit_x_pos(g: CollisionGrid, a: Aabb, dx: int) -> bool {
    exists|yy: int| row_lo(g, a) <= yy <= row_hi(g, a) && #[trigger] g.solid(lead_cell_x_pos(g, a, dx), yy)
}

/// Whether a leftward X move hits a solid in the leading column.
pub open spec fn hit_x_neg(g: CollisionGrid, a: Aabb, dx: int) -> bool {
    exists|yy: int| row_lo(g, a) <= yy <= row_hi(g, a) && #[trigger] g.solid(lead_cell_x_neg(g, a, dx), yy)
}

/// Whether an upward Y move hits a solid in the leading row.
pub open spec fn hit_y_pos(g: CollisionGrid, a: Aabb, dy: int) -> bool {
    exists|xx: int| col_lo(g, a) <= xx <= col_hi(g, a) && #[trigger] g.solid(xx, lead_cell_y_pos(g, a, dy))
}

/// Whether a downward Y move hits a solid in the leading row.
pub open spec fn hit_y_neg(g: CollisionGrid, a: Aabb, dy: int) -> bool {
    exists|xx: int| col_lo(g, a) <= xx <= col_hi(g, a) && #[trigger] g.solid(xx, lead_cell_y_neg(g, a, dy))
}

/// Resolved X centre after moving `a` by `dx` against `g`: the unclamped
/// candidate, clamped flush against the first solid column the leading edge
/// sweeps into, and never moved opposite the direction of travel.
pub open spec fn resolve_x_spec(g: CollisionGrid, a: Aabb, dx: int) -> int {
    if dx == 0 {
        a.center_x as int
    } else if dx > 0 {
        let cand = a.center_x + dx;
        let clamped = if hit_x_pos(g, a, dx) {
            min_i(cand, g.cell_left(lead_cell_x_pos(g, a, dx)) - a.half_w)
        } else {
            cand
        };
        max_i(clamped, a.center_x as int)
    } else {
        let cand = a.center_x + dx;
        let clamped = if hit_x_neg(g, a, dx) {
            max_i(cand, g.cell_right(lead_cell_x_neg(g, a, dx)) + a.half_w)
        } else {
            cand
        };
        min_i(clamped, a.center_x as int)
    }
}

/// Resolved Y centre after moving `a` by `dy` against `g`; see
/// [`resolve_x_spec`].
pub open spec fn resolve_y_spec(g: CollisionGrid, a: Aabb, dy: int) -> int {
    if dy == 0 {
        a.center_y as int
    } else if dy > 0 {
        let cand = a.center_y + dy;
        let clamped = if hit_y_pos(g, a, dy) {
            min_i(cand, g.cell_bottom(lead_cell_y_pos(g, a, dy)) - a.half_h)
        } else {
            cand
        };
        max_i(clamped, a.center_y as int)
    } else {
        let cand = a.center_y + dy;
        let clamped = if hit_y_neg(g, a, dy) {
            max_i(cand, g.cell_top(lead_cell_y_neg(g, a, dy)) + a.half_h)
        } else {
            cand
        };
        min_i(clamped, a.center_y as int)
    }
}

/// The full outcome of one axis-separable move: X resolved first, Y resolved
/// from the X-corrected position, block flags derived from which axis was
/// clamped and the sign of its delta.
pub open spec fn move_and_collide_spec(g: CollisionGrid, a: Aabb, dx: int, dy: int) -> CollisionMoveResult {
    let rx = resolve_x_spec(g, a, dx);
    let collided_x = rx != a.center_x + dx;
    let moved1 = Aabb { center_x: rx as i64, ..a };
    let ry = resolve_y_spec(g, moved1, dy);
    let collided_y = ry != a.center_y + dy;
    CollisionMoveResult {
        aabb: Aabb { center_x: rx as i64, center_y: ry as i64, ..a },
        collided_y: collided_y,
        blocked_left: collided_x && dx < 0,
        blocked_right: collided_x && dx > 0,
        blocked_down: collided_y && dy < 0,
        blocked_up: collided_y && dy > 0,
    }
}

/// A world coordinate lies between the near and far face of its own cell.
pub proof fn lemma_cell_span(o: int, cs: int, w: int)
    requires
        cs > 0,
    ensures
        o + ((w - o) / cs) * cs <= w,
        w < o + ((w - o) / cs) * cs + cs,
{
    lemma_fundamental_div_mod(w - o, cs);
    lemma_mod_bound(w - o, cs);
    assert(cs * ((w - o) / cs) == ((w - o) / cs) * cs) by (nonlinear_arith);
}

impl CollisionGrid {
    /// Cell column lookup for a world X coordinate.
    fn world_to_cell_x(&self, w: i64) -> (c: i64)
        requires
            self.ok(),
            -0x2_0000_0000_0000 <= w <= 0x2_0000_0000_0000,
        ensures
            c as int == self.cell_x_of(w as int),
            -0x4_0000_0000_0000 <= c <= 0x4_0000_0000_0000,
    {
        let off = w - (self.origin.x as i64) * SUBUNITS_PER_UNIT;
        proof {
            lemma_div_between(off as int, self.cs());
        }
        floor_div(off, (self.cell_size as i64) * SUBUNITS_PER_UNIT)
    }

    /// Cell row lookup for a world Y coordinate.
    fn world_to_cell_y(&self, w: i64) -> (c: i64)
        requires
            self.ok(),
            -0x2_0000_0000_0000 <= w <= 0x2_0000_0000_0000,
        ensures
            c as int == self.cell_y_of(w as int),
            -0x4_0000_0000_0000 <= c <= 0x4_0000_0000_0000,
    {
        let off = w - (self.origin.y as i64) * SUBUNITS_PER_UNIT;
        proof {
            lemma_div_between(off as int, self.cs());
        }
        floor_div(off, (self.cell_size as i64) * SUBUNITS_PER_UNIT)
    }

    /// Resolve an X-axis move of `dx` subunits.
    fn resolve_axis_x(&self, aabb: Aabb, dx: i64) -> (r: i64)
        requires
            self.ok(),
            aabb.ok(),
            -DELTA_LIMIT <= dx <= DELTA_LIMIT,
        ensures
            r as int == resolve_x_spec(*self, aabb, dx as int),
            min_i(aabb.center_x as int, aabb.center_x + dx) <= r as int
                <= max_i(aabb.center_x as int, aabb.center_x + dx),
    {
        if dx == 0 {
            return aabb.center_x;
        }

        let mut candidate_x = aabb.center_x + dx;
        let ghost cand0 = candidate_x as int;
        let min_y = aabb.center_y - aabb.half_h + 1;
        let max_y = aabb.center_y + aabb.half_h - 1;
        let y0 = self.world_to_cell_y(min_y);
        let y1 = self.world_to_cell_y(max_y);
        proof {
            lemma_div_is_ordered(min_y - self.oy(), max_y - self.oy(), self.cs());
        }

        if dx > 0 {
            let lead = candidate_x + aabb.half_w - 1;
            let x_cell = self.world_to_cell_x(lead);
            proof {
                lemma_cell_span(self.ox(), self.cs(), lead as int);
            }
            let wall = (self.origin.x as i64) * SUBUNITS_PER_UNIT
                + x_cell * ((self.cell_size as i64) * SUBUNITS_PER_UNIT) - aabb.half_w;
            let mut y = y0;
            while y <= y1
                invariant
                    self.ok(),
                    aabb.ok(),
                    0 < dx <= DELTA_LIMIT,
                    y0 <= y,
                    y <= y1 + 1,
                    -0x4_0000_0000_0000 <= y0,
                    y1 <= 0x4_0000_0000_0000,
                    y0 == row_lo(*self, aabb),
                    y1 == row_hi(*self, aabb),
                    x_cell as int == lead_cell_x_pos(*self, aabb, dx as int),
                    cand0 == aabb.center_x + dx,
                    wall as int == self.cell_left(x_cell as int) - aabb.half_w,
                    -0x8_0000_0000_0000 <= wall <= 0x8_0000_0000_0000,
                    candidate_x as int == if (exists|yy: int|
                        y0 <= yy < y && #[trigger] self.solid(x_cell as int, yy)) {
                        min_i(cand0, wall as int)
                    } else {
                        cand0
                    },
                decreases y1 + 1 - y,
            {
                if self.solid_wide(x_cell, y) {
                    proof {
                        assert(self.solid(x_cell as int, y as int));
                        assert(exists|yy: int|
                            y0 <= yy < y + 1 && #[trigger] self.solid(x_cell as int, yy));
                    }
                    if wall < candidate_x {
                        candidate_x = wall;
                    }
                } else {
                    proof {
                        assert forall|yy: int|
                            y0 <= yy < y + 1 && #[trigger] self.solid(
                                x_cell as int,
                                yy,
                            ) implies y0 <= yy < y by {
                            if yy == y as int {
                                assert(false);
                            }
                        }
                    }
                }
                y = y + 1;
            }
            if candidate_x < aabb.center_x {
                candidate_x = aabb.center_x;
            }
            candidate_x
        } else {
            let lead = candidate_x - aabb.half_w + 1;
            let x_cell = self.world_to_cell_x(lead);
            proof {
                lemma_cell_span(self.ox(), self.cs(), lead as int);
            }
            proof {
                assert((x_cell as int + 1) * self.cs() == x_cell as int * self.cs() + self.cs())
                    by (nonlinear_arith);
            }
            let wall = (self.origin.x as i64) * SUBUNITS_PER_UNIT
                + x_cell * ((self.cell_size as i64) * SUBUNITS_PER_UNIT)
                + (self.cell_size as i64) * SUBUNITS_PER_UNIT + aabb.half_w;
            let mut y = y0;
            while y <= y1
                invariant
                    self.ok(),
                    aabb.ok(),
                    -DELTA_LIMIT <= dx < 0,
                    y0 <= y,
                    y <= y1 + 1,
                    -0x4_0000_0000_0000 <= y0,
                    y1 <= 0x4_0000_0000_0000,
                    y0 == row_lo(*self, aabb),
                    y1 == row_hi(*self, aabb),
                    x_cell as int == lead_cell_x_neg(*self, aabb, dx as int),
                    cand0 == aabb.center_x + dx,
                    wall as int == self.cell_right(x_cell as int) + aabb.half_w,
                    -0x8_0000_0000_0000 <= wall <= 0x8_0000_0000_0000,
                    candidate_x as int == if (exists|yy: int|
                        y0 <= yy < y && #[trigger] self.solid(x_cell as int, yy)) {
                        max_i(cand0, wall as int)
                    } else {
                        cand0
                    },
                decreases y1 + 1 - y,
            {
                if self.solid_wide(x_cell, y) {
                    proof {
                        assert(self.solid(x_cell as int, y as int));
                        assert(exists|yy: int|
                            y0 <= yy < y + 1 && #[trigger] self.solid(x_cell as int, yy));
                    }
                    if wall > candidate_x {
                        candidate_x = wall;
                    }
                } else {
                    proof {
                        assert forall|yy: int|
                            y0 <= yy < y + 1 && #[trigger] self.solid(
                                x_cell as int,
                                yy,
                            ) implies y0 <= yy < y by {
                            if yy == y as int {
                                assert(false);
                            }
                        }
                    }
                }
                y = y + 1;
            }
            if candidate_x > aabb.center_x {
                candidate_x = aabb.center_x;
            }
            candidate_x
        }
    }

    /// Resolve a Y-axis move of `dy` subunits.
    fn resolve_axis_y(&self, aabb: Aabb, dy: i64) -> (r: i64)
        requires
            self.ok(),
            aabb.ok(),
            -DELTA_LIMIT <= dy <= DELTA_LIMIT,
        ensures
            r as int == resolve_y_spec(*self, aabb, dy as int),
            min_i(aabb.center_y as int, aabb.center_y + dy) <= r as int
                <= max_i(aabb.center_y as int, aabb.center_y + dy),
    {
        if dy == 0 {
            return aabb.center_y;
        }

        let mut candidate_y = aabb.center_y + dy;
        let ghost cand0 = candidate_y as int;
        let min_x = aabb.center_x - aabb.half_w + 1;
        let max_x = aabb.center_x + aabb.half_w - 1;
        let x0 = self.world_to_cell_x(min_x);
        let x1 = self.world_to_cell_x(max_x);
        proof {
            lemma_div_is_ordered(min_x - self.ox(), max_x - self.ox(), self.cs());
        }

        if dy > 0 {
            let lead = candidate_y + aabb.half_h - 1;
            let y_cell = self.world_to_cell_y(lead);
            proof {
                lemma_cell_span(self.oy(), self.cs(), lead as int);
            }
            let wall = (self.origin.y as i64) * SUBUNITS_PER_UNIT
                + y_cell * ((self.cell_size as i64) * SUBUNITS_PER_UNIT) - aabb.half_h;
            let mut x = x0;
            while x <= x1
                invariant
                    self.ok(),
                    aabb.ok(),
                    0 < dy <= DELTA_LIMIT,
                    x0 <= x,
                    x <= x1 + 1,
                    -0x4_0000_0000_0000 <= x0,
                    x1 <= 0x4_0000_0000_0000,
                    x0 == col_lo(*self, aabb),
                    x1 == col_hi(*self, aabb),
                    y_cell as int == lead_cell_y_pos(*self, aabb, dy as int),
                    cand0 == aabb.center_y + dy,
                    wall as int == self.cell_bottom(y_cell as int) - aabb.half_h,
                    -0x8_0000_0000_0000 <= wall <= 0x8_0000_0000_0000,
                    candidate_y as int == if (exists|xx: int|
                        x0 <= xx < x && #[trigger] self.solid(xx, y_cell as int)) {
                        min_i(cand0, wall as int)
                    } else {
                        cand0
                    },
                decreases x1 + 1 - x,
            {
                if self.solid_wide(x, y_cell) {
                    proof {
                        assert(self.solid(x as int, y_cell as int));
                        assert(exists|xx: int|
                            x0 <= xx < x + 1 && #[trigger] self.solid(xx, y_cell as int));
                    }
                    if wall < candidate_y {
                        candidate_y = wall;
                    }
                } else {
                    proof {
                        assert forall|xx: int|
                            x0 <= xx < x + 1 && #[trigger] self.solid(
                                xx,
                                y_cell as int,
                            ) implies x0 <= xx < x by {
                            if xx == x as int {
                                assert(false);
                            }
                        }
                    }
                }
                x = x + 1;
            }
            if candidate_y < aabb.center_y {
                candidate_y = aabb.center_y;
            }
            candidate_y
        } else {
            let lead = candidate_y - aabb.half_h + 1;
            let y_cell = self.world_to_cell_y(lead);
            proof {
                lemma_cell_span(self.oy(), self.cs(), lead as int);
            }
            proof {
                assert((y_cell as int + 1) * self.cs() == y_cell as int * self.cs() + self.cs())
                    by (nonlinear_arith);
            }
            let wall = (self.origin.y as i64) * SUBUNITS_PER_UNIT
                + y_cell * ((self.cell_size as i64) * SUBUNITS_PER_UNIT)
                + (self.cell_size as i64) * SUBUNITS_PER_UNIT + aabb.half_h;
            let mut x = x0;
            while x <= x1
                invariant
                    self.ok(),
                    aabb.ok(),
                    -DELTA_LIMIT <= dy < 0,
                    x0 <= x,
                    x <= x1 + 1,
                    -0x4_0000_0000_0000 <= x0,
                    x1 <= 0x4_0000_0000_0000,
                    x0 == col_lo(*self, aabb),
                    x1 == col_hi(*self, aabb),
                    y_cell as int == lead_cell_y_neg(*self, aabb, dy as int),
                    cand0 == aabb.center_y + dy,
                    wall as int == self.cell_top(y_cell as int) + aabb.half_h,
                    -0x8_0000_0000_0000 <= wall <= 0x8_0000_0000_0000,
                    candidate_y as int == if (exists|xx: int|
                        x0 <= xx < x && #[trigger] self.solid(xx, y_cell as int)) {
                        max_i(cand0, wall as int)
                    } else {
                        cand0
                    },
                decreases x1 + 1 - x,
            {
                if self.solid_wide(x, y_cell) {
                    proof {
                        assert(self.solid(x as int, y_cell as int));
                        assert(exists|xx: int|
                            x0 <= xx < x + 1 && #[trigger] self.solid(xx, y_cell as int));
                    }
                    if wall > candidate_y {
                        candidate_y = wall;
                    }
                } else {
                    proof {
                        assert forall|xx: int|
                            x0 <= xx < x + 1 && #[trigger] self.solid(
                                xx,
                                y_cell as int,
                            ) implies x0 <= xx < x by {
                            if xx == x as int {
                                assert(false);
                            }
                        }
                    }
                }
                x = x + 1;
            }
            if candidate_y > aabb.center_y {
                candidate_y = aabb.center_y;
            }
            candidate_y
        }
    }

    /// Resolve a move and return only the resolved box.
    pub fn move_and_collide(&self, aabb: Aabb, dx: i64, dy: i64) -> (r: Aabb)
        requires
            self.ok(),
            aabb.ok(),
            -POS_LIMIT <= aabb.center_x <= POS_LIMIT,
            -POS_LIMIT <= aabb.center_y <= POS_LIMIT,
            -POS_LIMIT <= dx <= POS_LIMIT,
            -POS_LIMIT <= dy <= POS_LIMIT,
        ensures
            r == move_and_collide_spec(*self, aabb, dx as int, dy as int).aabb,
    {
        self.move_and_collide_detailed(aabb, dx, dy).aabb
    }

    /// Resolve a move and report which sides blocked.
    ///
    /// X is resolved first; Y is resolved from the X-corrected position. A
    /// side is reported blocked only when that axis was actually clamped and
    /// the move headed toward that side.
    pub fn move_and_collide_detailed(&self, aabb: Aabb, dx: i64, dy: i64) -> (r: CollisionMoveResult)
        requires
            self.ok(),
            aabb.ok(),
            -POS_LIMIT <= aabb.center_x <= POS_LIMIT,
            -POS_LIMIT <= aabb.center_y <= POS_LIMIT,
            -POS_LIMIT <= dx <= POS_LIMIT,
            -POS_LIMIT <= dy <= POS_LIMIT,
        ensures
            r == move_and_collide_spec(*self, aabb, dx as int, dy as int),
    {
        let resolved_x = self.resolve_axis_x(aabb, dx);
        let x_expected = aabb.center_x + dx;
        let collided_x = resolved_x != x_expected;

        let mut moved = aabb;
        moved.center_x = resolved_x;
        let resolved_y = self.resolve_axis_y(moved, dy);
        let y_expected = aabb.center_y + dy;
        let collided_y = resolved_y != y_expected;
        moved.center_y = resolved_y;

        CollisionMoveResult {
            aabb: moved,
            collided_y: collided_y,
            blocked_left: collided_x && dx < 0,
            blocked_right: collided_x && dx > 0,
            blocked_down: collided_y && dy < 0,
            blocked_up: collided_y && dy > 0,
        }
    }
}

/// Law: resolution never pushes the box opposite its direction of travel.
/// In particular an upward move over a downward-blocking floor can never
/// lower the box below its pre-move position, whatever solids stand nearby.
pub proof fn lemma_no_reverse_push(g: CollisionGrid, a: Aabb, dx: int, dy: int)
    requires
        a.ok(),
        -DELTA_LIMIT <= dx <= DELTA_LIMIT,
        -DELTA_LIMIT <= dy <= DELTA_LIMIT,
    ensures
        dx >= 0 ==> resolve_x_spec(g, a, dx) >= a.center_x,
        dx <= 0 ==> resolve_x_spec(g, a, dx) <= a.center_x,
        dy >= 0 ==> resolve_y_spec(g, a, dy) >= a.center_y,
        dy <= 0 ==> resolve_y_spec(g, a, dy) <= a.center_y,
        dy >= 0 ==> move_and_collide_spec(g, a, dx, dy).aabb.center_y >= a.center_y,
        dy <= 0 ==> move_and_collide_spec(g, a, dx, dy).aabb.center_y <= a.center_y,
{
    let rx = resolve_x_spec(g, a, dx);
    assert(min_i(a.center_x as int, a.center_x + dx) <= rx <= max_i(a.center_x as int, a.center_x + dx));
    let m = Aabb { center_x: rx as i64, ..a };
    assert(m.center_y == a.center_y);
    let ry = resolve_y_spec(g, m, dy);
    assert(min_i(m.center_y as int, m.center_y + dy) <= ry <= max_i(m.center_y as int, m.center_y + dy));
    assert(ry as i64 as int == ry);
    assert(dy >= 0 ==> ry >= m.center_y);
    assert(dy <= 0 ==> ry <= m.center_y);
}

/// Law: a rightward move whose leading edge sweeps into a solid column stops
/// at or before that column's left face (no tunneling), provided the box
/// started at or before that face; and if the unclamped move would have gone
/// past the face, the move is reported blocked on the right.
pub proof fn lemma_wall_block_monotonic_right(g: CollisionGrid, a: Aabb, dx: int, dy: int)
    requires
        a.ok(),
        -DELTA_LIMIT <= dy <= DELTA_LIMIT,
        dx > 0 && dx <= DELTA_LIMIT,
        hit_x_pos(g, a, dx),
        a.center_x + a.half_w <= g.cell_left(lead_cell_x_pos(g, a, dx)),
    ensures
        move_and_collide_spec(g, a, dx, dy).aabb.center_x + a.half_w
            <= g.cell_left(lead_cell_x_pos(g, a, dx)),
        a.center_x + dx + a.half_w > g.cell_left(lead_cell_x_pos(g, a, dx))
            ==> move_and_collide_spec(g, a, dx, dy).blocked_right,
{
}

/// Law: mirror of [`lemma_wall_block_monotonic_right`] for leftward moves
/// against a solid column's right face.
pub proof fn lemma_wall_block_monotonic_left(g: CollisionGrid, a: Aabb, dx: int, dy: int)
    requires
        a.ok(),
        -DELTA_LIMIT <= dy <= DELTA_LIMIT,
        dx < 0 && dx >= -DELTA_LIMIT,
        hit_x_neg(g, a, dx),
        a.center_x - a.half_w >= g.cell_right(lead_cell_x_neg(g, a, dx)),
    ensures
        move_and_collide_spec(g, a, dx, dy).aabb.center_x - a.half_w
            >= g.cell_right(lead_cell_x_neg(g, a, dx)),
        a.center_x + dx - a.half_w < g.cell_right(lead_cell_x_neg(g, a, dx))
            ==> move_and_collide_spec(g, a, dx, dy).blocked_left,
{
}

} // verus!
