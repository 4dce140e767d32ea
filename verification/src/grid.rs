use vstd::prelude::*;

use crate::constants::{GRID_HEIGHT, GRID_WIDTH};
use crate::game::{ArenaBounds, GridPos, fits_i32};

verus! {

/// How a grid cell is drawn.
#[derive(Debug, Clone, Copy, PartialEq, Eq, Structural)]
pub enum CellShade {
    /// Wall colour (the border, and everything outside the arena).
    Wall,
    /// Danger colour (the ring next to a wall that has already closed in).
    Danger,
    /// Danger colour flashing, while a shrink is about to happen.
    DangerFlash,
    /// Floor colour blending toward danger (near the edge, shrink imminent);
    /// `true` for the even checker square.
    Warn(bool),
    /// Plain floor; `true` for the even checker square.
    Floor(bool),
}

/// `(x + y)` is even.
pub open spec fn even_square(pos: GridPos) -> bool {
    (pos.x + pos.y) % 2 == 0
}

/// A cell on the outer border of the grid.
pub open spec fn outer_border(pos: GridPos) -> bool {
    pos.x == 0 || pos.y == 0 || pos.x == GRID_WIDTH - 1 || pos.y == GRID_HEIGHT - 1
}

/// The arena has closed in at least once.
pub open spec fn spec_has_shrunk(b: ArenaBounds) -> bool {
    b.min_x > 1
}

pub fn has_shrunk(bounds: &ArenaBounds) -> (r: bool)
    ensures
        r == spec_has_shrunk(*bounds),
{
    let default = ArenaBounds::default();
    bounds.min_x > default.min_x
}

/// How cell `pos` is drawn, given the arena, whether it has shrunk, and
/// whether a shrink warning is on.
pub open spec fn spec_cell_shade(pos: GridPos, b: ArenaBounds, shrunk: bool, warning: bool) -> CellShade {
    if outer_border(pos) || !b.spec_contains(pos) {
        CellShade::Wall
    } else if shrunk && b.spec_wall_distance(pos) <= 1 {
        if warning {
            CellShade::DangerFlash
        } else {
            CellShade::Danger
        }
    } else if warning && b.spec_wall_distance(pos) <= 2 {
        CellShade::Warn(even_square(pos))
    } else {
        CellShade::Floor(even_square(pos))
    }
}

/// The values computed on the way are `i32`s: the wall distance of an arena
/// cell (when asked for) and the checker parity sum.
pub open spec fn shade_fits(pos: GridPos, b: ArenaBounds, shrunk: bool, warning: bool) -> bool {
    (!outer_border(pos) && b.spec_contains(pos)) ==> {
        &&& shrunk ==> b.wall_distance_fits(pos)
        &&& !(shrunk && b.spec_wall_distance(pos) <= 1) ==> {
            &&& warning ==> b.wall_distance_fits(pos)
            &&& fits_i32(pos.x + pos.y)
        }
    }
}

/// Whether `(x + y)` is even.
fn even(pos: GridPos) -> (r: bool)
    requires
        fits_i32(pos.x + pos.y),
    ensures
        r == even_square(pos),
{
    (pos.x + pos.y) % 2 == 0
}

/// Cell colour from the arena bounds, with the shrink warning flash.
pub fn cell_shade(pos: GridPos, bounds: &ArenaBounds, shrunk: bool, warning: bool) -> (r: CellShade)
    requires
        shade_fits(pos, *bounds, shrunk, warning),
    ensures
        r == spec_cell_shade(pos, *bounds, shrunk, warning),
{
    let is_outer_border = pos.x == 0 || pos.y == 0 || pos.x == GRID_WIDTH - 1 || pos.y == GRID_HEIGHT - 1;
    if is_outer_border || !bounds.contains(pos) {
        CellShade::Wall
    } else if shrunk && bounds.wall_distance(pos) <= 1 {
        if warning {
            CellShade::DangerFlash
        } else {
            CellShade::Danger
        }
    } else if warning && bounds.wall_distance(pos) <= 2 {
        CellShade::Warn(even(pos))
    } else {
        CellShade::Floor(even(pos))
    }
}

/// How the cells of a fresh grid are drawn: walls on the border, checkered
/// floor inside.
pub open spec fn spec_spawn_shade(x: i32, y: i32) -> CellShade {
    if outer_border(GridPos { x, y }) {
        CellShade::Wall
    } else {
        CellShade::Floor(even_square(GridPos { x, y }))
    }
}

pub fn spawn_shade(x: i32, y: i32) -> (r: CellShade)
    requires
        fits_i32(x + y),
    ensures
        r == spec_spawn_shade(x, y),
{
    let is_border = x == 0 || y == 0 || x == GRID_WIDTH - 1 || y == GRID_HEIGHT - 1;
    if is_border {
        CellShade::Wall
    } else {
        CellShade::Floor(even(GridPos { x, y }))
    }
}

} // verus!
