//! Which electrodes are switched on: those under a droplet.

use super::droplet::Droplet;
use super::snapshot::Snapshot;
use super::topology::Grid;
use vstd::prelude::*;

verus! {

/// Some droplet of `s` covers row `y`, column `x`.
pub open spec fn spec_wet_at(s: Seq<Droplet>, y: int, x: int) -> bool {
    exists|k: int| 0 <= k < s.len() && (#[trigger] s[k]).spec_rectangle().spec_covers_at(y, x)
}

/// The electrode in row `y`, column `x` is switched on: there is one, and a
/// droplet lies on it.
pub open spec fn spec_on_at(s: Seq<Droplet>, grid: Grid, y: int, x: int) -> bool {
    grid.spec_has_cell_at(y, x) && spec_wet_at(s, y, x)
}

/// Whether some droplet covers row `y`, column `x`.
pub fn wet_at(droplets: &Vec<Droplet>, y: usize, x: usize) -> (wet: bool)
    ensures
        wet == spec_wet_at(droplets@, y as int, x as int),
{
    if y as u64 > 0xffff_ffff || x as u64 > 0xffff_ffff {
        // no footprint reaches that far
        return false;
    }
    let row: i64 = y as i64;
    let column: i64 = x as i64;
    let mut k: usize = 0;
    while k < droplets.len()
        invariant
            k <= droplets@.len(),
            row == y,
            column == x,
            forall|j: int|
                0 <= j < k ==> !(#[trigger] droplets@[j]).spec_rectangle().spec_covers_at(
                    y as int,
                    x as int,
                ),
        decreases droplets@.len() - k,
    {
        let footprint = droplets[k].rectangle();
        if footprint.contains_at(row, column) {
            return true;
        }
        k = k + 1;
    }
    false
}

/// `levels` has a level for each cell of the grid, on exactly where the
/// cell's electrode is switched on.
pub open spec fn spec_is_activation(
    levels: Seq<Vec<bool>>,
    s: Seq<Droplet>,
    grid: Grid,
) -> bool {
    &&& levels.len() == grid.rows@.len()
    &&& forall|y: int|
        0 <= y < levels.len() ==> (#[trigger] levels[y])@.len() == grid.rows@[y]@.len()
    &&& forall|y: int, x: int|
        0 <= y < levels.len() && 0 <= x < levels[y]@.len() ==> (#[trigger] levels[y]@[x])
            == spec_on_at(s, grid, y, x)
}

/// The level of every cell of the grid, row by row: on where the cell has
/// an electrode and a droplet lies on it.
pub fn activation(grid: &Grid, droplets: &Vec<Droplet>) -> (levels: Vec<Vec<bool>>)
    ensures
        spec_is_activation(levels@, droplets@, *grid),
{
    let mut levels: Vec<Vec<bool>> = Vec::new();
    let mut y: usize = 0;
    while y < grid.rows.len()
        invariant
            y <= grid.rows@.len(),
            levels@.len() == y,
            forall|r: int| 0 <= r < y ==> (#[trigger] levels@[r])@.len() == grid.rows@[r]@.len(),
            forall|r: int, c: int|
                0 <= r < y && 0 <= c < levels@[r]@.len() ==> (#[trigger] levels@[r]@[c])
                    == spec_on_at(droplets@, *grid, r, c),
        decreases grid.rows@.len() - y,
    {
        let electrodes: &Vec<bool> = &grid.rows[y];
        let mut row: Vec<bool> = Vec::new();
        let mut x: usize = 0;
        while x < electrodes.len()
            invariant
                y < grid.rows@.len(),
                *electrodes == grid.rows@[y as int],
                x <= electrodes@.len(),
                row@.len() == x,
                forall|c: int|
                    0 <= c < x ==> (#[trigger] row@[c]) == spec_on_at(
                        droplets@,
                        *grid,
                        y as int,
                        c,
                    ),
            decreases electrodes@.len() - x,
        {
            let on: bool = electrodes[x] && wet_at(droplets, y, x);
            row.push(on);
            x = x + 1;
        }
        levels.push(row);
        y = y + 1;
    }
    levels
}

impl Snapshot {
    /// The level of every cell of `grid` at this instant.
    pub fn activation(&self, grid: &Grid) -> (levels: Vec<Vec<bool>>)
        ensures
            spec_is_activation(levels@, self.droplets@, *grid),
    {
        activation(grid, &self.droplets)
    }
}

} // verus!
