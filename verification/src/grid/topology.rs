//! The electrodes of a device.

use super::location::{Location, Rectangle};
use vstd::prelude::*;

verus! {

/// The electrodes of a device, row by row: `true` where a cell has one. A
/// droplet can only lie on cells that have one.
#[derive(Clone, Debug)]
pub struct Grid {
    pub rows: Vec<Vec<bool>>,
}

impl Grid {
    /// Row `y` has an electrode in column `x`.
    pub open spec fn spec_has_cell_at(self, y: int, x: int) -> bool {
        &&& 0 <= y < self.rows@.len()
        &&& 0 <= x < self.rows@[y]@.len()
        &&& self.rows@[y]@[x]
    }

    /// The cell `l` has an electrode.
    pub open spec fn spec_has_cell(self, l: Location) -> bool {
        self.spec_has_cell_at(l.y as int, l.x as int)
    }

    /// The footprint `r` covers at least one cell, and only cells that have
    /// an electrode.
    pub open spec fn spec_fits(self, r: Rectangle) -> bool {
        &&& r.positive()
        &&& forall|y: int, x: int|
            r.spec_top_edge() <= y < r.spec_bottom_edge() && r.spec_left_edge() <= x
                < r.spec_right_edge() ==> #[trigger] self.spec_has_cell_at(y, x)
    }

    /// A grid with the given rows.
    pub fn new(rows: Vec<Vec<bool>>) -> (g: Grid)
        ensures
            g.rows == rows,
    {
        Grid { rows }
    }

    /// A grid of `height` rows and `width` columns with an electrode in
    /// every cell.
    pub fn rectangle(height: usize, width: usize) -> (g: Grid)
        ensures
            forall|y: int, x: int|
                #[trigger] g.spec_has_cell_at(y, x) <==> (0 <= y < height && 0 <= x < width),
    {
        let mut rows: Vec<Vec<bool>> = Vec::new();
        let mut y: usize = 0;
        while y < height
            invariant
                y <= height,
                rows@.len() == y,
                forall|i: int| 0 <= i < y ==> (#[trigger] rows@[i])@.len() == width,
                forall|i: int, j: int| 0 <= i < y && 0 <= j < width ==> (#[trigger] rows@[i]@[j]),
            decreases height - y,
        {
            let mut row: Vec<bool> = Vec::new();
            let mut x: usize = 0;
            while x < width
                invariant
                    x <= width,
                    row@.len() == x,
                    forall|j: int| 0 <= j < x ==> #[trigger] row@[j],
                decreases width - x,
            {
                row.push(true);
                x = x + 1;
            }
            rows.push(row);
            y = y + 1;
        }
        Grid { rows }
    }

    /// Whether row `y` has an electrode in column `x`.
    pub fn has_cell_at(&self, y: i64, x: i64) -> (present: bool)
        ensures
            present == self.spec_has_cell_at(y as int, x as int),
    {
        if y < 0 || x < 0 {
            return false;
        }
        if y as u64 >= self.rows.len() as u64 {
            return false;
        }
        let row: &Vec<bool> = &self.rows[y as usize];
        if x as u64 >= row.len() as u64 {
            return false;
        }
        row[x as usize]
    }

    /// Whether the cell `l` has an electrode.
    pub fn contains(&self, l: Location) -> (present: bool)
        ensures
            present == self.spec_has_cell(l),
    {
        self.has_cell_at(l.y as i64, l.x as i64)
    }

    /// Whether the footprint `r` lies on the grid.
    pub fn fits(&self, r: &Rectangle) -> (ok: bool)
        ensures
            ok == self.spec_fits(*r),
    {
        if r.dimensions.y <= 0 || r.dimensions.x <= 0 {
            return false;
        }
        let top: i64 = r.location.y as i64;
        let bottom: i64 = top + r.dimensions.y as i64;
        let left: i64 = r.location.x as i64;
        let right: i64 = left + r.dimensions.x as i64;
        let mut y: i64 = top;
        while y < bottom
            invariant
                top <= y <= bottom,
                left < right,
                top == r.spec_top_edge(),
                bottom == r.spec_bottom_edge(),
                left == r.spec_left_edge(),
                right == r.spec_right_edge(),
                r.positive(),
                forall|cy: int, cx: int|
                    top <= cy < y && left <= cx < right ==> #[trigger] self.spec_has_cell_at(
                        cy,
                        cx,
                    ),
            decreases bottom - y,
        {
            let mut x: i64 = left;
            while x < right
                invariant
                    top <= y < bottom,
                    left <= x <= right,
                    top == r.spec_top_edge(),
                    bottom == r.spec_bottom_edge(),
                    left == r.spec_left_edge(),
                    right == r.spec_right_edge(),
                    r.positive(),
                    forall|cy: int, cx: int|
                        (top <= cy < y && left <= cx < right) || (cy == y && left <= cx < x)
                            ==> #[trigger] self.spec_has_cell_at(cy, cx),
                decreases right - x,
            {
                if !self.has_cell_at(y, x) {
                    return false;
                }
                x = x + 1;
            }
            y = y + 1;
        }
        true
    }
}

} // verus!
