//! Placing: where a new droplet finds room.

use crate::grid::droplet::Droplet;
use crate::grid::location::Location;
use crate::grid::snapshot::{admits, spec_admits};
use crate::grid::topology::Grid;
use vstd::prelude::*;

verus! {

/// `a` comes before `b` when the cells are read row by row.
pub open spec fn spec_precedes(a: Location, b: Location) -> bool {
    a.y < b.y || (a.y == b.y && a.x < b.x)
}

/// The droplets admit `d` at `l`, and at no cell before `l`.
pub open spec fn spec_is_first_fit(s: Seq<Droplet>, grid: Grid, d: Droplet, l: Location) -> bool {
    &&& spec_admits(s, grid, d.spec_at(l))
    &&& forall|m: Location|
        spec_precedes(m, l) ==> !spec_admits(s, grid, #[trigger] d.spec_at(m))
}

/// The first cell, row by row, at which the droplets admit `d`, if there is
/// one.
pub open spec fn spec_first_fit(s: Seq<Droplet>, grid: Grid, d: Droplet) -> Option<Location> {
    if exists|l: Location| spec_is_first_fit(s, grid, d, l) {
        Some(choose|l: Location| spec_is_first_fit(s, grid, d, l))
    } else {
        None
    }
}

/// At most one cell is the first at which the droplets admit `d`.
pub proof fn lemma_first_fit_unique(
    s: Seq<Droplet>,
    grid: Grid,
    d: Droplet,
    a: Location,
    b: Location,
)
    requires
        spec_is_first_fit(s, grid, d, a),
        spec_is_first_fit(s, grid, d, b),
    ensures
        a == b,
{
    if spec_precedes(a, b) {
        assert(!spec_admits(s, grid, d.spec_at(a)));
    }
    if spec_precedes(b, a) {
        assert(!spec_admits(s, grid, d.spec_at(b)));
    }
}

/// A droplet that the droplets admit has its top left cell on the grid.
pub proof fn lemma_admitted_corner(s: Seq<Droplet>, grid: Grid, d: Droplet)
    requires
        spec_admits(s, grid, d),
    ensures
        grid.spec_has_cell_at(d.location.y as int, d.location.x as int),
{
    let r = d.spec_rectangle();
    assert(r.spec_top_edge() <= d.location.y < r.spec_bottom_edge());
    assert(r.spec_left_edge() <= d.location.x < r.spec_right_edge());
}

/// The first cell, row by row, at which the droplets admit `d`.
pub fn first_fit(droplets: &Vec<Droplet>, grid: &Grid, d: &Droplet) -> (found: Option<Location>)
    ensures
        found == spec_first_fit(droplets@, *grid, *d),
{
    let rows: usize = grid.rows.len();
    let mut y: usize = 0;
    proof {
        assert forall|m: Location|
            spec_admits(droplets@, *grid, #[trigger] d.spec_at(m)) implies m.y >= 0 by {
            lemma_admitted_corner(droplets@, *grid, d.spec_at(m));
        }
    }
    while y < rows && y as u64 <= 0x7fff_ffff
        invariant
            y <= rows == grid.rows@.len(),
            forall|m: Location|
                spec_admits(droplets@, *grid, #[trigger] d.spec_at(m)) ==> m.y >= y,
        decreases rows - y,
    {
        let width: usize = grid.rows[y].len();
        let mut x: usize = 0;
        proof {
            assert forall|m: Location|
                spec_admits(droplets@, *grid, #[trigger] d.spec_at(m)) implies m.y > y || (m.y == y
                && m.x >= 0) by {
                lemma_admitted_corner(droplets@, *grid, d.spec_at(m));
            }
        }
        while x < width && x as u64 <= 0x7fff_ffff
            invariant
                y < rows == grid.rows@.len(),
                y <= 0x7fff_ffff,
                x <= width == grid.rows@[y as int]@.len(),
                forall|m: Location|
                    spec_admits(droplets@, *grid, #[trigger] d.spec_at(m)) ==> m.y > y || (m.y == y
                        && m.x >= x),
            decreases width - x,
        {
            let here = Location { y: y as i32, x: x as i32 };
            let candidate = Droplet {
                id: d.id,
                location: here,
                dimensions: d.dimensions,
                destination: d.destination,
                collision_group: d.collision_group,
            };
            if admits(droplets, grid, &candidate) {
                proof {
                    assert(candidate == d.spec_at(here));
                    assert(spec_is_first_fit(droplets@, *grid, *d, here));
                    let chosen = choose|l: Location| spec_is_first_fit(droplets@, *grid, *d, l);
                    lemma_first_fit_unique(droplets@, *grid, *d, here, chosen);
                }
                return Some(here);
            }
            proof {
                assert forall|m: Location|
                    spec_admits(droplets@, *grid, #[trigger] d.spec_at(m)) implies m.y > y || (m.y
                    == y && m.x >= x + 1) by {
                    if m.y == y && m.x == x {
                        assert(m == here);
                        assert(candidate == d.spec_at(m));
                    }
                }
            }
            x = x + 1;
        }
        proof {
            assert forall|m: Location|
                spec_admits(droplets@, *grid, #[trigger] d.spec_at(m)) implies m.y >= y + 1 by {
                lemma_admitted_corner(droplets@, *grid, d.spec_at(m));
            }
        }
        y = y + 1;
    }
    proof {
        assert forall|l: Location| !spec_is_first_fit(droplets@, *grid, *d, l) by {
            if spec_admits(droplets@, *grid, d.spec_at(l)) {
                lemma_admitted_corner(droplets@, *grid, d.spec_at(l));
            }
        }
    }
    None
}

} // verus!
