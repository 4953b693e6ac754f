//! Helpers for trying a device out by hand: one droplet on a grid, and the
//! places it visits when it is led round in a circle.

use crate::grid::droplet::{Droplet, DropletId};
use crate::grid::location::Location;
use crate::grid::snapshot::Snapshot;
use vstd::prelude::*;

verus! {

/// The droplet of `single_droplet`.
pub open spec fn spec_single_droplet(location: Location, dimensions: Location) -> Droplet {
    Droplet {
        id: DropletId { id: 0, process_id: 0 },
        location,
        dimensions,
        destination: None,
        collision_group: 0,
    }
}

/// A snapshot of one droplet at `location` with the extents `dimensions`,
/// and the droplet's name.
pub fn single_droplet(location: Location, dimensions: Location) -> (r: (DropletId, Snapshot))
    ensures
        r.0 == (DropletId { id: 0, process_id: 0 }),
        r.1.droplets@ == seq![spec_single_droplet(location, dimensions)],
        r.1.commands_to_finalize@.len() == 0,
{
    let id = DropletId { id: 0, process_id: 0 };
    let droplet = Droplet { id, location, dimensions, destination: None, collision_group: 0 };
    let mut snapshot = Snapshot::new();
    snapshot.insert(droplet);
    assert(snapshot.droplets@ =~= seq![spec_single_droplet(location, dimensions)]);
    (id, snapshot)
}

/// The number of steps along a side of `length` cells.
pub open spec fn spec_side(length: i32) -> int {
    if length > 0 {
        length as int
    } else {
        0
    }
}

/// The number of places in one lap of the circle `size`.
pub open spec fn spec_lap_len(size: Location) -> int {
    2 * (spec_side(size.x) + spec_side(size.y))
}

/// How far from its start the droplet is at step `k` of a lap, down and to
/// the right. A lap goes down one side, along the far side, back up and back
/// along the near side; the sides going down and up are `size.x` steps
/// long, the two others `size.y`.
pub open spec fn spec_lap_offset(size: Location, k: int) -> (int, int) {
    let down = spec_side(size.x);
    let along = spec_side(size.y);
    if k < down {
        (k, 0)
    } else if k < down + along {
        (size.x - 1, k - down)
    } else if k < down + along + down {
        (size.x - 1 - (k - down - along), size.y - 1)
    } else {
        (0, size.y - 1 - (k - down - along - down))
    }
}

/// The place at step `k` of a lap that starts at `location`.
pub open spec fn spec_lap_place(location: Location, size: Location, k: int) -> (int, int) {
    (location.y + spec_lap_offset(size, k).0, location.x + spec_lap_offset(size, k).1)
}

/// The places that a droplet visits in one lap of the circle `size` from
/// `location`, in their order.
pub fn circle_lap(location: Location, size: Location) -> (lap: Vec<Location>)
    requires
        spec_lap_fits(location, size),
    ensures
        lap@.len() == spec_lap_len(size),
        forall|k: int|
            0 <= k < lap@.len() ==> (#[trigger] lap@[k]).y == spec_lap_place(location, size, k).0
                && lap@[k].x == spec_lap_place(location, size, k).1,
{
    let mut lap: Vec<Location> = Vec::new();
    let down: i32 = if size.x > 0 { size.x } else { 0 };
    let along: i32 = if size.y > 0 { size.y } else { 0 };
    let mut step: i32 = 0;
    while step < down
        invariant
            0 <= step <= down,
            down == spec_side(size.x),
            along == spec_side(size.y),
            lap@.len() == step,
            forall|k: int|
                0 <= k < spec_lap_len(size) ==> i32::MIN <= (#[trigger] spec_lap_place(
                    location,
                    size,
                    k,
                )).0 <= i32::MAX && i32::MIN <= spec_lap_place(location, size, k).1 <= i32::MAX,
            forall|k: int|
                0 <= k < lap@.len() ==> (#[trigger] lap@[k]).y == spec_lap_place(
                    location,
                    size,
                    k,
                ).0 && lap@[k].x == spec_lap_place(location, size, k).1,
        decreases down - step,
    {
        let ghost place = spec_lap_place(location, size, step as int);
        assert(place.0 == location.y + step && place.1 == location.x);
        lap.push(Location { y: location.y + step, x: location.x });
        step = step + 1;
    }
    step = 0;
    while step < along
        invariant
            0 <= step <= along,
            down == spec_side(size.x),
            along == spec_side(size.y),
            lap@.len() == down + step,
            forall|k: int|
                0 <= k < spec_lap_len(size) ==> i32::MIN <= (#[trigger] spec_lap_place(
                    location,
                    size,
                    k,
                )).0 <= i32::MAX && i32::MIN <= spec_lap_place(location, size, k).1 <= i32::MAX,
            forall|k: int|
                0 <= k < lap@.len() ==> (#[trigger] lap@[k]).y == spec_lap_place(
                    location,
                    size,
                    k,
                ).0 && lap@[k].x == spec_lap_place(location, size, k).1,
        decreases along - step,
    {
        let ghost place = spec_lap_place(location, size, down + step);
        assert(place.0 == location.y + size.x - 1 && place.1 == location.x + step);
        lap.push(
            Location {
                y: (location.y as i64 + size.x as i64 - 1) as i32,
                x: location.x + step,
            },
        );
        step = step + 1;
    }
    step = 0;
    while step < down
        invariant
            0 <= step <= down,
            down == spec_side(size.x),
            along == spec_side(size.y),
            lap@.len() == down + along + step,
            forall|k: int|
                0 <= k < spec_lap_len(size) ==> i32::MIN <= (#[trigger] spec_lap_place(
                    location,
                    size,
                    k,
                )).0 <= i32::MAX && i32::MIN <= spec_lap_place(location, size, k).1 <= i32::MAX,
            forall|k: int|
                0 <= k < lap@.len() ==> (#[trigger] lap@[k]).y == spec_lap_place(
                    location,
                    size,
                    k,
                ).0 && lap@[k].x == spec_lap_place(location, size, k).1,
        decreases down - step,
    {
        let ghost place = spec_lap_place(location, size, down + along + step);
        assert(place.0 == location.y + size.x - 1 - step && place.1 == location.x + size.y - 1);
        lap.push(
            Location {
                y: (location.y as i64 + size.x as i64 - 1 - step as i64) as i32,
                x: (location.x as i64 + size.y as i64 - 1) as i32,
            },
        );
        step = step + 1;
    }
    step = 0;
    while step < along
        invariant
            0 <= step <= along,
            down == spec_side(size.x),
            along == spec_side(size.y),
            lap@.len() == down + along + down + step,
            forall|k: int|
                0 <= k < spec_lap_len(size) ==> i32::MIN <= (#[trigger] spec_lap_place(
                    location,
                    size,
                    k,
                )).0 <= i32::MAX && i32::MIN <= spec_lap_place(location, size, k).1 <= i32::MAX,
            forall|k: int|
                0 <= k < lap@.len() ==> (#[trigger] lap@[k]).y == spec_lap_place(
                    location,
                    size,
                    k,
                ).0 && lap@[k].x == spec_lap_place(location, size, k).1,
        decreases along - step,
    {
        let ghost place = spec_lap_place(location, size, down + along + down + step);
        assert(place.0 == location.y && place.1 == location.x + size.y - 1 - step);
        lap.push(
            Location {
                y: location.y,
                x: (location.x as i64 + size.y as i64 - 1 - step as i64) as i32,
            },
        );
        step = step + 1;
    }
    lap
}

/// Every place of the lap of `size` from `location` has coordinates that
/// fit, and the lap is not too long to be listed.
pub open spec fn spec_lap_fits(location: Location, size: Location) -> bool {
    &&& spec_lap_len(size) <= usize::MAX
    &&& forall|k: int|
        0 <= k < spec_lap_len(size) ==> i32::MIN <= (#[trigger] spec_lap_place(
            location,
            size,
            k,
        )).0 <= i32::MAX && i32::MIN <= spec_lap_place(location, size, k).1 <= i32::MAX
}

/// Whether `circle_lap` can be asked for the lap of `size` from `location`.
pub fn lap_fits(location: Location, size: Location) -> (fits: bool)
    ensures
        fits == spec_lap_fits(location, size),
{
    let down: i64 = if size.x > 0 { size.x as i64 } else { 0 };
    let along: i64 = if size.y > 0 { size.y as i64 } else { 0 };
    let len: i64 = 2 * (down + along);
    if len as u64 > usize::MAX as u64 {
        return false;
    }
    let y: i64 = location.y as i64;
    let x: i64 = location.x as i64;
    let far_y: i64 = y + size.x as i64 - 1;
    let far_x: i64 = x + size.y as i64 - 1;
    let low: i64 = -0x8000_0000;
    let high: i64 = 0x7fff_ffff;
    if down > 0 {
        // down the near side and up the far side
        proof {
            let first = spec_lap_place(location, size, down - 1);
            let third = spec_lap_place(location, size, down + along);
            assert(first.0 == far_y && first.1 == x);
            assert(third.0 == far_y && third.1 == far_x);
        }
        if far_y > high || far_x < low || far_x > high {
            return false;
        }
    }
    if along > 0 {
        // along the far side and back along the near side
        proof {
            let second = spec_lap_place(location, size, down + along - 1);
            let fourth = spec_lap_place(location, size, down + along + down);
            assert(second.0 == far_y && second.1 == far_x);
            assert(fourth.0 == y && fourth.1 == far_x);
        }
        if far_y < low || far_y > high || far_x > high {
            return false;
        }
    }
    proof {
        assert forall|k: int| 0 <= k < spec_lap_len(size) implies i32::MIN <= (
        #[trigger] spec_lap_place(location, size, k)).0 <= i32::MAX && i32::MIN <= spec_lap_place(
            location,
            size,
            k,
        ).1 <= i32::MAX by {
            let place = spec_lap_place(location, size, k);
            if k < down {
                assert(place.0 == y + k && place.1 == x);
            } else if k < down + along {
                assert(place.0 == far_y && place.1 == x + (k - down));
            } else if k < down + along + down {
                assert(place.0 == far_y - (k - down - along) && place.1 == far_x);
            } else {
                assert(place.0 == y && place.1 == far_x - (k - down - along - down));
            }
        }
    }
    true
}

} // verus!
