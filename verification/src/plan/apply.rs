//! What each command does to the droplets.
//!
//! Planning works on a copy of the droplets. A command that cannot be planned
//! leaves nothing behind.

use super::place::{first_fit, spec_first_fit};
use super::route::{lemma_route, route, spec_route};
use super::PlanError;
use crate::command::Command;
use crate::grid::droplet::{Droplet, DropletId};
use crate::grid::location::Location;
use crate::grid::snapshot::{admits, position, spec_admits, spec_contains, spec_index_of};
use crate::grid::topology::Grid;
use crate::process::PuddleError;
use vstd::prelude::*;

verus! {

/// A droplet that was just made: at rest at `location`, alone in the
/// collision group `group`.
pub open spec fn spec_fresh(
    id: DropletId,
    location: Location,
    dimensions: Location,
    group: usize,
) -> Droplet {
    Droplet { id, location, dimensions, destination: None, collision_group: group }
}

/// `Create` and `Input`: a new droplet at `location`, or at the first cell
/// with room for it, in a collision group of its own.
pub open spec fn spec_apply_create(
    s: Seq<Droplet>,
    grid: Grid,
    next_group: usize,
    location: Option<Location>,
    dimensions: Location,
    output: DropletId,
) -> Result<(Seq<Droplet>, usize), PuddleError> {
    let origin = Location { y: 0, x: 0 };
    let pattern = spec_fresh(output, origin, dimensions, next_group);
    if spec_contains(s, output) {
        Err(PuddleError::PlanError(PlanError::DuplicateDroplet(output)))
    } else if next_group == usize::MAX {
        Err(PuddleError::PlanError(PlanError::Exhausted))
    } else {
        let place = match location {
            Some(l) => if spec_admits(s, grid, pattern.spec_at(l)) {
                Some(l)
            } else {
                None
            },
            None => spec_first_fit(s, grid, pattern),
        };
        match place {
            Some(l) => Ok((s.push(pattern.spec_at(l)), (next_group + 1) as usize)),
            None => Err(PuddleError::PlanError(PlanError::Placement)),
        }
    }
}

/// `Output`: the droplet leaves the grid.
pub open spec fn spec_apply_output(s: Seq<Droplet>, next_group: usize, input: DropletId) -> Result<
    (Seq<Droplet>, usize),
    PuddleError,
> {
    if !spec_contains(s, input) {
        Err(PuddleError::NonExistentDropletId(input.id))
    } else {
        Ok((s.remove(spec_index_of(s, input, 0)), next_group))
    }
}

/// `Agitate` and `Heat`: the droplet stays where it is and is `output` from
/// now on.
pub open spec fn spec_apply_rename(
    s: Seq<Droplet>,
    next_group: usize,
    input: DropletId,
    output: DropletId,
) -> Result<(Seq<Droplet>, usize), PuddleError> {
    let i = spec_index_of(s, input, 0);
    if !spec_contains(s, input) {
        Err(PuddleError::NonExistentDropletId(input.id))
    } else if output != input && spec_contains(s, output) {
        Err(PuddleError::PlanError(PlanError::DuplicateDroplet(output)))
    } else {
        Ok((s.update(i, s[i].spec_settled_as(output)), next_group))
    }
}

/// `Move`: the droplet is routed to `destination`, where it is `output`.
pub open spec fn spec_apply_move(
    s: Seq<Droplet>,
    grid: Grid,
    next_group: usize,
    input: DropletId,
    destination: Location,
    output: DropletId,
) -> Result<(Seq<Droplet>, usize), PuddleError> {
    let i = spec_index_of(s, input, 0);
    if !spec_contains(s, input) {
        Err(PuddleError::NonExistentDropletId(input.id))
    } else if output != input && spec_contains(s, output) {
        Err(PuddleError::PlanError(PlanError::DuplicateDroplet(output)))
    } else {
        match spec_route(s.update(i, s[i].spec_heading(destination)), grid) {
            Some(t) => Ok((t.update(i, t[i].spec_settled_as(output)), next_group)),
            None => Err(PuddleError::PlanError(PlanError::Route)),
        }
    }
}

/// The droplet `second` on its way to the right of `first`, in the collision
/// group of `first`, so that the two may touch.
pub open spec fn spec_joining(first: Droplet, second: Droplet) -> Droplet {
    Droplet {
        destination: Some(
            Location {
                y: first.location.y,
                x: (first.location.x + first.dimensions.x) as i32,
            },
        ),
        collision_group: first.collision_group,
        ..second
    }
}

/// The droplet that `first` and `second` make: where `first` lies, as wide
/// as the two together and as high as the higher one.
pub open spec fn spec_merged(first: Droplet, second: Droplet, output: DropletId) -> Droplet {
    Droplet {
        id: output,
        location: first.location,
        dimensions: Location {
            y: if first.dimensions.y >= second.dimensions.y {
                first.dimensions.y
            } else {
                second.dimensions.y
            },
            x: (first.dimensions.x + second.dimensions.x) as i32,
        },
        destination: None,
        collision_group: first.collision_group,
    }
}

/// `Combine`: `second` is routed to the right of `first`, and the two become
/// one droplet in the place of `first`.
pub open spec fn spec_apply_combine(
    s: Seq<Droplet>,
    grid: Grid,
    next_group: usize,
    first: DropletId,
    second: DropletId,
    output: DropletId,
) -> Result<(Seq<Droplet>, usize), PuddleError> {
    let i1 = spec_index_of(s, first, 0);
    let i2 = spec_index_of(s, second, 0);
    if !spec_contains(s, first) {
        Err(PuddleError::NonExistentDropletId(first.id))
    } else if !spec_contains(s, second) {
        Err(PuddleError::NonExistentDropletId(second.id))
    } else if first == second {
        Err(PuddleError::PlanError(PlanError::DuplicateDroplet(second)))
    } else if output != first && output != second && spec_contains(s, output) {
        Err(PuddleError::PlanError(PlanError::DuplicateDroplet(output)))
    } else if s[i1].location.x + s[i1].dimensions.x > i32::MAX || s[i1].location.x
        + s[i1].dimensions.x < i32::MIN || s[i1].dimensions.x + s[i2].dimensions.x > i32::MAX
        || s[i1].dimensions.x + s[i2].dimensions.x < i32::MIN {
        Err(PuddleError::PlanError(PlanError::Placement))
    } else {
        match spec_route(s.update(i2, spec_joining(s[i1], s[i2])), grid) {
            Some(t) => {
                let merged = spec_merged(s[i1], s[i2], output);
                let rest = t.remove(i2);
                let place = if i1 < i2 {
                    i1
                } else {
                    i1 - 1
                };
                if spec_admits(rest, grid, merged) {
                    Ok((rest.update(place, merged), next_group))
                } else {
                    Err(PuddleError::PlanError(PlanError::Placement))
                }
            },
            None => Err(PuddleError::PlanError(PlanError::Route)),
        }
    }
}

/// `Split`: the droplet gives way to two of its extents, one as far to its
/// left as it is wide and one as far to its right, each in a collision group
/// of its own.
pub open spec fn spec_apply_split(
    s: Seq<Droplet>,
    grid: Grid,
    next_group: usize,
    input: DropletId,
    first_output: DropletId,
    second_output: DropletId,
) -> Result<(Seq<Droplet>, usize), PuddleError> {
    let i = spec_index_of(s, input, 0);
    if !spec_contains(s, input) {
        Err(PuddleError::NonExistentDropletId(input.id))
    } else if first_output == second_output {
        Err(PuddleError::PlanError(PlanError::DuplicateDroplet(second_output)))
    } else if first_output != input && spec_contains(s, first_output) {
        Err(PuddleError::PlanError(PlanError::DuplicateDroplet(first_output)))
    } else if second_output != input && spec_contains(s, second_output) {
        Err(PuddleError::PlanError(PlanError::DuplicateDroplet(second_output)))
    } else if next_group >= usize::MAX - 1 {
        Err(PuddleError::PlanError(PlanError::Exhausted))
    } else if s[i].location.x - s[i].dimensions.x < i32::MIN || s[i].location.x
        - s[i].dimensions.x > i32::MAX || s[i].location.x + s[i].dimensions.x > i32::MAX
        || s[i].location.x + s[i].dimensions.x < i32::MIN {
        Err(PuddleError::PlanError(PlanError::Placement))
    } else {
        let left = spec_fresh(
            first_output,
            Location { y: s[i].location.y, x: (s[i].location.x - s[i].dimensions.x) as i32 },
            s[i].dimensions,
            next_group,
        );
        let right = spec_fresh(
            second_output,
            Location { y: s[i].location.y, x: (s[i].location.x + s[i].dimensions.x) as i32 },
            s[i].dimensions,
            (next_group + 1) as usize,
        );
        let rest = s.remove(i);
        if spec_admits(rest, grid, left) && spec_admits(rest.push(left), grid, right) {
            Ok((rest.push(left).push(right), (next_group + 2) as usize))
        } else {
            Err(PuddleError::PlanError(PlanError::Placement))
        }
    }
}

/// What the command `c` makes of the droplets `s`, and of the next free
/// collision group.
pub open spec fn spec_apply(s: Seq<Droplet>, grid: Grid, next_group: usize, c: Command) -> Result<
    (Seq<Droplet>, usize),
    PuddleError,
> {
    match c {
        Command::Create { location, dimensions, output } => spec_apply_create(
            s,
            grid,
            next_group,
            location,
            dimensions,
            output,
        ),
        Command::Input { dimensions, output, .. } => spec_apply_create(
            s,
            grid,
            next_group,
            None,
            dimensions,
            output,
        ),
        Command::Output { input, .. } => spec_apply_output(s, next_group, input),
        Command::Move { input, destination, output } => spec_apply_move(
            s,
            grid,
            next_group,
            input,
            destination,
            output,
        ),
        Command::Combine { first, second, output } => spec_apply_combine(
            s,
            grid,
            next_group,
            first,
            second,
            output,
        ),
        Command::Agitate { input, output } => spec_apply_rename(s, next_group, input, output),
        Command::Split { input, first_output, second_output } => spec_apply_split(
            s,
            grid,
            next_group,
            input,
            first_output,
            second_output,
        ),
        Command::Heat { input, output, .. } => spec_apply_rename(s, next_group, input, output),
        Command::Flush { .. } => Ok((s, next_group)),
    }
}

/// The exec result `r` is what the specification `expected` says.
pub open spec fn spec_result_is(
    r: Result<(Vec<Droplet>, usize), PuddleError>,
    expected: Result<(Seq<Droplet>, usize), PuddleError>,
) -> bool {
    match r {
        Ok((droplets, next_group)) => expected == Ok::<(Seq<Droplet>, usize), PuddleError>(
            (droplets@, next_group),
        ),
        Err(e) => expected == Err::<(Seq<Droplet>, usize), PuddleError>(e),
    }
}

/// Plans `Create` and `Input`.
pub fn apply_create(
    droplets: Vec<Droplet>,
    grid: &Grid,
    next_group: usize,
    location: Option<Location>,
    dimensions: Location,
    output: DropletId,
) -> (r: Result<(Vec<Droplet>, usize), PuddleError>)
    ensures
        spec_result_is(
            r,
            spec_apply_create(droplets@, *grid, next_group, location, dimensions, output),
        ),
{
    if position(&droplets, output).is_some() {
        return Err(PuddleError::PlanError(PlanError::DuplicateDroplet(output)));
    }
    if next_group == usize::MAX {
        return Err(PuddleError::PlanError(PlanError::Exhausted));
    }
    let pattern = Droplet {
        id: output,
        location: Location { y: 0, x: 0 },
        dimensions,
        destination: None,
        collision_group: next_group,
    };
    let place: Option<Location> = match location {
        Some(l) => {
            let candidate = Droplet {
                id: output,
                location: l,
                dimensions,
                destination: None,
                collision_group: next_group,
            };
            if admits(&droplets, grid, &candidate) {
                Some(l)
            } else {
                None
            }
        },
        None => first_fit(&droplets, grid, &pattern),
    };
    match place {
        Some(l) => {
            let mut work: Vec<Droplet> = droplets;
            work.push(
                Droplet {
                    id: output,
                    location: l,
                    dimensions,
                    destination: None,
                    collision_group: next_group,
                },
            );
            Ok((work, next_group + 1))
        },
        None => Err(PuddleError::PlanError(PlanError::Placement)),
    }
}

/// Plans `Output`.
pub fn apply_output(droplets: Vec<Droplet>, next_group: usize, input: DropletId) -> (r: Result<
    (Vec<Droplet>, usize),
    PuddleError,
>)
    ensures
        spec_result_is(r, spec_apply_output(droplets@, next_group, input)),
{
    match position(&droplets, input) {
        Some(i) => {
            let mut work: Vec<Droplet> = droplets;
            work.remove(i);
            Ok((work, next_group))
        },
        None => Err(PuddleError::NonExistentDropletId(input.id)),
    }
}

/// Plans `Agitate` and `Heat`.
pub fn apply_rename(
    droplets: Vec<Droplet>,
    next_group: usize,
    input: DropletId,
    output: DropletId,
) -> (r: Result<(Vec<Droplet>, usize), PuddleError>)
    ensures
        spec_result_is(r, spec_apply_rename(droplets@, next_group, input, output)),
{
    let i: usize = match position(&droplets, input) {
        Some(i) => i,
        None => {
            return Err(PuddleError::NonExistentDropletId(input.id));
        },
    };
    if output != input && position(&droplets, output).is_some() {
        return Err(PuddleError::PlanError(PlanError::DuplicateDroplet(output)));
    }
    let d: Droplet = droplets[i];
    let mut work: Vec<Droplet> = droplets;
    work.set(
        i,
        Droplet {
            id: output,
            location: d.location,
            dimensions: d.dimensions,
            destination: None,
            collision_group: d.collision_group,
        },
    );
    Ok((work, next_group))
}

/// Plans `Move`.
pub fn apply_move(
    droplets: Vec<Droplet>,
    grid: &Grid,
    next_group: usize,
    input: DropletId,
    destination: Location,
    output: DropletId,
) -> (r: Result<(Vec<Droplet>, usize), PuddleError>)
    ensures
        spec_result_is(
            r,
            spec_apply_move(droplets@, *grid, next_group, input, destination, output),
        ),
{
    let i: usize = match position(&droplets, input) {
        Some(i) => i,
        None => {
            return Err(PuddleError::NonExistentDropletId(input.id));
        },
    };
    if output != input && position(&droplets, output).is_some() {
        return Err(PuddleError::PlanError(PlanError::DuplicateDroplet(output)));
    }
    let d: Droplet = droplets[i];
    let mut work: Vec<Droplet> = droplets;
    work.set(
        i,
        Droplet {
            id: d.id,
            location: d.location,
            dimensions: d.dimensions,
            destination: Some(destination),
            collision_group: d.collision_group,
        },
    );
    proof {
        lemma_route(work@, *grid);
    }
    match route(work, grid) {
        Ok(mut arrived) => {
            let there: Droplet = arrived[i];
            arrived.set(
                i,
                Droplet {
                    id: output,
                    location: there.location,
                    dimensions: there.dimensions,
                    destination: None,
                    collision_group: there.collision_group,
                },
            );
            Ok((arrived, next_group))
        },
        Err(e) => Err(PuddleError::PlanError(e)),
    }
}

/// Plans `Combine`.
pub fn apply_combine(
    droplets: Vec<Droplet>,
    grid: &Grid,
    next_group: usize,
    first: DropletId,
    second: DropletId,
    output: DropletId,
) -> (r: Result<(Vec<Droplet>, usize), PuddleError>)
    ensures
        spec_result_is(r, spec_apply_combine(droplets@, *grid, next_group, first, second, output)),
{
    let i1: usize = match position(&droplets, first) {
        Some(i) => i,
        None => {
            return Err(PuddleError::NonExistentDropletId(first.id));
        },
    };
    let i2: usize = match position(&droplets, second) {
        Some(i) => i,
        None => {
            return Err(PuddleError::NonExistentDropletId(second.id));
        },
    };
    if first == second {
        return Err(PuddleError::PlanError(PlanError::DuplicateDroplet(second)));
    }
    if output != first && output != second && position(&droplets, output).is_some() {
        return Err(PuddleError::PlanError(PlanError::DuplicateDroplet(output)));
    }
    let a: Droplet = droplets[i1];
    let b: Droplet = droplets[i2];
    let beside: i64 = a.location.x as i64 + a.dimensions.x as i64;
    let width: i64 = a.dimensions.x as i64 + b.dimensions.x as i64;
    if beside > 0x7fff_ffff || beside < -0x8000_0000 || width > 0x7fff_ffff || width
        < -0x8000_0000 {
        return Err(PuddleError::PlanError(PlanError::Placement));
    }
    let mut work: Vec<Droplet> = droplets;
    work.set(
        i2,
        Droplet {
            id: b.id,
            location: b.location,
            dimensions: b.dimensions,
            destination: Some(Location { y: a.location.y, x: beside as i32 }),
            collision_group: a.collision_group,
        },
    );
    proof {
        lemma_route(work@, *grid);
    }
    match route(work, grid) {
        Ok(mut arrived) => {
            let merged = Droplet {
                id: output,
                location: a.location,
                dimensions: Location {
                    y: if a.dimensions.y >= b.dimensions.y {
                        a.dimensions.y
                    } else {
                        b.dimensions.y
                    },
                    x: width as i32,
                },
                destination: None,
                collision_group: a.collision_group,
            };
            arrived.remove(i2);
            let place: usize = if i1 < i2 {
                i1
            } else {
                i1 - 1
            };
            if admits(&arrived, grid, &merged) {
                arrived.set(place, merged);
                Ok((arrived, next_group))
            } else {
                Err(PuddleError::PlanError(PlanError::Placement))
            }
        },
        Err(e) => Err(PuddleError::PlanError(e)),
    }
}

/// Plans `Split`.
pub fn apply_split(
    droplets: Vec<Droplet>,
    grid: &Grid,
    next_group: usize,
    input: DropletId,
    first_output: DropletId,
    second_output: DropletId,
) -> (r: Result<(Vec<Droplet>, usize), PuddleError>)
    ensures
        spec_result_is(
            r,
            spec_apply_split(droplets@, *grid, next_group, input, first_output, second_output),
        ),
{
    let i: usize = match position(&droplets, input) {
        Some(i) => i,
        None => {
            return Err(PuddleError::NonExistentDropletId(input.id));
        },
    };
    if first_output == second_output {
        return Err(PuddleError::PlanError(PlanError::DuplicateDroplet(second_output)));
    }
    if first_output != input && position(&droplets, first_output).is_some() {
        return Err(PuddleError::PlanError(PlanError::DuplicateDroplet(first_output)));
    }
    if second_output != input && position(&droplets, second_output).is_some() {
        return Err(PuddleError::PlanError(PlanError::DuplicateDroplet(second_output)));
    }
    if next_group >= usize::MAX - 1 {
        return Err(PuddleError::PlanError(PlanError::Exhausted));
    }
    let d: Droplet = droplets[i];
    let left_x: i64 = d.location.x as i64 - d.dimensions.x as i64;
    let right_x: i64 = d.location.x as i64 + d.dimensions.x as i64;
    if left_x < -0x8000_0000 || left_x > 0x7fff_ffff || right_x > 0x7fff_ffff || right_x
        < -0x8000_0000 {
        return Err(PuddleError::PlanError(PlanError::Placement));
    }
    let left = Droplet {
        id: first_output,
        location: Location { y: d.location.y, x: left_x as i32 },
        dimensions: d.dimensions,
        destination: None,
        collision_group: next_group,
    };
    let right = Droplet {
        id: second_output,
        location: Location { y: d.location.y, x: right_x as i32 },
        dimensions: d.dimensions,
        destination: None,
        collision_group: next_group + 1,
    };
    let mut work: Vec<Droplet> = droplets;
    work.remove(i);
    if !admits(&work, grid, &left) {
        return Err(PuddleError::PlanError(PlanError::Placement));
    }
    work.push(left);
    if !admits(&work, grid, &right) {
        return Err(PuddleError::PlanError(PlanError::Placement));
    }
    work.push(right);
    Ok((work, next_group + 2))
}

/// Plans the command `c` on the droplets.
pub fn apply(droplets: Vec<Droplet>, grid: &Grid, next_group: usize, c: &Command) -> (r: Result<
    (Vec<Droplet>, usize),
    PuddleError,
>)
    ensures
        spec_result_is(r, spec_apply(droplets@, *grid, next_group, *c)),
{
    match c {
        Command::Create { location, dimensions, output } => apply_create(
            droplets,
            grid,
            next_group,
            *location,
            *dimensions,
            *output,
        ),
        Command::Input { dimensions, output, .. } => apply_create(
            droplets,
            grid,
            next_group,
            None,
            *dimensions,
            *output,
        ),
        Command::Output { input, .. } => apply_output(droplets, next_group, *input),
        Command::Move { input, destination, output } => apply_move(
            droplets,
            grid,
            next_group,
            *input,
            *destination,
            *output,
        ),
        Command::Combine { first, second, output } => apply_combine(
            droplets,
            grid,
            next_group,
            *first,
            *second,
            *output,
        ),
        Command::Agitate { input, output } => apply_rename(droplets, next_group, *input, *output),
        Command::Split { input, first_output, second_output } => apply_split(
            droplets,
            grid,
            next_group,
            *input,
            *first_output,
            *second_output,
        ),
        Command::Heat { input, output, .. } => apply_rename(droplets, next_group, *input, *output),
        Command::Flush { .. } => Ok((droplets, next_group)),
    }
}

} // verus!
