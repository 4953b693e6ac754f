//! Planning keeps the droplets as they must be between two commands.

use super::apply::{
    spec_apply, spec_apply_combine, spec_apply_create, spec_apply_move, spec_apply_output,
    spec_apply_rename, spec_apply_split, spec_fresh, spec_joining, spec_merged,
};
use super::place::{spec_first_fit, spec_is_first_fit};
use super::route::{lemma_route, spec_route};
use super::PlanError;
use crate::command::Command;
use crate::grid::droplet::{lemma_may_neighbour_symmetric, Droplet, DropletId};
use crate::grid::location::Location;
use crate::grid::snapshot::{
    lemma_contains, lemma_index_of, lemma_push_keeps_valid, lemma_remove_keeps_valid,
    lemma_update_keeps_valid, spec_admits, spec_at_rest, spec_contains, spec_distinct_groups,
    spec_groups_below, spec_index_of, spec_valid,
};
use crate::grid::topology::Grid;
use crate::process::PuddleError;
use vstd::prelude::*;

verus! {

/// Among valid droplets, a droplet with the footprint and the collision group
/// of one of them is admitted.
pub proof fn lemma_stays_admitted(s: Seq<Droplet>, grid: Grid, i: int, d: Droplet)
    requires
        spec_valid(s, grid),
        0 <= i < s.len(),
        d.spec_rectangle() == s[i].spec_rectangle(),
        d.collision_group == s[i].collision_group,
    ensures
        spec_admits(s, grid, d),
{
    assert(grid.spec_fits(s[i].spec_rectangle()));
    assert forall|j: int| #![trigger s[j]] 0 <= j < s.len() implies d.spec_may_neighbour(s[j]) by {
        if j < i {
            assert(s[j].spec_may_neighbour(s[i]));
            lemma_may_neighbour_symmetric(s[j], s[i]);
        } else if i < j {
            assert(s[i].spec_may_neighbour(s[j]));
        }
    }
}

/// Among droplets with different names, a name that is the name of droplet
/// `i`, or of none, is not the name of any other.
pub proof fn lemma_other_names_differ(s: Seq<Droplet>, i: int, id: DropletId)
    requires
        forall|a: int, b: int| #![trigger s[a], s[b]] 0 <= a < b < s.len() ==> s[a].id != s[b].id,
        0 <= i < s.len(),
        id == s[i].id || !spec_contains(s, id),
    ensures
        forall|k: int| #![trigger s[k]] 0 <= k < s.len() && k != i ==> s[k].id != id,
{
    lemma_contains(s, id);
    assert forall|k: int| #![trigger s[k]] 0 <= k < s.len() && k != i implies s[k].id != id by {
        if id == s[i].id {
            if k < i {
                assert(s[k].id != s[i].id);
            } else {
                assert(s[i].id != s[k].id);
            }
        }
    }
}

/// Taking a droplet away keeps the rest at rest.
pub proof fn lemma_remove_keeps_rest(s: Seq<Droplet>, grid: Grid, next_group: int, i: int)
    requires
        spec_at_rest(s, grid, next_group),
        0 <= i < s.len(),
    ensures
        spec_at_rest(s.remove(i), grid, next_group),
        forall|k: int|
            #![trigger s.remove(i)[k]]
            0 <= k < s.len() - 1 ==> s.remove(i)[k] == s[if k < i { k } else { k + 1 }],
{
    let t = s.remove(i);
    lemma_remove_keeps_valid(s, grid, i);
    assert forall|a: int, b: int| #![trigger t[a], t[b]] 0 <= a < b < t.len() implies t[a].collision_group
        != t[b].collision_group by {
        let sa = if a < i { a } else { a + 1 };
        let sb = if b < i { b } else { b + 1 };
        assert(s[sa].collision_group != s[sb].collision_group);
    }
    assert forall|k: int| #![trigger t[k]] 0 <= k < t.len() implies t[k].destination is None
        && t[k].collision_group < next_group by {
        let sk = if k < i { k } else { k + 1 };
        assert(t[k] == s[sk]);
    }
}

/// A new droplet in a collision group of its own, admitted under a new name,
/// leaves the droplets at rest.
pub proof fn lemma_push_keeps_rest(s: Seq<Droplet>, grid: Grid, next_group: int, d: Droplet)
    requires
        spec_at_rest(s, grid, next_group),
        !spec_contains(s, d.id),
        spec_admits(s, grid, d),
        d.destination is None,
        d.collision_group == next_group,
    ensures
        spec_at_rest(s.push(d), grid, next_group + 1),
{
    let t = s.push(d);
    lemma_push_keeps_valid(s, grid, d);
    assert forall|a: int, b: int| #![trigger t[a], t[b]] 0 <= a < b < t.len() implies t[a].collision_group
        != t[b].collision_group by {
        if b < s.len() {
            assert(s[a].collision_group != s[b].collision_group);
        } else {
            assert(t[a] == s[a]);
        }
    }
    assert forall|k: int| #![trigger t[k]] 0 <= k < t.len() implies t[k].destination is None
        && t[k].collision_group < next_group + 1 by {
        if k < s.len() {
            assert(t[k] == s[k]);
        }
    }
}

/// A name is among the droplets and one more exactly where it is among the
/// droplets or is the name of the one more.
pub proof fn lemma_contains_push(s: Seq<Droplet>, d: Droplet, id: DropletId)
    ensures
        spec_contains(s.push(d), id) <==> spec_contains(s, id) || d.id == id,
{
    let t = s.push(d);
    lemma_contains(s, id);
    lemma_contains(t, id);
    if spec_contains(s, id) {
        let k = choose|k: int| 0 <= k < s.len() && (#[trigger] s[k]).id == id;
        assert(t[k].id == id);
    }
    if d.id == id {
        assert(t[s.len() as int].id == id);
    }
    if spec_contains(t, id) {
        let k = choose|k: int| 0 <= k < t.len() && (#[trigger] t[k]).id == id;
        if k < s.len() {
            assert(s[k].id == id);
        }
    }
}

/// `Create` and `Input` leave the droplets at rest.
pub proof fn lemma_create_keeps_rest(
    s: Seq<Droplet>,
    grid: Grid,
    next_group: usize,
    location: Option<Location>,
    dimensions: Location,
    output: DropletId,
)
    requires
        spec_at_rest(s, grid, next_group as int),
    ensures
        match spec_apply_create(s, grid, next_group, location, dimensions, output) {
            Ok((t, n)) => spec_at_rest(t, grid, n as int) && n >= next_group,
            Err(_) => true,
        },
{
    match spec_apply_create(s, grid, next_group, location, dimensions, output) {
        Ok((t, n)) => {
            let pattern = spec_fresh(output, Location { y: 0, x: 0 }, dimensions, next_group);
            let l = t[s.len() as int].location;
            assert(t == s.push(pattern.spec_at(l)));
            if location is None {
                assert(spec_first_fit(s, grid, pattern) == Some(l));
                assert(spec_is_first_fit(s, grid, pattern, l));
            }
            lemma_push_keeps_rest(s, grid, next_group as int, pattern.spec_at(l));
        },
        Err(_) => {},
    }
}

/// `Output` leaves the droplets at rest.
pub proof fn lemma_output_keeps_rest(
    s: Seq<Droplet>,
    grid: Grid,
    next_group: usize,
    input: DropletId,
)
    requires
        spec_at_rest(s, grid, next_group as int),
    ensures
        match spec_apply_output(s, next_group, input) {
            Ok((t, n)) => spec_at_rest(t, grid, n as int) && n >= next_group,
            Err(_) => true,
        },
{
    if spec_contains(s, input) {
        lemma_index_of(s, input, 0);
        lemma_remove_keeps_rest(s, grid, next_group as int, spec_index_of(s, input, 0));
    }
}

/// Giving droplet `i` another name that no other droplet bears, and nowhere
/// to go, keeps valid droplets with distinct groups at rest where the others
/// are.
pub proof fn lemma_settle_keeps_rest(
    s: Seq<Droplet>,
    grid: Grid,
    next_group: int,
    i: int,
    output: DropletId,
)
    requires
        spec_valid(s, grid),
        spec_distinct_groups(s),
        spec_groups_below(s, next_group),
        0 <= i < s.len(),
        forall|k: int| #![trigger s[k]] 0 <= k < s.len() && k != i ==> s[k].destination is None,
        output == s[i].id || !spec_contains(s, output),
    ensures
        spec_at_rest(s.update(i, s[i].spec_settled_as(output)), grid, next_group),
{
    let d = s[i].spec_settled_as(output);
    let t = s.update(i, d);
    lemma_stays_admitted(s, grid, i, d);
    lemma_other_names_differ(s, i, output);
    lemma_update_keeps_valid(s, grid, i, d);
    assert forall|a: int, b: int| #![trigger t[a], t[b]] 0 <= a < b < t.len() implies t[a].collision_group
        != t[b].collision_group by {
        assert(s[a].collision_group != s[b].collision_group);
    }
    assert forall|k: int| #![trigger t[k]] 0 <= k < t.len() implies t[k].destination is None
        && t[k].collision_group < next_group by {
        assert(s[k].collision_group < next_group);
        if k != i {
            assert(t[k] == s[k]);
        }
    }
}

/// `Agitate` and `Heat` leave the droplets at rest.
pub proof fn lemma_rename_keeps_rest(
    s: Seq<Droplet>,
    grid: Grid,
    next_group: usize,
    input: DropletId,
    output: DropletId,
)
    requires
        spec_at_rest(s, grid, next_group as int),
    ensures
        match spec_apply_rename(s, next_group, input, output) {
            Ok((t, n)) => spec_at_rest(t, grid, n as int) && n >= next_group,
            Err(_) => true,
        },
{
    if spec_apply_rename(s, next_group, input, output) is Ok {
        lemma_index_of(s, input, 0);
        lemma_settle_keeps_rest(s, grid, next_group as int, spec_index_of(s, input, 0), output);
    }
}

/// Routing keeps names, footprints' extents and collision groups, so what
/// holds of them before holds after.
pub proof fn lemma_route_keeps_names(s: Seq<Droplet>, grid: Grid, next_group: int)
    requires
        spec_valid(s, grid),
        spec_distinct_groups(s),
        spec_groups_below(s, next_group),
    ensures
        match spec_route(s, grid) {
            Some(t) => {
                &&& spec_valid(t, grid)
                &&& spec_distinct_groups(t)
                &&& spec_groups_below(t, next_group)
                &&& t.len() == s.len()
                &&& forall|k: int|
                    #![trigger t[k]]
                    0 <= k < s.len() ==> t[k] == s[k].spec_at(t[k].location) && (
                    s[k].destination is None ==> t[k] == s[k]) && !t[k].spec_unresolved()
                &&& forall|id: DropletId| #[trigger]
                    spec_contains(t, id) <==> spec_contains(s, id)
            },
            None => true,
        },
{
    lemma_route(s, grid);
    match spec_route(s, grid) {
        Some(t) => {
            assert forall|a: int, b: int| #![trigger t[a], t[b]] 0 <= a < b < t.len() implies t[a].collision_group
                != t[b].collision_group by {
                assert(s[a].collision_group != s[b].collision_group);
            }
            assert forall|k: int| #![trigger t[k]] 0 <= k < t.len() implies t[k].collision_group
                < next_group by {
                assert(s[k].collision_group < next_group);
            }
            assert forall|id: DropletId| #[trigger]
                spec_contains(t, id) <==> spec_contains(s, id) by {
                lemma_contains(s, id);
                lemma_contains(t, id);
                if spec_contains(t, id) {
                    let k = choose|k: int| 0 <= k < t.len() && (#[trigger] t[k]).id == id;
                    assert(s[k].id == id);
                }
                if spec_contains(s, id) {
                    let k = choose|k: int| 0 <= k < s.len() && (#[trigger] s[k]).id == id;
                    assert(t[k].id == id);
                }
            }
        },
        None => {},
    }
}

/// `Move` leaves the droplets at rest.
pub proof fn lemma_move_keeps_rest(
    s: Seq<Droplet>,
    grid: Grid,
    next_group: usize,
    input: DropletId,
    destination: Location,
    output: DropletId,
)
    requires
        spec_at_rest(s, grid, next_group as int),
    ensures
        match spec_apply_move(s, grid, next_group, input, destination, output) {
            Ok((t, n)) => spec_at_rest(t, grid, n as int) && n >= next_group,
            Err(_) => true,
        },
{
    if spec_apply_move(s, grid, next_group, input, destination, output) is Ok {
        lemma_index_of(s, input, 0);
        let i = spec_index_of(s, input, 0);
        let heading = s[i].spec_heading(destination);
        let s1 = s.update(i, heading);
        lemma_stays_admitted(s, grid, i, heading);
        lemma_other_names_differ(s, i, input);
        lemma_update_keeps_valid(s, grid, i, heading);
        assert forall|a: int, b: int| #![trigger s1[a], s1[b]] 0 <= a < b < s1.len() implies s1[a].collision_group
            != s1[b].collision_group by {
            assert(s[a].collision_group != s[b].collision_group);
        }
        assert forall|k: int| #![trigger s1[k]] 0 <= k < s1.len() implies s1[k].collision_group
            < next_group by {
            assert(s[k].collision_group < next_group);
        }
        lemma_route_keeps_names(s1, grid, next_group as int);
        let t = spec_route(s1, grid).unwrap();
        assert forall|k: int| #![trigger t[k]] 0 <= k < t.len() && k != i implies t[k].destination is None by {
            assert(s1[k] == s[k]);
            assert(s[k].destination is None);
        }
        lemma_contains(s1, output);
        lemma_contains(s, output);
        if output != input {
            if spec_contains(s1, output) {
                let k = choose|k: int| 0 <= k < s1.len() && (#[trigger] s1[k]).id == output;
                assert(s[k].id == output);
            }
            assert(!spec_contains(t, output));
        }
        lemma_settle_keeps_rest(t, grid, next_group as int, i, output);
    }
}

/// Droplets at rest stay valid when one of them is put in the collision
/// group of another and given somewhere to go.
pub proof fn lemma_joining_keeps_valid(
    s: Seq<Droplet>,
    grid: Grid,
    next_group: int,
    i1: int,
    i2: int,
)
    requires
        spec_at_rest(s, grid, next_group),
        0 <= i1 < s.len(),
        0 <= i2 < s.len(),
        i1 != i2,
    ensures
        spec_valid(s.update(i2, spec_joining(s[i1], s[i2])), grid),
{
    let joining = spec_joining(s[i1], s[i2]);
    lemma_other_names_differ(s, i2, s[i2].id);
    assert(grid.spec_fits(s[i2].spec_rectangle()));
    assert forall|k: int| #![trigger s[k]] 0 <= k < s.len() && k != i2 implies joining.spec_may_neighbour(
        s[k],
    ) by {
        if k < i2 {
            assert(s[k].spec_may_neighbour(s[i2]));
            assert(s[k].collision_group != s[i2].collision_group);
            lemma_may_neighbour_symmetric(s[k], s[i2]);
        } else {
            assert(s[i2].spec_may_neighbour(s[k]));
            assert(s[i2].collision_group != s[k].collision_group);
        }
    }
    lemma_update_keeps_valid(s, grid, i2, joining);
}

/// Where droplet `i2` has come to droplet `i1` and all others are as they
/// were at rest, one admitted droplet in the place of the two, in the
/// collision group of the first, leaves the droplets at rest.
pub proof fn lemma_merge_keeps_rest(
    s: Seq<Droplet>,
    t: Seq<Droplet>,
    grid: Grid,
    next_group: int,
    i1: int,
    i2: int,
    merged: Droplet,
)
    requires
        spec_at_rest(s, grid, next_group),
        spec_valid(t, grid),
        t.len() == s.len(),
        0 <= i1 < s.len(),
        0 <= i2 < s.len(),
        i1 != i2,
        forall|k: int| #![trigger t[k]] 0 <= k < s.len() && k != i2 ==> t[k] == s[k],
        forall|k: int|
            #![trigger s[k]]
            0 <= k < s.len() && k != i1 && k != i2 ==> s[k].id != merged.id,
        merged.collision_group == s[i1].collision_group,
        merged.destination is None,
        spec_admits(t.remove(i2), grid, merged),
    ensures
        spec_at_rest(
            t.remove(i2).update(
                if i1 < i2 {
                    i1
                } else {
                    i1 - 1
                },
                merged,
            ),
            grid,
            next_group,
        ),
{
    let rest = t.remove(i2);
    let place = if i1 < i2 { i1 } else { i1 - 1 };
    let done = rest.update(place, merged);
    lemma_remove_keeps_valid(t, grid, i2);
    assert forall|k: int| #![trigger rest[k]] 0 <= k < rest.len() implies rest[k] == s[if k
        < i2 { k } else { k + 1 }] by {
        let sk = if k < i2 { k } else { k + 1 };
        assert(rest[k] == t[sk]);
    }
    assert forall|k: int| #![trigger rest[k]] 0 <= k < rest.len() && k != place implies rest[k].id
        != merged.id by {
        let sk = if k < i2 { k } else { k + 1 };
        assert(rest[k] == s[sk]);
    }
    lemma_update_keeps_valid(rest, grid, place, merged);
    assert(rest[place] == s[i1]);
    assert forall|x: int, y: int| #![trigger done[x], done[y]] 0 <= x < y < done.len() implies done[x].collision_group
        != done[y].collision_group by {
        let sx = if x < i2 { x } else { x + 1 };
        let sy = if y < i2 { y } else { y + 1 };
        assert(rest[x] == s[sx]);
        assert(rest[y] == s[sy]);
        assert(s[sx].collision_group != s[sy].collision_group);
    }
    assert forall|k: int| #![trigger done[k]] 0 <= k < done.len() implies done[k].destination is None
        && done[k].collision_group < next_group by {
        let sk = if k < i2 { k } else { k + 1 };
        assert(rest[k] == s[sk]);
        assert(s[sk].collision_group < next_group);
        assert(s[i1].collision_group < next_group);
    }
}

/// `Combine` leaves the droplets at rest.
pub proof fn lemma_combine_keeps_rest(
    s: Seq<Droplet>,
    grid: Grid,
    next_group: usize,
    first: DropletId,
    second: DropletId,
    output: DropletId,
)
    requires
        spec_at_rest(s, grid, next_group as int),
    ensures
        match spec_apply_combine(s, grid, next_group, first, second, output) {
            Ok((t, n)) => spec_at_rest(t, grid, n as int) && n >= next_group,
            Err(_) => true,
        },
{
    if spec_apply_combine(s, grid, next_group, first, second, output) is Ok {
        lemma_index_of(s, first, 0);
        lemma_index_of(s, second, 0);
        let i1 = spec_index_of(s, first, 0);
        let i2 = spec_index_of(s, second, 0);
        let s1 = s.update(i2, spec_joining(s[i1], s[i2]));
        lemma_joining_keeps_valid(s, grid, next_group as int, i1, i2);
        lemma_route(s1, grid);
        let t = spec_route(s1, grid).unwrap();
        let merged = spec_merged(s[i1], s[i2], output);
        assert forall|k: int| #![trigger t[k]] 0 <= k < s.len() && k != i2 implies t[k] == s[k] by {
            assert(s1[k] == s[k]);
            assert(s[k].destination is None);
        }
        assert forall|k: int|
            #![trigger s[k]]
            0 <= k < s.len() && k != i1 && k != i2 implies s[k].id != output by {
            lemma_contains(s, output);
            if k < i1 {
                assert(s[k].id != s[i1].id);
            } else {
                assert(s[i1].id != s[k].id);
            }
            if k < i2 {
                assert(s[k].id != s[i2].id);
            } else {
                assert(s[i2].id != s[k].id);
            }
        }
        lemma_merge_keeps_rest(s, t, grid, next_group as int, i1, i2, merged);
    }
}

/// `Split` leaves the droplets at rest.
pub proof fn lemma_split_keeps_rest(
    s: Seq<Droplet>,
    grid: Grid,
    next_group: usize,
    input: DropletId,
    first_output: DropletId,
    second_output: DropletId,
)
    requires
        spec_at_rest(s, grid, next_group as int),
    ensures
        match spec_apply_split(s, grid, next_group, input, first_output, second_output) {
            Ok((t, n)) => spec_at_rest(t, grid, n as int) && n >= next_group,
            Err(_) => true,
        },
{
    if spec_apply_split(s, grid, next_group, input, first_output, second_output) is Ok {
        lemma_index_of(s, input, 0);
        let i = spec_index_of(s, input, 0);
        let rest = s.remove(i);
        let t = spec_apply_split(s, grid, next_group, input, first_output, second_output).unwrap().0;
        let left = t[rest.len() as int];
        let right = t[(rest.len() + 1) as int];
        assert(t == rest.push(left).push(right));
        lemma_remove_keeps_rest(s, grid, next_group as int, i);
        lemma_remove_keeps_valid(s, grid, i);
        lemma_push_keeps_rest(rest, grid, next_group as int, left);
        lemma_contains_push(rest, left, second_output);
        lemma_push_keeps_rest(rest.push(left), grid, next_group + 1, right);
    }
}

/// A command that is planned leaves the droplets at rest: valid on the grid,
/// far enough apart, each in a collision group of its own.
pub proof fn lemma_apply_keeps_rest(s: Seq<Droplet>, grid: Grid, next_group: usize, c: Command)
    requires
        spec_at_rest(s, grid, next_group as int),
    ensures
        match spec_apply(s, grid, next_group, c) {
            Ok((t, n)) => spec_at_rest(t, grid, n as int) && n >= next_group,
            Err(_) => true,
        },
{
    match c {
        Command::Create { location, dimensions, output } => {
            lemma_create_keeps_rest(s, grid, next_group, location, dimensions, output);
        },
        Command::Input { dimensions, output, .. } => {
            lemma_create_keeps_rest(s, grid, next_group, None, dimensions, output);
        },
        Command::Output { input, .. } => {
            lemma_output_keeps_rest(s, grid, next_group, input);
        },
        Command::Move { input, destination, output } => {
            lemma_move_keeps_rest(s, grid, next_group, input, destination, output);
        },
        Command::Combine { first, second, output } => {
            lemma_combine_keeps_rest(s, grid, next_group, first, second, output);
        },
        Command::Agitate { input, output } => {
            lemma_rename_keeps_rest(s, grid, next_group, input, output);
        },
        Command::Split { input, first_output, second_output } => {
            lemma_split_keeps_rest(s, grid, next_group, input, first_output, second_output);
        },
        Command::Heat { input, output, .. } => {
            lemma_rename_keeps_rest(s, grid, next_group, input, output);
        },
        Command::Flush { .. } => {},
    }
}

/// A droplet cannot be moved to where it would lie too close to a droplet
/// that stays: the command fails for want of a route.
pub proof fn lemma_move_to_taken_place_fails(
    s: Seq<Droplet>,
    grid: Grid,
    next_group: usize,
    input: DropletId,
    destination: Location,
    output: DropletId,
    other: int,
)
    requires
        spec_at_rest(s, grid, next_group as int),
        spec_contains(s, input),
        output == input || !spec_contains(s, output),
        0 <= other < s.len(),
        other != spec_index_of(s, input, 0),
        !s[spec_index_of(s, input, 0)].spec_at(destination).spec_may_neighbour(s[other]),
    ensures
        spec_apply_move(s, grid, next_group, input, destination, output) == Err::<
            (Seq<Droplet>, usize),
            PuddleError,
        >(PuddleError::PlanError(PlanError::Route)),
{
    lemma_index_of(s, input, 0);
    let i = spec_index_of(s, input, 0);
    let heading = s[i].spec_heading(destination);
    let s1 = s.update(i, heading);
    lemma_stays_admitted(s, grid, i, heading);
    lemma_other_names_differ(s, i, input);
    lemma_update_keeps_valid(s, grid, i, heading);
    lemma_route(s1, grid);
    match spec_route(s1, grid) {
        Some(t) => {
            assert(!t[i].spec_unresolved());
            assert(t[i] == s1[i].spec_at(t[i].location));
            assert(t[i].location == destination);
            assert(s1[other] == s[other]);
            assert(t[other] == s[other]);
            if i < other {
                assert(t[i].spec_may_neighbour(t[other]));
            } else {
                assert(t[other].spec_may_neighbour(t[i]));
                lemma_may_neighbour_symmetric(t[other], t[i]);
            }
            assert(false);
        },
        None => {},
    }
}

} // verus!
