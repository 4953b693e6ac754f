//! Which droplets a command uses up and which it makes.

use super::apply::{
    spec_apply, spec_apply_combine, spec_apply_create, spec_apply_move, spec_apply_output,
    spec_apply_rename, spec_apply_split, spec_joining,
};
use super::preserve::{
    lemma_contains_push, lemma_joining_keeps_valid, lemma_other_names_differ,
    lemma_stays_admitted,
};
use super::route::{lemma_route, spec_route};
use crate::command::Command;
use crate::grid::droplet::{Droplet, DropletId};
use crate::grid::location::Location;
use crate::grid::snapshot::{
    lemma_contains, lemma_index_of, lemma_remove_keeps_valid, lemma_update_keeps_valid,
    spec_at_rest, spec_contains, spec_distinct_ids, spec_index_of, spec_valid,
};
use crate::grid::topology::Grid;
use vstd::prelude::*;

verus! {

/// The names among droplets of which one was replaced: the name of the new
/// one, and the names borne before but for that of the old one.
pub proof fn lemma_contains_update(s: Seq<Droplet>, i: int, d: Droplet, id: DropletId)
    requires
        0 <= i < s.len(),
        spec_distinct_ids(s),
    ensures
        spec_contains(s.update(i, d), id) <==> d.id == id || (spec_contains(s, id) && s[i].id
            != id),
{
    let t = s.update(i, d);
    lemma_contains(s, id);
    lemma_contains(t, id);
    if spec_contains(t, id) {
        let k = choose|k: int| 0 <= k < t.len() && (#[trigger] t[k]).id == id;
        if k != i {
            assert(s[k].id == id);
            if k < i {
                assert(s[k].id != s[i].id);
            } else {
                assert(s[i].id != s[k].id);
            }
        }
    }
    if d.id == id {
        assert(t[i].id == id);
    } else if spec_contains(s, id) && s[i].id != id {
        let k = choose|k: int| 0 <= k < s.len() && (#[trigger] s[k]).id == id;
        assert(t[k].id == id);
    }
}

/// Droplets that differ in nothing but places and errands bear the same
/// names.
pub proof fn lemma_same_names(s: Seq<Droplet>, t: Seq<Droplet>, id: DropletId)
    requires
        s.len() == t.len(),
        forall|k: int| #![trigger t[k]] 0 <= k < s.len() ==> t[k].id == s[k].id,
    ensures
        spec_contains(t, id) <==> spec_contains(s, id),
{
    lemma_contains(s, id);
    lemma_contains(t, id);
    if spec_contains(t, id) {
        let k = choose|k: int| 0 <= k < t.len() && (#[trigger] t[k]).id == id;
        assert(s[k].id == id);
    }
    if spec_contains(s, id) {
        let k = choose|k: int| 0 <= k < s.len() && (#[trigger] s[k]).id == id;
        assert(t[k].id == id);
    }
}

/// `Create` and `Input` add the name of the droplet they make.
pub proof fn lemma_create_names(
    s: Seq<Droplet>,
    grid: Grid,
    next_group: usize,
    location: Option<Location>,
    dimensions: Location,
    output: DropletId,
    id: DropletId,
)
    ensures
        match spec_apply_create(s, grid, next_group, location, dimensions, output) {
            Ok((t, _)) => spec_contains(t, id) <==> id == output || spec_contains(s, id),
            Err(_) => true,
        },
{
    match spec_apply_create(s, grid, next_group, location, dimensions, output) {
        Ok((t, _)) => {
            let made = t[s.len() as int];
            assert(t == s.push(made));
            lemma_contains_push(s, made, id);
        },
        Err(_) => {},
    }
}

/// `Output` takes away the name of the droplet it uses up.
pub proof fn lemma_output_names(
    s: Seq<Droplet>,
    grid: Grid,
    next_group: usize,
    input: DropletId,
    id: DropletId,
)
    requires
        spec_valid(s, grid),
    ensures
        match spec_apply_output(s, next_group, input) {
            Ok((t, _)) => spec_contains(t, id) <==> spec_contains(s, id) && id != input,
            Err(_) => true,
        },
{
    if spec_contains(s, input) {
        lemma_index_of(s, input, 0);
        lemma_remove_keeps_valid(s, grid, spec_index_of(s, input, 0));
    }
}

/// `Agitate` and `Heat` put the new name in the place of the old.
pub proof fn lemma_rename_names(
    s: Seq<Droplet>,
    grid: Grid,
    next_group: usize,
    input: DropletId,
    output: DropletId,
    id: DropletId,
)
    requires
        spec_valid(s, grid),
    ensures
        match spec_apply_rename(s, next_group, input, output) {
            Ok((t, _)) => spec_contains(t, id) <==> id == output || (spec_contains(s, id) && id
                != input),
            Err(_) => true,
        },
{
    if spec_contains(s, input) {
        lemma_index_of(s, input, 0);
        let i = spec_index_of(s, input, 0);
        lemma_contains_update(s, i, s[i].spec_settled_as(output), id);
    }
}

/// `Move` puts the new name in the place of the old.
pub proof fn lemma_move_names(
    s: Seq<Droplet>,
    grid: Grid,
    next_group: usize,
    input: DropletId,
    destination: Location,
    output: DropletId,
    id: DropletId,
)
    requires
        spec_valid(s, grid),
    ensures
        match spec_apply_move(s, grid, next_group, input, destination, output) {
            Ok((t, _)) => spec_contains(t, id) <==> id == output || (spec_contains(s, id) && id
                != input),
            Err(_) => true,
        },
{
    if spec_apply_move(s, grid, next_group, input, destination, output) is Ok {
        lemma_index_of(s, input, 0);
        let i = spec_index_of(s, input, 0);
        let heading = s[i].spec_heading(destination);
        let s1 = s.update(i, heading);
        lemma_stays_admitted(s, grid, i, heading);
        lemma_other_names_differ(s, i, input);
        lemma_update_keeps_valid(s, grid, i, heading);
        lemma_contains_update(s, i, heading, id);
        lemma_route(s1, grid);
        lemma_route_names(s1, grid, id);
        let t = spec_route(s1, grid).unwrap();
        assert(t[i].id == s1[i].id);
        lemma_contains_update(t, i, t[i].spec_settled_as(output), id);
    }
}

/// The names among droplets of which two gave way to one: the name of the
/// new one, and the names borne before but for those of the two.
pub proof fn lemma_merge_names(
    t: Seq<Droplet>,
    grid: Grid,
    i1: int,
    i2: int,
    merged: Droplet,
    id: DropletId,
)
    requires
        spec_valid(t, grid),
        0 <= i1 < t.len(),
        0 <= i2 < t.len(),
        i1 != i2,
    ensures
        spec_contains(
            t.remove(i2).update(
                if i1 < i2 {
                    i1
                } else {
                    i1 - 1
                },
                merged,
            ),
            id,
        ) <==> merged.id == id || (spec_contains(t, id) && id != t[i1].id && id != t[i2].id),
{
    let rest = t.remove(i2);
    let place = if i1 < i2 { i1 } else { i1 - 1 };
    lemma_remove_keeps_valid(t, grid, i2);
    assert(rest[place] == t[i1]);
    lemma_contains_update(rest, place, merged, id);
}

/// Routing changes no name.
pub proof fn lemma_route_names(s: Seq<Droplet>, grid: Grid, id: DropletId)
    ensures
        match spec_route(s, grid) {
            Some(t) => t.len() == s.len() && (spec_contains(t, id) <==> spec_contains(s, id))
                && forall|k: int| #![trigger t[k]] 0 <= k < s.len() ==> t[k].id == s[k].id,
            None => true,
        },
{
    lemma_route(s, grid);
    match spec_route(s, grid) {
        Some(t) => {
            assert forall|k: int| #![trigger t[k]] 0 <= k < s.len() implies t[k].id
                == s[k].id by {
                assert(t[k] == s[k].spec_at(t[k].location));
            }
            lemma_same_names(s, t, id);
        },
        None => {},
    }
}

/// `Combine` puts one name in the place of two.
pub proof fn lemma_combine_names(
    s: Seq<Droplet>,
    grid: Grid,
    next_group: usize,
    first: DropletId,
    second: DropletId,
    output: DropletId,
    id: DropletId,
)
    requires
        spec_at_rest(s, grid, next_group as int),
    ensures
        match spec_apply_combine(s, grid, next_group, first, second, output) {
            Ok((t, _)) => spec_contains(t, id) <==> id == output || (spec_contains(s, id) && id
                != first && id != second),
            Err(_) => true,
        },
{
    if spec_apply_combine(s, grid, next_group, first, second, output) is Ok {
        lemma_index_of(s, first, 0);
        lemma_index_of(s, second, 0);
        let i1 = spec_index_of(s, first, 0);
        let i2 = spec_index_of(s, second, 0);
        let joining = spec_joining(s[i1], s[i2]);
        let s1 = s.update(i2, joining);
        lemma_joining_keeps_valid(s, grid, next_group as int, i1, i2);
        lemma_contains_update(s, i2, joining, id);
        lemma_route(s1, grid);
        lemma_route_names(s1, grid, id);
        let t = spec_route(s1, grid).unwrap();
        assert(t[i1].id == s1[i1].id);
        assert(t[i2].id == s1[i2].id);
        lemma_merge_names(t, grid, i1, i2, super::apply::spec_merged(s[i1], s[i2], output), id);
    }
}

/// `Split` puts two names in the place of one.
pub proof fn lemma_split_names(
    s: Seq<Droplet>,
    grid: Grid,
    next_group: usize,
    input: DropletId,
    first_output: DropletId,
    second_output: DropletId,
    id: DropletId,
)
    requires
        spec_valid(s, grid),
    ensures
        match spec_apply_split(s, grid, next_group, input, first_output, second_output) {
            Ok((t, _)) => spec_contains(t, id) <==> id == first_output || id == second_output || (
            spec_contains(s, id) && id != input),
            Err(_) => true,
        },
{
    if spec_apply_split(s, grid, next_group, input, first_output, second_output) is Ok {
        lemma_index_of(s, input, 0);
        let i = spec_index_of(s, input, 0);
        let rest = s.remove(i);
        let t = spec_apply_split(s, grid, next_group, input, first_output, second_output).unwrap().0;
        let left = t[rest.len() as int];
        let right = t[(rest.len() + 1) as int];
        assert(t == rest.push(left).push(right));
        lemma_remove_keeps_valid(s, grid, i);
        lemma_contains_push(rest, left, id);
        lemma_contains_push(rest.push(left), right, id);
    }
}

/// After a command that is planned, the droplets on the grid are those that
/// the command makes, and those that were there and that it does not use up.
pub proof fn lemma_apply_names(
    s: Seq<Droplet>,
    grid: Grid,
    next_group: usize,
    c: Command,
    id: DropletId,
)
    requires
        spec_at_rest(s, grid, next_group as int),
    ensures
        match spec_apply(s, grid, next_group, c) {
            Ok((t, _)) => spec_contains(t, id) <==> c.spec_outputs().contains(id) || (
            spec_contains(s, id) && !c.spec_inputs().contains(id)),
            Err(_) => true,
        },
{
    let inputs = c.spec_inputs();
    let outputs = c.spec_outputs();
    match c {
        Command::Create { location, dimensions, output } => {
            lemma_create_names(s, grid, next_group, location, dimensions, output, id);
            assert(outputs[0] == output);
        },
        Command::Input { dimensions, output, .. } => {
            lemma_create_names(s, grid, next_group, None, dimensions, output, id);
            assert(outputs[0] == output);
        },
        Command::Output { input, .. } => {
            lemma_output_names(s, grid, next_group, input, id);
            assert(inputs[0] == input);
        },
        Command::Move { input, destination, output } => {
            lemma_move_names(s, grid, next_group, input, destination, output, id);
            assert(inputs[0] == input);
            assert(outputs[0] == output);
        },
        Command::Combine { first, second, output } => {
            lemma_combine_names(s, grid, next_group, first, second, output, id);
            assert(inputs[0] == first);
            assert(inputs[1] == second);
            assert(outputs[0] == output);
        },
        Command::Agitate { input, output } => {
            lemma_rename_names(s, grid, next_group, input, output, id);
            assert(inputs[0] == input);
            assert(outputs[0] == output);
        },
        Command::Split { input, first_output, second_output } => {
            lemma_split_names(s, grid, next_group, input, first_output, second_output, id);
            assert(inputs[0] == input);
            assert(outputs[0] == first_output);
            assert(outputs[1] == second_output);
        },
        Command::Heat { input, output, .. } => {
            lemma_rename_names(s, grid, next_group, input, output, id);
            assert(inputs[0] == input);
            assert(outputs[0] == output);
        },
        Command::Flush { .. } => {},
    }
}

} // verus!
