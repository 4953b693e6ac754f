//! Routing: droplets that have somewhere to go take one step at a time.

use super::PlanError;
use crate::grid::droplet::{lemma_unresolved_has_steps, Droplet};
use crate::grid::location::Location;
use crate::grid::snapshot::{admits, lemma_update_keeps_valid, spec_admits, spec_valid};
use crate::grid::topology::Grid;
use vstd::prelude::*;

verus! {

/// The cell one row nearer to where `d` is to go.
pub open spec fn spec_row_step(d: Droplet) -> Location {
    let towards = d.destination.unwrap();
    if towards.y > d.location.y {
        Location { y: (d.location.y + 1) as i32, x: d.location.x }
    } else {
        Location { y: (d.location.y - 1) as i32, x: d.location.x }
    }
}

/// The cell one column nearer to where `d` is to go.
pub open spec fn spec_column_step(d: Droplet) -> Location {
    let towards = d.destination.unwrap();
    if towards.x > d.location.x {
        Location { y: d.location.y, x: (d.location.x + 1) as i32 }
    } else {
        Location { y: d.location.y, x: (d.location.x - 1) as i32 }
    }
}

/// The droplets once droplet `i` has had its turn. A droplet that is not
/// where it is to go takes one step there: along the rows if it is in the
/// wrong row and the droplets admit it one row nearer, else along the columns
/// if it is in the wrong column and they admit it one column nearer. Else it
/// waits.
pub open spec fn spec_advance(s: Seq<Droplet>, grid: Grid, i: int) -> Seq<Droplet> {
    let d = s[i];
    match d.destination {
        None => s,
        Some(towards) => {
            if towards.y != d.location.y && spec_admits(s, grid, d.spec_at(spec_row_step(d))) {
                s.update(i, d.spec_at(spec_row_step(d)))
            } else if towards.x != d.location.x && spec_admits(
                s,
                grid,
                d.spec_at(spec_column_step(d)),
            ) {
                s.update(i, d.spec_at(spec_column_step(d)))
            } else {
                s
            }
        },
    }
}

/// The droplets once each from `from` on has had its turn, in their order: of
/// two droplets that are in each other's way, the one that came first goes
/// first.
pub open spec fn spec_tick(s: Seq<Droplet>, grid: Grid, from: int) -> Seq<Droplet>
    decreases s.len() - from,
{
    if 0 <= from < s.len() {
        spec_tick(spec_advance(s, grid, from), grid, from + 1)
    } else {
        s
    }
}

/// The number of steps that the droplets have to take in all.
pub open spec fn spec_total_remaining(s: Seq<Droplet>) -> int
    decreases s.len(),
{
    if s.len() == 0 {
        0
    } else {
        spec_total_remaining(s.drop_last()) + s.last().spec_remaining()
    }
}

/// Where routing ends. While steps remain, every droplet has its turn, round
/// after round. Routing ends well when no step remains, and fails when a
/// round brings no droplet nearer.
pub open spec fn spec_route(s: Seq<Droplet>, grid: Grid) -> Option<Seq<Droplet>>
    decreases spec_total_remaining(s),
{
    if spec_total_remaining(s) <= 0 {
        Some(s)
    } else {
        let t = spec_tick(s, grid, 0);
        if 0 <= spec_total_remaining(t) < spec_total_remaining(s) {
            spec_route(t, grid)
        } else {
            None
        }
    }
}

/// `t` holds the droplets of `s`, each as it was but for its place, and those
/// with nowhere to go where they were.
pub open spec fn spec_moved_only(s: Seq<Droplet>, t: Seq<Droplet>) -> bool {
    &&& t.len() == s.len()
    &&& forall|k: int|
        #![trigger t[k]]
        0 <= k < s.len() ==> t[k] == s[k].spec_at(t[k].location) && (s[k].destination is None
            ==> t[k] == s[k])
}

/// Every droplet that has somewhere to go is there.
pub open spec fn spec_all_arrived(s: Seq<Droplet>) -> bool {
    forall|k: int| #![trigger s[k]] 0 <= k < s.len() ==> !s[k].spec_unresolved()
}

/// Replacing one droplet changes the steps that remain by what the one
/// droplet has left more or less.
pub proof fn lemma_total_update(s: Seq<Droplet>, i: int, d: Droplet)
    requires
        0 <= i < s.len(),
    ensures
        spec_total_remaining(s.update(i, d)) == spec_total_remaining(s) - s[i].spec_remaining()
            + d.spec_remaining(),
    decreases s.len(),
{
    let t = s.update(i, d);
    if i == s.len() - 1 {
        assert(t.drop_last() =~= s.drop_last());
    } else {
        assert(t.drop_last() =~= s.drop_last().update(i, d));
        lemma_total_update(s.drop_last(), i, d);
    }
}

/// No step remains exactly where every droplet has arrived.
pub proof fn lemma_total_remaining(s: Seq<Droplet>)
    ensures
        spec_total_remaining(s) >= 0,
        spec_total_remaining(s) == 0 <==> spec_all_arrived(s),
    decreases s.len(),
{
    if s.len() > 0 {
        let head = s.drop_last();
        lemma_total_remaining(head);
        lemma_unresolved_has_steps(s.last());
        if spec_all_arrived(s) {
            assert forall|k: int| #![trigger head[k]] 0 <= k < head.len() implies !head[k].spec_unresolved() by {
                assert(head[k] == s[k]);
            }
        }
        if spec_total_remaining(s) == 0 {
            assert forall|k: int| #![trigger s[k]] 0 <= k < s.len() implies !s[k].spec_unresolved() by {
                if k < head.len() {
                    assert(head[k] == s[k]);
                }
            }
        } else if spec_total_remaining(head) == 0 {
            assert(s[s.len() - 1].spec_unresolved());
        } else {
            let k = choose|k: int| 0 <= k < head.len() && (#[trigger] head[k]).spec_unresolved();
            assert(s[k].spec_unresolved());
        }
    }
}

/// A step brings a droplet one step nearer.
pub proof fn lemma_step_nearer(d: Droplet)
    requires
        d.destination is Some,
    ensures
        d.destination.unwrap().y != d.location.y ==> d.spec_at(spec_row_step(d)).spec_remaining()
            == d.spec_remaining() - 1,
        d.destination.unwrap().x != d.location.x ==> d.spec_at(
            spec_column_step(d),
        ).spec_remaining() == d.spec_remaining() - 1,
{
}

/// A droplet's turn keeps the droplets valid, brings at most this droplet
/// nearer, by one step, and changes nothing else.
pub proof fn lemma_advance(s: Seq<Droplet>, grid: Grid, i: int)
    requires
        0 <= i < s.len(),
    ensures
        spec_valid(s, grid) ==> spec_valid(spec_advance(s, grid, i), grid),
        spec_moved_only(s, spec_advance(s, grid, i)),
        spec_advance(s, grid, i) == s || spec_total_remaining(spec_advance(s, grid, i))
            == spec_total_remaining(s) - 1,
{
    let d = s[i];
    let t = spec_advance(s, grid, i);
    if t != s {
        let moved = t[i];
        assert(t == s.update(i, moved));
        lemma_step_nearer(d);
        lemma_total_update(s, i, moved);
        if spec_valid(s, grid) {
            assert forall|k: int| #![trigger s[k]] 0 <= k < s.len() && k != i implies s[k].id
                != moved.id by {
                if k < i {
                    assert(s[k].id != s[i].id);
                } else {
                    assert(s[i].id != s[k].id);
                }
            }
            lemma_update_keeps_valid(s, grid, i, moved);
        }
    }
}

/// A round keeps the droplets valid, brings none further away, and changes
/// nothing but places.
pub proof fn lemma_tick(s: Seq<Droplet>, grid: Grid, from: int)
    requires
        0 <= from,
    ensures
        spec_valid(s, grid) ==> spec_valid(spec_tick(s, grid, from), grid),
        spec_moved_only(s, spec_tick(s, grid, from)),
        spec_total_remaining(spec_tick(s, grid, from)) <= spec_total_remaining(s),
        spec_total_remaining(spec_tick(s, grid, from)) == spec_total_remaining(s) ==> spec_tick(
            s,
            grid,
            from,
        ) == s,
    decreases s.len() - from,
{
    if from < s.len() {
        let mid = spec_advance(s, grid, from);
        lemma_advance(s, grid, from);
        lemma_tick(mid, grid, from + 1);
        let t = spec_tick(s, grid, from);
        assert(t == spec_tick(mid, grid, from + 1));
        assert forall|k: int| #![trigger t[k]] 0 <= k < s.len() implies t[k] == s[k].spec_at(
            t[k].location,
        ) && (s[k].destination is None ==> t[k] == s[k]) by {
            assert(mid[k] == s[k].spec_at(mid[k].location));
            assert(t[k] == mid[k].spec_at(t[k].location));
        }
    }
}

/// Routing that ends well ends with valid droplets that have all arrived,
/// each as it was but for its place.
pub proof fn lemma_route(s: Seq<Droplet>, grid: Grid)
    ensures
        match spec_route(s, grid) {
            Some(t) => {
                &&& spec_valid(s, grid) ==> spec_valid(t, grid)
                &&& spec_moved_only(s, t)
                &&& spec_all_arrived(t)
            },
            None => true,
        },
    decreases spec_total_remaining(s),
{
    lemma_total_remaining(s);
    if spec_total_remaining(s) > 0 {
        let mid = spec_tick(s, grid, 0);
        lemma_tick(s, grid, 0);
        if 0 <= spec_total_remaining(mid) < spec_total_remaining(s) {
            lemma_route(mid, grid);
            match spec_route(mid, grid) {
                Some(t) => {
                    assert forall|k: int| #![trigger t[k]] 0 <= k < s.len() implies t[k]
                        == s[k].spec_at(t[k].location) && (s[k].destination is None ==> t[k]
                        == s[k]) by {
                        assert(mid[k] == s[k].spec_at(mid[k].location));
                        assert(t[k] == mid[k].spec_at(t[k].location));
                    }
                },
                None => {},
            }
        }
    }
}

/// Gives droplet `i` its turn.
pub fn advance(droplets: &mut Vec<Droplet>, grid: &Grid, i: usize) -> (moved: bool)
    requires
        i < old(droplets)@.len(),
    ensures
        final(droplets)@ == spec_advance(old(droplets)@, *grid, i as int),
        moved == (final(droplets)@ != old(droplets)@),
{
    let d: Droplet = droplets[i];
    match d.destination {
        None => false,
        Some(towards) => {
            if towards.y != d.location.y {
                let row: i32 = if towards.y > d.location.y {
                    d.location.y + 1
                } else {
                    d.location.y - 1
                };
                let nearer = Droplet {
                    id: d.id,
                    location: Location { y: row, x: d.location.x },
                    dimensions: d.dimensions,
                    destination: d.destination,
                    collision_group: d.collision_group,
                };
                if admits(droplets, grid, &nearer) {
                    droplets.set(i, nearer);
                    assert(final(droplets)@[i as int] != old(droplets)@[i as int]);
                    return true;
                }
            }
            if towards.x != d.location.x {
                let column: i32 = if towards.x > d.location.x {
                    d.location.x + 1
                } else {
                    d.location.x - 1
                };
                let nearer = Droplet {
                    id: d.id,
                    location: Location { y: d.location.y, x: column },
                    dimensions: d.dimensions,
                    destination: d.destination,
                    collision_group: d.collision_group,
                };
                if admits(droplets, grid, &nearer) {
                    droplets.set(i, nearer);
                    assert(final(droplets)@[i as int] != old(droplets)@[i as int]);
                    return true;
                }
            }
            false
        },
    }
}

/// Gives every droplet its turn, in their order, and says whether any came
/// nearer to where it is to go.
pub fn tick(droplets: &mut Vec<Droplet>, grid: &Grid) -> (progress: bool)
    ensures
        final(droplets)@ == spec_tick(old(droplets)@, *grid, 0),
        progress == (spec_total_remaining(final(droplets)@) < spec_total_remaining(
            old(droplets)@,
        )),
{
    let mut progress: bool = false;
    let mut i: usize = 0;
    while i < droplets.len()
        invariant
            i <= droplets@.len(),
            droplets@.len() == old(droplets)@.len(),
            spec_tick(droplets@, *grid, i as int) == spec_tick(old(droplets)@, *grid, 0),
            spec_total_remaining(droplets@) <= spec_total_remaining(old(droplets)@),
            progress == (spec_total_remaining(droplets@) < spec_total_remaining(old(droplets)@)),
        decreases droplets@.len() - i,
    {
        proof {
            lemma_advance(droplets@, *grid, i as int);
        }
        let moved: bool = advance(droplets, grid, i);
        progress = progress || moved;
        i = i + 1;
    }
    progress
}

/// Whether any droplet has steps left to take.
pub fn steps_remain(droplets: &Vec<Droplet>) -> (remain: bool)
    ensures
        remain == (spec_total_remaining(droplets@) > 0),
{
    let mut i: usize = 0;
    while i < droplets.len()
        invariant
            i <= droplets@.len(),
            forall|k: int| #![trigger droplets@[k]] 0 <= k < i ==> !droplets@[k].spec_unresolved(),
        decreases droplets@.len() - i,
    {
        if droplets[i].unresolved() {
            proof {
                lemma_total_remaining(droplets@);
            }
            return true;
        }
        i = i + 1;
    }
    proof {
        lemma_total_remaining(droplets@);
    }
    false
}

/// Routes the droplets to where they are to go.
pub fn route(droplets: Vec<Droplet>, grid: &Grid) -> (r: Result<Vec<Droplet>, PlanError>)
    ensures
        match r {
            Ok(arrived) => spec_route(droplets@, *grid) == Some(arrived@),
            Err(e) => spec_route(droplets@, *grid) is None && e == PlanError::Route,
        },
{
    let mut work: Vec<Droplet> = droplets;
    loop
        invariant
            spec_route(work@, *grid) == spec_route(droplets@, *grid),
        decreases spec_total_remaining(work@),
    {
        if !steps_remain(&work) {
            return Ok(work);
        }
        proof {
            lemma_tick(work@, *grid, 0);
            lemma_total_remaining(spec_tick(work@, *grid, 0));
        }
        let progress: bool = tick(&mut work, grid);
        if !progress {
            return Err(PlanError::Route);
        }
    }
}

} // verus!
