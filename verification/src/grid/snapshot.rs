//! One instant of the grid: the droplets on it.

use super::droplet::{lemma_may_neighbour_symmetric, Droplet, DropletId};
use super::topology::Grid;
use crate::command::Command;
use crate::process::PuddleError;
use vstd::prelude::*;

verus! {

/// The first position from `from` on of a droplet named `id`, or the length
/// of `s`.
pub open spec fn spec_index_of(s: Seq<Droplet>, id: DropletId, from: int) -> int
    decreases s.len() - from,
{
    if 0 <= from < s.len() && s[from].id != id {
        spec_index_of(s, id, from + 1)
    } else {
        from
    }
}

/// A droplet named `id` is among `s`.
pub open spec fn spec_contains(s: Seq<Droplet>, id: DropletId) -> bool {
    spec_index_of(s, id, 0) < s.len()
}

/// No two droplets share a name.
pub open spec fn spec_distinct_ids(s: Seq<Droplet>) -> bool {
    forall|i: int, j: int| #![trigger s[i], s[j]] 0 <= i < j < s.len() ==> s[i].id != s[j].id
}

/// Any two droplets of different collision groups are far enough apart.
pub open spec fn spec_separated(s: Seq<Droplet>) -> bool {
    forall|i: int, j: int|
        #![trigger s[i], s[j]]
        0 <= i < j < s.len() ==> s[i].spec_may_neighbour(s[j])
}

/// Every droplet lies on the grid.
pub open spec fn spec_on_grid(s: Seq<Droplet>, grid: Grid) -> bool {
    forall|i: int| #![trigger s[i]] 0 <= i < s.len() ==> grid.spec_fits(s[i].spec_rectangle())
}

/// What holds of the droplets of a grid at any instant: their names differ,
/// they lie on the grid, and those of different collision groups are far
/// enough apart.
pub open spec fn spec_valid(s: Seq<Droplet>, grid: Grid) -> bool {
    &&& spec_distinct_ids(s)
    &&& spec_separated(s)
    &&& spec_on_grid(s, grid)
}

/// The droplet `d` lies on the grid and may lie beside each droplet of `s`.
pub open spec fn spec_admits(s: Seq<Droplet>, grid: Grid, d: Droplet) -> bool {
    &&& grid.spec_fits(d.spec_rectangle())
    &&& forall|j: int| #![trigger s[j]] 0 <= j < s.len() ==> d.spec_may_neighbour(s[j])
}

/// No droplet has anywhere to go.
pub open spec fn spec_settled(s: Seq<Droplet>) -> bool {
    forall|i: int| #![trigger s[i]] 0 <= i < s.len() ==> s[i].destination is None
}

/// No two droplets share a collision group.
pub open spec fn spec_distinct_groups(s: Seq<Droplet>) -> bool {
    forall|i: int, j: int|
        #![trigger s[i], s[j]]
        0 <= i < j < s.len() ==> s[i].collision_group != s[j].collision_group
}

/// What holds of the droplets of a grid between two commands: they are
/// valid, none has anywhere to go, no two share a collision group, and every
/// collision group in use is below `next_group`.
pub open spec fn spec_at_rest(s: Seq<Droplet>, grid: Grid, next_group: int) -> bool {
    &&& spec_valid(s, grid)
    &&& spec_settled(s)
    &&& spec_distinct_groups(s)
    &&& spec_groups_below(s, next_group)
}

/// Every collision group in use is below `bound`.
pub open spec fn spec_groups_below(s: Seq<Droplet>, bound: int) -> bool {
    forall|i: int| #![trigger s[i]] 0 <= i < s.len() ==> s[i].collision_group < bound
}

/// Where `spec_index_of` points: at a droplet named `id`, behind droplets of
/// other names only.
pub proof fn lemma_index_of(s: Seq<Droplet>, id: DropletId, from: int)
    requires
        0 <= from <= s.len(),
    ensures
        from <= spec_index_of(s, id, from) <= s.len(),
        spec_index_of(s, id, from) < s.len() ==> s[spec_index_of(s, id, from)].id == id,
        forall|k: int| from <= k < spec_index_of(s, id, from) ==> (#[trigger] s[k]).id != id,
    decreases s.len() - from,
{
    if from < s.len() && s[from].id != id {
        lemma_index_of(s, id, from + 1);
    }
}

/// A name is among the droplets exactly where some droplet bears it.
pub proof fn lemma_contains(s: Seq<Droplet>, id: DropletId)
    ensures
        spec_contains(s, id) <==> exists|k: int| 0 <= k < s.len() && (#[trigger] s[k]).id == id,
{
    lemma_index_of(s, id, 0);
    if spec_contains(s, id) {
        assert(s[spec_index_of(s, id, 0)].id == id);
    }
}

/// Putting an admitted droplet in the place of another, under that one's
/// name or under a name that no other droplet bears, keeps the droplets
/// valid.
pub proof fn lemma_update_keeps_valid(s: Seq<Droplet>, grid: Grid, i: int, d: Droplet)
    requires
        spec_valid(s, grid),
        0 <= i < s.len(),
        forall|k: int| #![trigger s[k]] 0 <= k < s.len() && k != i ==> s[k].id != d.id,
        grid.spec_fits(d.spec_rectangle()),
        forall|k: int| #![trigger s[k]] 0 <= k < s.len() && k != i ==> d.spec_may_neighbour(s[k]),
    ensures
        spec_valid(s.update(i, d), grid),
{
    let t = s.update(i, d);
    assert forall|a: int, b: int| #![trigger t[a], t[b]] 0 <= a < b < t.len() implies t[a].id
        != t[b].id && t[a].spec_may_neighbour(t[b]) by {
        assert(s[a].id != s[b].id);
        assert(s[a].spec_may_neighbour(s[b]));
        if a == i {
            assert(d.spec_may_neighbour(s[b]));
            assert(s[b].id != d.id);
        } else if b == i {
            assert(s[a].id != d.id);
            assert(d.spec_may_neighbour(s[a]));
            lemma_may_neighbour_symmetric(d, s[a]);
        }
    }
    assert forall|k: int| #![trigger t[k]] 0 <= k < t.len() implies grid.spec_fits(
        t[k].spec_rectangle(),
    ) by {
        if k != i {
            assert(t[k] == s[k]);
        }
    }
}

/// Adding an admitted droplet under a new name keeps the droplets valid.
pub proof fn lemma_push_keeps_valid(s: Seq<Droplet>, grid: Grid, d: Droplet)
    requires
        spec_valid(s, grid),
        !spec_contains(s, d.id),
        spec_admits(s, grid, d),
    ensures
        spec_valid(s.push(d), grid),
{
    let t = s.push(d);
    lemma_contains(s, d.id);
    assert forall|a: int, b: int| #![trigger t[a], t[b]] 0 <= a < b < t.len() implies t[a].id
        != t[b].id && t[a].spec_may_neighbour(t[b]) by {
        if b == s.len() {
            assert(t[a] == s[a]);
            assert(s[a].id != d.id);
            assert(d.spec_may_neighbour(s[a]));
            lemma_may_neighbour_symmetric(d, s[a]);
        } else {
            assert(s[a].id != s[b].id);
            assert(s[a].spec_may_neighbour(s[b]));
        }
    }
    assert forall|k: int| #![trigger t[k]] 0 <= k < t.len() implies grid.spec_fits(
        t[k].spec_rectangle(),
    ) by {
        if k < s.len() {
            assert(t[k] == s[k]);
        }
    }
}

/// Taking a droplet away keeps the droplets valid.
pub proof fn lemma_remove_keeps_valid(s: Seq<Droplet>, grid: Grid, i: int)
    requires
        spec_valid(s, grid),
        0 <= i < s.len(),
    ensures
        spec_valid(s.remove(i), grid),
        !spec_contains(s.remove(i), s[i].id),
        forall|id: DropletId|
            id != s[i].id ==> (#[trigger] spec_contains(s.remove(i), id) <==> spec_contains(s, id)),
{
    let t = s.remove(i);
    assert forall|a: int, b: int| #![trigger t[a], t[b]] 0 <= a < b < t.len() implies t[a].id
        != t[b].id && t[a].spec_may_neighbour(t[b]) by {
        let sa = if a < i { a } else { a + 1 };
        let sb = if b < i { b } else { b + 1 };
        assert(t[a] == s[sa] && t[b] == s[sb]);
        assert(s[sa].id != s[sb].id);
        assert(s[sa].spec_may_neighbour(s[sb]));
    }
    assert forall|k: int| #![trigger t[k]] 0 <= k < t.len() implies grid.spec_fits(
        t[k].spec_rectangle(),
    ) by {
        let sk = if k < i { k } else { k + 1 };
        assert(t[k] == s[sk]);
    }
    lemma_contains(t, s[i].id);
    if spec_contains(t, s[i].id) {
        let k = choose|k: int| 0 <= k < t.len() && (#[trigger] t[k]).id == s[i].id;
        let sk = if k < i { k } else { k + 1 };
        assert(t[k] == s[sk]);
        if sk < i {
            assert(s[sk].id != s[i].id);
        } else {
            assert(s[i].id != s[sk].id);
        }
    }
    assert forall|id: DropletId| id != s[i].id implies (#[trigger] spec_contains(t, id)
        <==> spec_contains(s, id)) by {
        lemma_contains(t, id);
        lemma_contains(s, id);
        if spec_contains(t, id) {
            let k = choose|k: int| 0 <= k < t.len() && (#[trigger] t[k]).id == id;
            let sk = if k < i { k } else { k + 1 };
            assert(s[sk].id == id);
        }
        if spec_contains(s, id) {
            let k = choose|k: int| 0 <= k < s.len() && (#[trigger] s[k]).id == id;
            let tk = if k < i { k } else { k - 1 };
            assert(t[tk].id == id);
        }
    }
}

/// Where the droplet named `id` stands among `droplets`.
pub fn position(droplets: &Vec<Droplet>, id: DropletId) -> (found: Option<usize>)
    ensures
        match found {
            Some(i) => i < droplets@.len() && i == spec_index_of(droplets@, id, 0)
                && droplets@[i as int].id == id,
            None => !spec_contains(droplets@, id),
        },
{
    let mut i: usize = 0;
    while i < droplets.len()
        invariant
            i <= droplets@.len(),
            spec_index_of(droplets@, id, 0) == spec_index_of(droplets@, id, i as int),
        decreases droplets@.len() - i,
    {
        if droplets[i].id == id {
            return Some(i);
        }
        i = i + 1;
    }
    None
}

/// Whether `d` lies on the grid and may lie beside each of `droplets`.
pub fn admits(droplets: &Vec<Droplet>, grid: &Grid, d: &Droplet) -> (ok: bool)
    ensures
        ok == spec_admits(droplets@, *grid, *d),
{
    let footprint = d.rectangle();
    if !grid.fits(&footprint) {
        return false;
    }
    let mut j: usize = 0;
    while j < droplets.len()
        invariant
            j <= droplets@.len(),
            grid.spec_fits(d.spec_rectangle()),
            forall|k: int| #![trigger droplets@[k]] 0 <= k < j ==> d.spec_may_neighbour(droplets@[k]),
        decreases droplets@.len() - j,
    {
        if !d.may_neighbour(&droplets[j]) {
            return false;
        }
        j = j + 1;
    }
    true
}

/// Whether `droplets` are valid on `grid`.
pub fn is_valid(droplets: &Vec<Droplet>, grid: &Grid) -> (ok: bool)
    ensures
        ok == spec_valid(droplets@, *grid),
{
    let mut j: usize = 0;
    while j < droplets.len()
        invariant
            j <= droplets@.len(),
            forall|a: int, b: int|
                #![trigger droplets@[a], droplets@[b]]
                0 <= a < b < j ==> droplets@[a].id != droplets@[b].id
                    && droplets@[a].spec_may_neighbour(droplets@[b]),
            forall|k: int|
                #![trigger droplets@[k]]
                0 <= k < j ==> grid.spec_fits(droplets@[k].spec_rectangle()),
        decreases droplets@.len() - j,
    {
        let footprint = droplets[j].rectangle();
        if !grid.fits(&footprint) {
            return false;
        }
        let mut i: usize = 0;
        while i < j
            invariant
                i <= j < droplets@.len(),
                forall|a: int|
                    #![trigger droplets@[a]]
                    0 <= a < i ==> droplets@[a].id != droplets@[j as int].id
                        && droplets@[a].spec_may_neighbour(droplets@[j as int]),
            decreases j - i,
        {
            if droplets[i].id == droplets[j].id || !droplets[i].may_neighbour(&droplets[j]) {
                return false;
            }
            i = i + 1;
        }
        j = j + 1;
    }
    true
}

/// A copy of `droplets`.
pub fn copy_droplets(droplets: &Vec<Droplet>) -> (copy: Vec<Droplet>)
    ensures
        copy@ == droplets@,
{
    let mut copy: Vec<Droplet> = Vec::new();
    let mut i: usize = 0;
    while i < droplets.len()
        invariant
            i <= droplets@.len(),
            copy@ == droplets@.subrange(0, i as int),
        decreases droplets@.len() - i,
    {
        copy.push(droplets[i]);
        assert(droplets@.subrange(0, i as int).push(droplets@[i as int]) == droplets@.subrange(
            0,
            i + 1,
        ));
        i = i + 1;
    }
    assert(droplets@.subrange(0, droplets@.len() as int) == droplets@);
    copy
}

/// One instant of the grid: the droplets on it, in the order in which they
/// came, and the commands planned and not yet finalized, oldest first.
#[derive(Clone, Debug)]
pub struct Snapshot {
    pub droplets: Vec<Droplet>,
    pub commands_to_finalize: Vec<Command>,
}

impl Snapshot {
    /// The snapshot is valid on `grid`.
    pub open spec fn valid(self, grid: Grid) -> bool {
        spec_valid(self.droplets@, grid)
    }

    /// A snapshot without droplets or commands.
    pub fn new() -> (s: Snapshot)
        ensures
            s.droplets@.len() == 0,
            s.commands_to_finalize@.len() == 0,
    {
        Snapshot { droplets: Vec::new(), commands_to_finalize: Vec::new() }
    }

    /// Whether a droplet named `id` is on the grid.
    pub fn contains(&self, id: DropletId) -> (present: bool)
        ensures
            present == spec_contains(self.droplets@, id),
    {
        position(&self.droplets, id).is_some()
    }

    /// The droplet named `id`.
    pub fn get(&self, id: DropletId) -> (r: Result<Droplet, PuddleError>)
        ensures
            match r {
                Ok(d) => spec_contains(self.droplets@, id) && d == self.droplets@[spec_index_of(
                    self.droplets@,
                    id,
                    0,
                )],
                Err(e) => !spec_contains(self.droplets@, id) && e
                    == PuddleError::NonExistentDropletId(id.id),
            },
    {
        match position(&self.droplets, id) {
            Some(i) => Ok(self.droplets[i]),
            None => Err(PuddleError::NonExistentDropletId(id.id)),
        }
    }

    /// Puts `d` on the grid: in the place of the droplet that bears its name,
    /// which is handed back, or behind all others.
    pub fn insert(&mut self, d: Droplet) -> (replaced: Option<Droplet>)
        ensures
            final(self).commands_to_finalize == old(self).commands_to_finalize,
            match replaced {
                Some(before) => {
                    let i = spec_index_of(old(self).droplets@, d.id, 0);
                    &&& spec_contains(old(self).droplets@, d.id)
                    &&& before == old(self).droplets@[i]
                    &&& final(self).droplets@ == old(self).droplets@.update(i, d)
                },
                None => {
                    &&& !spec_contains(old(self).droplets@, d.id)
                    &&& final(self).droplets@ == old(self).droplets@.push(d)
                },
            },
    {
        match position(&self.droplets, d.id) {
            Some(i) => {
                let before = self.droplets[i];
                self.droplets.set(i, d);
                Some(before)
            },
            None => {
                self.droplets.push(d);
                None
            },
        }
    }

    /// Takes the droplet named `id` off the grid and hands it back.
    pub fn remove(&mut self, id: DropletId) -> (r: Result<Droplet, PuddleError>)
        ensures
            final(self).commands_to_finalize == old(self).commands_to_finalize,
            match r {
                Ok(d) => {
                    let i = spec_index_of(old(self).droplets@, id, 0);
                    &&& spec_contains(old(self).droplets@, id)
                    &&& d == old(self).droplets@[i]
                    &&& final(self).droplets@ == old(self).droplets@.remove(i)
                },
                Err(e) => {
                    &&& !spec_contains(old(self).droplets@, id)
                    &&& e == PuddleError::NonExistentDropletId(id.id)
                    &&& final(self).droplets@ == old(self).droplets@
                },
            },
    {
        match position(&self.droplets, id) {
            Some(i) => Ok(self.droplets.remove(i)),
            None => Err(PuddleError::NonExistentDropletId(id.id)),
        }
    }

    /// Whether the snapshot is valid on `grid`.
    pub fn is_valid(&self, grid: &Grid) -> (ok: bool)
        ensures
            ok == self.valid(*grid),
    {
        is_valid(&self.droplets, grid)
    }
}

} // verus!
