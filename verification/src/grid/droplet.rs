//! Droplets and their names.

use super::location::{lemma_collision_distance_symmetric, Location, Rectangle};
use vstd::prelude::*;

verus! {

/// The name of a process: the number it was given when it was made.
pub type ProcessId = usize;

/// The least collision distance that two droplets of different collision
/// groups may have. With it at one, such droplets never touch.
pub const MINIMUM_SEPARATION: i64 = 1;

/// The name of a droplet: the number that its process gave it, and the name
/// of the process. Processes with different names never hand out the same
/// name, whatever numbers they use.
#[derive(PartialEq, Eq, Structural, PartialOrd, Ord, Hash, Clone, Copy, Debug)]
pub struct DropletId {
    pub id: usize,
    pub process_id: ProcessId,
}

/// What a droplet shows to the outside.
#[derive(PartialEq, Eq, Structural, Clone, Copy, Debug)]
pub struct DropletInfo {
    pub id: DropletId,
    pub location: Location,
    pub dimensions: Location,
}

/// A droplet on the grid.
#[derive(PartialEq, Eq, Clone, Copy, Debug)]
pub struct Droplet {
    pub id: DropletId,
    /// The top left cell of the footprint.
    pub location: Location,
    /// The extents of the footprint.
    pub dimensions: Location,
    /// Where the droplet is to go, while it is on its way.
    pub destination: Option<Location>,
    /// Droplets of one group may touch and overlap.
    pub collision_group: usize,
}

impl Droplet {
    /// The footprint.
    pub open spec fn spec_rectangle(self) -> Rectangle {
        Rectangle { location: self.location, dimensions: self.dimensions }
    }

    /// The two droplets may lie as they do: they are of one collision group,
    /// or far enough apart.
    pub open spec fn spec_may_neighbour(self, other: Droplet) -> bool {
        self.collision_group == other.collision_group
            || self.spec_rectangle().spec_collision_distance(other.spec_rectangle())
            >= MINIMUM_SEPARATION
    }

    /// The droplet has somewhere to go and is not there yet.
    pub open spec fn spec_unresolved(self) -> bool {
        self.destination is Some && self.destination != Some(self.location)
    }

    /// The number of steps between the droplet and where it is to go.
    pub open spec fn spec_remaining(self) -> int {
        match self.destination {
            Some(destination) => self.location.spec_distance_to(destination),
            None => 0,
        }
    }

    /// The same droplet at `location`.
    pub open spec fn spec_at(self, location: Location) -> Droplet {
        Droplet { location, ..self }
    }

    /// The same droplet on its way to `destination`.
    pub open spec fn spec_heading(self, destination: Location) -> Droplet {
        Droplet { destination: Some(destination), ..self }
    }

    /// The same droplet under the name `id`, with nowhere to go.
    pub open spec fn spec_settled_as(self, id: DropletId) -> Droplet {
        Droplet { id, destination: None, ..self }
    }

    /// What the droplet shows to the outside.
    pub open spec fn spec_info(self) -> DropletInfo {
        DropletInfo { id: self.id, location: self.location, dimensions: self.dimensions }
    }

    /// The footprint.
    pub fn rectangle(&self) -> (r: Rectangle)
        ensures
            r == self.spec_rectangle(),
    {
        Rectangle { location: self.location, dimensions: self.dimensions }
    }

    /// Whether the two droplets may lie as they do.
    pub fn may_neighbour(&self, other: &Droplet) -> (ok: bool)
        ensures
            ok == self.spec_may_neighbour(*other),
    {
        if self.collision_group == other.collision_group {
            return true;
        }
        let mine = self.rectangle();
        let theirs = other.rectangle();
        mine.wide_collision_distance(&theirs) >= MINIMUM_SEPARATION
    }

    /// Whether the droplet has somewhere to go and is not there yet.
    pub fn unresolved(&self) -> (waiting: bool)
        ensures
            waiting == self.spec_unresolved(),
    {
        match self.destination {
            Some(destination) => destination != self.location,
            None => false,
        }
    }

    /// What the droplet shows to the outside.
    pub fn info(&self) -> (i: DropletInfo)
        ensures
            i == self.spec_info(),
    {
        DropletInfo { id: self.id, location: self.location, dimensions: self.dimensions }
    }
}

/// Whether two droplets may lie as they do does not depend on which is asked.
pub proof fn lemma_may_neighbour_symmetric(a: Droplet, b: Droplet)
    ensures
        a.spec_may_neighbour(b) == b.spec_may_neighbour(a),
{
    lemma_collision_distance_symmetric(a.spec_rectangle(), b.spec_rectangle());
}

/// A droplet is unresolved exactly where it has steps left to take.
pub proof fn lemma_unresolved_has_steps(d: Droplet)
    ensures
        d.spec_remaining() >= 0,
        d.spec_unresolved() <==> d.spec_remaining() > 0,
{
}

} // verus!
