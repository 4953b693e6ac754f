//! Planning: how droplets are placed and routed on the grid.

pub mod apply;
pub mod names;
pub mod place;
pub mod preserve;
pub mod route;

use crate::grid::droplet::DropletId;
use vstd::prelude::*;

verus! {

/// Why a command could not be planned.
#[derive(PartialEq, Eq, Structural, Clone, Copy, Debug)]
pub enum PlanError {
    /// A droplet would lie off the grid or too close to another one.
    Placement,
    /// A droplet has somewhere to go, and no droplet can take a step.
    Route,
    /// A command uses this name twice, or gives it to a new droplet while
    /// another droplet bears it.
    DuplicateDroplet(DropletId),
    /// No collision group is left for a new droplet.
    Exhausted,
}

} // verus!
