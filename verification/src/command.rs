//! The commands that a process can give.

use crate::grid::droplet::{DropletId, ProcessId};
use crate::grid::location::Location;
use crate::process::PuddleError;
use vstd::prelude::*;

verus! {

/// One operation on the droplets of a grid.
#[derive(Clone, Debug)]
pub enum Command {
    /// Makes the droplet `output` with the extents `dimensions`: at
    /// `location`, or where the planner first finds room.
    Create { location: Option<Location>, dimensions: Location, output: DropletId },
    /// Makes the droplet `output` from the reservoir `name`, where the planner
    /// first finds room.
    Input { name: String, dimensions: Location, output: DropletId },
    /// Hands the droplet `input` to the reservoir `name`.
    Output { name: String, input: DropletId },
    /// Takes the droplet `input` to `destination`, where it is `output`.
    Move { input: DropletId, destination: Location, output: DropletId },
    /// Takes `second` to the right of `first` and makes the two one droplet,
    /// `output`.
    Combine { first: DropletId, second: DropletId, output: DropletId },
    /// Stirs the droplet `input` in place; it is `output` afterwards.
    Agitate { input: DropletId, output: DropletId },
    /// Makes two droplets of `input`, one to its left and one to its right.
    Split { input: DropletId, first_output: DropletId, second_output: DropletId },
    /// Heats the droplet `input` in place, for `seconds` and `nanoseconds`;
    /// it is `output` afterwards.
    Heat { input: DropletId, output: DropletId, seconds: u64, nanoseconds: u32 },
    /// Waits for what the process `process_id` has asked for so far.
    Flush { process_id: ProcessId },
}

/// The extents of a droplet that was asked for without any: one cell.
pub open spec fn spec_unit() -> Location {
    Location { y: 1, x: 1 }
}

/// Both extents are positive.
pub open spec fn spec_has_area(dimensions: Location) -> bool {
    dimensions.y > 0 && dimensions.x > 0
}

impl Command {
    /// The droplets that the command uses up.
    pub open spec fn spec_inputs(self) -> Seq<DropletId> {
        match self {
            Command::Create { .. } => seq![],
            Command::Input { .. } => seq![],
            Command::Output { input, .. } => seq![input],
            Command::Move { input, .. } => seq![input],
            Command::Combine { first, second, .. } => seq![first, second],
            Command::Agitate { input, .. } => seq![input],
            Command::Split { input, .. } => seq![input],
            Command::Heat { input, .. } => seq![input],
            Command::Flush { .. } => seq![],
        }
    }

    /// The droplets that the command makes.
    pub open spec fn spec_outputs(self) -> Seq<DropletId> {
        match self {
            Command::Create { output, .. } => seq![output],
            Command::Input { output, .. } => seq![output],
            Command::Output { .. } => seq![],
            Command::Move { output, .. } => seq![output],
            Command::Combine { output, .. } => seq![output],
            Command::Agitate { output, .. } => seq![output],
            Command::Split { first_output, second_output, .. } => seq![first_output, second_output],
            Command::Heat { output, .. } => seq![output],
            Command::Flush { .. } => seq![],
        }
    }

    /// A command that makes a droplet of the extents `dimensions`, or of one
    /// cell, at `location` or where there is room. Extents that are not
    /// positive are refused.
    pub fn create(location: Option<Location>, dimensions: Option<Location>, output: DropletId) -> (r:
        Result<Command, PuddleError>)
        ensures
            r == (match dimensions {
                Some(extents) => if spec_has_area(extents) {
                    Ok(Command::Create { location, dimensions: extents, output })
                } else {
                    Err(PuddleError::InvalidDimensions(extents))
                },
                None => Ok(Command::Create { location, dimensions: spec_unit(), output }),
            }),
    {
        match dimensions {
            Some(extents) => {
                if extents.y > 0 && extents.x > 0 {
                    Ok(Command::Create { location, dimensions: extents, output })
                } else {
                    Err(PuddleError::InvalidDimensions(extents))
                }
            },
            None => Ok(Command::Create { location, dimensions: Location { y: 1, x: 1 }, output }),
        }
    }

    /// A command that makes a droplet of the extents `dimensions` from the
    /// reservoir `name`. Extents that are not positive are refused.
    pub fn input(name: String, dimensions: Location, output: DropletId) -> (r: Result<
        Command,
        PuddleError,
    >)
        ensures
            r == (if spec_has_area(dimensions) {
                Ok(Command::Input { name, dimensions, output })
            } else {
                Err(PuddleError::InvalidDimensions(dimensions))
            }),
    {
        if dimensions.y > 0 && dimensions.x > 0 {
            Ok(Command::Input { name, dimensions, output })
        } else {
            Err(PuddleError::InvalidDimensions(dimensions))
        }
    }

    /// A command that hands the droplet `input` to the reservoir `name`.
    pub fn output(name: String, input: DropletId) -> (r: Result<Command, PuddleError>)
        ensures
            r == Ok::<Command, PuddleError>(Command::Output { name, input }),
    {
        Ok(Command::Output { name, input })
    }

    /// A command that takes the droplet `input` to `destination`.
    pub fn relocate(input: DropletId, destination: Location, output: DropletId) -> (r: Result<
        Command,
        PuddleError,
    >)
        ensures
            r == Ok::<Command, PuddleError>(Command::Move { input, destination, output }),
    {
        Ok(Command::Move { input, destination, output })
    }

    /// A command that makes one droplet of `first` and `second`.
    pub fn combine(first: DropletId, second: DropletId, output: DropletId) -> (r: Result<
        Command,
        PuddleError,
    >)
        ensures
            r == Ok::<Command, PuddleError>(Command::Combine { first, second, output }),
    {
        Ok(Command::Combine { first, second, output })
    }

    /// A command that takes `second` into `first`, where `first` lies.
    pub fn combine_into(first: DropletId, second: DropletId, output: DropletId) -> (r: Result<
        Command,
        PuddleError,
    >)
        ensures
            r == Ok::<Command, PuddleError>(Command::Combine { first, second, output }),
    {
        Ok(Command::Combine { first, second, output })
    }

    /// A command that stirs the droplet `input`.
    pub fn agitate(input: DropletId, output: DropletId) -> (r: Result<Command, PuddleError>)
        ensures
            r == Ok::<Command, PuddleError>(Command::Agitate { input, output }),
    {
        Ok(Command::Agitate { input, output })
    }

    /// A command that makes two droplets of `input`.
    pub fn split(input: DropletId, first_output: DropletId, second_output: DropletId) -> (r: Result<
        Command,
        PuddleError,
    >)
        ensures
            r == Ok::<Command, PuddleError>(Command::Split { input, first_output, second_output }),
    {
        Ok(Command::Split { input, first_output, second_output })
    }

    /// A command that heats the droplet `input` for `seconds` and
    /// `nanoseconds`.
    pub fn heat(input: DropletId, output: DropletId, seconds: u64, nanoseconds: u32) -> (r: Result<
        Command,
        PuddleError,
    >)
        ensures
            r == Ok::<Command, PuddleError>(
                Command::Heat { input, output, seconds, nanoseconds },
            ),
    {
        Ok(Command::Heat { input, output, seconds, nanoseconds })
    }

    /// A command that waits for what `process_id` has asked for so far.
    pub fn flush(process_id: ProcessId) -> (c: Command)
        ensures
            c == (Command::Flush { process_id }),
    {
        Command::Flush { process_id }
    }

    /// The droplets that the command uses up.
    pub fn inputs(&self) -> (ids: Vec<DropletId>)
        ensures
            ids@ == self.spec_inputs(),
    {
        let mut ids: Vec<DropletId> = Vec::new();
        match self {
            Command::Create { .. } => {},
            Command::Input { .. } => {},
            Command::Output { input, .. } => {
                ids.push(*input);
            },
            Command::Move { input, .. } => {
                ids.push(*input);
            },
            Command::Combine { first, second, .. } => {
                ids.push(*first);
                ids.push(*second);
            },
            Command::Agitate { input, .. } => {
                ids.push(*input);
            },
            Command::Split { input, .. } => {
                ids.push(*input);
            },
            Command::Heat { input, .. } => {
                ids.push(*input);
            },
            Command::Flush { .. } => {},
        }
        assert(ids@ =~= self.spec_inputs());
        ids
    }

    /// The droplets that the command makes.
    pub fn outputs(&self) -> (ids: Vec<DropletId>)
        ensures
            ids@ == self.spec_outputs(),
    {
        let mut ids: Vec<DropletId> = Vec::new();
        match self {
            Command::Create { output, .. } => {
                ids.push(*output);
            },
            Command::Input { output, .. } => {
                ids.push(*output);
            },
            Command::Output { .. } => {},
            Command::Move { output, .. } => {
                ids.push(*output);
            },
            Command::Combine { output, .. } => {
                ids.push(*output);
            },
            Command::Agitate { output, .. } => {
                ids.push(*output);
            },
            Command::Split { first_output, second_output, .. } => {
                ids.push(*first_output);
                ids.push(*second_output);
            },
            Command::Heat { output, .. } => {
                ids.push(*output);
            },
            Command::Flush { .. } => {},
        }
        assert(ids@ =~= self.spec_outputs());
        ids
    }
}

} // verus!
