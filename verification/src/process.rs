//! Processes: the clients of a grid.
//!
//! Processes are named by counting, from one source of names for the whole
//! program, whatever grid a process works on. A process names its droplets
//! by counting too, and puts its own name into each droplet's name. So two
//! processes that were named by the one source never hand out the same name,
//! and need not know of each other.

use crate::command::Command;
use crate::grid::droplet::{DropletId, DropletInfo};
pub use crate::grid::droplet::ProcessId;
use crate::grid::gridview::{GridState, GridView};
use crate::grid::location::Location;
use crate::plan::PlanError;
use vstd::prelude::*;

verus! {

/// What a process can be told instead of a result.
#[derive(PartialEq, Eq, Structural, Clone, Copy, Debug)]
pub enum PuddleError {
    /// The command could not be planned.
    PlanError(PlanError),
    /// No droplet on the grid has this number among those of its process.
    NonExistentDropletId(usize),
    /// No process with this name is at work on the grid.
    NonExistentProcess(ProcessId),
    /// A droplet cannot have these extents: one of them is not positive.
    InvalidDimensions(Location),
}

pub type PuddleResult<T> = Result<T, PuddleError>;

/// What the process is told of a command that makes the droplet `output`.
pub open spec fn spec_made(planned: Result<(), PuddleError>, output: DropletId) -> Result<
    DropletId,
    PuddleError,
> {
    match planned {
        Ok(_) => Ok(output),
        Err(e) => Err(e),
    }
}

/// The source of the names of processes. A program has one, and makes all
/// its processes with it.
#[derive(Debug)]
pub struct ProcessIds {
    next: ProcessId,
}

impl ProcessIds {
    /// The name that the next process gets.
    pub closed spec fn spec_next(self) -> ProcessId {
        self.next
    }

    /// The source has given the name `id` to a process.
    pub open spec fn spec_given(self, id: ProcessId) -> bool {
        id < self.spec_next()
    }

    /// A source that has given no name yet.
    pub fn new() -> (ids: ProcessIds)
        ensures
            ids.spec_next() == 0,
    {
        ProcessIds { next: 0 }
    }

    /// Whether a name is left for one more process.
    pub fn has_room(&self) -> (room: bool)
        ensures
            room == (self.spec_next() < usize::MAX),
    {
        self.next < usize::MAX
    }

    /// The name for a new process: one that the source has not given yet.
    pub fn fresh(&mut self) -> (id: ProcessId)
        requires
            old(self).spec_next() < usize::MAX,
        ensures
            id == old(self).spec_next(),
            final(self).spec_next() == old(self).spec_next() + 1,
    {
        let id: ProcessId = self.next;
        self.next = id + 1;
        id
    }
}

/// One client of a grid.
#[derive(Debug)]
pub struct Process {
    id: ProcessId,
    name: String,
    next_droplet_id: usize,
}

impl Process {
    /// The name of the process.
    pub closed spec fn spec_id(self) -> ProcessId {
        self.id
    }

    /// The number of the next droplet that the process names.
    pub closed spec fn spec_next_droplet_id(self) -> usize {
        self.next_droplet_id
    }

    /// What the process was called when it was made.
    pub closed spec fn spec_name(self) -> String {
        self.name
    }

    /// The name that the process gives to the droplet it names after
    /// `offset` others.
    pub open spec fn spec_droplet_id(self, offset: int) -> DropletId {
        DropletId {
            id: (self.spec_next_droplet_id() + offset) as usize,
            process_id: self.spec_id(),
        }
    }

    /// The process has named `count` more droplets than `before` and is
    /// otherwise the same.
    pub open spec fn spec_named_since(self, before: Process, count: int) -> bool {
        &&& self.spec_id() == before.spec_id()
        &&& self.spec_name() == before.spec_name()
        &&& self.spec_next_droplet_id() == before.spec_next_droplet_id() + count
    }

    /// A new process at work on `gridview`, named by `ids`. Its name does not
    /// depend on the grid: it is the next name of the source, which has not
    /// given it to any process before and gives it to none after.
    pub fn new(name: String, ids: &mut ProcessIds, gridview: &mut GridView) -> (process: Process)
        requires
            old(gridview).wf(),
            old(ids).spec_next() < usize::MAX,
        ensures
            final(gridview).wf(),
            process.spec_id() == old(ids).spec_next(),
            final(ids).spec_next() == old(ids).spec_next() + 1,
            final(gridview)@ == old(gridview)@.register(process.spec_id()),
            process.spec_next_droplet_id() == 0,
            process.spec_name() == name,
    {
        let id: ProcessId = ids.fresh();
        gridview.register(id);
        Process { id, name, next_droplet_id: 0 }
    }

    /// The name of the process.
    pub fn id(&self) -> (id: ProcessId)
        ensures
            id == self.spec_id(),
    {
        self.id
    }

    /// What the process was called when it was made.
    pub fn name(&self) -> (name: &String)
        ensures
            *name == self.spec_name(),
    {
        &self.name
    }

    /// Whether the process can name `count` more droplets.
    pub fn can_name(&self, count: usize) -> (enough: bool)
        ensures
            enough == (self.spec_next_droplet_id() + count <= usize::MAX),
    {
        count <= usize::MAX - self.next_droplet_id
    }

    /// A name for a new droplet.
    pub fn new_droplet_id(&mut self) -> (id: DropletId)
        requires
            old(self).spec_next_droplet_id() < usize::MAX,
        ensures
            id == old(self).spec_droplet_id(0),
            final(self).spec_named_since(*old(self), 1),
    {
        let id = DropletId { id: self.next_droplet_id, process_id: self.id };
        self.next_droplet_id = self.next_droplet_id + 1;
        id
    }

    /// Gives the command `c` to be planned.
    pub fn plan(&self, gridview: &mut GridView, c: Command) -> (r: PuddleResult<()>)
        requires
            old(gridview).wf(),
        ensures
            final(gridview).wf(),
            (final(gridview)@, r) == old(gridview)@.plan(self.spec_id(), c),
    {
        gridview.plan(self.id, c)
    }

    /// Waits for all that was asked for, and hands back what the droplets of
    /// the process show, or the oldest failure not yet reported.
    pub fn flush(&self, gridview: &mut GridView) -> (r: PuddleResult<Vec<DropletInfo>>)
        requires
            old(gridview).wf(),
        ensures
            final(gridview).wf(),
            ({
                let c = Command::Flush { process_id: self.spec_id() };
                let (planned, told) = old(gridview)@.plan(self.spec_id(), c);
                match told {
                    Err(e) => final(gridview)@ == planned && r == Err::<
                        Vec<DropletInfo>,
                        PuddleError,
                    >(e),
                    Ok(_) => {
                        &&& final(gridview)@ == planned.flush(self.spec_id()).0
                        &&& match r {
                            Ok(infos) => planned.flush(self.spec_id()).1 == Ok::<
                                Seq<DropletInfo>,
                                PuddleError,
                            >(infos@),
                            Err(e) => planned.flush(self.spec_id()).1 == Err::<
                                Seq<DropletInfo>,
                                PuddleError,
                            >(e),
                        }
                    },
                }
            }),
    {
        let flush_cmd = Command::flush(self.id);
        match self.plan(gridview, flush_cmd) {
            Ok(_) => gridview.flush(self.id),
            Err(e) => Err(e),
        }
    }

    /// Makes a droplet of the extents `dim`, or of one cell, at `loc` or
    /// where there is room.
    pub fn create(
        &mut self,
        gridview: &mut GridView,
        loc: Option<Location>,
        dim: Option<Location>,
    ) -> (r: PuddleResult<DropletId>)
        requires
            old(gridview).wf(),
            old(self).spec_next_droplet_id() < usize::MAX,
        ensures
            final(gridview).wf(),
            final(self).spec_named_since(*old(self), 1),
            ({
                let output = old(self).spec_droplet_id(0);
                match dim {
                    Some(extents) if !crate::command::spec_has_area(extents) => {
                        &&& r == Err::<DropletId, PuddleError>(
                            PuddleError::InvalidDimensions(extents),
                        )
                        &&& final(gridview)@ == old(gridview)@
                    },
                    _ => {
                        let dimensions = match dim {
                            Some(extents) => extents,
                            None => crate::command::spec_unit(),
                        };
                        let c = Command::Create { location: loc, dimensions, output };
                        let (planned, told) = old(gridview)@.plan(old(self).spec_id(), c);
                        final(gridview)@ == planned && r == spec_made(told, output)
                    },
                }
            }),
    {
        let output = self.new_droplet_id();
        match Command::create(loc, dim, output) {
            Ok(create_cmd) => match self.plan(gridview, create_cmd) {
                Ok(_) => Ok(output),
                Err(e) => Err(e),
            },
            Err(e) => Err(e),
        }
    }

    /// Makes a droplet of the extents `dim` from the reservoir `name`.
    pub fn input(&mut self, gridview: &mut GridView, name: String, dim: Location) -> (r:
        PuddleResult<DropletId>)
        requires
            old(gridview).wf(),
            old(self).spec_next_droplet_id() < usize::MAX,
        ensures
            final(gridview).wf(),
            final(self).spec_named_since(*old(self), 1),
            ({
                let output = old(self).spec_droplet_id(0);
                if !crate::command::spec_has_area(dim) {
                    &&& r == Err::<DropletId, PuddleError>(PuddleError::InvalidDimensions(dim))
                    &&& final(gridview)@ == old(gridview)@
                } else {
                    let c = Command::Input { name, dimensions: dim, output };
                    let (planned, told) = old(gridview)@.plan(old(self).spec_id(), c);
                    final(gridview)@ == planned && r == spec_made(told, output)
                }
            }),
    {
        let output = self.new_droplet_id();
        match Command::input(name, dim, output) {
            Ok(input_cmd) => match self.plan(gridview, input_cmd) {
                Ok(_) => Ok(output),
                Err(e) => Err(e),
            },
            Err(e) => Err(e),
        }
    }

    /// Hands the droplet `d` to the reservoir `name`.
    pub fn output(&mut self, gridview: &mut GridView, name: String, d: DropletId) -> (r:
        PuddleResult<()>)
        requires
            old(gridview).wf(),
        ensures
            final(gridview).wf(),
            final(self).spec_named_since(*old(self), 0),
            (final(gridview)@, r) == old(gridview)@.plan(
                old(self).spec_id(),
                Command::Output { name, input: d },
            ),
    {
        match Command::output(name, d) {
            Ok(output_cmd) => self.plan(gridview, output_cmd),
            Err(e) => Err(e),
        }
    }

    /// Takes the droplet `d1` to `loc` and hands back its new name.
    pub fn move_droplet(&mut self, gridview: &mut GridView, d1: DropletId, loc: Location) -> (r:
        PuddleResult<DropletId>)
        requires
            old(gridview).wf(),
            old(self).spec_next_droplet_id() < usize::MAX,
        ensures
            final(gridview).wf(),
            final(self).spec_named_since(*old(self), 1),
            ({
                let output = old(self).spec_droplet_id(0);
                let c = Command::Move { input: d1, destination: loc, output };
                let (planned, told) = old(gridview)@.plan(old(self).spec_id(), c);
                final(gridview)@ == planned && r == spec_made(told, output)
            }),
    {
        let output = self.new_droplet_id();
        match Command::relocate(d1, loc, output) {
            Ok(move_cmd) => match self.plan(gridview, move_cmd) {
                Ok(_) => Ok(output),
                Err(e) => Err(e),
            },
            Err(e) => Err(e),
        }
    }

    /// Makes one droplet of `d1` and `d2`, stirs it, and hands back the name
    /// of the stirred droplet. Where the two cannot be made one, nothing is
    /// stirred and only one name is used up.
    pub fn mix(&mut self, gridview: &mut GridView, d1: DropletId, d2: DropletId) -> (r:
        PuddleResult<DropletId>)
        requires
            old(gridview).wf(),
            old(self).spec_next_droplet_id() < usize::MAX - 1,
        ensures
            final(gridview).wf(),
            ({
                let combine_out = old(self).spec_droplet_id(0);
                let agitate_out = old(self).spec_droplet_id(1);
                let combine = Command::Combine { first: d1, second: d2, output: combine_out };
                let agitate = Command::Agitate { input: combine_out, output: agitate_out };
                let (combined, told) = old(gridview)@.plan(old(self).spec_id(), combine);
                match told {
                    Err(e) => {
                        &&& final(gridview)@ == combined
                        &&& r == Err::<DropletId, PuddleError>(e)
                        &&& final(self).spec_named_since(*old(self), 1)
                    },
                    Ok(_) => {
                        let (agitated, told) = combined.plan(old(self).spec_id(), agitate);
                        &&& final(gridview)@ == agitated
                        &&& r == spec_made(told, agitate_out)
                        &&& final(self).spec_named_since(*old(self), 2)
                    },
                }
            }),
    {
        let combine_out = self.new_droplet_id();
        match Command::combine(d1, d2, combine_out) {
            Ok(combine_cmd) => match self.plan(gridview, combine_cmd) {
                Ok(_) => {},
                Err(e) => {
                    return Err(e);
                },
            },
            Err(e) => {
                return Err(e);
            },
        }
        let agitate_out = self.new_droplet_id();
        match Command::agitate(combine_out, agitate_out) {
            Ok(agitate_cmd) => match self.plan(gridview, agitate_cmd) {
                Ok(_) => Ok(agitate_out),
                Err(e) => Err(e),
            },
            Err(e) => Err(e),
        }
    }

    /// Takes `d2` into `d1` and hands back the name of the droplet that the
    /// two make.
    pub fn combine_into(&mut self, gridview: &mut GridView, d1: DropletId, d2: DropletId) -> (r:
        PuddleResult<DropletId>)
        requires
            old(gridview).wf(),
            old(self).spec_next_droplet_id() < usize::MAX,
        ensures
            final(gridview).wf(),
            final(self).spec_named_since(*old(self), 1),
            ({
                let output = old(self).spec_droplet_id(0);
                let c = Command::Combine { first: d1, second: d2, output };
                let (planned, told) = old(gridview)@.plan(old(self).spec_id(), c);
                final(gridview)@ == planned && r == spec_made(told, output)
            }),
    {
        let output = self.new_droplet_id();
        match Command::combine_into(d1, d2, output) {
            Ok(combine_cmd) => match self.plan(gridview, combine_cmd) {
                Ok(_) => Ok(output),
                Err(e) => Err(e),
            },
            Err(e) => Err(e),
        }
    }

    /// Makes two droplets of `d` and hands back their names.
    pub fn split(&mut self, gridview: &mut GridView, d: DropletId) -> (r: PuddleResult<
        (DropletId, DropletId),
    >)
        requires
            old(gridview).wf(),
            old(self).spec_next_droplet_id() < usize::MAX - 1,
        ensures
            final(gridview).wf(),
            final(self).spec_named_since(*old(self), 2),
            ({
                let out1 = old(self).spec_droplet_id(0);
                let out2 = old(self).spec_droplet_id(1);
                let c = Command::Split { input: d, first_output: out1, second_output: out2 };
                let (planned, told) = old(gridview)@.plan(old(self).spec_id(), c);
                &&& final(gridview)@ == planned
                &&& r == (match told {
                    Ok(_) => Ok((out1, out2)),
                    Err(e) => Err(e),
                })
            }),
    {
        let out1 = self.new_droplet_id();
        let out2 = self.new_droplet_id();
        match Command::split(d, out1, out2) {
            Ok(split_cmd) => match self.plan(gridview, split_cmd) {
                Ok(_) => Ok((out1, out2)),
                Err(e) => Err(e),
            },
            Err(e) => Err(e),
        }
    }

    /// Heats the droplet `d` for `seconds` and `nanoseconds`, and hands back
    /// its new name.
    pub fn heat(
        &mut self,
        gridview: &mut GridView,
        d: DropletId,
        seconds: u64,
        nanoseconds: u32,
    ) -> (r: PuddleResult<DropletId>)
        requires
            old(gridview).wf(),
            old(self).spec_next_droplet_id() < usize::MAX,
        ensures
            final(gridview).wf(),
            final(self).spec_named_since(*old(self), 1),
            ({
                let output = old(self).spec_droplet_id(0);
                let c = Command::Heat { input: d, output, seconds, nanoseconds };
                let (planned, told) = old(gridview)@.plan(old(self).spec_id(), c);
                final(gridview)@ == planned && r == spec_made(told, output)
            }),
    {
        let out = self.new_droplet_id();
        match Command::heat(d, out, seconds, nanoseconds) {
            Ok(heat_cmd) => match self.plan(gridview, heat_cmd) {
                Ok(_) => Ok(out),
                Err(e) => Err(e),
            },
            Err(e) => Err(e),
        }
    }

    /// Ends the work of the process: its droplets leave the grid.
    pub fn close(&mut self, gridview: &mut GridView)
        requires
            old(gridview).wf(),
        ensures
            final(gridview).wf(),
            final(self).spec_named_since(*old(self), 0),
            final(gridview)@ == old(gridview)@.close(old(self).spec_id()),
    {
        gridview.close(self.id);
    }
}

/// Two processes with different names never give the same name to a droplet,
/// however many droplets each has named.
pub proof fn lemma_droplet_names_differ(p: Process, q: Process, a: int, b: int)
    requires
        p.spec_id() != q.spec_id(),
    ensures
        p.spec_droplet_id(a) != q.spec_droplet_id(b),
{
}

/// A process never gives the same name to two droplets.
pub proof fn lemma_droplet_names_fresh(p: Process, a: int, b: int)
    requires
        0 <= a < b,
        p.spec_next_droplet_id() + b <= usize::MAX,
    ensures
        p.spec_droplet_id(a) != p.spec_droplet_id(b),
{
}

/// The name that a source gives next is the name of no process that the
/// source has named before, and every name it has given stays given: so no
/// two processes of one source bear the same name, on whatever grids they
/// work.
pub proof fn lemma_process_names_differ(before: ProcessIds, after: ProcessIds, earlier: ProcessId)
    requires
        before.spec_given(earlier),
        before.spec_next() <= after.spec_next(),
    ensures
        after.spec_given(earlier),
        earlier != after.spec_next(),
{
}

/// Two processes that one source has named, one after the other, never give
/// the same name to a droplet, whatever grids they work on.
pub proof fn lemma_droplet_names_of_one_source(
    p: Process,
    q: Process,
    before: ProcessIds,
    after: ProcessIds,
    a: int,
    b: int,
)
    requires
        p.spec_id() == before.spec_next(),
        before.spec_next() < after.spec_next(),
        q.spec_id() == after.spec_next(),
    ensures
        p.spec_id() != q.spec_id(),
        p.spec_droplet_id(a) != q.spec_droplet_id(b),
{
}

/// Where every process at work on a grid was named by the source, the name
/// that the source gives next is not at work on the grid.
pub proof fn lemma_new_name_not_at_work(state: GridState, ids: ProcessIds)
    requires
        forall|i: int|
            0 <= i < state.processes.len() ==> ids.spec_given(#[trigger] state.processes[i]),
    ensures
        !state.active(ids.spec_next()),
{
    crate::grid::gridview::lemma_process_at(state.processes, ids.spec_next(), 0);
    let at = crate::grid::gridview::spec_process_at(state.processes, ids.spec_next(), 0);
    if at < state.processes.len() {
        assert(ids.spec_given(state.processes[at]));
    }
}

} // verus!
