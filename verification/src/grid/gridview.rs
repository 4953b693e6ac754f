//! The shared state of a device: its grid, the droplets on it, and the
//! processes at work on it.
//!
//! One command is planned at a time, wholly or not at all.

use super::droplet::{Droplet, DropletId, DropletInfo, ProcessId, MINIMUM_SEPARATION};
use super::location::Location;
use super::snapshot::{copy_droplets, spec_at_rest, spec_contains, spec_index_of, Snapshot};
use super::topology::Grid;
use crate::command::Command;
use crate::plan::apply::{apply, spec_apply};
use crate::plan::preserve::{
    lemma_apply_keeps_rest, lemma_move_to_taken_place_fails, lemma_remove_keeps_rest,
};
use crate::plan::PlanError;
use crate::process::PuddleError;
use vstd::prelude::*;

verus! {

/// A command of `process_id` that could not be planned, and why. It is kept
/// until the process next flushes.
#[derive(PartialEq, Eq, Structural, Clone, Copy, Debug)]
pub struct Failure {
    pub process_id: ProcessId,
    pub error: PlanError,
}

/// The first position from `from` on of a failure of `process`, or the
/// length of `failures`.
pub open spec fn spec_failure_of(failures: Seq<Failure>, process: ProcessId, from: int) -> int
    decreases failures.len() - from,
{
    if 0 <= from < failures.len() && failures[from].process_id != process {
        spec_failure_of(failures, process, from + 1)
    } else {
        from
    }
}

/// The first position from `from` on of `process`, or the length of
/// `processes`.
pub open spec fn spec_process_at(processes: Seq<ProcessId>, process: ProcessId, from: int) -> int
    decreases processes.len() - from,
{
    if 0 <= from < processes.len() && processes[from] != process {
        spec_process_at(processes, process, from + 1)
    } else {
        from
    }
}

/// The first position from `from` on of a name that is not of `process`, or
/// the length of `ids`.
pub open spec fn spec_foreign_at(ids: Seq<DropletId>, process: ProcessId, from: int) -> int
    decreases ids.len() - from,
{
    if 0 <= from < ids.len() && ids[from].process_id == process {
        spec_foreign_at(ids, process, from + 1)
    } else {
        from
    }
}

/// What the droplets of `process` among `s` show, in their order.
pub open spec fn spec_infos(s: Seq<Droplet>, process: ProcessId) -> Seq<DropletInfo>
    decreases s.len(),
{
    if s.len() == 0 {
        seq![]
    } else if s.last().id.process_id == process {
        spec_infos(s.drop_last(), process).push(s.last().spec_info())
    } else {
        spec_infos(s.drop_last(), process)
    }
}

/// The droplets of `s` that are not of `process`, in their order.
pub open spec fn spec_release(s: Seq<Droplet>, process: ProcessId) -> Seq<Droplet>
    decreases s.len(),
{
    if s.len() == 0 {
        seq![]
    } else if s.last().id.process_id == process {
        spec_release(s.drop_last(), process)
    } else {
        spec_release(s.drop_last(), process).push(s.last())
    }
}

/// The state of a device between two commands.
pub struct GridState {
    /// The electrodes.
    pub grid: Grid,
    /// The droplets, in the order in which they came.
    pub droplets: Seq<Droplet>,
    /// The commands planned and not yet finalized, oldest first.
    pub pending: Seq<Command>,
    /// The next collision group that no droplet has had.
    pub next_group: usize,
    /// The processes at work.
    pub processes: Seq<ProcessId>,
    /// The commands that could not be planned and were not yet reported by a
    /// flush, oldest first.
    pub failures: Seq<Failure>,
}

impl GridState {
    /// The droplets are at rest, and the processes at work have different
    /// names.
    pub open spec fn wf(self) -> bool {
        &&& spec_at_rest(self.droplets, self.grid, self.next_group as int)
        &&& forall|i: int, j: int|
            #![trigger self.processes[i], self.processes[j]]
            0 <= i < j < self.processes.len() ==> self.processes[i] != self.processes[j]
    }

    /// The process is at work.
    pub open spec fn active(self, process: ProcessId) -> bool {
        spec_process_at(self.processes, process, 0) < self.processes.len()
    }

    /// The state once `process` is put to work. A name that is at work
    /// already is not put to work a second time.
    pub open spec fn register(self, process: ProcessId) -> GridState {
        if self.active(process) {
            self
        } else {
            GridState { processes: self.processes.push(process), ..self }
        }
    }

    /// The state once `process` has given the command `c`, and what the
    /// process is told. A command of a process that is not at work is
    /// refused. So is a command that uses up a droplet of another process:
    /// to the process that gives it, that droplet does not exist. A command
    /// that cannot be planned changes no droplet; where planning itself
    /// failed, the failure is kept for the next flush.
    pub open spec fn plan(self, process: ProcessId, c: Command) -> (GridState, Result<
        (),
        PuddleError,
    >) {
        let foreign = spec_foreign_at(c.spec_inputs(), process, 0);
        if !self.active(process) {
            (self, Err(PuddleError::NonExistentProcess(process)))
        } else if foreign < c.spec_inputs().len() {
            (self, Err(PuddleError::NonExistentDropletId(c.spec_inputs()[foreign].id)))
        } else {
            match spec_apply(self.droplets, self.grid, self.next_group, c) {
                Ok((droplets, next_group)) => (
                    GridState { droplets, next_group, pending: self.pending.push(c), ..self },
                    Ok(()),
                ),
                Err(e) => (
                    GridState {
                        failures: match e {
                            PuddleError::PlanError(error) => self.failures.push(
                                Failure { process_id: process, error },
                            ),
                            _ => self.failures,
                        },
                        ..self
                    },
                    Err(e),
                ),
            }
        }
    }

    /// The state once `process` has flushed, and what the process is told:
    /// the oldest failure of the process that was not yet reported, or what
    /// its droplets show. Nothing is pending afterwards.
    pub open spec fn flush(self, process: ProcessId) -> (GridState, Result<
        Seq<DropletInfo>,
        PuddleError,
    >) {
        let failed = spec_failure_of(self.failures, process, 0);
        if !self.active(process) {
            (self, Err(PuddleError::NonExistentProcess(process)))
        } else if failed < self.failures.len() {
            (
                GridState { pending: seq![], failures: self.failures.remove(failed), ..self },
                Err(PuddleError::PlanError(self.failures[failed].error)),
            )
        } else {
            (GridState { pending: seq![], ..self }, Ok(spec_infos(self.droplets, process)))
        }
    }

    /// The state once `process` has closed: it is no longer at work, and its
    /// droplets are gone.
    pub open spec fn close(self, process: ProcessId) -> GridState {
        if !self.active(process) {
            self
        } else {
            GridState {
                droplets: spec_release(self.droplets, process),
                processes: self.processes.remove(spec_process_at(self.processes, process, 0)),
                ..self
            }
        }
    }
}

/// Where `spec_process_at` points: at `process`, behind everything that is
/// not `process`.
pub proof fn lemma_process_at(processes: Seq<ProcessId>, process: ProcessId, from: int)
    requires
        0 <= from <= processes.len(),
    ensures
        from <= spec_process_at(processes, process, from) <= processes.len(),
        spec_process_at(processes, process, from) < processes.len() ==> processes[spec_process_at(
            processes,
            process,
            from,
        )] == process,
        forall|k: int|
            from <= k < spec_process_at(processes, process, from) ==> (#[trigger] processes[k])
                != process,
    decreases processes.len() - from,
{
    if from < processes.len() && processes[from] != process {
        lemma_process_at(processes, process, from + 1);
    }
}

/// Taking away a droplet of `process` does not change which droplets are not
/// of `process`.
pub proof fn lemma_release_remove(s: Seq<Droplet>, process: ProcessId, i: int)
    requires
        0 <= i < s.len(),
        s[i].id.process_id == process,
    ensures
        spec_release(s.remove(i), process) == spec_release(s, process),
    decreases s.len(),
{
    let t = s.remove(i);
    if i == s.len() - 1 {
        assert(t =~= s.drop_last());
    } else {
        assert(t.drop_last() =~= s.drop_last().remove(i));
        assert(t.last() == s.last());
        lemma_release_remove(s.drop_last(), process, i);
    }
}

/// Where no droplet is of `process`, all droplets are not of `process`.
pub proof fn lemma_release_none(s: Seq<Droplet>, process: ProcessId)
    requires
        forall|k: int| 0 <= k < s.len() ==> (#[trigger] s[k]).id.process_id != process,
    ensures
        spec_release(s, process) == s,
    decreases s.len(),
{
    if s.len() > 0 {
        let head = s.drop_last();
        assert forall|k: int| 0 <= k < head.len() implies (#[trigger] head[k]).id.process_id
            != process by {
            assert(head[k] == s[k]);
        }
        lemma_release_none(head, process);
        assert(s[s.len() - 1].id.process_id != process);
        assert(head.push(s.last()) =~= s);
    }
}

/// The state of a device: its grid, the droplets on it, the commands planned
/// and not yet finalized, and the processes at work on it.
#[derive(Debug)]
pub struct GridView {
    grid: Grid,
    snapshot: Snapshot,
    next_collision_group: usize,
    processes: Vec<ProcessId>,
    failures: Vec<Failure>,
}

impl View for GridView {
    type V = GridState;

    closed spec fn view(&self) -> GridState {
        GridState {
            grid: self.grid,
            droplets: self.snapshot.droplets@,
            pending: self.snapshot.commands_to_finalize@,
            next_group: self.next_collision_group,
            processes: self.processes@,
            failures: self.failures@,
        }
    }
}

impl GridView {
    /// The state is as it must be between two commands.
    pub open spec fn wf(self) -> bool {
        self@.wf()
    }

    /// A device with the given grid: no droplet, no process.
    pub fn new(grid: Grid) -> (gridview: GridView)
        ensures
            gridview.wf(),
            gridview@ == (GridState {
                grid,
                droplets: seq![],
                pending: seq![],
                next_group: 0,
                processes: seq![],
                failures: seq![],
            }),
    {
        let gridview = GridView {
            grid,
            snapshot: Snapshot::new(),
            next_collision_group: 0,
            processes: Vec::new(),
            failures: Vec::new(),
        };
        assert(gridview@.droplets =~= seq![]);
        assert(gridview@.pending =~= seq![]);
        assert(gridview@.processes =~= seq![]);
        assert(gridview@.failures =~= seq![]);
        gridview
    }

    /// The electrodes.
    pub fn grid(&self) -> (grid: &Grid)
        ensures
            *grid == self@.grid,
    {
        &self.grid
    }

    /// The droplets and the commands not yet finalized.
    pub fn snapshot(&self) -> (snapshot: &Snapshot)
        ensures
            snapshot.droplets@ == self@.droplets,
            snapshot.commands_to_finalize@ == self@.pending,
    {
        &self.snapshot
    }

    /// Whether `process` is at work.
    pub fn is_active(&self, process: ProcessId) -> (active: bool)
        ensures
            active == self@.active(process),
    {
        let mut i: usize = 0;
        while i < self.processes.len()
            invariant
                i <= self.processes@.len(),
                spec_process_at(self.processes@, process, 0) == spec_process_at(
                    self.processes@,
                    process,
                    i as int,
                ),
            decreases self.processes@.len() - i,
        {
            if self.processes[i] == process {
                return true;
            }
            i = i + 1;
        }
        false
    }

    /// Puts `process` to work, and says whether it was not at work before.
    pub fn register(&mut self, process: ProcessId) -> (added: bool)
        requires
            old(self).wf(),
        ensures
            final(self).wf(),
            final(self)@ == old(self)@.register(process),
            added == !old(self)@.active(process),
    {
        if self.is_active(process) {
            return false;
        }
        proof {
            lemma_process_at(self.processes@, process, 0);
        }
        self.processes.push(process);
        proof {
            let before = old(self)@.processes;
            let after = self.processes@;
            assert(before == old(self).processes@);
            assert forall|i: int, j: int|
                #![trigger after[i], after[j]]
                0 <= i < j < after.len() implies after[i] != after[j] by {
                assert(after[i] == before[i]);
                if j < before.len() {
                    assert(before[i] != before[j]);
                }
            }
        }
        true
    }

    /// Plans the command `c` of `process`: wholly, or not at all.
    pub fn plan(&mut self, process: ProcessId, c: Command) -> (r: Result<(), PuddleError>)
        requires
            old(self).wf(),
        ensures
            final(self).wf(),
            (final(self)@, r) == old(self)@.plan(process, c),
    {
        if !self.is_active(process) {
            return Err(PuddleError::NonExistentProcess(process));
        }
        let inputs: Vec<DropletId> = c.inputs();
        let mut k: usize = 0;
        while k < inputs.len() && inputs[k].process_id == process
            invariant
                k <= inputs@.len(),
                spec_foreign_at(inputs@, process, 0) == spec_foreign_at(inputs@, process, k as int),
            decreases inputs@.len() - k,
        {
            k = k + 1;
        }
        if k < inputs.len() {
            return Err(PuddleError::NonExistentDropletId(inputs[k].id));
        }
        let work: Vec<Droplet> = copy_droplets(&self.snapshot.droplets);
        proof {
            lemma_apply_keeps_rest(self@.droplets, self.grid, self.next_collision_group, c);
        }
        match apply(work, &self.grid, self.next_collision_group, &c) {
            Ok((droplets, next_group)) => {
                self.snapshot.droplets = droplets;
                self.next_collision_group = next_group;
                self.snapshot.commands_to_finalize.push(c);
                Ok(())
            },
            Err(e) => {
                match e {
                    PuddleError::PlanError(error) => {
                        self.failures.push(Failure { process_id: process, error });
                    },
                    _ => {},
                }
                Err(e)
            },
        }
    }

    /// Finalizes all that is pending and reports to `process`: the oldest
    /// failure of one of its commands that it has not been told of by a
    /// flush, or else what its droplets show.
    #[verifier::loop_isolation(false)]
    pub fn flush(&mut self, process: ProcessId) -> (r: Result<Vec<DropletInfo>, PuddleError>)
        requires
            old(self).wf(),
        ensures
            final(self).wf(),
            final(self)@ == old(self)@.flush(process).0,
            match r {
                Ok(infos) => old(self)@.flush(process).1 == Ok::<Seq<DropletInfo>, PuddleError>(
                    infos@,
                ),
                Err(e) => old(self)@.flush(process).1 == Err::<Seq<DropletInfo>, PuddleError>(e),
            },
    {
        if !self.is_active(process) {
            return Err(PuddleError::NonExistentProcess(process));
        }
        self.snapshot.commands_to_finalize.clear();
        assert(self.snapshot.commands_to_finalize@ =~= seq![]);
        let mut k: usize = 0;
        while k < self.failures.len() && self.failures[k].process_id != process
            invariant
                k <= self.failures@.len(),
                spec_failure_of(self.failures@, process, 0) == spec_failure_of(
                    self.failures@,
                    process,
                    k as int,
                ),
            decreases self.failures@.len() - k,
        {
            k = k + 1;
        }
        if k < self.failures.len() {
            let failure: Failure = self.failures.remove(k);
            return Err(PuddleError::PlanError(failure.error));
        }
        let mut infos: Vec<DropletInfo> = Vec::new();
        let mut i: usize = 0;
        while i < self.snapshot.droplets.len()
            invariant
                i <= self.snapshot.droplets@.len(),
                infos@ == spec_infos(self.snapshot.droplets@.subrange(0, i as int), process),
            decreases self.snapshot.droplets@.len() - i,
        {
            let d: Droplet = self.snapshot.droplets[i];
            proof {
                let next = self.snapshot.droplets@.subrange(0, i + 1);
                assert(next.drop_last() =~= self.snapshot.droplets@.subrange(0, i as int));
            }
            if d.id.process_id == process {
                infos.push(d.info());
            }
            i = i + 1;
        }
        assert(self.snapshot.droplets@.subrange(0, i as int) =~= self.snapshot.droplets@);
        Ok(infos)
    }

    /// Ends the work of `process` and takes its droplets off the grid.
    pub fn close(&mut self, process: ProcessId)
        requires
            old(self).wf(),
        ensures
            final(self).wf(),
            final(self)@ == old(self)@.close(process),
    {
        let mut p: usize = 0;
        while p < self.processes.len() && self.processes[p] != process
            invariant
                p <= self.processes@.len(),
                spec_process_at(self.processes@, process, 0) == spec_process_at(
                    self.processes@,
                    process,
                    p as int,
                ),
            decreases self.processes@.len() - p,
        {
            p = p + 1;
        }
        if p == self.processes.len() {
            return ;
        }
        self.processes.remove(p);
        proof {
            let before = old(self)@.processes;
            let after = self.processes@;
            assert(before == old(self).processes@);
            assert forall|i: int, j: int|
                #![trigger after[i], after[j]]
                0 <= i < j < after.len() implies after[i] != after[j] by {
                let bi = if i < p { i } else { i + 1 };
                let bj = if j < p { j } else { j + 1 };
                assert(before[bi] != before[bj]);
            }
        }
        let mut i: usize = 0;
        while i < self.snapshot.droplets.len()
            invariant
                i <= self.snapshot.droplets@.len(),
                p < old(self).processes@.len(),
                p == spec_process_at(old(self).processes@, process, 0),
                forall|a: int, b: int|
                    #![trigger self.processes@[a], self.processes@[b]]
                    0 <= a < b < self.processes@.len() ==> self.processes@[a]
                        != self.processes@[b],
                self.grid == old(self).grid,
                self.next_collision_group == old(self).next_collision_group,
                self.failures == old(self).failures,
                self.snapshot.commands_to_finalize == old(self).snapshot.commands_to_finalize,
                self.processes@ == old(self).processes@.remove(p as int),
                spec_at_rest(self.snapshot.droplets@, self.grid, self.next_collision_group as int),
                spec_release(self.snapshot.droplets@, process) == spec_release(
                    old(self).snapshot.droplets@,
                    process,
                ),
                forall|k: int|
                    0 <= k < i ==> (#[trigger] self.snapshot.droplets@[k]).id.process_id
                        != process,
            decreases self.snapshot.droplets@.len() - i,
        {
            if self.snapshot.droplets[i].id.process_id == process {
                proof {
                    lemma_remove_keeps_rest(
                        self.snapshot.droplets@,
                        self.grid,
                        self.next_collision_group as int,
                        i as int,
                    );
                    lemma_release_remove(self.snapshot.droplets@, process, i as int);
                }
                self.snapshot.droplets.remove(i);
            } else {
                i = i + 1;
            }
        }
        proof {
            lemma_release_none(self.snapshot.droplets@, process);
        }
    }
}

/// Between two commands, any two droplets are at least the minimum
/// separation apart: their collision distance is never negative, nor zero.
pub proof fn lemma_droplets_apart(state: GridState, i: int, j: int)
    requires
        state.wf(),
        0 <= i < state.droplets.len(),
        0 <= j < state.droplets.len(),
        i != j,
    ensures
        state.droplets[i].spec_rectangle().spec_collision_distance(
            state.droplets[j].spec_rectangle(),
        ) >= MINIMUM_SEPARATION,
{
    let s = state.droplets;
    if i < j {
        assert(s[i].spec_may_neighbour(s[j]));
        assert(s[i].collision_group != s[j].collision_group);
    } else {
        assert(s[j].spec_may_neighbour(s[i]));
        assert(s[j].collision_group != s[i].collision_group);
        crate::grid::location::lemma_collision_distance_symmetric(
            s[i].spec_rectangle(),
            s[j].spec_rectangle(),
        );
    }
}

/// Whatever command is given: the state stays as it must be, and a command
/// that is refused leaves every droplet as it was.
pub proof fn lemma_plan_keeps_state(state: GridState, process: ProcessId, c: Command)
    requires
        state.wf(),
    ensures
        state.plan(process, c).0.wf(),
        state.plan(process, c).1 is Err ==> state.plan(process, c).0.droplets == state.droplets
            && state.plan(process, c).0.pending == state.pending,
        state.plan(process, c).1 is Ok ==> state.plan(process, c).0.pending == state.pending.push(
            c,
        ),
{
    lemma_apply_keeps_rest(state.droplets, state.grid, state.next_group, c);
}

/// A droplet cannot be moved to a place where it would lie too close to
/// another droplet: the command fails for want of a route, and every droplet
/// is left as it was.
pub proof fn lemma_move_to_taken_place(
    state: GridState,
    process: ProcessId,
    input: DropletId,
    destination: Location,
    output: DropletId,
    other: int,
)
    requires
        state.wf(),
        state.active(process),
        input.process_id == process,
        spec_contains(state.droplets, input),
        output == input || !spec_contains(state.droplets, output),
        0 <= other < state.droplets.len(),
        other != spec_index_of(state.droplets, input, 0),
        !state.droplets[spec_index_of(state.droplets, input, 0)].spec_at(
            destination,
        ).spec_may_neighbour(state.droplets[other]),
    ensures
        state.plan(process, Command::Move { input, destination, output }).1 == Err::<
            (),
            PuddleError,
        >(PuddleError::PlanError(PlanError::Route)),
        state.plan(process, Command::Move { input, destination, output }).0.droplets
            == state.droplets,
        state.plan(process, Command::Move { input, destination, output }).0.pending
            == state.pending,
{
    let inputs = (Command::Move { input, destination, output }).spec_inputs();
    assert(inputs.len() == 1 && inputs[0] == input);
    assert(spec_foreign_at(inputs, process, 1) == 1);
    assert(spec_foreign_at(inputs, process, 0) == 1);
    lemma_move_to_taken_place_fails(
        state.droplets,
        state.grid,
        state.next_group,
        input,
        destination,
        output,
        other,
    );
}

/// The state once `process` has given the commands `cs`, one after the
/// other.
pub open spec fn spec_submit_all(state: GridState, process: ProcessId, cs: Seq<Command>) -> GridState
    decreases cs.len(),
{
    if cs.len() == 0 {
        state
    } else {
        spec_submit_all(state, process, cs.drop_last()).plan(process, cs.last()).0
    }
}

/// Those of the commands `cs` of `process` that are planned, in the order in
/// which they are given.
pub open spec fn spec_planned(state: GridState, process: ProcessId, cs: Seq<Command>) -> Seq<
    Command,
>
    decreases cs.len(),
{
    if cs.len() == 0 {
        seq![]
    } else {
        let before = spec_submit_all(state, process, cs.drop_last());
        let earlier = spec_planned(state, process, cs.drop_last());
        if before.plan(process, cs.last()).1 is Ok {
            earlier.push(cs.last())
        } else {
            earlier
        }
    }
}

/// Whatever commands a process gives: each is planned when it is given, in
/// the order in which they are given, behind what was pending before; and a
/// flush that follows finds the droplets as the last command left them and
/// leaves nothing pending.
pub proof fn lemma_flush_follows_commands(state: GridState, process: ProcessId, cs: Seq<Command>)
    requires
        state.wf(),
        state.active(process),
    ensures
        spec_submit_all(state, process, cs).wf(),
        spec_submit_all(state, process, cs).active(process),
        spec_submit_all(state, process, cs).pending == state.pending + spec_planned(
            state,
            process,
            cs,
        ),
        spec_submit_all(state, process, cs).flush(process).0.pending.len() == 0,
        spec_submit_all(state, process, cs).flush(process).0.droplets == spec_submit_all(
            state,
            process,
            cs,
        ).droplets,
    decreases cs.len(),
{
    if cs.len() == 0 {
        assert(state.pending + Seq::<Command>::empty() =~= state.pending);
    } else {
        lemma_flush_follows_commands(state, process, cs.drop_last());
        let before = spec_submit_all(state, process, cs.drop_last());
        lemma_plan_keeps_state(before, process, cs.last());
        let earlier = spec_planned(state, process, cs.drop_last());
        assert((state.pending + earlier).push(cs.last()) =~= state.pending + earlier.push(
            cs.last(),
        ));
    }
}

} // verus!
