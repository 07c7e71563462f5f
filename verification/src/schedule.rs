//! The scheduler: a startup pass, then frame after frame the per-frame
//! systems and the fixed-step groups, with the queued commands carried out
//! at the end of each pass.

use crate::commands::{lemma_apply_all_keeps_gone, Commands};
use crate::systems::{lemma_step_keeps_gone, lines, Stage, System};
use crate::world::{World, WorldModel};
use vstd::prelude::*;

verus! {

/// Where the scheduler stands.
#[derive(Clone, Copy, Debug, PartialEq, Eq, Structural)]
pub enum Phase {
    /// The startup systems have not run yet.
    Startup,
    /// Frames are run.
    Running,
    /// Nothing runs any more.
    Stopped,
}

/// A set of systems that runs once for each `step` nanoseconds gone by,
/// however long the frames are.
#[derive(Debug)]
pub struct FixedGroup {
    step: u64,
    accumulator: u64,
    systems: Vec<System>,
}

/// A fixed-step group as a value of mathematics.
pub struct GroupModel {
    pub step: nat,
    /// The time gone by that no run has used up yet.
    pub accumulator: nat,
    pub systems: Seq<System>,
}

impl GroupModel {
    /// How often the group runs in a frame of `delta` nanoseconds: once for
    /// each whole step in the time gathered.
    pub open spec fn runs(self, delta: nat) -> nat {
        (self.accumulator + delta) / self.step
    }

    /// The group after a frame of `delta` nanoseconds: it keeps the time
    /// that its runs have not used up.
    pub open spec fn carried(self, delta: nat) -> GroupModel {
        GroupModel { accumulator: (self.accumulator + delta) % self.step, ..self }
    }
}

impl View for FixedGroup {
    type V = GroupModel;

    closed spec fn view(&self) -> GroupModel {
        GroupModel {
            step: self.step as nat,
            accumulator: self.accumulator as nat,
            systems: self.systems@,
        }
    }
}

/// The stage after each of `systems` has run once, in order.
pub open spec fn run_list(systems: Seq<System>, stage: Stage, delta: nat) -> Stage
    decreases systems.len(),
{
    if systems.len() == 0 {
        stage
    } else {
        systems.last().step(run_list(systems.drop_last(), stage, delta), delta)
    }
}

/// The stage after `systems` have run in order, `times` times over.
pub open spec fn run_times(systems: Seq<System>, times: nat, stage: Stage, delta: nat) -> Stage
    decreases times,
{
    if times == 0 {
        stage
    } else {
        run_list(systems, run_times(systems, (times - 1) as nat, stage, delta), delta)
    }
}

/// The stage after each of `groups`, in order, has run as often as a frame
/// of `delta` nanoseconds makes it run.
pub open spec fn run_groups(groups: Seq<GroupModel>, stage: Stage, delta: nat) -> Stage
    decreases groups.len(),
{
    if groups.len() == 0 {
        stage
    } else {
        let group = groups.last();
        run_times(
            group.systems,
            group.runs(delta),
            run_groups(groups.drop_last(), stage, delta),
            delta,
        )
    }
}

/// The groups after a frame of `delta` nanoseconds.
pub open spec fn carry_groups(groups: Seq<GroupModel>, delta: nat) -> Seq<GroupModel> {
    Seq::new(groups.len(), |i: int| groups[i].carried(delta))
}

/// The scheduler as a value of mathematics.
pub struct ScheduleModel {
    pub phase: Phase,
    /// The time that the frames run so far have taken, in nanoseconds.
    pub clock: nat,
    pub startup: Seq<System>,
    pub frame: Seq<System>,
    pub groups: Seq<GroupModel>,
}

/// A scheduler, a store and the lines written, taken together.
pub struct Turn {
    pub schedule: ScheduleModel,
    pub world: WorldModel,
    pub out: Seq<Seq<char>>,
}

impl ScheduleModel {
    /// A scheduler with nothing registered, before startup.
    pub open spec fn empty() -> ScheduleModel {
        ScheduleModel {
            phase: Phase::Startup,
            clock: 0,
            startup: Seq::empty(),
            frame: Seq::empty(),
            groups: Seq::empty(),
        }
    }

    /// Every group has a positive step.
    pub open spec fn wf(self) -> bool {
        forall|i: int| 0 <= i < self.groups.len() ==> (#[trigger] self.groups[i]).step > 0
    }

    /// The startup pass: the startup systems run once each, in the order of
    /// registration, and see a frame of no length; then the queued commands
    /// are carried out. The scheduler runs frames from then on, unless a
    /// system ended with a fatal error.
    pub open spec fn start(self, world: WorldModel, out: Seq<Seq<char>>) -> Turn {
        let begin = Stage { world, commands: Seq::empty(), out, halted: false };
        let end = run_list(self.startup, begin, 0);
        Turn {
            schedule: ScheduleModel {
                phase: if end.halted {
                    Phase::Stopped
                } else {
                    Phase::Running
                },
                ..self
            },
            world: end.world.apply_all(end.commands),
            out: end.out,
        }
    }

    /// One frame of `delta` nanoseconds: the clock advances; the per-frame
    /// systems run once each, in the order of registration; each fixed-step
    /// group, in the order of registration, gathers `delta` and runs its
    /// systems once for each whole step gathered; then the queued commands
    /// are carried out. A fatal error stops the scheduler after the frame.
    pub open spec fn frame(self, world: WorldModel, out: Seq<Seq<char>>, delta: nat) -> Turn {
        let begin = Stage { world, commands: Seq::empty(), out, halted: false };
        let middle = run_list(self.frame, begin, delta);
        let end = run_groups(self.groups, middle, delta);
        Turn {
            schedule: ScheduleModel {
                phase: if end.halted {
                    Phase::Stopped
                } else {
                    Phase::Running
                },
                clock: self.clock + delta,
                groups: carry_groups(self.groups, delta),
                ..self
            },
            world: end.world.apply_all(end.commands),
            out: end.out,
        }
    }

    /// One turn of the loop, `delta` nanoseconds after the one before: the
    /// startup pass if it has not been made, then one frame unless the
    /// scheduler has stopped.
    pub open spec fn update(self, world: WorldModel, out: Seq<Seq<char>>, delta: nat) -> Turn {
        let started = if self.phase == Phase::Startup {
            self.start(world, out)
        } else {
            Turn { schedule: self, world, out }
        };
        if started.schedule.phase == Phase::Running {
            started.schedule.frame(started.world, started.out, delta)
        } else {
            started
        }
    }
}

/// Runs the startup systems once, then the per-frame systems and the
/// fixed-step groups frame after frame, until it is stopped.
#[derive(Debug)]
pub struct Scheduler {
    phase: Phase,
    clock: u64,
    startup: Vec<System>,
    frame: Vec<System>,
    groups: Vec<FixedGroup>,
}

impl View for Scheduler {
    type V = ScheduleModel;

    closed spec fn view(&self) -> ScheduleModel {
        ScheduleModel {
            phase: self.phase,
            clock: self.clock as nat,
            startup: self.startup@,
            frame: self.frame@,
            groups: Seq::new(self.groups.len() as nat, |i: int| self.groups[i]@),
        }
    }
}

/// The stage that the four values make.
spec fn stage_of(world: &World, commands: &Commands, out: &Vec<String>, halted: bool)
    -> Stage {
    Stage { world: world@, commands: commands@, out: lines(out@), halted }
}

fn run_systems(
    systems: &Vec<System>,
    delta: u64,
    world: &mut World,
    commands: &mut Commands,
    out: &mut Vec<String>,
    halted: &mut bool,
)
    requires
        old(world).wf(),
    ensures
        final(world).wf(),
        stage_of(final(world), final(commands), final(out), *final(halted)) == run_list(
            systems@,
            stage_of(old(world), old(commands), old(out), *old(halted)),
            delta as nat,
        ),
{
    let ghost begin = stage_of(world, commands, out, *halted);
    let mut i: usize = 0;
    while i < systems.len()
        invariant
            world.wf(),
            i <= systems.len(),
            stage_of(world, commands, out, *halted) == run_list(
                systems@.take(i as int),
                begin,
                delta as nat,
            ),
        decreases systems.len() - i,
    {
        let system = systems[i];
        match system.run(delta, world, commands, out) {
            Ok(_) => {},
            Err(e) => {
                if e.is_fatal() {
                    *halted = true;
                }
            },
        }
        proof {
            let taken = systems@.take(i + 1);
            assert(taken.drop_last() =~= systems@.take(i as int));
        }
        i = i + 1;
    }
    assert(systems@.take(i as int) =~= systems@);
}

impl Scheduler {
    /// What the scheduler keeps true of itself: every group has a positive
    /// step.
    pub closed spec fn wf(&self) -> bool {
        forall|i: int| 0 <= i < self.groups.len() ==> (#[trigger] self.groups[i]).step > 0
    }

    /// A well-formed scheduler has a well-formed model.
    pub proof fn lemma_view_wf(&self)
        requires
            self.wf(),
        ensures
            self@.wf(),
    {
        assert forall|i: int| 0 <= i < self@.groups.len() implies (#[trigger] self@.groups[i]).step
            > 0 by {
            assert(self.groups[i].step > 0);
        }
    }

    /// A scheduler with nothing registered, before startup.
    pub fn new() -> (scheduler: Scheduler)
        ensures
            scheduler.wf(),
            scheduler@ == ScheduleModel::empty(),
    {
        let scheduler = Scheduler {
            phase: Phase::Startup,
            clock: 0,
            startup: Vec::new(),
            frame: Vec::new(),
            groups: Vec::new(),
        };
        assert(scheduler@.groups =~= Seq::empty());
        scheduler
    }

    /// Where the scheduler stands.
    pub fn phase(&self) -> (phase: Phase)
        ensures
            phase == self@.phase,
    {
        self.phase
    }

    /// The time that the frames run so far have taken, in nanoseconds.
    pub fn clock(&self) -> (clock: u64)
        ensures
            clock == self@.clock,
    {
        self.clock
    }

    /// Registers `system` to run once, in the startup pass, after the
    /// startup systems registered before.
    pub fn add_startup_system(&mut self, system: System)
        requires
            old(self).wf(),
        ensures
            final(self).wf(),
            final(self)@ == (ScheduleModel {
                startup: old(self)@.startup.push(system),
                ..old(self)@
            }),
    {
        self.startup.push(system);
    }

    /// Registers `system` to run once in every frame, after the per-frame
    /// systems registered before.
    pub fn add_system(&mut self, system: System)
        requires
            old(self).wf(),
        ensures
            final(self).wf(),
            final(self)@ == (ScheduleModel { frame: old(self)@.frame.push(system), ..old(self)@ }),
    {
        self.frame.push(system);
    }

    /// Registers `systems` to run, in order, once for each `step`
    /// nanoseconds gone by, after the groups registered before.
    pub fn add_fixed_group(&mut self, step: u64, systems: Vec<System>)
        requires
            old(self).wf(),
            step > 0,
        ensures
            final(self).wf(),
            final(self)@ == (ScheduleModel {
                groups: old(self)@.groups.push(
                    GroupModel { step: step as nat, accumulator: 0, systems: systems@ },
                ),
                ..old(self)@
            }),
    {
        self.groups.push(FixedGroup { step, accumulator: 0, systems });
        assert(self@.groups =~= old(self)@.groups.push(
            GroupModel { step: step as nat, accumulator: 0, systems: systems@ },
        ));
    }

    /// Stops the scheduler: no system runs after this.
    pub fn stop(&mut self)
        requires
            old(self).wf(),
        ensures
            final(self).wf(),
            final(self)@ == (ScheduleModel { phase: Phase::Stopped, ..old(self)@ }),
    {
        self.phase = Phase::Stopped;
    }

    /// Makes the startup pass, if it has not been made.
    pub fn start(&mut self, world: &mut World, out: &mut Vec<String>)
        requires
            old(self).wf(),
            old(world).wf(),
        ensures
            final(self).wf(),
            final(world).wf(),
            old(self)@.phase == Phase::Startup ==> (Turn {
                schedule: final(self)@,
                world: final(world)@,
                out: lines(final(out)@),
            }) == old(self)@.start(old(world)@, lines(old(out)@)),
            old(self)@.phase != Phase::Startup ==> final(self)@ == old(self)@ && final(world)@
                == old(world)@ && final(out)@ == old(out)@,
    {
        if self.phase != Phase::Startup {
            return ;
        }
        let mut commands = Commands::new();
        let mut halted = false;
        run_systems(&self.startup, 0, world, &mut commands, out, &mut halted);
        world.flush(&mut commands);
        self.phase = if halted {
            Phase::Stopped
        } else {
            Phase::Running
        };
    }

    /// Runs one frame of `delta` nanoseconds, if the scheduler is running.
    /// The clock counts in 64 bits: the frame must not carry it past the end.
    pub fn run_frame(&mut self, delta: u64, world: &mut World, out: &mut Vec<String>)
        requires
            old(self).wf(),
            old(world).wf(),
            old(self)@.phase == Phase::Running ==> old(self)@.clock + delta <= u64::MAX,
        ensures
            final(self).wf(),
            final(world).wf(),
            old(self)@.phase == Phase::Running ==> (Turn {
                schedule: final(self)@,
                world: final(world)@,
                out: lines(final(out)@),
            }) == old(self)@.frame(old(world)@, lines(old(out)@), delta as nat),
            old(self)@.phase != Phase::Running ==> final(self)@ == old(self)@ && final(world)@
                == old(world)@ && final(out)@ == old(out)@,
    {
        if self.phase != Phase::Running {
            return ;
        }
        let mut commands = Commands::new();
        let mut halted = false;
        self.clock = self.clock + delta;
        run_systems(&self.frame, delta, world, &mut commands, out, &mut halted);
        let ghost middle = stage_of(world, &commands, out, halted);
        let ghost groups = old(self)@.groups;
        let mut g: usize = 0;
        while g < self.groups.len()
            invariant
                world.wf(),
                self.wf(),
                g <= self.groups.len(),
                self.groups.len() == groups.len(),
                self.phase == old(self).phase,
                self.clock == old(self).clock + delta,
                self.startup == old(self).startup,
                self.frame == old(self).frame,
                forall|i: int| 0 <= i < g ==> (#[trigger] self.groups[i])@ == groups[i].carried(delta as nat),
                forall|i: int| g <= i < groups.len() ==> (#[trigger] self.groups[i])@ == groups[i],
                stage_of(world, &commands, out, halted) == run_groups(
                    groups.take(g as int),
                    middle,
                    delta as nat,
                ),
            decreases self.groups.len() - g,
        {
            let ghost group = groups[g as int];
            let ghost before = stage_of(world, &commands, out, halted);
            let step: u128 = self.groups[g].step as u128;
            let gathered: u128 = self.groups[g].accumulator as u128 + delta as u128;
            let runs: u128 = gathered / step;
            let rest: u128 = gathered % step;
            let mut k: u128 = 0;
            while k < runs
                invariant
                    world.wf(),
                    self.wf(),
                    g < self.groups.len(),
                    self.groups[g as int]@ == group,
                    k <= runs,
                    stage_of(world, &commands, out, halted) == run_times(
                        group.systems,
                        k as nat,
                        before,
                        delta as nat,
                    ),
                decreases runs - k,
            {
                run_systems(&self.groups[g].systems, delta, world, &mut commands, out, &mut halted);
                k = k + 1;
            }
            self.groups[g].accumulator = rest as u64;
            proof {
                let taken = groups.take(g + 1);
                assert(taken.drop_last() =~= groups.take(g as int));
            }
            g = g + 1;
        }
        assert(groups.take(g as int) =~= groups);
        world.flush(&mut commands);
        if halted {
            self.phase = Phase::Stopped;
        }
        assert(self@.groups =~= carry_groups(groups, delta as nat));
    }

    /// One turn of the loop, `delta` nanoseconds after the one before: the
    /// startup pass if it has not been made, then one frame unless the
    /// scheduler has stopped. The lines written go to the end of `out`.
    pub fn update(&mut self, delta: u64, world: &mut World, out: &mut Vec<String>)
        requires
            old(self).wf(),
            old(world).wf(),
            old(self)@.phase != Phase::Stopped ==> old(self)@.clock + delta <= u64::MAX,
        ensures
            final(self).wf(),
            final(world).wf(),
            (Turn { schedule: final(self)@, world: final(world)@, out: lines(final(out)@) })
                == old(self)@.update(old(world)@, lines(old(out)@), delta as nat),
    {
        self.start(world, out);
        self.run_frame(delta, world, out);
    }
}

/// No pass over a list of systems gives a despawned entity's identifier
/// to anything.
pub proof fn lemma_run_list_keeps_gone(systems: Seq<System>, stage: Stage, delta: nat)
    ensures
        stage.world.keeps_gone(run_list(systems, stage, delta).world),
    decreases systems.len(),
{
    if systems.len() > 0 {
        lemma_run_list_keeps_gone(systems.drop_last(), stage, delta);
        lemma_step_keeps_gone(systems.last(), run_list(systems.drop_last(), stage, delta), delta);
    }
}

/// No number of passes over a list of systems gives a despawned entity's
/// identifier to anything.
pub proof fn lemma_run_times_keeps_gone(
    systems: Seq<System>,
    times: nat,
    stage: Stage,
    delta: nat,
)
    ensures
        stage.world.keeps_gone(run_times(systems, times, stage, delta).world),
    decreases times,
{
    if times > 0 {
        lemma_run_times_keeps_gone(systems, (times - 1) as nat, stage, delta);
        lemma_run_list_keeps_gone(
            systems,
            run_times(systems, (times - 1) as nat, stage, delta),
            delta,
        );
    }
}

/// No run of the fixed-step groups gives a despawned entity's identifier
/// to anything.
pub proof fn lemma_run_groups_keeps_gone(groups: Seq<GroupModel>, stage: Stage, delta: nat)
    ensures
        stage.world.keeps_gone(run_groups(groups, stage, delta).world),
    decreases groups.len(),
{
    if groups.len() > 0 {
        let group = groups.last();
        lemma_run_groups_keeps_gone(groups.drop_last(), stage, delta);
        lemma_run_times_keeps_gone(
            group.systems,
            group.runs(delta),
            run_groups(groups.drop_last(), stage, delta),
            delta,
        );
    }
}

/// Once an entity is despawned, no turn of the loop gives its identifier
/// to anything: whatever the registered systems do and queue, the
/// identifier names no live entity afterwards.
pub proof fn lemma_update_keeps_gone(
    schedule: ScheduleModel,
    world: WorldModel,
    out: Seq<Seq<char>>,
    delta: nat,
)
    ensures
        world.keeps_gone(schedule.update(world, out, delta).world),
{
    let started = if schedule.phase == Phase::Startup {
        schedule.start(world, out)
    } else {
        Turn { schedule, world, out }
    };
    if schedule.phase == Phase::Startup {
        let begin = Stage { world, commands: Seq::empty(), out, halted: false };
        let end = run_list(schedule.startup, begin, 0);
        lemma_run_list_keeps_gone(schedule.startup, begin, 0);
        lemma_apply_all_keeps_gone(end.world, end.commands);
    }
    if started.schedule.phase == Phase::Running {
        let begin = Stage {
            world: started.world,
            commands: Seq::empty(),
            out: started.out,
            halted: false,
        };
        let middle = run_list(started.schedule.frame, begin, delta);
        let end = run_groups(started.schedule.groups, middle, delta);
        lemma_run_list_keeps_gone(started.schedule.frame, begin, delta);
        lemma_run_groups_keeps_gone(started.schedule.groups, middle, delta);
        lemma_apply_all_keeps_gone(end.world, end.commands);
    }
}

/// The startup pass is made once: after a turn of the loop the scheduler is
/// past startup, and then no later turn runs a startup system. A stopped
/// scheduler stays stopped, and a turn changes nothing then.
pub proof fn lemma_phases(
    schedule: ScheduleModel,
    world: WorldModel,
    out: Seq<Seq<char>>,
    delta: nat,
)
    ensures
        schedule.update(world, out, delta).schedule.phase != Phase::Startup,
        schedule.phase != Phase::Startup ==> schedule.update(world, out, delta) == if schedule.phase
            == Phase::Running {
            schedule.frame(world, out, delta)
        } else {
            Turn { schedule, world, out }
        },
        schedule.phase == Phase::Stopped ==> schedule.update(world, out, delta) == (Turn {
            schedule,
            world,
            out,
        }),
{
}

} // verus!
