//! The application: a store and a scheduler under one roof, and the plugin
//! that brings Ferris into it.

use crate::commands::CommandModel;
use crate::component::{ComponentKind, ComponentModel};
use crate::math::lemma_carry;
use crate::resource::{FerrisState, Resource, ResourceKind, ResourceModel};
use crate::schedule::{
    carry_groups, run_groups, run_list, run_times, GroupModel, Phase, ScheduleModel, Scheduler,
};
use crate::systems::{
    add_people_effect, ferris_bundle, lines, name_query, names, people, Stage, System,
};
use crate::timer::{lemma_repeating_wraps, total, TimerView};
use crate::world::{bundle_map, World, WorldModel};
use vstd::arithmetic::div_mod::{lemma_basic_div, lemma_small_mod};
use vstd::prelude::*;

verus! {

/// The time between two tries to spawn Ferris: half a second.
pub const SPAWN_STEP: u64 = 500_000_000;

/// An application as a value of mathematics: its store and its scheduler.
pub struct AppModel {
    pub world: WorldModel,
    pub schedule: ScheduleModel,
}

impl AppModel {
    /// An application that holds nothing and has nothing registered.
    pub open spec fn empty() -> AppModel {
        AppModel { world: WorldModel::empty(), schedule: ScheduleModel::empty() }
    }

    /// The application after one turn of the loop, `delta` nanoseconds
    /// after the one before, and the lines written in that turn.
    pub open spec fn update(self, delta: nat) -> (AppModel, Seq<Seq<char>>) {
        let turn = self.schedule.update(self.world, Seq::empty(), delta);
        (AppModel { world: turn.world, schedule: turn.schedule }, turn.out)
    }

    /// The application after one turn of the loop for each of `deltas`, in
    /// order.
    pub open spec fn after(self, deltas: Seq<nat>) -> AppModel
        decreases deltas.len(),
    {
        if deltas.len() == 0 {
            self
        } else {
            self.after(deltas.drop_last()).update(deltas.last()).0
        }
    }

    /// A running application that holds `world` and whose one system is the
    /// spawn system, in a group of its own with the given step.
    pub open spec fn spawner(world: WorldModel, step: nat, clock: nat, accumulator: nat)
        -> AppModel {
        AppModel {
            world,
            schedule: ScheduleModel {
                phase: Phase::Running,
                clock,
                startup: Seq::empty(),
                frame: Seq::empty(),
                groups: seq![GroupModel { step, accumulator, systems: seq![System::FerrisSpawn] }],
            },
        }
    }

    /// An application before startup that spawns the people in its startup
    /// pass and greets them in every frame in which its timer finishes: a
    /// repeating timer of the given period.
    pub open spec fn greeter(period: nat) -> AppModel {
        AppModel {
            world: WorldModel::empty().set_resource(
                ResourceModel::GreetTimer(TimerView::fresh(period, true)),
            ),
            schedule: ScheduleModel {
                startup: seq![System::AddPeople],
                frame: seq![System::GreetPeople],
                ..ScheduleModel::empty()
            },
        }
    }

    /// The application that `greeter` has become when its clock and its
    /// timer are as given.
    pub open spec fn greeting(timer: TimerView, clock: nat) -> AppModel {
        AppModel {
            world: people_world(timer),
            schedule: ScheduleModel {
                phase: Phase::Running,
                clock,
                startup: seq![System::AddPeople],
                frame: seq![System::GreetPeople],
                groups: Seq::empty(),
            },
        }
    }

    /// The application after `FerrisPlugin` has been added: the record of
    /// whether Ferris has been spawned says no, the movement system runs in
    /// every frame, and every half second the spawn system runs.
    pub open spec fn with_ferris(self) -> AppModel {
        AppModel {
            world: self.world.set_resource(ResourceModel::FerrisState(FerrisState { on: false })),
            schedule: ScheduleModel {
                frame: self.schedule.frame.push(System::Movement),
                groups: self.schedule.groups.push(
                    GroupModel {
                        step: SPAWN_STEP as nat,
                        accumulator: 0,
                        systems: seq![System::FerrisSpawn],
                    },
                ),
                ..self.schedule
            },
        }
    }
}

/// A store and the scheduler that runs systems on it.
pub struct App {
    world: World,
    scheduler: Scheduler,
}

impl View for App {
    type V = AppModel;

    closed spec fn view(&self) -> AppModel {
        AppModel { world: self.world@, schedule: self.scheduler@ }
    }
}

impl App {
    /// What the application keeps true of itself. It holds of every
    /// application that `new` made, after any calls of the functions below.
    pub closed spec fn wf(&self) -> bool {
        self.world.wf() && self.scheduler.wf()
    }

    /// In a well-formed application every component and resource is filed
    /// under its own kind, and every group has a positive step.
    pub proof fn lemma_view_wf(&self)
        requires
            self.wf(),
        ensures
            self@.world.wf(),
            self@.schedule.wf(),
    {
        self.world.lemma_view_wf();
        self.scheduler.lemma_view_wf();
    }

    /// An application that holds nothing and has nothing registered.
    pub fn new() -> (app: App)
        ensures
            app.wf(),
            app@ == AppModel::empty(),
    {
        App { world: World::new(), scheduler: Scheduler::new() }
    }

    /// Inserts `resource` into the store, in place of any resource of the
    /// same kind.
    pub fn insert_resource(&mut self, resource: Resource)
        requires
            old(self).wf(),
        ensures
            final(self).wf(),
            final(self)@ == (AppModel {
                world: old(self)@.world.set_resource(resource@),
                ..old(self)@
            }),
    {
        self.world.insert_resource(resource);
    }

    /// Registers `system` to run once, in the startup pass.
    pub fn add_startup_system(&mut self, system: System)
        requires
            old(self).wf(),
        ensures
            final(self).wf(),
            final(self)@ == (AppModel {
                schedule: ScheduleModel {
                    startup: old(self)@.schedule.startup.push(system),
                    ..old(self)@.schedule
                },
                ..old(self)@
            }),
    {
        self.scheduler.add_startup_system(system);
    }

    /// Registers `system` to run once in every frame.
    pub fn add_system(&mut self, system: System)
        requires
            old(self).wf(),
        ensures
            final(self).wf(),
            final(self)@ == (AppModel {
                schedule: ScheduleModel {
                    frame: old(self)@.schedule.frame.push(system),
                    ..old(self)@.schedule
                },
                ..old(self)@
            }),
    {
        self.scheduler.add_system(system);
    }

    /// Registers `systems` to run, in order, once for each `step`
    /// nanoseconds gone by.
    pub fn add_fixed_group(&mut self, step: u64, systems: Vec<System>)
        requires
            old(self).wf(),
            step > 0,
        ensures
            final(self).wf(),
            final(self)@ == (AppModel {
                schedule: ScheduleModel {
                    groups: old(self)@.schedule.groups.push(
                        GroupModel { step: step as nat, accumulator: 0, systems: systems@ },
                    ),
                    ..old(self)@.schedule
                },
                ..old(self)@
            }),
    {
        self.scheduler.add_fixed_group(step, systems);
    }

    /// Adds what `plugin` brings.
    pub fn add_plugin(&mut self, plugin: &FerrisPlugin)
        requires
            old(self).wf(),
        ensures
            final(self).wf(),
            final(self)@ == old(self)@.with_ferris(),
    {
        plugin.build(self);
    }

    /// The store.
    pub fn world(&self) -> (world: &World)
        requires
            self.wf(),
        ensures
            world.wf(),
            world@ == self@.world,
    {
        &self.world
    }

    /// Where the scheduler stands.
    pub fn phase(&self) -> (phase: Phase)
        ensures
            phase == self@.schedule.phase,
    {
        self.scheduler.phase()
    }

    /// The time that the frames run so far have taken, in nanoseconds.
    pub fn clock(&self) -> (clock: u64)
        ensures
            clock == self@.schedule.clock,
    {
        self.scheduler.clock()
    }

    /// Stops the scheduler: no system runs after this.
    pub fn stop(&mut self)
        requires
            old(self).wf(),
        ensures
            final(self).wf(),
            final(self)@ == (AppModel {
                schedule: ScheduleModel { phase: Phase::Stopped, ..old(self)@.schedule },
                ..old(self)@
            }),
    {
        self.scheduler.stop();
    }

    /// One turn of the loop, `delta` nanoseconds after the one before: the
    /// startup pass if it has not been made, then one frame unless the
    /// scheduler has stopped. Returns the lines written in this turn. The
    /// clock counts in 64 bits: the frame must not carry it past the end.
    pub fn update(&mut self, delta: u64) -> (out: Vec<String>)
        requires
            old(self).wf(),
            old(self)@.schedule.phase != Phase::Stopped ==> old(self)@.schedule.clock + delta
                <= u64::MAX,
        ensures
            final(self).wf(),
            (final(self)@, lines(out@)) == old(self)@.update(delta as nat),
    {
        let mut out: Vec<String> = Vec::new();
        assert(lines(out@) =~= Seq::<Seq<char>>::empty());
        self.scheduler.update(delta, &mut self.world, &mut out);
        out
    }
}

/// Brings Ferris into an application: the record of whether it has been
/// spawned, the system that moves it, and the system that spawns it.
#[derive(Clone, Copy, Debug, Default)]
pub struct FerrisPlugin;

impl FerrisPlugin {
    /// Adds to `app` what the plugin brings.
    pub fn build(&self, app: &mut App)
        requires
            old(app).wf(),
        ensures
            final(app).wf(),
            final(app)@ == old(app)@.with_ferris(),
    {
        app.insert_resource(Resource::FerrisState(FerrisState::default()));
        app.add_system(System::Movement);
        let systems = vec![System::FerrisSpawn];
        assert(systems@ =~= seq![System::FerrisSpawn]);
        app.add_fixed_group(SPAWN_STEP, systems);
    }
}

/// The store after Ferris has been spawned from it.
pub open spec fn with_spawned_ferris(world: WorldModel) -> WorldModel {
    WorldModel {
        entities: world.entities.push(
            Some(
                bundle_map(
                    ferris_bundle(world.resources[ResourceKind::Materials]->Materials_0.ferris),
                ),
            ),
        ),
        resources: world.resources.insert(
            ResourceKind::FerrisState,
            ResourceModel::FerrisState(FerrisState { on: true }),
        ),
    }
}

/// Whether the spawn system finds the materials and a record that says
/// that Ferris has not been spawned.
pub open spec fn awaits_ferris(world: WorldModel) -> bool {
    &&& world.resources.contains_key(ResourceKind::Materials)
    &&& world.resources[ResourceKind::Materials] is Materials
    &&& world.resources.contains_key(ResourceKind::FerrisState)
    &&& world.resources[ResourceKind::FerrisState] == ResourceModel::FerrisState(
        FerrisState { on: false },
    )
}

/// However often the spawn system runs in one frame, it spawns Ferris on
/// its first run and does nothing on the others.
proof fn lemma_spawn_runs(stage: Stage, times: nat, delta: nat)
    requires
        !stage.halted,
        stage.world.resources.contains_key(ResourceKind::Materials),
        stage.world.resources[ResourceKind::Materials] is Materials,
        stage.world.resources.contains_key(ResourceKind::FerrisState),
        stage.world.resources[ResourceKind::FerrisState] is FerrisState,
    ensures
        ({
            let end = run_times(seq![System::FerrisSpawn], times, stage, delta);
            let state = stage.world.resources[ResourceKind::FerrisState]->FerrisState_0;
            let materials = stage.world.resources[ResourceKind::Materials]->Materials_0;
            if state.on || times == 0 {
                end == stage
            } else {
                end == (Stage {
                    world: stage.world.set_resource(
                        ResourceModel::FerrisState(FerrisState { on: true }),
                    ),
                    commands: stage.commands.push(
                        CommandModel::Spawn(ferris_bundle(materials.ferris)),
                    ),
                    ..stage
                })
            }
        }),
    decreases times,
{
    let systems = seq![System::FerrisSpawn];
    if times > 0 {
        lemma_spawn_runs(stage, (times - 1) as nat, delta);
        let before = run_times(systems, (times - 1) as nat, stage, delta);
        assert(systems.drop_last() =~= Seq::<System>::empty());
        assert(systems.last() == System::FerrisSpawn);
        assert(run_list(systems.drop_last(), before, delta) == before);
        assert(run_list(systems, before, delta) == System::FerrisSpawn.step(before, delta));
        assert(run_times(systems, times, stage, delta) == run_list(systems, before, delta));
    }
}

/// Where the one system is the spawn system, in a group with a positive
/// step, and the store holds the materials and a record that says that
/// Ferris has not been spawned: after frames of any lengths Ferris has been
/// spawned exactly if those lengths sum to the step or more, and then the
/// record says so and exactly one entity has been added, which is Ferris.
/// The group keeps the rest of that sum by its step.
pub proof fn lemma_spawn_once(world: WorldModel, step: nat, deltas: Seq<nat>)
    requires
        step > 0,
        awaits_ferris(world),
    ensures
        AppModel::spawner(world, step, 0, 0).after(deltas) == AppModel::spawner(
            if total(deltas) >= step {
                with_spawned_ferris(world)
            } else {
                world
            },
            step,
            total(deltas),
            total(deltas) % step,
        ),
    decreases deltas.len(),
{
    let begin = AppModel::spawner(world, step, 0, 0);
    if deltas.len() == 0 {
        lemma_small_mod(0, step);
        assert(begin.after(deltas) == begin);
        assert(total(deltas) == 0);
    } else {
        let earlier = deltas.drop_last();
        let delta = deltas.last();
        lemma_spawn_once(world, step, earlier);
        let sum = total(earlier);
        assert(total(deltas) == sum + delta);
        let fired = sum >= step;
        let held = if fired {
            with_spawned_ferris(world)
        } else {
            world
        };
        let before = AppModel::spawner(held, step, sum, sum % step);
        assert(begin.after(deltas) == before.update(delta).0);
        let group = before.schedule.groups[0];
        let stage = Stage { world: held, commands: Seq::empty(), out: Seq::empty(), halted: false };
        let times = group.runs(delta);
        lemma_carry(sum as int, delta as int, step as int);
        assert(run_list(before.schedule.frame, stage, delta) == stage);
        assert(before.schedule.groups.drop_last() =~= Seq::<GroupModel>::empty());
        assert(run_groups(before.schedule.groups.drop_last(), stage, delta) == stage);
        assert(before.schedule.groups.last() == group);
        let end = run_groups(before.schedule.groups, stage, delta);
        assert(end == run_times(group.systems, times, stage, delta));
        lemma_spawn_runs(stage, times, delta);
        assert(carry_groups(before.schedule.groups, delta) =~= seq![
            GroupModel {
                step,
                accumulator: ((sum + delta) % step) as nat,
                systems: seq![System::FerrisSpawn],
            },
        ]);
        if !fired {
            lemma_small_mod(sum, step);
            if sum + delta < step {
                lemma_basic_div((sum + delta) as int, step as int);
                assert(times == 0);
                assert(end.commands.len() == 0);
                assert(end.world.apply_all(end.commands) == held);
            } else {
                assert(times >= 1) by {
                    if times == 0 {
                        vstd::arithmetic::div_mod::lemma_fundamental_div_mod(
                            (sum + delta) as int,
                            step as int,
                        );
                        vstd::arithmetic::div_mod::lemma_mod_bound(
                            (sum + delta) as int,
                            step as int,
                        );
                    }
                }
                let spawn = CommandModel::Spawn(
                    ferris_bundle(world.resources[ResourceKind::Materials]->Materials_0.ferris),
                );
                assert(end.commands =~= seq![spawn]);
                assert(end.commands.drop_last() =~= Seq::<CommandModel>::empty());
                assert(end.world.apply_all(end.commands.drop_last()) == end.world);
                assert(end.world.apply_all(end.commands) == end.world.apply(spawn));
                assert(end.world.apply_all(end.commands) == with_spawned_ferris(world));
            }
        } else {
            assert(end == stage);
            assert(end.world.apply_all(end.commands) == held);
        }
    }
}

/// The store that holds the three people, in the order of spawning, and the
/// greeting timer.
pub open spec fn people_world(timer: TimerView) -> WorldModel {
    WorldModel {
        entities: Seq::new(
            3,
            |i: int| Some(map![ComponentKind::Name => ComponentModel::Name(people()[i])]),
        ),
        resources: map![ResourceKind::GreetTimer => ResourceModel::GreetTimer(timer)],
    }
}

/// The names that the store with the three people carries are theirs, in
/// the order of spawning.
proof fn lemma_people_names(timer: TimerView)
    ensures
        names(people_world(timer)) == people(),
{
    let world = people_world(timer);
    let shape = name_query();
    assert forall|id: nat| id < 3 implies world.matches(shape, id) by {
        assert(world.components(id).contains_key(ComponentKind::Name));
    }
    assert(world.matching_below(shape, 0) =~= Seq::<nat>::empty());
    assert(world.matching_below(shape, 1) =~= seq![0nat]);
    assert(world.matching_below(shape, 2) =~= seq![0nat, 1nat]);
    assert(world.matching_below(shape, 3) =~= seq![0nat, 1nat, 2nat]);
    assert(names(world) =~= people());
}

/// The startup pass of `greeter` leaves the store with the three people.
proof fn lemma_people_spawned(timer: TimerView)
    ensures
        WorldModel::empty().set_resource(ResourceModel::GreetTimer(timer)).apply_all(
            add_people_effect(Seq::empty()),
        ) == people_world(timer),
{
    let begin = WorldModel::empty().set_resource(ResourceModel::GreetTimer(timer));
    let commands = add_people_effect(Seq::empty());
    let one = commands.drop_last().drop_last();
    let two = commands.drop_last();
    assert(one.drop_last() =~= Seq::<CommandModel>::empty());
    assert(begin.apply_all(one.drop_last()) == begin);
    assert forall|i: int| 0 <= i < 3 implies bundle_map(
        seq![ComponentModel::Name(people()[i])],
    ) == map![ComponentKind::Name => ComponentModel::Name(people()[i])] by {
        let bundle = seq![ComponentModel::Name(people()[i])];
        assert(bundle.drop_last() =~= Seq::<ComponentModel>::empty());
        assert(bundle_map(bundle.drop_last()) =~= Map::<ComponentKind, ComponentModel>::empty());
        assert(bundle_map(bundle) =~= map![ComponentKind::Name => bundle[0]]);
    }
    let first = begin.apply_all(one);
    assert(first == begin.apply(one.last()));
    let second = begin.apply_all(two);
    assert(second == first.apply(two.last()));
    let third = begin.apply_all(commands);
    assert(third == second.apply(commands.last()));
    assert(third.entities =~= people_world(timer).entities);
    assert(third.resources =~= people_world(timer).resources);
}

/// One frame of the running greeter ticks the timer, and writes the three
/// names if the timer finishes on this tick and nothing if not.
proof fn lemma_greeting_frame(timer: TimerView, clock: nat, delta: nat)
    ensures
        AppModel::greeting(timer, clock).update(delta) == (
            AppModel::greeting(timer.tick(delta), clock + delta),
            if timer.tick(delta).just_finished {
                people()
            } else {
                Seq::<Seq<char>>::empty()
            },
        ),
{
    let app = AppModel::greeting(timer, clock);
    let begin = Stage {
        world: app.world,
        commands: Seq::empty(),
        out: Seq::empty(),
        halted: false,
    };
    let frame = app.schedule.frame;
    assert(frame.drop_last() =~= Seq::<System>::empty());
    assert(run_list(frame.drop_last(), begin, delta) == begin);
    let middle = run_list(frame, begin, delta);
    assert(middle == System::GreetPeople.step(begin, delta));
    assert(run_groups(app.schedule.groups, middle, delta) == middle);
    lemma_people_names(timer);
    assert(middle.world.resources =~= people_world(timer.tick(delta)).resources);
    assert(middle.world == people_world(timer.tick(delta)));
    assert(middle.commands.len() == 0);
    assert(middle.world.apply_all(middle.commands) == middle.world);
    assert(carry_groups(app.schedule.groups, delta) =~= Seq::<GroupModel>::empty());
    assert(Seq::<Seq<char>>::empty() + people() =~= people());
}

/// The first turn of the greeter makes the startup pass, which spawns the
/// three people, and then runs its first frame.
proof fn lemma_greeter_starts(period: nat, delta: nat)
    ensures
        AppModel::greeter(period).update(delta) == AppModel::greeting(
            TimerView::fresh(period, true),
            0,
        ).update(delta),
{
    let app = AppModel::greeter(period);
    let timer = TimerView::fresh(period, true);
    let begin = Stage {
        world: app.world,
        commands: Seq::empty(),
        out: Seq::empty(),
        halted: false,
    };
    let startup = app.schedule.startup;
    assert(startup.drop_last() =~= Seq::<System>::empty());
    assert(run_list(startup.drop_last(), begin, 0) == begin);
    let end = run_list(startup, begin, 0);
    assert(end == System::AddPeople.step(begin, 0));
    lemma_people_spawned(timer);
    let started = app.schedule.start(app.world, Seq::empty());
    assert(started.world == people_world(timer));
    assert(started.schedule == AppModel::greeting(timer, 0).schedule);
}

/// The greeter, which spawns three people at startup and has a repeating
/// timer with a positive period, writes in each turn either nothing or the
/// three names once each, in the order of spawning: the names in exactly
/// the turns in which the time gone by passes a multiple of the period.
pub proof fn lemma_greets_every_period(period: nat, deltas: Seq<nat>)
    requires
        period > 0,
        deltas.len() > 0,
    ensures
        AppModel::greeter(period).after(deltas) == AppModel::greeting(
            TimerView::fresh(period, true).run(deltas),
            total(deltas),
        ),
        AppModel::greeter(period).after(deltas.drop_last()).update(deltas.last()).1 == if total(
            deltas.drop_last(),
        ) / period < total(deltas) / period {
            people()
        } else {
            Seq::<Seq<char>>::empty()
        },
    decreases deltas.len(),
{
    let app = AppModel::greeter(period);
    let fresh = TimerView::fresh(period, true);
    let earlier = deltas.drop_last();
    let delta = deltas.last();
    lemma_repeating_wraps(period, deltas);
    assert(fresh.run(deltas) == fresh.run(earlier).tick(delta));
    assert(total(deltas) == total(earlier) + delta);
    assert(app.after(deltas) == app.after(earlier).update(delta).0);
    if earlier.len() == 0 {
        assert(app.after(earlier) == app);
        assert(fresh.run(earlier) == fresh);
        assert(total(earlier) == 0);
        lemma_greeter_starts(period, delta);
        lemma_greeting_frame(fresh, 0, delta);
    } else {
        lemma_greets_every_period(period, earlier);
        lemma_greeting_frame(fresh.run(earlier), total(earlier), delta);
    }
}

} // verus!
