//! The systems that can be scheduled, each with what it does to the store,
//! to the queue of commands and to the lines written.

use crate::commands::{CommandModel, Commands};
use crate::component::{
    models, Component, ComponentKind, ComponentModel, Floor, Speed, Sprite, Transform,
    DEFAULT_SPEED,
};
use crate::error::EcsError;
use crate::query::{
    lemma_matching_members, Access, Filter, FilterModel, QueryShape, ShapeModel, Term,
};
use crate::resource::{FerrisState, Input, KeyCode, Materials, Resource, ResourceKind, ResourceModel};
use crate::world::{World, WorldModel};
use vstd::pervasive::unreached;
use vstd::prelude::*;

verus! {

/// One second.
pub const NANOS_PER_SECOND: u64 = 1_000_000_000;

/// The time that one move covers: a sixtieth of a second.
pub const TIME_STEP: u64 = 16_666_667;

/// The speed at which the floor strip scrolls: 500 pixels per second.
pub const FLOOR_SPEED: i32 = 500_000;

/// How high the floor strip lies: 215 pixels below the origin.
pub const FLOOR_Y: i64 = -215_000;

/// The width of the floor strip: 120 pixels.
pub const FLOOR_WIDTH: i64 = 120_000;

/// The height of the floor strip: 30 pixels.
pub const FLOOR_HEIGHT: i64 = 30_000;

/// The error that a system ended with, if it did.
pub open spec fn failure(r: Result<(), EcsError>) -> Option<EcsError> {
    match r {
        Ok(_) => None,
        Err(e) => Some(e),
    }
}

/// The strings of `out`, each as its characters.
pub open spec fn lines(out: Seq<String>) -> Seq<Seq<char>> {
    Seq::new(out.len(), |i: int| out[i]@)
}

/// The way along one axis that two opposite keys ask for: the first key
/// wins over the second.
pub open spec fn axis(back: bool, forth: bool) -> int {
    if back {
        -1
    } else if forth {
        1
    } else {
        0
    }
}

/// The distance covered in one time step at `speed`, rounded toward zero.
pub open spec fn travel(speed: int) -> int {
    if speed >= 0 {
        speed * TIME_STEP as int / NANOS_PER_SECOND as int
    } else {
        -((-speed) * TIME_STEP as int / NANOS_PER_SECOND as int)
    }
}

/// `v`, held within the range of a coordinate.
pub open spec fn clamped(v: int) -> i64 {
    if v < i64::MIN {
        i64::MIN
    } else if v > i64::MAX {
        i64::MAX
    } else {
        v as i64
    }
}

/// Where the arrow keys take an entity at `at` that moves at `speed`: one
/// time step's travel along each axis that a key asks for. Left wins over
/// right, and down over up.
pub open spec fn moved(at: Transform, speed: Speed, input: Input) -> Transform {
    Transform {
        x: clamped(at.x + axis(input.left, input.right) * travel(speed.0 as int)),
        y: clamped(at.y + axis(input.down, input.up) * travel(speed.0 as int)),
    }
}

/// Where the floor strip at `at` is after one time step at `speed`.
pub open spec fn scrolled(at: Transform, speed: int) -> Transform {
    Transform { x: clamped(at.x - travel(speed)), y: at.y }
}

/// The query for Ferris: its speed to read and its place to write.
pub open spec fn ferris_query() -> ShapeModel {
    ShapeModel {
        terms: seq![
            Term { kind: ComponentKind::Speed, access: Access::Read },
            Term { kind: ComponentKind::Transform, access: Access::Write },
        ],
        filters: seq![FilterModel::With(ComponentKind::Ferris)],
    }
}

/// The query for the floor strip: its speed to read and its place to write.
pub open spec fn floor_query() -> ShapeModel {
    ShapeModel {
        terms: seq![
            Term { kind: ComponentKind::Floor, access: Access::Read },
            Term { kind: ComponentKind::Transform, access: Access::Write },
        ],
        filters: Seq::empty(),
    }
}

/// The query for every name.
pub open spec fn name_query() -> ShapeModel {
    ShapeModel {
        terms: seq![Term { kind: ComponentKind::Name, access: Access::Read }],
        filters: Seq::empty(),
    }
}

/// The components that Ferris is spawned with.
pub open spec fn ferris_bundle(material: crate::component::Handle) -> Seq<ComponentModel> {
    seq![
        ComponentModel::Sprite(Sprite { material, width: 0, height: 0 }),
        ComponentModel::Transform(Transform { x: 0, y: 0 }),
        ComponentModel::Ferris,
        ComponentModel::Speed(Speed(DEFAULT_SPEED)),
    ]
}

/// The components that the camera is spawned with.
pub open spec fn camera_bundle() -> Seq<ComponentModel> {
    seq![ComponentModel::Camera, ComponentModel::Transform(Transform { x: 0, y: 0 })]
}

/// The components that the floor strip is spawned with.
pub open spec fn floor_bundle(material: crate::component::Handle) -> Seq<ComponentModel> {
    seq![
        ComponentModel::Sprite(Sprite { material, width: FLOOR_WIDTH, height: FLOOR_HEIGHT }),
        ComponentModel::Transform(Transform { x: 0, y: FLOOR_Y }),
        ComponentModel::Floor(Floor { speed: FLOOR_SPEED }),
    ]
}

/// The names of the people who are greeted.
pub open spec fn people() -> Seq<Seq<char>> {
    seq!["Elaina Proctor"@, "Renzo Hume"@, "Zayna Nieves"@]
}

/// The names that the entities of `world` carry, in the order of spawning.
pub open spec fn names(world: WorldModel) -> Seq<Seq<char>> {
    Seq::new(
        world.matching(name_query()).len(),
        |i: int| world.components(world.matching(name_query())[i])[ComponentKind::Name]->Name_0,
    )
}

/// What a system leaves behind: the store, the queued commands, the lines
/// written, and the error that it ended with, if it did.
pub struct Outcome {
    pub world: WorldModel,
    pub commands: Seq<CommandModel>,
    pub out: Seq<Seq<char>>,
    pub failure: Option<EcsError>,
}

/// What a system that asks for exactly one match ends with when its query
/// gives `error`. That there is no match, or more than one, is no failure of
/// the system: it skips its body for this tick and ends well, in the one
/// case as in the other. Any other error is the system's own.
pub open spec fn after_query_error(error: EcsError) -> Option<EcsError> {
    if error == EcsError::NoMatch || error == EcsError::AmbiguousMatch {
        None
    } else {
        Some(error)
    }
}

/// What `movement` does to the store, and the error that it ends with.
/// Unless exactly one entity is Ferris, the store stays as it is and the
/// system ends well.
pub open spec fn movement_effect(world: WorldModel) -> (WorldModel, Option<EcsError>) {
    if !world.resources.contains_key(ResourceKind::Input) {
        (world, Some(EcsError::ResourceMissing))
    } else {
        match world.single(ferris_query()) {
            Err(e) => (world, after_query_error(e)),
            Ok(id) => {
                let input = world.resources[ResourceKind::Input]->Input_0;
                let speed = world.components(id)[ComponentKind::Speed]->Speed_0;
                let at = world.components(id)[ComponentKind::Transform]->Transform_0;
                (world.insert(id, ComponentModel::Transform(moved(at, speed, input))), None)
            },
        }
    }
}

/// What `env_movement_system` does to the store, and the error that it ends
/// with. Unless exactly one entity is a floor with a place, the store stays
/// as it is and the system ends well.
pub open spec fn env_movement_effect(world: WorldModel) -> (WorldModel, Option<EcsError>) {
    match world.single(floor_query()) {
        Err(e) => (world, after_query_error(e)),
        Ok(id) => {
            let floor = world.components(id)[ComponentKind::Floor]->Floor_0;
            let at = world.components(id)[ComponentKind::Transform]->Transform_0;
            (
                world.insert(id, ComponentModel::Transform(scrolled(at, floor.speed as int))),
                None,
            )
        },
    }
}

/// What `ferris_spawn` does to the store and to the queue, and the error
/// that it ends with.
pub open spec fn ferris_spawn_effect(world: WorldModel, commands: Seq<CommandModel>) -> (
    WorldModel,
    Seq<CommandModel>,
    Option<EcsError>,
) {
    if !world.resources.contains_key(ResourceKind::Materials) || !world.resources.contains_key(
        ResourceKind::FerrisState,
    ) {
        (world, commands, Some(EcsError::ResourceMissing))
    } else if world.resources[ResourceKind::FerrisState]->FerrisState_0.on {
        (world, commands, None)
    } else {
        let materials = world.resources[ResourceKind::Materials]->Materials_0;
        (
            world.set_resource(ResourceModel::FerrisState(FerrisState { on: true })),
            commands.push(CommandModel::Spawn(ferris_bundle(materials.ferris))),
            None,
        )
    }
}

/// What `setup` does to the queue, and the error that it ends with.
pub open spec fn setup_effect(world: WorldModel, commands: Seq<CommandModel>) -> (
    Seq<CommandModel>,
    Option<EcsError>,
) {
    if !world.resources.contains_key(ResourceKind::Assets) {
        (commands, Some(EcsError::ResourceMissing))
    } else {
        let assets = world.resources[ResourceKind::Assets]->Assets_0;
        (
            commands.push(CommandModel::Spawn(camera_bundle())).push(
                CommandModel::Spawn(floor_bundle(assets.floor)),
            ).push(
                CommandModel::InsertResource(
                    ResourceModel::Materials(Materials { ferris: assets.ferris, env: assets.env }),
                ),
            ),
            None,
        )
    }
}

/// What `add_people` does to the queue.
pub open spec fn add_people_effect(commands: Seq<CommandModel>) -> Seq<CommandModel> {
    commands.push(CommandModel::Spawn(seq![ComponentModel::Name(people()[0])])).push(
        CommandModel::Spawn(seq![ComponentModel::Name(people()[1])]),
    ).push(CommandModel::Spawn(seq![ComponentModel::Name(people()[2])]))
}

/// What `greet_people` does to the store and to the lines written, and the
/// error that it ends with.
pub open spec fn greet_people_effect(world: WorldModel, out: Seq<Seq<char>>, delta: nat) -> (
    WorldModel,
    Seq<Seq<char>>,
    Option<EcsError>,
) {
    if !world.resources.contains_key(ResourceKind::GreetTimer) {
        (world, out, Some(EcsError::ResourceMissing))
    } else {
        let timer = world.resources[ResourceKind::GreetTimer]->GreetTimer_0.tick(delta);
        (
            world.set_resource(ResourceModel::GreetTimer(timer)),
            if timer.just_finished {
                out + names(world)
            } else {
                out
            },
            None,
        )
    }
}

/// The distance covered in one time step at `speed`, rounded toward zero.
pub fn step_distance(speed: i32) -> (d: i64)
    ensures
        d == travel(speed as int),
        -36_000_000 <= d <= 36_000_000,
{
    let wide: i64 = speed as i64;
    let step: i64 = TIME_STEP as i64;
    let second: i64 = NANOS_PER_SECOND as i64;
    if wide >= 0 {
        assert(0 <= wide * step <= 2_147_483_648 * step) by (nonlinear_arith)
            requires
                0 <= wide <= 2_147_483_648,
                step > 0,
        ;
        wide * step / second
    } else {
        let up: i64 = -wide;
        assert(0 <= up * step <= 2_147_483_648 * step) by (nonlinear_arith)
            requires
                0 <= up <= 2_147_483_648,
                step > 0,
        ;
        -(up * step / second)
    }
}

/// The sum of `a` and `b`, held within the range of a coordinate.
pub fn add_clamped(a: i64, b: i64) -> (r: i64)
    ensures
        r == clamped(a + b),
{
    if b >= 0 {
        if a > i64::MAX - b {
            i64::MAX
        } else {
            a + b
        }
    } else {
        if a < i64::MIN - b {
            i64::MIN
        } else {
            a + b
        }
    }
}

/// The way along one axis that two opposite keys ask for.
pub fn direction(back: bool, forth: bool) -> (d: i64)
    ensures
        d == axis(back, forth),
{
    if back {
        -1
    } else if forth {
        1
    } else {
        0
    }
}

/// Where the arrow keys take an entity at `at` that moves at `speed`.
pub fn step_toward(at: Transform, speed: Speed, input: &Input) -> (to: Transform)
    ensures
        to == moved(at, speed, *input),
{
    let far = step_distance(speed.0);
    let x_dir = direction(input.pressed(KeyCode::Left), input.pressed(KeyCode::Right));
    let y_dir = direction(input.pressed(KeyCode::Down), input.pressed(KeyCode::Up));
    assert(x_dir * far == axis(input.left, input.right) * travel(speed.0 as int)
        && -36_000_000 <= x_dir * far <= 36_000_000) by (nonlinear_arith)
        requires
            -1 <= x_dir <= 1,
            x_dir == axis(input.left, input.right),
            far == travel(speed.0 as int),
            -36_000_000 <= far <= 36_000_000,
    ;
    assert(y_dir * far == axis(input.down, input.up) * travel(speed.0 as int)
        && -36_000_000 <= y_dir * far <= 36_000_000) by (nonlinear_arith)
        requires
            -1 <= y_dir <= 1,
            y_dir == axis(input.down, input.up),
            far == travel(speed.0 as int),
            -36_000_000 <= far <= 36_000_000,
    ;
    Transform { x: add_clamped(at.x, x_dir * far), y: add_clamped(at.y, y_dir * far) }
}

fn ferris_shape() -> (shape: QueryShape)
    ensures
        shape@ == ferris_query(),
{
    let shape = QueryShape::new(
        vec![Term::read(ComponentKind::Speed), Term::write(ComponentKind::Transform)],
        vec![Filter::With(ComponentKind::Ferris)],
    );
    assert(shape@.filters =~= ferris_query().filters);
    shape
}

fn floor_shape() -> (shape: QueryShape)
    ensures
        shape@ == floor_query(),
{
    let shape = QueryShape::new(
        vec![Term::read(ComponentKind::Floor), Term::write(ComponentKind::Transform)],
        Vec::new(),
    );
    assert(shape@.filters =~= floor_query().filters);
    shape
}

fn name_shape() -> (shape: QueryShape)
    ensures
        shape@ == name_query(),
{
    let shape = QueryShape::new(vec![Term::read(ComponentKind::Name)], Vec::new());
    assert(shape@.terms =~= name_query().terms);
    assert(shape@.filters =~= name_query().filters);
    shape
}

/// What a system that asks for exactly one match returns when its query
/// gives `error`: it ends well where there is no match or more than one.
fn skip_or_fail(error: EcsError) -> (r: Result<(), EcsError>)
    ensures
        failure(r) == after_query_error(error),
{
    match error {
        EcsError::NoMatch => Ok(()),
        EcsError::AmbiguousMatch => Ok(()),
        _ => Err(error),
    }
}

/// Moves Ferris by the arrow keys: one time step's travel at its speed
/// along each axis that a key asks for. Unless exactly one entity is
/// Ferris, it skips this tick: nothing moves, and it ends well. Without the
/// keys' state it fails, and nothing moves.
pub fn movement(world: &mut World) -> (r: Result<(), EcsError>)
    requires
        old(world).wf(),
    ensures
        final(world).wf(),
        (final(world)@, failure(r)) == movement_effect(old(world)@),
        old(world)@.resources.contains_key(ResourceKind::Input) && old(world)@.matching(
            ferris_query(),
        ).len() != 1 ==> r is Ok && final(world)@ == old(world)@,
{
    proof {
        world.lemma_view_wf();
        lemma_queries_have_no_clash();
    }
    let input = match world.get_resource(ResourceKind::Input)? {
        Resource::Input(input) => *input,
        _ => unreached(),
    };
    let shape = ferris_shape();
    let found = match shape.single_mut(world) {
        Ok(found) => found,
        Err(e) => {
            return skip_or_fail(e);
        },
    };
    let speed = match &found.components[0] {
        Component::Speed(speed) => *speed,
        _ => unreached(),
    };
    let at = match &found.components[1] {
        Component::Transform(at) => *at,
        _ => unreached(),
    };
    let to = step_toward(at, speed, &input);
    match world.get_mut(found.entity, ComponentKind::Transform) {
        Ok(place) => {
            *place = Component::Transform(to);
        },
        Err(_) => unreached(),
    }
    Ok(())
}

/// Scrolls the floor strip by one time step's travel at its speed. Unless
/// exactly one entity is a floor with a place, it skips this tick: nothing
/// moves, and it ends well.
pub fn env_movement_system(world: &mut World) -> (r: Result<(), EcsError>)
    requires
        old(world).wf(),
    ensures
        final(world).wf(),
        (final(world)@, failure(r)) == env_movement_effect(old(world)@),
        old(world)@.matching(floor_query()).len() != 1 ==> r is Ok && final(world)@ == old(
            world,
        )@,
{
    proof {
        world.lemma_view_wf();
        lemma_queries_have_no_clash();
    }
    let shape = floor_shape();
    let found = match shape.single_mut(world) {
        Ok(found) => found,
        Err(e) => {
            return skip_or_fail(e);
        },
    };
    let floor = match &found.components[0] {
        Component::Floor(floor) => *floor,
        _ => unreached(),
    };
    let at = match &found.components[1] {
        Component::Transform(at) => *at,
        _ => unreached(),
    };
    let far = step_distance(floor.speed);
    let to = Transform { x: add_clamped(at.x, -far), y: at.y };
    match world.get_mut(found.entity, ComponentKind::Transform) {
        Ok(place) => {
            *place = Component::Transform(to);
        },
        Err(_) => unreached(),
    }
    Ok(())
}

/// Spawns Ferris, once: with the Ferris material, at the origin, at the
/// default speed. It needs the materials and the record of whether Ferris
/// has been spawned, and writes into that record that it has.
pub fn ferris_spawn(world: &mut World, commands: &mut Commands) -> (r: Result<(), EcsError>)
    requires
        old(world).wf(),
    ensures
        final(world).wf(),
        (final(world)@, final(commands)@, failure(r)) == ferris_spawn_effect(
            old(world)@,
            old(commands)@,
        ),
{
    proof {
        world.lemma_view_wf();
    }
    let materials = match world.get_resource(ResourceKind::Materials)? {
        Resource::Materials(materials) => *materials,
        _ => unreached(),
    };
    let mut state = match world.get_resource(ResourceKind::FerrisState)? {
        Resource::FerrisState(state) => *state,
        _ => unreached(),
    };
    if !state.on {
        let bundle = vec![
            Component::Sprite(Sprite { material: materials.ferris, width: 0, height: 0 }),
            Component::Transform(Transform::from_xy(0, 0)),
            Component::Ferris,
            Component::Speed(Speed::default()),
        ];
        assert(models(bundle@) =~= ferris_bundle(materials.ferris));
        commands.spawn(bundle);
        state.spawned();
        match world.get_resource_mut(ResourceKind::FerrisState) {
            Ok(place) => {
                *place = Resource::FerrisState(state);
            },
            Err(_) => unreached(),
        }
    }
    Ok(())
}

/// Queues what the scene starts with: the camera, the floor strip, and the
/// materials for what is spawned later. It needs the handles that the asset
/// loader returned.
pub fn setup(world: &World, commands: &mut Commands) -> (r: Result<(), EcsError>)
    requires
        world.wf(),
    ensures
        (final(commands)@, failure(r)) == setup_effect(world@, old(commands)@),
{
    proof {
        world.lemma_view_wf();
    }
    let assets = match world.get_resource(ResourceKind::Assets)? {
        Resource::Assets(assets) => *assets,
        _ => unreached(),
    };
    let camera = vec![Component::Camera, Component::Transform(Transform::from_xy(0, 0))];
    assert(models(camera@) =~= camera_bundle());
    commands.spawn(camera);
    let floor = vec![
        Component::Sprite(
            Sprite { material: assets.floor, width: FLOOR_WIDTH, height: FLOOR_HEIGHT },
        ),
        Component::Transform(Transform::from_xy(0, FLOOR_Y)),
        Component::Floor(Floor { speed: FLOOR_SPEED }),
    ];
    assert(models(floor@) =~= floor_bundle(assets.floor));
    commands.spawn(floor);
    commands.insert_resource(
        Resource::Materials(Materials { ferris: assets.ferris, env: assets.env }),
    );
    Ok(())
}

fn person(name: &str) -> (bundle: Vec<Component>)
    ensures
        models(bundle@) == seq![ComponentModel::Name(name@)],
{
    let bundle = vec![Component::Name(name.to_owned())];
    bundle
}

/// Queues the spawning of three people, each with a name.
pub fn add_people(commands: &mut Commands)
    ensures
        final(commands)@ == add_people_effect(old(commands)@),
{
    commands.spawn(person("Elaina Proctor"));
    commands.spawn(person("Renzo Hume"));
    commands.spawn(person("Zayna Nieves"));
}

/// Ticks the greeting timer by `delta`, and on the tick on which it
/// finishes writes the name of every entity that has one, in the order of
/// spawning.
pub fn greet_people(world: &mut World, delta: u64, out: &mut Vec<String>) -> (r: Result<
    (),
    EcsError,
>)
    requires
        old(world).wf(),
    ensures
        final(world).wf(),
        (final(world)@, lines(final(out)@), failure(r)) == greet_people_effect(
            old(world)@,
            lines(old(out)@),
            delta as nat,
        ),
{
    proof {
        world.lemma_view_wf();
    }
    let mut timer = match world.get_resource(ResourceKind::GreetTimer)? {
        Resource::GreetTimer(timer) => *timer,
        _ => unreached(),
    };
    timer.tick(delta);
    let shape = name_shape();
    if timer.just_finished() {
        let found = match shape.iterate(world) {
            Ok(found) => found,
            Err(_) => unreached(),
        };
        let ghost said = names(world@);
        let mut i: usize = 0;
        while i < found.len()
            invariant
                world.wf(),
                world@.wf(),
                shape@ == name_query(),
                said == names(world@),
                i <= found.len(),
                found.len() == world@.matching(shape@).len(),
                forall|j: int|
                    0 <= j < found.len() ==> (#[trigger] found[j]).is_match(
                        world@,
                        shape@,
                        world@.matching(shape@)[j],
                    ),
                lines(out@) == lines(old(out)@) + said.take(i as int),
            decreases found.len() - i,
        {
            let ghost before = out@;
            match &found[i].components[0] {
                Component::Name(name) => {
                    out.push(name.clone());
                },
                _ => unreached(),
            }
            assert(lines(out@) =~= lines(before).push(said[i as int]));
            i = i + 1;
        }
    }
    match world.get_resource_mut(ResourceKind::GreetTimer) {
        Ok(place) => {
            *place = Resource::GreetTimer(timer);
        },
        Err(_) => unreached(),
    }
    Ok(())
}

/// The systems that can be scheduled.
#[derive(Clone, Copy, Debug, PartialEq, Eq, Structural)]
pub enum System {
    Setup,
    AddPeople,
    GreetPeople,
    Movement,
    FerrisSpawn,
    EnvMovement,
}

/// What the systems of one pass act on: the store, the commands queued so
/// far, the lines written so far, and whether a system has ended with an
/// error after which the scheduler must stop.
pub struct Stage {
    pub world: WorldModel,
    pub commands: Seq<CommandModel>,
    pub out: Seq<Seq<char>>,
    pub halted: bool,
}

impl System {
    /// What one run of the system leaves of `stage`, where `delta` is the
    /// length of the current frame.
    pub open spec fn effect(self, stage: Stage, delta: nat) -> Outcome {
        match self {
            System::Setup => {
                let (commands, failure) = setup_effect(stage.world, stage.commands);
                Outcome { world: stage.world, commands, out: stage.out, failure }
            },
            System::AddPeople => Outcome {
                world: stage.world,
                commands: add_people_effect(stage.commands),
                out: stage.out,
                failure: None,
            },
            System::GreetPeople => {
                let (world, out, failure) = greet_people_effect(stage.world, stage.out, delta);
                Outcome { world, commands: stage.commands, out, failure }
            },
            System::Movement => {
                let (world, failure) = movement_effect(stage.world);
                Outcome { world, commands: stage.commands, out: stage.out, failure }
            },
            System::FerrisSpawn => {
                let (world, commands, failure) = ferris_spawn_effect(stage.world, stage.commands);
                Outcome { world, commands, out: stage.out, failure }
            },
            System::EnvMovement => {
                let (world, failure) = env_movement_effect(stage.world);
                Outcome { world, commands: stage.commands, out: stage.out, failure }
            },
        }
    }

    /// The stage after one run of the system. An error ends the run and
    /// nothing else; a fatal one is remembered.
    pub open spec fn step(self, stage: Stage, delta: nat) -> Stage {
        let outcome = self.effect(stage, delta);
        Stage {
            world: outcome.world,
            commands: outcome.commands,
            out: outcome.out,
            halted: stage.halted || (outcome.failure is Some && outcome.failure->0.fatal()),
        }
    }

    /// Runs the system once, in a frame of `delta` nanoseconds.
    pub fn run(
        self,
        delta: u64,
        world: &mut World,
        commands: &mut Commands,
        out: &mut Vec<String>,
    ) -> (r: Result<(), EcsError>)
        requires
            old(world).wf(),
        ensures
            final(world).wf(),
            ({
                let outcome = self.effect(
                    Stage {
                        world: old(world)@,
                        commands: old(commands)@,
                        out: lines(old(out)@),
                        halted: false,
                    },
                    delta as nat,
                );
                &&& final(world)@ == outcome.world
                &&& final(commands)@ == outcome.commands
                &&& lines(final(out)@) == outcome.out
                &&& failure(r) == outcome.failure
            }),
    {
        match self {
            System::Setup => setup(world, commands),
            System::AddPeople => {
                add_people(commands);
                Ok(())
            },
            System::GreetPeople => greet_people(world, delta, out),
            System::Movement => movement(world),
            System::FerrisSpawn => ferris_spawn(world, commands),
            System::EnvMovement => env_movement_system(world),
        }
    }
}

/// The queries of the systems have no clash: they fail only by the number
/// of their matches.
pub proof fn lemma_queries_have_no_clash()
    ensures
        !ferris_query().conflicting(),
        !floor_query().conflicting(),
        !name_query().conflicting(),
{
}

/// The two systems that move one entity treat no match and several matches
/// alike: the store stays as it is and the system ends well. So a run of
/// such a system leaves the stage of the scheduler as it found it: no such
/// error reaches the scheduler, and no one of several matches is picked.
pub proof fn lemma_skips_without_one_match(stage: Stage, delta: nat)
    ensures
        stage.world.resources.contains_key(ResourceKind::Input) && stage.world.matching(
            ferris_query(),
        ).len() != 1 ==> {
            &&& movement_effect(stage.world) == (stage.world, None::<EcsError>)
            &&& System::Movement.step(stage, delta) == stage
        },
        stage.world.matching(floor_query()).len() != 1 ==> {
            &&& env_movement_effect(stage.world) == (stage.world, None::<EcsError>)
            &&& System::EnvMovement.step(stage, delta) == stage
        },
{
    lemma_queries_have_no_clash();
}

/// What a query gives as its one match is a live entity.
pub proof fn lemma_single_is_alive(world: WorldModel, shape: ShapeModel)
    requires
        world.single(shape) is Ok,
    ensures
        world.matches(shape, world.single(shape)->Ok_0),
{
    let found = world.matching(shape);
    lemma_matching_members(world, shape, world.entities.len(), found[0]);
}

/// No run of a system gives a despawned entity's identifier to anything.
pub proof fn lemma_step_keeps_gone(system: System, stage: Stage, delta: nat)
    ensures
        stage.world.keeps_gone(system.step(stage, delta).world),
{
    match system {
        System::Movement => {
            if stage.world.single(ferris_query()) is Ok {
                lemma_single_is_alive(stage.world, ferris_query());
            }
        },
        System::EnvMovement => {
            if stage.world.single(floor_query()) is Ok {
                lemma_single_is_alive(stage.world, floor_query());
            }
        },
        _ => {},
    }
}

} // verus!
