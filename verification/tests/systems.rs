use ferris_ecs::commands::Commands;
use ferris_ecs::component::{
    Component, ComponentKind, Floor, Handle, Speed, Sprite, Transform, DEFAULT_SPEED,
};
use ferris_ecs::error::EcsError;
use ferris_ecs::resource::{Assets, FerrisState, Input, KeyCode, Materials, Resource, ResourceKind};
use ferris_ecs::systems::{
    add_clamped, add_people, direction, env_movement_system, ferris_spawn, greet_people, movement,
    setup, step_distance, step_toward, System, TIME_STEP,
};
use ferris_ecs::timer::Timer;
use ferris_ecs::world::{Entity, World};

const NO_KEYS: Input = Input { left: false, right: false, up: false, down: false };

fn ferris_at(x: i64, y: i64) -> Vec<Component> {
    vec![
        Component::Sprite(Sprite { material: Handle(7), width: 0, height: 0 }),
        Component::Transform(Transform::from_xy(x, y)),
        Component::Ferris,
        Component::Speed(Speed::default()),
    ]
}

fn place(world: &World, entity: Entity) -> Transform {
    match world.get(entity, ComponentKind::Transform) {
        Ok(Component::Transform(at)) => *at,
        other => panic!("no place: {:?}", other),
    }
}

#[test]
fn the_default_speed_is_five_hundred_pixels_a_second() {
    assert_eq!(Speed::default(), Speed(500_000));
    assert_eq!(DEFAULT_SPEED, 500_000);
    assert!(!FerrisState::default().on);
}

#[test]
fn one_step_at_the_default_speed_is_eight_and_a_third_pixels() {
    assert_eq!(TIME_STEP, 16_666_667);
    assert_eq!(step_distance(500_000), 8_333);
    assert_eq!(step_distance(-500_000), -8_333);
    assert_eq!(step_distance(0), 0);
    assert_eq!(step_distance(59), 0);
    assert_eq!(step_distance(60), 1);
    assert_eq!(step_distance(-60), -1);
    assert_eq!(step_distance(i32::MAX), 35_791_394);
    assert_eq!(step_distance(i32::MIN), -35_791_394);
}

#[test]
fn coordinates_stop_at_the_ends_of_their_range() {
    assert_eq!(add_clamped(1, 2), 3);
    assert_eq!(add_clamped(i64::MAX, 1), i64::MAX);
    assert_eq!(add_clamped(i64::MAX - 1, 1), i64::MAX);
    assert_eq!(add_clamped(i64::MIN, -1), i64::MIN);
    assert_eq!(add_clamped(i64::MIN, i64::MAX), -1);
    assert_eq!(add_clamped(-5, i64::MIN), i64::MIN);
}

#[test]
fn the_first_key_of_an_axis_wins() {
    assert_eq!(direction(false, false), 0);
    assert_eq!(direction(true, false), -1);
    assert_eq!(direction(false, true), 1);
    assert_eq!(direction(true, true), -1);
}

#[test]
fn keys_move_by_one_step_along_each_axis() {
    let at = Transform::from_xy(100, -100);
    let speed = Speed(500_000);
    let all = Input { left: true, right: true, up: true, down: true };
    let up_right = Input { right: true, up: true, ..NO_KEYS };
    assert_eq!(step_toward(at, speed, &NO_KEYS), at);
    assert_eq!(step_toward(at, speed, &up_right), Transform { x: 8_433, y: 8_233 });
    assert_eq!(step_toward(at, speed, &all), Transform { x: -8_233, y: -8_433 });
    assert!(all.pressed(KeyCode::Left) && !up_right.pressed(KeyCode::Down));
    let edge = Transform::from_xy(i64::MAX - 10, i64::MIN + 10);
    let down_right = Input { right: true, down: true, ..NO_KEYS };
    assert_eq!(step_toward(edge, speed, &down_right), Transform { x: i64::MAX, y: i64::MIN });
}

#[test]
fn movement_moves_ferris_and_nothing_else() {
    let mut world = World::new();
    let other = world.spawn(vec![
        Component::Transform(Transform::from_xy(5, 5)),
        Component::Speed(Speed(1_000_000)),
    ]);
    let ferris = world.spawn(ferris_at(0, 0));
    world.insert_resource(Resource::Input(Input { left: true, up: true, ..NO_KEYS }));
    assert_eq!(movement(&mut world), Ok(()));
    assert_eq!(place(&world, ferris), Transform { x: -8_333, y: 8_333 });
    assert_eq!(place(&world, other), Transform { x: 5, y: 5 });
    assert_eq!(movement(&mut world), Ok(()));
    assert_eq!(place(&world, ferris), Transform { x: -16_666, y: 16_666 });
    world.insert_resource(Resource::Input(NO_KEYS));
    assert_eq!(movement(&mut world), Ok(()));
    assert_eq!(place(&world, ferris), Transform { x: -16_666, y: 16_666 });
}

#[test]
fn movement_is_skipped_unless_exactly_one_entity_is_ferris() {
    let mut world = World::new();
    assert_eq!(movement(&mut world), Err(EcsError::ResourceMissing));
    world.insert_resource(Resource::Input(Input { right: true, ..NO_KEYS }));
    assert_eq!(movement(&mut world), Ok(()));
    assert_eq!(world.spawned(), 0);
    let first = world.spawn(ferris_at(1, 1));
    let second = world.spawn(ferris_at(2, 2));
    assert_eq!(movement(&mut world), Ok(()));
    assert_eq!(place(&world, first), Transform { x: 1, y: 1 });
    assert_eq!(place(&world, second), Transform { x: 2, y: 2 });
    world.despawn(first);
    assert_eq!(movement(&mut world), Ok(()));
    assert_eq!(place(&world, second), Transform { x: 8_335, y: 2 });
}

#[test]
fn the_floor_scrolls_to_the_left() {
    let mut world = World::new();
    assert_eq!(env_movement_system(&mut world), Ok(()));
    assert_eq!(world.spawned(), 0);
    let floor = world.spawn(vec![
        Component::Transform(Transform::from_xy(0, -215_000)),
        Component::Floor(Floor { speed: 500_000 }),
    ]);
    assert_eq!(env_movement_system(&mut world), Ok(()));
    assert_eq!(place(&world, floor), Transform { x: -8_333, y: -215_000 });
    assert_eq!(env_movement_system(&mut world), Ok(()));
    assert_eq!(place(&world, floor), Transform { x: -16_666, y: -215_000 });
    world.spawn(vec![
        Component::Transform(Transform::from_xy(0, 0)),
        Component::Floor(Floor { speed: 1 }),
    ]);
    let second = world.spawn(vec![
        Component::Transform(Transform::from_xy(7, 7)),
        Component::Floor(Floor { speed: 2 }),
    ]);
    assert_eq!(env_movement_system(&mut world), Ok(()));
    assert_eq!(place(&world, floor), Transform { x: -16_666, y: -215_000 });
    assert_eq!(place(&world, second), Transform { x: 7, y: 7 });
}

#[test]
fn ferris_is_spawned_once() {
    let mut world = World::new();
    let mut commands = Commands::new();
    assert_eq!(ferris_spawn(&mut world, &mut commands), Err(EcsError::ResourceMissing));
    world.insert_resource(Resource::FerrisState(FerrisState::default()));
    assert_eq!(ferris_spawn(&mut world, &mut commands), Err(EcsError::ResourceMissing));
    assert_eq!(commands.len(), 0);
    world.insert_resource(Resource::Materials(Materials { ferris: Handle(7), env: Handle(8) }));

    assert_eq!(ferris_spawn(&mut world, &mut commands), Ok(()));
    assert_eq!(commands.len(), 1);
    assert_eq!(
        world.get_resource(ResourceKind::FerrisState),
        Ok(&Resource::FerrisState(FerrisState { on: true }))
    );
    assert_eq!(ferris_spawn(&mut world, &mut commands), Ok(()));
    assert_eq!(commands.len(), 1);

    world.flush(&mut commands);
    let ferris = Entity::from_index(0);
    assert_eq!(world.spawned(), 1);
    assert_eq!(world.get(ferris, ComponentKind::Ferris), Ok(&Component::Ferris));
    assert_eq!(world.get(ferris, ComponentKind::Speed), Ok(&Component::Speed(Speed(500_000))));
    assert_eq!(place(&world, ferris), Transform { x: 0, y: 0 });
    assert_eq!(
        world.get(ferris, ComponentKind::Sprite),
        Ok(&Component::Sprite(Sprite { material: Handle(7), width: 0, height: 0 }))
    );
}

#[test]
fn setup_queues_the_camera_the_floor_and_the_materials() {
    let mut world = World::new();
    let mut commands = Commands::new();
    assert_eq!(setup(&world, &mut commands), Err(EcsError::ResourceMissing));
    assert_eq!(commands.len(), 0);
    world.insert_resource(Resource::Assets(Assets {
        floor: Handle(1),
        ferris: Handle(2),
        env: Handle(3),
    }));
    assert_eq!(setup(&world, &mut commands), Ok(()));
    assert_eq!(commands.len(), 3);
    assert_eq!(world.spawned(), 0);

    world.flush(&mut commands);
    let camera = Entity::from_index(0);
    let floor = Entity::from_index(1);
    assert_eq!(world.spawned(), 2);
    assert_eq!(world.get(camera, ComponentKind::Camera), Ok(&Component::Camera));
    assert_eq!(place(&world, camera), Transform { x: 0, y: 0 });
    assert_eq!(
        world.get(floor, ComponentKind::Sprite),
        Ok(&Component::Sprite(Sprite { material: Handle(1), width: 120_000, height: 30_000 }))
    );
    assert_eq!(place(&world, floor), Transform { x: 0, y: -215_000 });
    assert_eq!(
        world.get(floor, ComponentKind::Floor),
        Ok(&Component::Floor(Floor { speed: 500_000 }))
    );
    assert_eq!(
        world.get_resource(ResourceKind::Materials),
        Ok(&Resource::Materials(Materials { ferris: Handle(2), env: Handle(3) }))
    );
}

#[test]
fn people_are_greeted_when_the_timer_finishes() {
    let mut world = World::new();
    let mut commands = Commands::new();
    let mut out: Vec<String> = vec!["before".to_string()];
    assert_eq!(greet_people(&mut world, 1, &mut out), Err(EcsError::ResourceMissing));
    add_people(&mut commands);
    assert_eq!(commands.len(), 3);
    world.flush(&mut commands);
    world.spawn(vec![Component::Camera]);
    world.spawn(vec![Component::Name("Late Comer".to_string()), Component::Ferris]);
    world.insert_resource(Resource::GreetTimer(Timer::new(10, true)));

    assert_eq!(greet_people(&mut world, 9, &mut out), Ok(()));
    assert_eq!(out, vec!["before"]);
    assert_eq!(greet_people(&mut world, 1, &mut out), Ok(()));
    assert_eq!(
        out,
        vec!["before", "Elaina Proctor", "Renzo Hume", "Zayna Nieves", "Late Comer"]
    );
    assert_eq!(greet_people(&mut world, 9, &mut out), Ok(()));
    assert_eq!(out.len(), 5);
    match world.get_resource(ResourceKind::GreetTimer) {
        Ok(Resource::GreetTimer(timer)) => assert_eq!(timer.elapsed(), 9),
        other => panic!("no timer: {:?}", other),
    }
}

#[test]
fn a_system_is_run_by_its_name() {
    let mut world = World::new();
    let mut commands = Commands::new();
    let mut out: Vec<String> = Vec::new();
    assert_eq!(System::AddPeople.run(0, &mut world, &mut commands, &mut out), Ok(()));
    assert_eq!(commands.len(), 3);
    assert_eq!(
        System::Setup.run(0, &mut world, &mut commands, &mut out),
        Err(EcsError::ResourceMissing)
    );
    assert_eq!(
        System::Movement.run(0, &mut world, &mut commands, &mut out),
        Err(EcsError::ResourceMissing)
    );
    assert_eq!(System::EnvMovement.run(0, &mut world, &mut commands, &mut out), Ok(()));
    assert_eq!(
        System::FerrisSpawn.run(0, &mut world, &mut commands, &mut out),
        Err(EcsError::ResourceMissing)
    );
    assert_eq!(
        System::GreetPeople.run(0, &mut world, &mut commands, &mut out),
        Err(EcsError::ResourceMissing)
    );
    assert!(out.is_empty());
    assert!(!EcsError::NoMatch.is_fatal());
    assert!(!EcsError::AmbiguousMatch.is_fatal());
    assert!(!EcsError::ResourceMissing.is_fatal());
    assert!(!EcsError::EntityNotFound.is_fatal());
    assert!(EcsError::ConflictingBorrow.is_fatal());
}
