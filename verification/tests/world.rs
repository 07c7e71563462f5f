use ferris_ecs::component::{Component, ComponentKind, Handle, Obstacle, Speed, Transform};
use ferris_ecs::error::EcsError;
use ferris_ecs::query::{Filter, QueryShape, Term};
use ferris_ecs::resource::{FerrisState, Materials, Resource, ResourceKind};
use ferris_ecs::world::{Entity, World};

#[test]
fn new_world_is_empty() {
    let world = World::new();
    assert_eq!(world.spawned(), 0);
    assert!(!world.contains(Entity::from_index(0)));
    assert_eq!(
        world.get(Entity::from_index(0), ComponentKind::Name),
        Err(EcsError::EntityNotFound)
    );
}

#[test]
fn spawn_gives_each_entity_the_next_identifier() {
    let mut world = World::new();
    let a = world.spawn(vec![Component::Ferris]);
    let b = world.spawn(vec![]);
    let c = world.spawn(vec![Component::Camera]);
    assert_eq!((a.index(), b.index(), c.index()), (0, 1, 2));
    assert_eq!(world.spawned(), 3);
    assert!(world.contains(a) && world.contains(b) && world.contains(c));
    assert!(world.has(a, ComponentKind::Ferris));
    assert!(!world.has(b, ComponentKind::Ferris));
    assert_eq!(world.get(c, ComponentKind::Camera), Ok(&Component::Camera));
}

#[test]
fn the_later_of_two_components_of_one_kind_stays() {
    let mut world = World::new();
    let e = world.spawn(vec![
        Component::Speed(Speed(1)),
        Component::Name("first".to_string()),
        Component::Speed(Speed(2)),
    ]);
    assert_eq!(world.get(e, ComponentKind::Speed), Ok(&Component::Speed(Speed(2))));
    assert_eq!(
        world.get(e, ComponentKind::Name),
        Ok(&Component::Name("first".to_string()))
    );
}

#[test]
fn insert_overwrites_and_remove_takes_away() {
    let mut world = World::new();
    let e = world.spawn(vec![Component::Speed(Speed(1))]);
    assert_eq!(world.insert_component(e, Component::Speed(Speed(9))), Ok(()));
    assert_eq!(world.get(e, ComponentKind::Speed), Ok(&Component::Speed(Speed(9))));
    assert_eq!(
        world.insert_component(e, Component::Obstacle(Obstacle::Both(1, 2))),
        Ok(())
    );
    assert_eq!(
        world.get(e, ComponentKind::Obstacle),
        Ok(&Component::Obstacle(Obstacle::Both(1, 2)))
    );
    assert_eq!(world.remove_component(e, ComponentKind::Speed), Ok(()));
    assert_eq!(world.get(e, ComponentKind::Speed), Err(EcsError::NoMatch));
    assert_eq!(world.remove_component(e, ComponentKind::Speed), Ok(()));
    assert!(world.contains(e));
}

#[test]
fn components_of_a_despawned_entity_cannot_be_changed() {
    let mut world = World::new();
    let e = world.spawn(vec![Component::Ferris]);
    world.despawn(e);
    assert_eq!(
        world.insert_component(e, Component::Speed(Speed(1))),
        Err(EcsError::EntityNotFound)
    );
    assert_eq!(
        world.remove_component(e, ComponentKind::Ferris),
        Err(EcsError::EntityNotFound)
    );
    assert!(world.get_mut(e, ComponentKind::Ferris) == Err(EcsError::EntityNotFound));
    let never = Entity::from_index(17);
    assert_eq!(
        world.insert_component(never, Component::Ferris),
        Err(EcsError::EntityNotFound)
    );
}

#[test]
fn despawn_twice_is_despawn_once() {
    let mut world = World::new();
    let a = world.spawn(vec![Component::Ferris]);
    let b = world.spawn(vec![Component::Camera]);
    world.despawn(a);
    world.despawn(a);
    world.despawn(Entity::from_index(5));
    assert!(!world.contains(a));
    assert!(world.contains(b));
    assert_eq!(world.spawned(), 2);
}

#[test]
fn despawned_entity_is_not_found_again() {
    let mut world = World::new();
    let e = world.spawn(vec![Component::Ferris, Component::Speed(Speed(500))]);
    let tagged = QueryShape::new(
        vec![Term::read(ComponentKind::Speed)],
        vec![Filter::With(ComponentKind::Ferris)],
    );
    assert_eq!(tagged.single_mut(&world).map(|m| m.entity), Ok(e));
    world.despawn(e);
    assert_eq!(world.get(e, ComponentKind::Speed), Err(EcsError::EntityNotFound));
    assert_eq!(world.get(e, ComponentKind::Ferris), Err(EcsError::EntityNotFound));
    assert!(!world.has(e, ComponentKind::Speed));
    assert!(tagged.probe(&world, e).is_none());
    assert_eq!(tagged.single_mut(&world).map(|m| m.entity), Err(EcsError::NoMatch));

    let next = world.spawn(vec![Component::Ferris, Component::Speed(Speed(7))]);
    assert_ne!(next, e);
    assert_eq!(world.get(e, ComponentKind::Speed), Err(EcsError::EntityNotFound));
    assert_eq!(tagged.single_mut(&world).map(|m| m.entity), Ok(next));
    assert_eq!(world.get(next, ComponentKind::Speed), Ok(&Component::Speed(Speed(7))));
}

#[test]
fn get_mut_changes_a_component_in_place() {
    let mut world = World::new();
    let e = world.spawn(vec![Component::Transform(Transform::from_xy(1, 2))]);
    match world.get_mut(e, ComponentKind::Transform) {
        Ok(Component::Transform(at)) => at.x = 40,
        _ => panic!("the entity has a place"),
    }
    assert_eq!(
        world.get(e, ComponentKind::Transform),
        Ok(&Component::Transform(Transform { x: 40, y: 2 }))
    );
    assert!(world.get_mut(e, ComponentKind::Speed) == Err(EcsError::NoMatch));
}

#[test]
fn resources_are_missing_until_inserted() {
    let mut world = World::new();
    assert_eq!(
        world.get_resource(ResourceKind::FerrisState),
        Err(EcsError::ResourceMissing)
    );
    assert!(world.get_resource_mut(ResourceKind::FerrisState) == Err(EcsError::ResourceMissing));
    world.insert_resource(Resource::FerrisState(FerrisState::default()));
    assert_eq!(
        world.get_resource(ResourceKind::FerrisState),
        Ok(&Resource::FerrisState(FerrisState { on: false }))
    );
    assert_eq!(
        world.get_resource(ResourceKind::Materials),
        Err(EcsError::ResourceMissing)
    );
}

#[test]
fn a_resource_is_replaced_by_one_of_its_kind() {
    let mut world = World::new();
    let first = Materials { ferris: Handle(1), env: Handle(2) };
    let second = Materials { ferris: Handle(3), env: Handle(4) };
    world.insert_resource(Resource::Materials(first));
    world.insert_resource(Resource::Materials(second));
    assert_eq!(
        world.get_resource(ResourceKind::Materials),
        Ok(&Resource::Materials(second))
    );
}

#[test]
fn get_resource_mut_changes_a_resource_in_place() {
    let mut world = World::new();
    world.insert_resource(Resource::FerrisState(FerrisState::default()));
    match world.get_resource_mut(ResourceKind::FerrisState) {
        Ok(Resource::FerrisState(state)) => state.spawned(),
        _ => panic!("the record was inserted"),
    }
    assert_eq!(
        world.get_resource(ResourceKind::FerrisState),
        Ok(&Resource::FerrisState(FerrisState { on: true }))
    );
}

#[test]
fn two_worlds_do_not_share_anything() {
    let mut one = World::new();
    let other = World::new();
    one.insert_resource(Resource::FerrisState(FerrisState { on: true }));
    let e = one.spawn(vec![Component::Ferris]);
    assert!(one.contains(e));
    assert!(!other.contains(e));
    assert_eq!(
        other.get_resource(ResourceKind::FerrisState),
        Err(EcsError::ResourceMissing)
    );
}
