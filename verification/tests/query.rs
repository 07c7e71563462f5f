use ferris_ecs::component::{Component, ComponentKind, Floor, Obstacle, Speed, Transform};
use ferris_ecs::error::EcsError;
use ferris_ecs::query::{Access, Filter, QueryShape, Term};
use ferris_ecs::world::{Entity, World};

fn tagged_speed() -> QueryShape {
    QueryShape::new(
        vec![Term::read(ComponentKind::Speed), Term::write(ComponentKind::Transform)],
        vec![Filter::With(ComponentKind::Ferris)],
    )
}

fn ferris(speed: i32, x: i64) -> Vec<Component> {
    vec![
        Component::Ferris,
        Component::Speed(Speed(speed)),
        Component::Transform(Transform::from_xy(x, 0)),
    ]
}

#[test]
fn single_mut_goes_from_no_match_to_match_to_ambiguous() {
    let mut world = World::new();
    let shape = tagged_speed();
    assert_eq!(shape.single_mut(&world).err(), Some(EcsError::NoMatch));

    let first = world.spawn(ferris(500, 3));
    let found = shape.single_mut(&world).expect("one entity matches");
    assert_eq!(found.entity, first);
    assert_eq!(
        found.components,
        vec![
            Component::Speed(Speed(500)),
            Component::Transform(Transform::from_xy(3, 0)),
        ]
    );

    world.spawn(ferris(100, 4));
    assert_eq!(shape.single_mut(&world).err(), Some(EcsError::AmbiguousMatch));
    world.spawn(ferris(100, 5));
    assert_eq!(shape.single_mut(&world).err(), Some(EcsError::AmbiguousMatch));
}

#[test]
fn single_mut_finds_the_one_match_among_others() {
    let mut world = World::new();
    world.spawn(vec![Component::Speed(Speed(1)), Component::Transform(Transform::from_xy(0, 0))]);
    world.spawn(vec![Component::Ferris, Component::Speed(Speed(2))]);
    let wanted = world.spawn(ferris(3, 9));
    world.spawn(vec![Component::Camera]);
    let found = tagged_speed().single_mut(&world).expect("one entity matches");
    assert_eq!(found.entity, wanted);
    assert_eq!(found.components[0], Component::Speed(Speed(3)));
}

#[test]
fn single_mut_after_despawn_of_the_second_match() {
    let mut world = World::new();
    let first = world.spawn(ferris(1, 0));
    let second = world.spawn(ferris(2, 0));
    let shape = tagged_speed();
    assert_eq!(shape.single_mut(&world).err(), Some(EcsError::AmbiguousMatch));
    world.despawn(first);
    assert_eq!(shape.single_mut(&world).map(|m| m.entity), Ok(second));
    world.despawn(second);
    assert_eq!(shape.single_mut(&world).err(), Some(EcsError::NoMatch));
}

#[test]
fn iterate_gives_the_matches_in_the_order_of_spawning() {
    let mut world = World::new();
    let shape = QueryShape::new(vec![Term::read(ComponentKind::Name)], vec![]);
    assert_eq!(shape.iterate(&world).map(|found| found.len()), Ok(0));

    let a = world.spawn(vec![Component::Name("a".to_string())]);
    world.spawn(vec![Component::Camera]);
    let b = world.spawn(vec![Component::Name("b".to_string()), Component::Ferris]);
    let c = world.spawn(vec![Component::Name("c".to_string())]);
    world.despawn(b);

    let found = shape.iterate(&world).expect("the shape has no clash");
    let entities: Vec<Entity> = found.iter().map(|m| m.entity).collect();
    assert_eq!(entities, vec![a, c]);
    assert_eq!(found[0].components, vec![Component::Name("a".to_string())]);
    assert_eq!(found[1].components, vec![Component::Name("c".to_string())]);

    let again = shape.iterate(&world).expect("the shape has no clash");
    assert_eq!(again.len(), 2);
}

#[test]
fn next_match_walks_the_matches_one_by_one() {
    let mut world = World::new();
    let shape = QueryShape::new(vec![Term::read(ComponentKind::Floor)], vec![]);
    world.spawn(vec![Component::Camera]);
    let a = world.spawn(vec![Component::Floor(Floor { speed: 1 })]);
    let b = world.spawn(vec![Component::Floor(Floor { speed: 2 })]);
    assert_eq!(shape.next_match(&world, 0).map(|m| m.entity), Some(a));
    assert_eq!(shape.next_match(&world, 1).map(|m| m.entity), Some(a));
    assert_eq!(shape.next_match(&world, 2).map(|m| m.entity), Some(b));
    assert!(shape.next_match(&world, 3).is_none());
    assert!(shape.next_match(&world, usize::MAX).is_none());
}

#[test]
fn a_filter_must_be_present_and_is_not_handed_out() {
    let mut world = World::new();
    let plain = world.spawn(vec![Component::Speed(Speed(1))]);
    let tagged = world.spawn(vec![Component::Speed(Speed(2)), Component::Ferris]);
    let shape = QueryShape::new(
        vec![Term::read(ComponentKind::Speed)],
        vec![Filter::With(ComponentKind::Ferris)],
    );
    assert!(shape.probe(&world, plain).is_none());
    let found = shape.probe(&world, tagged).expect("the tagged entity matches");
    assert_eq!(found.components, vec![Component::Speed(Speed(2))]);
}

#[test]
fn an_empty_shape_matches_every_live_entity() {
    let mut world = World::new();
    let shape = QueryShape::new(vec![], vec![]);
    let a = world.spawn(vec![]);
    let b = world.spawn(vec![Component::Camera]);
    world.despawn(a);
    let found = shape.iterate(&world).expect("the shape has no clash");
    assert_eq!(found.len(), 1);
    assert_eq!(found[0].entity, b);
    assert!(found[0].components.is_empty());
}

#[test]
fn two_views_of_one_kind_clash_when_one_writes() {
    let mut world = World::new();
    world.spawn(vec![Component::Transform(Transform::from_xy(0, 0))]);
    let write_write = QueryShape::new(
        vec![Term::write(ComponentKind::Transform), Term::write(ComponentKind::Transform)],
        vec![],
    );
    let read_write = QueryShape::new(
        vec![
            Term::read(ComponentKind::Transform),
            Term::read(ComponentKind::Speed),
            Term { kind: ComponentKind::Transform, access: Access::Write },
        ],
        vec![],
    );
    let read_read = QueryShape::new(
        vec![Term::read(ComponentKind::Transform), Term::read(ComponentKind::Transform)],
        vec![Filter::With(ComponentKind::Transform)],
    );
    assert!(write_write.conflicts());
    assert!(read_write.conflicts());
    assert!(!read_read.conflicts());
    assert_eq!(write_write.single_mut(&world).err(), Some(EcsError::ConflictingBorrow));
    assert_eq!(read_write.single_mut(&world).err(), Some(EcsError::ConflictingBorrow));
    assert_eq!(write_write.iterate(&world).err(), Some(EcsError::ConflictingBorrow));
    assert_eq!(read_read.single_mut(&world).map(|m| m.components.len()), Ok(2));
}

#[test]
fn a_clash_is_reported_before_the_number_of_matches() {
    let world = World::new();
    let clash = QueryShape::new(
        vec![Term::write(ComponentKind::Speed), Term::read(ComponentKind::Speed)],
        vec![],
    );
    assert_eq!(clash.single_mut(&world).err(), Some(EcsError::ConflictingBorrow));
}

#[test]
fn a_filter_can_ask_for_what_a_component_holds() {
    let mut world = World::new();
    let low = world.spawn(vec![
        Component::Obstacle(Obstacle::Bottom(3)),
        Component::Transform(Transform::from_xy(1, 0)),
    ]);
    let high = world.spawn(vec![
        Component::Obstacle(Obstacle::Top(3)),
        Component::Transform(Transform::from_xy(2, 0)),
    ]);
    world.spawn(vec![Component::Transform(Transform::from_xy(3, 0))]);
    let any = QueryShape::new(
        vec![Term::read(ComponentKind::Transform)],
        vec![Filter::With(ComponentKind::Obstacle)],
    );
    let top = QueryShape::new(
        vec![Term::read(ComponentKind::Transform)],
        vec![Filter::Holding(Component::Obstacle(Obstacle::Top(3)))],
    );
    let other = QueryShape::new(
        vec![Term::read(ComponentKind::Transform)],
        vec![Filter::Holding(Component::Obstacle(Obstacle::Top(4)))],
    );
    assert_eq!(any.single_mut(&world).err(), Some(EcsError::AmbiguousMatch));
    let found = top.single_mut(&world).expect("one obstacle is at the top");
    assert_eq!(found.entity, high);
    assert_eq!(found.components, vec![Component::Transform(Transform::from_xy(2, 0))]);
    assert_eq!(other.single_mut(&world).err(), Some(EcsError::NoMatch));
    assert!(top.probe(&world, low).is_none());
}

#[test]
fn a_filter_can_ask_for_a_name() {
    let mut world = World::new();
    world.spawn(vec![Component::Name("Renzo Hume".to_string()), Component::Speed(Speed(1))]);
    let wanted = world.spawn(vec![
        Component::Name("Zayna Nieves".to_string()),
        Component::Speed(Speed(2)),
    ]);
    let shape = QueryShape::new(
        vec![Term::read(ComponentKind::Speed)],
        vec![Filter::Holding(Component::Name("Zayna Nieves".to_string()))],
    );
    let found = shape.single_mut(&world).expect("one entity has the name");
    assert_eq!(found.entity, wanted);
    assert_eq!(found.components, vec![Component::Speed(Speed(2))]);
}

#[test]
fn components_are_the_same_when_kind_and_content_agree() {
    let name = Component::Name("a".to_string());
    assert!(name.same(&Component::Name("a".to_string())));
    assert!(!name.same(&Component::Name("b".to_string())));
    assert!(!name.same(&Component::Ferris));
    assert!(Component::Ferris.same(&Component::Ferris));
    assert!(!Component::Ferris.same(&Component::Camera));
    assert!(Component::Speed(Speed(1)).same(&Component::Speed(Speed(1))));
    assert!(!Component::Speed(Speed(1)).same(&Component::Speed(Speed(2))));
    assert!(!Component::Obstacle(Obstacle::Both(1, 2)).same(&Component::Obstacle(Obstacle::Both(2, 1))));
    assert!(name.clone() == name);
    assert_eq!(name.kind(), ComponentKind::Name);
}
