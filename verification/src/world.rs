//! The store: every entity with its components, and every resource.

use crate::component::{models, Component, ComponentKind, ComponentModel, COMPONENT_KINDS};
use crate::error::EcsError;
use crate::resource::{Resource, ResourceKind, ResourceModel, RESOURCE_KINDS};
use vstd::pervasive::unreached;
use vstd::prelude::*;

verus! {

/// Names one entity. An identifier is given out once: after its entity has
/// been despawned it names nothing, for good.
#[derive(Clone, Copy, Debug, PartialEq, Eq, Structural, Hash)]
pub struct Entity {
    index: usize,
}

impl View for Entity {
    type V = nat;

    closed spec fn view(&self) -> nat {
        self.index as nat
    }
}

impl Entity {
    /// The identifier that was given to the entity spawned after `index`
    /// others.
    pub fn from_index(index: usize) -> (e: Entity)
        ensures
            e@ == index,
    {
        Entity { index }
    }

    /// How many entities were spawned before this one.
    pub fn index(&self) -> (i: usize)
        ensures
            i == self@,
    {
        self.index
    }
}

/// The components that a bundle leaves on a new entity: where two are of one
/// kind, the later one.
pub open spec fn bundle_map(bundle: Seq<ComponentModel>) -> Map<ComponentKind, ComponentModel>
    decreases bundle.len(),
{
    if bundle.len() == 0 {
        Map::empty()
    } else {
        bundle_map(bundle.drop_last()).insert(bundle.last().kind(), bundle.last())
    }
}

/// The store as a value of mathematics.
pub struct WorldModel {
    /// One entry for each entity ever spawned, in the order of spawning: the
    /// components of a live entity by their kinds, and `None` for an entity
    /// that has been despawned.
    pub entities: Seq<Option<Map<ComponentKind, ComponentModel>>>,
    /// The resources by their kinds.
    pub resources: Map<ResourceKind, ResourceModel>,
}

impl WorldModel {
    /// The store that holds nothing.
    pub open spec fn empty() -> WorldModel {
        WorldModel { entities: Seq::empty(), resources: Map::empty() }
    }

    /// Every component and every resource is filed under its own kind.
    pub open spec fn wf(self) -> bool {
        &&& forall|id: nat, kind: ComponentKind|
            self.alive(id) && #[trigger] self.components(id).contains_key(kind)
                ==> self.components(id)[kind].kind() == kind
        &&& forall|kind: ResourceKind| #[trigger]
            self.resources.contains_key(kind) ==> self.resources[kind].kind() == kind
    }

    /// Whether `id` names an entity that has been spawned and not despawned.
    pub open spec fn alive(self, id: nat) -> bool {
        id < self.entities.len() && self.entities[id as int] is Some
    }

    /// The components of the live entity `id`.
    pub open spec fn components(self, id: nat) -> Map<ComponentKind, ComponentModel>
        recommends
            self.alive(id),
    {
        self.entities[id as int]->0
    }

    /// Whether the live entity `id` has a component of `kind`.
    pub open spec fn has(self, id: nat, kind: ComponentKind) -> bool {
        self.alive(id) && self.components(id).contains_key(kind)
    }

    /// The store after a new entity with the components of `bundle` has
    /// been spawned. Its identifier is the number of entities spawned before.
    pub open spec fn spawn(self, bundle: Seq<ComponentModel>) -> WorldModel {
        WorldModel { entities: self.entities.push(Some(bundle_map(bundle))), ..self }
    }

    /// The store after `id` has been despawned: unchanged where `id` names
    /// no live entity.
    pub open spec fn despawn(self, id: nat) -> WorldModel {
        if self.alive(id) {
            WorldModel { entities: self.entities.update(id as int, None), ..self }
        } else {
            self
        }
    }

    /// The store after the live entity `id` was given `component`, in place
    /// of any component of the same kind that it had.
    pub open spec fn insert(self, id: nat, component: ComponentModel) -> WorldModel
        recommends
            self.alive(id),
    {
        WorldModel {
            entities: self.entities.update(
                id as int,
                Some(self.components(id).insert(component.kind(), component)),
            ),
            ..self
        }
    }

    /// The store after the live entity `id` lost its component of `kind`, if
    /// it had one.
    pub open spec fn remove(self, id: nat, kind: ComponentKind) -> WorldModel
        recommends
            self.alive(id),
    {
        WorldModel {
            entities: self.entities.update(id as int, Some(self.components(id).remove(kind))),
            ..self
        }
    }

    /// The store after `resource` was inserted, in place of any resource of
    /// the same kind.
    pub open spec fn set_resource(self, resource: ResourceModel) -> WorldModel {
        WorldModel { resources: self.resources.insert(resource.kind(), resource), ..self }
    }
}

/// Whether a place in the store holds a value of the kind that the place is
/// for. A place that holds anything else counts as empty.
spec fn filed(slot: Option<Component>, kind: ComponentKind) -> bool {
    slot is Some && slot->0@.kind() == kind
}

spec fn kept(slot: Option<Resource>, kind: ResourceKind) -> bool {
    slot is Some && slot->0@.kind() == kind
}

/// The components of one entity, as the store lays them out: one place for
/// each kind.
spec fn row_model(row: Seq<Option<Component>>) -> Map<ComponentKind, ComponentModel> {
    Map::new(
        |kind: ComponentKind| filed(row[kind.ordinal() as int], kind),
        |kind: ComponentKind| row[kind.ordinal() as int]->0@,
    )
}

spec fn slot_model(slot: Option<Vec<Option<Component>>>) -> Option<
    Map<ComponentKind, ComponentModel>,
> {
    match slot {
        Some(row) => Some(row_model(row@)),
        None => None,
    }
}

/// Owns every entity with its components, and every resource.
///
/// An entity's identifier is the number of entities spawned before it, so
/// the entities are met in the order of spawning, and a despawned entity
/// leaves an empty place that no later entity takes.
pub struct World {
    entities: Vec<Option<Vec<Option<Component>>>>,
    resources: Vec<Option<Resource>>,
}

impl View for World {
    type V = WorldModel;

    closed spec fn view(&self) -> WorldModel {
        WorldModel {
            entities: Seq::new(self.entities.len() as nat, |i: int| slot_model(self.entities[i])),
            resources: Map::new(
                |kind: ResourceKind| kept(self.resources[kind.ordinal() as int], kind),
                |kind: ResourceKind| self.resources[kind.ordinal() as int]->0@,
            ),
        }
    }
}

fn empty_row() -> (row: Vec<Option<Component>>)
    ensures
        row.len() == COMPONENT_KINDS,
        row_model(row@) == Map::<ComponentKind, ComponentModel>::empty(),
{
    let mut row: Vec<Option<Component>> = Vec::new();
    let mut i: usize = 0;
    while i < COMPONENT_KINDS
        invariant
            i <= COMPONENT_KINDS,
            row.len() == i,
            forall|j: int| 0 <= j < i ==> row[j] is None,
        decreases COMPONENT_KINDS - i,
    {
        row.push(None);
        i = i + 1;
    }
    row
}

impl World {
    /// What the store keeps true of its own layout: it has a place for each
    /// kind of resource, and for each kind of component of each entity. It
    /// holds of every store that `new` made, after any calls of the
    /// functions below.
    pub closed spec fn wf(&self) -> bool {
        &&& self.resources.len() == RESOURCE_KINDS
        &&& forall|i: int|
            0 <= i < self.entities.len() && (#[trigger] self.entities[i]) is Some
                ==> self.entities[i]->0.len() == COMPONENT_KINDS
    }

    /// Every component and every resource of a store is filed under its own
    /// kind.
    pub proof fn lemma_view_wf(&self)
        ensures
            self@.wf(),
    {
    }

    /// A store that holds nothing.
    pub fn new() -> (world: World)
        ensures
            world.wf(),
            world@ == WorldModel::empty(),
    {
        let mut resources: Vec<Option<Resource>> = Vec::new();
        let mut i: usize = 0;
        while i < RESOURCE_KINDS
            invariant
                i <= RESOURCE_KINDS,
                resources.len() == i,
                forall|j: int| 0 <= j < i ==> resources[j] is None,
            decreases RESOURCE_KINDS - i,
        {
            resources.push(None);
            i = i + 1;
        }
        let world = World { entities: Vec::new(), resources };
        assert(world@.entities =~= Seq::empty());
        assert(world@.resources =~= Map::empty());
        world
    }

    /// How many entities have been spawned so far, despawned ones included.
    /// The next entity gets this number as its identifier.
    pub fn spawned(&self) -> (n: usize)
        ensures
            n == self@.entities.len(),
    {
        self.entities.len()
    }

    /// Whether `entity` has been spawned and not despawned.
    pub fn contains(&self, entity: Entity) -> (r: bool)
        ensures
            r == self@.alive(entity@),
    {
        entity.index < self.entities.len() && self.entities[entity.index].is_some()
    }

    /// Spawns an entity with `components`. Where two of them are of one
    /// kind, the later one stays.
    pub fn spawn(&mut self, components: Vec<Component>) -> (entity: Entity)
        requires
            old(self).wf(),
        ensures
            final(self).wf(),
            final(self)@ == old(self)@.spawn(models(components@)),
            entity@ == old(self)@.entities.len(),
    {
        self.spawn_from(&components)
    }

    /// Spawns an entity with a copy of each of `components`.
    pub fn spawn_from(&mut self, components: &Vec<Component>) -> (entity: Entity)
        requires
            old(self).wf(),
        ensures
            final(self).wf(),
            final(self)@ == old(self)@.spawn(models(components@)),
            entity@ == old(self)@.entities.len(),
    {
        let mut row = empty_row();
        let mut i: usize = 0;
        while i < components.len()
            invariant
                i <= components.len(),
                row.len() == COMPONENT_KINDS,
                row_model(row@) == bundle_map(models(components@).take(i as int)),
            decreases components.len() - i,
        {
            let component = components[i].clone();
            let place = component.kind().index();
            row[place] = Some(component);
            proof {
                let taken = models(components@).take(i + 1);
                assert(taken.drop_last() =~= models(components@).take(i as int));
            }
            i = i + 1;
        }
        assert(models(components@).take(i as int) =~= models(components@));
        let entity = Entity { index: self.entities.len() };
        self.entities.push(Some(row));
        assert(self@.entities =~= old(self)@.entities.push(Some(bundle_map(models(components@)))));
        entity
    }

    /// Removes `entity` with all its components. Where it names no live
    /// entity, nothing changes.
    pub fn despawn(&mut self, entity: Entity)
        requires
            old(self).wf(),
        ensures
            final(self).wf(),
            final(self)@ == old(self)@.despawn(entity@),
            !final(self)@.alive(entity@),
    {
        if entity.index < self.entities.len() && self.entities[entity.index].is_some() {
            self.entities[entity.index] = None;
            assert(self@.entities =~= old(self)@.entities.update(entity@ as int, None));
        }
    }

    /// Attaches `component` to `entity`, in place of any component of the
    /// same kind that it had.
    pub fn insert_component(&mut self, entity: Entity, component: Component) -> (r: Result<
        (),
        EcsError,
    >)
        requires
            old(self).wf(),
        ensures
            final(self).wf(),
            old(self)@.alive(entity@) ==> r is Ok && final(self)@ == old(self)@.insert(
                entity@,
                component@,
            ),
            !old(self)@.alive(entity@) ==> r == Err::<(), EcsError>(EcsError::EntityNotFound)
                && final(self)@ == old(self)@,
    {
        if entity.index >= self.entities.len() || self.entities[entity.index].is_none() {
            return Err(EcsError::EntityNotFound);
        }
        let place = component.kind().index();
        match &mut self.entities[entity.index] {
            Some(row) => {
                let ghost before = row@;
                row[place] = Some(component);
                assert(row_model(row@) =~= row_model(before).insert(
                    component@.kind(),
                    component@,
                ));
            },
            None => unreached(),
        }
        assert(self@.entities =~= old(self)@.insert(entity@, component@).entities);
        Ok(())
    }

    /// Takes the component of `kind` from `entity`, if it has one.
    pub fn remove_component(&mut self, entity: Entity, kind: ComponentKind) -> (r: Result<
        (),
        EcsError,
    >)
        requires
            old(self).wf(),
        ensures
            final(self).wf(),
            old(self)@.alive(entity@) ==> r is Ok && final(self)@ == old(self)@.remove(
                entity@,
                kind,
            ),
            !old(self)@.alive(entity@) ==> r == Err::<(), EcsError>(EcsError::EntityNotFound)
                && final(self)@ == old(self)@,
    {
        if entity.index >= self.entities.len() || self.entities[entity.index].is_none() {
            return Err(EcsError::EntityNotFound);
        }
        let place = kind.index();
        match &mut self.entities[entity.index] {
            Some(row) => {
                let ghost before = row@;
                row[place] = None;
                assert(row_model(row@) =~= row_model(before).remove(kind));
            },
            None => unreached(),
        }
        assert(self@.entities =~= old(self)@.remove(entity@, kind).entities);
        Ok(())
    }

    /// Whether `entity` is alive and has a component of `kind`.
    pub fn has(&self, entity: Entity, kind: ComponentKind) -> (r: bool)
        requires
            self.wf(),
        ensures
            r == self@.has(entity@, kind),
    {
        self.get(entity, kind).is_ok()
    }

    /// The component of `kind` that `entity` has.
    pub fn get(&self, entity: Entity, kind: ComponentKind) -> (r: Result<&Component, EcsError>)
        requires
            self.wf(),
        ensures
            !self@.alive(entity@) ==> r == Err::<&Component, EcsError>(EcsError::EntityNotFound),
            self@.alive(entity@) && !self@.has(entity@, kind) ==> r == Err::<&Component, EcsError>(
                EcsError::NoMatch,
            ),
            self@.has(entity@, kind) ==> r is Ok && r->Ok_0@ == self@.components(entity@)[kind],
    {
        if entity.index >= self.entities.len() {
            return Err(EcsError::EntityNotFound);
        }
        match &self.entities[entity.index] {
            Some(row) => match &row[kind.index()] {
                Some(component) => {
                    if component.kind() == kind {
                        Ok(component)
                    } else {
                        Err(EcsError::NoMatch)
                    }
                },
                None => Err(EcsError::NoMatch),
            },
            None => Err(EcsError::EntityNotFound),
        }
    }

    /// Inserts `resource`, in place of any resource of the same kind.
    pub fn insert_resource(&mut self, resource: Resource)
        requires
            old(self).wf(),
        ensures
            final(self).wf(),
            final(self)@ == old(self)@.set_resource(resource@),
    {
        let place = resource.kind().index();
        self.resources[place] = Some(resource);
        assert(self@.resources =~= old(self)@.resources.insert(resource@.kind(), resource@));
    }

    /// The resource of `kind`.
    pub fn get_resource(&self, kind: ResourceKind) -> (r: Result<&Resource, EcsError>)
        requires
            self.wf(),
        ensures
            self@.resources.contains_key(kind) ==> r is Ok && r->Ok_0@ == self@.resources[kind],
            !self@.resources.contains_key(kind) ==> r == Err::<&Resource, EcsError>(
                EcsError::ResourceMissing,
            ),
    {
        match &self.resources[kind.index()] {
            Some(resource) => {
                if resource.kind() == kind {
                    Ok(resource)
                } else {
                    Err(EcsError::ResourceMissing)
                }
            },
            None => Err(EcsError::ResourceMissing),
        }
    }

    /// The resource of `kind`, to be changed in place. What the caller
    /// leaves behind is the resource of `kind` from then on; if it is of
    /// another kind, the store has no resource of `kind` any more.
    pub fn get_resource_mut(&mut self, kind: ResourceKind) -> (r: Result<&mut Resource, EcsError>)
        requires
            old(self).wf(),
        ensures
            final(self).wf(),
            final(self)@.entities == old(self)@.entities,
            match r {
                Ok(resource) => {
                    &&& old(self)@.resources.contains_key(kind)
                    &&& resource@ == old(self)@.resources[kind]
                    &&& final(self)@.resources =~= if final(resource)@.kind() == kind {
                        old(self)@.resources.insert(kind, final(resource)@)
                    } else {
                        old(self)@.resources.remove(kind)
                    }
                },
                Err(e) => {
                    &&& e == EcsError::ResourceMissing
                    &&& !old(self)@.resources.contains_key(kind)
                    &&& final(self)@ == old(self)@
                },
            },
    {
        if self.get_resource(kind).is_err() {
            return Err(EcsError::ResourceMissing);
        }
        match &mut self.resources[kind.index()] {
            Some(resource) => Ok(resource),
            None => unreached(),
        }
    }

    /// The component of `kind` that `entity` has, to be changed in place.
    /// What the caller leaves behind is the entity's component of `kind`
    /// from then on; if it is of another kind, the entity has no component
    /// of `kind` any more.
    pub fn get_mut(&mut self, entity: Entity, kind: ComponentKind) -> (r: Result<
        &mut Component,
        EcsError,
    >)
        requires
            old(self).wf(),
        ensures
            final(self).wf(),
            final(self)@.resources == old(self)@.resources,
            match r {
                Ok(component) => {
                    &&& old(self)@.has(entity@, kind)
                    &&& component@ == old(self)@.components(entity@)[kind]
                    &&& final(self)@.entities =~~= old(self)@.entities.update(
                        entity@ as int,
                        Some(
                            if final(component)@.kind() == kind {
                                old(self)@.components(entity@).insert(kind, final(component)@)
                            } else {
                                old(self)@.components(entity@).remove(kind)
                            },
                        ),
                    )
                },
                Err(e) => {
                    &&& e == if old(self)@.alive(entity@) {
                        EcsError::NoMatch
                    } else {
                        EcsError::EntityNotFound
                    }
                    &&& !old(self)@.has(entity@, kind)
                    &&& final(self)@ == old(self)@
                },
            },
    {
        match self.get(entity, kind) {
            Ok(_) => {},
            Err(e) => {
                return Err(e);
            },
        }
        match &mut self.entities[entity.index] {
            Some(row) => match &mut row[kind.index()] {
                Some(component) => Ok(component),
                None => unreached(),
            },
            None => unreached(),
        }
    }
}

/// Despawning an entity twice is despawning it once: the second time
/// nothing changes.
pub proof fn lemma_despawn_twice(world: WorldModel, id: nat)
    ensures
        !world.despawn(id).alive(id),
        world.despawn(id).despawn(id) == world.despawn(id),
{
}

} // verus!
