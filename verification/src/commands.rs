//! Changes to the set of entities, components and resources that systems
//! queue while they run, and that the store carries out afterwards.

use crate::component::{models, Component, ComponentKind, ComponentModel};
use crate::error::EcsError;
use crate::query::{lemma_matching_members, ShapeModel};
use crate::resource::{Resource, ResourceModel};
use crate::world::{Entity, World, WorldModel};
use vstd::prelude::*;

verus! {

/// A change to the set of entities, components or resources, put off until
/// the running systems are done with the store.
#[derive(Debug)]
pub enum Command {
    Spawn(Vec<Component>),
    Despawn(Entity),
    Insert(Entity, Component),
    Remove(Entity, ComponentKind),
    InsertResource(Resource),
}

/// A command as a value of mathematics.
pub enum CommandModel {
    Spawn(Seq<ComponentModel>),
    Despawn(nat),
    Insert(nat, ComponentModel),
    Remove(nat, ComponentKind),
    InsertResource(ResourceModel),
}

impl View for Command {
    type V = CommandModel;

    open spec fn view(&self) -> CommandModel {
        match self {
            Command::Spawn(components) => CommandModel::Spawn(models(components@)),
            Command::Despawn(entity) => CommandModel::Despawn(entity@),
            Command::Insert(entity, component) => CommandModel::Insert(entity@, component@),
            Command::Remove(entity, kind) => CommandModel::Remove(entity@, *kind),
            Command::InsertResource(resource) => CommandModel::InsertResource(resource@),
        }
    }
}

impl WorldModel {
    /// Whether `command` asks to change the components of an entity that is
    /// not alive. Such a command changes nothing.
    pub open spec fn rejects(self, command: CommandModel) -> bool {
        match command {
            CommandModel::Insert(id, _) => !self.alive(id),
            CommandModel::Remove(id, _) => !self.alive(id),
            _ => false,
        }
    }

    /// The store after `command`.
    pub open spec fn apply(self, command: CommandModel) -> WorldModel {
        if self.rejects(command) {
            self
        } else {
            match command {
                CommandModel::Spawn(bundle) => self.spawn(bundle),
                CommandModel::Despawn(id) => self.despawn(id),
                CommandModel::Insert(id, component) => self.insert(id, component),
                CommandModel::Remove(id, kind) => self.remove(id, kind),
                CommandModel::InsertResource(resource) => self.set_resource(resource),
            }
        }
    }

    /// Whether `later` has every identifier that `self` has given out, and
    /// none of those that name nothing in `self` names anything in `later`.
    pub open spec fn keeps_gone(self, later: WorldModel) -> bool {
        &&& self.entities.len() <= later.entities.len()
        &&& forall|id: nat|
            id < self.entities.len() && !self.alive(id) ==> !#[trigger] later.alive(id)
    }

    /// The store after each of `commands`, in order.
    pub open spec fn apply_all(self, commands: Seq<CommandModel>) -> WorldModel
        decreases commands.len(),
    {
        if commands.len() == 0 {
            self
        } else {
            self.apply_all(commands.drop_last()).apply(commands.last())
        }
    }
}

/// The commands that systems have queued, in the order of queueing.
#[derive(Debug)]
pub struct Commands {
    queue: Vec<Command>,
}

impl View for Commands {
    type V = Seq<CommandModel>;

    closed spec fn view(&self) -> Seq<CommandModel> {
        Seq::new(self.queue.len() as nat, |i: int| self.queue[i]@)
    }
}

impl Commands {
    /// An empty queue.
    pub fn new() -> (commands: Commands)
        ensures
            commands@ == Seq::<CommandModel>::empty(),
    {
        let commands = Commands { queue: Vec::new() };
        commands
    }

    /// How many commands are queued.
    pub fn len(&self) -> (n: usize)
        ensures
            n == self@.len(),
    {
        self.queue.len()
    }

    /// Queues `command`.
    pub fn push(&mut self, command: Command)
        ensures
            final(self)@ == old(self)@.push(command@),
    {
        self.queue.push(command);
    }

    /// Queues the spawning of an entity with `components`.
    pub fn spawn(&mut self, components: Vec<Component>)
        ensures
            final(self)@ == old(self)@.push(CommandModel::Spawn(models(components@))),
    {
        self.push(Command::Spawn(components));
    }

    /// Queues the despawning of `entity`.
    pub fn despawn(&mut self, entity: Entity)
        ensures
            final(self)@ == old(self)@.push(CommandModel::Despawn(entity@)),
    {
        self.push(Command::Despawn(entity));
    }

    /// Queues the attaching of `component` to `entity`.
    pub fn insert(&mut self, entity: Entity, component: Component)
        ensures
            final(self)@ == old(self)@.push(CommandModel::Insert(entity@, component@)),
    {
        self.push(Command::Insert(entity, component));
    }

    /// Queues the taking of the component of `kind` from `entity`.
    pub fn remove(&mut self, entity: Entity, kind: ComponentKind)
        ensures
            final(self)@ == old(self)@.push(CommandModel::Remove(entity@, kind)),
    {
        self.push(Command::Remove(entity, kind));
    }

    /// Queues the inserting of `resource`.
    pub fn insert_resource(&mut self, resource: Resource)
        ensures
            final(self)@ == old(self)@.push(CommandModel::InsertResource(resource@)),
    {
        self.push(Command::InsertResource(resource));
    }
}

impl World {
    /// Carries out `command`. A command that asks to change the components
    /// of an entity that is not alive changes nothing and is reported.
    pub fn apply(&mut self, command: &Command) -> (r: Result<(), EcsError>)
        requires
            old(self).wf(),
        ensures
            final(self).wf(),
            final(self)@ == old(self)@.apply(command@),
            old(self)@.rejects(command@) ==> r == Err::<(), EcsError>(EcsError::EntityNotFound),
            !old(self)@.rejects(command@) ==> r is Ok,
    {
        match command {
            Command::Spawn(components) => {
                self.spawn_from(components);
                Ok(())
            },
            Command::Despawn(entity) => {
                self.despawn(*entity);
                Ok(())
            },
            Command::Insert(entity, component) => self.insert_component(
                *entity,
                component.clone(),
            ),
            Command::Remove(entity, kind) => self.remove_component(*entity, *kind),
            Command::InsertResource(resource) => {
                self.insert_resource(*resource);
                Ok(())
            },
        }
    }

    /// Carries out the queued commands in order, and leaves the queue empty.
    pub fn flush(&mut self, commands: &mut Commands)
        requires
            old(self).wf(),
        ensures
            final(self).wf(),
            final(self)@ == old(self)@.apply_all(old(commands)@),
            final(commands)@ == Seq::<CommandModel>::empty(),
    {
        let mut i: usize = 0;
        while i < commands.queue.len()
            invariant
                self.wf(),
                *commands == *old(commands),
                i <= commands.queue.len(),
                self@ == old(self)@.apply_all(commands@.take(i as int)),
            decreases commands.queue.len() - i,
        {
            let _ = self.apply(&commands.queue[i]);
            proof {
                let taken = commands@.take(i + 1);
                assert(taken.drop_last() =~= commands@.take(i as int));
            }
            i = i + 1;
        }
        assert(commands@.take(i as int) =~= commands@);
        commands.queue.clear();
    }
}

/// No command gives a despawned entity's identifier to anything.
pub proof fn lemma_apply_keeps_gone(world: WorldModel, command: CommandModel)
    ensures
        world.keeps_gone(world.apply(command)),
{
}

/// No sequence of commands gives a despawned entity's identifier to
/// anything.
pub proof fn lemma_apply_all_keeps_gone(world: WorldModel, commands: Seq<CommandModel>)
    ensures
        world.keeps_gone(world.apply_all(commands)),
    decreases commands.len(),
{
    if commands.len() > 0 {
        lemma_apply_all_keeps_gone(world, commands.drop_last());
        lemma_apply_keeps_gone(world.apply_all(commands.drop_last()), commands.last());
    }
}

/// An entity that was spawned and then despawned is not found again,
/// whatever commands follow: its identifier names no live entity, and no
/// query finds it.
pub proof fn lemma_despawned_stays_gone(
    world: WorldModel,
    bundle: Seq<ComponentModel>,
    commands: Seq<CommandModel>,
    shape: ShapeModel,
)
    ensures
        ({
            let id = world.entities.len();
            let later = world.spawn(bundle).despawn(id).apply_all(commands);
            &&& world.spawn(bundle).alive(id)
            &&& !later.alive(id)
            &&& !later.matches(shape, id)
            &&& !later.matching(shape).contains(id)
            &&& later.single(shape) != Ok::<nat, EcsError>(id)
        }),
{
    let id = world.entities.len();
    let gone = world.spawn(bundle).despawn(id);
    let later = gone.apply_all(commands);
    lemma_apply_all_keeps_gone(gone, commands);
    lemma_matching_members(later, shape, later.entities.len(), id);
}

} // verus!
