//! The values of which a store holds at most one of each kind.

use crate::component::Handle;
use crate::timer::{Timer, TimerView};
use vstd::prelude::*;

verus! {

/// How many kinds of resource there are.
pub const RESOURCE_KINDS: usize = 5;

/// The kind of a resource. The store holds at most one resource of each.
#[derive(Clone, Copy, Debug, PartialEq, Eq, Structural)]
pub enum ResourceKind {
    Assets,
    Materials,
    FerrisState,
    Input,
    GreetTimer,
}

impl ResourceKind {
    /// The place of this kind among the kinds, counted from zero.
    pub open spec fn ordinal(self) -> nat {
        match self {
            ResourceKind::Assets => 0,
            ResourceKind::Materials => 1,
            ResourceKind::FerrisState => 2,
            ResourceKind::Input => 3,
            ResourceKind::GreetTimer => 4,
        }
    }

    /// The place of this kind among the kinds, counted from zero.
    pub fn index(&self) -> (i: usize)
        ensures
            i == self.ordinal(),
            i < RESOURCE_KINDS,
    {
        match self {
            ResourceKind::Assets => 0,
            ResourceKind::Materials => 1,
            ResourceKind::FerrisState => 2,
            ResourceKind::Input => 3,
            ResourceKind::GreetTimer => 4,
        }
    }
}

/// What the asset loader returned for the three things the scene is drawn
/// with: the floor's colour, the picture of Ferris, and the tiles.
#[derive(Clone, Copy, Debug, PartialEq, Eq, Structural)]
pub struct Assets {
    pub floor: Handle,
    pub ferris: Handle,
    pub env: Handle,
}

/// The materials that sprites spawned after startup are drawn with.
#[derive(Clone, Copy, Debug, PartialEq, Eq, Structural)]
pub struct Materials {
    pub ferris: Handle,
    pub env: Handle,
}

/// Whether Ferris has been spawned.
#[derive(Clone, Copy, Debug, PartialEq, Eq, Structural)]
pub struct FerrisState {
    pub on: bool,
}

impl FerrisState {
    /// Records that Ferris has been spawned.
    pub fn spawned(&mut self)
        ensures
            final(self).on,
    {
        self.on = true;
    }
}

impl Default for FerrisState {
    fn default() -> (s: FerrisState)
        ensures
            s == (FerrisState { on: false }),
    {
        FerrisState { on: false }
    }
}

/// A key that the movement system reads.
#[derive(Clone, Copy, Debug, PartialEq, Eq, Structural)]
pub enum KeyCode {
    Left,
    Right,
    Up,
    Down,
}

/// Which keys are held down in the current frame.
#[derive(Clone, Copy, Debug, PartialEq, Eq, Structural)]
pub struct Input {
    pub left: bool,
    pub right: bool,
    pub up: bool,
    pub down: bool,
}

impl Input {
    /// Whether `key` is held down.
    pub open spec fn held(self, key: KeyCode) -> bool {
        match key {
            KeyCode::Left => self.left,
            KeyCode::Right => self.right,
            KeyCode::Up => self.up,
            KeyCode::Down => self.down,
        }
    }

    /// Whether `key` is held down.
    pub fn pressed(&self, key: KeyCode) -> (r: bool)
        ensures
            r == self.held(key),
    {
        match key {
            KeyCode::Left => self.left,
            KeyCode::Right => self.right,
            KeyCode::Up => self.up,
            KeyCode::Down => self.down,
        }
    }
}

impl Default for Input {
    fn default() -> (i: Input)
        ensures
            i == (Input { left: false, right: false, up: false, down: false }),
    {
        Input { left: false, right: false, up: false, down: false }
    }
}

/// A value of which the store holds at most one of each kind.
#[derive(Clone, Copy, Debug, PartialEq, Eq)]
pub enum Resource {
    Assets(Assets),
    Materials(Materials),
    FerrisState(FerrisState),
    Input(Input),
    GreetTimer(Timer),
}

/// A resource as a value of mathematics: a timer is its view.
pub enum ResourceModel {
    Assets(Assets),
    Materials(Materials),
    FerrisState(FerrisState),
    Input(Input),
    GreetTimer(TimerView),
}

impl ResourceModel {
    pub open spec fn kind(self) -> ResourceKind {
        match self {
            ResourceModel::Assets(_) => ResourceKind::Assets,
            ResourceModel::Materials(_) => ResourceKind::Materials,
            ResourceModel::FerrisState(_) => ResourceKind::FerrisState,
            ResourceModel::Input(_) => ResourceKind::Input,
            ResourceModel::GreetTimer(_) => ResourceKind::GreetTimer,
        }
    }
}

impl View for Resource {
    type V = ResourceModel;

    open spec fn view(&self) -> ResourceModel {
        match self {
            Resource::Assets(a) => ResourceModel::Assets(*a),
            Resource::Materials(m) => ResourceModel::Materials(*m),
            Resource::FerrisState(s) => ResourceModel::FerrisState(*s),
            Resource::Input(i) => ResourceModel::Input(*i),
            Resource::GreetTimer(t) => ResourceModel::GreetTimer(t@),
        }
    }
}

impl Resource {
    /// The kind of this resource.
    pub fn kind(&self) -> (k: ResourceKind)
        ensures
            k == self@.kind(),
    {
        match self {
            Resource::Assets(_) => ResourceKind::Assets,
            Resource::Materials(_) => ResourceKind::Materials,
            Resource::FerrisState(_) => ResourceKind::FerrisState,
            Resource::Input(_) => ResourceKind::Input,
            Resource::GreetTimer(_) => ResourceKind::GreetTimer,
        }
    }
}

} // verus!
