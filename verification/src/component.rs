//! The data that can be attached to an entity.
//!
//! Lengths are whole thousandths of a pixel, and speeds are thousandths of a
//! pixel per second.

use vstd::prelude::*;

verus! {

/// How many kinds of component there are.
pub const COMPONENT_KINDS: usize = 8;

/// The speed of an entity that was given none: 500 pixels per second.
pub const DEFAULT_SPEED: i32 = 500_000;

/// The kind of a component. An entity holds at most one component of each.
#[derive(Clone, Copy, Debug, PartialEq, Eq, Structural)]
pub enum ComponentKind {
    Name,
    Transform,
    Speed,
    Ferris,
    Floor,
    Obstacle,
    Sprite,
    Camera,
}

impl ComponentKind {
    /// The place of this kind among the kinds, counted from zero.
    pub open spec fn ordinal(self) -> nat {
        match self {
            ComponentKind::Name => 0,
            ComponentKind::Transform => 1,
            ComponentKind::Speed => 2,
            ComponentKind::Ferris => 3,
            ComponentKind::Floor => 4,
            ComponentKind::Obstacle => 5,
            ComponentKind::Sprite => 6,
            ComponentKind::Camera => 7,
        }
    }

    /// The place of this kind among the kinds, counted from zero.
    pub fn index(&self) -> (i: usize)
        ensures
            i == self.ordinal(),
            i < COMPONENT_KINDS,
    {
        match self {
            ComponentKind::Name => 0,
            ComponentKind::Transform => 1,
            ComponentKind::Speed => 2,
            ComponentKind::Ferris => 3,
            ComponentKind::Floor => 4,
            ComponentKind::Obstacle => 5,
            ComponentKind::Sprite => 6,
            ComponentKind::Camera => 7,
        }
    }
}

/// A position in the plane, in thousandths of a pixel.
#[derive(Clone, Copy, Debug, PartialEq, Eq, Structural)]
pub struct Transform {
    pub x: i64,
    pub y: i64,
}

impl Transform {
    /// The position `(x, y)`.
    pub fn from_xy(x: i64, y: i64) -> (t: Transform)
        ensures
            t == (Transform { x, y }),
    {
        Transform { x, y }
    }
}

/// How fast an entity moves, in thousandths of a pixel per second.
#[derive(Clone, Copy, Debug, PartialEq, Eq, Structural)]
pub struct Speed(pub i32);

impl Default for Speed {
    fn default() -> (s: Speed)
        ensures
            s == Speed(DEFAULT_SPEED),
    {
        Speed(DEFAULT_SPEED)
    }
}

/// The strip of ground, which scrolls at `speed` thousandths of a pixel per
/// second.
#[derive(Clone, Copy, Debug, PartialEq, Eq, Structural)]
pub struct Floor {
    pub speed: i32,
}

/// Something in the way: at the bottom, at the top, or both.
#[derive(Clone, Copy, Debug, PartialEq, Eq, Structural)]
pub enum Obstacle {
    Bottom(u8),
    Top(u8),
    Both(u8, u8),
}

/// Stands for something that the asset loader holds. The store keeps handles
/// and hands them on; it never looks behind one.
#[derive(Clone, Copy, Debug, PartialEq, Eq, Structural)]
pub struct Handle(pub u64);

/// What is drawn for an entity: a material, and a size in thousandths of a
/// pixel.
#[derive(Clone, Copy, Debug, PartialEq, Eq, Structural)]
pub struct Sprite {
    pub material: Handle,
    pub width: i64,
    pub height: i64,
}

/// A piece of data attached to one entity.
#[derive(Debug, PartialEq, Eq)]
pub enum Component {
    Name(String),
    Transform(Transform),
    Speed(Speed),
    /// Marks the entity that the arrow keys move.
    Ferris,
    Floor(Floor),
    Obstacle(Obstacle),
    Sprite(Sprite),
    /// Marks the entity through which the scene is seen.
    Camera,
}

/// A component as a value of mathematics: a name is its characters.
pub enum ComponentModel {
    Name(Seq<char>),
    Transform(Transform),
    Speed(Speed),
    Ferris,
    Floor(Floor),
    Obstacle(Obstacle),
    Sprite(Sprite),
    Camera,
}

impl ComponentModel {
    pub open spec fn kind(self) -> ComponentKind {
        match self {
            ComponentModel::Name(_) => ComponentKind::Name,
            ComponentModel::Transform(_) => ComponentKind::Transform,
            ComponentModel::Speed(_) => ComponentKind::Speed,
            ComponentModel::Ferris => ComponentKind::Ferris,
            ComponentModel::Floor(_) => ComponentKind::Floor,
            ComponentModel::Obstacle(_) => ComponentKind::Obstacle,
            ComponentModel::Sprite(_) => ComponentKind::Sprite,
            ComponentModel::Camera => ComponentKind::Camera,
        }
    }
}

impl View for Component {
    type V = ComponentModel;

    open spec fn view(&self) -> ComponentModel {
        match self {
            Component::Name(s) => ComponentModel::Name(s@),
            Component::Transform(t) => ComponentModel::Transform(*t),
            Component::Speed(s) => ComponentModel::Speed(*s),
            Component::Ferris => ComponentModel::Ferris,
            Component::Floor(f) => ComponentModel::Floor(*f),
            Component::Obstacle(o) => ComponentModel::Obstacle(*o),
            Component::Sprite(s) => ComponentModel::Sprite(*s),
            Component::Camera => ComponentModel::Camera,
        }
    }
}

impl Clone for Component {
    fn clone(&self) -> (c: Component)
        ensures
            c@ == self@,
    {
        match self {
            Component::Name(s) => Component::Name(s.clone()),
            Component::Transform(t) => Component::Transform(*t),
            Component::Speed(s) => Component::Speed(*s),
            Component::Ferris => Component::Ferris,
            Component::Floor(f) => Component::Floor(*f),
            Component::Obstacle(o) => Component::Obstacle(*o),
            Component::Sprite(s) => Component::Sprite(*s),
            Component::Camera => Component::Camera,
        }
    }
}

impl Component {
    /// Whether the two components are of the same kind and hold the same.
    pub fn same(&self, other: &Component) -> (r: bool)
        ensures
            r == (self@ == other@),
    {
        match self {
            Component::Name(a) => match other {
                Component::Name(b) => *a == *b,
                _ => false,
            },
            Component::Transform(a) => match other {
                Component::Transform(b) => *a == *b,
                _ => false,
            },
            Component::Speed(a) => match other {
                Component::Speed(b) => *a == *b,
                _ => false,
            },
            Component::Ferris => match other {
                Component::Ferris => true,
                _ => false,
            },
            Component::Floor(a) => match other {
                Component::Floor(b) => *a == *b,
                _ => false,
            },
            Component::Obstacle(a) => match other {
                Component::Obstacle(b) => *a == *b,
                _ => false,
            },
            Component::Sprite(a) => match other {
                Component::Sprite(b) => *a == *b,
                _ => false,
            },
            Component::Camera => match other {
                Component::Camera => true,
                _ => false,
            },
        }
    }

    /// The kind of this component.
    pub fn kind(&self) -> (k: ComponentKind)
        ensures
            k == self@.kind(),
    {
        match self {
            Component::Name(_) => ComponentKind::Name,
            Component::Transform(_) => ComponentKind::Transform,
            Component::Speed(_) => ComponentKind::Speed,
            Component::Ferris => ComponentKind::Ferris,
            Component::Floor(_) => ComponentKind::Floor,
            Component::Obstacle(_) => ComponentKind::Obstacle,
            Component::Sprite(_) => ComponentKind::Sprite,
            Component::Camera => ComponentKind::Camera,
        }
    }
}

/// The components of `items`, each as a value of mathematics.
pub open spec fn models(items: Seq<Component>) -> Seq<ComponentModel> {
    Seq::new(items.len(), |i: int| items[i]@)
}

} // verus!
