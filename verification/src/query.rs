//! Queries: what a system asks of the store, and what the store gives it.

use crate::component::{Component, ComponentKind, ComponentModel};
use crate::error::EcsError;
use crate::world::{bundle_map, Entity, World, WorldModel};
use vstd::prelude::*;

verus! {

/// How a query uses a component that it asks for.
#[derive(Clone, Copy, Debug, PartialEq, Eq, Structural)]
pub enum Access {
    Read,
    Write,
}

/// One component kind that a query asks for, and how it uses it.
#[derive(Clone, Copy, Debug, PartialEq, Eq, Structural)]
pub struct Term {
    pub kind: ComponentKind,
    pub access: Access,
}

impl Term {
    /// Whether the two terms cannot stand in one query: they name the same
    /// kind, and one of them writes.
    pub open spec fn clashes(self, other: Term) -> bool {
        self.kind == other.kind && (self.access == Access::Write || other.access == Access::Write)
    }

    /// A term that reads `kind`.
    pub fn read(kind: ComponentKind) -> (t: Term)
        ensures
            t == (Term { kind, access: Access::Read }),
    {
        Term { kind, access: Access::Read }
    }

    /// A term that writes `kind`.
    pub fn write(kind: ComponentKind) -> (t: Term)
        ensures
            t == (Term { kind, access: Access::Write }),
    {
        Term { kind, access: Access::Write }
    }

    fn clashes_with(&self, other: &Term) -> (r: bool)
        ensures
            r == self.clashes(*other),
    {
        self.kind == other.kind && (self.access == Access::Write || other.access == Access::Write)
    }
}

/// What a query asks of an entity besides the components that it hands
/// out. A filter's component is not handed out.
#[derive(Debug)]
pub enum Filter {
    /// The entity has a component of this kind.
    With(ComponentKind),
    /// The entity has this component: one of its kind that holds the same.
    Holding(Component),
}

/// A filter as a value of mathematics.
pub enum FilterModel {
    With(ComponentKind),
    Holding(ComponentModel),
}

impl View for Filter {
    type V = FilterModel;

    open spec fn view(&self) -> FilterModel {
        match self {
            Filter::With(kind) => FilterModel::With(*kind),
            Filter::Holding(component) => FilterModel::Holding(component@),
        }
    }
}

impl FilterModel {
    /// Whether an entity with `components` passes the filter.
    pub open spec fn holds(self, components: Map<ComponentKind, ComponentModel>) -> bool {
        match self {
            FilterModel::With(kind) => components.contains_key(kind),
            FilterModel::Holding(component) => components.contains_key(component.kind())
                && components[component.kind()] == component,
        }
    }
}

/// What a system asks of the store: the kinds whose components it reads or
/// writes, and the filters that an entity must pass besides.
#[derive(Debug)]
pub struct QueryShape {
    pub terms: Vec<Term>,
    pub filters: Vec<Filter>,
}

/// A query shape as a value of mathematics.
pub struct ShapeModel {
    pub terms: Seq<Term>,
    pub filters: Seq<FilterModel>,
}

impl View for QueryShape {
    type V = ShapeModel;

    open spec fn view(&self) -> ShapeModel {
        ShapeModel {
            terms: self.terms@,
            filters: Seq::new(self.filters.len() as nat, |i: int| self.filters[i]@),
        }
    }
}

impl ShapeModel {
    /// Whether two terms of the shape clash.
    pub open spec fn conflicting(self) -> bool {
        exists|i: int, j: int|
            0 <= i < j < self.terms.len() && (#[trigger] self.terms[i]).clashes(
                #[trigger] self.terms[j],
            )
    }

    /// Whether an entity with `components` has every kind that the shape's
    /// terms name, and passes every filter of the shape.
    pub open spec fn admits(self, components: Map<ComponentKind, ComponentModel>) -> bool {
        &&& forall|i: int|
            0 <= i < self.terms.len() ==> components.contains_key((#[trigger] self.terms[i]).kind)
        &&& forall|i: int|
            0 <= i < self.filters.len() ==> (#[trigger] self.filters[i]).holds(components)
    }

}

impl WorldModel {
    /// Whether `id` names a live entity that the shape admits.
    pub open spec fn matches(self, shape: ShapeModel, id: nat) -> bool {
        self.alive(id) && shape.admits(self.components(id))
    }

    /// The entities with an identifier below `bound` that match `shape`, in
    /// the order of spawning.
    pub open spec fn matching_below(self, shape: ShapeModel, bound: nat) -> Seq<nat>
        decreases bound,
    {
        if bound == 0 {
            Seq::empty()
        } else {
            let before = self.matching_below(shape, (bound - 1) as nat);
            if self.matches(shape, (bound - 1) as nat) {
                before.push((bound - 1) as nat)
            } else {
                before
            }
        }
    }

    /// The entities that match `shape`, in the order of spawning.
    pub open spec fn matching(self, shape: ShapeModel) -> Seq<nat> {
        self.matching_below(shape, self.entities.len())
    }

    /// The one entity that matches `shape`, or why there is none to give.
    pub open spec fn single(self, shape: ShapeModel) -> Result<nat, EcsError> {
        if shape.conflicting() {
            Err(EcsError::ConflictingBorrow)
        } else if self.matching(shape).len() == 0 {
            Err(EcsError::NoMatch)
        } else if self.matching(shape).len() == 1 {
            Ok(self.matching(shape)[0])
        } else {
            Err(EcsError::AmbiguousMatch)
        }
    }

}

/// Where no entity from `low` up to `high` matches, the matches below `high`
/// are those below `low`.
pub proof fn lemma_matching_skip(world: WorldModel, shape: ShapeModel, low: nat, high: nat)
    requires
        low <= high,
        forall|id: nat| low <= id < high ==> !world.matches(shape, id),
    ensures
        world.matching_below(shape, high) == world.matching_below(shape, low),
    decreases high,
{
    if low < high {
        lemma_matching_skip(world, shape, low, (high - 1) as nat);
    }
}

/// The matches below a bound begin with the matches below any lower bound.
pub proof fn lemma_matching_grows(world: WorldModel, shape: ShapeModel, low: nat, high: nat)
    requires
        low <= high,
    ensures
        world.matching_below(shape, low).len() <= world.matching_below(shape, high).len(),
        world.matching_below(shape, low) == world.matching_below(shape, high).take(
            world.matching_below(shape, low).len() as int,
        ),
    decreases high,
{
    if low < high {
        lemma_matching_grows(world, shape, low, (high - 1) as nat);
    }
}

/// An identifier is among the matches below a bound exactly if it is below
/// the bound and names a live entity that the shape admits.
pub proof fn lemma_matching_members(world: WorldModel, shape: ShapeModel, bound: nat, id: nat)
    ensures
        world.matching_below(shape, bound).contains(id) <==> id < bound && world.matches(
            shape,
            id,
        ),
    decreases bound,
{
    if bound > 0 {
        let last = (bound - 1) as nat;
        let before = world.matching_below(shape, last);
        lemma_matching_members(world, shape, last, id);
        if world.matches(shape, last) {
            let all = before.push(last);
            assert(all[before.len() as int] == last);
            if before.contains(id) {
                let k = choose|k: int| 0 <= k < before.len() && before[k] == id;
                assert(all[k] == id);
            }
        }
    }
}

/// One entity that a query found, with a copy of what the query's terms
/// pick from it, term by term.
#[derive(Debug)]
pub struct Match {
    pub entity: Entity,
    pub components: Vec<Component>,
}

impl Match {
    /// Whether this is what `shape` finds at the entity `id` of `world`:
    /// the entity matches, and for each term of the shape, in order, there is
    /// a copy of the entity's component of the term's kind.
    pub open spec fn is_match(&self, world: WorldModel, shape: ShapeModel, id: nat) -> bool {
        &&& world.matches(shape, id)
        &&& self.entity@ == id
        &&& self.components.len() == shape.terms.len()
        &&& forall|i: int|
            0 <= i < shape.terms.len() ==> (#[trigger] self.components[i])@ == world.components(
                id,
            )[shape.terms[i].kind]
    }
}

impl QueryShape {
    /// The shape with the given terms and filters.
    pub fn new(terms: Vec<Term>, filters: Vec<Filter>) -> (shape: QueryShape)
        ensures
            shape.terms == terms,
            shape.filters == filters,
    {
        QueryShape { terms, filters }
    }

    /// Whether two terms of the shape clash.
    pub fn conflicts(&self) -> (r: bool)
        ensures
            r == self@.conflicting(),
    {
        let n = self.terms.len();
        let mut i: usize = 0;
        while i < n
            invariant
                n == self.terms.len(),
                i <= n,
                forall|a: int, b: int|
                    0 <= a < i && a < b < n ==> !(#[trigger] self.terms[a]).clashes(
                        #[trigger] self.terms[b],
                    ),
            decreases n - i,
        {
            let mut j: usize = i + 1;
            while j < n
                invariant
                    n == self.terms.len(),
                    i < j <= n,
                    forall|b: int| i < b < j ==> !self.terms[i as int].clashes(#[trigger] self.terms[b]),
                decreases n - j,
            {
                if self.terms[i].clashes_with(&self.terms[j]) {
                    assert(self@.terms[i as int].clashes(self@.terms[j as int]));
                    return true;
                }
                j = j + 1;
            }
            i = i + 1;
        }
        false
    }

    /// What the shape finds at `entity`: nothing unless the entity is alive,
    /// has every kind that the shape's terms name, and passes its filters.
    pub fn probe(&self, world: &World, entity: Entity) -> (r: Option<Match>)
        requires
            world.wf(),
        ensures
            r is Some <==> world@.matches(self@, entity@),
            r is Some ==> r->0.is_match(world@, self@, entity@),
    {
        if !world.contains(entity) {
            return None;
        }
        let ghost have = world@.components(entity@);
        let mut components: Vec<Component> = Vec::new();
        let mut i: usize = 0;
        while i < self.terms.len()
            invariant
                world.wf(),
                world@.alive(entity@),
                have == world@.components(entity@),
                i <= self.terms.len(),
                components.len() == i,
                forall|j: int| 0 <= j < i ==> have.contains_key((#[trigger] self.terms[j]).kind),
                forall|j: int| 0 <= j < i ==> (#[trigger] components[j])@ == have[self.terms[j].kind],
            decreases self.terms.len() - i,
        {
            match world.get(entity, self.terms[i].kind) {
                Ok(component) => {
                    components.push(component.clone());
                },
                Err(_) => {
                    return None;
                },
            }
            i = i + 1;
        }
        let mut k: usize = 0;
        while k < self.filters.len()
            invariant
                world.wf(),
                world@.alive(entity@),
                have == world@.components(entity@),
                k <= self.filters.len(),
                forall|j: int| 0 <= j < k ==> (#[trigger] self@.filters[j]).holds(have),
            decreases self.filters.len() - k,
        {
            let passes = match &self.filters[k] {
                Filter::With(kind) => world.has(entity, *kind),
                Filter::Holding(component) => match world.get(entity, component.kind()) {
                    Ok(found) => found.same(component),
                    Err(_) => false,
                },
            };
            assert(passes == self@.filters[k as int].holds(have));
            if !passes {
                return None;
            }
            k = k + 1;
        }
        Some(Match { entity, components })
    }

    /// The first match among the entities spawned after `from` others.
    pub fn next_match(&self, world: &World, from: usize) -> (r: Option<Match>)
        requires
            world.wf(),
        ensures
            match r {
                Some(found) => {
                    &&& from <= found.entity@
                    &&& found.is_match(world@, self@, found.entity@)
                    &&& forall|id: nat| from <= id < found.entity@ ==> !world@.matches(self@, id)
                },
                None => forall|id: nat| from <= id ==> !world@.matches(self@, id),
            },
    {
        let end = world.spawned();
        let mut at: usize = from;
        while at < end
            invariant
                world.wf(),
                end == world@.entities.len(),
                from <= at,
                forall|id: nat| from <= id < at ==> !world@.matches(self@, id),
            decreases end - at,
        {
            match self.probe(world, Entity::from_index(at)) {
                Some(found) => {
                    return Some(found);
                },
                None => {},
            }
            at = at + 1;
        }
        None
    }

    /// Every match, in the order of spawning. A shape with clashing terms is
    /// refused.
    pub fn iterate(&self, world: &World) -> (r: Result<Vec<Match>, EcsError>)
        requires
            world.wf(),
        ensures
            self@.conflicting() ==> r == Err::<Vec<Match>, EcsError>(EcsError::ConflictingBorrow),
            !self@.conflicting() ==> r is Ok && r->Ok_0.len() == world@.matching(self@).len()
                && forall|i: int|
                0 <= i < r->Ok_0.len() ==> (#[trigger] r->Ok_0[i]).is_match(
                    world@,
                    self@,
                    world@.matching(self@)[i],
                ),
    {
        if self.conflicts() {
            return Err(EcsError::ConflictingBorrow);
        }
        let end = world.spawned();
        let mut found: Vec<Match> = Vec::new();
        let mut at: usize = 0;
        while at < end
            invariant
                world.wf(),
                end == world@.entities.len(),
                at <= end,
                found.len() == world@.matching_below(self@, at as nat).len(),
                forall|i: int|
                    0 <= i < found.len() ==> (#[trigger] found[i]).is_match(
                        world@,
                        self@,
                        world@.matching_below(self@, at as nat)[i],
                    ),
            decreases end - at,
        {
            match self.probe(world, Entity::from_index(at)) {
                Some(one) => {
                    found.push(one);
                },
                None => {},
            }
            at = at + 1;
        }
        Ok(found)
    }

    /// The one match. A shape with clashing terms is refused; no match and
    /// more than one match are told apart.
    pub fn single_mut(&self, world: &World) -> (r: Result<Match, EcsError>)
        requires
            world.wf(),
        ensures
            match world@.single(self@) {
                Ok(id) => r is Ok && r->Ok_0.is_match(world@, self@, id),
                Err(e) => r is Err && r->Err_0 == e,
            },
    {
        if self.conflicts() {
            return Err(EcsError::ConflictingBorrow);
        }
        let end = world.spawned();
        match self.next_match(world, 0) {
            None => {
                proof {
                    lemma_matching_skip(world@, self@, 0, end as nat);
                }
                Err(EcsError::NoMatch)
            },
            Some(first) => {
                let next = first.entity.index() + 1;
                proof {
                    lemma_matching_skip(world@, self@, 0, first.entity@);
                }
                match self.next_match(world, next) {
                    None => {
                        proof {
                            lemma_matching_skip(world@, self@, next as nat, end as nat);
                        }
                        Ok(first)
                    },
                    Some(second) => {
                        proof {
                            lemma_matching_skip(world@, self@, next as nat, second.entity@);
                            lemma_matching_grows(
                                world@,
                                self@,
                                (second.entity@ + 1) as nat,
                                end as nat,
                            );
                        }
                        Err(EcsError::AmbiguousMatch)
                    },
                }
            },
        }
    }
}

/// Spawning leaves the matches among the entities spawned before as they
/// were.
proof fn lemma_spawn_keeps_matching(
    world: WorldModel,
    shape: ShapeModel,
    bundle: Seq<ComponentModel>,
    bound: nat,
)
    requires
        bound <= world.entities.len(),
    ensures
        world.spawn(bundle).matching_below(shape, bound) == world.matching_below(shape, bound),
    decreases bound,
{
    if bound > 0 {
        lemma_spawn_keeps_matching(world, shape, bundle, (bound - 1) as nat);
    }
}

/// Spawning adds the new entity to the end of a shape's matches if the
/// shape admits its components, and changes no match otherwise.
pub proof fn lemma_spawn_matching(world: WorldModel, shape: ShapeModel, bundle: Seq<ComponentModel>)
    ensures
        world.spawn(bundle).matching(shape) == if shape.admits(bundle_map(bundle)) {
            world.matching(shape).push(world.entities.len())
        } else {
            world.matching(shape)
        },
{
    lemma_spawn_keeps_matching(world, shape, bundle, world.entities.len());
}

/// A query for the one match of a shape without a clash goes by the number
/// of matches: it reports that there is none while no entity matches,
/// gives the entity once one has been spawned that matches, and reports
/// that there is more than one as soon as a second has been spawned.
pub proof fn lemma_single_by_count(
    world: WorldModel,
    shape: ShapeModel,
    first: Seq<ComponentModel>,
    second: Seq<ComponentModel>,
)
    requires
        !shape.conflicting(),
        world.matching(shape).len() == 0,
        shape.admits(bundle_map(first)),
        shape.admits(bundle_map(second)),
    ensures
        world.single(shape) == Err::<nat, EcsError>(EcsError::NoMatch),
        world.spawn(first).single(shape) == Ok::<nat, EcsError>(world.entities.len()),
        world.spawn(first).spawn(second).single(shape) == Err::<nat, EcsError>(
            EcsError::AmbiguousMatch,
        ),
{
    lemma_spawn_matching(world, shape, first);
    lemma_spawn_matching(world.spawn(first), shape, second);
}

} // verus!
