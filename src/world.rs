use vstd::prelude::*;
use crate::entity::{Entity, Role};

verus! {

/// The most entities a world ever holds: the two paddles and the ball.
pub const MAX_ENTITIES: usize = 3;

/// The place each role takes in the world: the local player comes first,
/// the opponent second, the ball third.
pub open spec fn slot_of(role: Role) -> int {
    match role {
        Role::LocalPlayer => 0,
        Role::Opponent => 1,
        Role::Ball => 2,
    }
}

/// The role that the entity at place `i` has.
pub open spec fn role_at(i: int) -> Role {
    if i == 0 {
        Role::LocalPlayer
    } else if i == 1 {
        Role::Opponent
    } else {
        Role::Ball
    }
}

/// Entities in bootstrap order: at most three, each role at its own place.
pub open spec fn bootstrap_ordered<T>(s: Seq<Entity<T>>) -> bool {
    &&& s.len() <= MAX_ENTITIES
    &&& forall|i: int| 0 <= i < s.len() ==> #[trigger] s[i].role == role_at(i)
}

/// The entities of a match, in the order they were discovered.
pub struct World<T> {
    entities: Vec<Entity<T>>,
}

impl<T> View for World<T> {
    type V = Seq<Entity<T>>;

    closed spec fn view(&self) -> Seq<Entity<T>> {
        self.entities@
    }
}

impl<T: Copy> World<T> {
    /// A world is well formed when its entities are in bootstrap order.
    pub open spec fn wf(&self) -> bool {
        bootstrap_ordered(self@)
    }

    /// Whether an entity with `role` is present.
    pub open spec fn has(&self, role: Role) -> bool {
        slot_of(role) < self@.len()
    }

    /// An empty world.
    pub fn new() -> (r: World<T>)
        ensures
            r@ == Seq::<Entity<T>>::empty(),
            r.wf(),
    {
        World { entities: Vec::new() }
    }

    /// Number of entities.
    pub fn len(&self) -> (r: usize)
        ensures
            r == self@.len(),
    {
        self.entities.len()
    }

    /// Whether the ball has been discovered.
    pub fn has_ball(&self) -> (r: bool)
        requires
            self.wf(),
        ensures
            r == self.has(Role::Ball),
    {
        self.entities.len() > 2
    }

    /// All entities, in bootstrap order.
    pub fn entities(&self) -> (r: &[Entity<T>])
        ensures
            r@ == self@,
    {
        self.entities.as_slice()
    }

    /// Appends `entity`; it must take the role that comes next in bootstrap order.
    pub fn add(&mut self, entity: Entity<T>)
        requires
            old(self).wf(),
            old(self)@.len() < MAX_ENTITIES,
            entity.role == role_at(old(self)@.len() as int),
        ensures
            final(self)@ == old(self)@.push(entity),
            final(self).wf(),
    {
        self.entities.push(entity);
        proof {
            assert forall|i: int| 0 <= i < self@.len() implies #[trigger] self@[i].role == role_at(i) by {
                if i < old(self)@.len() {
                    assert(self@[i] == old(self)@[i]);
                }
            }
        }
    }

    /// The place of the first entity that has `role`.
    fn position_of(&self, role: Role) -> (r: usize)
        requires
            self.wf(),
            self.has(role),
        ensures
            r == slot_of(role),
    {
        let mut i: usize = 0;
        while i < self.entities.len()
            invariant
                self.wf(),
                self.has(role),
                i <= slot_of(role),
                forall|j: int| 0 <= j < i ==> self@[j].role != role,
            decreases self.entities.len() - i,
        {
            if self.entities[i].role == role {
                return i;
            }
            i = i + 1;
        }
        proof {
            assert(self@[slot_of(role)].role == role);
        }
        i
    }

    /// The entity that has `role`; one must be present.
    pub fn find(&self, role: Role) -> (r: Entity<T>)
        requires
            self.wf(),
            self.has(role),
        ensures
            r == self@[slot_of(role)],
            r.role == role,
    {
        let i = self.position_of(role);
        self.entities[i]
    }

    /// The local player; it must be present.
    pub fn find_local_player(&self) -> (r: Entity<T>)
        requires
            self.wf(),
            self.has(Role::LocalPlayer),
        ensures
            r == self@[0],
            r.role == Role::LocalPlayer,
    {
        self.find(Role::LocalPlayer)
    }

    /// The opponent; it must be present.
    pub fn find_opponent(&self) -> (r: Entity<T>)
        requires
            self.wf(),
            self.has(Role::Opponent),
        ensures
            r == self@[1],
            r.role == Role::Opponent,
    {
        self.find(Role::Opponent)
    }

    /// The ball; it must be present.
    pub fn find_ball(&self) -> (r: Entity<T>)
        requires
            self.wf(),
            self.has(Role::Ball),
        ensures
            r == self@[2],
            r.role == Role::Ball,
    {
        self.find(Role::Ball)
    }

    /// Moves the entity that has `role` to `(x, y)`; its size stays.
    pub fn set_position(&mut self, role: Role, x: T, y: T)
        requires
            old(self).wf(),
            old(self).has(role),
        ensures
            final(self)@ == old(self)@.update(
                slot_of(role),
                crate::entity::moved_to(old(self)@[slot_of(role)], x, y),
            ),
            final(self).wf(),
    {
        let i = self.position_of(role);
        let old_e = self.entities[i];
        let e = Entity { x, y, width: old_e.width, height: old_e.height, role: old_e.role };
        self.entities.set(i, e);
        proof {
            assert forall|j: int| 0 <= j < self@.len() implies #[trigger] self@[j].role == role_at(j) by {
                if j != i {
                    assert(self@[j] == old(self)@[j]);
                }
            }
        }
    }
}

} // verus!
