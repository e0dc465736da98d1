use vstd::prelude::*;

verus! {

/// What an entity stands for in the match.
#[derive(Clone, Copy, Debug, PartialEq, Eq, Structural)]
pub enum Role {
    LocalPlayer,
    Opponent,
    Ball,
}

/// One movable rectangle: position, size and role.
#[derive(Clone, Copy, Debug, PartialEq)]
pub struct Entity<T> {
    pub x: T,
    pub y: T,
    pub width: T,
    pub height: T,
    pub role: Role,
}

/// The entity made of the four values of `frame` from `start` on.
pub open spec fn entity_at<T>(frame: Seq<T>, start: int, role: Role) -> Entity<T> {
    Entity {
        x: frame[start],
        y: frame[start + 1],
        width: frame[start + 2],
        height: frame[start + 3],
        role,
    }
}

/// `e` moved to `(x, y)`, its size and role kept.
pub open spec fn moved_to<T>(e: Entity<T>, x: T, y: T) -> Entity<T> {
    Entity { x, y, width: e.width, height: e.height, role: e.role }
}

impl<T: Copy> Entity<T> {
    /// Builds the entity of the four values `frame[start..start + 4]`.
    pub fn from_frame(frame: &[T], start: usize, role: Role) -> (r: Entity<T>)
        requires
            start + 4 <= frame@.len(),
        ensures
            r == entity_at(frame@, start as int, role),
    {
        Entity {
            x: frame[start],
            y: frame[start + 1],
            width: frame[start + 2],
            height: frame[start + 3],
            role,
        }
    }
}

} // verus!
