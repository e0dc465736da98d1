use vstd::prelude::*;
use crate::entity::{entity_at, moved_to, Entity, Role};
use crate::world::World;

verus! {

/// Values in a frame that carries one entity.
pub const SINGLE_FRAME_LEN: usize = 4;

/// Values in a frame that carries the opponent and the ball.
pub const PAIR_FRAME_LEN: usize = 8;

/// Adding the opponent: a world of the local player alone takes the first
/// four values of a frame longer than four as the opponent.
pub open spec fn after_add_opponent<T>(w: Seq<Entity<T>>, f: Seq<T>) -> Seq<Entity<T>> {
    if w.len() == 1 && f.len() > 4 {
        w.push(entity_at(f, 0, Role::Opponent))
    } else {
        w
    }
}

/// Adding the ball: a world of two entities takes values four to seven of a
/// frame of eight as the ball.
pub open spec fn after_add_ball<T>(w: Seq<Entity<T>>, f: Seq<T>) -> Seq<Entity<T>> {
    if w.len() == 2 && f.len() == 8 {
        w.push(entity_at(f, 4, Role::Ball))
    } else {
        w
    }
}

/// Updating the opponent: once present, it moves to the first two values of a
/// frame of at least four.
pub open spec fn after_update_opponent<T>(w: Seq<Entity<T>>, f: Seq<T>) -> Seq<Entity<T>> {
    if w.len() >= 2 && f.len() >= 4 {
        w.update(1, moved_to(w[1], f[0], f[1]))
    } else {
        w
    }
}

/// Updating the ball: once present, it moves to values four and five of a
/// frame of eight.
pub open spec fn after_update_ball<T>(w: Seq<Entity<T>>, f: Seq<T>) -> Seq<Entity<T>> {
    if w.len() == 3 && f.len() == 8 {
        w.update(2, moved_to(w[2], f[4], f[5]))
    } else {
        w
    }
}

/// The world after one frame: the four rules, each applied to what the one
/// before it left.
pub open spec fn reconciled<T>(w: Seq<Entity<T>>, f: Seq<T>) -> Seq<Entity<T>> {
    after_update_ball(
        after_update_opponent(after_add_ball(after_add_opponent(w, f), f), f),
        f,
    )
}

/// Applies the first rule to `world`.
pub fn add_opponent<T: Copy>(world: &mut World<T>, frame: &[T])
    requires
        old(world).wf(),
    ensures
        final(world).wf(),
        final(world)@ == after_add_opponent(old(world)@, frame@),
{
    if world.len() == 1 && frame.len() > SINGLE_FRAME_LEN {
        let e = Entity::from_frame(frame, 0, Role::Opponent);
        world.add(e);
    }
}

/// Applies the second rule to `world`.
pub fn add_ball<T: Copy>(world: &mut World<T>, frame: &[T])
    requires
        old(world).wf(),
    ensures
        final(world).wf(),
        final(world)@ == after_add_ball(old(world)@, frame@),
{
    if world.len() == 2 && frame.len() == PAIR_FRAME_LEN {
        let e = Entity::from_frame(frame, 4, Role::Ball);
        world.add(e);
    }
}

/// Applies the third rule to `world`.
pub fn update_opponent<T: Copy>(world: &mut World<T>, frame: &[T])
    requires
        old(world).wf(),
    ensures
        final(world).wf(),
        final(world)@ == after_update_opponent(old(world)@, frame@),
{
    if world.len() >= 2 && frame.len() >= SINGLE_FRAME_LEN {
        world.set_position(Role::Opponent, frame[0], frame[1]);
    }
}

/// Applies the fourth rule to `world`. A ball that is not there yet is left
/// to the second rule rather than looked up.
pub fn update_ball<T: Copy>(world: &mut World<T>, frame: &[T])
    requires
        old(world).wf(),
    ensures
        final(world).wf(),
        final(world)@ == after_update_ball(old(world)@, frame@),
{
    if world.has_ball() && frame.len() == PAIR_FRAME_LEN {
        world.set_position(Role::Ball, frame[4], frame[5]);
    }
}

/// Folds one received frame into `world`: the four rules in order, each
/// seeing what the ones before it did.
pub fn reconcile<T: Copy>(world: &mut World<T>, frame: &[T])
    requires
        old(world).wf(),
    ensures
        final(world).wf(),
        final(world)@ == reconciled(old(world)@, frame@),
{
    add_opponent(world, frame);
    add_ball(world, frame);
    update_opponent(world, frame);
    update_ball(world, frame);
}

/// From the local player alone, one frame of eight values brings in both the
/// opponent and the ball: the world then holds three entities, the player
/// unchanged, the opponent and the ball made of the frame's two halves.
pub proof fn bootstrap_in_one_frame<T>(w: Seq<Entity<T>>, f: Seq<T>)
    requires
        w.len() == 1,
        f.len() == 8,
    ensures
        reconciled(w, f).len() == 3,
        reconciled(w, f)[0] == w[0],
        reconciled(w, f)[1] == entity_at(f, 0, Role::Opponent),
        reconciled(w, f)[2] == entity_at(f, 4, Role::Ball),
{
}

/// A frame of eight values never moves a ball that is not there: from an empty
/// world nothing is added, and from the local player alone the ball comes in
/// through the adding rule, made of the frame's second half.
pub proof fn no_ball_before_it_is_added<T>(w: Seq<Entity<T>>, f: Seq<T>)
    requires
        w.len() <= 1,
        f.len() == 8,
    ensures
        w.len() == 0 ==> reconciled(w, f) == w,
        w.len() == 1 ==> reconciled(w, f)[2] == entity_at(f, 4, Role::Ball),
        after_update_ball(after_add_opponent(w, f), f) == after_add_opponent(w, f),
{
}

/// A frame never removes an entity and never touches the local player: the
/// world only grows, and what was there keeps its role.
pub proof fn never_shrinks<T>(w: Seq<Entity<T>>, f: Seq<T>)
    ensures
        reconciled(w, f).len() >= w.len(),
        reconciled(w, f).len() <= w.len() + 2,
        w.len() > 0 ==> reconciled(w, f)[0] == w[0],
        forall|i: int| 0 <= i < w.len() ==> #[trigger] reconciled(w, f)[i].role == w[i].role,
{
}

} // verus!
