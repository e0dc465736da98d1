use vstd::prelude::*;
use crate::entity::{Entity, Role};
use crate::world::World;

verus! {

/// How far the local paddle moves per tick while a key is held.
pub const STEP: i32 = 4;

/// The world with the local player's height replaced by `y`.
pub open spec fn with_player_y<T>(w: Seq<Entity<T>>, y: T) -> Seq<Entity<T>> {
    w.update(0, crate::entity::moved_to(w[0], w[0].x, y))
}

/// Moves the local paddle for the held keys: `down` adds `STEP` to its
/// height, then `up` takes `STEP` off. `shift(y, d)` is the coordinate `y`
/// moved by `d`. With no key held the world is left as it was.
pub fn movement<T: Copy, F: Fn(T, i32) -> T>(world: &mut World<T>, down: bool, up: bool, shift: &F)
    requires
        old(world).wf(),
        old(world).has(Role::LocalPlayer),
        forall|y: T, d: i32| shift.requires((y, d)),
    ensures
        final(world).wf(),
        final(world)@.len() == old(world)@.len(),
        !down && !up ==> final(world)@ == old(world)@,
        down && !up ==> exists|y: T|
            shift.ensures((old(world)@[0].y, STEP), y) && final(world)@ == with_player_y(
                old(world)@,
                y,
            ),
        !down && up ==> exists|y: T|
            shift.ensures((old(world)@[0].y, (-STEP) as i32), y) && final(world)@ == with_player_y(
                old(world)@,
                y,
            ),
        down && up ==> exists|m: T, y: T|
            shift.ensures((old(world)@[0].y, STEP), m) && shift.ensures((m, (-STEP) as i32), y)
                && final(world)@ == with_player_y(old(world)@, y),
{
    let ghost w0 = world@;
    if down {
        let p = world.find_local_player();
        let y = shift(p.y, STEP);
        world.set_position(Role::LocalPlayer, p.x, y);
        proof {
            assert(world@ =~= with_player_y(w0, y));
        }
    }
    let ghost w1 = world@;
    if up {
        let p = world.find_local_player();
        let y = shift(p.y, -STEP);
        world.set_position(Role::LocalPlayer, p.x, y);
        proof {
            assert(world@ =~= with_player_y(w0, y));
            if down {
                assert(w1[0].y == p.y);
            }
        }
    }
}

/// The entity sent to the peer each tick: the local player, whether or not it moved.
pub fn heartbeat<T: Copy>(world: &World<T>) -> (r: Entity<T>)
    requires
        world.wf(),
        world.has(Role::LocalPlayer),
    ensures
        r == world@[0],
{
    world.find_local_player()
}

/// One tick's send step: moves the local paddle for the held keys and gives
/// the entity to send. With no key held the world stays as it was and the
/// same entity is sent, so idle ticks repeat one frame.
pub fn send_step<T: Copy, F: Fn(T, i32) -> T>(
    world: &mut World<T>,
    down: bool,
    up: bool,
    shift: &F,
) -> (r: Entity<T>)
    requires
        old(world).wf(),
        old(world).has(Role::LocalPlayer),
        forall|y: T, d: i32| shift.requires((y, d)),
    ensures
        final(world).wf(),
        final(world)@.len() == old(world)@.len(),
        r == final(world)@[0],
        !down && !up ==> final(world)@ == old(world)@ && r == old(world)@[0],
        down && !up ==> exists|y: T|
            shift.ensures((old(world)@[0].y, STEP), y) && final(world)@ == with_player_y(
                old(world)@,
                y,
            ),
        !down && up ==> exists|y: T|
            shift.ensures((old(world)@[0].y, (-STEP) as i32), y) && final(world)@ == with_player_y(
                old(world)@,
                y,
            ),
        down && up ==> exists|m: T, y: T|
            shift.ensures((old(world)@[0].y, STEP), m) && shift.ensures((m, (-STEP) as i32), y)
                && final(world)@ == with_player_y(old(world)@, y),
{
    movement(world, down, up, shift);
    heartbeat(world)
}

/// Moves the ball along between frames: once it is present, its `x` becomes
/// `advance(x)`; before that the world is left as it was.
pub fn update_ball_locally<T: Copy, F: Fn(T) -> T>(world: &mut World<T>, advance: &F)
    requires
        old(world).wf(),
        forall|x: T| advance.requires((x,)),
    ensures
        final(world).wf(),
        !old(world).has(Role::Ball) ==> final(world)@ == old(world)@,
        old(world).has(Role::Ball) ==> exists|x: T|
            advance.ensures((old(world)@[2].x,), x) && final(world)@ == old(world)@.update(
                2,
                crate::entity::moved_to(old(world)@[2], x, old(world)@[2].y),
            ),
{
    if world.has_ball() {
        let b = world.find_ball();
        let x = advance(b.x);
        world.set_position(Role::Ball, x, b.y);
    }
}

} // verus!
