use pong::entity::{Entity, Role};
use pong::world::World;

fn ent(x: f32, y: f32, w: f32, h: f32, role: Role) -> Entity<f32> {
    Entity { x, y, width: w, height: h, role }
}

#[test]
fn new_world_is_empty() {
    let w: World<f32> = World::new();
    assert_eq!(w.len(), 0);
    assert!(w.entities().is_empty());
    assert!(!w.has_ball());
}

#[test]
fn add_and_find_by_role() {
    let mut w = World::new();
    let p = ent(10.0, 20.0, 20.0, 100.0, Role::LocalPlayer);
    let o = ent(50.0, 60.0, 20.0, 100.0, Role::Opponent);
    let b = ent(200.0, 150.0, 10.0, 10.0, Role::Ball);
    w.add(p);
    w.add(o);
    assert!(!w.has_ball());
    w.add(b);
    assert!(w.has_ball());
    assert_eq!(w.len(), 3);
    assert_eq!(w.find_local_player(), p);
    assert_eq!(w.find_opponent(), o);
    assert_eq!(w.find_ball(), b);
    assert_eq!(w.find(Role::Opponent), o);
    assert_eq!(w.entities(), &[p, o, b]);
}

#[test]
fn set_position_keeps_size() {
    let mut w = World::new();
    w.add(ent(10.0, 20.0, 20.0, 100.0, Role::LocalPlayer));
    w.add(ent(50.0, 60.0, 20.0, 100.0, Role::Opponent));
    w.set_position(Role::Opponent, 1.0, 2.0);
    assert_eq!(w.find_opponent(), ent(1.0, 2.0, 20.0, 100.0, Role::Opponent));
    assert_eq!(w.find_local_player(), ent(10.0, 20.0, 20.0, 100.0, Role::LocalPlayer));
}
