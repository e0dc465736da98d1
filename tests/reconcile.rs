use pong::entity::{Entity, Role};
use pong::reconcile::{add_ball, add_opponent, reconcile, update_ball, update_opponent};
use pong::world::World;

fn ent(x: f32, y: f32, w: f32, h: f32, role: Role) -> Entity<f32> {
    Entity { x, y, width: w, height: h, role }
}

fn player_world() -> World<f32> {
    let mut w = World::new();
    w.add(ent(10.0, 20.0, 20.0, 100.0, Role::LocalPlayer));
    w
}

const PAIR: [f32; 8] = [50.0, 60.0, 20.0, 100.0, 200.0, 150.0, 10.0, 10.0];

#[test]
fn bootstrap_in_one_call() {
    let mut w = player_world();
    reconcile(&mut w, &PAIR);
    assert_eq!(w.len(), 3);
    assert_eq!(w.find_local_player(), ent(10.0, 20.0, 20.0, 100.0, Role::LocalPlayer));
    assert_eq!(w.find_opponent(), ent(50.0, 60.0, 20.0, 100.0, Role::Opponent));
    assert_eq!(w.find_ball(), ent(200.0, 150.0, 10.0, 10.0, Role::Ball));
}

#[test]
fn ball_not_updated_before_it_exists() {
    let mut w = player_world();
    update_ball(&mut w, &PAIR);
    assert_eq!(w.len(), 1);
    add_opponent(&mut w, &PAIR);
    update_ball(&mut w, &PAIR);
    assert_eq!(w.len(), 2);
    assert!(!w.has_ball());
    add_ball(&mut w, &PAIR);
    assert_eq!(w.len(), 3);
    assert_eq!(w.find_ball(), ent(200.0, 150.0, 10.0, 10.0, Role::Ball));
}

#[test]
fn empty_world_ignores_frames() {
    let mut w: World<f32> = World::new();
    reconcile(&mut w, &PAIR);
    assert_eq!(w.len(), 0);
}

#[test]
fn single_entity_frame_does_not_add_opponent() {
    let mut w = player_world();
    reconcile(&mut w, &[1.0, 2.0, 3.0, 4.0]);
    assert_eq!(w.len(), 1);
    assert_eq!(w.find_local_player(), ent(10.0, 20.0, 20.0, 100.0, Role::LocalPlayer));
}

#[test]
fn five_values_add_opponent_only() {
    let mut w = player_world();
    reconcile(&mut w, &[1.0, 2.0, 3.0, 4.0, 5.0]);
    assert_eq!(w.len(), 2);
    assert_eq!(w.find_opponent(), ent(1.0, 2.0, 3.0, 4.0, Role::Opponent));
}

#[test]
fn later_frames_move_without_resizing() {
    let mut w = player_world();
    reconcile(&mut w, &PAIR);
    reconcile(&mut w, &[70.0, 80.0, 1.0, 1.0, 210.0, 160.0, 2.0, 2.0]);
    assert_eq!(w.len(), 3);
    assert_eq!(w.find_opponent(), ent(70.0, 80.0, 20.0, 100.0, Role::Opponent));
    assert_eq!(w.find_ball(), ent(210.0, 160.0, 10.0, 10.0, Role::Ball));
    reconcile(&mut w, &[5.0, 6.0, 7.0, 8.0]);
    assert_eq!(w.find_opponent(), ent(5.0, 6.0, 20.0, 100.0, Role::Opponent));
    assert_eq!(w.find_ball(), ent(210.0, 160.0, 10.0, 10.0, Role::Ball));
}

#[test]
fn update_opponent_needs_four_values() {
    let mut w = player_world();
    reconcile(&mut w, &PAIR);
    update_opponent(&mut w, &[1.0, 2.0, 3.0]);
    assert_eq!(w.find_opponent(), ent(50.0, 60.0, 20.0, 100.0, Role::Opponent));
}
