use pong::codec::encode;
use pong::control::{heartbeat, movement, send_step, update_ball_locally, STEP};
use pong::entity::{Entity, Role};
use pong::session::start_world;

fn ent(x: f32, y: f32, w: f32, h: f32, role: Role) -> Entity<f32> {
    Entity { x, y, width: w, height: h, role }
}

fn shift(y: f32, d: i32) -> f32 {
    y + d as f32
}

fn render_f32(v: f32) -> String {
    v.to_string()
}

#[test]
fn movement_by_keys() {
    assert_eq!(STEP, 4);
    let mut w = start_world(ent(10.0, 20.0, 20.0, 100.0, Role::LocalPlayer));
    movement(&mut w, true, false, &shift);
    assert_eq!(w.find_local_player(), ent(10.0, 24.0, 20.0, 100.0, Role::LocalPlayer));
    movement(&mut w, false, true, &shift);
    movement(&mut w, false, true, &shift);
    assert_eq!(w.find_local_player(), ent(10.0, 16.0, 20.0, 100.0, Role::LocalPlayer));
    movement(&mut w, true, true, &shift);
    assert_eq!(w.find_local_player(), ent(10.0, 16.0, 20.0, 100.0, Role::LocalPlayer));
    movement(&mut w, false, false, &shift);
    assert_eq!(w.find_local_player(), ent(10.0, 16.0, 20.0, 100.0, Role::LocalPlayer));
}

#[test]
fn idle_ticks_send_identical_frames() {
    let mut w = start_world(ent(10.0, 20.0, 20.0, 100.0, Role::LocalPlayer));
    let first = encode(&send_step(&mut w, false, false, &shift), &render_f32);
    assert_eq!(first, "10 20 20 100");
    for _ in 0..10 {
        let next = encode(&send_step(&mut w, false, false, &shift), &render_f32);
        assert_eq!(next, first);
    }
    assert_eq!(heartbeat(&w), ent(10.0, 20.0, 20.0, 100.0, Role::LocalPlayer));
}

#[test]
fn held_key_changes_sent_frame() {
    let mut w = start_world(ent(10.0, 20.0, 20.0, 100.0, Role::LocalPlayer));
    let sent = send_step(&mut w, true, false, &shift);
    assert_eq!(encode(&sent, &render_f32), "10 24 20 100");
}

#[test]
fn ball_drifts_only_once_present() {
    let mut w = start_world(ent(10.0, 20.0, 20.0, 100.0, Role::LocalPlayer));
    update_ball_locally(&mut w, &|x: f32| x + 7.0);
    assert_eq!(w.len(), 1);
    assert_eq!(w.find_local_player(), ent(10.0, 20.0, 20.0, 100.0, Role::LocalPlayer));
    w.add(ent(50.0, 60.0, 20.0, 100.0, Role::Opponent));
    w.add(ent(200.0, 150.0, 10.0, 10.0, Role::Ball));
    update_ball_locally(&mut w, &|x: f32| x + 7.0);
    assert_eq!(w.find_ball(), ent(207.0, 150.0, 10.0, 10.0, Role::Ball));
}
