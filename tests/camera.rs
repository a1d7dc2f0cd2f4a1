use fly_camera::camera::{Camera, FULL_TURN, INITIAL_YAW, MOVE_RATE, PITCH_LIMIT, POSITION_UNIT};
use fly_camera::geometry::{dot_product, Basis, Vec3, UNIT};
use fly_camera::input::{Actions, Key};

fn press(camera: &mut Camera, key: Key, now_us: u64) {
    camera.process_input(&Actions::from_key(Some(key)), now_us);
}

#[test]
fn fresh_camera_rotation_is_identity() {
    let camera = Camera::new(0);
    let m = camera.get_rotation_matrix();
    for i in 0..4 {
        for j in 0..4 {
            let expected = if i == j { UNIT } else { 0 };
            assert_eq!(m[i][j], expected);
        }
    }
}

#[test]
fn fresh_camera_position() {
    let camera = Camera::new(17);
    assert_eq!(camera.position(), [0, 0, 5 * POSITION_UNIT, 0]);
    assert_eq!(camera.yaw(), INITIAL_YAW);
    assert_eq!(camera.pitch(), 0);
    assert_eq!(camera.basis(), Basis::initial());
}

#[test]
fn forward_key_moves_along_forward() {
    let mut camera = Camera::new(1_000);
    // One second later: 0.05 world units down -Z.
    press(&mut camera, Key::W, 1_001_000);
    let expected_z = 5 * POSITION_UNIT - (UNIT as i128) * MOVE_RATE * 1_000_000;
    assert_eq!(camera.position(), [0, 0, expected_z, 0]);
    assert_eq!(expected_z, 495 * POSITION_UNIT / 100);
    assert_eq!(camera.yaw(), INITIAL_YAW);
    assert_eq!(camera.pitch(), 0);
}

#[test]
fn backward_and_strafe_keys() {
    let mut camera = Camera::new(0);
    press(&mut camera, Key::S, 2_000_000);
    assert_eq!(camera.position(), [0, 0, 5 * POSITION_UNIT + POSITION_UNIT / 10, 0]);
    press(&mut camera, Key::D, 3_000_000);
    assert_eq!(camera.position(), [POSITION_UNIT / 20, 0, 5 * POSITION_UNIT + POSITION_UNIT / 10, 0]);
    press(&mut camera, Key::A, 5_000_000);
    assert_eq!(camera.position(), [-POSITION_UNIT / 20, 0, 5 * POSITION_UNIT + POSITION_UNIT / 10, 0]);
}

#[test]
fn diagonal_movement_is_not_normalised() {
    let mut camera = Camera::new(0);
    let actions = Actions { strafe_left: true, move_forward: true, ..Actions::none() };
    camera.process_input(&actions, 1_000_000);
    let step = (UNIT as i128) * MOVE_RATE * 1_000_000;
    let p = camera.position();
    assert_eq!(p, [-step, 0, 5 * POSITION_UNIT - step, 0]);
    let length = ((p[0] as f64).powi(2) + ((p[2] - 5 * POSITION_UNIT) as f64).powi(2)).sqrt();
    let one = step as f64;
    assert!((length - one * 2f64.sqrt()).abs() < one * 1e-9);
}

#[test]
fn opposite_keys_cancel() {
    let mut camera = Camera::new(0);
    let actions = Actions {
        move_forward: true,
        move_backward: true,
        yaw_decrease: true,
        yaw_increase: true,
        ..Actions::none()
    };
    camera.process_input(&actions, 9_000_000);
    assert_eq!(camera.position(), [0, 0, 5 * POSITION_UNIT, 0]);
    assert_eq!(camera.yaw(), INITIAL_YAW);
}

#[test]
fn pitch_stays_at_limit() {
    let mut camera = Camera::new(0);
    let mut now: u64 = 0;
    for _ in 0..5 {
        now += 100_000_000;
        press(&mut camera, Key::Down, now);
        assert!(camera.pitch() <= PITCH_LIMIT);
    }
    assert_eq!(camera.pitch(), PITCH_LIMIT);
    press(&mut camera, Key::Down, now + 1);
    assert_eq!(camera.pitch(), PITCH_LIMIT);
    press(&mut camera, Key::Up, u64::MAX);
    assert_eq!(camera.pitch(), -PITCH_LIMIT);
}

#[test]
fn pitch_turn_rate() {
    let mut camera = Camera::new(0);
    // 0.45 degrees per second.
    press(&mut camera, Key::Down, 1_000_000);
    assert_eq!(camera.pitch(), 450_000_000);
    press(&mut camera, Key::Up, 3_000_000);
    assert_eq!(camera.pitch(), -450_000_000);
}

#[test]
fn yaw_wraps_within_one_turn() {
    let mut camera = Camera::new(0);
    press(&mut camera, Key::Left, 1_000_000);
    assert_eq!(camera.yaw(), INITIAL_YAW - 450_000_000);
    // 200 s more to the right: +90 degrees from 269.55 degrees.
    press(&mut camera, Key::Right, 201_000_000);
    assert_eq!(camera.yaw(), 359_550_000_000);
    let mut c2 = Camera::new(0);
    press(&mut c2, Key::Right, 200_000_000);
    assert_eq!(c2.yaw(), 0);
    press(&mut c2, Key::Left, 200_000_001);
    assert_eq!(c2.yaw(), FULL_TURN - 450);
    press(&mut c2, Key::Left, u64::MAX);
    assert!(c2.yaw() >= 0 && c2.yaw() < FULL_TURN);
}

#[test]
fn clock_going_back_moves_nothing() {
    let mut camera = Camera::new(5_000_000);
    press(&mut camera, Key::W, 1_000_000);
    assert_eq!(camera.position(), [0, 0, 5 * POSITION_UNIT, 0]);
    // The time stored is the one handed in.
    press(&mut camera, Key::W, 2_000_000);
    assert_eq!(camera.position()[2], 5 * POSITION_UNIT - (UNIT as i128) * MOVE_RATE * 1_000_000);
}

#[test]
fn other_keys_do_nothing() {
    let mut camera = Camera::new(0);
    press(&mut camera, Key::Other, 1_000_000);
    camera.process_input(&Actions::from_key(None), 2_000_000);
    assert_eq!(camera.position(), [0, 0, 5 * POSITION_UNIT, 0]);
    assert_eq!(camera.yaw(), INITIAL_YAW);
    assert_eq!(camera.pitch(), 0);
}

#[test]
fn key_mapping() {
    let none = Actions::none();
    assert_eq!(Actions::from_key(Some(Key::A)), Actions { strafe_left: true, ..none });
    assert_eq!(Actions::from_key(Some(Key::D)), Actions { strafe_right: true, ..none });
    assert_eq!(Actions::from_key(Some(Key::W)), Actions { move_forward: true, ..none });
    assert_eq!(Actions::from_key(Some(Key::S)), Actions { move_backward: true, ..none });
    assert_eq!(Actions::from_key(Some(Key::Left)), Actions { yaw_decrease: true, ..none });
    assert_eq!(Actions::from_key(Some(Key::Right)), Actions { yaw_increase: true, ..none });
    assert_eq!(Actions::from_key(Some(Key::Up)), Actions { pitch_decrease: true, ..none });
    assert_eq!(Actions::from_key(Some(Key::Down)), Actions { pitch_increase: true, ..none });
    assert_eq!(Actions::from_key(Some(Key::Other)), none);
    assert_eq!(Actions::from_key(None), none);
}

#[test]
fn basis_checks() {
    let b = Basis::initial();
    assert_eq!(Basis::from_vectors(b.forward, b.right, b.up), Some(b));
    // Two equal vectors are not perpendicular.
    assert_eq!(Basis::from_vectors(b.forward, b.forward, b.up), None);
    // A component past UNIT is refused.
    let long = Vec3 { x: UNIT + 1, y: 0, z: 0 };
    assert_eq!(Basis::from_vectors(b.forward, long, b.up), None);
    // Too short.
    let short = Vec3 { x: UNIT / 2, y: 0, z: 0 };
    assert_eq!(Basis::from_vectors(b.forward, short, b.up), None);
    // A tilted frame with rounded components passes.
    let c = 707_106_781;
    let f = Vec3 { x: 0, y: c, z: -c };
    let r = Vec3 { x: UNIT, y: 0, z: 0 };
    let u = Vec3 { x: 0, y: c, z: c };
    assert!(Basis::from_vectors(f, r, u).is_some());
    // The same vectors with `up` reversed make a left-handed frame.
    let down = Vec3 { x: 0, y: -c, z: -c };
    assert_eq!(Basis::from_vectors(f, r, down), None);
    let b2 = Basis::initial();
    let flipped = Vec3 { x: 0, y: -UNIT, z: 0 };
    assert_eq!(Basis::from_vectors(b2.forward, b2.right, flipped), None);
}

#[test]
fn rotation_matrix_holds_frame_in_columns() {
    let mut camera = Camera::new(0);
    // Right for 200 s turns the yaw to 0: forward +X, right +Z, up +Y.
    press(&mut camera, Key::Right, 200_000_000);
    assert_eq!(camera.yaw(), 0);
    let f = Vec3 { x: UNIT, y: 0, z: 0 };
    let r = Vec3 { x: 0, y: 0, z: UNIT };
    let u = Vec3 { x: 0, y: UNIT, z: 0 };
    camera.set_basis(Basis::from_vectors(f, r, u).unwrap());
    let m = camera.get_rotation_matrix();
    assert_eq!(m, [[0, 0, -UNIT, 0], [0, UNIT, 0, 0], [UNIT, 0, 0, 0], [0, 0, 0, UNIT]]);
}

#[test]
fn dot_product_values() {
    let a = Vec3 { x: 3, y: -4, z: 5 };
    let b = Vec3 { x: -UNIT, y: UNIT, z: 2 };
    assert_eq!(dot_product(a, b), -3 * UNIT as i128 - 4 * UNIT as i128 + 10);
    let u = Vec3 { x: UNIT, y: UNIT, z: UNIT };
    assert_eq!(dot_product(u, u), 3 * (UNIT as i128) * (UNIT as i128));
}

#[test]
fn set_basis_changes_rotation_and_movement() {
    let mut camera = Camera::new(0);
    let c = 707_106_781;
    let f = Vec3 { x: 0, y: c, z: -c };
    let r = Vec3 { x: UNIT, y: 0, z: 0 };
    let u = Vec3 { x: 0, y: c, z: c };
    let b = Basis::from_vectors(f, r, u).unwrap();
    camera.set_basis(b);
    let m = camera.get_rotation_matrix();
    assert_eq!(m, [[UNIT, 0, 0, 0], [0, c, -c, 0], [0, c, c, 0], [0, 0, 0, UNIT]]);
    press(&mut camera, Key::W, 1_000_000);
    let step = (c as i128) * MOVE_RATE * 1_000_000;
    assert_eq!(camera.position(), [0, step, 5 * POSITION_UNIT - step, 0]);
}
