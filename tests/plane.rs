use pong_physics::motion::{apply_drag, apply_velocity, I32MAX, I32MIN, MASS_MAX};
use pong_physics::object::Object;
use pong_physics::plane::Plane;

#[test]
pub fn test_apply_drag_drags_to_zero() {
    let mut i = 2;
    apply_drag(&mut i, MASS_MAX);
    assert_eq!(i, 0);
}

#[test]
pub fn test_apply_velocity_doesnt_overflow_coord() {
    let mut coord = I32MAX;
    apply_velocity(&mut coord, 500);
    assert!(coord >= 0);
}

#[test]
pub fn test_apply_velocity_maxes_out() {
    let mut coord = I32MAX;
    apply_velocity(&mut coord, I32MAX);
    assert_eq!(coord, I32MAX);
}

#[test]
pub fn test_plane_init() {
    Plane::new();
}

#[test]
pub fn test_attach_wall_object_to_plane() {
    let mut plane = Plane::new();

    assert_eq!(plane.attach_object(Object::new_wall(1, 1, 0, 0)), 1);
}

#[test]
pub fn test_drop_object_from_plane() {
    let mut plane = Plane::new();
    let wall = Object::new_wall(1, 1, 0, 0);
    let wall_clone = wall.clone();

    let obj_id = plane.attach_object(wall);
    plane.drop_object(obj_id);

    assert_eq!(wall_clone, wall);
}

#[test]
pub fn test_plane_detects_overlapping_walls() {
    let mut plane = Plane::new();
    let wall_1 = Object::new_wall(1, 1, 0, 0);
    let wall_2 = Object::new_wall(1, 1, 0, 0);

    let id_1 = plane.attach_object(wall_1);
    let id_2 = plane.attach_object(wall_2);

    assert_eq!(plane.detect_collisions().len(), 1);

    // The order of the two identifiers in a pair is of no meaning.
    let collision_success = match plane.detect_collisions()[0] {
        (col_id_1, col_id_2) if (col_id_1 == id_1) && (col_id_2 == id_2) => true,
        (col_id_2, col_id_1) if (col_id_1 == id_1) && (col_id_2 == id_2) => true,
        _ => false,
    };
    assert!(collision_success);
}

#[test]
fn apply_velocity_saturates_at_min() {
    let mut coord = I32MIN + 3;
    apply_velocity(&mut coord, -10);
    assert_eq!(coord, I32MIN);
}

#[test]
fn apply_velocity_adds_in_range() {
    let mut coord = -7;
    apply_velocity(&mut coord, 12);
    assert_eq!(coord, 5);
}

#[test]
fn apply_drag_shrinks_both_signs() {
    let mut up = 10;
    apply_drag(&mut up, 3);
    assert_eq!(up, 7);
    let mut down = -10;
    apply_drag(&mut down, 3);
    assert_eq!(down, -7);
    let mut small = -2;
    apply_drag(&mut small, 5);
    assert_eq!(small, 0);
}

#[test]
fn apply_drag_without_mass_keeps_velocity() {
    let mut v = -4;
    apply_drag(&mut v, 0);
    assert_eq!(v, -4);
}

#[test]
fn apply_drag_caps_huge_mass() {
    let mut v = I32MIN;
    apply_drag(&mut v, u32::MAX);
    assert_eq!(v, -1);
    let mut w = I32MAX;
    apply_drag(&mut w, u32::MAX);
    assert_eq!(w, 0);
}
