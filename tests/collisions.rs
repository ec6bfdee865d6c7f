use pong_physics::object::{Coords, Mass, Movement, Object};
use pong_physics::plane::{Collision, Id, Plane};

fn holds_pair(list: &Vec<Collision>, a: Id, b: Id) -> usize {
    list.iter()
        .filter(|p| (p.0 == a && p.1 == b) || (p.0 == b && p.1 == a))
        .count()
}

#[test]
fn disjoint_on_x_not_reported() {
    let mut plane = Plane::new();
    plane.attach_object(Object::new_wall(2, 2, 0, 0));
    plane.attach_object(Object::new_wall(2, 2, 3, 0));
    assert!(plane.detect_collisions().is_empty());
}

#[test]
fn disjoint_on_y_not_reported() {
    let mut plane = Plane::new();
    plane.attach_object(Object::new_wall(5, 1, 0, 0));
    plane.attach_object(Object::new_wall(5, 1, 0, 10));
    assert!(plane.detect_collisions().is_empty());
}

#[test]
fn touching_edges_reported_once_either_order() {
    let mut plane = Plane::new();
    let a = plane.attach_object(Object::new_wall(2, 2, 0, 0));
    let b = plane.attach_object(Object::new_wall(2, 2, 2, 2));
    let list = plane.detect_collisions();
    assert_eq!(list.len(), 1);
    assert_eq!(holds_pair(&list, a, b), 1);

    let mut other = Plane::new();
    let b2 = other.attach_object(Object::new_wall(2, 2, 2, 2));
    let a2 = other.attach_object(Object::new_wall(2, 2, 0, 0));
    let list2 = other.detect_collisions();
    assert_eq!(list2.len(), 1);
    assert_eq!(holds_pair(&list2, a2, b2), 1);
}

#[test]
fn every_overlapping_pair_once() {
    let mut plane = Plane::new();
    let a = plane.attach_object(Object::new_wall(10, 10, 0, 0));
    let b = plane.attach_object(Object::new_wall(10, 10, 5, 5));
    let c = plane.attach_object(Object::new_wall(10, 10, 8, 8));
    let d = plane.attach_object(Object::new_wall(1, 1, 100, 100));
    let list = plane.detect_collisions();
    assert_eq!(list.len(), 3);
    assert_eq!(holds_pair(&list, a, b), 1);
    assert_eq!(holds_pair(&list, a, c), 1);
    assert_eq!(holds_pair(&list, b, c), 1);
    assert_eq!(holds_pair(&list, a, d), 0);
    for p in list.iter() {
        assert_ne!(p.0, p.1);
    }
}

#[test]
fn non_collidable_objects_ignored() {
    let mut plane = Plane::new();
    plane.attach_object(Object::new_wall(4, 4, 0, 0));
    let ghost = Object {
        width: 4,
        height: 4,
        coords: Coords { x: 1, y: 1 },
        movement: Movement::Rigid,
        mass: Mass::Massless,
        is_collidable: false,
        is_rigid: true,
    };
    plane.attach_object(ghost);
    assert!(plane.detect_collisions().is_empty());
}

#[test]
fn detached_wall_no_longer_collides() {
    let mut plane = Plane::new();
    let a = plane.attach_object(Object::new_wall(1, 1, 0, 0));
    plane.attach_object(Object::new_wall(1, 1, 0, 0));
    assert_eq!(plane.detect_collisions().len(), 1);
    plane.drop_object(a);
    assert!(plane.detect_collisions().is_empty());
}

#[test]
fn extreme_boxes_do_not_overflow() {
    let mut plane = Plane::new();
    let a = plane.attach_object(Object::new_wall(i32::MAX, i32::MAX, i32::MAX, i32::MAX));
    let b = plane.attach_object(Object::new_wall(1, 1, i32::MAX, i32::MAX));
    plane.attach_object(Object::new_wall(1, 1, i32::MIN, i32::MIN));
    let list = plane.detect_collisions();
    assert_eq!(list.len(), 1);
    assert_eq!(holds_pair(&list, a, b), 1);
}
