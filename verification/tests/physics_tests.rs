use zeroengine::components::RigidBodyType;
use zeroengine::physics::{
    collider_pair_key, is_kinematic, BodyRegistry, CallbackPhase, ColliderId, ColliderPair, CollisionEvent,
    RegisteredBody, ScriptCallback,
};

fn id(index: u32, generation: u32) -> ColliderId {
    ColliderId { index, generation }
}

fn body(entity: u64, collider: ColliderId, is_sensor: bool) -> RegisteredBody {
    RegisteredBody { entity, body_type: RigidBodyType::Dynamic, collider, is_sensor }
}

fn event(a: ColliderId, b: ColliderId, sensor: bool, started: bool) -> CollisionEvent {
    CollisionEvent { collider1: a, collider2: b, sensor, started }
}

fn cb(sensor: bool, phase: CallbackPhase, entity: u64, other: u64) -> ScriptCallback {
    ScriptCallback { sensor, phase, entity, other }
}

fn two_bodies(first_sensor: bool, second_sensor: bool) -> BodyRegistry {
    let mut r = BodyRegistry::new();
    r.register_entity(body(10, id(1, 0), first_sensor));
    r.register_entity(body(20, id(2, 0), second_sensor));
    r
}

#[test]
fn pair_keys_put_the_smaller_handle_first() {
    let a = id(3, 1);
    let b = id(3, 0);
    let c = id(1, 9);
    assert_eq!(collider_pair_key(a, b), ColliderPair { first: b, second: a });
    assert_eq!(collider_pair_key(b, a), ColliderPair { first: b, second: a });
    assert_eq!(collider_pair_key(a, c), ColliderPair { first: c, second: a });
    assert_eq!(collider_pair_key(c, a), collider_pair_key(a, c));
}

#[test]
fn only_kinematic_bodies_are_kinematic() {
    assert!(is_kinematic(RigidBodyType::KinematicPositionBased));
    assert!(is_kinematic(RigidBodyType::KinematicVelocityBased));
    assert!(!is_kinematic(RigidBodyType::Dynamic));
    assert!(!is_kinematic(RigidBodyType::Static));
}

#[test]
fn registering_an_entity_twice_keeps_the_first_body() {
    let mut r = BodyRegistry::new();
    r.register_entity(body(10, id(1, 0), false));
    r.register_entity(body(10, id(5, 0), true));
    assert_eq!(r.bodies.len(), 1);
    assert_eq!(r.entity_for_collider(id(1, 0)), Some(10));
    assert_eq!(r.entity_for_collider(id(5, 0)), None);
    assert!(!r.collider_is_sensor(id(1, 0)));
    assert!(r.contains_entity(10));
    assert!(!r.contains_entity(11));
}

#[test]
fn contacts_are_told_to_both_entities_when_they_begin_last_and_end() {
    let mut r = two_bodies(false, false);
    let calls = r.dispatch_script_collision_events(&vec![event(id(2, 0), id(1, 0), false, true)]);
    assert_eq!(calls, vec![cb(false, CallbackPhase::Enter, 20, 10), cb(false, CallbackPhase::Enter, 10, 20)]);
    assert_eq!(r.contact_pairs, vec![ColliderPair { first: id(1, 0), second: id(2, 0) }]);

    let calls = r.dispatch_script_collision_events(&vec![]);
    assert_eq!(calls, vec![cb(false, CallbackPhase::Stay, 10, 20), cb(false, CallbackPhase::Stay, 20, 10)]);

    let calls = r.dispatch_script_collision_events(&vec![event(id(1, 0), id(2, 0), false, false)]);
    assert_eq!(calls, vec![cb(false, CallbackPhase::Exit, 10, 20), cb(false, CallbackPhase::Exit, 20, 10)]);
    assert!(r.contact_pairs.is_empty());
}

#[test]
fn a_contact_that_begins_in_this_step_is_not_reported_as_lasting() {
    let mut r = two_bodies(false, false);
    let calls = r.dispatch_script_collision_events(&vec![event(id(1, 0), id(2, 0), false, true)]);
    assert_eq!(calls.len(), 2);
    assert!(calls.iter().all(|c| c.phase == CallbackPhase::Enter));
}

#[test]
fn contact_events_between_unknown_colliders_are_ignored() {
    let mut r = two_bodies(false, false);
    let calls = r.dispatch_script_collision_events(&vec![event(id(1, 0), id(7, 0), false, true)]);
    assert!(calls.is_empty());
    assert!(r.contact_pairs.is_empty());
}

#[test]
fn sensor_overlaps_tell_the_sensor_side_through_contacts_and_the_other_through_sensors() {
    let mut r = two_bodies(true, false);
    let calls = r.dispatch_script_collision_events(&vec![event(id(1, 0), id(2, 0), true, true)]);
    assert_eq!(calls, vec![cb(false, CallbackPhase::Enter, 10, 20), cb(true, CallbackPhase::Enter, 20, 10)]);
    assert_eq!(r.sensor_pairs.len(), 1);

    let mut r = two_bodies(false, true);
    let calls = r.dispatch_script_collision_events(&vec![event(id(1, 0), id(2, 0), true, true)]);
    assert_eq!(calls, vec![cb(false, CallbackPhase::Enter, 20, 10), cb(true, CallbackPhase::Enter, 10, 20)]);

    let mut r = two_bodies(true, true);
    let calls = r.dispatch_script_collision_events(&vec![event(id(1, 0), id(2, 0), true, true)]);
    assert_eq!(
        calls,
        vec![
            cb(false, CallbackPhase::Enter, 10, 20),
            cb(false, CallbackPhase::Enter, 20, 10),
            cb(true, CallbackPhase::Enter, 10, 20),
            cb(true, CallbackPhase::Enter, 20, 10),
        ]
    );
    let calls = r.dispatch_script_collision_events(&vec![event(id(2, 0), id(1, 0), true, false)]);
    assert_eq!(calls.len(), 4);
    assert!(calls.iter().all(|c| c.phase == CallbackPhase::Exit));
    assert!(r.sensor_pairs.is_empty());
}

#[test]
fn sensor_events_with_unknown_colliders_still_update_the_pairs() {
    let mut r = two_bodies(true, false);
    let calls = r.dispatch_script_collision_events(&vec![event(id(1, 0), id(9, 0), true, true)]);
    assert!(calls.is_empty());
    assert_eq!(r.sensor_pairs, vec![ColliderPair { first: id(1, 0), second: id(9, 0) }]);
}

#[test]
fn the_last_event_for_a_pair_decides_whether_it_is_active() {
    let mut r = two_bodies(false, false);
    let calls = r.dispatch_script_collision_events(&vec![
        event(id(1, 0), id(2, 0), false, true),
        event(id(2, 0), id(1, 0), false, false),
    ]);
    assert!(r.contact_pairs.is_empty());
    assert_eq!(calls.len(), 4);
    let calls = r.dispatch_script_collision_events(&vec![
        event(id(1, 0), id(2, 0), false, false),
        event(id(1, 0), id(2, 0), false, true),
    ]);
    assert_eq!(r.contact_pairs.len(), 1);
    assert_eq!(calls.len(), 4);
}

#[test]
fn removing_an_entity_forgets_its_pairs() {
    let mut r = two_bodies(false, false);
    r.register_entity(body(30, id(3, 0), false));
    r.dispatch_script_collision_events(&vec![
        event(id(1, 0), id(2, 0), false, true),
        event(id(2, 0), id(3, 0), false, true),
    ]);
    assert_eq!(r.contact_pairs.len(), 2);
    r.remove_entity(10);
    assert_eq!(r.contact_pairs, vec![ColliderPair { first: id(2, 0), second: id(3, 0) }]);
    assert_eq!(r.entity_for_collider(id(1, 0)), None);
    assert!(!r.contains_entity(10));
    r.remove_entity(99);
    assert_eq!(r.bodies.len(), 2);
}

#[test]
fn body_queries_pick_entities_in_registration_order() {
    let mut r = BodyRegistry::new();
    r.register_entity(RegisteredBody { entity: 1, body_type: RigidBodyType::KinematicVelocityBased, collider: id(1, 0), is_sensor: false });
    r.register_entity(RegisteredBody { entity: 2, body_type: RigidBodyType::Static, collider: id(2, 0), is_sensor: false });
    r.register_entity(RegisteredBody { entity: 3, body_type: RigidBodyType::KinematicPositionBased, collider: id(3, 0), is_sensor: false });
    assert_eq!(r.kinematic_entities(), vec![1, 3]);
    assert_eq!(r.stale_entities(&vec![2, 3]), vec![1]);
    assert_eq!(r.inactive_entities(&vec![3, 9]), vec![3]);
}

fn sync(r: &mut BodyRegistry, active: &[RegisteredBody]) {
    let entities: Vec<u64> = active.iter().map(|b| b.entity).collect();
    for stale in r.stale_entities(&entities) {
        r.remove_entity(stale);
    }
    for b in active {
        r.register_entity(*b);
    }
}

#[test]
fn inactive_entities_do_not_participate_in_physics() {
    let mut r = BodyRegistry::new();
    let body = body(1, id(0, 0), false);
    sync(&mut r, &[]);
    assert_eq!(r.bodies.len(), 0);
    sync(&mut r, &[body]);
    assert_eq!(r.bodies.len(), 1);
    assert_eq!(r.entity_for_collider(id(0, 0)), Some(1));
    sync(&mut r, &[]);
    assert_eq!(r.bodies.len(), 0);
}

#[test]
fn standalone_update_removes_inactive_physics_bodies() {
    let mut r = BodyRegistry::new();
    r.register_entity(body(1, id(0, 0), false));
    assert_eq!(r.bodies.len(), 1);
    for entity in r.inactive_entities(&vec![1]) {
        r.remove_entity(entity);
    }
    assert_eq!(r.bodies.len(), 0);
}
