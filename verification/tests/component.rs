use ecdb_core::component::{Component, InvalidRegistrationOrder};
use ecdb_core::entity::EntityID;

#[test]
fn register_with_value_then_get_round_trip() {
    let mut c: Component<u64> = Component::new();
    let id = EntityID::new(0);
    assert_eq!(c.register_entity_with_value(id, 42), Ok(()));
    assert_eq!(c.get(id), Some(&42));
}

#[test]
fn register_without_value_reads_empty() {
    let mut c: Component<u64> = Component::new();
    let id = EntityID::new(0);
    assert_eq!(c.register_entity_without_value(id), Ok(()));
    assert_eq!(c.get(id), None);
}

#[test]
fn get_unregistered_is_empty() {
    let c: Component<u64> = Component::new();
    assert_eq!(c.get(EntityID::new(0)), None);
    assert_eq!(c.get(EntityID::new(17)), None);
}

#[test]
fn swap_remove_repairs_moved_entity() {
    // Entities A (slot 0, value 10) and B (slot 1, value 20): removing A
    // moves B's value into the freed dense slot, and B must still read 20.
    let mut c: Component<u64> = Component::new();
    let a = EntityID::new(0);
    let b = EntityID::new(1);
    assert_eq!(c.register_entity_with_value(a, 10), Ok(()));
    assert_eq!(c.register_entity_with_value(b, 20), Ok(()));
    c.remove(a);
    assert_eq!(c.get(a), None);
    assert_eq!(c.get(b), Some(&20));
}

#[test]
fn remove_is_idempotent_and_keeps_others() {
    let mut c: Component<u64> = Component::new();
    let a = EntityID::new(0);
    let b = EntityID::new(1);
    assert_eq!(c.register_entity_with_value(a, 1), Ok(()));
    assert_eq!(c.register_entity_with_value(b, 2), Ok(()));
    c.remove(a);
    c.remove(a);
    assert_eq!(c.get(a), None);
    assert_eq!(c.get(b), Some(&2));
}

#[test]
fn remove_never_registered_is_noop() {
    let mut c: Component<u64> = Component::new();
    assert_eq!(c.register_entity_with_value(EntityID::new(0), 5), Ok(()));
    c.remove(EntityID::new(9));
    assert_eq!(c.get(EntityID::new(0)), Some(&5));
}

#[test]
fn out_of_order_registration_is_rejected() {
    let mut c: Component<u64> = Component::new();
    assert_eq!(
        c.register_entity_with_value(EntityID::new(1), 7),
        Err(InvalidRegistrationOrder)
    );
    assert_eq!(
        c.register_entity_without_value(EntityID::new(3)),
        Err(InvalidRegistrationOrder)
    );
    // The failed registrations left the container unchanged.
    assert_eq!(c.get(EntityID::new(1)), None);
    assert_eq!(c.register_entity_with_value(EntityID::new(0), 7), Ok(()));
    // A second registration of the same id is out of order too.
    assert_eq!(
        c.register_entity_with_value(EntityID::new(0), 8),
        Err(InvalidRegistrationOrder)
    );
    assert_eq!(c.get(EntityID::new(0)), Some(&7));
}

#[test]
fn removal_of_middle_entity_keeps_both_neighbours() {
    let mut c: Component<&'static str> = Component::new();
    let ids: Vec<EntityID> = (0..3).map(EntityID::new).collect();
    assert_eq!(c.register_entity_with_value(ids[0], "a"), Ok(()));
    assert_eq!(c.register_entity_with_value(ids[1], "b"), Ok(()));
    assert_eq!(c.register_entity_with_value(ids[2], "c"), Ok(()));
    c.remove(ids[1]);
    assert_eq!(c.get(ids[0]), Some(&"a"));
    assert_eq!(c.get(ids[1]), None);
    assert_eq!(c.get(ids[2]), Some(&"c"));
}
