use monet::renderer::setup;
use monet::type_registry::{ShortTypeId, TypeRegistry};

#[test]
fn short_id_zero_is_invalid() {
    assert!(ShortTypeId::new(0).is_none());
    let five = ShortTypeId::new(5).unwrap();
    assert_eq!(five.as_usize(), 5);
    assert_eq!(u16::from(five), 5);
}

#[test]
fn registration_assigns_sequential_ids_from_one() {
    let mut registry = TypeRegistry::new();
    let first = registry.register_new(0xAAAA, String::from("renderer"));
    let second = registry.register_new(0xBBBB, String::from("eye listener"));
    assert_eq!(first.as_usize(), 1);
    assert_eq!(second.as_usize(), 2);
    assert_eq!(registry.get(0xAAAA), first);
    assert_eq!(registry.get(0xBBBB), second);
    assert_eq!(registry.get_name(first).as_str(), "renderer");
    assert_eq!(registry.get_name(second).as_str(), "eye listener");
    assert_eq!(registry.next_unassigned_id(), 3);
}

#[test]
fn get_or_register_is_idempotent() {
    let mut registry = TypeRegistry::new();
    let first = registry.get_or_register(77, String::from("projection requester"));
    let again = registry.get_or_register(77, String::from("projection requester"));
    assert_eq!(first, again);
    assert_eq!(registry.next_unassigned_id(), 2);
    assert_eq!(registry.get_name(first).as_str(), "projection requester");
}

#[test]
fn default_registry_is_empty() {
    let mut registry = TypeRegistry::default();
    assert_eq!(registry.next_unassigned_id(), 1);
    let id = registry.register_new(1, String::from("renderer"));
    assert_eq!(id.as_usize(), 1);
}

#[test]
fn setup_registers_every_receiver_type_once() {
    let mut registry = TypeRegistry::new();
    registry.register_new(20, String::from("eye listener"));
    let receiver_types = vec![
        (10, String::from("renderer")),
        (20, String::from("eye listener")),
        (30, String::from("projection requester")),
    ];
    setup(&mut registry, receiver_types);
    let renderer_id = registry.get(10);
    let listener_id = registry.get(20);
    let requester_id = registry.get(30);
    assert_eq!(registry.get_name(renderer_id).as_str(), "renderer");
    assert_eq!(registry.get_name(listener_id).as_str(), "eye listener");
    assert_eq!(registry.get_name(requester_id).as_str(), "projection requester");
    assert_eq!(listener_id.as_usize(), 1);
    assert_eq!(registry.next_unassigned_id(), 4);
}
