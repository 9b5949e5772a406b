use lightyear::message::{MessageMeta, MessageRegistry};
use lightyear::registry::{DuplicateType, TypeKind};
use lightyear::role::{Direction, Role};
use std::any::TypeId;

#[derive(Clone, Copy, Debug, PartialEq, Eq, Hash)]
struct Kind(TypeId);

impl From<TypeId> for Kind {
    fn from(type_id: TypeId) -> Self {
        Self(type_id)
    }
}

impl TypeKind for Kind {}

struct Move;
struct Spawn;
struct Score;

#[test]
fn message_registry_starts_empty() {
    let registry = MessageRegistry::<Kind>::new();
    assert_eq!(registry.len(), 0);
    assert_eq!(registry.meta(0), None);
    assert_eq!(registry.kind(0), None);
    assert!(!registry.dispatches(0, Role::Both));
}

#[test]
fn message_gets_identifier_and_direction() {
    let mut registry = MessageRegistry::<Kind>::new();
    let mv = registry.register_message::<Move>(Direction::ClientToServer).unwrap();
    let spawn = registry.register_message::<Spawn>(Direction::ServerToClient).unwrap();
    let score = registry.register_message::<Score>(Direction::Bidirectional).unwrap();
    assert_eq!(mv, Kind(TypeId::of::<Move>()));
    assert_eq!(registry.len(), 3);
    assert_eq!(registry.net_id(&mv), Some(&0));
    assert_eq!(registry.net_id(&spawn), Some(&1));
    assert_eq!(registry.net_id(&score), Some(&2));
    assert_eq!(registry.kind(1), Some(&spawn));
    assert_eq!(
        registry.meta(0),
        Some(MessageMeta { direction: Direction::ClientToServer, map_entities: false })
    );
    assert_eq!(
        registry.meta(1),
        Some(MessageMeta { direction: Direction::ServerToClient, map_entities: false })
    );
    assert_eq!(
        registry.meta(2),
        Some(MessageMeta { direction: Direction::Bidirectional, map_entities: false })
    );
    assert_eq!(registry.meta(3), None);
}

#[test]
fn duplicate_message_is_refused() {
    let mut registry = MessageRegistry::<Kind>::new();
    let mv = registry.register_message::<Move>(Direction::ClientToServer).unwrap();
    assert_eq!(
        registry.register_message::<Move>(Direction::ServerToClient),
        Err(DuplicateType { kind: mv })
    );
    assert_eq!(registry.len(), 1);
    assert_eq!(
        registry.meta(0),
        Some(MessageMeta { direction: Direction::ClientToServer, map_entities: false })
    );
    assert_eq!(registry.meta(1), None);
}

#[test]
fn duplicate_message_kind_is_refused() {
    let mut registry = MessageRegistry::<Kind>::new();
    let kind = Kind(TypeId::of::<Score>());
    assert_eq!(registry.register_message_kind(kind, Direction::Bidirectional), Ok(kind));
    assert_eq!(
        registry.register_message_kind(kind, Direction::Bidirectional),
        Err(DuplicateType { kind })
    );
    assert_eq!(registry.len(), 1);
}

#[test]
fn entity_mapping_marks_one_message() {
    let mut registry = MessageRegistry::<Kind>::new();
    let mv = registry.register_message::<Move>(Direction::ClientToServer).unwrap();
    let spawn = registry.register_message::<Spawn>(Direction::ServerToClient).unwrap();
    assert_eq!(registry.with_entity_mapping(&spawn), Some(1));
    assert_eq!(
        registry.meta(0),
        Some(MessageMeta { direction: Direction::ClientToServer, map_entities: false })
    );
    assert_eq!(
        registry.meta(1),
        Some(MessageMeta { direction: Direction::ServerToClient, map_entities: true })
    );
    assert_eq!(registry.net_id(&mv), Some(&0));
    assert_eq!(registry.len(), 2);
}

#[test]
fn entity_mapping_of_unknown_message_changes_nothing() {
    let mut registry = MessageRegistry::<Kind>::new();
    registry.register_message::<Move>(Direction::ClientToServer).unwrap();
    assert_eq!(registry.with_entity_mapping(&Kind(TypeId::of::<Spawn>())), None);
    assert_eq!(registry.len(), 1);
    assert_eq!(
        registry.meta(0),
        Some(MessageMeta { direction: Direction::ClientToServer, map_entities: false })
    );
}

#[test]
fn dispatch_is_gated_on_direction() {
    let mut registry = MessageRegistry::<Kind>::new();
    registry.register_message::<Move>(Direction::ClientToServer).unwrap();
    registry.register_message::<Spawn>(Direction::ServerToClient).unwrap();
    registry.register_message::<Score>(Direction::Bidirectional).unwrap();
    assert!(!registry.dispatches(0, Role::ClientOnly));
    assert!(registry.dispatches(0, Role::ServerOnly));
    assert!(registry.dispatches(0, Role::Both));
    assert!(registry.dispatches(1, Role::ClientOnly));
    assert!(!registry.dispatches(1, Role::ServerOnly));
    assert!(registry.dispatches(1, Role::Both));
    assert!(registry.dispatches(2, Role::ClientOnly));
    assert!(registry.dispatches(2, Role::ServerOnly));
    assert!(registry.dispatches(2, Role::Both));
}

#[test]
fn unregistered_identifier_is_never_dispatched() {
    let mut registry = MessageRegistry::<Kind>::new();
    registry.register_message::<Score>(Direction::Bidirectional).unwrap();
    for role in [Role::ClientOnly, Role::ServerOnly, Role::Both] {
        assert!(!registry.dispatches(1, role));
        assert!(!registry.dispatches(u16::MAX, role));
    }
}

#[test]
fn entity_mapping_by_identifier() {
    let mut registry = MessageRegistry::<Kind>::new();
    registry.register_message::<Move>(Direction::ClientToServer).unwrap();
    registry.register_message::<Spawn>(Direction::Bidirectional).unwrap();
    assert!(registry.set_entity_mapping(0));
    assert!(!registry.set_entity_mapping(2));
    assert_eq!(
        registry.meta(0),
        Some(MessageMeta { direction: Direction::ClientToServer, map_entities: true })
    );
    assert_eq!(
        registry.meta(1),
        Some(MessageMeta { direction: Direction::Bidirectional, map_entities: false })
    );
    assert_eq!(registry.len(), 2);
    assert!(registry.set_entity_mapping(0));
    assert_eq!(
        registry.meta(0),
        Some(MessageMeta { direction: Direction::ClientToServer, map_entities: true })
    );
}
