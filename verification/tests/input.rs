use lightyear::entity::UnknownEntity;
use lightyear::input::{
    other_clients, BuildError, ClientInputPlugin, InputConfig, InputMessage, InputPlugin,
    InputSetup, Outbound, Received, ServerInputPlugin,
};
use lightyear::message::{MessageMeta, MessageRegistry};
use lightyear::registry::{DuplicateType, TypeKind};
use lightyear::role::{Direction, Role, RoleMissing};
use std::any::TypeId;
use std::collections::HashMap;
use std::marker::PhantomData;

#[derive(Clone, Copy, Debug, PartialEq, Eq, Hash)]
struct Kind(TypeId);

impl From<TypeId> for Kind {
    fn from(type_id: TypeId) -> Self {
        Self(type_id)
    }
}

impl TypeKind for Kind {}

#[derive(Clone, Copy, Debug, PartialEq, Eq)]
enum Action {
    Jump,
    Shoot,
}

struct Chat;

fn plugin(rebroadcast_inputs: bool) -> InputPlugin<Action> {
    InputPlugin { config: InputConfig { rebroadcast_inputs, marker: PhantomData } }
}

fn server(rebroadcast_inputs: bool) -> ServerInputPlugin<Action> {
    ServerInputPlugin { rebroadcast_inputs, marker: PhantomData }
}

fn table() -> HashMap<u64, u64> {
    let mut table = HashMap::new();
    table.insert(1, 1001);
    table.insert(2, 1002);
    table.insert(3, 1003);
    table
}

fn message(tick: u16, target: u64, references: Vec<u64>, action: Action) -> InputMessage<Action> {
    InputMessage { tick, target, references, action }
}

#[test]
fn default_plugin_does_not_rebroadcast() {
    let plugin = InputPlugin::<Action>::default();
    assert!(!plugin.config.rebroadcast_inputs);
    assert!(!InputConfig::<Action>::default().rebroadcast_inputs);
}

#[test]
fn config_clone_keeps_the_flag() {
    let config = InputConfig::<Action> { rebroadcast_inputs: true, marker: PhantomData };
    assert_eq!(config.clone(), config);
    assert!(config.clone().rebroadcast_inputs);
}

#[test]
fn build_without_role_fails_and_installs_nothing() {
    let mut registry = MessageRegistry::<Kind>::new();
    registry.register_message::<Chat>(Direction::ServerToClient).unwrap();
    for rebroadcast in [false, true] {
        let r = plugin(rebroadcast).build(&mut registry, false, false);
        assert_eq!(r, Err(BuildError::RoleMissing(RoleMissing)));
        assert_eq!(registry.len(), 1);
        assert_eq!(registry.meta(1), None);
    }
}

#[test]
fn build_for_client_installs_the_client_side_only() {
    let mut registry = MessageRegistry::<Kind>::new();
    let setup = plugin(true).build(&mut registry, true, false).unwrap();
    assert_eq!(setup.kind, Kind(TypeId::of::<InputMessage<Action>>()));
    assert_eq!(setup.role, Role::ClientOnly);
    assert_eq!(
        setup.client,
        Some(ClientInputPlugin {
            config: InputConfig { rebroadcast_inputs: true, marker: PhantomData }
        })
    );
    assert_eq!(setup.server, None);
}

#[test]
fn build_for_server_installs_the_server_side_only() {
    let mut registry = MessageRegistry::<Kind>::new();
    let setup = plugin(true).build(&mut registry, false, true).unwrap();
    assert_eq!(setup.role, Role::ServerOnly);
    assert_eq!(setup.client, None);
    assert_eq!(setup.server, Some(server(true)));
    let mut registry = MessageRegistry::<Kind>::new();
    let setup = plugin(false).build(&mut registry, false, true).unwrap();
    assert_eq!(setup.server, Some(server(false)));
}

#[test]
fn build_for_both_installs_both_sides() {
    let mut registry = MessageRegistry::<Kind>::new();
    let setup = plugin(false).build(&mut registry, true, true).unwrap();
    assert_eq!(
        setup,
        InputSetup {
            kind: Kind(TypeId::of::<InputMessage<Action>>()),
            role: Role::Both,
            client: Some(ClientInputPlugin {
                config: InputConfig { rebroadcast_inputs: false, marker: PhantomData }
            }),
            server: Some(server(false)),
        }
    );
}

#[test]
fn build_registers_the_input_message() {
    let mut registry = MessageRegistry::<Kind>::new();
    registry.register_message::<Chat>(Direction::ServerToClient).unwrap();
    let setup = plugin(false).build(&mut registry, true, true).unwrap();
    assert_eq!(registry.len(), 2);
    assert_eq!(registry.net_id(&setup.kind), Some(&1));
    assert_eq!(
        registry.meta(1),
        Some(MessageMeta { direction: Direction::Bidirectional, map_entities: true })
    );
    assert_eq!(
        registry.meta(0),
        Some(MessageMeta { direction: Direction::ServerToClient, map_entities: false })
    );
    for role in [Role::ClientOnly, Role::ServerOnly, Role::Both] {
        assert!(registry.dispatches(1, role));
    }
}

#[test]
fn build_twice_is_a_duplicate() {
    let mut registry = MessageRegistry::<Kind>::new();
    let setup = plugin(false).build(&mut registry, true, false).unwrap();
    let again = plugin(false).build(&mut registry, true, false);
    assert_eq!(again, Err(BuildError::Duplicate(DuplicateType { kind: setup.kind })));
    assert_eq!(registry.len(), 1);
    let again = plugin(false).build(&mut registry, false, false);
    assert_eq!(again, Err(BuildError::Duplicate(DuplicateType { kind: setup.kind })));
    assert_eq!(registry.len(), 1);
}

#[test]
fn build_with_kind_uses_the_given_kind() {
    let mut registry = MessageRegistry::<Kind>::new();
    let kind = Kind(TypeId::of::<Chat>());
    let setup = plugin(true).build_with_kind(kind, &mut registry, false, true).unwrap();
    assert_eq!(setup.kind, kind);
    assert_eq!(registry.net_id(&kind), Some(&0));
    assert_eq!(
        plugin(true).build_with_kind(kind, &mut registry, false, true),
        Err(BuildError::Duplicate(DuplicateType { kind }))
    );
    let mut empty = MessageRegistry::<Kind>::new();
    assert_eq!(
        plugin(true).build_with_kind(kind, &mut empty, false, false),
        Err(BuildError::RoleMissing(RoleMissing))
    );
    assert_eq!(empty.len(), 0);
}

#[test]
fn client_sends_local_action_to_the_server() {
    let mut registry = MessageRegistry::<Kind>::new();
    let setup = plugin(true).build(&mut registry, true, false).unwrap();
    let out = setup.on_local_action(42, 7, vec![8, 9], Action::Jump);
    assert_eq!(
        out,
        Some(Outbound {
            direction: Direction::ClientToServer,
            message: message(42, 7, vec![8, 9], Action::Jump),
        })
    );
    let incoming = setup.on_incoming(5, message(42, 1, vec![], Action::Jump), &table(), &vec![5, 6]);
    assert_eq!(incoming, None);
}

#[test]
fn server_only_process_sends_no_local_action() {
    let mut registry = MessageRegistry::<Kind>::new();
    let setup = plugin(true).build(&mut registry, false, true).unwrap();
    assert_eq!(setup.on_local_action(1, 2, vec![], Action::Shoot), None);
    let incoming = setup.on_incoming(5, message(9, 1, vec![2], Action::Shoot), &table(), &vec![5, 6]);
    assert_eq!(
        incoming,
        Some(Received::Applied {
            message: message(9, 1001, vec![1002], Action::Shoot),
            forward_to: vec![6],
        })
    );
}

#[test]
fn capture_tags_the_action_with_the_tick() {
    let client = ClientInputPlugin::new(InputConfig::<Action>::default());
    let out = client.capture(65535, 3, vec![], Action::Shoot);
    assert_eq!(out.direction, Direction::ClientToServer);
    assert_eq!(out.message, message(65535, 3, vec![], Action::Shoot));
}

#[test]
fn map_entities_rewrites_every_reference() {
    let local = message(5, 3, vec![1, 2, 1], Action::Jump).map_entities(&table());
    assert_eq!(local, Ok(message(5, 1003, vec![1001, 1002, 1001], Action::Jump)));
}

#[test]
fn map_entities_reports_the_first_unknown_reference() {
    let m = message(5, 9, vec![8, 1], Action::Jump);
    assert_eq!(m.map_entities(&table()), Err(UnknownEntity { entity: 9 }));
    let m = message(5, 1, vec![2, 8, 7], Action::Jump);
    assert_eq!(m.map_entities(&table()), Err(UnknownEntity { entity: 8 }));
}

#[test]
fn other_clients_leaves_the_sender_out() {
    assert_eq!(other_clients(&vec![4, 5, 6], 5), vec![4, 6]);
    assert_eq!(other_clients(&vec![4, 5, 6], 7), vec![4, 5, 6]);
    assert_eq!(other_clients(&vec![5], 5), Vec::<u64>::new());
    assert_eq!(other_clients(&vec![], 5), Vec::<u64>::new());
    assert_eq!(other_clients(&vec![5, 4, 5, 6], 5), vec![4, 6]);
}

#[test]
fn rebroadcast_forwards_to_the_other_clients() {
    let r = server(true).receive(20, message(3, 1, vec![2], Action::Jump), &table(), &vec![10, 20, 30]);
    assert_eq!(
        r,
        Received::Applied {
            message: message(3, 1001, vec![1002], Action::Jump),
            forward_to: vec![10, 30],
        }
    );
}

#[test]
fn without_rebroadcast_nothing_is_forwarded() {
    let r = server(false).receive(20, message(3, 1, vec![2], Action::Jump), &table(), &vec![10, 20, 30]);
    assert_eq!(
        r,
        Received::Applied {
            message: message(3, 1001, vec![1002], Action::Jump),
            forward_to: vec![],
        }
    );
}

#[test]
fn unknown_reference_drops_the_message() {
    for rebroadcast in [false, true] {
        let r = server(rebroadcast).receive(
            20,
            message(3, 1, vec![2, 77], Action::Jump),
            &table(),
            &vec![10, 20, 30],
        );
        assert_eq!(r, Received::Dropped { unknown: UnknownEntity { entity: 77 } });
    }
}

#[test]
fn dropped_message_does_not_stop_the_batch() {
    let batch = vec![
        message(1, 1, vec![], Action::Jump),
        message(2, 99, vec![], Action::Shoot),
        message(3, 2, vec![3, 98], Action::Jump),
        message(4, 3, vec![1], Action::Shoot),
    ];
    let out = server(true).receive_batch(10, batch, &table(), &vec![10, 11]);
    assert_eq!(
        out,
        vec![
            Received::Applied { message: message(1, 1001, vec![], Action::Jump), forward_to: vec![11] },
            Received::Dropped { unknown: UnknownEntity { entity: 99 } },
            Received::Dropped { unknown: UnknownEntity { entity: 98 } },
            Received::Applied {
                message: message(4, 1003, vec![1001], Action::Shoot),
                forward_to: vec![11],
            },
        ]
    );
}

#[test]
fn empty_batch_gives_nothing() {
    let out = server(true).receive_batch(10, vec![], &table(), &vec![10, 11]);
    assert_eq!(out, vec![]);
}
