//! The player-input channel: the message that carries an action, what the
//! client side sends, what the server side does with what it receives, and
//! which of the two sides a process installs.

use crate::entity::{
    first_unknown, lemma_first_unknown_none, translate, translate_one, translated, Entity,
    UnknownEntity,
};
use crate::message::{MessageMeta, MessageRegistry};
use crate::registry::{type_id_of, DuplicateType, NetId, TypeKind, MAX_KINDS};
use crate::role::{Direction, Facet, Role, RoleMissing};
use std::collections::HashMap;
use std::fmt::Debug;
use std::marker::PhantomData;
use vstd::prelude::*;
use vstd::std_specs::hash::obeys_key_model;

verus! {

/// The simulation step that an input belongs to.
pub type Tick = u16;

/// A connected client, as the server knows it.
pub type ClientId = u64;

/// What an application may use as its input action.
pub trait UserAction: Clone + PartialEq + Send + Sync + Debug + 'static {

}

impl<A: Clone + PartialEq + Send + Sync + Debug + 'static> UserAction for A {

}

/// The envelope in which an action travels.
#[derive(Debug, PartialEq, Eq)]
pub struct InputMessage<A> {
    /// The step for which the action was produced.
    pub tick: Tick,
    /// The entity that the action steers.
    pub target: Entity,
    /// The entity references inside the action, in the order in which a walk
    /// over the action meets them.
    pub references: Vec<Entity>,
    /// The action itself.
    pub action: A,
}

/// An `InputMessage` as a mathematical value.
pub ghost struct InputMessageView<A> {
    pub tick: Tick,
    pub target: Entity,
    pub references: Seq<Entity>,
    pub action: A,
}

impl<A> View for InputMessage<A> {
    type V = InputMessageView<A>;

    open spec fn view(&self) -> InputMessageView<A> {
        InputMessageView {
            tick: self.tick,
            target: self.target,
            references: self.references@,
            action: self.action,
        }
    }
}

impl<A> InputMessageView<A> {
    /// Every entity reference of the message: the target, then those of the
    /// action.
    pub open spec fn slots(self) -> Seq<Entity> {
        seq![self.target] + self.references
    }

    /// The message with every reference replaced by what `table` maps it to.
    pub open spec fn translated(self, table: Map<Entity, Entity>) -> InputMessageView<A> {
        InputMessageView {
            tick: self.tick,
            target: table[self.target],
            references: translated(self.references, table),
            action: self.action,
        }
    }
}

impl<A> InputMessage<A> {
    /// Rewrites every entity reference of the message to its local
    /// equivalent. Tick and action stay. A message with a reference that the
    /// table does not hold is refused as a whole, with the first such
    /// reference as the error.
    pub fn map_entities(self, table: &HashMap<Entity, Entity>) -> (r: Result<
        InputMessage<A>,
        UnknownEntity,
    >)
        ensures
            match r {
                Ok(local) => first_unknown(self@.slots(), table@).is_none() && local@
                    == self@.translated(table@),
                Err(e) => first_unknown(self@.slots(), table@) == Some(e.entity),
            },
    {
        proof {
            assert(self@.slots().first() == self.target);
            assert(self@.slots().drop_first() =~= self.references@);
        }
        let target = match translate_one(self.target, table) {
            Ok(target) => target,
            Err(e) => {
                return Err(e);
            },
        };
        let references = match translate(&self.references, table) {
            Ok(references) => references,
            Err(e) => {
                return Err(e);
            },
        };
        Ok(InputMessage { tick: self.tick, target, references, action: self.action })
    }
}

/// What the application chooses for the input channel.
#[derive(Debug, PartialEq, Eq)]
pub struct InputConfig<A> {
    /// Whether a server forwards each input that it receives to the other
    /// connected clients.
    pub rebroadcast_inputs: bool,
    pub marker: PhantomData<A>,
}

impl<A> Clone for InputConfig<A> {
    fn clone(&self) -> (r: Self)
        ensures
            r == *self,
    {
        Self { rebroadcast_inputs: self.rebroadcast_inputs, marker: self.marker }
    }
}

impl<A> Default for InputConfig<A> {
    /// A server does not rebroadcast unless asked to.
    fn default() -> (r: Self)
        ensures
            !r.rebroadcast_inputs,
    {
        Self { rebroadcast_inputs: false, marker: PhantomData }
    }
}

/// A message on its way out, with the direction in which it is sent.
#[derive(Debug, PartialEq, Eq)]
pub struct Outbound<A> {
    pub direction: Direction,
    pub message: InputMessage<A>,
}

/// The client side of the input channel.
#[derive(Debug, PartialEq, Eq)]
pub struct ClientInputPlugin<A> {
    pub config: InputConfig<A>,
}

impl<A> ClientInputPlugin<A> {
    pub fn new(config: InputConfig<A>) -> (r: Self)
        ensures
            r.config == config,
    {
        Self { config }
    }

    /// Wraps an action that was produced locally: the message carries the
    /// tick, the target and the action as given, and goes from client to
    /// server.
    pub fn capture(&self, tick: Tick, target: Entity, references: Vec<Entity>, action: A) -> (r:
        Outbound<A>)
        ensures
            r.direction == Direction::ClientToServer,
            r.message@ == (InputMessageView { tick, target, references: references@, action }),
    {
        Outbound {
            direction: Direction::ClientToServer,
            message: InputMessage { tick, target, references, action },
        }
    }
}

/// The server side of the input channel.
#[derive(Debug, PartialEq, Eq)]
pub struct ServerInputPlugin<A> {
    /// Whether each received input is forwarded to the other clients.
    pub rebroadcast_inputs: bool,
    pub marker: PhantomData<A>,
}

/// What the server made of one received message.
#[derive(Debug, PartialEq, Eq)]
pub enum Received<A> {
    /// The message held a reference that the translation table did not
    /// know: it was dropped, and nothing is applied or forwarded.
    Dropped { unknown: UnknownEntity },
    /// The message, in local references, is to be applied to its target and
    /// sent on to each of `forward_to`.
    Applied { message: InputMessage<A>, forward_to: Vec<ClientId> },
}

/// A `Received` as a mathematical value.
pub ghost enum ReceivedView<A> {
    Dropped { unknown: UnknownEntity },
    Applied { message: InputMessageView<A>, forward_to: Seq<ClientId> },
}

impl<A> View for Received<A> {
    type V = ReceivedView<A>;

    open spec fn view(&self) -> ReceivedView<A> {
        match self {
            Received::Dropped { unknown } => ReceivedView::Dropped { unknown: *unknown },
            Received::Applied { message, forward_to } => ReceivedView::Applied {
                message: message@,
                forward_to: forward_to@,
            },
        }
    }
}

/// The connected clients but `sender`, in their order.
pub open spec fn others(clients: Seq<ClientId>, sender: ClientId) -> Seq<ClientId>
    decreases clients.len(),
{
    if clients.len() == 0 {
        Seq::empty()
    } else if clients.last() == sender {
        others(clients.drop_last(), sender)
    } else {
        others(clients.drop_last(), sender).push(clients.last())
    }
}

/// What a server makes of one message from `sender`: with an unknown
/// reference it is dropped; else it is applied in local references, and
/// forwarded to the other clients exactly when the server rebroadcasts.
pub open spec fn spec_receive<A>(
    rebroadcast_inputs: bool,
    sender: ClientId,
    message: InputMessageView<A>,
    table: Map<Entity, Entity>,
    clients: Seq<ClientId>,
) -> ReceivedView<A> {
    match first_unknown(message.slots(), table) {
        Some(entity) => ReceivedView::Dropped { unknown: UnknownEntity { entity } },
        None => ReceivedView::Applied {
            message: message.translated(table),
            forward_to: if rebroadcast_inputs {
                others(clients, sender)
            } else {
                Seq::empty()
            },
        },
    }
}

/// The connected clients but `sender`, in their order.
pub fn other_clients(clients: &Vec<ClientId>, sender: ClientId) -> (r: Vec<ClientId>)
    ensures
        r@ == others(clients@, sender),
{
    let mut r: Vec<ClientId> = Vec::new();
    let mut i: usize = 0;
    while i < clients.len()
        invariant
            i <= clients.len(),
            r@ == others(clients@.take(i as int), sender),
        decreases clients.len() - i,
    {
        proof {
            assert(clients@.take(i + 1).drop_last() =~= clients@.take(i as int));
        }
        if clients[i] != sender {
            r.push(clients[i]);
        }
        i += 1;
    }
    proof {
        assert(clients@.take(i as int) =~= clients@);
    }
    r
}

impl<A> ServerInputPlugin<A> {
    /// Handles one message from `sender`. `table` is the translation table of
    /// the sender's connection, `clients` the clients that are connected.
    pub fn receive(
        &self,
        sender: ClientId,
        message: InputMessage<A>,
        table: &HashMap<Entity, Entity>,
        clients: &Vec<ClientId>,
    ) -> (r: Received<A>)
        ensures
            r@ == spec_receive(self.rebroadcast_inputs, sender, message@, table@, clients@),
    {
        match message.map_entities(table) {
            Ok(message) => {
                let forward_to = if self.rebroadcast_inputs {
                    other_clients(clients, sender)
                } else {
                    Vec::new()
                };
                Received::Applied { message, forward_to }
            },
            Err(unknown) => Received::Dropped { unknown },
        }
    }

    /// Handles the messages of one batch from `sender`, each by itself and
    /// in order: what becomes of one message does not depend on the others,
    /// so a dropped message stops nothing.
    pub fn receive_batch(
        &self,
        sender: ClientId,
        messages: Vec<InputMessage<A>>,
        table: &HashMap<Entity, Entity>,
        clients: &Vec<ClientId>,
    ) -> (r: Vec<Received<A>>)
        ensures
            r@.len() == messages@.len(),
            forall|i: int|
                0 <= i < messages@.len() ==> (#[trigger] r@[i])@ == spec_receive(
                    self.rebroadcast_inputs,
                    sender,
                    messages@[i]@,
                    table@,
                    clients@,
                ),
    {
        let mut r: Vec<Received<A>> = Vec::new();
        for message in iter: messages
            invariant
                r@.len() == iter.index(),
                iter.seq() == messages@,
                forall|i: int|
                    0 <= i < r@.len() ==> (#[trigger] r@[i])@ == spec_receive(
                        self.rebroadcast_inputs,
                        sender,
                        messages@[i]@,
                        table@,
                        clients@,
                    ),
        {
            r.push(self.receive(sender, message, table, clients));
        }
        r
    }
}

/// Why the input channel could not be set up.
#[derive(Debug, PartialEq, Eq)]
pub enum BuildError<K> {
    /// The input message type was registered before.
    Duplicate(DuplicateType<K>),
    /// Neither a client nor a server configuration is present. The role
    /// configuration has to be in place before the input channel is built.
    RoleMissing(RoleMissing),
}

/// The sides of the input channel that a process has installed.
#[derive(Debug, PartialEq, Eq)]
pub struct InputSetup<A, K> {
    /// The kind under which the input message type is registered.
    pub kind: K,
    /// The role for which the channel was built.
    pub role: Role,
    /// The client side, where the process plays a client.
    pub client: Option<ClientInputPlugin<A>>,
    /// The server side, where the process plays a server.
    pub server: Option<ServerInputPlugin<A>>,
}

/// Sets up the input channel for the action type `A`.
#[derive(Debug, PartialEq)]
pub struct InputPlugin<A: UserAction> {
    pub config: InputConfig<A>,
}

impl<A: UserAction> Default for InputPlugin<A> {
    fn default() -> (r: Self)
        ensures
            !r.config.rebroadcast_inputs,
    {
        Self { config: Default::default() }
    }
}

/// What is recorded of the input message type: it travels both ways and
/// carries entity references.
pub open spec fn input_message_meta() -> MessageMeta {
    MessageMeta { direction: Direction::Bidirectional, map_entities: true }
}

impl<A: UserAction> InputPlugin<A> {
    /// The sides that a process of the given role installs, each with what
    /// it takes from this plugin's configuration.
    pub open spec fn spec_setup<K>(&self, kind: K, role: Role) -> InputSetup<A, K> {
        InputSetup {
            kind,
            role,
            client: if role.spec_plays(Facet::Client) {
                Some(ClientInputPlugin { config: self.config })
            } else {
                None
            },
            server: if role.spec_plays(Facet::Server) {
                Some(
                    ServerInputPlugin {
                        rebroadcast_inputs: self.config.rebroadcast_inputs,
                        marker: self.config.marker,
                    },
                )
            } else {
                None
            },
        }
    }

    /// Builds the input channel, with `kind` as the kind of the input
    /// message type.
    ///
    /// A kind that the registry holds already is a duplicate; with neither
    /// configuration present the role is missing. Either way the registry is
    /// left as it was and no side is installed. Otherwise the kind is
    /// registered as a message type that travels both ways and carries
    /// entity references, and the sides of the resolved role are installed.
    pub fn build_with_kind<K: TypeKind>(
        &self,
        kind: K,
        registry: &mut MessageRegistry<K>,
        has_client: bool,
        has_server: bool,
    ) -> (r: Result<InputSetup<A, K>, BuildError<K>>)
        requires
            old(registry).wf(),
            old(registry).kinds().len() < MAX_KINDS || (!has_client && !has_server) || (
            obeys_key_model::<K>() && old(registry).kinds().contains(kind)),
        ensures
            final(registry).wf(),
            match r {
                Ok(setup) => {
                    &&& Role::spec_resolve(has_client, has_server) == Some(setup.role)
                    &&& setup == self.spec_setup(kind, setup.role)
                    &&& final(registry).kinds() == old(registry).kinds().push(kind)
                    &&& final(registry).metas() == old(registry).metas().push(
                        input_message_meta(),
                    )
                },
                Err(BuildError::Duplicate(e)) => {
                    &&& e.kind == kind
                    &&& final(registry).kinds() == old(registry).kinds()
                    &&& final(registry).metas() == old(registry).metas()
                },
                Err(BuildError::RoleMissing(_)) => {
                    &&& !has_client && !has_server
                    &&& final(registry).kinds() == old(registry).kinds()
                    &&& final(registry).metas() == old(registry).metas()
                },
            },
            obeys_key_model::<K>() ==> (r matches Err(BuildError::Duplicate(_)) <==> old(
                registry,
            ).kinds().contains(kind)),
            obeys_key_model::<K>() ==> (r matches Err(BuildError::RoleMissing(_)) <==> !old(
                registry,
            ).kinds().contains(kind) && !has_client && !has_server),
    {
        if registry.net_id(&kind).is_some() {
            return Err(BuildError::Duplicate(DuplicateType { kind }));
        }
        let role = match Role::resolve(has_client, has_server) {
            Ok(role) => role,
            Err(e) => {
                return Err(BuildError::RoleMissing(e));
            },
        };
        proof {
            registry.lemma_shape();
        }
        let net_id = registry.len();
        match registry.register_message_kind(kind, Direction::Bidirectional) {
            Ok(_) => {},
            Err(e) => {
                return Err(BuildError::Duplicate(e));
            },
        }
        let _ = registry.set_entity_mapping(net_id as NetId);
        proof {
            assert(registry.metas() =~= old(registry).metas().push(input_message_meta()));
        }
        let client = if role.plays(Facet::Client) {
            Some(ClientInputPlugin::new(self.config.clone()))
        } else {
            None
        };
        let server = if role.plays(Facet::Server) {
            Some(
                ServerInputPlugin {
                    rebroadcast_inputs: self.config.rebroadcast_inputs,
                    marker: self.config.marker,
                },
            )
        } else {
            None
        };
        Ok(InputSetup { kind, role, client, server })
    }

    /// Builds the input channel for a process in which a client
    /// configuration, a server configuration or both are present. The kind
    /// of the input message type is made from the `TypeId` of
    /// `InputMessage<A>`.
    ///
    /// An error leaves the registry as it was: a duplicate carries the kind,
    /// which the registry held; a missing role means that neither
    /// configuration is present. On success the kind was new and is
    /// registered last, and the sides of the resolved role are installed.
    pub fn build<K: TypeKind>(
        &self,
        registry: &mut MessageRegistry<K>,
        has_client: bool,
        has_server: bool,
    ) -> (r: Result<InputSetup<A, K>, BuildError<K>>)
        requires
            old(registry).wf(),
            old(registry).kinds().len() < MAX_KINDS || (!has_client && !has_server),
        ensures
            final(registry).wf(),
            match r {
                Ok(setup) => {
                    &&& Role::spec_resolve(has_client, has_server) == Some(setup.role)
                    &&& setup == self.spec_setup(setup.kind, setup.role)
                    &&& final(registry).kinds() == old(registry).kinds().push(setup.kind)
                    &&& final(registry).metas() == old(registry).metas().push(
                        input_message_meta(),
                    )
                },
                Err(BuildError::Duplicate(_)) => {
                    &&& final(registry).kinds() == old(registry).kinds()
                    &&& final(registry).metas() == old(registry).metas()
                },
                Err(BuildError::RoleMissing(_)) => {
                    &&& !has_client && !has_server
                    &&& final(registry).kinds() == old(registry).kinds()
                    &&& final(registry).metas() == old(registry).metas()
                },
            },
            obeys_key_model::<K>() ==> match r {
                Ok(setup) => !old(registry).kinds().contains(setup.kind),
                Err(BuildError::Duplicate(e)) => old(registry).kinds().contains(e.kind),
                Err(BuildError::RoleMissing(_)) => true,
            },
            !has_client && !has_server ==> r is Err,
    {
        let kind = K::from(type_id_of::<InputMessage<A>>());
        self.build_with_kind(kind, registry, has_client, has_server)
    }
}

impl<A, K> InputSetup<A, K> {
    /// Hands an action that was produced locally to the client side. A
    /// process without a client side sends nothing.
    pub fn on_local_action(
        &self,
        tick: Tick,
        target: Entity,
        references: Vec<Entity>,
        action: A,
    ) -> (r: Option<Outbound<A>>)
        ensures
            r.is_some() == self.client.is_some(),
            r matches Some(out) ==> out.direction == Direction::ClientToServer && out.message@ == (
            InputMessageView { tick, target, references: references@, action }),
    {
        match &self.client {
            Some(client) => Some(client.capture(tick, target, references, action)),
            None => None,
        }
    }

    /// Hands a message that came in from `sender` to the server side. A
    /// process without a server side applies and forwards nothing.
    pub fn on_incoming(
        &self,
        sender: ClientId,
        message: InputMessage<A>,
        table: &HashMap<Entity, Entity>,
        clients: &Vec<ClientId>,
    ) -> (r: Option<Received<A>>)
        ensures
            r.is_some() == self.server.is_some(),
            r matches Some(received) ==> received@ == spec_receive(
                self.server.unwrap().rebroadcast_inputs,
                sender,
                message@,
                table@,
                clients@,
            ),
    {
        match &self.server {
            Some(server) => Some(server.receive(sender, message, table, clients)),
            None => None,
        }
    }
}

/// The sides that are installed are exactly those whose configuration is
/// present: with a client configuration alone there is a client side and no
/// server side, and the other way round. Each side takes its settings from
/// the plugin's configuration.
pub proof fn lemma_sides_follow_configuration<A: UserAction, K>(
    plugin: InputPlugin<A>,
    kind: K,
    has_client: bool,
    has_server: bool,
)
    requires
        has_client || has_server,
    ensures
        ({
            let role = Role::spec_resolve(has_client, has_server).unwrap();
            let setup = plugin.spec_setup(kind, role);
            &&& setup.client.is_some() == has_client
            &&& setup.server.is_some() == has_server
            &&& setup.client matches Some(client) ==> client.config == plugin.config
            &&& setup.server matches Some(server) ==> server.rebroadcast_inputs
                == plugin.config.rebroadcast_inputs
        }),
{
}

/// The clients that a message is forwarded to are the connected clients but
/// the sender, each as often as it is connected.
pub proof fn lemma_others_members(clients: Seq<ClientId>, sender: ClientId)
    ensures
        !others(clients, sender).contains(sender),
        forall|c: ClientId|
            c != sender ==> (#[trigger] others(clients, sender).contains(c) <==> clients.contains(
                c,
            )),
        others(clients, sender).len() <= clients.len(),
    decreases clients.len(),
{
    if clients.len() > 0 {
        let front = clients.drop_last();
        let last = clients.last();
        lemma_others_members(front, sender);
        assert(clients =~= front.push(last));
        let rest = others(front, sender);
        assert forall|c: ClientId| c != sender implies (#[trigger] others(
            clients,
            sender,
        ).contains(c) <==> clients.contains(c)) by {
            if clients.contains(c) {
                let j = choose|j: int| 0 <= j < clients.len() && clients[j] == c;
                if j < front.len() {
                    assert(front[j] == c);
                    assert(rest.contains(c));
                    let k = choose|k: int| 0 <= k < rest.len() && rest[k] == c;
                    if last != sender {
                        assert(rest.push(last)[k] == c);
                    }
                } else {
                    assert(last == c);
                    assert(rest.push(last)[rest.len() as int] == c);
                }
            }
            if others(clients, sender).contains(c) {
                let k = choose|k: int|
                    0 <= k < others(clients, sender).len() && others(clients, sender)[k] == c;
                if last != sender && k == rest.len() {
                    assert(clients[clients.len() - 1] == c);
                } else {
                    assert(rest[k] == c);
                    assert(rest.contains(c));
                    let j = choose|j: int| 0 <= j < front.len() && front[j] == c;
                    assert(clients[j] == c);
                }
            }
        }
        if others(clients, sender).contains(sender) {
            let k = choose|k: int|
                0 <= k < others(clients, sender).len() && others(clients, sender)[k] == sender;
            if last != sender && k == rest.len() {
            } else {
                assert(rest[k] == sender);
            }
        }
    }
}

/// A message whose references are all known is applied. A server that
/// rebroadcasts then forwards it to every other connected client and to
/// nobody else, never back to the sender; one that does not rebroadcast
/// forwards it to nobody.
pub proof fn lemma_rebroadcast_reaches_the_others<A>(
    rebroadcast_inputs: bool,
    sender: ClientId,
    message: InputMessageView<A>,
    table: Map<Entity, Entity>,
    clients: Seq<ClientId>,
)
    requires
        forall|i: int|
            0 <= i < message.slots().len() ==> table.contains_key(#[trigger] message.slots()[i]),
    ensures
        spec_receive(rebroadcast_inputs, sender, message, table, clients) matches ReceivedView::Applied {
            message: applied,
            forward_to,
        } && applied == message.translated(table) && (rebroadcast_inputs ==> forall|c: ClientId|
            #[trigger] forward_to.contains(c) <==> clients.contains(c) && c != sender) && (
        !rebroadcast_inputs ==> forward_to.len() == 0),
{
    lemma_first_unknown_none(message.slots(), table);
    lemma_others_members(clients, sender);
}

/// A message with a reference that the translation table does not hold is
/// dropped, whatever else the message holds and whatever the server's
/// settings are; the reference that is reported is one of the message's own.
pub proof fn lemma_unknown_reference_drops<A>(
    rebroadcast_inputs: bool,
    sender: ClientId,
    message: InputMessageView<A>,
    table: Map<Entity, Entity>,
    clients: Seq<ClientId>,
    i: int,
)
    requires
        0 <= i < message.slots().len(),
        !table.contains_key(message.slots()[i]),
    ensures
        spec_receive(rebroadcast_inputs, sender, message, table, clients) matches ReceivedView::Dropped {
            unknown,
        } && message.slots().contains(unknown.entity) && !table.contains_key(unknown.entity),
{
    lemma_first_unknown_none(message.slots(), table);
}

} // verus!
