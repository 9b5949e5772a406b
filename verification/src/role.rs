//! Which side of the connection a process plays, and which way a message
//! type may travel.

use vstd::prelude::*;

verus! {

/// One side of the connection.
#[derive(Clone, Copy, Debug, PartialEq, Eq, Structural)]
pub enum Facet {
    Client,
    Server,
}

/// The sides that a process plays. It is fixed once, at start-up.
#[derive(Clone, Copy, Debug, PartialEq, Eq, Structural)]
pub enum Role {
    ClientOnly,
    ServerOnly,
    /// A client and a server in one process, such as a listen-server.
    Both,
}

/// Neither a client nor a server configuration was present, so the process
/// has no role.
#[derive(Clone, Copy, Debug, PartialEq, Eq, Structural)]
pub struct RoleMissing;

/// The way in which a message type may travel.
#[derive(Clone, Copy, Debug, PartialEq, Eq, Structural)]
pub enum Direction {
    ClientToServer,
    ServerToClient,
    Bidirectional,
}

impl Role {
    /// The role that follows from the configurations that are present.
    pub open spec fn spec_resolve(has_client: bool, has_server: bool) -> Option<Role> {
        if has_client && has_server {
            Some(Role::Both)
        } else if has_client {
            Some(Role::ClientOnly)
        } else if has_server {
            Some(Role::ServerOnly)
        } else {
            None
        }
    }

    /// Whether a process of this role plays the side `facet`.
    pub open spec fn spec_plays(self, facet: Facet) -> bool {
        match facet {
            Facet::Client => self != Role::ServerOnly,
            Facet::Server => self != Role::ClientOnly,
        }
    }

    /// Resolves the role from the presence of a client configuration and of a
    /// server configuration. With neither there is no role.
    pub fn resolve(has_client: bool, has_server: bool) -> (r: Result<Role, RoleMissing>)
        ensures
            match r {
                Ok(role) => Role::spec_resolve(has_client, has_server) == Some(role),
                Err(_) => Role::spec_resolve(has_client, has_server).is_none(),
            },
    {
        if has_client && has_server {
            Ok(Role::Both)
        } else if has_client {
            Ok(Role::ClientOnly)
        } else if has_server {
            Ok(Role::ServerOnly)
        } else {
            Err(RoleMissing)
        }
    }

    /// Whether a process of this role plays the side `facet`.
    pub fn plays(&self, facet: Facet) -> (r: bool)
        ensures
            r == self.spec_plays(facet),
    {
        match facet {
            Facet::Client => !matches!(self, Role::ServerOnly),
            Facet::Server => !matches!(self, Role::ClientOnly),
        }
    }
}

impl Direction {
    /// Whether the side `facet` may send a message of this direction.
    pub open spec fn spec_sent_by(self, facet: Facet) -> bool {
        match self {
            Direction::ClientToServer => facet == Facet::Client,
            Direction::ServerToClient => facet == Facet::Server,
            Direction::Bidirectional => true,
        }
    }

    /// Whether a message of this direction is handed to a handler that runs
    /// on the side `facet`: it is where the other side may send it.
    pub open spec fn spec_received_by(self, facet: Facet) -> bool {
        match self {
            Direction::ClientToServer => facet == Facet::Server,
            Direction::ServerToClient => facet == Facet::Client,
            Direction::Bidirectional => true,
        }
    }

    /// Whether the side `facet` may send a message of this direction.
    pub fn sent_by(&self, facet: Facet) -> (r: bool)
        ensures
            r == self.spec_sent_by(facet),
    {
        match self {
            Direction::ClientToServer => matches!(facet, Facet::Client),
            Direction::ServerToClient => matches!(facet, Facet::Server),
            Direction::Bidirectional => true,
        }
    }

    /// Whether a message of this direction is handed to a handler that runs
    /// on the side `facet`.
    pub fn received_by(&self, facet: Facet) -> (r: bool)
        ensures
            r == self.spec_received_by(facet),
    {
        match self {
            Direction::ClientToServer => matches!(facet, Facet::Server),
            Direction::ServerToClient => matches!(facet, Facet::Client),
            Direction::Bidirectional => true,
        }
    }

    /// Whether a process of the given role sends messages of this direction:
    /// it plays a side that may send them.
    pub open spec fn spec_sent_in(self, role: Role) -> bool {
        (role.spec_plays(Facet::Client) && self.spec_sent_by(Facet::Client)) || (role.spec_plays(
            Facet::Server,
        ) && self.spec_sent_by(Facet::Server))
    }

    /// Whether a process of the given role dispatches received messages of
    /// this direction to a handler: it plays a side that receives them.
    pub open spec fn spec_received_in(self, role: Role) -> bool {
        (role.spec_plays(Facet::Client) && self.spec_received_by(Facet::Client)) || (
        role.spec_plays(Facet::Server) && self.spec_received_by(Facet::Server))
    }

    /// Whether a process of the given role sends messages of this direction.
    pub fn sent_in(&self, role: Role) -> (r: bool)
        ensures
            r == self.spec_sent_in(role),
    {
        (role.plays(Facet::Client) && self.sent_by(Facet::Client)) || (role.plays(Facet::Server)
            && self.sent_by(Facet::Server))
    }

    /// Whether a process of the given role dispatches received messages of
    /// this direction to a handler.
    pub fn received_in(&self, role: Role) -> (r: bool)
        ensures
            r == self.spec_received_in(role),
    {
        (role.plays(Facet::Client) && self.received_by(Facet::Client)) || (role.plays(
            Facet::Server,
        ) && self.received_by(Facet::Server))
    }
}

/// A process plays at least one side, and exactly the sides whose
/// configuration was present when its role was resolved.
pub proof fn lemma_role_matches_configuration(has_client: bool, has_server: bool)
    ensures
        Role::spec_resolve(has_client, has_server).is_none() <==> !has_client && !has_server,
        Role::spec_resolve(has_client, has_server) matches Some(role) ==> role.spec_plays(
            Facet::Client,
        ) == has_client && role.spec_plays(Facet::Server) == has_server,
{
}

/// A message that travels from client to server only is dispatched in every
/// process but one that is only a client, and sent from every process but
/// one that is only a server; for one that travels from server to client
/// only it is the other way round. A message that travels both ways is sent
/// and dispatched in every process.
pub proof fn lemma_direction_gates_dispatch(direction: Direction, role: Role)
    ensures
        direction == Direction::ClientToServer ==> {
            &&& direction.spec_received_in(role) <==> role != Role::ClientOnly
            &&& direction.spec_sent_in(role) <==> role != Role::ServerOnly
        },
        direction == Direction::ServerToClient ==> {
            &&& direction.spec_received_in(role) <==> role != Role::ServerOnly
            &&& direction.spec_sent_in(role) <==> role != Role::ClientOnly
        },
        direction == Direction::Bidirectional ==> {
            &&& direction.spec_received_in(role)
            &&& direction.spec_sent_in(role)
        },
{
}

} // verus!
