//! Registration of message types: each gets a wire identifier, a direction
//! of travel and a mark that says whether it carries entity references.

use crate::registry::{
    id_of, kind_of, type_id_of, DuplicateType, NetId, TypeKind, TypeMapper, MAX_KINDS,
};
use crate::role::{Direction, Role};
use vstd::prelude::*;
use vstd::std_specs::hash::obeys_key_model;

verus! {

/// What is recorded of a registered message type besides its identifier.
#[derive(Clone, Copy, Debug, PartialEq, Eq, Structural)]
pub struct MessageMeta {
    /// The way in which messages of the type may travel.
    pub direction: Direction,
    /// Whether messages of the type carry entity references, which have to
    /// be rewritten when a message crosses to another process.
    pub map_entities: bool,
}

/// The message types of a protocol.
///
/// The model is a pair of sequences of one length: the registered kinds in
/// registration order, and beside each kind what is recorded of it.
pub struct MessageRegistry<K: TypeKind> {
    kinds: TypeMapper<K>,
    metas: Vec<MessageMeta>,
}

impl<K: TypeKind> MessageRegistry<K> {
    /// The registered kinds in registration order.
    pub closed spec fn kinds(&self) -> Seq<K> {
        self.kinds@
    }

    /// What is recorded of each kind, at the kind's position.
    pub closed spec fn metas(&self) -> Seq<MessageMeta> {
        self.metas@
    }

    /// The kinds form a well-formed registry and each has its record.
    pub closed spec fn wf(&self) -> bool {
        &&& self.kinds.wf()
        &&& self.metas@.len() == self.kinds@.len()
    }

    /// What is recorded of the message type with identifier `id`.
    pub open spec fn meta_of(&self, id: NetId) -> Option<MessageMeta> {
        if (id as int) < self.metas().len() {
            Some(self.metas()[id as int])
        } else {
            None
        }
    }

    /// Whether a process of the given role hands a received message with
    /// identifier `id` to a handler.
    pub open spec fn spec_dispatches(&self, id: NetId, role: Role) -> bool {
        self.meta_of(id) matches Some(meta) && meta.direction.spec_received_in(role)
    }

    /// In a well-formed registry every kind has one record and there are at
    /// most `MAX_KINDS` kinds; where the keys hash and compare lawfully, no
    /// kind stands twice.
    pub proof fn lemma_shape(&self)
        requires
            self.wf(),
        ensures
            self.metas().len() == self.kinds().len(),
            self.kinds().len() <= MAX_KINDS,
            obeys_key_model::<K>() ==> self.kinds().no_duplicates(),
    {
        self.kinds.lemma_distinct();
    }

    /// A registry without message types.
    pub fn new() -> (r: Self)
        ensures
            r.wf(),
            r.kinds() == Seq::<K>::empty(),
            r.metas() == Seq::<MessageMeta>::empty(),
    {
        Self { kinds: TypeMapper::new(), metas: Vec::new() }
    }

    /// Registers `kind` as a message type that travels in `direction` and
    /// carries no entity references, unless the registry holds the kind
    /// already: then nothing changes and the kind comes back as the error.
    pub fn register_message_kind(&mut self, kind: K, direction: Direction) -> (r: Result<
        K,
        DuplicateType<K>,
    >)
        requires
            old(self).wf(),
            old(self).kinds().len() < MAX_KINDS || (obeys_key_model::<K>() && old(
                self,
            ).kinds().contains(kind)),
        ensures
            final(self).wf(),
            match r {
                Ok(k) => {
                    &&& k == kind
                    &&& final(self).kinds() == old(self).kinds().push(kind)
                    &&& final(self).metas() == old(self).metas().push(
                        (MessageMeta { direction, map_entities: false }),
                    )
                },
                Err(e) => {
                    &&& e.kind == kind
                    &&& final(self).kinds() == old(self).kinds()
                    &&& final(self).metas() == old(self).metas()
                },
            },
            obeys_key_model::<K>() ==> (r is Err <==> old(self).kinds().contains(kind)),
    {
        match self.kinds.add_kind(kind) {
            Ok(kind) => {
                self.metas.push(MessageMeta { direction, map_entities: false });
                Ok(kind)
            },
            Err(e) => Err(e),
        }
    }

    /// Registers the type `M` as a message type that travels in `direction`,
    /// under the kind made from its `TypeId`.
    ///
    /// `Ok` carries that kind, which now stands last, with no entity
    /// mapping; `Err` carries it too, and the registry is unchanged. The
    /// kind is refused exactly when the registry held it.
    pub fn register_message<M: 'static>(&mut self, direction: Direction) -> (r: Result<
        K,
        DuplicateType<K>,
    >)
        requires
            old(self).wf(),
            old(self).kinds().len() < MAX_KINDS,
        ensures
            final(self).wf(),
            match r {
                Ok(kind) => {
                    &&& final(self).kinds() == old(self).kinds().push(kind)
                    &&& final(self).metas() == old(self).metas().push(
                        (MessageMeta { direction, map_entities: false }),
                    )
                },
                Err(e) => {
                    &&& final(self).kinds() == old(self).kinds()
                    &&& final(self).metas() == old(self).metas()
                },
            },
            obeys_key_model::<K>() ==> match r {
                Ok(kind) => !old(self).kinds().contains(kind),
                Err(e) => old(self).kinds().contains(e.kind),
            },
    {
        let kind = K::from(type_id_of::<M>());
        self.register_message_kind(kind, direction)
    }

    /// The records with the one at `id` marked as carrying entity references.
    pub open spec fn marked(metas: Seq<MessageMeta>, id: NetId) -> Seq<MessageMeta> {
        if (id as int) < metas.len() {
            metas.update(
                id as int,
                MessageMeta { direction: metas[id as int].direction, map_entities: true },
            )
        } else {
            metas
        }
    }

    /// Marks the message type with identifier `net_id` as carrying entity
    /// references, and says whether there is such a type. An identifier that
    /// is not in use changes nothing.
    pub fn set_entity_mapping(&mut self, net_id: NetId) -> (r: bool)
        requires
            old(self).wf(),
        ensures
            final(self).wf(),
            r == ((net_id as int) < old(self).kinds().len()),
            final(self).kinds() == old(self).kinds(),
            final(self).metas() == Self::marked(old(self).metas(), net_id),
    {
        if (net_id as usize) < self.metas.len() {
            let direction = self.metas[net_id as usize].direction;
            self.metas.set(net_id as usize, MessageMeta { direction, map_entities: true });
            true
        } else {
            false
        }
    }

    /// Marks the message type `kind` as carrying entity references, and
    /// returns its identifier. An unregistered kind has none and changes
    /// nothing.
    pub fn with_entity_mapping(&mut self, kind: &K) -> (r: Option<NetId>)
        requires
            old(self).wf(),
        ensures
            final(self).wf(),
            final(self).kinds() == old(self).kinds(),
            match r {
                Some(id) => (id as int) < old(self).kinds().len() && final(self).metas()
                    == Self::marked(old(self).metas(), id),
                None => final(self).metas() == old(self).metas(),
            },
            obeys_key_model::<K>() ==> r == id_of(old(self).kinds(), *kind),
    {
        proof {
            self.kinds.lemma_distinct();
        }
        match self.kinds.net_id(kind) {
            Some(id) => {
                let id: NetId = *id;
                if self.set_entity_mapping(id) {
                    Some(id)
                } else {
                    None
                }
            },
            None => None,
        }
    }

    /// The kind registered under `net_id`.
    pub fn kind(&self, net_id: NetId) -> (r: Option<&K>)
        requires
            self.wf(),
        ensures
            match r {
                Some(k) => kind_of(self.kinds(), net_id) == Some(*k),
                None => kind_of(self.kinds(), net_id).is_none(),
            },
    {
        self.kinds.kind(net_id)
    }

    /// The identifier under which `kind` was registered.
    pub fn net_id(&self, kind: &K) -> (r: Option<&NetId>)
        requires
            self.wf(),
        ensures
            obeys_key_model::<K>() ==> match r {
                Some(id) => id_of(self.kinds(), *kind) == Some(*id),
                None => id_of(self.kinds(), *kind).is_none(),
            },
    {
        self.kinds.net_id(kind)
    }

    /// What is recorded of the message type with identifier `net_id`.
    pub fn meta(&self, net_id: NetId) -> (r: Option<MessageMeta>)
        requires
            self.wf(),
        ensures
            r == self.meta_of(net_id),
    {
        if (net_id as usize) < self.metas.len() {
            Some(self.metas[net_id as usize])
        } else {
            None
        }
    }

    /// Whether a process of the given role hands a received message with
    /// identifier `net_id` to a handler: the identifier is registered, and
    /// the role plays a side that receives the message's direction.
    pub fn dispatches(&self, net_id: NetId, role: Role) -> (r: bool)
        requires
            self.wf(),
        ensures
            r == self.spec_dispatches(net_id, role),
    {
        match self.meta(net_id) {
            Some(meta) => meta.direction.received_in(role),
            None => false,
        }
    }

    /// The number of registered message types.
    pub fn len(&self) -> (n: usize)
        requires
            self.wf(),
        ensures
            n == self.kinds().len(),
    {
        self.metas.len()
    }
}

} // verus!
