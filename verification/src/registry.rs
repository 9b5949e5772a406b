//! Dense, order-assigned wire identifiers for application-defined types.
//!
//! A registry is modelled by the sequence of the kinds it holds, in the order
//! in which they were registered: the kind at position `i` has identifier `i`.

use std::any::TypeId;
use std::collections::HashMap;
use std::hash::Hash;
use vstd::prelude::*;
use vstd::std_specs::hash::*;

verus! {

broadcast use vstd::std_specs::hash::group_hash_axioms;

/// Identifier that stands for a registered type on the wire.
pub type NetId = u16;

/// Largest number of kinds that one registry can hold: the counter that hands
/// out the next identifier must itself stay a `NetId`.
pub const MAX_KINDS: usize = 65535;

/// The opaque type `std::any::TypeId`: a value that identifies a Rust type.
/// Nothing is known of what it holds.
#[verifier::external_type_specification]
#[verifier::external_body]
pub struct ExTypeId(TypeId);

/// Identity of a type, as a registry key.
///
/// An implementor is a copyable value made from a `TypeId`, whose `Eq` and
/// `Hash` agree with one another and depend on the value alone. That promise
/// is `obeys_key_model::<K>()`. Whatever a registry finds by looking a kind
/// up is stated under it; what it records by identifier holds regardless.
pub trait TypeKind: From<TypeId> + Copy + PartialEq + Eq + Hash {

}

/// Calls `std::any::TypeId::of::<T>()`. The identifier depends on `T` alone,
/// which no contract over values can express, so nothing is claimed of it.
#[verifier::external_body]
pub(crate) fn type_id_of<T: 'static>() -> TypeId {
    TypeId::of::<T>()
}

/// A kind was registered a second time.
#[derive(Debug, PartialEq, Eq)]
pub struct DuplicateType<K> {
    /// The kind that the registry already held.
    pub kind: K,
}

/// The kind with identifier `id` among `kinds`, if there is one.
pub open spec fn kind_of<K>(kinds: Seq<K>, id: NetId) -> Option<K> {
    if (id as int) < kinds.len() {
        Some(kinds[id as int])
    } else {
        None
    }
}

/// The identifier of `kind` among `kinds`: the position that holds it. In a
/// registry no kind stands twice, so there is at most one.
pub open spec fn id_of<K>(kinds: Seq<K>, kind: K) -> Option<NetId> {
    if kinds.contains(kind) {
        Some(kinds.index_of(kind) as NetId)
    } else {
        None
    }
}

/// What one registration makes of `kinds`: a kind that is already there is
/// refused and changes nothing, a new one goes to the end.
pub open spec fn registered<K>(kinds: Seq<K>, kind: K) -> Seq<K> {
    if kinds.contains(kind) {
        kinds
    } else {
        kinds.push(kind)
    }
}

/// What registering each of `batch` in turn makes of `kinds`.
pub open spec fn registered_all<K>(kinds: Seq<K>, batch: Seq<K>) -> Seq<K>
    decreases batch.len(),
{
    if batch.len() == 0 {
        kinds
    } else {
        registered(registered_all(kinds, batch.drop_last()), batch.last())
    }
}

/// Maps each registered kind to its identifier and back.
pub struct TypeMapper<K: TypeKind> {
    next_net_id: NetId,
    kind_map: HashMap<K, NetId>,
    id_map: HashMap<NetId, K>,
}

impl<K: TypeKind> View for TypeMapper<K> {
    type V = Seq<K>;

    /// The registered kinds in registration order.
    closed spec fn view(&self) -> Seq<K> {
        Seq::new(self.next_net_id as nat, |i: int| self.id_map@[i as NetId])
    }
}

impl<K: TypeKind> TypeMapper<K> {
    /// The identifiers in use are exactly those below the counter, and,
    /// where the keys hash and compare lawfully, the two maps are inverses
    /// of one another.
    pub closed spec fn wf(&self) -> bool {
        &&& forall|i: NetId| self.id_map@.contains_key(i) <==> i < self.next_net_id
        &&& obeys_key_model::<K>() ==> {
            &&& forall|i: NetId|
                i < self.next_net_id ==> #[trigger] self.kind_map@.contains_key(self.id_map@[i])
                    && self.kind_map@[self.id_map@[i]] == i
            &&& forall|k: K| #[trigger]
                self.kind_map@.contains_key(k) ==> self.kind_map@[k] < self.next_net_id
                    && self.id_map@[self.kind_map@[k]] == k
        }
    }

    /// A registry holds at most `MAX_KINDS` kinds, and a well-formed one
    /// whose keys hash and compare lawfully holds none twice.
    pub proof fn lemma_distinct(&self)
        requires
            self.wf(),
        ensures
            self@.len() <= MAX_KINDS,
            obeys_key_model::<K>() ==> self@.no_duplicates(),
    {
        if obeys_key_model::<K>() {
            assert forall|i: int, j: int|
                0 <= i < self@.len() && 0 <= j < self@.len() && i != j implies self@[i]
                != self@[j] by {
                assert(self.kind_map@.contains_key(self.id_map@[i as NetId]));
                assert(self.kind_map@.contains_key(self.id_map@[j as NetId]));
            }
        }
    }

    proof fn lemma_contains(&self, kind: K)
        requires
            self.wf(),
            obeys_key_model::<K>(),
        ensures
            self@.contains(kind) <==> self.kind_map@.contains_key(kind),
            self.kind_map@.contains_key(kind) ==> (self.kind_map@[kind] as int) < self@.len()
                && self@[self.kind_map@[kind] as int] == kind,
    {
        if self@.contains(kind) {
            let i = choose|i: int| 0 <= i < self@.len() && self@[i] == kind;
            assert(self.kind_map@.contains_key(self.id_map@[i as NetId]));
        }
        if self.kind_map@.contains_key(kind) {
            let i = self.kind_map@[kind];
            assert(self@[i as int] == kind);
        }
    }

    /// An empty registry.
    pub fn new() -> (r: Self)
        ensures
            r.wf(),
            r@ == Seq::<K>::empty(),
    {
        let r = Self { next_net_id: 0, kind_map: HashMap::new(), id_map: HashMap::new() };
        proof {
            assert(r@ =~= Seq::<K>::empty());
        }
        r
    }

    /// Registers `kind` under the next identifier, unless the registry holds
    /// it already: then nothing changes and the kind comes back as the error.
    ///
    /// A registry that is full takes no new kind.
    pub fn add_kind(&mut self, kind: K) -> (r: Result<K, DuplicateType<K>>)
        requires
            old(self).wf(),
            old(self)@.len() < MAX_KINDS || (obeys_key_model::<K>() && old(self)@.contains(kind)),
        ensures
            final(self).wf(),
            match r {
                Ok(k) => k == kind && final(self)@ == old(self)@.push(kind),
                Err(e) => e.kind == kind && final(self)@ == old(self)@,
            },
            obeys_key_model::<K>() ==> (r is Err <==> old(self)@.contains(kind)),
            obeys_key_model::<K>() ==> final(self)@ == registered(old(self)@, kind),
    {
        proof {
            if obeys_key_model::<K>() {
                self.lemma_contains(kind);
            }
        }
        if self.kind_map.contains_key(&kind) {
            return Err(DuplicateType { kind });
        }
        let net_id: NetId = self.next_net_id;
        self.kind_map.insert(kind, net_id);
        self.id_map.insert(net_id, kind);
        self.next_net_id = net_id + 1;
        proof {
            if obeys_key_model::<K>() {
                assert forall|i: NetId| i < self.next_net_id implies #[trigger]
                    self.kind_map@.contains_key(self.id_map@[i]) && self.kind_map@[self.id_map@[i]]
                    == i by {
                    if i < net_id {
                        assert(old(self).kind_map@.contains_key(old(self).id_map@[i]));
                    }
                }
            }
            assert(self@ =~= old(self)@.push(kind));
        }
        Ok(kind)
    }

    /// Registers the type `T`, under the kind made from its `TypeId`.
    ///
    /// `Ok` carries that kind, which now stands last; `Err` carries it too,
    /// and the registry is unchanged. The kind is refused exactly when the
    /// registry held it.
    pub fn add<T: 'static>(&mut self) -> (r: Result<K, DuplicateType<K>>)
        requires
            old(self).wf(),
            old(self)@.len() < MAX_KINDS,
        ensures
            final(self).wf(),
            match r {
                Ok(kind) => final(self)@ == old(self)@.push(kind),
                Err(e) => final(self)@ == old(self)@,
            },
            obeys_key_model::<K>() ==> match r {
                Ok(kind) => !old(self)@.contains(kind),
                Err(e) => old(self)@.contains(e.kind),
            },
    {
        let kind = K::from(type_id_of::<T>());
        self.add_kind(kind)
    }

    /// The kind registered under `net_id`.
    pub fn kind(&self, net_id: NetId) -> (r: Option<&K>)
        requires
            self.wf(),
        ensures
            match r {
                Some(k) => kind_of(self@, net_id) == Some(*k),
                None => kind_of(self@, net_id).is_none(),
            },
    {
        self.id_map.get(&net_id)
    }

    /// The identifier under which `kind` was registered.
    pub fn net_id(&self, kind: &K) -> (r: Option<&NetId>)
        requires
            self.wf(),
        ensures
            obeys_key_model::<K>() ==> match r {
                Some(id) => id_of(self@, *kind) == Some(*id),
                None => id_of(self@, *kind).is_none(),
            },
    {
        proof {
            if obeys_key_model::<K>() {
                self.lemma_contains(*kind);
                self.lemma_distinct();
            }
        }
        self.kind_map.get(kind)
    }

    /// The number of registered kinds.
    pub fn len(&self) -> (n: usize)
        requires
            self.wf(),
        ensures
            n == self@.len(),
    {
        self.next_net_id as usize
    }
}

impl<K: TypeKind> Clone for TypeMapper<K> {
    fn clone(&self) -> (r: Self)
        ensures
            r@ == self@,
            self.wf() ==> r.wf(),
    {
        Self {
            next_net_id: self.next_net_id,
            kind_map: self.kind_map.clone(),
            id_map: self.id_map.clone(),
        }
    }
}

impl<K: TypeKind> Default for TypeMapper<K> {
    fn default() -> (r: Self)
        ensures
            r.wf(),
            r@ == Seq::<K>::empty(),
    {
        Self::new()
    }
}

/// In a sequence without repetition of at most 65536 kinds, the kind at a
/// position has that position as its identifier, and the identifier leads
/// back to the kind.
pub proof fn lemma_position_is_id<K>(kinds: Seq<K>, i: int)
    requires
        kinds.no_duplicates(),
        kinds.len() <= NetId::MAX + 1,
        0 <= i < kinds.len(),
    ensures
        id_of(kinds, kinds[i]) == Some(i as NetId),
        kind_of(kinds, i as NetId) == Some(kinds[i]),
{
    assert(kinds.contains(kinds[i]));
}

/// Registering kinds that are all different, one after another and starting
/// from nothing, yields exactly those kinds in that order: the `i`-th one
/// registered gets the identifier `i`, and the identifiers in use are
/// `0, 1, ..., N - 1`.
pub proof fn lemma_ids_follow_registration_order<K>(batch: Seq<K>)
    requires
        batch.no_duplicates(),
        batch.len() <= MAX_KINDS,
    ensures
        registered_all(Seq::<K>::empty(), batch) == batch,
        forall|i: int|
            0 <= i < batch.len() ==> #[trigger] id_of(batch, batch[i]) == Some(i as NetId),
        forall|id: NetId|
            (#[trigger] kind_of(batch, id)).is_some() <==> (id as int) < batch.len(),
    decreases batch.len(),
{
    if batch.len() > 0 {
        let front = batch.drop_last();
        lemma_ids_follow_registration_order(front);
        assert(!front.contains(batch.last()));
        assert(front.push(batch.last()) =~= batch);
    } else {
        assert(batch =~= Seq::<K>::empty());
    }
    assert forall|i: int| 0 <= i < batch.len() implies #[trigger] id_of(batch, batch[i]) == Some(
        i as NetId,
    ) by {
        lemma_position_is_id(batch, i);
    }
}

/// Registration keeps a sequence free of repetition, whatever is registered.
pub proof fn lemma_registered_distinct<K>(kinds: Seq<K>, kind: K)
    requires
        kinds.no_duplicates(),
    ensures
        registered(kinds, kind).no_duplicates(),
        registered(kinds, kind).contains(kind),
{
    if !kinds.contains(kind) {
        assert(kinds.push(kind)[kinds.len() as int] == kind);
    }
}

/// A second registration of the same kind changes nothing: the kinds, their
/// identifiers and their number stay as the first registration left them.
pub proof fn lemma_second_registration_changes_nothing<K>(kinds: Seq<K>, kind: K)
    ensures
        registered(registered(kinds, kind), kind) == registered(kinds, kind),
        kinds.contains(kind) ==> registered(kinds, kind) == kinds,
{
    if !kinds.contains(kind) {
        assert(kinds.push(kind)[kinds.len() as int] == kind);
    }
}

/// An identifier that was never handed out, and a kind that was never
/// registered, have no counterpart.
pub proof fn lemma_unknown_has_no_counterpart<K>(kinds: Seq<K>, id: NetId, kind: K)
    ensures
        (id as int) >= kinds.len() ==> kind_of(kinds, id).is_none(),
        !kinds.contains(kind) ==> id_of(kinds, kind).is_none(),
{
}

impl<K: TypeKind> TypeMapper<K> {
    /// The two lookups are inverses of one another: the kind under an
    /// identifier has that identifier, and the identifier of a kind leads
    /// back to that kind.
    pub proof fn lemma_lookups_are_inverse(&self)
        requires
            self.wf(),
            obeys_key_model::<K>(),
        ensures
            forall|id: NetId|
                (id as int) < self@.len() ==> id_of(self@, (#[trigger] kind_of(self@, id)).unwrap())
                    == Some(id),
            forall|kind: K|
                self@.contains(kind) ==> kind_of(self@, (#[trigger] id_of(self@, kind)).unwrap())
                    == Some(kind),
    {
        self.lemma_distinct();
        assert forall|id: NetId| (id as int) < self@.len() implies id_of(
            self@,
            (#[trigger] kind_of(self@, id)).unwrap(),
        ) == Some(id) by {
            lemma_position_is_id(self@, id as int);
        }
    }
}

} // verus!
