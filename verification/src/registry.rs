//! Node identities, and the table that resolves them to backend nodes.
//!
//! An identity exists from the moment the description of a node is made,
//! before the backend has heard of the node. The registry issues identities,
//! remembers where the node of each one was recorded, and, once the backend
//! has finished the node, which backend node it became.

use vstd::prelude::*;

verus! {

/// The identity of one logical node: the random token of the registry that
/// issued it, and its slot in that registry.
#[derive(Clone, Copy, Debug, PartialEq, Eq, Structural, Hash)]
pub struct NodeIdent {
    pub registry: u128,
    pub slot: usize,
}

/// What the registry knows of a backend node: its number and how many
/// outputs it has.
#[derive(Clone, Copy, Debug, PartialEq, Eq, Structural)]
pub struct Binding {
    pub node: u64,
    pub outputs: usize,
}

/// What the registry holds for one identity.
#[derive(Clone, Copy, Debug, PartialEq, Eq, Structural)]
pub struct Slot {
    /// Where the node stands in the graph's record, once it was installed.
    pub place: Option<usize>,
    /// The backend node, once the backend has finished it.
    pub binding: Option<Binding>,
}

/// The table of every identity issued for one graph.
pub struct Registry {
    token: u128,
    slots: Vec<Slot>,
}

/// What a [`Registry`] stands for: its token, and one slot for each identity
/// issued so far, in order of issue.
pub struct RegistryView {
    pub token: u128,
    pub slots: Seq<Slot>,
}

/// Draws a random 128-bit token: `uuid::Uuid::new_v4` followed by
/// `Uuid::as_u128`. The value is random, so nothing is claimed of it. The
/// outside function panics where the operating system cannot supply random
/// bytes.
#[verifier::external_body]
fn fresh_token() -> (token: u128) {
    uuid::Uuid::new_v4().as_u128()
}

impl RegistryView {
    /// Whether `id` was issued by this registry.
    pub open spec fn issued(self, id: NodeIdent) -> bool {
        id.registry == self.token && id.slot < self.slots.len()
    }

    /// Where the node of `id` stands in the graph's record, if it was
    /// installed.
    pub open spec fn place(self, id: NodeIdent) -> Option<usize> {
        if self.issued(id) {
            self.slots[id.slot as int].place
        } else {
            None
        }
    }

    /// The backend node that `id` resolves to, if the backend has finished
    /// it.
    pub open spec fn binding(self, id: NodeIdent) -> Option<Binding> {
        if self.issued(id) {
            self.slots[id.slot as int].binding
        } else {
            None
        }
    }

    /// The identity that is issued next.
    pub open spec fn next(self) -> NodeIdent {
        NodeIdent { registry: self.token, slot: self.slots.len() as usize }
    }

    /// The registry after the next identity was issued.
    pub open spec fn issue(self) -> RegistryView {
        RegistryView { slots: self.slots.push(Slot { place: None, binding: None }), ..self }
    }

    /// The registry after the node of `id` was recorded at `place`.
    pub open spec fn placed(self, id: NodeIdent, place: usize) -> RegistryView {
        RegistryView {
            slots: self.slots.update(
                id.slot as int,
                Slot { place: Some(place), binding: self.slots[id.slot as int].binding },
            ),
            ..self
        }
    }

    /// The registry after `id` was bound to a backend node.
    pub open spec fn bound(self, id: NodeIdent, binding: Binding) -> RegistryView {
        RegistryView {
            slots: self.slots.update(
                id.slot as int,
                Slot { place: self.slots[id.slot as int].place, binding: Some(binding) },
            ),
            ..self
        }
    }
}

impl View for Registry {
    type V = RegistryView;

    closed spec fn view(&self) -> RegistryView {
        RegistryView { token: self.token, slots: self.slots@ }
    }
}

impl Registry {
    /// A registry with a token of its own that has issued no identity.
    pub fn new() -> (r: Registry)
        ensures
            r@.slots == Seq::<Slot>::empty(),
    {
        Registry::with_token(fresh_token())
    }

    /// A registry with the token `token` that has issued no identity. The
    /// token is what tells the identities of one registry from those of
    /// another, so registries that are in use together need different ones.
    pub fn with_token(token: u128) -> (r: Registry)
        ensures
            r@ == (RegistryView { token, slots: Seq::empty() }),
    {
        Registry { token, slots: Vec::new() }
    }

    /// The number of identities issued so far.
    pub fn len(&self) -> (n: usize)
        ensures
            n == self@.slots.len(),
    {
        self.slots.len()
    }

    /// Issues an identity that this registry has not issued before. It is
    /// neither installed nor bound.
    pub fn allocate(&mut self) -> (id: NodeIdent)
        ensures
            id == old(self)@.next(),
            old(self)@.slots.len() < usize::MAX,
            final(self)@ == old(self)@.issue(),
    {
        let slot = self.slots.len();
        self.slots.push(Slot { place: None, binding: None });
        let count = self.slots.len();
        NodeIdent { registry: self.token, slot }
    }

    /// Tells whether `id` was issued by this registry.
    pub fn is_issued(&self, id: NodeIdent) -> (yes: bool)
        ensures
            yes == self@.issued(id),
    {
        id.registry == self.token && id.slot < self.slots.len()
    }

    /// Where in the graph's record the node of `id` stands, if it was
    /// installed.
    pub fn find(&self, id: NodeIdent) -> (p: Option<usize>)
        ensures
            p == self@.place(id),
    {
        if self.is_issued(id) {
            self.slots[id.slot].place
        } else {
            None
        }
    }

    /// The backend node of `id` and the number of its outputs, if the
    /// backend has finished it; `None` while it is not yet installed there.
    pub fn resolve(&self, id: NodeIdent) -> (b: Option<Binding>)
        ensures
            b == self@.binding(id),
    {
        if self.is_issued(id) {
            self.slots[id.slot].binding
        } else {
            None
        }
    }

    /// Records that the node of `id` stands at `place` in the graph's
    /// record.
    pub fn settle_place(&mut self, id: NodeIdent, place: usize)
        requires
            old(self)@.issued(id),
        ensures
            final(self)@ == old(self)@.placed(id, place),
    {
        let binding = self.slots[id.slot].binding;
        self.slots[id.slot] = Slot { place: Some(place), binding };
    }

    /// Binds `id` to the backend node `node` with `outputs` outputs. An
    /// identity is bound once: binding it again is a fault of the caller.
    pub fn bind(&mut self, id: NodeIdent, node: u64, outputs: usize)
        requires
            old(self)@.issued(id),
            old(self)@.binding(id) is None,
        ensures
            final(self)@ == old(self)@.bound(id, Binding { node, outputs }),
    {
        let place = self.slots[id.slot].place;
        self.slots[id.slot] = Slot { place, binding: Some(Binding { node, outputs }) };
    }
}

} // verus!
