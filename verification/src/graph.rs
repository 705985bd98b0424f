//! The graph under construction, as a mathematical value.
//!
//! Everything that building a graph does is stated here as a function from
//! one such value to the next. The scope keeps a graph in memory and is
//! proved to follow these functions step by step.

use vstd::prelude::*;
use vstd::set_lib::lemma_len_subset;
use crate::backend::{emission, CallView, Outcome};
use crate::descriptor::{DescriptorView, DraftView, InputListView, OutputView};
use crate::error::Error;
use crate::kind::{NameRule, OpKind};
use crate::registry::{Binding, NodeIdent, RegistryView};
use crate::shape::{compatible, lemma_merged_well_formed, merged, shape_well_formed, ShapeView};
use crate::tensor::Tensor;
use crate::text::{holds_nul, lemma_numbered_injective, numbered, separator};

verus! {

/// The record of one installed node.
pub struct NodeView {
    /// The node's identity.
    pub ident: NodeIdent,
    /// The operation kind.
    pub kind: OpKind,
    /// The node's full name, unique in the graph.
    pub name: Seq<char>,
    /// What is known of each output.
    pub outputs: Seq<OutputView>,
}

/// An enclosing scope, as it was when the nested scope was entered: its name
/// prefix, and how many control dependencies were active.
pub struct FrameView {
    pub prefix: Seq<char>,
    pub control: nat,
}

/// A graph under construction.
pub struct GraphView {
    /// The identities issued so far.
    pub registry: RegistryView,
    /// The nodes installed so far, in the order of their installation.
    pub nodes: Seq<NodeView>,
    /// The calls written down for the backend so far, in order.
    pub calls: Seq<CallView>,
    /// The names in use: those of nodes and those of scopes.
    pub used: Set<Seq<char>>,
    /// For each base that a name was made from, the next number to try.
    pub counters: Map<Seq<char>, nat>,
    /// The prefix that the names of the current scope's nodes start with.
    pub prefix: Seq<char>,
    /// The identities that every node created now must run after.
    pub control: Seq<NodeIdent>,
    /// The enclosing scopes, outermost first.
    pub frames: Seq<FrameView>,
}

/// Whether `k` is the first number from `start` on whose candidate name is
/// not in `used`.
pub open spec fn is_first_free(used: Set<Seq<char>>, base: Seq<char>, start: nat, k: nat) -> bool {
    &&& start <= k
    &&& !used.contains(numbered(base, k))
    &&& forall|j: nat| start <= j < k ==> used.contains(#[trigger] numbered(base, j))
}

/// The first number from `start` on whose candidate name is not in `used`.
pub open spec fn first_free(used: Set<Seq<char>>, base: Seq<char>, start: nat) -> nat {
    choose|k: nat| is_first_free(used, base, start, k)
}

/// There is at most one first free number.
pub proof fn lemma_first_free_unique(used: Set<Seq<char>>, base: Seq<char>, start: nat, k: nat)
    requires
        is_first_free(used, base, start, k),
    ensures
        first_free(used, base, start) == k,
{
}

/// As many candidate names in a row as are all in use cannot outnumber the
/// names in use.
pub proof fn lemma_candidates_counted(used: Set<Seq<char>>, base: Seq<char>, start: nat, k: nat)
    requires
        used.finite(),
        start <= k,
        forall|j: nat| start <= j < k ==> used.contains(#[trigger] numbered(base, j)),
    ensures
        k - start <= used.len(),
{
    let candidates = Seq::new((k - start) as nat, |j: int| numbered(base, (start + j) as nat));
    assert(candidates.no_duplicates()) by {
        assert forall|i: int, j: int|
            0 <= i < candidates.len() && 0 <= j < candidates.len() && i != j implies candidates[i]
            != candidates[j] by {
            if candidates[i] == candidates[j] {
                lemma_numbered_injective(base, (start + i) as nat, (start + j) as nat);
            }
        }
    }
    candidates.unique_seq_to_set();
    lemma_len_subset(candidates.to_set(), used);
}

/// Among finitely many names in use, some candidate from `start` on is free,
/// given that those from `start` up to `k` are not.
proof fn lemma_first_free_from(used: Set<Seq<char>>, base: Seq<char>, start: nat, k: nat)
    requires
        used.finite(),
        start <= k,
        forall|j: nat| start <= j < k ==> used.contains(#[trigger] numbered(base, j)),
    ensures
        exists|m: nat| is_first_free(used, base, start, m),
    decreases start + used.len() - k,
{
    lemma_candidates_counted(used, base, start, k);
    if !used.contains(numbered(base, k)) {
        assert(is_first_free(used, base, start, k));
    } else {
        lemma_candidates_counted(used, base, start, k + 1);
        lemma_first_free_from(used, base, start, k + 1);
    }
}

/// Among finitely many names in use there is a first free candidate.
pub proof fn lemma_first_free_exists(used: Set<Seq<char>>, base: Seq<char>, start: nat)
    requires
        used.finite(),
    ensures
        is_first_free(used, base, start, first_free(used, base, start)),
{
    lemma_first_free_from(used, base, start, start);
}

/// The tensors that installing `d` returns: one for each output, in order.
pub open spec fn output_tensors(d: DescriptorView) -> Seq<Tensor> {
    Seq::new(
        d.outputs.len(),
        |i: int| Tensor { ident: d.ident, index: i as usize, dtype: d.outputs[i].dtype },
    )
}

/// Every node stands where the registry says, and the registry points at
/// nothing else.
spec fn places_agree(registry: RegistryView, nodes: Seq<NodeView>) -> bool {
    &&& forall|p: int|
        0 <= p < nodes.len() ==> registry.place((#[trigger] nodes[p]).ident) == Some(p as usize)
    &&& forall|i: int|
        0 <= i < registry.slots.len() ==> ((#[trigger] registry.slots[i]).place matches Some(p)
            ==> {
            &&& p < nodes.len()
            &&& nodes[p as int].ident == NodeIdent { registry: registry.token, slot: i as usize }
        })
    &&& forall|i: int|
        0 <= i < registry.slots.len() ==> ((#[trigger] registry.slots[i]).binding is Some
            ==> registry.slots[i].place is Some)
}

/// Every node's name is in use, and no two nodes share a name.
spec fn names_agree(nodes: Seq<NodeView>, used: Set<Seq<char>>) -> bool {
    &&& forall|p: int| 0 <= p < nodes.len() ==> used.contains((#[trigger] nodes[p]).name)
    &&& forall|p: int, q: int|
        0 <= p < q < nodes.len() ==> (#[trigger] nodes[p]).name != (#[trigger] nodes[q]).name
}

/// Every candidate name below a counter is in use.
spec fn counters_agree(counters: Map<Seq<char>, nat>, used: Set<Seq<char>>) -> bool {
    forall|b: Seq<char>, j: nat|
        counters.dom().contains(b) && j < counters[b] ==> used.contains(#[trigger] numbered(b, j))
}

/// What is known of every output is consistent.
spec fn outputs_agree(nodes: Seq<NodeView>) -> bool {
    forall|p: int, k: int|
        0 <= p < nodes.len() && 0 <= k < nodes[p].outputs.len() ==> (
        #[trigger] nodes[p].outputs[k]).consistent()
}

/// Every active control dependency is an installed node, none occurs twice,
/// and no enclosing scope had more of them than are active now, nor more
/// than a scope nested in it.
spec fn control_agrees(registry: RegistryView, control: Seq<NodeIdent>, frames: Seq<FrameView>) -> bool {
    &&& forall|i: int| 0 <= i < control.len() ==> registry.place(#[trigger] control[i]) is Some
    &&& control.no_duplicates()
    &&& forall|i: int| 0 <= i < frames.len() ==> (#[trigger] frames[i]).control <= control.len()
    &&& forall|i: int, j: int|
        0 <= i < j < frames.len() ==> (#[trigger] frames[i]).control <= (
        #[trigger] frames[j]).control
}

impl GraphView {
    /// The graph with the registry token `token` and nothing in it.
    pub open spec fn empty(token: u128) -> GraphView {
        GraphView {
            registry: RegistryView { token, slots: Seq::empty() },
            nodes: Seq::empty(),
            calls: Seq::empty(),
            used: Set::empty(),
            counters: Map::empty(),
            prefix: Seq::empty(),
            control: Seq::empty(),
            frames: Seq::empty(),
        }
    }

    /// The invariant of a graph: the registry and the record of nodes agree,
    /// node names are in use and differ from each other, every candidate
    /// name below a counter is in use, what is known of the outputs is
    /// consistent, the control dependencies are installed nodes, and the
    /// graph fits in memory.
    pub closed spec fn wf(self) -> bool {
        &&& self.nodes.len() <= usize::MAX
        &&& self.registry.slots.len() <= usize::MAX
        &&& self.used.finite()
        &&& places_agree(self.registry, self.nodes)
        &&& names_agree(self.nodes, self.used)
        &&& counters_agree(self.counters, self.used)
        &&& outputs_agree(self.nodes)
        &&& control_agrees(self.registry, self.control, self.frames)
    }

    /// Where the node of `t` stands in the record, if `t` is an output of an
    /// installed node and has that output's data type.
    pub open spec fn place(self, t: Tensor) -> Option<int> {
        match self.registry.place(t.ident) {
            Some(p) => if p < self.nodes.len() && t.index < self.nodes[p as int].outputs.len()
                && self.nodes[p as int].outputs[t.index as int].dtype == t.dtype {
                Some(p as int)
            } else {
                None
            },
            None => None,
        }
    }

    /// Whether `t` is an output of a node of this graph.
    pub open spec fn owns(self, t: Tensor) -> bool {
        self.place(t) is Some
    }

    /// What is known of `t`.
    pub open spec fn slot_of(self, t: Tensor) -> OutputView
        recommends
            self.owns(t),
    {
        self.nodes[self.place(t)->0].outputs[t.index as int]
    }

    /// The best static knowledge of the shape of `t`: nothing, where `t` is
    /// not of this graph.
    pub open spec fn shape_of(self, t: Tensor) -> ShapeView {
        if self.owns(t) {
            self.slot_of(t).shape
        } else {
            None
        }
    }

    /// The elements of `t`, where they are integers known at build time.
    pub open spec fn value_of(self, t: Tensor) -> Option<Seq<i64>> {
        if self.owns(t) {
            self.slot_of(t).value
        } else {
            None
        }
    }

    /// Whether `t` is a tensor of this graph of the data type `dtype` of
    /// which the shape `shape` is known.
    pub open spec fn knows(self, t: Tensor, dtype: crate::dtype::DataType, shape: ShapeView) -> bool {
        self.owns(t) && t.dtype == dtype && self.shape_of(t) == shape
    }

    /// Whether every one of `tensors` is an output of a node of this graph.
    pub open spec fn owns_all(self, tensors: Seq<Tensor>) -> bool {
        forall|i: int| 0 <= i < tensors.len() ==> self.owns(#[trigger] tensors[i])
    }

    /// Whether every input, single or in a list, is an output of a node of
    /// this graph.
    pub open spec fn owns_inputs(self, inputs: Seq<Tensor>, lists: Seq<InputListView>) -> bool {
        &&& self.owns_all(inputs)
        &&& forall|j: int| 0 <= j < lists.len() ==> self.owns_all((#[trigger] lists[j]).members)
    }

    /// Whether `id` was issued by this graph's registry and is not yet
    /// installed.
    pub open spec fn fresh(self, id: NodeIdent) -> bool {
        self.registry.issued(id) && self.registry.place(id) is None
    }

    /// The next number to try for names that start from `base`: zero where
    /// none was made yet.
    pub open spec fn counter(self, base: Seq<char>) -> nat {
        if self.counters.dom().contains(base) {
            self.counters[base]
        } else {
            0
        }
    }

    /// The number of the first candidate name from `base` that is free,
    /// going by the counter for `base`.
    pub open spec fn free_number(self, base: Seq<char>) -> nat {
        first_free(self.used, base, self.counter(base))
    }

    /// The first candidate name from `base` that is free.
    pub open spec fn free_name(self, base: Seq<char>) -> Seq<char> {
        numbered(base, self.free_number(base))
    }

    /// The graph after the first free candidate name from `base` was taken:
    /// the name is in use and the counter for `base` stands past it.
    pub open spec fn with_free_name(self, base: Seq<char>) -> GraphView {
        GraphView {
            used: self.used.insert(self.free_name(base)),
            counters: self.counters.insert(base, self.free_number(base) + 1),
            ..self
        }
    }

    /// The graph after the name `name` was put in use.
    pub open spec fn with_name(self, name: Seq<char>) -> GraphView {
        GraphView { used: self.used.insert(name), ..self }
    }

    /// The name that a node of kind `kind` with the single inputs `inputs`
    /// takes when the caller gives none, before the prefix and the number:
    /// the backend name of the kind itself, or of the kind that produced
    /// the input that the kind's rule names.
    pub open spec fn default_name(self, kind: OpKind, inputs: Seq<Tensor>) -> Seq<char> {
        match kind.spec_name_rule() {
            NameRule::Own => kind.spec_backend_name(),
            NameRule::Input(n) => if n < inputs.len() && self.owns(inputs[n as int]) {
                self.nodes[self.place(inputs[n as int])->0].kind.spec_backend_name()
            } else {
                kind.spec_backend_name()
            },
        }
    }

    /// The full name that a node takes in the current scope: the prefix and
    /// the chosen name, or, where none was chosen, the first free candidate
    /// from the prefix and the default name.
    pub open spec fn resolved_name(
        self,
        kind: OpKind,
        inputs: Seq<Tensor>,
        chosen: Option<Seq<char>>,
    ) -> Seq<char> {
        match chosen {
            Some(n) => self.prefix + n,
            None => self.free_name(self.prefix + self.default_name(kind, inputs)),
        }
    }

    /// The failure that what the graph holds gives rise to for a node with
    /// these inputs and this chosen name, if any: an input that is not of
    /// this graph first, then a chosen name that is in use.
    pub open spec fn graph_fault(
        self,
        inputs: Seq<Tensor>,
        lists: Seq<InputListView>,
        chosen: Option<Seq<char>>,
    ) -> Option<Error> {
        if !self.owns_inputs(inputs, lists) {
            Some(Error::UnknownTensor)
        } else if chosen is Some && self.used.contains(self.prefix + chosen->0) {
            Some(Error::DuplicateName)
        } else {
            None
        }
    }

    /// The failure that installing `d` gives rise to, if any: an identity
    /// that is not fresh first, then the faults of the graph.
    pub open spec fn install_fault(self, d: DescriptorView) -> Option<Error> {
        if !self.fresh(d.ident) {
            Some(Error::DuplicateIdentity)
        } else {
            self.graph_fault(d.inputs, d.lists, d.name)
        }
    }

    /// The graph after the next identity was issued.
    pub open spec fn issued(self) -> GraphView {
        GraphView { registry: self.registry.issue(), ..self }
    }

    /// The graph after the name of the node that `d` describes was
    /// resolved: the name is in use and, where it was not chosen, the
    /// counter stands past it.
    pub open spec fn with_resolved(self, d: DescriptorView) -> GraphView {
        match d.name {
            Some(n) => self.with_name(self.prefix + n),
            None => self.with_free_name(self.prefix + self.default_name(d.kind, d.inputs)),
        }
    }

    /// The graph after `d` was installed: one more node under its resolved
    /// name, its calls at the end of the calls, its identity placed, its
    /// name in use and, where the name was not chosen, the counter moved
    /// past it; the prefix, the control dependencies and the enclosing
    /// scopes as they were.
    pub open spec fn installed(self, d: DescriptorView) -> GraphView {
        let name = self.resolved_name(d.kind, d.inputs, d.name);
        let named = self.with_resolved(d);
        GraphView {
            registry: self.registry.placed(d.ident, self.nodes.len() as usize),
            nodes: self.nodes.push(
                NodeView { ident: d.ident, kind: d.kind, name, outputs: d.outputs },
            ),
            calls: self.calls + emission(d, name, self.control),
            ..named
        }
    }

    /// What installing `d` does and returns: the graph unchanged and the
    /// failure, or the graph with the node in it and one tensor for each
    /// output.
    pub open spec fn install(self, d: DescriptorView) -> (GraphView, Result<Seq<Tensor>, Error>) {
        match self.install_fault(d) {
            Some(e) => (self, Err(e)),
            None => (self.installed(d), Ok(output_tensors(d))),
        }
    }

    /// What describing and installing `draft` in one go does and returns:
    /// the graph unchanged and the failure, or the graph with the next
    /// identity issued and the node installed under it, and the node's first
    /// output.
    #[verifier::opaque]
    pub open spec fn add(self, draft: DraftView) -> (GraphView, Result<Tensor, Error>) {
        match draft.fault(self) {
            Some(e) => (self, Err(e)),
            None => (
                self.issued().installed(draft.described(self.registry.next())),
                Ok(Tensor { ident: self.registry.next(), index: 0, dtype: draft.dtype() }),
            ),
        }
    }

    /// What entering a nested scope does and returns: nothing and
    /// `NulError` where the name asked for holds a NUL character.
    pub open spec fn enter(self, hint: Seq<char>, fallback: Seq<char>) -> (
        GraphView,
        Result<(), Error>,
    ) {
        let wanted = Self::scope_hint(hint, fallback);
        if holds_nul(wanted) {
            (self, Err(Error::NulError))
        } else {
            (self.entered(wanted), Ok(()))
        }
    }

    /// What making `id` a control dependency does and returns: nothing and
    /// `UnknownTensor` where `id` is not an installed node of this graph.
    pub open spec fn depend(self, id: NodeIdent) -> (GraphView, Result<(), Error>) {
        if self.registry.place(id) is None {
            (self, Err(Error::UnknownTensor))
        } else {
            (self.depending(id), Ok(()))
        }
    }

    /// What asserting `shape` of `t` does and returns.
    pub open spec fn assert_shape(self, t: Tensor, shape: ShapeView) -> (
        GraphView,
        Result<(), Error>,
    ) {
        match self.shape_fault(t, shape) {
            Some(e) => (self, Err(e)),
            None => (self.shaped(t, shape), Ok(())),
        }
    }

    /// What taking the backend's answer for the node of `id` does and
    /// returns: the identity bound, or nothing and the backend's status as
    /// the failure.
    pub open spec fn settle(self, id: NodeIdent, outcome: Outcome) -> (GraphView, Result<(), Error>) {
        match outcome {
            Outcome::Finished(node) => (self.bound(id, node), Ok(())),
            Outcome::Failed(status) => (self, Err(Error::TFError(status))),
        }
    }

    /// The name that a nested scope is asked to have: `hint`, or `fallback`
    /// where `hint` is empty.
    pub open spec fn scope_hint(hint: Seq<char>, fallback: Seq<char>) -> Seq<char> {
        if hint.len() == 0 {
            fallback
        } else {
            hint
        }
    }

    /// The graph after a nested scope was entered under the name `wanted`:
    /// the first free candidate from the prefix and `wanted` is in use, the
    /// scope that was current is on the stack, and the prefix is that
    /// candidate followed by the separator.
    pub open spec fn entered(self, wanted: Seq<char>) -> GraphView {
        let base = self.prefix + wanted;
        let named = self.with_free_name(base);
        GraphView {
            frames: self.frames.push(
                FrameView { prefix: self.prefix, control: self.control.len() },
            ),
            prefix: self.free_name(base).push(separator()),
            ..named
        }
    }

    /// The graph after the current scope was left: the prefix and the
    /// control dependencies are those of the enclosing scope. Leaving the
    /// outermost scope changes nothing.
    pub open spec fn left(self) -> GraphView {
        if self.frames.len() == 0 {
            self
        } else {
            GraphView {
                prefix: self.frames.last().prefix,
                control: self.control.take(self.frames.last().control as int),
                frames: self.frames.drop_last(),
                ..self
            }
        }
    }

    /// The graph after `id` was made a control dependency of the current
    /// scope: added at the end, unless it is active already.
    pub open spec fn depending(self, id: NodeIdent) -> GraphView {
        if self.control.contains(id) {
            self
        } else {
            GraphView { control: self.control.push(id), ..self }
        }
    }

    /// The graph after `shape` was asserted of `t`, which the graph owns:
    /// what is known of the shape of `t` is merged with `shape`.
    pub open spec fn shaped(self, t: Tensor, shape: ShapeView) -> GraphView {
        let p = self.place(t)->0;
        let node = self.nodes[p];
        let slot = node.outputs[t.index as int];
        GraphView {
            nodes: self.nodes.update(
                p,
                NodeView {
                    outputs: node.outputs.update(
                        t.index as int,
                        OutputView { shape: merged(slot.shape, shape), ..slot },
                    ),
                    ..node
                },
            ),
            ..self
        }
    }

    /// The failure that asserting `shape` of `t` gives rise to, if any: a
    /// tensor that is not of this graph first, then a negative size, then a
    /// shape that contradicts what is known.
    pub open spec fn shape_fault(self, t: Tensor, shape: ShapeView) -> Option<Error> {
        if !self.owns(t) {
            Some(Error::UnknownTensor)
        } else if !shape_well_formed(shape) {
            Some(Error::MalformedShape)
        } else if !compatible(self.shape_of(t), shape) {
            Some(Error::ShapeMismatch)
        } else {
            None
        }
    }

    /// The graph after the backend finished the node of `id` as its node
    /// `node`.
    pub open spec fn bound(self, id: NodeIdent, node: u64) -> GraphView {
        GraphView {
            registry: self.registry.bound(
                id,
                Binding {
                    node,
                    outputs: self.nodes[self.registry.place(id)->0 as int].outputs.len() as usize,
                },
            ),
            ..self
        }
    }

    /// Whether the node of `id` is installed and the backend has not yet
    /// answered for it.
    pub open spec fn pending(self, id: NodeIdent) -> bool {
        self.registry.place(id) is Some && self.registry.binding(id) is None
    }

    /// Whether this graph is `pre` with more in it: the same prefix, control
    /// dependencies and enclosing scopes; the nodes and calls of `pre`
    /// first, in order; every name that was in use still in use; every
    /// tensor of `pre` still a tensor of the graph, with nothing changed
    /// that is known of it.
    pub open spec fn grows_from(self, pre: GraphView) -> bool {
        &&& self.prefix == pre.prefix
        &&& self.control == pre.control
        &&& self.frames == pre.frames
        &&& self.registry.token == pre.registry.token
        &&& pre.registry.slots.len() <= self.registry.slots.len()
        &&& pre.nodes.len() <= self.nodes.len()
        &&& self.nodes.take(pre.nodes.len() as int) == pre.nodes
        &&& pre.calls.len() <= self.calls.len()
        &&& self.calls.take(pre.calls.len() as int) == pre.calls
        &&& pre.used.subset_of(self.used)
        &&& forall|t: Tensor| #[trigger]
            pre.owns(t) ==> self.owns(t) && self.slot_of(t) == pre.slot_of(t) && self.place(t)
                == pre.place(t)
    }

    /// The empty graph satisfies the invariant.
    pub proof fn lemma_empty_wf(token: u128)
        ensures
            GraphView::empty(token).wf(),
    {
    }

    /// What the invariant says that callers rely on: the graph fits in
    /// memory, what is known of each of its tensors is consistent, and no
    /// two nodes share a name or an identity.
    pub proof fn lemma_wf(self)
        requires
            self.wf(),
        ensures
            self.nodes.len() <= usize::MAX,
            self.registry.slots.len() <= usize::MAX,
            self.used.finite(),
            forall|t: Tensor| #[trigger] self.owns(t) ==> self.slot_of(t).consistent(),
            forall|p: int, q: int|
                0 <= p < q < self.nodes.len() ==> (#[trigger] self.nodes[p]).name != (
                #[trigger] self.nodes[q]).name,
            forall|p: int, q: int|
                0 <= p < q < self.nodes.len() ==> (#[trigger] self.nodes[p]).ident != (
                #[trigger] self.nodes[q]).ident,
            forall|p: int| 0 <= p < self.nodes.len() ==> self.used.contains((#[trigger] self.nodes[p]).name),
            forall|p: int|
                0 <= p < self.nodes.len() ==> self.registry.place((#[trigger] self.nodes[p]).ident)
                    == Some(p as usize),
            forall|i: int|
                0 <= i < self.control.len() ==> self.registry.place(#[trigger] self.control[i]) is Some,
            forall|id: NodeIdent|
                #[trigger] self.registry.place(id) is Some ==> self.registry.place(id)->0
                    < self.nodes.len() && self.nodes[self.registry.place(id)->0 as int].ident == id,
            forall|i: int|
                0 <= i < self.frames.len() ==> (#[trigger] self.frames[i]).control
                    <= self.control.len(),
    {
    }

    /// Every candidate name below a counter is in use.
    pub proof fn lemma_counter_below(self, base: Seq<char>, j: nat)
        requires
            self.wf(),
            j < self.counter(base),
        ensures
            self.used.contains(numbered(base, j)),
    {
    }

    /// An identity that is bound is installed.
    pub proof fn lemma_bound_placed(self, id: NodeIdent)
        requires
            self.wf(),
            self.registry.binding(id) is Some,
        ensures
            self.registry.place(id) is Some,
    {
    }

    /// Adding a draft that has no fault keeps the invariant, provided the
    /// graph still fits in memory. The graph grew by one node; the tensor
    /// that comes back is its first output, known as the draft has it, and
    /// was not a tensor of the graph before.
    pub proof fn lemma_added(self, draft: DraftView)
        requires
            self.wf(),
            draft.fault(self) is None,
            self.nodes.len() < usize::MAX,
            self.registry.slots.len() < usize::MAX,
        ensures
            self.add(draft).0.wf(),
            self.add(draft).0.grows_from(self),
            self.add(draft).1 is Ok,
            ({
                let post = self.add(draft).0;
                let t = self.add(draft).1->Ok_0;
                let d = draft.described(self.registry.next());
                &&& post.owns(t)
                &&& !self.owns(t)
                &&& post.slot_of(t) == d.outputs[0]
                &&& post.place(t) == Some(self.nodes.len() as int)
                &&& post.nodes == self.nodes.push(
                    NodeView {
                        ident: self.registry.next(),
                        kind: draft.kind,
                        name: self.resolved_name(draft.kind, draft.inputs, d.name),
                        outputs: d.outputs,
                    },
                )
                &&& post.calls == self.calls + emission(
                    d,
                    self.resolved_name(draft.kind, draft.inputs, d.name),
                    self.control,
                )
                &&& post.registry.slots.len() == self.registry.slots.len() + 1
            }),
    {
        reveal(GraphView::add);
        let id = self.registry.next();
        let d = draft.described(id);
        let mid = self.issued();
        self.lemma_issued();
        draft.lemma_described_valid(self, id);
        mid.lemma_installed(d);
        let post = mid.installed(d);
        post.lemma_grows_transitive(mid, self);
    }

    /// What adding a draft returns: on success the first output of the node
    /// under the next identity, of the data type that the kind's rule gives;
    /// on failure the fault of the draft, with the graph unchanged.
    pub proof fn lemma_add(self, draft: DraftView)
        ensures
            self.add(draft).1 matches Ok(t) ==> {
                &&& draft.fault(self) is None
                &&& t == Tensor { ident: self.registry.next(), index: 0, dtype: draft.dtype() }
            },
            self.add(draft).1 matches Err(e) ==> {
                &&& draft.fault(self) == Some(e)
                &&& self.add(draft).0 == self
            },
    {
        reveal(GraphView::add);
    }

    /// [`GraphView::lemma_added`] for a graph of which it is known that the
    /// node fitted in memory: the graph after adding satisfies the
    /// invariant.
    pub proof fn lemma_added_fitting(self, draft: DraftView)
        requires
            self.wf(),
            self.add(draft).0.wf(),
            self.add(draft).1 is Ok,
        ensures
            self.add(draft).0.grows_from(self),
            ({
                let post = self.add(draft).0;
                let t = self.add(draft).1->Ok_0;
                let d = draft.described(self.registry.next());
                &&& post.owns(t)
                &&& !self.owns(t)
                &&& post.slot_of(t) == d.outputs[0]
                &&& post.place(t) == Some(self.nodes.len() as int)
                &&& post.nodes == self.nodes.push(
                    NodeView {
                        ident: self.registry.next(),
                        kind: draft.kind,
                        name: self.resolved_name(draft.kind, draft.inputs, d.name),
                        outputs: d.outputs,
                    },
                )
                &&& post.registry.slots.len() == self.registry.slots.len() + 1
            }),
    {
        reveal(GraphView::add);
        self.lemma_add(draft);
        self.lemma_added(draft);
    }

    /// How many more nodes fit in memory.
    pub open spec fn room(self) -> int {
        if self.nodes.len() >= self.registry.slots.len() {
            usize::MAX - self.nodes.len()
        } else {
            usize::MAX - self.registry.slots.len()
        }
    }

    /// Adding a draft to a graph with room for a node keeps the invariant
    /// and takes at most the room of one node. On success the graph grew by
    /// one node, and the tensor that comes back is its first output, known
    /// as the draft has it.
    pub proof fn lemma_add_room(self, draft: DraftView)
        requires
            self.wf(),
            self.room() >= 1,
        ensures
            self.add(draft).0.wf(),
            self.add(draft).0.grows_from(self),
            self.add(draft).0.room() >= self.room() - 1,
            self.add(draft).1 is Ok <==> draft.fault(self) is None,
            self.add(draft).1 matches Ok(t) ==> {
                let post = self.add(draft).0;
                &&& t == Tensor { ident: self.registry.next(), index: 0, dtype: draft.dtype() }
                &&& post.owns(t)
                &&& !self.owns(t)
                &&& post.slot_of(t) == OutputView {
                    dtype: draft.dtype(),
                    shape: draft.shape,
                    value: draft.value,
                }
                &&& post.nodes.len() == self.nodes.len() + 1
                &&& post.nodes.last().kind == draft.kind
                &&& post.place(t) == Some(self.nodes.len() as int)
            },
    {
        self.lemma_add(draft);
        if draft.fault(self) is None {
            self.lemma_added(draft);
        } else {
            reveal(GraphView::add);
            self.lemma_grows_reflexive();
        }
    }

    /// What is known after a draft was added to a graph and the invariant
    /// held before and after: on success the graph grew and owns the tensor
    /// that came back, which has the data type that the kind's rule gives and
    /// is known by the shape and the value that the draft states; on failure
    /// the graph is as it was.
    pub proof fn lemma_add_known(self, draft: DraftView, post: GraphView, r: Result<Tensor, Error>)
        requires
            self.wf(),
            post.wf(),
            (post, r) == self.add(draft),
        ensures
            post.grows_from(self),
            r matches Ok(t) ==> {
                &&& post.owns(t)
                &&& t.dtype == draft.dtype()
                &&& post.shape_of(t) == draft.shape
                &&& post.value_of(t) == draft.value
            },
            r is Err ==> post == self,
    {
        self.lemma_add(draft);
        if r is Ok {
            self.lemma_added_fitting(draft);
        } else {
            self.lemma_grows_reflexive();
        }
    }

    /// A graph grows from itself.
    pub proof fn lemma_grows_reflexive(self)
        ensures
            self.grows_from(self),
    {
        assert(self.nodes.take(self.nodes.len() as int) =~= self.nodes);
        assert(self.calls.take(self.calls.len() as int) =~= self.calls);
    }

    /// Growth carries over: what grew from a graph that grew from `pre` grew
    /// from `pre`.
    pub proof fn lemma_grows_transitive(self, mid: GraphView, pre: GraphView)
        requires
            self.grows_from(mid),
            mid.grows_from(pre),
        ensures
            self.grows_from(pre),
    {
        assert(self.nodes.take(pre.nodes.len() as int) =~= pre.nodes);
        assert(self.calls.take(pre.calls.len() as int) =~= pre.calls);
    }

    /// Issuing an identity keeps the invariant and changes nothing that is
    /// known of the graph: the same tensors belong to it, a description
    /// finds the same faults, and a node gets the same name.
    pub proof fn lemma_issued(self)
        requires
            self.wf(),
            self.registry.slots.len() < usize::MAX,
        ensures
            self.issued().wf(),
            self.issued().fresh(self.registry.next()),
            !self.registry.issued(self.registry.next()),
            self.issued().grows_from(self),
            forall|t: Tensor| #[trigger] self.issued().place(t) == self.place(t),
            forall|inputs: Seq<Tensor>| #[trigger]
                self.issued().owns_all(inputs) == self.owns_all(inputs),
            forall|inputs: Seq<Tensor>, lists: Seq<InputListView>| #[trigger]
                self.issued().owns_inputs(inputs, lists) == self.owns_inputs(inputs, lists),
            forall|kind: OpKind, inputs: Seq<Tensor>| #[trigger]
                self.issued().default_name(kind, inputs) == self.default_name(kind, inputs),
    {
        let post = self.issued();
        assert forall|kind: OpKind, inputs: Seq<Tensor>| #[trigger]
            post.default_name(kind, inputs) == self.default_name(kind, inputs) by {
            match kind.spec_name_rule() {
                NameRule::Own => {},
                NameRule::Input(n) => {
                },
            }
        }
        assert(post.nodes.take(self.nodes.len() as int) =~= self.nodes);
        assert(post.calls.take(self.calls.len() as int) =~= self.calls);
    }

    /// Taking the first free candidate name keeps the invariant; the name
    /// was free.
    pub proof fn lemma_with_free_name(self, base: Seq<char>)
        requires
            self.wf(),
        ensures
            self.with_free_name(base).wf(),
            !self.used.contains(self.free_name(base)),
            is_first_free(self.used, base, self.counter(base), self.free_number(base)),
    {
        let k = self.free_number(base);
        let post = self.with_free_name(base);
        lemma_first_free_exists(self.used, base, self.counter(base));
        assert(counters_agree(post.counters, post.used)) by {
            assert forall|b: Seq<char>, j: nat|
                post.counters.dom().contains(b) && j < post.counters[b] implies post.used.contains(
                #[trigger] numbered(b, j),
            ) by {
                if b == base {
                    if j < self.counter(base) {
                        assert(self.used.contains(numbered(base, j)));
                    } else if j < k {
                        assert(self.used.contains(numbered(base, j)));
                    }
                } else {
                    assert(self.used.contains(numbered(b, j)));
                }
            }
        }
        assert(names_agree(post.nodes, post.used)) by {
            assert forall|p: int| 0 <= p < post.nodes.len() implies post.used.contains(
                (#[trigger] post.nodes[p]).name,
            ) by {
                assert(self.used.contains(self.nodes[p].name));
            }
        }
    }

    /// Putting a name in use keeps the invariant.
    pub proof fn lemma_with_name(self, name: Seq<char>)
        requires
            self.wf(),
        ensures
            self.with_name(name).wf(),
    {
    }

    /// Installing a valid description that has no fault keeps the
    /// invariant. The graph grew; the outputs of the node are tensors of the
    /// graph, known as the description has them, and were not before.
    pub proof fn lemma_installed(self, d: DescriptorView)
        requires
            self.wf(),
            d.valid(),
            self.install_fault(d) is None,
            self.nodes.len() < usize::MAX,
        ensures
            self.installed(d).wf(),
            self.installed(d).grows_from(self),
            !self.used.contains(self.resolved_name(d.kind, d.inputs, d.name)),
            forall|i: int|
                0 <= i < d.outputs.len() ==> {
                    let t = #[trigger] output_tensors(d)[i];
                    &&& self.installed(d).owns(t)
                    &&& !self.owns(t)
                    &&& self.installed(d).slot_of(t) == d.outputs[i]
                    &&& self.installed(d).place(t) == Some(self.nodes.len() as int)
                },
    {
        let name = self.resolved_name(d.kind, d.inputs, d.name);
        let post = self.installed(d);
        let n = self.nodes.len() as int;
        let ident = d.ident;
        match d.name {
            Some(c) => {
                self.lemma_with_name(self.prefix + c);
            },
            None => {
                self.lemma_with_free_name(self.prefix + self.default_name(d.kind, d.inputs));
            },
        }
        let after = post.registry;
        assert(outputs_agree(post.nodes));
        assert(post.nodes.take(n) =~= self.nodes);
        assert(post.calls.take(self.calls.len() as int) =~= self.calls);
    }

    /// Entering a nested scope keeps the invariant and leaves the nodes,
    /// the calls and the tensors of the graph alone.
    pub proof fn lemma_entered(self, wanted: Seq<char>)
        requires
            self.wf(),
        ensures
            self.entered(wanted).wf(),
            forall|t: Tensor| #[trigger] self.entered(wanted).place(t) == self.place(t),
    {
        let base = self.prefix + wanted;
        self.lemma_with_free_name(base);
    }

    /// Leaving a scope keeps the invariant and leaves the nodes, the calls
    /// and the tensors of the graph alone.
    pub proof fn lemma_left(self)
        requires
            self.wf(),
        ensures
            self.left().wf(),
            forall|t: Tensor| #[trigger] self.left().place(t) == self.place(t),
    {
    }

    /// Entering a nested scope and leaving it again restores the prefix, the
    /// control dependencies and the enclosing scopes, whatever grew in
    /// between.
    pub proof fn lemma_entered_left(self, inner: GraphView, wanted: Seq<char>)
        requires
            self.wf(),
            inner.grows_from(self.entered(wanted)),
        ensures
            inner.left().prefix == self.prefix,
            inner.left().control == self.control,
            inner.left().frames == self.frames,
    {
    }

    /// What was installed inside a nested scope stays installed when the
    /// scope is left: the graph after leaving satisfies the invariant, grew
    /// from the graph before the scope was entered, and knows every tensor
    /// as the graph inside the scope knew it.
    pub proof fn lemma_scoped(self, wanted: Seq<char>, inner: GraphView)
        requires
            self.wf(),
            inner.wf(),
            inner.grows_from(self.entered(wanted)),
        ensures
            inner.left().wf(),
            inner.left().grows_from(self),
            inner.left().room() == inner.room(),
            self.entered(wanted).room() == self.room(),
            forall|t: Tensor| #[trigger]
                inner.owns(t) ==> inner.left().owns(t) && inner.left().slot_of(t) == inner.slot_of(
                    t,
                ),
    {
        let e = self.entered(wanted);
        let post = inner.left();
        self.lemma_entered(wanted);
        inner.lemma_left();
        self.lemma_entered_left(inner, wanted);
        assert forall|t: Tensor| #[trigger] self.owns(t) implies post.owns(t) && post.slot_of(t)
            == self.slot_of(t) && post.place(t) == self.place(t) by {
            assert(e.owns(t));
        }
    }

    /// Making an installed node a control dependency keeps the invariant.
    pub proof fn lemma_depending(self, id: NodeIdent)
        requires
            self.wf(),
            self.registry.place(id) is Some,
        ensures
            self.depending(id).wf(),
    {
    }

    /// Asserting a shape that has no fault keeps the invariant. The shape
    /// known of the tensor is then the merge; every other tensor is known as
    /// before, and the same tensors belong to the graph.
    pub proof fn lemma_shaped(self, t: Tensor, shape: ShapeView)
        requires
            self.wf(),
            self.shape_fault(t, shape) is None,
        ensures
            self.shaped(t, shape).wf(),
            self.shaped(t, shape).owns(t),
            self.shaped(t, shape).shape_of(t) == merged(self.shape_of(t), shape),
            self.shaped(t, shape).value_of(t) == self.value_of(t),
            forall|u: Tensor| #[trigger] self.shaped(t, shape).place(u) == self.place(u),
            forall|u: Tensor| #[trigger]
                self.owns(u) && !(u.ident == t.ident && u.index == t.index) ==> self.shaped(
                    t,
                    shape,
                ).slot_of(u) == self.slot_of(u),
            forall|p: int|
                0 <= p < self.nodes.len() ==> (#[trigger] self.shaped(t, shape).nodes[p]).kind
                    == self.nodes[p].kind && self.shaped(t, shape).nodes[p].name
                    == self.nodes[p].name && self.shaped(t, shape).nodes[p].ident
                    == self.nodes[p].ident,
    {
        let post = self.shaped(t, shape);
        let p = self.place(t)->0;
        let node = self.nodes[p];
        let slot = node.outputs[t.index as int];
        let new_slot = OutputView { shape: merged(slot.shape, shape), ..slot };
        lemma_merged_well_formed(slot.shape, shape);
        assert(new_slot.consistent()) by {
            if slot.value is Some {
                lemma_merged_known(slot.shape, shape);
            }
        }
    }

    /// Binding a pending identity keeps the invariant and changes nothing
    /// but the registry's record of that identity.
    pub proof fn lemma_bound(self, id: NodeIdent, node: u64)
        requires
            self.wf(),
            self.pending(id),
        ensures
            self.bound(id, node).wf(),
            forall|t: Tensor| #[trigger] self.bound(id, node).place(t) == self.place(t),
            self.bound(id, node).registry.binding(id) is Some,
            forall|other: NodeIdent|
                other != id ==> #[trigger] self.bound(id, node).registry.binding(other)
                    == self.registry.binding(other),
    {
    }
}

/// Merging a fully known shape with a compatible one leaves it as it is.
pub proof fn lemma_merged_known(a: ShapeView, b: ShapeView)
    requires
        crate::shape::fully_known(a),
        compatible(a, b),
    ensures
        merged(a, b) == a,
{
}

} // verus!
