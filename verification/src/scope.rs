//! The scope: the one object through which a graph is built.
//!
//! A scope owns the identity registry, the record of the nodes installed so
//! far, the calls written down for the backend, the names in use with their
//! counters, the stack of name prefixes, and the control dependencies that
//! are active. Nested scopes are entered and left on the same object, so
//! there is one writer at any time.

use vstd::prelude::*;
use crate::attr::{attribute_views, AttributeView, Values};
use crate::backend::{call_views, emit, lemma_call_views_add, BackendCall, Outcome};
use crate::descriptor::{
    check_attributes, check_description, check_output, constant_draft, lemma_attributes_prefix,
    list_views, output_views, value_view, Descriptor, DescriptorView, Draft, InputList,
    OutputSlot, OutputView,
};
use crate::error::Error;
use crate::graph::{
    lemma_candidates_counted, lemma_first_free_unique, output_tensors, FrameView,
    GraphView, NodeView,
};
use crate::kind::{NameRule, OpKind};
use crate::registry::{Binding, NodeIdent, Registry};
use crate::shape::{copied, ShapeHint};
use crate::tensor::Tensor;
use crate::text::{is_listed, joined, listed, numbered, numbered_name, views};

verus! {

/// The record of one installed node.
#[derive(Debug)]
pub struct Node {
    /// The node's identity.
    pub ident: NodeIdent,
    /// The operation kind.
    pub kind: OpKind,
    /// The node's full name, unique in the graph.
    pub name: String,
    /// What is known of each output.
    pub outputs: Vec<OutputSlot>,
}

impl View for Node {
    type V = NodeView;

    open spec fn view(&self) -> NodeView {
        NodeView {
            ident: self.ident,
            kind: self.kind,
            name: self.name@,
            outputs: output_views(self.outputs@),
        }
    }
}

/// The views of `nodes`, in order.
pub open spec fn node_views(nodes: Seq<Node>) -> Seq<NodeView> {
    Seq::new(nodes.len(), |i: int| nodes[i]@)
}

/// The next number to try for names that start from `base`.
#[derive(Debug)]
pub struct Counter {
    pub base: String,
    pub next: usize,
}

/// An enclosing scope, as it was when the nested scope was entered: its name
/// prefix, and how many control dependencies were active.
#[derive(Debug)]
pub struct Frame {
    pub prefix: String,
    pub control: usize,
}

impl View for Frame {
    type V = FrameView;

    open spec fn view(&self) -> FrameView {
        FrameView { prefix: self.prefix@, control: self.control as nat }
    }
}

/// The views of `frames`, in order.
pub open spec fn frame_views(frames: Seq<Frame>) -> Seq<FrameView> {
    Seq::new(frames.len(), |i: int| frames[i]@)
}

/// The names that `names` read, as a set.
pub open spec fn name_set(names: Seq<String>) -> Set<Seq<char>> {
    views(names).to_set()
}

/// A name is in the set exactly when one of the strings reads it; the set
/// is finite and no larger than the list.
pub proof fn lemma_name_set(names: Seq<String>)
    ensures
        forall|n: Seq<char>| #[trigger] name_set(names).contains(n) == listed(names, n),
        name_set(names).finite(),
        name_set(names).len() <= names.len(),
{
    let all = views(names);
    assert forall|n: Seq<char>| #[trigger] name_set(names).contains(n) == listed(names, n) by {
        if listed(names, n) {
            let i = choose|i: int| 0 <= i < names.len() && (#[trigger] names[i])@ == n;
            assert(all[i] == n);
        }
    }
    vstd::seq_lib::seq_to_set_is_finite(all);
    all.lemma_cardinality_of_set();
}

/// One more string adds the name that it reads.
pub proof fn lemma_name_set_push(names: Seq<String>, name: String)
    ensures
        name_set(names.push(name)) == name_set(names).insert(name@),
{
    lemma_name_set(names);
    lemma_name_set(names.push(name));
    let grown = names.push(name);
    assert forall|n: Seq<char>| listed(grown, n) <==> (listed(names, n) || n == name@) by {
        if listed(names, n) {
            let i = choose|i: int| 0 <= i < names.len() && (#[trigger] names[i])@ == n;
            assert(grown[i]@ == n);
        }
        if n == name@ {
            assert(grown[names.len() as int]@ == n);
        }
    }
}

/// Whether one of `counters` is for `base`.
pub open spec fn has_base(counters: Seq<Counter>, base: Seq<char>) -> bool {
    exists|i: int| 0 <= i < counters.len() && (#[trigger] counters[i]).base@ == base
}

/// The number that the counter for `base` stands at; zero where none of
/// `counters` is for `base`.
pub open spec fn counter_in(counters: Seq<Counter>, base: Seq<char>) -> nat
    decreases counters.len(),
{
    if counters.len() == 0 {
        0
    } else if counters.last().base@ == base {
        counters.last().next as nat
    } else {
        counter_in(counters.drop_last(), base)
    }
}

/// The counters as a map from bases to numbers.
pub open spec fn counter_map(counters: Seq<Counter>) -> Map<Seq<char>, nat> {
    Map::new(|b: Seq<char>| has_base(counters, b), |b: Seq<char>| counter_in(counters, b))
}

/// Whether no two of `counters` are for the same base.
pub open spec fn distinct_bases(counters: Seq<Counter>) -> bool {
    forall|i: int, j: int|
        0 <= i < j < counters.len() ==> (#[trigger] counters[i]).base@ != (
        #[trigger] counters[j]).base@
}

/// A counter that is for `base` gives the number for `base`.
pub proof fn lemma_counter_found(counters: Seq<Counter>, i: int)
    requires
        distinct_bases(counters),
        0 <= i < counters.len(),
    ensures
        counter_in(counters, counters[i].base@) == counters[i].next,
    decreases counters.len(),
{
    if i < counters.len() - 1 {
        let front = counters.drop_last();
        lemma_counter_found(front, i);
    }
}

/// Where no counter is for `base`, the number for `base` is zero.
pub proof fn lemma_counter_absent(counters: Seq<Counter>, base: Seq<char>)
    requires
        !has_base(counters, base),
    ensures
        counter_in(counters, base) == 0,
    decreases counters.len(),
{
    if counters.len() > 0 {
        let front = counters.drop_last();
        lemma_counter_absent(front, base);
    }
}

/// Replacing the number of one counter changes the number for its base and
/// for no other.
pub proof fn lemma_counter_replaced(
    counters: Seq<Counter>,
    i: int,
    replaced: Counter,
    base: Seq<char>,
)
    requires
        distinct_bases(counters),
        0 <= i < counters.len(),
        replaced.base@ == counters[i].base@,
    ensures
        distinct_bases(counters.update(i, replaced)),
        counter_in(counters.update(i, replaced), base) == if base == replaced.base@ {
            replaced.next as nat
        } else {
            counter_in(counters, base)
        },
    decreases counters.len(),
{
    let after = counters.update(i, replaced);
    if base == replaced.base@ {
        lemma_counter_found(after, i);
    } else {
        let front = counters.drop_last();
        if i == counters.len() - 1 {
            assert(after.drop_last() =~= front);
        } else {
            assert(after.drop_last() =~= front.update(i, replaced));
            lemma_counter_replaced(front, i, replaced, base);
        }
    }
}

/// Replacing the number of the counter for a base sets the base's entry of
/// the map.
pub proof fn lemma_counter_map_replaced(counters: Seq<Counter>, i: int, replaced: Counter)
    requires
        distinct_bases(counters),
        0 <= i < counters.len(),
        replaced.base@ == counters[i].base@,
    ensures
        counter_map(counters.update(i, replaced)) == counter_map(counters).insert(
            replaced.base@,
            replaced.next as nat,
        ),
{
    let after = counters.update(i, replaced);
    assert forall|b: Seq<char>| has_base(after, b) == (has_base(counters, b) || b
        == replaced.base@) by {
        if has_base(counters, b) {
            let j = choose|j: int| 0 <= j < counters.len() && (#[trigger] counters[j]).base@ == b;
            assert(after[j].base@ == b);
        }
    }
    assert forall|b: Seq<char>|
        counter_in(after, b) == if b == replaced.base@ {
            replaced.next as nat
        } else {
            counter_in(counters, b)
        } by {
        lemma_counter_replaced(counters, i, replaced, b);
    }
}

/// A counter for a new base adds the base's entry to the map.
pub proof fn lemma_counter_map_pushed(counters: Seq<Counter>, added: Counter)
    requires
        distinct_bases(counters),
        !has_base(counters, added.base@),
    ensures
        distinct_bases(counters.push(added)),
        counter_map(counters.push(added)) == counter_map(counters).insert(
            added.base@,
            added.next as nat,
        ),
{
    let after = counters.push(added);
    assert(after.drop_last() =~= counters);
    assert(after.last() == added);
}

/// The index of the counter for `base`, if there is one.
fn find_counter(counters: &Vec<Counter>, base: &String) -> (r: Option<usize>)
    ensures
        r matches Some(i) ==> i < counters.len() && counters@[i as int].base@ == base@,
        r is None ==> !has_base(counters@, base@),
{
    let mut i: usize = 0;
    while i < counters.len()
        invariant
            i <= counters.len(),
            forall|j: int| 0 <= j < i ==> (#[trigger] counters@[j]).base@ != base@,
        decreases counters.len() - i,
    {
        if counters[i].base == *base {
            return Some(i);
        }
        i += 1;
    }
    None
}

/// The scope through which a graph is built.
pub struct Scope {
    registry: Registry,
    nodes: Vec<Node>,
    calls: Vec<BackendCall>,
    used: Vec<String>,
    counters: Vec<Counter>,
    frames: Vec<Frame>,
    prefix: String,
    control: Vec<NodeIdent>,
}

impl View for Scope {
    type V = GraphView;

    closed spec fn view(&self) -> GraphView {
        GraphView {
            registry: self.registry@,
            nodes: node_views(self.nodes@),
            calls: call_views(self.calls@),
            used: name_set(self.used@),
            counters: counter_map(self.counters@),
            prefix: self.prefix@,
            control: self.control@,
            frames: frame_views(self.frames@),
        }
    }
}

impl Scope {
    /// The invariant of a scope: the graph that it holds satisfies the
    /// invariant of graphs, and there is one counter for each base.
    pub closed spec fn wf(&self) -> bool {
        &&& self@.wf()
        &&& distinct_bases(self.counters@)
    }

    /// The graph of a well-formed scope satisfies the invariant of graphs.
    pub proof fn lemma_wf(&self)
        requires
            self.wf(),
        ensures
            self@.wf(),
    {
    }

    /// The scope of an empty graph: no node, no call, no name in use, an
    /// empty prefix and no control dependency. Its registry has a token of
    /// its own.
    pub fn new() -> (s: Scope)
        ensures
            s.wf(),
            s@ == GraphView::empty(s@.registry.token),
    {
        let s = Scope {
            registry: Registry::new(),
            nodes: Vec::new(),
            calls: Vec::new(),
            used: Vec::new(),
            counters: Vec::new(),
            frames: Vec::new(),
            prefix: String::new(),
            control: Vec::new(),
        };
        proof {
            lemma_name_set(s.used@);
            assert(name_set(s.used@) =~= Set::<Seq<char>>::empty());
            assert(counter_map(s.counters@) =~= Map::<Seq<char>, nat>::empty());
            assert(node_views(s.nodes@) =~= Seq::<NodeView>::empty());
            assert(call_views(s.calls@) =~= Seq::empty());
            assert(frame_views(s.frames@) =~= Seq::<FrameView>::empty());
            GraphView::lemma_empty_wf(s@.registry.token);
        }
        s
    }

    /// The number of nodes installed so far.
    pub fn node_count(&self) -> (n: usize)
        ensures
            n == self@.nodes.len(),
    {
        self.nodes.len()
    }

    /// The record of the node at `place`, if there is one.
    pub fn node(&self, place: usize) -> (r: Option<&Node>)
        ensures
            r is Some <==> place < self@.nodes.len(),
            r matches Some(n) ==> n@ == self@.nodes[place as int],
    {
        if place < self.nodes.len() {
            Some(&self.nodes[place])
        } else {
            None
        }
    }

    /// The calls written down for the backend so far, in order.
    pub fn backend_calls(&self) -> (calls: &Vec<BackendCall>)
        ensures
            call_views(calls@) == self@.calls,
    {
        &self.calls
    }

    /// The prefix that the names of the current scope's nodes start with.
    pub fn prefix(&self) -> (p: &String)
        ensures
            p@ == self@.prefix,
    {
        &self.prefix
    }

    /// The identities that every node created now must run after.
    pub fn control_dependencies(&self) -> (c: &Vec<NodeIdent>)
        ensures
            c@ == self@.control,
    {
        &self.control
    }

    /// The number of scopes that enclose the current one.
    pub fn depth(&self) -> (n: usize)
        ensures
            n == self@.frames.len(),
    {
        self.frames.len()
    }

    /// Tells where the node of `t` stands in the record, if `t` is an output
    /// of an installed node and has that output's data type.
    pub fn locate(&self, t: Tensor) -> (r: Option<usize>)
        ensures
            r is Some <==> self@.owns(t),
            r matches Some(p) ==> self@.place(t) == Some(p as int),
    {
        match self.registry.find(t.ident) {
            None => None,
            Some(p) => {
                if p < self.nodes.len() && t.index < self.nodes[p].outputs.len()
                    && self.nodes[p].outputs[t.index].dtype == t.dtype {
                    Some(p)
                } else {
                    None
                }
            },
        }
    }

    /// Tells where the node of `id` stands in the record, if it is
    /// installed.
    pub fn place_of(&self, id: NodeIdent) -> (r: Option<usize>)
        ensures
            r == self@.registry.place(id),
    {
        self.registry.find(id)
    }

    /// Tells whether `t` is an output of a node of this graph.
    pub fn is_owned(&self, t: Tensor) -> (yes: bool)
        ensures
            yes == self@.owns(t),
    {
        self.locate(t).is_some()
    }

    /// Tells whether every one of `tensors` is an output of a node of this
    /// graph.
    pub fn owns_each(&self, tensors: &Vec<Tensor>) -> (yes: bool)
        ensures
            yes == self@.owns_all(tensors@),
    {
        let mut i: usize = 0;
        while i < tensors.len()
            invariant
                i <= tensors.len(),
                forall|j: int| 0 <= j < i ==> self@.owns(#[trigger] tensors@[j]),
            decreases tensors.len() - i,
        {
            if !self.is_owned(tensors[i]) {
                return false;
            }
            i += 1;
        }
        true
    }

    /// The backend node that `id` resolves to and the number of its outputs,
    /// once the backend has finished it; `None` while it has not.
    pub fn resolve(&self, id: NodeIdent) -> (b: Option<Binding>)
        ensures
            b == self@.registry.binding(id),
    {
        self.registry.resolve(id)
    }

    /// The best static knowledge of the shape of `t`.
    pub fn shape_hint(&self, t: Tensor) -> (s: ShapeHint)
        ensures
            s@ == self@.shape_of(t),
    {
        match self.locate(t) {
            None => ShapeHint::unknown(),
            Some(p) => self.nodes[p].outputs[t.index].shape.copy(),
        }
    }

    /// The elements of `t`, where they are integers known at build time.
    pub fn static_value(&self, t: Tensor) -> (v: Option<Vec<i64>>)
        ensures
            value_view(v) == self@.value_of(t),
    {
        match self.locate(t) {
            None => None,
            Some(p) => match &self.nodes[p].outputs[t.index].value {
                None => None,
                Some(x) => Some(copied(x)),
            },
        }
    }

    /// The kind of the node that produced `t`, if `t` is of this graph.
    pub fn kind_of(&self, t: Tensor) -> (k: Option<OpKind>)
        ensures
            k is Some <==> self@.owns(t),
            k matches Some(kind) ==> kind == self@.nodes[self@.place(t)->0].kind,
    {
        match self.locate(t) {
            None => None,
            Some(p) => Some(self.nodes[p].kind),
        }
    }

    /// Tells whether `name` is in use.
    pub fn is_used(&self, name: &String) -> (yes: bool)
        ensures
            yes == self@.used.contains(name@),
    {
        proof {
            lemma_name_set(self.used@);
        }
        is_listed(&self.used, name)
    }

    /// Takes the first free candidate name that starts from `base`, trying
    /// the numbers from the counter for `base` on, and moves the counter
    /// past it.
    fn pick_name(&mut self, base: String) -> (name: String)
        requires
            old(self).wf(),
        ensures
            final(self).wf(),
            name@ == old(self)@.free_name(base@),
            final(self)@ == old(self)@.with_free_name(base@),
    {
        let ghost pre = self@;
        let found = find_counter(&self.counters, &base);
        let start: usize = match found {
            Some(i) => self.counters[i].next,
            None => 0,
        };
        proof {
            match found {
                Some(i) => {
                    lemma_counter_found(self.counters@, i as int);
                },
                None => {
                    lemma_counter_absent(self.counters@, base@);
                },
            }
            pre.lemma_with_free_name(base@);
            lemma_name_set(self.used@);
            pre.lemma_wf();
            assert forall|j: nat| 0 <= j < start implies pre.used.contains(
                #[trigger] numbered(base@, j),
            ) by {
                pre.lemma_counter_below(base@, j);
            }
            lemma_candidates_counted(pre.used, base@, 0, start as nat);
        }
        let mut k: usize = start;
        let mut name = numbered_name(&base, k);
        while is_listed(&self.used, &name)
            invariant
                start <= k,
                name@ == numbered(base@, k as nat),
                forall|j: nat| 0 <= j < k ==> pre.used.contains(#[trigger] numbered(base@, j)),
                k <= self.used.len(),
                self.used@ == old(self).used@,
                pre.used == name_set(self.used@),
                pre.used.finite(),
                pre.used.len() <= self.used.len(),
            decreases self.used.len() - k,
        {
            proof {
                lemma_name_set(self.used@);
                lemma_candidates_counted(pre.used, base@, 0, (k + 1) as nat);
            }
            k += 1;
            name = numbered_name(&base, k);
        }
        proof {
            lemma_name_set(self.used@);
            lemma_first_free_unique(pre.used, base@, start as nat, k as nat);
            lemma_name_set_push(self.used@, name);
        }
        self.used.push(name.clone());
        assert(k < self.used.len());
        let next = k + 1;
        match found {
            Some(i) => {
                proof {
                    lemma_counter_map_replaced(self.counters@, i as int, Counter { base, next });
                    lemma_counter_replaced(
                        self.counters@,
                        i as int,
                        Counter { base, next },
                        base@,
                    );
                }
                self.counters.set(i, Counter { base, next });
            },
            None => {
                proof {
                    lemma_counter_map_pushed(self.counters@, Counter { base, next });
                }
                self.counters.push(Counter { base, next });
            },
        }
        name
    }

    /// Puts `name` in use.
    fn take_name(&mut self, name: String)
        requires
            old(self).wf(),
        ensures
            final(self).wf(),
            final(self)@ == old(self)@.with_name(name@),
    {
        proof {
            lemma_name_set_push(self.used@, name);
            old(self)@.lemma_with_name(name@);
        }
        self.used.push(name);
    }

    /// Issues an identity for a node that is yet to be described.
    pub fn allocate(&mut self) -> (id: NodeIdent)
        requires
            old(self).wf(),
        ensures
            final(self).wf(),
            id == old(self)@.registry.next(),
            old(self)@.registry.slots.len() < usize::MAX,
            final(self)@ == old(self)@.issued(),
    {
        let id = self.registry.allocate();
        proof {
            old(self)@.lemma_issued();
        }
        id
    }

    /// Tells whether every input, single or in a list, is an output of a
    /// node of this graph.
    pub fn owns_inputs_of(&self, inputs: &Vec<Tensor>, lists: &Vec<InputList>) -> (yes: bool)
        ensures
            yes == self@.owns_inputs(inputs@, list_views(lists@)),
    {
        if !self.owns_each(inputs) {
            return false;
        }
        let ghost lv = list_views(lists@);
        let mut j: usize = 0;
        while j < lists.len()
            invariant
                j <= lists.len(),
                lv == list_views(lists@),
                forall|k: int| 0 <= k < j ==> self@.owns_all((#[trigger] lv[k]).members),
            decreases lists.len() - j,
        {
            if !self.owns_each(&lists[j].members) {
                assert(!self@.owns_all(lv[j as int].members));
                return false;
            }
            j += 1;
        }
        true
    }

    /// The failure that what the graph holds gives rise to for a node with
    /// these inputs and this chosen name, if any.
    pub fn check_graph(&self, inputs: &Vec<Tensor>, lists: &Vec<InputList>, name: &str) -> (r:
        Option<Error>)
        ensures
            r == self@.graph_fault(inputs@, list_views(lists@), crate::descriptor::chosen(name@)),
    {
        if !self.owns_inputs_of(inputs, lists) {
            return Some(Error::UnknownTensor);
        }
        if !name.is_empty() {
            let full = joined(&self.prefix, name);
            if self.is_used(&full) {
                return Some(Error::DuplicateName);
            }
        }
        None
    }

    /// The name that a node of kind `kind` with the single inputs `inputs`
    /// takes when the caller gives none, before the prefix and the number.
    pub fn default_name_of(&self, kind: OpKind, inputs: &Vec<Tensor>) -> (name: &'static str)
        ensures
            name@ == self@.default_name(kind, inputs@),
    {
        match kind.digest_name_rule() {
            NameRule::Own => kind.backend_name(),
            NameRule::Input(n) => {
                if n < inputs.len() {
                    match self.locate(inputs[n]) {
                        Some(p) => self.nodes[p].kind.backend_name(),
                        None => kind.backend_name(),
                    }
                } else {
                    kind.backend_name()
                }
            },
        }
    }

    /// Installs the node that `d` describes: resolves its name, writes down
    /// the calls that create it, records the node and places its identity.
    /// It returns one tensor for each output. On a failure the graph is as it
    /// was before.
    pub fn install(&mut self, d: Descriptor) -> (r: Result<Vec<Tensor>, Error>)
        requires
            old(self).wf(),
            d@.valid(),
        ensures
            final(self).wf(),
            final(self)@ == old(self)@.install(d@).0,
            match r {
                Ok(outs) => old(self)@.install(d@).1 == Ok::<Seq<Tensor>, Error>(outs@),
                Err(e) => old(self)@.install(d@).1 == Err::<Seq<Tensor>, Error>(e),
            },
    {
        let ghost dv = d@;
        let ghost pre = self@;
        let parts = d.into_parts();
        let ident = parts.ident;
        if !(self.registry.is_issued(ident) && self.registry.find(ident).is_none()) {
            return Err(Error::DuplicateIdentity);
        }
        if !self.owns_inputs_of(&parts.inputs, &parts.lists) {
            return Err(Error::UnknownTensor);
        }
        let name = match &parts.name {
            Some(n) => {
                let full = joined(&self.prefix, n.as_str());
                if self.is_used(&full) {
                    return Err(Error::DuplicateName);
                }
                self.take_name(full.clone());
                full
            },
            None => {
                let base = joined(&self.prefix, self.default_name_of(parts.kind, &parts.inputs));
                self.pick_name(base)
            },
        };
        let mut outs: Vec<Tensor> = Vec::new();
        let mut i: usize = 0;
        while i < parts.outputs.len()
            invariant
                i <= parts.outputs.len(),
                parts@ == dv,
                ident == dv.ident,
                outs@ == output_tensors(dv).take(i as int),
            decreases parts.outputs.len() - i,
        {
            outs.push(Tensor { ident, index: i, dtype: parts.outputs[i].dtype });
            i += 1;
        }
        assert(output_tensors(dv).take(i as int) =~= output_tensors(dv));
        let mut batch = emit(
            ident,
            parts.kind,
            name.clone(),
            parts.attributes,
            &parts.inputs,
            &parts.lists,
            &self.control,
        );
        proof {
            lemma_call_views_add(self.calls@, batch@);
        }
        self.calls.append(&mut batch);
        let place = self.nodes.len();
        let node = Node { ident, kind: parts.kind, name, outputs: parts.outputs };
        let ghost nv = node@;
        self.nodes.push(node);
        let count = self.nodes.len();
        self.registry.settle_place(ident, place);
        proof {
            assert(node_views(self.nodes@) =~= pre.nodes.push(nv));
            assert(pre.registry.slots[ident.slot as int].binding is None) by {
                pre.lemma_wf();
                if pre.registry.slots[ident.slot as int].binding is Some {
                    pre.lemma_bound_placed(ident);
                }
            }
            pre.lemma_installed(dv);
        }
        Ok(outs)
    }

    /// Describes and installs a node in one go, and returns its first
    /// output. On a failure the graph is as it was before.
    pub fn add(&mut self, draft: Draft) -> (r: Result<Tensor, Error>)
        requires
            old(self).wf(),
        ensures
            final(self).wf(),
            (final(self)@, r) == old(self)@.add(draft@),
            final(self)@.grows_from(old(self)@),
            r matches Ok(t) ==> {
                &&& final(self)@.knows(t, draft@.dtype(), draft@.shape)
                &&& final(self)@.value_of(t) == draft@.value
            },
            r is Err ==> final(self)@ == old(self)@,
    {
        let ghost pre = self@;
        let ghost dv = draft@;
        proof {
            reveal(GraphView::add);
            pre.lemma_grows_reflexive();
        }
        match check_description(
            draft.kind,
            &draft.inputs,
            &draft.lists,
            draft.name.as_str(),
            draft.declared,
        ) {
            Some(e) => {
                return Err(e);
            },
            None => {},
        }
        match self.check_graph(&draft.inputs, &draft.lists, draft.name.as_str()) {
            Some(e) => {
                return Err(e);
            },
            None => {},
        }
        match check_attributes(&draft.attributes) {
            Some(e) => {
                return Err(e);
            },
            None => {},
        }
        match check_output(&draft.shape, &draft.value) {
            Some(e) => {
                return Err(e);
            },
            None => {},
        }
        let ident = self.allocate();
        proof {
            pre.lemma_issued();
        }
        let Draft { kind, name, inputs, lists, declared, attributes, shape, value } = draft;
        let mut d = Descriptor::assemble(ident, kind, inputs, lists, name.as_str(), declared);
        let ghost base = d@;
        let ghost all = attributes@;
        assert(attribute_views(all.take(0)) =~= Seq::<AttributeView>::empty());
        for attr in it: attributes.into_iter()
            invariant
                it.seq() == all,
                d@.valid(),
                d@ == (DescriptorView { attributes: attribute_views(all.take(it.index())), ..base }),
                crate::descriptor::attributes_fault(attribute_views(all)) is None,
        {
            proof {
                let done = it.index();
                assert(attribute_views(all.take(done + 1)) =~= attribute_views(all.take(done)).push(
                    attr@,
                ));
                lemma_attributes_prefix(attribute_views(all), done + 1);
                assert(attribute_views(all).take(done + 1) =~= attribute_views(
                    all.take(done + 1),
                ));
                assert(attribute_views(all.take(done + 1)).drop_last() =~= attribute_views(
                    all.take(done),
                ));
            }
            match d.with_attribute(attr) {
                Ok(next) => {
                    d = next;
                },
                Err(e) => {
                    assert(false);
                    return Err(e);
                },
            }
        }
        assert(all.take(all.len() as int) =~= all);
        let d = match d.with_output(shape, value) {
            Ok(d) => d,
            Err(e) => {
                assert(false);
                return Err(e);
            },
        };
        assert(d@.outputs =~= dv.described(ident).outputs);
        match self.install(d) {
            Ok(outs) => {
                proof {
                    old(self).lemma_wf();
                    self.lemma_wf();
                    pre.lemma_add_known(dv, self@, Ok(outs@[0]));
                }
                Ok(outs[0])
            },
            Err(e) => {
                assert(false);
                Err(e)
            },
        }
    }

    /// Enters a nested scope. The scope is named after `hint`, or after
    /// `fallback` where `hint` is empty; the name is made unique among the
    /// names in use. It fails, and changes nothing, where the name holds a
    /// NUL character.
    pub fn child(&mut self, hint: &str, fallback: &str) -> (r: Result<(), Error>)
        requires
            old(self).wf(),
        ensures
            final(self).wf(),
            (final(self)@, r) == old(self)@.enter(hint@, fallback@),
    {
        let wanted = if hint.is_empty() {
            fallback
        } else {
            hint
        };
        if crate::text::has_nul(wanted) {
            return Err(Error::NulError);
        }
        let ghost pre = self@;
        let base = joined(&self.prefix, wanted);
        let before = self.prefix.clone();
        let depth = self.control.len();
        let name = self.pick_name(base);
        proof {
            reveal_strlit("/");
        }
        let prefix = joined(&name, "/");
        assert(prefix@ =~= name@.push(crate::text::separator()));
        self.frames.push(Frame { prefix: before, control: depth });
        self.prefix = prefix;
        proof {
            assert(frame_views(self.frames@) =~= pre.frames.push(
                FrameView { prefix: pre.prefix, control: pre.control.len() },
            ));
            pre.lemma_entered(wanted@);
        }
        Ok(())
    }

    /// Leaves the current scope for the one that encloses it: the prefix is
    /// that of the enclosing scope again, and the control dependencies that
    /// were added in the scope are dropped. Leaving the outermost scope
    /// changes nothing.
    pub fn exit(&mut self)
        requires
            old(self).wf(),
        ensures
            final(self).wf(),
            final(self)@ == old(self)@.left(),
    {
        let ghost pre = self@;
        proof {
            pre.lemma_left();
            pre.lemma_wf();
        }
        match self.frames.pop() {
            None => {
            },
            Some(frame) => {
                self.control.truncate(frame.control);
                self.prefix = frame.prefix;
                proof {
                    assert(frame_views(self.frames@) =~= pre.frames.drop_last());
                }
            },
        }
    }

    /// Makes the node that produced `t` a control dependency of the current
    /// scope and of the scopes nested in it from now on. It fails, and
    /// changes nothing, where that node is not installed in this graph.
    pub fn add_control_dependency(&mut self, t: Tensor) -> (r: Result<(), Error>)
        requires
            old(self).wf(),
        ensures
            final(self).wf(),
            (final(self)@, r) == old(self)@.depend(t.ident),
    {
        let ghost pre = self@;
        if self.registry.find(t.ident).is_none() {
            return Err(Error::UnknownTensor);
        }
        let mut i: usize = 0;
        while i < self.control.len()
            invariant
                i <= self.control.len(),
                self.wf(),
                self@ == pre,
                self.control@ == pre.control,
                pre.registry.place(t.ident) is Some,
                forall|j: int| 0 <= j < i ==> pre.control[j] != t.ident,
            decreases self.control.len() - i,
        {
            if self.control[i] == t.ident {
                return Ok(());
            }
            i += 1;
        }
        self.control.push(t.ident);
        proof {
            pre.lemma_depending(t.ident);
        }
        Ok(())
    }

    /// Asserts `shape` of `t`: what the graph knows of the shape of `t`
    /// becomes the merge of what it knew and `shape`. It fails, and changes
    /// nothing, where `t` is not of this graph, where a size of `shape` is
    /// negative, and where `shape` contradicts what is known.
    pub fn assert_shape(&mut self, t: Tensor, shape: &ShapeHint) -> (r: Result<(), Error>)
        requires
            old(self).wf(),
        ensures
            final(self).wf(),
            (final(self)@, r) == old(self)@.assert_shape(t, shape@),
    {
        let ghost pre = self@;
        let p = match self.locate(t) {
            None => {
                return Err(Error::UnknownTensor);
            },
            Some(p) => p,
        };
        if !shape.is_well_formed() {
            return Err(Error::MalformedShape);
        }
        let known = &self.nodes[p].outputs[t.index].shape;
        if !known.is_compatible(shape) {
            return Err(Error::ShapeMismatch);
        }
        let merged = known.merge(shape);
        let node = &self.nodes[p];
        let mut outputs: Vec<OutputSlot> = Vec::new();
        let mut k: usize = 0;
        while k < node.outputs.len()
            invariant
                k <= node.outputs.len(),
                t.index < node.outputs.len(),
                outputs@.len() == k,
                forall|j: int|
                    0 <= j < k ==> (#[trigger] outputs@[j])@ == if j == t.index {
                        OutputView { shape: merged@, ..node.outputs@[j]@ }
                    } else {
                        node.outputs@[j]@
                    },
            decreases node.outputs.len() - k,
        {
            let slot = &node.outputs[k];
            let shape = if k == t.index {
                merged.copy()
            } else {
                slot.shape.copy()
            };
            let value = match &slot.value {
                None => None,
                Some(v) => Some(copied(v)),
            };
            outputs.push(OutputSlot { dtype: slot.dtype, shape, value });
            k += 1;
        }
        let replaced = Node { ident: node.ident, kind: node.kind, name: node.name.clone(), outputs };
        proof {
            assert(replaced@.outputs =~= pre.nodes[p as int].outputs.update(
                t.index as int,
                OutputView { shape: merged@, ..pre.nodes[p as int].outputs[t.index as int] },
            ));
        }
        self.nodes.set(p, replaced);
        proof {
            assert(node_views(self.nodes@) =~= pre.shaped(t, shape@).nodes);
            pre.lemma_shaped(t, shape@);
        }
        Ok(())
    }

    /// Takes the backend's answer for the node of `id`, which is installed
    /// and was not answered for before. Where the backend finished the node,
    /// the identity is bound to it; where it refused, its status comes back
    /// as the failure and the identity stays unresolved.
    pub fn settle(&mut self, id: NodeIdent, outcome: Outcome) -> (r: Result<(), Error>)
        requires
            old(self).wf(),
            old(self)@.pending(id),
        ensures
            final(self).wf(),
            (final(self)@, r) == old(self)@.settle(id, outcome),
    {
        let ghost pre = self@;
        match outcome {
            Outcome::Failed(status) => Err(Error::TFError(status)),
            Outcome::Finished(node) => {
                proof {
                    pre.lemma_wf();
                }
                let place = self.registry.find(id).unwrap();
                let outputs = self.nodes[place].outputs.len();
                self.registry.bind(id, node, outputs);
                proof {
                    pre.lemma_bound(id, node);
                }
                Ok(())
            },
        }
    }

    /// Tells whether the node of `id` is installed and the backend has not
    /// yet answered for it.
    pub fn is_pending(&self, id: NodeIdent) -> (yes: bool)
        ensures
            yes == self@.pending(id),
    {
        self.registry.find(id).is_some() && self.registry.resolve(id).is_none()
    }

    /// Installs a constant with the elements `values` and the sizes `sizes`
    /// under the name `name`, or under a name of the scope's choice where
    /// `name` is empty. It fails, and changes nothing, with `NulError` where
    /// the name or a string element holds a NUL character, with
    /// `DuplicateName` where the name is in use, with `MalformedShape` where
    /// a size is negative, and with `TypeMismatch` where the elements are
    /// not those of a tensor of that type and those sizes.
    pub fn constant(&mut self, values: Values, sizes: Vec<i64>, name: &str) -> (r: Result<
        Tensor,
        Error,
    >)
        requires
            old(self).wf(),
        ensures
            final(self).wf(),
            (final(self)@, r) == old(self)@.add(constant_draft(values@, sizes@, name@)),
            final(self)@.grows_from(old(self)@),
            r matches Ok(t) ==> {
                &&& final(self)@.knows(t, values@.dtype(), crate::shape::exact_shape(sizes@))
                &&& final(self)@.value_of(t) == values@.integers()
            },
            r is Err ==> final(self)@ == old(self)@,
    {
        self.add(Draft::constant(values, sizes, name))
    }
}

impl Tensor {
    /// The best static knowledge of the shape of this tensor in the graph of
    /// `scope`.
    pub fn get_shape(&self, scope: &Scope) -> (s: ShapeHint)
        ensures
            s@ == scope@.shape_of(*self),
    {
        scope.shape_hint(*self)
    }

    /// Asserts `shape` of this tensor in the graph of `scope`, and returns
    /// the tensor. It fails where [`Scope::assert_shape`] fails.
    pub fn set_shape(self, scope: &mut Scope, shape: &ShapeHint) -> (r: Result<Tensor, Error>)
        requires
            old(scope).wf(),
        ensures
            final(scope).wf(),
            final(scope)@ == old(scope)@.assert_shape(self, shape@).0,
            match r {
                Ok(t) => t == self && old(scope)@.assert_shape(self, shape@).1 is Ok,
                Err(e) => old(scope)@.assert_shape(self, shape@).1 == Err::<(), Error>(e),
            },
    {
        match scope.assert_shape(self, shape) {
            Ok(()) => Ok(self),
            Err(e) => Err(e),
        }
    }
}

} // verus!
