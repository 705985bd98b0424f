//! The description of one operation before it is installed.
//!
//! Making a description is the one place where an operation is validated:
//! a description that exists is well-formed, and installing it can only fail
//! on what the graph holds at that moment.

use vstd::prelude::*;
use crate::attr::{
    attribute_views, AttrValue, AttrValueView, Attribute, AttributeView, Values, ValuesView,
};
use crate::dtype::DataType;
use crate::error::Error;
use crate::kind::{OpKind, OutputRule};
use crate::graph::GraphView;
use crate::registry::NodeIdent;
use crate::scope::Scope;
use crate::shape::{
    count_elements, element_count, exact_shape, fully_known, known_sizes,
    lemma_element_count_sign, shape_well_formed, ShapeHint, ShapeView,
};
use crate::tensor::{homogeneous, is_homogeneous, Tensor};
use crate::text::{has_nul, holds_nul};

verus! {

/// A group of inputs that the backend takes as one argument, and the
/// position of that argument among all arguments of the node.
#[derive(Debug)]
pub struct InputList {
    pub position: usize,
    pub members: Vec<Tensor>,
}

/// What an [`InputList`] stands for.
pub struct InputListView {
    pub position: nat,
    pub members: Seq<Tensor>,
}

impl View for InputList {
    type V = InputListView;

    open spec fn view(&self) -> InputListView {
        InputListView { position: self.position as nat, members: self.members@ }
    }
}

/// The views of `lists`, in order.
pub open spec fn list_views(lists: Seq<InputList>) -> Seq<InputListView> {
    Seq::new(lists.len(), |i: int| lists[i]@)
}

/// What is known of one output of a node before the graph runs.
#[derive(Debug)]
pub struct OutputSlot {
    /// The data type of the elements.
    pub dtype: DataType,
    /// The best static knowledge of the shape.
    pub shape: ShapeHint,
    /// The elements, where they are integers that are known at build time.
    pub value: Option<Vec<i64>>,
}

/// What an [`OutputSlot`] stands for.
pub struct OutputView {
    pub dtype: DataType,
    pub shape: ShapeView,
    pub value: Option<Seq<i64>>,
}

impl View for OutputSlot {
    type V = OutputView;

    open spec fn view(&self) -> OutputView {
        OutputView {
            dtype: self.dtype,
            shape: self.shape@,
            value: value_view(self.value),
        }
    }
}

/// The elements of `value`, where it holds any.
pub open spec fn value_view(value: Option<Vec<i64>>) -> Option<Seq<i64>> {
    match value {
        None => None,
        Some(v) => Some(v@),
    }
}

/// The views of `outputs`, in order.
pub open spec fn output_views(outputs: Seq<OutputSlot>) -> Seq<OutputView> {
    Seq::new(outputs.len(), |i: int| outputs[i]@)
}

impl OutputView {
    /// No known size is negative, and a known value has exactly the elements
    /// of the shape, which is then fully known and whose element count fits
    /// 64 signed bits.
    pub open spec fn consistent(self) -> bool {
        &&& shape_well_formed(self.shape)
        &&& self.value matches Some(v) ==> {
            &&& fully_known(self.shape)
            &&& element_count(known_sizes(self.shape)) <= i64::MAX
            &&& v.len() == element_count(known_sizes(self.shape))
        }
    }
}

/// What a [`Descriptor`] stands for.
pub struct DescriptorView {
    /// The identity that the node will have.
    pub ident: NodeIdent,
    /// The operation kind.
    pub kind: OpKind,
    /// The name that the caller chose, if any.
    pub name: Option<Seq<char>>,
    /// The single inputs, in order.
    pub inputs: Seq<Tensor>,
    /// The input lists, in the order of their positions.
    pub lists: Seq<InputListView>,
    /// The attributes, in the order in which they were added.
    pub attributes: Seq<AttributeView>,
    /// What is known of the outputs.
    pub outputs: Seq<OutputView>,
}

/// Whether every list stands where an argument can stand: each at or before
/// the place that the single inputs and the lists before it can reach, and
/// each after the list before it.
pub open spec fn positioned(lists: Seq<InputListView>, singles: nat) -> bool {
    forall|j: int|
        0 <= j < lists.len() ==> {
            &&& (#[trigger] lists[j]).position <= singles + j
            &&& j > 0 ==> lists[j - 1].position < lists[j].position
        }
}

/// Whether every list has a member.
pub open spec fn populated(lists: Seq<InputListView>) -> bool {
    forall|j: int| 0 <= j < lists.len() ==> (#[trigger] lists[j]).members.len() > 0
}

/// Whether the members of every list share one data type.
pub open spec fn uniform(lists: Seq<InputListView>) -> bool {
    forall|j: int| 0 <= j < lists.len() ==> homogeneous((#[trigger] lists[j]).members)
}

/// Whether the numbers of inputs, of lists and of their members are what the
/// kind takes, and a type is declared exactly where the kind asks for one.
pub open spec fn counted(
    kind: OpKind,
    inputs: Seq<Tensor>,
    lists: Seq<InputListView>,
    declared: Option<DataType>,
) -> bool {
    &&& inputs.len() == kind.spec_arity()
    &&& lists.len() == kind.spec_lists()
    &&& populated(lists)
    &&& positioned(lists, inputs.len())
    &&& declared is Some <==> kind.spec_output_rule() == OutputRule::Declared
}

/// The failure that describing an operation gives rise to whatever the graph
/// holds, if any: mixed data types within a list first, then a wrong count,
/// then a NUL character in the name.
pub open spec fn description_fault(
    kind: OpKind,
    inputs: Seq<Tensor>,
    lists: Seq<InputListView>,
    name: Seq<char>,
    declared: Option<DataType>,
) -> Option<Error> {
    if !uniform(lists) {
        Some(Error::InputTypeMismatch)
    } else if !counted(kind, inputs, lists, declared) {
        Some(Error::ArgumentCount)
    } else if holds_nul(name) {
        Some(Error::NulError)
    } else {
        None
    }
}

/// The data type of the outputs of a node, by the rule of its kind.
pub open spec fn output_type(
    kind: OpKind,
    inputs: Seq<Tensor>,
    lists: Seq<InputListView>,
    declared: Option<DataType>,
) -> DataType {
    match kind.spec_output_rule() {
        OutputRule::SameAsInput(n) => inputs[n as int].dtype,
        OutputRule::SameAsList(n) => lists[n as int].members[0].dtype,
        OutputRule::Fixed(t) => t,
        OutputRule::Declared => declared->0,
    }
}

/// Whether no two of `attrs` have the same key.
pub open spec fn distinct_keys(attrs: Seq<AttributeView>) -> bool {
    forall|i: int, j: int|
        0 <= i < j < attrs.len() ==> (#[trigger] attrs[i]).key != (#[trigger] attrs[j]).key
}

/// Whether one of `attrs` has the key `key`.
pub open spec fn has_key(attrs: Seq<AttributeView>, key: Seq<char>) -> bool {
    exists|i: int| 0 <= i < attrs.len() && (#[trigger] attrs[i]).key == key
}

impl DescriptorView {
    /// The type that the description declares for its outputs, where the
    /// kind asks for one.
    pub open spec fn declared(self) -> Option<DataType> {
        if self.kind.spec_output_rule() == OutputRule::Declared {
            Some(self.outputs[0].dtype)
        } else {
            None
        }
    }

    /// What holds of every description: the inputs and lists are what the
    /// kind takes, each list has one data type, no name or string holds a
    /// NUL character, the attributes are well-formed and their keys
    /// differ, and the outputs are as many as the kind has, of the type that
    /// its rule gives, with consistent shapes and values.
    pub open spec fn valid(self) -> bool {
        &&& self.outputs.len() == self.kind.spec_outputs()
        &&& description_fault(
            self.kind,
            self.inputs,
            self.lists,
            match self.name {
                Some(n) => n,
                None => Seq::empty(),
            },
            self.declared(),
        ) is None
        &&& self.name matches Some(n) ==> n.len() > 0
        &&& forall|i: int| 0 <= i < self.attributes.len() ==> (#[trigger] self.attributes[i]).valid()
        &&& distinct_keys(self.attributes)
        &&& forall|k: int|
            0 <= k < self.outputs.len() ==> {
                &&& (#[trigger] self.outputs[k]).consistent()
                &&& self.outputs[k].dtype == output_type(
                    self.kind,
                    self.inputs,
                    self.lists,
                    self.declared(),
                )
            }
    }
}

/// The name that the caller chose: none where `name` is empty.
pub open spec fn chosen(name: Seq<char>) -> Option<Seq<char>> {
    if name.len() == 0 {
        None
    } else {
        Some(name)
    }
}

/// The description that [`Descriptor::new`] makes under the identity `ident`.
pub open spec fn made(
    ident: NodeIdent,
    kind: OpKind,
    inputs: Seq<Tensor>,
    lists: Seq<InputListView>,
    name: Seq<char>,
    declared: Option<DataType>,
) -> DescriptorView {
    DescriptorView {
        ident,
        kind,
        name: chosen(name),
        inputs,
        lists,
        attributes: Seq::empty(),
        outputs: seq![
            OutputView { dtype: output_type(kind, inputs, lists, declared), shape: None, value: None },
        ],
    }
}

/// The failure that describing an operation for the graph `graph` gives
/// rise to, if any: the fault of the description first, then the fault of
/// the graph.
pub open spec fn making_fault(
    graph: GraphView,
    kind: OpKind,
    inputs: Seq<Tensor>,
    lists: Seq<InputListView>,
    name: Seq<char>,
    declared: Option<DataType>,
) -> Option<Error> {
    if description_fault(kind, inputs, lists, name, declared) is Some {
        description_fault(kind, inputs, lists, name, declared)
    } else {
        graph.graph_fault(inputs, lists, chosen(name))
    }
}

/// The failure that adding `attrs` one after the other to a description
/// without attributes gives rise to, if any: for the first attribute that
/// has a fault or repeats a key, its fault, or `ArgumentCount` for the
/// repeated key.
pub open spec fn attributes_fault(attrs: Seq<AttributeView>) -> Option<Error>
    decreases attrs.len(),
{
    if attrs.len() == 0 {
        None
    } else if attributes_fault(attrs.drop_last()) is Some {
        attributes_fault(attrs.drop_last())
    } else if attrs.last().fault() is Some {
        attrs.last().fault()
    } else if has_key(attrs.drop_last(), attrs.last().key) {
        Some(Error::ArgumentCount)
    } else {
        None
    }
}

/// Attributes without a fault are each valid, and their keys differ.
pub proof fn lemma_attributes_fault(attrs: Seq<AttributeView>)
    requires
        attributes_fault(attrs) is None,
    ensures
        forall|i: int| 0 <= i < attrs.len() ==> (#[trigger] attrs[i]).valid(),
        distinct_keys(attrs),
    decreases attrs.len(),
{
    if attrs.len() > 0 {
        let front = attrs.drop_last();
        lemma_attributes_fault(front);
        assert forall|i: int| 0 <= i < attrs.len() implies (#[trigger] attrs[i]).valid() by {
            if i < front.len() {
                assert(front[i] == attrs[i]);
            }
        }
        assert forall|i: int, j: int| 0 <= i < j < attrs.len() implies (#[trigger] attrs[i]).key != (
        #[trigger] attrs[j]).key by {
            assert(front[i] == attrs[i]);
            if j < front.len() {
                assert(front[j] == attrs[j]);
            }
        }
    }
}

/// The failure that stating `shape` and `value` of an output gives rise to,
/// if any: `MalformedShape` for a negative size, `TypeMismatch` for a value
/// that is not the elements of the shape.
pub open spec fn output_fault(shape: ShapeView, value: Option<Seq<i64>>) -> Option<Error> {
    if !shape_well_formed(shape) {
        Some(Error::MalformedShape)
    } else if !(OutputView { dtype: DataType::Int32, shape, value }).consistent() {
        Some(Error::TypeMismatch)
    } else {
        None
    }
}

/// A fault among the first attributes is the fault of all of them.
pub proof fn lemma_attributes_fault_prefix(attrs: Seq<AttributeView>, n: int)
    requires
        0 <= n <= attrs.len(),
        attributes_fault(attrs.take(n)) is Some,
    ensures
        attributes_fault(attrs) == attributes_fault(attrs.take(n)),
    decreases attrs.len(),
{
    if n == attrs.len() {
        assert(attrs.take(n) =~= attrs);
    } else {
        assert(attrs.drop_last().take(n) =~= attrs.take(n));
        lemma_attributes_fault_prefix(attrs.drop_last(), n);
    }
}

/// Where attributes have no fault, neither have the first `n` of them: the
/// last of these has no fault of its own and repeats no key.
pub proof fn lemma_attributes_prefix(attrs: Seq<AttributeView>, n: int)
    requires
        0 < n <= attrs.len(),
        attributes_fault(attrs) is None,
    ensures
        attributes_fault(attrs.take(n)) is None,
        attrs[n - 1].fault() is None,
        !has_key(attrs.take(n - 1), attrs[n - 1].key),
{
    if attributes_fault(attrs.take(n)) is Some {
        lemma_attributes_fault_prefix(attrs, n);
    }
    assert(attrs.take(n).drop_last() =~= attrs.take(n - 1));
}

/// The failure that adding `attrs` one after the other gives rise to, if
/// any.
pub fn check_attributes(attrs: &Vec<Attribute>) -> (r: Option<Error>)
    ensures
        r == attributes_fault(attribute_views(attrs@)),
{
    let ghost all = attribute_views(attrs@);
    let mut i: usize = 0;
    while i < attrs.len()
        invariant
            i <= attrs.len(),
            all == attribute_views(attrs@),
            attributes_fault(all.take(i as int)) is None,
        decreases attrs.len() - i,
    {
        proof {
            assert(all.take(i + 1).drop_last() =~= all.take(i as int));
        }
        match attrs[i].check() {
            Some(e) => {
                proof {
                    lemma_attributes_fault_prefix(all, i + 1);
                }
                return Some(e);
            },
            None => {},
        }
        let mut j: usize = 0;
        while j < i
            invariant
                j <= i,
                i < attrs.len(),
                all == attribute_views(attrs@),
                attributes_fault(all.take(i as int)) is None,
                all.take(i + 1).drop_last() == all.take(i as int),
                all.take(i + 1).last() == all[i as int],
                all[i as int].fault() is None,
                forall|k: int| 0 <= k < j ==> (#[trigger] all.take(i as int)[k]).key != all[i as int].key,
            decreases i - j,
        {
            if attrs[j].key == attrs[i].key {
                proof {
                    assert(all.take(i as int)[j as int].key == all[i as int].key);
                    lemma_attributes_fault_prefix(all, i + 1);
                }
                return Some(Error::ArgumentCount);
            }
            j += 1;
        }
        i += 1;
    }
    assert(all.take(i as int) =~= all);
    None
}

/// The failure that stating `shape` and `value` of an output gives rise to,
/// if any.
pub fn check_output(shape: &ShapeHint, value: &Option<Vec<i64>>) -> (r: Option<Error>)
    ensures
        r == output_fault(shape@, value_view(*value)),
{
    if !shape.is_well_formed() {
        return Some(Error::MalformedShape);
    }
    match value {
        Some(v) => {
            match shape.sizes() {
                None => {
                    return Some(Error::TypeMismatch);
                },
                Some(sizes) => {
                    proof {
                        lemma_element_count_sign(sizes@);
                    }
                    match count_elements(&sizes) {
                        None => {
                            return Some(Error::TypeMismatch);
                        },
                        Some(n) => {
                            if n as u64 != v.len() as u64 {
                                return Some(Error::TypeMismatch);
                            }
                        },
                    }
                },
            }
        },
        None => {},
    }
    None
}

/// An operation as the caller asks for it, before anything was checked: its
/// kind, the name chosen for it (empty for none), its inputs, the data type
/// declared for its outputs where the kind asks for one, its attributes, and
/// what the caller knows of its first output.
#[derive(Debug)]
pub struct Draft {
    pub kind: OpKind,
    pub name: String,
    pub inputs: Vec<Tensor>,
    pub lists: Vec<InputList>,
    pub declared: Option<DataType>,
    pub attributes: Vec<Attribute>,
    pub shape: ShapeHint,
    pub value: Option<Vec<i64>>,
}

/// What a [`Draft`] stands for.
pub struct DraftView {
    pub kind: OpKind,
    pub name: Seq<char>,
    pub inputs: Seq<Tensor>,
    pub lists: Seq<InputListView>,
    pub declared: Option<DataType>,
    pub attributes: Seq<AttributeView>,
    pub shape: ShapeView,
    pub value: Option<Seq<i64>>,
}

impl View for Draft {
    type V = DraftView;

    open spec fn view(&self) -> DraftView {
        DraftView {
            kind: self.kind,
            name: self.name@,
            inputs: self.inputs@,
            lists: list_views(self.lists@),
            declared: self.declared,
            attributes: attribute_views(self.attributes@),
            shape: self.shape@,
            value: value_view(self.value),
        }
    }
}

impl DraftView {
    /// The data type of the outputs, by the rule of the kind.
    pub open spec fn dtype(self) -> DataType {
        output_type(self.kind, self.inputs, self.lists, self.declared)
    }

    /// The failure that the draft gives rise to in the graph `graph`, if
    /// any: the fault of the description first, then the fault of the
    /// graph, then the fault of the attributes, then the fault of the
    /// output.
    pub open spec fn fault(self, graph: GraphView) -> Option<Error> {
        if making_fault(graph, self.kind, self.inputs, self.lists, self.name, self.declared) is Some {
            making_fault(graph, self.kind, self.inputs, self.lists, self.name, self.declared)
        } else if attributes_fault(self.attributes) is Some {
            attributes_fault(self.attributes)
        } else {
            output_fault(self.shape, self.value)
        }
    }

    /// The description that the draft becomes under the identity `ident`.
    pub open spec fn described(self, ident: NodeIdent) -> DescriptorView {
        DescriptorView {
            ident,
            kind: self.kind,
            name: chosen(self.name),
            inputs: self.inputs,
            lists: self.lists,
            attributes: self.attributes,
            outputs: seq![OutputView { dtype: self.dtype(), shape: self.shape, value: self.value }],
        }
    }

    /// A draft without a fault becomes a valid description.
    pub proof fn lemma_described_valid(self, graph: GraphView, ident: NodeIdent)
        requires
            self.fault(graph) is None,
        ensures
            self.described(ident).valid(),
    {
        lemma_attributes_fault(self.attributes);
    }
}

/// The draft of a node of kind `kind` that takes the single inputs `inputs`
/// and nothing else, and of whose output the shape `shape` is known.
pub open spec fn plain_draft(
    kind: OpKind,
    name: Seq<char>,
    inputs: Seq<Tensor>,
    shape: ShapeView,
) -> DraftView {
    DraftView {
        kind,
        name,
        inputs,
        lists: Seq::empty(),
        declared: None,
        attributes: Seq::empty(),
        shape,
        value: None,
    }
}

/// The draft of a constant with the elements `values` and the sizes `sizes`:
/// the elements and their data type as attributes, the sizes as its shape,
/// and the elements as its value where they are integers.
pub open spec fn constant_draft(values: ValuesView, sizes: Seq<i64>, name: Seq<char>) -> DraftView {
    DraftView {
        kind: OpKind::Const,
        name,
        inputs: Seq::empty(),
        lists: Seq::empty(),
        declared: Some(values.dtype()),
        attributes: seq![
            AttributeView {
                key: "value"@,
                list: false,
                value: AttrValueView::Tensor(values, sizes),
            },
            AttributeView {
                key: "dtype"@,
                list: false,
                value: AttrValueView::Type(seq![values.dtype()]),
            },
        ],
        shape: exact_shape(sizes),
        value: values.integers(),
    }
}

/// The failure that installing a constant gives rise to, if any, in the
/// order in which the faults are looked for: a NUL character in the name, a
/// name in use, a NUL character in a string element, a negative size,
/// elements that do not fit the type and the sizes.
pub open spec fn constant_fault(
    g: GraphView,
    values: ValuesView,
    sizes: Seq<i64>,
    name: Seq<char>,
) -> Option<Error> {
    if holds_nul(name) {
        Some(Error::NulError)
    } else if name.len() > 0 && g.used.contains(g.prefix + name) {
        Some(Error::DuplicateName)
    } else if values.nul_in_text() {
        Some(Error::NulError)
    } else if exists|i: int| 0 <= i < sizes.len() && (#[trigger] sizes[i]) < 0 {
        Some(Error::MalformedShape)
    } else if !values.representable() || !values.fills(sizes) {
        Some(Error::TypeMismatch)
    } else {
        None
    }
}

/// The draft of a constant has exactly the faults that [`constant_fault`]
/// lists.
pub proof fn lemma_constant_fault(g: GraphView, values: ValuesView, sizes: Seq<i64>, name: Seq<char>)
    ensures
        constant_draft(values, sizes, name).fault(g) == constant_fault(g, values, sizes, name),
{
    let draft = constant_draft(values, sizes, name);
    reveal_strlit("value");
    reveal_strlit("dtype");
    let a = draft.attributes[0];
    let b = draft.attributes[1];
    assert(!holds_nul(a.key));
    assert(!holds_nul(b.key));
    assert(a.key != b.key) by {
        assert(a.key[0] == 'v');
        assert(b.key[0] == 'd');
    }
    assert(draft.attributes.drop_last() =~= seq![a]);
    assert(draft.attributes.last() == b);
    assert(seq![a].drop_last() =~= Seq::<AttributeView>::empty());
    assert(seq![a].last() == a);
    assert(attributes_fault(Seq::<AttributeView>::empty()) is None);
    assert(attributes_fault(seq![a]) == a.fault());
    assert(b.fault() is None) by {
        assert(b.value->Type_0.len() == 1);
    }
    assert(!has_key(seq![a], b.key));
    assert(attributes_fault(draft.attributes) == a.fault());
    assert(uniform(draft.lists));
    assert(counted(draft.kind, draft.inputs, draft.lists, draft.declared));
    assert(g.owns_inputs(draft.inputs, draft.lists));
    assert(known_sizes(exact_shape(sizes)) =~= sizes);
    if a.fault() is None && !holds_nul(name) {
        assert(shape_well_formed(exact_shape(sizes))) by {
            assert forall|i: int| 0 <= i < sizes.len() implies (#[trigger] exact_shape(
                sizes,
            )->0[i] matches Some(d) ==> d >= 0) by {
                assert(!(sizes[i] < 0));
            }
        }
        assert(fully_known(exact_shape(sizes)));
    }
}

/// A draft without input lists and attributes, of a kind that takes as many
/// single inputs as it has and declares no type, and of whose output a
/// consistent shape and value are stated, has the faults of its name and of
/// the graph, and no other: a NUL character in the name, then an input that
/// is not of the graph, then a name in use.
pub proof fn lemma_simple_fault(g: GraphView, draft: DraftView)
    requires
        draft.lists.len() == 0,
        draft.attributes.len() == 0,
        draft.declared is None,
        draft.inputs.len() == draft.kind.spec_arity(),
        draft.kind.spec_lists() == 0,
        draft.kind.spec_output_rule() != OutputRule::Declared,
        (OutputView { dtype: draft.dtype(), shape: draft.shape, value: draft.value }).consistent(),
    ensures
        draft.fault(g) == if holds_nul(draft.name) {
            Some(Error::NulError)
        } else if !g.owns_all(draft.inputs) {
            Some(Error::UnknownTensor)
        } else if draft.name.len() > 0 && g.used.contains(g.prefix + draft.name) {
            Some(Error::DuplicateName)
        } else {
            None
        },
{
}

impl Draft {
    /// The draft of a node of kind `kind` that takes the single inputs
    /// `inputs` and nothing else.
    pub fn plain(kind: OpKind, name: &str, inputs: Vec<Tensor>, shape: ShapeHint) -> (d: Draft)
        ensures
            d@ == plain_draft(kind, name@, inputs@, shape@),
    {
        let d = Draft {
            kind,
            name: String::from_str(name),
            inputs,
            lists: Vec::new(),
            declared: None,
            attributes: Vec::new(),
            shape,
            value: None,
        };
        assert(d@.lists =~= Seq::<InputListView>::empty());
        assert(d@.attributes =~= Seq::<AttributeView>::empty());
        d
    }

    /// The draft of a constant with the elements `values` and the sizes
    /// `sizes`.
    pub fn constant(values: Values, sizes: Vec<i64>, name: &str) -> (d: Draft)
        ensures
            d@ == constant_draft(values@, sizes@, name@),
    {
        let dtype = values.dtype();
        let value = values.integers();
        let shape = ShapeHint::exact(&sizes);
        let ghost vv = values@;
        let ghost sv = sizes@;
        let mut attributes: Vec<Attribute> = Vec::new();
        attributes.push(
            Attribute {
                key: String::from_str("value"),
                list: false,
                value: AttrValue::Tensor(values, sizes),
            },
        );
        let mut types: Vec<DataType> = Vec::new();
        types.push(dtype);
        attributes.push(
            Attribute { key: String::from_str("dtype"), list: false, value: AttrValue::Type(types) },
        );
        let d = Draft {
            kind: OpKind::Const,
            name: String::from_str(name),
            inputs: Vec::new(),
            lists: Vec::new(),
            declared: Some(dtype),
            attributes,
            shape,
            value,
        };
        proof {
            assert(d@.lists =~= Seq::<InputListView>::empty());
            assert(d@.attributes =~= constant_draft(vv, sv, name@).attributes);
        }
        d
    }
}

/// The pieces of a description, for whoever installs it.
#[derive(Debug)]
pub struct Parts {
    pub ident: NodeIdent,
    pub kind: OpKind,
    pub name: Option<String>,
    pub inputs: Vec<Tensor>,
    pub lists: Vec<InputList>,
    pub attributes: Vec<Attribute>,
    pub outputs: Vec<OutputSlot>,
}

impl View for Parts {
    type V = DescriptorView;

    open spec fn view(&self) -> DescriptorView {
        DescriptorView {
            ident: self.ident,
            kind: self.kind,
            name: match self.name {
                None => None,
                Some(n) => Some(n@),
            },
            inputs: self.inputs@,
            lists: list_views(self.lists@),
            attributes: attribute_views(self.attributes@),
            outputs: output_views(self.outputs@),
        }
    }
}

/// The validated description of one operation: its kind, its inputs and
/// attributes, what is known of its outputs, and the identity that its node
/// will have.
#[derive(Debug)]
pub struct Descriptor {
    parts: Parts,
}

impl View for Descriptor {
    type V = DescriptorView;

    closed spec fn view(&self) -> DescriptorView {
        self.parts@
    }
}

/// Tells whether the members of every list share one data type.
pub fn is_uniform(lists: &Vec<InputList>) -> (yes: bool)
    ensures
        yes == uniform(list_views(lists@)),
{
    let mut j: usize = 0;
    while j < lists.len()
        invariant
            j <= lists.len(),
            forall|k: int| 0 <= k < j ==> homogeneous((#[trigger] list_views(lists@)[k]).members),
        decreases lists.len() - j,
    {
        if !is_homogeneous(&lists[j].members) {
            assert(!homogeneous(list_views(lists@)[j as int].members));
            return false;
        }
        j += 1;
    }
    true
}

/// Tells whether the numbers of inputs, of lists and of their members are
/// what the kind takes, and a type is declared exactly where the kind asks
/// for one.
pub fn is_counted(
    kind: OpKind,
    inputs: &Vec<Tensor>,
    lists: &Vec<InputList>,
    declared: Option<DataType>,
) -> (yes: bool)
    ensures
        yes == counted(kind, inputs@, list_views(lists@), declared),
{
    if inputs.len() != kind.arity() || lists.len() != kind.lists() {
        return false;
    }
    let wants = match kind.output_rule() {
        OutputRule::Declared => true,
        _ => false,
    };
    if declared.is_some() != wants {
        return false;
    }
    let ghost views = list_views(lists@);
    let mut j: usize = 0;
    while j < lists.len()
        invariant
            j <= lists.len(),
            views == list_views(lists@),
            forall|k: int| 0 <= k < j ==> (#[trigger] views[k]).members.len() > 0,
            forall|k: int|
                0 <= k < j ==> {
                    &&& (#[trigger] views[k]).position <= inputs.len() + k
                    &&& k > 0 ==> views[k - 1].position < views[k].position
                },
        decreases lists.len() - j,
    {
        if lists[j].members.len() == 0 {
            assert(views[j as int].members.len() == 0);
            return false;
        }
        let reach = if j > usize::MAX - inputs.len() {
            usize::MAX
        } else {
            inputs.len() + j
        };
        if lists[j].position > reach {
            return false;
        }
        if j > 0 && lists[j - 1].position >= lists[j].position {
            return false;
        }
        j += 1;
    }
    true
}

/// The failure that describing an operation gives rise to whatever the graph
/// holds, if any.
pub fn check_description(
    kind: OpKind,
    inputs: &Vec<Tensor>,
    lists: &Vec<InputList>,
    name: &str,
    declared: Option<DataType>,
) -> (r: Option<Error>)
    ensures
        r == description_fault(kind, inputs@, list_views(lists@), name@, declared),
{
    if !is_uniform(lists) {
        Some(Error::InputTypeMismatch)
    } else if !is_counted(kind, inputs, lists, declared) {
        Some(Error::ArgumentCount)
    } else if has_nul(name) {
        Some(Error::NulError)
    } else {
        None
    }
}

impl Descriptor {
    /// Puts together the description of an operation that
    /// [`check_description`] has found no fault with. Nothing is known of
    /// the outputs but their data type.
    pub(crate) fn assemble(
        ident: NodeIdent,
        kind: OpKind,
        inputs: Vec<Tensor>,
        lists: Vec<InputList>,
        name: &str,
        declared: Option<DataType>,
    ) -> (d: Descriptor)
        requires
            description_fault(kind, inputs@, list_views(lists@), name@, declared) is None,
        ensures
            d@.valid(),
            d@.ident == ident,
            d@.kind == kind,
            d@.name == chosen(name@),
            d@.inputs == inputs@,
            d@.lists == list_views(lists@),
            d@.attributes == Seq::<AttributeView>::empty(),
            d@.outputs == seq![
                OutputView {
                    dtype: output_type(kind, inputs@, list_views(lists@), declared),
                    shape: None,
                    value: None,
                },
            ],
    {
        let dtype = match kind.output_rule() {
            OutputRule::SameAsInput(n) => {
                proof {
                    kind.lemma_rules_in_range();
                }
                inputs[n].dtype
            },
            OutputRule::SameAsList(n) => {
                proof {
                    kind.lemma_rules_in_range();
                }
                lists[n].members[0].dtype
            },
            OutputRule::Fixed(t) => t,
            OutputRule::Declared => declared.unwrap(),
        };
        let chosen = if name.is_empty() {
            None
        } else {
            Some(String::from_str(name))
        };
        let mut outputs: Vec<OutputSlot> = Vec::new();
        outputs.push(OutputSlot { dtype, shape: ShapeHint::unknown(), value: None });
        let d = Descriptor {
            parts: Parts { ident, kind, name: chosen, inputs, lists, attributes: Vec::new(), outputs },
        };
        d
    }

    /// Describes an operation of kind `kind` for the graph of `scope`, and
    /// issues the identity of its node. An empty `name` leaves the choice of
    /// the name to the scope; `declared` is the data type of the outputs,
    /// for the kinds that ask for one. Nothing is known of the outputs but
    /// their data type.
    ///
    /// This is where an operation is validated. It fails, and leaves the
    /// graph as it was, with the fault of the description, if it has one,
    /// else with the fault that the graph gives rise to. The description
    /// that it returns can be installed at once.
    pub fn new(
        scope: &mut Scope,
        kind: OpKind,
        inputs: Vec<Tensor>,
        lists: Vec<InputList>,
        name: &str,
        declared: Option<DataType>,
    ) -> (r: Result<Descriptor, Error>)
        requires
            old(scope).wf(),
        ensures
            final(scope).wf(),
            match r {
                Ok(d) => {
                    &&& making_fault(old(scope)@, kind, inputs@, list_views(lists@), name@, declared) is None
                    &&& d@ == made(
                        old(scope)@.registry.next(),
                        kind,
                        inputs@,
                        list_views(lists@),
                        name@,
                        declared,
                    )
                    &&& d@.valid()
                    &&& final(scope)@ == old(scope)@.issued()
                    &&& final(scope)@.install_fault(d@) is None
                },
                Err(e) => {
                    &&& Some(e) == making_fault(
                        old(scope)@,
                        kind,
                        inputs@,
                        list_views(lists@),
                        name@,
                        declared,
                    )
                    &&& final(scope)@ == old(scope)@
                },
            },
    {
        match check_description(kind, &inputs, &lists, name, declared) {
            Some(e) => {
                return Err(e);
            },
            None => {},
        }
        match scope.check_graph(&inputs, &lists, name) {
            Some(e) => {
                return Err(e);
            },
            None => {},
        }
        let ident = scope.allocate();
        proof {
            old(scope).lemma_wf();
            old(scope)@.lemma_issued();
        }
        let d = Descriptor::assemble(ident, kind, inputs, lists, name, declared);
        Ok(d)
    }

    /// The identity that the node will have.
    pub fn ident(&self) -> (id: NodeIdent)
        ensures
            id == self@.ident,
    {
        self.parts.ident
    }

    /// The operation kind.
    pub fn kind(&self) -> (kind: OpKind)
        ensures
            kind == self@.kind,
    {
        self.parts.kind
    }

    /// The data type of the output at `index`.
    pub fn output_dtype(&self, index: usize) -> (t: Option<DataType>)
        ensures
            t == if index < self@.outputs.len() {
                Some(self@.outputs[index as int].dtype)
            } else {
                None
            },
    {
        if index < self.parts.outputs.len() {
            Some(self.parts.outputs[index].dtype)
        } else {
            None
        }
    }

    /// Adds `attr` to the description. It fails with the fault of the
    /// attribute, if it has one, and with `ArgumentCount` where the
    /// description already has an attribute of that key.
    pub fn with_attribute(self, attr: Attribute) -> (r: Result<Descriptor, Error>)
        requires
            self@.valid(),
        ensures
            match r {
                Ok(d) => {
                    &&& attr@.fault() is None
                    &&& !has_key(self@.attributes, attr@.key)
                    &&& d@ == DescriptorView { attributes: self@.attributes.push(attr@), ..self@ }
                    &&& d@.valid()
                },
                Err(e) => if attr@.fault() is Some {
                    Some(e) == attr@.fault()
                } else {
                    has_key(self@.attributes, attr@.key) && e == Error::ArgumentCount
                },
            },
    {
        match attr.check() {
            Some(e) => {
                return Err(e);
            },
            None => {},
        }
        let mut parts = self.parts;
        let ghost before = parts@;
        let mut i: usize = 0;
        while i < parts.attributes.len()
            invariant
                i <= parts.attributes.len(),
                parts@ == before,
                before == self@,
                attr@.fault() is None,
                forall|j: int| 0 <= j < i ==> (#[trigger] before.attributes[j]).key != attr@.key,
            decreases parts.attributes.len() - i,
        {
            if parts.attributes[i].key == attr.key {
                assert(before.attributes[i as int].key == attr@.key);
                return Err(Error::ArgumentCount);
            }
            i += 1;
        }
        parts.attributes.push(attr);
        proof {
            assert(parts@.attributes =~= before.attributes.push(attr@));
        }
        Ok(Descriptor { parts })
    }

    /// States what is known of the first output: its shape and, where they
    /// are known, its elements. It fails with `MalformedShape` where a size
    /// is negative, and with `TypeMismatch` where elements are given for a
    /// shape that is not fully known or has another number of elements.
    pub fn with_output(self, shape: ShapeHint, value: Option<Vec<i64>>) -> (r: Result<
        Descriptor,
        Error,
    >)
        requires
            self@.valid(),
        ensures
            match r {
                Ok(d) => {
                    &&& d@.valid()
                    &&& d@ == DescriptorView {
                        outputs: self@.outputs.update(
                            0,
                            OutputView {
                                dtype: self@.outputs[0].dtype,
                                shape: shape@,
                                value: value_view(value),
                            },
                        ),
                        ..self@
                    }
                },
                Err(e) => {
                    let slot = OutputView {
                        dtype: self@.outputs[0].dtype,
                        shape: shape@,
                        value: value_view(value),
                    };
                    &&& !slot.consistent()
                    &&& e == if !shape_well_formed(shape@) {
                        Error::MalformedShape
                    } else {
                        Error::TypeMismatch
                    }
                },
            },
    {
        match check_output(&shape, &value) {
            Some(e) => {
                return Err(e);
            },
            None => {},
        }
        let mut parts = self.parts;
        let ghost before = parts@;
        let dtype = parts.outputs[0].dtype;
        let ghost slot = OutputView {
            dtype,
            shape: shape@,
            value: value_view(value),
        };
        parts.outputs.set(0, OutputSlot { dtype, shape, value });
        proof {
            assert(parts@.outputs =~= before.outputs.update(0, slot));
        }
        Ok(Descriptor { parts })
    }

    /// Takes the description apart.
    pub fn into_parts(self) -> (parts: Parts)
        ensures
            parts@ == self@,
    {
        self.parts
    }
}

} // verus!
