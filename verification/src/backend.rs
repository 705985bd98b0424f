//! What passes between the graph builder and the backend.
//!
//! The builder does not talk to the backend itself. It writes down, in
//! order, the calls that create a node, and whoever drives the backend
//! performs them and reports how finishing the node went.

use vstd::prelude::*;
use crate::attr::{attribute_views, Attribute, AttributeView};
use crate::descriptor::{list_views, DescriptorView, InputList, InputListView};
use crate::error::Status;
use crate::shape::copied;
use crate::kind::OpKind;
use crate::registry::NodeIdent;
use crate::tensor::Tensor;

verus! {

/// One call on the backend.
#[derive(Debug, PartialEq, Eq)]
pub enum BackendCall {
    /// Start a node of the given kind under the given name.
    NewNode { kind: OpKind, name: String },
    /// Set an attribute of the node, in the scalar or the list form as its
    /// flag says.
    SetAttr(Attribute),
    /// Add one input: an output of an earlier node.
    AddInput(Tensor),
    /// Add a list of inputs as one argument.
    AddInputList(Vec<Tensor>),
    /// Make the node run after the node of the given identity.
    AddControlInput(NodeIdent),
    /// Finish the node; the backend node that results belongs to the given
    /// identity.
    Finish(NodeIdent),
}

/// What a [`BackendCall`] stands for.
pub enum CallView {
    NewNode { kind: OpKind, name: Seq<char> },
    SetAttr(AttributeView),
    AddInput(Tensor),
    AddInputList(Seq<Tensor>),
    AddControlInput(NodeIdent),
    Finish(NodeIdent),
}

impl View for BackendCall {
    type V = CallView;

    open spec fn view(&self) -> CallView {
        match self {
            BackendCall::NewNode { kind, name } => CallView::NewNode { kind: *kind, name: name@ },
            BackendCall::SetAttr(a) => CallView::SetAttr(a@),
            BackendCall::AddInput(t) => CallView::AddInput(*t),
            BackendCall::AddInputList(v) => CallView::AddInputList(v@),
            BackendCall::AddControlInput(id) => CallView::AddControlInput(*id),
            BackendCall::Finish(id) => CallView::Finish(*id),
        }
    }
}

/// The views of `calls`, in order.
pub open spec fn call_views(calls: Seq<BackendCall>) -> Seq<CallView> {
    Seq::new(calls.len(), |i: int| calls[i]@)
}

/// How the backend answered the call that finishes a node.
#[derive(Debug, PartialEq, Eq)]
pub enum Outcome {
    /// The node exists; this is the number under which the driver keeps it.
    Finished(u64),
    /// The backend refused the node.
    Failed(Status),
}

/// Appending a call appends its view.
pub proof fn lemma_call_views_push(calls: Seq<BackendCall>, call: BackendCall)
    ensures
        call_views(calls.push(call)) == call_views(calls).push(call@),
{
}

/// Appending calls appends their views.
pub proof fn lemma_call_views_add(a: Seq<BackendCall>, b: Seq<BackendCall>)
    ensures
        call_views(a + b) == call_views(a) + call_views(b),
{
}

/// The calls that set `attrs`, in order.
pub open spec fn attribute_calls(attrs: Seq<AttributeView>) -> Seq<CallView> {
    Seq::new(attrs.len(), |i: int| CallView::SetAttr(attrs[i]))
}

/// The calls that add the arguments of a node from position `at` on: at
/// each position the next list, if it belongs there or no single input is
/// left, else the next single input.
pub open spec fn input_calls(singles: Seq<Tensor>, lists: Seq<InputListView>, at: nat) -> Seq<
    CallView,
>
    decreases singles.len() + lists.len(),
{
    if lists.len() > 0 && (lists[0].position <= at || singles.len() == 0) {
        seq![CallView::AddInputList(lists[0].members)] + input_calls(
            singles,
            lists.drop_first(),
            at + 1,
        )
    } else if singles.len() > 0 {
        seq![CallView::AddInput(singles[0])] + input_calls(singles.drop_first(), lists, at + 1)
    } else {
        Seq::empty()
    }
}

/// The calls that make a node run after each of `control`, in order.
pub open spec fn control_calls(control: Seq<NodeIdent>) -> Seq<CallView> {
    Seq::new(control.len(), |i: int| CallView::AddControlInput(control[i]))
}

/// The calls that create the node described by `d` under the name `name`
/// with the control dependencies `control`: start the node, set each
/// attribute, add each argument, add each control dependency, finish.
pub open spec fn emission(d: DescriptorView, name: Seq<char>, control: Seq<NodeIdent>) -> Seq<
    CallView,
> {
    seq![CallView::NewNode { kind: d.kind, name }] + attribute_calls(d.attributes) + input_calls(
        d.inputs,
        d.lists,
        0,
    ) + control_calls(control) + seq![CallView::Finish(d.ident)]
}

/// Writes down the calls that create one node.
pub fn emit(
    ident: NodeIdent,
    kind: OpKind,
    name: String,
    attributes: Vec<Attribute>,
    inputs: &Vec<Tensor>,
    lists: &Vec<InputList>,
    control: &Vec<NodeIdent>,
) -> (batch: Vec<BackendCall>)
    ensures
        call_views(batch@) == seq![CallView::NewNode { kind, name: name@ }] + attribute_calls(
            attribute_views(attributes@),
        ) + input_calls(inputs@, list_views(lists@), 0) + control_calls(control@)
            + seq![CallView::Finish(ident)],
{
    let ghost head = seq![CallView::NewNode { kind, name: name@ }];
    let ghost lv = list_views(lists@);
    let mut batch: Vec<BackendCall> = Vec::new();
    batch.push(BackendCall::NewNode { kind, name });
    let ghost all = attributes@;
    for attr in it: attributes.into_iter()
        invariant
            it.seq() == all,
            call_views(batch@) == head + attribute_calls(attribute_views(all.take(it.index()))),
    {
        proof {
            lemma_call_views_push(batch@, BackendCall::SetAttr(attr));
        }
        batch.push(BackendCall::SetAttr(attr));
    }
    let ghost before_inputs = call_views(batch@);
    let mut i: usize = 0;
    let mut j: usize = 0;
    assert(inputs@.skip(0) =~= inputs@);
    assert(lv.skip(0) =~= lv);
    while i < inputs.len() || j < lists.len()
        invariant
            i <= inputs.len(),
            j <= lists.len(),
            lv == list_views(lists@),
            call_views(batch@) + input_calls(inputs@.skip(i as int), lv.skip(j as int), (i + j) as nat)
                == before_inputs + input_calls(inputs@, lv, 0),
        decreases (inputs.len() - i) + (lists.len() - j),
    {
        let list_now = j < lists.len() && (i >= inputs.len() || lists[j].position < j
            || lists[j].position - j <= i);
        proof {
            let s = inputs@.skip(i as int);
            let l = lv.skip(j as int);
            if j < lists.len() {
                assert(l.drop_first() =~= lv.skip(j + 1));
            }
            if i < inputs.len() {
                assert(s.drop_first() =~= inputs@.skip(i + 1));
            }
        }
        if list_now {
            let members = copied(&lists[j].members);
            proof {
                lemma_call_views_push(batch@, BackendCall::AddInputList(members));
            }
            batch.push(BackendCall::AddInputList(members));
            j += 1;
        } else {
            proof {
                lemma_call_views_push(batch@, BackendCall::AddInput(inputs@[i as int]));
            }
            batch.push(BackendCall::AddInput(inputs[i]));
            i += 1;
        }
    }
    let ghost before_control = call_views(batch@);
    let mut c: usize = 0;
    while c < control.len()
        invariant
            c <= control.len(),
            call_views(batch@) == before_control + control_calls(control@.take(c as int)),
        decreases control.len() - c,
    {
        proof {
            lemma_call_views_push(batch@, BackendCall::AddControlInput(control@[c as int]));
        }
        batch.push(BackendCall::AddControlInput(control[c]));
        c += 1;
    }
    proof {
        lemma_call_views_push(batch@, BackendCall::Finish(ident));
    }
    batch.push(BackendCall::Finish(ident));
    batch
}

} // verus!
