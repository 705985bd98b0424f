use tensor_graph::attr::{AttrValue, Attribute, Values};
use tensor_graph::backend::{BackendCall, Outcome};
use tensor_graph::descriptor::{Descriptor, Draft, InputList};
use tensor_graph::dtype::DataType;
use tensor_graph::error::{Error, Status};
use tensor_graph::kind::OpKind;
use tensor_graph::ops::array_ops;
use tensor_graph::registry::Binding;
use tensor_graph::scope::Scope;
use tensor_graph::shape::ShapeHint;
use tensor_graph::tensor::Tensor;

fn ints(scope: &mut Scope, values: Vec<i32>, sizes: Vec<i64>, name: &str) -> Tensor {
    scope.constant(Values::Int32(values), sizes, name).unwrap()
}

fn names(scope: &Scope) -> Vec<String> {
    let mut out = Vec::new();
    for i in 0..scope.node_count() {
        out.push(scope.node(i).unwrap().name.clone());
    }
    out
}

fn kinds(scope: &Scope) -> Vec<OpKind> {
    let mut out = Vec::new();
    for i in 0..scope.node_count() {
        out.push(scope.node(i).unwrap().kind);
    }
    out
}

#[test]
fn new_scope_is_empty() {
    let scope = Scope::new();
    assert_eq!(scope.node_count(), 0);
    assert!(scope.backend_calls().is_empty());
    assert_eq!(scope.prefix().as_str(), "");
    assert!(scope.control_dependencies().is_empty());
    assert_eq!(scope.depth(), 0);
}

#[test]
fn default_names_are_numbered() {
    let mut scope = Scope::new();
    for _ in 0..12 {
        ints(&mut scope, vec![1], vec![], "");
    }
    assert_eq!(
        names(&scope),
        vec![
            "Const", "Const_1", "Const_2", "Const_3", "Const_4", "Const_5", "Const_6", "Const_7",
            "Const_8", "Const_9", "Const_10", "Const_11"
        ]
    );
}

#[test]
fn n_nodes_have_n_distinct_names() {
    let mut scope = Scope::new();
    let x = ints(&mut scope, vec![1, 2], vec![2], "");
    for _ in 0..50 {
        array_ops::identity(&mut scope, x, "").unwrap();
    }
    let mut all = names(&scope);
    assert_eq!(all.len(), 51);
    all.sort();
    all.dedup();
    assert_eq!(all.len(), 51);
}

#[test]
fn chosen_name_is_used_as_it_is() {
    let mut scope = Scope::new();
    ints(&mut scope, vec![1], vec![], "answer");
    assert_eq!(names(&scope), vec!["answer"]);
}

#[test]
fn duplicate_name_is_refused_and_changes_nothing() {
    let mut scope = Scope::new();
    ints(&mut scope, vec![1], vec![], "x");
    let calls = scope.backend_calls().len();
    let r = scope.constant(Values::Int32(vec![2]), vec![], "x");
    assert_eq!(r, Err(Error::DuplicateName));
    assert_eq!(scope.node_count(), 1);
    assert_eq!(scope.backend_calls().len(), calls);
}

#[test]
fn default_name_skips_a_chosen_name() {
    let mut scope = Scope::new();
    ints(&mut scope, vec![1], vec![], "Const");
    ints(&mut scope, vec![1], vec![], "Const_1");
    ints(&mut scope, vec![1], vec![], "");
    ints(&mut scope, vec![1], vec![], "");
    assert_eq!(names(&scope), vec!["Const", "Const_1", "Const_2", "Const_3"]);
}

#[test]
fn nul_in_name_is_refused() {
    let mut scope = Scope::new();
    let r = scope.constant(Values::Int32(vec![1]), vec![], "a\0b");
    assert_eq!(r, Err(Error::NulError));
    assert_eq!(scope.node_count(), 0);
    assert!(scope.backend_calls().is_empty());
}

#[test]
fn nul_in_text_element_is_refused() {
    let mut scope = Scope::new();
    let r = scope.constant(Values::Text(vec!["a\0".to_string()]), vec![], "");
    assert_eq!(r, Err(Error::NulError));
}

#[test]
fn constant_checks_its_elements() {
    let mut scope = Scope::new();
    assert_eq!(
        scope.constant(Values::Int32(vec![1, 2, 3]), vec![2, 2], ""),
        Err(Error::TypeMismatch)
    );
    assert_eq!(
        scope.constant(Values::Int32(vec![1, 2, 3]), vec![-3], ""),
        Err(Error::MalformedShape)
    );
    assert_eq!(
        scope.constant(Values::Raw(DataType::UInt8, vec![256]), vec![], ""),
        Err(Error::TypeMismatch)
    );
    assert_eq!(
        scope.constant(Values::Raw(DataType::Resource, vec![0]), vec![], ""),
        Err(Error::TypeMismatch)
    );
    assert_eq!(
        scope.constant(Values::Raw(DataType::Complex64, vec![1, 2, 3]), vec![2], ""),
        Err(Error::TypeMismatch)
    );
    assert!(scope.constant(Values::Raw(DataType::Complex64, vec![1, 2, 3, 4]), vec![2], "").is_ok());
    assert!(scope.constant(Values::Raw(DataType::UInt8, vec![255]), vec![], "").is_ok());
    assert!(scope.constant(Values::Int32(vec![]), vec![0, 7], "").is_ok());
    assert_eq!(scope.node_count(), 3);
}

#[test]
fn constant_is_known_by_shape_and_value() {
    let mut scope = Scope::new();
    let t = ints(&mut scope, vec![1, 2, 3, 4, 5, 6], vec![2, 3], "t");
    assert_eq!(t.dtype, DataType::Int32);
    assert_eq!(t.index, 0);
    assert_eq!(t.get_shape(&scope), ShapeHint { dims: Some(vec![Some(2), Some(3)]) });
    assert_eq!(scope.static_value(t), Some(vec![1, 2, 3, 4, 5, 6]));
    assert_eq!(scope.kind_of(t), Some(OpKind::Const));
    let f = scope.constant(Values::Raw(DataType::Float, vec![0, 0]), vec![2], "f").unwrap();
    assert_eq!(f.dtype, DataType::Float);
    assert_eq!(scope.static_value(f), None);
}

#[test]
fn constant_calls_come_in_order() {
    let mut scope = Scope::new();
    let t = ints(&mut scope, vec![7], vec![], "seven");
    let calls = scope.backend_calls();
    assert_eq!(calls.len(), 4);
    assert_eq!(
        calls[0],
        BackendCall::NewNode { kind: OpKind::Const, name: "seven".to_string() }
    );
    assert_eq!(
        calls[1],
        BackendCall::SetAttr(Attribute {
            key: "value".to_string(),
            list: false,
            value: AttrValue::Tensor(Values::Int32(vec![7]), vec![]),
        })
    );
    assert_eq!(
        calls[2],
        BackendCall::SetAttr(Attribute {
            key: "dtype".to_string(),
            list: false,
            value: AttrValue::Type(vec![DataType::Int32]),
        })
    );
    assert_eq!(calls[3], BackendCall::Finish(t.ident));
}

#[test]
fn concat_calls_put_the_list_first() {
    let mut scope = Scope::new();
    let a = ints(&mut scope, vec![1, 2], vec![2], "a");
    let b = ints(&mut scope, vec![3, 4], vec![2], "b");
    let before = scope.backend_calls().len();
    let c = array_ops::concat(&mut scope, vec![a, b], 0, "joined").unwrap();
    let calls = &scope.backend_calls()[before..];
    // the constant of the axis: four calls
    assert_eq!(calls[0], BackendCall::NewNode { kind: OpKind::Const, name: "Const".to_string() });
    let axis = match &calls[3] {
        BackendCall::Finish(id) => *id,
        other => panic!("unexpected call {:?}", other),
    };
    assert_eq!(
        calls[4],
        BackendCall::NewNode { kind: OpKind::ConcatV2, name: "joined".to_string() }
    );
    assert_eq!(calls[5], BackendCall::AddInputList(vec![a, b]));
    match &calls[6] {
        BackendCall::AddInput(t) => {
            assert_eq!(t.ident, axis);
            assert_eq!(t.dtype, DataType::Int32);
        },
        other => panic!("unexpected call {:?}", other),
    }
    assert_eq!(calls[7], BackendCall::Finish(c.ident));
    assert_eq!(calls.len(), 8);
    assert_eq!(c.dtype, DataType::Int32);
}

#[test]
fn child_scopes_prefix_names() {
    let mut scope = Scope::new();
    scope.child("layer", "unused").unwrap();
    assert_eq!(scope.prefix().as_str(), "layer/");
    assert_eq!(scope.depth(), 1);
    ints(&mut scope, vec![1], vec![], "");
    scope.child("", "inner").unwrap();
    assert_eq!(scope.prefix().as_str(), "layer/inner/");
    ints(&mut scope, vec![1], vec![], "w");
    scope.exit();
    assert_eq!(scope.prefix().as_str(), "layer/");
    scope.exit();
    assert_eq!(scope.prefix().as_str(), "");
    scope.exit();
    assert_eq!(scope.prefix().as_str(), "");
    assert_eq!(scope.depth(), 0);
    scope.child("layer", "unused").unwrap();
    assert_eq!(scope.prefix().as_str(), "layer_1/");
    ints(&mut scope, vec![1], vec![], "");
    assert_eq!(names(&scope), vec!["layer/Const", "layer/inner/w", "layer_1/Const"]);
}

#[test]
fn child_scope_refuses_nul() {
    let mut scope = Scope::new();
    assert_eq!(scope.child("a\0", "b"), Err(Error::NulError));
    assert_eq!(scope.child("", "b\0"), Err(Error::NulError));
    assert_eq!(scope.depth(), 0);
    assert_eq!(scope.prefix().as_str(), "");
}

#[test]
fn control_dependencies_are_inherited_and_dropped() {
    let mut scope = Scope::new();
    let a = ints(&mut scope, vec![1], vec![], "a");
    let b = ints(&mut scope, vec![2], vec![], "b");
    scope.add_control_dependency(a).unwrap();
    scope.add_control_dependency(a).unwrap();
    assert_eq!(scope.control_dependencies().clone(), vec![a.ident]);
    scope.child("inner", "").unwrap();
    scope.add_control_dependency(b).unwrap();
    assert_eq!(scope.control_dependencies().clone(), vec![a.ident, b.ident]);
    let before = scope.backend_calls().len();
    let c = ints(&mut scope, vec![3], vec![], "c");
    let calls = &scope.backend_calls()[before..];
    assert_eq!(calls.len(), 6);
    assert_eq!(calls[3], BackendCall::AddControlInput(a.ident));
    assert_eq!(calls[4], BackendCall::AddControlInput(b.ident));
    assert_eq!(calls[5], BackendCall::Finish(c.ident));
    scope.exit();
    assert_eq!(scope.control_dependencies().clone(), vec![a.ident]);
}

#[test]
fn control_dependency_must_be_installed() {
    let mut scope = Scope::new();
    let mut other = Scope::new();
    let foreign = ints(&mut other, vec![1], vec![], "");
    assert_eq!(scope.add_control_dependency(foreign), Err(Error::UnknownTensor));
    assert!(scope.control_dependencies().is_empty());
}

#[test]
fn tensors_of_another_graph_are_refused() {
    let mut scope = Scope::new();
    let mut other = Scope::new();
    ints(&mut scope, vec![1], vec![], "");
    let foreign = ints(&mut other, vec![1], vec![], "");
    assert!(!scope.is_owned(foreign));
    assert_eq!(array_ops::identity(&mut scope, foreign, ""), Err(Error::UnknownTensor));
    assert_eq!(scope.node_count(), 1);
    assert_eq!(foreign.get_shape(&scope), ShapeHint { dims: None });
}

#[test]
fn tensor_with_a_wrong_type_is_refused() {
    let mut scope = Scope::new();
    let t = ints(&mut scope, vec![1], vec![], "");
    let forged = Tensor { dtype: DataType::Float, ..t };
    assert!(forged == t);
    assert!(!scope.is_owned(forged));
    assert_eq!(array_ops::identity(&mut scope, forged, ""), Err(Error::UnknownTensor));
    let beyond = Tensor { index: 1, ..t };
    assert!(beyond != t);
    assert_eq!(array_ops::identity(&mut scope, beyond, ""), Err(Error::UnknownTensor));
}

#[test]
fn descriptor_is_validated_when_made() {
    let mut scope = Scope::new();
    let a = ints(&mut scope, vec![1], vec![1], "a");
    let f = scope.constant(Values::Raw(DataType::Float, vec![0]), vec![1], "f").unwrap();
    let calls = scope.backend_calls().len();
    // mixed data types in one list
    let mixed = Descriptor::new(
        &mut scope,
        OpKind::ConcatV2,
        vec![a],
        vec![InputList { position: 0, members: vec![a, f] }],
        "",
        None,
    );
    assert_eq!(mixed.err(), Some(Error::InputTypeMismatch));
    // too many inputs
    let crowded = Descriptor::new(&mut scope, OpKind::Relu, vec![a, a], vec![], "", None);
    assert_eq!(crowded.err(), Some(Error::ArgumentCount));
    // an empty list
    let hollow = Descriptor::new(
        &mut scope,
        OpKind::ConcatV2,
        vec![a],
        vec![InputList { position: 0, members: vec![] }],
        "",
        None,
    );
    assert_eq!(hollow.err(), Some(Error::ArgumentCount));
    // a list out of place
    let misplaced = Descriptor::new(
        &mut scope,
        OpKind::ConcatV2,
        vec![a],
        vec![InputList { position: 2, members: vec![a] }],
        "",
        None,
    );
    assert_eq!(misplaced.err(), Some(Error::ArgumentCount));
    // a declared type where none is asked for, and none where one is
    let declared = Descriptor::new(&mut scope, OpKind::Relu, vec![a], vec![], "", Some(DataType::Float));
    assert_eq!(declared.err(), Some(Error::ArgumentCount));
    let undeclared = Descriptor::new(&mut scope, OpKind::Placeholder, vec![], vec![], "", None);
    assert_eq!(undeclared.err(), Some(Error::ArgumentCount));
    assert_eq!(scope.backend_calls().len(), calls);
    assert_eq!(scope.node_count(), 2);
}

#[test]
fn descriptor_is_installed_once() {
    let mut scope = Scope::new();
    let a = ints(&mut scope, vec![1, 2], vec![2], "a");
    let d = Descriptor::new(&mut scope, OpKind::Relu, vec![a], vec![], "r", None).unwrap();
    assert_eq!(d.kind(), OpKind::Relu);
    assert_eq!(d.output_dtype(0), Some(DataType::Int32));
    assert_eq!(d.output_dtype(1), None);
    let ident = d.ident();
    let d = d
        .with_output(ShapeHint { dims: Some(vec![Some(2)]) }, None)
        .unwrap();
    let outs = scope.install(d).unwrap();
    assert_eq!(outs.len(), 1);
    assert_eq!(outs[0].ident, ident);
    assert_eq!(outs[0].dtype, DataType::Int32);
    assert_eq!(outs[0].get_shape(&scope), ShapeHint { dims: Some(vec![Some(2)]) });
    assert_eq!(names(&scope), vec!["a", "r"]);
    assert_eq!(kinds(&scope), vec![OpKind::Const, OpKind::Relu]);
}

#[test]
fn descriptor_of_another_graph_is_refused() {
    let mut scope = Scope::new();
    let mut other = Scope::new();
    let d = Descriptor::new(&mut other, OpKind::Placeholder, vec![], vec![], "", Some(DataType::Float))
        .unwrap();
    assert_eq!(scope.install(d), Err(Error::DuplicateIdentity));
    assert_eq!(scope.node_count(), 0);
}

#[test]
fn descriptor_attributes_are_checked() {
    let mut scope = Scope::new();
    let d = Descriptor::new(&mut scope, OpKind::Placeholder, vec![], vec![], "", Some(DataType::Float))
        .unwrap();
    let d = d
        .with_attribute(Attribute {
            key: "dtype".to_string(),
            list: false,
            value: AttrValue::Type(vec![DataType::Float]),
        })
        .unwrap();
    let d = match d.with_attribute(Attribute {
        key: "shape".to_string(),
        list: false,
        value: AttrValue::Shape(ShapeHint { dims: Some(vec![Some(-2)]) }),
    }) {
        Err(e) => {
            assert_eq!(e, Error::MalformedShape);
            return;
        },
        Ok(d) => d,
    };
    let _ = d;
    panic!("a negative size was accepted");
}

#[test]
fn attribute_faults() {
    let scalar_list = Attribute { key: "k".to_string(), list: false, value: AttrValue::Int(vec![1, 2]) };
    assert_eq!(scalar_list.check(), Some(Error::ArgumentCount));
    let list = Attribute { key: "k".to_string(), list: true, value: AttrValue::Int(vec![1, 2]) };
    assert_eq!(list.check(), None);
    let float_list = Attribute { key: "k".to_string(), list: true, value: AttrValue::Float(0) };
    assert_eq!(float_list.check(), Some(Error::ArgumentCount));
    let nul_key = Attribute { key: "k\0".to_string(), list: false, value: AttrValue::Float(0) };
    assert_eq!(nul_key.check(), Some(Error::NulError));
    let nul_text =
        Attribute { key: "k".to_string(), list: false, value: AttrValue::Text(vec!["\0".to_string()]) };
    assert_eq!(nul_text.check(), Some(Error::NulError));
    let tensor = Attribute {
        key: "k".to_string(),
        list: false,
        value: AttrValue::Tensor(Values::Bool(vec![true]), vec![2]),
    };
    assert_eq!(tensor.check(), Some(Error::TypeMismatch));
}

#[test]
fn duplicate_attribute_key_is_refused() {
    let mut scope = Scope::new();
    let draft = Draft {
        kind: OpKind::Placeholder,
        name: String::new(),
        inputs: vec![],
        lists: vec![],
        declared: Some(DataType::Float),
        attributes: vec![
            Attribute { key: "dtype".to_string(), list: false, value: AttrValue::Type(vec![DataType::Float]) },
            Attribute { key: "dtype".to_string(), list: false, value: AttrValue::Type(vec![DataType::Float]) },
        ],
        shape: ShapeHint { dims: None },
        value: None,
    };
    assert_eq!(scope.add(draft), Err(Error::ArgumentCount));
    assert_eq!(scope.node_count(), 0);
}

#[test]
fn output_must_be_consistent() {
    let mut scope = Scope::new();
    let draft = Draft {
        kind: OpKind::Placeholder,
        name: String::new(),
        inputs: vec![],
        lists: vec![],
        declared: Some(DataType::Int32),
        attributes: vec![],
        shape: ShapeHint { dims: Some(vec![Some(2), None]) },
        value: Some(vec![1, 2]),
    };
    assert_eq!(scope.add(draft), Err(Error::TypeMismatch));
}

#[test]
fn identity_is_named_after_its_input() {
    let mut scope = Scope::new();
    let a = ints(&mut scope, vec![1, 2], vec![2], "a");
    let i = array_ops::identity(&mut scope, a, "").unwrap();
    let j = array_ops::identity(&mut scope, i, "").unwrap();
    assert_eq!(names(&scope), vec!["a", "Const", "Identity"]);
    assert_eq!(scope.static_value(j), Some(vec![1, 2]));
    assert_eq!(j.get_shape(&scope), ShapeHint { dims: Some(vec![Some(2)]) });
}

#[test]
fn set_shape_refines_and_refuses() {
    let mut scope = Scope::new();
    let p = array_ops::placeholder(&mut scope, DataType::Float, "p").unwrap();
    assert_eq!(p.get_shape(&scope), ShapeHint { dims: None });
    let p = p.set_shape(&mut scope, &ShapeHint { dims: Some(vec![None, Some(3)]) }).unwrap();
    assert_eq!(p.get_shape(&scope), ShapeHint { dims: Some(vec![None, Some(3)]) });
    let p = p.set_shape(&mut scope, &ShapeHint { dims: Some(vec![Some(2), None]) }).unwrap();
    assert_eq!(p.get_shape(&scope), ShapeHint { dims: Some(vec![Some(2), Some(3)]) });
    assert_eq!(
        p.set_shape(&mut scope, &ShapeHint { dims: Some(vec![Some(2), Some(4)]) }),
        Err(Error::ShapeMismatch)
    );
    assert_eq!(
        p.set_shape(&mut scope, &ShapeHint { dims: Some(vec![Some(2)]) }),
        Err(Error::ShapeMismatch)
    );
    assert_eq!(
        p.set_shape(&mut scope, &ShapeHint { dims: Some(vec![Some(-2), Some(3)]) }),
        Err(Error::MalformedShape)
    );
    assert_eq!(p.get_shape(&scope), ShapeHint { dims: Some(vec![Some(2), Some(3)]) });
    let mut other = Scope::new();
    assert_eq!(p.set_shape(&mut other, &ShapeHint { dims: None }), Err(Error::UnknownTensor));
}

#[test]
fn settle_binds_or_reports() {
    let mut scope = Scope::new();
    let a = ints(&mut scope, vec![1], vec![], "a");
    let b = ints(&mut scope, vec![2], vec![], "b");
    assert!(scope.is_pending(a.ident));
    assert_eq!(scope.resolve(a.ident), None);
    assert_eq!(scope.settle(a.ident, Outcome::Finished(41)), Ok(()));
    assert_eq!(scope.resolve(a.ident), Some(Binding { node: 41, outputs: 1 }));
    assert!(!scope.is_pending(a.ident));
    let status = Status { code: 3, message: "no such op".to_string() };
    assert_eq!(
        scope.settle(b.ident, Outcome::Failed(Status { code: 3, message: "no such op".to_string() })),
        Err(Error::TFError(status))
    );
    assert_eq!(scope.resolve(b.ident), None);
    assert!(scope.is_pending(b.ident));
    assert_eq!(scope.resolve(a.ident), Some(Binding { node: 41, outputs: 1 }));
}

#[test]
fn identity_is_allocated_before_install() {
    let mut scope = Scope::new();
    let first = scope.allocate();
    let second = scope.allocate();
    assert_ne!(first, second);
    assert_eq!(first.registry, second.registry);
    assert_eq!(scope.resolve(first), None);
    assert!(!scope.is_pending(first));
    let other = Scope::new().allocate();
    assert_ne!(first.registry, other.registry);
}
