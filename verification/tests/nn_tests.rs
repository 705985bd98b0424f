use tensor_graph::attr::{AttrValue, Attribute, Values};
use tensor_graph::backend::BackendCall;
use tensor_graph::dtype::DataType;
use tensor_graph::error::{Error, Stage};
use tensor_graph::kind::OpKind;
use tensor_graph::ops::array_ops;
use tensor_graph::scope::Scope;
use tensor_graph::shape::ShapeHint;
use tensor_graph::tensor::Tensor;
use tensor_graph::train::nn;

fn known(sizes: &[i64]) -> ShapeHint {
    ShapeHint { dims: Some(sizes.iter().map(|s| Some(*s)).collect()) }
}

fn floats(scope: &mut Scope, sizes: &[i64], name: &str) -> Tensor {
    let count: i64 = sizes.iter().product();
    scope
        .constant(Values::Raw(DataType::Float, vec![0; count as usize]), sizes.to_vec(), name)
        .unwrap()
}

fn kinds_from(scope: &Scope, start: usize) -> Vec<OpKind> {
    let mut out = Vec::new();
    for i in start..scope.node_count() {
        out.push(scope.node(i).unwrap().kind);
    }
    out
}

fn count(kinds: &[OpKind], kind: OpKind) -> usize {
    kinds.iter().filter(|k| **k == kind).count()
}

#[test]
fn relu_keeps_type_and_shape() {
    let mut scope = Scope::new();
    let x = floats(&mut scope, &[2, 5], "x");
    let y = nn::relu(&mut scope, x, "").unwrap();
    assert_eq!(y.dtype, DataType::Float);
    assert_eq!(y.get_shape(&scope), known(&[2, 5]));
    assert_eq!(scope.node(1).unwrap().name, "Relu");
    assert_eq!(scope.node(1).unwrap().kind, OpKind::Relu);
}

#[test]
fn bias_add_takes_known_formats_only() {
    let mut scope = Scope::new();
    let x = floats(&mut scope, &[2, 3], "x");
    let b = floats(&mut scope, &[3], "b");
    assert_eq!(
        nn::bias_add(&mut scope, x, b, Some("NHCW"), ""),
        Err(Error::UnsupportedFormat)
    );
    assert_eq!(scope.node_count(), 2);
    let before = scope.backend_calls().len();
    let y = nn::bias_add(&mut scope, x, b, Some("NCHW"), "").unwrap();
    assert_eq!(y.get_shape(&scope), known(&[2, 3]));
    let calls = &scope.backend_calls()[before..];
    assert_eq!(calls[0], BackendCall::NewNode { kind: OpKind::BiasAdd, name: "BiasAdd".to_string() });
    assert_eq!(
        calls[1],
        BackendCall::SetAttr(Attribute {
            key: "data_format".to_string(),
            list: false,
            value: AttrValue::Text(vec!["NCHW".to_string()]),
        })
    );
    assert_eq!(calls[2], BackendCall::AddInput(x));
    assert_eq!(calls[3], BackendCall::AddInput(b));
    assert_eq!(calls[4], BackendCall::Finish(y.ident));
    assert_eq!(calls.len(), 5);
    let z = nn::bias_add(&mut scope, x, b, None, "plain").unwrap();
    assert_eq!(z.dtype, DataType::Float);
    assert!(nn::validate_convnet_data_format("NHWC").is_ok());
    assert_eq!(nn::validate_convnet_data_format(""), Err(Error::UnsupportedFormat));
}

#[test]
fn softmax_on_last_dimension_of_a_matrix_is_one_node() {
    let mut scope = Scope::new();
    let x = floats(&mut scope, &[4, 3], "x");
    for dim in [-1, 1] {
        let before = scope.node_count();
        let y = nn::softmax(&mut scope, x, dim, "").unwrap();
        assert_eq!(kinds_from(&scope, before), vec![OpKind::Softmax]);
        assert_eq!(y.get_shape(&scope), known(&[4, 3]));
        assert_eq!(y.dtype, DataType::Float);
    }
    let before = scope.node_count();
    let z = nn::log_softmax(&mut scope, x, -1, "log_probs").unwrap();
    assert_eq!(kinds_from(&scope, before), vec![OpKind::LogSoftmax]);
    assert_eq!(scope.node(before).unwrap().name, "log_probs");
    assert_eq!(z.get_shape(&scope), known(&[4, 3]));
}

#[test]
fn softmax_on_another_dimension_builds_the_scaffold() {
    let mut scope = Scope::new();
    let x = floats(&mut scope, &[2, 3, 4], "x");
    let before = scope.node_count();
    let y = nn::softmax(&mut scope, x, 0, "").unwrap();
    let kinds = kinds_from(&scope, before);
    assert_eq!(count(&kinds, OpKind::Softmax), 1);
    assert_eq!(count(&kinds, OpKind::LogSoftmax), 0);
    assert_eq!(count(&kinds, OpKind::Transpose), 2);
    assert_eq!(count(&kinds, OpKind::Reshape), 2);
    assert_eq!(count(&kinds, OpKind::Shape), 2);
    assert_eq!(count(&kinds, OpKind::Rank), 1);
    assert_eq!(count(&kinds, OpKind::ConcatV2), 3);
    assert_eq!(count(&kinds, OpKind::Range), 4);
    assert_eq!(count(&kinds, OpKind::Slice), 1);
    // the rank of the input is known, so it is a constant
    assert_eq!(kinds[0], OpKind::Const);
    assert_eq!(scope.node(before).unwrap().name, "Rank/Const");
    assert_eq!(*kinds.last().unwrap(), OpKind::Transpose);
    assert_eq!(y.get_shape(&scope), known(&[2, 3, 4]));
    assert_eq!(y.dtype, DataType::Float);
    assert_eq!(scope.prefix().as_str(), "");
    assert_eq!(scope.depth(), 0);
}

#[test]
fn softmax_on_last_dimension_of_a_cube_builds_the_scaffold() {
    let mut scope = Scope::new();
    let x = floats(&mut scope, &[2, 3, 4], "x");
    let before = scope.node_count();
    let y = nn::log_softmax(&mut scope, x, -1, "ls").unwrap();
    let kinds = kinds_from(&scope, before);
    assert_eq!(count(&kinds, OpKind::LogSoftmax), 1);
    assert_eq!(count(&kinds, OpKind::Transpose), 2);
    assert_eq!(count(&kinds, OpKind::Reshape), 2);
    assert_eq!(y.get_shape(&scope), known(&[2, 3, 4]));
    let named: Vec<String> = (before..scope.node_count())
        .map(|i| scope.node(i).unwrap().name.clone())
        .filter(|n| n.starts_with("ls"))
        .collect();
    assert_eq!(named, vec!["ls", "ls_1/Transpose"]);
}

#[test]
fn softmax_needs_a_known_rank_and_a_dimension() {
    let mut scope = Scope::new();
    let p = array_ops::placeholder(&mut scope, DataType::Float, "p").unwrap();
    assert_eq!(nn::softmax(&mut scope, p, -1, ""), Err(Error::UnknownRank));
    let x = floats(&mut scope, &[2, 3], "x");
    assert_eq!(nn::softmax(&mut scope, x, 2, ""), Err(Error::AxisOutOfRange));
    assert_eq!(nn::softmax(&mut scope, x, -2, ""), Err(Error::AxisOutOfRange));
    let s = floats(&mut scope, &[], "s");
    assert_eq!(nn::softmax(&mut scope, s, -1, ""), Err(Error::AxisOutOfRange));
    let mut other = Scope::new();
    assert_eq!(nn::softmax(&mut other, x, -1, ""), Err(Error::UnknownRank));
    assert_eq!(scope.node_count(), 3);
}

#[test]
fn softmax_failure_names_its_stage() {
    let mut scope = Scope::new();
    let x = floats(&mut scope, &[2, 3, 4], "x");
    floats(&mut scope, &[1], "taken");
    let r = nn::softmax(&mut scope, x, 0, "taken");
    assert_eq!(
        r,
        Err(Error::During(Stage::Primitive, Box::new(Error::DuplicateName)))
    );
    assert_eq!(scope.prefix().as_str(), "");
}

#[test]
fn flatten_with_known_sizes_is_one_reshape() {
    let mut scope = Scope::new();
    let x = floats(&mut scope, &[2, 3, 4], "x");
    let before = scope.node_count();
    let y = nn::flatten_outer_dims(&mut scope, x).unwrap();
    assert_eq!(kinds_from(&scope, before), vec![OpKind::Const, OpKind::Reshape]);
    assert_eq!(y.get_shape(&scope), known(&[6, 4]));
    assert_eq!(scope.static_value(Tensor { ident: scope.node(before).unwrap().ident, index: 0, dtype: DataType::Int64 }), Some(vec![6, 4]));
    let v = floats(&mut scope, &[5], "v");
    let w = nn::flatten_outer_dims(&mut scope, v).unwrap();
    assert_eq!(w.get_shape(&scope), known(&[1, 5]));
    let e = floats(&mut scope, &[0, 7], "e");
    let f = nn::flatten_outer_dims(&mut scope, e).unwrap();
    assert_eq!(f.get_shape(&scope), known(&[0, 7]));
}

#[test]
fn flatten_with_unknown_sizes_is_computed_in_the_graph() {
    let mut scope = Scope::new();
    let p = array_ops::placeholder(&mut scope, DataType::Float, "p").unwrap();
    let p = p.set_shape(&mut scope, &ShapeHint { dims: Some(vec![None, Some(3)]) }).unwrap();
    let before = scope.node_count();
    let y = nn::flatten_outer_dims(&mut scope, p).unwrap();
    assert_eq!(
        kinds_from(&scope, before),
        vec![
            OpKind::Const,
            OpKind::Shape,
            OpKind::Const,
            OpKind::Sub,
            OpKind::Const,
            OpKind::ExpandDims,
            OpKind::Const,
            OpKind::Slice,
            OpKind::Const,
            OpKind::Const,
            OpKind::ConcatV2,
            OpKind::Reshape,
        ]
    );
    assert_eq!(y.dtype, DataType::Float);
    assert_eq!(y.get_shape(&scope), ShapeHint { dims: Some(vec![None, None]) });
}
