use tensor_graph::ops::array_ops;
use tensor_graph::prelude::{DataType, Operand, Scope, ShapeHint, Values};

fn known(sizes: &[i64]) -> ShapeHint {
    ShapeHint { dims: Some(sizes.iter().map(|s| Some(*s)).collect()) }
}

#[test]
fn test_concat() {
    let mut context = Scope::new();
    let t1 = context.constant(Values::Int32(vec![1, 2, 3, 4, 5, 6]), vec![2, 3], "t1").unwrap();
    let t2 = context.constant(Values::Int32(vec![7, 8, 9, 10, 11, 12]), vec![2, 3], "t2").unwrap();
    let op1 = array_ops::concat(&mut context, vec![t1, t2], 0, "").unwrap();
    let op2 = array_ops::concat(&mut context, vec![t1, t2], 1, "").unwrap();
    assert_eq!(op1.get_shape(&context), known(&[4, 3]));
    assert_eq!(op2.get_shape(&context), known(&[2, 6]));
}

#[test]
fn test_gather() {
    let mut context = Scope::new();
    let x = context.constant(Values::Int32(vec![0, 1, 2, 3, 4, 5]), vec![6], "x").unwrap();
    let indices = context.constant(Values::Int32(vec![2, 0, 2, 5]), vec![4], "gather").unwrap();
    let op = array_ops::gather(&mut context, x, indices, "").unwrap();
    assert_eq!(op.dtype, DataType::Int32);
    assert_eq!(context.static_value(op), Some(vec![2, 0, 2, 5]));
}

#[test]
fn test_reshape() {
    let mut context = Scope::new();
    let x = context
        .constant(Values::Int32(vec![1, 2, 3, 4, 5, 6, 7, 8, 9]), vec![9], "x")
        .unwrap();
    let y = context
        .constant(Values::Int32(vec![1, 2, 3, 4, 5, 6, 7, 8, 9]), vec![3, 3], "y")
        .unwrap();

    let target = context.constant(Values::Int32(vec![3, 3]), vec![2], "").unwrap();
    let op1 = array_ops::reshape(&mut context, x, Operand::Tensor(target), "").unwrap();

    let target = context.constant(Values::Int32(vec![-1]), vec![1], "").unwrap();
    let op2 = array_ops::reshape(&mut context, y, Operand::Tensor(target), "").unwrap();

    assert_eq!(op1.get_shape(&context), known(&[3, 3]));
    assert_eq!(op2.get_shape(&context), known(&[9]));
}

#[test]
fn test_shape() {
    let mut context = Scope::new();
    let x = context
        .constant(Values::Int32(vec![1, 2, 3, 4, 5, 6, 7, 8, 9]), vec![3, 3], "x")
        .unwrap();
    let op = array_ops::shape(&mut context, x, Some(DataType::Int64), "").unwrap();
    assert_eq!(op.dtype, DataType::Int64);
    assert_eq!(context.static_value(op), Some(vec![3, 3]));
}

#[test]
fn test_size() {
    let mut context = Scope::new();
    let x = context
        .constant(Values::Int32(vec![1, 1, 1, 2, 2, 2, 3, 3, 3, 4, 4, 4]), vec![2, 2, 3], "x")
        .unwrap();
    let op = array_ops::size(&mut context, x, "").unwrap();
    assert_eq!(op.dtype, DataType::Int32);
    assert_eq!(context.static_value(op), Some(vec![12]));
}

fn ints(scope: &mut Scope, values: Vec<i32>, sizes: Vec<i64>, name: &str) -> tensor_graph::tensor::Tensor {
    scope.constant(Values::Int32(values), sizes, name).unwrap()
}

#[test]
fn concat_refuses_mixed_types_before_anything_is_installed() {
    let mut context = Scope::new();
    let a = ints(&mut context, vec![1, 2], vec![2], "a");
    let b = context.constant(Values::Int64(vec![3, 4]), vec![2], "b").unwrap();
    let calls = context.backend_calls().len();
    let r = array_ops::concat(&mut context, vec![a, b], 0, "");
    assert_eq!(r, Err(tensor_graph::Error::InputTypeMismatch));
    assert_eq!(context.node_count(), 2);
    assert_eq!(context.backend_calls().len(), calls);
    let none = array_ops::concat(&mut context, vec![], 0, "");
    assert_eq!(none, Err(tensor_graph::Error::ArgumentCount));
    assert_eq!(context.backend_calls().len(), calls);
}

#[test]
fn concat_shapes() {
    let mut context = Scope::new();
    let a = ints(&mut context, vec![0; 6], vec![2, 3], "a");
    let b = ints(&mut context, vec![0; 12], vec![4, 3], "b");
    let c = ints(&mut context, vec![0; 3], vec![3], "c");
    let p = array_ops::placeholder(&mut context, DataType::Int32, "p").unwrap();
    let q = p.set_shape(&mut context, &ShapeHint { dims: Some(vec![None, Some(3)]) }).unwrap();
    let along0 = array_ops::concat(&mut context, vec![a, b], 0, "").unwrap();
    assert_eq!(along0.get_shape(&context), known(&[6, 3]));
    let negative = array_ops::concat(&mut context, vec![a, b], -2, "").unwrap();
    assert_eq!(negative.get_shape(&context), known(&[6, 3]));
    let disagree = array_ops::concat(&mut context, vec![a, b], 1, "").unwrap();
    assert_eq!(disagree.get_shape(&context), ShapeHint { dims: Some(vec![None, Some(6)]) });
    let ranks = array_ops::concat(&mut context, vec![a, c], 0, "").unwrap();
    assert_eq!(ranks.get_shape(&context), ShapeHint { dims: None });
    let beyond = array_ops::concat(&mut context, vec![a, b], 2, "").unwrap();
    assert_eq!(beyond.get_shape(&context), ShapeHint { dims: None });
    let open = array_ops::concat(&mut context, vec![a, q], 0, "").unwrap();
    assert_eq!(open.get_shape(&context), ShapeHint { dims: Some(vec![None, Some(3)]) });
    let open1 = array_ops::concat(&mut context, vec![a, q], 1, "").unwrap();
    assert_eq!(open1.get_shape(&context), ShapeHint { dims: Some(vec![Some(2), Some(6)]) });
    let single = array_ops::concat(&mut context, vec![a], 1, "").unwrap();
    assert_eq!(single.get_shape(&context), known(&[2, 3]));
}

#[test]
fn expand_dims_shapes() {
    let mut context = Scope::new();
    let t = ints(&mut context, vec![1, 2], vec![2], "t");
    let t2 = ints(&mut context, vec![0; 30], vec![2, 3, 5], "t2");
    let shapes: Vec<(tensor_graph::tensor::Tensor, i32, Vec<i64>)> = vec![
        (t, 0, vec![1, 2]),
        (t, 1, vec![2, 1]),
        (t, -1, vec![2, 1]),
        (t2, 0, vec![1, 2, 3, 5]),
        (t2, 2, vec![2, 3, 1, 5]),
        (t2, 3, vec![2, 3, 5, 1]),
        (t2, -4, vec![1, 2, 3, 5]),
    ];
    for (input, axis, expected) in shapes {
        let e = array_ops::expand_dims(&mut context, input, axis, "").unwrap();
        assert_eq!(e.get_shape(&context), known(&expected));
        assert_eq!(e.dtype, DataType::Int32);
    }
    let out = array_ops::expand_dims(&mut context, t2, 4, "").unwrap();
    assert_eq!(out.get_shape(&context), ShapeHint { dims: None });
    let out = array_ops::expand_dims(&mut context, t2, -5, "").unwrap();
    assert_eq!(out.get_shape(&context), ShapeHint { dims: None });
}

#[test]
fn fill_and_zeros() {
    let mut context = Scope::new();
    let dims = ints(&mut context, vec![2, 3], vec![2], "dims");
    let f = array_ops::fill(&mut context, dims, Values::Int64(vec![9]), "").unwrap();
    assert_eq!(f.dtype, DataType::Int64);
    assert_eq!(f.get_shape(&context), known(&[2, 3]));
    let two = array_ops::fill(&mut context, dims, Values::Int64(vec![9, 9]), "");
    assert_eq!(two, Err(tensor_graph::Error::TypeMismatch));
    for dtype in [
        DataType::Bool,
        DataType::Double,
        DataType::Float,
        DataType::Int32,
        DataType::UInt8,
        DataType::Int16,
        DataType::Int8,
        DataType::Int64,
        DataType::String,
        DataType::QUInt8,
        DataType::QInt16,
        DataType::QUInt16,
        DataType::QInt32,
        DataType::BFloat16,
        DataType::Complex64,
        DataType::Complex128,
    ] {
        let z = array_ops::zeros(&mut context, dims, dtype, "").unwrap();
        assert_eq!(z.dtype, dtype);
        assert_eq!(z.get_shape(&context), known(&[2, 3]));
    }
    let nodes = context.node_count();
    for dtype in [
        DataType::Resource,
        DataType::Variant,
        DataType::Half,
        DataType::UInt16,
        DataType::UInt32,
        DataType::UInt64,
        DataType::QInt8,
    ] {
        assert_eq!(
            array_ops::zeros(&mut context, dims, dtype, ""),
            Err(tensor_graph::Error::UnsupportedType)
        );
    }
    assert_eq!(context.node_count(), nodes);
    let p = array_ops::placeholder(&mut context, DataType::Int32, "p").unwrap();
    let open = array_ops::zeros(&mut context, p, DataType::Float, "").unwrap();
    assert_eq!(open.get_shape(&context), ShapeHint { dims: None });
    let p = p.set_shape(&mut context, &known(&[3])).unwrap();
    let ranked = array_ops::zeros(&mut context, p, DataType::Float, "").unwrap();
    assert_eq!(ranked.get_shape(&context), ShapeHint { dims: Some(vec![None, None, None]) });
    let bad = ints(&mut context, vec![2, -3], vec![2], "bad");
    let unknown = array_ops::zeros(&mut context, bad, DataType::Float, "").unwrap();
    assert_eq!(unknown.get_shape(&context), ShapeHint { dims: None });
}

#[test]
fn gather_checks_indices() {
    let mut context = Scope::new();
    let x = ints(&mut context, vec![0, 1, 2, 3, 4, 5], vec![6], "x");
    let f = context.constant(Values::Raw(DataType::Float, vec![0]), vec![1], "f").unwrap();
    assert_eq!(
        array_ops::gather(&mut context, x, f, ""),
        Err(tensor_graph::Error::UnsupportedType)
    );
    let beyond = context.constant(Values::Int64(vec![6]), vec![1], "beyond").unwrap();
    let g = array_ops::gather(&mut context, x, beyond, "").unwrap();
    assert_eq!(context.static_value(g), None);
    assert_eq!(g.get_shape(&context), known(&[1]));
    let m = ints(&mut context, vec![0; 6], vec![2, 3], "m");
    let idx = ints(&mut context, vec![1, 0, 1, 1], vec![2, 2], "idx");
    let rows = array_ops::gather(&mut context, m, idx, "").unwrap();
    assert_eq!(rows.get_shape(&context), known(&[2, 2, 3]));
    assert_eq!(context.static_value(rows), None);
    let picked = array_ops::gather(&mut context, x, idx, "").unwrap();
    assert_eq!(picked.get_shape(&context), known(&[2, 2]));
    assert_eq!(context.static_value(picked), Some(vec![1, 0, 1, 1]));
}

#[test]
fn reshape_shapes() {
    let mut context = Scope::new();
    let x = ints(&mut context, vec![0; 24], vec![2, 3, 4], "x");
    let cases: Vec<(Vec<i64>, ShapeHint)> = vec![
        (vec![6, 4], known(&[6, 4])),
        (vec![-1], known(&[24])),
        (vec![4, -1], known(&[4, 6])),
        (vec![-1, 2, 3], known(&[4, 2, 3])),
        (vec![5, -1], ShapeHint { dims: Some(vec![Some(5), None]) }),
        (vec![-1, -1], ShapeHint { dims: Some(vec![None, None]) }),
        (vec![0, -1], ShapeHint { dims: Some(vec![Some(0), None]) }),
        (vec![-2, 24], ShapeHint { dims: Some(vec![None, Some(24)]) }),
        (vec![], known(&[])),
    ];
    for (target, expected) in cases {
        let r = array_ops::reshape(&mut context, x, Operand::Int64s(target), "").unwrap();
        assert_eq!(r.get_shape(&context), expected);
        assert_eq!(r.dtype, DataType::Int32);
    }
    let p = array_ops::placeholder(&mut context, DataType::Int32, "p").unwrap();
    let open = array_ops::reshape(&mut context, x, Operand::Tensor(p), "").unwrap();
    assert_eq!(open.get_shape(&context), ShapeHint { dims: None });
    let p = p.set_shape(&mut context, &known(&[2])).unwrap();
    let ranked = array_ops::reshape(&mut context, x, Operand::Tensor(p), "").unwrap();
    assert_eq!(ranked.get_shape(&context), ShapeHint { dims: Some(vec![None, None]) });
    let q = array_ops::placeholder(&mut context, DataType::Float, "q").unwrap();
    let wild = array_ops::reshape(&mut context, q, Operand::Int32s(vec![-1, 3]), "").unwrap();
    assert_eq!(wild.get_shape(&context), ShapeHint { dims: Some(vec![None, Some(3)]) });
}

#[test]
fn reshape_round_trip() {
    let mut context = Scope::new();
    let x = context.constant(Values::Raw(DataType::Double, vec![0; 24]), vec![2, 3, 4], "x").unwrap();
    let y = array_ops::reshape(&mut context, x, Operand::Int64s(vec![-1, 2]), "").unwrap();
    assert_eq!(y.get_shape(&context), known(&[12, 2]));
    let z = array_ops::reshape(&mut context, y, Operand::Int64s(vec![2, 3, 4]), "").unwrap();
    assert_eq!(z.get_shape(&context), x.get_shape(&context));
    assert_eq!(z.dtype, x.dtype);
    assert_ne!(z, x);
}

#[test]
fn shape_op_types() {
    let mut context = Scope::new();
    let x = ints(&mut context, vec![0; 9], vec![3, 3], "x");
    let s = array_ops::shape(&mut context, x, None, "").unwrap();
    assert_eq!(s.dtype, DataType::Int32);
    assert_eq!(s.get_shape(&context), known(&[2]));
    assert_eq!(context.static_value(s), Some(vec![3, 3]));
    assert_eq!(
        array_ops::shape(&mut context, x, Some(DataType::Float), ""),
        Err(tensor_graph::Error::UnsupportedType)
    );
    let p = array_ops::placeholder(&mut context, DataType::Int32, "p").unwrap();
    let open = array_ops::shape(&mut context, p, None, "").unwrap();
    assert_eq!(open.get_shape(&context), ShapeHint { dims: Some(vec![None]) });
    assert_eq!(context.static_value(open), None);
    let p = p.set_shape(&mut context, &ShapeHint { dims: Some(vec![None, Some(2)]) }).unwrap();
    let partly = array_ops::shape(&mut context, p, Some(DataType::Int64), "").unwrap();
    assert_eq!(partly.get_shape(&context), known(&[2]));
    assert_eq!(context.static_value(partly), None);
    let big = array_ops::placeholder(&mut context, DataType::Int32, "big").unwrap();
    let big = big.set_shape(&mut context, &known(&[1 << 40])).unwrap();
    let narrow = array_ops::shape(&mut context, big, None, "").unwrap();
    assert_eq!(context.static_value(narrow), None);
    let wide = array_ops::shape(&mut context, big, Some(DataType::Int64), "").unwrap();
    assert_eq!(context.static_value(wide), Some(vec![1 << 40]));
}

#[test]
fn size_op_values() {
    let mut context = Scope::new();
    let s = ints(&mut context, vec![5], vec![], "s");
    let n = array_ops::size(&mut context, s, "").unwrap();
    assert_eq!(context.static_value(n), Some(vec![1]));
    assert_eq!(n.get_shape(&context), known(&[]));
    let e = ints(&mut context, vec![], vec![3, 0], "e");
    let n = array_ops::size(&mut context, e, "").unwrap();
    assert_eq!(context.static_value(n), Some(vec![0]));
    let p = array_ops::placeholder(&mut context, DataType::Int32, "p").unwrap();
    let p = p.set_shape(&mut context, &known(&[1 << 20, 1 << 20])).unwrap();
    let n = array_ops::size(&mut context, p, "").unwrap();
    assert_eq!(context.static_value(n), None);
    let q = array_ops::placeholder(&mut context, DataType::Int32, "q").unwrap();
    let q = q.set_shape(&mut context, &known(&[i64::MAX, i64::MAX])).unwrap();
    let n = array_ops::size(&mut context, q, "").unwrap();
    assert_eq!(context.static_value(n), None);
}

#[test]
fn rank_of_known_rank_is_a_constant() {
    for r in 0..=8usize {
        let mut context = Scope::new();
        let sizes = vec![1i64; r];
        let x = ints(&mut context, vec![7], sizes, "x");
        let before = context.node_count();
        let n = array_ops::rank(&mut context, x, "").unwrap();
        assert_eq!(context.node_count(), before + 1);
        assert_eq!(context.kind_of(n), Some(tensor_graph::kind::OpKind::Const));
        assert_eq!(context.static_value(n), Some(vec![r as i64]));
        assert_eq!(n.dtype, DataType::Int32);
        assert_eq!(n.get_shape(&context), known(&[]));
        assert_eq!(context.node(before).unwrap().name, "Rank/Const");
        assert_eq!(context.prefix().as_str(), "");
    }
}

#[test]
fn rank_of_unknown_rank_is_computed_in_the_graph() {
    let mut context = Scope::new();
    let p = array_ops::placeholder(&mut context, DataType::Float, "p").unwrap();
    let n = array_ops::rank(&mut context, p, "r").unwrap();
    assert_eq!(context.kind_of(n), Some(tensor_graph::kind::OpKind::Rank));
    assert_eq!(context.static_value(n), None);
    assert_eq!(n.dtype, DataType::Int32);
    assert_eq!(n.get_shape(&context), known(&[]));
    assert_eq!(context.node(1).unwrap().name, "Rank");
    let m = array_ops::rank(&mut context, p, "r").unwrap();
    assert_eq!(context.kind_of(m), Some(tensor_graph::kind::OpKind::Rank));
    assert_eq!(context.node(2).unwrap().name, "Rank_1");
    assert_eq!(array_ops::rank(&mut context, p, "a\0"), Err(tensor_graph::Error::NulError));
}

#[test]
fn squeeze_sets_its_dimensions() {
    let mut context = Scope::new();
    let x = ints(&mut context, vec![1, 2], vec![1, 2, 1], "x");
    let before = context.backend_calls().len();
    let s = array_ops::squeeze(&mut context, x, Some(vec![0, 2]), "").unwrap();
    assert_eq!(s.dtype, DataType::Int32);
    let calls = &context.backend_calls()[before..];
    assert_eq!(calls.len(), 4);
    assert_eq!(
        calls[1],
        tensor_graph::backend::BackendCall::SetAttr(tensor_graph::attr::Attribute {
            key: "squeeze_dims".to_string(),
            list: true,
            value: tensor_graph::attr::AttrValue::Int(vec![0, 2]),
        })
    );
    let before = context.backend_calls().len();
    array_ops::squeeze(&mut context, x, None, "").unwrap();
    assert_eq!(context.backend_calls().len() - before, 3);
}

#[test]
fn squeeze_shapes() {
    let mut context = Scope::new();
    let x = ints(&mut context, vec![0; 6], vec![1, 2, 1, 3, 1], "x");
    let cases: Vec<(Option<Vec<i64>>, ShapeHint)> = vec![
        (None, known(&[2, 3])),
        (Some(vec![0]), known(&[2, 1, 3, 1])),
        (Some(vec![0, 2]), known(&[2, 3, 1])),
        (Some(vec![-1, 0]), known(&[2, 1, 3])),
        (Some(vec![2, 2, -3]), known(&[1, 2, 3, 1])),
        (Some(vec![]), known(&[1, 2, 1, 3, 1])),
        (Some(vec![5]), ShapeHint { dims: None }),
        (Some(vec![-6]), ShapeHint { dims: None }),
    ];
    for (axis, expected) in cases {
        let s = array_ops::squeeze(&mut context, x, axis, "").unwrap();
        assert_eq!(s.get_shape(&context), expected);
    }
    let p = array_ops::placeholder(&mut context, DataType::Float, "p").unwrap();
    let open = array_ops::squeeze(&mut context, p, Some(vec![0]), "").unwrap();
    assert_eq!(open.get_shape(&context), ShapeHint { dims: None });
    let p = p.set_shape(&mut context, &ShapeHint { dims: Some(vec![None, Some(1), Some(4)]) }).unwrap();
    let partly = array_ops::squeeze(&mut context, p, None, "").unwrap();
    assert_eq!(partly.get_shape(&context), ShapeHint { dims: None });
    let listed = array_ops::squeeze(&mut context, p, Some(vec![1]), "").unwrap();
    assert_eq!(listed.get_shape(&context), ShapeHint { dims: Some(vec![None, Some(4)]) });
}

#[test]
fn slice_shapes() {
    let mut context = Scope::new();
    let x = ints(&mut context, vec![0; 18], vec![3, 2, 3], "x");
    let cut = array_ops::slice(
        &mut context,
        x,
        Operand::Int32s(vec![1, 0, 0]),
        Operand::Int32s(vec![1, 2, 3]),
        "",
    )
    .unwrap();
    assert_eq!(cut.get_shape(&context), known(&[1, 2, 3]));
    let rest = array_ops::slice(
        &mut context,
        x,
        Operand::Int64s(vec![1, 0, 2]),
        Operand::Int64s(vec![-1, 1, -1]),
        "",
    )
    .unwrap();
    assert_eq!(rest.get_shape(&context), known(&[2, 1, 1]));
    let beyond = array_ops::slice(
        &mut context,
        x,
        Operand::Int64s(vec![4, 0, -1]),
        Operand::Int64s(vec![-1, -2, -1]),
        "",
    )
    .unwrap();
    assert_eq!(beyond.get_shape(&context), ShapeHint { dims: Some(vec![None, None, None]) });
    let p = array_ops::placeholder(&mut context, DataType::Int32, "p").unwrap();
    let open = array_ops::slice(&mut context, x, Operand::Int32s(vec![0, 0, 0]), Operand::Tensor(p), "").unwrap();
    assert_eq!(open.get_shape(&context), ShapeHint { dims: Some(vec![None, None, None]) });
    let from = array_ops::slice(&mut context, x, Operand::Tensor(p), Operand::Int32s(vec![-1, 2, 3]), "").unwrap();
    assert_eq!(from.get_shape(&context), ShapeHint { dims: Some(vec![None, Some(2), Some(3)]) });
    let q = array_ops::placeholder(&mut context, DataType::Float, "q").unwrap();
    let dark = array_ops::slice(&mut context, q, Operand::Tensor(p), Operand::Tensor(p), "").unwrap();
    assert_eq!(dark.get_shape(&context), ShapeHint { dims: None });
}

#[test]
fn slice_installs_its_operands() {
    let mut context = Scope::new();
    let x = ints(&mut context, vec![0; 6], vec![2, 3], "x");
    let before = context.node_count();
    let s = array_ops::slice(
        &mut context,
        x,
        Operand::Int32s(vec![0, 1]),
        Operand::Int32s(vec![2, -1]),
        "cut",
    )
    .unwrap();
    assert_eq!(context.node_count(), before + 3);
    assert_eq!(context.node(before + 2).unwrap().name, "cut");
    assert_eq!(s.dtype, DataType::Int32);
}

#[test]
fn transpose_with_and_without_permutation() {
    let mut context = Scope::new();
    let x = ints(&mut context, vec![0; 24], vec![2, 3, 4], "x");
    let t = array_ops::transpose(&mut context, x, Some(Operand::Int32s(vec![0, 2, 1])), "").unwrap();
    assert_eq!(t.get_shape(&context), known(&[2, 4, 3]));
    assert_eq!(context.node(context.node_count() - 1).unwrap().name, "transpose/Transpose");
    let bad = array_ops::transpose(&mut context, x, Some(Operand::Int32s(vec![0, 3, 1])), "").unwrap();
    assert_eq!(bad.get_shape(&context), ShapeHint { dims: None });
    let short = array_ops::transpose(&mut context, x, Some(Operand::Int32s(vec![1, 0])), "").unwrap();
    assert_eq!(short.get_shape(&context), ShapeHint { dims: None });
    let before = context.node_count();
    let r = array_ops::transpose(&mut context, x, None, "flip").unwrap();
    assert_eq!(r.dtype, DataType::Int32);
    let added: Vec<String> =
        (before..context.node_count()).map(|i| context.node(i).unwrap().name.clone()).collect();
    assert_eq!(
        added,
        vec![
            "flip/Rank/Const",
            "flip/Const",
            "flip/Sub",
            "flip/Const_1",
            "flip/Const_2",
            "flip/Range",
            "flip/Sub_1",
            "flip/Transpose",
        ]
    );
    assert_eq!(context.prefix().as_str(), "");
    assert_eq!(
        array_ops::transpose(&mut context, x, None, "a\0"),
        Err(tensor_graph::Error::NulError)
    );
}

#[test]
fn where_cond_takes_a_boolean_condition() {
    let mut context = Scope::new();
    let c = context.constant(Values::Bool(vec![true, false, true, true]), vec![2, 2], "c").unwrap();
    let x = ints(&mut context, vec![0; 4], vec![2, 2], "x");
    let w = array_ops::where_cond(&mut context, c, None, None, "").unwrap();
    assert_eq!(w.dtype, DataType::Int64);
    assert_eq!(w.get_shape(&context), ShapeHint { dims: Some(vec![None, Some(2)]) });
    assert_eq!(context.node(context.node_count() - 1).unwrap().name, "Where");
    assert_eq!(
        array_ops::where_cond(&mut context, x, None, None, ""),
        Err(tensor_graph::Error::UnsupportedType)
    );
    assert_eq!(
        array_ops::where_cond(&mut context, c, Some(x), None, ""),
        Err(tensor_graph::Error::ArgumentCount)
    );
    assert_eq!(
        array_ops::where_cond(&mut context, c, None, Some(x), ""),
        Err(tensor_graph::Error::ArgumentCount)
    );
    assert_eq!(
        array_ops::where_cond(&mut context, c, Some(x), Some(x), ""),
        Err(tensor_graph::Error::Unimplemented)
    );
}

#[test]
fn operands_become_constants() {
    let mut context = Scope::new();
    let t = ints(&mut context, vec![1], vec![], "t");
    assert_eq!(Operand::Tensor(t).into_tensor(&mut context, "ignored"), Ok(t));
    assert_eq!(context.node_count(), 1);
    let a = Operand::Int32(5).into_tensor(&mut context, "").unwrap();
    assert_eq!((a.dtype, a.get_shape(&context), context.static_value(a)), (DataType::Int32, known(&[]), Some(vec![5])));
    let b = Operand::Int64(-5).into_tensor(&mut context, "").unwrap();
    assert_eq!((b.dtype, b.get_shape(&context), context.static_value(b)), (DataType::Int64, known(&[]), Some(vec![-5])));
    let c = Operand::Int32s(vec![1, -2, 3]).into_tensor(&mut context, "").unwrap();
    assert_eq!((c.dtype, c.get_shape(&context), context.static_value(c)), (DataType::Int32, known(&[3]), Some(vec![1, -2, 3])));
    let d = Operand::Int64s(vec![]).into_tensor(&mut context, "named").unwrap();
    assert_eq!((d.dtype, d.get_shape(&context), context.static_value(d)), (DataType::Int64, known(&[0]), Some(vec![])));
    assert_eq!(context.node(4).unwrap().name, "named");
}

#[test]
fn math_ops_install_their_operands() {
    let mut context = Scope::new();
    let x = ints(&mut context, vec![4], vec![], "x");
    let d = tensor_graph::ops::math_ops::sub(&mut context, x, Operand::Int32(1), "").unwrap();
    assert_eq!(d.dtype, DataType::Int32);
    assert_eq!(d.get_shape(&context), ShapeHint { dims: None });
    let r = tensor_graph::ops::math_ops::range(
        &mut context,
        Operand::Int64(0),
        Operand::Int64(10),
        Operand::Int64(2),
        "evens",
    )
    .unwrap();
    assert_eq!(r.dtype, DataType::Int64);
    assert_eq!(r.get_shape(&context), ShapeHint { dims: Some(vec![None]) });
    let all: Vec<String> = (0..context.node_count()).map(|i| context.node(i).unwrap().name.clone()).collect();
    assert_eq!(all, vec!["x", "Const", "Sub", "Const_1", "Const_2", "Const_3", "evens"]);
}
