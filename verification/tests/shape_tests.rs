use tensor_graph::attr::{lane_width, Values};
use tensor_graph::dtype::DataType;
use tensor_graph::infer;
use tensor_graph::registry::{Binding, Registry};
use tensor_graph::shape::{copied, count_elements, ShapeHint};
use tensor_graph::tensor::is_homogeneous;
use tensor_graph::text::{decimal_string, has_nul, is_listed, joined, numbered_name};

fn hint(dims: &[Option<i64>]) -> ShapeHint {
    ShapeHint { dims: Some(dims.to_vec()) }
}

#[test]
fn shape_hint_basics() {
    assert_eq!(ShapeHint::unknown(), ShapeHint { dims: None });
    assert_eq!(ShapeHint::exact(&vec![2, 3]), hint(&[Some(2), Some(3)]));
    assert_eq!(ShapeHint::of_rank(2), hint(&[None, None]));
    assert_eq!(ShapeHint::of_rank(0), hint(&[]));
    assert_eq!(ShapeHint::unknown().rank(), None);
    assert_eq!(hint(&[None, Some(1), None]).rank(), Some(3));
    assert_eq!(hint(&[Some(2), Some(3)]).sizes(), Some(vec![2, 3]));
    assert_eq!(hint(&[Some(2), None]).sizes(), None);
    assert_eq!(ShapeHint::unknown().sizes(), None);
    assert!(hint(&[Some(0), None]).is_well_formed());
    assert!(!hint(&[Some(0), Some(-1)]).is_well_formed());
    assert!(ShapeHint::unknown().is_well_formed());
    let h = hint(&[Some(4), None]);
    assert_eq!(h.copy(), h);
    assert!(h.same(&hint(&[Some(4), None])));
    assert!(!h.same(&hint(&[Some(4), Some(1)])));
    assert!(!h.same(&hint(&[Some(4)])));
    assert!(!h.same(&ShapeHint::unknown()));
    assert!(ShapeHint::unknown().same(&ShapeHint::unknown()));
    assert_eq!(copied(&vec![1u8, 2, 3]), vec![1u8, 2, 3]);
}

#[test]
fn shape_hint_compatibility_and_merge() {
    let a = hint(&[Some(2), None, Some(4)]);
    let b = hint(&[None, Some(3), Some(4)]);
    assert!(a.is_compatible(&b));
    assert_eq!(a.merge(&b), hint(&[Some(2), Some(3), Some(4)]));
    assert_eq!(b.merge(&a), hint(&[Some(2), Some(3), Some(4)]));
    assert!(a.is_compatible(&ShapeHint::unknown()));
    assert_eq!(a.merge(&ShapeHint::unknown()), a);
    assert_eq!(ShapeHint::unknown().merge(&a), a);
    assert!(!a.is_compatible(&hint(&[Some(2), None])));
    assert!(!a.is_compatible(&hint(&[Some(3), None, Some(4)])));
}

#[test]
fn element_counts() {
    assert_eq!(count_elements(&vec![]), Some(1));
    assert_eq!(count_elements(&vec![2, 3, 4]), Some(24));
    assert_eq!(count_elements(&vec![2, 0, 4]), Some(0));
    assert_eq!(count_elements(&vec![2, -1, 4]), None);
    assert_eq!(count_elements(&vec![i64::MAX, 1]), Some(i64::MAX));
    assert_eq!(count_elements(&vec![i64::MAX, 2]), None);
    assert_eq!(count_elements(&vec![1 << 32, 1 << 31]), None);
    assert_eq!(count_elements(&vec![1 << 31, 1 << 31]), Some(1 << 62));
    assert_eq!(count_elements(&vec![i64::MAX, i64::MAX, 0]), Some(0));
}

#[test]
fn normalize_axis() {
    assert_eq!(infer::normalize(0, 3), Some(0));
    assert_eq!(infer::normalize(2, 3), Some(2));
    assert_eq!(infer::normalize(3, 3), None);
    assert_eq!(infer::normalize(-1, 3), Some(2));
    assert_eq!(infer::normalize(-3, 3), Some(0));
    assert_eq!(infer::normalize(-4, 3), None);
    assert_eq!(infer::normalize(0, 0), None);
    assert_eq!(infer::normalize(i64::MIN, 3), None);
    assert_eq!(infer::normalize(i64::MAX, 3), None);
}

#[test]
fn inference_rules() {
    let m = hint(&[Some(2), Some(3)]);
    assert_eq!(infer::infer_concat(&vec![], 0), ShapeHint::unknown());
    assert_eq!(
        infer::infer_concat(&vec![hint(&[Some(i64::MAX)]), hint(&[Some(1)])], 0),
        hint(&[None])
    );
    assert_eq!(infer::count_static(&m), Some(6));
    assert_eq!(infer::count_static(&hint(&[Some(2), None])), None);
    assert_eq!(infer::count_static(&hint(&[Some(-2)])), None);
    assert_eq!(infer::infer_shape_of_shape(&m), hint(&[Some(2)]));
    assert_eq!(infer::infer_value_of_shape(&m, DataType::Int32), Some(vec![2, 3]));
    assert_eq!(infer::infer_value_of_shape(&m, DataType::Float), None);
    assert_eq!(infer::infer_value_of_size(&m), Some(vec![6]));
    assert_eq!(infer::infer_rank(&m), Some(2));
    assert_eq!(infer::infer_rank(&ShapeHint::unknown()), None);
    assert_eq!(infer::infer_gather_shape(&m, &hint(&[Some(5)])), hint(&[Some(5), Some(3)]));
    assert_eq!(infer::infer_gather_shape(&hint(&[]), &hint(&[Some(5)])), ShapeHint::unknown());
    assert_eq!(infer::infer_gather_shape(&m, &hint(&[])), hint(&[Some(3)]));
    assert_eq!(
        infer::infer_gather_value(&Some(vec![10, 20, 30]), Some(1), &Some(vec![2, 2, 0])),
        Some(vec![30, 30, 10])
    );
    assert_eq!(infer::infer_gather_value(&Some(vec![10, 20, 30]), Some(1), &Some(vec![3])), None);
    assert_eq!(infer::infer_gather_value(&Some(vec![10, 20, 30]), Some(1), &Some(vec![-1])), None);
    assert_eq!(infer::infer_gather_value(&Some(vec![10, 20, 30]), Some(2), &Some(vec![0])), None);
    assert_eq!(infer::infer_gather_value(&None, Some(1), &Some(vec![0])), None);
    assert_eq!(infer::infer_expand(&m, 1), hint(&[Some(2), Some(1), Some(3)]));
    assert_eq!(infer::infer_fill(&Some(vec![4, 5]), &ShapeHint::unknown()), hint(&[Some(4), Some(5)]));
    assert_eq!(infer::infer_transpose(&m, &Some(vec![1, 0])), hint(&[Some(3), Some(2)]));
    assert_eq!(infer::infer_transpose(&m, &None), ShapeHint::unknown());
    assert_eq!(
        infer::infer_reshape(&m, &Some(vec![3, -1]), &ShapeHint::unknown()),
        hint(&[Some(3), Some(2)])
    );
    assert_eq!(
        infer::infer_reshape(&m, &Some(vec![4, -1]), &ShapeHint::unknown()),
        hint(&[Some(4), None])
    );
}

#[test]
fn decimal_and_numbered_names() {
    assert_eq!(decimal_string(0), "0");
    assert_eq!(decimal_string(7), "7");
    assert_eq!(decimal_string(10), "10");
    assert_eq!(decimal_string(1234567890), "1234567890");
    assert_eq!(decimal_string(usize::MAX), usize::MAX.to_string());
    let base = "scope/Op".to_string();
    assert_eq!(numbered_name(&base, 0), "scope/Op");
    assert_eq!(numbered_name(&base, 1), "scope/Op_1");
    assert_eq!(numbered_name(&base, 120), "scope/Op_120");
    assert_eq!(joined(&base, "/x"), "scope/Op/x");
    assert!(has_nul("a\0b"));
    assert!(has_nul("\0"));
    assert!(!has_nul(""));
    assert!(!has_nul("héllo/0"));
    let names = vec!["a".to_string(), "b".to_string()];
    assert!(is_listed(&names, &"b".to_string()));
    assert!(!is_listed(&names, &"c".to_string()));
}

#[test]
fn values_know_their_type() {
    assert_eq!(Values::Bool(vec![true]).dtype(), DataType::Bool);
    assert_eq!(Values::Int32(vec![1]).dtype(), DataType::Int32);
    assert_eq!(Values::Int64(vec![1]).dtype(), DataType::Int64);
    assert_eq!(Values::Text(vec![]).dtype(), DataType::String);
    assert_eq!(Values::Raw(DataType::Half, vec![]).dtype(), DataType::Half);
    assert_eq!(Values::Int32(vec![-1, 2]).integers(), Some(vec![-1, 2]));
    assert_eq!(Values::Int64(vec![i64::MIN]).integers(), Some(vec![i64::MIN]));
    assert_eq!(Values::Bool(vec![true]).integers(), None);
    assert_eq!(Values::Raw(DataType::Half, vec![1, 2]).stored(), 2);
    assert!(Values::Raw(DataType::Half, vec![0xffff]).is_representable());
    assert!(!Values::Raw(DataType::Half, vec![0x1_0000]).is_representable());
    assert!(Values::Raw(DataType::Double, vec![u64::MAX]).is_representable());
    assert!(!Values::Raw(DataType::Int32, vec![0]).is_representable());
    assert!(Values::Raw(DataType::Complex128, vec![0; 4]).fills(&vec![2]));
    assert!(!Values::Raw(DataType::Complex128, vec![0; 4]).fills(&vec![4]));
    assert!(Values::Text(vec!["a".to_string()]).fills(&vec![]));
    assert_eq!(lane_width(DataType::QInt32), 32);
    assert_eq!(lane_width(DataType::String), 0);
    assert!(DataType::Int64.is_index());
    assert!(!DataType::UInt8.is_index());
}

#[test]
fn registry_issues_places_and_binds() {
    let mut registry = Registry::new();
    assert_eq!(registry.len(), 0);
    let a = registry.allocate();
    let b = registry.allocate();
    assert_eq!(registry.len(), 2);
    assert_eq!((a.slot, b.slot), (0, 1));
    assert!(registry.is_issued(a));
    assert_eq!(registry.find(a), None);
    assert_eq!(registry.resolve(a), None);
    registry.settle_place(a, 7);
    assert_eq!(registry.find(a), Some(7));
    assert_eq!(registry.find(b), None);
    registry.bind(a, 99, 2);
    assert_eq!(registry.resolve(a), Some(Binding { node: 99, outputs: 2 }));
    assert_eq!(registry.find(a), Some(7));
    assert_eq!(registry.resolve(b), None);
    let mut other = Registry::new();
    let c = other.allocate();
    assert_eq!(c.slot, 0);
    assert!(!registry.is_issued(c));
    assert_eq!(registry.find(c), None);
}

#[test]
fn registry_with_a_given_token() {
    let mut registry = Registry::with_token(7);
    assert_eq!(registry.len(), 0);
    let a = registry.allocate();
    assert_eq!((a.registry, a.slot), (7, 0));
    assert!(registry.is_issued(a));
    let mut other = Registry::with_token(8);
    let b = other.allocate();
    assert_eq!((b.registry, b.slot), (8, 0));
    assert!(!registry.is_issued(b));
    assert!(!other.is_issued(a));
}

#[test]
fn homogeneous_groups() {
    let mut scope = tensor_graph::scope::Scope::new();
    let a = scope.constant(Values::Int32(vec![1]), vec![], "").unwrap();
    let b = scope.constant(Values::Int64(vec![1]), vec![], "").unwrap();
    assert!(is_homogeneous(&vec![]));
    assert!(is_homogeneous(&vec![a]));
    assert!(is_homogeneous(&vec![a, a, a]));
    assert!(!is_homogeneous(&vec![a, a, b]));
}
