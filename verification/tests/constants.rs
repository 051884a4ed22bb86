use dmtools::ast::{FloatBits, PathOp, Prefab};
use dmtools::constants::Constant;

fn float(x: f32) -> FloatBits {
    FloatBits { bits: x.to_bits() }
}

#[test]
fn float_above_limit() {
    let sixty = float(60.0);
    assert_eq!(sixty.bits, 0x4270_0000);
    assert!(float(60.5).exceeds(sixty));
    assert!(float(101.0).exceeds(sixty));
    assert!(float(f32::INFINITY).exceeds(sixty));
    assert!(!float(60.0).exceeds(sixty));
    assert!(!float(59.99).exceeds(sixty));
    assert!(!float(0.0).exceeds(sixty));
}

#[test]
fn negative_and_nan_are_not_above() {
    let sixty = float(60.0);
    assert!(!float(-61.0).exceeds(sixty));
    assert!(!float(-0.0).exceeds(sixty));
    assert!(!float(f32::NEG_INFINITY).exceeds(sixty));
    assert!(!float(f32::NAN).exceeds(sixty));
}

#[test]
fn float_above_zero() {
    let zero = float(0.0);
    assert!(float(0.001).exceeds(zero));
    assert!(float(f32::MIN_POSITIVE).exceeds(zero));
    assert!(!float(0.0).exceeds(zero));
    assert!(!float(-1.0).exceeds(zero));
}

#[test]
fn float_comparison_agrees_with_the_numbers() {
    let values = [0.0f32, 0.5, 1.0, 59.0, 60.0, 60.000004, 61.0, 1e10, -3.0, f32::INFINITY];
    let limits = [0.0f32, 1.0, 60.0, 1e5];
    for v in values {
        for l in limits {
            assert_eq!(float(v).exceeds(float(l)), v > l);
        }
    }
}

#[test]
fn constant_is_above() {
    let sixty = float(60.0);
    assert!(Constant::Int(61).is_above(60, sixty));
    assert!(Constant::Int(101).is_above(60, sixty));
    assert!(!Constant::Int(60).is_above(60, sixty));
    assert!(!Constant::Int(-100).is_above(60, sixty));
    assert!(Constant::Float(float(60.5)).is_above(60, sixty));
    assert!(!Constant::Float(float(10.0)).is_above(60, sixty));
    assert!(!Constant::Null.is_above(60, sixty));
    assert!(!Constant::String("100".to_string()).is_above(60, sixty));
}

#[test]
fn constant_reads_as_text() {
    assert!(Constant::String("plating".to_string()).eq_str("plating"));
    assert!(Constant::Resource("icons/obj/x.dmi".to_string()).eq_str("icons/obj/x.dmi"));
    assert!(!Constant::String("plating".to_string()).eq_str("grille"));
    assert!(!Constant::Prefab(Prefab::new(vec![(PathOp::Slash, "obj".to_string())])).eq_str("/obj"));
    assert!(!Constant::Null.eq_str(""));
    assert!(!Constant::Int(1).eq_str("1"));
}

#[test]
fn string_constant() {
    assert_eq!(Constant::string("book-0"), Constant::String("book-0".to_string()));
}

#[test]
fn clone_is_deep() {
    let list = Constant::List(vec![
        (Constant::Int(1), None),
        (Constant::String("k".to_string()), Some(Constant::List(vec![(Constant::Null, None)]))),
        (Constant::Float(float(2.5)), Some(Constant::Resource("r".to_string()))),
    ]);
    assert_eq!(list.clone(), list);
    let fab = || Prefab::new(vec![(PathOp::Slash, "obj".to_string()), (PathOp::Slash, "item".to_string())]);
    assert_eq!(Constant::Prefab(fab()).clone(), Constant::Prefab(fab()));
    assert_eq!(Constant::Null.clone(), Constant::Null);
}
