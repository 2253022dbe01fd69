use ark_bn254::Fr;
use ark_ff::{BigInteger, PrimeField};
use zk_circuits::allocation::{AllocKind, allocate, resolve_assignment};
use zk_circuits::field::Felt;
use zk_circuits::gadgets::{compare, conditional_equal, enforce_compare, enforce_equal, evaluate};
use zk_circuits::system::{ConstraintSystem, FieldVar, SynthError};

fn new_cs() -> ConstraintSystem {
    ConstraintSystem { inner: ark_relations::r1cs::ConstraintSystem::new_ref() }
}

fn felt(v: u64) -> Felt {
    Felt::from_u64(v)
}

fn witness(cs: &mut ConstraintSystem, v: Felt) -> FieldVar {
    allocate(cs, Some(v), AllocKind::Witness).unwrap()
}

fn half_modulus() -> Felt {
    let mut b = Fr::MODULUS;
    b.div2();
    Felt { limbs: b.0 }
}

#[test]
fn felt_from_u64_limbs() {
    assert_eq!(felt(7).limbs, [7, 0, 0, 0]);
    assert_eq!(Felt::zero().limbs, [0, 0, 0, 0]);
    assert_eq!(Felt::one().limbs, [1, 0, 0, 0]);
}

#[test]
fn resolve_assignment_rules() {
    assert_eq!(resolve_assignment(Some(felt(1)), AllocKind::Witness, false), Ok(Some(felt(1))));
    assert_eq!(resolve_assignment(None, AllocKind::Witness, false), Err(SynthError::AssignmentMissing));
    assert_eq!(resolve_assignment(None, AllocKind::PublicInput, false), Err(SynthError::AssignmentMissing));
    assert_eq!(resolve_assignment(None, AllocKind::Witness, true), Ok(None));
    assert_eq!(resolve_assignment(None, AllocKind::PublicInput, true), Ok(None));
    assert_eq!(resolve_assignment(None, AllocKind::Constant, true), Err(SynthError::AssignmentMissing));
    assert_eq!(resolve_assignment(Some(felt(4)), AllocKind::Constant, false), Ok(Some(felt(4))));
}

#[test]
fn allocate_binds_values_by_kind() {
    let mut cs = new_cs();
    let w = witness(&mut cs, felt(11));
    assert_eq!(w.value(), Some(felt(11)));
    assert!(!w.is_constant());
    let c = allocate(&mut cs, Some(felt(12)), AllocKind::Constant).unwrap();
    assert_eq!(c.value(), Some(felt(12)));
    assert!(c.is_constant());
    let i = allocate(&mut cs, Some(felt(13)), AllocKind::PublicInput).unwrap();
    assert_eq!(i.value(), Some(felt(13)));
    assert!(allocate(&mut cs, None, AllocKind::PublicInput).is_err());
    assert!(cs.is_satisfied().unwrap());
}

#[test]
fn compare_with_itself() {
    for v in [0u64, 1, 19, 1000] {
        let mut cs = new_cs();
        let a = witness(&mut cs, felt(v));
        let b = witness(&mut cs, felt(v));
        assert_eq!(compare(&mut cs, &a, &b, true).unwrap().value(), Some(false));
        assert_eq!(compare(&mut cs, &a, &b, false).unwrap().value(), Some(true));
        assert!(cs.is_satisfied().unwrap());
    }
}

#[test]
fn compare_with_itself_above_half() {
    let mut cs = new_cs();
    let big = Felt { limbs: (-Fr::from(1u64)).into_bigint().0 };
    let a = witness(&mut cs, big);
    assert_eq!(compare(&mut cs, &a, &a, true).unwrap().value(), Some(false));
    assert_eq!(compare(&mut cs, &a, &a, false).unwrap().value(), Some(true));
    assert!(!cs.is_satisfied().unwrap());
}

#[test]
fn compare_orders_values() {
    let mut cs = new_cs();
    let a = witness(&mut cs, felt(30));
    let b = witness(&mut cs, felt(20));
    assert_eq!(compare(&mut cs, &a, &b, true).unwrap().value(), Some(true));
    assert_eq!(compare(&mut cs, &b, &a, true).unwrap().value(), Some(false));
    assert_eq!(compare(&mut cs, &b, &a, false).unwrap().value(), Some(false));
    assert!(cs.is_satisfied().unwrap());
}

#[test]
fn compare_at_half_modulus() {
    let mut cs = new_cs();
    let a = witness(&mut cs, half_modulus());
    let b = witness(&mut cs, felt(0));
    assert_eq!(compare(&mut cs, &a, &b, true).unwrap().value(), Some(true));
    assert_eq!(compare(&mut cs, &b, &a, true).unwrap().value(), Some(false));
    assert!(cs.is_satisfied().unwrap());
}

#[test]
fn enforce_compare_strict() {
    let mut cs = new_cs();
    let a = witness(&mut cs, felt(5));
    let b = witness(&mut cs, felt(4));
    enforce_compare(&mut cs, &a, &b, true).unwrap();
    assert!(cs.is_satisfied().unwrap());
    enforce_compare(&mut cs, &b, &a, false).unwrap();
    assert!(!cs.is_satisfied().unwrap());
}

#[test]
fn conditional_equal_false_condition_keeps_satisfied() {
    let mut cs = new_cs();
    let lhs = witness(&mut cs, felt(3));
    let rhs = witness(&mut cs, felt(4));
    let cond = compare(&mut cs, &lhs, &rhs, true).unwrap();
    assert_eq!(cond.value(), Some(false));
    conditional_equal(&mut cs, &lhs, &rhs, &cond).unwrap();
    assert!(cs.is_satisfied().unwrap());
}

#[test]
fn conditional_equal_true_condition_breaks_satisfaction() {
    let mut cs = new_cs();
    let lhs = witness(&mut cs, felt(4));
    let rhs = witness(&mut cs, felt(3));
    let cond = compare(&mut cs, &lhs, &rhs, true).unwrap();
    assert_eq!(cond.value(), Some(true));
    conditional_equal(&mut cs, &lhs, &rhs, &cond).unwrap();
    assert!(!cs.is_satisfied().unwrap());
}

#[test]
fn conditional_equal_true_condition_equal_values() {
    let mut cs = new_cs();
    let lhs = witness(&mut cs, felt(4));
    let rhs = witness(&mut cs, felt(4));
    let cond = compare(&mut cs, &lhs, &rhs, false).unwrap();
    conditional_equal(&mut cs, &lhs, &rhs, &cond).unwrap();
    assert!(cs.is_satisfied().unwrap());
}

#[test]
fn enforce_equal_values() {
    let mut cs = new_cs();
    let a = witness(&mut cs, felt(9));
    let b = witness(&mut cs, felt(9));
    enforce_equal(&mut cs, &a, &b).unwrap();
    assert!(cs.is_satisfied().unwrap());
    let c = witness(&mut cs, felt(10));
    enforce_equal(&mut cs, &a, &c).unwrap();
    assert!(!cs.is_satisfied().unwrap());
}

#[test]
fn evaluate_value() {
    let mut cs = new_cs();
    let x = witness(&mut cs, felt(3));
    let coeffs = vec![felt(5), felt(1), felt(0), felt(1)];
    let y = evaluate(&mut cs, &coeffs, &x);
    assert_eq!(y.value(), Some(felt(35)));
    let y = evaluate(&mut cs, &vec![felt(2), felt(0), felt(4)], &x);
    assert_eq!(y.value(), Some(felt(38)));
    let y = evaluate(&mut cs, &vec![], &x);
    assert_eq!(y.value(), Some(felt(0)));
    assert!(cs.is_satisfied().unwrap());
}

#[test]
fn is_satisfied_needs_recorded_matrices() {
    let inner = ark_relations::r1cs::ConstraintSystem::<Fr>::new_ref();
    inner.set_mode(ark_relations::r1cs::SynthesisMode::Prove { construct_matrices: false });
    let mut cs = ConstraintSystem { inner };
    assert!(!cs.records_matrices());
    let a = witness(&mut cs, felt(3));
    let b = witness(&mut cs, felt(4));
    enforce_equal(&mut cs, &a, &b).unwrap();
    assert_eq!(cs.is_satisfied(), Err(SynthError::Backend));
    assert!(new_cs().records_matrices());
}
