use ark_bn254::{Bn254, Fr};
use ark_ff::PrimeField;
use ark_groth16::Groth16;
use ark_relations::r1cs::{ConstraintSynthesizer, ConstraintSystemRef, SynthesisError};
use ark_snark::SNARK;
use ark_std::rand::rngs::StdRng;
use ark_std::rand::{RngCore, SeedableRng};
use ark_std::test_rng;
use zk_circuits::circuits::{AgeCircuit1, AgeCircuit2, PolyCircuit};
use zk_circuits::field::Felt;
use zk_circuits::system::{ConstraintSystem, SynthError};

fn new_cs() -> ConstraintSystem {
    ConstraintSystem { inner: ark_relations::r1cs::ConstraintSystem::new_ref() }
}

fn felt(v: u64) -> Felt {
    Felt::from_u64(v)
}

fn fr(v: u64) -> Fr {
    Fr::from(v)
}

fn felt_of(f: Fr) -> Felt {
    Felt { limbs: f.into_bigint().0 }
}

enum Statement {
    Age1(AgeCircuit1),
    Age2(AgeCircuit2),
    Poly(PolyCircuit),
}

impl ConstraintSynthesizer<Fr> for Statement {
    fn generate_constraints(self, cs: ConstraintSystemRef<Fr>) -> Result<(), SynthesisError> {
        let mut sys = ConstraintSystem { inner: cs };
        let r = match self {
            Statement::Age1(c) => c.generate_constraints(&mut sys),
            Statement::Age2(c) => c.generate_constraints(&mut sys),
            Statement::Poly(c) => c.generate_constraints(&mut sys),
        };
        r.map_err(|e| match e {
            SynthError::AssignmentMissing => SynthesisError::AssignmentMissing,
            SynthError::Unsatisfiable => SynthesisError::Unsatisfiable,
            SynthError::MissingCs => SynthesisError::MissingCS,
            SynthError::SerializationFailure | SynthError::Backend => SynthesisError::Unsatisfiable,
        })
    }
}

fn rng() -> StdRng {
    StdRng::seed_from_u64(test_rng().next_u64())
}

fn prove_and_verify(setup: Statement, proving: Statement, public: &[Fr]) -> bool {
    let rng = &mut rng();
    let (pk, vk) = Groth16::<Bn254>::circuit_specific_setup(setup, rng).unwrap();
    let proof = Groth16::<Bn254>::prove(&pk, proving, rng).unwrap();
    Groth16::<Bn254>::verify(&vk, public, &proof).unwrap()
}

fn satisfied(result: Result<(), SynthError>, cs: &ConstraintSystem) -> bool {
    result.unwrap();
    cs.is_satisfied().unwrap()
}

#[test]
fn test_age1_circuit_cs() {
    let test_circuit = AgeCircuit1 { age: Some(felt_of(fr(20))) };
    let mut cs = new_cs();
    test_circuit.clone().generate_constraints(&mut cs).unwrap();
    assert!(cs.is_satisfied().unwrap());
}

#[test]
fn age1_test_age1_circuit_groth16() {
    let mock_circuit = AgeCircuit1 { age: Some(felt(0)) };
    let test_circuit = AgeCircuit1 { age: Some(felt(20)) };
    let result = prove_and_verify(Statement::Age1(mock_circuit), Statement::Age1(test_circuit), &[]);
    assert!(result, "Proof should be valid");
}

#[test]
fn age2_test_age1_circuit_groth16() {
    let test_circuit = AgeCircuit2 {
        age: Some(felt(20)),
        c: Some(felt(8)),
        a: Some(felt(2)),
        b: Some(felt(4)),
    };
    let result = prove_and_verify(
        Statement::Age2(test_circuit.clone()),
        Statement::Age2(test_circuit),
        &[fr(20), fr(8)],
    );
    assert!(result, "Proof should be valid");
}

#[test]
fn test_poly_circuit_groth16() {
    let coeffs = vec![felt(5), felt(1), felt(0), felt(1)];
    let circuit = PolyCircuit { coeff: Some(coeffs), y: Some(felt(35)), x: Some(felt(3)) };
    let result = prove_and_verify(Statement::Poly(circuit.clone()), Statement::Poly(circuit), &[fr(35)]);
    assert!(result, "Proof should be valid");
}

#[test]
fn age1_at_threshold_is_unsatisfied() {
    let mut cs = new_cs();
    let r = AgeCircuit1 { age: Some(felt(19)) }.generate_constraints(&mut cs);
    assert!(!satisfied(r, &cs));
}

#[test]
fn age1_below_threshold_is_unsatisfied() {
    let mut cs = new_cs();
    let r = AgeCircuit1 { age: Some(felt(3)) }.generate_constraints(&mut cs);
    assert!(!satisfied(r, &cs));
}

#[test]
fn age1_missing_age_when_proving() {
    let mut cs = new_cs();
    let r = AgeCircuit1 { age: None }.generate_constraints(&mut cs);
    assert_eq!(r, Err(SynthError::AssignmentMissing));
}

#[test]
fn age1_setup_without_values_proves_later() {
    let result = prove_and_verify(
        Statement::Age1(AgeCircuit1 { age: None }),
        Statement::Age1(AgeCircuit1 { age: Some(felt(21)) }),
        &[],
    );
    assert!(result);
}

#[test]
fn age2_wrong_product_is_unsatisfied() {
    let mut cs = new_cs();
    let circuit = AgeCircuit2 { age: Some(felt(20)), c: Some(felt(7)), a: Some(felt(2)), b: Some(felt(4)) };
    assert!(!satisfied(circuit.generate_constraints(&mut cs), &cs));
}

#[test]
fn age2_at_threshold_enforces_product() {
    let mut cs = new_cs();
    let circuit = AgeCircuit2 { age: Some(felt(19)), c: Some(felt(7)), a: Some(felt(2)), b: Some(felt(4)) };
    assert!(!satisfied(circuit.generate_constraints(&mut cs), &cs));
    let mut cs = new_cs();
    let circuit = AgeCircuit2 { age: Some(felt(19)), c: Some(felt(8)), a: Some(felt(2)), b: Some(felt(4)) };
    assert!(satisfied(circuit.generate_constraints(&mut cs), &cs));
}

#[test]
fn age2_below_threshold_leaves_product_free() {
    let mut cs = new_cs();
    let circuit = AgeCircuit2 { age: Some(felt(18)), c: Some(felt(7)), a: Some(felt(2)), b: Some(felt(4)) };
    assert!(satisfied(circuit.generate_constraints(&mut cs), &cs));
}

#[test]
fn age2_missing_witness_fails() {
    let mut cs = new_cs();
    let circuit = AgeCircuit2 { age: Some(felt(20)), c: Some(felt(8)), a: None, b: Some(felt(4)) };
    assert_eq!(circuit.generate_constraints(&mut cs), Err(SynthError::AssignmentMissing));
}

#[test]
fn age2_wrong_public_inputs_do_not_verify() {
    let test_circuit = AgeCircuit2 { age: Some(felt(20)), c: Some(felt(8)), a: Some(felt(2)), b: Some(felt(4)) };
    let result = prove_and_verify(
        Statement::Age2(test_circuit.clone()),
        Statement::Age2(test_circuit),
        &[fr(20), fr(7)],
    );
    assert!(!result);
}

#[test]
fn poly_evaluates_to_35() {
    let coeffs = vec![felt(5), felt(1), felt(0), felt(1)];
    let mut cs = new_cs();
    let circuit = PolyCircuit { coeff: Some(coeffs), y: Some(felt(35)), x: Some(felt(3)) };
    assert!(satisfied(circuit.generate_constraints(&mut cs), &cs));
}

#[test]
fn poly_other_output_is_unsatisfied() {
    for y in [0u64, 34, 36, 5] {
        let coeffs = vec![felt(5), felt(1), felt(0), felt(1)];
        let mut cs = new_cs();
        let circuit = PolyCircuit { coeff: Some(coeffs), y: Some(felt(y)), x: Some(felt(3)) };
        assert!(!satisfied(circuit.generate_constraints(&mut cs), &cs));
    }
}

#[test]
fn poly_empty_coefficients_force_zero() {
    let mut cs = new_cs();
    let circuit = PolyCircuit { coeff: Some(vec![]), y: Some(felt(0)), x: Some(felt(9)) };
    assert!(satisfied(circuit.generate_constraints(&mut cs), &cs));
    let mut cs = new_cs();
    let circuit = PolyCircuit { coeff: Some(vec![]), y: Some(felt(1)), x: Some(felt(9)) };
    assert!(!satisfied(circuit.generate_constraints(&mut cs), &cs));
}

#[test]
fn poly_missing_coefficients() {
    let mut cs = new_cs();
    let circuit = PolyCircuit { coeff: None, y: Some(felt(35)), x: Some(felt(3)) };
    assert_eq!(circuit.generate_constraints(&mut cs), Err(SynthError::AssignmentMissing));
}

#[test]
fn poly_reduces_in_the_field() {
    // x = p - 1 = -1: 5 - 1 + 0 - 1 = 3
    let minus_one = felt_of(-Fr::from(1u64));
    let coeffs = vec![felt(5), felt(1), felt(0), felt(1)];
    let mut cs = new_cs();
    let circuit = PolyCircuit { coeff: Some(coeffs), y: Some(felt(3)), x: Some(minus_one) };
    assert!(satisfied(circuit.generate_constraints(&mut cs), &cs));
}

#[test]
fn public_inputs_follow_allocation_order() {
    // the instance vector starts with the constant one
    let mut cs = new_cs();
    AgeCircuit1 { age: Some(felt(20)) }.generate_constraints(&mut cs).unwrap();
    assert_eq!(cs.inner.num_instance_variables(), 1);

    let mut cs = new_cs();
    let circuit = AgeCircuit2 { age: Some(felt(20)), c: Some(felt(8)), a: Some(felt(2)), b: Some(felt(4)) };
    circuit.generate_constraints(&mut cs).unwrap();
    assert_eq!(cs.inner.num_instance_variables(), 3);
    let inputs = cs.inner.borrow().unwrap().instance_assignment.clone();
    assert_eq!(inputs, vec![fr(1), fr(20), fr(8)]);

    let mut cs = new_cs();
    let circuit = PolyCircuit { coeff: Some(vec![felt(5), felt(1), felt(0), felt(1)]), y: Some(felt(35)), x: Some(felt(3)) };
    circuit.generate_constraints(&mut cs).unwrap();
    let inputs = cs.inner.borrow().unwrap().instance_assignment.clone();
    assert_eq!(inputs, vec![fr(1), fr(35)]);
}

#[test]
fn setup_and_proving_share_structure() {
    let setup = ark_relations::r1cs::ConstraintSystem::<Fr>::new_ref();
    setup.set_mode(ark_relations::r1cs::SynthesisMode::Setup);
    let mut cs = ConstraintSystem { inner: setup.clone() };
    AgeCircuit1 { age: None }.generate_constraints(&mut cs).unwrap();
    let mut proving = new_cs();
    AgeCircuit1 { age: Some(felt(40)) }.generate_constraints(&mut proving).unwrap();
    assert_eq!(setup.num_constraints(), proving.inner.num_constraints());
    assert_eq!(setup.num_witness_variables(), proving.inner.num_witness_variables());
    assert_eq!(setup.num_instance_variables(), proving.inner.num_instance_variables());
}
