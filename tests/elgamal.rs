use ark_ec::{AffineRepr, CurveGroup};
use ark_ed_on_bn254::{EdwardsAffine, EdwardsProjective, Fr as ScalarField};
use ark_ff::{Field, PrimeField};
use ark_std::{UniformRand, test_rng};
use zk_circuits::allocation::AllocKind;
use zk_circuits::elgamal::{
    ElGamalEncGadget, OutputVar, ParametersVar, PlaintextVar, Point, PublicKeyVar, RandomnessVar,
    Scalar,
};
use zk_circuits::field::Felt;
use zk_circuits::system::{ConstraintSystem, SynthError};

fn new_cs() -> ConstraintSystem {
    ConstraintSystem { inner: ark_relations::r1cs::ConstraintSystem::new_ref() }
}

fn point(p: EdwardsProjective) -> Point {
    let a: EdwardsAffine = p.into_affine();
    let (x, y) = a.xy().unwrap();
    Point { x: Felt { limbs: x.into_bigint().0 }, y: Felt { limbs: y.into_bigint().0 } }
}

fn scalar(s: ScalarField) -> Scalar {
    Scalar { limbs: s.into_bigint().0 }
}

#[test]
fn test_elgamal_gadget() {
    let rng = &mut test_rng();

    // compute primitive result
    let generator = EdwardsProjective::rand(rng);
    let secret_key = ScalarField::rand(rng);
    let pk = generator * secret_key;
    let msg = EdwardsProjective::rand(rng);
    let randomness = ScalarField::rand(rng);
    let primitive_result = (generator * randomness, msg + pk * randomness);

    // construct constraint system
    let mut cs = new_cs();
    let randomness_var = RandomnessVar::new_variable(&mut cs, Some(scalar(randomness)), AllocKind::Witness).unwrap();
    let parameters_var = ParametersVar::new_variable(&mut cs, Some(point(generator)), AllocKind::Constant).unwrap();
    let msg_var = PlaintextVar::new_variable(&mut cs, Some(point(msg)), AllocKind::Witness).unwrap();
    let pk_var = PublicKeyVar::new_variable(&mut cs, Some(point(pk)), AllocKind::Witness).unwrap();

    // use gadget
    let result_var = ElGamalEncGadget::encrypt(&mut cs, &parameters_var, &msg_var, &randomness_var, &pk_var).unwrap();

    // check that result equals expected ciphertext in the constraint system
    let expected = (point(primitive_result.0), point(primitive_result.1));
    let expected_var = OutputVar::new_variable(&mut cs, Some(expected), AllocKind::PublicInput).unwrap();
    expected_var.enforce_equal(&mut cs, &result_var).unwrap();

    assert_eq!(Some(point(primitive_result.0)), result_var.c1.value());
    assert_eq!(Some(point(primitive_result.1)), result_var.c2.value());
    assert!(cs.is_satisfied().unwrap());
}

#[test]
fn elgamal_wrong_ciphertext_is_unsatisfied() {
    let rng = &mut test_rng();
    let generator = EdwardsProjective::rand(rng);
    let pk = generator * ScalarField::rand(rng);
    let msg = EdwardsProjective::rand(rng);
    let randomness = ScalarField::rand(rng);

    let mut cs = new_cs();
    let r = RandomnessVar::new_variable(&mut cs, Some(scalar(randomness)), AllocKind::Witness).unwrap();
    let g = ParametersVar::new_variable(&mut cs, Some(point(generator)), AllocKind::Constant).unwrap();
    let m = PlaintextVar::new_variable(&mut cs, Some(point(msg)), AllocKind::Witness).unwrap();
    let k = PublicKeyVar::new_variable(&mut cs, Some(point(pk)), AllocKind::Witness).unwrap();
    let out = ElGamalEncGadget::encrypt(&mut cs, &g, &m, &r, &k).unwrap();

    let wrong = (point(generator * randomness), point(msg + pk * (randomness + ScalarField::from(1u64))));
    let wrong_var = OutputVar::new_variable(&mut cs, Some(wrong), AllocKind::PublicInput).unwrap();
    let same = wrong_var.is_eq(&mut cs, &out).unwrap();
    assert_eq!(same.value(), Some(false));
    wrong_var.enforce_equal(&mut cs, &out).unwrap();
    assert!(!cs.is_satisfied().unwrap());
}

#[test]
fn randomness_bytes_and_bits_are_canonical() {
    let mut cs = new_cs();
    // 0x0201 + 2^250: byte 31 is 0x04
    let mut s = ScalarField::from(0x0201u64);
    s += ScalarField::from(2u64).pow([250u64]);
    let r = RandomnessVar::new_variable(&mut cs, Some(scalar(s)), AllocKind::Witness).unwrap();
    assert_eq!(r.0.len(), 32);
    assert_eq!(r.0[0].value(), Some(0x01));
    assert_eq!(r.0[1].value(), Some(0x02));
    assert_eq!(r.0[2].value(), Some(0x00));
    assert_eq!(r.0[31].value(), Some(0x04));
    let bits = r.to_bits_le();
    assert_eq!(bits.len(), 256);
    assert_eq!(bits[0].value(), Some(true));
    assert_eq!(bits[1].value(), Some(false));
    assert_eq!(bits[8].value(), Some(false));
    assert_eq!(bits[9].value(), Some(true));
    assert_eq!(bits[250].value(), Some(true));
    assert_eq!(bits[251].value(), Some(false));
    assert_eq!(bits[255].value(), Some(false));
    assert!(cs.is_satisfied().unwrap());
}

#[test]
fn randomness_constant_and_absent() {
    let mut cs = new_cs();
    let r = RandomnessVar::new_variable(&mut cs, Some(Scalar { limbs: [5, 0, 0, 0] }), AllocKind::Constant).unwrap();
    assert_eq!(r.0[0].value(), Some(5));
    let z = RandomnessVar::new_variable(&mut cs, None, AllocKind::PublicInput);
    assert_eq!(z.err(), Some(SynthError::AssignmentMissing));
    let z = RandomnessVar::new_variable(&mut cs, None, AllocKind::Constant);
    assert_eq!(z.err(), Some(SynthError::AssignmentMissing));
}

#[test]
fn missing_points_are_assignment_missing() {
    let mut cs = new_cs();
    assert_eq!(ParametersVar::new_variable(&mut cs, None, AllocKind::Constant).err(), Some(SynthError::AssignmentMissing));
    assert_eq!(PlaintextVar::new_variable(&mut cs, None, AllocKind::Witness).err(), Some(SynthError::AssignmentMissing));
    assert_eq!(PublicKeyVar::new_variable(&mut cs, None, AllocKind::PublicInput).err(), Some(SynthError::AssignmentMissing));
    assert_eq!(OutputVar::new_variable(&mut cs, None, AllocKind::PublicInput).err(), Some(SynthError::AssignmentMissing));
}

#[test]
fn witness_point_keeps_subgroup_point() {
    let rng = &mut test_rng();
    let g = EdwardsProjective::rand(rng);
    let mut cs = new_cs();
    let v = PlaintextVar::new_variable(&mut cs, Some(point(g)), AllocKind::Witness).unwrap();
    assert_eq!(v.plaintext.value(), Some(point(g)));
    assert!(cs.is_satisfied().unwrap());
}
