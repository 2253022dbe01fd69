//! Binding host values into the constraint system.
use vstd::prelude::*;
use ark_ff::PrimeField;
use ark_r1cs_std::alloc::AllocVar;
use ark_r1cs_std::alloc::AllocationMode::{Input, Witness};
use ark_r1cs_std::R1CSVar;
use crate::field::{Felt, opt_wf};
use crate::system::{
    ConstraintSystem, FieldVar, SynthError, VarHandle, backend_error, outcomes_of, public_inputs_of, same_mode, same_system,
    setup_mode_of, system_id, live_of,
};

verus! {

/// How a variable enters the constraint system.
#[derive(Clone, Copy, Debug, PartialEq, Eq, Structural)]
pub enum AllocKind {
    /// Known to the prover only.
    Witness,
    /// Known to the verifier too; listed among the public inputs in allocation order.
    PublicInput,
    /// Fixed by the circuit and baked into the constraints.
    Constant,
}

/// Allocation of a value of the given kind cannot fail: a constant has its value,
/// and any other kind has a live system and a value unless at key generation.
pub open spec fn alloc_ok(cs: ConstraintSystem, present: bool, kind: AllocKind) -> bool {
    if kind == AllocKind::Constant {
        present
    } else {
        live_of(cs) && (setup_mode_of(cs) || present)
    }
}

/// What the allocation layer decides for a host value: the value to bind, or
/// `AssignmentMissing` when a witness or public input has none outside key
/// generation. At key generation a missing value is tolerated; a constant
/// always needs one.
pub fn resolve_assignment(value: Option<Felt>, kind: AllocKind, setup: bool) -> (r: Result<
    Option<Felt>,
    SynthError,
>)
    ensures
        r == (if value is None && (kind == AllocKind::Constant || !setup) {
            Err::<Option<Felt>, SynthError>(SynthError::AssignmentMissing)
        } else {
            Ok(value)
        }),
{
    match value {
        Some(v) => Ok(Some(v)),
        None => {
            if kind == AllocKind::Constant || !setup {
                Err(SynthError::AssignmentMissing)
            } else {
                Ok(None)
            }
        },
    }
}

/// Relies on arkworks `FpVar::Constant`: a constant with the given value, which
/// adds nothing to the constraint system.
#[verifier::external_body]
pub(crate) fn constant_var(v: Felt) -> (r: FieldVar)
    requires
        v.wf(),
    ensures
        r.assigned() == Some(v),
        r.is_const(),
        r.sys() is None,
{
    let c = ark_bn254::Fr::from_bigint(ark_ff::BigInt::new(v.limbs)).unwrap();
    let var = ark_r1cs_std::fields::fp::FpVar::Constant(c);
    FieldVar { handle: VarHandle { var }, value: Some(v), constant: true, sys: Ghost(None) }
}

/// Relies on arkworks `AllocatedFp::new_constant`: a variable of the system fixed
/// to `v` by a linear combination, with no witness and no constraint. Unlike a
/// bare constant it can stand as an operand of the comparison gadget.
#[verifier::external_body]
fn fixed_fp_variable(cs: &mut ConstraintSystem, v: Felt) -> (r: Result<
    FieldVar,
    ark_relations::r1cs::SynthesisError,
>)
    requires
        v.wf(),
    ensures
        outcomes_of(*final(cs)) == outcomes_of(*old(cs)),
        same_system(*old(cs), *final(cs)),
        live_of(*old(cs)) ==> r is Ok,
        r matches Ok(x) ==> !x.is_const() && x.assigned() == Some(v) && x.sys() == Some(
            system_id(*old(cs)),
        ),
{
    let c = ark_bn254::Fr::from_bigint(ark_ff::BigInt::new(v.limbs)).unwrap();
    let fp = ark_r1cs_std::fields::fp::AllocatedFp::new_constant(cs.inner.clone(), c)?;
    let var = ark_r1cs_std::fields::fp::FpVar::Var(fp);
    Ok(FieldVar { handle: VarHandle { var }, value: Some(v), constant: false, sys: Ghost(Some(system_id(*cs))) })
}

/// Binds the constant `v` into `cs` as a variable fixed by a linear combination:
/// it is part of the circuit, takes no assignment and is no public input.
pub fn allocate_fixed(cs: &mut ConstraintSystem, v: Felt) -> (r: Result<FieldVar, SynthError>)
    requires
        v.wf(),
    ensures
        outcomes_of(*final(cs)) == outcomes_of(*old(cs)),
        same_system(*old(cs), *final(cs)),
        live_of(*old(cs)) ==> r is Ok,
        r matches Ok(x) ==> !x.is_const() && x.assigned() == Some(v) && x.sys() == Some(
            system_id(*old(cs)),
        ),
{
    match fixed_fp_variable(cs, v) {
        Ok(x) => Ok(x),
        Err(e) => Err(backend_error(e)),
    }
}

/// Relies on arkworks `AllocVar::new_variable` for `FpVar`, in witness or input
/// mode: a new variable and no constraint; its value is read only outside key
/// generation, and a missing one is then `AssignmentMissing`.
#[verifier::external_body]
fn new_fp_variable(cs: &mut ConstraintSystem, v: Option<Felt>, input: bool) -> (r: Result<
    FieldVar,
    ark_relations::r1cs::SynthesisError,
>)
    requires
        opt_wf(v),
    ensures
        outcomes_of(*final(cs)) == outcomes_of(*old(cs)),
        same_mode(*old(cs), *final(cs)),
        r is Ok ==> public_inputs_of(*final(cs)) == (if input {
            public_inputs_of(*old(cs)).push(if setup_mode_of(*old(cs)) { None } else { v })
        } else {
            public_inputs_of(*old(cs))
        }),
        live_of(*old(cs)) && (setup_mode_of(*old(cs)) || v is Some) ==> r is Ok,
        r matches Ok(x) ==> !x.is_const() && x.sys() == Some(system_id(*old(cs))) && x.assigned()
            == (if setup_mode_of(*old(cs)) {
            None
        } else {
            v
        }),
{
    let value = v.map(|a| ark_bn254::Fr::from_bigint(ark_ff::BigInt::new(a.limbs)).unwrap());
    let mode = match input { true => Input, false => Witness };
    let f = || value.ok_or(ark_relations::r1cs::SynthesisError::AssignmentMissing);
    let var = ark_r1cs_std::fields::fp::FpVar::new_variable(cs.inner.clone(), f, mode)?;
    let value = var.value().ok().map(|x| Felt { limbs: x.into_bigint().0 });
    Ok(FieldVar { handle: VarHandle { var }, value, constant: false, sys: Ghost(Some(system_id(*cs))) })
}

/// Binds `value` into `cs` as a variable of the given kind.
///
/// Outside key generation a witness or public input without a value fails with
/// `AssignmentMissing`; at key generation it is allocated with no value. A
/// constant needs a value and adds nothing to the system.
pub fn allocate(cs: &mut ConstraintSystem, value: Option<Felt>, kind: AllocKind) -> (r: Result<
    FieldVar,
    SynthError,
>)
    requires
        opt_wf(value),
    ensures
        outcomes_of(*final(cs)) == outcomes_of(*old(cs)),
        same_mode(*old(cs), *final(cs)),
        r is Ok ==> public_inputs_of(*final(cs)) == (if kind == AllocKind::PublicInput {
            public_inputs_of(*old(cs)).push(if setup_mode_of(*old(cs)) { None } else { value })
        } else {
            public_inputs_of(*old(cs))
        }),
        value is None && (kind == AllocKind::Constant || !setup_mode_of(*old(cs))) ==> r == Err::<
            FieldVar,
            SynthError,
        >(SynthError::AssignmentMissing),
        kind == AllocKind::Constant && value is Some ==> r is Ok,
        kind != AllocKind::Constant && live_of(*old(cs)) && (setup_mode_of(*old(cs))
            || value is Some) ==> r is Ok,
        r matches Ok(x) ==> x.sys() == (if kind == AllocKind::Constant {
            None
        } else {
            Some(system_id(*old(cs)))
        }),
        r matches Ok(x) ==> x.is_const() == (kind == AllocKind::Constant) && x.assigned() == (if kind
            != AllocKind::Constant && setup_mode_of(*old(cs)) {
            None
        } else {
            value
        }),
{
    let setup = cs.is_in_setup_mode();
    let resolved = resolve_assignment(value, kind, setup);
    match resolved {
        Err(e) => Err(e),
        Ok(v) => match kind {
            AllocKind::Constant => {
                match v {
                    Some(c) => Ok(constant_var(c)),
                    None => Err(SynthError::AssignmentMissing),
                }
            },
            _ => {
                match new_fp_variable(cs, v, kind == AllocKind::PublicInput) {
                    Ok(x) => Ok(x),
                    Err(e) => Err(backend_error(e)),
                }
            },
        },
    }
}

} // verus!
