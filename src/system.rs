//! The constraint system that synthesis writes into, and the arkworks handles that
//! live in it.
use vstd::prelude::*;
use crate::field::Felt;

verus! {

/// The error type of arkworks constraint synthesis.
#[verifier::external_type_specification]
#[verifier::external_body]
pub struct ExSynthesisError(ark_relations::r1cs::SynthesisError);

/// A shared handle on an arkworks constraint system over the BN254 scalar field.
///
/// Verus cannot declare arkworks' generic types (their bounds are arkworks traits),
/// so the handle is held here. What the system holds is known to Verus through
/// `outcomes_of` and `setup_mode_of`.
#[verifier::external_body]
pub struct ConstraintSystem {
    pub inner: ark_relations::r1cs::ConstraintSystemRef<ark_bn254::Fr>,
}

/// For each constraint in the system, whether it holds under the system's
/// current assignment.
pub uninterp spec fn outcomes_of(cs: ConstraintSystem) -> Seq<bool>;

/// Whether the system is synthesised for key generation only, with no assignment.
pub uninterp spec fn setup_mode_of(cs: ConstraintSystem) -> bool;

/// Whether the system records its constraint matrices (always at key generation;
/// when proving, only if asked to), without which it cannot check them.
pub uninterp spec fn records_matrices_of(cs: ConstraintSystem) -> bool;

/// Which system the handle refers to: handles on one system share it.
pub uninterp spec fn system_id(cs: ConstraintSystem) -> int;

/// Whether the handle refers to a system at all (arkworks' `ConstraintSystemRef::CS`
/// rather than `ConstraintSystemRef::None`).
pub uninterp spec fn live_of(cs: ConstraintSystem) -> bool;

/// The public inputs allocated so far, in allocation order: the vector a verifier
/// is given (`None` at key generation, where nothing is assigned).
pub uninterp spec fn public_inputs_of(cs: ConstraintSystem) -> Seq<Option<Felt>>;

/// What the public-input vector records of an input value: nothing at key generation.
pub open spec fn input_value(cs: ConstraintSystem, v: Option<Felt>) -> Option<Felt> {
    if setup_mode_of(cs) {
        None
    } else {
        v
    }
}

/// `after` is the same system as `before`, in the same mode, with the same public
/// inputs.
pub open spec fn same_system(before: ConstraintSystem, after: ConstraintSystem) -> bool {
    same_mode(before, after) && public_inputs_of(after) == public_inputs_of(before)
}

/// `after` is the same system as `before`, in the same mode.
pub open spec fn same_mode(before: ConstraintSystem, after: ConstraintSystem) -> bool {
    system_id(after) == system_id(before) && live_of(after) == live_of(before) && setup_mode_of(
        after,
    ) == setup_mode_of(before) && records_matrices_of(after) == records_matrices_of(before)
}

/// A variable's system (`None` for a bare constant, which belongs to none) is
/// compatible with `cs`.
pub open spec fn belongs(sys: Option<int>, cs: ConstraintSystem) -> bool {
    sys is None || sys == Some(system_id(cs))
}

pub open spec fn all_true(s: Seq<bool>) -> bool {
    forall|i: int| 0 <= i < s.len() ==> #[trigger] s[i]
}

/// The system's constraints all hold.
pub open spec fn satisfied(cs: ConstraintSystem) -> bool {
    all_true(outcomes_of(cs))
}

/// An allocated field variable (arkworks `FpVar`).
#[verifier::external_body]
pub struct VarHandle {
    pub(crate) var: ark_r1cs_std::fields::fp::FpVar<ark_bn254::Fr>,
}

/// An allocated boolean variable (arkworks `Boolean`).
#[verifier::external_body]
pub struct BitHandle {
    pub(crate) bit: ark_r1cs_std::boolean::Boolean<ark_bn254::Fr>,
}

/// A field variable together with what the synthesis knows of it: its assigned
/// value (absent at key generation) and whether it is a constant baked into
/// the constraints.
pub struct FieldVar {
    pub(crate) handle: VarHandle,
    pub(crate) value: Option<Felt>,
    pub(crate) constant: bool,
    pub(crate) sys: Ghost<Option<int>>,
}

impl FieldVar {
    /// The value the backend holds for the variable.
    pub closed spec fn assigned(&self) -> Option<Felt> {
        self.value
    }

    /// Whether the backend holds the variable as a bare constant.
    pub closed spec fn is_const(&self) -> bool {
        self.constant
    }

    /// The system the variable lives in; `None` for a bare constant.
    pub closed spec fn sys(&self) -> Option<int> {
        self.sys@
    }

    /// The assigned value; absent at key generation.
    pub fn value(&self) -> (r: Option<Felt>)
        ensures
            r == self.assigned(),
    {
        self.value
    }

    /// Whether the variable is a constant baked into the constraints.
    pub fn is_constant(&self) -> (r: bool)
        ensures
            r == self.is_const(),
    {
        self.constant
    }
}

/// A boolean variable and its assigned value.
pub struct BoolVar {
    pub(crate) handle: BitHandle,
    pub(crate) value: Option<bool>,
    pub(crate) sys: Ghost<Option<int>>,
}

impl BoolVar {
    /// The value the backend holds for the bit.
    pub closed spec fn assigned(&self) -> Option<bool> {
        self.value
    }

    /// The system the bit lives in; `None` for a constant.
    pub closed spec fn sys(&self) -> Option<int> {
        self.sys@
    }

    /// The assigned value; absent at key generation.
    pub fn value(&self) -> (r: Option<bool>)
        ensures
            r == self.assigned(),
    {
        self.value
    }
}

/// Errors that abort synthesis.
#[derive(Clone, Copy, Debug, PartialEq, Eq, Structural)]
pub enum SynthError {
    /// A witness or public input had no value outside key generation.
    AssignmentMissing,
    /// The constraints can be seen to fail while they are written.
    Unsatisfiable,
    /// A variable was allocated without a constraint system.
    MissingCs,
    /// A foreign scalar could not be brought to canonical bytes.
    SerializationFailure,
    /// Any other failure of the constraint backend.
    Backend,
}

impl ConstraintSystem {
    /// Relies on arkworks `ConstraintSystemRef::is_in_setup_mode`.
    #[verifier::external_body]
    pub fn is_in_setup_mode(&self) -> (r: bool)
        ensures
            r == setup_mode_of(*self),
    {
        self.inner.is_in_setup_mode()
    }

    /// Relies on arkworks `ConstraintSystemRef::should_construct_matrices`.
    #[verifier::external_body]
    pub fn records_matrices(&self) -> (r: bool)
        ensures
            r == records_matrices_of(*self),
    {
        self.inner.should_construct_matrices()
    }

    /// Relies on arkworks `ConstraintSystemRef::is_satisfied`: whether every
    /// constraint holds; an error at key generation, where nothing is assigned, and
    /// without a system. It reads the constraint matrices, so it needs them
    /// recorded.
    #[verifier::external_body]
    fn check_assignment(&self) -> (r: Result<bool, ark_relations::r1cs::SynthesisError>)
        requires
            records_matrices_of(*self),
        ensures
            r matches Ok(b) ==> b == all_true(outcomes_of(*self)),
            setup_mode_of(*self) ==> r is Err,
            live_of(*self) && !setup_mode_of(*self) ==> r is Ok,
    {
        self.inner.is_satisfied()
    }

    /// Whether every constraint holds under the assignment. An error at key
    /// generation, and for a system that does not record its matrices.
    pub fn is_satisfied(&self) -> (r: Result<bool, SynthError>)
        ensures
            r matches Ok(b) ==> b == satisfied(*self),
            setup_mode_of(*self) || !records_matrices_of(*self) ==> r is Err,
            live_of(*self) && !setup_mode_of(*self) && records_matrices_of(*self) ==> r is Ok,
    {
        if !self.records_matrices() {
            return Err(SynthError::Backend);
        }
        match self.check_assignment() {
            Ok(b) => Ok(b),
            Err(e) => Err(backend_error(e)),
        }
    }
}

/// Relies on arkworks `SynthesisError`: maps its variants onto the library's.
#[verifier::external_body]
pub(crate) fn backend_error(e: ark_relations::r1cs::SynthesisError) -> (r: SynthError)
    ensures
        r != SynthError::SerializationFailure,
{
    match e {
        ark_relations::r1cs::SynthesisError::AssignmentMissing => SynthError::AssignmentMissing,
        ark_relations::r1cs::SynthesisError::Unsatisfiable => SynthError::Unsatisfiable,
        ark_relations::r1cs::SynthesisError::MissingCS => SynthError::MissingCs,
        _ => SynthError::Backend,
    }
}

} // verus!
