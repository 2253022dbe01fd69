//! The statements: an age threshold, an age-conditioned product, and a
//! polynomial with a secret root.
//!
//! Each statement writes a number of constraints that depends on its shape alone
//! (for the polynomial, on the number of coefficients), never on the values, so
//! keys made from one instance serve every other.
use vstd::prelude::*;
use crate::allocation::{AllocKind, allocate, allocate_fixed};
use crate::field::{Felt, field_mul, half_modulus, modulus, opt_wf};
use vstd::arithmetic::power::pow;
use crate::gadgets::{
    compare, compare_size, conditional_equal, enforce_compare, enforce_compare_size, enforce_equal,
    evaluate, mul_var, poly_sum,
};
use crate::system::{
    ConstraintSystem, SynthError, input_value, live_of, outcomes_of, public_inputs_of, same_mode,
    satisfied,
    setup_mode_of,
};

verus! {

/// The age that the threshold statements compare against.
pub const AGE_THRESHOLD: u64 = 19;

/// Proves knowledge of a private age above the threshold.
#[derive(Clone, Copy, Debug)]
pub struct AgeCircuit1 {
    /// Witness; absent at key generation.
    pub age: Option<Felt>,
}

impl AgeCircuit1 {
    /// Allocates the age as a witness and enforces `19 < age ≤ (p − 1) / 2`, the
    /// ages that the comparison can order. No public input is allocated.
    pub fn generate_constraints(self, cs: &mut ConstraintSystem) -> (r: Result<(), SynthError>)
        requires
            opt_wf(self.age),
        ensures
            same_mode(*old(cs), *final(cs)),
            r is Ok ==> public_inputs_of(*final(cs)) == public_inputs_of(*old(cs)),
            r is Ok ==> outcomes_of(*final(cs)).len() == outcomes_of(*old(cs)).len()
                + enforce_compare_size(true),
            !setup_mode_of(*old(cs)) && self.age is None ==> r == Err::<(), SynthError>(
                SynthError::AssignmentMissing,
            ),
            live_of(*old(cs)) && (setup_mode_of(*old(cs)) || self.age is Some) ==> r is Ok,
            r is Ok && !setup_mode_of(*old(cs)) ==> satisfied(*final(cs)) == (satisfied(*old(cs))
                && AGE_THRESHOLD < self.age->Some_0.val() && self.age->Some_0.val() <= half_modulus()),
    {
        let age_var = allocate(cs, self.age, AllocKind::Witness)?;
        let threshold = allocate_fixed(cs, Felt::from_u64(AGE_THRESHOLD))?;
        enforce_compare(cs, &age_var, &threshold, true)
    }
}

/// Proves that `c = a·b` for private `a`, `b` whenever the public age is at least
/// the threshold; below it, `c` is left unconstrained.
#[derive(Clone, Copy, Debug)]
pub struct AgeCircuit2 {
    /// Public input.
    pub age: Option<Felt>,
    /// Public input.
    pub c: Option<Felt>,
    /// Witness.
    pub a: Option<Felt>,
    /// Witness.
    pub b: Option<Felt>,
}

impl AgeCircuit2 {
    /// Public inputs `[age, c]` in this order, witnesses `a`, `b`. For ages up to
    /// `(p − 1) / 2` the product is enforced exactly when `age ≥ 19` (decided as
    /// `age > 18`); larger ages fail the comparison's range check.
    pub fn generate_constraints(self, cs: &mut ConstraintSystem) -> (r: Result<(), SynthError>)
        requires
            opt_wf(self.age),
            opt_wf(self.c),
            opt_wf(self.a),
            opt_wf(self.b),
        ensures
            same_mode(*old(cs), *final(cs)),
            r is Ok ==> public_inputs_of(*final(cs)) == public_inputs_of(*old(cs)).push(
                input_value(*old(cs), self.age),
            ).push(input_value(*old(cs), self.c)),
            r is Ok ==> outcomes_of(*final(cs)).len() == outcomes_of(*old(cs)).len() + compare_size(
                true,
            ) + 2,
            !setup_mode_of(*old(cs)) && self.age is None ==> r == Err::<(), SynthError>(
                SynthError::AssignmentMissing,
            ),
            !setup_mode_of(*old(cs)) && live_of(*old(cs)) && (self.c is None || self.a is None
                || self.b is None) ==> r == Err::<(), SynthError>(SynthError::AssignmentMissing),
            live_of(*old(cs)) && (setup_mode_of(*old(cs)) || (self.age is Some && self.c is Some
                && self.a is Some && self.b is Some)) ==> r is Ok,
            r is Ok && !setup_mode_of(*old(cs)) && self.age->Some_0.val() <= half_modulus() ==> satisfied(
                *final(cs),
            ) == (satisfied(*old(cs)) && (self.age->Some_0.val() >= AGE_THRESHOLD ==> self.c->Some_0.val()
                == field_mul(self.a->Some_0.val(), self.b->Some_0.val()))),
            r is Ok && !setup_mode_of(*old(cs)) && half_modulus() < self.age->Some_0.val() ==> !satisfied(
                *final(cs),
            ),
    {
        let age_var = allocate(cs, self.age, AllocKind::PublicInput)?;
        let below = allocate_fixed(cs, Felt::from_u64(AGE_THRESHOLD - 1))?;
        let is_adult = compare(cs, &age_var, &below, true)?;
        let c_var = allocate(cs, self.c, AllocKind::PublicInput)?;
        let a_var = allocate(cs, self.a, AllocKind::Witness)?;
        let b_var = allocate(cs, self.b, AllocKind::Witness)?;
        let product = mul_var(cs, &a_var, &b_var);
        let r = conditional_equal(cs, &c_var, &product, &is_adult);
        r
    }
}

/// Proves knowledge of `x` with `Σ coeff[i]·xⁱ = y` for public `y`.
#[derive(Clone, Debug)]
pub struct PolyCircuit {
    /// Constants of the statement, lowest degree first.
    pub coeff: Option<Vec<Felt>>,
    /// Public input.
    pub y: Option<Felt>,
    /// Witness.
    pub x: Option<Felt>,
}

impl PolyCircuit {
    /// Public input `[y]`. The coefficients are constants, so they are needed at
    /// key generation too: without them synthesis fails with `AssignmentMissing`.
    pub fn generate_constraints(self, cs: &mut ConstraintSystem) -> (r: Result<(), SynthError>)
        requires
            self.coeff matches Some(c) ==> forall|i: int| 0 <= i < c.len() ==> (#[trigger] c[i]).wf(),
            opt_wf(self.y),
            opt_wf(self.x),
        ensures
            same_mode(*old(cs), *final(cs)),
            r is Ok ==> public_inputs_of(*final(cs)) == public_inputs_of(*old(cs)).push(
                input_value(*old(cs), self.y),
            ),
            r is Ok ==> outcomes_of(*final(cs)).len() == outcomes_of(*old(cs)).len() + (if self.coeff->Some_0.len()
                == 0 {
                1
            } else {
                self.coeff->Some_0.len()
            }),
            self.coeff is None ==> r == Err::<(), SynthError>(SynthError::AssignmentMissing),
            !setup_mode_of(*old(cs)) && live_of(*old(cs)) && (self.x is None || self.y is None) ==> r
                == Err::<(), SynthError>(SynthError::AssignmentMissing),
            live_of(*old(cs)) && self.coeff is Some && (setup_mode_of(*old(cs)) || (self.x is Some
                && self.y is Some)) ==> r is Ok,
            r is Ok && !setup_mode_of(*old(cs)) ==> satisfied(*final(cs)) == (satisfied(*old(cs))
                && self.y->Some_0.val() as int == poly_sum(self.coeff->Some_0@, self.x->Some_0.val())
                % (modulus() as int)),
    {
        let coeffs = match self.coeff {
            Some(c) => c,
            None => return Err(SynthError::AssignmentMissing),
        };
        let x_var = allocate(cs, self.x, AllocKind::Witness)?;
        let y_var = allocate(cs, self.y, AllocKind::PublicInput)?;
        let res = evaluate(cs, &coeffs, &x_var);
        enforce_equal(cs, &y_var, &res)
    }
}

/// With coefficients `[5, 1, 0, 1]` and `x = 3` the polynomial is `35`: the
/// statement holds for `y = 35` and for no other output.
pub proof fn lemma_poly_output(c: Seq<Felt>, y: nat)
    requires
        c.len() == 4,
        c[0].val() == 5,
        c[1].val() == 1,
        c[2].val() == 0,
        c[3].val() == 1,
        y < modulus(),
    ensures
        (y as int == poly_sum(c, 3) % (modulus() as int)) <==> y == 35,
{
    reveal_with_fuel(pow, 4);
    let c3 = c.drop_last();
    let c2 = c3.drop_last();
    let c1 = c2.drop_last();
    assert(c1.drop_last() =~= Seq::<Felt>::empty());
    assert(c1.last() == c[0] && c2.last() == c[1] && c3.last() == c[2] && c.last() == c[3]);
    assert(poly_sum(c1.drop_last(), 3) == 0);
    assert(poly_sum(c1, 3) == 5);
    assert(poly_sum(c2, 3) == 8);
    assert(poly_sum(c3, 3) == 8);
    assert(poly_sum(c, 3) == 35);
}

} // verus!
