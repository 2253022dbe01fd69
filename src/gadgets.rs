//! Gadgets: field arithmetic on variables, comparison, conditional equality and
//! polynomial evaluation.
use vstd::prelude::*;
use vstd::arithmetic::div_mod::{lemma_add_mod_noop, lemma_mul_mod_noop_left, lemma_mul_mod_noop_right};
use vstd::arithmetic::power::pow;
use ark_ff::PrimeField;
use ark_r1cs_std::R1CSVar;
use ark_r1cs_std::eq::EqGadget;
use crate::allocation::constant_var;
use crate::field::{Felt, field_add, field_mul, half_modulus, modulus, opt_val, opt_wf};
use crate::system::{
    BitHandle, BoolVar, ConstraintSystem, FieldVar, SynthError, VarHandle, all_true, backend_error, belongs,
    live_of, outcomes_of, same_system, satisfied, setup_mode_of, system_id,
};

verus! {

/// The value of a binary field operation on two optional values.
pub open spec fn lift(a: Option<Felt>, b: Option<Felt>, mul: bool) -> Option<nat> {
    match (a, b) {
        (Some(x), Some(y)) => Some(
            if mul {
                field_mul(x.val(), y.val())
            } else {
                field_add(x.val(), y.val())
            },
        ),
        _ => None,
    }
}

/// The system of the result of an operation on two variables of one system.
pub open spec fn joint_sys(a: Option<int>, b: Option<int>) -> Option<int> {
    if a is Some {
        a
    } else {
        b
    }
}

/// Relies on arkworks `Mul` for `&FpVar`: the product, with the one constraint
/// it adds holding by construction; the operator unwraps the operands' values
/// outside key generation.
#[verifier::external_body]
pub(crate) fn mul_var(cs: &mut ConstraintSystem, a: &FieldVar, b: &FieldVar) -> (r: FieldVar)
    requires
        belongs(a.sys(), *old(cs)),
        belongs(b.sys(), *old(cs)),
        setup_mode_of(*old(cs)) || (a.assigned() is Some && b.assigned() is Some),
    ensures
        same_system(*old(cs), *final(cs)),
        !setup_mode_of(*old(cs)) ==> all_true(outcomes_of(*final(cs))) == all_true(
            outcomes_of(*old(cs)),
        ),
        outcomes_of(*final(cs)).len() == outcomes_of(*old(cs)).len() + (if a.is_const()
            || b.is_const() {
            0nat
        } else {
            1nat
        }),
        r.is_const() == (a.is_const() && b.is_const()),
        r.sys() == joint_sys(a.sys(), b.sys()),
        opt_wf(r.assigned()),
        !setup_mode_of(*old(cs)) ==> opt_val(r.assigned()) == lift(a.assigned(), b.assigned(), true),
{
    let var = &a.handle.var * &b.handle.var;
    let value = var.value().ok().map(|x| Felt { limbs: x.into_bigint().0 });
    let constant = var.is_constant();
    FieldVar { handle: VarHandle { var }, value, constant, sys: Ghost(joint_sys(a.sys(), b.sys())) }
}

/// Relies on arkworks `Add` for `&FpVar`: the sum, a linear combination that adds
/// no constraint.
#[verifier::external_body]
pub(crate) fn add_var(a: &FieldVar, b: &FieldVar) -> (r: FieldVar)
    requires
        a.sys() is None || b.sys() is None || a.sys() == b.sys(),
    ensures
        r.is_const() == (a.is_const() && b.is_const()),
        r.sys() == joint_sys(a.sys(), b.sys()),
        opt_wf(r.assigned()),
        opt_val(r.assigned()) == lift(a.assigned(), b.assigned(), false),
{
    let var = &a.handle.var + &b.handle.var;
    let value = var.value().ok().map(|x| Felt { limbs: x.into_bigint().0 });
    let constant = var.is_constant();
    FieldVar { handle: VarHandle { var }, value, constant, sys: Ghost(joint_sys(a.sys(), b.sys())) }
}

/// Relies on arkworks `Boolean::Constant`.
#[verifier::external_body]
pub(crate) fn constant_bit(b: bool) -> (r: BoolVar)
    ensures
        r.assigned() == Some(b),
        r.sys() is None,
{
    BoolVar { handle: BitHandle { bit: ark_r1cs_std::boolean::Boolean::Constant(b) }, value: Some(b), sys: Ghost(None) }
}

/// What the constraint `cond · (lhs − rhs) = 0` asserts; between two constants
/// nothing is written.
pub open spec fn cond_eq_holds(lhs: nat, rhs: nat, cond: bool, both_constant: bool) -> bool {
    both_constant || !cond || lhs == rhs
}

/// Relies on arkworks `EqGadget::conditional_enforce_equal` for `FpVar`: one
/// constraint `(lhs − rhs) · cond = 0` in the operands' system, none between two
/// constants; it fails only without a system.
#[verifier::external_body]
fn enforce_equal_if(cs: &mut ConstraintSystem, lhs: &FieldVar, rhs: &FieldVar, cond: &BoolVar) -> (r:
    Result<(), ark_relations::r1cs::SynthesisError>)
    requires
        belongs(lhs.sys(), *old(cs)),
        belongs(rhs.sys(), *old(cs)),
        belongs(cond.sys(), *old(cs)),
    ensures
        same_system(*old(cs), *final(cs)),
        live_of(*old(cs)) ==> r is Ok,
        r is Ok ==> outcomes_of(*final(cs)).len() == outcomes_of(*old(cs)).len() + (if lhs.is_const()
            && rhs.is_const() {
            0nat
        } else {
            1nat
        }),
        r is Ok && !setup_mode_of(*old(cs)) ==> match (lhs.assigned(), rhs.assigned(), cond.assigned()) {
            (Some(x), Some(y), Some(c)) => all_true(outcomes_of(*final(cs))) == (all_true(
                outcomes_of(*old(cs)),
            ) && cond_eq_holds(x.val(), y.val(), c, lhs.is_const() && rhs.is_const())),
            _ => true,
        },
{
    lhs.handle.var.conditional_enforce_equal(&rhs.handle.var, &cond.handle.bit)
}

/// The right-hand operand of the comparison of `a` against `b`: `a` for a strict
/// comparison, `a + 1` in the field otherwise.
pub open spec fn cmp_right(a: nat, strict: bool) -> int {
    if strict {
        a as int
    } else {
        ((a + 1) % modulus()) as int
    }
}

/// The result bit of comparing `a` with `b`: the low bit of `2·(b − right)` in
/// canonical form. For operands at most `(p − 1) / 2` it is `a > b` when strict,
/// `a ≥ b` otherwise (see `lemma_compare_strict`, `lemma_compare_nonstrict`).
pub open spec fn cmp_bit(a: nat, b: nat, strict: bool) -> bool {
    ((2 * (b as int - cmp_right(a, strict))) % (modulus() as int)) % 2 == 1
}

/// The range checks that the comparison writes: both compared operands are at most
/// `(p − 1) / 2`.
pub open spec fn cmp_in_range(a: nat, b: nat, strict: bool) -> bool {
    b <= half_modulus() && cmp_right(a, strict) <= half_modulus()
}

/// The order that the comparison decides: `a > b`, or `a ≥ b` when not strict.
pub open spec fn ordered(a: nat, b: nat, strict: bool) -> bool {
    if strict {
        a > b
    } else {
        a >= b
    }
}

/// Operands that both the range checks and the order admit: at most `(p − 1) / 2`,
/// and below it for the left operand of a non-strict comparison.
pub open spec fn orderable(a: nat, b: nat, strict: bool) -> bool {
    b <= half_modulus() && (if strict {
        a <= half_modulus()
    } else {
        a < half_modulus()
    })
}

/// Operands on which the comparison cannot fail: two variables of the system,
/// with values outside key generation.
pub open spec fn cmp_operands_ok(cs: ConstraintSystem, a: &FieldVar, b: &FieldVar) -> bool {
    live_of(cs) && !a.is_const() && !b.is_const() && (setup_mode_of(cs) || (a.assigned() is Some
        && b.assigned() is Some))
}

/// How many constraints `FpVar::is_cmp` writes for two variables: bit
/// decompositions and range checks whose shape depends on the modulus alone.
pub uninterp spec fn compare_size(strict: bool) -> nat;

/// How many constraints `FpVar::enforce_cmp` writes for two variables.
pub uninterp spec fn enforce_compare_size(strict: bool) -> nat;

/// Relies on arkworks `FpVar::is_cmp` with `Ordering::Greater`: range checks on
/// `b` and on `a` (or `a + 1` when not strict), and the low bit of the doubled
/// difference as the result.
#[verifier::external_body]
fn is_cmp_var(cs: &mut ConstraintSystem, a: &FieldVar, b: &FieldVar, strict: bool) -> (r: Result<
    BoolVar,
    ark_relations::r1cs::SynthesisError,
>)
    requires
        belongs(a.sys(), *old(cs)),
        belongs(b.sys(), *old(cs)),
    ensures
        same_system(*old(cs), *final(cs)),
        cmp_operands_ok(*old(cs), a, b) ==> r is Ok,
        r is Ok && !a.is_const() && !b.is_const() ==> outcomes_of(*final(cs)).len() == outcomes_of(
            *old(cs),
        ).len() + compare_size(strict),
        r matches Ok(bit) ==> belongs(bit.sys(), *old(cs)),
        r is Ok && !setup_mode_of(*old(cs)) ==> match (a.assigned(), b.assigned()) {
            (Some(x), Some(y)) => r->Ok_0.assigned() == Some(cmp_bit(x.val(), y.val(), strict)) && all_true(
                outcomes_of(*final(cs)),
            ) == (all_true(outcomes_of(*old(cs))) && cmp_in_range(x.val(), y.val(), strict)),
            _ => true,
        },
{
    let bit = a.handle.var.is_cmp(&b.handle.var, core::cmp::Ordering::Greater, !strict)?;
    let value = bit.value().ok();
    let sys = if bit.is_constant() { Ghost(None) } else { Ghost(Some(system_id(*cs))) };
    Ok(BoolVar { handle: BitHandle { bit }, value, sys })
}

/// Relies on arkworks `FpVar::enforce_cmp` with `Ordering::Greater`: the range
/// checks of `is_cmp` and a constraint that the result bit is one.
#[verifier::external_body]
fn enforce_cmp_var(cs: &mut ConstraintSystem, a: &FieldVar, b: &FieldVar, strict: bool) -> (r:
    Result<(), ark_relations::r1cs::SynthesisError>)
    requires
        belongs(a.sys(), *old(cs)),
        belongs(b.sys(), *old(cs)),
    ensures
        same_system(*old(cs), *final(cs)),
        cmp_operands_ok(*old(cs), a, b) ==> r is Ok,
        r is Ok && !a.is_const() && !b.is_const() ==> outcomes_of(*final(cs)).len() == outcomes_of(
            *old(cs),
        ).len() + enforce_compare_size(strict),
        r is Ok && !setup_mode_of(*old(cs)) ==> match (a.assigned(), b.assigned()) {
            (Some(x), Some(y)) => all_true(outcomes_of(*final(cs))) == (all_true(
                outcomes_of(*old(cs)),
            ) && cmp_in_range(x.val(), y.val(), strict) && cmp_bit(x.val(), y.val(), strict)),
            _ => true,
        },
{
    a.handle.var.enforce_cmp(&b.handle.var, core::cmp::Ordering::Greater, !strict)
}

/// Comparison gadget: a bit that is `a > b` (`a ≥ b` when not `strict`) over the
/// canonical integers, for operands at most `(p − 1) / 2`; the range checks it
/// writes fail for larger operands. On other operands the bit is arkworks'
/// `cmp_bit`.
pub fn compare(cs: &mut ConstraintSystem, a: &FieldVar, b: &FieldVar, strict: bool) -> (r: Result<
    BoolVar,
    SynthError,
>)
    requires
        belongs(a.sys(), *old(cs)),
        belongs(b.sys(), *old(cs)),
    ensures
        same_system(*old(cs), *final(cs)),
        cmp_operands_ok(*old(cs), a, b) ==> r is Ok,
        r is Ok && !a.is_const() && !b.is_const() ==> outcomes_of(*final(cs)).len() == outcomes_of(
            *old(cs),
        ).len() + compare_size(strict),
        r matches Ok(bit) ==> belongs(bit.sys(), *old(cs)),
        r is Ok && !setup_mode_of(*old(cs)) ==> match (a.assigned(), b.assigned()) {
            (Some(x), Some(y)) => (orderable(x.val(), y.val(), strict) ==> r->Ok_0.assigned() == Some(
                ordered(x.val(), y.val(), strict),
            ) && satisfied(*final(cs)) == satisfied(*old(cs))) && r->Ok_0.assigned() == Some(
                cmp_bit(x.val(), y.val(), strict),
            ) && satisfied(*final(cs)) == (satisfied(*old(cs)) && cmp_in_range(
                x.val(),
                y.val(),
                strict,
            )),
            _ => true,
        },
{
    let r = is_cmp_var(cs, a, b, strict);
    proof {
        if a.assigned() is Some && b.assigned() is Some {
            let x = a.assigned()->Some_0.val();
            let y = b.assigned()->Some_0.val();
            if orderable(x, y, strict) {
                if strict {
                    lemma_compare_strict(x, y);
                } else {
                    lemma_compare_nonstrict(x, y);
                }
            }
        }
    }
    match r {
        Ok(bit) => Ok(bit),
        Err(e) => Err(backend_error(e)),
    }
}

/// Enforces `a > b` (`a ≥ b` when not `strict`): for operands at most
/// `(p − 1) / 2` the system stays satisfied exactly when the order holds; the
/// range checks fail for larger operands.
pub fn enforce_compare(cs: &mut ConstraintSystem, a: &FieldVar, b: &FieldVar, strict: bool) -> (r:
    Result<(), SynthError>)
    requires
        belongs(a.sys(), *old(cs)),
        belongs(b.sys(), *old(cs)),
    ensures
        same_system(*old(cs), *final(cs)),
        cmp_operands_ok(*old(cs), a, b) ==> r is Ok,
        r is Ok && !a.is_const() && !b.is_const() ==> outcomes_of(*final(cs)).len() == outcomes_of(
            *old(cs),
        ).len() + enforce_compare_size(strict),
        r is Ok && !setup_mode_of(*old(cs)) ==> match (a.assigned(), b.assigned()) {
            (Some(x), Some(y)) => (orderable(x.val(), y.val(), strict) ==> satisfied(*final(cs)) == (
            satisfied(*old(cs)) && ordered(x.val(), y.val(), strict))) && satisfied(*final(cs)) == (
            satisfied(*old(cs)) && cmp_in_range(x.val(), y.val(), strict) && cmp_bit(
                x.val(),
                y.val(),
                strict,
            )),
            _ => true,
        },
{
    let r = enforce_cmp_var(cs, a, b, strict);
    proof {
        if a.assigned() is Some && b.assigned() is Some {
            let x = a.assigned()->Some_0.val();
            let y = b.assigned()->Some_0.val();
            if orderable(x, y, strict) {
                if strict {
                    lemma_compare_strict(x, y);
                } else {
                    lemma_compare_nonstrict(x, y);
                }
            }
        }
    }
    match r {
        Ok(()) => Ok(()),
        Err(e) => Err(backend_error(e)),
    }
}

/// Conditional equality gadget: the constraint `cond · (lhs − rhs) = 0`, which
/// forces `lhs = rhs` when `cond` is one and leaves both free otherwise.
pub fn conditional_equal(cs: &mut ConstraintSystem, lhs: &FieldVar, rhs: &FieldVar, cond: &BoolVar) -> (r:
    Result<(), SynthError>)
    requires
        belongs(lhs.sys(), *old(cs)),
        belongs(rhs.sys(), *old(cs)),
        belongs(cond.sys(), *old(cs)),
    ensures
        same_system(*old(cs), *final(cs)),
        live_of(*old(cs)) ==> r is Ok,
        r is Ok ==> outcomes_of(*final(cs)).len() == outcomes_of(*old(cs)).len() + (if lhs.is_const()
            && rhs.is_const() {
            0nat
        } else {
            1nat
        }),
        r is Ok && !setup_mode_of(*old(cs)) ==> match (lhs.assigned(), rhs.assigned(), cond.assigned()) {
            (Some(x), Some(y), Some(c)) => satisfied(*final(cs)) == (satisfied(*old(cs))
                    && cond_eq_holds(x.val(), y.val(), c, lhs.is_const() && rhs.is_const())),
            _ => true,
        },
{
    match enforce_equal_if(cs, lhs, rhs, cond) {
        Ok(()) => Ok(()),
        Err(e) => Err(backend_error(e)),
    }
}

/// Enforces `lhs = rhs`: conditional equality under the constant condition one.
pub fn enforce_equal(cs: &mut ConstraintSystem, lhs: &FieldVar, rhs: &FieldVar) -> (r: Result<
    (),
    SynthError,
>)
    requires
        belongs(lhs.sys(), *old(cs)),
        belongs(rhs.sys(), *old(cs)),
    ensures
        same_system(*old(cs), *final(cs)),
        live_of(*old(cs)) ==> r is Ok,
        r is Ok ==> outcomes_of(*final(cs)).len() == outcomes_of(*old(cs)).len() + (if lhs.is_const()
            && rhs.is_const() {
            0nat
        } else {
            1nat
        }),
        r is Ok && !setup_mode_of(*old(cs)) ==> match (lhs.assigned(), rhs.assigned()) {
            (Some(x), Some(y)) => satisfied(*final(cs)) == (satisfied(*old(cs))
                    && ((lhs.is_const() && rhs.is_const()) || x.val() == y.val())),
            _ => true,
        },
{
    let one = constant_bit(true);
    conditional_equal(cs, lhs, rhs, &one)
}

/// `Σ cᵢ·xⁱ` over the integers, index `i` being the degree-`i` coefficient.
pub open spec fn poly_sum(c: Seq<Felt>, x: nat) -> int
    decreases c.len(),
{
    if c.len() == 0 {
        0
    } else {
        poly_sum(c.drop_last(), x) + c.last().val() * pow(x as int, (c.len() - 1) as nat)
    }
}

/// Polynomial evaluation gadget: a variable equal to `Σ cᵢ·xⁱ` in the field, built
/// by accumulating `cᵢ · xⁱ` while the power of `x` advances. Writes only the
/// multiplication constraints, which hold by construction.
pub fn evaluate(cs: &mut ConstraintSystem, coeffs: &Vec<Felt>, x: &FieldVar) -> (r: FieldVar)
    requires
        forall|i: int| 0 <= i < coeffs.len() ==> (#[trigger] coeffs[i]).wf(),
        opt_wf(x.assigned()),
        belongs(x.sys(), *old(cs)),
        !x.is_const(),
        setup_mode_of(*old(cs)) || x.assigned() is Some,
    ensures
        same_system(*old(cs), *final(cs)),
        outcomes_of(*final(cs)).len() == outcomes_of(*old(cs)).len() + (if coeffs.len() == 0 {
            0
        } else {
            coeffs.len() - 1
        }),
        r.is_const() == (coeffs.len() <= 1),
        belongs(r.sys(), *old(cs)),
        !setup_mode_of(*old(cs)) ==> satisfied(*final(cs)) == satisfied(*old(cs)),
        !setup_mode_of(*old(cs)) ==> opt_val(r.assigned()) == Some(
            (poly_sum(coeffs@, x.assigned()->Some_0.val()) % (modulus() as int)) as nat,
        ),
{
    let mut res = constant_var(Felt::zero());
    let mut power = constant_var(Felt::one());
    let ghost xv: nat = if x.assigned() is Some { x.assigned()->Some_0.val() } else { 0 };
    let ghost p = modulus() as int;
    let ghost start = *cs;
    let mut i: usize = 0;
    proof {
        reveal(pow);
        assert(pow(xv as int, 0) == 1);
        assert(coeffs@.subrange(0, 0) =~= Seq::<Felt>::empty());
    }
    while i < coeffs.len()
        invariant
            i <= coeffs.len(),
            forall|k: int| 0 <= k < coeffs.len() ==> (#[trigger] coeffs[k]).wf(),
            same_system(start, *cs),
            !x.is_const(),
            power.is_const() == (i == 0),
            res.is_const() == (i <= 1),
            outcomes_of(*cs).len() == outcomes_of(start).len() + (if i == 0 {
                0
            } else {
                i - 1
            }),
            belongs(x.sys(), *cs),
            belongs(res.sys(), *cs),
            belongs(power.sys(), *cs),
            !setup_mode_of(start) ==> all_true(outcomes_of(*cs)) == all_true(outcomes_of(start)),
            setup_mode_of(*cs) || x.assigned() is Some,
            !setup_mode_of(*cs) ==> xv == x.assigned()->Some_0.val(),
            !setup_mode_of(*cs) ==> opt_val(res.assigned()) == Some(
                (poly_sum(coeffs@.subrange(0, i as int), xv) % p) as nat,
            ),
            !setup_mode_of(*cs) ==> opt_val(power.assigned()) == Some((pow(xv as int, i as nat) % p) as nat),
            opt_wf(res.assigned()),
            opt_wf(power.assigned()),
            p == modulus() as int,
        decreases coeffs.len() - i,
    {
        let c = constant_var(coeffs[i]);
        let term = mul_var(cs, &c, &power);
        let next = add_var(&res, &term);
        let next_power = mul_var(cs, &power, x);
        proof {
            if !setup_mode_of(*cs) {
                let s = poly_sum(coeffs@.subrange(0, i as int), xv);
                let xi = pow(xv as int, i as nat);
                let cv = coeffs[i as int].val() as int;
                let sub = coeffs@.subrange(0, i + 1);
                assert(sub.drop_last() =~= coeffs@.subrange(0, i as int));
                assert(sub.last() == coeffs[i as int]);
                assert(poly_sum(sub, xv) == s + cv * xi);
                lemma_mul_mod_noop_right(cv, xi, p);
                lemma_add_mod_noop(s, cv * xi, p);
                assert(xi % p >= 0);
                assert(s % p >= 0);
                assert(((cv * (xi % p)) % p) >= 0);
                assert(opt_val(next.assigned()) == Some((poly_sum(sub, xv) % p) as nat));
                lemma_mul_mod_noop_left(xi, xv as int, p);
                assert(pow(xv as int, (i + 1) as nat) == xv * xi) by {
                    reveal(pow);
                }
                assert(xi * xv == xv * xi) by (nonlinear_arith);
                assert(opt_val(next_power.assigned()) == Some((pow(xv as int, (i + 1) as nat) % p) as nat));
            }
        }
        res = next;
        power = next_power;
        i = i + 1;
    }
    proof {
        if !setup_mode_of(*cs) {
            assert(coeffs@.subrange(0, coeffs.len() as int) =~= coeffs@);
        }
    }
    res
}

/// Comparing an element with itself: the strict comparison is false and the
/// non-strict one true, for every element of the field.
pub proof fn lemma_compare_reflexive(a: nat)
    requires
        a < modulus(),
    ensures
        !cmp_bit(a, a, true),
        cmp_bit(a, a, false),
{
    let p = modulus() as int;
    assert(p % 2 == 1);
    if a + 1 < p {
        assert(cmp_right(a, false) == a + 1);
        assert((-2int) % p == p - 2);
    } else {
        assert(cmp_right(a, false) == 0);
        assert((2 * (a as int)) % p == p - 2);
    }
}

/// For operands at most `(p − 1) / 2` the strict comparison is `a > b`.
pub proof fn lemma_compare_strict(a: nat, b: nat)
    requires
        a <= half_modulus(),
        b <= half_modulus(),
    ensures
        cmp_in_range(a, b, true),
        cmp_bit(a, b, true) == (a > b),
{
    lemma_doubled_difference_bit(b as int - a as int);
}

/// For `a < (p − 1) / 2` and `b` at most `(p − 1) / 2` the non-strict comparison
/// is `a ≥ b`.
pub proof fn lemma_compare_nonstrict(a: nat, b: nat)
    requires
        a < half_modulus(),
        b <= half_modulus(),
    ensures
        cmp_in_range(a, b, false),
        cmp_bit(a, b, false) == (a >= b),
{
    let p = modulus() as int;
    vstd::arithmetic::div_mod::lemma_small_mod(a + 1, p as nat);
    lemma_doubled_difference_bit(b as int - (a + 1));
}

/// The low bit of `2·d` in canonical form, for `|d| ≤ (p − 1) / 2`, is set
/// exactly when `d` is negative.
proof fn lemma_doubled_difference_bit(d: int)
    requires
        -(half_modulus() as int) <= d <= half_modulus(),
    ensures
        ((2 * d) % (modulus() as int)) % 2 == 1 <==> d < 0,
{
    let p = modulus() as int;
    assert(p % 2 == 1);
    assert(p == 2 * half_modulus() + 1);
    if d < 0 {
        vstd::arithmetic::div_mod::lemma_mod_add_multiples_vanish(2 * d, p);
        vstd::arithmetic::div_mod::lemma_small_mod((2 * d + p) as nat, p as nat);
    } else {
        vstd::arithmetic::div_mod::lemma_small_mod((2 * d) as nat, p as nat);
    }
}

/// For operands that the comparison can order (at most `(p − 1) / 2`), `a > b`
/// makes the strict comparison of `a` with `b` true, that of `b` with `a` false,
/// and both pass their range checks.
pub proof fn lemma_compare_orders(a: nat, b: nat)
    requires
        b < a,
        a <= half_modulus(),
    ensures
        cmp_bit(a, b, true),
        !cmp_bit(b, a, true),
        cmp_in_range(a, b, true),
        cmp_in_range(b, a, true),
{
    lemma_compare_strict(a, b);
    lemma_compare_strict(b, a);
}

/// With `lhs ≠ rhs` (not both constants), conditional equality under a false
/// condition holds and under a true one fails.
pub proof fn lemma_conditional_equal(lhs: nat, rhs: nat)
    requires
        lhs != rhs,
    ensures
        cond_eq_holds(lhs, rhs, false, false),
        !cond_eq_holds(lhs, rhs, true, false),
{
}

} // verus!
