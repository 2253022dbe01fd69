//! ElGamal encryption on the twisted Edwards curve over the BN254 scalar field,
//! proved inside a constraint system over that same field. The randomness is a
//! scalar of the curve's own, smaller scalar field: it crosses as canonical bytes,
//! then bits, that drive the double-and-add scalar multiplications.
use vstd::prelude::*;
use vstd::arithmetic::power::{lemma_pow_adds, lemma_pow_multiplies, lemma_pow_positive, pow};
use vstd::arithmetic::div_mod::{
    lemma_div_denominator, lemma_fundamental_div_mod_converse, lemma_mod_breakdown, lemma_mod_mod,
};
use ark_ec::CurveGroup;
use ark_ff::PrimeField;
use ark_r1cs_std::R1CSVar;
use ark_r1cs_std::alloc::AllocVar;
use ark_r1cs_std::alloc::AllocationMode::{Constant, Input, Witness};
use ark_ed_on_bn254::{EdwardsAffine, Fq};
use ark_ed_on_bn254::constraints::EdwardsVar;
use ark_ff::BigInt;
use ark_relations::r1cs::SynthesisError;
use ark_relations::r1cs::SynthesisError::AssignmentMissing;
use ark_r1cs_std::convert::ToBitsGadget;
use ark_r1cs_std::eq::EqGadget;
use ark_r1cs_std::groups::CurveVar;
use ark_r1cs_std::uint8::UInt8;
use ark_serialize::CanonicalSerialize;
use crate::allocation::{AllocKind, alloc_ok};
use crate::field::{Felt, limbs_val, modulus};
use crate::system::{
    BitHandle, BoolVar, ConstraintSystem, SynthError, all_true, backend_error, belongs, live_of,
    outcomes_of, input_value, public_inputs_of, same_mode, same_system, satisfied, setup_mode_of, system_id,
};

verus! {

/// Order of the curve's prime-order subgroup: the field of the randomness.
pub open spec fn scalar_modulus() -> nat {
    2736030358979909402780800718157159386076813972158567259200215660948447373041nat
}

/// The curve's coefficient `d` (its `a` is one).
pub open spec fn curve_d() -> nat {
    9706598848417545097372247223557719406784115219466060233080913168975159366771nat
}

/// A scalar of the curve, as canonical little-endian limbs.
#[derive(Clone, Copy, Debug, PartialEq, Eq)]
pub struct Scalar {
    pub limbs: [u64; 4],
}

impl Scalar {
    pub open spec fn val(self) -> nat {
        limbs_val(self.limbs)
    }

    pub open spec fn wf(self) -> bool {
        self.val() < scalar_modulus()
    }

    pub fn zero() -> (r: Scalar)
        ensures
            r.val() == 0,
            r.wf(),
    {
        let r = Scalar { limbs: [0, 0, 0, 0] };
        assert(r.limbs@ =~= seq![0u64, 0u64, 0u64, 0u64]);
        r
    }
}

/// A curve point in affine coordinates.
#[derive(Clone, Copy, Debug, PartialEq, Eq)]
pub struct Point {
    pub x: Felt,
    pub y: Felt,
}

/// `x² + y² = 1 + d·x²·y²` in the field.
pub open spec fn on_curve(p: Point) -> bool {
    let (x, y) = (p.x.val(), p.y.val());
    p.x.wf() && p.y.wf() && (x * x + y * y) % modulus() == (1 + curve_d() * x * x * y * y)
        % modulus()
}

pub open spec fn opt_on_curve(p: Option<Point>) -> bool {
    match p {
        Some(q) => on_curve(q),
        None => true,
    }
}

/// The point `(Σ bitsᵢ·2ⁱ)·p`, as arkworks' `scalar_mul_le` computes it.
pub uninterp spec fn scalar_mul_of(p: Point, bits: Seq<bool>) -> Point;

/// The curve sum `p + q`, as arkworks' group law computes it.
pub uninterp spec fn point_sum_of(p: Point, q: Point) -> Point;

/// Byte `i` of `v` in little-endian order.
pub open spec fn le_byte(v: nat, i: nat) -> u8 {
    ((v / pow(256, i) as nat) % 256) as u8
}

/// Bit `j` of the byte `b`.
pub open spec fn byte_bit(b: u8, j: nat) -> bool {
    (b as nat / pow(2, j) as nat) % 2 == 1
}

/// The little-endian bit expansion of a byte string: bit `j` of byte `i` at `8·i + j`.
pub open spec fn le_bits(bytes: Seq<u8>) -> Seq<bool> {
    Seq::new(8 * bytes.len(), |k: int| byte_bit(bytes[k / 8], (k % 8) as nat))
}

/// The error type of ark-serialize.
#[verifier::external_type_specification]
#[verifier::external_body]
pub struct ExSerializationError(ark_serialize::SerializationError);

/// An allocated byte (arkworks `UInt8`).
#[verifier::external_body]
pub struct ByteHandle {
    pub(crate) byte: UInt8<ark_bn254::Fr>,
}

/// An allocated curve point (arkworks `AffineVar` over `FpVar`).
#[verifier::external_body]
pub struct PointHandle {
    pub(crate) point: ark_ed_on_bn254::constraints::EdwardsVar,
}

/// A byte variable and its assigned value.
pub struct ByteVar {
    pub(crate) handle: ByteHandle,
    pub(crate) value: Option<u8>,
    pub(crate) sys: Ghost<Option<int>>,
}

impl ByteVar {
    /// The value the backend holds for the byte.
    pub closed spec fn assigned(&self) -> Option<u8> {
        self.value
    }

    /// The system it lives in; `None` for a constant.
    pub closed spec fn sys(&self) -> Option<int> {
        self.sys@
    }

    /// The assigned value; absent at key generation.
    pub fn value(&self) -> (r: Option<u8>)
        ensures
            r == self.assigned(),
    {
        self.value
    }
}

/// A point variable and its assigned value.
pub struct PointVar {
    pub(crate) handle: PointHandle,
    pub(crate) value: Option<Point>,
    pub(crate) sys: Ghost<Option<int>>,
    pub(crate) full: Ghost<bool>,
}

impl PointVar {
    /// Known to have both coordinates as variables, not constants.
    pub closed spec fn full(&self) -> bool {
        self.full@
    }

    /// The value the backend holds for the point.
    pub closed spec fn assigned(&self) -> Option<Point> {
        self.value
    }

    /// The system it lives in; `None` for a constant.
    pub closed spec fn sys(&self) -> Option<int> {
        self.sys@
    }

    /// The assigned value; absent at key generation.
    pub fn value(&self) -> (r: Option<Point>)
        ensures
            r == self.assigned(),
    {
        self.value
    }
}

/// Relies on ark-serialize `CanonicalSerialize::serialize_compressed` for the
/// curve's scalar field: the canonical value as 32 little-endian bytes (the
/// field's 251 bits rounded up to bytes). It fails only for flags wider than a
/// byte or on a writer error, and a `Vec` never refuses a write.
#[verifier::external_body]
fn scalar_bytes(s: Scalar) -> (r: Result<Vec<u8>, ark_serialize::SerializationError>)
    requires
        s.wf(),
    ensures
        r is Ok,
        r matches Ok(b) ==> b@.len() == 32 && forall|i: int|
            0 <= i < 32 ==> b@[i] == le_byte(s.val(), i as nat),
{
    let mut out = Vec::new();
    let v = ark_ed_on_bn254::Fr::from_bigint(ark_ff::BigInt::new(s.limbs)).unwrap();
    v.serialize_compressed(&mut out)?;
    Ok(out)
}

/// The system of a variable allocated in `cs` with the given kind.
pub open spec fn kind_sys(cs: ConstraintSystem, kind: AllocKind) -> Option<int> {
    if kind == AllocKind::Constant {
        None
    } else {
        Some(system_id(cs))
    }
}

/// Relies on arkworks `UInt8::constant_vec`, `UInt8::new_input_vec` and
/// `UInt8::new_witness_vec`: one byte variable per byte, whose bit constraints
/// hold for the assigned bytes; values are read outside key generation.
#[verifier::external_body]
fn new_byte_vars(cs: &mut ConstraintSystem, bytes: &Vec<u8>, kind: AllocKind) -> (r: Result<
    Vec<ByteVar>,
    ark_relations::r1cs::SynthesisError,
>)
    ensures
        same_mode(*old(cs), *final(cs)),
        kind != AllocKind::PublicInput ==> public_inputs_of(*final(cs)) == public_inputs_of(*old(cs)),
        kind == AllocKind::Constant ==> outcomes_of(*final(cs)) == outcomes_of(*old(cs)),
        !setup_mode_of(*old(cs)) ==> all_true(outcomes_of(*final(cs))) == all_true(
            outcomes_of(*old(cs)),
        ),
        alloc_ok(*old(cs), true, kind) ==> r is Ok,
        r matches Ok(v) ==> v@.len() == bytes@.len() && (forall|i: int|
            0 <= i < v@.len() ==> (#[trigger] v@[i]).sys() == kind_sys(*old(cs), kind)) && (kind
            == AllocKind::Constant || !setup_mode_of(*old(cs)) ==> forall|i: int|
            0 <= i < v@.len() ==> (#[trigger] v@[i]).assigned() == Some(bytes@[i])),
{
    let vars = match kind {
        AllocKind::Constant => UInt8::constant_vec(bytes),
        AllocKind::PublicInput => UInt8::new_input_vec(cs.inner.clone(), bytes)?,
        AllocKind::Witness => UInt8::new_witness_vec(cs.inner.clone(), bytes)?,
    };
    let sys = Ghost(kind_sys(*cs, kind));
    Ok(vars.into_iter().map(|byte| ByteVar { value: byte.value().ok(), handle: ByteHandle { byte }, sys }).collect())
}

/// Relies on arkworks `ToBitsGadget::to_bits_le` for `UInt8`, which returns the
/// byte's eight bits, least significant first, with no new constraint.
#[verifier::external_body]
fn byte_bits(b: &ByteVar) -> (r: Vec<BoolVar>)
    ensures
        r@.len() == 8,
        forall|j: int| 0 <= j < 8 ==> (#[trigger] r@[j]).sys() == b.sys(),
        b.assigned() matches Some(v) ==> forall|j: int|
            0 <= j < 8 ==> (#[trigger] r@[j]).assigned() == Some(byte_bit(v, j as nat)),
{
    let bits = b.handle.byte.to_bits_le().unwrap();
    let sys = Ghost(b.sys());
    bits.into_iter().map(|bit| BoolVar { value: bit.value().ok(), handle: BitHandle { bit }, sys }).collect()
}

/// The point that a witness allocation of `p` holds: arkworks allocates
/// `cofactor⁻¹·p` and multiplies it back by the cofactor, which gives `p` on the
/// prime-order subgroup.
pub uninterp spec fn witness_point_of(p: Point) -> Point;

/// The value of a point allocated from `p` with the given kind: the point itself
/// for a constant or an input, its round trip for a witness, nothing at key
/// generation.
pub open spec fn allocated_point(cs: ConstraintSystem, p: Option<Point>, kind: AllocKind) -> Option<
    Point,
> {
    if kind == AllocKind::Constant {
        p
    } else if setup_mode_of(cs) || p is None {
        None
    } else if kind == AllocKind::PublicInput {
        p
    } else {
        Some(witness_point_of(p->Some_0))
    }
}

/// Whether a value is missing where allocation needs one: always for a constant,
/// outside key generation for the other kinds.
pub open spec fn missing(cs: ConstraintSystem, present: bool, kind: AllocKind) -> bool {
    !present && (kind == AllocKind::Constant || !setup_mode_of(cs))
}

fn value_missing(cs: &ConstraintSystem, present: bool, kind: AllocKind) -> (r: bool)
    ensures
        r == missing(*cs, present, kind),
{
    !present && (kind == AllocKind::Constant || !cs.is_in_setup_mode())
}

/// The public inputs that allocating a point adds: its coordinates `x`, `y` when
/// it is an input.
pub open spec fn point_inputs(cs: ConstraintSystem, p: Option<Point>, kind: AllocKind) -> Seq<
    Option<Felt>,
> {
    if kind != AllocKind::PublicInput {
        Seq::empty()
    } else if setup_mode_of(cs) || p is None {
        seq![None, None]
    } else {
        seq![Some(p->Some_0.x), Some(p->Some_0.y)]
    }
}

/// Relies on arkworks `AllocVar::new_constant` for the curve's `AffineVar`: the
/// point as a constant, which writes no constraint.
#[verifier::external_body]
fn constant_point_var(p: Point) -> (r: PointVar)
    requires
        on_curve(p),
    ensures
        r.assigned() == Some(p),
        r.sys() is None,
{
    let g = EdwardsAffine::new_unchecked(Fq::new(BigInt::new(p.x.limbs)), Fq::new(BigInt::new(p.y.limbs)));
    let point = EdwardsVar::new_constant(ark_relations::r1cs::ConstraintSystemRef::None, g).unwrap();
    let a = point.value().ok().map(|v| v.into_affine());
    let value = a.map(|a| Point { x: Felt { limbs: a.x.into_bigint().0 }, y: Felt { limbs: a.y.into_bigint().0 } });
    PointVar { handle: PointHandle { point }, value, sys: Ghost(None), full: Ghost(false) }
}

/// Relies on arkworks `AllocVar::new_variable` for the curve's `AffineVar`, as an
/// input or a witness. An input keeps the point, and its coordinates are
/// variables; a witness is allocated as `cofactor⁻¹·p` and multiplied back by the
/// cofactor (`witness_point_of`). The on-curve constraints hold for curve points;
/// a missing value is an error outside key generation.
#[verifier::external_body]
fn alloc_point_var(cs: &mut ConstraintSystem, p: Option<Point>, input: bool) -> (r: Result<
    PointVar,
    SynthesisError,
>)
    requires
        opt_on_curve(p),
    ensures
        same_mode(*old(cs), *final(cs)),
        r is Ok ==> public_inputs_of(*final(cs)) == public_inputs_of(*old(cs)) + (if input {
            seq![
                input_value(*old(cs), first_coord(p)),
                input_value(*old(cs), second_coord(p)),
            ]
        } else {
            Seq::empty()
        }),
        !setup_mode_of(*old(cs)) ==> all_true(outcomes_of(*final(cs))) == all_true(
            outcomes_of(*old(cs)),
        ),
        live_of(*old(cs)) && (setup_mode_of(*old(cs)) || p is Some) ==> r is Ok,
        r matches Ok(v) ==> opt_on_curve(v.assigned()) && v.sys() == Some(system_id(*old(cs))),
        r matches Ok(v) ==> (input ==> v.full()) && (setup_mode_of(*old(cs)) ==> v.assigned() is None),
        r is Ok && !setup_mode_of(*old(cs)) && p is Some ==> r->Ok_0.assigned() == Some(
            if input {
                p->Some_0
            } else {
                witness_point_of(p->Some_0)
            },
        ),
{
    let mode = match input { true => Input, false => Witness };
    let g = p.map(|p| EdwardsAffine::new_unchecked(Fq::new(BigInt::new(p.x.limbs)), Fq::new(BigInt::new(p.y.limbs))));
    let point = EdwardsVar::new_variable(cs.inner.clone(), || g.ok_or(AssignmentMissing), mode)?;
    let value = point.value().ok().map(|v| v.into_affine()).map(|a| Point { x: Felt { limbs: a.x.into_bigint().0 }, y: Felt { limbs: a.y.into_bigint().0 } });
    Ok(PointVar { handle: PointHandle { point }, value, sys: Ghost(Some(system_id(*cs))), full: Ghost(input) })
}

pub open spec fn first_coord(p: Option<Point>) -> Option<Felt> {
    match p {
        Some(q) => Some(q.x),
        None => None,
    }
}

pub open spec fn second_coord(p: Option<Point>) -> Option<Felt> {
    match p {
        Some(q) => Some(q.y),
        None => None,
    }
}

/// Allocates a point with the given kind.
fn new_point_var(cs: &mut ConstraintSystem, p: Option<Point>, kind: AllocKind) -> (r: Result<
    PointVar,
    SynthError,
>)
    requires
        opt_on_curve(p),
    ensures
        same_mode(*old(cs), *final(cs)),
        r is Ok ==> public_inputs_of(*final(cs)) == public_inputs_of(*old(cs)) + point_inputs(
            *old(cs),
            p,
            kind,
        ),
        !setup_mode_of(*old(cs)) ==> all_true(outcomes_of(*final(cs))) == all_true(
            outcomes_of(*old(cs)),
        ),
        alloc_ok(*old(cs), p is Some, kind) ==> r is Ok,
        missing(*old(cs), p is Some, kind) ==> r == Err::<PointVar, SynthError>(SynthError::AssignmentMissing),
        kind == AllocKind::Constant ==> outcomes_of(*final(cs)) == outcomes_of(*old(cs)),
        r matches Ok(v) ==> opt_on_curve(v.assigned()) && v.sys() == kind_sys(*old(cs), kind),
        r matches Ok(v) ==> v.assigned() == allocated_point(*old(cs), p, kind),
        r is Ok && kind == AllocKind::Witness && !setup_mode_of(*old(cs)) && p is Some
            ==> r->Ok_0.assigned() == Some(witness_point_of(p->Some_0)),
        r matches Ok(v) ==> (kind == AllocKind::PublicInput ==> v.full()),
{
    if kind == AllocKind::Constant {
        match p {
            Some(q) => Ok(constant_point_var(q)),
            None => Err(SynthError::AssignmentMissing),
        }
    } else {
        if value_missing(cs, p.is_some(), kind) {
            return Err(SynthError::AssignmentMissing);
        }
        match alloc_point_var(cs, p, kind == AllocKind::PublicInput) {
            Ok(v) => Ok(v),
            Err(e) => Err(backend_error(e)),
        }
    }
}

/// The values of a sequence of bit variables.
pub open spec fn bit_values(bits: Seq<BoolVar>) -> Seq<bool> {
    bits.map_values(|b: BoolVar| b.assigned()->Some_0)
}

pub open spec fn all_assigned(bits: Seq<BoolVar>) -> bool {
    forall|i: int| 0 <= i < bits.len() ==> (#[trigger] bits[i]).assigned() is Some
}

pub open spec fn bits_belong(bits: Seq<BoolVar>, cs: ConstraintSystem) -> bool {
    forall|i: int| 0 <= i < bits.len() ==> belongs((#[trigger] bits[i]).sys(), cs)
}

/// Relies on arkworks `CurveVar::scalar_mul_le`: double-and-add over the bits,
/// least significant first, in the operands' system; for points on the curve the
/// addition law is complete, so its witness divisions are defined and every
/// constraint it writes holds for the assignment.
#[verifier::external_body]
fn scalar_mul_var(cs: &mut ConstraintSystem, p: &PointVar, bits: &Vec<BoolVar>) -> (r: Result<
    PointVar,
    SynthesisError,
>)
    requires
        opt_on_curve(p.assigned()),
        belongs(p.sys(), *old(cs)),
        bits_belong(bits@, *old(cs)),
    ensures
        same_system(*old(cs), *final(cs)),
        live_of(*old(cs)) && (setup_mode_of(*old(cs)) || (p.assigned() is Some && all_assigned(
            bits@,
        ))) ==> r is Ok,
        r is Ok && !setup_mode_of(*old(cs)) ==> all_true(outcomes_of(*final(cs))) == all_true(
            outcomes_of(*old(cs)),
        ),
        r matches Ok(v) ==> opt_on_curve(v.assigned()) && belongs(v.sys(), *old(cs)),
        r is Ok && p.assigned() is Some && all_assigned(bits@) ==> r->Ok_0.assigned() == Some(
            scalar_mul_of(p.assigned()->Some_0, bit_values(bits@)),
        ),
{
    let point = p.handle.point.scalar_mul_le(bits.iter().map(|b| &b.handle.bit))?;
    let sys = if point.is_constant() { Ghost(None) } else { Ghost(Some(system_id(*cs))) };
    let a = point.value().ok().map(|v| v.into_affine());
    let value = a.map(|a| Point { x: Felt { limbs: a.x.into_bigint().0 }, y: Felt { limbs: a.y.into_bigint().0 } });
    let full = if point.x.is_constant() || point.y.is_constant() { Ghost(false) } else { Ghost(true) };
    Ok(PointVar { handle: PointHandle { point }, value, sys, full })
}

/// Relies on arkworks `Add` for the curve's `AffineVar`: the sum, whose witness
/// division is defined for points on the curve; outside key generation it unwraps
/// the operands' values.
#[verifier::external_body]
fn add_points(cs: &mut ConstraintSystem, p: &PointVar, q: &PointVar) -> (r: PointVar)
    requires
        opt_on_curve(p.assigned()),
        opt_on_curve(q.assigned()),
        belongs(p.sys(), *old(cs)),
        belongs(q.sys(), *old(cs)),
        setup_mode_of(*old(cs)) || (p.assigned() is Some && q.assigned() is Some),
    ensures
        same_system(*old(cs), *final(cs)),
        !setup_mode_of(*old(cs)) ==> all_true(outcomes_of(*final(cs))) == all_true(
            outcomes_of(*old(cs)),
        ),
        opt_on_curve(r.assigned()),
        belongs(r.sys(), *old(cs)),
        p.assigned() is Some && q.assigned() is Some ==> r.assigned() == Some(
            point_sum_of(p.assigned()->Some_0, q.assigned()->Some_0),
        ),
{
    let point = p.handle.point.clone() + &q.handle.point;
    let sys = if point.is_constant() { Ghost(None) } else { Ghost(Some(system_id(*cs))) };
    let a = point.value().ok().map(|v| v.into_affine());
    let value = a.map(|a| Point { x: Felt { limbs: a.x.into_bigint().0 }, y: Felt { limbs: a.y.into_bigint().0 } });
    let full = if point.x.is_constant() || point.y.is_constant() { Ghost(false) } else { Ghost(true) };
    PointVar { handle: PointHandle { point }, value, sys, full }
}

/// Relies on arkworks `EqGadget::is_eq` for the curve's `AffineVar`: a bit that is
/// set when both coordinates agree; when `p`'s coordinates are both variables the
/// two coordinate bits are, and so is their conjunction. Its constraints hold for
/// the assignment.
#[verifier::external_body]
fn point_is_eq(cs: &mut ConstraintSystem, p: &PointVar, q: &PointVar) -> (r: Result<
    BoolVar,
    SynthesisError,
>)
    requires
        belongs(p.sys(), *old(cs)),
        belongs(q.sys(), *old(cs)),
    ensures
        same_system(*old(cs), *final(cs)),
        live_of(*old(cs)) && (setup_mode_of(*old(cs)) || (p.assigned() is Some && q.assigned() is Some))
            ==> r is Ok,
        r is Ok && !setup_mode_of(*old(cs)) ==> all_true(outcomes_of(*final(cs))) == all_true(
            outcomes_of(*old(cs)),
        ),
        r matches Ok(b) ==> belongs(b.sys(), *old(cs)),
        r is Ok && p.full() ==> r->Ok_0.sys() is Some,
        r is Ok && p.assigned() is Some && q.assigned() is Some ==> r->Ok_0.assigned() == Some(
            p.assigned()->Some_0 == q.assigned()->Some_0,
        ),
{
    let bit = p.handle.point.is_eq(&q.handle.point)?;
    let sys = if bit.is_constant() { Ghost(None) } else { Ghost(Some(system_id(*cs))) };
    Ok(BoolVar { value: bit.value().ok(), handle: BitHandle { bit }, sys })
}

/// Relies on arkworks `BitAnd` for `&Boolean`: the conjunction, a variable when
/// both operands are, whose constraint holds for the assignment.
#[verifier::external_body]
fn and_bits(cs: &mut ConstraintSystem, a: &BoolVar, b: &BoolVar) -> (r: BoolVar)
    requires
        belongs(a.sys(), *old(cs)),
        belongs(b.sys(), *old(cs)),
    ensures
        same_system(*old(cs), *final(cs)),
        !setup_mode_of(*old(cs)) ==> all_true(outcomes_of(*final(cs))) == all_true(
            outcomes_of(*old(cs)),
        ),
        belongs(r.sys(), *old(cs)),
        a.sys() is Some && b.sys() is Some ==> r.sys() is Some,
        a.assigned() is Some && b.assigned() is Some ==> r.assigned() == Some(a.assigned()->Some_0 && b.assigned()->Some_0),
{
    let bit = &a.handle.bit & &b.handle.bit;
    let sys = if bit.is_constant() { Ghost(None) } else { Ghost(Some(system_id(*cs))) };
    BoolVar { value: bit.value().ok(), handle: BitHandle { bit }, sys }
}

/// Relies on arkworks `EqGadget::enforce_equal` for `Boolean` against
/// `Boolean::TRUE`: the bit must be one; it fails only for the constant false.
#[verifier::external_body]
fn enforce_true(cs: &mut ConstraintSystem, b: &BoolVar) -> (r: Result<
    (),
    SynthesisError,
>)
    requires
        belongs(b.sys(), *old(cs)),
    ensures
        same_system(*old(cs), *final(cs)),
        live_of(*old(cs)) && (b.sys() is Some || b.assigned() == Some(true)) ==> r is Ok,
        r is Ok && !setup_mode_of(*old(cs)) && b.assigned() is Some ==> all_true(
            outcomes_of(*final(cs)),
        ) == (all_true(outcomes_of(*old(cs))) && b.assigned()->Some_0),
{
    b.handle.bit.enforce_equal(&ark_r1cs_std::boolean::Boolean::TRUE)
}

/// The values of byte variables.
pub open spec fn byte_values(bytes: Seq<ByteVar>) -> Seq<u8> {
    bytes.map_values(|b: ByteVar| b.assigned()->Some_0)
}

pub open spec fn bytes_assigned(bytes: Seq<ByteVar>) -> bool {
    forall|i: int| 0 <= i < bytes.len() ==> (#[trigger] bytes[i]).assigned() is Some
}

/// The randomness of one encryption as byte variables of the constraint field.
pub struct RandomnessVar(pub Vec<ByteVar>);

impl RandomnessVar {
    /// Serialises the scalar to its 32 canonical little-endian bytes and allocates
    /// one byte variable per byte. A missing scalar is `AssignmentMissing`, except
    /// for a witness or input at key generation, where zero fixes the structure.
    pub fn new_variable(cs: &mut ConstraintSystem, r: Option<Scalar>, kind: AllocKind) -> (res:
        Result<RandomnessVar, SynthError>)
        requires
            r matches Some(s) ==> s.wf(),
        ensures
            same_mode(*old(cs), *final(cs)),
            kind != AllocKind::PublicInput ==> public_inputs_of(*final(cs)) == public_inputs_of(
                *old(cs),
            ),
            !setup_mode_of(*old(cs)) ==> satisfied(*final(cs)) == satisfied(*old(cs)),
            kind == AllocKind::Constant ==> outcomes_of(*final(cs)) == outcomes_of(*old(cs)),
            r is None && (kind == AllocKind::Constant || !setup_mode_of(*old(cs))) ==> res == Err::<
                RandomnessVar,
                SynthError,
            >(SynthError::AssignmentMissing),
            alloc_ok(*old(cs), r is Some, kind) ==> res is Ok,
            res matches Ok(v) ==> forall|i: int|
                0 <= i < v.0@.len() ==> (#[trigger] v.0@[i]).sys() == kind_sys(*old(cs), kind),
            res matches Ok(v) ==> v.0@.len() == 32 && (kind == AllocKind::Constant
                || !setup_mode_of(*old(cs)) ==> forall|i: int|
                0 <= i < 32 ==> (#[trigger] v.0@[i]).assigned() == Some(
                    le_byte(if r is Some { r->Some_0.val() } else { 0 }, i as nat),
                )),
    {
        let s = match r {
            Some(s) => s,
            None => {
                if kind == AllocKind::Constant || !cs.is_in_setup_mode() {
                    return Err(SynthError::AssignmentMissing);
                }
                Scalar::zero()
            },
        };
        let bytes = match scalar_bytes(s) {
            Ok(b) => b,
            Err(_) => return Err(SynthError::SerializationFailure),
        };
        match new_byte_vars(cs, &bytes, kind) {
            Ok(v) => Ok(RandomnessVar(v)),
            Err(e) => Err(backend_error(e)),
        }
    }

    /// The bits of the randomness, least significant first: bit `j` of byte `i` at
    /// `8·i + j`, exactly the canonical expansion and no wider.
    pub fn to_bits_le(&self) -> (r: Vec<BoolVar>)
        requires
            self.0@.len() * 8 <= usize::MAX,
        ensures
            r@.len() == 8 * self.0@.len(),
            forall|k: int| 0 <= k < r@.len() ==> (#[trigger] r@[k]).sys() == self.0@[k / 8].sys(),
            bytes_assigned(self.0@) ==> all_assigned(r@) && bit_values(r@) == le_bits(
                byte_values(self.0@),
            ),
    {
        let mut out: Vec<BoolVar> = Vec::new();
        let mut i: usize = 0;
        while i < self.0.len()
            invariant
                i <= self.0@.len(),
                self.0@.len() * 8 <= usize::MAX,
                out@.len() == 8 * i,
                forall|k: int| 0 <= k < out@.len() ==> (#[trigger] out@[k]).sys() == self.0@[k / 8].sys(),
                bytes_assigned(self.0@) ==> forall|k: int|
                    0 <= k < out@.len() ==> (#[trigger] out@[k]).assigned() == Some(
                        byte_bit(self.0@[k / 8].assigned()->Some_0, (k % 8) as nat),
                    ),
            decreases self.0@.len() - i,
        {
            let bits = byte_bits(&self.0[i]);
            let mut bits = bits;
            let ghost before = out@;
            out.append(&mut bits);
            proof {
                assert forall|k: int| 0 <= k < out@.len() implies (#[trigger] out@[k]).sys()
                    == self.0@[k / 8].sys() by {
                    if k >= 8 * i {
                        assert(k / 8 == i as int);
                    } else {
                        assert(out@[k] == before[k]);
                    }
                }
                if bytes_assigned(self.0@) {
                    assert forall|k: int| 0 <= k < out@.len() implies (#[trigger] out@[k]).assigned()
                        == Some(byte_bit(self.0@[k / 8].assigned()->Some_0, (k % 8) as nat)) by {
                        if k >= 8 * i {
                            let j = k - 8 * i;
                            assert(k / 8 == i as int);
                            assert(k % 8 == j);
                        } else {
                            assert(out@[k] == before[k]);
                        }
                    }
                }
            }
            i = i + 1;
        }
        proof {
            if bytes_assigned(self.0@) {
                assert(bit_values(out@) =~= le_bits(byte_values(self.0@)));
            }
        }
        out
    }
}

/// The public parameters: the generator.
pub struct ParametersVar {
    pub generator: PointVar,
}

impl ParametersVar {
    pub fn new_variable(cs: &mut ConstraintSystem, generator: Option<Point>, kind: AllocKind) -> (r:
        Result<ParametersVar, SynthError>)
        requires
            opt_on_curve(generator),
        ensures
            same_mode(*old(cs), *final(cs)),
            r is Ok ==> public_inputs_of(*final(cs)) == public_inputs_of(*old(cs)) + point_inputs(
                *old(cs),
                generator,
                kind,
            ),
            !setup_mode_of(*old(cs)) ==> satisfied(*final(cs)) == satisfied(*old(cs)),
            alloc_ok(*old(cs), generator is Some, kind) ==> r is Ok,
            missing(*old(cs), generator is Some, kind) ==> r == Err::<Self, SynthError>(
                SynthError::AssignmentMissing,
            ),
            kind == AllocKind::Constant ==> outcomes_of(*final(cs)) == outcomes_of(*old(cs)),
            r matches Ok(v) ==> opt_on_curve(v.generator.assigned()) && v.generator.sys() == kind_sys(*old(cs), kind),
            r matches Ok(v) ==> v.generator.assigned() == allocated_point(*old(cs), generator, kind),
            r matches Ok(v) ==> (kind == AllocKind::PublicInput ==> v.generator.full()),
    {
        if value_missing(cs, generator.is_some(), kind) {
            return Err(SynthError::AssignmentMissing);
        }
        match new_point_var(cs, generator, kind) {
            Ok(generator) => Ok(ParametersVar { generator }),
            Err(e) => Err(e),
        }
    }
}

/// The message: a curve point.
pub struct PlaintextVar {
    pub plaintext: PointVar,
}

impl PlaintextVar {
    pub fn new_variable(cs: &mut ConstraintSystem, message: Option<Point>, kind: AllocKind) -> (r:
        Result<PlaintextVar, SynthError>)
        requires
            opt_on_curve(message),
        ensures
            same_mode(*old(cs), *final(cs)),
            r is Ok ==> public_inputs_of(*final(cs)) == public_inputs_of(*old(cs)) + point_inputs(
                *old(cs),
                message,
                kind,
            ),
            !setup_mode_of(*old(cs)) ==> satisfied(*final(cs)) == satisfied(*old(cs)),
            alloc_ok(*old(cs), message is Some, kind) ==> r is Ok,
            missing(*old(cs), message is Some, kind) ==> r == Err::<Self, SynthError>(
                SynthError::AssignmentMissing,
            ),
            kind == AllocKind::Constant ==> outcomes_of(*final(cs)) == outcomes_of(*old(cs)),
            r matches Ok(v) ==> opt_on_curve(v.plaintext.assigned()) && v.plaintext.sys() == kind_sys(*old(cs), kind),
            r matches Ok(v) ==> v.plaintext.assigned() == allocated_point(*old(cs), message, kind),
            r matches Ok(v) ==> (kind == AllocKind::PublicInput ==> v.plaintext.full()),
    {
        if value_missing(cs, message.is_some(), kind) {
            return Err(SynthError::AssignmentMissing);
        }
        match new_point_var(cs, message, kind) {
            Ok(plaintext) => Ok(PlaintextVar { plaintext }),
            Err(e) => Err(e),
        }
    }
}

/// The recipient's public key: a curve point.
pub struct PublicKeyVar {
    pub pk: PointVar,
}

impl PublicKeyVar {
    pub fn new_variable(cs: &mut ConstraintSystem, pk: Option<Point>, kind: AllocKind) -> (r:
        Result<PublicKeyVar, SynthError>)
        requires
            opt_on_curve(pk),
        ensures
            same_mode(*old(cs), *final(cs)),
            r is Ok ==> public_inputs_of(*final(cs)) == public_inputs_of(*old(cs)) + point_inputs(
                *old(cs),
                pk,
                kind,
            ),
            !setup_mode_of(*old(cs)) ==> satisfied(*final(cs)) == satisfied(*old(cs)),
            alloc_ok(*old(cs), pk is Some, kind) ==> r is Ok,
            missing(*old(cs), pk is Some, kind) ==> r == Err::<Self, SynthError>(
                SynthError::AssignmentMissing,
            ),
            kind == AllocKind::Constant ==> outcomes_of(*final(cs)) == outcomes_of(*old(cs)),
            r matches Ok(v) ==> opt_on_curve(v.pk.assigned()) && v.pk.sys() == kind_sys(*old(cs), kind),
            r matches Ok(v) ==> v.pk.assigned() == allocated_point(*old(cs), pk, kind),
            r matches Ok(v) ==> (kind == AllocKind::PublicInput ==> v.pk.full()),
    {
        if value_missing(cs, pk.is_some(), kind) {
            return Err(SynthError::AssignmentMissing);
        }
        match new_point_var(cs, pk, kind) {
            Ok(pk) => Ok(PublicKeyVar { pk }),
            Err(e) => Err(e),
        }
    }
}

pub open spec fn first_of(c: Option<(Point, Point)>) -> Option<Point> {
    match c {
        Some(p) => Some(p.0),
        None => None,
    }
}

pub open spec fn second_of(c: Option<(Point, Point)>) -> Option<Point> {
    match c {
        Some(p) => Some(p.1),
        None => None,
    }
}

/// A ciphertext `(c1, c2)`.
pub struct OutputVar {
    pub c1: PointVar,
    pub c2: PointVar,
}

impl OutputVar {
    /// Both components are variables of `cs`, or constants.
    pub open spec fn belongs_to(&self, cs: ConstraintSystem) -> bool {
        belongs(self.c1.sys(), cs) && belongs(self.c2.sys(), cs)
    }

    /// Both components have values.
    pub open spec fn assigned_all(&self) -> bool {
        self.c1.assigned() is Some && self.c2.assigned() is Some
    }

    /// Allocates both components of a ciphertext, `c1` first.
    pub fn new_variable(cs: &mut ConstraintSystem, c: Option<(Point, Point)>, kind: AllocKind) -> (r:
        Result<OutputVar, SynthError>)
        requires
            c matches Some(p) ==> on_curve(p.0) && on_curve(p.1),
        ensures
            same_mode(*old(cs), *final(cs)),
            r is Ok ==> public_inputs_of(*final(cs)) == public_inputs_of(*old(cs)) + point_inputs(
                *old(cs),
                first_of(c),
                kind,
            ) + point_inputs(*old(cs), second_of(c), kind),
            !setup_mode_of(*old(cs)) ==> satisfied(*final(cs)) == satisfied(*old(cs)),
            alloc_ok(*old(cs), c is Some, kind) ==> r is Ok,
            r matches Ok(v) ==> opt_on_curve(v.c1.assigned()) && opt_on_curve(v.c2.assigned())
                && v.c1.sys() == kind_sys(*old(cs), kind) && v.c2.sys() == kind_sys(*old(cs), kind),
            missing(*old(cs), c is Some, kind) ==> r == Err::<Self, SynthError>(
                SynthError::AssignmentMissing,
            ),
            kind == AllocKind::Constant ==> outcomes_of(*final(cs)) == outcomes_of(*old(cs)),
            r matches Ok(v) ==> v.c1.assigned() == allocated_point(*old(cs), first_of(c), kind)
                && v.c2.assigned() == allocated_point(*old(cs), second_of(c), kind),
            r matches Ok(v) ==> (kind == AllocKind::PublicInput ==> v.c1.full() && v.c2.full()),
    {
        if value_missing(cs, c.is_some(), kind) {
            return Err(SynthError::AssignmentMissing);
        }
        let (first, second) = match c {
            Some(p) => (Some(p.0), Some(p.1)),
            None => (None, None),
        };
        let c1 = match new_point_var(cs, first, kind) {
            Ok(v) => v,
            Err(e) => return Err(e),
        };
        let c2 = match new_point_var(cs, second, kind) {
            Ok(v) => v,
            Err(e) => return Err(e),
        };
        Ok(OutputVar { c1, c2 })
    }

    /// A bit that is set exactly when both components agree.
    pub fn is_eq(&self, cs: &mut ConstraintSystem, other: &OutputVar) -> (r: Result<
        BoolVar,
        SynthError,
    >)
        requires
            self.belongs_to(*old(cs)),
            other.belongs_to(*old(cs)),
        ensures
            same_system(*old(cs), *final(cs)),
            live_of(*old(cs)) && (setup_mode_of(*old(cs)) || (self.assigned_all() && other.assigned_all()))
                ==> r is Ok,
            r matches Ok(b) ==> belongs(b.sys(), *old(cs)),
            r is Ok && self.c1.full() && self.c2.full() ==> r->Ok_0.sys() is Some,
            r is Ok && !setup_mode_of(*old(cs)) ==> satisfied(*final(cs)) == satisfied(*old(cs)),
            r is Ok && self.c1.assigned() is Some && self.c2.assigned() is Some && other.c1.assigned() is Some
                && other.c2.assigned() is Some ==> r->Ok_0.assigned() == Some(
                self.c1.assigned() == other.c1.assigned() && self.c2.assigned() == other.c2.assigned(),
            ),
    {
        let first = match point_is_eq(cs, &self.c1, &other.c1) {
            Ok(b) => b,
            Err(e) => return Err(backend_error(e)),
        };
        let second = match point_is_eq(cs, &self.c2, &other.c2) {
            Ok(b) => b,
            Err(e) => return Err(backend_error(e)),
        };
        Ok(and_bits(cs, &first, &second))
    }

    /// Enforces that both components agree. Where `self`'s components are variables
    /// (as for an input) this writes a constraint even when they differ, which the
    /// assignment then fails.
    pub fn enforce_equal(&self, cs: &mut ConstraintSystem, other: &OutputVar) -> (r: Result<
        (),
        SynthError,
    >)
        requires
            self.belongs_to(*old(cs)),
            other.belongs_to(*old(cs)),
        ensures
            same_system(*old(cs), *final(cs)),
            live_of(*old(cs)) && (setup_mode_of(*old(cs)) || (self.assigned_all() && other.assigned_all()))
                && self.c1.full() && self.c2.full() ==> r is Ok,
            r is Ok && !setup_mode_of(*old(cs)) && self.c1.assigned() is Some && self.c2.assigned() is Some
                && other.c1.assigned() is Some && other.c2.assigned() is Some ==> satisfied(*final(cs)) == (satisfied(*old(cs))
                        && self.c1.assigned() == other.c1.assigned()
                && self.c2.assigned() == other.c2.assigned()),
    {
        let same = self.is_eq(cs, other)?;
        match enforce_true(cs, &same) {
            Ok(()) => Ok(()),
            Err(e) => Err(backend_error(e)),
        }
    }
}

/// The encryption gadget.
pub struct ElGamalEncGadget;

impl ElGamalEncGadget {
    /// `c1 = r·G` and `c2 = M + r·PK`, with `r` given by the randomness bits, least
    /// significant first.
    pub fn encrypt(
        cs: &mut ConstraintSystem,
        parameters: &ParametersVar,
        message: &PlaintextVar,
        randomness: &RandomnessVar,
        public_key: &PublicKeyVar,
    ) -> (r: Result<OutputVar, SynthError>)
        requires
            opt_on_curve(parameters.generator.assigned()),
            opt_on_curve(message.plaintext.assigned()),
            opt_on_curve(public_key.pk.assigned()),
            randomness.0@.len() * 8 <= usize::MAX,
            belongs(parameters.generator.sys(), *old(cs)),
            belongs(message.plaintext.sys(), *old(cs)),
            belongs(public_key.pk.sys(), *old(cs)),
            forall|i: int| 0 <= i < randomness.0@.len() ==> belongs((#[trigger] randomness.0@[i]).sys(), *old(cs)),
            setup_mode_of(*old(cs)) || (bytes_assigned(randomness.0@) && message.plaintext.assigned() is Some
                && public_key.pk.assigned() is Some),
        ensures
            same_system(*old(cs), *final(cs)),
            live_of(*old(cs)) && (setup_mode_of(*old(cs)) || (bytes_assigned(randomness.0@)
                && parameters.generator.assigned() is Some && message.plaintext.assigned() is Some
                && public_key.pk.assigned() is Some)) ==> r is Ok,
            r matches Ok(c) ==> c.belongs_to(*old(cs)),
            r is Ok && !setup_mode_of(*old(cs)) ==> satisfied(*final(cs)) == satisfied(*old(cs)),
            r matches Ok(c) ==> opt_on_curve(c.c1.assigned()) && opt_on_curve(c.c2.assigned()),
            r is Ok && bytes_assigned(randomness.0@) && parameters.generator.assigned() is Some
                ==> r->Ok_0.c1.assigned() == Some(
                scalar_mul_of(parameters.generator.assigned()->Some_0, le_bits(byte_values(randomness.0@))),
            ),
            r is Ok && bytes_assigned(randomness.0@) && message.plaintext.assigned() is Some
                && public_key.pk.assigned() is Some ==> r->Ok_0.c2.assigned() == Some(
                point_sum_of(
                    message.plaintext.assigned()->Some_0,
                    scalar_mul_of(public_key.pk.assigned()->Some_0, le_bits(byte_values(randomness.0@))),
                ),
            ),
    {
        let bits = randomness.to_bits_le();
        let s = match scalar_mul_var(cs, &public_key.pk, &bits) {
            Ok(v) => v,
            Err(e) => return Err(backend_error(e)),
        };
        let c1 = match scalar_mul_var(cs, &parameters.generator, &bits) {
            Ok(v) => v,
            Err(e) => return Err(backend_error(e)),
        };
        let c2 = add_points(cs, &message.plaintext, &s);
        Ok(OutputVar { c1, c2 })
    }
}

/// Bit `j < 8` of the low byte of `x` is bit `j` of `x`.
proof fn lemma_low_byte_bit(x: nat, j: nat)
    requires
        j < 8,
    ensures
        (((x % 256) as int / pow(2, j)) % 2) == ((x as int / pow(2, j)) % 2),
{
    let d = pow(2, j);
    let e = pow(2, (8 - j) as nat);
    lemma_pow_positive(2, j);
    lemma_pow_positive(2, (7 - j) as nat);
    lemma_pow_adds(2, j, (8 - j) as nat);
    assert(pow(2, 8) == 256) by {
        reveal_with_fuel(pow, 9);
    }
    assert(e == 2 * pow(2, (7 - j) as nat)) by {
        reveal(pow);
    }
    lemma_mod_breakdown(x as int, d, e);
    let q = (x as int / d) % e;
    let r = x as int % d;
    assert(x as int % 256 == d * q + r);
    lemma_fundamental_div_mod_converse((x % 256) as int, d, q, r);
    lemma_mod_mod(x as int / d, 2, pow(2, (7 - j) as nat));
}

/// The randomness crosses into the constraint field without loss: bit `k` of its
/// 32 canonical bytes, taken least significant first, is bit `k` of the scalar.
pub proof fn lemma_randomness_bits(v: nat, k: nat)
    requires
        k < 256,
    ensures
        byte_bit(le_byte(v, k / 8), k % 8) == ((v as int / pow(2, k)) % 2 == 1),
{
    let i = k / 8;
    let j = k % 8;
    lemma_pow_positive(256, i);
    lemma_pow_positive(2, j);
    lemma_pow_positive(2, 8 * i);
    assert(pow(2, 8) == 256) by {
        reveal_with_fuel(pow, 9);
    }
    lemma_pow_multiplies(2, 8, i);
    lemma_pow_adds(2, 8 * i, j);
    assert(8 * i + j == k);
    let x = (v as int / pow(256, i)) as nat;
    lemma_div_denominator(v as int, pow(256, i), pow(2, j));
    lemma_low_byte_bit(x, j);
    assert((x % 256) < 256);
}

} // verus!
