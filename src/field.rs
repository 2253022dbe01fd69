use vstd::prelude::*;

verus! {

/// The prime order of the BN254 scalar field, in which every constraint lives.
pub open spec fn modulus() -> nat {
    21888242871839275222246405745257275088548364400416034343698204186575808495617nat
}

/// `(modulus - 1) / 2`: the largest value that the comparison gadget can order.
pub open spec fn half_modulus() -> nat {
    10944121435919637611123202872628637544274182200208017171849102093287904247808nat
}

/// `2⁶⁴`.
pub open spec fn limb_base() -> nat {
    0x1_0000_0000_0000_0000nat
}

/// The integer that four little-endian 64-bit limbs spell.
pub open spec fn limbs_val(l: [u64; 4]) -> nat {
    l@[0] as nat + limb_base() * (l@[1] as nat + limb_base() * (l@[2] as nat + limb_base()
        * l@[3] as nat))
}

/// A field element in canonical form: four little-endian 64-bit limbs spelling an
/// integer below the modulus (when well formed).
#[derive(Clone, Copy, Debug, PartialEq, Eq)]
pub struct Felt {
    pub limbs: [u64; 4],
}

impl Felt {
    pub open spec fn val(self) -> nat {
        limbs_val(self.limbs)
    }

    pub open spec fn wf(self) -> bool {
        self.val() < modulus()
    }

    /// The element whose canonical value is `v`.
    pub fn from_u64(v: u64) -> (r: Felt)
        ensures
            r.val() == v as nat,
            r.wf(),
    {
        let r = Felt { limbs: [v, 0, 0, 0] };
        assert(r.limbs@ =~= seq![v, 0u64, 0u64, 0u64]);
        assert(r.val() == v as nat);
        r
    }

    pub fn zero() -> (r: Felt)
        ensures
            r.val() == 0,
            r.wf(),
    {
        Felt::from_u64(0)
    }

    pub fn one() -> (r: Felt)
        ensures
            r.val() == 1,
            r.wf(),
    {
        Felt::from_u64(1)
    }
}

/// The canonical value of an optional element.
pub open spec fn opt_val(v: Option<Felt>) -> Option<nat> {
    match v {
        Some(f) => Some(f.val()),
        None => None,
    }
}

pub open spec fn opt_wf(v: Option<Felt>) -> bool {
    match v {
        Some(f) => f.wf(),
        None => true,
    }
}

pub open spec fn field_add(a: nat, b: nat) -> nat {
    (a + b) % modulus()
}

pub open spec fn field_mul(a: nat, b: nat) -> nat {
    (a * b) % modulus()
}

} // verus!
