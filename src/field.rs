use ark_bn254::Fr;
use ark_ff::{BigInt, BigInteger, Field, PrimeField};
use core::ops::{AddAssign, MulAssign};
use vstd::arithmetic::div_mod::lemma_fundamental_div_mod_converse;
use vstd::prelude::*;

verus! {

/// Two to the 64th power, the base of a limb.
pub open spec fn limb_base() -> nat {
    0x1_0000_0000_0000_0000
}

/// The order of the BN254 scalar field.
pub open spec fn modulus() -> nat {
    limbs_value([0x43e1f593f0000001u64, 0x2833e84879b97091u64, 0xb85045b68181585du64, 0x30644e72e131a029u64])
}

/// `256` to the power `n`.
pub open spec fn pow256(n: nat) -> nat
    decreases n,
{
    if n == 0 {
        1
    } else {
        256 * pow256((n - 1) as nat)
    }
}

/// The unsigned integer that a byte sequence denotes, least significant byte first.
pub open spec fn le_value(b: Seq<u8>) -> nat
    decreases b.len(),
{
    if b.len() == 0 {
        0
    } else {
        b[0] as nat + 256 * le_value(b.subrange(1, b.len() as int))
    }
}

/// The `n` lowest bytes of `v`, least significant byte first.
pub open spec fn le_bytes(v: nat, n: nat) -> Seq<u8>
    decreases n,
{
    if n == 0 {
        Seq::empty()
    } else {
        seq![(v % 256) as u8] + le_bytes(v / 256, (n - 1) as nat)
    }
}

/// Field addition.
pub open spec fn add_mod(a: nat, b: nat) -> nat {
    (a + b) % modulus()
}

/// Field multiplication.
pub open spec fn mul_mod(a: nat, b: nat) -> nat {
    (a * b) % modulus()
}

/// The integer that four 64-bit limbs denote, least significant first.
pub open spec fn limbs_value(l: [u64; 4]) -> nat {
    l[0] as nat + limb_base() * (l[1] as nat + limb_base() * (l[2] as nat + limb_base() * (l[3] as nat)))
}

/// Each limb is fixed by the integer that the limbs denote.
proof fn lemma_limbs_determined(l: [u64; 4])
    ensures
        l[0] as int == limbs_value(l) as int % limb_base() as int,
        l[1] as int == (limbs_value(l) as int / limb_base() as int) % limb_base() as int,
        l[2] as int == ((limbs_value(l) as int / limb_base() as int) / limb_base() as int) % limb_base() as int,
        l[3] as int == ((limbs_value(l) as int / limb_base() as int) / limb_base() as int) / limb_base() as int,
{
    let b = limb_base() as int;
    let r2 = l[2] as int + b * (l[3] as int);
    let r1 = l[1] as int + b * r2;
    lemma_fundamental_div_mod_converse(limbs_value(l) as int, b, r1, l[0] as int);
    lemma_fundamental_div_mod_converse(r1, b, r2, l[1] as int);
    lemma_fundamental_div_mod_converse(r2, b, l[3] as int, l[2] as int);
}

/// An element of the BN254 scalar field, held as its canonical residue in four
/// 64-bit limbs, least significant first.
#[derive(Clone, Copy, Debug, PartialEq, Eq)]
pub struct FieldElement {
    limbs: [u64; 4],
}

impl FieldElement {
    /// The residue that the element holds.
    pub closed spec fn value(self) -> nat {
        limbs_value(self.limbs)
    }

    #[verifier::type_invariant]
    closed spec fn canonical(self) -> bool {
        self.value() < modulus()
    }

    /// Builds an element from limbs that already hold a canonical residue.
    pub(crate) fn from_canonical_limbs(limbs: [u64; 4]) -> (r: FieldElement)
        requires
            limbs_value(limbs) < modulus(),
        ensures
            r.value() == limbs_value(limbs),
    {
        FieldElement { limbs }
    }

    /// Two elements that hold the same residue are the same element.
    pub proof fn lemma_value_injective(a: FieldElement, b: FieldElement)
        requires
            a.value() == b.value(),
        ensures
            a == b,
    {
        lemma_limbs_determined(a.limbs);
        lemma_limbs_determined(b.limbs);
        assert(a.limbs =~= b.limbs);
    }

    /// The additive identity.
    pub fn zero() -> (r: FieldElement)
        ensures
            r.value() == 0,
    {
        FieldElement { limbs: [0u64, 0u64, 0u64, 0u64] }
    }

    /// The element that a machine integer denotes.
    pub fn from_u64(v: u64) -> (r: FieldElement)
        ensures
            r.value() == v,
    {
        FieldElement { limbs: [v, 0u64, 0u64, 0u64] }
    }
}

/// Relies on ark_ff's `AddAssign` for `Fp`: addition modulo the field order.
/// The limbs go in through `From<BigInt>` (canonical, so it does not panic)
/// and come back through `PrimeField::into_bigint`, the canonical residue;
/// the other arithmetic wrappers convert the same way.
#[verifier::external_body]
pub(crate) fn fe_add(a: FieldElement, b: FieldElement) -> (r: FieldElement)
    ensures
        r.value() == add_mod(a.value(), b.value()),
{
    let mut x = Fr::from(BigInt::new(a.limbs));
    x.add_assign(&Fr::from(BigInt::new(b.limbs)));
    FieldElement { limbs: x.into_bigint().0 }
}

/// Relies on ark_ff's `MulAssign` for `Fp`: multiplication modulo the field order.
#[verifier::external_body]
pub(crate) fn fe_mul(a: FieldElement, b: FieldElement) -> (r: FieldElement)
    ensures
        r.value() == mul_mod(a.value(), b.value()),
{
    let mut x = Fr::from(BigInt::new(a.limbs));
    x.mul_assign(&Fr::from(BigInt::new(b.limbs)));
    FieldElement { limbs: x.into_bigint().0 }
}

/// Relies on ark_ff's `Field::square` for `Fp`: the square modulo the field order.
#[verifier::external_body]
pub(crate) fn fe_square(a: FieldElement) -> (r: FieldElement)
    ensures
        r.value() == mul_mod(a.value(), a.value()),
{
    let x = Fr::from(BigInt::new(a.limbs));
    FieldElement { limbs: x.square().into_bigint().0 }
}

/// Relies on ark_ff's `PrimeField::from_le_bytes_mod_order`: the little-endian
/// integer of the bytes, reduced modulo the field order.
#[verifier::external_body]
pub(crate) fn fe_from_le_bytes(b: &[u8; 32]) -> (r: FieldElement)
    ensures
        r.value() == le_value(b@) % modulus(),
{
    let x = Fr::from_le_bytes_mod_order(b);
    FieldElement { limbs: x.into_bigint().0 }
}

/// Relies on ark_ff's `BigInteger::to_bytes_le` for `BigInt<4>`: the eight
/// little-endian bytes of each limb, least significant limb first.
#[verifier::external_body]
pub(crate) fn fe_to_le_bytes(f: &FieldElement) -> (r: [u8; 32])
    ensures
        r@ == le_bytes(f.value(), 32),
{
    let v = BigInt::new(f.limbs).to_bytes_le();
    let mut out = [0u8; 32];
    out.copy_from_slice(&v);
    out
}

} // verus!
