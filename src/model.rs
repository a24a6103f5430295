use crate::field::{add_mod, le_bytes, le_value, limb_base, modulus, mul_mod, pow256, FieldElement};
use vstd::arithmetic::div_mod::lemma_mod_breakdown;
use vstd::prelude::*;

verus! {

/// The residues held by a sequence of field elements.
pub open spec fn values(s: Seq<FieldElement>) -> Seq<nat> {
    s.map_values(|f: FieldElement| f.value())
}

/// The residues held by a matrix of field elements, row by row.
pub open spec fn matrix_values(m: Seq<Vec<FieldElement>>) -> Seq<Seq<nat>> {
    m.map_values(|row: Vec<FieldElement>| values(row@))
}

/// Add-round-key: the constant at `it + j` is added to element `j`.
pub open spec fn ark_step(state: Seq<nat>, c: Seq<nat>, it: int) -> Seq<nat> {
    Seq::new(state.len(), |j: int| add_mod(state[j], c[it + j]))
}

/// `x` to the fifth power, as two squarings and one multiplication by `x`.
pub open spec fn pow5(x: nat) -> nat {
    let x2 = mul_mod(x, x);
    mul_mod(mul_mod(x2, x2), x)
}

/// Whether round `i` lies in one of the two full-round bands.
pub open spec fn is_full_round(n_rounds_f: nat, n_rounds_p: nat, i: nat) -> bool {
    i < n_rounds_f / 2 || i >= n_rounds_f / 2 + n_rounds_p
}

/// The S-box layer of round `i`: every element in a full round, the first
/// element alone in a partial round.
pub open spec fn sbox_step(n_rounds_f: nat, n_rounds_p: nat, state: Seq<nat>, i: nat) -> Seq<nat> {
    if is_full_round(n_rounds_f, n_rounds_p, i) {
        state.map_values(|x: nat| pow5(x))
    } else {
        state.update(0, pow5(state[0]))
    }
}

/// The sum of `row[j] * state[j]` over `j < k`, accumulated from the left.
pub open spec fn dot(row: Seq<nat>, state: Seq<nat>, k: nat) -> nat
    decreases k,
{
    if k == 0 {
        0
    } else {
        add_mod(dot(row, state, (k - 1) as nat), mul_mod(row[k - 1], state[k - 1]))
    }
}

/// The mixing layer: the matrix-vector product `m * state`.
pub open spec fn mix_step(state: Seq<nat>, m: Seq<Seq<nat>>) -> Seq<nat> {
    Seq::new(state.len(), |i: int| dot(m[i], state, state.len()))
}

/// Round `i` of the permutation: add-round-key, S-box, mix.
pub open spec fn round(
    state: Seq<nat>,
    c: Seq<nat>,
    m: Seq<Seq<nat>>,
    n_rounds_f: nat,
    n_rounds_p: nat,
    i: nat,
) -> Seq<nat> {
    mix_step(sbox_step(n_rounds_f, n_rounds_p, ark_step(state, c, (i * state.len()) as int), i), m)
}

/// The state after the first `k` rounds.
pub open spec fn rounds(
    state: Seq<nat>,
    c: Seq<nat>,
    m: Seq<Seq<nat>>,
    n_rounds_f: nat,
    n_rounds_p: nat,
    k: nat,
) -> Seq<nat>
    decreases k,
{
    if k == 0 {
        state
    } else {
        round(rounds(state, c, m, n_rounds_f, n_rounds_p, (k - 1) as nat), c, m, n_rounds_f, n_rounds_p, (k - 1) as nat)
    }
}

/// The full permutation: `n_rounds_f + n_rounds_p` rounds.
pub open spec fn permutation(
    state: Seq<nat>,
    c: Seq<nat>,
    m: Seq<Seq<nat>>,
    n_rounds_f: nat,
    n_rounds_p: nat,
) -> Seq<nat> {
    rounds(state, c, m, n_rounds_f, n_rounds_p, n_rounds_f + n_rounds_p)
}

/// The digest of `inputs`: the first element of the permuted state
/// `[0, inputs[0], ..., inputs[n - 1]]`.
pub open spec fn sponge_digest(
    inputs: Seq<nat>,
    c: Seq<nat>,
    m: Seq<Seq<nat>>,
    n_rounds_f: nat,
    n_rounds_p: nat,
) -> nat {
    permutation(seq![0nat] + inputs, c, m, n_rounds_f, n_rounds_p)[0]
}

/// Every power of 256 is positive.
pub proof fn lemma_pow256_positive(n: nat)
    ensures
        pow256(n) > 0,
    decreases n,
{
    if n > 0 {
        lemma_pow256_positive((n - 1) as nat);
    }
}

/// Reading back the `n` lowest bytes of `v` gives `v` modulo `256^n`.
pub proof fn lemma_le_value_of_le_bytes(v: nat, n: nat)
    ensures
        le_bytes(v, n).len() == n,
        le_value(le_bytes(v, n)) == v % pow256(n),
    decreases n,
{
    if n > 0 {
        let n1 = (n - 1) as nat;
        lemma_le_value_of_le_bytes(v / 256, n1);
        let s = le_bytes(v, n);
        assert(s.subrange(1, s.len() as int) =~= le_bytes(v / 256, n1));
        assert(s[0] as nat == v % 256);
        lemma_pow256_positive(n1);
        lemma_mod_breakdown(v as int, 256, pow256(n1) as int);
        assert(pow256(n) == 256 * pow256(n1));
    } else {
        assert(v % 1 == 0);
    }
}

/// The field order is below `256^32`, so a residue fits in 32 bytes.
pub proof fn lemma_modulus_fits_32_bytes()
    ensures
        modulus() < pow256(32),
{
    reveal_with_fuel(pow256, 33);
    assert(pow256(32) == limb_base() * limb_base() * limb_base() * limb_base());
}

/// Decoding 32 bytes to a field element and encoding it back gives bytes that
/// the same two steps leave unchanged.
pub proof fn lemma_byte_round_trip_stable(b: Seq<u8>)
    requires
        b.len() == 32,
    ensures
        ({
            let once = le_bytes(le_value(b) % modulus(), 32);
            let twice = le_bytes(le_value(once) % modulus(), 32);
            twice == once
        }),
{
    let v = le_value(b) % modulus();
    lemma_modulus_fits_32_bytes();
    lemma_le_value_of_le_bytes(v, 32);
    assert(v < modulus());
    vstd::arithmetic::div_mod::lemma_small_mod(v, pow256(32));
    vstd::arithmetic::div_mod::lemma_small_mod(v, modulus());
}

} // verus!
