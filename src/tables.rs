use crate::error::PoseidonError;
use crate::field::FieldElement;
use crate::model::{matrix_values, values};
use ff_ce::PrimeField;
use vstd::prelude::*;

verus! {

/// The number of full rounds, for every arity.
pub const N_ROUNDS_F: usize = 8;

/// The largest number of inputs that one hash takes.
pub const MAX_INPUTS: usize = 16;

/// The number of partial rounds for `arity` inputs (1 to 16).
pub open spec fn partial_rounds(arity: nat) -> nat {
    if 1 <= arity <= 16 {
        seq![56nat, 57, 56, 60, 60, 63, 64, 63, 60, 66, 60, 65, 70, 60, 64, 68][arity - 1]
    } else {
        0
    }
}

/// The circomlib round constants for the state width `index + 2`.
pub uninterp spec fn circom_round_constants(index: nat) -> Seq<nat>;

/// The circomlib MDS matrix for the state width `index + 2`, row by row.
pub uninterp spec fn circom_mds_matrix(index: nat) -> Seq<Seq<nat>>;

/// The round constants of table `k` fill every round of width `k + 2`, and
/// its matrix is square of that width.
pub open spec fn table_shapes_hold(c: Seq<Vec<FieldElement>>, m: Seq<Vec<Vec<FieldElement>>>) -> bool {
    &&& c.len() == MAX_INPUTS
    &&& m.len() == MAX_INPUTS
    &&& forall|k: int|
        0 <= k < MAX_INPUTS ==> (#[trigger] c[k])@.len() == (k + 2) * (N_ROUNDS_F + partial_rounds(
            (k + 1) as nat,
        ))
    &&& forall|k: int|
        0 <= k < MAX_INPUTS ==> {
            &&& (#[trigger] m[k])@.len() == k + 2
            &&& forall|i: int| 0 <= i < k + 2 ==> (#[trigger] m[k]@[i])@.len() == k + 2
        }
}

/// Relies on poseidon_rs::load_constants: the circomlib round constants and
/// MDS matrices for state widths 2 to 17, in that order, each held as its
/// canonical residue.
#[verifier::external_body]
pub(crate) fn load_circom_tables() -> (r: (Vec<Vec<FieldElement>>, Vec<Vec<Vec<FieldElement>>>))
    ensures
        table_shapes_hold(r.0@, r.1@),
        forall|k: int| 0 <= k < MAX_INPUTS ==> values((#[trigger] r.0@[k])@) == circom_round_constants(k as nat),
        forall|k: int| 0 <= k < MAX_INPUTS ==> matrix_values((#[trigger] r.1@[k])@) == circom_mds_matrix(k as nat),
{
    let k = poseidon_rs::load_constants();
    let fe = |x: &poseidon_rs::Fr| FieldElement::from_canonical_limbs(x.into_repr().0);
    let c = k.c.iter().map(|row| row.iter().map(fe).collect()).collect();
    let m = k.m.iter().map(|a| a.iter().map(|row| row.iter().map(fe).collect()).collect()).collect();
    (c, m)
}

} // verus!

verus! {

/// The round schedule `(full rounds, partial rounds)` for `arity` inputs.
pub fn rounds_for(arity: usize) -> (r: Result<(usize, usize), PoseidonError>)
    ensures
        match r {
            Ok((f, p)) => 1 <= arity <= MAX_INPUTS && f == N_ROUNDS_F && p == partial_rounds(arity as nat),
            Err(e) => (arity < 1 || arity > MAX_INPUTS) && e == PoseidonError::InvalidArity,
        },
{
    let p: usize = match arity {
        1 => 56,
        2 => 57,
        3 => 56,
        4 => 60,
        5 => 60,
        6 => 63,
        7 => 64,
        8 => 63,
        9 => 60,
        10 => 66,
        11 => 60,
        12 => 65,
        13 => 70,
        14 => 60,
        15 => 64,
        16 => 68,
        _ => {
            return Err(PoseidonError::InvalidArity);
        },
    };
    Ok((N_ROUNDS_F, p))
}

} // verus!
