use crate::error::PoseidonError;
use crate::field::{add_mod, fe_add, fe_from_le_bytes, fe_mul, fe_square, fe_to_le_bytes, le_bytes, le_value, modulus, FieldElement};
use crate::model::{ark_step, dot, matrix_values, mix_step, permutation, pow5, rounds, sbox_step, sponge_digest, values};
use crate::tables::{
    circom_mds_matrix, circom_round_constants, load_circom_tables, partial_rounds, rounds_for, table_shapes_hold,
    MAX_INPUTS, N_ROUNDS_F,
};
use vstd::prelude::*;

verus! {

/// The digest that hashing `inputs` (1 to 16 residues) gives with the
/// circomlib tables of width `inputs.len() + 1`.
pub open spec fn poseidon_digest(inputs: Seq<nat>) -> nat {
    let k = (inputs.len() - 1) as nat;
    sponge_digest(
        inputs,
        circom_round_constants(k),
        circom_mds_matrix(k),
        N_ROUNDS_F as nat,
        partial_rounds(inputs.len()),
    )
}

/// Hashing is deterministic: two results that meet the contract of `hash`
/// for the same inputs are the same field element.
pub proof fn lemma_hash_deterministic(inputs: Seq<FieldElement>, r1: FieldElement, r2: FieldElement)
    requires
        r1.value() == poseidon_digest(values(inputs)),
        r2.value() == poseidon_digest(values(inputs)),
    ensures
        r1 == r2,
{
    FieldElement::lemma_value_injective(r1, r2);
}

/// The residues that 32-byte inputs reduce to.
pub open spec fn byte_inputs_values(inputs: Seq<&[u8; 32]>) -> Seq<nat> {
    inputs.map_values(|b: &[u8; 32]| le_value(b@) % modulus())
}

/// The Poseidon hash over the BN254 scalar field, with the circomlib round
/// constants and MDS matrices for 1 to 16 inputs.
pub struct Poseidon {
    c: Vec<Vec<FieldElement>>,
    m: Vec<Vec<Vec<FieldElement>>>,
}

impl Poseidon {
    #[verifier::type_invariant]
    closed spec fn tables_loaded(self) -> bool {
        &&& table_shapes_hold(self.c@, self.m@)
        &&& forall|k: int|
            0 <= k < MAX_INPUTS ==> values((#[trigger] self.c@[k])@) == circom_round_constants(k as nat)
        &&& forall|k: int|
            0 <= k < MAX_INPUTS ==> matrix_values((#[trigger] self.m@[k])@) == circom_mds_matrix(k as nat)
    }

    /// A hasher that holds the constant tables for every arity.
    pub fn new() -> (r: Poseidon) {
        let (c, m) = load_circom_tables();
        Poseidon { c, m }
    }

    fn pow5(x: FieldElement) -> (r: FieldElement)
        ensures
            r.value() == pow5(x.value()),
    {
        let x2 = fe_square(x);
        let x4 = fe_square(x2);
        fe_mul(x4, x)
    }

    /// Adds the round constants `c[it..]` to the state, element by element.
    pub fn ark(&self, state: &mut Vec<FieldElement>, c: &Vec<FieldElement>, it: usize)
        requires
            it + old(state)@.len() <= c@.len(),
        ensures
            final(state)@.len() == old(state)@.len(),
            values(final(state)@) == ark_step(values(old(state)@), values(c@), it as int),
    {
        let n = state.len();
        let c_len = c.len();
        for i in 0..n
            invariant
                n == state@.len(),
                n == old(state)@.len(),
                c_len == c@.len(),
                it + n <= c@.len(),
                forall|j: int|
                    0 <= j < i ==> (#[trigger] state@[j]).value() == add_mod(
                        old(state)@[j].value(),
                        c@[it + j].value(),
                    ),
                forall|j: int| i <= j < n ==> #[trigger] state@[j] == old(state)@[j],
        {
            let v = fe_add(state[i], c[it + i]);
            state.set(i, v);
        }
        assert(values(state@) =~= ark_step(values(old(state)@), values(c@), it as int));
    }

    /// Raises to the fifth power every element in a full round, and the first
    /// element alone in a partial round.
    pub fn sbox(&self, n_rounds_f: usize, n_rounds_p: usize, state: &mut Vec<FieldElement>, i: usize)
        requires
            old(state)@.len() >= 1,
        ensures
            final(state)@.len() == old(state)@.len(),
            values(final(state)@) == sbox_step(
                n_rounds_f as nat,
                n_rounds_p as nat,
                values(old(state)@),
                i as nat,
            ),
    {
        let half = n_rounds_f / 2;
        if i < half || i - half >= n_rounds_p {
            let n = state.len();
            for j in 0..n
                invariant
                    n == state@.len(),
                    n == old(state)@.len(),
                    forall|k: int|
                        0 <= k < j ==> (#[trigger] state@[k]).value() == pow5(old(state)@[k].value()),
                    forall|k: int| j <= k < n ==> #[trigger] state@[k] == old(state)@[k],
            {
                let v = Self::pow5(state[j]);
                state.set(j, v);
            }
            assert(values(state@) =~= values(old(state)@).map_values(|x: nat| pow5(x)));
        } else {
            let v = Self::pow5(state[0]);
            state.set(0, v);
            assert(values(state@) =~= values(old(state)@).update(0, pow5(values(old(state)@)[0])));
        }
    }

    /// Replaces the state by `m * state`, reading the whole state before
    /// writing any of it; `temp_state` is the scratch buffer.
    pub fn mix_inplace(
        &self,
        state: &mut Vec<FieldElement>,
        temp_state: &mut Vec<FieldElement>,
        m: &Vec<Vec<FieldElement>>,
    )
        requires
            old(temp_state)@.len() == old(state)@.len(),
            old(state)@.len() <= m@.len(),
            forall|i: int| 0 <= i < old(state)@.len() ==> old(state)@.len() <= (#[trigger] m@[i])@.len(),
        ensures
            final(state)@.len() == old(state)@.len(),
            values(final(state)@) == mix_step(values(old(state)@), matrix_values(m@)),
            final(temp_state)@ == final(state)@,
    {
        let n = state.len();
        for i in 0..n
            invariant
                n == state@.len(),
                state@ == old(state)@,
                temp_state@.len() == n,
                n <= m@.len(),
                forall|k: int| 0 <= k < n ==> n <= (#[trigger] m@[k])@.len(),
                forall|k: int|
                    0 <= k < i ==> (#[trigger] temp_state@[k]).value() == dot(
                        values(m@[k]@),
                        values(state@),
                        n as nat,
                    ),
        {
            let mut acc = FieldElement::zero();
            for j in 0..n
                invariant
                    n == state@.len(),
                    i < n,
                    n <= m@.len(),
                    n <= m@[i as int]@.len(),
                    acc.value() == dot(values(m@[i as int]@), values(state@), j as nat),
            {
                let prod = fe_mul(m[i][j], state[j]);
                acc = fe_add(acc, prod);
            }
            temp_state.set(i, acc);
        }
        for i in 0..n
            invariant
                n == state@.len(),
                temp_state@.len() == n,
                forall|k: int| 0 <= k < i ==> #[trigger] state@[k] == temp_state@[k],
                forall|k: int|
                    0 <= k < n ==> (#[trigger] temp_state@[k]).value() == dot(
                        values(m@[k]@),
                        values(old(state)@),
                        n as nat,
                    ),
        {
            state.set(i, temp_state[i]);
        }
        assert(state@ =~= temp_state@);
        assert(values(state@) =~= mix_step(values(old(state)@), matrix_values(m@)));
    }

    /// Runs `n_rounds_f + n_rounds_p` rounds of add-round-key, S-box and mix
    /// on the state, with the round constants `c` and the matrix `m`.
    pub fn permute(
        &self,
        state: &mut Vec<FieldElement>,
        c: &Vec<FieldElement>,
        m: &Vec<Vec<FieldElement>>,
        n_rounds_f: usize,
        n_rounds_p: usize,
    )
        requires
            1 <= old(state)@.len(),
            (n_rounds_f + n_rounds_p) * old(state)@.len() <= c@.len(),
            old(state)@.len() <= m@.len(),
            forall|i: int| 0 <= i < old(state)@.len() ==> old(state)@.len() <= (#[trigger] m@[i])@.len(),
        ensures
            final(state)@.len() == old(state)@.len(),
            values(final(state)@) == permutation(
                values(old(state)@),
                values(c@),
                matrix_values(m@),
                n_rounds_f as nat,
                n_rounds_p as nat,
            ),
    {
        let t = state.len();
        let c_len = c.len();
        proof {
            let r = n_rounds_f + n_rounds_p;
            assert(r <= r * t) by (nonlinear_arith)
                requires
                    t >= 1,
                    r >= 0,
            ;
        }
        let n_rounds = n_rounds_f + n_rounds_p;
        let mut temp_state: Vec<FieldElement> = Vec::new();
        for j in 0..t
            invariant
                temp_state@.len() == j,
        {
            temp_state.push(FieldElement::zero());
        }
        for i in 0..n_rounds
            invariant
                t == state@.len(),
                t == old(state)@.len(),
                1 <= t,
                temp_state@.len() == t,
                n_rounds == n_rounds_f + n_rounds_p,
                n_rounds * t <= c@.len(),
                c_len == c@.len(),
                t <= m@.len(),
                forall|k: int| 0 <= k < t ==> t <= (#[trigger] m@[k])@.len(),
                values(state@) == rounds(
                    values(old(state)@),
                    values(c@),
                    matrix_values(m@),
                    n_rounds_f as nat,
                    n_rounds_p as nat,
                    i as nat,
                ),
        {
            proof {
                assert(i * t + t <= n_rounds * t) by (nonlinear_arith)
                    requires
                        i < n_rounds,
                ;
            }
            self.ark(state, c, i * t);
            self.sbox(n_rounds_f, n_rounds_p, state, i);
            self.mix_inplace(state, &mut temp_state, m);
        }
    }

    /// Hashes 1 to 16 field elements: the state `[0, inp[0], ..., inp[n - 1]]`
    /// is permuted with the tables of its width, and its first element is the
    /// digest.
    pub fn hash_stack(&self, inp: &[FieldElement]) -> (r: Result<FieldElement, PoseidonError>)
        ensures
            match r {
                Ok(d) => 1 <= inp@.len() <= MAX_INPUTS && d.value() == poseidon_digest(values(inp@)),
                Err(e) => (inp@.len() == 0 || inp@.len() > MAX_INPUTS) && e == PoseidonError::InvalidArity,
            },
    {
        proof {
            use_type_invariant(self);
        }
        let n = inp.len();
        let (n_rounds_f, n_rounds_p) = match rounds_for(n) {
            Ok(s) => s,
            Err(e) => {
                return Err(e);
            },
        };
        let k = n - 1;
        let mut state: Vec<FieldElement> = Vec::new();
        state.push(FieldElement::zero());
        for i in 0..n
            invariant
                n == inp@.len(),
                state@.len() == i + 1,
                state@[0].value() == 0,
                forall|j: int| 0 <= j < i ==> #[trigger] state@[j + 1] == inp@[j],
        {
            state.push(inp[i]);
        }
        assert forall|j: int| 0 <= j < n + 1 implies values(state@)[j] == (seq![0nat] + values(inp@))[j] by {
            if j > 0 {
                assert(state@[(j - 1) + 1] == inp@[j - 1]);
            }
        }
        assert(values(state@) =~= seq![0nat] + values(inp@));
        let c = &self.c[k];
        let m = &self.m[k];
        assert(values(c@) == circom_round_constants(k as nat));
        assert(matrix_values(m@) == circom_mds_matrix(k as nat));
        assert(self.c@[k as int]@.len() == (k + 2) * (N_ROUNDS_F + partial_rounds((k + 1) as nat)));
        proof {
            let p = n_rounds_p as int;
            let tt = n as int + 1;
            assert((8 + p) * tt == tt * (8 + p)) by (nonlinear_arith);
        }
        self.permute(&mut state, c, m, n_rounds_f, n_rounds_p);
        Ok(state[0])
    }

    /// Hashes 1 to 16 field elements; see `hash_stack`.
    pub fn hash(&self, inp: Vec<FieldElement>) -> (r: Result<FieldElement, PoseidonError>)
        ensures
            match r {
                Ok(d) => 1 <= inp@.len() <= MAX_INPUTS && d.value() == poseidon_digest(values(inp@)),
                Err(e) => (inp@.len() == 0 || inp@.len() > MAX_INPUTS) && e == PoseidonError::InvalidArity,
            },
    {
        self.hash_stack(inp.as_slice())
    }

    /// The round constants used for `arity` inputs.
    pub fn round_constants_for(&self, arity: usize) -> (r: Result<&Vec<FieldElement>, PoseidonError>)
        ensures
            match r {
                Ok(c) => 1 <= arity <= MAX_INPUTS && values(c@) == circom_round_constants((arity - 1) as nat)
                    && c@.len() == (arity + 1) * (N_ROUNDS_F + partial_rounds(arity as nat)),
                Err(e) => (arity < 1 || arity > MAX_INPUTS) && e == PoseidonError::InvalidArity,
            },
    {
        proof {
            use_type_invariant(self);
        }
        if arity < 1 || arity > MAX_INPUTS {
            return Err(PoseidonError::InvalidArity);
        }
        let k = arity - 1;
        let c = &self.c[k];
        assert(self.c@[k as int]@.len() == (k + 2) * (N_ROUNDS_F + partial_rounds((k + 1) as nat)));
        assert(values(self.c@[k as int]@) == circom_round_constants(k as nat));
        Ok(c)
    }

    /// The MDS matrix used for `arity` inputs, row by row.
    pub fn mix_matrix_for(&self, arity: usize) -> (r: Result<&Vec<Vec<FieldElement>>, PoseidonError>)
        ensures
            match r {
                Ok(m) => 1 <= arity <= MAX_INPUTS && matrix_values(m@) == circom_mds_matrix((arity - 1) as nat)
                    && m@.len() == arity + 1 && forall|i: int| 0 <= i <= arity ==> (#[trigger] m@[i])@.len() == arity + 1,
                Err(e) => (arity < 1 || arity > MAX_INPUTS) && e == PoseidonError::InvalidArity,
            },
    {
        proof {
            use_type_invariant(self);
        }
        if arity < 1 || arity > MAX_INPUTS {
            return Err(PoseidonError::InvalidArity);
        }
        let k = arity - 1;
        let m = &self.m[k];
        assert(self.m@[k as int]@.len() == k + 2);
        assert(matrix_values(self.m@[k as int]@) == circom_mds_matrix(k as nat));
        Ok(m)
    }

    /// The field element of 32 little-endian bytes, reduced modulo the field
    /// order.
    pub fn bytes_to_field(bytes: &[u8; 32]) -> (r: FieldElement)
        ensures
            r.value() == le_value(bytes@) % modulus(),
    {
        fe_from_le_bytes(bytes)
    }

    /// The canonical residue of a field element as 32 little-endian bytes.
    pub fn field_to_bytes(field: &FieldElement) -> (r: [u8; 32])
        ensures
            r@ == le_bytes(field.value(), 32),
    {
        fe_to_le_bytes(field)
    }

    /// Hashes 1 to 16 values of 32 bytes each, each reduced into the field,
    /// and gives the digest as 32 bytes.
    pub fn hash_bytes(&self, inputs: &[&[u8; 32]]) -> (r: Result<[u8; 32], PoseidonError>)
        ensures
            match r {
                Ok(d) => 1 <= inputs@.len() <= MAX_INPUTS && d@ == le_bytes(
                    poseidon_digest(byte_inputs_values(inputs@)),
                    32,
                ),
                Err(e) => (inputs@.len() == 0 && e == PoseidonError::EmptyInput) || (inputs@.len()
                    > MAX_INPUTS && e == PoseidonError::InvalidArity),
            },
    {
        let n = inputs.len();
        if n == 0 {
            return Err(PoseidonError::EmptyInput);
        }
        let mut field_inputs: Vec<FieldElement> = Vec::new();
        for i in 0..n
            invariant
                n == inputs@.len(),
                field_inputs@.len() == i,
                forall|j: int|
                    0 <= j < i ==> (#[trigger] field_inputs@[j]).value() == le_value(inputs@[j]@) % modulus(),
        {
            field_inputs.push(Self::bytes_to_field(inputs[i]));
        }
        assert(values(field_inputs@) =~= byte_inputs_values(inputs@));
        match self.hash(field_inputs) {
            Ok(d) => Ok(Self::field_to_bytes(&d)),
            Err(e) => Err(e),
        }
    }
}

} // verus!
