use crate::field::{le_bytes, le_value, modulus};
use crate::poseidon::{byte_inputs_values, poseidon_digest, Poseidon};
use vstd::prelude::*;

verus! {

/// Why an instruction payload was refused.
#[derive(Clone, Copy, Debug, PartialEq, Eq, Structural)]
pub enum InstructionError {
    /// The payload is empty, has an unknown tag, or has the wrong length for its tag.
    InvalidInstructionData,
}

/// The 32-byte inputs that an instruction payload carries: tag `0` followed
/// by one input, or tag `1` followed by two; `None` for any other payload.
pub open spec fn payload_inputs(data: Seq<u8>) -> Option<Seq<Seq<u8>>> {
    if data.len() == 33 && data[0] == 0 {
        Some(seq![data.subrange(1, 33)])
    } else if data.len() == 65 && data[0] == 1 {
        Some(seq![data.subrange(1, 33), data.subrange(33, 65)])
    } else {
        None
    }
}

/// The digest of byte strings, each reduced into the field.
pub open spec fn bytes_digest(inputs: Seq<Seq<u8>>) -> nat {
    poseidon_digest(inputs.map_values(|b: Seq<u8>| le_value(b) % modulus()))
}

/// The 32 bytes of `data` from `start` on.
fn read_word(data: &[u8], start: usize) -> (r: [u8; 32])
    requires
        start + 32 <= data@.len(),
    ensures
        r@ == data@.subrange(start as int, start + 32),
{
    let mut r = [0u8; 32];
    let n = data.len();
    for i in 0..32
        invariant
            n == data@.len(),
            start + 32 <= data@.len(),
            forall|j: int| 0 <= j < i ==> r@[j] == data@[start + j],
    {
        r[i] = data[start + i];
    }
    assert(r@ =~= data@.subrange(start as int, start + 32));
    r
}

impl Poseidon {
    /// Hashes the inputs that an instruction payload carries (see
    /// `payload_inputs`) and gives the digest as 32 bytes.
    pub fn hash_instruction(&self, data: &[u8]) -> (r: Result<[u8; 32], InstructionError>)
        ensures
            match (r, payload_inputs(data@)) {
                (Ok(d), Some(inputs)) => d@ == le_bytes(bytes_digest(inputs), 32),
                (Err(e), None) => e == InstructionError::InvalidInstructionData,
                _ => false,
            },
    {
        if data.len() == 0 {
            return Err(InstructionError::InvalidInstructionData);
        }
        let tag = data[0];
        let mut inputs: Vec<&[u8; 32]> = Vec::new();
        let first: [u8; 32];
        let second: [u8; 32];
        if tag == 0 && data.len() == 33 {
            first = read_word(data, 1);
            inputs.push(&first);
        } else if tag == 1 && data.len() == 65 {
            first = read_word(data, 1);
            second = read_word(data, 33);
            inputs.push(&first);
            inputs.push(&second);
        } else {
            return Err(InstructionError::InvalidInstructionData);
        }
        let ghost words = payload_inputs(data@)->Some_0;
        assert(byte_inputs_values(inputs@) =~= words.map_values(|b: Seq<u8>| le_value(b) % modulus()));
        match self.hash_bytes(inputs.as_slice()) {
            Ok(d) => Ok(d),
            Err(_) => Err(InstructionError::InvalidInstructionData),
        }
    }
}

} // verus!
