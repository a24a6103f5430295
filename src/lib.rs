//! The Poseidon hash over the BN254 scalar field, with the circomlib
//! parameters for 1 to 16 inputs.
pub mod error;
pub mod field;
pub mod instruction;
pub mod model;
pub mod poseidon;
pub mod tables;

pub use error::PoseidonError;
pub use field::FieldElement;
pub use instruction::InstructionError;
pub use poseidon::Poseidon;
pub use tables::rounds_for;
