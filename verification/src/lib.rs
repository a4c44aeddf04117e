//! Witness computation and constraint model of the zkMove VM execution circuit.
//!
//! Field elements live in the base field of the Pallas curve, the field that
//! `halo2_proofs` ships with. Polynomial constraints are modelled by [`expr::Expression`],
//! whose integer evaluation on a witness is taken modulo [`field::modulus`].

pub mod base_builder;
pub mod builder;
pub mod call_stack;
pub mod bytes;
pub mod executions;
pub mod expr;
pub mod field;
pub mod instance;
pub mod instructions;
pub mod lookup_table;
pub mod math_gadgets;
pub mod opcode;
pub mod selector;
pub mod shuffle;
pub mod step;
pub mod step_witness;
pub mod sub_index;
pub mod u256;
pub mod utils;
