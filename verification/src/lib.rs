//! Backend lowering stage of a compiler: translates a typed, extended-basic-block
//! intermediate representation (MIR) into a register-based low-level intermediate
//! representation (LIR) with concrete, type-specialized instructions.
//!
//! The translation is a pure function of the input program. Its meaning is given
//! by the specification functions in `lowering`, and the executable translator in
//! `translate` is proved to return exactly that meaning.

pub mod lir;
pub mod lowering;
pub mod mir;
pub mod table;
pub mod translate;
pub mod laws;

pub use translate::MIR2LIR;
pub use lowering::TransError;
