//! A two-pass assembler for a small 16-bit machine.
//!
//! The pipeline is strictly sequential: a token stream is parsed into an
//! ordered program (`parser`), label references are resolved into numeric
//! displacements (`symbol`), and the resolved program is packed into 16-bit
//! machine words (`codegen`).

pub mod codegen;
pub mod instruction;
pub mod parser;
pub mod symbol;
pub mod token;
