//! A SPIR-V binary module assembler, disassembler and structural validator.
//!
//! SPIR-V is a word-oriented binary intermediate representation for shader
//! and compute programs: a five-word header followed by a stream of
//! instructions, each a run of 32-bit words whose layout is driven by a
//! per-opcode operand schema.  This crate implements the core codec for that
//! format — decoding words into structured instructions and encoding them
//! back, assembling textual SPIR-V into binary modules and disassembling
//! binaries back to text — together with a structural validator that checks
//! declaration ordering, identifier definition and use rules, and basic
//! block structure.

pub mod assembler;
pub mod codec;
pub mod codes;
pub mod disasm;
pub mod inst;
pub mod module;
pub mod names;
pub mod numbers;
pub mod options;
pub mod schema;
pub mod validate;
pub mod words;

pub use inst::{
    Diagnostic, ErrorKind, Header, Instruction, Module, NumType, Operand, Position, Severity,
};
pub use codes::{spv_number_kind_t, spv_result_t, spv_target_env, spv_validator_limit};
pub use options::{Context, DisassembleOptions, TargetEnv, ValidatorLimit, ValidatorOptions};
