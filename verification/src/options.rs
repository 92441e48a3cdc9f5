//! The public entry points: the target environment, the disassembler and
//! validator option builders, and the context that assembles, disassembles
//! and validates whole modules.

use vstd::prelude::*;

use crate::assembler::{asm_spec, assemble_text, col_of, line_of};
use crate::codes::{spv_target_env, spv_validator_limit};
use crate::disasm::{disasm_spec, disassemble_module};
use crate::inst::{Diagnostic, ErrorKind, Module, ModuleV, Severity};
use crate::module::{dec_module, decode_module, enc_module, encode_module};
use crate::validate::{diags_view, val_module, val_module_all, validate_module, validate_module_exhaustive, Limits};

verus! {

/// The target environment a module is assembled and validated for.  It
/// fixes the version word of assembled modules.
#[derive(Clone, Copy, PartialEq, Eq, Structural, Debug)]
pub enum TargetEnv {
    /// SPIR-V 1.0, no other restrictions.
    Universal1_0,
    /// Vulkan 1.0.
    Vulkan1_0,
    /// SPIR-V 1.1, no other restrictions.
    Universal1_1,
    /// OpenCL full profile 2.1.
    OpenCL2_1,
    /// OpenCL full profile 2.2.
    OpenCL2_2,
    /// OpenGL 4.0 with the SPIR-V extension.
    OpenGL4_0,
    /// OpenGL 4.1 with the SPIR-V extension.
    OpenGL4_1,
    /// OpenGL 4.2 with the SPIR-V extension.
    OpenGL4_2,
    /// OpenGL 4.3 with the SPIR-V extension.
    OpenGL4_3,
    /// OpenGL 4.5 with the SPIR-V extension.
    OpenGl4_5,
    /// SPIR-V 1.2, no other restrictions.
    Universal1_2,
    /// OpenCL full profile 1.2.
    OpenCL1_2,
    /// OpenCL embedded profile 1.2.
    OpenCLEmbedded1_2,
    /// OpenCL full profile 2.0.
    OpenCL2_0,
    /// OpenCL embedded profile 2.0.
    OpenCLEmbedded2_0,
    /// OpenCL embedded profile 2.1.
    OpenCLEmbedded2_1,
    /// OpenCL embedded profile 2.2.
    OpenCLEmbedded2_2,
    /// SPIR-V 1.3, no other restrictions.
    Universal1_3,
    /// Vulkan 1.1.
    Vulkan1_1,
    /// The provisional web target.
    WebGPU0,
}

/// The numeric environment code of a target environment.
pub open spec fn env_code(e: TargetEnv) -> u32 {
    match e {
        TargetEnv::Universal1_0 => 0,
        TargetEnv::Vulkan1_0 => 1,
        TargetEnv::Universal1_1 => 2,
        TargetEnv::OpenCL2_1 => 3,
        TargetEnv::OpenCL2_2 => 4,
        TargetEnv::OpenGL4_0 => 5,
        TargetEnv::OpenGL4_1 => 6,
        TargetEnv::OpenGL4_2 => 7,
        TargetEnv::OpenGL4_3 => 8,
        TargetEnv::OpenGl4_5 => 9,
        TargetEnv::Universal1_2 => 10,
        TargetEnv::OpenCL1_2 => 11,
        TargetEnv::OpenCLEmbedded1_2 => 12,
        TargetEnv::OpenCL2_0 => 13,
        TargetEnv::OpenCLEmbedded2_0 => 14,
        TargetEnv::OpenCLEmbedded2_1 => 15,
        TargetEnv::OpenCLEmbedded2_2 => 16,
        TargetEnv::Universal1_3 => 17,
        TargetEnv::Vulkan1_1 => 18,
        TargetEnv::WebGPU0 => 19,
    }
}

/// The version word of modules assembled for a target environment: major in
/// the third byte, minor in the second.
pub open spec fn env_version_word(e: TargetEnv) -> u32 {
    match e {
        TargetEnv::Universal1_1 => 0x0001_0100,
        TargetEnv::Universal1_2 => 0x0001_0200,
        TargetEnv::Universal1_3 => 0x0001_0300,
        TargetEnv::Vulkan1_1 => 0x0001_0300,
        TargetEnv::WebGPU0 => 0x0001_0300,
        _ => 0x0001_0000,
    }
}

impl TargetEnv {
    /// Convert to the numeric environment code of the standard toolkit
    /// interface.
    pub fn to_raw(self) -> (r: spv_target_env)
        ensures
            r == spv_target_env(env_code(self)),
    {
        spv_target_env(
            match self {
                TargetEnv::Universal1_0 => 0,
                TargetEnv::Vulkan1_0 => 1,
                TargetEnv::Universal1_1 => 2,
                TargetEnv::OpenCL2_1 => 3,
                TargetEnv::OpenCL2_2 => 4,
                TargetEnv::OpenGL4_0 => 5,
                TargetEnv::OpenGL4_1 => 6,
                TargetEnv::OpenGL4_2 => 7,
                TargetEnv::OpenGL4_3 => 8,
                TargetEnv::OpenGl4_5 => 9,
                TargetEnv::Universal1_2 => 10,
                TargetEnv::OpenCL1_2 => 11,
                TargetEnv::OpenCLEmbedded1_2 => 12,
                TargetEnv::OpenCL2_0 => 13,
                TargetEnv::OpenCLEmbedded2_0 => 14,
                TargetEnv::OpenCLEmbedded2_1 => 15,
                TargetEnv::OpenCLEmbedded2_2 => 16,
                TargetEnv::Universal1_3 => 17,
                TargetEnv::Vulkan1_1 => 18,
                TargetEnv::WebGPU0 => 19,
            },
        )
    }

    /// The version word of modules assembled for this environment.
    pub fn version_word(self) -> (r: u32)
        ensures
            r == env_version_word(self),
    {
        match self {
            TargetEnv::Universal1_1 => 0x0001_0100,
            TargetEnv::Universal1_2 => 0x0001_0200,
            TargetEnv::Universal1_3 => 0x0001_0300,
            TargetEnv::Vulkan1_1 => 0x0001_0300,
            TargetEnv::WebGPU0 => 0x0001_0300,
            _ => 0x0001_0000,
        }
    }
}

/// Options for disassembling a module, a bit field built by chaining.
#[derive(Clone, Copy, PartialEq, Eq, Structural, Debug)]
pub struct DisassembleOptions {
    pub raw: u32,
}

impl DisassembleOptions {
    /// No options set.
    pub fn none() -> (r: Self)
        ensures
            r.raw == 0,
    {
        DisassembleOptions { raw: 0 }
    }

    /// Request printing; recorded for interface parity, the rendering is
    /// unchanged.
    pub fn print(self) -> (r: Self)
        ensures
            r.raw == self.raw | 2u32,
    {
        DisassembleOptions { raw: self.raw | 2 }
    }

    /// Request color output; recorded for interface parity, the rendering
    /// is unchanged.
    pub fn color(self) -> (r: Self)
        ensures
            r.raw == self.raw | 4u32,
    {
        DisassembleOptions { raw: self.raw | 4 }
    }

    /// Indent instructions without a result to align the mnemonics.
    pub fn indent(self) -> (r: Self)
        ensures
            r.raw == self.raw | 8u32,
    {
        DisassembleOptions { raw: self.raw | 8 }
    }

    /// Prefix each instruction line with its word offset in the stream.
    pub fn show_byte_offset(self) -> (r: Self)
        ensures
            r.raw == self.raw | 16u32,
    {
        DisassembleOptions { raw: self.raw | 16 }
    }

    /// Omit the leading module-information comment block.
    pub fn no_header(self) -> (r: Self)
        ensures
            r.raw == self.raw | 32u32,
    {
        DisassembleOptions { raw: self.raw | 32 }
    }

    /// Substitute debug names for numeric identifiers where one is usable.
    pub fn friendly_names(self) -> (r: Self)
        ensures
            r.raw == self.raw | 64u32,
    {
        DisassembleOptions { raw: self.raw | 64 }
    }
}

/// Which rendering switches a raw option word carries.
pub open spec fn opt_friendly(raw: u32) -> bool {
    raw & 64u32 != 0
}

pub open spec fn opt_indent(raw: u32) -> bool {
    raw & 8u32 != 0
}

pub open spec fn opt_offsets(raw: u32) -> bool {
    raw & 16u32 != 0
}

pub open spec fn opt_no_header(raw: u32) -> bool {
    raw & 32u32 != 0
}

/// One universal limit with its value, for `ValidatorOptions::limit`.
pub enum ValidatorLimit {
    MaxStructMembers(u32),
    MaxStructDept(u32),
    MaxLocalVariables(u32),
    MaxGlobalVariables(u32),
    MaxSwitchBranches(u32),
    MaxFunctionArgs(u32),
    MaxControlFlowNestingDepth(u32),
    MaxAccessChainIndexes(u32),
    MaxIdBound(u32),
}

impl ValidatorLimit {
    /// The limit selector and value of the standard toolkit interface.
    pub fn to_raw(&self) -> (r: (spv_validator_limit, u32))
        ensures
            r == validator_limit_raw(*self),
    {
        match self {
            ValidatorLimit::MaxStructMembers(x) => (spv_validator_limit(0), *x),
            ValidatorLimit::MaxStructDept(x) => (spv_validator_limit(1), *x),
            ValidatorLimit::MaxLocalVariables(x) => (spv_validator_limit(2), *x),
            ValidatorLimit::MaxGlobalVariables(x) => (spv_validator_limit(3), *x),
            ValidatorLimit::MaxSwitchBranches(x) => (spv_validator_limit(4), *x),
            ValidatorLimit::MaxFunctionArgs(x) => (spv_validator_limit(5), *x),
            ValidatorLimit::MaxControlFlowNestingDepth(x) => (spv_validator_limit(6), *x),
            ValidatorLimit::MaxAccessChainIndexes(x) => (spv_validator_limit(7), *x),
            ValidatorLimit::MaxIdBound(x) => (spv_validator_limit(8), *x),
        }
    }
}

/// The limit selector and value of the standard toolkit interface.
pub open spec fn validator_limit_raw(l: ValidatorLimit) -> (spv_validator_limit, u32) {
    match l {
        ValidatorLimit::MaxStructMembers(x) => (spv_validator_limit(0), x),
        ValidatorLimit::MaxStructDept(x) => (spv_validator_limit(1), x),
        ValidatorLimit::MaxLocalVariables(x) => (spv_validator_limit(2), x),
        ValidatorLimit::MaxGlobalVariables(x) => (spv_validator_limit(3), x),
        ValidatorLimit::MaxSwitchBranches(x) => (spv_validator_limit(4), x),
        ValidatorLimit::MaxFunctionArgs(x) => (spv_validator_limit(5), x),
        ValidatorLimit::MaxControlFlowNestingDepth(x) => (spv_validator_limit(6), x),
        ValidatorLimit::MaxAccessChainIndexes(x) => (spv_validator_limit(7), x),
        ValidatorLimit::MaxIdBound(x) => (spv_validator_limit(8), x),
    }
}

/// A set of options controlling validation: the enforced universal limits,
/// three limits recorded for interface parity that the structural checks do
/// not reach (struct depth, switch branches, nesting depth), and the layout
/// relaxation switches, likewise recorded (block layout rules are outside
/// the structural checks here).
#[derive(Clone, Copy, PartialEq, Eq, Structural, Debug)]
pub struct ValidatorOptions {
    pub limits: Limits,
    pub max_struct_depth: u32,
    pub max_switch_branches: u32,
    pub max_nesting_depth: u32,
    pub relax_store_struct: bool,
    pub relax_logical_pointer: bool,
    pub relax_block_layout: bool,
    pub scalar_block_layout: bool,
    pub skip_block_layout: bool,
}

/// The default validator options: the default universal limits, the three
/// recorded limits at their defaults, and every relaxation switch off.
pub open spec fn default_options() -> ValidatorOptions {
    ValidatorOptions {
        limits: default_limits(),
        max_struct_depth: 255,
        max_switch_branches: 0x3FFF,
        max_nesting_depth: 1023,
        relax_store_struct: false,
        relax_logical_pointer: false,
        relax_block_layout: false,
        scalar_block_layout: false,
        skip_block_layout: false,
    }
}

/// The default universal limits.
pub open spec fn default_limits() -> Limits {
    Limits {
        max_struct_members: 0x3FFF,
        max_function_args: 255,
        max_access_chain_indexes: 255,
        max_global_variables: 0xFFFF,
        max_local_variables: 0x7FFFF,
        max_id_bound: 0x3FFFFF,
    }
}

impl ValidatorOptions {
    /// A new validator options value in the default state.
    pub fn new() -> (r: Self)
        ensures
            r == default_options(),
    {
        ValidatorOptions {
            limits: Limits {
                max_struct_members: 0x3FFF,
                max_function_args: 255,
                max_access_chain_indexes: 255,
                max_global_variables: 0xFFFF,
                max_local_variables: 0x7FFFF,
                max_id_bound: 0x3FFFFF,
            },
            max_struct_depth: 255,
            max_switch_branches: 0x3FFF,
            max_nesting_depth: 1023,
            relax_store_struct: false,
            relax_logical_pointer: false,
            relax_block_layout: false,
            scalar_block_layout: false,
            skip_block_layout: false,
        }
    }

    /// Record the given universal limit.
    pub fn limit(self, limit: ValidatorLimit) -> (r: Self)
        ensures
            r == apply_limit(self, limit),
    {
        match limit {
            ValidatorLimit::MaxStructMembers(x) => ValidatorOptions {
                limits: Limits { max_struct_members: x, ..self.limits },
                ..self
            },
            ValidatorLimit::MaxStructDept(x) => ValidatorOptions {
                max_struct_depth: x,
                ..self
            },
            ValidatorLimit::MaxLocalVariables(x) => ValidatorOptions {
                limits: Limits { max_local_variables: x, ..self.limits },
                ..self
            },
            ValidatorLimit::MaxGlobalVariables(x) => ValidatorOptions {
                limits: Limits { max_global_variables: x, ..self.limits },
                ..self
            },
            ValidatorLimit::MaxSwitchBranches(x) => ValidatorOptions {
                max_switch_branches: x,
                ..self
            },
            ValidatorLimit::MaxFunctionArgs(x) => ValidatorOptions {
                limits: Limits { max_function_args: x, ..self.limits },
                ..self
            },
            ValidatorLimit::MaxControlFlowNestingDepth(x) => ValidatorOptions {
                max_nesting_depth: x,
                ..self
            },
            ValidatorLimit::MaxAccessChainIndexes(x) => ValidatorOptions {
                limits: Limits { max_access_chain_indexes: x, ..self.limits },
                ..self
            },
            ValidatorLimit::MaxIdBound(x) => ValidatorOptions {
                limits: Limits { max_id_bound: x, ..self.limits },
                ..self
            },
        }
    }

    /// Record whether stores may relax struct type matching.
    pub fn relax_store_struct(self, relax_store: bool) -> (r: Self)
        ensures
            r == (ValidatorOptions { relax_store_struct: relax_store, ..self }),
    {
        ValidatorOptions { relax_store_struct: relax_store, ..self }
    }

    /// Record whether logical-addressing pointer rules are relaxed.
    pub fn relax_logical_pointer(self, relax_ptr: bool) -> (r: Self)
        ensures
            r == (ValidatorOptions { relax_logical_pointer: relax_ptr, ..self }),
    {
        ValidatorOptions { relax_logical_pointer: relax_ptr, ..self }
    }

    /// Record whether relaxed block layout rules apply.
    pub fn relax_block_layout(self, relax_layout: bool) -> (r: Self)
        ensures
            r == (ValidatorOptions { relax_block_layout: relax_layout, ..self }),
    {
        ValidatorOptions { relax_block_layout: relax_layout, ..self }
    }

    /// Record whether scalar block layout rules apply.
    pub fn scalar_block_layout(self, scalar_layout: bool) -> (r: Self)
        ensures
            r == (ValidatorOptions { scalar_block_layout: scalar_layout, ..self }),
    {
        ValidatorOptions { scalar_block_layout: scalar_layout, ..self }
    }

    /// Record whether block layout validation is skipped.
    pub fn skip_block_layout(self, skip_layout: bool) -> (r: Self)
        ensures
            r == (ValidatorOptions { skip_block_layout: skip_layout, ..self }),
    {
        ValidatorOptions { skip_block_layout: skip_layout, ..self }
    }
}

/// What recording one universal limit does.
pub open spec fn apply_limit(o: ValidatorOptions, limit: ValidatorLimit) -> ValidatorOptions {
    match limit {
        ValidatorLimit::MaxStructMembers(x) => ValidatorOptions {
            limits: Limits { max_struct_members: x, ..o.limits },
            ..o
        },
        ValidatorLimit::MaxStructDept(x) => ValidatorOptions { max_struct_depth: x, ..o },
        ValidatorLimit::MaxLocalVariables(x) => ValidatorOptions {
            limits: Limits { max_local_variables: x, ..o.limits },
            ..o
        },
        ValidatorLimit::MaxGlobalVariables(x) => ValidatorOptions {
            limits: Limits { max_global_variables: x, ..o.limits },
            ..o
        },
        ValidatorLimit::MaxSwitchBranches(x) => ValidatorOptions { max_switch_branches: x, ..o },
        ValidatorLimit::MaxFunctionArgs(x) => ValidatorOptions {
            limits: Limits { max_function_args: x, ..o.limits },
            ..o
        },
        ValidatorLimit::MaxControlFlowNestingDepth(x) => ValidatorOptions {
            max_nesting_depth: x,
            ..o
        },
        ValidatorLimit::MaxAccessChainIndexes(x) => ValidatorOptions {
            limits: Limits { max_access_chain_indexes: x, ..o.limits },
            ..o
        },
        ValidatorLimit::MaxIdBound(x) => ValidatorOptions {
            limits: Limits { max_id_bound: x, ..o.limits },
            ..o
        },
    }
}

impl Default for ValidatorOptions {
    fn default() -> (r: Self)
        ensures
            r == default_options(),
    {
        ValidatorOptions::new()
    }
}

/// A context for assembling, disassembling and validating modules for one
/// target environment.
pub struct Context {
    pub env: TargetEnv,
    pub include_diagnostics: bool,
    pub strict_opcodes: bool,
}

impl Context {
    /// A new context for the target environment.  Opcodes outside the
    /// schema table are rejected until `permissive_opcodes` asks otherwise.
    pub fn new(env: TargetEnv) -> (r: Self)
        ensures
            r.env == env,
            !r.include_diagnostics,
            r.strict_opcodes,
    {
        Context { env, include_diagnostics: false, strict_opcodes: true }
    }

    /// Include diagnostic information in any error codes.
    pub fn with_diagnostics(self) -> (r: Self)
        ensures
            r == (Context { include_diagnostics: true, ..self }),
    {
        Context { include_diagnostics: true, ..self }
    }

    /// Let opcodes outside the schema table round-trip as raw words instead
    /// of failing.
    pub fn permissive_opcodes(self) -> (r: Self)
        ensures
            r == (Context { strict_opcodes: false, ..self }),
    {
        Context { strict_opcodes: false, ..self }
    }

    /// Assemble a module from its textual form.  The output is the encoding
    /// of exactly the module the reading function `asm_spec` yields; a
    /// failure carries the kind and the line and column it was found at.
    pub fn assemble(&self, source: &str) -> (r: Result<Vec<u32>, Diagnostic>)
        ensures
            match r {
                Ok(words) => asm_spec(source@, env_version_word(self.env), 0) matches Ok(mv)
                    && words@ == enc_module(mv),
                Err(d) => asm_spec(source@, env_version_word(self.env), 0) matches Err(ep)
                    && d.kind == ep.0 && d.position.line == line_of(source@, ep.1)
                    && d.position.column == col_of(source@, ep.1) && d.position.word_index == 0
                    && d.severity == Severity::Error,
            },
    {
        match assemble_text(source, self.env.version_word(), 0) {
            Ok(m) => Ok(encode_module(&m)),
            Err(d) => Err(d),
        }
    }

    /// Disassemble a module from its binary form with default options.
    pub fn disassemble(&self, binary: &[u32]) -> (r: Result<String, Diagnostic>)
        ensures
            match r {
                Ok(text) => dec_module(binary@, self.strict_opcodes) matches Ok(mv) && text@
                    == disasm_spec(mv, false, false, false, false),
                Err(d) => dec_module(binary@, self.strict_opcodes) matches Err(ep) && d.kind
                    == ep.0 && d.position.word_index as int == ep.1 && d.position.line == 0
                    && d.position.column == 0 && d.severity == Severity::Error,
            },
    {
        proof {
            assert(0u32 & 64u32 == 0 && 0u32 & 8u32 == 0 && 0u32 & 16u32 == 0 && 0u32 & 32u32
                == 0) by (bit_vector);
        }
        self.disassemble_with_options(binary, DisassembleOptions::none())
    }

    /// Disassemble a module from its binary form with the given options.
    pub fn disassemble_with_options(&self, binary: &[u32], options: DisassembleOptions) -> (r:
        Result<String, Diagnostic>)
        ensures
            match r {
                Ok(text) => dec_module(binary@, self.strict_opcodes) matches Ok(mv) && text@
                    == disasm_spec(
                    mv,
                    opt_friendly(options.raw),
                    opt_indent(options.raw),
                    opt_offsets(options.raw),
                    opt_no_header(options.raw),
                ),
                Err(d) => dec_module(binary@, self.strict_opcodes) matches Err(ep) && d.kind
                    == ep.0 && d.position.word_index as int == ep.1 && d.position.line == 0
                    && d.position.column == 0 && d.severity == Severity::Error,
            },
    {
        match decode_module(binary, self.strict_opcodes) {
            Err(d) => Err(d),
            Ok(m) => Ok(
                disassemble_module(
                    &m,
                    options.raw & 64 != 0,
                    options.raw & 8 != 0,
                    options.raw & 16 != 0,
                    options.raw & 32 != 0,
                ),
            ),
        }
    }

    /// Validate a module from its binary form with the default options.
    pub fn validate(&self, binary: &[u32]) -> (r: Result<(), Diagnostic>)
        ensures
            match r {
                Ok(()) => dec_module(binary@, self.strict_opcodes) matches Ok(mv) && val_module(
                    mv,
                    default_limits(),
                ) == Ok::<(), (ErrorKind, int)>(()),
                Err(d) => ((dec_module(binary@, self.strict_opcodes) matches Err(ep) && d.kind
                    == ep.0 && d.position.word_index as int == ep.1) || (dec_module(
                    binary@,
                    self.strict_opcodes,
                ) matches Ok(mv) && val_module(mv, default_limits()) matches Err(ve) && d.kind
                    == ve.0 && d.position.word_index as int == ve.1)) && d.position.line == 0
                    && d.position.column == 0 && d.severity == Severity::Error,
            },
    {
        self.validate_with_options(binary, ValidatorOptions::new())
    }

    /// Validate a module from its binary form with the given options.  The
    /// outcome is exactly `val_module` on the decoded module; a validation
    /// failure's position is the index of the offending instruction.
    pub fn validate_with_options(&self, binary: &[u32], options: ValidatorOptions) -> (r: Result<
        (),
        Diagnostic,
    >)
        ensures
            match r {
                Ok(()) => dec_module(binary@, self.strict_opcodes) matches Ok(mv) && val_module(
                    mv,
                    options.limits,
                ) == Ok::<(), (ErrorKind, int)>(()),
                Err(d) => ((dec_module(binary@, self.strict_opcodes) matches Err(ep) && d.kind
                    == ep.0 && d.position.word_index as int == ep.1) || (dec_module(
                    binary@,
                    self.strict_opcodes,
                ) matches Ok(mv) && val_module(mv, options.limits) matches Err(ve) && d.kind
                    == ve.0 && d.position.word_index as int == ve.1)) && d.position.line == 0
                    && d.position.column == 0 && d.severity == Severity::Error,
            },
    {
        match decode_module(binary, self.strict_opcodes) {
            Err(d) => Err(d),
            Ok(m) => {
                match validate_module(&m, options.limits) {
                    Ok(()) => Ok(()),
                    Err((e, k)) => Err(Diagnostic::at_word(e, k)),
                }
            },
        }
    }

    /// Validate a module from its binary form in exhaustive mode: instead of
    /// stopping at the first violation, one pass reports every violation the
    /// sweep finds, in module order (`lemma_validation_modes_agree` proves
    /// the empty report coincides with the fail-fast mode's acceptance).  A
    /// stream that does not decode still fails as a whole.
    pub fn validate_exhaustive(&self, binary: &[u32], options: ValidatorOptions) -> (r: Result<
        Vec<Diagnostic>,
        Diagnostic,
    >)
        ensures
            match r {
                Ok(ds) => dec_module(binary@, self.strict_opcodes) matches Ok(mv) && diags_view(
                    ds@,
                ) == val_module_all(mv, options.limits) && forall|j: int|
                    0 <= j < ds@.len() ==> (#[trigger] ds@[j]).severity == Severity::Error
                        && ds@[j].position.line == 0 && ds@[j].position.column == 0,
                Err(d) => dec_module(binary@, self.strict_opcodes) matches Err(ep) && d.kind
                    == ep.0 && d.position.word_index as int == ep.1 && d.position.line == 0
                    && d.position.column == 0 && d.severity == Severity::Error,
            },
    {
        match decode_module(binary, self.strict_opcodes) {
            Err(d) => Err(d),
            Ok(m) => Ok(validate_module_exhaustive(&m, options.limits)),
        }
    }
}

} // verus!
