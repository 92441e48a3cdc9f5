//! Name tables of the textual form: opcode mnemonics, enumerated-operand and
//! bitmask mnemonics, and the extended-instruction names of the standard
//! shader instruction set — each in both directions, with the reading
//! direction proved against the same table the rendering uses.

use vstd::prelude::*;

use crate::schema::{EnumKind, MaskKind};
use crate::schema::{
OP_NOP, OP_UNDEF, OP_SOURCE, OP_NAME, OP_MEMBER_NAME, OP_EXT_INST_IMPORT, OP_EXT_INST, OP_MEMORY_MODEL, OP_ENTRY_POINT, OP_EXECUTION_MODE, OP_CAPABILITY, OP_TYPE_VOID, OP_TYPE_BOOL, OP_TYPE_INT, OP_TYPE_FLOAT, OP_TYPE_VECTOR, OP_TYPE_ARRAY, OP_TYPE_STRUCT, OP_TYPE_POINTER, OP_TYPE_FUNCTION, OP_TYPE_FORWARD_POINTER, OP_CONSTANT_TRUE, OP_CONSTANT_FALSE, OP_CONSTANT, OP_CONSTANT_COMPOSITE, OP_FUNCTION, OP_FUNCTION_PARAMETER, OP_FUNCTION_END, OP_FUNCTION_CALL, OP_VARIABLE, OP_LOAD, OP_STORE, OP_ACCESS_CHAIN, OP_DECORATE, OP_MEMBER_DECORATE, OP_IADD, OP_FADD, OP_FMUL, OP_INOT_EQUAL, OP_SLESS_THAN, OP_PHI, OP_LOOP_MERGE, OP_SELECTION_MERGE, OP_LABEL, OP_BRANCH, OP_BRANCH_CONDITIONAL, OP_RETURN, OP_RETURN_VALUE, OP_UNREACHABLE};

verus! {

/// Whether characters `start..end` of `s` spell exactly `kw`.
pub fn match_keyword(s: &str, start: usize, end: usize, kw: &str) -> (r: bool)
    requires
        start <= end <= s@.len(),
    ensures
        r == (s@.subrange(start as int, end as int) == kw@),
{
    let kw_len = kw.unicode_len();
    if end - start != kw_len {
        proof {
            assert(s@.subrange(start as int, end as int).len() != kw@.len());
        }
        return false;
    }
    let mut i: usize = 0;
    while i < kw_len
        invariant
            0 <= i <= kw_len,
            start <= end <= s@.len(),
            kw_len == kw@.len(),
            end - start == kw_len,
            forall|j: int| 0 <= j < i ==> s@[start + j] == kw@[j],
        decreases kw_len - i,
    {
        if s.get_char(start + i) != kw.get_char(i) {
            return false;
        }
        i += 1;
    }
    proof {
        assert(s@.subrange(start as int, end as int) =~= kw@);
    }
    true
}

/// The mnemonic of a known opcode; unknown opcodes render as `OpUnknown`.
pub open spec fn opcode_name_spec(op: u16) -> Seq<char> {
    if op == OP_NOP {
        "OpNop"@
    } else if op == OP_UNDEF {
        "OpUndef"@
    } else if op == OP_SOURCE {
        "OpSource"@
    } else if op == OP_NAME {
        "OpName"@
    } else if op == OP_MEMBER_NAME {
        "OpMemberName"@
    } else if op == OP_EXT_INST_IMPORT {
        "OpExtInstImport"@
    } else if op == OP_EXT_INST {
        "OpExtInst"@
    } else if op == OP_MEMORY_MODEL {
        "OpMemoryModel"@
    } else if op == OP_ENTRY_POINT {
        "OpEntryPoint"@
    } else if op == OP_EXECUTION_MODE {
        "OpExecutionMode"@
    } else if op == OP_CAPABILITY {
        "OpCapability"@
    } else if op == OP_TYPE_VOID {
        "OpTypeVoid"@
    } else if op == OP_TYPE_BOOL {
        "OpTypeBool"@
    } else if op == OP_TYPE_INT {
        "OpTypeInt"@
    } else if op == OP_TYPE_FLOAT {
        "OpTypeFloat"@
    } else if op == OP_TYPE_VECTOR {
        "OpTypeVector"@
    } else if op == OP_TYPE_ARRAY {
        "OpTypeArray"@
    } else if op == OP_TYPE_STRUCT {
        "OpTypeStruct"@
    } else if op == OP_TYPE_POINTER {
        "OpTypePointer"@
    } else if op == OP_TYPE_FUNCTION {
        "OpTypeFunction"@
    } else if op == OP_TYPE_FORWARD_POINTER {
        "OpTypeForwardPointer"@
    } else if op == OP_CONSTANT_TRUE {
        "OpConstantTrue"@
    } else if op == OP_CONSTANT_FALSE {
        "OpConstantFalse"@
    } else if op == OP_CONSTANT {
        "OpConstant"@
    } else if op == OP_CONSTANT_COMPOSITE {
        "OpConstantComposite"@
    } else if op == OP_FUNCTION {
        "OpFunction"@
    } else if op == OP_FUNCTION_PARAMETER {
        "OpFunctionParameter"@
    } else if op == OP_FUNCTION_END {
        "OpFunctionEnd"@
    } else if op == OP_FUNCTION_CALL {
        "OpFunctionCall"@
    } else if op == OP_VARIABLE {
        "OpVariable"@
    } else if op == OP_LOAD {
        "OpLoad"@
    } else if op == OP_STORE {
        "OpStore"@
    } else if op == OP_ACCESS_CHAIN {
        "OpAccessChain"@
    } else if op == OP_DECORATE {
        "OpDecorate"@
    } else if op == OP_MEMBER_DECORATE {
        "OpMemberDecorate"@
    } else if op == OP_IADD {
        "OpIAdd"@
    } else if op == OP_FADD {
        "OpFAdd"@
    } else if op == OP_FMUL {
        "OpFMul"@
    } else if op == OP_INOT_EQUAL {
        "OpINotEqual"@
    } else if op == OP_SLESS_THAN {
        "OpSLessThan"@
    } else if op == OP_PHI {
        "OpPhi"@
    } else if op == OP_LOOP_MERGE {
        "OpLoopMerge"@
    } else if op == OP_SELECTION_MERGE {
        "OpSelectionMerge"@
    } else if op == OP_LABEL {
        "OpLabel"@
    } else if op == OP_BRANCH {
        "OpBranch"@
    } else if op == OP_BRANCH_CONDITIONAL {
        "OpBranchConditional"@
    } else if op == OP_RETURN {
        "OpReturn"@
    } else if op == OP_RETURN_VALUE {
        "OpReturnValue"@
    } else if op == OP_UNREACHABLE {
        "OpUnreachable"@
    } else {
        "OpUnknown"@
    }
}

/// Executable form of `opcode_name_spec`.
pub fn opcode_name(op: u16) -> (r: &'static str)
    ensures
        r@ == opcode_name_spec(op),
{
    if op == OP_NOP {
        "OpNop"
    } else if op == OP_UNDEF {
        "OpUndef"
    } else if op == OP_SOURCE {
        "OpSource"
    } else if op == OP_NAME {
        "OpName"
    } else if op == OP_MEMBER_NAME {
        "OpMemberName"
    } else if op == OP_EXT_INST_IMPORT {
        "OpExtInstImport"
    } else if op == OP_EXT_INST {
        "OpExtInst"
    } else if op == OP_MEMORY_MODEL {
        "OpMemoryModel"
    } else if op == OP_ENTRY_POINT {
        "OpEntryPoint"
    } else if op == OP_EXECUTION_MODE {
        "OpExecutionMode"
    } else if op == OP_CAPABILITY {
        "OpCapability"
    } else if op == OP_TYPE_VOID {
        "OpTypeVoid"
    } else if op == OP_TYPE_BOOL {
        "OpTypeBool"
    } else if op == OP_TYPE_INT {
        "OpTypeInt"
    } else if op == OP_TYPE_FLOAT {
        "OpTypeFloat"
    } else if op == OP_TYPE_VECTOR {
        "OpTypeVector"
    } else if op == OP_TYPE_ARRAY {
        "OpTypeArray"
    } else if op == OP_TYPE_STRUCT {
        "OpTypeStruct"
    } else if op == OP_TYPE_POINTER {
        "OpTypePointer"
    } else if op == OP_TYPE_FUNCTION {
        "OpTypeFunction"
    } else if op == OP_TYPE_FORWARD_POINTER {
        "OpTypeForwardPointer"
    } else if op == OP_CONSTANT_TRUE {
        "OpConstantTrue"
    } else if op == OP_CONSTANT_FALSE {
        "OpConstantFalse"
    } else if op == OP_CONSTANT {
        "OpConstant"
    } else if op == OP_CONSTANT_COMPOSITE {
        "OpConstantComposite"
    } else if op == OP_FUNCTION {
        "OpFunction"
    } else if op == OP_FUNCTION_PARAMETER {
        "OpFunctionParameter"
    } else if op == OP_FUNCTION_END {
        "OpFunctionEnd"
    } else if op == OP_FUNCTION_CALL {
        "OpFunctionCall"
    } else if op == OP_VARIABLE {
        "OpVariable"
    } else if op == OP_LOAD {
        "OpLoad"
    } else if op == OP_STORE {
        "OpStore"
    } else if op == OP_ACCESS_CHAIN {
        "OpAccessChain"
    } else if op == OP_DECORATE {
        "OpDecorate"
    } else if op == OP_MEMBER_DECORATE {
        "OpMemberDecorate"
    } else if op == OP_IADD {
        "OpIAdd"
    } else if op == OP_FADD {
        "OpFAdd"
    } else if op == OP_FMUL {
        "OpFMul"
    } else if op == OP_INOT_EQUAL {
        "OpINotEqual"
    } else if op == OP_SLESS_THAN {
        "OpSLessThan"
    } else if op == OP_PHI {
        "OpPhi"
    } else if op == OP_LOOP_MERGE {
        "OpLoopMerge"
    } else if op == OP_SELECTION_MERGE {
        "OpSelectionMerge"
    } else if op == OP_LABEL {
        "OpLabel"
    } else if op == OP_BRANCH {
        "OpBranch"
    } else if op == OP_BRANCH_CONDITIONAL {
        "OpBranchConditional"
    } else if op == OP_RETURN {
        "OpReturn"
    } else if op == OP_RETURN_VALUE {
        "OpReturnValue"
    } else if op == OP_UNREACHABLE {
        "OpUnreachable"
    } else {
        "OpUnknown"
    }
}

/// The opcode a mnemonic names, if the table knows it.
pub open spec fn opcode_of_name_spec(n: Seq<char>) -> Option<u16> {
    if n == "OpNop"@ {
        Some(OP_NOP)
    } else if n == "OpUndef"@ {
        Some(OP_UNDEF)
    } else if n == "OpSource"@ {
        Some(OP_SOURCE)
    } else if n == "OpName"@ {
        Some(OP_NAME)
    } else if n == "OpMemberName"@ {
        Some(OP_MEMBER_NAME)
    } else if n == "OpExtInstImport"@ {
        Some(OP_EXT_INST_IMPORT)
    } else if n == "OpExtInst"@ {
        Some(OP_EXT_INST)
    } else if n == "OpMemoryModel"@ {
        Some(OP_MEMORY_MODEL)
    } else if n == "OpEntryPoint"@ {
        Some(OP_ENTRY_POINT)
    } else if n == "OpExecutionMode"@ {
        Some(OP_EXECUTION_MODE)
    } else if n == "OpCapability"@ {
        Some(OP_CAPABILITY)
    } else if n == "OpTypeVoid"@ {
        Some(OP_TYPE_VOID)
    } else if n == "OpTypeBool"@ {
        Some(OP_TYPE_BOOL)
    } else if n == "OpTypeInt"@ {
        Some(OP_TYPE_INT)
    } else if n == "OpTypeFloat"@ {
        Some(OP_TYPE_FLOAT)
    } else if n == "OpTypeVector"@ {
        Some(OP_TYPE_VECTOR)
    } else if n == "OpTypeArray"@ {
        Some(OP_TYPE_ARRAY)
    } else if n == "OpTypeStruct"@ {
        Some(OP_TYPE_STRUCT)
    } else if n == "OpTypePointer"@ {
        Some(OP_TYPE_POINTER)
    } else if n == "OpTypeFunction"@ {
        Some(OP_TYPE_FUNCTION)
    } else if n == "OpTypeForwardPointer"@ {
        Some(OP_TYPE_FORWARD_POINTER)
    } else if n == "OpConstantTrue"@ {
        Some(OP_CONSTANT_TRUE)
    } else if n == "OpConstantFalse"@ {
        Some(OP_CONSTANT_FALSE)
    } else if n == "OpConstant"@ {
        Some(OP_CONSTANT)
    } else if n == "OpConstantComposite"@ {
        Some(OP_CONSTANT_COMPOSITE)
    } else if n == "OpFunction"@ {
        Some(OP_FUNCTION)
    } else if n == "OpFunctionParameter"@ {
        Some(OP_FUNCTION_PARAMETER)
    } else if n == "OpFunctionEnd"@ {
        Some(OP_FUNCTION_END)
    } else if n == "OpFunctionCall"@ {
        Some(OP_FUNCTION_CALL)
    } else if n == "OpVariable"@ {
        Some(OP_VARIABLE)
    } else if n == "OpLoad"@ {
        Some(OP_LOAD)
    } else if n == "OpStore"@ {
        Some(OP_STORE)
    } else if n == "OpAccessChain"@ {
        Some(OP_ACCESS_CHAIN)
    } else if n == "OpDecorate"@ {
        Some(OP_DECORATE)
    } else if n == "OpMemberDecorate"@ {
        Some(OP_MEMBER_DECORATE)
    } else if n == "OpIAdd"@ {
        Some(OP_IADD)
    } else if n == "OpFAdd"@ {
        Some(OP_FADD)
    } else if n == "OpFMul"@ {
        Some(OP_FMUL)
    } else if n == "OpINotEqual"@ {
        Some(OP_INOT_EQUAL)
    } else if n == "OpSLessThan"@ {
        Some(OP_SLESS_THAN)
    } else if n == "OpPhi"@ {
        Some(OP_PHI)
    } else if n == "OpLoopMerge"@ {
        Some(OP_LOOP_MERGE)
    } else if n == "OpSelectionMerge"@ {
        Some(OP_SELECTION_MERGE)
    } else if n == "OpLabel"@ {
        Some(OP_LABEL)
    } else if n == "OpBranch"@ {
        Some(OP_BRANCH)
    } else if n == "OpBranchConditional"@ {
        Some(OP_BRANCH_CONDITIONAL)
    } else if n == "OpReturn"@ {
        Some(OP_RETURN)
    } else if n == "OpReturnValue"@ {
        Some(OP_RETURN_VALUE)
    } else if n == "OpUnreachable"@ {
        Some(OP_UNREACHABLE)
    } else {
        None
    }
}

/// Executable form of `opcode_of_name_spec` on characters `start..end`.
pub fn opcode_of_name(s: &str, start: usize, end: usize) -> (r: Option<u16>)
    requires
        start <= end <= s@.len(),
    ensures
        r == opcode_of_name_spec(s@.subrange(start as int, end as int)),
{
    if match_keyword(s, start, end, "OpNop") {
        Some(OP_NOP)
    } else if match_keyword(s, start, end, "OpUndef") {
        Some(OP_UNDEF)
    } else if match_keyword(s, start, end, "OpSource") {
        Some(OP_SOURCE)
    } else if match_keyword(s, start, end, "OpName") {
        Some(OP_NAME)
    } else if match_keyword(s, start, end, "OpMemberName") {
        Some(OP_MEMBER_NAME)
    } else if match_keyword(s, start, end, "OpExtInstImport") {
        Some(OP_EXT_INST_IMPORT)
    } else if match_keyword(s, start, end, "OpExtInst") {
        Some(OP_EXT_INST)
    } else if match_keyword(s, start, end, "OpMemoryModel") {
        Some(OP_MEMORY_MODEL)
    } else if match_keyword(s, start, end, "OpEntryPoint") {
        Some(OP_ENTRY_POINT)
    } else if match_keyword(s, start, end, "OpExecutionMode") {
        Some(OP_EXECUTION_MODE)
    } else if match_keyword(s, start, end, "OpCapability") {
        Some(OP_CAPABILITY)
    } else if match_keyword(s, start, end, "OpTypeVoid") {
        Some(OP_TYPE_VOID)
    } else if match_keyword(s, start, end, "OpTypeBool") {
        Some(OP_TYPE_BOOL)
    } else if match_keyword(s, start, end, "OpTypeInt") {
        Some(OP_TYPE_INT)
    } else if match_keyword(s, start, end, "OpTypeFloat") {
        Some(OP_TYPE_FLOAT)
    } else if match_keyword(s, start, end, "OpTypeVector") {
        Some(OP_TYPE_VECTOR)
    } else if match_keyword(s, start, end, "OpTypeArray") {
        Some(OP_TYPE_ARRAY)
    } else if match_keyword(s, start, end, "OpTypeStruct") {
        Some(OP_TYPE_STRUCT)
    } else if match_keyword(s, start, end, "OpTypePointer") {
        Some(OP_TYPE_POINTER)
    } else if match_keyword(s, start, end, "OpTypeFunction") {
        Some(OP_TYPE_FUNCTION)
    } else if match_keyword(s, start, end, "OpTypeForwardPointer") {
        Some(OP_TYPE_FORWARD_POINTER)
    } else if match_keyword(s, start, end, "OpConstantTrue") {
        Some(OP_CONSTANT_TRUE)
    } else if match_keyword(s, start, end, "OpConstantFalse") {
        Some(OP_CONSTANT_FALSE)
    } else if match_keyword(s, start, end, "OpConstant") {
        Some(OP_CONSTANT)
    } else if match_keyword(s, start, end, "OpConstantComposite") {
        Some(OP_CONSTANT_COMPOSITE)
    } else if match_keyword(s, start, end, "OpFunction") {
        Some(OP_FUNCTION)
    } else if match_keyword(s, start, end, "OpFunctionParameter") {
        Some(OP_FUNCTION_PARAMETER)
    } else if match_keyword(s, start, end, "OpFunctionEnd") {
        Some(OP_FUNCTION_END)
    } else if match_keyword(s, start, end, "OpFunctionCall") {
        Some(OP_FUNCTION_CALL)
    } else if match_keyword(s, start, end, "OpVariable") {
        Some(OP_VARIABLE)
    } else if match_keyword(s, start, end, "OpLoad") {
        Some(OP_LOAD)
    } else if match_keyword(s, start, end, "OpStore") {
        Some(OP_STORE)
    } else if match_keyword(s, start, end, "OpAccessChain") {
        Some(OP_ACCESS_CHAIN)
    } else if match_keyword(s, start, end, "OpDecorate") {
        Some(OP_DECORATE)
    } else if match_keyword(s, start, end, "OpMemberDecorate") {
        Some(OP_MEMBER_DECORATE)
    } else if match_keyword(s, start, end, "OpIAdd") {
        Some(OP_IADD)
    } else if match_keyword(s, start, end, "OpFAdd") {
        Some(OP_FADD)
    } else if match_keyword(s, start, end, "OpFMul") {
        Some(OP_FMUL)
    } else if match_keyword(s, start, end, "OpINotEqual") {
        Some(OP_INOT_EQUAL)
    } else if match_keyword(s, start, end, "OpSLessThan") {
        Some(OP_SLESS_THAN)
    } else if match_keyword(s, start, end, "OpPhi") {
        Some(OP_PHI)
    } else if match_keyword(s, start, end, "OpLoopMerge") {
        Some(OP_LOOP_MERGE)
    } else if match_keyword(s, start, end, "OpSelectionMerge") {
        Some(OP_SELECTION_MERGE)
    } else if match_keyword(s, start, end, "OpLabel") {
        Some(OP_LABEL)
    } else if match_keyword(s, start, end, "OpBranch") {
        Some(OP_BRANCH)
    } else if match_keyword(s, start, end, "OpBranchConditional") {
        Some(OP_BRANCH_CONDITIONAL)
    } else if match_keyword(s, start, end, "OpReturn") {
        Some(OP_RETURN)
    } else if match_keyword(s, start, end, "OpReturnValue") {
        Some(OP_RETURN_VALUE)
    } else if match_keyword(s, start, end, "OpUnreachable") {
        Some(OP_UNREACHABLE)
    } else {
        None
    }
}

/// The mnemonic of a source_language value, if the table knows it.
pub open spec fn source_language_name_spec(v: u32) -> Option<Seq<char>> {
    if v == 0 {
        Some("Unknown"@)
    } else if v == 1 {
        Some("ESSL"@)
    } else if v == 2 {
        Some("GLSL"@)
    } else if v == 3 {
        Some("OpenCL_C"@)
    } else if v == 4 {
        Some("OpenCL_CPP"@)
    } else if v == 5 {
        Some("HLSL"@)
    } else {
        None
    }
}

/// Executable form of `source_language_name_spec`.
pub fn source_language_name(v: u32) -> (r: Option<&'static str>)
    ensures
        match r {
            Some(s) => source_language_name_spec(v) == Some(s@),
            None => source_language_name_spec(v) is None,
        },
{
    if v == 0 {
        Some("Unknown")
    } else if v == 1 {
        Some("ESSL")
    } else if v == 2 {
        Some("GLSL")
    } else if v == 3 {
        Some("OpenCL_C")
    } else if v == 4 {
        Some("OpenCL_CPP")
    } else if v == 5 {
        Some("HLSL")
    } else {
        None
    }
}

/// The value a source_language mnemonic names, if the table knows it.
pub open spec fn source_language_value_spec(n: Seq<char>) -> Option<u32> {
    if n == "Unknown"@ {
        Some(0)
    } else if n == "ESSL"@ {
        Some(1)
    } else if n == "GLSL"@ {
        Some(2)
    } else if n == "OpenCL_C"@ {
        Some(3)
    } else if n == "OpenCL_CPP"@ {
        Some(4)
    } else if n == "HLSL"@ {
        Some(5)
    } else {
        None
    }
}

/// Executable form of `source_language_value_spec` on characters `start..end`.
pub fn source_language_value(s: &str, start: usize, end: usize) -> (r: Option<u32>)
    requires
        start <= end <= s@.len(),
    ensures
        r == source_language_value_spec(s@.subrange(start as int, end as int)),
{
    if match_keyword(s, start, end, "Unknown") {
        Some(0)
    } else if match_keyword(s, start, end, "ESSL") {
        Some(1)
    } else if match_keyword(s, start, end, "GLSL") {
        Some(2)
    } else if match_keyword(s, start, end, "OpenCL_C") {
        Some(3)
    } else if match_keyword(s, start, end, "OpenCL_CPP") {
        Some(4)
    } else if match_keyword(s, start, end, "HLSL") {
        Some(5)
    } else {
        None
    }
}

/// The mnemonic of a execution_model value, if the table knows it.
pub open spec fn execution_model_name_spec(v: u32) -> Option<Seq<char>> {
    if v == 0 {
        Some("Vertex"@)
    } else if v == 1 {
        Some("TessellationControl"@)
    } else if v == 2 {
        Some("TessellationEvaluation"@)
    } else if v == 3 {
        Some("Geometry"@)
    } else if v == 4 {
        Some("Fragment"@)
    } else if v == 5 {
        Some("GLCompute"@)
    } else if v == 6 {
        Some("Kernel"@)
    } else {
        None
    }
}

/// Executable form of `execution_model_name_spec`.
pub fn execution_model_name(v: u32) -> (r: Option<&'static str>)
    ensures
        match r {
            Some(s) => execution_model_name_spec(v) == Some(s@),
            None => execution_model_name_spec(v) is None,
        },
{
    if v == 0 {
        Some("Vertex")
    } else if v == 1 {
        Some("TessellationControl")
    } else if v == 2 {
        Some("TessellationEvaluation")
    } else if v == 3 {
        Some("Geometry")
    } else if v == 4 {
        Some("Fragment")
    } else if v == 5 {
        Some("GLCompute")
    } else if v == 6 {
        Some("Kernel")
    } else {
        None
    }
}

/// The value a execution_model mnemonic names, if the table knows it.
pub open spec fn execution_model_value_spec(n: Seq<char>) -> Option<u32> {
    if n == "Vertex"@ {
        Some(0)
    } else if n == "TessellationControl"@ {
        Some(1)
    } else if n == "TessellationEvaluation"@ {
        Some(2)
    } else if n == "Geometry"@ {
        Some(3)
    } else if n == "Fragment"@ {
        Some(4)
    } else if n == "GLCompute"@ {
        Some(5)
    } else if n == "Kernel"@ {
        Some(6)
    } else {
        None
    }
}

/// Executable form of `execution_model_value_spec` on characters `start..end`.
pub fn execution_model_value(s: &str, start: usize, end: usize) -> (r: Option<u32>)
    requires
        start <= end <= s@.len(),
    ensures
        r == execution_model_value_spec(s@.subrange(start as int, end as int)),
{
    if match_keyword(s, start, end, "Vertex") {
        Some(0)
    } else if match_keyword(s, start, end, "TessellationControl") {
        Some(1)
    } else if match_keyword(s, start, end, "TessellationEvaluation") {
        Some(2)
    } else if match_keyword(s, start, end, "Geometry") {
        Some(3)
    } else if match_keyword(s, start, end, "Fragment") {
        Some(4)
    } else if match_keyword(s, start, end, "GLCompute") {
        Some(5)
    } else if match_keyword(s, start, end, "Kernel") {
        Some(6)
    } else {
        None
    }
}

/// The mnemonic of a addressing_model value, if the table knows it.
pub open spec fn addressing_model_name_spec(v: u32) -> Option<Seq<char>> {
    if v == 0 {
        Some("Logical"@)
    } else if v == 1 {
        Some("Physical32"@)
    } else if v == 2 {
        Some("Physical64"@)
    } else {
        None
    }
}

/// Executable form of `addressing_model_name_spec`.
pub fn addressing_model_name(v: u32) -> (r: Option<&'static str>)
    ensures
        match r {
            Some(s) => addressing_model_name_spec(v) == Some(s@),
            None => addressing_model_name_spec(v) is None,
        },
{
    if v == 0 {
        Some("Logical")
    } else if v == 1 {
        Some("Physical32")
    } else if v == 2 {
        Some("Physical64")
    } else {
        None
    }
}

/// The value a addressing_model mnemonic names, if the table knows it.
pub open spec fn addressing_model_value_spec(n: Seq<char>) -> Option<u32> {
    if n == "Logical"@ {
        Some(0)
    } else if n == "Physical32"@ {
        Some(1)
    } else if n == "Physical64"@ {
        Some(2)
    } else {
        None
    }
}

/// Executable form of `addressing_model_value_spec` on characters `start..end`.
pub fn addressing_model_value(s: &str, start: usize, end: usize) -> (r: Option<u32>)
    requires
        start <= end <= s@.len(),
    ensures
        r == addressing_model_value_spec(s@.subrange(start as int, end as int)),
{
    if match_keyword(s, start, end, "Logical") {
        Some(0)
    } else if match_keyword(s, start, end, "Physical32") {
        Some(1)
    } else if match_keyword(s, start, end, "Physical64") {
        Some(2)
    } else {
        None
    }
}

/// The mnemonic of a memory_model value, if the table knows it.
pub open spec fn memory_model_name_spec(v: u32) -> Option<Seq<char>> {
    if v == 0 {
        Some("Simple"@)
    } else if v == 1 {
        Some("GLSL450"@)
    } else if v == 2 {
        Some("OpenCL"@)
    } else {
        None
    }
}

/// Executable form of `memory_model_name_spec`.
pub fn memory_model_name(v: u32) -> (r: Option<&'static str>)
    ensures
        match r {
            Some(s) => memory_model_name_spec(v) == Some(s@),
            None => memory_model_name_spec(v) is None,
        },
{
    if v == 0 {
        Some("Simple")
    } else if v == 1 {
        Some("GLSL450")
    } else if v == 2 {
        Some("OpenCL")
    } else {
        None
    }
}

/// The value a memory_model mnemonic names, if the table knows it.
pub open spec fn memory_model_value_spec(n: Seq<char>) -> Option<u32> {
    if n == "Simple"@ {
        Some(0)
    } else if n == "GLSL450"@ {
        Some(1)
    } else if n == "OpenCL"@ {
        Some(2)
    } else {
        None
    }
}

/// Executable form of `memory_model_value_spec` on characters `start..end`.
pub fn memory_model_value(s: &str, start: usize, end: usize) -> (r: Option<u32>)
    requires
        start <= end <= s@.len(),
    ensures
        r == memory_model_value_spec(s@.subrange(start as int, end as int)),
{
    if match_keyword(s, start, end, "Simple") {
        Some(0)
    } else if match_keyword(s, start, end, "GLSL450") {
        Some(1)
    } else if match_keyword(s, start, end, "OpenCL") {
        Some(2)
    } else {
        None
    }
}

/// The mnemonic of a execution_mode value, if the table knows it.
pub open spec fn execution_mode_name_spec(v: u32) -> Option<Seq<char>> {
    if v == 0 {
        Some("Invocations"@)
    } else if v == 7 {
        Some("OriginUpperLeft"@)
    } else if v == 8 {
        Some("OriginLowerLeft"@)
    } else if v == 12 {
        Some("DepthReplacing"@)
    } else if v == 17 {
        Some("LocalSize"@)
    } else {
        None
    }
}

/// Executable form of `execution_mode_name_spec`.
pub fn execution_mode_name(v: u32) -> (r: Option<&'static str>)
    ensures
        match r {
            Some(s) => execution_mode_name_spec(v) == Some(s@),
            None => execution_mode_name_spec(v) is None,
        },
{
    if v == 0 {
        Some("Invocations")
    } else if v == 7 {
        Some("OriginUpperLeft")
    } else if v == 8 {
        Some("OriginLowerLeft")
    } else if v == 12 {
        Some("DepthReplacing")
    } else if v == 17 {
        Some("LocalSize")
    } else {
        None
    }
}

/// The value a execution_mode mnemonic names, if the table knows it.
pub open spec fn execution_mode_value_spec(n: Seq<char>) -> Option<u32> {
    if n == "Invocations"@ {
        Some(0)
    } else if n == "OriginUpperLeft"@ {
        Some(7)
    } else if n == "OriginLowerLeft"@ {
        Some(8)
    } else if n == "DepthReplacing"@ {
        Some(12)
    } else if n == "LocalSize"@ {
        Some(17)
    } else {
        None
    }
}

/// Executable form of `execution_mode_value_spec` on characters `start..end`.
pub fn execution_mode_value(s: &str, start: usize, end: usize) -> (r: Option<u32>)
    requires
        start <= end <= s@.len(),
    ensures
        r == execution_mode_value_spec(s@.subrange(start as int, end as int)),
{
    if match_keyword(s, start, end, "Invocations") {
        Some(0)
    } else if match_keyword(s, start, end, "OriginUpperLeft") {
        Some(7)
    } else if match_keyword(s, start, end, "OriginLowerLeft") {
        Some(8)
    } else if match_keyword(s, start, end, "DepthReplacing") {
        Some(12)
    } else if match_keyword(s, start, end, "LocalSize") {
        Some(17)
    } else {
        None
    }
}

/// The mnemonic of a storage_class value, if the table knows it.
pub open spec fn storage_class_name_spec(v: u32) -> Option<Seq<char>> {
    if v == 0 {
        Some("UniformConstant"@)
    } else if v == 1 {
        Some("Input"@)
    } else if v == 2 {
        Some("Uniform"@)
    } else if v == 3 {
        Some("Output"@)
    } else if v == 4 {
        Some("Workgroup"@)
    } else if v == 5 {
        Some("CrossWorkgroup"@)
    } else if v == 6 {
        Some("Private"@)
    } else if v == 7 {
        Some("Function"@)
    } else if v == 8 {
        Some("Generic"@)
    } else if v == 9 {
        Some("PushConstant"@)
    } else if v == 10 {
        Some("AtomicCounter"@)
    } else if v == 11 {
        Some("Image"@)
    } else if v == 12 {
        Some("StorageBuffer"@)
    } else {
        None
    }
}

/// Executable form of `storage_class_name_spec`.
pub fn storage_class_name(v: u32) -> (r: Option<&'static str>)
    ensures
        match r {
            Some(s) => storage_class_name_spec(v) == Some(s@),
            None => storage_class_name_spec(v) is None,
        },
{
    if v == 0 {
        Some("UniformConstant")
    } else if v == 1 {
        Some("Input")
    } else if v == 2 {
        Some("Uniform")
    } else if v == 3 {
        Some("Output")
    } else if v == 4 {
        Some("Workgroup")
    } else if v == 5 {
        Some("CrossWorkgroup")
    } else if v == 6 {
        Some("Private")
    } else if v == 7 {
        Some("Function")
    } else if v == 8 {
        Some("Generic")
    } else if v == 9 {
        Some("PushConstant")
    } else if v == 10 {
        Some("AtomicCounter")
    } else if v == 11 {
        Some("Image")
    } else if v == 12 {
        Some("StorageBuffer")
    } else {
        None
    }
}

/// The value a storage_class mnemonic names, if the table knows it.
pub open spec fn storage_class_value_spec(n: Seq<char>) -> Option<u32> {
    if n == "UniformConstant"@ {
        Some(0)
    } else if n == "Input"@ {
        Some(1)
    } else if n == "Uniform"@ {
        Some(2)
    } else if n == "Output"@ {
        Some(3)
    } else if n == "Workgroup"@ {
        Some(4)
    } else if n == "CrossWorkgroup"@ {
        Some(5)
    } else if n == "Private"@ {
        Some(6)
    } else if n == "Function"@ {
        Some(7)
    } else if n == "Generic"@ {
        Some(8)
    } else if n == "PushConstant"@ {
        Some(9)
    } else if n == "AtomicCounter"@ {
        Some(10)
    } else if n == "Image"@ {
        Some(11)
    } else if n == "StorageBuffer"@ {
        Some(12)
    } else {
        None
    }
}

/// Executable form of `storage_class_value_spec` on characters `start..end`.
pub fn storage_class_value(s: &str, start: usize, end: usize) -> (r: Option<u32>)
    requires
        start <= end <= s@.len(),
    ensures
        r == storage_class_value_spec(s@.subrange(start as int, end as int)),
{
    if match_keyword(s, start, end, "UniformConstant") {
        Some(0)
    } else if match_keyword(s, start, end, "Input") {
        Some(1)
    } else if match_keyword(s, start, end, "Uniform") {
        Some(2)
    } else if match_keyword(s, start, end, "Output") {
        Some(3)
    } else if match_keyword(s, start, end, "Workgroup") {
        Some(4)
    } else if match_keyword(s, start, end, "CrossWorkgroup") {
        Some(5)
    } else if match_keyword(s, start, end, "Private") {
        Some(6)
    } else if match_keyword(s, start, end, "Function") {
        Some(7)
    } else if match_keyword(s, start, end, "Generic") {
        Some(8)
    } else if match_keyword(s, start, end, "PushConstant") {
        Some(9)
    } else if match_keyword(s, start, end, "AtomicCounter") {
        Some(10)
    } else if match_keyword(s, start, end, "Image") {
        Some(11)
    } else if match_keyword(s, start, end, "StorageBuffer") {
        Some(12)
    } else {
        None
    }
}

/// The mnemonic of a decoration value, if the table knows it.
pub open spec fn decoration_name_spec(v: u32) -> Option<Seq<char>> {
    if v == 0 {
        Some("RelaxedPrecision"@)
    } else if v == 2 {
        Some("Block"@)
    } else if v == 3 {
        Some("BufferBlock"@)
    } else if v == 4 {
        Some("RowMajor"@)
    } else if v == 5 {
        Some("ColMajor"@)
    } else if v == 6 {
        Some("ArrayStride"@)
    } else if v == 7 {
        Some("MatrixStride"@)
    } else if v == 11 {
        Some("BuiltIn"@)
    } else if v == 13 {
        Some("NoPerspective"@)
    } else if v == 14 {
        Some("Flat"@)
    } else if v == 30 {
        Some("Location"@)
    } else if v == 33 {
        Some("Binding"@)
    } else if v == 34 {
        Some("DescriptorSet"@)
    } else if v == 35 {
        Some("Offset"@)
    } else {
        None
    }
}

/// Executable form of `decoration_name_spec`.
pub fn decoration_name(v: u32) -> (r: Option<&'static str>)
    ensures
        match r {
            Some(s) => decoration_name_spec(v) == Some(s@),
            None => decoration_name_spec(v) is None,
        },
{
    if v == 0 {
        Some("RelaxedPrecision")
    } else if v == 2 {
        Some("Block")
    } else if v == 3 {
        Some("BufferBlock")
    } else if v == 4 {
        Some("RowMajor")
    } else if v == 5 {
        Some("ColMajor")
    } else if v == 6 {
        Some("ArrayStride")
    } else if v == 7 {
        Some("MatrixStride")
    } else if v == 11 {
        Some("BuiltIn")
    } else if v == 13 {
        Some("NoPerspective")
    } else if v == 14 {
        Some("Flat")
    } else if v == 30 {
        Some("Location")
    } else if v == 33 {
        Some("Binding")
    } else if v == 34 {
        Some("DescriptorSet")
    } else if v == 35 {
        Some("Offset")
    } else {
        None
    }
}

/// The value a decoration mnemonic names, if the table knows it.
pub open spec fn decoration_value_spec(n: Seq<char>) -> Option<u32> {
    if n == "RelaxedPrecision"@ {
        Some(0)
    } else if n == "Block"@ {
        Some(2)
    } else if n == "BufferBlock"@ {
        Some(3)
    } else if n == "RowMajor"@ {
        Some(4)
    } else if n == "ColMajor"@ {
        Some(5)
    } else if n == "ArrayStride"@ {
        Some(6)
    } else if n == "MatrixStride"@ {
        Some(7)
    } else if n == "BuiltIn"@ {
        Some(11)
    } else if n == "NoPerspective"@ {
        Some(13)
    } else if n == "Flat"@ {
        Some(14)
    } else if n == "Location"@ {
        Some(30)
    } else if n == "Binding"@ {
        Some(33)
    } else if n == "DescriptorSet"@ {
        Some(34)
    } else if n == "Offset"@ {
        Some(35)
    } else {
        None
    }
}

/// Executable form of `decoration_value_spec` on characters `start..end`.
pub fn decoration_value(s: &str, start: usize, end: usize) -> (r: Option<u32>)
    requires
        start <= end <= s@.len(),
    ensures
        r == decoration_value_spec(s@.subrange(start as int, end as int)),
{
    if match_keyword(s, start, end, "RelaxedPrecision") {
        Some(0)
    } else if match_keyword(s, start, end, "Block") {
        Some(2)
    } else if match_keyword(s, start, end, "BufferBlock") {
        Some(3)
    } else if match_keyword(s, start, end, "RowMajor") {
        Some(4)
    } else if match_keyword(s, start, end, "ColMajor") {
        Some(5)
    } else if match_keyword(s, start, end, "ArrayStride") {
        Some(6)
    } else if match_keyword(s, start, end, "MatrixStride") {
        Some(7)
    } else if match_keyword(s, start, end, "BuiltIn") {
        Some(11)
    } else if match_keyword(s, start, end, "NoPerspective") {
        Some(13)
    } else if match_keyword(s, start, end, "Flat") {
        Some(14)
    } else if match_keyword(s, start, end, "Location") {
        Some(30)
    } else if match_keyword(s, start, end, "Binding") {
        Some(33)
    } else if match_keyword(s, start, end, "DescriptorSet") {
        Some(34)
    } else if match_keyword(s, start, end, "Offset") {
        Some(35)
    } else {
        None
    }
}

/// The mnemonic of a capability value, if the table knows it.
pub open spec fn capability_name_spec(v: u32) -> Option<Seq<char>> {
    if v == 0 {
        Some("Matrix"@)
    } else if v == 1 {
        Some("Shader"@)
    } else if v == 2 {
        Some("Geometry"@)
    } else if v == 3 {
        Some("Tessellation"@)
    } else if v == 4 {
        Some("Addresses"@)
    } else if v == 5 {
        Some("Linkage"@)
    } else if v == 6 {
        Some("Kernel"@)
    } else if v == 9 {
        Some("Float16"@)
    } else if v == 10 {
        Some("Float64"@)
    } else if v == 11 {
        Some("Int64"@)
    } else if v == 22 {
        Some("Int16"@)
    } else {
        None
    }
}

/// Executable form of `capability_name_spec`.
pub fn capability_name(v: u32) -> (r: Option<&'static str>)
    ensures
        match r {
            Some(s) => capability_name_spec(v) == Some(s@),
            None => capability_name_spec(v) is None,
        },
{
    if v == 0 {
        Some("Matrix")
    } else if v == 1 {
        Some("Shader")
    } else if v == 2 {
        Some("Geometry")
    } else if v == 3 {
        Some("Tessellation")
    } else if v == 4 {
        Some("Addresses")
    } else if v == 5 {
        Some("Linkage")
    } else if v == 6 {
        Some("Kernel")
    } else if v == 9 {
        Some("Float16")
    } else if v == 10 {
        Some("Float64")
    } else if v == 11 {
        Some("Int64")
    } else if v == 22 {
        Some("Int16")
    } else {
        None
    }
}

/// The value a capability mnemonic names, if the table knows it.
pub open spec fn capability_value_spec(n: Seq<char>) -> Option<u32> {
    if n == "Matrix"@ {
        Some(0)
    } else if n == "Shader"@ {
        Some(1)
    } else if n == "Geometry"@ {
        Some(2)
    } else if n == "Tessellation"@ {
        Some(3)
    } else if n == "Addresses"@ {
        Some(4)
    } else if n == "Linkage"@ {
        Some(5)
    } else if n == "Kernel"@ {
        Some(6)
    } else if n == "Float16"@ {
        Some(9)
    } else if n == "Float64"@ {
        Some(10)
    } else if n == "Int64"@ {
        Some(11)
    } else if n == "Int16"@ {
        Some(22)
    } else {
        None
    }
}

/// Executable form of `capability_value_spec` on characters `start..end`.
pub fn capability_value(s: &str, start: usize, end: usize) -> (r: Option<u32>)
    requires
        start <= end <= s@.len(),
    ensures
        r == capability_value_spec(s@.subrange(start as int, end as int)),
{
    if match_keyword(s, start, end, "Matrix") {
        Some(0)
    } else if match_keyword(s, start, end, "Shader") {
        Some(1)
    } else if match_keyword(s, start, end, "Geometry") {
        Some(2)
    } else if match_keyword(s, start, end, "Tessellation") {
        Some(3)
    } else if match_keyword(s, start, end, "Addresses") {
        Some(4)
    } else if match_keyword(s, start, end, "Linkage") {
        Some(5)
    } else if match_keyword(s, start, end, "Kernel") {
        Some(6)
    } else if match_keyword(s, start, end, "Float16") {
        Some(9)
    } else if match_keyword(s, start, end, "Float64") {
        Some(10)
    } else if match_keyword(s, start, end, "Int64") {
        Some(11)
    } else if match_keyword(s, start, end, "Int16") {
        Some(22)
    } else {
        None
    }
}

/// The mnemonic of a function_control value, if the table knows it.
pub open spec fn function_control_name_spec(v: u32) -> Option<Seq<char>> {
    if v == 1 {
        Some("Inline"@)
    } else if v == 2 {
        Some("DontInline"@)
    } else if v == 4 {
        Some("Pure"@)
    } else if v == 8 {
        Some("Const"@)
    } else {
        None
    }
}

/// Executable form of `function_control_name_spec`.
pub fn function_control_name(v: u32) -> (r: Option<&'static str>)
    ensures
        match r {
            Some(s) => function_control_name_spec(v) == Some(s@),
            None => function_control_name_spec(v) is None,
        },
{
    if v == 1 {
        Some("Inline")
    } else if v == 2 {
        Some("DontInline")
    } else if v == 4 {
        Some("Pure")
    } else if v == 8 {
        Some("Const")
    } else {
        None
    }
}

/// The value a function_control mnemonic names, if the table knows it.
pub open spec fn function_control_value_spec(n: Seq<char>) -> Option<u32> {
    if n == "Inline"@ {
        Some(1)
    } else if n == "DontInline"@ {
        Some(2)
    } else if n == "Pure"@ {
        Some(4)
    } else if n == "Const"@ {
        Some(8)
    } else {
        None
    }
}

/// Executable form of `function_control_value_spec` on characters `start..end`.
pub fn function_control_value(s: &str, start: usize, end: usize) -> (r: Option<u32>)
    requires
        start <= end <= s@.len(),
    ensures
        r == function_control_value_spec(s@.subrange(start as int, end as int)),
{
    if match_keyword(s, start, end, "Inline") {
        Some(1)
    } else if match_keyword(s, start, end, "DontInline") {
        Some(2)
    } else if match_keyword(s, start, end, "Pure") {
        Some(4)
    } else if match_keyword(s, start, end, "Const") {
        Some(8)
    } else {
        None
    }
}

/// The mnemonic of a selection_control value, if the table knows it.
pub open spec fn selection_control_name_spec(v: u32) -> Option<Seq<char>> {
    if v == 1 {
        Some("Flatten"@)
    } else if v == 2 {
        Some("DontFlatten"@)
    } else {
        None
    }
}

/// Executable form of `selection_control_name_spec`.
pub fn selection_control_name(v: u32) -> (r: Option<&'static str>)
    ensures
        match r {
            Some(s) => selection_control_name_spec(v) == Some(s@),
            None => selection_control_name_spec(v) is None,
        },
{
    if v == 1 {
        Some("Flatten")
    } else if v == 2 {
        Some("DontFlatten")
    } else {
        None
    }
}

/// The value a selection_control mnemonic names, if the table knows it.
pub open spec fn selection_control_value_spec(n: Seq<char>) -> Option<u32> {
    if n == "Flatten"@ {
        Some(1)
    } else if n == "DontFlatten"@ {
        Some(2)
    } else {
        None
    }
}

/// Executable form of `selection_control_value_spec` on characters `start..end`.
pub fn selection_control_value(s: &str, start: usize, end: usize) -> (r: Option<u32>)
    requires
        start <= end <= s@.len(),
    ensures
        r == selection_control_value_spec(s@.subrange(start as int, end as int)),
{
    if match_keyword(s, start, end, "Flatten") {
        Some(1)
    } else if match_keyword(s, start, end, "DontFlatten") {
        Some(2)
    } else {
        None
    }
}

/// The mnemonic of a loop_control value, if the table knows it.
pub open spec fn loop_control_name_spec(v: u32) -> Option<Seq<char>> {
    if v == 1 {
        Some("Unroll"@)
    } else if v == 2 {
        Some("DontUnroll"@)
    } else {
        None
    }
}

/// Executable form of `loop_control_name_spec`.
pub fn loop_control_name(v: u32) -> (r: Option<&'static str>)
    ensures
        match r {
            Some(s) => loop_control_name_spec(v) == Some(s@),
            None => loop_control_name_spec(v) is None,
        },
{
    if v == 1 {
        Some("Unroll")
    } else if v == 2 {
        Some("DontUnroll")
    } else {
        None
    }
}

/// The value a loop_control mnemonic names, if the table knows it.
pub open spec fn loop_control_value_spec(n: Seq<char>) -> Option<u32> {
    if n == "Unroll"@ {
        Some(1)
    } else if n == "DontUnroll"@ {
        Some(2)
    } else {
        None
    }
}

/// Executable form of `loop_control_value_spec` on characters `start..end`.
pub fn loop_control_value(s: &str, start: usize, end: usize) -> (r: Option<u32>)
    requires
        start <= end <= s@.len(),
    ensures
        r == loop_control_value_spec(s@.subrange(start as int, end as int)),
{
    if match_keyword(s, start, end, "Unroll") {
        Some(1)
    } else if match_keyword(s, start, end, "DontUnroll") {
        Some(2)
    } else {
        None
    }
}

/// The mnemonic of a memory_access value, if the table knows it.
pub open spec fn memory_access_name_spec(v: u32) -> Option<Seq<char>> {
    if v == 1 {
        Some("Volatile"@)
    } else if v == 2 {
        Some("Aligned"@)
    } else if v == 4 {
        Some("Nontemporal"@)
    } else {
        None
    }
}

/// Executable form of `memory_access_name_spec`.
pub fn memory_access_name(v: u32) -> (r: Option<&'static str>)
    ensures
        match r {
            Some(s) => memory_access_name_spec(v) == Some(s@),
            None => memory_access_name_spec(v) is None,
        },
{
    if v == 1 {
        Some("Volatile")
    } else if v == 2 {
        Some("Aligned")
    } else if v == 4 {
        Some("Nontemporal")
    } else {
        None
    }
}

/// The value a memory_access mnemonic names, if the table knows it.
pub open spec fn memory_access_value_spec(n: Seq<char>) -> Option<u32> {
    if n == "Volatile"@ {
        Some(1)
    } else if n == "Aligned"@ {
        Some(2)
    } else if n == "Nontemporal"@ {
        Some(4)
    } else {
        None
    }
}

/// Executable form of `memory_access_value_spec` on characters `start..end`.
pub fn memory_access_value(s: &str, start: usize, end: usize) -> (r: Option<u32>)
    requires
        start <= end <= s@.len(),
    ensures
        r == memory_access_value_spec(s@.subrange(start as int, end as int)),
{
    if match_keyword(s, start, end, "Volatile") {
        Some(1)
    } else if match_keyword(s, start, end, "Aligned") {
        Some(2)
    } else if match_keyword(s, start, end, "Nontemporal") {
        Some(4)
    } else {
        None
    }
}

/// The mnemonic of a glsl_ext value, if the table knows it.
pub open spec fn glsl_ext_name_spec(v: u32) -> Option<Seq<char>> {
    if v == 1 {
        Some("Round"@)
    } else if v == 3 {
        Some("Trunc"@)
    } else if v == 4 {
        Some("FAbs"@)
    } else if v == 8 {
        Some("Floor"@)
    } else if v == 9 {
        Some("Ceil"@)
    } else if v == 13 {
        Some("Sin"@)
    } else if v == 14 {
        Some("Cos"@)
    } else if v == 26 {
        Some("Pow"@)
    } else if v == 27 {
        Some("Exp"@)
    } else if v == 28 {
        Some("Log"@)
    } else if v == 31 {
        Some("Sqrt"@)
    } else if v == 32 {
        Some("InverseSqrt"@)
    } else if v == 37 {
        Some("FMin"@)
    } else if v == 40 {
        Some("FMax"@)
    } else if v == 66 {
        Some("Length"@)
    } else if v == 69 {
        Some("Normalize"@)
    } else {
        None
    }
}

/// Executable form of `glsl_ext_name_spec`.
pub fn glsl_ext_name(v: u32) -> (r: Option<&'static str>)
    ensures
        match r {
            Some(s) => glsl_ext_name_spec(v) == Some(s@),
            None => glsl_ext_name_spec(v) is None,
        },
{
    if v == 1 {
        Some("Round")
    } else if v == 3 {
        Some("Trunc")
    } else if v == 4 {
        Some("FAbs")
    } else if v == 8 {
        Some("Floor")
    } else if v == 9 {
        Some("Ceil")
    } else if v == 13 {
        Some("Sin")
    } else if v == 14 {
        Some("Cos")
    } else if v == 26 {
        Some("Pow")
    } else if v == 27 {
        Some("Exp")
    } else if v == 28 {
        Some("Log")
    } else if v == 31 {
        Some("Sqrt")
    } else if v == 32 {
        Some("InverseSqrt")
    } else if v == 37 {
        Some("FMin")
    } else if v == 40 {
        Some("FMax")
    } else if v == 66 {
        Some("Length")
    } else if v == 69 {
        Some("Normalize")
    } else {
        None
    }
}

/// The value a glsl_ext mnemonic names, if the table knows it.
pub open spec fn glsl_ext_value_spec(n: Seq<char>) -> Option<u32> {
    if n == "Round"@ {
        Some(1)
    } else if n == "Trunc"@ {
        Some(3)
    } else if n == "FAbs"@ {
        Some(4)
    } else if n == "Floor"@ {
        Some(8)
    } else if n == "Ceil"@ {
        Some(9)
    } else if n == "Sin"@ {
        Some(13)
    } else if n == "Cos"@ {
        Some(14)
    } else if n == "Pow"@ {
        Some(26)
    } else if n == "Exp"@ {
        Some(27)
    } else if n == "Log"@ {
        Some(28)
    } else if n == "Sqrt"@ {
        Some(31)
    } else if n == "InverseSqrt"@ {
        Some(32)
    } else if n == "FMin"@ {
        Some(37)
    } else if n == "FMax"@ {
        Some(40)
    } else if n == "Length"@ {
        Some(66)
    } else if n == "Normalize"@ {
        Some(69)
    } else {
        None
    }
}

/// Executable form of `glsl_ext_value_spec` on characters `start..end`.
pub fn glsl_ext_value(s: &str, start: usize, end: usize) -> (r: Option<u32>)
    requires
        start <= end <= s@.len(),
    ensures
        r == glsl_ext_value_spec(s@.subrange(start as int, end as int)),
{
    if match_keyword(s, start, end, "Round") {
        Some(1)
    } else if match_keyword(s, start, end, "Trunc") {
        Some(3)
    } else if match_keyword(s, start, end, "FAbs") {
        Some(4)
    } else if match_keyword(s, start, end, "Floor") {
        Some(8)
    } else if match_keyword(s, start, end, "Ceil") {
        Some(9)
    } else if match_keyword(s, start, end, "Sin") {
        Some(13)
    } else if match_keyword(s, start, end, "Cos") {
        Some(14)
    } else if match_keyword(s, start, end, "Pow") {
        Some(26)
    } else if match_keyword(s, start, end, "Exp") {
        Some(27)
    } else if match_keyword(s, start, end, "Log") {
        Some(28)
    } else if match_keyword(s, start, end, "Sqrt") {
        Some(31)
    } else if match_keyword(s, start, end, "InverseSqrt") {
        Some(32)
    } else if match_keyword(s, start, end, "FMin") {
        Some(37)
    } else if match_keyword(s, start, end, "FMax") {
        Some(40)
    } else if match_keyword(s, start, end, "Length") {
        Some(66)
    } else if match_keyword(s, start, end, "Normalize") {
        Some(69)
    } else {
        None
    }
}

/// The mnemonic of an enumerated operand value, by its class.
pub open spec fn enum_name_spec(kind: EnumKind, v: u32) -> Option<Seq<char>> {
    match kind {
        EnumKind::SourceLanguage => source_language_name_spec(v),
        EnumKind::ExecutionModel => execution_model_name_spec(v),
        EnumKind::AddressingModel => addressing_model_name_spec(v),
        EnumKind::MemoryModel => memory_model_name_spec(v),
        EnumKind::ExecutionMode => execution_mode_name_spec(v),
        EnumKind::StorageClass => storage_class_name_spec(v),
        EnumKind::Decoration => decoration_name_spec(v),
        EnumKind::Capability => capability_name_spec(v),
    }
}

/// Executable form of `enum_name_spec`.
pub fn enum_name(kind: EnumKind, v: u32) -> (r: Option<&'static str>)
    ensures
        match r {
            Some(s) => enum_name_spec(kind, v) == Some(s@),
            None => enum_name_spec(kind, v) is None,
        },
{
    match kind {
        EnumKind::SourceLanguage => source_language_name(v),
        EnumKind::ExecutionModel => execution_model_name(v),
        EnumKind::AddressingModel => addressing_model_name(v),
        EnumKind::MemoryModel => memory_model_name(v),
        EnumKind::ExecutionMode => execution_mode_name(v),
        EnumKind::StorageClass => storage_class_name(v),
        EnumKind::Decoration => decoration_name(v),
        EnumKind::Capability => capability_name(v),
    }
}

/// The value an enumerated operand mnemonic names, by its class.
pub open spec fn enum_value_spec(kind: EnumKind, n: Seq<char>) -> Option<u32> {
    match kind {
        EnumKind::SourceLanguage => source_language_value_spec(n),
        EnumKind::ExecutionModel => execution_model_value_spec(n),
        EnumKind::AddressingModel => addressing_model_value_spec(n),
        EnumKind::MemoryModel => memory_model_value_spec(n),
        EnumKind::ExecutionMode => execution_mode_value_spec(n),
        EnumKind::StorageClass => storage_class_value_spec(n),
        EnumKind::Decoration => decoration_value_spec(n),
        EnumKind::Capability => capability_value_spec(n),
    }
}

/// Executable form of `enum_value_spec` on characters `start..end`.
pub fn enum_value(kind: EnumKind, s: &str, start: usize, end: usize) -> (r: Option<u32>)
    requires
        start <= end <= s@.len(),
    ensures
        r == enum_value_spec(kind, s@.subrange(start as int, end as int)),
{
    match kind {
        EnumKind::SourceLanguage => source_language_value(s, start, end),
        EnumKind::ExecutionModel => execution_model_value(s, start, end),
        EnumKind::AddressingModel => addressing_model_value(s, start, end),
        EnumKind::MemoryModel => memory_model_value(s, start, end),
        EnumKind::ExecutionMode => execution_mode_value(s, start, end),
        EnumKind::StorageClass => storage_class_value(s, start, end),
        EnumKind::Decoration => decoration_value(s, start, end),
        EnumKind::Capability => capability_value(s, start, end),
    }
}

/// The mnemonic of a single-bit mask value, by its class.
pub open spec fn mask_name_spec(kind: MaskKind, v: u32) -> Option<Seq<char>> {
    match kind {
        MaskKind::FunctionControl => function_control_name_spec(v),
        MaskKind::SelectionControl => selection_control_name_spec(v),
        MaskKind::LoopControl => loop_control_name_spec(v),
        MaskKind::MemoryAccess => memory_access_name_spec(v),
    }
}

/// Executable form of `mask_name_spec`.
pub fn mask_name(kind: MaskKind, v: u32) -> (r: Option<&'static str>)
    ensures
        match r {
            Some(s) => mask_name_spec(kind, v) == Some(s@),
            None => mask_name_spec(kind, v) is None,
        },
{
    match kind {
        MaskKind::FunctionControl => function_control_name(v),
        MaskKind::SelectionControl => selection_control_name(v),
        MaskKind::LoopControl => loop_control_name(v),
        MaskKind::MemoryAccess => memory_access_name(v),
    }
}

/// The value a mask mnemonic names, by its class.
pub open spec fn mask_value_spec(kind: MaskKind, n: Seq<char>) -> Option<u32> {
    match kind {
        MaskKind::FunctionControl => function_control_value_spec(n),
        MaskKind::SelectionControl => selection_control_value_spec(n),
        MaskKind::LoopControl => loop_control_value_spec(n),
        MaskKind::MemoryAccess => memory_access_value_spec(n),
    }
}

/// Executable form of `mask_value_spec` on characters `start..end`.
pub fn mask_value(kind: MaskKind, s: &str, start: usize, end: usize) -> (r: Option<u32>)
    requires
        start <= end <= s@.len(),
    ensures
        r == mask_value_spec(kind, s@.subrange(start as int, end as int)),
{
    match kind {
        MaskKind::FunctionControl => function_control_value(s, start, end),
        MaskKind::SelectionControl => selection_control_value(s, start, end),
        MaskKind::LoopControl => loop_control_value(s, start, end),
        MaskKind::MemoryAccess => memory_access_value(s, start, end),
    }
}

} // verus!
