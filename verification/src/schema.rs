//! The operand schema table: for each supported opcode, the ordered operand
//! kinds of its instruction layout.  The table is a linear grammar: required
//! kinds first, then at most one optional or variable (zero-or-more) kind,
//! always last, so decoding is never ambiguous.
//!
//! Opcodes outside the table are not a decoding error by themselves: in
//! permissive mode their operand words round-trip as raw literal words, and
//! only strict mode reports them as unknown.

use vstd::prelude::*;

verus! {

/// Classes of single-word enumerated operands.
#[derive(Clone, Copy, PartialEq, Eq, Structural, Debug)]
pub enum EnumKind {
    SourceLanguage,
    ExecutionModel,
    AddressingModel,
    MemoryModel,
    ExecutionMode,
    StorageClass,
    Decoration,
    Capability,
}

/// Classes of single-word bitmask operands.
#[derive(Clone, Copy, PartialEq, Eq, Structural, Debug)]
pub enum MaskKind {
    FunctionControl,
    SelectionControl,
    LoopControl,
    MemoryAccess,
}

/// One operand-kind descriptor of an opcode's schema.
#[derive(Clone, Copy, PartialEq, Eq, Structural, Debug)]
pub enum OperandKind {
    /// A reference to an identifier.
    Id,
    /// A one-word unsigned literal integer.
    LitInt,
    /// A literal number whose width and numeric class come from the
    /// instruction's result type (a preceding operand of the instruction).
    TypedLit,
    /// A nul-terminated literal string packed into words.
    LitString,
    /// A one-word enumerated value.
    En(EnumKind),
    /// A one-word bitmask.
    Ma(MaskKind),
    /// The instruction number selecting from an extended instruction set.
    ExtOpcode,
}

/// What follows the required operand kinds: nothing, one optional kind, or
/// zero or more repetitions of one kind.
#[derive(Clone, Copy, PartialEq, Eq, Structural, Debug)]
pub enum Tail {
    NoTail,
    Optional(OperandKind),
    Variable(OperandKind),
}

/// An opcode's schema: whether the instruction carries a result type and a
/// result identifier, the required operand kinds that follow them, and the
/// optional or variable tail.
pub struct OpSchema {
    pub has_result_type: bool,
    pub has_result: bool,
    pub kinds: Vec<OperandKind>,
    pub tail: Tail,
}

/// Mathematical form of a schema.
#[verifier::ext_equal]
pub struct SchemaV {
    pub has_result_type: bool,
    pub has_result: bool,
    pub kinds: Seq<OperandKind>,
    pub tail: Tail,
}

impl View for OpSchema {
    type V = SchemaV;

    open spec fn view(&self) -> SchemaV {
        SchemaV {
            has_result_type: self.has_result_type,
            has_result: self.has_result,
            kinds: self.kinds@,
            tail: self.tail,
        }
    }
}

pub const OP_NOP: u16 = 0;
pub const OP_UNDEF: u16 = 1;
pub const OP_SOURCE: u16 = 3;
pub const OP_NAME: u16 = 5;
pub const OP_MEMBER_NAME: u16 = 6;
pub const OP_EXT_INST_IMPORT: u16 = 11;
pub const OP_EXT_INST: u16 = 12;
pub const OP_MEMORY_MODEL: u16 = 14;
pub const OP_ENTRY_POINT: u16 = 15;
pub const OP_EXECUTION_MODE: u16 = 16;
pub const OP_CAPABILITY: u16 = 17;
pub const OP_TYPE_VOID: u16 = 19;
pub const OP_TYPE_BOOL: u16 = 20;
pub const OP_TYPE_INT: u16 = 21;
pub const OP_TYPE_FLOAT: u16 = 22;
pub const OP_TYPE_VECTOR: u16 = 23;
pub const OP_TYPE_ARRAY: u16 = 28;
pub const OP_TYPE_STRUCT: u16 = 30;
pub const OP_TYPE_POINTER: u16 = 32;
pub const OP_TYPE_FUNCTION: u16 = 33;
pub const OP_TYPE_FORWARD_POINTER: u16 = 39;
pub const OP_CONSTANT_TRUE: u16 = 41;
pub const OP_CONSTANT_FALSE: u16 = 42;
pub const OP_CONSTANT: u16 = 43;
pub const OP_CONSTANT_COMPOSITE: u16 = 44;
pub const OP_FUNCTION: u16 = 54;
pub const OP_FUNCTION_PARAMETER: u16 = 55;
pub const OP_FUNCTION_END: u16 = 56;
pub const OP_FUNCTION_CALL: u16 = 57;
pub const OP_VARIABLE: u16 = 59;
pub const OP_LOAD: u16 = 61;
pub const OP_STORE: u16 = 62;
pub const OP_ACCESS_CHAIN: u16 = 65;
pub const OP_DECORATE: u16 = 71;
pub const OP_MEMBER_DECORATE: u16 = 72;
pub const OP_IADD: u16 = 128;
pub const OP_FADD: u16 = 129;
pub const OP_FMUL: u16 = 133;
pub const OP_INOT_EQUAL: u16 = 171;
pub const OP_SLESS_THAN: u16 = 177;
pub const OP_PHI: u16 = 245;
pub const OP_LOOP_MERGE: u16 = 246;
pub const OP_SELECTION_MERGE: u16 = 247;
pub const OP_LABEL: u16 = 248;
pub const OP_BRANCH: u16 = 249;
pub const OP_BRANCH_CONDITIONAL: u16 = 250;
pub const OP_RETURN: u16 = 253;
pub const OP_RETURN_VALUE: u16 = 254;
pub const OP_UNREACHABLE: u16 = 255;

/// Schema constructor shorthand for the table below.
pub open spec fn sch(
    has_result_type: bool,
    has_result: bool,
    kinds: Seq<OperandKind>,
    tail: Tail,
) -> SchemaV {
    SchemaV { has_result_type, has_result, kinds, tail }
}

/// The schema of `opcode`, or `None` for an opcode outside the table.
pub open spec fn schema_of(opcode: u16) -> Option<SchemaV> {
    let i = OperandKind::Id;
    let l = OperandKind::LitInt;
    let s = OperandKind::LitString;
    if opcode == OP_NOP {
        Some(sch(false, false, seq![], Tail::NoTail))
    } else if opcode == OP_UNDEF {
        Some(sch(true, true, seq![], Tail::NoTail))
    } else if opcode == OP_SOURCE {
        Some(
            sch(
                false,
                false,
                seq![OperandKind::En(EnumKind::SourceLanguage), l],
                Tail::Optional(i),
            ),
        )
    } else if opcode == OP_NAME {
        Some(sch(false, false, seq![i, s], Tail::NoTail))
    } else if opcode == OP_MEMBER_NAME {
        Some(sch(false, false, seq![i, l, s], Tail::NoTail))
    } else if opcode == OP_EXT_INST_IMPORT {
        Some(sch(false, true, seq![s], Tail::NoTail))
    } else if opcode == OP_EXT_INST {
        Some(sch(true, true, seq![i, OperandKind::ExtOpcode], Tail::Variable(i)))
    } else if opcode == OP_MEMORY_MODEL {
        Some(
            sch(
                false,
                false,
                seq![
                    OperandKind::En(EnumKind::AddressingModel),
                    OperandKind::En(EnumKind::MemoryModel),
                ],
                Tail::NoTail,
            ),
        )
    } else if opcode == OP_ENTRY_POINT {
        Some(
            sch(
                false,
                false,
                seq![OperandKind::En(EnumKind::ExecutionModel), i, s],
                Tail::Variable(i),
            ),
        )
    } else if opcode == OP_EXECUTION_MODE {
        Some(
            sch(
                false,
                false,
                seq![i, OperandKind::En(EnumKind::ExecutionMode)],
                Tail::Variable(l),
            ),
        )
    } else if opcode == OP_CAPABILITY {
        Some(sch(false, false, seq![OperandKind::En(EnumKind::Capability)], Tail::NoTail))
    } else if opcode == OP_TYPE_VOID {
        Some(sch(false, true, seq![], Tail::NoTail))
    } else if opcode == OP_TYPE_BOOL {
        Some(sch(false, true, seq![], Tail::NoTail))
    } else if opcode == OP_TYPE_INT {
        Some(sch(false, true, seq![l, l], Tail::NoTail))
    } else if opcode == OP_TYPE_FLOAT {
        Some(sch(false, true, seq![l], Tail::NoTail))
    } else if opcode == OP_TYPE_VECTOR {
        Some(sch(false, true, seq![i, l], Tail::NoTail))
    } else if opcode == OP_TYPE_ARRAY {
        Some(sch(false, true, seq![i, i], Tail::NoTail))
    } else if opcode == OP_TYPE_STRUCT {
        Some(sch(false, true, seq![], Tail::Variable(i)))
    } else if opcode == OP_TYPE_POINTER {
        Some(sch(false, true, seq![OperandKind::En(EnumKind::StorageClass), i], Tail::NoTail))
    } else if opcode == OP_TYPE_FUNCTION {
        Some(sch(false, true, seq![i], Tail::Variable(i)))
    } else if opcode == OP_TYPE_FORWARD_POINTER {
        Some(sch(false, false, seq![i, OperandKind::En(EnumKind::StorageClass)], Tail::NoTail))
    } else if opcode == OP_CONSTANT_TRUE {
        Some(sch(true, true, seq![], Tail::NoTail))
    } else if opcode == OP_CONSTANT_FALSE {
        Some(sch(true, true, seq![], Tail::NoTail))
    } else if opcode == OP_CONSTANT {
        Some(sch(true, true, seq![OperandKind::TypedLit], Tail::NoTail))
    } else if opcode == OP_CONSTANT_COMPOSITE {
        Some(sch(true, true, seq![], Tail::Variable(i)))
    } else if opcode == OP_FUNCTION {
        Some(sch(true, true, seq![OperandKind::Ma(MaskKind::FunctionControl), i], Tail::NoTail))
    } else if opcode == OP_FUNCTION_PARAMETER {
        Some(sch(true, true, seq![], Tail::NoTail))
    } else if opcode == OP_FUNCTION_END {
        Some(sch(false, false, seq![], Tail::NoTail))
    } else if opcode == OP_FUNCTION_CALL {
        Some(sch(true, true, seq![i], Tail::Variable(i)))
    } else if opcode == OP_VARIABLE {
        Some(sch(true, true, seq![OperandKind::En(EnumKind::StorageClass)], Tail::Optional(i)))
    } else if opcode == OP_LOAD {
        Some(
            sch(true, true, seq![i], Tail::Optional(OperandKind::Ma(MaskKind::MemoryAccess))),
        )
    } else if opcode == OP_STORE {
        Some(
            sch(
                false,
                false,
                seq![i, i],
                Tail::Optional(OperandKind::Ma(MaskKind::MemoryAccess)),
            ),
        )
    } else if opcode == OP_ACCESS_CHAIN {
        Some(sch(true, true, seq![i], Tail::Variable(i)))
    } else if opcode == OP_DECORATE {
        Some(
            sch(false, false, seq![i, OperandKind::En(EnumKind::Decoration)], Tail::Variable(l)),
        )
    } else if opcode == OP_MEMBER_DECORATE {
        Some(
            sch(
                false,
                false,
                seq![i, l, OperandKind::En(EnumKind::Decoration)],
                Tail::Variable(l),
            ),
        )
    } else if opcode == OP_IADD || opcode == OP_FADD || opcode == OP_FMUL || opcode
        == OP_INOT_EQUAL || opcode == OP_SLESS_THAN {
        Some(sch(true, true, seq![i, i], Tail::NoTail))
    } else if opcode == OP_PHI {
        Some(sch(true, true, seq![], Tail::Variable(i)))
    } else if opcode == OP_LOOP_MERGE {
        Some(
            sch(false, false, seq![i, i, OperandKind::Ma(MaskKind::LoopControl)], Tail::NoTail),
        )
    } else if opcode == OP_SELECTION_MERGE {
        Some(
            sch(false, false, seq![i, OperandKind::Ma(MaskKind::SelectionControl)], Tail::NoTail),
        )
    } else if opcode == OP_LABEL {
        Some(sch(false, true, seq![], Tail::NoTail))
    } else if opcode == OP_BRANCH {
        Some(sch(false, false, seq![i], Tail::NoTail))
    } else if opcode == OP_BRANCH_CONDITIONAL {
        Some(sch(false, false, seq![i, i, i], Tail::Variable(l)))
    } else if opcode == OP_RETURN {
        Some(sch(false, false, seq![], Tail::NoTail))
    } else if opcode == OP_RETURN_VALUE {
        Some(sch(false, false, seq![i], Tail::NoTail))
    } else if opcode == OP_UNREACHABLE {
        Some(sch(false, false, seq![], Tail::NoTail))
    } else {
        None
    }
}

/// The schema of `opcode`, or `None` for an opcode outside the table.
pub fn schema_for(opcode: u16) -> (r: Option<OpSchema>)
    ensures
        match r {
            Some(s) => schema_of(opcode) == Some(s@),
            None => schema_of(opcode) is None,
        },
{
    let i = OperandKind::Id;
    let l = OperandKind::LitInt;
    let s = OperandKind::LitString;
    let entry: Option<(bool, bool, Vec<OperandKind>, Tail)> = if opcode == OP_NOP {
        Some((false, false, Vec::new(), Tail::NoTail))
    } else if opcode == OP_UNDEF {
        Some((true, true, Vec::new(), Tail::NoTail))
    } else if opcode == OP_SOURCE {
        Some(
            (false, false, vec![OperandKind::En(EnumKind::SourceLanguage), l], Tail::Optional(i)),
        )
    } else if opcode == OP_NAME {
        Some((false, false, vec![i, s], Tail::NoTail))
    } else if opcode == OP_MEMBER_NAME {
        Some((false, false, vec![i, l, s], Tail::NoTail))
    } else if opcode == OP_EXT_INST_IMPORT {
        Some((false, true, vec![s], Tail::NoTail))
    } else if opcode == OP_EXT_INST {
        Some((true, true, vec![i, OperandKind::ExtOpcode], Tail::Variable(i)))
    } else if opcode == OP_MEMORY_MODEL {
        Some(
            (
                false,
                false,
                vec![
                    OperandKind::En(EnumKind::AddressingModel),
                    OperandKind::En(EnumKind::MemoryModel),
                ],
                Tail::NoTail,
            ),
        )
    } else if opcode == OP_ENTRY_POINT {
        Some(
            (false, false, vec![OperandKind::En(EnumKind::ExecutionModel), i, s], Tail::Variable(i)),
        )
    } else if opcode == OP_EXECUTION_MODE {
        Some((false, false, vec![i, OperandKind::En(EnumKind::ExecutionMode)], Tail::Variable(l)))
    } else if opcode == OP_CAPABILITY {
        Some((false, false, vec![OperandKind::En(EnumKind::Capability)], Tail::NoTail))
    } else if opcode == OP_TYPE_VOID {
        Some((false, true, Vec::new(), Tail::NoTail))
    } else if opcode == OP_TYPE_BOOL {
        Some((false, true, Vec::new(), Tail::NoTail))
    } else if opcode == OP_TYPE_INT {
        Some((false, true, vec![l, l], Tail::NoTail))
    } else if opcode == OP_TYPE_FLOAT {
        Some((false, true, vec![l], Tail::NoTail))
    } else if opcode == OP_TYPE_VECTOR {
        Some((false, true, vec![i, l], Tail::NoTail))
    } else if opcode == OP_TYPE_ARRAY {
        Some((false, true, vec![i, i], Tail::NoTail))
    } else if opcode == OP_TYPE_STRUCT {
        Some((false, true, Vec::new(), Tail::Variable(i)))
    } else if opcode == OP_TYPE_POINTER {
        Some((false, true, vec![OperandKind::En(EnumKind::StorageClass), i], Tail::NoTail))
    } else if opcode == OP_TYPE_FUNCTION {
        Some((false, true, vec![i], Tail::Variable(i)))
    } else if opcode == OP_TYPE_FORWARD_POINTER {
        Some((false, false, vec![i, OperandKind::En(EnumKind::StorageClass)], Tail::NoTail))
    } else if opcode == OP_CONSTANT_TRUE {
        Some((true, true, Vec::new(), Tail::NoTail))
    } else if opcode == OP_CONSTANT_FALSE {
        Some((true, true, Vec::new(), Tail::NoTail))
    } else if opcode == OP_CONSTANT {
        Some((true, true, vec![OperandKind::TypedLit], Tail::NoTail))
    } else if opcode == OP_CONSTANT_COMPOSITE {
        Some((true, true, Vec::new(), Tail::Variable(i)))
    } else if opcode == OP_FUNCTION {
        Some((true, true, vec![OperandKind::Ma(MaskKind::FunctionControl), i], Tail::NoTail))
    } else if opcode == OP_FUNCTION_PARAMETER {
        Some((true, true, Vec::new(), Tail::NoTail))
    } else if opcode == OP_FUNCTION_END {
        Some((false, false, Vec::new(), Tail::NoTail))
    } else if opcode == OP_FUNCTION_CALL {
        Some((true, true, vec![i], Tail::Variable(i)))
    } else if opcode == OP_VARIABLE {
        Some((true, true, vec![OperandKind::En(EnumKind::StorageClass)], Tail::Optional(i)))
    } else if opcode == OP_LOAD {
        Some((true, true, vec![i], Tail::Optional(OperandKind::Ma(MaskKind::MemoryAccess))))
    } else if opcode == OP_STORE {
        Some((false, false, vec![i, i], Tail::Optional(OperandKind::Ma(MaskKind::MemoryAccess))))
    } else if opcode == OP_ACCESS_CHAIN {
        Some((true, true, vec![i], Tail::Variable(i)))
    } else if opcode == OP_DECORATE {
        Some((false, false, vec![i, OperandKind::En(EnumKind::Decoration)], Tail::Variable(l)))
    } else if opcode == OP_MEMBER_DECORATE {
        Some(
            (false, false, vec![i, l, OperandKind::En(EnumKind::Decoration)], Tail::Variable(l)),
        )
    } else if opcode == OP_IADD || opcode == OP_FADD || opcode == OP_FMUL || opcode
        == OP_INOT_EQUAL || opcode == OP_SLESS_THAN {
        Some((true, true, vec![i, i], Tail::NoTail))
    } else if opcode == OP_PHI {
        Some((true, true, Vec::new(), Tail::Variable(i)))
    } else if opcode == OP_LOOP_MERGE {
        Some((false, false, vec![i, i, OperandKind::Ma(MaskKind::LoopControl)], Tail::NoTail))
    } else if opcode == OP_SELECTION_MERGE {
        Some(
            (false, false, vec![i, OperandKind::Ma(MaskKind::SelectionControl)], Tail::NoTail),
        )
    } else if opcode == OP_LABEL {
        Some((false, true, Vec::new(), Tail::NoTail))
    } else if opcode == OP_BRANCH {
        Some((false, false, vec![i], Tail::NoTail))
    } else if opcode == OP_BRANCH_CONDITIONAL {
        Some((false, false, vec![i, i, i], Tail::Variable(l)))
    } else if opcode == OP_RETURN {
        Some((false, false, Vec::new(), Tail::NoTail))
    } else if opcode == OP_RETURN_VALUE {
        Some((false, false, vec![i], Tail::NoTail))
    } else if opcode == OP_UNREACHABLE {
        Some((false, false, Vec::new(), Tail::NoTail))
    } else {
        None
    };
    match entry {
        Some((has_result_type, has_result, kinds, tail)) => {
            let r = OpSchema { has_result_type, has_result, kinds, tail };
            proof {
                assert(schema_of(opcode) matches Some(sv) && r@.kinds =~= sv.kinds);
                assert(r@ =~= schema_of(opcode)->Some_0);
            }
            Some(r)
        },
        None => None,
    }
}

} // verus!
