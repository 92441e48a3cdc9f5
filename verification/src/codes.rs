//! Numeric code values shared with the standard SPIR-V toolkit interface:
//! result codes, target-environment codes, validator-limit selectors and
//! literal-number classes, so diagnostics and configuration interoperate
//! with tooling that speaks those codes.

#![allow(non_camel_case_types)]

use vstd::prelude::*;

verus! {

/// A result code of the standard toolkit interface: zero for success, and
/// the negated error numbers (invalid binary -4, invalid text -5, invalid
/// identifier -10, invalid control flow -11, invalid layout -12, invalid
/// value -7).
#[derive(Clone, Copy, PartialEq, Eq, Structural, Debug)]
pub struct spv_result_t(pub i32);

/// A target-environment code of the standard toolkit interface, counted in
/// its declaration order: universal 1.0 is zero, Vulkan 1.0 is one, and so
/// on up to the provisional web target at nineteen.
#[derive(Clone, Copy, PartialEq, Eq, Structural, Debug)]
pub struct spv_target_env(pub u32);

/// A validator-limit selector of the standard toolkit interface: struct
/// members, struct depth, local variables, global variables, switch
/// branches, function arguments, control-flow nesting depth, access-chain
/// indexes and the identifier bound, in that order from zero.
#[derive(Clone, Copy, PartialEq, Eq, Structural, Debug)]
pub struct spv_validator_limit(pub u32);

/// The class of a binary-encoded literal number: none, unsigned integer,
/// signed integer or floating point, in that order from zero.
#[derive(Clone, Copy, PartialEq, Eq, Structural, Debug)]
pub struct spv_number_kind_t(pub u32);

impl crate::inst::ErrorKind {
    /// The classic result code of this error kind.
    pub fn code(&self) -> (r: spv_result_t)
        ensures
            r == error_code_of(*self),
    {
        match self {
            crate::inst::ErrorKind::MalformedHeader => spv_result_t(-4i32),
            crate::inst::ErrorKind::TruncatedInstruction => spv_result_t(-4i32),
            crate::inst::ErrorKind::UnknownOpcode => spv_result_t(-4i32),
            crate::inst::ErrorKind::UnresolvedTypeWidth => spv_result_t(-4i32),
            crate::inst::ErrorKind::IdBoundExceeded => spv_result_t(-10i32),
            crate::inst::ErrorKind::UndefinedIdUse => spv_result_t(-10i32),
            crate::inst::ErrorKind::DuplicateIdDefinition => spv_result_t(-10i32),
            crate::inst::ErrorKind::StructuralOrderViolation => spv_result_t(-12i32),
            crate::inst::ErrorKind::UnterminatedBlock => spv_result_t(-11i32),
            crate::inst::ErrorKind::ParseSyntaxError => spv_result_t(-5i32),
            crate::inst::ErrorKind::InvalidLiteralString => spv_result_t(-4i32),
            crate::inst::ErrorKind::LimitExceeded => spv_result_t(-7i32),
        }
    }
}

/// The classic result code of each error kind: invalid binary, invalid
/// text, invalid identifier, invalid control flow, invalid layout, or
/// invalid value.
pub open spec fn error_code_of(k: crate::inst::ErrorKind) -> spv_result_t {
    match k {
        crate::inst::ErrorKind::MalformedHeader => spv_result_t(-4i32),
        crate::inst::ErrorKind::TruncatedInstruction => spv_result_t(-4i32),
        crate::inst::ErrorKind::UnknownOpcode => spv_result_t(-4i32),
        crate::inst::ErrorKind::UnresolvedTypeWidth => spv_result_t(-4i32),
        crate::inst::ErrorKind::IdBoundExceeded => spv_result_t(-10i32),
        crate::inst::ErrorKind::UndefinedIdUse => spv_result_t(-10i32),
        crate::inst::ErrorKind::DuplicateIdDefinition => spv_result_t(-10i32),
        crate::inst::ErrorKind::StructuralOrderViolation => spv_result_t(-12i32),
        crate::inst::ErrorKind::UnterminatedBlock => spv_result_t(-11i32),
        crate::inst::ErrorKind::ParseSyntaxError => spv_result_t(-5i32),
        crate::inst::ErrorKind::InvalidLiteralString => spv_result_t(-4i32),
        crate::inst::ErrorKind::LimitExceeded => spv_result_t(-7i32),
    }
}

impl crate::inst::NumType {
    /// The classic number-kind code of this numeric class.
    pub fn kind_code(&self) -> (r: spv_number_kind_t)
        ensures
            r == (if self.floating {
                spv_number_kind_t(3)
            } else if self.signed {
                spv_number_kind_t(2)
            } else {
                spv_number_kind_t(1)
            }),
    {
        if self.floating {
            spv_number_kind_t(3)
        } else if self.signed {
            spv_number_kind_t(2)
        } else {
            spv_number_kind_t(1)
        }
    }
}

} // verus!
