//! The structured form of a module: header, instructions and operands,
//! together with their mathematical views, the well-formedness predicates
//! that the codec preserves, and the error taxonomy shared by all four
//! operations.

use vstd::prelude::*;

use crate::schema::{schema_of, EnumKind, MaskKind, OperandKind, SchemaV, Tail};
use vstd::utf8::encode_utf8;

verus! {

/// The magic number of the binary format, word 0 of every module.
pub const MAGIC: u32 = 0x07230203;

/// The universal limit on the identifier bound.
pub const DEFAULT_MAX_ID_BOUND: u32 = 0x3FFFFF;

/// The numeric class of a scalar numeric type: needed to decode a typed
/// literal whose layout depends on the instruction's result type.
#[derive(Clone, Copy, PartialEq, Eq, Structural, Debug)]
pub struct NumType {
    pub floating: bool,
    pub width: u32,
    pub signed: bool,
}

/// One operand of an instruction.
#[allow(inconsistent_fields)]
pub enum Operand {
    /// A reference to an identifier.
    Id(u32),
    /// A literal integer.  `value` holds the encoded bit pattern,
    /// least-significant-word first and zero-extended; `width` and `signed`
    /// record the declared type for rendering.
    LiteralInt { value: u64, width: u32, signed: bool },
    /// A literal floating-point number, kept as its encoded bit pattern.
    LiteralFloat { bits: u64, width: u32 },
    /// A literal string, nul-terminated and word-packed on the wire.
    LiteralString(String),
    /// A single-word enumerated value.
    Enumerated { kind: EnumKind, value: u32 },
    /// A single-word bitmask.
    Mask { kind: MaskKind, value: u32 },
}

/// Mathematical form of an operand.
#[allow(inconsistent_fields)]
pub enum OperandV {
    Id(u32),
    LiteralInt { value: u64, width: u32, signed: bool },
    LiteralFloat { bits: u64, width: u32 },
    LiteralString(Seq<char>),
    Enumerated { kind: EnumKind, value: u32 },
    Mask { kind: MaskKind, value: u32 },
}

impl View for Operand {
    type V = OperandV;

    open spec fn view(&self) -> OperandV {
        match self {
            Operand::Id(x) => OperandV::Id(*x),
            Operand::LiteralInt { value, width, signed } => OperandV::LiteralInt {
                value: *value,
                width: *width,
                signed: *signed,
            },
            Operand::LiteralFloat { bits, width } => OperandV::LiteralFloat {
                bits: *bits,
                width: *width,
            },
            Operand::LiteralString(s) => OperandV::LiteralString(s@),
            Operand::Enumerated { kind, value } => OperandV::Enumerated {
                kind: *kind,
                value: *value,
            },
            Operand::Mask { kind, value } => OperandV::Mask { kind: *kind, value: *value },
        }
    }
}

impl Clone for Operand {
    fn clone(&self) -> (r: Self)
        ensures
            r@ == self@,
    {
        match self {
            Operand::Id(x) => Operand::Id(*x),
            Operand::LiteralInt { value, width, signed } => Operand::LiteralInt {
                value: *value,
                width: *width,
                signed: *signed,
            },
            Operand::LiteralFloat { bits, width } => Operand::LiteralFloat {
                bits: *bits,
                width: *width,
            },
            Operand::LiteralString(s) => Operand::LiteralString(s.clone()),
            Operand::Enumerated { kind, value } => Operand::Enumerated {
                kind: *kind,
                value: *value,
            },
            Operand::Mask { kind, value } => Operand::Mask { kind: *kind, value: *value },
        }
    }
}

impl PartialEq for Operand {
    fn eq(&self, other: &Self) -> (r: bool) {
        match (self, other) {
            (Operand::Id(a), Operand::Id(b)) => a == b,
            (
                Operand::LiteralInt { value: v1, width: w1, signed: s1 },
                Operand::LiteralInt { value: v2, width: w2, signed: s2 },
            ) => v1 == v2 && w1 == w2 && s1 == s2,
            (
                Operand::LiteralFloat { bits: b1, width: w1 },
                Operand::LiteralFloat { bits: b2, width: w2 },
            ) => b1 == b2 && w1 == w2,
            (Operand::LiteralString(a), Operand::LiteralString(b)) => {
                let r = (*a) == (*b);
                proof {
                    assert(r == (self@ == other@));
                }
                r
            },
            (
                Operand::Enumerated { kind: k1, value: v1 },
                Operand::Enumerated { kind: k2, value: v2 },
            ) => k1 == k2 && v1 == v2,
            (Operand::Mask { kind: k1, value: v1 }, Operand::Mask { kind: k2, value: v2 }) => k1
                == k2 && v1 == v2,
            _ => {
                proof {
                    assert(self@ != other@);
                }
                false
            },
        }
    }
}

impl vstd::std_specs::cmp::PartialEqSpecImpl for Operand {
    open spec fn obeys_eq_spec() -> bool {
        true
    }

    open spec fn eq_spec(&self, other: &Self) -> bool {
        self@ == other@
    }
}

/// The module header: the three words that vary between modules.  The magic
/// word and the reserved schema word are fixed by the codec.
#[derive(Clone, Copy, PartialEq, Eq, Structural, Debug)]
pub struct Header {
    pub version: u32,
    pub generator: u32,
    pub id_bound: u32,
}

/// One decoded instruction.
pub struct Instruction {
    pub opcode: u16,
    pub result_type_id: Option<u32>,
    pub result_id: Option<u32>,
    pub operands: Vec<Operand>,
}

/// Mathematical form of an instruction.
#[verifier::ext_equal]
pub struct InstV {
    pub opcode: u16,
    pub result_type_id: Option<u32>,
    pub result_id: Option<u32>,
    pub operands: Seq<OperandV>,
}

impl View for Instruction {
    type V = InstV;

    open spec fn view(&self) -> InstV {
        InstV {
            opcode: self.opcode,
            result_type_id: self.result_type_id,
            result_id: self.result_id,
            operands: Seq::new(self.operands@.len(), |i: int| self.operands@[i]@),
        }
    }
}

impl Clone for Instruction {
    fn clone(&self) -> (r: Self)
        ensures
            r@ == self@,
    {
        let mut operands: Vec<Operand> = Vec::new();
        let mut i: usize = 0;
        while i < self.operands.len()
            invariant
                0 <= i <= self.operands@.len(),
                operands@.len() == i,
                forall|j: int| 0 <= j < i ==> operands@[j]@ == self.operands@[j]@,
            decreases self.operands@.len() - i,
        {
            operands.push(self.operands[i].clone());
            i += 1;
        }
        let r = Instruction {
            opcode: self.opcode,
            result_type_id: self.result_type_id,
            result_id: self.result_id,
            operands,
        };
        proof {
            assert(r@.operands =~= self@.operands);
        }
        r
    }
}

impl PartialEq for Instruction {
    fn eq(&self, other: &Self) -> (r: bool) {
        if self.opcode != other.opcode || self.result_type_id != other.result_type_id
            || self.result_id != other.result_id || self.operands.len() != other.operands.len() {
            proof {
                if self.operands@.len() != other.operands@.len() {
                    assert(self@.operands.len() != other@.operands.len());
                }
            }
            return false;
        }
        let mut i: usize = 0;
        while i < self.operands.len()
            invariant
                0 <= i <= self.operands@.len(),
                self.operands@.len() == other.operands@.len(),
                forall|j: int| 0 <= j < i ==> self.operands@[j]@ == other.operands@[j]@,
            decreases self.operands@.len() - i,
        {
            if !(self.operands[i] == other.operands[i]) {
                proof {
                    assert(self@.operands[i as int] != other@.operands[i as int]);
                    assert(self@ != other@);
                }
                return false;
            }
            i += 1;
        }
        proof {
            assert(self@.operands =~= other@.operands);
        }
        true
    }
}

impl vstd::std_specs::cmp::PartialEqSpecImpl for Instruction {
    open spec fn obeys_eq_spec() -> bool {
        true
    }

    open spec fn eq_spec(&self, other: &Self) -> bool {
        self@ == other@
    }
}

/// A complete module: header plus ordered instruction stream.
pub struct Module {
    pub header: Header,
    pub instructions: Vec<Instruction>,
}

/// Mathematical form of a module.
#[verifier::ext_equal]
pub struct ModuleV {
    pub header: Header,
    pub instructions: Seq<InstV>,
}

impl View for Module {
    type V = ModuleV;

    open spec fn view(&self) -> ModuleV {
        ModuleV {
            header: self.header,
            instructions: Seq::new(self.instructions@.len(), |i: int| self.instructions@[i]@),
        }
    }
}

/// The kinds of failure any of the four operations can report.
#[derive(Clone, Copy, PartialEq, Eq, Structural, Debug)]
pub enum ErrorKind {
    /// The stream is shorter than five words, its magic word is wrong, or
    /// its reserved schema word is not zero.
    MalformedHeader,
    /// Fewer words remain than an instruction's word count or schema demands.
    TruncatedInstruction,
    /// An opcode outside the schema table, in strict mode.
    UnknownOpcode,
    /// A typed literal whose result type is not a previously defined scalar
    /// numeric type.
    UnresolvedTypeWidth,
    /// An identifier at or above the module's identifier bound, or a bound
    /// above the universal limit.
    IdBoundExceeded,
    /// An identifier used before its definition, outside the permitted
    /// forward-reference contexts.
    UndefinedIdUse,
    /// An identifier defined by more than one instruction.
    DuplicateIdDefinition,
    /// A declaration out of the required section order.
    StructuralOrderViolation,
    /// A function or basic block left open, or block structure violated.
    UnterminatedBlock,
    /// A textual parse failure; the diagnostic carries line and column.
    ParseSyntaxError,
    /// A literal string operand that is not valid text or not terminated.
    InvalidLiteralString,
    /// A configured universal limit other than the identifier bound exceeded.
    LimitExceeded,
}

/// Where in the input a diagnostic points: a word index for binary input, a
/// one-based line and column for text input.
#[derive(Clone, Copy, PartialEq, Eq, Structural, Debug)]
pub struct Position {
    pub word_index: usize,
    pub line: usize,
    pub column: usize,
}

/// The severity of a diagnostic.
#[derive(Clone, Copy, PartialEq, Eq, Structural, Debug)]
pub enum Severity {
    Error,
    Warning,
}

/// One reported failure: what went wrong, where, and how bad.
#[derive(Clone, Copy, PartialEq, Eq, Structural, Debug)]
pub struct Diagnostic {
    pub kind: ErrorKind,
    pub position: Position,
    pub severity: Severity,
}

impl Diagnostic {
    /// A diagnostic for a failure at a word of a binary stream.
    pub fn at_word(kind: ErrorKind, word_index: usize) -> (r: Diagnostic)
        ensures
            r == (Diagnostic {
                kind,
                position: Position { word_index, line: 0, column: 0 },
                severity: Severity::Error,
            }),
    {
        Diagnostic {
            kind,
            position: Position { word_index, line: 0, column: 0 },
            severity: Severity::Error,
        }
    }

    /// A diagnostic for a failure at a line and column of a text source.
    pub fn at_text(kind: ErrorKind, line: usize, column: usize) -> (r: Diagnostic)
        ensures
            r == (Diagnostic {
                kind,
                position: Position { word_index: 0, line, column },
                severity: Severity::Error,
            }),
    {
        Diagnostic {
            kind,
            position: Position { word_index: 0, line, column },
            severity: Severity::Error,
        }
    }
}

/// Number of words a string operand occupies: its UTF-8 bytes, one nul
/// terminator, zero-padded up to a word boundary.
pub open spec fn string_words(bytes: Seq<u8>) -> int {
    bytes.len() as int / 4 + 1
}

/// Number of words one operand occupies on the wire.
pub open spec fn operand_words(o: OperandV) -> int {
    match o {
        OperandV::Id(_) => 1,
        OperandV::LiteralInt { value, width, signed } => if width <= 32 {
            1int
        } else {
            2int
        },
        OperandV::LiteralFloat { bits, width } => if width <= 32 {
            1int
        } else {
            2int
        },
        OperandV::LiteralString(s) => string_words(encode_utf8(s)),
        OperandV::Enumerated { .. } => 1,
        OperandV::Mask { .. } => 1,
    }
}

/// Number of words a sequence of operands occupies.
pub open spec fn operands_words(ops: Seq<OperandV>) -> int
    decreases ops.len(),
{
    if ops.len() == 0 {
        0
    } else {
        operand_words(ops[0]) + operands_words(ops.drop_first())
    }
}

/// Number of words a whole instruction occupies, its first word included.
pub open spec fn inst_words(i: InstV) -> int {
    1 + (if i.result_type_id is Some {
        1int
    } else {
        0int
    }) + (if i.result_id is Some {
        1int
    } else {
        0int
    }) + operands_words(i.operands)
}

/// An operand's own validity, independent of its schema slot.
pub open spec fn operand_wf(o: OperandV) -> bool {
    match o {
        OperandV::Id(_) => true,
        OperandV::LiteralInt { value, width, signed } => 1 <= width <= 64 && (width <= 32
            ==> value < 0x1_0000_0000),
        OperandV::LiteralFloat { bits, width } => (width == 16 || width == 32 || width == 64) && (
        width <= 32 ==> bits < 0x1_0000_0000),
        OperandV::LiteralString(s) => forall|j: int|
            0 <= j < encode_utf8(s).len() ==> encode_utf8(s)[j] != 0,
        OperandV::Enumerated { .. } => true,
        OperandV::Mask { .. } => true,
    }
}

/// Whether an operand fits one schema descriptor.  `num` is the numeric
/// class of the instruction's result type, when the schema needs it for a
/// typed literal.
pub open spec fn operand_has_kind(o: OperandV, k: OperandKind, num: Option<NumType>) -> bool {
    match k {
        OperandKind::Id => o is Id,
        OperandKind::LitInt => o matches OperandV::LiteralInt { value, width, signed } && width
            == 32 && !signed,
        OperandKind::ExtOpcode => o matches OperandV::LiteralInt { value, width, signed } && width
            == 32 && !signed,
        OperandKind::LitString => o is LiteralString,
        OperandKind::En(ek) => o matches OperandV::Enumerated { kind, value } && kind == ek,
        OperandKind::Ma(mk) => o matches OperandV::Mask { kind, value } && kind == mk,
        OperandKind::TypedLit => num matches Some(nt) && if nt.floating {
            o matches OperandV::LiteralFloat { bits, width } && width == nt.width
        } else {
            o matches OperandV::LiteralInt { value, width, signed } && width == nt.width && signed
                == nt.signed
        },
    }
}

/// Whether a sequence of operands matches a schema's required kinds followed
/// by its tail.
pub open spec fn operands_match(
    ops: Seq<OperandV>,
    kinds: Seq<OperandKind>,
    tail: Tail,
    num: Option<NumType>,
) -> bool
    decreases kinds.len(),
{
    if kinds.len() > 0 {
        ops.len() > 0 && operand_has_kind(ops[0], kinds[0], num) && operands_match(
            ops.drop_first(),
            kinds.drop_first(),
            tail,
            num,
        )
    } else {
        match tail {
            Tail::NoTail => ops.len() == 0,
            Tail::Optional(k) => ops.len() == 0 || (ops.len() == 1 && operand_has_kind(
                ops[0],
                k,
                num,
            )),
            Tail::Variable(k) => forall|j: int|
                0 <= j < ops.len() ==> operand_has_kind(ops[j], k, num),
        }
    }
}

/// The numeric class of the instruction's result type, as the type table
/// `tbl` records it.
pub open spec fn num_ctx(i: InstV, tbl: Map<u32, NumType>) -> Option<NumType> {
    match i.result_type_id {
        Some(rt) => if tbl.contains_key(rt) {
            Some(tbl[rt])
        } else {
            None
        },
        None => None,
    }
}

/// An operand of an unknown opcode in permissive mode: one raw word kept as
/// an unsigned literal.
pub open spec fn raw_word_operand(o: OperandV) -> bool {
    o matches OperandV::LiteralInt { value, width, signed } && width == 32 && !signed && value
        < 0x1_0000_0000
}

/// Structural validity of one instruction against the schema table: the
/// promise the decoder keeps and the encoder demands.  `tbl` maps the
/// identifiers of previously defined scalar numeric types to their numeric
/// class.
pub open spec fn inst_wf(i: InstV, tbl: Map<u32, NumType>) -> bool {
    &&& inst_words(i) <= 0xFFFF
    &&& (forall|j: int| 0 <= j < i.operands.len() ==> operand_wf(#[trigger] i.operands[j]))
    &&& match schema_of(i.opcode) {
        Some(s) => {
            &&& (i.result_type_id is Some) == s.has_result_type
            &&& (i.result_id is Some) == s.has_result
            &&& operands_match(i.operands, s.kinds, s.tail, num_ctx(i, tbl))
        },
        None => {
            &&& i.result_type_id is None
            &&& i.result_id is None
            &&& forall|j: int| 0 <= j < i.operands.len() ==> raw_word_operand(#[trigger] i.operands[j])
        },
    }
}

} // verus!
