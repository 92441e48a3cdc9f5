//! The text disassembler: a deterministic rendering of a module, one
//! instruction per line, driven by the same schema table the codec uses.
//! The whole output is pinned to the rendering function `disasm_spec`, so
//! equal modules and options give equal text, with no hidden iteration
//! order.

use vstd::prelude::*;

use crate::inst::{Header, InstV, Instruction, Module, ModuleV, Operand, OperandV};
use crate::names::{enum_name, enum_name_spec, mask_name, mask_name_spec, opcode_name,
    opcode_name_spec};
use crate::numbers::{append_u64_dec, append_u64_hex, dec_digits, hex_digits, int_from_float_bits,
    nat_of_float_bits, pow2_u64};
use crate::schema::{OP_NAME, OP_SOURCE};
use vstd::arithmetic::power2::pow2;

verus! {

/// Whether a character may stand in a friendly name: letters, digits,
/// underscore.
pub open spec fn is_ident_char(c: char) -> bool {
    (48 <= c as u32 <= 57) || (65 <= c as u32 <= 90) || (97 <= c as u32 <= 122) || c as u32 == 95
}

/// Whether a debug name can replace a numeric identifier in the output.
pub open spec fn usable_name(s: Seq<char>) -> bool {
    s.len() > 0 && forall|j: int| 0 <= j < s.len() ==> is_ident_char(#[trigger] s[j])
}

/// Executable form of `usable_name`.
pub fn usable_name_exec(s: &String) -> (r: bool)
    ensures
        r == usable_name(s@),
{
    let n = s.as_str().unicode_len();
    if n == 0 {
        return false;
    }
    let mut i: usize = 0;
    while i < n
        invariant
            i <= n,
            n == s@.len(),
            forall|j: int| 0 <= j < i ==> is_ident_char(#[trigger] s@[j]),
        decreases n - i,
    {
        let c = s.as_str().get_char(i);
        let cv = c as u32;
        if !((48 <= cv && cv <= 57) || (65 <= cv && cv <= 90) || (97 <= cv && cv <= 122) || cv
            == 95) {
            return false;
        }
        i += 1;
    }
    true
}

/// Whether `names` already assigns a name to `id`.
pub open spec fn names_has_id(names: Seq<(u32, Seq<char>)>, id: u32) -> bool {
    exists|j: int| 0 <= j < names.len() && (#[trigger] names[j]).0 == id
}

/// Whether `names` already uses the name `n`.
pub open spec fn names_has_name(names: Seq<(u32, Seq<char>)>, n: Seq<char>) -> bool {
    exists|j: int| 0 <= j < names.len() && (#[trigger] names[j]).1 == n
}

/// The friendly names a debug-name instruction contributes: the first usable
/// name of each identifier, first come first served, one identifier per
/// name.
pub open spec fn names_step(names: Seq<(u32, Seq<char>)>, i: InstV) -> Seq<(u32, Seq<char>)> {
    if i.opcode == OP_NAME && i.operands.len() == 2 && i.operands[0] is Id
        && i.operands[1] is LiteralString {
        let id = i.operands[0]->Id_0;
        let n = i.operands[1]->LiteralString_0;
        if usable_name(n) && !names_has_id(names, id) && !names_has_name(names, n) {
            names.push((id, n))
        } else {
            names
        }
    } else {
        names
    }
}

/// The friendly-name table of an instruction sequence, in instruction
/// order.
pub open spec fn names_of(insts: Seq<InstV>) -> Seq<(u32, Seq<char>)>
    decreases insts.len(),
{
    if insts.len() == 0 {
        seq![]
    } else {
        names_step(names_of(insts.drop_last()), insts.last())
    }
}

/// The name assigned to `id`, if any.
pub open spec fn name_lookup(names: Seq<(u32, Seq<char>)>, id: u32) -> Option<Seq<char>>
    decreases names.len(),
{
    if names.len() == 0 {
        None
    } else if names[0].0 == id {
        Some(names[0].1)
    } else {
        name_lookup(names.drop_first(), id)
    }
}

/// The friendly-name table as the disassembler holds it.
pub struct NameMap {
    pub entries: Vec<(u32, String)>,
}

impl View for NameMap {
    type V = Seq<(u32, Seq<char>)>;

    open spec fn view(&self) -> Seq<(u32, Seq<char>)> {
        Seq::new(self.entries@.len(), |j: int| (self.entries@[j].0, self.entries@[j].1@))
    }
}

impl NameMap {
    /// Whether an identifier is already named.
    fn has_id(&self, id: u32) -> (r: bool)
        ensures
            r == names_has_id(self@, id),
    {
        let mut j: usize = 0;
        while j < self.entries.len()
            invariant
                j <= self.entries@.len(),
                forall|t: int| 0 <= t < j ==> (#[trigger] self@[t]).0 != id,
            decreases self.entries@.len() - j,
        {
            if self.entries[j].0 == id {
                proof {
                    assert(self@[j as int].0 == id);
                }
                return true;
            }
            j += 1;
        }
        false
    }

    /// Whether a name is already used.
    fn has_name(&self, n: &String) -> (r: bool)
        ensures
            r == names_has_name(self@, n@),
    {
        let mut j: usize = 0;
        while j < self.entries.len()
            invariant
                j <= self.entries@.len(),
                forall|t: int| 0 <= t < j ==> (#[trigger] self@[t]).1 != n@,
            decreases self.entries@.len() - j,
        {
            if self.entries[j].1 == *n {
                proof {
                    assert(self@[j as int].1 == n@);
                }
                return true;
            }
            j += 1;
        }
        false
    }

    /// The name assigned to `id`, if any.
    fn lookup(&self, id: u32) -> (r: Option<&String>)
        ensures
            match r {
                Some(s) => name_lookup(self@, id) == Some(s@),
                None => name_lookup(self@, id) is None,
            },
    {
        let mut j: usize = 0;
        proof {
            assert(self@.skip(0) =~= self@);
        }
        while j < self.entries.len()
            invariant
                j <= self.entries@.len(),
                name_lookup(self@, id) == name_lookup(self@.skip(j as int), id),
            decreases self.entries@.len() - j,
        {
            proof {
                assert(self@.skip(j as int)[0] == self@[j as int]);
                assert(self@.skip(j as int).drop_first() =~= self@.skip(j + 1));
            }
            if self.entries[j].0 == id {
                return Some(&self.entries[j].1);
            }
            j += 1;
        }
        proof {
            assert(self@.skip(self.entries@.len() as int).len() == 0);
        }
        None
    }
}

/// Build the friendly-name table of a module.
pub fn build_names(m: &Module) -> (r: NameMap)
    ensures
        r@ == names_of(m@.instructions),
{
    let mut r = NameMap { entries: Vec::new() };
    proof {
        assert(r@ =~= Seq::<(u32, Seq<char>)>::empty());
        assert(m@.instructions.take(0) =~= Seq::<InstV>::empty());
    }
    let mut i: usize = 0;
    while i < m.instructions.len()
        invariant
            i <= m@.instructions.len(),
            r@ == names_of(m@.instructions.take(i as int)),
        decreases m@.instructions.len() - i,
    {
        let ghost prefix = m@.instructions.take(i as int);
        proof {
            assert(m@.instructions.take(i + 1).drop_last() =~= prefix);
            assert(m@.instructions.take(i + 1).last() == m@.instructions[i as int]);
            assert(m@.instructions[i as int] == m.instructions@[i as int]@);
        }
        let inst = &m.instructions[i];
        if inst.opcode == OP_NAME && inst.operands.len() == 2 {
            let mut id_op: Option<u32> = None;
            if let Operand::Id(x) = &inst.operands[0] {
                id_op = Some(*x);
            }
            match (&id_op, &inst.operands[1]) {
                (Some(id), Operand::LiteralString(n)) => {
                    if usable_name_exec(n) && !r.has_id(*id) && !r.has_name(n) {
                        let ghost old_map = r@;
                        r.entries.push((*id, n.clone()));
                        proof {
                            assert(r@ =~= old_map.push((*id, n@)));
                        }
                    }
                },
                _ => {},
            }
        }
        i += 1;
    }
    proof {
        assert(m@.instructions.take(m@.instructions.len() as int) =~= m@.instructions);
    }
    r
}

/// The rendering of an identifier use: a friendly name when asked for and
/// known, the numeric form otherwise.
pub open spec fn render_id(x: u32, names: Seq<(u32, Seq<char>)>, friendly: bool) -> Seq<char> {
    if friendly && name_lookup(names, x) is Some {
        "%"@ + name_lookup(names, x)->Some_0
    } else {
        "%"@ + dec_digits(x as nat)
    }
}

/// The rendering of a literal integer: signed values of the declared width
/// in signed decimal, everything else in unsigned decimal.
pub open spec fn render_lit_int(value: u64, width: u32, signed: bool) -> Seq<char> {
    if signed && width >= 1 && width <= 64 && value >= pow2((width - 1) as nat) && value < pow2(
        width as nat,
    ) {
        "-"@ + dec_digits((pow2(width as nat) - value) as nat)
    } else {
        dec_digits(value as nat)
    }
}

/// The rendering of a float literal: the integer it holds exactly when it
/// holds one, else its bit pattern in hexadecimal.
pub open spec fn render_lit_float(bits: u64, width: u32) -> Seq<char> {
    let mant: nat = if width == 64 {
        52
    } else if width == 32 {
        23
    } else {
        10
    };
    let bias: nat = if width == 64 {
        1023
    } else if width == 32 {
        127
    } else {
        15
    };
    match nat_of_float_bits(bits as nat, mant, bias) {
        Some(n) => dec_digits(n),
        None => "0x"@ + hex_digits(bits as nat),
    }
}

/// The rendering of a literal string: quoted, with backslash and quote
/// escaped.
pub open spec fn escape_chars(s: Seq<char>) -> Seq<char>
    decreases s.len(),
{
    if s.len() == 0 {
        seq![]
    } else {
        let head: Seq<char> = if s[0] == '"' || s[0] == '\\' {
            seq!['\\', s[0]]
        } else {
            seq![s[0]]
        };
        head + escape_chars(s.drop_first())
    }
}

/// The rendering of one operand.
pub open spec fn render_operand(o: OperandV, names: Seq<(u32, Seq<char>)>, friendly: bool) -> Seq<
    char,
> {
    match o {
        OperandV::Id(x) => render_id(x, names, friendly),
        OperandV::LiteralInt { value, width, signed } => render_lit_int(value, width, signed),
        OperandV::LiteralFloat { bits, width } => render_lit_float(bits, width),
        OperandV::LiteralString(s) => seq!['"'] + escape_chars(s) + seq!['"'],
        OperandV::Enumerated { kind, value } => match enum_name_spec(kind, value) {
            Some(n) => n,
            None => dec_digits(value as nat),
        },
        OperandV::Mask { kind, value } => if value == 0 {
            "None"@
        } else {
            match mask_name_spec(kind, value) {
                Some(n) => n,
                None => dec_digits(value as nat),
            }
        },
    }
}

/// The rendering of a sequence of operands, each preceded by one space.
pub open spec fn render_operands(
    ops: Seq<OperandV>,
    names: Seq<(u32, Seq<char>)>,
    friendly: bool,
) -> Seq<char>
    decreases ops.len(),
{
    if ops.len() == 0 {
        seq![]
    } else {
        (" "@ + render_operand(ops[0], names, friendly)) + render_operands(
            ops.drop_first(),
            names,
            friendly,
        )
    }
}


/// Append the rendering of an identifier use.
fn append_id(out: &mut String, x: u32, names: &NameMap, friendly: bool)
    ensures
        final(out)@ == old(out)@ + render_id(x, names@, friendly),
{
    out.append("%");
    if friendly {
        match names.lookup(x) {
            Some(n) => {
                let ghost mid = out@;
                let nc = n.clone();
                out.append(nc.as_str());
                return ;
            },
            None => {},
        }
    }
    append_u64_dec(out, x as u64);
}

/// Append the rendering of a literal integer.
fn append_lit_int(out: &mut String, value: u64, width: u32, signed: bool)
    ensures
        final(out)@ == old(out)@ + render_lit_int(value, width, signed),
{
    if signed && width >= 1 && width <= 64 {
        let neg: bool;
        let mag: u64;
        if width == 64 {
            proof {
                vstd::arithmetic::power2::lemma2_to64_rest();
            }
            neg = value >= 0x8000_0000_0000_0000u64;
            mag = if neg {
                (u64::MAX - value) + 1
            } else {
                0
            };
            proof {
                assert(value < pow2(64));
            }
        } else {
            let p1 = pow2_u64(width - 1);
            proof {
                vstd::arithmetic::power2::lemma_pow2_adds((width - 1) as nat, 1);
                vstd::arithmetic::power2::lemma2_to64();
                if width - 1 < 63 {
                    vstd::arithmetic::power2::lemma_pow2_strictly_increases(
                        (width - 1) as nat,
                        63,
                    );
                }
                vstd::arithmetic::power2::lemma2_to64_rest();
            }
            neg = value >= p1 && value < p1 * 2;
            mag = if neg {
                p1 * 2 - value
            } else {
                0
            };
        }
        if neg {
            out.append("-");
            let ghost mid = out@;
            append_u64_dec(out, mag);
            proof {
                assert((old(out)@ + "-"@) + dec_digits(mag as nat) =~= old(out)@ + ("-"@
                    + dec_digits(mag as nat)));
            }
            return ;
        }
    }
    append_u64_dec(out, value);
}

/// Append the rendering of a float literal.
fn append_lit_float(out: &mut String, bits: u64, width: u32)
    ensures
        final(out)@ == old(out)@ + render_lit_float(bits, width),
{
    let (mant, bias): (u32, u32) = if width == 64 {
        (52, 1023)
    } else if width == 32 {
        (23, 127)
    } else {
        (10, 15)
    };
    match int_from_float_bits(bits, mant, bias) {
        Some(n) => {
            append_u64_dec(out, n);
        },
        None => {
            out.append("0x");
            let ghost mid = out@;
            append_u64_hex(out, bits);
            proof {
                assert((old(out)@ + "0x"@) + hex_digits(bits as nat) =~= old(out)@ + ("0x"@
                    + hex_digits(bits as nat)));
            }
        },
    }
}

/// One escaped character of a string literal's rendering.
pub open spec fn escape_one(c: char) -> Seq<char> {
    if c == '"' || c == '\\' {
        seq!['\\', c]
    } else {
        seq![c]
    }
}

proof fn lemma_escape_prefix(s: Seq<char>, i: int)
    requires
        0 <= i < s.len(),
    ensures
        escape_chars(s.take(i + 1)) == escape_chars(s.take(i)) + escape_one(s[i]),
    decreases i,
{
    if i == 0 {
        assert(s.take(1).drop_first() =~= Seq::<char>::empty());
        assert(s.take(1)[0] == s[0]);
        assert(escape_chars(s.take(1)) == escape_one(s[0]) + escape_chars(Seq::<char>::empty()));
        assert(escape_chars(s.take(0)) =~= Seq::<char>::empty());
        assert(escape_one(s[0]) + escape_chars(Seq::<char>::empty()) =~= escape_one(s[0]));
        assert(escape_chars(s.take(0)) + escape_one(s[0]) =~= escape_one(s[0]));
    } else {
        lemma_escape_prefix(s.drop_first(), i - 1);
        assert(s.take(i + 1).drop_first() =~= s.drop_first().take(i));
        assert(s.take(i).drop_first() =~= s.drop_first().take(i - 1));
        assert(s.take(i + 1)[0] == s[0]);
        assert(s.take(i)[0] == s[0]);
        assert(s.drop_first()[i - 1] == s[i]);
        assert(escape_one(s[0]) + (escape_chars(s.drop_first().take(i - 1)) + escape_one(s[i]))
            =~= (escape_one(s[0]) + escape_chars(s.drop_first().take(i - 1))) + escape_one(s[i]));
    }
}

/// Append the rendering of a literal string.
fn append_lit_string(out: &mut String, s: &String)
    ensures
        final(out)@ == old(out)@ + (seq!['"'] + escape_chars(s@) + seq!['"']),
{
    crate::numbers::push_char(out, '"');
    let n = s.as_str().unicode_len();
    let mut i: usize = 0;
    proof {
        assert(escape_chars(s@.take(0)) =~= Seq::<char>::empty());
        assert(out@ =~= old(out)@ + seq!['"'] + escape_chars(s@.take(0)));
    }
    while i < n
        invariant
            i <= n,
            n == s@.len(),
            out@ == old(out)@ + seq!['"'] + escape_chars(s@.take(i as int)),
        decreases n - i,
    {
        let c = s.as_str().get_char(i);
        proof {
            lemma_escape_prefix(s@, i as int);
        }
        if c == '"' || c == '\\' {
            crate::numbers::push_char(out, '\\');
            crate::numbers::push_char(out, c);
            proof {
                assert(out@ =~= old(out)@ + seq!['"'] + escape_chars(s@.take(i + 1)));
            }
        } else {
            crate::numbers::push_char(out, c);
            proof {
                assert(out@ =~= old(out)@ + seq!['"'] + escape_chars(s@.take(i + 1)));
            }
        }
        i += 1;
    }
    proof {
        assert(s@.take(n as int) =~= s@);
    }
    crate::numbers::push_char(out, '"');
    proof {
        assert(out@ =~= old(out)@ + (seq!['"'] + escape_chars(s@) + seq!['"']));
    }
}

/// Append the rendering of one operand.
fn append_operand(out: &mut String, o: &Operand, names: &NameMap, friendly: bool)
    ensures
        final(out)@ == old(out)@ + render_operand(o@, names@, friendly),
{
    match o {
        Operand::Id(x) => {
            append_id(out, *x, names, friendly);
        },
        Operand::LiteralInt { value, width, signed } => {
            append_lit_int(out, *value, *width, *signed);
        },
        Operand::LiteralFloat { bits, width } => {
            append_lit_float(out, *bits, *width);
        },
        Operand::LiteralString(s) => {
            append_lit_string(out, s);
        },
        Operand::Enumerated { kind, value } => {
            match enum_name(*kind, *value) {
                Some(n) => {
                    out.append(n);
                },
                None => {
                    append_u64_dec(out, *value as u64);
                },
            }
        },
        Operand::Mask { kind, value } => {
            if *value == 0 {
                out.append("None");
            } else {
                match mask_name(*kind, *value) {
                    Some(n) => {
                        out.append(n);
                    },
                    None => {
                        append_u64_dec(out, *value as u64);
                    },
                }
            }
        },
    }
}


/// The rendering of one instruction line: the optional word offset, the
/// optional indentation of result-less lines, the result assignment, the
/// mnemonic (an unknown opcode renders as `OpUnknown` followed by its
/// number), the result type, and the operands.
#[verifier::opaque]
pub open spec fn inst_prefix(
    i: InstV,
    names: Seq<(u32, Seq<char>)>,
    friendly: bool,
    indent: bool,
    offsets: bool,
    word_off: nat,
) -> Seq<char> {
    (if offsets {
        dec_digits(word_off) + ": "@
    } else {
        seq![]
    }) + (if indent && i.result_id is None {
        "        "@
    } else {
        seq![]
    }) + (match i.result_id {
        Some(r) => render_id(r, names, friendly) + " = "@,
        None => seq![],
    })
}

/// The mnemonic, result type and operands of one instruction line.
#[verifier::opaque]
pub open spec fn inst_body(i: InstV, names: Seq<(u32, Seq<char>)>, friendly: bool) -> Seq<char> {
    opcode_name_spec(i.opcode) + (if crate::schema::schema_of(i.opcode) is None {
        " "@ + dec_digits(i.opcode as nat)
    } else {
        seq![]
    }) + (match i.result_type_id {
        Some(rt) => " "@ + render_id(rt, names, friendly),
        None => seq![],
    }) + render_operands(i.operands, names, friendly)
}

/// The whole line.
#[verifier::opaque]
pub open spec fn render_inst(
    i: InstV,
    names: Seq<(u32, Seq<char>)>,
    friendly: bool,
    indent: bool,
    offsets: bool,
    word_off: nat,
) -> Seq<char> {
    inst_prefix(i, names, friendly, indent, offsets, word_off) + inst_body(i, names, friendly)
        + "\n"@
}

/// The word offset of the next instruction: offsets saturate at the
/// counter's maximum, out of reach of any real stream.
pub open spec fn next_offset(off: nat, w: int) -> nat {
    if off + w > u64::MAX {
        u64::MAX as nat
    } else {
        (off + w) as nat
    }
}

/// The word offset of instruction `i`, the first instruction standing at
/// `off0`.
pub open spec fn offset_at(insts: Seq<InstV>, i: int, off0: nat) -> nat
    decreases i,
{
    if i <= 0 {
        off0
    } else {
        next_offset(offset_at(insts, i - 1, off0), crate::inst::inst_words(insts[i - 1]))
    }
}

/// The rendering of an instruction sequence from a given word offset on.
pub open spec fn render_insts(
    insts: Seq<InstV>,
    names: Seq<(u32, Seq<char>)>,
    friendly: bool,
    indent: bool,
    offsets: bool,
    word_off: nat,
) -> Seq<char>
    decreases insts.len(),
{
    if insts.len() == 0 {
        seq![]
    } else {
        render_inst(insts[0], names, friendly, indent, offsets, word_off) + render_insts(
            insts.drop_first(),
            names,
            friendly,
            indent,
            offsets,
            next_offset(word_off, crate::inst::inst_words(insts[0])),
        )
    }
}

/// Shifting the start offset commutes with dropping the first instruction.
proof fn lemma_offset_at_drop(insts: Seq<InstV>, i: int, off0: nat)
    requires
        1 <= i <= insts.len(),
    ensures
        offset_at(
            insts.drop_first(),
            i - 1,
            next_offset(off0, crate::inst::inst_words(insts[0])),
        ) == offset_at(insts, i, off0),
    decreases i,
{
    let off1 = next_offset(off0, crate::inst::inst_words(insts[0]));
    if i == 1 {
        assert(offset_at(insts.drop_first(), 0, off1) == off1);
        assert(offset_at(insts, 1, off0) == next_offset(
            offset_at(insts, 0, off0),
            crate::inst::inst_words(insts[0]),
        ));
    } else {
        lemma_offset_at_drop(insts, i - 1, off0);
        assert(insts.drop_first()[i - 2] == insts[i - 1]);
        assert(offset_at(insts.drop_first(), i - 1, off1) == next_offset(
            offset_at(insts.drop_first(), i - 2, off1),
            crate::inst::inst_words(insts.drop_first()[i - 2]),
        ));
        assert(offset_at(insts, i, off0) == next_offset(
            offset_at(insts, i - 1, off0),
            crate::inst::inst_words(insts[i - 1]),
        ));
    }
}

/// The leading module-information comment block.
pub open spec fn render_header(h: Header) -> Seq<char> {
    "; SPIR-V\n; Version: "@ + dec_digits((h.version / 0x10000) as nat) + "."@ + dec_digits(
        ((h.version / 0x100) % 0x100) as nat,
    ) + "\n; Generator: "@ + dec_digits(h.generator as nat) + "\n; Bound: "@ + dec_digits(
        h.id_bound as nat,
    ) + "\n; Schema: 0\n"@
}

/// The full rendering of a module: the header comment block unless
/// suppressed, then every instruction, the stream's first instruction
/// standing at word offset five.
pub open spec fn disasm_spec(
    m: ModuleV,
    friendly: bool,
    indent: bool,
    offsets: bool,
    no_header: bool,
) -> Seq<char> {
    (if no_header {
        seq![]
    } else {
        render_header(m.header)
    }) + render_insts(m.instructions, names_of(m.instructions), friendly, indent, offsets, 5)
}

/// Append the line prefix of one instruction.
fn append_inst_prefix(
    out: &mut String,
    i: &Instruction,
    names: &NameMap,
    friendly: bool,
    indent: bool,
    offsets: bool,
    word_off: u64,
    Ghost(spec_off): Ghost<nat>,
)
    requires
        word_off as nat == spec_off,
    ensures
        final(out)@ == old(out)@ + inst_prefix(i@, names@, friendly, indent, offsets, spec_off),
{
    proof {
        reveal(inst_prefix);
    }
    let ghost p1: Seq<char> = if offsets {
        dec_digits(spec_off) + ": "@
    } else {
        seq![]
    };
    if offsets {
        append_u64_dec(out, word_off);
        out.append(": ");
    }
    proof {
        assert(out@ =~= old(out)@ + p1);
    }
    let ghost p2: Seq<char> = if indent && i@.result_id is None {
        "        "@
    } else {
        seq![]
    };
    if indent && i.result_id.is_none() {
        out.append("        ");
    }
    proof {
        assert(out@ =~= old(out)@ + p1 + p2);
    }
    if let Some(r) = i.result_id {
        append_id(out, r, names, friendly);
        out.append(" = ");
        proof {
            assert(out@ =~= old(out)@ + p1 + p2 + (render_id(r, names@, friendly) + " = "@));
        }
    }
    proof {
        assert(out@ =~= old(out)@ + inst_prefix(i@, names@, friendly, indent, offsets, spec_off));
    }
}

/// Append the body of one instruction line.
#[verifier::loop_isolation(false)]
#[verifier::rlimit(100)]
fn append_inst_body(out: &mut String, i: &Instruction, names: &NameMap, friendly: bool)
    ensures
        final(out)@ == old(out)@ + inst_body(i@, names@, friendly),
{
    proof {
        reveal(inst_body);
    }
    let name = opcode_name(i.opcode);
    out.append(name);
    let ghost p1 = opcode_name_spec(i@.opcode);
    let ghost p2: Seq<char> = if crate::schema::schema_of(i@.opcode) is None {
        " "@ + dec_digits(i@.opcode as nat)
    } else {
        seq![]
    };
    if crate::schema::schema_for(i.opcode).is_none() {
        out.append(" ");
        append_u64_dec(out, i.opcode as u64);
    }
    proof {
        assert(out@ =~= old(out)@ + p1 + p2);
    }
    let ghost p3: Seq<char> = match i@.result_type_id {
        Some(rt) => " "@ + render_id(rt, names@, friendly),
        None => seq![],
    };
    if let Some(rt) = i.result_type_id {
        out.append(" ");
        append_id(out, rt, names, friendly);
    }
    proof {
        assert(out@ =~= old(out)@ + p1 + p2 + p3);
    }
    let ghost opsv = i@.operands;
    let ghost before_ops = out@;
    let mut j: usize = 0;
    proof {
        assert(render_operands(opsv.take(0), names@, friendly) =~= Seq::<char>::empty());
        assert(out@ =~= before_ops + render_operands(opsv.take(0), names@, friendly));
    }
    while j < i.operands.len()
        invariant
            j <= opsv.len(),
            out@ == before_ops + render_operands(opsv.take(j as int), names@, friendly),
        decreases opsv.len() - j,
    {
        proof {
            lemma_render_operands_prefix(opsv, j as int, names@, friendly);
            assert(opsv[j as int] == i.operands@[j as int]@);
        }
        out.append(" ");
        append_operand(out, &i.operands[j], names, friendly);
        proof {
            assert(out@ =~= before_ops + render_operands(opsv.take(j + 1), names@, friendly));
        }
        j += 1;
    }
    proof {
        assert(opsv.take(opsv.len() as int) =~= opsv);
        assert(out@ =~= old(out)@ + inst_body(i@, names@, friendly));
    }
}

/// Append the rendering of one instruction line.
#[verifier::rlimit(100)]
fn append_inst(
    out: &mut String,
    i: &Instruction,
    names: &NameMap,
    friendly: bool,
    indent: bool,
    offsets: bool,
    word_off: u64,
    Ghost(spec_off): Ghost<nat>,
)
    requires
        word_off as nat == spec_off,
    ensures
        final(out)@ == old(out)@ + render_inst(i@, names@, friendly, indent, offsets, spec_off),
{
    proof {
        reveal(render_inst);
    }
    append_inst_prefix(out, i, names, friendly, indent, offsets, word_off, Ghost(spec_off));
    append_inst_body(out, i, names, friendly);
    out.append("\n");
    proof {
        assert(out@ =~= old(out)@ + render_inst(i@, names@, friendly, indent, offsets, spec_off));
    }
}

proof fn lemma_render_operands_prefix(
    ops: Seq<OperandV>,
    i: int,
    names: Seq<(u32, Seq<char>)>,
    friendly: bool,
)
    requires
        0 <= i < ops.len(),
    ensures
        render_operands(ops.take(i + 1), names, friendly) == render_operands(
            ops.take(i),
            names,
            friendly,
        ) + (" "@ + render_operand(ops[i], names, friendly)),
    decreases i,
{
    if i == 0 {
        assert(ops.take(1).drop_first() =~= Seq::<OperandV>::empty());
        assert(ops.take(1)[0] == ops[0]);
        assert(render_operands(ops.take(1), names, friendly) == (" "@ + render_operand(
            ops[0],
            names,
            friendly,
        )) + render_operands(Seq::<OperandV>::empty(), names, friendly));
        assert(render_operands(ops.take(0), names, friendly) =~= Seq::<char>::empty());
        assert((" "@ + render_operand(ops[0], names, friendly)) + Seq::<char>::empty() =~= " "@
            + render_operand(ops[0], names, friendly));
        assert(render_operands(ops.take(0), names, friendly) + (" "@ + render_operand(
            ops[0],
            names,
            friendly,
        )) =~= " "@ + render_operand(ops[0], names, friendly));
    } else {
        lemma_render_operands_prefix(ops.drop_first(), i - 1, names, friendly);
        assert(ops.take(i + 1).drop_first() =~= ops.drop_first().take(i));
        assert(ops.take(i).drop_first() =~= ops.drop_first().take(i - 1));
        assert(ops.take(i + 1)[0] == ops[0]);
        assert(ops.take(i)[0] == ops[0]);
        assert(ops.drop_first()[i - 1] == ops[i]);
        let a = " "@ + render_operand(ops[0], names, friendly);
        let b = render_operands(ops.drop_first().take(i - 1), names, friendly);
        let c = " "@ + render_operand(ops[i], names, friendly);
        assert(a + (b + c) =~= (a + b) + c);
    }
}

proof fn lemma_render_insts_prefix(
    insts: Seq<InstV>,
    i: int,
    names: Seq<(u32, Seq<char>)>,
    friendly: bool,
    indent: bool,
    offsets: bool,
    word_off: nat,
)
    requires
        0 <= i < insts.len(),
    ensures
        render_insts(insts.take(i + 1), names, friendly, indent, offsets, word_off)
            == render_insts(insts.take(i), names, friendly, indent, offsets, word_off)
            + render_inst(insts[i], names, friendly, indent, offsets, offset_at(insts, i, word_off)),
    decreases i,
{
    if i == 0 {
        assert(insts.take(1).drop_first() =~= Seq::<InstV>::empty());
        assert(insts.take(1)[0] == insts[0]);
        let r0 = render_inst(insts[0], names, friendly, indent, offsets, word_off);
        assert(render_insts(insts.take(1), names, friendly, indent, offsets, word_off) == r0
            + render_insts(
            Seq::<InstV>::empty(),
            names,
            friendly,
            indent,
            offsets,
            next_offset(word_off, crate::inst::inst_words(insts[0])),
        ));
        assert(r0 + Seq::<char>::empty() =~= r0);
        assert(render_insts(insts.take(0), names, friendly, indent, offsets, word_off) + r0 =~= r0);
    } else {
        let off1 = next_offset(word_off, crate::inst::inst_words(insts[0]));
        lemma_render_insts_prefix(insts.drop_first(), i - 1, names, friendly, indent, offsets, off1);
        assert(insts.take(i + 1).drop_first() =~= insts.drop_first().take(i));
        assert(insts.take(i).drop_first() =~= insts.drop_first().take(i - 1));
        assert(insts.take(i + 1)[0] == insts[0]);
        assert(insts.take(i)[0] == insts[0]);
        assert(insts.drop_first()[i - 1] == insts[i]);
        lemma_offset_at_drop(insts, i, word_off);
        let r0 = render_inst(insts[0], names, friendly, indent, offsets, word_off);
        let mid = render_insts(insts.drop_first().take(i - 1), names, friendly, indent, offsets, off1);
        let last = render_inst(
            insts[i],
            names,
            friendly,
            indent,
            offsets,
            offset_at(insts, i, word_off),
        );
        assert(r0 + (mid + last) =~= (r0 + mid) + last);
    }
}

/// Render a whole module to text.
#[verifier::loop_isolation(false)]
#[verifier::rlimit(100)]
pub fn disassemble_module(
    m: &Module,
    friendly: bool,
    indent: bool,
    offsets: bool,
    no_header: bool,
) -> (r: String)
    ensures
        r@ == disasm_spec(m@, friendly, indent, offsets, no_header),
{
    let names = build_names(m);
    let mut out = String::new();
    if !no_header {
        out.append("; SPIR-V\n; Version: ");
        append_u64_dec(&mut out, (m.header.version / 0x10000) as u64);
        out.append(".");
        append_u64_dec(&mut out, ((m.header.version / 0x100) % 0x100) as u64);
        out.append("\n; Generator: ");
        append_u64_dec(&mut out, m.header.generator as u64);
        out.append("\n; Bound: ");
        append_u64_dec(&mut out, m.header.id_bound as u64);
        out.append("\n; Schema: 0\n");
        proof {
            assert(out@ =~= render_header(m@.header));
        }
    }
    let ghost head = out@;
    let ghost instsv = m@.instructions;
    let mut word_off: u64 = 5;
    let mut i: usize = 0;
    proof {
        assert(render_insts(instsv.take(0), names@, friendly, indent, offsets, 5) =~= Seq::<
            char,
        >::empty());
        assert(out@ =~= head + render_insts(instsv.take(0), names@, friendly, indent, offsets, 5));
    }
    while i < m.instructions.len()
        invariant
            i <= instsv.len(),
            word_off as nat == offset_at(instsv, i as int, 5),
            out@ == head + render_insts(instsv.take(i as int), names@, friendly, indent, offsets, 5),
        decreases instsv.len() - i,
    {
        proof {
            lemma_render_insts_prefix(instsv, i as int, names@, friendly, indent, offsets, 5);
            assert(instsv[i as int] == m.instructions@[i as int]@);
            crate::codec::lemma_enc_inst_len(instsv[i as int]);
        }
        let iw = crate::codec::encode(&m.instructions[i]);
        append_inst(
            &mut out,
            &m.instructions[i],
            &names,
            friendly,
            indent,
            offsets,
            word_off,
            Ghost(offset_at(instsv, i as int, 5)),
        );
        let wlen: u64 = iw.len() as u64;
        if word_off > u64::MAX - wlen {
            word_off = u64::MAX;
        } else {
            word_off = word_off + wlen;
        }
        i += 1;
    }
    proof {
        assert(instsv.take(instsv.len() as int) =~= instsv);
    }
    out
}

} // verus!
