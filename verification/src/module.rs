//! The word-stream container: the five-word module header, whole-module
//! encoding and decoding, and in-order appending with identifier-bound
//! growth.

use vstd::prelude::*;

use crate::codec::{dec_inst, enc_inst, TypeTable};
use crate::inst::{
    Diagnostic, ErrorKind, Header, InstV, Instruction, Module, ModuleV, NumType, Operand, OperandV,
    Position, Severity, DEFAULT_MAX_ID_BOUND, MAGIC,
};
use crate::schema::{OP_TYPE_FLOAT, OP_TYPE_INT};
use crate::words::word_count_of;
use vstd::slice::slice_subrange;

verus! {

/// The five header words of a module.
pub open spec fn enc_header(h: Header) -> Seq<u32> {
    seq![MAGIC, h.version, h.generator, h.id_bound, 0u32]
}

/// Header validation: at least five words, the magic word, and a zero
/// reserved schema word.
pub open spec fn parse_header_spec(words: Seq<u32>) -> Result<Header, ErrorKind> {
    if words.len() < 5 {
        Err(ErrorKind::MalformedHeader)
    } else if words[0] != MAGIC {
        Err(ErrorKind::MalformedHeader)
    } else if words[4] != 0 {
        Err(ErrorKind::MalformedHeader)
    } else {
        Ok(Header { version: words[1], generator: words[2], id_bound: words[3] })
    }
}

/// Validate and read the header of a word stream.  A stream shorter than
/// five words, a wrong magic word, or a nonzero reserved schema word is a
/// `MalformedHeader` error; nothing else is.
pub fn parse_header(words: &[u32]) -> (r: Result<Header, ErrorKind>)
    ensures
        r == parse_header_spec(words@),
        r is Err ==> r->Err_0 == ErrorKind::MalformedHeader,
{
    if words.len() < 5 {
        return Err(ErrorKind::MalformedHeader);
    }
    if words[0] != MAGIC {
        return Err(ErrorKind::MalformedHeader);
    }
    if words[4] != 0 {
        return Err(ErrorKind::MalformedHeader);
    }
    Ok(Header { version: words[1], generator: words[2], id_bound: words[3] })
}

/// Record the numeric class of a scalar numeric type declaration in the
/// running type table; any other instruction leaves the table unchanged.
pub open spec fn register_type(i: InstV, tbl: Map<u32, NumType>) -> Map<u32, NumType> {
    if i.opcode == OP_TYPE_INT && i.result_id is Some && i.operands.len() == 2 && (
    i.operands[0] matches OperandV::LiteralInt { value: w, .. } && 1 <= w <= 64) && (
    i.operands[1] is LiteralInt) {
        let w = i.operands[0]->LiteralInt_value;
        let sg = i.operands[1]->LiteralInt_value;
        tbl.insert(
            i.result_id->Some_0,
            NumType { floating: false, width: w as u32, signed: sg != 0 },
        )
    } else if i.opcode == OP_TYPE_FLOAT && i.result_id is Some && i.operands.len() == 1 && (
    i.operands[0] matches OperandV::LiteralInt { value: w, .. } && (w == 16 || w == 32 || w == 64)) {
        let w = i.operands[0]->LiteralInt_value;
        tbl.insert(i.result_id->Some_0, NumType { floating: true, width: w as u32, signed: false })
    } else {
        tbl
    }
}

/// Executable form of `register_type`.
pub fn register_type_exec(i: &Instruction, tbl: &mut TypeTable)
    ensures
        final(tbl)@ == register_type(i@, old(tbl)@),
{
    if i.opcode == OP_TYPE_INT && i.result_id.is_some() && i.operands.len() == 2 {
        if let (Operand::LiteralInt { value: w, .. }, Operand::LiteralInt { value: sg, .. }) = (
            &i.operands[0],
            &i.operands[1],
        ) {
            if 1 <= *w && *w <= 64 {
                let rid = i.result_id.unwrap();
                tbl.insert(rid, NumType { floating: false, width: *w as u32, signed: *sg != 0 });
                return ;
            }
        }
    } else if i.opcode == OP_TYPE_FLOAT && i.result_id.is_some() && i.operands.len() == 1 {
        if let Operand::LiteralInt { value: w, .. } = &i.operands[0] {
            if *w == 16 || *w == 32 || *w == 64 {
                let rid = i.result_id.unwrap();
                tbl.insert(rid, NumType { floating: true, width: *w as u32, signed: false });
                return ;
            }
        }
    }
}

/// Decode the instruction stream from word `off` on, accumulating decoded
/// instructions and the running type table.  An error carries the word index
/// of the instruction that failed.
pub open spec fn dec_insts(
    words: Seq<u32>,
    off: int,
    tbl: Map<u32, NumType>,
    acc: Seq<InstV>,
    strict: bool,
) -> Result<Seq<InstV>, (ErrorKind, int)>
    decreases words.len() - off
        when 0 <= off
{
    if off >= words.len() {
        Ok(acc)
    } else {
        let wc = word_count_of(words[off]) as int;
        if wc < 1 || off + wc > words.len() {
            Err((ErrorKind::TruncatedInstruction, off))
        } else {
            match dec_inst(words.subrange(off, off + wc), tbl, strict) {
                Err(e) => Err((e, off)),
                Ok(iv) => dec_insts(words, off + wc, register_type(iv, tbl), acc.push(iv), strict),
            }
        }
    }
}

/// Decode a whole module: the header, then every instruction in order.
pub open spec fn dec_module(words: Seq<u32>, strict: bool) -> Result<ModuleV, (ErrorKind, int)> {
    match parse_header_spec(words) {
        Err(e) => Err((e, 0)),
        Ok(h) => match dec_insts(words, 5, Map::empty(), Seq::empty(), strict) {
            Err(p) => Err(p),
            Ok(insts) => Ok(ModuleV { header: h, instructions: insts }),
        },
    }
}

/// The words of an instruction sequence, in order.
pub open spec fn enc_insts(insts: Seq<InstV>) -> Seq<u32>
    decreases insts.len(),
{
    if insts.len() == 0 {
        seq![]
    } else {
        enc_inst(insts[0]) + enc_insts(insts.drop_first())
    }
}

/// The full word stream of a module.
pub open spec fn enc_module(m: ModuleV) -> Seq<u32> {
    enc_header(m.header) + enc_insts(m.instructions)
}

/// Appending one instruction extends the encoding by that instruction's
/// words.
pub proof fn lemma_enc_insts_prefix(insts: Seq<InstV>, i: int)
    requires
        0 <= i < insts.len(),
    ensures
        enc_insts(insts.take(i + 1)) == enc_insts(insts.take(i)) + enc_inst(insts[i]),
    decreases i,
{
    if i == 0 {
        assert(insts.take(1).drop_first() =~= Seq::<InstV>::empty());
        assert(insts.take(1)[0] == insts[0]);
        assert(enc_insts(insts.take(1)) == enc_inst(insts[0]) + enc_insts(Seq::<InstV>::empty()));
        assert(enc_insts(insts.take(0)) =~= Seq::<u32>::empty());
        assert(enc_insts(insts.take(0)) + enc_inst(insts[0]) =~= enc_inst(insts[0]));
        assert(enc_inst(insts[0]) + enc_insts(Seq::<InstV>::empty()) =~= enc_inst(insts[0]));
    } else {
        lemma_enc_insts_prefix(insts.drop_first(), i - 1);
        assert(insts.take(i + 1).drop_first() =~= insts.drop_first().take(i));
        assert(insts.take(i).drop_first() =~= insts.drop_first().take(i - 1));
        assert(insts.take(i + 1)[0] == insts[0]);
        assert(insts.take(i)[0] == insts[0]);
        assert(insts.drop_first()[i - 1] == insts[i]);
        assert(enc_inst(insts[0]) + (enc_insts(insts.drop_first().take(i - 1)) + enc_inst(
            insts[i],
        )) =~= (enc_inst(insts[0]) + enc_insts(insts.drop_first().take(i - 1))) + enc_inst(
            insts[i],
        ));
    }
}

/// Encode a whole module as its word stream.
#[verifier::loop_isolation(false)]
pub fn encode_module(m: &Module) -> (r: Vec<u32>)
    ensures
        r@ == enc_module(m@),
{
    let mut out: Vec<u32> = Vec::new();
    out.push(MAGIC);
    out.push(m.header.version);
    out.push(m.header.generator);
    out.push(m.header.id_bound);
    out.push(0);
    proof {
        assert(out@ =~= enc_header(m@.header));
        assert(enc_insts(m@.instructions.take(0)) =~= Seq::<u32>::empty());
        assert(out@ =~= enc_header(m@.header) + enc_insts(m@.instructions.take(0)));
    }
    let mut i: usize = 0;
    while i < m.instructions.len()
        invariant
            i <= m@.instructions.len(),
            out@ == enc_header(m@.header) + enc_insts(m@.instructions.take(i as int)),
        decreases m@.instructions.len() - i,
    {
        proof {
            lemma_enc_insts_prefix(m@.instructions, i as int);
            assert(m@.instructions[i as int] == m.instructions@[i as int]@);
        }
        let mut iw = crate::codec::encode(&m.instructions[i]);
        out.append(&mut iw);
        proof {
            assert(out@ =~= enc_header(m@.header) + enc_insts(m@.instructions.take(i + 1)));
        }
        i += 1;
    }
    proof {
        assert(m@.instructions.take(m@.instructions.len() as int) =~= m@.instructions);
    }
    out
}

/// Decode a whole module from its word stream.  `strict` decides the fate of
/// opcodes outside the schema table.  A failing stream reports the error
/// kind and the word index it was found at.
#[verifier::loop_isolation(false)]
pub fn decode_module(words: &[u32], strict: bool) -> (r: Result<Module, Diagnostic>)
    ensures
        match r {
            Ok(m) => dec_module(words@, strict) == Ok::<ModuleV, (ErrorKind, int)>(m@),
            Err(d) => dec_module(words@, strict) == Err::<ModuleV, (ErrorKind, int)>(
                (d.kind, d.position.word_index as int),
            ) && d.severity == Severity::Error && d.position.line == 0 && d.position.column == 0,
        },
{
    let header = match parse_header(words) {
        Err(e) => {
            return Err(Diagnostic::at_word(e, 0));
        },
        Ok(h) => h,
    };
    let ghost target = dec_insts(words@, 5, Map::empty(), Seq::empty(), strict);
    let mut tbl = TypeTable::new();
    let mut insts: Vec<Instruction> = Vec::new();
    let mut off: usize = 5;
    proof {
        assert(crate::codec::ops_view(Seq::<Operand>::empty()) =~= Seq::<OperandV>::empty());
        assert(Seq::new(insts@.len(), |t: int| insts@[t]@) =~= Seq::<InstV>::empty());
    }
    while off < words.len()
        invariant
            5 <= off <= words@.len(),
            dec_insts(words@, off as int, tbl@, Seq::new(insts@.len(), |t: int| insts@[t]@), strict)
                == target,
        decreases words@.len() - off,
    {
        let (wc32, _op) = crate::words::unpack_first_word(words[off]);
        let wc = wc32 as usize;
        if wc < 1 || wc > words.len() - off {
            return Err(Diagnostic::at_word(ErrorKind::TruncatedInstruction, off));
        }
        let run = slice_subrange(words, off, off + wc);
        proof {
            assert(run@ == words@.subrange(off as int, off + wc));
        }
        let ghost old_tbl = tbl@;
        let ghost old_acc = Seq::new(insts@.len(), |t: int| insts@[t]@);
        match crate::codec::decode(run, &tbl, strict) {
            Err(e) => {
                return Err(Diagnostic::at_word(e, off));
            },
            Ok(inst) => {
                proof {
                    assert(dec_insts(words@, off as int, old_tbl, old_acc, strict) == dec_insts(
                        words@,
                        off + wc,
                        register_type(inst@, old_tbl),
                        old_acc.push(inst@),
                        strict,
                    ));
                }
                register_type_exec(&inst, &mut tbl);
                insts.push(inst);
                proof {
                    assert(Seq::new(insts@.len(), |t: int| insts@[t]@) =~= old_acc.push(
                        insts@[insts@.len() - 1]@,
                    ));
                }
                off += wc;
            },
        }
    }
    let m = Module { header, instructions: insts };
    proof {
        assert(dec_module(words@, strict) matches Ok(mv) && mv =~= m@);
    }
    Ok(m)
}

/// The largest identifier referenced by an operand, or zero.
pub open spec fn operand_max_id(o: OperandV) -> int {
    match o {
        OperandV::Id(x) => x as int,
        _ => 0,
    }
}

/// The largest identifier referenced by a sequence of operands, or zero.
pub open spec fn ops_max_id(ops: Seq<OperandV>) -> int
    decreases ops.len(),
{
    if ops.len() == 0 {
        0
    } else {
        let rest = ops_max_id(ops.drop_first());
        if operand_max_id(ops[0]) >= rest {
            operand_max_id(ops[0])
        } else {
            rest
        }
    }
}

/// The largest identifier an instruction mentions: its result type, its
/// result, and its identifier operands.
pub open spec fn inst_max_id(i: InstV) -> int {
    let rt = match i.result_type_id {
        Some(x) => x as int,
        None => 0,
    };
    let rid = match i.result_id {
        Some(x) => x as int,
        None => 0,
    };
    let ops = ops_max_id(i.operands);
    if rt >= rid && rt >= ops {
        rt
    } else if rid >= ops {
        rid
    } else {
        ops
    }
}

impl Module {
    /// An empty module with a version 1.0 header and the smallest valid
    /// identifier bound.
    pub fn new() -> (r: Module)
        ensures
            r@.header == (Header { version: 0x0001_0000, generator: 0, id_bound: 1 }),
            r@.instructions == Seq::<InstV>::empty(),
    {
        let r = Module {
            header: Header { version: 0x0001_0000, generator: 0, id_bound: 1 },
            instructions: Vec::new(),
        };
        proof {
            assert(r@.instructions =~= Seq::<InstV>::empty());
        }
        r
    }

    /// Append an instruction in order.  The identifier bound grows to cover
    /// every identifier the instruction mentions and never shrinks; an
    /// identifier at or above the universal limit is refused as
    /// `IdBoundExceeded`, and the module is then unchanged.
    #[verifier::loop_isolation(false)]
    pub fn append(&mut self, inst: Instruction) -> (r: Result<(), Diagnostic>)
        ensures
            match r {
                Ok(()) => {
                    &&& inst_max_id(inst@) < DEFAULT_MAX_ID_BOUND
                    &&& final(self)@.instructions == old(self)@.instructions.push(inst@)
                    &&& final(self)@.header.version == old(self)@.header.version
                    &&& final(self)@.header.generator == old(self)@.header.generator
                    &&& final(self)@.header.id_bound == (if inst_max_id(inst@) + 1 > old(
                        self,
                    )@.header.id_bound {
                        inst_max_id(inst@) + 1
                    } else {
                        old(self)@.header.id_bound as int
                    })
                },
                Err(d) => {
                    &&& inst_max_id(inst@) >= DEFAULT_MAX_ID_BOUND
                    &&& d.kind == ErrorKind::IdBoundExceeded
                    &&& final(self)@ == old(self)@
                },
            },
    {
        let mut m: u32 = 0;
        if let Some(rt) = inst.result_type_id {
            if rt > m {
                m = rt;
            }
        }
        if let Some(rid) = inst.result_id {
            if rid > m {
                m = rid;
            }
        }
        let ghost opsv = inst@.operands;
        let mut j: usize = 0;
        let mut mo: u32 = 0;
        while j < inst.operands.len()
            invariant
                j <= opsv.len(),
                mo == ops_max_id(opsv.take(j as int)),
            decreases opsv.len() - j,
        {
            proof {
                lemma_ops_max_id_prefix(opsv, j as int);
            }
            if let Operand::Id(x) = &inst.operands[j] {
                if *x > mo {
                    mo = *x;
                }
            }
            j += 1;
        }
        proof {
            assert(opsv.take(opsv.len() as int) =~= opsv);
        }
        if mo > m {
            m = mo;
        }
        if m >= DEFAULT_MAX_ID_BOUND {
            return Err(Diagnostic::at_word(ErrorKind::IdBoundExceeded, 0));
        }
        if m + 1 > self.header.id_bound {
            self.header.id_bound = m + 1;
        }
        self.instructions.push(inst);
        proof {
            assert(final(self)@.instructions =~= old(self)@.instructions.push(inst@));
        }
        Ok(())
    }
}

/// Extending a prefix of operands by one extends its largest identifier by
/// comparison with that operand's.
proof fn lemma_ops_max_id_prefix(ops: Seq<OperandV>, i: int)
    requires
        0 <= i < ops.len(),
    ensures
        ops_max_id(ops.take(i + 1)) == (if operand_max_id(ops[i]) >= ops_max_id(ops.take(i)) {
            operand_max_id(ops[i])
        } else {
            ops_max_id(ops.take(i))
        }),
    decreases i,
{
    if i == 0 {
        assert(ops.take(1).drop_first() =~= Seq::<OperandV>::empty());
        assert(ops.take(1)[0] == ops[0]);
        assert(ops.take(0) =~= Seq::<OperandV>::empty());
    } else {
        lemma_ops_max_id_prefix(ops.drop_first(), i - 1);
        assert(ops.take(i + 1).drop_first() =~= ops.drop_first().take(i));
        assert(ops.take(i).drop_first() =~= ops.drop_first().take(i - 1));
        assert(ops.take(i + 1)[0] == ops[0]);
        assert(ops.take(i)[0] == ops[0]);
        assert(ops.drop_first()[i - 1] == ops[i]);
    }
}



/// A stream shorter than the five header words is rejected as a malformed
/// header, at the stream's start, in either opcode mode — never anything
/// else.
pub proof fn lemma_short_stream_rejected(words: Seq<u32>, strict: bool)
    requires
        words.len() < 5,
    ensures
        dec_module(words, strict) == Err::<ModuleV, (ErrorKind, int)>(
            (ErrorKind::MalformedHeader, 0),
        ),
{
}


/// The type table after the first `k` instructions, starting from `tbl0`.
pub open spec fn tbl_fold(insts: Seq<InstV>, k: int, tbl0: Map<u32, NumType>) -> Map<u32, NumType>
    decreases k,
{
    if k <= 0 {
        tbl0
    } else {
        register_type(insts[k - 1], tbl_fold(insts, k - 1, tbl0))
    }
}

proof fn lemma_tbl_fold_shift(insts: Seq<InstV>, k: int, tbl0: Map<u32, NumType>)
    requires
        0 <= k < insts.len(),
    ensures
        tbl_fold(insts, k + 1, tbl0) == tbl_fold(
            insts.drop_first(),
            k,
            register_type(insts[0], tbl0),
        ),
    decreases k,
{
    if k == 0 {
        assert(tbl_fold(insts, 0, tbl0) == tbl0);
        assert(tbl_fold(insts.drop_first(), 0, register_type(insts[0], tbl0)) == register_type(
            insts[0],
            tbl0,
        ));
    } else {
        lemma_tbl_fold_shift(insts, k - 1, tbl0);
        assert(insts.drop_first()[k - 1] == insts[k]);
        assert(tbl_fold(insts, k + 1, tbl0) == register_type(insts[k], tbl_fold(insts, k, tbl0)));
        assert(tbl_fold(insts.drop_first(), k, register_type(insts[0], tbl0)) == register_type(
            insts.drop_first()[k - 1],
            tbl_fold(insts.drop_first(), k - 1, register_type(insts[0], tbl0)),
        ));
    }
}

/// Structural validity of a whole module: each instruction is well-formed
/// against the type table its predecessors built.
pub open spec fn module_wf(m: ModuleV) -> bool {
    forall|k: int|
        0 <= k < m.instructions.len() ==> crate::inst::inst_wf(
            #[trigger] m.instructions[k],
            tbl_fold(m.instructions, k, Map::empty()),
        )
}

/// Whether every opcode of an instruction sequence is in the schema table.
pub open spec fn known_opcodes(insts: Seq<InstV>) -> bool {
    forall|k: int|
        0 <= k < insts.len() ==> crate::schema::schema_of(
            (#[trigger] insts[k]).opcode,
        ) is Some
}

proof fn lemma_dec_insts_enc(
    rest: Seq<InstV>,
    prefix: Seq<u32>,
    tbl: Map<u32, NumType>,
    acc: Seq<InstV>,
    strict: bool,
)
    requires
        forall|j: int|
            0 <= j < rest.len() ==> crate::inst::inst_wf(
                #[trigger] rest[j],
                tbl_fold(rest, j, tbl),
            ),
        strict ==> known_opcodes(rest),
    ensures
        dec_insts(prefix + enc_insts(rest), prefix.len() as int, tbl, acc, strict) == Ok::<
            Seq<InstV>,
            (ErrorKind, int),
        >(acc + rest),
    decreases rest.len(),
{
    let words = prefix + enc_insts(rest);
    let off = prefix.len() as int;
    if rest.len() == 0 {
        assert(enc_insts(rest).len() == 0);
        assert(acc + rest =~= acc);
    } else {
        let i0 = rest[0];
        let tl = rest.drop_first();
        crate::codec::lemma_enc_inst_len(i0);
        crate::codec::lemma_enc_operands_len(i0.operands);
        assert(crate::inst::inst_wf(i0, tbl)) by {
            assert(tbl_fold(rest, 0, tbl) == tbl);
        }
        let iw = crate::inst::inst_words(i0);
        assert(1 <= iw <= 0xFFFF);
        assert(enc_insts(rest) == crate::codec::enc_inst(i0) + enc_insts(tl));
        assert(words[off] == crate::codec::enc_inst(i0)[0]);
        vstd::arithmetic::div_mod::lemma_small_mod(iw as nat, 0x10000);
        crate::words::lemma_first_word_roundtrip((iw % 0x10000) as u16, i0.opcode);
        assert(word_count_of(words[off]) == iw);
        assert(off + iw <= words.len());
        assert(words.subrange(off, off + iw) =~= crate::codec::enc_inst(i0));
        crate::codec::lemma_decode_encode(i0, tbl, strict);
        assert(dec_inst(words.subrange(off, off + iw), tbl, strict) == Ok::<InstV, ErrorKind>(i0));
        assert forall|j: int| 0 <= j < tl.len() implies crate::inst::inst_wf(
            #[trigger] tl[j],
            tbl_fold(tl, j, register_type(i0, tbl)),
        ) by {
            lemma_tbl_fold_shift(rest, j, tbl);
            assert(tl[j] == rest[j + 1]);
        }
        assert(strict ==> known_opcodes(tl)) by {
            if strict {
                assert forall|k: int|
                    0 <= k < tl.len() implies crate::schema::schema_of(
                    (#[trigger] tl[k]).opcode,
                ) is Some by {
                    assert(tl[k] == rest[k + 1]);
                }
            }
        }
        lemma_dec_insts_enc(tl, prefix + crate::codec::enc_inst(i0), register_type(i0, tbl), acc.push(i0), strict);
        assert((prefix + crate::codec::enc_inst(i0)) + enc_insts(tl) =~= words);
        assert(acc.push(i0) + tl =~= acc + rest);
    }
}

/// Round trip at module level: decoding the encoding of a structurally
/// valid module gives the module back, bit-exactly through the word stream.
/// In strict mode this asks every opcode to be in the schema table; in
/// permissive mode raw unknown-opcode instructions round-trip as well.
pub proof fn lemma_module_round_trip(m: ModuleV, strict: bool)
    requires
        module_wf(m),
        strict ==> known_opcodes(m.instructions),
    ensures
        dec_module(enc_module(m), strict) == Ok::<ModuleV, (ErrorKind, int)>(m),
{
    let words = enc_module(m);
    let hdr = enc_header(m.header);
    assert(hdr.len() == 5);
    assert(words[0] == MAGIC);
    assert(words[4] == 0);
    assert(words.len() >= 5);
    assert(parse_header_spec(words) == Ok::<Header, ErrorKind>(m.header));
    lemma_dec_insts_enc(m.instructions, hdr, Map::empty(), Seq::empty(), strict);
    assert(Seq::empty() + m.instructions =~= m.instructions);
    assert(dec_module(words, strict) matches Ok(mv) && mv =~= m);
}

} // verus!
