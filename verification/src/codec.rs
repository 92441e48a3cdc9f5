//! The instruction codec: encoding structured instructions into word runs
//! and decoding word runs back.  Decoding and encoding are exact inverses on
//! well-formed instructions; the proof is `lemma_decode_encode`.

use vstd::prelude::*;

use crate::inst::{
    inst_wf, inst_words, num_ctx, operand_has_kind, operand_wf, operand_words, operands_match,
    operands_words, raw_word_operand, string_words, ErrorKind, InstV, Instruction, NumType,
    Operand, OperandV,
};
use crate::schema::{schema_for, schema_of, OpSchema, OperandKind, SchemaV, Tail};
use crate::words::{
    byte_of_word, first_word_of, high_word_of, join_u64, lemma_first_word_roundtrip, lemma_u64_words_roundtrip,
    lemma_word_bytes_roundtrip, low_word_of, opcode_of, pack_first_word, pack_word_bytes, split_u64,
    u64_of_words, unpack_first_word, unpack_word_byte, word_count_of, word_of_bytes,
};
use vstd::utf8::{
    decode_utf8, decode_utf8_encode_utf8, encode_utf8, encode_utf8_decode_utf8,
    encode_utf8_valid_utf8, valid_utf8,
};

verus! {

/// Byte `j` of a string operand's padded byte run: the string's own bytes,
/// then zeroes.
pub open spec fn pad_byte(bytes: Seq<u8>, j: int) -> u8 {
    if 0 <= j < bytes.len() {
        bytes[j]
    } else {
        0
    }
}

/// The words of a string operand: the bytes, a nul terminator and zero
/// padding, packed four to a word.
pub open spec fn enc_string(bytes: Seq<u8>) -> Seq<u32> {
    Seq::new(
        string_words(bytes) as nat,
        |w: int|
            word_of_bytes(
                pad_byte(bytes, 4 * w),
                pad_byte(bytes, 4 * w + 1),
                pad_byte(bytes, 4 * w + 2),
                pad_byte(bytes, 4 * w + 3),
            ),
    )
}

/// The words of one operand.
pub open spec fn enc_operand(o: OperandV) -> Seq<u32> {
    match o {
        OperandV::Id(x) => seq![x],
        OperandV::LiteralInt { value, width, signed } => if width <= 32 {
            seq![(value % 0x1_0000_0000) as u32]
        } else {
            seq![low_word_of(value), high_word_of(value)]
        },
        OperandV::LiteralFloat { bits, width } => if width <= 32 {
            seq![(bits % 0x1_0000_0000) as u32]
        } else {
            seq![low_word_of(bits), high_word_of(bits)]
        },
        OperandV::LiteralString(s) => enc_string(encode_utf8(s)),
        OperandV::Enumerated { kind, value } => seq![value],
        OperandV::Mask { kind, value } => seq![value],
    }
}

/// The words of a sequence of operands, in order.
pub open spec fn enc_operands(ops: Seq<OperandV>) -> Seq<u32>
    decreases ops.len(),
{
    if ops.len() == 0 {
        seq![]
    } else {
        enc_operand(ops[0]) + enc_operands(ops.drop_first())
    }
}

/// The words of an optional identifier slot.
pub open spec fn opt_word(o: Option<u32>) -> Seq<u32> {
    match o {
        Some(x) => seq![x],
        None => seq![],
    }
}

/// The full word run of one instruction: first word, result type and result
/// identifier slots, then the operands.
pub open spec fn enc_inst(i: InstV) -> Seq<u32> {
    seq![first_word_of((inst_words(i) % 0x10000) as u16, i.opcode)] + opt_word(i.result_type_id)
        + opt_word(i.result_id) + enc_operands(i.operands)
}

pub proof fn lemma_enc_operand_len(o: OperandV)
    ensures
        enc_operand(o).len() == operand_words(o),
        operand_words(o) >= 1,
{
}

pub proof fn lemma_enc_operands_len(ops: Seq<OperandV>)
    ensures
        enc_operands(ops).len() == operands_words(ops),
        operands_words(ops) >= ops.len(),
    decreases ops.len(),
{
    if ops.len() > 0 {
        lemma_enc_operand_len(ops[0]);
        lemma_enc_operands_len(ops.drop_first());
    }
}

pub proof fn lemma_enc_inst_len(i: InstV)
    ensures
        enc_inst(i).len() == inst_words(i),
{
    lemma_enc_operands_len(i.operands);
}

/// Relies on `String::from_utf8`: it accepts exactly the valid UTF-8 byte
/// sequences, and the accepted string reads back as the given bytes.
#[verifier::external_body]
fn string_from_utf8(bytes: Vec<u8>) -> (r: Option<String>)
    ensures
        match r {
            Some(s) => valid_utf8(bytes@) && encode_utf8(s@) == bytes@,
            None => !valid_utf8(bytes@),
        },
{
    match String::from_utf8(bytes) {
        Ok(s) => Some(s),
        Err(_) => None,
    }
}

/// Encode the words of one operand, appending to `out`.
fn encode_operand(o: &Operand, out: &mut Vec<u32>)
    ensures
        final(out)@ == old(out)@ + enc_operand(o@),
{
    match o {
        Operand::Id(x) => {
            out.push(*x);
        },
        Operand::LiteralInt { value, width, signed } => {
            if *width <= 32 {
                out.push(#[verifier::truncate] (*value as u32));
                proof {
                    assert((*value as u32) == (*value % 0x1_0000_0000) as u32) by (bit_vector);
                }
            } else {
                let (lo, hi) = split_u64(*value);
                out.push(lo);
                out.push(hi);
            }
        },
        Operand::LiteralFloat { bits, width } => {
            if *width <= 32 {
                out.push(#[verifier::truncate] (*bits as u32));
                proof {
                    assert((*bits as u32) == (*bits % 0x1_0000_0000) as u32) by (bit_vector);
                }
            } else {
                let (lo, hi) = split_u64(*bits);
                out.push(lo);
                out.push(hi);
            }
        },
        Operand::LiteralString(s) => {
            let bytes = s.as_str().as_bytes_vec();
            let n = bytes.len();
            let total = n / 4 + 1;
            let mut w: usize = 0;
            while w < total
                invariant
                    total == string_words(bytes@),
                    n == bytes@.len(),
                    w <= total,
                    out@.len() == old(out)@.len() + w,
                    out@.subrange(0, old(out)@.len() as int) == old(out)@,
                    forall|k: int|
                        0 <= k < w ==> out@[old(out)@.len() + k] == enc_string(bytes@)[k],
                decreases total - w,
            {
                let b0 = if 4 * w < n {
                    bytes[4 * w]
                } else {
                    0
                };
                let b1 = if 4 * w + 1 < n {
                    bytes[4 * w + 1]
                } else {
                    0
                };
                let b2 = if 4 * w + 2 < n {
                    bytes[4 * w + 2]
                } else {
                    0
                };
                let b3 = if 4 * w + 3 < n {
                    bytes[4 * w + 3]
                } else {
                    0
                };
                out.push(pack_word_bytes(b0, b1, b2, b3));
                w += 1;
            }
            proof {
                assert(out@ =~= old(out)@ + enc_string(bytes@));
            }
        },
        Operand::Enumerated { kind, value } => {
            out.push(*value);
        },
        Operand::Mask { kind, value } => {
            out.push(*value);
        },
    }
}

/// Encode the operand words of an instruction, in order.
fn encode_operands(ops: &Vec<Operand>, out: &mut Vec<u32>)
    ensures
        final(out)@ == old(out)@ + enc_operands(Seq::new(ops@.len(), |i: int| ops@[i]@)),
{
    let ghost opsv = Seq::new(ops@.len(), |i: int| ops@[i]@);
    let mut i: usize = 0;
    while i < ops.len()
        invariant
            i <= ops@.len(),
            opsv == Seq::new(ops@.len(), |k: int| ops@[k]@),
            out@ == old(out)@ + enc_operands(opsv.take(i as int)),
        decreases ops@.len() - i,
    {
        proof {
            lemma_enc_operands_prefix(opsv, i as int);
        }
        encode_operand(&ops[i], out);
        i += 1;
    }
    proof {
        assert(opsv.take(opsv.len() as int) =~= opsv);
    }
}

/// Appending one operand extends the encoding by that operand's words.
proof fn lemma_enc_operands_prefix(ops: Seq<OperandV>, i: int)
    requires
        0 <= i < ops.len(),
    ensures
        enc_operands(ops.take(i + 1)) == enc_operands(ops.take(i)) + enc_operand(ops[i]),
    decreases i,
{
    if i == 0 {
        assert(ops.take(1).drop_first() =~= Seq::<OperandV>::empty());
        assert(ops.take(1)[0] == ops[0]);
        assert(enc_operands(ops.take(1)) == enc_operand(ops[0]) + enc_operands(
            Seq::<OperandV>::empty(),
        ));
        assert(enc_operand(ops[0]) + enc_operands(Seq::<OperandV>::empty()) =~= enc_operand(
            ops[0],
        ));
        assert(enc_operands(ops.take(0)) =~= Seq::<u32>::empty());
        assert(enc_operands(ops.take(0)) + enc_operand(ops[0]) =~= enc_operand(ops[0]));
    } else {
        lemma_enc_operands_prefix(ops.drop_first(), i - 1);
        assert(ops.take(i + 1).drop_first() =~= ops.drop_first().take(i));
        assert(ops.take(i).drop_first() =~= ops.drop_first().take(i - 1));
        assert(ops.take(i + 1)[0] == ops[0]);
        assert(ops.take(i)[0] == ops[0]);
        assert(enc_operands(ops.take(i + 1)) == enc_operand(ops[0]) + enc_operands(
            ops.drop_first().take(i),
        ));
        assert(ops.drop_first()[i - 1] == ops[i]);
        assert(enc_operand(ops[0]) + (enc_operands(ops.drop_first().take(i - 1)) + enc_operand(
            ops[i],
        )) =~= (enc_operand(ops[0]) + enc_operands(ops.drop_first().take(i - 1))) + enc_operand(
            ops[i],
        ));
    }
}

/// Encode one instruction as its word run.
pub fn encode(i: &Instruction) -> (r: Vec<u32>)
    ensures
        r@ == enc_inst(i@),
{
    let mut ops_words: Vec<u32> = Vec::new();
    encode_operands(&i.operands, &mut ops_words);
    proof {
        lemma_enc_operands_len(i@.operands);
    }
    let extra: usize = (if i.result_type_id.is_some() {
        1
    } else {
        0
    }) + (if i.result_id.is_some() {
        1
    } else {
        0
    });
    let wc16: u16 = (((1 + extra + ops_words.len() % 0x10000) % 0x10000) % 0x10000) as u16;
    proof {
        let iw = inst_words(i@);
        assert(iw == 1 + extra + ops_words@.len());
        assert(((1 + extra + ops_words@.len() % 0x10000) % 0x10000) % 0x10000 == iw % 0x10000)
            by {
            vstd::arithmetic::div_mod::lemma_add_mod_noop(
                (1 + extra) as int,
                ops_words@.len() as int,
                0x10000,
            );
            vstd::arithmetic::div_mod::lemma_mod_twice((1 + extra + ops_words@.len() % 0x10000) as int, 0x10000);
            vstd::arithmetic::div_mod::lemma_mod_twice(iw, 0x10000);
            vstd::arithmetic::div_mod::lemma_small_mod((1 + extra) as nat, 0x10000);
        };
    }
    let mut out: Vec<u32> = Vec::new();
    out.push(pack_first_word(wc16, i.opcode));
    if let Some(rt) = i.result_type_id {
        out.push(rt);
    }
    if let Some(rid) = i.result_id {
        out.push(rid);
    }
    out.append(&mut ops_words);
    proof {
        assert(out@ =~= enc_inst(i@));
    }
    out
}


/// Byte `j` of the byte stream that a word run carries, four bytes per word,
/// least significant first.
pub open spec fn byte_at(words: Seq<u32>, j: int) -> u8 {
    byte_of_word(words[j / 4], j % 4)
}

/// Index of the first nul byte at or after `j` in a word run's byte stream.
pub open spec fn find_nul_from(words: Seq<u32>, j: int) -> Option<int>
    decreases 4 * words.len() - j
        when 0 <= j
{
    if j >= 4 * words.len() {
        None
    } else if byte_at(words, j) == 0 {
        Some(j)
    } else {
        find_nul_from(words, j + 1)
    }
}

/// Decode a string operand from the front of a word run: the bytes up to the
/// first nul, which must be valid text.
pub open spec fn dec_string(words: Seq<u32>) -> Result<(OperandV, int), ErrorKind> {
    match find_nul_from(words, 0) {
        None => Err(ErrorKind::TruncatedInstruction),
        Some(z) => {
            let bytes = Seq::new(z as nat, |j: int| byte_at(words, j));
            if valid_utf8(bytes) {
                Ok((OperandV::LiteralString(decode_utf8(bytes)), z / 4 + 1))
            } else {
                Err(ErrorKind::InvalidLiteralString)
            }
        },
    }
}

/// Decode one operand of kind `k` from the front of a word run.  Returns the
/// operand and the number of words it occupied.  `num` is the numeric class
/// of the instruction's result type, if the type table knows it.
pub open spec fn dec_one(words: Seq<u32>, k: OperandKind, num: Option<NumType>) -> Result<
    (OperandV, int),
    ErrorKind,
> {
    match k {
        OperandKind::Id => if words.len() >= 1 {
            Ok((OperandV::Id(words[0]), 1))
        } else {
            Err(ErrorKind::TruncatedInstruction)
        },
        OperandKind::LitInt | OperandKind::ExtOpcode => if words.len() >= 1 {
            Ok((OperandV::LiteralInt { value: words[0] as u64, width: 32, signed: false }, 1))
        } else {
            Err(ErrorKind::TruncatedInstruction)
        },
        OperandKind::En(ek) => if words.len() >= 1 {
            Ok((OperandV::Enumerated { kind: ek, value: words[0] }, 1))
        } else {
            Err(ErrorKind::TruncatedInstruction)
        },
        OperandKind::Ma(mk) => if words.len() >= 1 {
            Ok((OperandV::Mask { kind: mk, value: words[0] }, 1))
        } else {
            Err(ErrorKind::TruncatedInstruction)
        },
        OperandKind::LitString => dec_string(words),
        OperandKind::TypedLit => match num {
            None => Err(ErrorKind::UnresolvedTypeWidth),
            Some(nt) => if nt.width <= 32 {
                if words.len() >= 1 {
                    if nt.floating {
                        Ok((OperandV::LiteralFloat { bits: words[0] as u64, width: nt.width }, 1))
                    } else {
                        Ok(
                            (
                                OperandV::LiteralInt {
                                    value: words[0] as u64,
                                    width: nt.width,
                                    signed: nt.signed,
                                },
                                1,
                            ),
                        )
                    }
                } else {
                    Err(ErrorKind::TruncatedInstruction)
                }
            } else {
                if words.len() >= 2 {
                    if nt.floating {
                        Ok(
                            (
                                OperandV::LiteralFloat {
                                    bits: u64_of_words(words[0], words[1]),
                                    width: nt.width,
                                },
                                2,
                            ),
                        )
                    } else {
                        Ok(
                            (
                                OperandV::LiteralInt {
                                    value: u64_of_words(words[0], words[1]),
                                    width: nt.width,
                                    signed: nt.signed,
                                },
                                2,
                            ),
                        )
                    }
                } else {
                    Err(ErrorKind::TruncatedInstruction)
                }
            },
        },
    }
}

/// Decode the required operand kinds of a schema, accumulating onto `acc`;
/// returns the operands and the remaining words.
pub open spec fn dec_required(
    words: Seq<u32>,
    kinds: Seq<OperandKind>,
    num: Option<NumType>,
    acc: Seq<OperandV>,
) -> Result<(Seq<OperandV>, Seq<u32>), ErrorKind>
    decreases kinds.len(),
{
    if kinds.len() == 0 {
        Ok((acc, words))
    } else {
        match dec_one(words, kinds[0], num) {
            Err(e) => Err(e),
            Ok((o, n)) => if 1 <= n <= words.len() {
                dec_required(words.skip(n), kinds.drop_first(), num, acc.push(o))
            } else {
                Err(ErrorKind::TruncatedInstruction)
            },
        }
    }
}

/// Decode a schema's tail from the remaining words, accumulating onto `acc`.
/// All remaining words must be consumed.
pub open spec fn dec_tail(
    words: Seq<u32>,
    tail: Tail,
    num: Option<NumType>,
    acc: Seq<OperandV>,
) -> Result<Seq<OperandV>, ErrorKind>
    decreases words.len(),
{
    match tail {
        Tail::NoTail => if words.len() == 0 {
            Ok(acc)
        } else {
            Err(ErrorKind::TruncatedInstruction)
        },
        Tail::Optional(k) => if words.len() == 0 {
            Ok(acc)
        } else {
            match dec_one(words, k, num) {
                Err(e) => Err(e),
                Ok((o, n)) => if n == words.len() {
                    Ok(acc.push(o))
                } else {
                    Err(ErrorKind::TruncatedInstruction)
                },
            }
        },
        Tail::Variable(k) => if words.len() == 0 {
            Ok(acc)
        } else {
            match dec_one(words, k, num) {
                Err(e) => Err(e),
                Ok((o, n)) => if 1 <= n <= words.len() {
                    dec_tail(words.skip(n), tail, num, acc.push(o))
                } else {
                    Err(ErrorKind::TruncatedInstruction)
                },
            }
        },
    }
}

/// The raw operands of an unknown opcode in permissive mode: each remaining
/// word kept as an unsigned literal.
pub open spec fn raw_operands(words: Seq<u32>) -> Seq<OperandV> {
    Seq::new(words.len(), |j: int| OperandV::LiteralInt { value: words[j] as u64, width: 32, signed: false })
}

/// Decode one instruction from exactly its word run.  `tbl` maps previously
/// defined scalar numeric type identifiers to their numeric class; `strict`
/// decides whether an opcode outside the schema table is an error or a raw
/// pass-through.
pub open spec fn dec_inst(words: Seq<u32>, tbl: Map<u32, NumType>, strict: bool) -> Result<
    InstV,
    ErrorKind,
> {
    if words.len() == 0 || word_count_of(words[0]) != words.len() {
        Err(ErrorKind::TruncatedInstruction)
    } else {
        let opcode = opcode_of(words[0]) as u16;
        match schema_of(opcode) {
            None => if strict {
                Err(ErrorKind::UnknownOpcode)
            } else {
                Ok(
                    InstV {
                        opcode,
                        result_type_id: None,
                        result_id: None,
                        operands: raw_operands(words.skip(1)),
                    },
                )
            },
            Some(s) => {
                let hdr = 1 + (if s.has_result_type {
                    1int
                } else {
                    0int
                }) + (if s.has_result {
                    1int
                } else {
                    0int
                });
                if words.len() < hdr {
                    Err(ErrorKind::TruncatedInstruction)
                } else {
                    let result_type_id = if s.has_result_type {
                        Some(words[1])
                    } else {
                        None
                    };
                    let result_id = if s.has_result {
                        Some(words[hdr - 1])
                    } else {
                        None
                    };
                    let num = match result_type_id {
                        Some(rt) => if tbl.contains_key(rt) {
                            Some(tbl[rt])
                        } else {
                            None
                        },
                        None => None,
                    };
                    match dec_required(words.skip(hdr), s.kinds, num, Seq::empty()) {
                        Err(e) => Err(e),
                        Ok((acc, rest)) => match dec_tail(rest, s.tail, num, acc) {
                            Err(e) => Err(e),
                            Ok(ops) => Ok(
                                InstV { opcode, result_type_id, result_id, operands: ops },
                            ),
                        },
                    }
                }
            },
        }
    }
}


/// `find_nul_from` returns an index within the byte stream, at or after its
/// starting point.
proof fn lemma_find_nul_range(words: Seq<u32>, j: int)
    requires
        0 <= j,
        find_nul_from(words, j) is Some,
    ensures
        j <= find_nul_from(words, j)->Some_0 < 4 * words.len(),
    decreases 4 * words.len() - j,
{
    if j < 4 * words.len() && byte_at(words, j) != 0 {
        lemma_find_nul_range(words, j + 1);
    }
}

/// `find_nul_from` finds exactly the first nul byte.
proof fn lemma_find_nul_finds(words: Seq<u32>, j: int, z: int)
    requires
        0 <= j <= z < 4 * words.len(),
        byte_at(words, z) == 0,
        forall|t: int| j <= t < z ==> byte_at(words, t) != 0,
    ensures
        find_nul_from(words, j) == Some(z),
    decreases z - j,
{
    if j < z {
        lemma_find_nul_finds(words, j + 1, z);
    }
}

/// Without a nul byte, `find_nul_from` finds nothing.
proof fn lemma_find_nul_none(words: Seq<u32>, j: int)
    requires
        0 <= j,
        forall|t: int| j <= t < 4 * words.len() ==> byte_at(words, t) != 0,
    ensures
        find_nul_from(words, j) is None,
    decreases 4 * words.len() - j,
{
    if j < 4 * words.len() {
        lemma_find_nul_none(words, j + 1);
    }
}

/// The byte stream of an encoded string, followed by anything, starts with
/// the string's padded bytes.
proof fn lemma_enc_string_bytes(bytes: Seq<u8>, rest: Seq<u32>, j: int)
    requires
        0 <= j < 4 * string_words(bytes),
    ensures
        byte_at(enc_string(bytes) + rest, j) == pad_byte(bytes, j),
{
    let words = enc_string(bytes) + rest;
    let w = j / 4;
    let t = j % 4;
    vstd::arithmetic::div_mod::lemma_fundamental_div_mod(j, 4);
    assert(0 <= w < string_words(bytes));
    assert(words[w] == enc_string(bytes)[w]);
    lemma_word_bytes_roundtrip(
        pad_byte(bytes, 4 * w),
        pad_byte(bytes, 4 * w + 1),
        pad_byte(bytes, 4 * w + 2),
        pad_byte(bytes, 4 * w + 3),
    );
}

/// Decoding an encoded string operand gives the string back and consumes
/// exactly its words.
proof fn lemma_dec_string_enc(s: Seq<char>, rest: Seq<u32>)
    requires
        forall|j: int| 0 <= j < encode_utf8(s).len() ==> encode_utf8(s)[j] != 0,
    ensures
        dec_string(enc_string(encode_utf8(s)) + rest) == Ok::<(OperandV, int), ErrorKind>(
            (OperandV::LiteralString(s), string_words(encode_utf8(s))),
        ),
{
    let bytes = encode_utf8(s);
    let words = enc_string(bytes) + rest;
    let z = bytes.len() as int;
    let sw = string_words(bytes);
    vstd::arithmetic::div_mod::lemma_fundamental_div_mod(z, 4);
    assert(z < 4 * sw);
    assert forall|t: int| 0 <= t < z implies byte_at(words, t) != 0 by {
        lemma_enc_string_bytes(bytes, rest, t);
    }
    lemma_enc_string_bytes(bytes, rest, z);
    assert(byte_at(words, z) == 0);
    lemma_find_nul_finds(words, 0, z);
    let got = Seq::new(z as nat, |j: int| byte_at(words, j));
    assert forall|j: int| 0 <= j < z implies got[j] == bytes[j] by {
        lemma_enc_string_bytes(bytes, rest, j);
    }
    assert(got =~= bytes);
    encode_utf8_valid_utf8(s);
    encode_utf8_decode_utf8(s);
    assert(z / 4 + 1 == sw);
}

/// Decoding the encoding of one well-formed operand of its kind gives the
/// operand back and consumes exactly its words.
proof fn lemma_dec_one_enc(o: OperandV, k: OperandKind, num: Option<NumType>, rest: Seq<u32>)
    requires
        operand_has_kind(o, k, num),
        operand_wf(o),
    ensures
        dec_one(enc_operand(o) + rest, k, num) == Ok::<(OperandV, int), ErrorKind>(
            (o, operand_words(o)),
        ),
{
    let words = enc_operand(o) + rest;
    match o {
        OperandV::Id(x) => {
            assert(words[0] == x);
        },
        OperandV::LiteralInt { value, width, signed } => {
            if width <= 32 {
                assert(words[0] == (value % 0x1_0000_0000) as u32);
                assert(value < 0x1_0000_0000 ==> ((value % 0x1_0000_0000) as u32) as u64 == value)
                    by (bit_vector);
            } else {
                assert(words[0] == low_word_of(value));
                assert(words[1] == high_word_of(value));
                lemma_u64_words_roundtrip(value);
            }
        },
        OperandV::LiteralFloat { bits, width } => {
            if width <= 32 {
                assert(words[0] == (bits % 0x1_0000_0000) as u32);
                assert(bits < 0x1_0000_0000 ==> ((bits % 0x1_0000_0000) as u32) as u64 == bits)
                    by (bit_vector);
            } else {
                assert(words[0] == low_word_of(bits));
                assert(words[1] == high_word_of(bits));
                lemma_u64_words_roundtrip(bits);
            }
        },
        OperandV::LiteralString(s) => {
            lemma_dec_string_enc(s, rest);
        },
        OperandV::Enumerated { kind, value } => {
            assert(words[0] == value);
        },
        OperandV::Mask { kind, value } => {
            assert(words[0] == value);
        },
    }
}

/// Decoding required kinds and then the tail from the encoding of a matching
/// operand sequence gives the operands back, appended to the accumulator.
pub open spec fn dec_all(
    words: Seq<u32>,
    kinds: Seq<OperandKind>,
    tail: Tail,
    num: Option<NumType>,
    acc: Seq<OperandV>,
) -> Result<Seq<OperandV>, ErrorKind> {
    match dec_required(words, kinds, num, acc) {
        Err(e) => Err(e),
        Ok((acc2, rest)) => dec_tail(rest, tail, num, acc2),
    }
}

proof fn lemma_dec_all_enc(
    ops: Seq<OperandV>,
    kinds: Seq<OperandKind>,
    tail: Tail,
    num: Option<NumType>,
    acc: Seq<OperandV>,
)
    requires
        operands_match(ops, kinds, tail, num),
        forall|j: int| 0 <= j < ops.len() ==> operand_wf(#[trigger] ops[j]),
    ensures
        dec_all(enc_operands(ops), kinds, tail, num, acc) == Ok::<Seq<OperandV>, ErrorKind>(
            acc + ops,
        ),
    decreases kinds.len(), ops.len(),
{
    let words = enc_operands(ops);
    if kinds.len() > 0 {
        let o = ops[0];
        let tl = ops.drop_first();
        lemma_enc_operand_len(o);
        lemma_enc_operands_len(tl);
        lemma_dec_one_enc(o, kinds[0], num, enc_operands(tl));
        let n = operand_words(o);
        assert(words == enc_operand(o) + enc_operands(tl));
        assert(words.skip(n) =~= enc_operands(tl));
        assert(forall|j: int| 0 <= j < tl.len() ==> operand_wf(#[trigger] tl[j]));
        lemma_dec_all_enc(tl, kinds.drop_first(), tail, num, acc.push(o));
        assert(acc.push(o) + tl =~= acc + ops);
    } else {
        match tail {
            Tail::NoTail => {
                assert(ops.len() == 0);
                assert(words.len() == 0);
                assert(acc + ops =~= acc);
            },
            Tail::Optional(k) => {
                if ops.len() == 0 {
                    assert(words.len() == 0);
                    assert(acc + ops =~= acc);
                } else {
                    let o = ops[0];
                    lemma_enc_operand_len(o);
                    lemma_enc_operands_len(ops.drop_first());
                    assert(enc_operands(ops.drop_first()) =~= Seq::<u32>::empty());
                    lemma_dec_one_enc(o, k, num, enc_operands(ops.drop_first()));
                    assert(words.len() == operand_words(o));
                    assert(acc.push(o) =~= acc + ops);
                }
            },
            Tail::Variable(k) => {
                if ops.len() == 0 {
                    assert(words.len() == 0);
                    assert(acc + ops =~= acc);
                } else {
                    let o = ops[0];
                    let tl = ops.drop_first();
                    lemma_enc_operand_len(o);
                    lemma_enc_operands_len(tl);
                    lemma_dec_one_enc(o, k, num, enc_operands(tl));
                    let n = operand_words(o);
                    assert(words.skip(n) =~= enc_operands(tl));
                    assert(forall|j: int| 0 <= j < tl.len() ==> operand_wf(#[trigger] tl[j]));
                    assert(operands_match(tl, kinds, tail, num));
                    lemma_dec_all_enc(tl, kinds, tail, num, acc.push(o));
                    assert(acc.push(o) + tl =~= acc + ops);
                }
            },
        }
    }
}

/// The value of a raw-word operand.
pub open spec fn raw_value(o: OperandV) -> u32 {
    match o {
        OperandV::LiteralInt { value, width, signed } => value as u32,
        _ => 0,
    }
}

proof fn lemma_enc_raw_ops(ops: Seq<OperandV>)
    requires
        forall|j: int| 0 <= j < ops.len() ==> raw_word_operand(#[trigger] ops[j]),
    ensures
        enc_operands(ops).len() == ops.len(),
        forall|j: int| 0 <= j < ops.len() ==> enc_operands(ops)[j] == raw_value(#[trigger] ops[j]),
    decreases ops.len(),
{
    if ops.len() > 0 {
        let o = ops[0];
        let tl = ops.drop_first();
        assert(raw_word_operand(o));
        assert(enc_operand(o).len() == 1);
        assert(o matches OperandV::LiteralInt { value, width, signed } && value < 0x1_0000_0000);
        if let OperandV::LiteralInt { value, width, signed } = o {
            assert(value < 0x1_0000_0000 ==> (value % 0x1_0000_0000) as u32 == value as u32)
                by (bit_vector);
        }
        lemma_enc_raw_ops(tl);
        assert(enc_operands(ops) == enc_operand(o) + enc_operands(tl));
        assert(enc_operands(ops)[0] == enc_operand(o)[0]);
        assert(enc_operand(o)[0] == raw_value(o));
        assert forall|j: int| 1 <= j < ops.len() implies enc_operands(ops)[j] == raw_value(
            #[trigger] ops[j],
        ) by {
            assert(enc_operands(ops)[j] == enc_operands(tl)[j - 1]);
            assert(tl[j - 1] == ops[j]);
        }
    }
}

/// Round trip: decoding the encoding of a structurally valid instruction
/// gives the instruction back.  In strict mode this holds for every valid
/// instruction whose opcode the schema table knows; in permissive mode it
/// holds for raw unknown-opcode instructions as well.
pub proof fn lemma_decode_encode(i: InstV, tbl: Map<u32, NumType>, strict: bool)
    requires
        inst_wf(i, tbl),
        strict ==> schema_of(i.opcode) is Some,
    ensures
        dec_inst(enc_inst(i), tbl, strict) == Ok::<InstV, ErrorKind>(i),
{
    let words = enc_inst(i);
    lemma_enc_inst_len(i);
    lemma_enc_operands_len(i.operands);
    let iw = inst_words(i);
    vstd::arithmetic::div_mod::lemma_small_mod(iw as nat, 0x10000);
    lemma_first_word_roundtrip((iw % 0x10000) as u16, i.opcode);
    assert(words[0] == first_word_of((iw % 0x10000) as u16, i.opcode));
    assert(word_count_of(words[0]) == iw);
    assert(opcode_of(words[0]) == i.opcode);
    match schema_of(i.opcode) {
        None => {
            assert(!strict);
            lemma_enc_raw_ops(i.operands);
            let got = raw_operands(words.skip(1));
            assert(words.skip(1) =~= enc_operands(i.operands));
            assert forall|j: int| 0 <= j < i.operands.len() implies got[j] == i.operands[j] by {
                assert(raw_word_operand(i.operands[j]));
                assert(words.skip(1)[j] == raw_value(i.operands[j]));
                if let OperandV::LiteralInt { value, width, signed } = i.operands[j] {
                    assert(value < 0x1_0000_0000 ==> (value as u32) as u64 == value)
                        by (bit_vector);
                }
            }
            assert(got =~= i.operands);
            assert(dec_inst(words, tbl, strict) matches Ok(r) && r =~= i);
        },
        Some(s) => {
            let hdr = 1 + (if s.has_result_type { 1int } else { 0int }) + (if s.has_result {
                1int
            } else {
                0int
            });
            assert(iw == hdr + operands_words(i.operands));
            assert(words.len() >= hdr);
            if s.has_result_type {
                assert(words[1] == opt_word(i.result_type_id)[0]);
                assert(i.result_type_id matches Some(rt) && words[1] == rt);
            }
            if s.has_result {
                assert(words[hdr - 1] == opt_word(i.result_id)[0]);
                assert(i.result_id matches Some(r) && words[hdr - 1] == r);
            }
            assert(words.skip(hdr) =~= enc_operands(i.operands));
            lemma_dec_all_enc(i.operands, s.kinds, s.tail, num_ctx(i, tbl), Seq::empty());
            assert(Seq::empty() + i.operands =~= i.operands);
            assert(dec_inst(words, tbl, strict) matches Ok(r) && r =~= i);
        },
    }
}


/// The map a type-table entry list denotes: later entries shadow earlier
/// ones.
pub open spec fn tt_map(s: Seq<(u32, NumType)>) -> Map<u32, NumType>
    decreases s.len(),
{
    if s.len() == 0 {
        Map::empty()
    } else {
        tt_map(s.drop_last()).insert(s.last().0, s.last().1)
    }
}

/// The running table of scalar numeric types met so far: the identifier of
/// each integer or floating-point type declaration, with its numeric class.
pub struct TypeTable {
    pub entries: Vec<(u32, NumType)>,
}

impl View for TypeTable {
    type V = Map<u32, NumType>;

    open spec fn view(&self) -> Map<u32, NumType> {
        tt_map(self.entries@)
    }
}

impl TypeTable {
    /// An empty table.
    pub fn new() -> (r: TypeTable)
        ensures
            r@ == Map::<u32, NumType>::empty(),
    {
        TypeTable { entries: Vec::new() }
    }

    /// Record the numeric class of the type `id`.
    pub fn insert(&mut self, id: u32, nt: NumType)
        ensures
            final(self)@ == old(self)@.insert(id, nt),
    {
        self.entries.push((id, nt));
        proof {
            assert(self.entries@.drop_last() =~= old(self).entries@);
        }
    }

    /// Look the type `id` up.
    pub fn get(&self, id: u32) -> (r: Option<NumType>)
        ensures
            r == (if self@.contains_key(id) {
                Some(self@[id])
            } else {
                None::<NumType>
            }),
    {
        let mut i: usize = self.entries.len();
        proof {
            assert(self.entries@.take(i as int) =~= self.entries@);
        }
        while i > 0
            invariant
                i <= self.entries@.len(),
                tt_map(self.entries@).contains_key(id) == tt_map(
                    self.entries@.take(i as int),
                ).contains_key(id),
                tt_map(self.entries@).contains_key(id) ==> tt_map(self.entries@)[id] == tt_map(
                    self.entries@.take(i as int),
                )[id],
            decreases i,
        {
            let (k, v) = self.entries[i - 1];
            proof {
                assert(self.entries@.take(i as int).drop_last() =~= self.entries@.take(i - 1));
                assert(self.entries@.take(i as int).last() == self.entries@[i - 1]);
            }
            if k == id {
                return Some(v);
            }
            i -= 1;
        }
        proof {
            assert(self.entries@.take(0) =~= Seq::<(u32, NumType)>::empty());
        }
        None
    }
}

/// Decode one operand of kind `k` at word position `at`.  Returns the
/// operand and the number of words it occupied.
#[verifier::loop_isolation(false)]
fn decode_operand(
    words: &[u32],
    at: usize,
    k: OperandKind,
    num: Option<NumType>,
) -> (r: Result<(Operand, usize), ErrorKind>)
    requires
        at <= words@.len(),
    ensures
        match r {
            Ok(p) => dec_one(words@.skip(at as int), k, num) == Ok::<(OperandV, int), ErrorKind>(
                (p.0@, p.1 as int),
            ) && 1 <= p.1 <= words@.len() - at,
            Err(e) => dec_one(words@.skip(at as int), k, num) == Err::<(OperandV, int), ErrorKind>(
                e,
            ),
        },
{
    let remaining = words.len() - at;
    let ghost ws = words@.skip(at as int);
    match k {
        OperandKind::Id => {
            if remaining >= 1 {
                Ok((Operand::Id(words[at]), 1))
            } else {
                Err(ErrorKind::TruncatedInstruction)
            }
        },
        OperandKind::LitInt | OperandKind::ExtOpcode => {
            if remaining >= 1 {
                Ok((Operand::LiteralInt { value: words[at] as u64, width: 32, signed: false }, 1))
            } else {
                Err(ErrorKind::TruncatedInstruction)
            }
        },
        OperandKind::En(ek) => {
            if remaining >= 1 {
                Ok((Operand::Enumerated { kind: ek, value: words[at] }, 1))
            } else {
                Err(ErrorKind::TruncatedInstruction)
            }
        },
        OperandKind::Ma(mk) => {
            if remaining >= 1 {
                Ok((Operand::Mask { kind: mk, value: words[at] }, 1))
            } else {
                Err(ErrorKind::TruncatedInstruction)
            }
        },
        OperandKind::TypedLit => {
            match num {
                None => Err(ErrorKind::UnresolvedTypeWidth),
                Some(nt) => {
                    if nt.width <= 32 {
                        if remaining >= 1 {
                            if nt.floating {
                                Ok(
                                    (
                                        Operand::LiteralFloat {
                                            bits: words[at] as u64,
                                            width: nt.width,
                                        },
                                        1,
                                    ),
                                )
                            } else {
                                Ok(
                                    (
                                        Operand::LiteralInt {
                                            value: words[at] as u64,
                                            width: nt.width,
                                            signed: nt.signed,
                                        },
                                        1,
                                    ),
                                )
                            }
                        } else {
                            Err(ErrorKind::TruncatedInstruction)
                        }
                    } else {
                        if remaining >= 2 {
                            let v = join_u64(words[at], words[at + 1]);
                            if nt.floating {
                                Ok((Operand::LiteralFloat { bits: v, width: nt.width }, 2))
                            } else {
                                Ok(
                                    (
                                        Operand::LiteralInt {
                                            value: v,
                                            width: nt.width,
                                            signed: nt.signed,
                                        },
                                        2,
                                    ),
                                )
                            }
                        } else {
                            Err(ErrorKind::TruncatedInstruction)
                        }
                    }
                },
            }
        },
        OperandKind::LitString => {
            let mut bytes: Vec<u8> = Vec::new();
            let mut w: usize = 0;
            loop
                invariant
                    at <= words@.len(),
                    ws == words@.skip(at as int),
                    w <= ws.len(),
                    at + w <= words@.len(),
                    bytes@.len() == 4 * w,
                    forall|j: int| 0 <= j < 4 * w ==> bytes@[j] == byte_at(ws, j),
                    forall|j: int| 0 <= j < 4 * w ==> byte_at(ws, j) != 0,
                decreases words@.len() - at - w,
            {
                if w >= words.len() - at {
                    proof {
                        assert(w == ws.len());
                        lemma_find_nul_none(ws, 0);
                    }
                    return Err(ErrorKind::TruncatedInstruction);
                }
                let word = words[at + w];
                proof {
                    assert(ws[w as int] == words@[at + w]);
                }
                let mut t: usize = 0;
                let mut hit: bool = false;
                let mut zpos: usize = 0;
                while t < 4
                    invariant
                        t <= 4,
                        word == ws[w as int],
                        w < ws.len(),
                        !hit ==> forall|u: int| 0 <= u < t ==> byte_of_word(word, u) != 0,
                        hit ==> zpos < t <= 4 && byte_of_word(word, zpos as int) == 0 && forall|
                            u: int,
                        | 0 <= u < zpos ==> byte_of_word(word, u) != 0,
                    decreases 4 - t,
                {
                    if !hit {
                        let b = unpack_word_byte(word, t);
                        if b == 0 {
                            hit = true;
                            zpos = t;
                        }
                    }
                    t += 1;
                }
                if hit {
                    let mut u: usize = 0;
                    while u < zpos
                        invariant
                            u <= zpos,
                            zpos < 4,
                            word == ws[w as int],
                            w < ws.len(),
                            at + w < words@.len(),
                            ws == words@.skip(at as int),
                            at <= words@.len(),
                            bytes@.len() == 4 * w + u,
                            forall|j: int| 0 <= j < 4 * w ==> bytes@[j] == byte_at(ws, j),
                            forall|j: int| 0 <= j < 4 * w ==> byte_at(ws, j) != 0,
                            forall|j: int|
                                4 * w <= j < 4 * w + u ==> bytes@[j] == byte_at(ws, j) && byte_at(
                                    ws,
                                    j,
                                ) != 0,
                            forall|v: int| 0 <= v < zpos ==> byte_of_word(word, v) != 0,
                            byte_of_word(word, zpos as int) == 0,
                        decreases zpos - u,
                    {
                        let b = unpack_word_byte(word, u);
                        bytes.push(b);
                        proof {
                            vstd::arithmetic::div_mod::lemma_fundamental_div_mod_converse(
                                4 * (w as int) + u,
                                4,
                                w as int,
                                u as int,
                            );
                            assert(byte_at(ws, 4 * (w as int) + u) == byte_of_word(
                                word,
                                u as int,
                            ));
                        }
                        u += 1;
                    }
                    let ghost z: int = 4 * (w as int) + zpos as int;
                    proof {
                        vstd::arithmetic::div_mod::lemma_fundamental_div_mod_converse(
                            z,
                            4,
                            w as int,
                            zpos as int,
                        );
                        assert(byte_at(ws, z) == 0);
                        assert(z < 4 * ws.len());
                        lemma_find_nul_finds(ws, 0, z);
                        assert(bytes@ =~= Seq::new(z as nat, |j: int| byte_at(ws, j)));
                        assert(z / 4 + 1 == w + 1);
                    }
                    match string_from_utf8(bytes) {
                        Some(st) => {
                            proof {
                                encode_utf8_decode_utf8(st@);
                            }
                            return Ok((Operand::LiteralString(st), w + 1));
                        },
                        None => {
                            return Err(ErrorKind::InvalidLiteralString);
                        },
                    }
                } else {
                    let mut u: usize = 0;
                    while u < 4
                        invariant
                            u <= 4,
                            word == ws[w as int],
                            w < ws.len(),
                            at + w < words@.len(),
                            ws == words@.skip(at as int),
                            at <= words@.len(),
                            bytes@.len() == 4 * w + u,
                            forall|j: int| 0 <= j < 4 * w ==> bytes@[j] == byte_at(ws, j),
                            forall|j: int| 0 <= j < 4 * w ==> byte_at(ws, j) != 0,
                            forall|j: int|
                                4 * w <= j < 4 * w + u ==> bytes@[j] == byte_at(ws, j) && byte_at(
                                    ws,
                                    j,
                                ) != 0,
                            forall|v: int| 0 <= v < 4 ==> byte_of_word(word, v) != 0,
                        decreases 4 - u,
                    {
                        let b = unpack_word_byte(word, u);
                        bytes.push(b);
                        proof {
                            vstd::arithmetic::div_mod::lemma_fundamental_div_mod_converse(
                                4 * (w as int) + u,
                                4,
                                w as int,
                                u as int,
                            );
                        }
                        u += 1;
                    }
                    w += 1;
                }
            }
        },
    }
}


/// The views of a vector of operands.
pub open spec fn ops_view(ops: Seq<Operand>) -> Seq<OperandV> {
    Seq::new(ops.len(), |t: int| ops[t]@)
}

/// Decode one instruction from exactly its word run.  Inverse of `encode` on
/// well-formed instructions.
#[verifier::loop_isolation(false)]
#[verifier::rlimit(60)]
pub fn decode(words: &[u32], tbl: &TypeTable, strict: bool) -> (r: Result<Instruction, ErrorKind>)
    ensures
        match r {
            Ok(i) => dec_inst(words@, tbl@, strict) == Ok::<InstV, ErrorKind>(i@),
            Err(e) => dec_inst(words@, tbl@, strict) == Err::<InstV, ErrorKind>(e),
        },
{
    if words.len() == 0 {
        return Err(ErrorKind::TruncatedInstruction);
    }
    let (wc, opcode32) = unpack_first_word(words[0]);
    if !(wc as usize == words.len()) {
        return Err(ErrorKind::TruncatedInstruction);
    }
    let opcode = opcode32 as u16;
    let ghost target = dec_inst(words@, tbl@, strict);
    match schema_for(opcode) {
        None => {
            if strict {
                return Err(ErrorKind::UnknownOpcode);
            }
            let mut ops: Vec<Operand> = Vec::new();
            let mut j: usize = 1;
            while j < words.len()
                invariant
                    1 <= j <= words@.len(),
                    ops@.len() == j - 1,
                    forall|t: int|
                        0 <= t < j - 1 ==> ops@[t]@ == raw_operands(words@.skip(1))[t],
                decreases words@.len() - j,
            {
                ops.push(Operand::LiteralInt { value: words[j] as u64, width: 32, signed: false });
                j += 1;
            }
            let i = Instruction { opcode, result_type_id: None, result_id: None, operands: ops };
            proof {
                assert(i@.operands =~= raw_operands(words@.skip(1)));
                assert(target matches Ok(t) && t =~= i@);
            }
            Ok(i)
        },
        Some(s) => {
            let ghost sv = schema_of(opcode)->Some_0;
            proof {
                assert(s@ == sv);
            }
            let hdr: usize = 1 + (if s.has_result_type {
                1
            } else {
                0
            }) + (if s.has_result {
                1
            } else {
                0
            });
            if words.len() < hdr {
                return Err(ErrorKind::TruncatedInstruction);
            }
            let result_type_id = if s.has_result_type {
                Some(words[1])
            } else {
                None
            };
            let result_id = if s.has_result {
                Some(words[hdr - 1])
            } else {
                None
            };
            let num = match result_type_id {
                Some(rt) => tbl.get(rt),
                None => None,
            };
            let ghost req0 = dec_required(words@.skip(hdr as int), sv.kinds, num, Seq::empty());
            proof {
                assert(target == (match req0 {
                    Err(e) => Err::<InstV, ErrorKind>(e),
                    Ok((acc, rest)) => match dec_tail(rest, sv.tail, num, acc) {
                        Err(e) => Err(e),
                        Ok(ops2) => Ok(
                            InstV { opcode, result_type_id, result_id, operands: ops2 },
                        ),
                    },
                }));
            }
            let mut ops: Vec<Operand> = Vec::new();
            let mut cur: usize = hdr;
            let mut ki: usize = 0;
            proof {
                assert(sv.kinds.skip(0) =~= sv.kinds);
                assert(ops_view(ops@) =~= Seq::<OperandV>::empty());
            }
            while ki < s.kinds.len()
                invariant
                    ki <= sv.kinds.len(),
                    hdr <= cur <= words@.len(),
                    dec_required(words@.skip(cur as int), sv.kinds.skip(ki as int), num, ops_view(ops@))
                        == req0,
                decreases sv.kinds.len() - ki,
            {
                let k = s.kinds[ki];
                match decode_operand(words, cur, k, num) {
                    Err(e) => {
                        proof {
                            assert(sv.kinds.skip(ki as int)[0] == sv.kinds[ki as int]);
                        }
                        return Err(e);
                    },
                    Ok((o, n)) => {
                        proof {
                            assert(sv.kinds.skip(ki as int)[0] == sv.kinds[ki as int]);
                            assert(words@.skip(cur as int).skip(n as int) =~= words@.skip(
                                cur + n,
                            ));
                            assert(sv.kinds.skip(ki as int).drop_first() =~= sv.kinds.skip(
                                ki + 1,
                            ));
                            assert(ops_view(ops@.push(o)) =~= ops_view(ops@).push(o@));
                            assert(dec_required(
                                words@.skip(cur as int),
                                sv.kinds.skip(ki as int),
                                num,
                                ops_view(ops@),
                            ) == dec_required(
                                words@.skip(cur + n),
                                sv.kinds.skip(ki + 1),
                                num,
                                ops_view(ops@).push(o@),
                            ));
                        }
                        ops.push(o);
                        cur += n;
                        ki += 1;
                    },
                }
            }
            proof {
                assert(sv.kinds.skip(sv.kinds.len() as int) =~= Seq::<OperandKind>::empty());
                assert(req0 == Ok::<(Seq<OperandV>, Seq<u32>), ErrorKind>(
                    (ops_view(ops@), words@.skip(cur as int)),
                ));
            }
            let ghost tail0 = dec_tail(words@.skip(cur as int), sv.tail, num, ops_view(ops@));
            match s.tail {
                Tail::NoTail => {
                    if cur != words.len() {
                        return Err(ErrorKind::TruncatedInstruction);
                    }
                    proof {
                        assert(words@.skip(cur as int).len() == 0);
                    }
                },
                Tail::Optional(k) => {
                    if cur != words.len() {
                        match decode_operand(words, cur, k, num) {
                            Err(e) => {
                                return Err(e);
                            },
                            Ok((o, n)) => {
                                if cur + n != words.len() {
                                    return Err(ErrorKind::TruncatedInstruction);
                                }
                                proof {
                                    assert(ops_view(ops@.push(o)) =~= ops_view(ops@).push(o@));
                                }
                                ops.push(o);
                                cur += n;
                            },
                        }
                    }
                },
                Tail::Variable(k) => {
                    while cur < words.len()
                        invariant
                            hdr <= cur <= words@.len(),
                            dec_tail(words@.skip(cur as int), sv.tail, num, ops_view(ops@))
                                == tail0,
                        decreases words@.len() - cur,
                    {
                        match decode_operand(words, cur, k, num) {
                            Err(e) => {
                                return Err(e);
                            },
                            Ok((o, n)) => {
                                proof {
                                    assert(words@.skip(cur as int).skip(n as int) =~= words@.skip(
                                        cur + n,
                                    ));
                                    assert(ops_view(ops@.push(o)) =~= ops_view(ops@).push(o@));
                                }
                                ops.push(o);
                                cur += n;
                            },
                        }
                    }
                    proof {
                        assert(words@.skip(cur as int).len() == 0);
                    }
                },
            }
            let i = Instruction { opcode, result_type_id, result_id, operands: ops };
            proof {
                assert(i@.operands =~= ops_view(ops@));
                assert(target matches Ok(t) && t =~= i@);
            }
            Ok(i)
        },
    }
}


/// In strict mode, an instruction word run carrying an opcode outside the
/// schema table fails to decode, exactly as `UnknownOpcode`.
pub proof fn lemma_unknown_opcode_strict(words: Seq<u32>, tbl: Map<u32, NumType>)
    requires
        words.len() >= 1,
        word_count_of(words[0]) == words.len(),
        schema_of(opcode_of(words[0]) as u16) is None,
    ensures
        dec_inst(words, tbl, true) == Err::<InstV, ErrorKind>(ErrorKind::UnknownOpcode),
{
}

/// In permissive mode, such an instruction decodes to a raw form whose
/// re-encoding is bit-exactly the original word run.
pub proof fn lemma_unknown_opcode_roundtrip(words: Seq<u32>, tbl: Map<u32, NumType>)
    requires
        words.len() >= 1,
        word_count_of(words[0]) == words.len(),
        schema_of(opcode_of(words[0]) as u16) is None,
    ensures
        dec_inst(words, tbl, false) matches Ok(iv) && enc_inst(iv) == words,
{
    let iv = dec_inst(words, tbl, false)->Ok_0;
    let ops = raw_operands(words.skip(1));
    assert(forall|j: int| 0 <= j < ops.len() ==> raw_word_operand(#[trigger] ops[j])) by {
        assert forall|j: int| 0 <= j < ops.len() implies raw_word_operand(#[trigger] ops[j]) by {
            assert(ops[j] == (OperandV::LiteralInt {
                value: words.skip(1)[j] as u64,
                width: 32,
                signed: false,
            }));
        }
    }
    lemma_enc_raw_ops(ops);
    lemma_enc_operands_len(ops);
    assert(operands_words(ops) == ops.len());
    assert(inst_words(iv) == words.len());
    assert(words.len() <= 0xFFFF) by {
        assert(word_count_of(words[0]) <= 0xFFFF) by {
            let w = words[0];
            assert(w / 0x10000 <= 0xFFFF) by (bit_vector);
        }
    }
    vstd::arithmetic::div_mod::lemma_small_mod(words.len(), 0x10000);
    let w = words[0];
    assert(first_word_of((word_count_of(w) % 0x10000) as u16, (opcode_of(w) as u16)) == w) by {
        assert((((w / 0x10000) % 0x10000) as u16 as u32 * 0x10000 + (w % 0x10000) as u16
            as u32) as u32 == w) by (bit_vector);
    }
    assert forall|j: int| 0 <= j < enc_inst(iv).len() implies enc_inst(iv)[j] == words[j] by {
        if j == 0 {
        } else {
            assert(enc_inst(iv)[j] == enc_operands(ops)[j - 1]);
            assert(enc_operands(ops)[j - 1] == raw_value(ops[j - 1]));
            assert(ops[j - 1] == (OperandV::LiteralInt {
                value: words.skip(1)[j - 1] as u64,
                width: 32,
                signed: false,
            }));
            assert(raw_value(ops[j - 1]) == (words.skip(1)[j - 1] as u64) as u32);
            assert(words.skip(1)[j - 1] == words[j]);
        }
    }
    lemma_enc_inst_len(iv);
    assert(enc_inst(iv) =~= words);
}

} // verus!
