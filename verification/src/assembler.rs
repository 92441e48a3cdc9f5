//! The text assembler: one instruction per line, `;` comments, `%`-prefixed
//! numeric or symbolic identifiers, quoted strings, enumerated-operand
//! mnemonics, and schema-driven operand layout.  The whole parse is pinned
//! to the reading function `asm_spec`; a failure carries the character
//! position it was found at, reported to callers as a one-based line and
//! column.

use vstd::prelude::*;

use crate::disasm::is_ident_char;
use crate::inst::{ErrorKind, InstV, Instruction, NumType, Operand, OperandV, DEFAULT_MAX_ID_BOUND};
use crate::names::match_keyword;
use crate::numbers::{all_digits, dec_val, is_digit, parse_u64_dec};

verus! {

/// Horizontal whitespace between tokens.
pub open spec fn is_ws(c: char) -> bool {
    c == ' ' || c == '\t' || c == '\r'
}

/// A character that may stand in a bare token: anything but whitespace, a
/// newline, a comment or a quote.
pub open spec fn is_token_char(c: char) -> bool {
    !is_ws(c) && c != '\n' && c != ';' && c != '"'
}

/// The first position at or after `p` that is not horizontal whitespace.
pub open spec fn skip_ws(src: Seq<char>, p: int) -> int
    decreases src.len() - p when 0 <= p
{
    if p >= src.len() {
        src.len() as int
    } else if is_ws(src[p]) {
        skip_ws(src, p + 1)
    } else {
        p
    }
}

/// The end of the bare token starting at `p`.
pub open spec fn token_end(src: Seq<char>, p: int) -> int
    decreases src.len() - p when 0 <= p
{
    if p >= src.len() {
        src.len() as int
    } else if is_token_char(src[p]) {
        token_end(src, p + 1)
    } else {
        p
    }
}

/// The first position at or after `p` past the current line's characters.
pub open spec fn line_end(src: Seq<char>, p: int) -> int
    decreases src.len() - p when 0 <= p
{
    if p >= src.len() {
        src.len() as int
    } else if src[p] == '\n' {
        p
    } else {
        line_end(src, p + 1)
    }
}

pub proof fn lemma_skip_ws_range(src: Seq<char>, p: int)
    requires
        0 <= p <= src.len(),
    ensures
        p <= skip_ws(src, p) <= src.len(),
    decreases src.len() - p,
{
    if p < src.len() && is_ws(src[p]) {
        lemma_skip_ws_range(src, p + 1);
    }
}

pub proof fn lemma_token_end_range(src: Seq<char>, p: int)
    requires
        0 <= p <= src.len(),
    ensures
        p <= token_end(src, p) <= src.len(),
    decreases src.len() - p,
{
    if p < src.len() && is_token_char(src[p]) {
        lemma_token_end_range(src, p + 1);
    }
}

pub proof fn lemma_line_end_range(src: Seq<char>, p: int)
    requires
        0 <= p <= src.len(),
    ensures
        p <= line_end(src, p) <= src.len(),
    decreases src.len() - p,
{
    if p < src.len() && src[p] != '\n' {
        lemma_line_end_range(src, p + 1);
    }
}

/// Executable form of `skip_ws`.
#[verifier::loop_isolation(false)]
pub fn skip_ws_exec(s: &str, p: usize) -> (r: usize)
    requires
        p <= s@.len(),
    ensures
        r as int == skip_ws(s@, p as int),
        p <= r <= s@.len(),
{
    let n = s.unicode_len();
    let mut q = p;
    while q < n
        invariant
            p <= q <= n,
            n == s@.len(),
            skip_ws(s@, p as int) == skip_ws(s@, q as int),
        decreases n - q,
    {
        let c = s.get_char(q);
        if !(c == ' ' || c == '\t' || c == '\r') {
            return q;
        }
        q += 1;
    }
    q
}

/// Executable form of `token_end`.
#[verifier::loop_isolation(false)]
pub fn token_end_exec(s: &str, p: usize) -> (r: usize)
    requires
        p <= s@.len(),
    ensures
        r as int == token_end(s@, p as int),
        p <= r <= s@.len(),
{
    let n = s.unicode_len();
    let mut q = p;
    while q < n
        invariant
            p <= q <= n,
            n == s@.len(),
            token_end(s@, p as int) == token_end(s@, q as int),
        decreases n - q,
    {
        let c = s.get_char(q);
        if (c == ' ' || c == '\t' || c == '\r') || c == '\n' || c == ';' || c == '"' {
            return q;
        }
        q += 1;
    }
    q
}

/// Executable form of `line_end`.
#[verifier::loop_isolation(false)]
pub fn line_end_exec(s: &str, p: usize) -> (r: usize)
    requires
        p <= s@.len(),
    ensures
        r as int == line_end(s@, p as int),
        p <= r <= s@.len(),
{
    let n = s.unicode_len();
    let mut q = p;
    while q < n
        invariant
            p <= q <= n,
            n == s@.len(),
            line_end(s@, p as int) == line_end(s@, q as int),
        decreases n - q,
    {
        if s.get_char(q) == '\n' {
            return q;
        }
        q += 1;
    }
    q
}

/// The one-based line and column of a character position: lines split at
/// newlines, columns count characters from the line's start.
pub open spec fn line_of(src: Seq<char>, p: int) -> int
    decreases p when 0 <= p
{
    if p <= 0 {
        1
    } else if 0 <= p - 1 < src.len() && src[p - 1] == '\n' {
        if line_of(src, p - 1) < usize::MAX {
            line_of(src, p - 1) + 1
        } else {
            line_of(src, p - 1)
        }
    } else {
        line_of(src, p - 1)
    }
}

/// Column of a character position, one-based.
pub open spec fn col_of(src: Seq<char>, p: int) -> int
    decreases p when 0 <= p
{
    if p <= 0 {
        1
    } else if 0 <= p - 1 < src.len() && src[p - 1] == '\n' {
        1
    } else {
        if col_of(src, p - 1) < usize::MAX {
            col_of(src, p - 1) + 1
        } else {
            col_of(src, p - 1)
        }
    }
}

/// Compute the one-based line and column of a character position.
#[verifier::loop_isolation(false)]
pub fn line_col_exec(s: &str, p: usize) -> (r: (usize, usize))
    ensures
        r.0 as int == line_of(s@, p as int),
        r.1 as int == col_of(s@, p as int),
{
    let n = s.unicode_len();
    let mut line: usize = 1;
    let mut col: usize = 1;
    let mut q: usize = 0;
    while q < p
        invariant
            0 <= q <= p,
            n == s@.len(),
            line as int == line_of(s@, q as int),
            col as int == col_of(s@, q as int),
        decreases p - q,
    {
        let is_nl = q < n && s.get_char(q) == '\n';
        if is_nl {
            if line < usize::MAX {
                line += 1;
            }
            col = 1;
        } else {
            if col < usize::MAX {
                col += 1;
            }
        }
        q += 1;
    }
    (line, col)
}

/// The assembler's running state: the symbolic-name table, the largest
/// identifier seen, the scalar-numeric-type table, and the instructions
/// assembled so far.
#[verifier::ext_equal]
pub struct AsmStV {
    pub syms: Seq<(Seq<char>, u32)>,
    pub max_id: u32,
    pub types: Map<u32, NumType>,
    pub insts: Seq<InstV>,
}

/// The identifier a symbolic name resolves to, if the name is known.
pub open spec fn sym_lookup(syms: Seq<(Seq<char>, u32)>, n: Seq<char>) -> Option<u32>
    decreases syms.len(),
{
    if syms.len() == 0 {
        None
    } else if syms[0].0 == n {
        Some(syms[0].1)
    } else {
        sym_lookup(syms.drop_first(), n)
    }
}

proof fn lemma_sym_lookup_found(syms: Seq<(Seq<char>, u32)>, n: Seq<char>, j: int)
    requires
        0 <= j < syms.len(),
        forall|t: int| 0 <= t < j ==> (#[trigger] syms[t]).0 != n,
        syms[j].0 == n,
    ensures
        sym_lookup(syms, n) == Some(syms[j].1),
    decreases j,
{
    if j > 0 {
        lemma_sym_lookup_found(syms.drop_first(), n, j - 1);
        assert(forall|t: int|
            0 <= t < j - 1 ==> (#[trigger] syms.drop_first()[t]) == syms[t + 1]);
    }
}

proof fn lemma_sym_lookup_none(syms: Seq<(Seq<char>, u32)>, n: Seq<char>)
    requires
        forall|t: int| 0 <= t < syms.len() ==> (#[trigger] syms[t]).0 != n,
    ensures
        sym_lookup(syms, n) is None,
    decreases syms.len(),
{
    if syms.len() > 0 {
        lemma_sym_lookup_none(syms.drop_first(), n);
    }
}

/// The executable assembler state.
pub struct Assembler {
    pub syms: Vec<(String, u32)>,
    pub max_id: u32,
    pub types: crate::codec::TypeTable,
    pub insts: Vec<Instruction>,
}

impl View for Assembler {
    type V = AsmStV;

    open spec fn view(&self) -> AsmStV {
        AsmStV {
            syms: Seq::new(self.syms@.len(), |j: int| (self.syms@[j].0@, self.syms@[j].1)),
            max_id: self.max_id,
            types: self.types@,
            insts: Seq::new(self.insts@.len(), |j: int| self.insts@[j]@),
        }
    }
}

/// What parsing an identifier token yields: the numeric identifier and the
/// state after it (a fresh symbolic name allocates the next identifier).
pub open spec fn parse_id_token(src: Seq<char>, p: int, st: AsmStV) -> Result<
    (u32, int, AsmStV),
    (ErrorKind, int),
> {
    if p >= src.len() || src[p] != '%' {
        Err((ErrorKind::ParseSyntaxError, p))
    } else {
        let e = token_end(src, p + 1);
        let tok = src.subrange(p + 1, e);
        if tok.len() == 0 {
            Err((ErrorKind::ParseSyntaxError, p))
        } else if all_digits(tok) {
            let v = dec_val(tok);
            if v == 0 || v >= DEFAULT_MAX_ID_BOUND {
                Err((ErrorKind::IdBoundExceeded, p))
            } else {
                let m = if v > st.max_id {
                    v as u32
                } else {
                    st.max_id
                };
                Ok((v as u32, e, AsmStV { max_id: m, ..st }))
            }
        } else if forall|j: int| 0 <= j < tok.len() ==> is_ident_char(#[trigger] tok[j]) {
            match sym_lookup(st.syms, tok) {
                Some(v) => Ok((v, e, st)),
                None => {
                    if st.max_id + 1 >= DEFAULT_MAX_ID_BOUND {
                        Err((ErrorKind::IdBoundExceeded, p))
                    } else {
                        let v = (st.max_id + 1) as u32;
                        Ok(
                            (
                                v,
                                e,
                                AsmStV {
                                    syms: st.syms.push((tok, v)),
                                    max_id: v,
                                    ..st
                                },
                            ),
                        )
                    }
                },
            }
        } else {
            Err((ErrorKind::ParseSyntaxError, p))
        }
    }
}

impl Assembler {
    /// Look a symbolic name up.
    #[verifier::loop_isolation(false)]
    fn lookup_sym(&self, s: &str, start: usize, end: usize) -> (r: Option<u32>)
        requires
            start <= end <= s@.len(),
        ensures
            r == sym_lookup(self@.syms, s@.subrange(start as int, end as int)),
    {
        let ghost n = s@.subrange(start as int, end as int);
        let mut j: usize = 0;
        while j < self.syms.len()
            invariant
                j <= self.syms@.len(),
                start <= end <= s@.len(),
                forall|t: int| 0 <= t < j ==> (#[trigger] self@.syms[t]).0 != n,
            decreases self.syms@.len() - j,
        {
            let ks: &str = self.syms[j].0.as_str();
            proof {
                assert(self@.syms[j as int] == (self.syms@[j as int].0@, self.syms@[j as int].1));
                assert(ks@ == self@.syms[j as int].0);
            }
            if match_keyword(s, start, end, ks) {
                proof {
                    assert(n == ks@);
                    assert(self@.syms[j as int].0 == n);
                    lemma_sym_lookup_found(self@.syms, n, j as int);
                    assert(sym_lookup(self@.syms, n) == Some(self@.syms[j as int].1));
                }
                return Some(self.syms[j].1);
            }
            j += 1;
        }
        proof {
            lemma_sym_lookup_none(self@.syms, n);
        }
        None
    }

    /// Parse an identifier token at `p`, updating the state.
    #[verifier::loop_isolation(false)]
    pub fn parse_id(&mut self, s: &str, p: usize) -> (r: Result<(u32, usize), (ErrorKind, usize)>)
        requires
            p <= s@.len(),
        ensures
            match r {
                Ok((v, q)) => parse_id_token(s@, p as int, old(self)@) == Ok::<
                    (u32, int, AsmStV),
                    (ErrorKind, int),
                >((v, q as int, final(self)@)) && p <= q <= s@.len(),
                Err((e, q)) => parse_id_token(s@, p as int, old(self)@) == Err::<
                    (u32, int, AsmStV),
                    (ErrorKind, int),
                >((e, q as int)) && final(self)@ == old(self)@,
            },
    {
        let n = s.unicode_len();
        if p >= n || s.get_char(p) != '%' {
            return Err((ErrorKind::ParseSyntaxError, p));
        }
        let e = token_end_exec(s, p + 1);
        if e == p + 1 {
            proof {
                assert(s@.subrange(p + 1, p + 1).len() == 0);
            }
            return Err((ErrorKind::ParseSyntaxError, p));
        }
        let ghost tok = s@.subrange(p + 1, e as int);
        let ghost st0 = old(self)@;
        // a run of digits is a numeric identifier, whatever its size
        let mut all_dig = true;
        let mut i: usize = p + 1;
        while i < e
            invariant
                p + 1 <= i <= e <= s@.len(),
                all_dig == all_digits(tok.take(i - p - 1)),
            decreases e - i,
        {
            let c = s.get_char(i);
            let cv = c as u32;
            proof {
                assert(tok.take(i - p) =~= tok.take(i - p - 1).push(tok[i - p - 1]));
                assert(tok[i - p - 1] == s@[i as int]);
                crate::numbers::lemma_all_digits_push(tok.take(i - p - 1), tok[i - p - 1]);
            }
            if !(48 <= cv && cv <= 57) {
                all_dig = false;
                proof {
                    assert(!is_digit(tok[i - p - 1]));
                }
            }
            i += 1;
        }
        proof {
            assert(tok.take(e - p - 1) =~= tok);
        }
        if all_dig {
            match parse_u64_dec(s, p + 1, e) {
                Some(v) => {
                    if v == 0 || v >= DEFAULT_MAX_ID_BOUND as u64 {
                        return Err((ErrorKind::IdBoundExceeded, p));
                    }
                    let v32 = v as u32;
                    if v32 > self.max_id {
                        self.max_id = v32;
                    }
                    proof {
                        assert(self@ =~= (AsmStV { max_id: self.max_id, ..st0 }));
                    }
                    Ok((v32, e))
                },
                None => {
                    // all digits but too large for a machine word: far over
                    // the identifier bound
                    return Err((ErrorKind::IdBoundExceeded, p));
                },
            }
        } else {
            let mut i: usize = p + 1;
            while i < e
                invariant
                    p + 1 <= i <= e <= s@.len(),
                    forall|j: int| 0 <= j < i - p - 1 ==> is_ident_char(#[trigger] tok[j]),
                decreases e - i,
            {
                let c = s.get_char(i);
                let cv = c as u32;
                proof {
                    assert(tok[i - p - 1] == s@[i as int]);
                }
                if !((48 <= cv && cv <= 57) || (65 <= cv && cv <= 90) || (97 <= cv && cv <= 122)
                    || cv == 95) {
                    proof {
                        assert(!is_ident_char(tok[i - p - 1]));
                    }
                    return Err((ErrorKind::ParseSyntaxError, p));
                }
                i += 1;
            }
            match self.lookup_sym(s, p + 1, e) {
                Some(v) => {
                    Ok((v, e))
                },
                None => {
                    if self.max_id >= DEFAULT_MAX_ID_BOUND - 1 {
                        return Err((ErrorKind::IdBoundExceeded, p));
                    }
                    let v = self.max_id + 1;
                    let name = s.substring_char(p + 1, e).to_owned();
                    self.syms.push((name, v));
                    self.max_id = v;
                    proof {
                        assert(self@.syms =~= st0.syms.push((tok, v)));
                        assert(self@ =~= (AsmStV { syms: st0.syms.push((tok, v)), max_id: v, ..st0 }));
                    }
                    Ok((v, e))
                },
            }
        }
    }
}


/// Scan a quoted string from just after its opening quote: a backslash
/// quotes the next character; the string must close before the line ends.
pub open spec fn scan_string(src: Seq<char>, q: int, acc: Seq<char>) -> Result<
    (Seq<char>, int),
    (ErrorKind, int),
>
    decreases src.len() - q
        when 0 <= q
{
    if q >= src.len() || src[q] == '\n' || src[q] as u32 == 0 {
        Err((ErrorKind::ParseSyntaxError, q))
    } else if src[q] == '"' {
        Ok((acc, q + 1))
    } else if src[q] == '\\' {
        if q + 1 >= src.len() || src[q + 1] as u32 == 0 {
            Err((ErrorKind::ParseSyntaxError, q))
        } else {
            scan_string(src, q + 2, acc.push(src[q + 1]))
        }
    } else {
        scan_string(src, q + 1, acc.push(src[q]))
    }
}

/// Parse a quoted string literal at `p`.
pub open spec fn parse_string_lit(src: Seq<char>, p: int) -> Result<
    (Seq<char>, int),
    (ErrorKind, int),
> {
    if p >= src.len() || src[p] != '"' {
        Err((ErrorKind::ParseSyntaxError, p))
    } else {
        scan_string(src, p + 1, seq![])
    }
}

/// Executable form of `parse_string_lit`, yielding the unescaped text.
#[verifier::loop_isolation(false)]
pub fn parse_string_lit_exec(s: &str, p: usize) -> (r: Result<(String, usize), (ErrorKind, usize)>)
    requires
        p <= s@.len(),
    ensures
        match r {
            Ok((v, q)) => parse_string_lit(s@, p as int) == Ok::<(Seq<char>, int), (ErrorKind, int)>(
                (v@, q as int),
            ) && p < q <= s@.len(),
            Err((e, q)) => parse_string_lit(s@, p as int) == Err::<
                (Seq<char>, int),
                (ErrorKind, int),
            >((e, q as int)),
        },
{
    let n = s.unicode_len();
    if p >= n || s.get_char(p) != '"' {
        return Err((ErrorKind::ParseSyntaxError, p));
    }
    let mut acc = String::new();
    let mut q: usize = p + 1;
    loop
        invariant
            p + 1 <= q <= n,
            n == s@.len(),
            scan_string(s@, q as int, acc@) == scan_string(s@, p + 1, Seq::<char>::empty()),
        decreases n - q,
    {
        if q >= n {
            return Err((ErrorKind::ParseSyntaxError, q));
        }
        let c = s.get_char(q);
        if c == '\n' || c as u32 == 0 {
            return Err((ErrorKind::ParseSyntaxError, q));
        }
        if c == '"' {
            return Ok((acc, q + 1));
        }
        if c == '\\' {
            if q + 1 >= n {
                return Err((ErrorKind::ParseSyntaxError, q));
            }
            let c2 = s.get_char(q + 1);
            if c2 as u32 == 0 {
                return Err((ErrorKind::ParseSyntaxError, q));
            }
            crate::numbers::push_char(&mut acc, c2);
            q += 2;
        } else {
            crate::numbers::push_char(&mut acc, c);
            q += 1;
        }
    }
}

/// Parse a one-word unsigned literal: a decimal run, or `0x` and a
/// hexadecimal run, fitting 32 bits.
pub open spec fn parse_word_lit(src: Seq<char>, p: int) -> Result<(u32, int), (ErrorKind, int)> {
    let e = token_end(src, p);
    let tok = src.subrange(p, e);
    if tok.len() == 0 {
        Err((ErrorKind::ParseSyntaxError, p))
    } else if tok.len() > 2 && tok[0] == '0' && tok[1] == 'x' {
        let digits = src.subrange(p + 2, e);
        if crate::numbers::all_hex_digits(digits) && crate::numbers::hex_val(digits)
            < 0x1_0000_0000 {
            Ok((crate::numbers::hex_val(digits) as u32, e))
        } else {
            Err((ErrorKind::ParseSyntaxError, p))
        }
    } else if all_digits(tok) && dec_val(tok) < 0x1_0000_0000 {
        Ok((dec_val(tok) as u32, e))
    } else {
        Err((ErrorKind::ParseSyntaxError, p))
    }
}

/// Executable form of `parse_word_lit`.
#[verifier::loop_isolation(false)]
pub fn parse_word_lit_exec(s: &str, p: usize) -> (r: Result<(u32, usize), (ErrorKind, usize)>)
    requires
        p <= s@.len(),
    ensures
        match r {
            Ok((v, q)) => parse_word_lit(s@, p as int) == Ok::<(u32, int), (ErrorKind, int)>(
                (v, q as int),
            ) && p < q <= s@.len(),
            Err((e, q)) => parse_word_lit(s@, p as int) == Err::<(u32, int), (ErrorKind, int)>(
                (e, q as int),
            ),
        },
{
    let e = token_end_exec(s, p);
    let ghost tok = s@.subrange(p as int, e as int);
    if e == p {
        proof {
            assert(tok.len() == 0);
        }
        return Err((ErrorKind::ParseSyntaxError, p));
    }
    if e - p > 2 && s.get_char(p) == '0' && s.get_char(p + 1) == 'x' {
        proof {
            assert(tok[0] == s@[p as int]);
            assert(tok[1] == s@[p + 1]);
        }
        match crate::numbers::parse_u64_hex(s, p + 2, e) {
            Some(v) => {
                if v < 0x1_0000_0000u64 {
                    return Ok((v as u32, e));
                }
                return Err((ErrorKind::ParseSyntaxError, p));
            },
            None => {
                return Err((ErrorKind::ParseSyntaxError, p));
            },
        }
    }
    proof {
        if tok.len() > 2 && tok[0] == '0' && tok[1] == 'x' {
            assert(tok[0] == s@[p as int]);
            assert(tok[1] == s@[p + 1]);
            assert(false);
        }
    }
    match parse_u64_dec(s, p, e) {
        Some(v) => {
            if v < 0x1_0000_0000u64 {
                Ok((v as u32, e))
            } else {
                Err((ErrorKind::ParseSyntaxError, p))
            }
        },
        None => {
            Err((ErrorKind::ParseSyntaxError, p))
        },
    }
}


/// Parse a typed literal number, whose layout the instruction's result type
/// dictates.
pub open spec fn parse_typed_lit(src: Seq<char>, p: int, nt: NumType) -> Result<
    (OperandV, int),
    (ErrorKind, int),
> {
    if nt.floating {
        let e = token_end(src, p);
        let tok = src.subrange(p, e);
        let mant: nat = if nt.width == 64 {
            52
        } else if nt.width == 32 {
            23
        } else {
            10
        };
        if tok.len() > 2 && tok[0] == '0' && tok[1] == 'x' {
            let digits = src.subrange(p + 2, e);
            if crate::numbers::all_hex_digits(digits) && crate::numbers::hex_val(digits)
                <= u64::MAX && (nt.width > 32 || crate::numbers::hex_val(digits) < 0x1_0000_0000) {
                Ok(
                    (
                        OperandV::LiteralFloat {
                            bits: crate::numbers::hex_val(digits) as u64,
                            width: nt.width,
                        },
                        e,
                    ),
                )
            } else {
                Err((ErrorKind::ParseSyntaxError, p))
            }
        } else if tok.len() > 0 && all_digits(tok) && dec_val(tok) < vstd::arithmetic::power2::pow2(
            mant + 1,
        ) {
            let bias: nat = if nt.width == 64 {
                1023
            } else if nt.width == 32 {
                127
            } else {
                15
            };
            Ok(
                (
                    OperandV::LiteralFloat {
                        bits: crate::numbers::float_bits_of_nat(dec_val(tok), mant, bias) as u64,
                        width: nt.width,
                    },
                    e,
                ),
            )
        } else {
            Err((ErrorKind::ParseSyntaxError, p))
        }
    } else {
        if p < src.len() && src[p] == '-' {
            let e = token_end(src, p + 1);
            let tok = src.subrange(p + 1, e);
            if tok.len() > 0 && all_digits(tok) && dec_val(tok) <= vstd::arithmetic::power2::pow2(
                (nt.width - 1) as nat,
            ) && 1 <= nt.width <= 64 {
                let m = dec_val(tok);
                let v: nat = if m == 0 {
                    0
                } else {
                    (vstd::arithmetic::power2::pow2(nt.width as nat) - m) as nat
                };
                Ok((OperandV::LiteralInt { value: v as u64, width: nt.width, signed: nt.signed }, e))
            } else {
                Err((ErrorKind::ParseSyntaxError, p))
            }
        } else {
            let e = token_end(src, p);
            let tok = src.subrange(p, e);
            if tok.len() > 2 && tok[0] == '0' && tok[1] == 'x' {
                let digits = src.subrange(p + 2, e);
                if crate::numbers::all_hex_digits(digits) && 1 <= nt.width <= 64
                    && crate::numbers::hex_val(digits) < (if nt.width == 64 {
                    0x1_0000_0000_0000_0000 as nat
                } else {
                    vstd::arithmetic::power2::pow2(nt.width as nat)
                }) {
                    Ok(
                        (
                            OperandV::LiteralInt {
                                value: crate::numbers::hex_val(digits) as u64,
                                width: nt.width,
                                signed: nt.signed,
                            },
                            e,
                        ),
                    )
                } else {
                    Err((ErrorKind::ParseSyntaxError, p))
                }
            } else if tok.len() > 0 && all_digits(tok) && 1 <= nt.width <= 64 && dec_val(tok) < (
            if nt.width == 64 {
                0x1_0000_0000_0000_0000 as nat
            } else {
                vstd::arithmetic::power2::pow2(nt.width as nat)
            }) {
                Ok(
                    (
                        OperandV::LiteralInt {
                            value: dec_val(tok) as u64,
                            width: nt.width,
                            signed: nt.signed,
                        },
                        e,
                    ),
                )
            } else {
                Err((ErrorKind::ParseSyntaxError, p))
            }
        }
    }
}

/// Executable form of `parse_typed_lit`.
#[verifier::loop_isolation(false)]
#[verifier::rlimit(60)]
pub fn parse_typed_lit_exec(s: &str, p: usize, nt: NumType) -> (r: Result<
    (Operand, usize),
    (ErrorKind, usize),
>)
    requires
        p <= s@.len(),
    ensures
        match r {
            Ok((o, q)) => parse_typed_lit(s@, p as int, nt) == Ok::<
                (OperandV, int),
                (ErrorKind, int),
            >((o@, q as int)) && p < q <= s@.len(),
            Err((e, q)) => parse_typed_lit(s@, p as int, nt) == Err::<
                (OperandV, int),
                (ErrorKind, int),
            >((e, q as int)),
        },
{
    let n = s.unicode_len();
    if nt.floating {
        let e = token_end_exec(s, p);
        let ghost tok = s@.subrange(p as int, e as int);
        let (mant, bias): (u32, u32) = if nt.width == 64 {
            (52, 1023)
        } else if nt.width == 32 {
            (23, 127)
        } else {
            (10, 15)
        };
        if e - p > 2 && s.get_char(p) == '0' && s.get_char(p + 1) == 'x' {
            proof {
                assert(tok[0] == s@[p as int]);
                assert(tok[1] == s@[p + 1]);
            }
            match crate::numbers::parse_u64_hex(s, p + 2, e) {
                Some(v) => {
                    if nt.width <= 32 && v >= 0x1_0000_0000u64 {
                        return Err((ErrorKind::ParseSyntaxError, p));
                    }
                    return Ok((Operand::LiteralFloat { bits: v, width: nt.width }, e));
                },
                None => {
                    return Err((ErrorKind::ParseSyntaxError, p));
                },
            }
        }
        proof {
            if tok.len() > 2 && tok[0] == '0' && tok[1] == 'x' {
                assert(tok[0] == s@[p as int]);
                assert(tok[1] == s@[p + 1]);
                assert(false);
            }
        }
        match parse_u64_dec(s, p, e) {
            Some(v) => {
                let bound = crate::numbers::pow2_u64(mant + 1);
                proof {
                    vstd::arithmetic::power2::lemma2_to64();
                    vstd::arithmetic::power2::lemma2_to64_rest();
                }
                if v >= bound {
                    return Err((ErrorKind::ParseSyntaxError, p));
                }
                let bits = crate::numbers::float_bits_from_int(v, mant, bias);
                Ok((Operand::LiteralFloat { bits, width: nt.width }, e))
            },
            None => {
                proof {
                    vstd::arithmetic::power2::lemma_pow2_strictly_increases((mant + 1) as nat, 64);
                    vstd::arithmetic::power2::lemma2_to64_rest();
                }
                Err((ErrorKind::ParseSyntaxError, p))
            },
        }
    } else {
        if p < n && s.get_char(p) == '-' {
            let e = token_end_exec(s, p + 1);
            match parse_u64_dec(s, p + 1, e) {
                Some(m) => {
                    if !(1 <= nt.width && nt.width <= 64) {
                        return Err((ErrorKind::ParseSyntaxError, p));
                    }
                    if nt.width == 64 {
                        proof {
                            vstd::arithmetic::power2::lemma2_to64_rest();
                        }
                        if m > 0x8000_0000_0000_0000u64 {
                            return Err((ErrorKind::ParseSyntaxError, p));
                        }
                        let v: u64 = if m == 0 {
                            0
                        } else {
                            (u64::MAX - m) + 1
                        };
                        Ok((Operand::LiteralInt { value: v, width: 64, signed: nt.signed }, e))
                    } else {
                        let p1 = crate::numbers::pow2_u64(nt.width - 1);
                        proof {
                            vstd::arithmetic::power2::lemma_pow2_adds((nt.width - 1) as nat, 1);
                            vstd::arithmetic::power2::lemma2_to64();
                            if nt.width - 1 < 63 {
                                vstd::arithmetic::power2::lemma_pow2_strictly_increases(
                                    (nt.width - 1) as nat,
                                    63,
                                );
                            }
                            vstd::arithmetic::power2::lemma2_to64_rest();
                        }
                        if m > p1 {
                            return Err((ErrorKind::ParseSyntaxError, p));
                        }
                        let v: u64 = if m == 0 {
                            0
                        } else {
                            p1 * 2 - m
                        };
                        Ok(
                            (
                                Operand::LiteralInt {
                                    value: v,
                                    width: nt.width,
                                    signed: nt.signed,
                                },
                                e,
                            ),
                        )
                    }
                },
                None => {
                    proof {
                        if 1 <= nt.width <= 64 {
                            if nt.width - 1 < 64 {
                                vstd::arithmetic::power2::lemma_pow2_strictly_increases(
                                    (nt.width - 1) as nat,
                                    64,
                                );
                            }
                            vstd::arithmetic::power2::lemma2_to64_rest();
                        }
                    }
                    Err((ErrorKind::ParseSyntaxError, p))
                },
            }
        } else {
            let e = token_end_exec(s, p);
            let ghost tok = s@.subrange(p as int, e as int);
            if e - p > 2 && s.get_char(p) == '0' && s.get_char(p + 1) == 'x' {
                proof {
                    assert(tok[0] == s@[p as int]);
                    assert(tok[1] == s@[p + 1]);
                }
                match crate::numbers::parse_u64_hex(s, p + 2, e) {
                    Some(v) => {
                        if !(1 <= nt.width && nt.width <= 64) {
                            return Err((ErrorKind::ParseSyntaxError, p));
                        }
                        if nt.width == 64 {
                            return Ok(
                                (Operand::LiteralInt { value: v, width: 64, signed: nt.signed }, e),
                            );
                        }
                        let bound = crate::numbers::pow2_u64(nt.width);
                        proof {
                            if nt.width < 63 {
                                vstd::arithmetic::power2::lemma_pow2_strictly_increases(
                                    nt.width as nat,
                                    63,
                                );
                            }
                            vstd::arithmetic::power2::lemma2_to64_rest();
                        }
                        if v >= bound {
                            return Err((ErrorKind::ParseSyntaxError, p));
                        }
                        return Ok(
                            (Operand::LiteralInt { value: v, width: nt.width, signed: nt.signed }, e),
                        );
                    },
                    None => {
                        proof {
                            if 1 <= nt.width <= 64 && nt.width < 64 {
                                vstd::arithmetic::power2::lemma_pow2_strictly_increases(
                                    nt.width as nat,
                                    64,
                                );
                            }
                            vstd::arithmetic::power2::lemma2_to64_rest();
                        }
                        return Err((ErrorKind::ParseSyntaxError, p));
                    },
                }
            }
            proof {
                if tok.len() > 2 && tok[0] == '0' && tok[1] == 'x' {
                    assert(tok[0] == s@[p as int]);
                    assert(tok[1] == s@[p + 1]);
                    assert(false);
                }
            }
            match parse_u64_dec(s, p, e) {
                Some(v) => {
                    if !(1 <= nt.width && nt.width <= 64) {
                        return Err((ErrorKind::ParseSyntaxError, p));
                    }
                    if nt.width == 64 {
                        return Ok(
                            (Operand::LiteralInt { value: v, width: 64, signed: nt.signed }, e),
                        );
                    }
                    let bound = crate::numbers::pow2_u64(nt.width);
                    proof {
                        if (nt.width as nat) < 63 {
                            vstd::arithmetic::power2::lemma_pow2_strictly_increases(
                                nt.width as nat,
                                63,
                            );
                        }
                        vstd::arithmetic::power2::lemma2_to64_rest();
                    }
                    if v >= bound {
                        return Err((ErrorKind::ParseSyntaxError, p));
                    }
                    Ok((Operand::LiteralInt { value: v, width: nt.width, signed: nt.signed }, e))
                },
                None => {
                    proof {
                        if 1 <= nt.width <= 64 && nt.width < 64 {
                            vstd::arithmetic::power2::lemma_pow2_strictly_increases(
                                nt.width as nat,
                                64,
                            );
                            vstd::arithmetic::power2::lemma2_to64_rest();
                        }
                    }
                    Err((ErrorKind::ParseSyntaxError, p))
                },
            }
        }
    }
}


/// Whether position `q` is past the last token of its line.
pub open spec fn at_eol(src: Seq<char>, q: int) -> bool {
    q >= src.len() || src[q] == '\n' || src[q] == ';'
}

/// Parse one operand of kind `k` at `p` (not at end of line), threading the
/// assembler state.
pub open spec fn parse_operand(
    src: Seq<char>,
    p: int,
    st: AsmStV,
    k: crate::schema::OperandKind,
    num: Option<NumType>,
) -> Result<(OperandV, int, AsmStV), (ErrorKind, int)> {
    match k {
        crate::schema::OperandKind::Id => match parse_id_token(src, p, st) {
            Ok((v, q, st2)) => Ok((OperandV::Id(v), q, st2)),
            Err(e) => Err(e),
        },
        crate::schema::OperandKind::LitInt => match parse_word_lit(src, p) {
            Ok((v, q)) => Ok(
                (OperandV::LiteralInt { value: v as u64, width: 32, signed: false }, q, st),
            ),
            Err(e) => Err(e),
        },
        crate::schema::OperandKind::ExtOpcode => {
            let e = token_end(src, p);
            let tok = src.subrange(p, e);
            if tok.len() == 0 {
                Err((ErrorKind::ParseSyntaxError, p))
            } else {
            match crate::names::glsl_ext_value_spec(tok) {
                Some(v) => Ok(
                    (OperandV::LiteralInt { value: v as u64, width: 32, signed: false }, e, st),
                ),
                None => match parse_word_lit(src, p) {
                    Ok((v, q)) => Ok(
                        (
                            OperandV::LiteralInt { value: v as u64, width: 32, signed: false },
                            q,
                            st,
                        ),
                    ),
                    Err(e2) => Err(e2),
                },
            }
            }
        },
        crate::schema::OperandKind::LitString => match parse_string_lit(src, p) {
            Ok((v, q)) => Ok((OperandV::LiteralString(v), q, st)),
            Err(e) => Err(e),
        },
        crate::schema::OperandKind::En(ek) => {
            let e = token_end(src, p);
            let tok = src.subrange(p, e);
            if tok.len() == 0 {
                Err((ErrorKind::ParseSyntaxError, p))
            } else {
                match crate::names::enum_value_spec(ek, tok) {
                    Some(v) => Ok((OperandV::Enumerated { kind: ek, value: v }, e, st)),
                    None => match parse_word_lit(src, p) {
                        Ok((v, q)) => Ok((OperandV::Enumerated { kind: ek, value: v }, q, st)),
                        Err(e2) => Err(e2),
                    },
                }
            }
        },
        crate::schema::OperandKind::Ma(mk) => {
            let e = token_end(src, p);
            let tok = src.subrange(p, e);
            if tok.len() == 0 {
                Err((ErrorKind::ParseSyntaxError, p))
            } else if tok == "None"@ {
                Ok((OperandV::Mask { kind: mk, value: 0 }, e, st))
            } else {
                match crate::names::mask_value_spec(mk, tok) {
                    Some(v) => Ok((OperandV::Mask { kind: mk, value: v }, e, st)),
                    None => match parse_word_lit(src, p) {
                        Ok((v, q)) => Ok((OperandV::Mask { kind: mk, value: v }, q, st)),
                        Err(e2) => Err(e2),
                    },
                }
            }
        },
        crate::schema::OperandKind::TypedLit => match num {
            None => Err((ErrorKind::UnresolvedTypeWidth, p)),
            Some(nt) => match parse_typed_lit(src, p, nt) {
                Ok((o, q)) => Ok((o, q, st)),
                Err(e) => Err(e),
            },
        },
    }
}

/// Parse the required operand kinds of a schema, accumulating onto `acc`.
pub open spec fn parse_req(
    src: Seq<char>,
    q: int,
    st: AsmStV,
    kinds: Seq<crate::schema::OperandKind>,
    num: Option<NumType>,
    acc: Seq<OperandV>,
) -> Result<(Seq<OperandV>, int, AsmStV), (ErrorKind, int)>
    decreases kinds.len(),
{
    if kinds.len() == 0 {
        Ok((acc, q, st))
    } else {
        let q2 = skip_ws(src, q);
        if at_eol(src, q2) {
            Err((ErrorKind::ParseSyntaxError, q2))
        } else {
            match parse_operand(src, q2, st, kinds[0], num) {
                Err(e) => Err(e),
                Ok((o, q3, st2)) => parse_req(src, q3, st2, kinds.drop_first(), num, acc.push(o)),
            }
        }
    }
}

/// Parse zero or more operands of one kind until the line ends.
pub open spec fn parse_var(
    src: Seq<char>,
    q: int,
    st: AsmStV,
    k: crate::schema::OperandKind,
    num: Option<NumType>,
    acc: Seq<OperandV>,
) -> Result<(Seq<OperandV>, int, AsmStV), (ErrorKind, int)>
    decreases src.len() - q
        when 0 <= q <= src.len()
{
    let q2 = skip_ws(src, q);
    if at_eol(src, q2) {
        Ok((acc, q2, st))
    } else {
        match parse_operand(src, q2, st, k, num) {
            Err(e) => Err(e),
            Ok((o, q3, st2)) => {
                if q < q3 <= src.len() {
                    parse_var(src, q3, st2, k, num, acc.push(o))
                } else {
                    Err((ErrorKind::ParseSyntaxError, q2))
                }
            },
        }
    }
}


/// Parse a schema tail at the end of a line.
pub open spec fn parse_tail(
    src: Seq<char>,
    q: int,
    st: AsmStV,
    tail: crate::schema::Tail,
    num: Option<NumType>,
    acc: Seq<OperandV>,
) -> Result<(Seq<OperandV>, int, AsmStV), (ErrorKind, int)> {
    match tail {
        crate::schema::Tail::NoTail => {
            let q2 = skip_ws(src, q);
            if at_eol(src, q2) {
                Ok((acc, q2, st))
            } else {
                Err((ErrorKind::ParseSyntaxError, q2))
            }
        },
        crate::schema::Tail::Optional(k) => {
            let q2 = skip_ws(src, q);
            if at_eol(src, q2) {
                Ok((acc, q2, st))
            } else {
                match parse_operand(src, q2, st, k, num) {
                    Err(e) => Err(e),
                    Ok((o, q3, st2)) => {
                        let q4 = skip_ws(src, q3);
                        if at_eol(src, q4) {
                            Ok((acc.push(o), q4, st2))
                        } else {
                            Err((ErrorKind::ParseSyntaxError, q4))
                        }
                    },
                }
            }
        },
        crate::schema::Tail::Variable(k) => parse_var(src, q, st, k, num, acc),
    }
}

/// Finish a line: record the instruction, fold a scalar numeric type
/// declaration into the type table, and refuse an instruction too long for
/// its word count.
pub open spec fn build_inst(
    op: u16,
    rt: Option<u32>,
    rid: Option<u32>,
    ops: Seq<OperandV>,
    st: AsmStV,
    pm: int,
    q: int,
) -> Result<(AsmStV, int), (ErrorKind, int)> {
    let iv = InstV { opcode: op, result_type_id: rt, result_id: rid, operands: ops };
    if crate::inst::inst_words(iv) > 0xFFFF {
        Err((ErrorKind::ParseSyntaxError, pm))
    } else {
        Ok(
            (
                AsmStV {
                    types: crate::module::register_type(iv, st.types),
                    insts: st.insts.push(iv),
                    ..st
                },
                q,
            ),
        )
    }
}

/// Parse the rest of a line after its mnemonic token `src[pm..e]`.
#[verifier::opaque]
pub open spec fn parse_after_mnemonic(
    src: Seq<char>,
    pm: int,
    e: int,
    st: AsmStV,
    rid: Option<u32>,
) -> Result<(AsmStV, int), (ErrorKind, int)> {
    let tok = src.subrange(pm, e);
    if tok == "OpUnknown"@ {
        let q1 = skip_ws(src, e);
        if at_eol(src, q1) {
            Err((ErrorKind::ParseSyntaxError, q1))
        } else {
            match parse_word_lit(src, q1) {
                Err(er) => Err(er),
                Ok((opv, q2)) => {
                    if opv >= 0x10000 || rid is Some || crate::schema::schema_of(
                        opv as u16,
                    ) is Some {
                        Err((ErrorKind::ParseSyntaxError, q1))
                    } else {
                        match parse_var(
                            src,
                            q2,
                            st,
                            crate::schema::OperandKind::LitInt,
                            None,
                            seq![],
                        ) {
                            Err(er) => Err(er),
                            Ok((ops, q3, st2)) => build_inst(
                                opv as u16,
                                None,
                                None,
                                ops,
                                st2,
                                pm,
                                q3,
                            ),
                        }
                    }
                },
            }
        }
    } else {
        match crate::names::opcode_of_name_spec(tok) {
            None => Err((ErrorKind::UnknownOpcode, pm)),
            Some(op) => match crate::schema::schema_of(op) {
                None => Err((ErrorKind::UnknownOpcode, pm)),
                Some(sch) => {
                    if (rid is Some) != sch.has_result {
                        Err((ErrorKind::ParseSyntaxError, pm))
                    } else if sch.has_result_type {
                        let q1 = skip_ws(src, e);
                        if at_eol(src, q1) {
                            Err((ErrorKind::ParseSyntaxError, q1))
                        } else {
                            match parse_id_token(src, q1, st) {
                                Err(er) => Err(er),
                                Ok((rt, q2, st2)) => {
                                    let num = if st2.types.contains_key(rt) {
                                        Some(st2.types[rt])
                                    } else {
                                        None
                                    };
                                    match parse_req(src, q2, st2, sch.kinds, num, seq![]) {
                                        Err(er) => Err(er),
                                        Ok((ops1, q3, st3)) => match parse_tail(
                                            src,
                                            q3,
                                            st3,
                                            sch.tail,
                                            num,
                                            ops1,
                                        ) {
                                            Err(er) => Err(er),
                                            Ok((ops, q4, st4)) => build_inst(
                                                op,
                                                Some(rt),
                                                rid,
                                                ops,
                                                st4,
                                                pm,
                                                q4,
                                            ),
                                        },
                                    }
                                },
                            }
                        }
                    } else {
                        match parse_req(src, e, st, sch.kinds, None, seq![]) {
                            Err(er) => Err(er),
                            Ok((ops1, q3, st3)) => match parse_tail(
                                src,
                                q3,
                                st3,
                                sch.tail,
                                None,
                                ops1,
                            ) {
                                Err(er) => Err(er),
                                Ok((ops, q4, st4)) => build_inst(op, None, rid, ops, st4, pm, q4),
                            },
                        }
                    }
                },
            },
        }
    }
}

/// Parse one instruction line starting at its first token.
#[verifier::opaque]
pub open spec fn parse_line(src: Seq<char>, p: int, st: AsmStV) -> Result<
    (AsmStV, int),
    (ErrorKind, int),
> {
    if p < src.len() && src[p] == '%' {
        match parse_id_token(src, p, st) {
            Err(e) => Err(e),
            Ok((rid, q, st2)) => {
                let q2 = skip_ws(src, q);
                if q2 < src.len() && src[q2] == '=' {
                    let q3 = skip_ws(src, q2 + 1);
                    if at_eol(src, q3) {
                        Err((ErrorKind::ParseSyntaxError, q3))
                    } else {
                        let e = token_end(src, q3);
                        if e == q3 {
                            Err((ErrorKind::ParseSyntaxError, q3))
                        } else {
                            parse_after_mnemonic(src, q3, e, st2, Some(rid))
                        }
                    }
                } else {
                    Err((ErrorKind::ParseSyntaxError, q2))
                }
            },
        }
    } else {
        let e = token_end(src, p);
        if e == p {
            Err((ErrorKind::ParseSyntaxError, p))
        } else {
            parse_after_mnemonic(src, p, e, st, None)
        }
    }
}

/// Parse every line of the source, threading the assembler state.
pub open spec fn asm_lines(src: Seq<char>, p: int, st: AsmStV) -> Result<AsmStV, (ErrorKind, int)>
    decreases src.len() + 1 - p
        when 0 <= p <= src.len() + 1
        via asm_lines_decreases
{
    if p >= src.len() {
        Ok(st)
    } else {
        let q = skip_ws(src, p);
        if q >= src.len() {
            Ok(st)
        } else if src[q] == '\n' {
            asm_lines(src, q + 1, st)
        } else if src[q] == ';' {
            asm_lines(src, line_end(src, q) + 1, st)
        } else {
            match parse_line(src, q, st) {
                Err(e) => Err(e),
                Ok((st2, q2)) => {
                    if q <= q2 <= src.len() {
                        asm_lines(src, line_end(src, q2) + 1, st2)
                    } else {
                        Err((ErrorKind::ParseSyntaxError, q))
                    }
                },
            }
        }
    }
}

#[via_fn]
proof fn asm_lines_decreases(src: Seq<char>, p: int, st: AsmStV) {
    if 0 <= p <= src.len() + 1 && p < src.len() {
        lemma_skip_ws_range(src, p);
        let q = skip_ws(src, p);
        if q < src.len() {
            lemma_line_end_range(src, q);
            match parse_line(src, q, st) {
                Err(_) => {},
                Ok((st2, q2)) => {
                    if q <= q2 <= src.len() {
                        lemma_line_end_range(src, q2);
                    }
                },
            }
        }
    }
}

/// The empty assembler state.
pub open spec fn init_state() -> AsmStV {
    AsmStV { syms: seq![], max_id: 0, types: Map::empty(), insts: seq![] }
}

/// What assembling a source text yields: the module of all its instruction
/// lines, under a header with the given version and generator words and an
/// identifier bound one above the largest identifier used.
pub open spec fn asm_spec(src: Seq<char>, version: u32, generator: u32) -> Result<
    crate::inst::ModuleV,
    (ErrorKind, int),
> {
    match asm_lines(src, 0, init_state()) {
        Err(e) => Err(e),
        Ok(st) => Ok(
            crate::inst::ModuleV {
                header: crate::inst::Header {
                    version,
                    generator,
                    id_bound: if st.max_id < u32::MAX {
                        (st.max_id + 1) as u32
                    } else {
                        u32::MAX
                    },
                },
                instructions: st.insts,
            },
        ),
    }
}


impl Assembler {
    /// Parse one operand of kind `k` at `p`, threading the state.
    pub fn parse_operand_exec(
        &mut self,
        s: &str,
        p: usize,
        k: crate::schema::OperandKind,
        num: Option<NumType>,
    ) -> (r: Result<(Operand, usize), (ErrorKind, usize)>)
        requires
            p <= s@.len(),
        ensures
            match r {
                Ok((o, q)) => parse_operand(s@, p as int, old(self)@, k, num) == Ok::<
                    (OperandV, int, AsmStV),
                    (ErrorKind, int),
                >((o@, q as int, final(self)@)) && p < q <= s@.len(),
                Err((e, q)) => parse_operand(s@, p as int, old(self)@, k, num) == Err::<
                    (OperandV, int, AsmStV),
                    (ErrorKind, int),
                >((e, q as int)),
            },
    {
        match k {
            crate::schema::OperandKind::Id => {
                match self.parse_id(s, p) {
                    Ok((v, q)) => {
                        if q <= p {
                            proof {
                                lemma_token_end_range(s@, p + 1);
                                assert(false);
                            }
                        }
                        Ok((Operand::Id(v), q))
                    },
                    Err(e) => Err(e),
                }
            },
            crate::schema::OperandKind::LitInt => {
                match parse_word_lit_exec(s, p) {
                    Ok((v, q)) => Ok(
                        (Operand::LiteralInt { value: v as u64, width: 32, signed: false }, q),
                    ),
                    Err(e) => Err(e),
                }
            },
            crate::schema::OperandKind::ExtOpcode => {
                let e = token_end_exec(s, p);
                if e == p {
                    proof {
                        assert(s@.subrange(p as int, e as int).len() == 0);
                    }
                    return Err((ErrorKind::ParseSyntaxError, p));
                }
                match crate::names::glsl_ext_value(s, p, e) {
                    Some(v) => Ok(
                        (Operand::LiteralInt { value: v as u64, width: 32, signed: false }, e),
                    ),
                    None => {
                        match parse_word_lit_exec(s, p) {
                            Ok((v, q)) => Ok(
                                (
                                    Operand::LiteralInt {
                                        value: v as u64,
                                        width: 32,
                                        signed: false,
                                    },
                                    q,
                                ),
                            ),
                            Err(e2) => Err(e2),
                        }
                    },
                }
            },
            crate::schema::OperandKind::LitString => {
                match parse_string_lit_exec(s, p) {
                    Ok((v, q)) => Ok((Operand::LiteralString(v), q)),
                    Err(e) => Err(e),
                }
            },
            crate::schema::OperandKind::En(ek) => {
                let e = token_end_exec(s, p);
                if e == p {
                    proof {
                        assert(s@.subrange(p as int, e as int).len() == 0);
                    }
                    return Err((ErrorKind::ParseSyntaxError, p));
                }
                match crate::names::enum_value(ek, s, p, e) {
                    Some(v) => Ok((Operand::Enumerated { kind: ek, value: v }, e)),
                    None => {
                        match parse_word_lit_exec(s, p) {
                            Ok((v, q)) => Ok((Operand::Enumerated { kind: ek, value: v }, q)),
                            Err(e2) => Err(e2),
                        }
                    },
                }
            },
            crate::schema::OperandKind::Ma(mk) => {
                let e = token_end_exec(s, p);
                if e == p {
                    proof {
                        assert(s@.subrange(p as int, e as int).len() == 0);
                    }
                    return Err((ErrorKind::ParseSyntaxError, p));
                }
                if match_keyword(s, p, e, "None") {
                    return Ok((Operand::Mask { kind: mk, value: 0 }, e));
                }
                match crate::names::mask_value(mk, s, p, e) {
                    Some(v) => Ok((Operand::Mask { kind: mk, value: v }, e)),
                    None => {
                        match parse_word_lit_exec(s, p) {
                            Ok((v, q)) => Ok((Operand::Mask { kind: mk, value: v }, q)),
                            Err(e2) => Err(e2),
                        }
                    },
                }
            },
            crate::schema::OperandKind::TypedLit => {
                match num {
                    None => Err((ErrorKind::UnresolvedTypeWidth, p)),
                    Some(nt) => {
                        match parse_typed_lit_exec(s, p, nt) {
                            Ok((o, q)) => Ok((o, q)),
                            Err(e) => Err(e),
                        }
                    },
                }
            },
        }
    }
}


/// Executable form of `at_eol`.
pub fn at_eol_exec(s: &str, q: usize) -> (r: bool)
    requires
        q <= s@.len(),
    ensures
        r == at_eol(s@, q as int),
{
    if q >= s.unicode_len() {
        return true;
    }
    let c = s.get_char(q);
    c == '\n' || c == ';'
}

impl Assembler {
    /// Parse the required operand kinds of a schema.
    #[verifier::loop_isolation(false)]
    fn parse_req_exec(
        &mut self,
        s: &str,
        q0: usize,
        kinds: &Vec<crate::schema::OperandKind>,
        num: Option<NumType>,
        ops: &mut Vec<Operand>,
    ) -> (r: Result<usize, (ErrorKind, usize)>)
        requires
            q0 <= s@.len(),
        ensures
            match r {
                Ok(q2) => parse_req(
                    s@,
                    q0 as int,
                    old(self)@,
                    kinds@,
                    num,
                    crate::codec::ops_view(old(ops)@),
                ) == Ok::<(Seq<OperandV>, int, AsmStV), (ErrorKind, int)>(
                    (crate::codec::ops_view(final(ops)@), q2 as int, final(self)@),
                ) && q2 <= s@.len(),
                Err((e, q)) => parse_req(
                    s@,
                    q0 as int,
                    old(self)@,
                    kinds@,
                    num,
                    crate::codec::ops_view(old(ops)@),
                ) == Err::<(Seq<OperandV>, int, AsmStV), (ErrorKind, int)>((e, q as int)),
            },
    {
        let ghost target = parse_req(
            s@,
            q0 as int,
            self@,
            kinds@,
            num,
            crate::codec::ops_view(ops@),
        );
        let mut q: usize = q0;
        let mut ki: usize = 0;
        proof {
            assert(kinds@.skip(0) =~= kinds@);
        }
        while ki < kinds.len()
            invariant
                ki <= kinds@.len(),
                q <= s@.len(),
                parse_req(
                    s@,
                    q as int,
                    self@,
                    kinds@.skip(ki as int),
                    num,
                    crate::codec::ops_view(ops@),
                ) == target,
            decreases kinds@.len() - ki,
        {
            let q2 = skip_ws_exec(s, q);
            proof {
                assert(kinds@.skip(ki as int)[0] == kinds@[ki as int]);
                assert(kinds@.skip(ki as int).drop_first() =~= kinds@.skip(ki + 1));
            }
            if at_eol_exec(s, q2) {
                return Err((ErrorKind::ParseSyntaxError, q2));
            }
            match self.parse_operand_exec(s, q2, kinds[ki], num) {
                Err(e) => {
                    return Err(e);
                },
                Ok((o, q3)) => {
                    proof {
                        assert(crate::codec::ops_view(ops@.push(o)) =~= crate::codec::ops_view(
                            ops@,
                        ).push(o@));
                    }
                    ops.push(o);
                    q = q3;
                    ki += 1;
                },
            }
        }
        proof {
            assert(kinds@.skip(kinds@.len() as int) =~= Seq::<crate::schema::OperandKind>::empty());
        }
        Ok(q)
    }

    /// Parse a schema tail at the end of a line.
    #[verifier::loop_isolation(false)]
    fn parse_tail_exec(
        &mut self,
        s: &str,
        q0: usize,
        tail: crate::schema::Tail,
        num: Option<NumType>,
        ops: &mut Vec<Operand>,
    ) -> (r: Result<usize, (ErrorKind, usize)>)
        requires
            q0 <= s@.len(),
        ensures
            match r {
                Ok(q2) => parse_tail(
                    s@,
                    q0 as int,
                    old(self)@,
                    tail,
                    num,
                    crate::codec::ops_view(old(ops)@),
                ) == Ok::<(Seq<OperandV>, int, AsmStV), (ErrorKind, int)>(
                    (crate::codec::ops_view(final(ops)@), q2 as int, final(self)@),
                ) && q2 <= s@.len(),
                Err((e, q)) => parse_tail(
                    s@,
                    q0 as int,
                    old(self)@,
                    tail,
                    num,
                    crate::codec::ops_view(old(ops)@),
                ) == Err::<(Seq<OperandV>, int, AsmStV), (ErrorKind, int)>((e, q as int)),
            },
    {
        match tail {
            crate::schema::Tail::NoTail => {
                let q2 = skip_ws_exec(s, q0);
                if at_eol_exec(s, q2) {
                    Ok(q2)
                } else {
                    Err((ErrorKind::ParseSyntaxError, q2))
                }
            },
            crate::schema::Tail::Optional(k) => {
                let q2 = skip_ws_exec(s, q0);
                if at_eol_exec(s, q2) {
                    return Ok(q2);
                }
                match self.parse_operand_exec(s, q2, k, num) {
                    Err(e) => Err(e),
                    Ok((o, q3)) => {
                        let q4 = skip_ws_exec(s, q3);
                        if at_eol_exec(s, q4) {
                            proof {
                                assert(crate::codec::ops_view(ops@.push(o))
                                    =~= crate::codec::ops_view(ops@).push(o@));
                            }
                            ops.push(o);
                            Ok(q4)
                        } else {
                            Err((ErrorKind::ParseSyntaxError, q4))
                        }
                    },
                }
            },
            crate::schema::Tail::Variable(k) => {
                let ghost target = parse_var(
                    s@,
                    q0 as int,
                    self@,
                    k,
                    num,
                    crate::codec::ops_view(ops@),
                );
                let mut q: usize = q0;
                loop
                    invariant
                        q <= s@.len(),
                        parse_var(s@, q as int, self@, k, num, crate::codec::ops_view(ops@))
                            == target,
                    decreases s@.len() - q,
                {
                    let q2 = skip_ws_exec(s, q);
                    if at_eol_exec(s, q2) {
                        return Ok(q2);
                    }
                    match self.parse_operand_exec(s, q2, k, num) {
                        Err(e) => {
                            return Err(e);
                        },
                        Ok((o, q3)) => {
                            proof {
                                assert(crate::codec::ops_view(ops@.push(o))
                                    =~= crate::codec::ops_view(ops@).push(o@));
                            }
                            ops.push(o);
                            q = q3;
                        },
                    }
                }
            },
        }
    }
}


impl Assembler {
    /// Record a finished instruction.
    fn build_inst_exec(
        &mut self,
        op: u16,
        rt: Option<u32>,
        rid: Option<u32>,
        ops: Vec<Operand>,
        pm: usize,
        q: usize,
    ) -> (r: Result<usize, (ErrorKind, usize)>)
        ensures
            match r {
                Ok(q2) => build_inst(
                    op,
                    rt,
                    rid,
                    crate::codec::ops_view(ops@),
                    old(self)@,
                    pm as int,
                    q as int,
                ) == Ok::<(AsmStV, int), (ErrorKind, int)>((final(self)@, q2 as int)) && q2 == q,
                Err((e, qe)) => build_inst(
                    op,
                    rt,
                    rid,
                    crate::codec::ops_view(ops@),
                    old(self)@,
                    pm as int,
                    q as int,
                ) == Err::<(AsmStV, int), (ErrorKind, int)>((e, qe as int)),
            },
    {
        let inst = Instruction { opcode: op, result_type_id: rt, result_id: rid, operands: ops };
        let ghost iv = inst@;
        proof {
            assert(iv.operands =~= crate::codec::ops_view(inst.operands@));
        }
        let words = crate::codec::encode(&inst);
        proof {
            crate::codec::lemma_enc_inst_len(iv);
        }
        if words.len() > 0xFFFF {
            return Err((ErrorKind::ParseSyntaxError, pm));
        }
        crate::module::register_type_exec(&inst, &mut self.types);
        let ghost mid = self@;
        self.insts.push(inst);
        proof {
            assert(self@.insts =~= mid.insts.push(iv));
            assert(self@ =~= (AsmStV {
                types: crate::module::register_type(iv, old(self)@.types),
                insts: old(self)@.insts.push(iv),
                ..old(self)@
            }));
        }
        Ok(q)
    }

    /// Parse the rest of a line after its mnemonic token.
    #[verifier::rlimit(100)]
    fn parse_after_mnemonic_exec(
        &mut self,
        s: &str,
        pm: usize,
        e: usize,
        rid: Option<u32>,
    ) -> (r: Result<usize, (ErrorKind, usize)>)
        requires
            pm <= e <= s@.len(),
        ensures
            match r {
                Ok(q2) => parse_after_mnemonic(s@, pm as int, e as int, old(self)@, rid) == Ok::<
                    (AsmStV, int),
                    (ErrorKind, int),
                >((final(self)@, q2 as int)) && q2 <= s@.len(),
                Err((er, qe)) => parse_after_mnemonic(s@, pm as int, e as int, old(self)@, rid)
                    == Err::<(AsmStV, int), (ErrorKind, int)>((er, qe as int)),
            },
    {
        proof {
            reveal(parse_after_mnemonic);
        }
        if match_keyword(s, pm, e, "OpUnknown") {
            let q1 = skip_ws_exec(s, e);
            if at_eol_exec(s, q1) {
                return Err((ErrorKind::ParseSyntaxError, q1));
            }
            match parse_word_lit_exec(s, q1) {
                Err(er) => Err(er),
                Ok((opv, q2)) => {
                    if opv >= 0x10000 || rid.is_some() {
                        return Err((ErrorKind::ParseSyntaxError, q1));
                    }
                    if crate::schema::schema_for(opv as u16).is_some() {
                        return Err((ErrorKind::ParseSyntaxError, q1));
                    }
                    let mut ops: Vec<Operand> = Vec::new();
                    proof {
                        assert(crate::codec::ops_view(ops@) =~= Seq::<OperandV>::empty());
                    }
                    match self.parse_tail_exec(
                        s,
                        q2,
                        crate::schema::Tail::Variable(crate::schema::OperandKind::LitInt),
                        None,
                        &mut ops,
                    ) {
                        Err(er) => Err(er),
                        Ok(q3) => self.build_inst_exec(opv as u16, None, None, ops, pm, q3),
                    }
                },
            }
        } else {
            let opcode = match crate::names::opcode_of_name(s, pm, e) {
                None => {
                    return Err((ErrorKind::UnknownOpcode, pm));
                },
                Some(op) => op,
            };
            let sch = match crate::schema::schema_for(opcode) {
                None => {
                    return Err((ErrorKind::UnknownOpcode, pm));
                },
                Some(sch) => sch,
            };
            if rid.is_some() != sch.has_result {
                return Err((ErrorKind::ParseSyntaxError, pm));
            }
            if sch.has_result_type {
                let q1 = skip_ws_exec(s, e);
                if at_eol_exec(s, q1) {
                    return Err((ErrorKind::ParseSyntaxError, q1));
                }
                match self.parse_id(s, q1) {
                    Err(er) => Err(er),
                    Ok((rt, q2)) => {
                        let num = self.types.get(rt);
                        let mut ops: Vec<Operand> = Vec::new();
                        proof {
                            assert(crate::codec::ops_view(ops@) =~= Seq::<OperandV>::empty());
                        }
                        match self.parse_req_exec(s, q2, &sch.kinds, num, &mut ops) {
                            Err(er) => Err(er),
                            Ok(q3) => {
                                match self.parse_tail_exec(s, q3, sch.tail, num, &mut ops) {
                                    Err(er) => Err(er),
                                    Ok(q4) => self.build_inst_exec(
                                        opcode,
                                        Some(rt),
                                        rid,
                                        ops,
                                        pm,
                                        q4,
                                    ),
                                }
                            },
                        }
                    },
                }
            } else {
                let mut ops: Vec<Operand> = Vec::new();
                proof {
                    assert(crate::codec::ops_view(ops@) =~= Seq::<OperandV>::empty());
                }
                match self.parse_req_exec(s, e, &sch.kinds, None, &mut ops) {
                    Err(er) => Err(er),
                    Ok(q3) => {
                        match self.parse_tail_exec(s, q3, sch.tail, None, &mut ops) {
                            Err(er) => Err(er),
                            Ok(q4) => self.build_inst_exec(opcode, None, rid, ops, pm, q4),
                        }
                    },
                }
            }
        }
    }

    /// Parse one instruction line starting at its first token.
    #[verifier::rlimit(60)]
    fn parse_line_exec(&mut self, s: &str, p: usize) -> (r: Result<usize, (ErrorKind, usize)>)
        requires
            p <= s@.len(),
        ensures
            match r {
                Ok(q2) => parse_line(s@, p as int, old(self)@) == Ok::<
                    (AsmStV, int),
                    (ErrorKind, int),
                >((final(self)@, q2 as int)) && q2 <= s@.len(),
                Err((er, qe)) => parse_line(s@, p as int, old(self)@) == Err::<
                    (AsmStV, int),
                    (ErrorKind, int),
                >((er, qe as int)),
            },
    {
        proof {
            reveal(parse_line);
        }
        let n = s.unicode_len();
        if p < n && s.get_char(p) == '%' {
            match self.parse_id(s, p) {
                Err(er) => Err(er),
                Ok((rid, q)) => {
                    let q2 = skip_ws_exec(s, q);
                    if q2 < n && s.get_char(q2) == '=' {
                        let q3 = skip_ws_exec(s, q2 + 1);
                        if at_eol_exec(s, q3) {
                            return Err((ErrorKind::ParseSyntaxError, q3));
                        }
                        let e = token_end_exec(s, q3);
                        if e == q3 {
                            return Err((ErrorKind::ParseSyntaxError, q3));
                        }
                        self.parse_after_mnemonic_exec(s, q3, e, Some(rid))
                    } else {
                        Err((ErrorKind::ParseSyntaxError, q2))
                    }
                },
            }
        } else {
            let e = token_end_exec(s, p);
            if e == p {
                return Err((ErrorKind::ParseSyntaxError, p));
            }
            self.parse_after_mnemonic_exec(s, p, e, None)
        }
    }
}

/// Assemble a source text into a module, under a header with the given
/// version and generator words.  A failure reports its kind with the
/// one-based line and column it was found at.
#[verifier::loop_isolation(false)]
#[verifier::rlimit(100)]
pub fn assemble_text(s: &str, version: u32, generator: u32) -> (r: Result<
    crate::inst::Module,
    crate::inst::Diagnostic,
>)
    ensures
        match r {
            Ok(m) => asm_spec(s@, version, generator) == Ok::<
                crate::inst::ModuleV,
                (ErrorKind, int),
            >(m@),
            Err(d) => asm_spec(s@, version, generator) matches Err(ep) && d.kind == ep.0
                && d.position.line == line_of(s@, ep.1) && d.position.column == col_of(s@, ep.1)
                && d.position.word_index == 0 && d.severity == crate::inst::Severity::Error,
        },
{
    let mut st = Assembler {
        syms: Vec::new(),
        max_id: 0,
        types: crate::codec::TypeTable::new(),
        insts: Vec::new(),
    };
    proof {
        assert(st@ =~= init_state());
        assert(st@.syms =~= init_state().syms);
        assert(st@.insts =~= init_state().insts);
    }
    let ghost target = asm_lines(s@, 0, init_state());
    let n = s.unicode_len();
    let mut p: usize = 0;
    loop
        invariant
            p <= n + 1,
            n == s@.len(),
            asm_lines(s@, p as int, st@) == target,
        decreases n + 1 - p,
    {
        if p >= n {
            let id_bound: u32 = if st.max_id < u32::MAX {
                st.max_id + 1
            } else {
                u32::MAX
            };
            let m = crate::inst::Module {
                header: crate::inst::Header { version, generator, id_bound },
                instructions: st.insts,
            };
            proof {
                assert(asm_spec(s@, version, generator) matches Ok(mv) && mv =~= m@);
            }
            return Ok(m);
        }
        let q = skip_ws_exec(s, p);
        if q >= n {
            let id_bound: u32 = if st.max_id < u32::MAX {
                st.max_id + 1
            } else {
                u32::MAX
            };
            let m = crate::inst::Module {
                header: crate::inst::Header { version, generator, id_bound },
                instructions: st.insts,
            };
            proof {
                assert(asm_spec(s@, version, generator) matches Ok(mv) && mv =~= m@);
            }
            return Ok(m);
        }
        let c = s.get_char(q);
        if c == '\n' {
            p = q + 1;
        } else if c == ';' {
            let le = line_end_exec(s, q);
            if le >= n {
                proof {
                    assert(asm_lines(s@, le + 1, st@) == Ok::<AsmStV, (ErrorKind, int)>(st@));
                    assert(asm_lines(s@, n as int, st@) == Ok::<AsmStV, (ErrorKind, int)>(st@));
                }
                p = n;
            } else {
                p = le + 1;
            }
        } else {
            match st.parse_line_exec(s, q) {
                Err((ekind, epos)) => {
                    proof {
                        assert(asm_spec(s@, version, generator) == Err::<
                            crate::inst::ModuleV,
                            (ErrorKind, int),
                        >((ekind, epos as int)));
                    }
                    let (line, column) = line_col_exec(s, epos);
                    return Err(
                        crate::inst::Diagnostic {
                            kind: ekind,
                            position: crate::inst::Position { word_index: 0, line, column },
                            severity: crate::inst::Severity::Error,
                        },
                    );
                },
                Ok(q2) => {
                    if q2 < q {
                        let (line, column) = line_col_exec(s, q);
                        return Err(
                            crate::inst::Diagnostic {
                                kind: ErrorKind::ParseSyntaxError,
                                position: crate::inst::Position { word_index: 0, line, column },
                                severity: crate::inst::Severity::Error,
                            },
                        );
                    }
                    let le = line_end_exec(s, q2);
                    if le >= n {
                        proof {
                            assert(asm_lines(s@, le + 1, st@) == Ok::<AsmStV, (ErrorKind, int)>(
                                st@,
                            ));
                            assert(asm_lines(s@, n as int, st@) == Ok::<AsmStV, (ErrorKind, int)>(
                                st@,
                            ));
                        }
                        p = n;
                    } else {
                        p = le + 1;
                    }
                },
            }
        }
    }
}


/// Text without the nul character encodes to bytes without a zero.
proof fn lemma_encode_utf8_no_zero(s: Seq<char>)
    requires
        forall|j: int| 0 <= j < s.len() ==> (#[trigger] s[j]) as u32 != 0,
    ensures
        forall|k: int|
            0 <= k < vstd::utf8::encode_utf8(s).len() ==> vstd::utf8::encode_utf8(s)[k] != 0,
    decreases s.len(),
{
    if s.len() > 0 {
        let v = s[0] as u32;
        assert(v != 0);
        let head = vstd::utf8::encode_scalar(v);
        assert forall|k: int| 0 <= k < head.len() implies head[k] != 0 by {
            if vstd::utf8::has_width_1_encoding(v) {
                assert(v != 0 && v <= 0x7F ==> (v & 0x7F) as u8 != 0) by (bit_vector);
            } else {
                assert((0xC0 | ((v >> 6) & 0x1F) as u8) != 0) by (bit_vector);
                assert((0xE0 | ((v >> 12) & 0x0F) as u8) != 0) by (bit_vector);
                assert((0xF0 | ((v >> 18) & 0x7) as u8) != 0) by (bit_vector);
                assert((0x80 | (v & 0x3F) as u8) != 0) by (bit_vector);
                assert((0x80 | ((v >> 6) & 0x3F) as u8) != 0) by (bit_vector);
                assert((0x80 | ((v >> 12) & 0x3F) as u8) != 0) by (bit_vector);
            }
        }
        assert(forall|j: int|
            0 <= j < s.drop_first().len() ==> (#[trigger] s.drop_first()[j]) as u32 != 0);
        lemma_encode_utf8_no_zero(s.drop_first());
        let tail = vstd::utf8::encode_utf8(s.drop_first());
        assert forall|k: int|
            0 <= k < vstd::utf8::encode_utf8(s).len() implies vstd::utf8::encode_utf8(s)[k]
            != 0 by {
            assert(vstd::utf8::encode_utf8(s) == head + tail);
            if k < head.len() {
                assert(vstd::utf8::encode_utf8(s)[k] == head[k]);
            } else {
                assert(vstd::utf8::encode_utf8(s)[k] == tail[k - head.len()]);
            }
        }
    }
}

/// Every character a string scan accepts is not the nul character.
proof fn lemma_scan_string_no_nul(src: Seq<char>, q: int, acc: Seq<char>)
    requires
        0 <= q,
        forall|j: int| 0 <= j < acc.len() ==> (#[trigger] acc[j]) as u32 != 0,
        scan_string(src, q, acc) is Ok,
    ensures
        forall|j: int|
            0 <= j < scan_string(src, q, acc)->Ok_0.0.len() ==> (#[trigger] scan_string(
                src,
                q,
                acc,
            )->Ok_0.0[j]) as u32 != 0,
    decreases src.len() - q,
{
    if q >= src.len() || src[q] == '\n' || src[q] as u32 == 0 {
    } else if src[q] == '"' {
    } else if src[q] == '\\' {
        if q + 1 < src.len() && src[q + 1] as u32 != 0 {
            assert(forall|j: int|
                0 <= j < acc.push(src[q + 1]).len() ==> (#[trigger] acc.push(src[q + 1])[j])
                    as u32 != 0);
            lemma_scan_string_no_nul(src, q + 2, acc.push(src[q + 1]));
        }
    } else {
        assert(forall|j: int|
            0 <= j < acc.push(src[q]).len() ==> (#[trigger] acc.push(src[q])[j]) as u32 != 0);
        lemma_scan_string_no_nul(src, q + 1, acc.push(src[q]));
    }
}


/// A numeric class a well-built type table can hold.
pub open spec fn nt_ok(nt: NumType) -> bool {
    if nt.floating {
        nt.width == 16 || nt.width == 32 || nt.width == 64
    } else {
        1 <= nt.width <= 64
    }
}

/// A parsed operand fits its schema slot, is well-formed, and leaves the
/// type table and the instruction list alone.
proof fn lemma_parse_operand_wf(
    src: Seq<char>,
    p: int,
    st: AsmStV,
    k: crate::schema::OperandKind,
    num: Option<NumType>,
)
    requires
        0 <= p <= src.len(),
        parse_operand(src, p, st, k, num) is Ok,
        num matches Some(nt) ==> nt_ok(nt),
    ensures
        ({
            let (o, q, st2) = parse_operand(src, p, st, k, num)->Ok_0;
            crate::inst::operand_has_kind(o, k, num) && crate::inst::operand_wf(o) && st2.types
                == st.types && st2.insts == st.insts && 0 <= q <= src.len()
        }),
{
    let (o, q, st2) = parse_operand(src, p, st, k, num)->Ok_0;
    match k {
        crate::schema::OperandKind::Id => {
            lemma_token_end_range(src, p + 1);
        },
        crate::schema::OperandKind::LitInt => {
            lemma_token_end_range(src, p);
        },
        crate::schema::OperandKind::ExtOpcode => {
            lemma_token_end_range(src, p);
        },
        crate::schema::OperandKind::LitString => {
            lemma_scan_string_range(src, p + 1, Seq::<char>::empty());
        },
        crate::schema::OperandKind::En(ek) => {
            lemma_token_end_range(src, p);
        },
        crate::schema::OperandKind::Ma(mk) => {
            lemma_token_end_range(src, p);
        },
        crate::schema::OperandKind::TypedLit => {
            lemma_token_end_range(src, p);
            if p < src.len() && src[p] == '-' {
                lemma_token_end_range(src, p + 1);
            }
        },
    }
    match k {
        crate::schema::OperandKind::Id => {},
        crate::schema::OperandKind::LitInt => {},
        crate::schema::OperandKind::ExtOpcode => {},
        crate::schema::OperandKind::LitString => {
            let acc0 = Seq::<char>::empty();
            lemma_scan_string_no_nul(src, p + 1, acc0);
            let v = scan_string(src, p + 1, acc0)->Ok_0.0;
            lemma_encode_utf8_no_zero(v);
        },
        crate::schema::OperandKind::En(ek) => {},
        crate::schema::OperandKind::Ma(mk) => {},
        crate::schema::OperandKind::TypedLit => {
            let nt = num->Some_0;
            if !nt.floating {
                if p < src.len() && src[p] == '-' {
                    let e = token_end(src, p + 1);
                    let tok = src.subrange(p + 1, e);
                    let m = dec_val(tok);
                    if nt.width <= 32 {
                        vstd::arithmetic::power2::lemma2_to64();
                        if nt.width < 32 {
                            vstd::arithmetic::power2::lemma_pow2_strictly_increases(
                                nt.width as nat,
                                32,
                            );
                        }
                        assert(vstd::arithmetic::power2::pow2(nt.width as nat) <= 0x1_0000_0000);
                    }
                } else {
                    if nt.width <= 32 {
                        vstd::arithmetic::power2::lemma2_to64();
                        if nt.width < 32 {
                            vstd::arithmetic::power2::lemma_pow2_strictly_increases(
                                nt.width as nat,
                                32,
                            );
                        }
                    }
                }
            } else {
                if nt.width <= 32 {
                    let e = token_end(src, p);
                    let tok = src.subrange(p, e);
                    if !(tok.len() > 2 && tok[0] == '0' && tok[1] == 'x') {
                        let mant: nat = if nt.width == 32 {
                            23
                        } else {
                            10
                        };
                        let bias: nat = if nt.width == 32 {
                            127
                        } else {
                            15
                        };
                        lemma_float_bits_small(dec_val(tok), mant, bias);
                    }
                }
            }
        },
    }
}

/// The bit pattern of a small integer in a narrow format fits one word.
proof fn lemma_float_bits_small(n: nat, mant: nat, bias: nat)
    requires
        mant <= 23,
        bias <= 127,
        n < vstd::arithmetic::power2::pow2(mant + 1),
    ensures
        crate::numbers::float_bits_of_nat(n, mant, bias) < 0x1_0000_0000,
{
    vstd::arithmetic::power2::lemma2_to64();
    vstd::arithmetic::power2::lemma2_to64_rest();
    if n > 0 {
        let e = crate::numbers::highest_bit(n);
        crate::numbers::lemma_highest_bit_range(n);
        if e > mant {
            vstd::arithmetic::power2::lemma_pow2_strictly_increases(mant + 1, e);
            assert(false);
        }
        vstd::arithmetic::power2::lemma_pow2_adds(e, (mant - e) as nat);
        vstd::arithmetic::power2::lemma_pow2_adds((e + 1) as nat, (mant - e) as nat);
        vstd::arithmetic::power2::lemma_pow2_pos((mant - e) as nat);
        assert(vstd::arithmetic::power2::pow2(mant) <= vstd::arithmetic::power2::pow2(23)) by {
            if mant < 23 {
                vstd::arithmetic::power2::lemma_pow2_strictly_increases(mant, 23);
            }
        }
        assert(vstd::arithmetic::power2::pow2(mant + 1) <= vstd::arithmetic::power2::pow2(24)) by {
            if mant + 1 < 24 {
                vstd::arithmetic::power2::lemma_pow2_strictly_increases(mant + 1, 24);
            }
        }
        assert(n * vstd::arithmetic::power2::pow2((mant - e) as nat) < vstd::arithmetic::power2::pow2(
            mant + 1,
        )) by (nonlinear_arith)
            requires
                n < vstd::arithmetic::power2::pow2((e + 1) as nat),
                vstd::arithmetic::power2::pow2((e + 1) as nat) * vstd::arithmetic::power2::pow2(
                    (mant - e) as nat,
                ) == vstd::arithmetic::power2::pow2(mant + 1),
                vstd::arithmetic::power2::pow2((mant - e) as nat) >= 1,
        ;
        assert((e + bias) * vstd::arithmetic::power2::pow2(mant) <= 150 * vstd::arithmetic::power2::pow2(
            23,
        )) by (nonlinear_arith)
            requires
                e <= 23,
                bias <= 127,
                mant <= 23,
                vstd::arithmetic::power2::pow2(mant) <= vstd::arithmetic::power2::pow2(23),
        ;
        assert(n * vstd::arithmetic::power2::pow2((mant - e) as nat)
            >= vstd::arithmetic::power2::pow2(mant)) by (nonlinear_arith)
            requires
                n >= vstd::arithmetic::power2::pow2(e),
                vstd::arithmetic::power2::pow2(e) * vstd::arithmetic::power2::pow2(
                    (mant - e) as nat,
                ) == vstd::arithmetic::power2::pow2(mant),
        ;
        assert(crate::numbers::float_bits_of_nat(n, mant, bias) <= 150
            * vstd::arithmetic::power2::pow2(23) + vstd::arithmetic::power2::pow2(24));
        assert(150 * vstd::arithmetic::power2::pow2(23) + vstd::arithmetic::power2::pow2(24)
            < 0x1_0000_0000);
    }
}


/// A successful string scan ends at or after where it began.
proof fn lemma_scan_string_range(src: Seq<char>, q: int, acc: Seq<char>)
    requires
        0 <= q,
        scan_string(src, q, acc) is Ok,
    ensures
        q <= scan_string(src, q, acc)->Ok_0.1 <= src.len(),
    decreases src.len() - q,
{
    if q >= src.len() || src[q] == '\n' || src[q] as u32 == 0 {
    } else if src[q] == '"' {
    } else if src[q] == '\\' {
        if q + 1 < src.len() && src[q + 1] as u32 != 0 {
            lemma_scan_string_range(src, q + 2, acc.push(src[q + 1]));
        }
    } else {
        lemma_scan_string_range(src, q + 1, acc.push(src[q]));
    }
}

/// Every operand a required-kinds parse yields fits its slot and is
/// well-formed; the type table and instruction list pass through untouched.
proof fn lemma_parse_req_wf(
    src: Seq<char>,
    q: int,
    st: AsmStV,
    kinds: Seq<crate::schema::OperandKind>,
    num: Option<NumType>,
    acc: Seq<OperandV>,
)
    requires
        0 <= q <= src.len(),
        parse_req(src, q, st, kinds, num, acc) is Ok,
        num matches Some(nt) ==> nt_ok(nt),
    ensures
        ({
            let (ops, q2, st2) = parse_req(src, q, st, kinds, num, acc)->Ok_0;
            &&& ops.len() == acc.len() + kinds.len()
            &&& ops.take(acc.len() as int) == acc
            &&& forall|t: int|
                0 <= t < kinds.len() ==> crate::inst::operand_has_kind(
                    #[trigger] ops[acc.len() + t],
                    kinds[t],
                    num,
                ) && crate::inst::operand_wf(ops[acc.len() + t])
            &&& st2.types == st.types
            &&& st2.insts == st.insts
            &&& 0 <= q2 <= src.len()
        }),
    decreases kinds.len(),
{
    if kinds.len() == 0 {
        let (ops, q2, st2) = parse_req(src, q, st, kinds, num, acc)->Ok_0;
        assert(ops.take(acc.len() as int) =~= acc);
    } else {
        let q2 = skip_ws(src, q);
        lemma_skip_ws_range(src, q);
        let (o, q3, st1) = parse_operand(src, q2, st, kinds[0], num)->Ok_0;
        lemma_parse_operand_wf(src, q2, st, kinds[0], num);
        lemma_parse_req_wf(src, q3, st1, kinds.drop_first(), num, acc.push(o));
        let (ops, qf, st2) = parse_req(src, q, st, kinds, num, acc)->Ok_0;
        assert(ops.take(acc.len() as int) =~= acc) by {
            assert(ops.take((acc.len() + 1) as int) == acc.push(o));
            assert forall|j: int| 0 <= j < acc.len() implies ops.take(acc.len() as int)[j]
                == acc[j] by {
                assert(ops.take((acc.len() + 1) as int)[j] == acc.push(o)[j]);
            }
        }
        assert forall|t: int|
            0 <= t < kinds.len() implies crate::inst::operand_has_kind(
            #[trigger] ops[acc.len() + t],
            kinds[t],
            num,
        ) && crate::inst::operand_wf(ops[acc.len() + t]) by {
            if t == 0 {
                assert(ops.take((acc.len() + 1) as int)[acc.len() as int] == acc.push(
                    o,
                )[acc.len() as int]);
                assert(ops[acc.len() as int] == o);
            } else {
                assert(ops[acc.push(o).len() + (t - 1)] == ops[acc.len() + t]);
                assert(kinds.drop_first()[t - 1] == kinds[t]);
            }
        }
    }
}

/// Every operand a variable-tail parse yields fits the tail's kind and is
/// well-formed; the state passes through untouched.
proof fn lemma_parse_var_wf(
    src: Seq<char>,
    q: int,
    st: AsmStV,
    k: crate::schema::OperandKind,
    num: Option<NumType>,
    acc: Seq<OperandV>,
)
    requires
        0 <= q <= src.len(),
        parse_var(src, q, st, k, num, acc) is Ok,
        num matches Some(nt) ==> nt_ok(nt),
    ensures
        ({
            let (ops, q2, st2) = parse_var(src, q, st, k, num, acc)->Ok_0;
            &&& ops.len() >= acc.len()
            &&& ops.take(acc.len() as int) == acc
            &&& forall|t: int|
                acc.len() <= t < ops.len() ==> crate::inst::operand_has_kind(
                    #[trigger] ops[t],
                    k,
                    num,
                ) && crate::inst::operand_wf(ops[t])
            &&& st2.types == st.types
            &&& st2.insts == st.insts
        }),
    decreases src.len() - q,
{
    let q2 = skip_ws(src, q);
    lemma_skip_ws_range(src, q);
    if at_eol(src, q2) {
        let (ops, qf, st2) = parse_var(src, q, st, k, num, acc)->Ok_0;
        assert(ops.take(acc.len() as int) =~= acc);
    } else {
        let (o, q3, st1) = parse_operand(src, q2, st, k, num)->Ok_0;
        lemma_parse_operand_wf(src, q2, st, k, num);
        lemma_parse_var_wf(src, q3, st1, k, num, acc.push(o));
        let (ops, qf, st2) = parse_var(src, q, st, k, num, acc)->Ok_0;
        assert(ops.take(acc.len() as int) =~= acc) by {
            assert(ops.take((acc.len() + 1) as int) == acc.push(o));
            assert forall|j: int| 0 <= j < acc.len() implies ops.take(acc.len() as int)[j]
                == acc[j] by {
                assert(ops.take((acc.len() + 1) as int)[j] == acc.push(o)[j]);
            }
        }
        assert forall|t: int|
            acc.len() <= t < ops.len() implies crate::inst::operand_has_kind(
            #[trigger] ops[t],
            k,
            num,
        ) && crate::inst::operand_wf(ops[t]) by {
            if t == acc.len() {
                assert(ops.take((acc.len() + 1) as int)[acc.len() as int] == acc.push(
                    o,
                )[acc.len() as int]);
                assert(ops[acc.len() as int] == o);
            }
        }
    }
}

/// A parsed tail completes a matching operand list; the state passes
/// through untouched.
proof fn lemma_parse_tail_wf(
    src: Seq<char>,
    q: int,
    st: AsmStV,
    tail: crate::schema::Tail,
    num: Option<NumType>,
    acc: Seq<OperandV>,
)
    requires
        0 <= q <= src.len(),
        parse_tail(src, q, st, tail, num, acc) is Ok,
        num matches Some(nt) ==> nt_ok(nt),
    ensures
        ({
            let (ops, q2, st2) = parse_tail(src, q, st, tail, num, acc)->Ok_0;
            &&& ops.len() >= acc.len()
            &&& ops.take(acc.len() as int) == acc
            &&& forall|t: int|
                acc.len() <= t < ops.len() ==> crate::inst::operand_wf(#[trigger] ops[t])
            &&& (match tail {
                crate::schema::Tail::NoTail => ops.len() == acc.len(),
                crate::schema::Tail::Optional(k) => ops.len() <= acc.len() + 1 && (ops.len()
                    == acc.len() + 1 ==> crate::inst::operand_has_kind(
                    ops[acc.len() as int],
                    k,
                    num,
                )),
                crate::schema::Tail::Variable(k) => forall|t: int|
                    acc.len() <= t < ops.len() ==> crate::inst::operand_has_kind(
                        #[trigger] ops[t],
                        k,
                        num,
                    ),
            })
            &&& st2.types == st.types
            &&& st2.insts == st.insts
        }),
{
    match tail {
        crate::schema::Tail::NoTail => {
            let (ops, q2, st2) = parse_tail(src, q, st, tail, num, acc)->Ok_0;
            assert(ops.take(acc.len() as int) =~= acc);
        },
        crate::schema::Tail::Optional(k) => {
            let q2 = skip_ws(src, q);
            if at_eol(src, q2) {
                let (ops, qf, st2) = parse_tail(src, q, st, tail, num, acc)->Ok_0;
                assert(ops.take(acc.len() as int) =~= acc);
            } else {
                lemma_skip_ws_range(src, q);
                lemma_parse_operand_wf(src, q2, st, k, num);
                let (o, q3, st1) = parse_operand(src, q2, st, k, num)->Ok_0;
                let (ops, qf, st2) = parse_tail(src, q, st, tail, num, acc)->Ok_0;
                assert(ops == acc.push(o));
                assert(ops.take(acc.len() as int) =~= acc);
                assert(ops[acc.len() as int] == o);
            }
        },
        crate::schema::Tail::Variable(k) => {
            lemma_parse_var_wf(src, q, st, k, num, acc);
        },
    }
}

/// A pointwise-matching operand list matches its schema.
proof fn lemma_match_build(
    ops: Seq<OperandV>,
    kinds: Seq<crate::schema::OperandKind>,
    tail: crate::schema::Tail,
    num: Option<NumType>,
)
    requires
        ops.len() >= kinds.len(),
        forall|t: int|
            0 <= t < kinds.len() ==> crate::inst::operand_has_kind(
                #[trigger] ops[t],
                kinds[t],
                num,
            ),
        match tail {
            crate::schema::Tail::NoTail => ops.len() == kinds.len(),
            crate::schema::Tail::Optional(k) => ops.len() <= kinds.len() + 1 && (ops.len()
                == kinds.len() + 1 ==> crate::inst::operand_has_kind(
                ops[kinds.len() as int],
                k,
                num,
            )),
            crate::schema::Tail::Variable(k) => forall|t: int|
                kinds.len() <= t < ops.len() ==> crate::inst::operand_has_kind(
                    #[trigger] ops[t],
                    k,
                    num,
                ),
        },
    ensures
        crate::inst::operands_match(ops, kinds, tail, num),
    decreases kinds.len(),
{
    if kinds.len() > 0 {
        assert(crate::inst::operand_has_kind(ops[0], kinds[0], num));
        assert forall|t: int|
            0 <= t < kinds.drop_first().len() implies crate::inst::operand_has_kind(
            #[trigger] ops.drop_first()[t],
            kinds.drop_first()[t],
            num,
        ) by {
            assert(ops.drop_first()[t] == ops[t + 1]);
            assert(kinds.drop_first()[t] == kinds[t + 1]);
        }
        match tail {
            crate::schema::Tail::NoTail => {},
            crate::schema::Tail::Optional(k) => {
                if ops.len() == kinds.len() + 1 {
                    assert(ops.drop_first()[kinds.len() - 1] == ops[kinds.len() as int]);
                }
            },
            crate::schema::Tail::Variable(k) => {
                assert forall|t: int|
                    kinds.drop_first().len() <= t < ops.drop_first().len()
                    implies crate::inst::operand_has_kind(
                    #[trigger] ops.drop_first()[t],
                    k,
                    num,
                ) by {
                    assert(ops.drop_first()[t] == ops[t + 1]);
                }
            },
        }
        lemma_match_build(ops.drop_first(), kinds.drop_first(), tail, num);
    } else {
        match tail {
            crate::schema::Tail::NoTail => {},
            crate::schema::Tail::Optional(k) => {},
            crate::schema::Tail::Variable(k) => {},
        }
    }
}


/// A well-built type table holds only sensible numeric classes.
pub open spec fn types_wf(tbl: Map<u32, NumType>) -> bool {
    forall|id: u32| tbl.contains_key(id) ==> nt_ok(#[trigger] tbl[id])
}

proof fn lemma_register_type_wf(i: InstV, tbl: Map<u32, NumType>)
    requires
        types_wf(tbl),
    ensures
        types_wf(crate::module::register_type(i, tbl)),
{
    let tbl2 = crate::module::register_type(i, tbl);
    assert forall|id: u32| tbl2.contains_key(id) implies nt_ok(#[trigger] tbl2[id]) by {
        if !(tbl.contains_key(id) && tbl2[id] == tbl[id]) {
        }
    }
}

/// The rest of a parsed line appends one well-formed instruction and folds
/// it into the type table.
#[verifier::rlimit(100)]
#[verifier::spinoff_prover]
proof fn lemma_after_mnemonic_wf(src: Seq<char>, pm: int, e: int, st: AsmStV, rid: Option<u32>)
    requires
        0 <= pm <= e <= src.len(),
        parse_after_mnemonic(src, pm, e, st, rid) is Ok,
        types_wf(st.types),
    ensures
        ({
            let (st2, q2) = parse_after_mnemonic(src, pm, e, st, rid)->Ok_0;
            &&& st2.insts.len() == st.insts.len() + 1
            &&& st2.insts.take(st.insts.len() as int) == st.insts
            &&& crate::inst::inst_wf(st2.insts.last(), st.types)
            &&& st2.types == crate::module::register_type(st2.insts.last(), st.types)
            &&& types_wf(st2.types)
        }),
{
    reveal(parse_after_mnemonic);
    let tok = src.subrange(pm, e);
    let (st2, q2) = parse_after_mnemonic(src, pm, e, st, rid)->Ok_0;
    if tok == "OpUnknown"@ {
        let q1 = skip_ws(src, e);
        lemma_skip_ws_range(src, e);
        let (opv, qa) = parse_word_lit(src, q1)->Ok_0;
        lemma_token_end_range(src, q1);
        lemma_parse_var_wf(
            src,
            qa,
            st,
            crate::schema::OperandKind::LitInt,
            None,
            Seq::<OperandV>::empty(),
        );
        let (ops, qb, st3) = parse_var(
            src,
            qa,
            st,
            crate::schema::OperandKind::LitInt,
            None,
            Seq::<OperandV>::empty(),
        )->Ok_0;
        let iv = InstV {
            opcode: opv as u16,
            result_type_id: None,
            result_id: None,
            operands: ops,
        };
        assert(forall|t: int|
            0 <= t < ops.len() ==> crate::inst::raw_word_operand(#[trigger] ops[t]));
        assert(crate::inst::inst_wf(iv, st.types));
        assert(st2.insts =~= st.insts.push(iv));
        assert(st2.insts.take(st.insts.len() as int) =~= st.insts);
        lemma_register_type_wf(iv, st.types);
    } else {
        let op = crate::names::opcode_of_name_spec(tok)->Some_0;
        let sch = crate::schema::schema_of(op)->Some_0;
        if sch.has_result_type {
            let q1 = skip_ws(src, e);
            lemma_skip_ws_range(src, e);
            let (rt, qa, sta) = parse_id_token(src, q1, st)->Ok_0;
            assert(sta.types == st.types);
            assert(sta.insts == st.insts);
            lemma_token_end_range(src, q1 + 1);
            let num: Option<NumType> = if sta.types.contains_key(rt) {
                Some(sta.types[rt])
            } else {
                None
            };
            lemma_parse_req_wf(src, qa, sta, sch.kinds, num, Seq::<OperandV>::empty());
            let (ops1, qb, stb) = parse_req(
                src,
                qa,
                sta,
                sch.kinds,
                num,
                Seq::<OperandV>::empty(),
            )->Ok_0;
            lemma_parse_tail_wf(src, qb, stb, sch.tail, num, ops1);
            let (ops, qc, stc) = parse_tail(src, qb, stb, sch.tail, num, ops1)->Ok_0;
            assert forall|t: int| 0 <= t < ops1.len() implies ops[t] == ops1[t] by {
                assert(ops.take(ops1.len() as int)[t] == ops1[t]);
            }
            assert(ops1.len() == sch.kinds.len());
            assert forall|t: int|
                0 <= t < sch.kinds.len() implies crate::inst::operand_has_kind(
                #[trigger] ops[t],
                sch.kinds[t],
                num,
            ) && crate::inst::operand_wf(ops[t]) by {
                assert(ops[t] == ops1[t]);
                assert(crate::inst::operand_has_kind(ops1[0 + t], sch.kinds[t], num));
                assert(crate::inst::operand_wf(ops1[0 + t]));
            }
            assert forall|t: int| 0 <= t < ops.len() implies crate::inst::operand_wf(
                #[trigger] ops[t],
            ) by {
                if t < ops1.len() {
                    assert(ops[t] == ops1[t]);
                    assert(crate::inst::operand_wf(ops1[0 + t]));
                }
            }
            lemma_match_build(ops, sch.kinds, sch.tail, num);
            let iv = InstV { opcode: op, result_type_id: Some(rt), result_id: rid, operands: ops };
            assert(crate::inst::num_ctx(iv, st.types) == num);
            assert(crate::inst::inst_wf(iv, st.types));
            assert(st2.insts =~= st.insts.push(iv));
            assert(st2.insts.take(st.insts.len() as int) =~= st.insts);
            lemma_register_type_wf(iv, st.types);
        } else {
            lemma_parse_req_wf(src, e, st, sch.kinds, None, Seq::<OperandV>::empty());
            let (ops1, qb, stb) = parse_req(
                src,
                e,
                st,
                sch.kinds,
                None,
                Seq::<OperandV>::empty(),
            )->Ok_0;
            lemma_parse_tail_wf(src, qb, stb, sch.tail, None, ops1);
            let (ops, qc, stc) = parse_tail(src, qb, stb, sch.tail, None, ops1)->Ok_0;
            assert forall|t: int| 0 <= t < ops1.len() implies ops[t] == ops1[t] by {
                assert(ops.take(ops1.len() as int)[t] == ops1[t]);
            }
            assert(ops1.len() == sch.kinds.len());
            assert forall|t: int|
                0 <= t < sch.kinds.len() implies crate::inst::operand_has_kind(
                #[trigger] ops[t],
                sch.kinds[t],
                None,
            ) && crate::inst::operand_wf(ops[t]) by {
                assert(ops[t] == ops1[t]);
                assert(crate::inst::operand_has_kind(ops1[0 + t], sch.kinds[t], None));
                assert(crate::inst::operand_wf(ops1[0 + t]));
            }
            assert forall|t: int| 0 <= t < ops.len() implies crate::inst::operand_wf(
                #[trigger] ops[t],
            ) by {
                if t < ops1.len() {
                    assert(ops[t] == ops1[t]);
                    assert(crate::inst::operand_wf(ops1[0 + t]));
                }
            }
            lemma_match_build(ops, sch.kinds, sch.tail, None);
            let iv = InstV { opcode: op, result_type_id: None, result_id: rid, operands: ops };
            assert(crate::inst::inst_wf(iv, st.types));
            assert(st2.insts =~= st.insts.push(iv));
            assert(st2.insts.take(st.insts.len() as int) =~= st.insts);
            lemma_register_type_wf(iv, st.types);
        }
    }
}

/// A parsed line appends one well-formed instruction.
proof fn lemma_parse_line_wf(src: Seq<char>, p: int, st: AsmStV)
    requires
        0 <= p <= src.len(),
        parse_line(src, p, st) is Ok,
        types_wf(st.types),
    ensures
        ({
            let (st2, q2) = parse_line(src, p, st)->Ok_0;
            &&& st2.insts.len() == st.insts.len() + 1
            &&& st2.insts.take(st.insts.len() as int) == st.insts
            &&& crate::inst::inst_wf(st2.insts.last(), st.types)
            &&& st2.types == crate::module::register_type(st2.insts.last(), st.types)
            &&& types_wf(st2.types)
        }),
{
    reveal(parse_line);
    if p < src.len() && src[p] == '%' {
        let (ridv, q, st1) = parse_id_token(src, p, st)->Ok_0;
        assert(st1.types == st.types);
        assert(st1.insts == st.insts);
        lemma_token_end_range(src, p + 1);
        let q2 = skip_ws(src, q);
        lemma_skip_ws_range(src, q);
        let q3 = skip_ws(src, q2 + 1);
        lemma_skip_ws_range(src, q2 + 1);
        let e = token_end(src, q3);
        lemma_token_end_range(src, q3);
        lemma_after_mnemonic_wf(src, q3, e, st1, Some(ridv));
    } else {
        let e = token_end(src, p);
        lemma_token_end_range(src, p);
        lemma_after_mnemonic_wf(src, p, e, st, None);
    }
}

/// Folding the table over a prefix ignores a pushed instruction.
proof fn lemma_tbl_fold_push(insts: Seq<InstV>, iv: InstV, k: int)
    requires
        0 <= k <= insts.len(),
    ensures
        crate::module::tbl_fold(insts.push(iv), k, Map::empty()) == crate::module::tbl_fold(
            insts,
            k,
            Map::empty(),
        ),
    decreases k,
{
    if k > 0 {
        lemma_tbl_fold_push(insts, iv, k - 1);
        assert(insts.push(iv)[k - 1] == insts[k - 1]);
    }
}

/// The assembler's running state stays well-formed: every instruction so
/// far is well-formed against the table its predecessors built, and the
/// table is that fold.
pub open spec fn st_wf(st: AsmStV) -> bool {
    &&& types_wf(st.types)
    &&& st.types == crate::module::tbl_fold(st.insts, st.insts.len() as int, Map::empty())
    &&& forall|k: int|
        0 <= k < st.insts.len() ==> crate::inst::inst_wf(
            #[trigger] st.insts[k],
            crate::module::tbl_fold(st.insts, k, Map::empty()),
        )
}

proof fn lemma_asm_lines_wf(src: Seq<char>, p: int, st: AsmStV)
    requires
        0 <= p <= src.len() + 1,
        asm_lines(src, p, st) is Ok,
        st_wf(st),
    ensures
        st_wf(asm_lines(src, p, st)->Ok_0),
    decreases src.len() + 1 - p,
{
    if p >= src.len() {
    } else {
        let q = skip_ws(src, p);
        lemma_skip_ws_range(src, p);
        if q >= src.len() {
        } else if src[q] == '\n' {
            lemma_asm_lines_wf(src, q + 1, st);
        } else if src[q] == ';' {
            lemma_line_end_range(src, q);
            lemma_asm_lines_wf(src, line_end(src, q) + 1, st);
        } else {
            let (st2, q2) = parse_line(src, q, st)->Ok_0;
            lemma_parse_line_wf(src, q, st);
            let iv = st2.insts.last();
            assert(st2.insts =~= st.insts.push(iv));
            assert(st_wf(st2)) by {
                lemma_tbl_fold_push(st.insts, iv, st.insts.len() as int);
                assert(st2.types == crate::module::tbl_fold(
                    st2.insts,
                    st2.insts.len() as int,
                    Map::empty(),
                ));
                assert forall|k: int|
                    0 <= k < st2.insts.len() implies crate::inst::inst_wf(
                    #[trigger] st2.insts[k],
                    crate::module::tbl_fold(st2.insts, k, Map::empty()),
                ) by {
                    lemma_tbl_fold_push(st.insts, iv, k);
                    if k < st.insts.len() {
                        assert(st2.insts[k] == st.insts[k]);
                    } else {
                        assert(st2.insts[k] == iv);
                    }
                }
            }
            lemma_line_end_range(src, q2);
            lemma_asm_lines_wf(src, line_end(src, q2) + 1, st2);
        }
    }
}

/// What the assembler yields is a structurally valid module, and its
/// encoding decodes back to it, bit-exactly through the word stream.
pub proof fn lemma_assemble_round_trip(src: Seq<char>, version: u32, generator: u32)
    requires
        asm_spec(src, version, generator) is Ok,
    ensures
        crate::module::module_wf(asm_spec(src, version, generator)->Ok_0),
        crate::module::dec_module(
            crate::module::enc_module(asm_spec(src, version, generator)->Ok_0),
            false,
        ) == Ok::<crate::inst::ModuleV, (ErrorKind, int)>(asm_spec(src, version, generator)->Ok_0),
{
    let st0 = init_state();
    assert(st_wf(st0)) by {
        assert(st0.insts.len() == 0);
        assert(crate::module::tbl_fold(st0.insts, 0, Map::empty()) == Map::<
            u32,
            NumType,
        >::empty());
    }
    lemma_asm_lines_wf(src, 0, st0);
    let m = asm_spec(src, version, generator)->Ok_0;
    assert(crate::module::module_wf(m));
    crate::module::lemma_module_round_trip(m, false);
}

} // verus!
