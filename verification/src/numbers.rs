//! Rendering and reading of numeric literals: decimal and hexadecimal
//! integers, signed values of a declared bit width, and the exact bit
//! patterns of floating-point literals that hold small integers — all in
//! integer arithmetic.

use vstd::prelude::*;

use vstd::arithmetic::power2::{
    lemma_pow2_adds, lemma_pow2_pos, lemma_pow2_strictly_increases, pow2,
};

verus! {

/// The character of one decimal digit.
pub open spec fn digit_char(d: nat) -> char {
    if d == 0 {
        '0'
    } else if d == 1 {
        '1'
    } else if d == 2 {
        '2'
    } else if d == 3 {
        '3'
    } else if d == 4 {
        '4'
    } else if d == 5 {
        '5'
    } else if d == 6 {
        '6'
    } else if d == 7 {
        '7'
    } else if d == 8 {
        '8'
    } else {
        '9'
    }
}

/// The decimal rendering of a number, most significant digit first.
pub open spec fn dec_digits(v: nat) -> Seq<char>
    decreases v,
{
    if v < 10 {
        seq![digit_char(v)]
    } else {
        dec_digits(v / 10).push(digit_char(v % 10))
    }
}

/// Append the decimal rendering of `v`.
pub fn append_u64_dec(s: &mut String, v: u64)
    ensures
        final(s)@ == old(s)@ + dec_digits(v as nat),
    decreases v,
{
    if v >= 10 {
        append_u64_dec(s, v / 10);
    }
    let d = v % 10;
    let c: &str = if d == 0 {
        "0"
    } else if d == 1 {
        "1"
    } else if d == 2 {
        "2"
    } else if d == 3 {
        "3"
    } else if d == 4 {
        "4"
    } else if d == 5 {
        "5"
    } else if d == 6 {
        "6"
    } else if d == 7 {
        "7"
    } else if d == 8 {
        "8"
    } else {
        "9"
    };
    proof {
        reveal_strlit("0");
        reveal_strlit("1");
        reveal_strlit("2");
        reveal_strlit("3");
        reveal_strlit("4");
        reveal_strlit("5");
        reveal_strlit("6");
        reveal_strlit("7");
        reveal_strlit("8");
        reveal_strlit("9");
        assert(c@ =~= seq![digit_char((v % 10) as nat)]);
    }
    s.append(c);
    proof {
        if v < 10 {
            assert(old(s)@ + c@ =~= old(s)@ + dec_digits(v as nat));
        } else {
            assert((old(s)@ + dec_digits((v / 10) as nat)) + c@ =~= old(s)@ + dec_digits(
                v as nat,
            ));
        }
    }
}

/// Whether a character is a decimal digit.
pub open spec fn is_digit(c: char) -> bool {
    48 <= c as u32 <= 57
}

/// The value of one decimal digit character.
pub open spec fn digit_val(c: char) -> nat {
    (c as u32 - 48) as nat
}

/// Whether every character of a sequence is a decimal digit.
pub open spec fn all_digits(s: Seq<char>) -> bool {
    forall|j: int| 0 <= j < s.len() ==> is_digit(#[trigger] s[j])
}

/// Extending a digit run by one character.
pub proof fn lemma_all_digits_push(s: Seq<char>, c: char)
    ensures
        all_digits(s.push(c)) == (all_digits(s) && is_digit(c)),
{
    if all_digits(s) && is_digit(c) {
        assert forall|j: int| 0 <= j < s.push(c).len() implies is_digit(
            #[trigger] s.push(c)[j],
        ) by {
            if j < s.len() {
                assert(s.push(c)[j] == s[j]);
            }
        }
    }
    if all_digits(s.push(c)) {
        assert(is_digit(s.push(c)[s.len() as int]));
        assert forall|j: int| 0 <= j < s.len() implies is_digit(#[trigger] s[j]) by {
            assert(s.push(c)[j] == s[j]);
        }
    }
}

/// The value of a digit sequence read as decimal.
pub open spec fn dec_val(s: Seq<char>) -> nat
    decreases s.len(),
{
    if s.len() == 0 {
        0
    } else {
        dec_val(s.drop_last()) * 10 + digit_val(s.last())
    }
}

/// A longer digit prefix never has a smaller value.
proof fn lemma_dec_val_prefix(s: Seq<char>, i: int)
    requires
        0 <= i <= s.len(),
    ensures
        dec_val(s.take(i)) <= dec_val(s),
    decreases s.len() - i,
{
    if i < s.len() {
        lemma_dec_val_prefix(s, i + 1);
        assert(s.take(i + 1).drop_last() =~= s.take(i));
        assert(s.take(i + 1).last() == s[i]);
        assert(dec_val(s.take(i)) <= dec_val(s.take(i + 1)));
    } else {
        assert(s.take(i) =~= s);
    }
}

/// Read the characters `start..end` of `s` as an unsigned decimal number.
/// Succeeds exactly on nonempty all-digit runs whose value fits in 64 bits.
#[verifier::loop_isolation(false)]
pub fn parse_u64_dec(s: &str, start: usize, end: usize) -> (r: Option<u64>)
    requires
        start <= end <= s@.len(),
    ensures
        match r {
            Some(v) => start < end && all_digits(s@.subrange(start as int, end as int)) && v
                == dec_val(s@.subrange(start as int, end as int)),
            None => start == end || !all_digits(s@.subrange(start as int, end as int)) || dec_val(
                s@.subrange(start as int, end as int),
            ) > u64::MAX,
        },
{
    if start == end {
        return None;
    }
    let ghost digits = s@.subrange(start as int, end as int);
    let mut acc: u64 = 0;
    let mut i: usize = start;
    while i < end
        invariant
            start <= i <= end,
            all_digits(digits.take(i - start)),
            acc == dec_val(digits.take(i - start)),
        decreases end - i,
    {
        let c = s.get_char(i);
        let cv = c as u32;
        proof {
            assert(digits.take(i - start + 1).drop_last() =~= digits.take(i - start));
            assert(digits.take(i - start + 1).last() == digits[i - start]);
            assert(digits[i - start] == s@[i as int]);
        }
        if cv < 48 || cv > 57 {
            proof {
                assert(!is_digit(digits[i - start]));
            }
            return None;
        }
        let d = (cv - 48) as u64;
        if acc > (u64::MAX - d) / 10 {
            proof {
                assert(dec_val(digits.take(i - start + 1)) > u64::MAX);
                lemma_dec_val_prefix(digits, i - start + 1);
            }
            return None;
        }
        acc = acc * 10 + d;
        i += 1;
    }
    proof {
        assert(digits.take(end - start) =~= digits);
    }
    Some(acc)
}

/// Two to the power `k`, as a machine word.
pub fn pow2_u64(k: u32) -> (r: u64)
    requires
        k <= 63,
    ensures
        r == pow2(k as nat),
{
    let mut r: u64 = 1;
    let mut i: u32 = 0;
    proof {
        vstd::arithmetic::power2::lemma2_to64();
    }
    while i < k
        invariant
            i <= k <= 63,
            r == pow2(i as nat),
        decreases k - i,
    {
        proof {
            if (i as nat) < 63 {
                lemma_pow2_strictly_increases(i as nat, 63);
            }
            vstd::arithmetic::power2::lemma2_to64();
            vstd::arithmetic::power2::lemma2_to64_rest();
            assert(pow2((i + 1) as nat) == pow2(i as nat) * 2) by {
                lemma_pow2_adds(i as nat, 1);
                vstd::arithmetic::power2::lemma2_to64();
            }
        }
        r = r * 2;
        i += 1;
    }
    r
}

/// Position of the highest set bit of a number (zero for zero and one).
pub open spec fn highest_bit(n: nat) -> nat
    decreases n,
{
    if n <= 1 {
        0
    } else {
        1 + highest_bit(n / 2)
    }
}

/// A positive number lies between the powers of two around its highest bit.
pub proof fn lemma_highest_bit_range(n: nat)
    requires
        n >= 1,
    ensures
        pow2(highest_bit(n)) <= n < pow2(highest_bit(n) + 1),
    decreases n,
{
    if n == 1 {
        vstd::arithmetic::power2::lemma2_to64();
    } else {
        lemma_highest_bit_range(n / 2);
        let e = highest_bit(n / 2);
        lemma_pow2_adds(e, 1);
        lemma_pow2_adds(e + 1, 1);
        vstd::arithmetic::power2::lemma2_to64();
    }
}

/// A number below two to the `k + 1` has its highest bit at or below `k`.
pub proof fn lemma_highest_bit_le(n: nat, k: nat)
    requires
        n >= 1,
        n < pow2(k + 1),
    ensures
        highest_bit(n) <= k,
{
    lemma_highest_bit_range(n);
    if highest_bit(n) > k {
        if highest_bit(n) > k + 1 {
            lemma_pow2_strictly_increases(k + 1, highest_bit(n));
        }
        assert(pow2(highest_bit(n)) >= pow2(k + 1));
        assert(false);
    }
}

/// The bit pattern of the floating-point number that holds the integer `n`
/// exactly, for a format with `mant` mantissa bits and exponent bias `bias`;
/// meaningful for `n` below two to the `mant + 1`.
pub open spec fn float_bits_of_nat(n: nat, mant: nat, bias: nat) -> nat {
    if n == 0 {
        0
    } else {
        let e = highest_bit(n);
        ((e + bias) * pow2(mant) + n * pow2((mant - e) as nat) - pow2(mant)) as nat
    }
}

/// The integer a floating-point bit pattern holds exactly, if any: zero, or
/// a normal number with exponent at most `mant` and no fraction bits.
pub open spec fn nat_of_float_bits(bits: nat, mant: nat, bias: nat) -> Option<nat> {
    if bits == 0 {
        Some(0)
    } else {
        let ef = bits / pow2(mant);
        if ef < bias || ef > bias + mant {
            None
        } else {
            let e = (ef - bias) as nat;
            let m = bits % pow2(mant);
            let num = pow2(mant) + m;
            if num % pow2((mant - e) as nat) == 0 {
                Some(num / pow2((mant - e) as nat))
            } else {
                None
            }
        }
    }
}

/// Compute `float_bits_of_nat`.
#[verifier::loop_isolation(false)]
pub fn float_bits_from_int(n: u64, mant: u32, bias: u32) -> (r: u64)
    requires
        mant <= 52,
        bias <= 1023,
        n < pow2((mant + 1) as nat),
    ensures
        r == float_bits_of_nat(n as nat, mant as nat, bias as nat),
{
    if n == 0 {
        return 0;
    }
    proof {
        vstd::arithmetic::power2::lemma2_to64_rest();
        lemma_highest_bit_le(n as nat, 63);
    }
    let mut e: u32 = 0;
    let mut t: u64 = n;
    while t >= 2
        invariant
            t >= 1,
            highest_bit(n as nat) == e + highest_bit(t as nat),
            e <= highest_bit(n as nat) <= 63,
        decreases t,
    {
        t = t / 2;
        e += 1;
    }
    proof {
        assert(highest_bit(n as nat) == e as nat);
        lemma_highest_bit_range(n as nat);
        if e > mant {
            lemma_pow2_strictly_increases((mant + 1) as nat, e as nat);
            assert(false);
        }
    }
    let p_shift = pow2_u64(mant - e);
    let p_mant = pow2_u64(mant);
    proof {
        lemma_pow2_pos((mant - e) as nat);
        lemma_pow2_adds((e + 1) as nat, (mant - e) as nat);
        lemma_pow2_adds(e as nat, (mant - e) as nat);
        assert(n * p_shift < pow2((mant + 1) as nat)) by (nonlinear_arith)
            requires
                n < pow2((e + 1) as nat),
                p_shift == pow2((mant - e) as nat),
                pow2((e + 1) as nat) * pow2((mant - e) as nat) == pow2((mant + 1) as nat),
                p_shift >= 1,
        ;
        lemma_pow2_strictly_increases((mant + 1) as nat, 54);
        vstd::arithmetic::power2::lemma2_to64();
        vstd::arithmetic::power2::lemma2_to64_rest();
        assert(n * p_shift >= p_mant) by (nonlinear_arith)
            requires
                n >= pow2(e as nat),
                p_shift == pow2((mant - e) as nat),
                p_mant == pow2(mant as nat),
                pow2(e as nat) * pow2((mant - e) as nat) == pow2(mant as nat),
        ;
        assert(pow2(mant as nat) <= pow2(52)) by {
            if mant < 52 {
                lemma_pow2_strictly_increases(mant as nat, 52);
            }
        }
        assert((e + bias) as u64 * p_mant <= 2087 * pow2(52)) by (nonlinear_arith)
            requires
                p_mant == pow2(mant as nat),
                e <= 52,
                bias <= 1023,
                mant <= 52,
                pow2(mant as nat) <= pow2(52),
        ;
        assert(pow2(mant as nat) <= pow2(52)) by {
            if mant < 52 {
                lemma_pow2_strictly_increases(mant as nat, 52);
            }
        }
    }
    let frac = n * p_shift - p_mant;
    ((e + bias) as u64) * p_mant + frac
}

/// Compute `nat_of_float_bits`, for patterns whose value fits the format's
/// integer range.
#[verifier::loop_isolation(false)]
pub fn int_from_float_bits(bits: u64, mant: u32, bias: u32) -> (r: Option<u64>)
    requires
        mant <= 52,
        bias <= 1023,
    ensures
        match r {
            Some(v) => nat_of_float_bits(bits as nat, mant as nat, bias as nat) == Some(
                v as nat,
            ),
            None => nat_of_float_bits(bits as nat, mant as nat, bias as nat) is None,
        },
{
    if bits == 0 {
        return Some(0);
    }
    let p_mant = pow2_u64(mant);
    proof {
        lemma_pow2_pos(mant as nat);
        assert(pow2(mant as nat) <= pow2(52)) by {
            if mant < 52 {
                lemma_pow2_strictly_increases(mant as nat, 52);
            }
        }
        vstd::arithmetic::power2::lemma2_to64_rest();
    }
    let ef64 = bits / p_mant;
    if ef64 < bias as u64 || ef64 > (bias + mant) as u64 {
        return None;
    }
    let e = (ef64 - bias as u64) as u32;
    let m = bits % p_mant;
    proof {
        lemma_pow2_pos((mant - e) as nat);
    }
    let p_shift = pow2_u64(mant - e);
    let num = p_mant + m;
    if num % p_shift == 0 {
        Some(num / p_shift)
    } else {
        None
    }
}

/// The character of one hexadecimal digit, lower case.
pub open spec fn hex_char(d: nat) -> char {
    if d < 10 {
        digit_char(d)
    } else if d == 10 {
        'a'
    } else if d == 11 {
        'b'
    } else if d == 12 {
        'c'
    } else if d == 13 {
        'd'
    } else if d == 14 {
        'e'
    } else {
        'f'
    }
}

/// The hexadecimal rendering of a number, most significant digit first.
pub open spec fn hex_digits(v: nat) -> Seq<char>
    decreases v,
{
    if v < 16 {
        seq![hex_char(v)]
    } else {
        hex_digits(v / 16).push(hex_char(v % 16))
    }
}

/// Append the hexadecimal rendering of `v`.
pub fn append_u64_hex(s: &mut String, v: u64)
    ensures
        final(s)@ == old(s)@ + hex_digits(v as nat),
    decreases v,
{
    if v >= 16 {
        append_u64_hex(s, v / 16);
    }
    let d = v % 16;
    let c: &str = if d == 0 {
        "0"
    } else if d == 1 {
        "1"
    } else if d == 2 {
        "2"
    } else if d == 3 {
        "3"
    } else if d == 4 {
        "4"
    } else if d == 5 {
        "5"
    } else if d == 6 {
        "6"
    } else if d == 7 {
        "7"
    } else if d == 8 {
        "8"
    } else if d == 9 {
        "9"
    } else if d == 10 {
        "a"
    } else if d == 11 {
        "b"
    } else if d == 12 {
        "c"
    } else if d == 13 {
        "d"
    } else if d == 14 {
        "e"
    } else {
        "f"
    };
    proof {
        reveal_strlit("0");
        reveal_strlit("1");
        reveal_strlit("2");
        reveal_strlit("3");
        reveal_strlit("4");
        reveal_strlit("5");
        reveal_strlit("6");
        reveal_strlit("7");
        reveal_strlit("8");
        reveal_strlit("9");
        reveal_strlit("a");
        reveal_strlit("b");
        reveal_strlit("c");
        reveal_strlit("d");
        reveal_strlit("e");
        reveal_strlit("f");
        assert(c@ =~= seq![hex_char((v % 16) as nat)]);
    }
    s.append(c);
    proof {
        if v < 16 {
            assert(old(s)@ + c@ =~= old(s)@ + hex_digits(v as nat));
        } else {
            assert((old(s)@ + hex_digits((v / 16) as nat)) + c@ =~= old(s)@ + hex_digits(
                v as nat,
            ));
        }
    }
}

/// Whether a character is a hexadecimal digit.
pub open spec fn is_hex_digit(c: char) -> bool {
    48 <= c as u32 <= 57 || 97 <= c as u32 <= 102 || 65 <= c as u32 <= 70
}

/// The value of one hexadecimal digit character, either case.
pub open spec fn hex_digit_val(c: char) -> nat {
    if 48 <= c as u32 <= 57 {
        (c as u32 - 48) as nat
    } else if 97 <= c as u32 <= 102 {
        (c as u32 - 87) as nat
    } else {
        (c as u32 - 55) as nat
    }
}

/// Whether every character of a sequence is a hexadecimal digit.
pub open spec fn all_hex_digits(s: Seq<char>) -> bool {
    forall|j: int| 0 <= j < s.len() ==> is_hex_digit(#[trigger] s[j])
}

/// The value of a digit sequence read as hexadecimal.
pub open spec fn hex_val(s: Seq<char>) -> nat
    decreases s.len(),
{
    if s.len() == 0 {
        0
    } else {
        hex_val(s.drop_last()) * 16 + hex_digit_val(s.last())
    }
}

proof fn lemma_hex_val_prefix(s: Seq<char>, i: int)
    requires
        0 <= i <= s.len(),
    ensures
        hex_val(s.take(i)) <= hex_val(s),
    decreases s.len() - i,
{
    if i < s.len() {
        lemma_hex_val_prefix(s, i + 1);
        assert(s.take(i + 1).drop_last() =~= s.take(i));
        assert(s.take(i + 1).last() == s[i]);
        assert(hex_val(s.take(i)) <= hex_val(s.take(i + 1)));
    } else {
        assert(s.take(i) =~= s);
    }
}

/// Read the characters `start..end` of `s` as a hexadecimal number.
/// Succeeds exactly on nonempty all-hex-digit runs whose value fits in 64
/// bits.
#[verifier::loop_isolation(false)]
pub fn parse_u64_hex(s: &str, start: usize, end: usize) -> (r: Option<u64>)
    requires
        start <= end <= s@.len(),
    ensures
        match r {
            Some(v) => start < end && all_hex_digits(s@.subrange(start as int, end as int)) && v
                == hex_val(s@.subrange(start as int, end as int)),
            None => start == end || !all_hex_digits(s@.subrange(start as int, end as int))
                || hex_val(s@.subrange(start as int, end as int)) > u64::MAX,
        },
{
    if start == end {
        return None;
    }
    let ghost digits = s@.subrange(start as int, end as int);
    let mut acc: u64 = 0;
    let mut i: usize = start;
    while i < end
        invariant
            start <= i <= end,
            all_hex_digits(digits.take(i - start)),
            acc == hex_val(digits.take(i - start)),
        decreases end - i,
    {
        let c = s.get_char(i);
        let cv = c as u32;
        proof {
            assert(digits.take(i - start + 1).drop_last() =~= digits.take(i - start));
            assert(digits.take(i - start + 1).last() == digits[i - start]);
            assert(digits[i - start] == s@[i as int]);
        }
        let d: u64 = if 48 <= cv && cv <= 57 {
            (cv - 48) as u64
        } else if 97 <= cv && cv <= 102 {
            (cv - 87) as u64
        } else if 65 <= cv && cv <= 70 {
            (cv - 55) as u64
        } else {
            proof {
                assert(!is_hex_digit(digits[i - start]));
            }
            return None;
        };
        if acc > (u64::MAX - d) / 16 {
            proof {
                assert(hex_val(digits.take(i - start + 1)) > u64::MAX);
                lemma_hex_val_prefix(digits, i - start + 1);
            }
            return None;
        }
        acc = acc * 16 + d;
        i += 1;
    }
    proof {
        assert(digits.take(end - start) =~= digits);
    }
    Some(acc)
}


/// Append one character.  Relies on `String::push`: it appends exactly the
/// given character.
#[verifier::external_body]
pub fn push_char(s: &mut String, c: char)
    ensures
        final(s)@ == old(s)@.push(c),
{
    s.push(c);
}

} // verus!
