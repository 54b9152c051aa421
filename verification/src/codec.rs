//! Identifier codec: a positive 32-bit primary key is shown in URLs as a
//! short lowercase base-36 string. Decoding accepts exactly the strings made
//! of `[0-9a-z]` whose value fits in an `i32`; everything else is rejected
//! before any store call. The same digit machinery yields the base-16 prefix
//! used for generated blob names.

use vstd::prelude::*;

verus! {

/// Why a string failed to decode as an identifier.
#[derive(Clone, Copy, Debug, PartialEq, Eq, Structural)]
pub enum DecodeError {
    /// The input was empty.
    Empty,
    /// The input held a character outside `[0-9a-z]`.
    InvalidChar,
    /// The value does not fit in a 32-bit signed integer.
    Overflow,
}

/// The lowercase character standing for digit value `d`.
pub open spec fn digit_char(d: int) -> char {
    if 0 <= d < 10 {
        ((('0' as u8) + d as u8) as u8) as char
    } else if 10 <= d < 36 {
        ((('a' as u8) + (d - 10) as u8) as u8) as char
    } else {
        ' '
    }
}

/// The digit value of a character, or -1 if it is not a lowercase base-36 digit.
pub open spec fn digit_val(c: char) -> int {
    if '0' <= c && c <= '9' {
        c as int - '0' as int
    } else if 'a' <= c && c <= 'z' {
        10 + c as int - 'a' as int
    } else {
        -1
    }
}

/// Whether `c` is one of the accepted identifier characters `[0-9a-z]`.
pub open spec fn is_digit36(c: char) -> bool {
    ('0' <= c && c <= '9') || ('a' <= c && c <= 'z')
}

/// Whether every character of `s` is an accepted identifier character.
pub open spec fn all_digits36(s: Seq<char>) -> bool {
    forall|i: int| 0 <= i < s.len() ==> is_digit36(s[i])
}

/// The numeric value of `s` read as a base-36 numeral.
pub open spec fn base36_val(s: Seq<char>) -> int
    decreases s.len(),
{
    if s.len() == 0 {
        0
    } else {
        base36_val(s.drop_last()) * 36 + digit_val(s.last())
    }
}

/// The strings that decode accepts: non-empty, only `[0-9a-z]`, value in `i32` range.
pub open spec fn valid_id_str(s: Seq<char>) -> bool {
    s.len() > 0 && all_digits36(s) && base36_val(s) <= i32::MAX as int
}

/// The canonical numeral of `n` in the given base: lowercase digits, no
/// leading zero beyond the natural representation of zero itself.
pub open spec fn digits(n: int, base: int) -> Seq<char>
    decreases n via digits_decreases
{
    if n < base || base < 2 {
        seq![digit_char(n)]
    } else {
        digits(n / base, base).push(digit_char(n % base))
    }
}

#[via_fn]
proof fn digits_decreases(n: int, base: int) {
    if !(n < base || base < 2) {
        vstd::arithmetic::div_mod::lemma_div_is_strictly_smaller(n, base);
        vstd::arithmetic::div_mod::lemma_div_pos_is_pos(n, base);
    }
}

/// A digit's character maps back to the digit's value.
pub proof fn lemma_digit_roundtrip(d: int)
    requires
        0 <= d < 36,
    ensures
        is_digit36(digit_char(d)),
        digit_val(digit_char(d)) == d,
{
}

/// Reading back the canonical base-36 numeral of `n` yields `n`: the codec's
/// encode and decode directions are mutual inverses over the whole id range.
pub proof fn lemma_digits36_val(n: int)
    requires
        0 <= n,
    ensures
        digits(n, 36).len() >= 1,
        all_digits36(digits(n, 36)),
        base36_val(digits(n, 36)) == n,
    decreases n,
{
    if n < 36 {
        lemma_digit_roundtrip(n);
        assert(digits(n, 36) == seq![digit_char(n)]);
        assert(seq![digit_char(n)].drop_last() =~= Seq::<char>::empty());
        assert(base36_val(Seq::<char>::empty()) == 0);
        assert(base36_val(seq![digit_char(n)]) == base36_val(seq![digit_char(n)].drop_last()) * 36
            + digit_val(seq![digit_char(n)].last()));
    } else {
        lemma_digits36_val(n / 36);
        lemma_digit_roundtrip(n % 36);
        let prefix = digits(n / 36, 36);
        assert(digits(n, 36) == prefix.push(digit_char(n % 36)));
        assert(prefix.push(digit_char(n % 36)).drop_last() =~= prefix);
        assert(forall|i: int| 0 <= i < digits(n, 36).len() ==> is_digit36(#[trigger] digits(n, 36)[i])) by {
            assert(forall|i: int| 0 <= i < prefix.len() ==> digits(n, 36)[i] == #[trigger] prefix[i]);
        }
        assert(base36_val(digits(n, 36)) == base36_val(digits(n, 36).drop_last()) * 36 + digit_val(
            digits(n, 36).last(),
        ));
        assert(base36_val(digits(n, 36)) == n / 36 * 36 + n % 36);
    }
}

/// A canonical numeral never starts with a superfluous zero: only zero itself
/// is rendered with a leading `'0'`.
pub proof fn lemma_digits_no_leading_zero(n: int, base: int)
    requires
        1 <= n,
        2 <= base <= 36,
    ensures
        digits(n, base)[0] != '0',
    decreases n,
{
    if n < base {
        lemma_digit_roundtrip(n);
        assert(digit_val(digits(n, base)[0]) == n);
    } else {
        vstd::arithmetic::div_mod::lemma_div_non_zero(n, base);
        vstd::arithmetic::div_mod::lemma_div_is_strictly_smaller(n, base);
        lemma_digits_no_leading_zero(n / base, base);
        assert(digits(n, base)[0] == digits(n / base, base)[0]);
    }
}

/// An accepted character's digit value lies in `[0, 36)`.
pub proof fn lemma_is_digit36_val(c: char)
    requires
        is_digit36(c),
    ensures
        0 <= digit_val(c) < 36,
{
}

/// The single-character string for digit value `d`.
fn digit_str(d: u8) -> (r: &'static str)
    requires
        d < 36,
    ensures
        r@ =~= seq![digit_char(d as int)],
{
    let r: &'static str = match d {
        0 => "0",
        1 => "1",
        2 => "2",
        3 => "3",
        4 => "4",
        5 => "5",
        6 => "6",
        7 => "7",
        8 => "8",
        9 => "9",
        10 => "a",
        11 => "b",
        12 => "c",
        13 => "d",
        14 => "e",
        15 => "f",
        16 => "g",
        17 => "h",
        18 => "i",
        19 => "j",
        20 => "k",
        21 => "l",
        22 => "m",
        23 => "n",
        24 => "o",
        25 => "p",
        26 => "q",
        27 => "r",
        28 => "s",
        29 => "t",
        30 => "u",
        31 => "v",
        32 => "w",
        33 => "x",
        34 => "y",
        _ => "z",
    };
    proof {
        reveal_strlit("0");
        reveal_strlit("1");
        reveal_strlit("2");
        reveal_strlit("3");
        reveal_strlit("4");
        reveal_strlit("5");
        reveal_strlit("6");
        reveal_strlit("7");
        reveal_strlit("8");
        reveal_strlit("9");
        reveal_strlit("a");
        reveal_strlit("b");
        reveal_strlit("c");
        reveal_strlit("d");
        reveal_strlit("e");
        reveal_strlit("f");
        reveal_strlit("g");
        reveal_strlit("h");
        reveal_strlit("i");
        reveal_strlit("j");
        reveal_strlit("k");
        reveal_strlit("l");
        reveal_strlit("m");
        reveal_strlit("n");
        reveal_strlit("o");
        reveal_strlit("p");
        reveal_strlit("q");
        reveal_strlit("r");
        reveal_strlit("s");
        reveal_strlit("t");
        reveal_strlit("u");
        reveal_strlit("v");
        reveal_strlit("w");
        reveal_strlit("x");
        reveal_strlit("y");
        reveal_strlit("z");
    }
    r
}

/// Renders `n` as a numeral in the given base (2 to 36), lowercase, with no
/// leading zeros beyond the natural representation of zero.
pub fn to_radix(n: u32, base: u32) -> (r: String)
    requires
        2 <= base <= 36,
    ensures
        r@ == digits(n as int, base as int),
{
    let ghost n0 = n as int;
    let mut n = n;
    let mut stack: Vec<u8> = Vec::new();
    loop
        invariant_except_break
            stack@.len() == 0 || n > 0,
        invariant
            2 <= base <= 36,
            forall|k: int| 0 <= k < stack@.len() ==> #[trigger] stack@[k] < 36,
            stack@.len() == 0 ==> n as int == n0,
            stack@.len() > 0 ==> digits(n0, base as int) =~= (if n > 0 {
                digits(n as int, base as int)
            } else {
                Seq::<char>::empty()
            }) + Seq::new(stack@.len(), |k: int| digit_char(stack@[stack@.len() - 1 - k] as int)),
        ensures
            n == 0,
            stack@.len() > 0,
        decreases n + (if stack@.len() == 0 { 1int } else { 0int }),
    {
        let ghost pre = stack@;
        let ghost nn = n as int;
        let d = (n % base) as u8;
        stack.push(d);
        n = n / base;
        proof {
            let b = base as int;
            let s_new = Seq::new(stack@.len(), |k: int| digit_char(stack@[stack@.len() - 1 - k] as int));
            let s_pre = Seq::new(pre.len(), |k: int| digit_char(pre[pre.len() - 1 - k] as int));
            assert(stack@ == pre.push(d));
            assert(s_new =~= seq![digit_char(d as int)] + s_pre) by {
                assert forall|k: int| 0 <= k < s_new.len() implies s_new[k] == (seq![digit_char(d as int)]
                    + s_pre)[k] by {
                    if k == 0 {
                        assert(stack@[stack@.len() - 1] == d);
                    } else {
                        assert(stack@[stack@.len() - 1 - k] == pre[pre.len() - 1 - (k - 1)]);
                    }
                }
            }
            assert(digits(n0, b) =~= digits(nn, b) + s_pre);
            if nn >= b {
                vstd::arithmetic::div_mod::lemma_div_non_zero(nn, b);
                assert(digits(nn, b) == digits(nn / b, b).push(digit_char(nn % b)));
                assert(digits(nn, b) =~= digits(n as int, b) + seq![digit_char(d as int)]);
                assert(digits(n as int, b) + s_new =~= (digits(n as int, b) + seq![digit_char(
                    d as int,
                )]) + s_pre);
            } else {
                vstd::arithmetic::div_mod::lemma_small_mod(nn as nat, b as nat);
                assert(n == 0) by {
                    vstd::arithmetic::div_mod::lemma_basic_div(nn, b);
                }
                assert(d as int == nn);
                assert(digits(nn, b) =~= seq![digit_char(d as int)]);
            }
            assert(digits(n0, b) =~= (if n > 0 {
                digits(n as int, b)
            } else {
                Seq::<char>::empty()
            }) + s_new);
        }
        if n == 0 {
            break;
        }
    }
    proof {
        assert(digits(n0, base as int) =~= Seq::new(stack@.len(), |k: int| digit_char(stack@[stack@.len() - 1 - k] as int)));
    }
    let mut r = String::new();
    let total = stack.len();
    let mut i = total;
    while i > 0
        invariant
            i <= total,
            total == stack@.len(),
            forall|k: int| 0 <= k < stack@.len() ==> #[trigger] stack@[k] < 36,
            digits(n0, base as int) =~= Seq::new(stack@.len(), |k: int| digit_char(stack@[stack@.len() - 1 - k] as int)),
            r@ =~= digits(n0, base as int).subrange(0, total - i),
        decreases i,
    {
        i = i - 1;
        let piece = digit_str(stack[i]);
        r.append(piece);
        proof {
            assert(digits(n0, base as int)[total - i - 1] == digit_char(stack@[i as int] as int));
            assert(r@ =~= digits(n0, base as int).subrange(0, total - i));
        }
    }
    proof {
        assert(digits(n0, base as int).subrange(0, total as int) =~= digits(n0, base as int));
    }
    r
}

/// Encodes a primary key as its public base-36 identifier string.
pub fn encode(id: i32) -> (r: String)
    requires
        0 <= id,
    ensures
        r@ == digits(id as int, 36),
        valid_id_str(r@),
        base36_val(r@) == id as int,
        id > 0 ==> r@[0] != '0',
{
    proof {
        lemma_digits36_val(id as int);
        if id > 0 {
            lemma_digits_no_leading_zero(id as int, 36);
        }
    }
    to_radix(id as u32, 36)
}

/// Decodes a public identifier string back to the primary key. Accepts
/// exactly the non-empty lowercase base-36 strings whose value fits in an
/// `i32`; reports which rule was broken otherwise.
pub fn decode(s: &str) -> (r: Result<i32, DecodeError>)
    ensures
        match r {
            Ok(v) => valid_id_str(s@) && 0 <= v && v as int == base36_val(s@),
            Err(DecodeError::Empty) => s@.len() == 0,
            Err(DecodeError::InvalidChar) => s@.len() > 0 && !all_digits36(s@),
            Err(DecodeError::Overflow) => s@.len() > 0 && all_digits36(s@) && base36_val(s@) > i32::MAX as int,
        },
{
    let len = s.unicode_len();
    if len == 0 {
        return Err(DecodeError::Empty);
    }
    let mut acc: u64 = 0;
    let mut overflow = false;
    let mut i: usize = 0;
    while i < len
        invariant
            len == s@.len(),
            i <= len,
            forall|j: int| 0 <= j < i ==> is_digit36(#[trigger] s@[j]),
            !overflow ==> acc as int == base36_val(s@.subrange(0, i as int)) && acc <= i32::MAX as u64,
            overflow ==> base36_val(s@.subrange(0, i as int)) > i32::MAX as int,
        decreases len - i,
    {
        let c = s.get_char(i);
        let v = c as u32;
        let d: u32 = if v >= ('0' as u32) && v <= ('9' as u32) {
            v - ('0' as u32)
        } else if v >= ('a' as u32) && v <= ('z' as u32) {
            10 + (v - ('a' as u32))
        } else {
            return Err(DecodeError::InvalidChar);
        };
        proof {
            assert(is_digit36(s@[i as int]));
            assert(digit_val(s@[i as int]) == d as int);
            assert(s@.subrange(0, i as int + 1).drop_last() =~= s@.subrange(0, i as int));
            assert(s@.subrange(0, i as int + 1).last() == s@[i as int]);
        }
        if overflow {
            proof {
                lemma_is_digit36_val(s@[i as int]);
            }
        } else {
            acc = acc * 36 + (d as u64);
            if acc > (i32::MAX as u64) {
                overflow = true;
            }
        }
        i = i + 1;
    }
    proof {
        assert(s@.subrange(0, len as int) =~= s@);
    }
    if overflow {
        Err(DecodeError::Overflow)
    } else {
        Ok(acc as i32)
    }
}

} // verus!
