//! Fixed-width lowercase hexadecimal numerals.
//!
//! Session ids and the integrity tag of a cookie value are hexadecimal
//! renderings of machine integers. Everything here is ordinary verified
//! code: the value of a numeral is pinned down by `hex_value_of`, and the
//! encoder and decoder are proved to be inverses through it.

use vstd::prelude::*;

verus! {

use vstd::arithmetic::div_mod::{lemma_div_denominator, lemma_fundamental_div_mod, lemma_div_basics, lemma_basic_div};
use vstd::arithmetic::mul::lemma_mul_inequality;

/// 16 raised to `k`.
pub open spec fn pow16(k: nat) -> nat
    decreases k,
{
    if k == 0 {
        1
    } else {
        16 * pow16((k - 1) as nat)
    }
}

pub proof fn lemma_pow16_32()
    ensures
        pow16(32) == 0x100000000000000000000000000000000,
{
    reveal_with_fuel(pow16, 33);
}

pub proof fn lemma_pow16_16()
    ensures
        pow16(16) == 0x10000000000000000,
{
    reveal_with_fuel(pow16, 17);
}

pub proof fn lemma_pow16_pos(k: nat)
    ensures
        pow16(k) >= 1,
    decreases k,
{
    if k > 0 {
        lemma_pow16_pos((k - 1) as nat);
    }
}

pub proof fn lemma_pow16_increases(a: nat, b: nat)
    requires
        a <= b,
    ensures
        pow16(a) <= pow16(b),
        pow16(a) >= 1,
    decreases b,
{
    lemma_pow16_pos(a);
    if a < b {
        lemma_pow16_increases(a, (b - 1) as nat);
        assert(pow16(b) == 16 * pow16((b - 1) as nat));
    }
}

/// The numeral character for one hexadecimal digit.
pub open spec fn hex_digit_spec(d: int) -> char {
    if d == 0 { '0' } else if d == 1 { '1' } else if d == 2 { '2' } else if d == 3 { '3' }
    else if d == 4 { '4' } else if d == 5 { '5' } else if d == 6 { '6' } else if d == 7 { '7' }
    else if d == 8 { '8' } else if d == 9 { '9' } else if d == 10 { 'a' } else if d == 11 { 'b' }
    else if d == 12 { 'c' } else if d == 13 { 'd' } else if d == 14 { 'e' } else { 'f' }
}

/// The digit value of a character; -1 when the character is not a
/// lowercase hexadecimal digit.
pub open spec fn hex_val_spec(c: char) -> int {
    if c == '0' { 0 } else if c == '1' { 1 } else if c == '2' { 2 } else if c == '3' { 3 }
    else if c == '4' { 4 } else if c == '5' { 5 } else if c == '6' { 6 } else if c == '7' { 7 }
    else if c == '8' { 8 } else if c == '9' { 9 } else if c == 'a' { 10 } else if c == 'b' { 11 }
    else if c == 'c' { 12 } else if c == 'd' { 13 } else if c == 'e' { 14 } else if c == 'f' { 15 }
    else { -1 }
}

pub open spec fn is_hex_digit(c: char) -> bool {
    hex_val_spec(c) >= 0
}

pub open spec fn all_hex(s: Seq<char>) -> bool {
    forall|i: int| 0 <= i < s.len() ==> is_hex_digit(#[trigger] s[i])
}

/// The integer a hexadecimal numeral stands for, most significant digit
/// first.
pub open spec fn hex_value_of(s: Seq<char>) -> int
    decreases s.len(),
{
    if s.len() == 0 {
        0
    } else {
        hex_value_of(s.drop_last()) * 16 + hex_val_spec(s.last())
    }
}

/// The canonical numeral of `v` in exactly `w` digits (the low `w`
/// digits, most significant first).
pub open spec fn hex_of(v: int, w: nat) -> Seq<char>
    decreases w,
{
    if w == 0 {
        Seq::empty()
    } else {
        hex_of(v / 16, (w - 1) as nat).push(hex_digit_spec(v % 16))
    }
}

pub proof fn lemma_hex_of_len(v: int, w: nat)
    ensures
        hex_of(v, w).len() == w,
    decreases w,
{
    if w > 0 {
        lemma_hex_of_len(v / 16, (w - 1) as nat);
    }
}

pub proof fn lemma_hex_value_bound(s: Seq<char>)
    requires
        all_hex(s),
    ensures
        0 <= hex_value_of(s) < pow16(s.len()),
    decreases s.len(),
{
    if s.len() > 0 {
        assert(all_hex(s.drop_last())) by {
            assert(forall|i: int|
                0 <= i < s.len() - 1 ==> s.drop_last()[i] == #[trigger] s[i]);
        }
        lemma_hex_value_bound(s.drop_last());
        assert(0 <= hex_val_spec(s.last()) < 16);
        assert(hex_value_of(s.drop_last()) * 16 + 15 < pow16(s.len())) by {
            lemma_mul_inequality(
                hex_value_of(s.drop_last()),
                pow16((s.len() - 1) as nat) as int - 1,
                16,
            );
            assert(pow16(s.len()) == 16 * pow16((s.len() - 1) as nat));
        }
    }
}

/// The canonical numeral of an in-range value renders it exactly.
pub proof fn lemma_hex_of_value(v: int, w: nat)
    requires
        0 <= v < pow16(w),
    ensures
        hex_of(v, w).len() == w,
        all_hex(hex_of(v, w)),
        hex_value_of(hex_of(v, w)) == v,
    decreases w,
{
    if w == 0 {
    } else {
        let d = hex_of(v, w);
        assert(0 <= v % 16 < 16) by {
            vstd::arithmetic::div_mod::lemma_mod_bound(v, 16);
        }
        assert(0 <= v / 16 < pow16((w - 1) as nat)) by {
            vstd::arithmetic::div_mod::lemma_div_pos_is_pos(v, 16);
            assert(pow16(w) == 16 * pow16((w - 1) as nat));
            vstd::arithmetic::div_mod::lemma_multiply_divide_lt(v, 16, pow16((w - 1) as nat) as int);
        }
        lemma_hex_of_value(v / 16, (w - 1) as nat);
        assert(d.drop_last() =~= hex_of(v / 16, (w - 1) as nat));
        assert(d.last() == hex_digit_spec(v % 16));
        assert(hex_val_spec(hex_digit_spec(v % 16)) == v % 16);
        lemma_fundamental_div_mod(v, 16);
    }
}

/// A numeral is determined by its value and its width: any all-hex
/// sequence is the canonical rendering of the value it stands for.
pub proof fn lemma_hex_canonical(s: Seq<char>)
    requires
        all_hex(s),
    ensures
        s == hex_of(hex_value_of(s), s.len()),
    decreases s.len(),
{
    if s.len() > 0 {
        let v = hex_value_of(s);
        let a = hex_value_of(s.drop_last());
        let b = hex_val_spec(s.last());
        assert(all_hex(s.drop_last())) by {
            assert(forall|i: int|
                0 <= i < s.len() - 1 ==> s.drop_last()[i] == #[trigger] s[i]);
        }
        lemma_hex_value_bound(s.drop_last());
        vstd::arithmetic::div_mod::lemma_fundamental_div_mod_converse(v, 16, a, b);
        lemma_hex_canonical(s.drop_last());
        assert(hex_digit_spec(b) == s.last());
        assert(s =~= hex_of(v, s.len()));
    }
}

fn hex_digit_char(d: u8) -> (c: char)
    requires
        d < 16,
    ensures
        c == hex_digit_spec(d as int),
        hex_val_spec(c) == d as int,
{
    if d == 0 { '0' } else if d == 1 { '1' } else if d == 2 { '2' } else if d == 3 { '3' }
    else if d == 4 { '4' } else if d == 5 { '5' } else if d == 6 { '6' } else if d == 7 { '7' }
    else if d == 8 { '8' } else if d == 9 { '9' } else if d == 10 { 'a' } else if d == 11 { 'b' }
    else if d == 12 { 'c' } else if d == 13 { 'd' } else if d == 14 { 'e' } else { 'f' }
}

pub fn hex_char_value(c: char) -> (r: Option<u8>)
    ensures
        r matches Some(d) ==> d as int == hex_val_spec(c) && d < 16,
        r is Some <==> is_hex_digit(c),
{
    match c {
        '0' => Some(0), '1' => Some(1), '2' => Some(2), '3' => Some(3),
        '4' => Some(4), '5' => Some(5), '6' => Some(6), '7' => Some(7),
        '8' => Some(8), '9' => Some(9), 'a' => Some(10), 'b' => Some(11),
        'c' => Some(12), 'd' => Some(13), 'e' => Some(14), 'f' => Some(15),
        _ => None,
    }
}

/// Render `n` as a numeral of exactly `width` lowercase hexadecimal digits.
pub fn u128_to_hex(n: u128, width: usize) -> (s: Vec<char>)
    requires
        width <= 32,
        (n as int) < pow16(width as nat),
    ensures
        s@.len() == width,
        all_hex(s@),
        hex_value_of(s@) == n as int,
        s@ == hex_of(n as int, width as nat),
{
    proof {
        lemma_u128_to_hex_post(n, width);
    }
    let mut s: Vec<char> = Vec::new();
    if width == 0 {
        proof {
            assert(s@ =~= hex_of(n as int, 0));
        }
        return s;
    }
    // p starts at 16^(width - 1) and shrinks by one power per digit.
    let mut p: u128 = 1;
    let mut j: usize = 0;
    while j < width - 1
        invariant
            j <= width - 1 <= 31,
            p as int == pow16(j as nat),
        decreases width - 1 - j,
    {
        proof {
            lemma_pow16_increases((j + 1) as nat, 31);
            assert(pow16(31) < pow16(32)) by {
                lemma_pow16_increases(31, 31);
            }
            lemma_pow16_32();
        }
        p = p * 16;
        j = j + 1;
    }
    let mut i: usize = 0;
    proof {
        lemma_pow16_pos(width as nat);
        lemma_basic_div(n as int, pow16(width as nat) as int);
    }
    while i < width
        invariant
            i <= width <= 32,
            i < width ==> p as int == pow16((width - 1 - i) as nat),
            s@.len() == i,
            all_hex(s@),
            (n as int) < pow16(width as nat),
            hex_value_of(s@) == (n as int) / (pow16((width - i) as nat) as int),
        decreases width - i,
    {
        let ghost k = (width - 1 - i) as nat;
        proof {
            lemma_pow16_increases(1, k + 1);
        }
        let q: u128 = n / p;
        let d: u8 = (q % 16) as u8;
        let ghost prev = s@;
        s.push(hex_digit_char(d));
        proof {
            assert(s@.drop_last() =~= prev);
            // n / 16^(k+1) relates to n / 16^k by one more division by 16.
            lemma_div_denominator(n as int, pow16(k) as int, 16);
            assert((pow16(k) * 16) as int == pow16((k + 1) as nat) as int);
            lemma_fundamental_div_mod((n as int) / (pow16(k) as int), 16);
            lemma_div_basics((n as int) / (pow16(k) as int));
            assert(hex_value_of(s@) == (n as int) / (pow16(k) as int));
        }
        if i + 1 < width {
            p = p / 16;
            proof {
                assert(pow16((width - 1 - i) as nat) == 16 * pow16((width - 2 - i) as nat));
                assert((16 * pow16((width - 2 - i) as nat)) as int / 16 == pow16(
                    (width - 2 - i) as nat,
                ) as int) by {
                    vstd::arithmetic::div_mod::lemma_div_multiples_vanish(
                        pow16((width - 2 - i) as nat) as int,
                        16,
                    );
                }
            }
        }
        i = i + 1;
        proof {
            if i == width {
                assert(pow16(0) == 1);
                lemma_div_basics(n as int);
            }
        }
    }
    s
}

proof fn lemma_u128_to_hex_post(n: u128, width: usize)
    ensures
        forall|s: Seq<char>|
            all_hex(s) && s.len() == width && hex_value_of(s) == n as int ==> s == #[trigger] hex_of(
                n as int,
                width as nat,
            ),
{
    assert forall|s: Seq<char>|
        all_hex(s) && s.len() == width && hex_value_of(s) == n as int implies s == #[trigger] hex_of(
        n as int,
        width as nat,
    ) by {
        lemma_hex_canonical(s);
    }
}

/// Whether every character is a lowercase hexadecimal digit.
pub fn is_all_hex(v: &Vec<char>) -> (r: bool)
    ensures
        r == all_hex(v@),
{
    let mut i: usize = 0;
    while i < v.len()
        invariant
            i <= v@.len(),
            forall|k: int| 0 <= k < i ==> is_hex_digit(#[trigger] v@[k]),
        decreases v@.len() - i,
    {
        if hex_char_value(v[i]).is_none() {
            return false;
        }
        i = i + 1;
    }
    true
}

/// Read a numeral of at most 32 lowercase hexadecimal digits.
pub fn u128_from_hex(s: &Vec<char>) -> (r: Option<u128>)
    requires
        s@.len() <= 32,
    ensures
        r is Some <==> all_hex(s@),
        r matches Some(v) ==> v as int == hex_value_of(s@),
{
    let mut val: u128 = 0;
    let mut i: usize = 0;
    while i < s.len()
        invariant
            i <= s@.len() <= 32,
            all_hex(s@.subrange(0, i as int)),
            val as int == hex_value_of(s@.subrange(0, i as int)),
            (val as int) < pow16(i as nat),
        decreases s@.len() - i,
    {
        let c = s[i];
        match hex_char_value(c) {
            None => {
                return None;
            },
            Some(d) => {
                proof {
                    lemma_pow16_increases(i as nat, 31);
                    lemma_pow16_32();
                    lemma_mul_inequality(val as int, pow16(i as nat) as int - 1, 16);
                    assert(16 * pow16(i as nat) == pow16((i + 1) as nat));
                }
                let ghost prev = s@.subrange(0, i as int);
                val = val * 16 + (d as u128);
                proof {
                    assert(s@.subrange(0, (i + 1) as int).drop_last() =~= prev);
                    assert(s@.subrange(0, (i + 1) as int).last() == c);
                }
                i = i + 1;
            },
        }
    }
    proof {
        assert(s@.subrange(0, s@.len() as int) =~= s@);
    }
    Some(val)
}

} // verus!
