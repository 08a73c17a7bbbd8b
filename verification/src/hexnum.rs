//! Fixed-width hexadecimal numerals: every 64-bit value is written as exactly
//! sixteen lower-case digits, so the claims codec can read numbers without
//! scanning for separators. Writing and reading are proved inverse.

use vstd::prelude::*;
use vstd::string::StringExecFns;
use vstd::string::StrSliceExecFns;
use vstd::arithmetic::div_mod::lemma_fundamental_div_mod;

verus! {

/// The lower-case digit character of a value below sixteen.
pub open spec fn hex_char(d: u8) -> char {
    if d == 0 {
        '0'
    } else if d == 1 {
        '1'
    } else if d == 2 {
        '2'
    } else if d == 3 {
        '3'
    } else if d == 4 {
        '4'
    } else if d == 5 {
        '5'
    } else if d == 6 {
        '6'
    } else if d == 7 {
        '7'
    } else if d == 8 {
        '8'
    } else if d == 9 {
        '9'
    } else if d == 10 {
        'a'
    } else if d == 11 {
        'b'
    } else if d == 12 {
        'c'
    } else if d == 13 {
        'd'
    } else if d == 14 {
        'e'
    } else {
        'f'
    }
}

/// The value of a digit character; sixteen marks a non-digit.
pub open spec fn hex_val(c: char) -> u8 {
    if c == '0' {
        0
    } else if c == '1' {
        1
    } else if c == '2' {
        2
    } else if c == '3' {
        3
    } else if c == '4' {
        4
    } else if c == '5' {
        5
    } else if c == '6' {
        6
    } else if c == '7' {
        7
    } else if c == '8' {
        8
    } else if c == '9' {
        9
    } else if c == 'a' {
        10
    } else if c == 'b' {
        11
    } else if c == 'c' {
        12
    } else if c == 'd' {
        13
    } else if c == 'e' {
        14
    } else if c == 'f' {
        15
    } else {
        16
    }
}

pub open spec fn is_hex_digit(c: char) -> bool {
    hex_val(c) < 16
}

pub open spec fn is_hex_seq(s: Seq<char>) -> bool {
    forall|i: int| 0 <= i < s.len() ==> is_hex_digit(#[trigger] s[i])
}

/// The low k hexadecimal digits of n, most significant first.
pub open spec fn hex_digits(n: nat, k: nat) -> Seq<char>
    decreases k,
{
    if k == 0 {
        Seq::empty()
    } else {
        hex_digits(n / 16, (k - 1) as nat).push(hex_char((n % 16) as u8))
    }
}

/// A 64-bit value as exactly sixteen digits.
pub open spec fn hex16(n: u64) -> Seq<char> {
    hex_digits(n as nat, 16)
}

pub open spec fn pow16(k: nat) -> nat
    decreases k,
{
    if k == 0 {
        1
    } else {
        16 * pow16((k - 1) as nat)
    }
}

/// The numeric value of a digit sequence, most significant first.
pub open spec fn hex_value(s: Seq<char>) -> nat
    decreases s.len(),
{
    if s.len() == 0 {
        0
    } else {
        hex_value(s.drop_last()) * 16 + hex_val(s.last()) as nat
    }
}

pub proof fn lemma_hex_digit_roundtrip(d: u8)
    requires
        d < 16,
    ensures
        hex_val(hex_char(d)) == d,
{
}

pub proof fn lemma_pow16_increases(a: nat, b: nat)
    requires
        a <= b,
    ensures
        pow16(a) <= pow16(b),
    decreases b,
{
    if a < b {
        lemma_pow16_increases(a, (b - 1) as nat);
    }
}

pub proof fn lemma_pow16_16()
    ensures
        pow16(16) == 0x10000000000000000,
{
    reveal_with_fuel(pow16, 17);
}

/// Writing then valuing the digits of n gives n back, for any n the width can
/// hold; the digits are all digits and exactly k many.
pub proof fn lemma_hex_digits_value(n: nat, k: nat)
    requires
        n < pow16(k),
    ensures
        hex_digits(n, k).len() == k,
        is_hex_seq(hex_digits(n, k)),
        hex_value(hex_digits(n, k)) == n,
    decreases k,
{
    if k == 0 {
    } else {
        lemma_fundamental_div_mod(n as int, 16);
        assert(n / 16 < pow16((k - 1) as nat)) by (nonlinear_arith)
            requires
                n < pow16(k),
                pow16(k) == 16 * pow16((k - 1) as nat),
        ;
        lemma_hex_digits_value(n / 16, (k - 1) as nat);
        let sub = hex_digits(n / 16, (k - 1) as nat);
        let s = hex_digits(n, k);
        let d = (n % 16) as u8;
        lemma_hex_digit_roundtrip(d);
        assert(s.drop_last() =~= sub);
        assert(s.last() == hex_char(d));
        assert(forall|i: int| 0 <= i < s.len() - 1 ==> s[i] == sub[i]);
        assert(is_hex_seq(s));
        assert(hex_value(s) == hex_value(sub) * 16 + hex_val(hex_char(d)) as nat);
    }
}

/// The value of k digits is below the k-th power of sixteen.
pub proof fn lemma_hex_value_bound(s: Seq<char>)
    requires
        is_hex_seq(s),
    ensures
        hex_value(s) < pow16(s.len()),
    decreases s.len(),
{
    if s.len() == 0 {
    } else {
        let dl = s.drop_last();
        assert(forall|i: int| 0 <= i < dl.len() ==> dl[i] == s[i]);
        lemma_hex_value_bound(dl);
        assert(is_hex_digit(s.last()));
        assert(hex_value(dl) * 16 + (hex_val(s.last()) as nat) < 16 * pow16(dl.len()))
            by (nonlinear_arith)
            requires
                hex_value(dl) < pow16(dl.len()),
                hex_val(s.last()) < 16,
        ;
    }
}

/// Appends the character of one digit value.
fn push_hex_char(out: &mut String, d: u8)
    requires
        d < 16,
    ensures
        final(out)@ == old(out)@.push(hex_char(d)),
{
    let s: &str = if d == 0 {
        "0"
    } else if d == 1 {
        "1"
    } else if d == 2 {
        "2"
    } else if d == 3 {
        "3"
    } else if d == 4 {
        "4"
    } else if d == 5 {
        "5"
    } else if d == 6 {
        "6"
    } else if d == 7 {
        "7"
    } else if d == 8 {
        "8"
    } else if d == 9 {
        "9"
    } else if d == 10 {
        "a"
    } else if d == 11 {
        "b"
    } else if d == 12 {
        "c"
    } else if d == 13 {
        "d"
    } else if d == 14 {
        "e"
    } else {
        "f"
    };
    proof {
        reveal_strlit("0");
        reveal_strlit("1");
        reveal_strlit("2");
        reveal_strlit("3");
        reveal_strlit("4");
        reveal_strlit("5");
        reveal_strlit("6");
        reveal_strlit("7");
        reveal_strlit("8");
        reveal_strlit("9");
        reveal_strlit("a");
        reveal_strlit("b");
        reveal_strlit("c");
        reveal_strlit("d");
        reveal_strlit("e");
        reveal_strlit("f");
        assert(s@ =~= seq![hex_char(d)]);
    }
    out.append(s);
    assert(out@ =~= old(out)@.push(hex_char(d)));
}

fn push_hex_digits(out: &mut String, n: u64, k: usize)
    ensures
        final(out)@ == old(out)@ + hex_digits(n as nat, k as nat),
    decreases k,
{
    if k == 0 {
        assert(out@ =~= old(out)@ + hex_digits(n as nat, 0));
    } else {
        push_hex_digits(out, n / 16, k - 1);
        let d = (n % 16) as u8;
        push_hex_char(out, d);
        assert(out@ =~= old(out)@ + hex_digits(n as nat, k as nat));
    }
}

/// Appends the sixteen-digit form of n.
pub fn push_hex16(out: &mut String, n: u64)
    ensures
        final(out)@ == old(out)@ + hex16(n),
{
    push_hex_digits(out, n, 16);
}

/// The value of one digit character; sixteen for a non-digit.
fn hex_digit_val(c: char) -> (r: u8)
    ensures
        r == hex_val(c),
{
    match c {
        '0' => 0,
        '1' => 1,
        '2' => 2,
        '3' => 3,
        '4' => 4,
        '5' => 5,
        '6' => 6,
        '7' => 7,
        '8' => 8,
        '9' => 9,
        'a' => 10,
        'b' => 11,
        'c' => 12,
        'd' => 13,
        'e' => 14,
        'f' => 15,
        _ => 16,
    }
}

/// Reads the sixteen digits standing at `pos`; fails exactly when a non-digit
/// stands among them, and otherwise returns their value.
pub fn parse_hex16_at(s: &str, pos: usize) -> (r: Option<u64>)
    requires
        pos + 16 <= s@.len(),
        s@.len() <= usize::MAX,
    ensures
        ({
            let digits = s@.subrange(pos as int, pos as int + 16);
            &&& (r is Some <==> is_hex_seq(digits))
            &&& (r is Some ==> r.unwrap() as nat == hex_value(digits))
        }),
{
    let ghost digits = s@.subrange(pos as int, pos as int + 16);
    let mut acc: u64 = 0;
    let mut i: usize = 0;
    while i < 16
        invariant
            pos + 16 <= s@.len() <= usize::MAX,
            i <= 16,
            digits == s@.subrange(pos as int, pos as int + 16),
            is_hex_seq(digits.take(i as int)),
            acc as nat == hex_value(digits.take(i as int)),
        decreases 16 - i,
    {
        let c = s.get_char(pos + i);
        assert(c == digits[i as int]);
        let d = hex_digit_val(c);
        if d >= 16 {
            assert(!is_hex_digit(digits[i as int]));
            return None;
        }
        proof {
            lemma_hex_value_bound(digits.take(i as int));
            lemma_pow16_increases(i as nat, 15);
            lemma_pow16_16();
            assert(pow16(16) == 16 * pow16(15));
            assert(acc * 16 + 15 < pow16(16)) by (nonlinear_arith)
                requires
                    acc < pow16(15),
                    pow16(16) == 16 * pow16(15),
            ;
        }
        acc = acc * 16 + (d as u64);
        proof {
            assert(digits.take(i as int + 1).drop_last() =~= digits.take(i as int));
            assert(digits.take(i as int + 1).last() == c);
            assert(is_hex_seq(digits.take(i as int + 1)));
        }
        i += 1;
    }
    proof {
        assert(digits.take(16) =~= digits);
    }
    Some(acc)
}

} // verus!
