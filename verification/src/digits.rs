//! Rendering counters and offsets as text: decimal, zero-padded decimal
//! for file numbering, and uppercase hexadecimal for the audit trail.

use vstd::prelude::*;
use vstd::arithmetic::div_mod::lemma_fundamental_div_mod;

verus! {

/// The decimal digit character for `d` in `0..10`.
pub open spec fn spec_dec_digit(d: int) -> char {
    if d == 0 {
        '0'
    } else if d == 1 {
        '1'
    } else if d == 2 {
        '2'
    } else if d == 3 {
        '3'
    } else if d == 4 {
        '4'
    } else if d == 5 {
        '5'
    } else if d == 6 {
        '6'
    } else if d == 7 {
        '7'
    } else if d == 8 {
        '8'
    } else {
        '9'
    }
}

/// The value of a decimal digit character, inverse of [`spec_dec_digit`].
pub open spec fn spec_dec_digit_val(c: char) -> int {
    if c == '0' {
        0
    } else if c == '1' {
        1
    } else if c == '2' {
        2
    } else if c == '3' {
        3
    } else if c == '4' {
        4
    } else if c == '5' {
        5
    } else if c == '6' {
        6
    } else if c == '7' {
        7
    } else if c == '8' {
        8
    } else {
        9
    }
}

/// The decimal digits of `n`, most significant first, without leading
/// zeros.
pub open spec fn spec_dec(n: int) -> Seq<char>
    decreases n,
{
    if n < 10 {
        seq![spec_dec_digit(n)]
    } else {
        spec_dec(n / 10).push(spec_dec_digit(n % 10))
    }
}

/// The uppercase hexadecimal digit character for `d` in `0..16`.
pub open spec fn spec_hex_digit(d: int) -> char {
    if d < 10 {
        spec_dec_digit(d)
    } else if d == 10 {
        'A'
    } else if d == 11 {
        'B'
    } else if d == 12 {
        'C'
    } else if d == 13 {
        'D'
    } else if d == 14 {
        'E'
    } else {
        'F'
    }
}

/// The uppercase hexadecimal digits of `n`, most significant first,
/// without leading zeros.
pub open spec fn spec_hex(n: int) -> Seq<char>
    decreases n,
{
    if n < 16 {
        seq![spec_hex_digit(n)]
    } else {
        spec_hex(n / 16).push(spec_hex_digit(n % 16))
    }
}

/// `k` zero characters.
pub open spec fn spec_zeros(k: int) -> Seq<char>
    decreases k,
{
    if k <= 0 {
        Seq::empty()
    } else {
        spec_zeros(k - 1).push('0')
    }
}

/// The decimal digits of `n`, padded with zeros on the left to at least
/// eight characters, as the output manager numbers files.
pub open spec fn spec_padded8(n: int) -> Seq<char> {
    spec_zeros(8 - spec_dec(n).len()) + spec_dec(n)
}

/// The decimal digit character for `d`, as a string slice.
fn dec_digit_str(d: u64) -> (r: &'static str)
    requires
        d < 10,
    ensures
        r@ == seq![spec_dec_digit(d as int)],
{
    let s: &'static str = if d == 0 {
        "0"
    } else if d == 1 {
        "1"
    } else if d == 2 {
        "2"
    } else if d == 3 {
        "3"
    } else if d == 4 {
        "4"
    } else if d == 5 {
        "5"
    } else if d == 6 {
        "6"
    } else if d == 7 {
        "7"
    } else if d == 8 {
        "8"
    } else {
        "9"
    };
    proof {
        reveal_strlit("0");
        reveal_strlit("1");
        reveal_strlit("2");
        reveal_strlit("3");
        reveal_strlit("4");
        reveal_strlit("5");
        reveal_strlit("6");
        reveal_strlit("7");
        reveal_strlit("8");
        reveal_strlit("9");
        assert(s@ =~= seq![spec_dec_digit(d as int)]);
    }
    s
}

/// The uppercase hexadecimal digit character for `d`, as a string slice.
fn hex_digit_str(d: u64) -> (r: &'static str)
    requires
        d < 16,
    ensures
        r@ == seq![spec_hex_digit(d as int)],
{
    let s: &'static str = if d < 10 {
        dec_digit_str(d)
    } else if d == 10 {
        "A"
    } else if d == 11 {
        "B"
    } else if d == 12 {
        "C"
    } else if d == 13 {
        "D"
    } else if d == 14 {
        "E"
    } else {
        "F"
    };
    proof {
        reveal_strlit("A");
        reveal_strlit("B");
        reveal_strlit("C");
        reveal_strlit("D");
        reveal_strlit("E");
        reveal_strlit("F");
        assert(s@ =~= seq![spec_hex_digit(d as int)]);
    }
    s
}

/// Render `n` in decimal.
pub fn dec_string(n: u64) -> (r: String)
    ensures
        r@ == spec_dec(n as int),
    decreases n,
{
    if n < 10 {
        dec_digit_str(n).to_owned()
    } else {
        let mut s = dec_string(n / 10);
        s.append(dec_digit_str(n % 10));
        s
    }
}

/// Render `n` in uppercase hexadecimal, as the audit trail shows offsets.
pub fn hex_string(n: u64) -> (r: String)
    ensures
        r@ == spec_hex(n as int),
    decreases n,
{
    if n < 16 {
        hex_digit_str(n).to_owned()
    } else {
        let mut s = hex_string(n / 16);
        s.append(hex_digit_str(n % 16));
        s
    }
}

/// Render `n` in decimal, padded with zeros on the left to at least eight
/// characters.
pub fn padded8_string(n: u64) -> (r: String)
    ensures
        r@ == spec_padded8(n as int),
{
    let digits = dec_string(n);
    let k = digits.as_str().unicode_len();

    // left-pad with zeros up to eight characters
    let mut s = String::new();
    let mut z: usize = k;
    proof {
        assert(s@ =~= spec_zeros(0));
    }
    while z < 8
        invariant
            k <= z,
            z <= 8 || z == k,
            s@ == spec_zeros(z - k),
        decreases 8 - z,
    {
        s.append("0");
        proof {
            reveal_strlit("0");
            assert(s@ =~= spec_zeros(z + 1 - k));
        }
        z = z + 1;
    }

    s.append(digits.as_str());
    proof {
        assert(spec_zeros(8 - k) =~= spec_zeros(8 - spec_dec(n as int).len()));
        if k >= 8 {
            assert(spec_zeros(8 - k) =~= Seq::<char>::empty());
        }
        assert(s@ =~= spec_padded8(n as int));
    }
    s
}

/// The value that a sequence of decimal digit characters denotes.
pub open spec fn spec_dec_val(s: Seq<char>) -> int
    decreases s.len(),
{
    if s.len() == 0 {
        0
    } else {
        spec_dec_val(s.drop_last()) * 10 + spec_dec_digit_val(s.last())
    }
}

/// Reading back the digits of `n` gives `n`: decimal rendering loses
/// nothing.
pub proof fn lemma_dec_roundtrip(n: int)
    requires
        0 <= n,
    ensures
        spec_dec_val(spec_dec(n)) == n,
    decreases n,
{
    if n < 10 {
        let s = spec_dec(n);
        assert(s =~= seq![spec_dec_digit(n)]);
        assert(s.drop_last() =~= Seq::<char>::empty());
        assert(spec_dec_val(s) == spec_dec_val(s.drop_last()) * 10 + spec_dec_digit_val(s.last()));
        assert(spec_dec_val(s.drop_last()) == 0);
        assert(spec_dec_digit_val(spec_dec_digit(n)) == n);
    } else {
        lemma_fundamental_div_mod(n, 10);
        lemma_dec_roundtrip(n / 10);
        let s = spec_dec(n);
        assert(s == spec_dec(n / 10).push(spec_dec_digit(n % 10)));
        assert(s.drop_last() =~= spec_dec(n / 10));
        assert(s.last() == spec_dec_digit(n % 10));
        assert(spec_dec_val(s) == spec_dec_val(s.drop_last()) * 10 + spec_dec_digit_val(s.last()));
        assert(0 <= n % 10 < 10);
        assert(spec_dec_digit_val(spec_dec_digit(n % 10)) == n % 10);
    }
}

/// Zeros on the left do not change the value a digit sequence denotes.
pub proof fn lemma_zeros_val(k: int, s: Seq<char>)
    ensures
        spec_dec_val(spec_zeros(k) + s) == spec_dec_val(s),
    decreases s.len(),
{
    if s.len() == 0 {
        assert(spec_zeros(k) + s =~= spec_zeros(k));
        lemma_zeros_alone(k);
    } else {
        assert((spec_zeros(k) + s).drop_last() =~= spec_zeros(k) + s.drop_last());
        assert((spec_zeros(k) + s).last() == s.last());
        lemma_zeros_val(k, s.drop_last());
    }
}

/// A sequence of zeros denotes zero.
proof fn lemma_zeros_alone(k: int)
    ensures
        spec_dec_val(spec_zeros(k)) == 0,
    decreases k,
{
    if k > 0 {
        assert(spec_zeros(k).drop_last() =~= spec_zeros(k - 1));
        lemma_zeros_alone(k - 1);
    }
}

/// Two distinct counters never render to the same padded digits.
pub proof fn lemma_padded8_injective(n1: int, n2: int)
    requires
        0 <= n1,
        0 <= n2,
        spec_padded8(n1) == spec_padded8(n2),
    ensures
        n1 == n2,
{
    lemma_zeros_val(8 - spec_dec(n1).len(), spec_dec(n1));
    lemma_zeros_val(8 - spec_dec(n2).len(), spec_dec(n2));
    lemma_dec_roundtrip(n1);
    lemma_dec_roundtrip(n2);
}

} // verus!
