//! Decimal text of unsigned integers: formatting (plain and zero-padded)
//! and parsing, with the grammar that `str::parse::<u64>` accepts.
use vstd::prelude::*;
use crate::text::{chars_of, string_from_chars};

verus! {

/// Whether `c` is one of `0`..`9`.
pub open spec fn is_digit(c: char) -> bool {
    48 <= (c as u32) <= 57
}

/// Whether every character of `s` is a decimal digit.
pub open spec fn all_digits(s: Seq<char>) -> bool {
    forall|i: int| 0 <= i < s.len() ==> #[trigger] is_digit(s[i])
}

/// The value of the decimal digits `s`, most significant first.
pub open spec fn digits_value(s: Seq<char>) -> nat
    decreases s.len(),
{
    if s.len() == 0 {
        0
    } else {
        digits_value(s.drop_last()) * 10 + (s.last() as u32 - 48) as nat
    }
}

/// The shortest decimal text of `n`.
pub open spec fn decimal(n: nat) -> Seq<char>
    decreases n,
{
    if n < 10 {
        seq![(n + 48) as char]
    } else {
        decimal(n / 10).push(((n % 10) + 48) as char)
    }
}

/// `s` with `0`s put in front until it is `width` characters long.
pub open spec fn zero_padded(s: Seq<char>, width: nat) -> Seq<char> {
    if s.len() >= width {
        s
    } else {
        Seq::new((width - s.len()) as nat, |i: int| '0') + s
    }
}

/// What `str::parse::<u64>` gives for the text `s`: an optional `+`, then
/// one or more decimal digits whose value fits in a `u64`.
pub open spec fn parse_u64(s: Seq<char>) -> Option<u64> {
    let d = if s.len() > 0 && s[0] == '+' {
        s.skip(1)
    } else {
        s
    };
    if d.len() > 0 && all_digits(d) && digits_value(d) <= u64::MAX {
        Some(digits_value(d) as u64)
    } else {
        None
    }
}

/// The decimal text of a number is made of digits and gives the number back.
pub proof fn lemma_decimal(n: nat)
    ensures
        all_digits(decimal(n)),
        digits_value(decimal(n)) == n,
        1 <= decimal(n).len() <= n + 1,
        n <= u64::MAX ==> decimal(n).len() <= 20,
    decreases n,
{
    if n >= 10 {
        lemma_decimal(n / 10);
        let d = decimal(n);
        assert(d.drop_last() =~= decimal(n / 10));
        assert(d.last() as u32 == n % 10 + 48);
        assert(digits_value(d) == digits_value(d.drop_last()) * 10 + (d.last() as u32 - 48) as nat);
        assert(digits_value(d) == n);
        assert(all_digits(d)) by {
            assert forall|i: int| 0 <= i < d.len() implies #[trigger] is_digit(d[i]) by {
                if i < d.len() - 1 {
                    assert(d[i] == decimal(n / 10)[i]);
                }
            }
        }
    } else {
        let d = decimal(n);
        assert(d.drop_last() =~= Seq::<char>::empty());
        assert(d.last() as u32 == n + 48);
        assert(digits_value(d) == digits_value(d.drop_last()) * 10 + (d.last() as u32 - 48) as nat);
        assert(digits_value(d.drop_last()) == 0);
    }
    if n <= u64::MAX {
        reveal_with_fuel(pow10, 21);
        assert(pow10(20) == 100000000000000000000nat);
        lemma_decimal_len_small(n, 20);
    }
}

proof fn lemma_decimal_len_small(n: nat, k: nat)
    requires
        n < pow10(k),
        k >= 1,
    ensures
        decimal(n).len() <= k,
    decreases n,
{
    if n >= 10 {
        assert(k >= 2) by {
            if k == 0 {
            } else if k == 1 {
                assert(pow10(1) == 10 * pow10(0));
            }
        }
        assert(pow10(k) == 10 * pow10((k - 1) as nat));
        assert(n / 10 < pow10((k - 1) as nat));
        lemma_decimal_len_small(n / 10, (k - 1) as nat);
    } else {
        if k == 0 {
            assert(pow10(0) == 1);
        }
    }
}

/// Ten to the power `k`.
pub open spec fn pow10(k: nat) -> nat
    decreases k,
{
    if k == 0 {
        1
    } else {
        10 * pow10((k - 1) as nat)
    }
}

/// Leading zeros do not change the value of a digit string.
pub proof fn lemma_leading_zeros(z: nat, s: Seq<char>)
    ensures
        digits_value(Seq::new(z, |i: int| '0') + s) == digits_value(s),
        all_digits(s) ==> all_digits(Seq::new(z, |i: int| '0') + s),
    decreases s.len(), z,
{
    let zs = Seq::new(z, |i: int| '0');
    let t = zs + s;
    if s.len() == 0 {
        assert(t =~= zs);
        if z > 0 {
            lemma_leading_zeros((z - 1) as nat, s);
            assert(t.drop_last() =~= Seq::new((z - 1) as nat, |i: int| '0') + s);
        }
    } else {
        lemma_leading_zeros(z, s.drop_last());
        assert(t.drop_last() =~= zs + s.drop_last());
    }
    if all_digits(s) {
        assert forall|i: int| 0 <= i < t.len() implies #[trigger] is_digit(t[i]) by {
            if i >= z {
                assert(t[i] == s[i - z]);
            }
        }
    }
}

/// A zero-padded decimal text parses back to the number.
pub proof fn lemma_parse_zero_padded(n: u64, width: nat)
    ensures
        parse_u64(zero_padded(decimal(n as nat), width)) == Some(n),
{
    let d = decimal(n as nat);
    lemma_decimal(n as nat);
    let p = zero_padded(d, width);
    if d.len() < width {
        lemma_leading_zeros((width - d.len()) as nat, d);
    }
    assert(p.len() > 0);
    assert(is_digit(p[0]));
}

fn push_decimal(n: u128, out: &mut Vec<char>)
    ensures
        final(out)@ == old(out)@ + decimal(n as nat),
    decreases n,
{
    if n >= 10 {
        push_decimal(n / 10, out);
    }
    let d = (n % 10) as u8;
    out.push(((d + 48) as u8) as char);
}

/// The decimal text of `n`, as `n.to_string()` writes it.
pub fn u64_to_decimal(n: u64) -> (s: String)
    ensures
        s@ == decimal(n as nat),
{
    let mut out: Vec<char> = Vec::new();
    push_decimal(n as u128, &mut out);
    assert(out@ =~= decimal(n as nat));
    string_from_chars(out)
}

/// The decimal text of `n`, as `n.to_string()` writes it.
pub fn u128_to_decimal(n: u128) -> (s: String)
    ensures
        s@ == decimal(n as nat),
{
    let mut out: Vec<char> = Vec::new();
    push_decimal(n, &mut out);
    assert(out@ =~= decimal(n as nat));
    string_from_chars(out)
}

/// The decimal text of `n` padded with zeros to `width` characters, as
/// `format!("{:0width$}", n)` writes it.
pub fn u64_to_padded_decimal(n: u64, width: usize) -> (s: String)
    ensures
        s@ == zero_padded(decimal(n as nat), width as nat),
{
    string_from_chars(padded_decimal_chars(n, width))
}

/// The characters of `u64_to_padded_decimal(n, width)`.
pub fn padded_decimal_chars(n: u64, width: usize) -> (out: Vec<char>)
    ensures
        out@ == zero_padded(decimal(n as nat), width as nat),
{
    let mut digits: Vec<char> = Vec::new();
    push_decimal(n as u128, &mut digits);
    assert(digits@ =~= decimal(n as nat));
    proof { lemma_decimal(n as nat); }
    let len = digits.len();
    let mut out: Vec<char> = Vec::new();
    if len < width {
        let mut k: usize = 0;
        while k < width - len
            invariant
                k <= width - len,
                len < width,
                out@ =~= Seq::new(k as nat, |i: int| '0'),
            decreases width - len - k,
        {
            out.push('0');
            k = k + 1;
        }
    }
    let mut j: usize = 0;
    let ghost pad = out@;
    while j < len
        invariant
            j <= len,
            len == digits@.len(),
            out@ =~= pad + digits@.take(j as int),
        decreases len - j,
    {
        out.push(digits[j]);
        j = j + 1;
        assert(digits@.take(j as int) =~= digits@.take(j - 1).push(digits@[j - 1]));
    }
    assert(digits@.take(len as int) =~= digits@);
    out
}

proof fn lemma_digits_value_prefix(s: Seq<char>, i: int)
    requires
        0 <= i <= s.len(),
    ensures
        digits_value(s.take(i)) <= digits_value(s),
    decreases s.len() - i,
{
    if i < s.len() {
        lemma_digits_value_prefix(s, i + 1);
        assert(s.take(i + 1).drop_last() =~= s.take(i));
    } else {
        assert(s.take(i) =~= s);
    }
}

/// Parses decimal text as `str::parse::<u64>` does: an optional `+`, then
/// one or more digits whose value fits in a `u64`.
pub fn parse_u64_decimal(s: &str) -> (r: Option<u64>)
    ensures
        r == parse_u64(s@),
{
    let c = chars_of(s);
    parse_u64_chars(&c)
}

/// `parse_u64_decimal` on a vector of characters.
pub fn parse_u64_chars(c: &Vec<char>) -> (r: Option<u64>)
    ensures
        r == parse_u64(c@),
{
    let ghost s = c@;
    let n = c.len();
    let start: usize = if n > 0 && c[0] == '+' { 1 } else { 0 };
    let ghost d = if s.len() > 0 && s[0] == '+' { s.skip(1) } else { s };
    assert(d =~= c@.skip(start as int));
    if start == n {
        return None;
    }
    let mut acc: u64 = 0;
    let mut i: usize = start;
    assert(d.len() > 0);
    while i < n
        invariant
            start <= i <= n,
            d.len() > 0,
            s == c@,
            parse_u64(s) == (if all_digits(d) && digits_value(d) <= u64::MAX {
                Some(digits_value(d) as u64)
            } else {
                None
            }),
            n == c@.len(),
            d =~= c@.skip(start as int),
            all_digits(d.take(i - start)),
            acc == digits_value(d.take(i - start)),
        decreases n - i,
    {
        let ch = c[i];
        let x = ch as u32;
        let ghost p = d.take(i - start);
        let ghost p1 = d.take(i - start + 1);
        assert(p1.drop_last() =~= p);
        assert(p1.last() == ch);
        assert(d[i - start] == ch);
        if x < 48 || x > 57 {
            assert(!is_digit(d[i - start]));
            assert(!all_digits(d));
            return None;
        }
        let digit = (x - 48) as u64;
        
        assert(is_digit(ch));
        assert(digits_value(p1) == digits_value(p1.drop_last()) * 10 + (p1.last() as u32 - 48) as nat);
        assert(digits_value(p1) == digits_value(p) * 10 + digit);
        if acc > 1844674407370955161 || (acc == 1844674407370955161 && digit > 5) {
            proof {
                lemma_digits_value_prefix(d, i - start + 1);
            }
            return None;
        }
        acc = acc * 10 + digit;
        i = i + 1;
        assert(acc == digits_value(p1));
        assert(all_digits(p1)) by {
            assert forall|k: int| 0 <= k < p1.len() implies #[trigger] is_digit(p1[k]) by {
                if k < p1.len() - 1 {
                    assert(p1[k] == p[k]);
                } else {
                    assert(p1[k] == ch);
                }
            }
        }
    }
    assert(d.take(n - start) =~= d);
    Some(acc)
}

} // verus!
