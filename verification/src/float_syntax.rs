//! Recognises the texts that `str::parse::<f64>` accepts.
//!
//! std documents the grammar (case-insensitive, no surrounding
//! whitespace):
//!
//! ```text
//! Float  ::= Sign? ( 'inf' | 'infinity' | 'nan' | Number )
//! Number ::= ( Digit+ | Digit+ '.' Digit* | Digit* '.' Digit+ ) Exp?
//! Exp    ::= 'e' Sign? Digit+
//! Sign   ::= [+-]
//! Digit  ::= [0-9]
//! ```
//!
//! The telemetry builder writes a value without quotes exactly when it is
//! such a number.
use vstd::prelude::*;
use crate::decimal::{all_digits, is_digit};
use crate::text::chars_of;

verus! {

/// `c` in lower case, for ASCII letters.
pub open spec fn lower(c: char) -> char {
    if 65 <= (c as u32) <= 90 {
        ((c as u32) + 32) as char
    } else {
        c
    }
}

/// Whether `s` spells `word` (given in lower case), ignoring ASCII case.
pub open spec fn spells(s: Seq<char>, word: Seq<char>) -> bool {
    s.len() == word.len() && forall|i: int| 0 <= i < s.len() ==> #[trigger] lower(s[i]) == word[i]
}

/// `s` without one leading `+` or `-`.
pub open spec fn unsigned_part(s: Seq<char>) -> Seq<char> {
    if s.len() > 0 && (s[0] == '+' || s[0] == '-') {
        s.skip(1)
    } else {
        s
    }
}

/// The index of the first character of `s` that `lower` maps to `c`, or
/// the length of `s` if there is none.
pub open spec fn first_index(s: Seq<char>, c: char) -> nat
    decreases s.len(),
{
    if s.len() == 0 {
        0
    } else if lower(s[0]) == c {
        0
    } else {
        1 + first_index(s.skip(1), c)
    }
}

/// `Exp` of the grammar, or nothing.
pub open spec fn valid_exponent(x: Seq<char>) -> bool {
    x.len() == 0 || (lower(x[0]) == 'e' && unsigned_part(x.skip(1)).len() > 0 && all_digits(
        unsigned_part(x.skip(1)),
    ))
}

/// The mantissa part of `Number`: digits with at most one `.`, and at
/// least one digit.
pub open spec fn valid_mantissa(m: Seq<char>) -> bool {
    let d = first_index(m, '.');
    let left = m.take(d as int);
    if d == m.len() {
        left.len() > 0 && all_digits(left)
    } else {
        let right = m.skip(d + 1int);
        all_digits(left) && all_digits(right) && (left.len() > 0 || right.len() > 0)
    }
}

/// `Number` of the grammar.
pub open spec fn valid_number(s: Seq<char>) -> bool {
    let e = first_index(s, 'e');
    valid_mantissa(s.take(e as int)) && valid_exponent(s.skip(e as int))
}

/// Whether `str::parse::<f64>` accepts `s`.
pub open spec fn is_float_literal(s: Seq<char>) -> bool {
    let u = unsigned_part(s);
    spells(u, seq!['i', 'n', 'f']) || spells(u, seq!['i', 'n', 'f', 'i', 'n', 'i', 't', 'y'])
        || spells(u, seq!['n', 'a', 'n']) || valid_number(u)
}

fn lower_char(c: char) -> (r: char)
    ensures
        r == lower(c),
{
    let x = c as u32;
    if 65 <= x && x <= 90 {
        ((x + 32) as u8) as char
    } else {
        c
    }
}

fn spells_exec(s: &Vec<char>, from: usize, word: &Vec<char>) -> (r: bool)
    requires
        from <= s@.len(),
    ensures
        r == spells(s@.skip(from as int), word@),
{
    let n = s.len();
    if n - from != word.len() {
        return false;
    }
    let mut i: usize = 0;
    while i < word.len()
        invariant
            i <= word@.len(),
            n == s@.len(),
            n - from == word@.len(),
            from <= n,
            forall|k: int| 0 <= k < i ==> #[trigger] lower(s@.skip(from as int)[k]) == word@[k],
        decreases word@.len() - i,
    {
        if lower_char(s[from + i]) != word[i] {
            assert(lower(s@.skip(from as int)[i as int]) != word@[i as int]);
            return false;
        }
        i = i + 1;
    }
    true
}

fn first_index_exec(s: &Vec<char>, from: usize, to: usize, c: char) -> (r: usize)
    requires
        from <= to <= s@.len(),
    ensures
        r - from == first_index(s@.subrange(from as int, to as int), c),
        from <= r <= to,
        r < to ==> lower(s@[r as int]) == c,
{
    let mut i = from;
    while i < to
        invariant
            from <= i <= to,
            to <= s@.len(),
            first_index(s@.subrange(from as int, to as int), c) == (i - from) + first_index(
                s@.subrange(i as int, to as int),
                c,
            ),
        decreases to - i,
    {
        assert(s@.subrange(i as int, to as int).skip(1) =~= s@.subrange(i + 1, to as int));
        if lower_char(s[i]) == c {
            return i;
        }
        i = i + 1;
    }
    i
}

fn all_digits_exec(s: &Vec<char>, from: usize, to: usize) -> (r: bool)
    requires
        from <= to <= s@.len(),
    ensures
        r == all_digits(s@.subrange(from as int, to as int)),
{
    let mut i = from;
    while i < to
        invariant
            from <= i <= to,
            to <= s@.len(),
            forall|k: int| from <= k < i ==> #[trigger] is_digit(s@[k]),
        decreases to - i,
    {
        let x = s[i] as u32;
        if x < 48 || x > 57 {
            assert(!is_digit(s@[i as int]));
            assert(s@.subrange(from as int, to as int)[i - from] == s@[i as int]);
            assert(!is_digit(s@.subrange(from as int, to as int)[i - from]));
            return false;
        }
        i = i + 1;
    }
    assert forall|k: int| 0 <= k < to - from implies #[trigger] is_digit(
        s@.subrange(from as int, to as int)[k],
    ) by {
        assert(s@.subrange(from as int, to as int)[k] == s@[from + k]);
    }
    true
}

/// Whether `s` is a decimal floating-point literal that `str::parse::<f64>`
/// accepts.
pub fn is_float_text(s: &str) -> (r: bool)
    ensures
        r == is_float_literal(s@),
{
    let c = chars_of(s);
    let n = c.len();
    let start: usize = if n > 0 && (c[0] == '+' || c[0] == '-') { 1 } else { 0 };
    let ghost u = unsigned_part(c@);
    assert(u =~= c@.skip(start as int));
    assert(u =~= c@.subrange(start as int, n as int));
    let inf = vec!['i', 'n', 'f'];
    let infinity = vec!['i', 'n', 'f', 'i', 'n', 'i', 't', 'y'];
    let nan = vec!['n', 'a', 'n'];
    assert(inf@ =~= seq!['i', 'n', 'f']);
    assert(infinity@ =~= seq!['i', 'n', 'f', 'i', 'n', 'i', 't', 'y']);
    assert(nan@ =~= seq!['n', 'a', 'n']);
    if spells_exec(&c, start, &inf) || spells_exec(&c, start, &infinity) || spells_exec(
        &c,
        start,
        &nan,
    ) {
        return true;
    }
    let e = first_index_exec(&c, start, n, 'e');
    let ghost ee = first_index(u, 'e');
    assert(u.take(ee as int) =~= c@.subrange(start as int, e as int));
    assert(u.skip(ee as int) =~= c@.subrange(e as int, n as int));
    // exponent
    let exp_ok = if e == n {
        true
    } else {
        let s2: usize = if e + 1 < n && (c[e + 1] == '+' || c[e + 1] == '-') { e + 2 } else { e + 1 };
        let ghost x = u.skip(ee as int);
        assert(unsigned_part(x.skip(1)) =~= c@.subrange(s2 as int, n as int));
        s2 < n && all_digits_exec(&c, s2, n)
    };
    assert(exp_ok == valid_exponent(u.skip(ee as int)));
    assert(is_float_literal(s@) == valid_number(u));
    if !exp_ok {
        return false;
    }
    let ghost m = u.take(ee as int);
    let d = first_index_exec(&c, start, e, '.');
    let ghost dd = first_index(m, '.');
    assert(m.take(dd as int) =~= c@.subrange(start as int, d as int));
    assert(valid_number(u) == valid_mantissa(m));
    if d == e {
        assert(dd == m.len());
        d > start && all_digits_exec(&c, start, d)
    } else {
        assert(dd < m.len());
        assert(m.skip(dd + 1int) =~= c@.subrange(d + 1, e as int));
        all_digits_exec(&c, start, d) && all_digits_exec(&c, d + 1, e) && (d > start || e > d + 1)
    }
}

/// Whether `s` is nothing or one sign character.
pub open spec fn optional_sign(s: Seq<char>) -> bool {
    s.len() == 0 || s == seq!['+'] || s == seq!['-']
}

proof fn lemma_first_index_after(p: Seq<char>, q: Seq<char>, c: char)
    requires
        forall|i: int| 0 <= i < p.len() ==> #[trigger] lower(p[i]) != c,
    ensures
        first_index(p + q, c) == p.len() + first_index(q, c),
    decreases p.len(),
{
    if p.len() == 0 {
        assert(p + q =~= q);
    } else {
        assert((p + q).skip(1) =~= p.skip(1) + q);
        assert((p + q)[0] == p[0]);
        lemma_first_index_after(p.skip(1), q, c);
    }
}

proof fn lemma_first_index_at(q: Seq<char>, c: char)
    requires
        q.len() > 0,
        lower(q[0]) == c,
    ensures
        first_index(q, c) == 0,
{
}

proof fn lemma_digit_lower(s: Seq<char>)
    requires
        all_digits(s),
    ensures
        forall|i: int| 0 <= i < s.len() ==> #[trigger] lower(s[i]) == s[i],
        forall|i: int| 0 <= i < s.len() ==> lower(#[trigger] s[i]) != 'e' && lower(s[i]) != '.',
{
    assert forall|i: int| 0 <= i < s.len() implies #[trigger] lower(s[i]) == s[i] && lower(s[i]) != 'e'
        && lower(s[i]) != '.' by {
        assert(is_digit(s[i]));
        assert(('e' as u32) == 101 && ('.' as u32) == 46);
    }
}

proof fn lemma_unsigned(sign: Seq<char>, t: Seq<char>)
    requires
        optional_sign(sign),
        t.len() > 0,
        t[0] != '+' && t[0] != '-',
    ensures
        unsigned_part(sign + t) == t,
{
    if sign.len() == 0 {
        assert(sign + t =~= t);
    } else {
        assert((sign + t).skip(1) =~= t);
    }
}

/// `str::parse::<f64>` accepts a decimal with a point and an exponent,
/// wherever the point stands: an optional sign, digits, a point, digits
/// (at least one digit on one side of the point), `e` or `E`, an optional
/// sign and at least one digit.
pub proof fn lemma_point_and_exponent_accepted(
    sign: Seq<char>,
    a: Seq<char>,
    b: Seq<char>,
    e: char,
    esign: Seq<char>,
    x: Seq<char>,
)
    requires
        optional_sign(sign),
        all_digits(a),
        all_digits(b),
        a.len() > 0 || b.len() > 0,
        e == 'e' || e == 'E',
        optional_sign(esign),
        all_digits(x),
        x.len() > 0,
    ensures
        is_float_literal(sign + a + seq!['.'] + b + seq![e] + esign + x),
{
    let m = a + seq!['.'] + b;
    let ex = seq![e] + esign + x;
    let t = m + ex;
    assert(sign + a + seq!['.'] + b + seq![e] + esign + x =~= sign + t);
    assert(t[0] != '+' && t[0] != '-') by {
        if a.len() > 0 {
            assert(t[0] == a[0]);
            assert(is_digit(a[0]));
        } else {
            assert(t[0] == '.');
        }
    }
    lemma_unsigned(sign, t);
    lemma_digit_lower(a);
    lemma_digit_lower(b);
    lemma_digit_lower(x);
    // the exponent starts right after the mantissa
    assert forall|i: int| 0 <= i < m.len() implies #[trigger] lower(m[i]) != 'e' by {
        if i < a.len() {
            assert(m[i] == a[i]);
        } else if i > a.len() {
            assert(m[i] == b[i - a.len() - 1]);
        }
    }
    lemma_first_index_after(m, ex, 'e');
    lemma_first_index_at(ex, 'e');
    assert(t.take(m.len() as int) =~= m);
    assert(t.skip(m.len() as int) =~= ex);
    // the point follows the first digits
    lemma_first_index_after(a, seq!['.'] + b, '.');
    lemma_first_index_at(seq!['.'] + b, '.');
    assert(a + (seq!['.'] + b) =~= m);
    assert(m.take(a.len() as int) =~= a);
    assert(m.skip(a.len() + 1int) =~= b);
    // the exponent's digits
    assert(ex.skip(1) =~= esign + x);
    if esign.len() == 0 {
        assert(esign + x =~= x);
        assert(is_digit(x[0]));
    } else {
        assert((esign + x).skip(1) =~= x);
    }
}

/// `str::parse::<f64>` accepts an optional sign followed by one or more
/// digits, with an optional exponent (`e` or `E`, an optional sign and at
/// least one digit).
pub proof fn lemma_integer_accepted(sign: Seq<char>, a: Seq<char>, exponent: Seq<char>)
    requires
        optional_sign(sign),
        all_digits(a),
        a.len() > 0,
        exponent.len() == 0 || (exponent.len() >= 2 && lower(exponent[0]) == 'e' && all_digits(
            unsigned_part(exponent.skip(1)),
        ) && unsigned_part(exponent.skip(1)).len() > 0),
    ensures
        is_float_literal(sign + a + exponent),
{
    let t = a + exponent;
    assert(sign + a + exponent =~= sign + t);
    assert(t[0] == a[0]);
    assert(is_digit(a[0]));
    lemma_unsigned(sign, t);
    lemma_digit_lower(a);
    lemma_first_index_after(a, exponent, 'e');
    if exponent.len() > 0 {
        lemma_first_index_at(exponent, 'e');
    }
    assert(t.take(a.len() as int) =~= a);
    assert(t.skip(a.len() as int) =~= exponent);
    lemma_first_index_after(a, Seq::<char>::empty(), '.');
    assert(a + Seq::<char>::empty() =~= a);
    assert(a.take(a.len() as int) =~= a);
}

/// `str::parse::<f64>` refuses a number with two points: digits, a point,
/// digits, a second point and more digits.
pub proof fn lemma_two_points_refused(a: Seq<char>, b: Seq<char>, c: Seq<char>)
    requires
        all_digits(a),
        all_digits(b),
        all_digits(c),
    ensures
        !is_float_literal(a + seq!['.'] + b + seq!['.'] + c),
{
    let t = a + seq!['.'] + b + seq!['.'] + c;
    lemma_digit_lower(a);
    lemma_digit_lower(b);
    lemma_digit_lower(c);
    if a.len() == 0 {
        assert(t[0] == '.');
    } else {
        assert(t[0] == a[0]);
        assert(is_digit(a[0]));
    }
    assert(unsigned_part(t) == t);
    assert forall|i: int| 0 <= i < t.len() implies #[trigger] lower(t[i]) != 'e' by {
        if i < a.len() {
            assert(t[i] == a[i]);
        } else if a.len() < i < a.len() + 1 + b.len() {
            assert(t[i] == b[i - a.len() - 1]);
        } else if i > a.len() + 1 + b.len() {
            assert(t[i] == c[i - a.len() - 2 - b.len()]);
        }
    }
    lemma_first_index_after(t, Seq::<char>::empty(), 'e');
    assert(t + Seq::<char>::empty() =~= t);
    assert(t.take(t.len() as int) =~= t);
    let rest = seq!['.'] + b + seq!['.'] + c;
    assert(a + rest =~= t);
    lemma_first_index_after(a, rest, '.');
    lemma_first_index_at(rest, '.');
    assert(t.skip(a.len() + 1int) =~= b + seq!['.'] + c);
    assert((b + seq!['.'] + c)[b.len() as int] == '.');
    assert(!is_digit('.'));
    assert(!spells(t, seq!['i', 'n', 'f']) && !spells(t, seq!['n', 'a', 'n'])
        && !spells(t, seq!['i', 'n', 'f', 'i', 'n', 'i', 't', 'y'])) by {
        if t.len() > 0 {
            assert(lower(t[0]) == t[0] || t[0] == '.');
        }
    }
}

} // verus!
