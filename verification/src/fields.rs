//! The fields of a comma-separated line: the text between commas, each
//! with white space trimmed from both ends, as `line.split(',')` and
//! `str::trim` give them.
use vstd::prelude::*;
use crate::text::{chars_of, string_from_chars};

verus! {

/// Whether `c` has the Unicode White_Space property, which is what
/// `char::is_whitespace` and `str::trim` go by.
pub open spec fn is_white(c: char) -> bool {
    let x = c as u32;
    ||| 9 <= x <= 13
    ||| x == 32
    ||| x == 0x85
    ||| x == 0xa0
    ||| x == 0x1680
    ||| 0x2000 <= x <= 0x200a
    ||| x == 0x2028
    ||| x == 0x2029
    ||| x == 0x202f
    ||| x == 0x205f
    ||| x == 0x3000
}

/// `s` without its leading white space.
pub open spec fn trim_start(s: Seq<char>) -> Seq<char>
    decreases s.len(),
{
    if s.len() > 0 && is_white(s[0]) {
        trim_start(s.drop_first())
    } else {
        s
    }
}

/// `s` without its trailing white space.
pub open spec fn trim_end(s: Seq<char>) -> Seq<char>
    decreases s.len(),
{
    if s.len() > 0 && is_white(s.last()) {
        trim_end(s.drop_last())
    } else {
        s
    }
}

/// `s` without white space at either end, as `str::trim` gives it.
pub open spec fn trimmed(s: Seq<char>) -> Seq<char> {
    trim_end(trim_start(s))
}

/// The place of the first comma of `s`, or its length if there is none.
pub open spec fn comma_index(s: Seq<char>) -> nat
    decreases s.len(),
{
    if s.len() == 0 {
        0
    } else if s[0] == ',' {
        0
    } else {
        1 + comma_index(s.drop_first())
    }
}

/// The first comma of `s` is at `comma_index(s)`, if there is one.
pub proof fn lemma_comma_index_bound(s: Seq<char>)
    ensures
        comma_index(s) <= s.len(),
        comma_index(s) < s.len() ==> s[comma_index(s) as int] == ',',
    decreases s.len(),
{
    if s.len() > 0 && s[0] != ',' {
        lemma_comma_index_bound(s.drop_first());
    }
}

/// The texts between the commas of `s`, as `s.split(',')` gives them: one
/// more than there are commas.
pub open spec fn split_commas(s: Seq<char>) -> Seq<Seq<char>>
    decreases s.len(),
{
    let i = comma_index(s);
    if i >= s.len() {
        seq![s]
    } else {
        proof {
            lemma_comma_index_bound(s);
        }
        seq![s.take(i as int)] + split_commas(s.skip((i + 1) as int))
    }
}

/// The fields of the line `s`.
pub open spec fn fields_of(s: Seq<char>) -> Seq<Seq<char>> {
    split_commas(s).map_values(|f: Seq<char>| trimmed(f))
}

proof fn lemma_comma_index_at(s: Seq<char>, k: int)
    requires
        0 <= k <= s.len(),
        forall|j: int| 0 <= j < k ==> s[j] != ',',
        k == s.len() || s[k] == ',',
    ensures
        comma_index(s) == k,
    decreases k,
{
    if k > 0 {
        lemma_comma_index_at(s.drop_first(), k - 1);
    }
}

fn is_white_char(c: char) -> (r: bool)
    ensures
        r == is_white(c),
{
    let x = c as u32;
    (9 <= x && x <= 13) || x == 32 || x == 0x85 || x == 0xa0 || x == 0x1680 || (0x2000 <= x && x <= 0x200a)
        || x == 0x2028 || x == 0x2029 || x == 0x202f || x == 0x205f || x == 0x3000
}

proof fn lemma_trim_start_step(s: Seq<char>, from: int, i: int, to: int)
    requires
        0 <= from <= i < to <= s.len(),
        is_white(s[i]),
        trim_start(s.subrange(from, to)) == trim_start(s.subrange(i, to)),
    ensures
        trim_start(s.subrange(from, to)) == trim_start(s.subrange(i + 1, to)),
{
    assert(s.subrange(i, to).drop_first() =~= s.subrange(i + 1, to));
}

proof fn lemma_trim_end_step(s: Seq<char>, a: int, j: int, to: int)
    requires
        0 <= a < j <= to <= s.len(),
        is_white(s[j - 1]),
        trim_end(s.subrange(a, to)) == trim_end(s.subrange(a, j)),
    ensures
        trim_end(s.subrange(a, to)) == trim_end(s.subrange(a, j - 1)),
{
    assert(s.subrange(a, j).drop_last() =~= s.subrange(a, j - 1));
}

/// The trimmed text of `s[from..to]`.
fn trimmed_range(s: &Vec<char>, from: usize, to: usize) -> (r: String)
    requires
        from <= to <= s@.len(),
    ensures
        r@ == trimmed(s@.subrange(from as int, to as int)),
{
    let mut i = from;
    while i < to && is_white_char(s[i])
        invariant
            from <= i <= to,
            to <= s@.len(),
            trim_start(s@.subrange(from as int, to as int)) == trim_start(s@.subrange(i as int, to as int)),
        decreases to - i,
    {
        proof {
            lemma_trim_start_step(s@, from as int, i as int, to as int);
        }
        i = i + 1;
    }
    assert(trim_start(s@.subrange(i as int, to as int)) == s@.subrange(i as int, to as int));
    let mut j = to;
    while j > i && is_white_char(s[j - 1])
        invariant
            i <= j <= to,
            to <= s@.len(),
            trim_end(s@.subrange(i as int, to as int)) == trim_end(s@.subrange(i as int, j as int)),
        decreases j - i,
    {
        proof {
            lemma_trim_end_step(s@, i as int, j as int, to as int);
        }
        j = j - 1;
    }
    assert(trim_end(s@.subrange(i as int, j as int)) == s@.subrange(i as int, j as int));
    let mut out: Vec<char> = Vec::new();
    let mut k = i;
    while k < j
        invariant
            i <= k <= j,
            j <= s@.len(),
            out@ == s@.subrange(i as int, k as int),
        decreases j - k,
    {
        out.push(s[k]);
        k = k + 1;
        assert(out@ =~= s@.subrange(i as int, k as int));
    }
    string_from_chars(out)
}

/// The fields of a comma-separated line, as
/// `line.split(',').map(str::trim)` gives them.
pub fn split_fields(line: &str) -> (r: Vec<String>)
    ensures
        r@.len() == fields_of(line@).len(),
        forall|k: int| 0 <= k < r@.len() ==> #[trigger] r@[k]@ == fields_of(line@)[k],
{
    let c = chars_of(line);
    let n = c.len();
    let ghost s = c@;
    let ghost mut raw: Seq<Seq<char>> = Seq::empty();
    let mut out: Vec<String> = Vec::new();
    let mut start: usize = 0;
    let mut i: usize = 0;
    assert(s.subrange(0, n as int) =~= s);
    while i < n
        invariant
            s == c@,
            n == s.len(),
            start <= i <= n,
            forall|j: int| start <= j < i ==> s[j] != ',',
            split_commas(s) == raw + split_commas(s.subrange(start as int, n as int)),
            out@.len() == raw.len(),
            forall|k: int| 0 <= k < raw.len() ==> #[trigger] out@[k]@ == trimmed(raw[k]),
        decreases n - i,
    {
        if c[i] == ',' {
            let ghost rest = s.subrange(start as int, n as int);
            proof {
                lemma_comma_index_at(rest, i - start);
                assert(rest.take(i - start) =~= s.subrange(start as int, i as int));
                assert(rest.skip(i - start + 1) =~= s.subrange(i + 1, n as int));
            }
            let field = trimmed_range(&c, start, i);
            out.push(field);
            proof {
                raw = raw.push(s.subrange(start as int, i as int));
                assert(split_commas(rest) == seq![s.subrange(start as int, i as int)] + split_commas(s.subrange(i + 1, n as int)));
                assert(raw + split_commas(s.subrange(i + 1, n as int)) =~= raw.drop_last() + (seq![s.subrange(start as int, i as int)] + split_commas(s.subrange(i + 1, n as int))));
            }
            start = i + 1;
        }
        i = i + 1;
    }
    let ghost rest = s.subrange(start as int, n as int);
    proof {
        lemma_comma_index_at(rest, n - start);
        assert(split_commas(rest) == seq![rest]);
    }
    let field = trimmed_range(&c, start, n);
    out.push(field);
    proof {
        raw = raw.push(rest);
        assert(split_commas(s) =~= raw);
    }
    out
}

} // verus!
