//! Builds the JSON telemetry document from the (column name, value) pairs
//! of one CSV record.
//!
//! Each pair becomes one member, in order, four spaces in and separated by
//! `,` and a line break. A value is written bare when it is a number that
//! `str::parse::<f64>` accepts and between quotes otherwise. A column whose
//! name ends in `_unit` opens a nested object named after the rest of the
//! column name: its value is the `unit` member, and the value of the next
//! pair (whatever its column) is the `value` member. An `epoch` column
//! holding `XXXX` is filled with the current time in seconds (still between
//! quotes, since `XXXX` is not a number). Text written between quotes
//! (names, units and string values) is escaped as JSON requires: a quote or
//! a backslash gets a backslash before it, and a control character is
//! written as `\u00` and two hexadecimal digits.
use vstd::prelude::*;
use crate::clock::unix_time_secs;
use crate::decimal::{decimal, u64_to_decimal};
use crate::float_syntax::{is_float_literal, is_float_text};
use crate::text::{chars_of, string_from_chars};

verus! {

/// `"{"` and a line break.
pub open spec fn doc_open() -> Seq<char> {
    seq!['{', '\n']
}

/// A line break and `"}"`.
pub open spec fn doc_close() -> Seq<char> {
    seq!['\n', '}']
}

/// `","` and a line break.
pub open spec fn member_sep() -> Seq<char> {
    seq![',', '\n']
}

/// Four spaces and a quote: the start of a member.
pub open spec fn member_open() -> Seq<char> {
    seq![' ', ' ', ' ', ' ', '"']
}

/// A quote, a colon and a space: the end of a member name.
pub open spec fn name_close() -> Seq<char> {
    seq!['"', ':', ' ']
}

/// A quote.
pub open spec fn quote() -> Seq<char> {
    seq!['"']
}

/// The end of a nested object's name: `": {` and a line break.
pub open spec fn object_open() -> Seq<char> {
    seq!['"', ':', ' ', '{', '\n']
}

/// The start of the `unit` member of a nested object.
pub open spec fn unit_open() -> Seq<char> {
    seq![' ', ' ', ' ', ' ', ' ', ' ', ' ', ' ', '"', 'u', 'n', 'i', 't', '"', ':', ' ', '"']
}

/// The end of the `unit` member: a quote, a comma and a line break.
pub open spec fn unit_close() -> Seq<char> {
    seq!['"', ',', '\n']
}

/// The start of the `value` member of a nested object.
pub open spec fn value_open() -> Seq<char> {
    seq![' ', ' ', ' ', ' ', ' ', ' ', ' ', ' ', '"', 'v', 'a', 'l', 'u', 'e', '"', ':', ' ']
}

/// The end of a nested object: a line break, four spaces and `}`.
pub open spec fn object_close() -> Seq<char> {
    seq!['\n', ' ', ' ', ' ', ' ', '}']
}

/// `_unit`.
pub open spec fn unit_suffix() -> Seq<char> {
    seq!['_', 'u', 'n', 'i', 't']
}

/// `epoch`.
pub open spec fn epoch_name() -> Seq<char> {
    seq!['e', 'p', 'o', 'c', 'h']
}

/// `XXXX`, the value that stands for "now" in an `epoch` column.
pub open spec fn time_placeholder() -> Seq<char> {
    seq!['X', 'X', 'X', 'X']
}

/// The sixteen hexadecimal digits.
pub open spec fn hex_digits() -> Seq<char> {
    seq!['0', '1', '2', '3', '4', '5', '6', '7', '8', '9', 'a', 'b', 'c', 'd', 'e', 'f']
}

/// How one character is written inside a JSON string.
pub open spec fn escape_char(c: char) -> Seq<char> {
    if c == '"' {
        seq!['\\', '"']
    } else if c == '\\' {
        seq!['\\', '\\']
    } else if (c as u32) < 0x20 {
        seq!['\\', 'u', '0', '0', hex_digits()[((c as u32) / 16) as int], hex_digits()[((c as u32) % 16) as int]]
    } else {
        seq![c]
    }
}

/// The text `t` as it is written inside a JSON string.
pub open spec fn escaped(t: Seq<char>) -> Seq<char>
    decreases t.len(),
{
    if t.len() == 0 {
        Seq::<char>::empty()
    } else {
        escaped(t.drop_last()) + escape_char(t.last())
    }
}

/// Whether the column name ends in `_unit`.
pub open spec fn is_unit_name(k: Seq<char>) -> bool {
    k.len() >= 5 && k.skip(k.len() - 5) == unit_suffix()
}

/// The value written for a plain member: `now` for an `epoch` column
/// holding `XXXX`, the value itself otherwise.
pub open spec fn member_value(k: Seq<char>, v: Seq<char>, now: Seq<char>) -> Seq<char> {
    if k == epoch_name() && v == time_placeholder() {
        now
    } else {
        v
    }
}

/// The text of a plain member.
pub open spec fn plain_member(k: Seq<char>, v: Seq<char>, now: Seq<char>) -> Seq<char> {
    let u = member_value(k, v, now);
    member_open() + escaped(k) + name_close() + if is_float_literal(v) {
        u
    } else {
        quote() + escaped(u) + quote()
    }
}

/// The text of a nested object opened by a `_unit` column, up to its
/// `value` member.
pub open spec fn unit_head(k: Seq<char>, v: Seq<char>) -> Seq<char> {
    member_open() + escaped(k.take(k.len() - 5)) + object_open() + unit_open() + escaped(v) + unit_close()
}

/// The members written for the pairs `p`; `first` says whether no member
/// was written before.
#[verifier::opaque]
pub open spec fn members(p: Seq<(Seq<char>, Seq<char>)>, now: Seq<char>, first: bool) -> Seq<char>
    decreases p.len(),
{
    if p.len() == 0 {
        seq![]
    } else {
        let sep = if first {
            Seq::<char>::empty()
        } else {
            member_sep()
        };
        let k = p[0].0;
        let v = p[0].1;
        if is_unit_name(k) {
            if p.len() >= 2 {
                sep + unit_head(k, v) + value_open() + p[1].1 + object_close() + members(
                    p.skip(2),
                    now,
                    false,
                )
            } else {
                sep + unit_head(k, v)
            }
        } else {
            sep + plain_member(k, v, now) + members(p.skip(1), now, false)
        }
    }
}

/// The separator written before a member.
pub open spec fn separator(first: bool) -> Seq<char> {
    if first {
        Seq::<char>::empty()
    } else {
        member_sep()
    }
}

proof fn lemma_members_empty(p: Seq<(Seq<char>, Seq<char>)>, now: Seq<char>, first: bool)
    requires
        p.len() == 0,
    ensures
        members(p, now, first) == Seq::<char>::empty(),
{
    reveal(members);
}

proof fn lemma_members_unit(p: Seq<(Seq<char>, Seq<char>)>, now: Seq<char>, first: bool)
    requires
        p.len() >= 1,
        is_unit_name(p[0].0),
    ensures
        p.len() >= 2 ==> members(p, now, first) == separator(first) + unit_head(p[0].0, p[0].1)
            + value_open() + p[1].1 + object_close() + members(p.skip(2), now, false),
        p.len() == 1 ==> members(p, now, first) == separator(first) + unit_head(p[0].0, p[0].1),
{
    reveal(members);
}

proof fn lemma_members_plain(p: Seq<(Seq<char>, Seq<char>)>, now: Seq<char>, first: bool)
    requires
        p.len() >= 1,
        !is_unit_name(p[0].0),
    ensures
        members(p, now, first) == separator(first) + plain_member(p[0].0, p[0].1, now) + members(
            p.skip(1),
            now,
            false,
        ),
{
    reveal(members);
}

/// The JSON document for the pairs `p`, with `now` as the current time.
pub open spec fn json_doc(p: Seq<(Seq<char>, Seq<char>)>, now: Seq<char>) -> Seq<char> {
    doc_open() + members(p, now, true) + doc_close()
}

/// Whether some plain member of `p` is an `epoch` column holding `XXXX`,
/// so that the document depends on the current time.
pub open spec fn needs_time(p: Seq<(Seq<char>, Seq<char>)>) -> bool
    decreases p.len(),
{
    if p.len() == 0 {
        false
    } else if is_unit_name(p[0].0) {
        if p.len() >= 2 {
            needs_time(p.skip(2))
        } else {
            false
        }
    } else {
        (p[0].0 == epoch_name() && p[0].1 == time_placeholder()) || needs_time(p.skip(1))
    }
}

/// The (column name, value) pairs of a record: the `i`th name with the
/// `i`th value, as far as both go.
pub open spec fn zip_fields(names: Seq<String>, values: Seq<String>) -> Seq<(Seq<char>, Seq<char>)> {
    let n = if names.len() <= values.len() {
        names.len()
    } else {
        values.len()
    };
    Seq::new(n, |i: int| (names[i]@, values[i]@))
}

/// The view of a list of (name, value) string pairs.
pub open spec fn pairs_view(p: Seq<(String, String)>) -> Seq<(Seq<char>, Seq<char>)> {
    Seq::new(p.len(), |i: int| (p[i].0@, p[i].1@))
}

/// If nothing needs the time, the time does not matter.
pub proof fn lemma_time_unused(p: Seq<(Seq<char>, Seq<char>)>, now1: Seq<char>, now2: Seq<char>, first: bool)
    requires
        !needs_time(p),
    ensures
        members(p, now1, first) == members(p, now2, first),
    decreases p.len(),
{
    reveal(members);
    if p.len() > 0 {
        if is_unit_name(p[0].0) {
            if p.len() >= 2 {
                lemma_time_unused(p.skip(2), now1, now2, false);
            }
        } else {
            lemma_time_unused(p.skip(1), now1, now2, false);
        }
    }
}

fn push_all(out: &mut Vec<char>, s: &Vec<char>)
    ensures
        final(out)@ == old(out)@ + s@,
{
    let mut i: usize = 0;
    let ghost start = out@;
    while i < s.len()
        invariant
            i <= s@.len(),
            out@ == start + s@.take(i as int),
        decreases s@.len() - i,
    {
        out.push(s[i]);
        i = i + 1;
        assert(out@ =~= start + s@.take(i as int));
    }
    assert(s@.take(s@.len() as int) =~= s@);
}

proof fn lemma_escaped_step(t: Seq<char>, i: int)
    requires
        0 <= i < t.len(),
    ensures
        escaped(t.take(i + 1)) == escaped(t.take(i)) + escape_char(t[i]),
{
    assert(t.take(i + 1).drop_last() =~= t.take(i));
}

/// Appends `s` as it is written inside a JSON string.
fn push_escaped(out: &mut Vec<char>, s: &Vec<char>)
    ensures
        final(out)@ == old(out)@ + escaped(s@),
{
    let digits: [char; 16] = ['0', '1', '2', '3', '4', '5', '6', '7', '8', '9', 'a', 'b', 'c', 'd', 'e', 'f'];
    assert(digits@ =~= hex_digits());
    let mut i: usize = 0;
    let ghost start = out@;
    assert(s@.take(0) =~= Seq::<char>::empty());
    while i < s.len()
        invariant
            i <= s@.len(),
            digits@ == hex_digits(),
            out@ == start + escaped(s@.take(i as int)),
        decreases s@.len() - i,
    {
        let c = s[i];
        let ghost before = out@;
        proof {
            lemma_escaped_step(s@, i as int);
        }
        if c == '"' {
            out.push('\\');
            out.push('"');
        } else if c == '\\' {
            out.push('\\');
            out.push('\\');
        } else if (c as u32) < 0x20 {
            let code: u32 = c as u32;
            out.push('\\');
            out.push('u');
            out.push('0');
            out.push('0');
            out.push(digits[(code / 16) as usize]);
            out.push(digits[(code % 16) as usize]);
        } else {
            out.push(c);
        }
        assert(out@ =~= before + escape_char(c));
        i = i + 1;
    }
    assert(s@.take(s@.len() as int) =~= s@);
}

fn push_lit(out: &mut Vec<char>, lit: &[char])
    ensures
        final(out)@ == old(out)@ + lit@,
{
    let mut i: usize = 0;
    let ghost start = out@;
    while i < lit.len()
        invariant
            i <= lit@.len(),
            out@ == start + lit@.take(i as int),
        decreases lit@.len() - i,
    {
        out.push(lit[i]);
        i = i + 1;
        assert(out@ =~= start + lit@.take(i as int));
    }
    assert(lit@.take(lit@.len() as int) =~= lit@);
}

fn eq_chars(a: &Vec<char>, b: &[char]) -> (r: bool)
    ensures
        r == (a@ == b@),
{
    if a.len() != b.len() {
        return false;
    }
    let mut i: usize = 0;
    while i < a.len()
        invariant
            i <= a@.len(),
            a@.len() == b@.len(),
            forall|k: int| 0 <= k < i ==> a@[k] == b@[k],
        decreases a@.len() - i,
    {
        if a[i] != b[i] {
            return false;
        }
        i = i + 1;
    }
    assert(a@ =~= b@);
    true
}

fn ends_with_unit(k: &Vec<char>) -> (r: bool)
    ensures
        r == is_unit_name(k@),
{
    let n = k.len();
    if n < 5 {
        return false;
    }
    let r = k[n - 5] == '_' && k[n - 4] == 'u' && k[n - 3] == 'n' && k[n - 2] == 'i' && k[n - 1] == 't';
    assert(r == (k@.skip(n - 5) =~= unit_suffix()));
    r
}

fn emit_unit_member(out: &mut Vec<char>, k: &Vec<char>, v: &Vec<char>, next: Option<&Vec<char>>)
    requires
        is_unit_name(k@),
    ensures
        final(out)@ == old(out)@ + unit_head(k@, v@) + match next {
            Some(v1) => value_open() + v1@ + object_close(),
            None => Seq::<char>::empty(),
        },
{
    let ghost before = out@;
    push_lit(out, &[' ', ' ', ' ', ' ', '"']);
    let mut stem: Vec<char> = Vec::new();
    let mut j: usize = 0;
    while j < k.len() - 5
        invariant
            j <= k@.len() - 5,
            k@.len() >= 5,
            stem@ == k@.take(j as int),
        decreases k@.len() - 5 - j,
    {
        stem.push(k[j]);
        j = j + 1;
        assert(stem@ =~= k@.take(j as int));
    }
    push_escaped(out, &stem);
    push_lit(out, &['"', ':', ' ', '{', '\n']);
    push_lit(
        out,
        &[' ', ' ', ' ', ' ', ' ', ' ', ' ', ' ', '"', 'u', 'n', 'i', 't', '"', ':', ' ', '"'],
    );
    push_escaped(out, v);
    push_lit(out, &['"', ',', '\n']);
    assert(out@ =~= before + unit_head(k@, v@));
    let ghost mid = out@;
    match next {
        Some(v1) => {
            push_lit(
                out,
                &[' ', ' ', ' ', ' ', ' ', ' ', ' ', ' ', '"', 'v', 'a', 'l', 'u', 'e', '"', ':', ' '],
            );
            push_all(out, v1);
            push_lit(out, &['\n', ' ', ' ', ' ', ' ', '}']);
            assert(out@ =~= mid + value_open() + v1@ + object_close());
        },
        None => {
            assert(out@ =~= mid + Seq::<char>::empty());
        },
    }
}

fn emit_plain_member(out: &mut Vec<char>, k: &Vec<char>, v: &Vec<char>, value_text: &str, now: &Vec<char>)
    requires
        value_text@ == v@,
    ensures
        final(out)@ == old(out)@ + plain_member(k@, v@, now@),
{
    let ghost before = out@;
    push_lit(out, &[' ', ' ', ' ', ' ', '"']);
    push_escaped(out, k);
    push_lit(out, &['"', ':', ' ']);
    let is_epoch_default = eq_chars(k, &['e', 'p', 'o', 'c', 'h']) && eq_chars(v, &['X', 'X', 'X', 'X']);
    assert(is_epoch_default == (k@ == epoch_name() && v@ == time_placeholder())) by {
        assert(['e', 'p', 'o', 'c', 'h']@ =~= epoch_name());
        assert(['X', 'X', 'X', 'X']@ =~= time_placeholder());
    }
    let use_value = if is_epoch_default { now } else { v };
    if is_float_text(value_text) {
        push_all(out, use_value);
    } else {
        push_lit(out, &['"']);
        push_escaped(out, use_value);
        push_lit(out, &['"']);
    }
    assert(out@ =~= before + plain_member(k@, v@, now@));
}

/// The JSON document for the (column name, value) pairs `pairs`, with
/// `now` written for an `epoch` column that holds `XXXX`.
pub fn json_doc_from_pairs(pairs: &Vec<(String, String)>, now: &str) -> (doc: String)
    ensures
        doc@ == json_doc(pairs_view(pairs@), now@),
{
    let ghost p = pairs_view(pairs@);
    let nowc = chars_of(now);
    let mut out: Vec<char> = Vec::new();
    push_lit(&mut out, &['{', '\n']);
    assert(out@ =~= doc_open());
    let n = pairs.len();
    let mut i: usize = 0;
    let mut first = true;
    assert(p.skip(0) =~= p);
    while i < n
        invariant
            i <= n,
            n == pairs@.len(),
            p == pairs_view(pairs@),
            nowc@ == now@,
            first == (i == 0),
            doc_open() + members(p, now@, true) == out@ + members(p.skip(i as int), now@, first),
        decreases n - i,
    {
        let ghost rest = p.skip(i as int);
        let ghost before = out@;
        let ghost sep = separator(first);
        if !first {
            push_lit(&mut out, &[',', '\n']);
        }
        assert(out@ =~= before + sep);
        let k = chars_of(pairs[i].0.as_str());
        let v = chars_of(pairs[i].1.as_str());
        assert(rest[0] == (k@, v@));
        if ends_with_unit(&k) {
            proof { lemma_members_unit(rest, now@, first); }
            if i + 1 < n {
                let v1 = chars_of(pairs[i + 1].1.as_str());
                assert(rest[1].1 == v1@);
                emit_unit_member(&mut out, &k, &v, Some(&v1));
                assert(rest.skip(2) =~= p.skip(i + 2));
                assert(out@ + members(rest.skip(2), now@, false) =~= before + members(rest, now@, first));
                i = i + 2;
            } else {
                emit_unit_member(&mut out, &k, &v, None);
                assert(p.skip(n as int) =~= Seq::<(Seq<char>, Seq<char>)>::empty());
                proof { lemma_members_empty(p.skip(n as int), now@, false); }
                assert(out@ + members(p.skip(n as int), now@, false) =~= before + members(rest, now@, first));
                i = n;
            }
        } else {
            proof { lemma_members_plain(rest, now@, first); }
            emit_plain_member(&mut out, &k, &v, pairs[i].1.as_str(), &nowc);
            assert(rest.skip(1) =~= p.skip(i + 1));
            assert(out@ + members(rest.skip(1), now@, false) =~= before + members(rest, now@, first));
            i = i + 1;
        }
        first = false;
    }
    push_lit(&mut out, &['\n', '}']);
    assert(p.skip(n as int) =~= Seq::<(Seq<char>, Seq<char>)>::empty());
    proof { lemma_members_empty(p.skip(n as int), now@, first); }
    assert(out@ =~= json_doc(p, now@));
    string_from_chars(out)
}

/// Whether the document for `pairs` depends on the current time.
pub fn pairs_need_time(pairs: &Vec<(String, String)>) -> (r: bool)
    ensures
        r == needs_time(pairs_view(pairs@)),
{
    let ghost p = pairs_view(pairs@);
    let n = pairs.len();
    let mut i: usize = 0;
    assert(p.skip(0) =~= p);
    while i < n
        invariant
            i <= n,
            n == pairs@.len(),
            p == pairs_view(pairs@),
            needs_time(p) == needs_time(p.skip(i as int)),
        decreases n - i,
    {
        let ghost rest = p.skip(i as int);
        let k = chars_of(pairs[i].0.as_str());
        let v = chars_of(pairs[i].1.as_str());
        assert(rest[0] == (k@, v@));
        if ends_with_unit(&k) {
            if i + 1 < n {
                assert(rest.skip(2) =~= p.skip(i + 2));
                i = i + 2;
            } else {
                return false;
            }
        } else {
            if eq_chars(&k, &['e', 'p', 'o', 'c', 'h']) && eq_chars(&v, &['X', 'X', 'X', 'X']) {
                return true;
            }
            assert(rest.skip(1) =~= p.skip(i + 1));
            i = i + 1;
        }
    }
    assert(p.skip(n as int).len() == 0);
    false
}

/// Pairs the `i`th column name with the `i`th value, as far as both go.
pub fn zip_record(headers: &Vec<String>, line: &Vec<String>) -> (pairs: Vec<(String, String)>)
    ensures
        pairs_view(pairs@) == zip_fields(headers@, line@),
{
    let n = if headers.len() <= line.len() { headers.len() } else { line.len() };
    let mut pairs: Vec<(String, String)> = Vec::new();
    let mut i: usize = 0;
    while i < n
        invariant
            i <= n,
            n <= headers@.len(),
            n <= line@.len(),
            pairs@.len() == i,
            forall|k: int| 0 <= k < i ==> #[trigger] pairs@[k].0@ == headers@[k]@ && pairs@[k].1@ == line@[k]@,
        decreases n - i,
    {
        pairs.push((headers[i].clone(), line[i].clone()));
        i = i + 1;
    }
    assert(pairs_view(pairs@) =~= zip_fields(headers@, line@));
    pairs
}

/// The JSON document for one CSV record, as the client sends it: `line`
/// holds the values and `headers` the column names. The clock is read only
/// when an `epoch` column holds `XXXX`; `None` if it then reads a time
/// before the Unix epoch.
pub fn json_doc_from_reader(line: &Vec<String>, headers: &Vec<String>) -> (doc: Option<String>)
    ensures
        !needs_time(zip_fields(headers@, line@)) ==> (doc matches Some(d) && d@ == json_doc(
            zip_fields(headers@, line@),
            seq![],
        )),
        doc matches Some(d) ==> exists|t: u64|
            d@ == json_doc(zip_fields(headers@, line@), #[trigger] decimal(t as nat)),
{
    let pairs = zip_record(headers, line);
    if pairs_need_time(&pairs) {
        match unix_time_secs() {
            Some(t) => {
                let now = u64_to_decimal(t);
                let d = json_doc_from_pairs(&pairs, now.as_str());
                assert(d@ == json_doc(zip_fields(headers@, line@), decimal(t as nat)));
                Some(d)
            },
            None => None,
        }
    } else {
        let d = json_doc_from_pairs(&pairs, "");
        proof {
            reveal_strlit("");
            assert(""@ =~= Seq::<char>::empty());
            lemma_time_unused(pairs_view(pairs@), seq![], decimal(0), true);
            assert(d@ == json_doc(zip_fields(headers@, line@), decimal(0u64 as nat)));
        }
        Some(d)
    }
}

} // verus!
