//! Standard base64 (RFC 4648, alphabet `A-Z a-z 0-9 + /`, `=` padding).
//!
//! Nonces, timestamps and keys travel between the control plane, the
//! client and the receiver in this encoding. Decoding is strict: the input
//! length must be a multiple of four, padding may only close the last
//! group, and the bits that padding drops must be zero, so every accepted
//! text is the encoding of exactly one byte string.
use vstd::prelude::*;
use crate::text::{chars_of, string_from_chars};
use vstd::string::StringSliceAdditionalSpecFns;

verus! {

/// The character that stands for the six-bit value `v` (`0 <= v < 64`).
pub open spec fn alphabet(v: int) -> char {
    if v < 26 {
        (v + 65) as char
    } else if v < 52 {
        (v + 71) as char
    } else if v < 62 {
        (v - 4) as char
    } else if v == 62 {
        '+'
    } else {
        '/'
    }
}

/// The six-bit value that `c` stands for, if it is in the alphabet.
pub open spec fn sextet_of(c: char) -> Option<int> {
    let x = c as int;
    if 65 <= x <= 90 {
        Some(x - 65)
    } else if 97 <= x <= 122 {
        Some(x - 71)
    } else if 48 <= x <= 57 {
        Some(x + 4)
    } else if x == 43 {
        Some(62)
    } else if x == 47 {
        Some(63)
    } else {
        None
    }
}

/// Encoding of a last group of one byte.
pub open spec fn encode_one(b0: int) -> Seq<char> {
    seq![alphabet(b0 / 4), alphabet((b0 % 4) * 16), '=', '=']
}

/// Encoding of a last group of two bytes.
pub open spec fn encode_two(b0: int, b1: int) -> Seq<char> {
    seq![alphabet(b0 / 4), alphabet((b0 % 4) * 16 + b1 / 16), alphabet((b1 % 16) * 4), '=']
}

/// Encoding of a full group of three bytes.
pub open spec fn encode_three(b0: int, b1: int, b2: int) -> Seq<char> {
    seq![
        alphabet(b0 / 4),
        alphabet((b0 % 4) * 16 + b1 / 16),
        alphabet((b1 % 16) * 4 + b2 / 64),
        alphabet(b2 % 64),
    ]
}

/// The padded base64 text of `b`.
pub open spec fn base64_encoding(b: Seq<u8>) -> Seq<char>
    decreases b.len(),
{
    if b.len() == 0 {
        seq![]
    } else if b.len() == 1 {
        encode_one(b[0] as int)
    } else if b.len() == 2 {
        encode_two(b[0] as int, b[1] as int)
    } else {
        encode_three(b[0] as int, b[1] as int, b[2] as int) + base64_encoding(b.skip(3))
    }
}

/// Decoding of one group of four characters; `last` says whether padding
/// may close it.
pub open spec fn decode_quad(c: Seq<char>, last: bool) -> Option<Seq<u8>> {
    match (sextet_of(c[0]), sextet_of(c[1])) {
        (Some(v0), Some(v1)) => {
            if last && c[2] == '=' && c[3] == '=' {
                if v1 % 16 == 0 {
                    Some(seq![(v0 * 4 + v1 / 16) as u8])
                } else {
                    None
                }
            } else if last && c[3] == '=' {
                match sextet_of(c[2]) {
                    Some(v2) => if v2 % 4 == 0 {
                        Some(seq![(v0 * 4 + v1 / 16) as u8, ((v1 % 16) * 16 + v2 / 4) as u8])
                    } else {
                        None
                    },
                    None => None,
                }
            } else {
                match (sextet_of(c[2]), sextet_of(c[3])) {
                    (Some(v2), Some(v3)) => Some(
                        seq![
                            (v0 * 4 + v1 / 16) as u8,
                            ((v1 % 16) * 16 + v2 / 4) as u8,
                            ((v2 % 4) * 64 + v3) as u8,
                        ],
                    ),
                    _ => None,
                }
            }
        },
        _ => None,
    }
}

/// `p` put in front of the bytes that `o` holds, if it holds any.
pub open spec fn prepend(p: Seq<u8>, o: Option<Seq<u8>>) -> Option<Seq<u8>> {
    match o {
        Some(r) => Some(p + r),
        None => None,
    }
}

/// The bytes that the base64 text `s` stands for, or `None` where `s` is
/// not a canonical padded encoding.
pub open spec fn base64_decoding(s: Seq<char>) -> Option<Seq<u8>>
    decreases s.len(),
{
    if s.len() == 0 {
        Some(seq![])
    } else if s.len() < 4 {
        None
    } else if s.len() == 4 {
        decode_quad(s, true)
    } else {
        match decode_quad(s.take(4), false) {
            Some(g) => prepend(g, base64_decoding(s.skip(4))),
            None => None,
        }
    }
}

proof fn lemma_alphabet(v: int)
    requires
        0 <= v < 64,
    ensures
        sextet_of(alphabet(v)) == Some(v),
        alphabet(v) != '=',
{
}

proof fn lemma_sextet(c: char)
    requires
        sextet_of(c) is Some,
    ensures
        0 <= sextet_of(c)->0 < 64,
        alphabet(sextet_of(c)->0) == c,
        c != '=',
{
    let x = c as int;
    assert((x as char) == c);
}

proof fn lemma_three_bytes(b0: int, b1: int, b2: int)
    requires
        0 <= b0 < 256,
        0 <= b1 < 256,
        0 <= b2 < 256,
    ensures
        0 <= b0 / 4 < 64,
        0 <= (b0 % 4) * 16 + b1 / 16 < 64,
        0 <= (b1 % 16) * 4 + b2 / 64 < 64,
        0 <= b2 % 64 < 64,
        ((b0 / 4) * 4 + ((b0 % 4) * 16 + b1 / 16) / 16) as u8 == b0,
        ((((b0 % 4) * 16 + b1 / 16) % 16) * 16 + ((b1 % 16) * 4 + b2 / 64) / 4) as u8 == b1,
        ((((b1 % 16) * 4 + b2 / 64) % 4) * 64 + b2 % 64) as u8 == b2,
        ((b1 % 16) * 4) % 4 == 0,
        ((b0 % 4) * 16) % 16 == 0,
        ((((b0 % 4) * 16) % 16) * 16 + ((b1 % 16) * 4) / 4) as u8 == b1 % 16,
{
}

proof fn lemma_decode_encode_group(b: Seq<u8>, last: bool)
    requires
        b.len() >= 3 || (last && 1 <= b.len() <= 2),
    ensures
        decode_quad(base64_encoding(b).take(4), last) == Some(
            b.take(if b.len() >= 3 { 3 } else { b.len() as int }),
        ),
{
    lemma_three_bytes(b[0] as int, if b.len() >= 2 { b[1] as int } else { 0 }, if b.len() >= 3 { b[2] as int } else { 0 });
    if b.len() >= 3 {
        let e = base64_encoding(b);
        let q = e.take(4);
        assert(q =~= encode_three(b[0] as int, b[1] as int, b[2] as int));
        lemma_alphabet((b[0] as int) / 4);
        lemma_alphabet(((b[0] as int) % 4) * 16 + (b[1] as int) / 16);
        lemma_alphabet(((b[1] as int) % 16) * 4 + (b[2] as int) / 64);
        lemma_alphabet((b[2] as int) % 64);
        assert(decode_quad(q, last) =~= Some(b.take(3)));
    } else if b.len() == 2 {
        let q = base64_encoding(b).take(4);
        assert(q =~= encode_two(b[0] as int, b[1] as int));
        lemma_alphabet((b[0] as int) / 4);
        lemma_alphabet(((b[0] as int) % 4) * 16 + (b[1] as int) / 16);
        lemma_alphabet(((b[1] as int) % 16) * 4);
        assert(b.take(2) =~= seq![b[0], b[1]]);
    } else {
        let q = base64_encoding(b).take(4);
        assert(q =~= encode_one(b[0] as int));
        lemma_alphabet((b[0] as int) / 4);
        lemma_alphabet(((b[0] as int) % 4) * 16);
        assert(b.take(1) =~= seq![b[0]]);
    }
}

/// The length of an encoding: four characters for each started group of
/// three bytes.
pub proof fn lemma_encoding_len(b: Seq<u8>)
    ensures
        base64_encoding(b).len() == 4 * ((b.len() + 2) / 3),
    decreases b.len(),
{
    if b.len() >= 3 {
        lemma_encoding_len(b.skip(3));
    }
}

proof fn lemma_alphabet_ascii(v: int)
    requires
        0 <= v < 64,
    ensures
        '\0' <= alphabet(v) <= '\u{7f}',
{
}

/// Every character of an encoding is ASCII.
pub proof fn lemma_encoding_ascii(b: Seq<u8>)
    ensures
        vstd::utf8::is_ascii_chars(base64_encoding(b)),
    decreases b.len(),
{
    let e = base64_encoding(b);
    if b.len() == 0 {
    } else {
        lemma_three_bytes(b[0] as int, if b.len() >= 2 { b[1] as int } else { 0 }, if b.len() >= 3 { b[2] as int } else { 0 });
        lemma_alphabet_ascii((b[0] as int) / 4);
        if b.len() == 1 {
            lemma_alphabet_ascii(((b[0] as int) % 4) * 16);
        } else if b.len() == 2 {
            lemma_alphabet_ascii(((b[0] as int) % 4) * 16 + (b[1] as int) / 16);
            lemma_alphabet_ascii(((b[1] as int) % 16) * 4);
        } else {
            lemma_alphabet_ascii(((b[0] as int) % 4) * 16 + (b[1] as int) / 16);
            lemma_alphabet_ascii(((b[1] as int) % 16) * 4 + (b[2] as int) / 64);
            lemma_alphabet_ascii((b[2] as int) % 64);
            lemma_encoding_ascii(b.skip(3));
            let q = encode_three(b[0] as int, b[1] as int, b[2] as int);
            let r = base64_encoding(b.skip(3));
            assert forall|i: int| 0 <= i < e.len() implies '\0' <= #[trigger] e[i] <= '\u{7f}' by {
                if i >= 4 {
                    assert(e[i] == r[i - 4]);
                }
            }
        }
    }
}

/// Decoding gives back every byte string that was encoded.
pub proof fn lemma_decode_encode(b: Seq<u8>)
    ensures
        base64_decoding(base64_encoding(b)) == Some(b),
    decreases b.len(),
{
    let e = base64_encoding(b);
    if b.len() == 0 {
    } else if b.len() <= 3 {
        lemma_decode_encode_group(b, true);
        lemma_encoding_len(b);
        assert(e.len() == 4);
        assert(e.take(4) =~= e);
        assert(b.take(b.len() as int) =~= b);
    } else {
        lemma_encoding_len(b);
        lemma_decode_encode_group(b, false);
        lemma_decode_encode(b.skip(3));
        assert(e.skip(4) =~= base64_encoding(b.skip(3)));
        assert(b.take(3) + b.skip(3) =~= b);
    }
}

proof fn lemma_quad_canonical(q: Seq<char>, last: bool)
    requires
        q.len() == 4,
        decode_quad(q, last) is Some,
    ensures
        ({
            let g = decode_quad(q, last)->0;
            &&& 1 <= g.len() <= 3
            &&& !last ==> g.len() == 3
            &&& g.len() == 3 ==> encode_three(g[0] as int, g[1] as int, g[2] as int) == q
            &&& g.len() == 2 ==> encode_two(g[0] as int, g[1] as int) == q
            &&& g.len() == 1 ==> encode_one(g[0] as int) == q
        }),
{
    let g = decode_quad(q, last)->0;
    lemma_sextet(q[0]);
    lemma_sextet(q[1]);
    let v0 = sextet_of(q[0])->0;
    let v1 = sextet_of(q[1])->0;
    if last && q[2] == '=' && q[3] == '=' {
        assert(v1 / 16 * 16 == v1);
        assert(encode_one(g[0] as int) =~= q);
    } else if last && q[3] == '=' {
        lemma_sextet(q[2]);
        let v2 = sextet_of(q[2])->0;
        assert(v2 / 4 * 4 == v2);
        assert(encode_two(g[0] as int, g[1] as int) =~= q);
    } else {
        lemma_sextet(q[2]);
        lemma_sextet(q[3]);
        assert(encode_three(g[0] as int, g[1] as int, g[2] as int) =~= q);
    }
}

/// Every text that decodes is the encoding of what it decodes to: the
/// encoding of a byte string is unique.
pub proof fn lemma_encode_decode(s: Seq<char>)
    requires
        base64_decoding(s) is Some,
    ensures
        base64_encoding(base64_decoding(s)->0) == s,
    decreases s.len(),
{
    if s.len() == 0 {
        assert(base64_encoding(seq![]) =~= s);
        return;
    }
    assert(s.len() >= 4);
    if s.len() == 4 {
        lemma_quad_canonical(s, true);
        let g = decode_quad(s, true)->0;
        if g.len() == 3 {
            assert(g.skip(3) =~= Seq::<u8>::empty());
            assert(base64_encoding(g.skip(3)) =~= Seq::<char>::empty());
            assert(base64_encoding(g) =~= s);
        }
        assert(base64_encoding(g) == s);
    } else {
        let q = s.take(4);
        lemma_quad_canonical(q, false);
        let g = decode_quad(q, false)->0;
        let r = base64_decoding(s.skip(4))->0;
        lemma_encode_decode(s.skip(4));
        let d = g + r;
        assert(d.skip(3) =~= r);
        assert(d[0] == g[0] && d[1] == g[1] && d[2] == g[2]);
        assert(base64_encoding(d) == q + s.skip(4));
        assert(q + s.skip(4) =~= s);
    }
}

fn alphabet_char(v: u8) -> (c: char)
    requires
        v < 64,
    ensures
        c == alphabet(v as int),
{
    if v < 26 {
        (v + 65) as char
    } else if v < 52 {
        (v + 71) as char
    } else if v < 62 {
        (v - 4) as char
    } else if v == 62 {
        '+'
    } else {
        '/'
    }
}

fn sextet(c: char) -> (r: Option<u8>)
    ensures
        match r {
            Some(v) => sextet_of(c) == Some(v as int),
            None => sextet_of(c) is None,
        },
{
    let x = c as u32;
    if 65 <= x && x <= 90 {
        Some((x - 65) as u8)
    } else if 97 <= x && x <= 122 {
        Some((x - 71) as u8)
    } else if 48 <= x && x <= 57 {
        Some((x + 4) as u8)
    } else if x == 43 {
        Some(62)
    } else if x == 47 {
        Some(63)
    } else {
        None
    }
}

/// The padded base64 text of `bytes`.
pub fn base64_from_bytes(bytes: &[u8]) -> (s: String)
    ensures
        s@ == base64_encoding(bytes@),
{
    let n = bytes.len();
    let mut out: Vec<char> = Vec::new();
    let mut i: usize = 0;
    assert(bytes@.skip(0) =~= bytes@);
    while i < n
        invariant
            i <= n,
            n == bytes@.len(),
            base64_encoding(bytes@) == out@ + base64_encoding(bytes@.skip(i as int)),
        decreases n - i,
    {
        let ghost rest = bytes@.skip(i as int);
        let b0 = bytes[i];
        if n - i >= 3 {
            let b1 = bytes[i + 1];
            let b2 = bytes[i + 2];
            out.push(alphabet_char(b0 / 4));
            out.push(alphabet_char((b0 % 4) * 16 + b1 / 16));
            out.push(alphabet_char((b1 % 16) * 4 + b2 / 64));
            out.push(alphabet_char(b2 % 64));
            assert(rest.skip(3) =~= bytes@.skip(i + 3));
            i = i + 3;
        } else if n - i == 2 {
            let b1 = bytes[i + 1];
            out.push(alphabet_char(b0 / 4));
            out.push(alphabet_char((b0 % 4) * 16 + b1 / 16));
            out.push(alphabet_char((b1 % 16) * 4));
            out.push('=');
            i = n;
        } else {
            out.push(alphabet_char(b0 / 4));
            out.push(alphabet_char((b0 % 4) * 16));
            out.push('=');
            out.push('=');
            i = n;
        }
    }
    string_from_chars(out)
}

/// The base64 text of the UTF-8 bytes of `s`.
pub fn base64_from_str(s: &str) -> (r: String)
    ensures
        r@ == base64_encoding(s.spec_bytes()),
{
    base64_from_bytes(s.as_bytes())
}

/// The bytes that the base64 text `s` stands for; `None` where `s` is not
/// a canonical padded encoding.
pub fn base64_to_bytes(s: &str) -> (r: Option<Vec<u8>>)
    ensures
        match r {
            Some(v) => base64_decoding(s@) == Some(v@),
            None => base64_decoding(s@) is None,
        },
{
    let c = chars_of(s);
    decode_chars(&c)
}

/// The bytes that the base64 characters `c` stand for; `None` where they
/// are not a canonical padded encoding.
pub fn decode_chars(c: &Vec<char>) -> (r: Option<Vec<u8>>)
    ensures
        match r {
            Some(v) => base64_decoding(c@) == Some(v@),
            None => base64_decoding(c@) is None,
        },
{
    let ghost s = c@;
    let n = c.len();
    let mut out: Vec<u8> = Vec::new();
    let mut i: usize = 0;
    assert(c@.skip(0) =~= c@);
    if n % 4 != 0 {
        proof { lemma_decoding_len(c@); }
        return None;
    }
    while i < n
        invariant
            i <= n,
            n == c@.len(),
            n % 4 == 0,
            i % 4 == 0,
            c@ == s,
            base64_decoding(s) == prepend(out@, base64_decoding(c@.skip(i as int))),
        decreases n - i,
    {
        let ghost rest = c@.skip(i as int);
        let last = n - i == 4;
        let ghost q = rest.take(4);
        assert(q =~= c@.subrange(i as int, i + 4));
        assert(last ==> q =~= rest);
        let s0 = sextet(c[i]);
        let s1 = sextet(c[i + 1]);
        let (v0, v1) = match (s0, s1) {
            (Some(v0), Some(v1)) => (v0, v1),
            _ => {
                return None;
            },
        };
        let first = v0 * 4 + v1 / 16;
        if last && c[i + 2] == '=' && c[i + 3] == '=' {
            if v1 % 16 != 0 {
                return None;
            }
            out.push(first);
            assert(rest.skip(4) =~= c@.skip(n as int));
            i = n;
        } else if last && c[i + 3] == '=' {
            let v2 = match sextet(c[i + 2]) {
                Some(v2) => v2,
                None => {
                    return None;
                },
            };
            if v2 % 4 != 0 {
                return None;
            }
            out.push(first);
            out.push((v1 % 16) * 16 + v2 / 4);
            i = n;
        } else {
            let (v2, v3) = match (sextet(c[i + 2]), sextet(c[i + 3])) {
                (Some(v2), Some(v3)) => (v2, v3),
                _ => {
                    return None;
                },
            };
            let ghost before = out@;
            out.push(first);
            out.push((v1 % 16) * 16 + v2 / 4);
            out.push((v2 % 4) * 64 + v3);
            assert(rest.skip(4) =~= c@.skip(i + 4));
            assert(out@ =~= before + seq![first, ((v1 % 16) * 16 + v2 / 4) as u8, ((v2 % 4) * 64 + v3) as u8]);
            i = i + 4;
        }
    }
    assert(c@.skip(n as int) =~= Seq::<char>::empty());
    assert(out@ + Seq::<u8>::empty() =~= out@);
    Some(out)
}

/// Only texts whose length is a multiple of four decode.
pub proof fn lemma_decoding_len(s: Seq<char>)
    ensures
        base64_decoding(s) is Some ==> s.len() % 4 == 0,
    decreases s.len(),
{
    if s.len() > 4 {
        lemma_decoding_len(s.skip(4));
    }
}

} // verus!
