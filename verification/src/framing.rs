//! Telemetry frames: every message that the client sends to the receiver
//! starts with a 28-character nonce field (the base64 text of the nonce
//! written as 20 zero-padded decimal digits), then a 12-character time
//! field (the base64 text of the low eight big-endian bytes of the time in
//! milliseconds), then the payload. A payload that starts with `END` closes
//! the session. The receiver accepts a nonce only if it is larger than every
//! nonce it accepted before.
use vstd::prelude::*;
use vstd::string::StringSliceAdditionalSpecFns;
use vstd::utf8::*;
use crate::base64::{
    base64_decoding, base64_encoding, base64_from_bytes, base64_to_bytes, decode_chars,
    lemma_decode_encode, lemma_encoding_ascii, lemma_encoding_len,
};
use crate::decimal::{
    decimal, is_digit, lemma_decimal, lemma_parse_zero_padded, padded_decimal_chars, parse_u64,
    parse_u64_chars, zero_padded,
};
use crate::text::{chars_of, string_from_chars};

verus! {

/// Number of decimal digits of the nonce text (the width of `u64::MAX`).
pub const NONCE_DIGITS: usize = 20;

/// Length of the nonce field, in characters.
pub const NONCE_FIELD_LEN: usize = 28;

/// Length of the nonce and time fields together, in characters.
pub const HEADER_LEN: usize = 40;

/// The byte codes of characters (each taken modulo 256).
pub open spec fn char_codes(s: Seq<char>) -> Seq<u8> {
    Seq::new(s.len(), |i: int| (s[i] as u32) as u8)
}

/// The characters whose codes are the bytes `b`.
pub open spec fn ascii_chars(b: Seq<u8>) -> Seq<char> {
    Seq::new(b.len(), |i: int| b[i] as char)
}

/// The decimal text of a nonce: 20 digits, zero-padded.
pub open spec fn nonce_text(n: u64) -> Seq<char> {
    zero_padded(decimal(n as nat), NONCE_DIGITS as nat)
}

/// The nonce field of a frame.
pub open spec fn nonce_field_of(n: u64) -> Seq<char> {
    base64_encoding(char_codes(nonce_text(n)))
}

/// The last `k` bytes of the big-endian representation of `v`.
pub open spec fn be_bytes(v: nat, k: nat) -> Seq<u8>
    decreases k,
{
    if k == 0 {
        seq![]
    } else {
        be_bytes(v / 256, (k - 1) as nat).push((v % 256) as u8)
    }
}

/// The number that the big-endian bytes `b` stand for.
pub open spec fn be_value(b: Seq<u8>) -> nat
    decreases b.len(),
{
    if b.len() == 0 {
        0
    } else {
        be_value(b.drop_last()) * 256 + b.last() as nat
    }
}

/// 256 to the power `k`.
pub open spec fn pow256(k: nat) -> nat
    decreases k,
{
    if k == 0 {
        1
    } else {
        256 * pow256((k - 1) as nat)
    }
}

/// The time field of a frame for a time of `millis` milliseconds.
pub open spec fn time_field_of(millis: u128) -> Seq<char> {
    base64_encoding(be_bytes(millis as nat, 8))
}

/// A whole frame.
pub open spec fn frame_of(nonce: u64, time_field: Seq<char>, payload: Seq<char>) -> Seq<char> {
    nonce_field_of(nonce) + time_field + payload
}

/// The nonce that the frame bytes `b` carry: the first 28 bytes decode as
/// base64 to the decimal text of a `u64`.
pub open spec fn frame_nonce(b: Seq<u8>) -> Option<u64> {
    if b.len() >= NONCE_FIELD_LEN {
        match base64_decoding(ascii_chars(b.take(NONCE_FIELD_LEN as int))) {
            Some(d) => parse_u64(ascii_chars(d)),
            None => None,
        }
    } else {
        None
    }
}

/// The bytes of `END`.
pub open spec fn end_marker() -> Seq<u8> {
    seq![69u8, 78u8, 68u8]
}

/// Whether the receiver can take the frame bytes `b` apart: at least 43
/// bytes, a nonce that decodes, and character boundaries after the time
/// field and after the three bytes that are compared with `END`.
pub open spec fn frame_well_formed(b: Seq<u8>) -> bool {
    &&& b.len() >= 43
    &&& frame_nonce(b) is Some
    &&& is_char_boundary(b, 40)
    &&& is_char_boundary(b, 43)
}

proof fn lemma_be_bytes(v: nat, k: nat)
    ensures
        be_bytes(v, k).len() == k,
        be_value(be_bytes(v, k)) == v % pow256(k),
        pow256(k) > 0,
    decreases k,
{
    if k > 0 {
        let k1 = (k - 1) as nat;
        lemma_be_bytes(v / 256, k1);
        let b = be_bytes(v, k);
        assert(b.drop_last() =~= be_bytes(v / 256, k1));
        vstd::arithmetic::div_mod::lemma_mod_breakdown(v as int, 256, pow256(k1) as int);
    }
}

/// The time that the receiver reads back from a time field is the time in
/// milliseconds modulo 2^64: the field decodes to eight bytes whose
/// big-endian value is that number.
pub proof fn lemma_time_field_roundtrip(millis: u128)
    ensures
        time_field_of(millis).len() == 12,
        base64_decoding(time_field_of(millis)) == Some(be_bytes(millis as nat, 8)),
        be_bytes(millis as nat, 8).len() == 8,
        be_value(be_bytes(millis as nat, 8)) == millis % 0x1_0000_0000_0000_0000u128,
{
    lemma_be_bytes(millis as nat, 8);
    assert(pow256(8) == 0x1_0000_0000_0000_0000nat) by {
        reveal_with_fuel(pow256, 9);
    }
    lemma_decode_encode(be_bytes(millis as nat, 8));
    lemma_encoding_len(be_bytes(millis as nat, 8));
}

proof fn lemma_encode_utf8_concat(a: Seq<char>, b: Seq<char>)
    ensures
        encode_utf8(a + b) == encode_utf8(a) + encode_utf8(b),
    decreases a.len(),
{
    if a.len() == 0 {
        assert(a + b =~= b);
        assert(encode_utf8(a) + encode_utf8(b) =~= encode_utf8(b));
    } else {
        lemma_encode_utf8_concat(a.drop_first(), b);
        assert((a + b).drop_first() =~= a.drop_first() + b);
        assert((a + b)[0] == a[0]);
        let x = encode_scalar(a[0] as u32);
        assert(x + (encode_utf8(a.drop_first()) + encode_utf8(b)) =~= (x + encode_utf8(a.drop_first()))
            + encode_utf8(b));
    }
}

proof fn lemma_nonce_text(n: u64)
    ensures
        nonce_text(n).len() == NONCE_DIGITS,
        forall|i: int| 0 <= i < nonce_text(n).len() ==> is_digit(#[trigger] nonce_text(n)[i]),
        parse_u64(nonce_text(n)) == Some(n),
{
    lemma_decimal(n as nat);
    lemma_parse_zero_padded(n, NONCE_DIGITS as nat);
    let d = decimal(n as nat);
    let t = nonce_text(n);
    assert forall|i: int| 0 <= i < t.len() implies is_digit(#[trigger] t[i]) by {
        if d.len() < NONCE_DIGITS {
            let z = (NONCE_DIGITS - d.len()) as int;
            if i >= z {
                assert(t[i] == d[i - z]);
            }
        }
    }
}

proof fn lemma_nonce_field(n: u64)
    ensures
        nonce_field_of(n).len() == NONCE_FIELD_LEN,
        is_ascii_chars(nonce_field_of(n)),
        base64_decoding(nonce_field_of(n)) matches Some(d) && parse_u64(ascii_chars(d)) == Some(n),
{
    lemma_nonce_text(n);
    let t = nonce_text(n);
    let c = char_codes(t);
    lemma_encoding_len(c);
    lemma_encoding_ascii(c);
    lemma_decode_encode(c);
    assert forall|i: int| 0 <= i < t.len() implies #[trigger] ascii_chars(c)[i] == t[i] by {
        assert(is_digit(t[i]));
        let x = t[i] as u32;
        assert(((x as u8) as u32) == x);
        char_u32_cast(t[i], x);
        assert(ascii_chars(c)[i] == (c[i] as char));
        assert(c[i] == x as u8);
        assert((x as u8) as char == x as char);
    }
    assert(ascii_chars(c) =~= t);
}

/// The receiver reads back what a client framed, whatever its time field:
/// a frame made of the nonce field, any twelve ASCII characters and a
/// payload whose first three bytes are whole characters can be taken
/// apart; it carries the nonce, its payload starts with `END` exactly when
/// the payload's first three bytes spell `END`, and what follows the time
/// field is the payload.
pub proof fn lemma_frame_roundtrip_any_time(nonce: u64, tf: Seq<char>, payload: Seq<char>)
    requires
        tf.len() == 12,
        is_ascii_chars(tf),
        encode_utf8(payload).len() >= 3,
        is_char_boundary(encode_utf8(payload), 3),
    ensures
        frame_well_formed(encode_utf8(frame_of(nonce, tf, payload))),
        frame_nonce(encode_utf8(frame_of(nonce, tf, payload))) == Some(nonce),
        (encode_utf8(frame_of(nonce, tf, payload)).subrange(40, 43) == end_marker())
            == (encode_utf8(payload).take(3) == end_marker()),
        decode_utf8(
            encode_utf8(frame_of(nonce, tf, payload)).subrange(
                40,
                encode_utf8(frame_of(nonce, tf, payload)).len() as int,
            ),
        ) == payload,
{
    let nf = nonce_field_of(nonce);
    let h = nf + tf;
    let f = frame_of(nonce, tf, payload);
    lemma_nonce_field(nonce);
    is_ascii_chars_concat(h, nf, tf);
    is_ascii_chars_encode_utf8(h);
    let eh = encode_utf8(h);
    let ep = encode_utf8(payload);
    lemma_encode_utf8_concat(h, payload);
    let b = encode_utf8(f);
    assert(b == eh + ep);
    assert(b.len() == 40 + ep.len());
    // the nonce
    let field = b.take(NONCE_FIELD_LEN as int);
    assert forall|i: int| 0 <= i < NONCE_FIELD_LEN implies #[trigger] ascii_chars(field)[i] == nf[i] by {
        assert(field[i] == eh[i]);
        assert(eh[i] == h[i] as u8);
        assert(h[i] == nf[i]);
        assert('\0' <= h[i] <= '\u{7f}');
    }
    assert(ascii_chars(field) =~= nf);
    assert(frame_nonce(b) == Some(nonce));
    // the character boundaries
    encode_utf8_valid_utf8(f);
    encode_utf8_valid_utf8(payload);
    assert(is_char_boundary(ep, 0));
    is_char_boundary_iff_not_is_continuation_byte(ep, 0);
    is_char_boundary_iff_not_is_continuation_byte(b, 40);
    assert(b[40] == ep[0]);
    if ep.len() > 3 {
        is_char_boundary_iff_not_is_continuation_byte(ep, 3);
        is_char_boundary_iff_not_is_continuation_byte(b, 43);
        assert(b[43] == ep[3]);
    } else {
        is_char_boundary_start_end_of_seq(b);
    }
    // the payload
    assert(b.subrange(40, 43) =~= ep.take(3));
    assert(b.subrange(40, b.len() as int) =~= ep);
    encode_utf8_decode_utf8(payload);
}

/// The receiver reads back what the client framed: a frame made of the
/// nonce field, a time field and a payload whose first three bytes are
/// whole characters can be taken apart; it carries the nonce, its payload
/// starts with `END` exactly when the payload's first three bytes spell
/// `END`, and what follows the time field is the payload.
pub proof fn lemma_frame_roundtrip(nonce: u64, millis: u128, payload: Seq<char>)
    requires
        encode_utf8(payload).len() >= 3,
        is_char_boundary(encode_utf8(payload), 3),
    ensures
        frame_well_formed(encode_utf8(frame_of(nonce, time_field_of(millis), payload))),
        frame_nonce(encode_utf8(frame_of(nonce, time_field_of(millis), payload))) == Some(nonce),
        (encode_utf8(frame_of(nonce, time_field_of(millis), payload)).subrange(40, 43) == end_marker())
            == (encode_utf8(payload).take(3) == end_marker()),
        decode_utf8(
            encode_utf8(frame_of(nonce, time_field_of(millis), payload)).subrange(
                40,
                encode_utf8(frame_of(nonce, time_field_of(millis), payload)).len() as int,
            ),
        ) == payload,
{
    lemma_time_field_roundtrip(millis);
    lemma_encoding_ascii(be_bytes(millis as nat, 8));
    lemma_frame_roundtrip_any_time(nonce, time_field_of(millis), payload);
}

/// What the receiver reads out of a frame.
pub struct FrameParts {
    /// The nonce.
    pub nonce: u64,
    /// Whether the payload starts with `END`.
    pub is_end: bool,
    /// Everything after the time field.
    pub body: String,
}

/// The nonce field for `nonce`, as the client writes it:
/// `base64_from_str(&format!("{:020}", nonce))`.
pub fn nonce_field(nonce: u64) -> (s: String)
    ensures
        s@ == nonce_field_of(nonce),
{
    let text = padded_decimal_chars(nonce, NONCE_DIGITS);
    let mut bytes: Vec<u8> = Vec::new();
    let mut i: usize = 0;
    while i < text.len()
        invariant
            i <= text@.len(),
            text@ == nonce_text(nonce),
            bytes@ == char_codes(text@).take(i as int),
        decreases text@.len() - i,
    {
        let c = text[i];
        bytes.push((c as u32) as u8);
        i = i + 1;
        assert(bytes@ =~= char_codes(text@).take(i as int));
    }
    assert(char_codes(text@).take(text@.len() as int) =~= char_codes(text@));
    base64_from_bytes(bytes.as_slice())
}

fn push_be_bytes(v: u128, k: usize, out: &mut Vec<u8>)
    ensures
        final(out)@ == old(out)@ + be_bytes(v as nat, k as nat),
    decreases k,
{
    if k > 0 {
        push_be_bytes(v / 256, k - 1, out);
        out.push((v % 256) as u8);
    }
}

/// The time field for a time of `millis` milliseconds: the base64 text of
/// the last eight bytes of its big-endian representation.
pub fn time_field(millis: u128) -> (s: String)
    ensures
        s@ == time_field_of(millis),
{
    let mut bytes: Vec<u8> = Vec::new();
    push_be_bytes(millis, 8, &mut bytes);
    assert(bytes@ =~= be_bytes(millis as nat, 8));
    base64_from_bytes(bytes.as_slice())
}

/// The time, in milliseconds modulo 2^64, that a time field stands for.
pub fn return_time_as_millis_from_base64(base64_time: &str) -> (t: u128)
    requires
        base64_decoding(base64_time@) is Some,
        base64_decoding(base64_time@)->0.len() == 8,
    ensures
        t == be_value(base64_decoding(base64_time@)->0),
{
    let bytes = match base64_to_bytes(base64_time) {
        Some(b) => b,
        None => {
            return 0;
        },
    };
    let mut acc: u128 = 0;
    let mut i: usize = 0;
    while i < 8
        invariant
            i <= 8,
            bytes@.len() == 8,
            acc == be_value(bytes@.take(i as int)),
            acc < pow256(i as nat),
        decreases 8 - i,
    {
        assert(bytes@.take(i + 1).drop_last() =~= bytes@.take(i as int));
        proof {
            reveal_with_fuel(pow256, 9);
        }
        acc = acc * 256 + bytes[i] as u128;
        i = i + 1;
    }
    assert(bytes@.take(8) =~= bytes@);
    acc
}

/// Concatenates the three parts of a frame.
pub fn frame_message(nonce: u64, time_field: &str, payload: &str) -> (s: String)
    ensures
        s@ == frame_of(nonce, time_field@, payload@),
{
    let head = nonce_field(nonce);
    let mut out = chars_of(head.as_str());
    let mut t = chars_of(time_field);
    let mut p = chars_of(payload);
    out.append(&mut t);
    out.append(&mut p);
    string_from_chars(out)
}

fn ascii_char_vec(b: &[u8], from: usize, to: usize) -> (v: Vec<char>)
    requires
        from <= to <= b@.len(),
    ensures
        v@ == ascii_chars(b@.subrange(from as int, to as int)),
{
    let mut v: Vec<char> = Vec::new();
    let mut i: usize = from;
    while i < to
        invariant
            from <= i <= to,
            to <= b@.len(),
            v@ == ascii_chars(b@.subrange(from as int, i as int)),
        decreases to - i,
    {
        v.push(b[i] as char);
        i = i + 1;
        assert(v@ =~= ascii_chars(b@.subrange(from as int, i as int)));
    }
    v
}

fn frame_nonce_exec(b: &[u8]) -> (r: Option<u64>)
    ensures
        r == frame_nonce(b@),
{
    if b.len() < NONCE_FIELD_LEN {
        return None;
    }
    let field = ascii_char_vec(b, 0, NONCE_FIELD_LEN);
    assert(b@.subrange(0, 28) =~= b@.take(28));
    match decode_chars(&field) {
        Some(d) => {
            let digits = ascii_char_vec(d.as_slice(), 0, d.len());
            assert(d@.subrange(0, d@.len() as int) =~= d@);
            parse_u64_chars(&digits)
        },
        None => None,
    }
}

/// Whether the receiver can take `msg` apart with `parse_frame`.
pub fn frame_is_well_formed(msg: &str) -> (r: bool)
    ensures
        r == frame_well_formed(msg.spec_bytes()),
{
    let b = msg.as_bytes();
    if b.len() < 43 {
        return false;
    }
    match frame_nonce_exec(b) {
        Some(_) => msg.is_char_boundary(40) && msg.is_char_boundary(43),
        None => false,
    }
}

/// Takes a frame apart as the receiver does: the nonce, whether the three
/// bytes after the time field spell `END`, and everything after the time
/// field.
pub fn parse_frame(msg: &str) -> (r: FrameParts)
    requires
        frame_well_formed(msg.spec_bytes()),
    ensures
        r.nonce == frame_nonce(msg.spec_bytes())->0,
        r.is_end == (msg.spec_bytes().subrange(40, 43) == end_marker()),
        r.body@ == decode_utf8(msg.spec_bytes().subrange(40, msg.spec_bytes().len() as int)),
{
    let b = msg.as_bytes();
    let nonce = match frame_nonce_exec(b) {
        Some(n) => n,
        None => 0,
    };
    let is_end = b[40] == 69 && b[41] == 78 && b[42] == 68;
    assert(is_end == (b@.subrange(40, 43) =~= end_marker()));
    let (_, rest) = msg.split_at(40);
    proof {
        encode_utf8_decode_utf8(rest@);
    }
    FrameParts { nonce, is_end, body: rest.to_owned() }
}

/// Why the receiver refused a nonce.
#[derive(Clone, Copy, Debug, PartialEq, Eq)]
pub enum NonceError {
    /// The nonce is not larger than the largest one accepted so far.
    AlreadyUsed,
}

/// The largest accepted nonce after `nonce` was checked against `largest`.
pub open spec fn nonce_after(largest: u64, nonce: u64) -> u64 {
    if largest >= nonce {
        largest
    } else {
        nonce
    }
}

/// Accepts `nonce` if it is larger than the largest nonce accepted so far
/// (`largest`), and then records it as the largest.
pub fn check_nonce(largest: &mut u64, nonce: u64) -> (r: Result<(), NonceError>)
    ensures
        r is Ok <==> *old(largest) < nonce,
        *final(largest) == nonce_after(*old(largest), nonce),
{
    if *largest >= nonce {
        return Err(NonceError::AlreadyUsed);
    }
    *largest = nonce;
    Ok(())
}


/// The largest accepted nonce after the nonces `ns` were checked, in
/// order, starting from `start`.
pub open spec fn largest_after(start: u64, ns: Seq<u64>) -> u64
    decreases ns.len(),
{
    if ns.len() == 0 {
        start
    } else {
        nonce_after(largest_after(start, ns.drop_last()), ns.last())
    }
}

/// Whether the `i`-th of the nonces `ns` is accepted when they are checked
/// in order, starting from `start`.
pub open spec fn accepted_at(start: u64, ns: Seq<u64>, i: int) -> bool {
    largest_after(start, ns.take(i)) < ns[i]
}

proof fn lemma_largest_step(start: u64, ns: Seq<u64>, i: int)
    requires
        0 <= i < ns.len(),
    ensures
        largest_after(start, ns.take(i + 1)) == nonce_after(largest_after(start, ns.take(i)), ns[i]),
{
    assert(ns.take(i + 1).drop_last() =~= ns.take(i));
}

/// The state of the nonce check never goes down: after more checks, the
/// largest accepted nonce is at least what it was.
pub proof fn lemma_largest_monotone(start: u64, ns: Seq<u64>, a: int, b: int)
    requires
        0 <= a <= b <= ns.len(),
    ensures
        largest_after(start, ns.take(a)) <= largest_after(start, ns.take(b)),
    decreases b - a,
{
    if a < b {
        lemma_largest_monotone(start, ns, a, b - 1);
        lemma_largest_step(start, ns, b - 1);
    }
}

/// Replay protection: when nonces are checked one after another, every
/// accepted nonce is larger than every nonce accepted before it, so a
/// nonce that was accepted once is refused every later time.
pub proof fn lemma_accepted_nonces_increase(start: u64, ns: Seq<u64>, i: int, j: int)
    requires
        0 <= i < j < ns.len(),
        accepted_at(start, ns, i),
        accepted_at(start, ns, j),
    ensures
        ns[i] < ns[j],
{
    lemma_largest_step(start, ns, i);
    lemma_largest_monotone(start, ns, i + 1, j);
}

/// A nonce at or below one that was accepted is refused at every later
/// check, and that check leaves the state as it was.
pub proof fn lemma_no_replay(start: u64, ns: Seq<u64>, i: int, j: int)
    requires
        0 <= i < j < ns.len(),
        accepted_at(start, ns, i),
        ns[j] <= ns[i],
    ensures
        !accepted_at(start, ns, j),
        largest_after(start, ns.take(j + 1)) == largest_after(start, ns.take(j)),
{
    lemma_largest_step(start, ns, i);
    lemma_largest_monotone(start, ns, i + 1, j);
    lemma_largest_step(start, ns, j);
}

proof fn lemma_unchanged_after(start: u64, ns: Seq<u64>, i: int, k: int)
    requires
        0 <= i < k <= ns.len(),
        accepted_at(start, ns, i),
        forall|m: int| i < m < ns.len() ==> !#[trigger] accepted_at(start, ns, m),
    ensures
        largest_after(start, ns.take(k)) == ns[i],
    decreases k - i,
{
    if k == i + 1 {
        lemma_largest_step(start, ns, i);
    } else {
        lemma_unchanged_after(start, ns, i, k - 1);
        assert(!accepted_at(start, ns, k - 1));
        lemma_largest_step(start, ns, k - 1);
    }
}

/// After a run of checks, the state is the last nonce that was accepted:
/// when the `i`-th nonce was accepted and none after it, the largest
/// accepted nonce at the end is the `i`-th.
pub proof fn lemma_state_is_last_accepted(start: u64, ns: Seq<u64>, i: int)
    requires
        0 <= i < ns.len(),
        accepted_at(start, ns, i),
        forall|k: int| i < k < ns.len() ==> !#[trigger] accepted_at(start, ns, k),
    ensures
        largest_after(start, ns) == ns[i],
{
    lemma_unchanged_after(start, ns, i, ns.len() as int);
    assert(ns.take(ns.len() as int) =~= ns);
}

} // verus!
