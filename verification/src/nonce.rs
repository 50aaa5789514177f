//! Random nonces, the time field of a frame, and the seed of the ChaCha20
//! generator in the nonce experiments.
use vstd::prelude::*;
use crate::base64::{base64_encoding, base64_from_bytes};
use crate::clock::unix_time_millis;
use crate::crypto::{fill_from_std_rng, seeded_std_rng};
use crate::framing::{time_field, time_field_of};

verus! {

/// Number of random bytes in a nonce.
pub const NONCE_BYTES: usize = 32;

/// 32 random bytes from a standard generator of `rand` seeded by the
/// operating system; `None` when the operating system's source fails.
pub fn generate_nonce() -> (r: Option<Vec<u8>>)
    ensures
        r matches Some(v) ==> v@.len() == NONCE_BYTES,
{
    let mut rng = match seeded_std_rng() {
        Some(g) => g,
        None => {
            return None;
        },
    };
    let mut nonce: Vec<u8> = Vec::new();
    let mut i: usize = 0;
    while i < NONCE_BYTES
        invariant
            i <= NONCE_BYTES,
            nonce@.len() == i,
        decreases NONCE_BYTES - i,
    {
        nonce.push(0);
        i = i + 1;
    }
    fill_from_std_rng(&mut rng, &mut nonce);
    Some(nonce)
}

/// The base64 text of 32 random bytes drawn from a standard generator
/// seeded by the operating system; `None` when the operating system's
/// source fails.
pub fn generate_nonce_base64() -> (r: Option<String>)
    ensures
        r matches Some(s) ==> exists|b: Seq<u8>| b.len() == NONCE_BYTES && #[trigger] base64_encoding(b) == s@,
{
    let mut rng = match seeded_std_rng() {
        Some(g) => g,
        None => {
            return None;
        },
    };
    let mut nonce: Vec<u8> = Vec::new();
    let mut i: usize = 0;
    while i < NONCE_BYTES
        invariant
            i <= NONCE_BYTES,
            nonce@.len() == i,
        decreases NONCE_BYTES - i,
    {
        nonce.push(0);
        i = i + 1;
    }
    fill_from_std_rng(&mut rng, &mut nonce);
    let s = base64_from_bytes(nonce.as_slice());
    assert(base64_encoding(nonce@) == s@);
    Some(s)
}

/// The time field for the present moment: the base64 text of the low
/// eight bytes of the big-endian time in milliseconds since the Unix
/// epoch; `None` if the clock reads a time before the epoch.
pub fn get_time_as_millis_base64() -> (r: Option<String>)
    ensures
        r matches Some(s) ==> exists|millis: u128| #[trigger] time_field_of(millis) == s@,
{
    match unix_time_millis() {
        Some(millis) => {
            let s = time_field(millis);
            assert(time_field_of(millis) == s@);
            Some(s)
        },
        None => None,
    }
}

/// The seed byte at position `j` that `chacha_seed_from_text` gives for
/// the bytes `t`: the bytes of `t` are written from the front, then again
/// from the back, the second writing winning where they meet.
pub open spec fn seed_byte(t: Seq<u8>, j: int) -> u8 {
    if 31 - j < t.len() {
        t[31 - j]
    } else if j < t.len() {
        t[j]
    } else {
        0
    }
}

/// The 32-byte ChaCha20 seed made from the decimal text of the time: the
/// text's bytes go into the seed from the front, then from the back.
pub fn chacha_seed_from_text(text: &[u8]) -> (seed: [u8; 32])
    requires
        text@.len() <= 32,
    ensures
        forall|j: int| 0 <= j < 32 ==> #[trigger] seed@[j] == seed_byte(text@, j),
{
    let mut seed: [u8; 32] = [0u8; 32];
    let n = text.len();
    let mut i: usize = 0;
    while i < n
        invariant
            n == text@.len() <= 32,
            i <= n,
            forall|j: int| 0 <= j < 32 ==> #[trigger] seed@[j] == if j < i {
                text@[j]
            } else {
                0u8
            },
        decreases n - i,
    {
        seed[i] = text[i];
        i = i + 1;
    }
    let mut i: usize = 0;
    while i < n
        invariant
            n == text@.len() <= 32,
            i <= n,
            forall|j: int| 0 <= j < 32 ==> #[trigger] seed@[j] == if 31 - j < i {
                text@[31 - j]
            } else if j < n {
                text@[j]
            } else {
                0u8
            },
        decreases n - i,
    {
        seed[31 - i] = text[i];
        i = i + 1;
    }
    seed
}

} // verus!
