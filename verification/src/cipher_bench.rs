//! Benchmarks of the classical primitives (Ed25519, AES-256-GCM, ChaCha20)
//! that the post-quantum ones are compared with. Each records its timings
//! in latency histograms (see `stats`) that go back to the caller.
use vstd::prelude::*;
use std::collections::BTreeMap;
use crate::bench::{record_elapsed, sample_count};
use crate::clock::{instant_now, micros_since, nanos_since};
use crate::crypto::fill_from_std_rng;
use rand::rngs::StdRng;
use crate::primitives::{
    aes_gcm_decrypt, aes_gcm_encrypt, aes_gcm_opened, aes_gcm_sealed, chacha20_apply, chacha20_keystream, ed25519_sign,
    ed25519_signing_key, lemma_xor_twice, xor_bytes, AES_GCM_MAX_PLAINTEXT, CHACHA20_KEYSTREAM_LEN,
};
use crate::stats::{lemma_entries_of, lemma_record_adds_one, lists_in_order, record_sample};

verus! {

fn zero_bytes(n: usize) -> (v: Vec<u8>)
    ensures
        v@.len() == n,
{
    let mut v: Vec<u8> = Vec::new();
    let mut i: usize = 0;
    while i < n
        invariant
            i <= n,
            v@.len() == i,
        decreases n - i,
    {
        v.push(0);
        i = i + 1;
    }
    v
}

fn random_bytes(rng: &mut StdRng, n: usize) -> (v: Vec<u8>)
    ensures
        v@.len() == n,
{
    let mut v = zero_bytes(n);
    fill_from_std_rng(rng, &mut v);
    v
}

fn copy_bytes(b: &[u8]) -> (v: Vec<u8>)
    ensures
        v@ == b@,
{
    let mut v: Vec<u8> = Vec::new();
    v.extend_from_slice(b);
    assert(v@ =~= b@);
    v
}

proof fn lemma_empty_histogram()
    ensures
        sample_count(Map::<u128, u32>::empty()) == 0,
{
    assert(lists_in_order(Map::<u128, u32>::empty(), Seq::<(u128, u32)>::empty()));
    lemma_entries_of(Map::<u128, u32>::empty(), Seq::<(u128, u32)>::empty());
}

/// The Ed25519 signing benchmark: for each of `nkeys` fresh signing keys
/// (their secrets drawn from `rng`),
/// `nloops` timed signatures of `message`. Returns the histogram of the
/// signing times, in microseconds, with `nkeys * nloops` samples.
pub fn check_ed25519(message: &[u8], nkeys: u32, nloops: u32, rng: &mut StdRng) -> (hist: BTreeMap<u128, u32>)
    requires
        nkeys * nloops <= u32::MAX,
    ensures
        sample_count(hist@) == nkeys * nloops,
{
    let mut hist: BTreeMap<u128, u32> = BTreeMap::new();
    proof {
        lemma_empty_histogram();
    }
    let mut k: u32 = 0;
    while k < nkeys
        invariant
            k <= nkeys,
            nkeys * nloops <= u32::MAX,
            sample_count(hist@) == k * nloops,
        decreases nkeys - k,
    {
        proof {
            assert(k * nloops + nloops <= nkeys * nloops) by (nonlinear_arith)
                requires
                    k < nkeys,
            ;
        }
        let secret = random_bytes(rng, 32);
        let key = match ed25519_signing_key(secret.as_slice()) {
            Some(key) => key,
            None => {
                return hist;
            },
        };
        let mut j: u32 = 0;
        while j < nloops
            invariant
                j <= nloops,
                k * nloops + nloops <= nkeys * nloops,
                nkeys * nloops <= u32::MAX,
                sample_count(hist@) == k * nloops + j,
            decreases nloops - j,
        {
            let start = instant_now();
            let _ = ed25519_sign(&key, message);
            record_elapsed(&mut hist, &start);
            j = j + 1;
        }
        k = k + 1;
        assert(sample_count(hist@) == k * nloops) by (nonlinear_arith)
            requires
                sample_count(hist@) == (k - 1) * nloops + nloops,
        ;
    }
    hist
}

/// Records `d` as one more sample in `hist` (used for the nanosecond
/// timings).
fn record_value(hist: &mut BTreeMap<u128, u32>, d: u128)
    requires
        sample_count(old(hist)@) < u32::MAX,
    ensures
        sample_count(final(hist)@) == sample_count(old(hist)@) + 1,
{
    proof {
        vstd::std_specs::btree::axiom_btree_map_view_finite_dom(*hist);
        if hist@.contains_key(d) {
            crate::bench::lemma_count_bounds_entry(hist@, d);
        }
        lemma_record_adds_one(hist@, d);
    }
    record_sample(hist, d);
}

/// AES-256-GCM encryption of `message` under `key` and `nonce` (no
/// associated data): the ciphertext with its 16-byte tag; `None` exactly
/// when the key is not 32 bytes, the nonce not 12, or the message longer
/// than `AES_GCM_MAX_PLAINTEXT`. It decrypts back to the message.
pub fn aes_gcm_seal(key: &[u8], nonce: &[u8], message: &[u8]) -> (r: Option<Vec<u8>>)
    ensures
        r is Some <==> (key@.len() == 32 && nonce@.len() == 12 && message@.len() <= AES_GCM_MAX_PLAINTEXT),
        r matches Some(c) ==> {
            &&& c@ == aes_gcm_sealed(key@, nonce@, message@)
            &&& c@.len() == message@.len() + 16
            &&& aes_gcm_opened(key@, nonce@, c@) == Some(message@)
        },
{
    aes_gcm_encrypt(key, nonce, message)
}

/// AES-256-GCM decryption of `ciphertext` under `key` and `nonce`; `None`
/// when the key or nonce has the wrong length or the tag does not verify.
pub fn aes_gcm_open(key: &[u8], nonce: &[u8], ciphertext: &[u8]) -> (r: Option<Vec<u8>>)
    ensures
        match r {
            Some(p) => aes_gcm_opened(key@, nonce@, ciphertext@) == Some(p@),
            None => aes_gcm_opened(key@, nonce@, ciphertext@) is None,
        },
{
    aes_gcm_decrypt(key, nonce, ciphertext)
}

/// The AES-256-GCM benchmark: for each of `nkeys` fresh random keys,
/// `nloops` times a fresh random nonce (both drawn from `rng`), a timed encryption of `message`
/// and a timed decryption of the ciphertext. Returns the encryption and the
/// decryption histograms, in nanoseconds, each with `nkeys * nloops`
/// samples; `None` when encryption fails, which is when there is at least
/// one encryption and the message is longer than `AES_GCM_MAX_PLAINTEXT`.
/// Every decryption gives the message back, so decryption never stops the
/// benchmark.
pub fn time_aes_gcm(message: &[u8], nkeys: u32, nloops: u32, rng: &mut StdRng) -> (r: Option<(BTreeMap<u128, u32>, BTreeMap<u128, u32>)>)
    requires
        nkeys * nloops <= u32::MAX,
    ensures
        r is Some <==> (nkeys == 0 || nloops == 0 || message@.len() <= AES_GCM_MAX_PLAINTEXT),
        r matches Some((enc, dec)) ==> {
            &&& sample_count(enc@) == nkeys * nloops
            &&& sample_count(dec@) == nkeys * nloops
        },
{
    let mut enc: BTreeMap<u128, u32> = BTreeMap::new();
    let mut dec: BTreeMap<u128, u32> = BTreeMap::new();
    proof {
        lemma_empty_histogram();
    }
    let mut k: u32 = 0;
    while k < nkeys
        invariant
            k <= nkeys,
            nkeys * nloops <= u32::MAX,
            sample_count(enc@) == k * nloops,
            sample_count(dec@) == k * nloops,
            k > 0 && nloops > 0 ==> message@.len() <= AES_GCM_MAX_PLAINTEXT,
        decreases nkeys - k,
    {
        proof {
            assert(k * nloops + nloops <= nkeys * nloops) by (nonlinear_arith)
                requires
                    k < nkeys,
            ;
        }
        let key = random_bytes(rng, 32);
        let mut j: u32 = 0;
        while j < nloops
            invariant
                j <= nloops,
                k < nkeys,
                key@.len() == 32,
                k * nloops + nloops <= nkeys * nloops,
                nkeys * nloops <= u32::MAX,
                sample_count(enc@) == k * nloops + j,
                sample_count(dec@) == k * nloops + j,
                j > 0 ==> message@.len() <= AES_GCM_MAX_PLAINTEXT,
            decreases nloops - j,
        {
            let nonce = random_bytes(rng, 12);
            let start = instant_now();
            let ciphertext = match aes_gcm_seal(key.as_slice(), nonce.as_slice(), message) {
                Some(c) => c,
                None => {
                    return None;
                },
            };
            let d = nanos_since(&start);
            record_value(&mut enc, d);
            let start = instant_now();
            let plaintext = aes_gcm_open(key.as_slice(), nonce.as_slice(), ciphertext.as_slice());
            let d = nanos_since(&start);
            assert(plaintext matches Some(p) && p@ == message@);
            record_value(&mut dec, d);
            j = j + 1;
        }
        k = k + 1;
        assert(sample_count(enc@) == k * nloops && sample_count(dec@) == k * nloops) by (nonlinear_arith)
            requires
                sample_count(enc@) == (k - 1) * nloops + nloops,
                sample_count(dec@) == (k - 1) * nloops + nloops,
        ;
    }
    Some((enc, dec))
}

/// Whether the keystream lasts for `nloops` encryptions of `len` bytes as
/// `time_chacha20` makes them: the first at position 0, the others at
/// position `len`.
pub open spec fn chacha20_bench_fits(len: nat, nloops: nat) -> bool {
    ||| nloops == 0
    ||| nloops == 1 && len <= CHACHA20_KEYSTREAM_LEN
    ||| nloops >= 2 && 2 * len <= CHACHA20_KEYSTREAM_LEN
}

/// The ChaCha20 benchmark: for each of `nkeys` fresh random keys (drawn
/// from `rng`; nonce
/// twelve bytes `0x24`), `nloops` times a timed encryption of a copy of
/// `message` at the cipher's current position, a seek back to the start and
/// a timed decryption of the ciphertext from there. Returns the encryption
/// and the decryption histograms, in microseconds, each with
/// `nkeys * nloops` samples; `None` when the keystream runs out before an
/// encryption ends (see `chacha20_bench_fits`).
pub fn time_chacha20(message: &[u8], nkeys: u32, nloops: u32, rng: &mut StdRng) -> (r: Option<(BTreeMap<u128, u32>, BTreeMap<u128, u32>)>)
    requires
        nkeys * nloops <= u32::MAX,
    ensures
        r is Some <==> (nkeys == 0 || chacha20_bench_fits(message@.len(), nloops as nat)),
        r matches Some((enc, dec)) ==> {
            &&& sample_count(enc@) == nkeys * nloops
            &&& sample_count(dec@) == nkeys * nloops
        },
{
    let mut enc: BTreeMap<u128, u32> = BTreeMap::new();
    let mut dec: BTreeMap<u128, u32> = BTreeMap::new();
    proof {
        lemma_empty_histogram();
    }
    let mut nonce: Vec<u8> = Vec::new();
    let mut i: usize = 0;
    while i < 12
        invariant
            i <= 12,
            nonce@ == Seq::new(i as nat, |t: int| 0x24u8),
        decreases 12 - i,
    {
        nonce.push(0x24);
        i = i + 1;
        assert(nonce@ =~= Seq::new(i as nat, |t: int| 0x24u8));
    }
    let len: u64 = message.len() as u64;
    let mut k: u32 = 0;
    while k < nkeys
        invariant
            k <= nkeys,
            nkeys * nloops <= u32::MAX,
            nonce@.len() == 12,
            len == message@.len(),
            sample_count(enc@) == k * nloops,
            sample_count(dec@) == k * nloops,
            k > 0 ==> chacha20_bench_fits(message@.len(), nloops as nat),
        decreases nkeys - k,
    {
        proof {
            assert(k * nloops + nloops <= nkeys * nloops) by (nonlinear_arith)
                requires
                    k < nkeys,
            ;
        }
        let key = random_bytes(rng, 32);
        let mut position: u64 = 0;
        let mut j: u32 = 0;
        while j < nloops
            invariant
                j <= nloops,
                k < nkeys,
                key@.len() == 32,
                nonce@.len() == 12,
                len == message@.len(),
                position == (if j == 0 { 0 } else { len }),
                chacha20_bench_fits(message@.len(), j as nat),
                k * nloops + nloops <= nkeys * nloops,
                nkeys * nloops <= u32::MAX,
                sample_count(enc@) == k * nloops + j,
                sample_count(dec@) == k * nloops + j,
            decreases nloops - j,
        {
            let start = instant_now();
            let ciphertext = match chacha20_encrypt(key.as_slice(), nonce.as_slice(), position, message) {
                Some(c) => c,
                None => {
                    return None;
                },
            };
            let d = micros_since(&start);
            record_value(&mut enc, d);
            let start = instant_now();
            let _ = chacha20_encrypt(key.as_slice(), nonce.as_slice(), 0, ciphertext.as_slice());
            let d = micros_since(&start);
            record_value(&mut dec, d);
            position = len;
            j = j + 1;
        }
        k = k + 1;
        assert(sample_count(enc@) == k * nloops && sample_count(dec@) == k * nloops) by (nonlinear_arith)
            requires
                sample_count(enc@) == (k - 1) * nloops + nloops,
                sample_count(dec@) == (k - 1) * nloops + nloops,
        ;
    }
    Some((enc, dec))
}

/// ChaCha20 encryption (or decryption: the two are the same) of a copy of
/// `message`, with the keystream for `key` and `nonce` from byte
/// `position` on; `None` exactly when the key is not 32 bytes, the nonce not
/// 12, or the keystream ends before the message does.
pub fn chacha20_encrypt(key: &[u8], nonce: &[u8], position: u64, message: &[u8]) -> (r: Option<Vec<u8>>)
    ensures
        r is Some <==> (key@.len() == 32 && nonce@.len() == 12 && position + message@.len()
            <= CHACHA20_KEYSTREAM_LEN),
        r matches Some(c) ==> c@ == xor_bytes(message@, chacha20_keystream(key@, nonce@, position as nat, message@.len())),
{
    let mut buf = copy_bytes(message);
    if chacha20_apply(key, nonce, position, &mut buf) {
        Some(buf)
    } else {
        None
    }
}

/// Encrypting with ChaCha20 at a position and decrypting at the same
/// position gives the message back; `None` exactly when `chacha20_encrypt`
/// fails on these arguments.
pub fn chacha20_round_trip(key: &[u8], nonce: &[u8], position: u64, message: &[u8]) -> (r: Option<Vec<u8>>)
    ensures
        r matches Some(p) ==> p@ == message@,
        r is Some <==> (key@.len() == 32 && nonce@.len() == 12 && position + message@.len()
            <= CHACHA20_KEYSTREAM_LEN),
{
    let mut buf = copy_bytes(message);
    if !chacha20_apply(key, nonce, position, &mut buf) {
        return None;
    }
    if !chacha20_apply(key, nonce, position, &mut buf) {
        return None;
    }
    proof {
        lemma_xor_twice(message@, chacha20_keystream(key@, nonce@, position as nat, message@.len()));
    }
    Some(buf)
}

} // verus!
