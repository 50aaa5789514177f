//! Benchmarks of the post-quantum primitives: loops that time key
//! generation, signing and key exchange and record each duration, in
//! microseconds, in a latency histogram (see `stats`). The histograms go
//! back to the caller, which prints their statistics.
use vstd::prelude::*;
use std::collections::BTreeMap;
use std::time::Instant;
use crate::clock::{instant_now, micros_since, nanos_since};
use crate::crypto::{
    ml_dsa_44_generate, ml_dsa_44_sign, ml_dsa_44_verify, ml_dsa_87_generate, ml_dsa_87_sign, ml_dsa_87_verify,
    ml_kem_1024_decapsulate, ml_kem_1024_encapsulate, ml_kem_1024_generate, ml_kem_512_decapsulate,
    ml_kem_512_encapsulate, ml_kem_512_generate, ml_kem_768_decapsulate,
    ml_kem_768_encapsulate, ml_kem_768_generate, ml_kem_512_ek_of, ml_kem_768_ek_of, ml_kem_1024_ek_of, ml_kem_512_decaps,
    ml_kem_768_decaps, ml_kem_1024_decaps, ml_dsa_44_key_pair, ml_dsa_44_accepts, ml_dsa_87_key_pair,
    ml_dsa_87_accepts, SHARED_SECRET_LEN, ML_KEM_SEED_LEN,
};
use rand::rngs::StdRng;
use crate::primitives::{saber_decapsulate, saber_decaps, saber_encapsulate, saber_key_pair, saber_keypair};
use crate::decimal::{decimal, u128_to_decimal, u64_to_padded_decimal, zero_padded};
use crate::text::{chars_of, string_from_chars};
use crate::stats::{count_sum, entries_of, lemma_entries_of_lists, lemma_record_adds_one, lists_in_order, record_sample, recorded};

verus! {

/// The number of samples in the histogram `m`.
pub open spec fn sample_count(m: Map<u128, u32>) -> nat {
    count_sum(entries_of(m))
}

proof fn lemma_count_sum_bounds_entry(s: Seq<(u128, u32)>, i: int)
    requires
        0 <= i < s.len(),
    ensures
        s[i].1 <= count_sum(s),
    decreases s.len(),
{
    if i < s.len() - 1 {
        lemma_count_sum_bounds_entry(s.drop_last(), i);
        assert(s.drop_last()[i] == s[i]);
    }
}

pub proof fn lemma_count_bounds_entry(m: Map<u128, u32>, k: u128)
    requires
        m.dom().finite(),
        m.contains_key(k),
    ensures
        m[k] <= sample_count(m),
{
    lemma_entries_of_lists(m);
    let s = entries_of(m);
    let i = choose|i: int| 0 <= i < s.len() && s[i].0 == k;
    lemma_count_sum_bounds_entry(s, i);
}

/// Records the microseconds since `start` as one more sample in `hist`.
pub fn record_elapsed(hist: &mut BTreeMap<u128, u32>, start: &Instant)
    requires
        sample_count(old(hist)@) < u32::MAX,
    ensures
        sample_count(final(hist)@) == sample_count(old(hist)@) + 1,
        exists|d: u128| final(hist)@ == #[trigger] recorded(old(hist)@, d),
{
    let d = micros_since(start);
    proof {
        vstd::std_specs::btree::axiom_btree_map_view_finite_dom(*hist);
        if hist@.contains_key(d) {
            lemma_count_bounds_entry(hist@, d);
        }
        lemma_record_adds_one(hist@, d);
    }
    record_sample(hist, d);
}

/// Signs `message` with a fresh ML-DSA-44 key pair and verifies the
/// signature with the public key, as a receiver would after the keys and
/// the signature travelled as bytes; `None` when key generation or signing
/// fails (which only the operating system's random source makes happen).
/// A signature made this way always verifies: the result is whether
/// ML-DSA-44 verification accepts the signature under the public key of the
/// pair that made it.
pub fn check_fips204(message: &[u8]) -> (r: Option<bool>)
    ensures
        r matches Some(v) ==> {
            &&& v
            &&& exists|pk: Seq<u8>, sk: Seq<u8>, sig: Seq<u8>|
                #![trigger ml_dsa_44_key_pair(pk, sk), ml_dsa_44_accepts(pk, message@, sig)]
                ml_dsa_44_key_pair(pk, sk) && v == ml_dsa_44_accepts(pk, message@, sig)
        },
{
    let (pk, sk) = match ml_dsa_44_generate() {
        Some(k) => k,
        None => {
            return None;
        },
    };
    let sig = match ml_dsa_44_sign(sk.as_slice(), message) {
        Some(s) => s,
        None => {
            return None;
        },
    };
    let v = ml_dsa_44_verify(pk.as_slice(), message, sig.as_slice());
    assert(ml_dsa_44_key_pair(pk@, sk@) && v == ml_dsa_44_accepts(pk@, message@, sig@));
    Some(v)
}

/// The ML-DSA-44 signing benchmark: for each of `nkeys` fresh key pairs,
/// the time to generate it, and for each of `nloops` signatures of
/// `message` with it, the time to sign. Returns the key-generation and the
/// signing histograms, with `nkeys` and `nkeys * nloops` samples; `None`
/// when key generation fails.
pub fn time_ml_dsa_44(message: &[u8], nkeys: u32, nloops: u32) -> (r: Option<(BTreeMap<u128, u32>, BTreeMap<u128, u32>)>)
    requires
        nkeys * nloops <= u32::MAX,
    ensures
        r matches Some((keys, signs)) ==> {
            &&& sample_count(keys@) == nkeys
            &&& sample_count(signs@) == nkeys * nloops
        },
        nkeys == 0 ==> r is Some,
{
    let mut key_hist: BTreeMap<u128, u32> = BTreeMap::new();
    let mut sign_hist: BTreeMap<u128, u32> = BTreeMap::new();
    proof {
        lemma_entries_of_empty();
    }
    let mut k: u32 = 0;
    while k < nkeys
        invariant
            k <= nkeys,
            nkeys * nloops <= u32::MAX,
            sample_count(key_hist@) == k,
            sample_count(sign_hist@) == k * nloops,
        decreases nkeys - k,
    {
        proof {
            assert(k * nloops + nloops <= nkeys * nloops) by (nonlinear_arith)
                requires
                    k < nkeys,
            ;
            assert(k < u32::MAX) by (nonlinear_arith)
                requires
                    k < nkeys,
                    nkeys * nloops <= u32::MAX,
                    k <= nkeys,
            ;
        }
        let start = instant_now();
        let (_, sk) = match ml_dsa_44_generate() {
            Some(p) => p,
            None => {
                return None;
            },
        };
        record_elapsed(&mut key_hist, &start);
        let mut j: u32 = 0;
        while j < nloops
            invariant
                j <= nloops,
                k < nkeys,
                k * nloops + nloops <= nkeys * nloops,
                nkeys * nloops <= u32::MAX,
                sample_count(sign_hist@) == k * nloops + j,
            decreases nloops - j,
        {
            let start = instant_now();
            let _ = ml_dsa_44_sign(sk.as_slice(), message);
            record_elapsed(&mut sign_hist, &start);
            j = j + 1;
        }
        k = k + 1;
        assert(sample_count(sign_hist@) == k * nloops) by (nonlinear_arith)
            requires
                sample_count(sign_hist@) == (k - 1) * nloops + nloops,
        ;
    }
    Some((key_hist, sign_hist))
}

proof fn lemma_entries_of_empty()
    ensures
        entries_of(Map::<u128, u32>::empty()) == Seq::<(u128, u32)>::empty(),
        sample_count(Map::<u128, u32>::empty()) == 0,
{
    assert(lists_in_order(Map::<u128, u32>::empty(), Seq::<(u128, u32)>::empty()));
    crate::stats::lemma_entries_of(Map::<u128, u32>::empty(), Seq::<(u128, u32)>::empty());
}

/// An ML-KEM parameter set.
#[derive(Clone, Copy, Debug, PartialEq, Eq)]
pub enum MlKemLevel {
    /// ML-KEM-512.
    MlKem512,
    /// ML-KEM-768.
    MlKem768,
    /// ML-KEM-1024.
    MlKem1024,
}

/// What decapsulation at `level` of `ct` with the key made from `seed`
/// gives.
pub open spec fn level_decaps(level: MlKemLevel, seed: Seq<u8>, ct: Seq<u8>) -> Seq<u8> {
    match level {
        MlKemLevel::MlKem512 => ml_kem_512_decaps(seed, ct),
        MlKemLevel::MlKem768 => ml_kem_768_decaps(seed, ct),
        MlKemLevel::MlKem1024 => ml_kem_1024_decaps(seed, ct),
    }
}

/// One ML-KEM key exchange at the given level, drawing from `rng`: a fresh
/// key pair, an encapsulation to its encapsulation key and the
/// decapsulation of the ciphertext. Returns the sender's and the
/// receiver's shared secrets: the receiver's is what decapsulation with
/// the key pair's seed gives, and the sender's equals it. A freshly
/// generated encapsulation key is always accepted, so the exchange always
/// succeeds.
pub fn ml_kem_exchange(level: MlKemLevel, rng: &mut StdRng) -> (r: Option<(Vec<u8>, Vec<u8>)>)
    ensures
        r is Some,
        r matches Some((sent, received)) ==> {
            &&& sent@ == received@
            &&& sent@.len() == SHARED_SECRET_LEN
            &&& exists|seed: Seq<u8>, ct: Seq<u8>|
                seed.len() == ML_KEM_SEED_LEN && #[trigger] level_decaps(level, seed, ct) == received@
        },
{
    match level {
        MlKemLevel::MlKem512 => {
            let (seed, ek) = ml_kem_512_generate(rng);
            assert(ml_kem_512_ek_of(seed@) == ek@);
            let (ct, sent) = match ml_kem_512_encapsulate(ek.as_slice(), rng) {
                Some(p) => p,
                None => {
                    return None;
                },
            };
            match ml_kem_512_decapsulate(seed.as_slice(), ct.as_slice()) {
                Some(received) => {
                    assert(level_decaps(level, seed@, ct@) == received@);
                    Some((sent, received))
                },
                None => None,
            }
        },
        MlKemLevel::MlKem768 => {
            let (seed, ek) = ml_kem_768_generate(rng);
            assert(ml_kem_768_ek_of(seed@) == ek@);
            let (ct, sent) = match ml_kem_768_encapsulate(ek.as_slice(), rng) {
                Some(p) => p,
                None => {
                    return None;
                },
            };
            match ml_kem_768_decapsulate(seed.as_slice(), ct.as_slice()) {
                Some(received) => {
                    assert(level_decaps(level, seed@, ct@) == received@);
                    Some((sent, received))
                },
                None => None,
            }
        },
        MlKemLevel::MlKem1024 => {
            let (seed, ek) = ml_kem_1024_generate(rng);
            assert(ml_kem_1024_ek_of(seed@) == ek@);
            let (ct, sent) = match ml_kem_1024_encapsulate(ek.as_slice(), rng) {
                Some(p) => p,
                None => {
                    return None;
                },
            };
            match ml_kem_1024_decapsulate(seed.as_slice(), ct.as_slice()) {
                Some(received) => {
                    assert(level_decaps(level, seed@, ct@) == received@);
                    Some((sent, received))
                },
                None => None,
            }
        },
    }
}

/// The ML-KEM benchmark at one level: `nloops` timed key exchanges,
/// drawing from `rng`, each recorded in the returned histogram.
pub fn time_ml_kem(level: MlKemLevel, nloops: u32, rng: &mut StdRng) -> (hist: BTreeMap<u128, u32>)
    ensures
        sample_count(hist@) == nloops,
{
    let mut hist: BTreeMap<u128, u32> = BTreeMap::new();
    proof {
        lemma_entries_of_empty();
    }
    let mut i: u32 = 0;
    while i < nloops
        invariant
            i <= nloops,
            sample_count(hist@) == i,
        decreases nloops - i,
    {
        let start = instant_now();
        let _ = ml_kem_exchange(level, rng);
        record_elapsed(&mut hist, &start);
        i = i + 1;
    }
    hist
}

/// The ML-KEM benchmark at the three levels, 512, 768 and 1024, each with
/// `nloops` timed key exchanges drawing from `rng`.
pub fn check_fips203(nloops: u32, rng: &mut StdRng) -> (r: (BTreeMap<u128, u32>, BTreeMap<u128, u32>, BTreeMap<u128, u32>))
    ensures
        sample_count(r.0@) == nloops,
        sample_count(r.1@) == nloops,
        sample_count(r.2@) == nloops,
{
    let a = time_ml_kem(MlKemLevel::MlKem512, nloops, rng);
    let b = time_ml_kem(MlKemLevel::MlKem768, nloops, rng);
    let c = time_ml_kem(MlKemLevel::MlKem1024, nloops, rng);
    (a, b, c)
}


/// The number of blocks of `block_len` bytes that hold `len` bytes.
pub open spec fn block_count(len: nat, block_len: nat) -> nat {
    if len % block_len != 0 {
        len / block_len + 1
    } else {
        len / block_len
    }
}

/// The `i`-th block of `block_len` bytes of `message`, padded with zeros.
pub open spec fn message_block(message: Seq<u8>, block_len: nat, i: int) -> Seq<u8> {
    Seq::new(block_len, |j: int| if i * block_len + j < message.len() { message[i * block_len + j] } else { 0u8 })
}

/// The message cut into blocks of `block_len` bytes (the NTRU plaintext
/// size), the last one padded with zeros.
pub fn message_blocks(message: &[u8], block_len: usize) -> (r: Vec<Vec<u8>>)
    requires
        block_len > 0,
        message@.len() + block_len <= usize::MAX,
    ensures
        r@.len() == block_count(message@.len() as nat, block_len as nat),
        forall|i: int| 0 <= i < r@.len() ==> #[trigger] r@[i]@ == message_block(message@, block_len as nat, i),
{
    let n = message.len();
    let x: usize = if n % block_len != 0 { n / block_len + 1 } else { n / block_len };
    proof {
        let q = n as int / block_len as int;
        vstd::arithmetic::div_mod::lemma_fundamental_div_mod(n as int, block_len as int);
        assert(x * block_len <= n + block_len) by (nonlinear_arith)
            requires
                n as int == block_len * q + n as int % block_len as int,
                0 <= n as int % block_len as int,
                x == q || x == q + 1,
                block_len > 0,
        ;
    }
    let mut rows: Vec<Vec<u8>> = Vec::new();
    let mut i: usize = 0;
    while i < x
        invariant
            block_len > 0,
            n == message@.len(),
            n + block_len <= usize::MAX,
            x == block_count(n as nat, block_len as nat),
            x * block_len <= n + block_len,
            i <= x,
            rows@.len() == i,
            forall|k: int| 0 <= k < i ==> #[trigger] rows@[k]@ == message_block(message@, block_len as nat, k),
        decreases x - i,
    {
        assert(i * block_len + block_len <= x * block_len) by (nonlinear_arith)
            requires
                i < x,
        ;
        let start = i * block_len;
        let mut row: Vec<u8> = Vec::new();
        let mut j: usize = 0;
        while j < block_len
            invariant
                block_len > 0,
                n == message@.len(),
                n + block_len <= usize::MAX,
                start == i * block_len,
                start + block_len <= n + block_len,
                j <= block_len,
                row@.len() == j,
                forall|t: int| 0 <= t < j ==> #[trigger] row@[t] == if i * block_len + t < n {
                    message@[i * block_len + t]
                } else {
                    0u8
                },
            decreases block_len - j,
        {
            if start + j < n {
                row.push(message[start + j]);
            } else {
                row.push(0);
            }
            j = j + 1;
        }
        assert(row@ =~= message_block(message@, block_len as nat, i as int));
        rows.push(row);
        i = i + 1;
    }
    rows
}

/// A total time in milliseconds split into hours, minutes, seconds and
/// milliseconds.
pub open spec fn time_parts(total_ms: nat) -> (nat, nat, nat, nat) {
    (total_ms / 3600000, (total_ms % 3600000) / 60000, (total_ms % 60000) / 1000, total_ms % 1000)
}

/// Splits a total time in milliseconds into hours, minutes (below 60),
/// seconds (below 60) and milliseconds (below 1000); together they make up
/// the total.
pub fn split_total_time(total_ms: u128) -> (r: (u128, u128, u128, u128))
    ensures
        (r.0 as nat, r.1 as nat, r.2 as nat, r.3 as nat) == time_parts(total_ms as nat),
        r.1 < 60,
        r.2 < 60,
        r.3 < 1000,
        r.0 * 3600000 + r.1 * 60000 + r.2 * 1000 + r.3 == total_ms,
{
    let hours = total_ms / 3600000;
    let minutes = (total_ms % 3600000) / 60000;
    let seconds = (total_ms % 60000) / 1000;
    let millis = total_ms % 1000;
    proof {
        let t = total_ms as int;
        assert(t == (t / 3600000) * 3600000 + ((t % 3600000) / 60000) * 60000 + ((t % 60000) / 1000) * 1000
            + t % 1000) by (nonlinear_arith)
            requires
                t >= 0,
        {
            vstd::arithmetic::div_mod::lemma_fundamental_div_mod(t, 3600000);
            vstd::arithmetic::div_mod::lemma_fundamental_div_mod(t % 3600000, 60000);
            vstd::arithmetic::div_mod::lemma_mod_mod(t, 60000, 60);
            vstd::arithmetic::div_mod::lemma_fundamental_div_mod(t % 60000, 1000);
            vstd::arithmetic::div_mod::lemma_mod_mod(t, 1000, 60);
            vstd::arithmetic::div_mod::lemma_fundamental_div_mod(t % 3600000 % 60000, 1000);
        }
    }
    (hours, minutes, seconds, millis)
}


/// The report line of a benchmark's total running time, as
/// `Total time: [<h> hours, ][<m> minutes, ]<s>.<ms> seconds`, the hours
/// shown when there are any and the minutes when there are hours or
/// minutes, the milliseconds as three digits.
pub open spec fn total_time_text(total_ms: nat) -> Seq<char> {
    let p = time_parts(total_ms);
    let secs = decimal(p.2) + "."@ + zero_padded(decimal(p.3), 3) + " seconds"@;
    if p.0 == 0 && p.1 == 0 {
        "Total time: "@ + secs
    } else if p.0 == 0 {
        "Total time: "@ + decimal(p.1) + " minutes, "@ + secs
    } else {
        "Total time: "@ + decimal(p.0) + " hours, "@ + decimal(p.1) + " minutes, "@ + secs
    }
}

fn push_text(out: &mut Vec<char>, s: &str)
    ensures
        final(out)@ == old(out)@ + s@,
{
    let mut c = chars_of(s);
    out.append(&mut c);
}

/// The report line of a benchmark's total running time (see
/// `total_time_text`).
pub fn total_time_report(total_ms: u128) -> (s: String)
    ensures
        s@ == total_time_text(total_ms as nat),
{
    let (hours, minutes, seconds, millis) = split_total_time(total_ms);
    let mut out: Vec<char> = Vec::new();
    push_text(&mut out, "Total time: ");
    if hours != 0 {
        let h = u128_to_decimal(hours);
        push_text(&mut out, h.as_str());
        push_text(&mut out, " hours, ");
    }
    if hours != 0 || minutes != 0 {
        let m = u128_to_decimal(minutes);
        push_text(&mut out, m.as_str());
        push_text(&mut out, " minutes, ");
    }
    let sec = u128_to_decimal(seconds);
    push_text(&mut out, sec.as_str());
    push_text(&mut out, ".");
    let ms = u64_to_padded_decimal(millis as u64, 3);
    push_text(&mut out, ms.as_str());
    push_text(&mut out, " seconds");
    assert(out@ =~= total_time_text(total_ms as nat));
    string_from_chars(out)
}


/// Total times, in nanoseconds, of the three loops of the ML-DSA-87
/// benchmark, and whether the final signature verified.
pub struct MlDsaTimings {
    /// Time of all key generations.
    pub keygen_nanos: u128,
    /// Time of all signatures.
    pub sign_nanos: u128,
    /// Time of all verifications (each decodes the public key first).
    pub verify_nanos: u128,
    /// Whether the signature verified under the public key.
    pub verified: bool,
}

/// The ML-DSA-87 benchmark: with one key pair, `iterations` key
/// generations, `iterations` signatures of `message` and `iterations`
/// verifications of one signature, each loop timed as a whole; then the
/// signature is verified once more. `None` when the first key generation
/// or the signature fails (which only the operating system's random source
/// makes happen). The signature always verifies: `verified` is whether
/// ML-DSA-87 verification accepts it under the public key of the pair
/// that made it.
pub fn time_ml_dsa_87(message: &[u8], iterations: usize) -> (r: Option<MlDsaTimings>)
    ensures
        r matches Some(t) ==> {
            &&& t.verified
            &&& exists|pk: Seq<u8>, sk: Seq<u8>, sig: Seq<u8>|
                #![trigger ml_dsa_87_key_pair(pk, sk), ml_dsa_87_accepts(pk, message@, sig)]
                ml_dsa_87_key_pair(pk, sk) && t.verified == ml_dsa_87_accepts(pk, message@, sig)
        },
{
    let (pk, sk) = match ml_dsa_87_generate() {
        Some(k) => k,
        None => {
            return None;
        },
    };
    let start = instant_now();
    let mut i: usize = 0;
    while i < iterations
        invariant
            i <= iterations,
        decreases iterations - i,
    {
        let _ = ml_dsa_87_generate();
        i = i + 1;
    }
    let keygen_nanos = nanos_since(&start);
    let start = instant_now();
    let mut i: usize = 0;
    while i < iterations
        invariant
            i <= iterations,
        decreases iterations - i,
    {
        let _ = ml_dsa_87_sign(sk.as_slice(), message);
        i = i + 1;
    }
    let sign_nanos = nanos_since(&start);
    let sig = match ml_dsa_87_sign(sk.as_slice(), message) {
        Some(s) => s,
        None => {
            return None;
        },
    };
    let start = instant_now();
    let mut i: usize = 0;
    while i < iterations
        invariant
            i <= iterations,
        decreases iterations - i,
    {
        let _ = ml_dsa_87_verify(pk.as_slice(), message, sig.as_slice());
        i = i + 1;
    }
    let verify_nanos = nanos_since(&start);
    let verified = ml_dsa_87_verify(pk.as_slice(), message, sig.as_slice());
    assert(ml_dsa_87_key_pair(pk@, sk@) && verified == ml_dsa_87_accepts(pk@, message@, sig@));
    Some(MlDsaTimings { keygen_nanos, sign_nanos, verify_nanos, verified })
}


/// One LightSaber key exchange, key generation and encapsulation each with
/// a fresh generator state of the crate: a key pair,
/// an encapsulation to its public key and the decapsulation of the
/// ciphertext. Returns the sender's and the receiver's shared secrets,
/// which are equal. No step reports an error on keys and buffers of the
/// crate's lengths, so the exchange always succeeds. The receiver's secret
/// is what decapsulation with the pair's secret key gives.
pub fn lightsaber_exchange() -> (r: Option<(Vec<u8>, Vec<u8>)>)
    ensures
        r is Some,
        r matches Some((sent, received)) ==> {
            &&& sent@ == received@
            &&& exists|pk: Seq<u8>, sk: Seq<u8>, ct: Seq<u8>|
                #![trigger saber_key_pair(pk, sk), saber_decaps(sk, ct)]
                saber_key_pair(pk, sk) && received@ == saber_decaps(sk, ct)
        },
{
    let (pk, sk) = match saber_keypair() {
        Some(k) => k,
        None => {
            return None;
        },
    };
    let (ct, sent) = match saber_encapsulate(pk.as_slice()) {
        Some(p) => p,
        None => {
            return None;
        },
    };
    match saber_decapsulate(ct.as_slice(), sk.as_slice()) {
        Some(received) => {
            assert(saber_key_pair(pk@, sk@) && received@ == saber_decaps(sk@, ct@));
            Some((sent, received))
        },
        None => None,
    }
}

/// The LightSaber benchmark: `nloops` timed key exchanges, each recorded,
/// in microseconds, in the returned histogram. Every exchange succeeds, so
/// the histogram is always returned.
pub fn time_lightsaber(nloops: u32) -> (r: Option<BTreeMap<u128, u32>>)
    ensures
        r is Some,
        r matches Some(hist) ==> sample_count(hist@) == nloops,
{
    let mut hist: BTreeMap<u128, u32> = BTreeMap::new();
    proof {
        lemma_entries_of_empty();
    }
    let mut i: u32 = 0;
    while i < nloops
        invariant
            i <= nloops,
            sample_count(hist@) == i,
        decreases nloops - i,
    {
        let start = instant_now();
        if lightsaber_exchange().is_none() {
            return None;
        }
        record_elapsed(&mut hist, &start);
        i = i + 1;
    }
    Some(hist)
}

} // verus!
