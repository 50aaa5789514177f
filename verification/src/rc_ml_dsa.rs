//! The ML-DSA benchmark over the RustCrypto `ml-dsa` crate, beside the
//! `fips204` one in `bench`. Keys and signatures travel as bytes: the
//! signing key as its 32-byte seed, the verifying key and the signature as
//! their encodings. Each signature and each verification therefore decodes
//! its key from those bytes first, and the timings include that decoding.
//!
//! `ml-dsa` signs deterministically (empty context), so a signature is a
//! function of the seed and the message; it is named by an uninterpreted
//! spec function, as are the verifying key of a seed and the verdict of
//! verification.
use vstd::prelude::*;
use ml_dsa::{EncodedVerifyingKey, Generate, Keypair, KeyExport, Signature, Signer, SigningKey, Verifier, VerifyingKey};
use ml_dsa::{MlDsa44, MlDsa87};
use rand::rngs::StdRng;
use crate::clock::{instant_now, nanos_since, read_timer};

verus! {

/// Length of an `ml-dsa` signing-key seed, in bytes.
pub const RC_ML_DSA_SEED_LEN: usize = 32;

/// Total times of the three loops of the `ml-dsa` benchmark, in
/// nanoseconds and in ticks of `read_timer`, and whether the final
/// signature verified.
pub struct RcMlDsaTimings {
    /// Time of all key generations.
    pub keygen_nanos: u128,
    /// Ticks of all key generations.
    pub keygen_ticks: u64,
    /// Time of all signatures.
    pub sign_nanos: u128,
    /// Ticks of all signatures.
    pub sign_ticks: u64,
    /// Time of all verifications.
    pub verify_nanos: u128,
    /// Ticks of all verifications.
    pub verify_ticks: u64,
    /// Whether the signature verified under the verifying key.
    pub verified: bool,
}

/// The encoded ML-DSA-44 verifying key that `ml-dsa` derives from a
/// signing-key seed.
pub uninterp spec fn rc_ml_dsa_44_vk_of(seed: Seq<u8>) -> Seq<u8>;

/// The encoded signature that `ml-dsa`'s deterministic ML-DSA-44 signing
/// (empty context) gives with the key of `seed` on `message`; `None` when
/// the signing loop gives up.
pub uninterp spec fn rc_ml_dsa_44_signature(seed: Seq<u8>, message: Seq<u8>) -> Option<Seq<u8>>;

/// Whether `ml-dsa` accepts the encoded signature on `message` under the
/// encoded ML-DSA-44 verifying key (false when either does not decode).
pub uninterp spec fn rc_ml_dsa_44_accepts(verifying_key: Seq<u8>, message: Seq<u8>, signature: Seq<u8>) -> bool;

/// Trusted: `SigningKey::<MlDsa44>::generate_from_rng` with the given standard
/// generator (which never fails), then `to_seed` and the encoding of
/// `verifying_key()`. Returns the seed and the verifying key that belongs
/// to it.
#[verifier::external_body]
fn rc_ml_dsa_44_generate(rng: &mut StdRng) -> (r: (Vec<u8>, Vec<u8>))
    ensures
        r.0@.len() == RC_ML_DSA_SEED_LEN,
        r.1@ == rc_ml_dsa_44_vk_of(r.0@),
{
    let sk = SigningKey::<MlDsa44>::generate_from_rng(rng);
    (sk.to_bytes().to_vec(), sk.verifying_key().encode().to_vec())
}

/// Trusted: `SigningKey::<MlDsa44>::from_seed`, then `Signer::try_sign` and the
/// signature's encoding; `None` when the seed is not 32 bytes or signing
/// fails. `ml-dsa` documents its `Signer` as deterministic, and its tests
/// check that such a signature verifies under the key's verifying key.
#[verifier::external_body]
fn rc_ml_dsa_44_sign(seed: &[u8], message: &[u8]) -> (r: Option<Vec<u8>>)
    ensures
        seed@.len() != RC_ML_DSA_SEED_LEN ==> r is None,
        seed@.len() == RC_ML_DSA_SEED_LEN ==> match r {
            Some(s) => rc_ml_dsa_44_signature(seed@, message@) == Some(s@),
            None => rc_ml_dsa_44_signature(seed@, message@) is None,
        },
        r matches Some(s) ==> rc_ml_dsa_44_accepts(rc_ml_dsa_44_vk_of(seed@), message@, s@),
{
    let s = match ml_dsa::Seed::try_from(seed) { Ok(s) => s, Err(_) => return None };
    match SigningKey::<MlDsa44>::from_seed(&s).try_sign(message) {
        Ok(sig) => Some(sig.encode().to_vec()),
        Err(_) => None,
    }
}

/// Trusted: `VerifyingKey::<MlDsa44>::decode` of the key bytes and
/// `Signature::try_from` of the signature bytes, then `Verifier::verify`;
/// `false` when either has the wrong length or the signature does not
/// decode.
#[verifier::external_body]
fn rc_ml_dsa_44_verify(verifying_key: &[u8], message: &[u8], signature: &[u8]) -> (r: bool)
    ensures
        r == rc_ml_dsa_44_accepts(verifying_key@, message@, signature@),
{
    let enc = match EncodedVerifyingKey::<MlDsa44>::try_from(verifying_key) { Ok(e) => e, Err(_) => return false };
    let sig = match Signature::<MlDsa44>::try_from(signature) { Ok(s) => s, Err(_) => return false };
    VerifyingKey::<MlDsa44>::decode(&enc).verify(message, &sig).is_ok()
}

/// The `ml-dsa` ML-DSA-44 benchmark: with one key pair drawn from `rng`,
/// `iterations` key generations, `iterations` signatures of `message` and
/// `iterations` verifications of one signature, each loop timed as a whole
/// (in nanoseconds and in `read_timer` ticks); then the signature is
/// verified once more. `None` when signing `message` with the key pair
/// fails (deterministically, for that seed and message). A signature that
/// was made always verifies under the pair's verifying key.
pub fn time_ml_dsa_rustcrypto_44(message: &[u8], iterations: usize, rng: &mut StdRng) -> (r: Option<RcMlDsaTimings>)
    ensures
        r matches Some(t) ==> {
            &&& t.verified
            &&& exists|seed: Seq<u8>|
                seed.len() == RC_ML_DSA_SEED_LEN && (#[trigger] rc_ml_dsa_44_signature(seed, message@) matches Some(
                    sig,
                ) && t.verified == rc_ml_dsa_44_accepts(rc_ml_dsa_44_vk_of(seed), message@, sig))
        },
        r is None ==> exists|seed: Seq<u8>|
            seed.len() == RC_ML_DSA_SEED_LEN && #[trigger] rc_ml_dsa_44_signature(seed, message@) is None,
{
    let (seed, vk) = rc_ml_dsa_44_generate(rng);
    let start = instant_now();
    let start_ticks = read_timer();
    let mut i: usize = 0;
    while i < iterations
        invariant
            i <= iterations,
        decreases iterations - i,
    {
        let _ = rc_ml_dsa_44_generate(rng);
        i = i + 1;
    }
    let keygen_ticks = read_timer().wrapping_sub(start_ticks);
    let keygen_nanos = nanos_since(&start);
    let start = instant_now();
    let start_ticks = read_timer();
    let mut i: usize = 0;
    while i < iterations
        invariant
            i <= iterations,
        decreases iterations - i,
    {
        let _ = rc_ml_dsa_44_sign(seed.as_slice(), message);
        i = i + 1;
    }
    let sign_ticks = read_timer().wrapping_sub(start_ticks);
    let sign_nanos = nanos_since(&start);
    let sig = match rc_ml_dsa_44_sign(seed.as_slice(), message) {
        Some(s) => s,
        None => {
            assert(rc_ml_dsa_44_signature(seed@, message@) is None);
            return None;
        },
    };
    let start = instant_now();
    let start_ticks = read_timer();
    let mut i: usize = 0;
    while i < iterations
        invariant
            i <= iterations,
        decreases iterations - i,
    {
        let _ = rc_ml_dsa_44_verify(vk.as_slice(), message, sig.as_slice());
        i = i + 1;
    }
    let verify_ticks = read_timer().wrapping_sub(start_ticks);
    let verify_nanos = nanos_since(&start);
    let verified = rc_ml_dsa_44_verify(vk.as_slice(), message, sig.as_slice());
    assert(rc_ml_dsa_44_signature(seed@, message@) == Some(sig@));
    Some(RcMlDsaTimings { keygen_nanos, keygen_ticks, sign_nanos, sign_ticks, verify_nanos, verify_ticks, verified })
}

/// The encoded ML-DSA-87 verifying key that `ml-dsa` derives from a
/// signing-key seed.
pub uninterp spec fn rc_ml_dsa_87_vk_of(seed: Seq<u8>) -> Seq<u8>;

/// The encoded signature that `ml-dsa`'s deterministic ML-DSA-87 signing
/// (empty context) gives with the key of `seed` on `message`; `None` when
/// the signing loop gives up.
pub uninterp spec fn rc_ml_dsa_87_signature(seed: Seq<u8>, message: Seq<u8>) -> Option<Seq<u8>>;

/// Whether `ml-dsa` accepts the encoded signature on `message` under the
/// encoded ML-DSA-87 verifying key (false when either does not decode).
pub uninterp spec fn rc_ml_dsa_87_accepts(verifying_key: Seq<u8>, message: Seq<u8>, signature: Seq<u8>) -> bool;

/// Trusted: `SigningKey::<MlDsa87>::generate_from_rng` with the given standard
/// generator (which never fails), then `to_seed` and the encoding of
/// `verifying_key()`. Returns the seed and the verifying key that belongs
/// to it.
#[verifier::external_body]
fn rc_ml_dsa_87_generate(rng: &mut StdRng) -> (r: (Vec<u8>, Vec<u8>))
    ensures
        r.0@.len() == RC_ML_DSA_SEED_LEN,
        r.1@ == rc_ml_dsa_87_vk_of(r.0@),
{
    let sk = SigningKey::<MlDsa87>::generate_from_rng(rng);
    (sk.to_bytes().to_vec(), sk.verifying_key().encode().to_vec())
}

/// Trusted: `SigningKey::<MlDsa87>::from_seed`, then `Signer::try_sign` and the
/// signature's encoding; `None` when the seed is not 32 bytes or signing
/// fails. `ml-dsa` documents its `Signer` as deterministic, and its tests
/// check that such a signature verifies under the key's verifying key.
#[verifier::external_body]
fn rc_ml_dsa_87_sign(seed: &[u8], message: &[u8]) -> (r: Option<Vec<u8>>)
    ensures
        seed@.len() != RC_ML_DSA_SEED_LEN ==> r is None,
        seed@.len() == RC_ML_DSA_SEED_LEN ==> match r {
            Some(s) => rc_ml_dsa_87_signature(seed@, message@) == Some(s@),
            None => rc_ml_dsa_87_signature(seed@, message@) is None,
        },
        r matches Some(s) ==> rc_ml_dsa_87_accepts(rc_ml_dsa_87_vk_of(seed@), message@, s@),
{
    let s = match ml_dsa::Seed::try_from(seed) { Ok(s) => s, Err(_) => return None };
    match SigningKey::<MlDsa87>::from_seed(&s).try_sign(message) {
        Ok(sig) => Some(sig.encode().to_vec()),
        Err(_) => None,
    }
}

/// Trusted: `VerifyingKey::<MlDsa87>::decode` of the key bytes and
/// `Signature::try_from` of the signature bytes, then `Verifier::verify`;
/// `false` when either has the wrong length or the signature does not
/// decode.
#[verifier::external_body]
fn rc_ml_dsa_87_verify(verifying_key: &[u8], message: &[u8], signature: &[u8]) -> (r: bool)
    ensures
        r == rc_ml_dsa_87_accepts(verifying_key@, message@, signature@),
{
    let enc = match EncodedVerifyingKey::<MlDsa87>::try_from(verifying_key) { Ok(e) => e, Err(_) => return false };
    let sig = match Signature::<MlDsa87>::try_from(signature) { Ok(s) => s, Err(_) => return false };
    VerifyingKey::<MlDsa87>::decode(&enc).verify(message, &sig).is_ok()
}

/// The `ml-dsa` ML-DSA-87 benchmark: with one key pair drawn from `rng`,
/// `iterations` key generations, `iterations` signatures of `message` and
/// `iterations` verifications of one signature, each loop timed as a whole
/// (in nanoseconds and in `read_timer` ticks); then the signature is
/// verified once more. `None` when signing `message` with the key pair
/// fails (deterministically, for that seed and message). A signature that
/// was made always verifies under the pair's verifying key.
pub fn time_ml_dsa_rustcrypto_87(message: &[u8], iterations: usize, rng: &mut StdRng) -> (r: Option<RcMlDsaTimings>)
    ensures
        r matches Some(t) ==> {
            &&& t.verified
            &&& exists|seed: Seq<u8>|
                seed.len() == RC_ML_DSA_SEED_LEN && (#[trigger] rc_ml_dsa_87_signature(seed, message@) matches Some(
                    sig,
                ) && t.verified == rc_ml_dsa_87_accepts(rc_ml_dsa_87_vk_of(seed), message@, sig))
        },
        r is None ==> exists|seed: Seq<u8>|
            seed.len() == RC_ML_DSA_SEED_LEN && #[trigger] rc_ml_dsa_87_signature(seed, message@) is None,
{
    let (seed, vk) = rc_ml_dsa_87_generate(rng);
    let start = instant_now();
    let start_ticks = read_timer();
    let mut i: usize = 0;
    while i < iterations
        invariant
            i <= iterations,
        decreases iterations - i,
    {
        let _ = rc_ml_dsa_87_generate(rng);
        i = i + 1;
    }
    let keygen_ticks = read_timer().wrapping_sub(start_ticks);
    let keygen_nanos = nanos_since(&start);
    let start = instant_now();
    let start_ticks = read_timer();
    let mut i: usize = 0;
    while i < iterations
        invariant
            i <= iterations,
        decreases iterations - i,
    {
        let _ = rc_ml_dsa_87_sign(seed.as_slice(), message);
        i = i + 1;
    }
    let sign_ticks = read_timer().wrapping_sub(start_ticks);
    let sign_nanos = nanos_since(&start);
    let sig = match rc_ml_dsa_87_sign(seed.as_slice(), message) {
        Some(s) => s,
        None => {
            assert(rc_ml_dsa_87_signature(seed@, message@) is None);
            return None;
        },
    };
    let start = instant_now();
    let start_ticks = read_timer();
    let mut i: usize = 0;
    while i < iterations
        invariant
            i <= iterations,
        decreases iterations - i,
    {
        let _ = rc_ml_dsa_87_verify(vk.as_slice(), message, sig.as_slice());
        i = i + 1;
    }
    let verify_ticks = read_timer().wrapping_sub(start_ticks);
    let verify_nanos = nanos_since(&start);
    let verified = rc_ml_dsa_87_verify(vk.as_slice(), message, sig.as_slice());
    assert(rc_ml_dsa_87_signature(seed@, message@) == Some(sig@));
    Some(RcMlDsaTimings { keygen_nanos, keygen_ticks, sign_nanos, sign_ticks, verify_nanos, verify_ticks, verified })
}

} // verus!
