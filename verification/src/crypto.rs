//! The cryptographic primitives that the link uses, each behind a trusted
//! item: AES in ECB mode with PKCS#7 padding (`soft-aes`), ML-DSA-44 and
//! ML-DSA-87 signatures (`fips204`), ML-KEM-512 key encapsulation
//! (`ml-kem`), random bytes (`rand`) and UTF-8 decoding (std).
//!
//! Keys, signatures and ciphertexts travel as plain byte vectors. What a
//! primitive computes is named by an uninterpreted spec function; the only
//! facts stated beside the names are the ones that the crates' sources and
//! documentation show.
use vstd::prelude::*;
use vstd::utf8::{decode_utf8, valid_utf8};
use fips204::traits::{KeyGen, SerDes, Signer, Verifier};
use fips204::{ml_dsa_44, ml_dsa_87};
use ml_kem::{Decapsulate, Encapsulate, Kem, KeyExport, MlKem1024, MlKem512, MlKem768};
use rand::rngs::{StdRng, SysRng};
use rand::{SeedableRng, TryRng};

verus! {

/// Length of an ML-DSA-44 public key, in bytes.
pub const ML_DSA_44_PK_LEN: usize = 1312;
/// Length of an ML-DSA-44 private key, in bytes.
pub const ML_DSA_44_SK_LEN: usize = 2560;
/// Length of an ML-DSA-44 signature, in bytes.
pub const ML_DSA_44_SIG_LEN: usize = 2420;
/// Length of an ML-DSA-87 public key, in bytes.
pub const ML_DSA_87_PK_LEN: usize = 2592;
/// Length of an ML-DSA-87 private key, in bytes.
pub const ML_DSA_87_SK_LEN: usize = 4896;
/// Length of an ML-DSA-87 signature, in bytes.
pub const ML_DSA_87_SIG_LEN: usize = 4627;
/// Length of an ML-KEM decapsulation-key seed, in bytes.
pub const ML_KEM_SEED_LEN: usize = 64;
/// Length of an ML-KEM-512 encapsulation key, in bytes.
pub const ML_KEM_512_EK_LEN: usize = 800;
/// Length of an ML-KEM-512 ciphertext, in bytes.
pub const ML_KEM_512_CT_LEN: usize = 768;
/// Length of an ML-KEM-768 encapsulation key, in bytes.
pub const ML_KEM_768_EK_LEN: usize = 1184;
/// Length of an ML-KEM-768 ciphertext, in bytes.
pub const ML_KEM_768_CT_LEN: usize = 1088;
/// Length of an ML-KEM-1024 encapsulation key, in bytes.
pub const ML_KEM_1024_EK_LEN: usize = 1568;
/// Length of an ML-KEM-1024 ciphertext, in bytes.
pub const ML_KEM_1024_CT_LEN: usize = 1568;
/// Length of an ML-KEM shared secret, in bytes.
pub const SHARED_SECRET_LEN: usize = 32;

/// Whether `n` is an AES key length (AES-128, AES-192 or AES-256).
pub open spec fn valid_aes_key_len(n: nat) -> bool {
    n == 16 || n == 24 || n == 32
}

/// The AES-ECB encryption, with PKCS#7 padding, of `plaintext` under `key`.
pub uninterp spec fn aes_ecb_pkcs7_encrypt(key: Seq<u8>, plaintext: Seq<u8>) -> Seq<u8>;

/// The AES-ECB decryption, with PKCS#7 padding removed, of `ciphertext`
/// under `key`; `None` where `soft-aes` reports an error.
pub uninterp spec fn aes_ecb_pkcs7_decrypt(key: Seq<u8>, ciphertext: Seq<u8>) -> Option<Seq<u8>>;

/// Whether ML-DSA-44 verification accepts `signature` on `message` under
/// the public key `public_key` (empty context).
pub uninterp spec fn ml_dsa_44_accepts(public_key: Seq<u8>, message: Seq<u8>, signature: Seq<u8>) -> bool;

/// Whether `fips204` accepts the bytes as an ML-DSA-44 private key.
pub uninterp spec fn ml_dsa_44_private_key_valid(private_key: Seq<u8>) -> bool;

/// Whether the public and the private key bytes are a key pair as
/// `fips204::ml_dsa_44::try_keygen` makes them.
pub uninterp spec fn ml_dsa_44_key_pair(public_key: Seq<u8>, private_key: Seq<u8>) -> bool;

/// Whether ML-DSA-87 verification accepts `signature` on `message` under
/// the public key `public_key` (empty context).
pub uninterp spec fn ml_dsa_87_accepts(public_key: Seq<u8>, message: Seq<u8>, signature: Seq<u8>) -> bool;

/// Whether the public and the private key bytes are a key pair as
/// `fips204::ml_dsa_87::try_keygen` makes them.
pub uninterp spec fn ml_dsa_87_key_pair(public_key: Seq<u8>, private_key: Seq<u8>) -> bool;

/// The ML-KEM-512 encapsulation key that belongs to a decapsulation-key
/// seed.
pub uninterp spec fn ml_kem_512_ek_of(seed: Seq<u8>) -> Seq<u8>;

/// The shared secret that ML-KEM-512 decapsulation of `ciphertext` with the
/// decapsulation key made from `seed` gives.
pub uninterp spec fn ml_kem_512_decaps(seed: Seq<u8>, ciphertext: Seq<u8>) -> Seq<u8>;

/// The ML-KEM-768 encapsulation key that belongs to a decapsulation-key
/// seed.
pub uninterp spec fn ml_kem_768_ek_of(seed: Seq<u8>) -> Seq<u8>;

/// The shared secret that ML-KEM-768 decapsulation of `ciphertext` with the
/// decapsulation key made from `seed` gives.
pub uninterp spec fn ml_kem_768_decaps(seed: Seq<u8>, ciphertext: Seq<u8>) -> Seq<u8>;

/// The ML-KEM-1024 encapsulation key that belongs to a decapsulation-key
/// seed.
pub uninterp spec fn ml_kem_1024_ek_of(seed: Seq<u8>) -> Seq<u8>;

/// The shared secret that ML-KEM-1024 decapsulation of `ciphertext` with
/// the decapsulation key made from `seed` gives.
pub uninterp spec fn ml_kem_1024_decaps(seed: Seq<u8>, ciphertext: Seq<u8>) -> Seq<u8>;

/// Trusted: `soft_aes::aes::aes_enc_ecb(plaintext, key, Some("PKCS7"))`.
/// The source pads with PKCS#7 (always at least one byte, up to a whole
/// 16-byte block), encrypts block by block and fails only on a key whose
/// length is not 16, 24 or 32. Its documentation shows that decrypting the
/// result with the same key gives the plaintext back.
#[verifier::external_body]
pub(crate) fn aes_ecb_encrypt(plaintext: &[u8], key: &[u8]) -> (r: Option<Vec<u8>>)
    ensures
        r is Some <==> valid_aes_key_len(key@.len()),
        r matches Some(c) ==> {
            &&& c@ == aes_ecb_pkcs7_encrypt(key@, plaintext@)
            &&& c@.len() == (plaintext@.len() / 16 + 1) * 16
            &&& aes_ecb_pkcs7_decrypt(key@, c@) == Some(plaintext@)
        },
{
    soft_aes::aes::aes_enc_ecb(plaintext, key, Some("PKCS7")).ok()
}

/// Trusted: `soft_aes::aes::aes_dec_ecb(ciphertext, key, Some("PKCS7"))`.
/// The source fails when the length is not a multiple of 16, when the key
/// length is not 16, 24 or 32 (for a non-empty input) and when the
/// padding of the last block is inconsistent, which includes an empty
/// input.
#[verifier::external_body]
pub(crate) fn aes_ecb_decrypt(ciphertext: &[u8], key: &[u8]) -> (r: Option<Vec<u8>>)
    ensures
        match r {
            Some(p) => aes_ecb_pkcs7_decrypt(key@, ciphertext@) == Some(p@),
            None => aes_ecb_pkcs7_decrypt(key@, ciphertext@) is None,
        },
        ciphertext@.len() % 16 != 0 || ciphertext@.len() == 0 || !valid_aes_key_len(key@.len())
            ==> r is None,
{
    soft_aes::aes::aes_dec_ecb(ciphertext, key, Some("PKCS7")).ok()
}

/// Trusted: `fips204::ml_dsa_44::PublicKey::try_from_bytes` then
/// `verify(message, signature, &[])`; `false` when the key or signature
/// has the wrong length or the key does not decode.
#[verifier::external_body]
pub(crate) fn ml_dsa_44_verify(public_key: &[u8], message: &[u8], signature: &[u8]) -> (r: bool)
    ensures
        r == ml_dsa_44_accepts(public_key@, message@, signature@),
        r ==> public_key@.len() == ML_DSA_44_PK_LEN && signature@.len() == ML_DSA_44_SIG_LEN,
{
    let pk: [u8; 1312] = match public_key.try_into() { Ok(a) => a, Err(_) => return false };
    let sig: [u8; 2420] = match signature.try_into() { Ok(a) => a, Err(_) => return false };
    match ml_dsa_44::PublicKey::try_from_bytes(pk) {
        Ok(k) => k.verify(message, &sig, &[]),
        Err(_) => false,
    }
}

/// Trusted: `fips204::ml_dsa_87::PublicKey::try_from_bytes` then
/// `verify(message, signature, &[])`; `false` when the key or signature
/// has the wrong length or the key does not decode.
#[verifier::external_body]
pub(crate) fn ml_dsa_87_verify(public_key: &[u8], message: &[u8], signature: &[u8]) -> (r: bool)
    ensures
        r == ml_dsa_87_accepts(public_key@, message@, signature@),
        r ==> public_key@.len() == ML_DSA_87_PK_LEN && signature@.len() == ML_DSA_87_SIG_LEN,
{
    let pk: [u8; 2592] = match public_key.try_into() { Ok(a) => a, Err(_) => return false };
    let sig: [u8; 4627] = match signature.try_into() { Ok(a) => a, Err(_) => return false };
    match ml_dsa_87::PublicKey::try_from_bytes(pk) {
        Ok(k) => k.verify(message, &sig, &[]),
        Err(_) => false,
    }
}

/// Trusted: `fips204::ml_dsa_44::PrivateKey::try_from_bytes` then
/// `try_sign(message, &[])`, which draws randomness from the OS; `None`
/// when the key has the wrong length or does not decode, or signing
/// fails. The documentation of `fips204` shows that a signature made with
/// a private key from its key generation verifies under the public key of
/// the pair (decoding does not check that arbitrary bytes form a
/// consistent key, so nothing is stated for other keys); nothing else is
/// stated of the signature, which depends on the randomness.
#[verifier::external_body]
pub(crate) fn ml_dsa_44_sign(private_key: &[u8], message: &[u8]) -> (r: Option<Vec<u8>>)
    ensures
        r matches Some(sig) ==> {
            &&& sig@.len() == ML_DSA_44_SIG_LEN
            &&& private_key@.len() == ML_DSA_44_SK_LEN
            &&& forall|pk: Seq<u8>|
                #[trigger] ml_dsa_44_key_pair(pk, private_key@) ==> ml_dsa_44_accepts(pk, message@, sig@)
        },
{
    let sk: [u8; 2560] = match private_key.try_into() { Ok(a) => a, Err(_) => return None };
    let key = match ml_dsa_44::PrivateKey::try_from_bytes(sk) { Ok(k) => k, Err(_) => return None };
    match key.try_sign(message, &[]) {
        Ok(s) => Some(s.to_vec()),
        Err(_) => None,
    }
}

/// Trusted: as `ml_dsa_44_sign`, with `fips204::ml_dsa_87`.
#[verifier::external_body]
pub(crate) fn ml_dsa_87_sign(private_key: &[u8], message: &[u8]) -> (r: Option<Vec<u8>>)
    ensures
        r matches Some(sig) ==> {
            &&& sig@.len() == ML_DSA_87_SIG_LEN
            &&& private_key@.len() == ML_DSA_87_SK_LEN
            &&& forall|pk: Seq<u8>|
                #[trigger] ml_dsa_87_key_pair(pk, private_key@) ==> ml_dsa_87_accepts(pk, message@, sig@)
        },
{
    let sk: [u8; 4896] = match private_key.try_into() { Ok(a) => a, Err(_) => return None };
    let key = match ml_dsa_87::PrivateKey::try_from_bytes(sk) { Ok(k) => k, Err(_) => return None };
    match key.try_sign(message, &[]) {
        Ok(s) => Some(s.to_vec()),
        Err(_) => None,
    }
}

/// Trusted: `fips204::ml_dsa_44::PrivateKey::try_from_bytes`: whether the
/// bytes are an ML-DSA-44 private key that `fips204` accepts.
#[verifier::external_body]
pub(crate) fn ml_dsa_44_private_key_decodes(private_key: &[u8]) -> (r: bool)
    ensures
        r == ml_dsa_44_private_key_valid(private_key@),
        r ==> private_key@.len() == ML_DSA_44_SK_LEN,
{
    let sk: [u8; 2560] = match private_key.try_into() { Ok(a) => a, Err(_) => return false };
    ml_dsa_44::PrivateKey::try_from_bytes(sk).is_ok()
}

/// Trusted: `fips204::ml_dsa_44::try_keygen`, which draws randomness from
/// the OS, with both keys turned into bytes; `None` when the generator
/// fails. The two keys are a key pair.
#[verifier::external_body]
pub(crate) fn ml_dsa_44_generate() -> (r: Option<(Vec<u8>, Vec<u8>)>)
    ensures
        r matches Some((pk, sk)) ==> {
            &&& pk@.len() == ML_DSA_44_PK_LEN
            &&& sk@.len() == ML_DSA_44_SK_LEN
            &&& ml_dsa_44_key_pair(pk@, sk@)
        },
{
    match ml_dsa_44::KG::try_keygen() {
        Ok((pk, sk)) => Some((pk.into_bytes().to_vec(), sk.into_bytes().to_vec())),
        Err(_) => None,
    }
}

/// Trusted: as `ml_dsa_44_generate`, with `fips204::ml_dsa_87`.
#[verifier::external_body]
pub(crate) fn ml_dsa_87_generate() -> (r: Option<(Vec<u8>, Vec<u8>)>)
    ensures
        r matches Some((pk, sk)) ==> {
            &&& pk@.len() == ML_DSA_87_PK_LEN
            &&& sk@.len() == ML_DSA_87_SK_LEN
            &&& ml_dsa_87_key_pair(pk@, sk@)
        },
{
    match ml_dsa_87::KG::try_keygen() {
        Ok((pk, sk)) => Some((pk.into_bytes().to_vec(), sk.into_bytes().to_vec())),
        Err(_) => None,
    }
}

/// Trusted: `ml_kem::MlKem512::generate_keypair_from_rng` with the given
/// standard generator of `rand` (which never fails); returns the decapsulation key as its 64-byte seed
/// (`to_bytes`) and the encapsulation key as its 800-byte encoding. The
/// encapsulation key is the one that belongs to the seed.
#[verifier::external_body]
pub(crate) fn ml_kem_512_generate(rng: &mut StdRng) -> (r: (Vec<u8>, Vec<u8>))
    ensures
        r.0@.len() == ML_KEM_SEED_LEN,
        r.1@.len() == ML_KEM_512_EK_LEN,
        r.1@ == ml_kem_512_ek_of(r.0@),
{
    let (dk, ek) = MlKem512::generate_keypair_from_rng(rng);
    (dk.to_bytes().to_vec(), ek.to_bytes().to_vec())
}

/// Trusted: `ml_kem::ml_kem_512::EncapsulationKey::new` on the bytes, then
/// `encapsulate_with_rng` with the given standard generator of `rand`
/// (which never fails); `None` when
/// the key has the wrong length or fails validation. Returns the
/// ciphertext and the shared secret. Their values depend on the
/// randomness; what is stated is the scheme's correctness, which the
/// crate's documentation shows (`assert_eq!(k_send, k_recv)`): the holder
/// of a decapsulation key whose encapsulation key this is gets the same
/// secret from the ciphertext. (FIPS 203 bounds the chance that this fails
/// below 2^-138; that chance is not modelled.) An encapsulation key that
/// key generation exported for a seed passes the validation (FIPS 203's
/// modulus check: decoding and encoding again gives the same bytes, which
/// holds of every encoded key, whose coefficients are reduced), and
/// `encapsulate_with_rng` itself returns no error; so such a key is always
/// accepted.
#[verifier::external_body]
pub(crate) fn ml_kem_512_encapsulate(encapsulation_key: &[u8], rng: &mut StdRng) -> (r: Option<(Vec<u8>, Vec<u8>)>)
    ensures
        encapsulation_key@.len() == ML_KEM_512_EK_LEN && (exists|seed: Seq<u8>|
            seed.len() == ML_KEM_SEED_LEN && #[trigger] ml_kem_512_ek_of(seed) == encapsulation_key@) ==> r is Some,
        r matches Some((ct, ss)) ==> {
            &&& ct@.len() == ML_KEM_512_CT_LEN
            &&& ss@.len() == SHARED_SECRET_LEN
            &&& forall|seed: Seq<u8>|
                seed.len() == ML_KEM_SEED_LEN && #[trigger] ml_kem_512_ek_of(seed) == encapsulation_key@
                    ==> ml_kem_512_decaps(seed, ct@) == ss@
        },
{
    let key = match ml_kem::kem::Key::<ml_kem::ml_kem_512::EncapsulationKey>::try_from(encapsulation_key) { Ok(k) => k, Err(_) => return None };
    let ek = match ml_kem::ml_kem_512::EncapsulationKey::new(&key) { Ok(k) => k, Err(_) => return None };
    let (ct, ss) = ek.encapsulate_with_rng(rng);
    Some((ct.to_vec(), ss.to_vec()))
}

/// Trusted: `ml_kem::ml_kem_512::DecapsulationKey::from_seed`, then
/// `decapsulate`; `None` when the seed or the ciphertext has the wrong
/// length.
#[verifier::external_body]
pub(crate) fn ml_kem_512_decapsulate(seed: &[u8], ciphertext: &[u8]) -> (r: Option<Vec<u8>>)
    ensures
        r is Some <==> (seed@.len() == ML_KEM_SEED_LEN && ciphertext@.len() == ML_KEM_512_CT_LEN),
        r matches Some(ss) ==> {
            &&& ss@ == ml_kem_512_decaps(seed@, ciphertext@)
            &&& ss@.len() == SHARED_SECRET_LEN
        },
{
    let s = match ml_kem::Seed::try_from(seed) { Ok(s) => s, Err(_) => return None };
    let ct = match ml_kem::ml_kem_512::Ciphertext::try_from(ciphertext) { Ok(c) => c, Err(_) => return None };
    let dk = ml_kem::ml_kem_512::DecapsulationKey::from_seed(s);
    Some(dk.decapsulate(&ct).to_vec())
}

/// Trusted: as `ml_kem_512_generate`, with `ml_kem::MlKem768`.
#[verifier::external_body]
pub(crate) fn ml_kem_768_generate(rng: &mut StdRng) -> (r: (Vec<u8>, Vec<u8>))
    ensures
        r.0@.len() == ML_KEM_SEED_LEN,
        r.1@.len() == ML_KEM_768_EK_LEN,
        r.1@ == ml_kem_768_ek_of(r.0@),
{
    let (dk, ek) = MlKem768::generate_keypair_from_rng(rng);
    (dk.to_bytes().to_vec(), ek.to_bytes().to_vec())
}

/// Trusted: as `ml_kem_512_encapsulate`, with `ml_kem::ml_kem_768`.
#[verifier::external_body]
pub(crate) fn ml_kem_768_encapsulate(encapsulation_key: &[u8], rng: &mut StdRng) -> (r: Option<(Vec<u8>, Vec<u8>)>)
    ensures
        encapsulation_key@.len() == ML_KEM_768_EK_LEN && (exists|seed: Seq<u8>|
            seed.len() == ML_KEM_SEED_LEN && #[trigger] ml_kem_768_ek_of(seed) == encapsulation_key@) ==> r is Some,
        r matches Some((ct, ss)) ==> {
            &&& ct@.len() == ML_KEM_768_CT_LEN
            &&& ss@.len() == SHARED_SECRET_LEN
            &&& forall|seed: Seq<u8>|
                seed.len() == ML_KEM_SEED_LEN && #[trigger] ml_kem_768_ek_of(seed) == encapsulation_key@
                    ==> ml_kem_768_decaps(seed, ct@) == ss@
        },
{
    let key = match ml_kem::kem::Key::<ml_kem::ml_kem_768::EncapsulationKey>::try_from(encapsulation_key) { Ok(k) => k, Err(_) => return None };
    let ek = match ml_kem::ml_kem_768::EncapsulationKey::new(&key) { Ok(k) => k, Err(_) => return None };
    let (ct, ss) = ek.encapsulate_with_rng(rng);
    Some((ct.to_vec(), ss.to_vec()))
}

/// Trusted: as `ml_kem_512_decapsulate`, with `ml_kem::ml_kem_768`.
#[verifier::external_body]
pub(crate) fn ml_kem_768_decapsulate(seed: &[u8], ciphertext: &[u8]) -> (r: Option<Vec<u8>>)
    ensures
        r is Some <==> (seed@.len() == ML_KEM_SEED_LEN && ciphertext@.len() == ML_KEM_768_CT_LEN),
        r matches Some(ss) ==> {
            &&& ss@ == ml_kem_768_decaps(seed@, ciphertext@)
            &&& ss@.len() == SHARED_SECRET_LEN
        },
{
    let s = match ml_kem::Seed::try_from(seed) { Ok(s) => s, Err(_) => return None };
    let ct = match ml_kem::ml_kem_768::Ciphertext::try_from(ciphertext) { Ok(c) => c, Err(_) => return None };
    let dk = ml_kem::ml_kem_768::DecapsulationKey::from_seed(s);
    Some(dk.decapsulate(&ct).to_vec())
}

/// Trusted: as `ml_kem_512_generate`, with `ml_kem::MlKem1024`.
#[verifier::external_body]
pub(crate) fn ml_kem_1024_generate(rng: &mut StdRng) -> (r: (Vec<u8>, Vec<u8>))
    ensures
        r.0@.len() == ML_KEM_SEED_LEN,
        r.1@.len() == ML_KEM_1024_EK_LEN,
        r.1@ == ml_kem_1024_ek_of(r.0@),
{
    let (dk, ek) = MlKem1024::generate_keypair_from_rng(rng);
    (dk.to_bytes().to_vec(), ek.to_bytes().to_vec())
}

/// Trusted: as `ml_kem_512_encapsulate`, with `ml_kem::ml_kem_1024`.
#[verifier::external_body]
pub(crate) fn ml_kem_1024_encapsulate(encapsulation_key: &[u8], rng: &mut StdRng) -> (r: Option<(Vec<u8>, Vec<u8>)>)
    ensures
        encapsulation_key@.len() == ML_KEM_1024_EK_LEN && (exists|seed: Seq<u8>|
            seed.len() == ML_KEM_SEED_LEN && #[trigger] ml_kem_1024_ek_of(seed) == encapsulation_key@) ==> r is Some,
        r matches Some((ct, ss)) ==> {
            &&& ct@.len() == ML_KEM_1024_CT_LEN
            &&& ss@.len() == SHARED_SECRET_LEN
            &&& forall|seed: Seq<u8>|
                seed.len() == ML_KEM_SEED_LEN && #[trigger] ml_kem_1024_ek_of(seed) == encapsulation_key@
                    ==> ml_kem_1024_decaps(seed, ct@) == ss@
        },
{
    let key = match ml_kem::kem::Key::<ml_kem::ml_kem_1024::EncapsulationKey>::try_from(encapsulation_key) { Ok(k) => k, Err(_) => return None };
    let ek = match ml_kem::ml_kem_1024::EncapsulationKey::new(&key) { Ok(k) => k, Err(_) => return None };
    let (ct, ss) = ek.encapsulate_with_rng(rng);
    Some((ct.to_vec(), ss.to_vec()))
}

/// Trusted: as `ml_kem_512_decapsulate`, with `ml_kem::ml_kem_1024`.
#[verifier::external_body]
pub(crate) fn ml_kem_1024_decapsulate(seed: &[u8], ciphertext: &[u8]) -> (r: Option<Vec<u8>>)
    ensures
        r is Some <==> (seed@.len() == ML_KEM_SEED_LEN && ciphertext@.len() == ML_KEM_1024_CT_LEN),
        r matches Some(ss) ==> {
            &&& ss@ == ml_kem_1024_decaps(seed@, ciphertext@)
            &&& ss@.len() == SHARED_SECRET_LEN
        },
{
    let s = match ml_kem::Seed::try_from(seed) { Ok(s) => s, Err(_) => return None };
    let ct = match ml_kem::ml_kem_1024::Ciphertext::try_from(ciphertext) { Ok(c) => c, Err(_) => return None };
    let dk = ml_kem::ml_kem_1024::DecapsulationKey::from_seed(s);
    Some(dk.decapsulate(&ct).to_vec())
}

#[verifier::external_type_specification]
#[verifier::external_body]
pub struct ExStdRng(StdRng);

/// Trusted: `StdRng::try_from_rng(&mut SysRng)`, seeding the standard
/// generator from the operating system; `None` when the OS source fails.
#[verifier::external_body]
pub(crate) fn seeded_std_rng() -> (r: Option<StdRng>) {
    StdRng::try_from_rng(&mut SysRng).ok()
}

/// Trusted: `TryRng::try_fill_bytes` on the generator, which fills the
/// buffer; the length of the buffer does not change. `StdRng` implements
/// `TryRng` with `Error = Infallible`, so it always succeeds.
#[verifier::external_body]
pub(crate) fn fill_from_std_rng(rng: &mut StdRng, buf: &mut Vec<u8>) -> (ok: bool)
    ensures
        ok,
        final(buf)@.len() == old(buf)@.len(),
{
    rng.try_fill_bytes(buf.as_mut_slice()).is_ok()
}

/// Trusted: `String::from_utf8`, which std documents as succeeding exactly
/// on valid UTF-8 and then holding the characters that the bytes encode.
#[verifier::external_body]
pub(crate) fn string_from_utf8(bytes: Vec<u8>) -> (r: Option<String>)
    ensures
        r is Some <==> valid_utf8(bytes@),
        r matches Some(s) ==> {
            &&& s@ == decode_utf8(bytes@)
        },
{
    String::from_utf8(bytes).ok()
}

} // verus!
