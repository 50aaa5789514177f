//! The classical primitives that the benchmarks compare with: Ed25519
//! signatures (`ed25519-dalek`), AES-256-GCM (`aes-gcm`) and the ChaCha20
//! stream cipher (`chacha20`), and the LightSaber key encapsulation
//! (`rusty-saber`), each behind a trusted item.
use vstd::prelude::*;
use aes_gcm::aead::{Aead, KeyInit};
use aes_gcm::Aes256Gcm;
use chacha20::cipher::{KeyIvInit, StreamCipher, StreamCipherSeek};
use chacha20::ChaCha20;
use ed25519_dalek::{Signer, SigningKey};
use rusty_saber::api::{CRYPTO_BYTES, CRYPTO_CIPHERTEXTBYTES, CRYPTO_PUBLICKEYBYTES, CRYPTO_SECRETKEYBYTES};
use rusty_saber::kem::{crypto_kem_dec, crypto_kem_enc, crypto_kem_keypair};
use rusty_saber::rng::AesState;

verus! {

#[verifier::external_type_specification]
#[verifier::external_body]
pub struct ExEd25519SigningKey(SigningKey);

/// Trusted: `ed25519_dalek::SigningKey::from_bytes` on the 32 secret bytes;
/// `None` when the secret is not 32 bytes long. The key is opaque here.
#[verifier::external_body]
pub(crate) fn ed25519_signing_key(secret: &[u8]) -> (r: Option<SigningKey>)
    ensures
        r is Some <==> secret@.len() == 32,
{
    let bytes: [u8; 32] = match secret.try_into() {
        Ok(b) => b,
        Err(_) => return None,
    };
    Some(SigningKey::from_bytes(&bytes))
}

/// Trusted: `Signer::sign` with the key, then `Signature::to_bytes`: the
/// 64-byte Ed25519 signature of `message`. Its value, a function of the key
/// and the message, is not stated, since the key is an opaque value here
/// and a name for the result could not take it.
#[verifier::external_body]
pub(crate) fn ed25519_sign(key: &SigningKey, message: &[u8]) -> (r: Vec<u8>)
    ensures
        r@.len() == 64,
{
    key.sign(message).to_bytes().to_vec()
}

/// The AES-256-GCM ciphertext (with its 16-byte tag) of `plaintext` under
/// `key` and `nonce`, with no associated data.
pub uninterp spec fn aes_gcm_sealed(key: Seq<u8>, nonce: Seq<u8>, plaintext: Seq<u8>) -> Seq<u8>;

/// What AES-256-GCM decryption of `ciphertext` under `key` and `nonce`
/// gives: the plaintext, or `None` when the key or nonce has the wrong
/// length or the tag does not verify.
pub uninterp spec fn aes_gcm_opened(key: Seq<u8>, nonce: Seq<u8>, ciphertext: Seq<u8>) -> Option<Seq<u8>>;

/// The longest plaintext, in bytes, that AES-GCM encrypts (`aes_gcm::P_MAX`,
/// 2^36 - 32).
pub const AES_GCM_MAX_PLAINTEXT: u64 = 68719476704;

/// Trusted: `Aes256Gcm::new_from_slice(key)`, then `Aead::encrypt` with the
/// 12-byte nonce; `None` when the key is not 32 bytes or the nonce not 12,
/// or the plaintext is longer than `aes_gcm::P_MAX`, the only error that
/// the crate's `encrypt_inout_detached` reports (the tag is appended to a
/// `Vec`, which does not fail). The ciphertext is the plaintext's length
/// plus the 16-byte tag, and the crate's documentation shows that
/// decrypting it with the same key and nonce gives the plaintext back.
#[verifier::external_body]
pub(crate) fn aes_gcm_encrypt(key: &[u8], nonce: &[u8], plaintext: &[u8]) -> (r: Option<Vec<u8>>)
    ensures
        r is Some <==> (key@.len() == 32 && nonce@.len() == 12 && plaintext@.len() <= AES_GCM_MAX_PLAINTEXT),
        r matches Some(c) ==> {
            &&& c@ == aes_gcm_sealed(key@, nonce@, plaintext@)
            &&& c@.len() == plaintext@.len() + 16
            &&& aes_gcm_opened(key@, nonce@, c@) == Some(plaintext@)
        },
{
    let cipher = match Aes256Gcm::new_from_slice(key) { Ok(c) => c, Err(_) => return None };
    let n = match aes_gcm::aead::Nonce::<Aes256Gcm>::try_from(nonce) { Ok(n) => n, Err(_) => return None };
    cipher.encrypt(&n, plaintext).ok()
}

/// Trusted: `Aes256Gcm::new_from_slice(key)`, then `Aead::decrypt` with the
/// 12-byte nonce; `None` when the key or nonce has the wrong length or the
/// tag does not verify.
#[verifier::external_body]
pub(crate) fn aes_gcm_decrypt(key: &[u8], nonce: &[u8], ciphertext: &[u8]) -> (r: Option<Vec<u8>>)
    ensures
        match r {
            Some(p) => aes_gcm_opened(key@, nonce@, ciphertext@) == Some(p@),
            None => aes_gcm_opened(key@, nonce@, ciphertext@) is None,
        },
{
    let cipher = match Aes256Gcm::new_from_slice(key) { Ok(c) => c, Err(_) => return None };
    let n = match aes_gcm::aead::Nonce::<Aes256Gcm>::try_from(nonce) { Ok(n) => n, Err(_) => return None };
    cipher.decrypt(&n, ciphertext).ok()
}

/// The ChaCha20 keystream bytes from byte `position` on, `len` of them, for
/// `key` and `nonce`.
pub uninterp spec fn chacha20_keystream(key: Seq<u8>, nonce: Seq<u8>, position: nat, len: nat) -> Seq<u8>;

/// The bytes of `a` each combined by exclusive or with the byte of `b` at
/// the same place.
pub open spec fn xor_bytes(a: Seq<u8>, b: Seq<u8>) -> Seq<u8> {
    Seq::new(a.len(), |i: int| a[i] ^ b[i])
}

/// The number of keystream bytes that ChaCha20 (IETF variant, 32-bit block
/// counter) gives for one key and nonce: `u32::MAX` blocks of 64 bytes,
/// since `chacha20` counts `u32::MAX - pos` blocks as remaining at block
/// position `pos`.
pub const CHACHA20_KEYSTREAM_LEN: u64 = 274877906880;

/// Trusted: `ChaCha20::new_from_slices(key, nonce)`, then `try_seek` to
/// `position` and `try_apply_keystream` on the buffer, which combines the
/// keystream from that position on into the buffer by exclusive or;
/// `false`, with the buffer unchanged, when the key is not 32 bytes or the
/// nonce not 12, or the keystream ends before the buffer does: in
/// `cipher`'s `try_seek` and `check_remaining` that is when `position` plus
/// the buffer's length exceeds `CHACHA20_KEYSTREAM_LEN`. (`try_seek` to
/// `p` sets the block counter to `p / 64`, refusing a counter above
/// `u32::MAX` and a nonzero offset in block `u32::MAX`; with a nonzero
/// offset it produces that block, moving the counter on by one and
/// keeping `64 - p % 64` bytes of it. `check_remaining` then allows the
/// rest of the buffer as long as it needs at most `u32::MAX - counter`
/// more blocks. Either way the condition is `ceil((p + len) / 64) <=
/// u32::MAX`.)
#[verifier::external_body]
pub(crate) fn chacha20_apply(key: &[u8], nonce: &[u8], position: u64, buf: &mut Vec<u8>) -> (ok: bool)
    ensures
        ok <==> (key@.len() == 32 && nonce@.len() == 12 && position + old(buf)@.len()
            <= CHACHA20_KEYSTREAM_LEN),
        ok ==> {
            &&& chacha20_keystream(key@, nonce@, position as nat, old(buf)@.len()).len() == old(buf)@.len()
            &&& final(buf)@ == xor_bytes(old(buf)@, chacha20_keystream(key@, nonce@, position as nat, old(buf)@.len()))
        },
        !ok ==> final(buf)@ == old(buf)@,
{
    let mut cipher = match ChaCha20::new_from_slices(key, nonce) { Ok(c) => c, Err(_) => return false };
    if cipher.try_seek(position).is_err() {
        return false;
    }
    cipher.try_apply_keystream(buf.as_mut_slice()).is_ok()
}

/// Length of a LightSaber public key, in bytes.
pub const SABER_PK_LEN: usize = 672;
/// Length of a LightSaber secret key, in bytes.
pub const SABER_SK_LEN: usize = 1568;
/// Length of a LightSaber ciphertext, in bytes.
pub const SABER_CT_LEN: usize = 736;
/// Length of a LightSaber shared secret, in bytes.
pub const SABER_SS_LEN: usize = 32;

/// Whether the public and the secret key bytes are a key pair as
/// `rusty_saber::kem::crypto_kem_keypair` makes them.
pub uninterp spec fn saber_key_pair(public_key: Seq<u8>, secret_key: Seq<u8>) -> bool;

/// The shared secret that LightSaber decapsulation of `ciphertext` with
/// the secret key bytes gives.
pub uninterp spec fn saber_decaps(secret_key: Seq<u8>, ciphertext: Seq<u8>) -> Seq<u8>;

/// Trusted: `rusty_saber::kem::crypto_kem_keypair` into buffers of the
/// crate's key lengths (with the `lightsaber` feature, 672 and 1568 bytes),
/// drawing from a fresh `rusty_saber::rng::AesState::new()` made here, the
/// generator that the crate's examples use (a fresh state draws far too
/// few blocks for its counters to overflow); `None` when it reports an
/// error. Returns the public
/// and the secret key, which form a key pair. The crate reports an error
/// only where a slice conversion meets a wrong length (its hashing, its
/// generator and its conversions between fixed-size buffers do not fail),
/// which buffers of the crate's lengths rule out; its own tests call it
/// with `expect`. So it succeeds.
#[verifier::external_body]
pub(crate) fn saber_keypair() -> (r: Option<(Vec<u8>, Vec<u8>)>)
    ensures
        r is Some,
        r matches Some((pk, sk)) ==> {
            &&& pk@.len() == SABER_PK_LEN
            &&& sk@.len() == SABER_SK_LEN
            &&& saber_key_pair(pk@, sk@)
        },
{
    let mut pk = vec![0u8; CRYPTO_PUBLICKEYBYTES];
    let mut sk = vec![0u8; CRYPTO_SECRETKEYBYTES];
    let mut rng = AesState::new();
    match crypto_kem_keypair(&mut pk, &mut sk, &mut rng) {
        Ok(()) => Some((pk, sk)),
        Err(_) => None,
    }
}

/// Trusted: `rusty_saber::kem::crypto_kem_enc` with the public key, drawing
/// from a fresh `rusty_saber::rng::AesState::new()` made here, into
/// buffers of the crate's ciphertext and secret lengths
/// (736 and 32 bytes); `None` when it reports an error. (The function
/// slices the key, so a key of another length is kept out.) Returns the
/// ciphertext and the shared secret. As the crate's documentation shows
/// (`assert_eq!(ss_a, ss_b)`), the holder of a secret key that forms a key
/// pair with the public key gets the same secret from the ciphertext
/// (Saber's failure probability, below 2^-120, is not modelled; for secret
/// keys from elsewhere nothing is stated). As with `saber_keypair`, the
/// crate reports errors only on wrong lengths, which the key's length and
/// the buffers rule out, so it succeeds.
#[verifier::external_body]
pub(crate) fn saber_encapsulate(public_key: &[u8]) -> (r: Option<(Vec<u8>, Vec<u8>)>)
    requires
        public_key@.len() == SABER_PK_LEN,
    ensures
        r is Some,
        r matches Some((ct, ss)) ==> {
            &&& ct@.len() == SABER_CT_LEN
            &&& ss@.len() == SABER_SS_LEN
            &&& forall|sk: Seq<u8>|
                #[trigger] saber_key_pair(public_key@, sk) ==> saber_decaps(sk, ct@) == ss@
        },
{
    let mut pk = public_key.to_vec();
    let mut ct = vec![0u8; CRYPTO_CIPHERTEXTBYTES];
    let mut ss = vec![0u8; CRYPTO_BYTES];
    let mut rng = AesState::new();
    match crypto_kem_enc(&mut ct, &mut ss, &mut pk, &mut rng) {
        Ok(()) => Some((ct, ss)),
        Err(_) => None,
    }
}

/// Trusted: `rusty_saber::kem::crypto_kem_dec`; `None` when it reports an
/// error. (The function slices the ciphertext and the secret key, so other
/// lengths are kept out.) Returns the shared secret. As with
/// `saber_keypair`, the crate reports errors only on wrong lengths, which
/// the required lengths rule out, so it succeeds.
#[verifier::external_body]
pub(crate) fn saber_decapsulate(ciphertext: &[u8], secret_key: &[u8]) -> (r: Option<Vec<u8>>)
    requires
        ciphertext@.len() == SABER_CT_LEN,
        secret_key@.len() == SABER_SK_LEN,
    ensures
        r is Some,
        r matches Some(ss) ==> ss@ == saber_decaps(secret_key@, ciphertext@),
{
    let mut ss = vec![0u8; CRYPTO_BYTES];
    match crypto_kem_dec(&mut ss, ciphertext, secret_key) {
        Ok(()) => Some(ss),
        Err(_) => None,
    }
}

/// Combining the same keystream into a buffer twice gives the buffer back.
pub proof fn lemma_xor_twice(a: Seq<u8>, k: Seq<u8>)
    requires
        k.len() == a.len(),
    ensures
        xor_bytes(xor_bytes(a, k), k) == a,
{
    assert forall|i: int| 0 <= i < a.len() implies #[trigger] xor_bytes(xor_bytes(a, k), k)[i] == a[i] by {
        let x = a[i];
        let y = k[i];
        assert((x ^ y) ^ y == x) by (bit_vector);
    }
    assert(xor_bytes(xor_bytes(a, k), k) =~= a);
}

} // verus!
