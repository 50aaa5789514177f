//! The key-distribution and session protocol between the control plane,
//! the client (the vehicle's dongle) and the receiver.
//!
//! 1. The control plane sends each party its keys: an AES-encrypted
//!    payload signed with the control plane's ML-DSA-87 key. The client
//!    gets its ML-DSA-44 signing key pair and its id; each party gets the
//!    other party's ML-DSA-44 verifying key.
//! 2. The client signs the request `Ready to send`; the receiver checks it
//!    with its verifying key.
//! 3. The receiver generates an ML-KEM-512 key pair and signs the
//!    encapsulation key; the client checks the signature and encapsulates a
//!    shared secret to it; the receiver decapsulates the ciphertext.
//! 4. The client encrypts each message with the shared secret as an
//!    AES-256 key; the receiver decrypts it.
use vstd::prelude::*;
use vstd::utf8::{decode_utf8, encode_utf8, valid_utf8};
use vstd::string::StringSliceAdditionalSpecFns;
use crate::crypto::{
    aes_ecb_decrypt, aes_ecb_encrypt, aes_ecb_pkcs7_decrypt, aes_ecb_pkcs7_encrypt,
    ml_dsa_44_accepts, ml_dsa_44_private_key_decodes, ml_dsa_44_private_key_valid,
    ml_dsa_44_key_pair, ml_dsa_44_sign, ml_dsa_44_verify, ml_dsa_87_accepts, ml_dsa_87_verify,
    ml_kem_512_decapsulate, ml_kem_512_decaps, ml_kem_512_ek_of, ml_kem_512_encapsulate, ml_kem_512_generate, seeded_std_rng, string_from_utf8,
    valid_aes_key_len, ML_KEM_512_CT_LEN, ML_KEM_512_EK_LEN, ML_KEM_SEED_LEN, SHARED_SECRET_LEN,
};

verus! {

/// Which key a control-plane message carries.
#[derive(Clone, Copy, Debug, PartialEq, Eq)]
pub enum PayloadType {
    /// The party's own signing key pair and id.
    SenderKey,
    /// The other party's verifying key.
    VerifierKey,
}

/// Why a control-plane message was refused.
#[derive(Clone, Copy, Debug, PartialEq, Eq)]
pub enum ControlError {
    /// The control plane's signature on the ciphertext does not verify.
    BadControlSignature,
    /// The ciphertext does not decrypt under the control plane's AES key.
    DecryptFailed,
    /// The decrypted payload is not UTF-8.
    BadPayload,
    /// The private key that was sent is not an ML-DSA-44 private key.
    BadSigningKey,
}

/// Why a session step failed.
#[derive(Clone, Copy, Debug, PartialEq, Eq)]
pub enum SessionError {
    /// This party holds no signing key.
    NoSigningKey,
    /// The signature scheme could not sign.
    SigningFailed,
    /// A signature from the other party does not verify.
    AuthorisationFailed,
    /// A signed text is not UTF-8.
    BadText,
    /// The encapsulation key or ciphertext has the wrong form.
    BadKey,
    /// The operating system's random source failed.
    RandomnessFailed,
}

/// Why an encrypted message could not be read.
#[derive(Clone, Copy, Debug, PartialEq, Eq)]
pub enum MessageError {
    /// The ciphertext does not decrypt under the session key.
    DecryptFailed,
    /// The plaintext is not UTF-8.
    NotUtf8,
}

/// The keys a party holds after the control plane has sent them.
#[derive(Clone, Debug)]
pub struct SignatureKeys {
    /// Own ML-DSA-44 private key.
    pub private_key: Vec<u8>,
    /// Own ML-DSA-44 public key.
    pub public_key: Vec<u8>,
    /// The private key, once it was accepted as a signing key.
    pub signing_key: Option<Vec<u8>>,
    /// The other party's ML-DSA-44 public key.
    pub verifier_key: Vec<u8>,
    /// The id the control plane gave this party.
    pub my_id: String,
}

/// The keys collected so far from control-plane messages.
#[derive(Clone, Debug)]
pub struct ControlKeys {
    /// Own private key (from a sender-key message).
    pub private_key: Vec<u8>,
    /// Own public key (from a sender-key message).
    pub public_key: Vec<u8>,
    /// The other party's public key (from a verifier-key message).
    pub verifying_key: Vec<u8>,
    /// The signing key made from the private key.
    pub signing_key: Option<Vec<u8>>,
    /// Whether a sender-key message was taken in.
    pub have_signing_key: bool,
    /// Whether a verifier-key message was taken in.
    pub have_verifier_key: bool,
    /// Own id (from a sender-key message).
    pub my_id: String,
}

/// A signed request or key.
#[derive(Clone, Debug)]
pub struct Signed {
    /// The signed bytes.
    pub text: Vec<u8>,
    /// The ML-DSA-44 signature on them.
    pub signature: Vec<u8>,
}

/// The bytes of `Ready to send`, the client's request.
pub open spec fn ready_text() -> Seq<u8> {
    seq![82u8, 101, 97, 100, 121, 32, 116, 111, 32, 115, 101, 110, 100]
}

/// What opening a control-plane message gives: the decrypted payload as
/// text, or why it was refused.
pub open spec fn control_outcome(
    ciphertext: Seq<u8>,
    signature: Seq<u8>,
    control_public: Seq<u8>,
    control_aes: Seq<u8>,
) -> Result<Seq<char>, ControlError> {
    if !ml_dsa_87_accepts(control_public, ciphertext, signature) {
        Err(ControlError::BadControlSignature)
    } else {
        match aes_ecb_pkcs7_decrypt(control_aes, ciphertext) {
            None => Err(ControlError::DecryptFailed),
            Some(p) => if valid_utf8(p) {
                Ok(decode_utf8(p))
            } else {
                Err(ControlError::BadPayload)
            },
        }
    }
}

/// What checking a signed text with the verifying key `verifier` gives.
pub open spec fn signed_text_outcome(verifier: Seq<u8>, text: Seq<u8>, signature: Seq<u8>) -> Result<
    Seq<char>,
    SessionError,
> {
    if !ml_dsa_44_accepts(verifier, text, signature) {
        Err(SessionError::AuthorisationFailed)
    } else if !valid_utf8(text) {
        Err(SessionError::BadText)
    } else {
        Ok(decode_utf8(text))
    }
}

/// Whether `signature` on `text` verifies under every public key that
/// forms a key pair with `private_key`.
pub open spec fn signed_by(private_key: Seq<u8>, text: Seq<u8>, signature: Seq<u8>) -> bool {
    forall|pk: Seq<u8>| #[trigger] ml_dsa_44_key_pair(pk, private_key) ==> ml_dsa_44_accepts(pk, text, signature)
}

/// What decrypting a session message gives.
pub open spec fn message_outcome(key: Seq<u8>, ciphertext: Seq<u8>) -> Result<Seq<char>, MessageError> {
    match aes_ecb_pkcs7_decrypt(key, ciphertext) {
        None => Err(MessageError::DecryptFailed),
        Some(p) => if valid_utf8(p) {
            Ok(decode_utf8(p))
        } else {
            Err(MessageError::NotUtf8)
        },
    }
}

/// Verifies and decrypts a control-plane message: the signature must
/// verify under the control plane's ML-DSA-87 key, the ciphertext must
/// decrypt under its AES key, and the payload must be UTF-8.
pub fn open_control_message(
    ciphertext: &[u8],
    signature: &[u8],
    control_public: &[u8],
    control_aes: &[u8],
) -> (r: Result<String, ControlError>)
    ensures
        match (r, control_outcome(ciphertext@, signature@, control_public@, control_aes@)) {
            (Ok(s), Ok(t)) => s@ == t,
            (Err(e), Err(f)) => e == f,
            _ => false,
        },
{
    if !ml_dsa_87_verify(control_public, ciphertext, signature) {
        return Err(ControlError::BadControlSignature);
    }
    let payload = match aes_ecb_decrypt(ciphertext, control_aes) {
        Some(p) => p,
        None => {
            return Err(ControlError::DecryptFailed);
        },
    };
    match string_from_utf8(payload) {
        Some(s) => Ok(s),
        None => Err(ControlError::BadPayload),
    }
}

/// The view of an optional key.
pub open spec fn key_view(k: Option<Vec<u8>>) -> Option<Seq<u8>> {
    match k {
        Some(v) => Some(v@),
        None => None,
    }
}

/// Whether `after` is `before` having taken in a sender-key message with
/// the private key `sk`, the public key `pk` and the id `id`: those three
/// replace their fields and the signing key, the verifier fields stay.
pub open spec fn took_sender_key(before: ControlKeys, after: ControlKeys, sk: Seq<u8>, pk: Seq<u8>, id: Seq<char>) -> bool {
    &&& after.private_key@ == sk
    &&& after.public_key@ == pk
    &&& after.my_id@ == id
    &&& key_view(after.signing_key) == Some(sk)
    &&& after.have_signing_key
    &&& after.verifying_key@ == before.verifying_key@
    &&& after.have_verifier_key == before.have_verifier_key
}

/// Whether `after` is `before` having taken in a verifier-key message
/// with the public key `vk`: it replaces the verifying key, the rest stays.
pub open spec fn took_verifier_key(before: ControlKeys, after: ControlKeys, vk: Seq<u8>) -> bool {
    &&& after.verifying_key@ == vk
    &&& after.have_verifier_key
    &&& after.private_key@ == before.private_key@
    &&& after.public_key@ == before.public_key@
    &&& after.my_id@ == before.my_id@
    &&& key_view(after.signing_key) == key_view(before.signing_key)
    &&& after.have_signing_key == before.have_signing_key
}

/// Whether two key collections hold the same keys.
pub open spec fn same_keys(a: ControlKeys, b: ControlKeys) -> bool {
    &&& a.private_key@ == b.private_key@
    &&& a.public_key@ == b.public_key@
    &&& a.verifying_key@ == b.verifying_key@
    &&& key_view(a.signing_key) == key_view(b.signing_key)
    &&& a.have_signing_key == b.have_signing_key
    &&& a.have_verifier_key == b.have_verifier_key
    &&& a.my_id@ == b.my_id@
}

/// The order in which the two kinds of control-plane message arrive does
/// not matter: taking in a sender-key message and then a verifier-key
/// message gives the same keys as taking them in the other way round.
pub proof fn lemma_key_messages_commute(
    start: ControlKeys,
    s1: ControlKeys,
    s2: ControlKeys,
    v1: ControlKeys,
    v2: ControlKeys,
    sk: Seq<u8>,
    pk: Seq<u8>,
    id: Seq<char>,
    vk: Seq<u8>,
)
    requires
        took_sender_key(start, s1, sk, pk, id),
        took_verifier_key(s1, s2, vk),
        took_verifier_key(start, v1, vk),
        took_sender_key(v1, v2, sk, pk, id),
    ensures
        same_keys(s2, v2),
{
}

impl ControlKeys {
    /// The keys are consistent: a signing key is held exactly when a
    /// sender-key message was taken in, and it is the private key, which
    /// `fips204` accepts as an ML-DSA-44 private key.
    pub open spec fn wf(&self) -> bool {
        &&& self.have_signing_key == (self.signing_key is Some)
        &&& self.signing_key matches Some(k) ==> {
            &&& k@ == self.private_key@
            &&& ml_dsa_44_private_key_valid(k@)
        }
    }

    /// No keys yet.
    pub fn new() -> (k: ControlKeys)
        ensures
            k.wf(),
            k.private_key@.len() == 0,
            k.public_key@.len() == 0,
            k.verifying_key@.len() == 0,
            k.signing_key is None,
            !k.have_signing_key,
            !k.have_verifier_key,
            k.my_id@.len() == 0,
    {
        ControlKeys {
            private_key: Vec::new(),
            public_key: Vec::new(),
            verifying_key: Vec::new(),
            signing_key: None,
            have_signing_key: false,
            have_verifier_key: false,
            my_id: String::new(),
        }
    }

    /// Takes in a sender-key payload: own key pair and id. The private key
    /// must be an ML-DSA-44 private key, which becomes the signing key.
    pub fn absorb_sender_key(&mut self, private_key: Vec<u8>, public_key: Vec<u8>, client_id: String) -> (r:
        Result<(), ControlError>)
        ensures
            old(self).wf() ==> final(self).wf(),
            r is Ok <==> ml_dsa_44_private_key_valid(private_key@),
            r is Ok ==> {
                &&& final(self).private_key@ == private_key@
                &&& final(self).public_key@ == public_key@
                &&& final(self).my_id@ == client_id@
                &&& final(self).signing_key == Some(private_key)
                &&& final(self).have_signing_key
                &&& final(self).verifying_key == old(self).verifying_key
                &&& final(self).have_verifier_key == old(self).have_verifier_key
            },
            r is Ok ==> took_sender_key(*old(self), *final(self), private_key@, public_key@, client_id@),
            r is Err ==> *final(self) == *old(self) && r == Err::<(), ControlError>(ControlError::BadSigningKey),
    {
        if !ml_dsa_44_private_key_decodes(private_key.as_slice()) {
            return Err(ControlError::BadSigningKey);
        }
        self.private_key = private_key.clone();
        self.public_key = public_key;
        self.my_id = client_id;
        self.signing_key = Some(private_key);
        self.have_signing_key = true;
        Ok(())
    }

    /// Takes in a verifier-key payload: the other party's public key.
    pub fn absorb_verifier_key(&mut self, public_key: Vec<u8>)
        ensures
            old(self).wf() ==> final(self).wf(),
            final(self).verifying_key == public_key,
            final(self).have_verifier_key,
            final(self).private_key == old(self).private_key,
            final(self).public_key == old(self).public_key,
            final(self).my_id == old(self).my_id,
            final(self).signing_key == old(self).signing_key,
            final(self).have_signing_key == old(self).have_signing_key,
            took_verifier_key(*old(self), *final(self), public_key@),
    {
        self.verifying_key = public_key;
        self.have_verifier_key = true;
    }

    /// Whether both kinds of message have been taken in, so that the
    /// party can stop listening to the control plane.
    pub fn is_complete(&self) -> (r: bool)
        ensures
            r == (self.have_signing_key && self.have_verifier_key),
    {
        self.have_signing_key && self.have_verifier_key
    }

    /// The collected keys.
    pub fn into_signature_keys(self) -> (k: SignatureKeys)
        ensures
            k.private_key == self.private_key,
            k.public_key == self.public_key,
            k.signing_key == self.signing_key,
            k.verifier_key == self.verifying_key,
            k.my_id == self.my_id,
    {
        SignatureKeys {
            private_key: self.private_key,
            public_key: self.public_key,
            signing_key: self.signing_key,
            verifier_key: self.verifying_key,
            my_id: self.my_id,
        }
    }
}

fn ready_text_bytes() -> (v: Vec<u8>)
    ensures
        v@ == ready_text(),
{
    let mut v: Vec<u8> = Vec::new();
    v.push(82);
    v.push(101);
    v.push(97);
    v.push(100);
    v.push(121);
    v.push(32);
    v.push(116);
    v.push(111);
    v.push(32);
    v.push(115);
    v.push(101);
    v.push(110);
    v.push(100);
    assert(v@ =~= ready_text());
    v
}

/// Signs `text` with this party's signing key.
fn sign_with(keys: &SignatureKeys, text: Vec<u8>) -> (r: Result<Signed, SessionError>)
    ensures
        keys.signing_key is None ==> r == Err::<Signed, SessionError>(SessionError::NoSigningKey),
        keys.signing_key is Some ==> (r is Ok || r == Err::<Signed, SessionError>(SessionError::SigningFailed)),
        r matches Ok(s) ==> {
            &&& keys.signing_key is Some
            &&& s.text@ == text@
            &&& signed_by(keys.signing_key->0@, text@, s.signature@)
        },
{
    let key = match &keys.signing_key {
        Some(k) => k,
        None => {
            return Err(SessionError::NoSigningKey);
        },
    };
    match ml_dsa_44_sign(key.as_slice(), text.as_slice()) {
        Some(signature) => Ok(Signed { text, signature }),
        None => Err(SessionError::SigningFailed),
    }
}

/// The client's request to start: `Ready to send`, signed with its
/// signing key. The signature verifies under the public key of the
/// signing key's pair. `NoSigningKey` exactly when there is no signing
/// key; with one, only the signer's randomness can make it fail
/// (`SigningFailed`).
pub fn sign_ready_request(keys: &SignatureKeys) -> (r: Result<Signed, SessionError>)
    ensures
        keys.signing_key is None ==> r == Err::<Signed, SessionError>(SessionError::NoSigningKey),
        keys.signing_key is Some ==> (r is Ok || r == Err::<Signed, SessionError>(SessionError::SigningFailed)),
        r matches Ok(s) ==> {
            &&& s.text@ == ready_text()
            &&& keys.signing_key is Some
            &&& signed_by(keys.signing_key->0@, ready_text(), s.signature@)
        },
{
    sign_with(keys, ready_text_bytes())
}

/// The receiver's check of a signed request (or of any signed text): the
/// signature must verify under the other party's key, and the text must
/// be UTF-8; the text is returned.
pub fn receive_signed_rq(keys: &SignatureKeys, text: Vec<u8>, signature: &[u8]) -> (r: Result<
    String,
    SessionError,
>)
    ensures
        match (r, signed_text_outcome(keys.verifier_key@, text@, signature@)) {
            (Ok(s), Ok(t)) => s@ == t,
            (Err(e), Err(f)) => e == f,
            _ => false,
        },
{
    if !ml_dsa_44_verify(keys.verifier_key.as_slice(), text.as_slice(), signature) {
        return Err(SessionError::AuthorisationFailed);
    }
    match string_from_utf8(text) {
        Some(s) => Ok(s),
        None => Err(SessionError::BadText),
    }
}

/// The receiver's ML-KEM-512 encapsulation key, signed with its signing
/// key.
pub fn ml_key_to_send(keys: &SignatureKeys, encapsulation_key: Vec<u8>) -> (r: Result<Signed, SessionError>)
    ensures
        keys.signing_key is None ==> r == Err::<Signed, SessionError>(SessionError::NoSigningKey),
        keys.signing_key is Some ==> (r is Ok || r == Err::<Signed, SessionError>(SessionError::SigningFailed)),
        r matches Ok(s) ==> {
            &&& s.text@ == encapsulation_key@
            &&& keys.signing_key is Some
            &&& signed_by(keys.signing_key->0@, encapsulation_key@, s.signature@)
        },
{
    sign_with(keys, encapsulation_key)
}

/// The client's check of the receiver's signed encapsulation key: the key
/// is returned if the signature verifies under the receiver's public key.
pub fn accept_ml_key(keys: &SignatureKeys, pub_key: Vec<u8>, signature: &[u8]) -> (r: Result<
    Vec<u8>,
    SessionError,
>)
    ensures
        ml_dsa_44_accepts(keys.verifier_key@, pub_key@, signature@) ==> (r matches Ok(k) && k@ == pub_key@),
        !ml_dsa_44_accepts(keys.verifier_key@, pub_key@, signature@) ==> r == Err::<Vec<u8>, SessionError>(
            SessionError::AuthorisationFailed,
        ),
{
    if ml_dsa_44_verify(keys.verifier_key.as_slice(), pub_key.as_slice(), signature) {
        Ok(pub_key)
    } else {
        Err(SessionError::AuthorisationFailed)
    }
}

/// A fresh ML-KEM-512 key pair for the receiver: the seed of the
/// decapsulation key and the encapsulation key that belongs to it; `None`
/// when the operating system's random source fails.
pub fn ml_kem_key_pair() -> (r: Option<(Vec<u8>, Vec<u8>)>)
    ensures
        r matches Some((seed, ek)) ==> {
            &&& seed@.len() == ML_KEM_SEED_LEN
            &&& ek@.len() == ML_KEM_512_EK_LEN
            &&& ek@ == ml_kem_512_ek_of(seed@)
        },
{
    match seeded_std_rng() {
        Some(mut rng) => Some(ml_kem_512_generate(&mut rng)),
        None => None,
    }
}

/// The client's encapsulation of a fresh shared secret to the receiver's
/// encapsulation key: the ciphertext to send and the shared secret. The
/// receiver, decapsulating the ciphertext with the key whose encapsulation
/// key this is (`get_ss_from_ct`), gets the same secret. `BadKey` when
/// the key is not an ML-KEM-512 encapsulation key that `ml-kem` accepts
/// (never for one made from a seed); `RandomnessFailed` when the
/// operating system's random source fails.
pub fn encapsulate_shared_secret(pub_key: &[u8]) -> (r: Result<(Vec<u8>, Vec<u8>), SessionError>)
    ensures
        r == Err::<(Vec<u8>, Vec<u8>), SessionError>(SessionError::BadKey) ==> !(pub_key@.len() == ML_KEM_512_EK_LEN
            && exists|seed: Seq<u8>| seed.len() == ML_KEM_SEED_LEN && #[trigger] ml_kem_512_ek_of(seed) == pub_key@),
        r matches Ok((ct, ss)) ==> {
            &&& ct@.len() == ML_KEM_512_CT_LEN
            &&& ss@.len() == SHARED_SECRET_LEN
            &&& forall|seed: Seq<u8>|
                seed.len() == ML_KEM_SEED_LEN && #[trigger] ml_kem_512_ek_of(seed) == pub_key@
                    ==> ml_kem_512_decaps(seed, ct@) == ss@
        },
        r is Err ==> r == Err::<(Vec<u8>, Vec<u8>), SessionError>(SessionError::BadKey) || r == Err::<
            (Vec<u8>, Vec<u8>),
            SessionError,
        >(SessionError::RandomnessFailed),
{
    let mut rng = match seeded_std_rng() {
        Some(g) => g,
        None => {
            return Err(SessionError::RandomnessFailed);
        },
    };
    match ml_kem_512_encapsulate(pub_key, &mut rng) {
        Some(p) => Ok(p),
        None => Err(SessionError::BadKey),
    }
}

/// The receiver's decapsulation of the client's ciphertext with its
/// decapsulation key (given as its seed): the shared secret.
pub fn get_ss_from_ct(ciphertext: &[u8], key_seed: &[u8]) -> (r: Result<Vec<u8>, SessionError>)
    ensures
        r is Ok <==> (key_seed@.len() == ML_KEM_SEED_LEN && ciphertext@.len() == ML_KEM_512_CT_LEN),
        r matches Ok(ss) ==> {
            &&& ss@ == ml_kem_512_decaps(key_seed@, ciphertext@)
            &&& ss@.len() == SHARED_SECRET_LEN
        },
        r is Err ==> r == Err::<Vec<u8>, SessionError>(SessionError::BadKey),
{
    match ml_kem_512_decapsulate(key_seed, ciphertext) {
        Some(ss) => Ok(ss),
        None => Err(SessionError::BadKey),
    }
}

/// The client's encryption of a message under the session key; `None`
/// when the key is not an AES key length. What it returns decrypts back
/// to the message.
pub fn seal_message(text: &str, aes_key: &[u8]) -> (r: Option<Vec<u8>>)
    ensures
        r is Some <==> valid_aes_key_len(aes_key@.len()),
        r matches Some(c) ==> {
            &&& c@ == aes_ecb_pkcs7_encrypt(aes_key@, text.spec_bytes())
            &&& message_outcome(aes_key@, c@) == Ok::<Seq<char>, MessageError>(text@)
        },
{
    let r = aes_ecb_encrypt(text.as_bytes(), aes_key);
    proof {
        vstd::utf8::encode_utf8_valid_utf8(text@);
        vstd::utf8::encode_utf8_decode_utf8(text@);
    }
    r
}

/// The receiver's decryption of a message under the session key.
pub fn receive_message(aes_key: &[u8], ciphertext: &[u8]) -> (r: Result<String, MessageError>)
    ensures
        match (r, message_outcome(aes_key@, ciphertext@)) {
            (Ok(s), Ok(t)) => s@ == t,
            (Err(e), Err(f)) => e == f,
            _ => false,
        },
{
    let plain = match aes_ecb_decrypt(ciphertext, aes_key) {
        Some(p) => p,
        None => {
            return Err(MessageError::DecryptFailed);
        },
    };
    match string_from_utf8(plain) {
        Some(s) => Ok(s),
        None => Err(MessageError::NotUtf8),
    }
}

/// A request that the client signs with its signing key is accepted by a
/// receiver whose verifying key is the public key of the signing key's
/// pair, and reads `Ready to send`.
pub proof fn lemma_ready_request_accepted(signing_key: Seq<u8>, verifier_key: Seq<u8>, signature: Seq<u8>)
    requires
        ml_dsa_44_key_pair(verifier_key, signing_key),
        signed_by(signing_key, ready_text(), signature),
    ensures
        signed_text_outcome(verifier_key, ready_text(), signature) == Ok::<Seq<char>, SessionError>(
            seq!['R', 'e', 'a', 'd', 'y', ' ', 't', 'o', ' ', 's', 'e', 'n', 'd'],
        ),
{
    let chars = seq!['R', 'e', 'a', 'd', 'y', ' ', 't', 'o', ' ', 's', 'e', 'n', 'd'];
    vstd::utf8::is_ascii_chars_encode_utf8(chars);
    assert(encode_utf8(chars) =~= ready_text());
    vstd::utf8::encode_utf8_valid_utf8(chars);
    vstd::utf8::encode_utf8_decode_utf8(chars);
}

} // verus!
