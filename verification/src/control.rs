//! The control plane's key material and key distribution: its AES-256 key,
//! derived from the digits of pi; its own ML-DSA-87 key pair; and the key
//! packages that it encrypts with its AES key and signs with its ML-DSA-87
//! key for the client and the receiver.
use vstd::prelude::*;
use vstd::string::StringSliceAdditionalSpecFns;
use vstd::utf8::{encode_utf8_decode_utf8, encode_utf8_valid_utf8};
use crate::base64::{base64_encoding, base64_from_bytes};
use crate::crypto::{
    aes_ecb_encrypt, aes_ecb_pkcs7_encrypt, ml_dsa_44_generate, ml_dsa_44_key_pair, ml_dsa_87_accepts,
    ml_dsa_87_generate, ml_dsa_87_key_pair, ml_dsa_87_sign, valid_aes_key_len,
    ML_DSA_44_SK_LEN, ML_DSA_87_SK_LEN,
};
use crate::decimal::parse_u64;
use crate::protocol::{control_outcome, ControlError, PayloadType};
use crate::text::{chars_of, string_from_chars};

verus! {

/// The decimal digits of pi after the point; their first 96 digits, read
/// in groups of three, give the bytes of the control plane's AES-256 key.
pub const PI_DIGITS: &'static str = "1415926535897932384626433832795028841971693993751058209749445923078164062862089986280348253421170679";

/// The id that the control plane gives the client.
pub const CLIENT_ID: &'static str = "one";

/// The `i`-th group of three characters of `d`.
pub open spec fn digit_group(d: Seq<char>, i: int) -> Seq<char> {
    d.subrange(3 * i, 3 * i + 3)
}

/// The 32 key bytes that the first 96 characters of `d` give, each group
/// of three read as a decimal number (as `str::parse::<u16>` reads it) and
/// taken modulo 256; `None` where `d` is shorter or a group does not parse.
pub open spec fn key_from_digits(d: Seq<char>) -> Option<Seq<u8>> {
    if d.len() >= 96 && forall|i: int| 0 <= i < 32 ==> #[trigger] parse_u64(digit_group(d, i)) is Some {
        Some(Seq::new(32, |i: int| (parse_u64(digit_group(d, i))->0 % 256) as u8))
    } else {
        None
    }
}

/// The base64 text of the key that the digits `d` give.
pub open spec fn key_text_from_digits(d: Seq<char>) -> Option<Seq<char>> {
    match key_from_digits(d) {
        Some(k) => Some(base64_encoding(k)),
        None => None,
    }
}

/// The base64 text of the 32-byte key that the first 96 characters of
/// `digits` give, read in groups of three decimal digits, each taken
/// modulo 256; `None` if there are fewer characters or a group is not a
/// number.
pub fn aes_key_from_digits(digits: &str) -> (r: Option<String>)
    ensures
        match (r, key_text_from_digits(digits@)) {
            (Some(s), Some(t)) => s@ == t,
            (None, None) => true,
            _ => false,
        },
{
    let d = chars_of(digits);
    if d.len() < 96 {
        return None;
    }
    let mut key: Vec<u8> = Vec::new();
    let mut i: usize = 0;
    while i < 32
        invariant
            i <= 32,
            d@ == digits@,
            d@.len() >= 96,
            key@.len() == i,
            forall|j: int| 0 <= j < i ==> #[trigger] parse_u64(digit_group(d@, j)) is Some,
            forall|j: int| 0 <= j < i ==> #[trigger] key@[j] == (parse_u64(digit_group(d@, j))->0 % 256) as u8,
        decreases 32 - i,
    {
        let mut group: Vec<char> = Vec::new();
        group.push(d[3 * i]);
        group.push(d[3 * i + 1]);
        group.push(d[3 * i + 2]);
        assert(group@ =~= digit_group(d@, i as int));
        match crate::decimal::parse_u64_chars(&group) {
            Some(v) => {
                key.push((v % 256) as u8);
            },
            None => {
                return None;
            },
        }
        i = i + 1;
    }
    assert(key@ =~= Seq::new(32, |j: int| (parse_u64(digit_group(d@, j))->0 % 256) as u8));
    Some(base64_from_bytes(key.as_slice()))
}

/// The control plane's AES-256 key, as base64 text: the key that the
/// digits of pi give (`aes_key_from_digits(PI_DIGITS)`).
pub fn gen_aes256_key() -> (r: Option<String>)
    ensures
        match (r, key_text_from_digits(PI_DIGITS@)) {
            (Some(s), Some(t)) => s@ == t,
            (None, None) => true,
            _ => false,
        },
{
    aes_key_from_digits(PI_DIGITS)
}


/// An ML-DSA key pair as base64 text.
pub struct MlDsaKeyStrings {
    /// The private key.
    pub private_key: String,
    /// The public key.
    pub public_key: String,
}

/// A fresh ML-DSA-87 key pair for the control plane, as base64 text;
/// `None` when the key generator fails.
pub fn gen_ml_dsa_key_pair() -> (r: Option<MlDsaKeyStrings>)
    ensures
        r matches Some(k) ==> exists|sk: Seq<u8>, pk: Seq<u8>|
            {
                &&& sk.len() == ML_DSA_87_SK_LEN
                &&& #[trigger] ml_dsa_87_key_pair(pk, sk)
                &&& base64_encoding(sk) == k.private_key@
                &&& base64_encoding(pk) == k.public_key@
            },
{
    match ml_dsa_87_generate() {
        Some((pk, sk)) => {
            let private_key = base64_from_bytes(sk.as_slice());
            let public_key = base64_from_bytes(pk.as_slice());
            Some(MlDsaKeyStrings { private_key, public_key })
        },
        None => None,
    }
}

/// A key package as the control plane sends it: the AES ciphertext of the
/// package text, the control plane's ML-DSA-87 signature on the
/// ciphertext, and which kind of key it carries.
pub struct SignedCipherText {
    /// The AES-ECB (PKCS#7) ciphertext of the package text.
    pub ciphertext: Vec<u8>,
    /// The ML-DSA-87 signature on the ciphertext.
    pub signature: Vec<u8>,
    /// Which kind of key the package carries.
    pub payload: PayloadType,
}

/// The two packages that the control plane makes for a client: one for the
/// client itself and one for the receiver.
pub struct ClientKeyPackages {
    /// For the client: its private key, its public key and its id.
    pub for_client: SignedCipherText,
    /// For the receiver: the client's public key and its id.
    pub for_receiver: SignedCipherText,
}

/// The text of the client's package: private key, public key and id, one
/// per line.
pub open spec fn client_package_text(private_key: Seq<char>, public_key: Seq<char>, id: Seq<char>) -> Seq<
    char,
> {
    private_key + seq!['\n'] + public_key + seq!['\n'] + id
}

/// Whether the package (ciphertext and signature) opens to `text` for
/// whoever holds the AES key and a public key that forms a key pair with
/// the control plane's private key.
pub open spec fn opens_to(
    control_private: Seq<u8>,
    control_aes: Seq<u8>,
    ciphertext: Seq<u8>,
    signature: Seq<u8>,
    text: Seq<char>,
) -> bool {
    forall|pk: Seq<u8>|
        #[trigger] ml_dsa_87_key_pair(pk, control_private) ==> control_outcome(ciphertext, signature, pk, control_aes)
            == Ok::<Seq<char>, ControlError>(text)
}

/// The text of the receiver's package: the client's public key and id, one
/// per line.
pub open spec fn receiver_package_text(public_key: Seq<char>, id: Seq<char>) -> Seq<char> {
    public_key + seq!['\n'] + id
}

fn join_lines(parts: &Vec<&str>) -> (s: String)
    ensures
        parts@.len() == 3 ==> s@ == parts@[0]@ + seq!['\n'] + parts@[1]@ + seq!['\n'] + parts@[2]@,
        parts@.len() == 2 ==> s@ == parts@[0]@ + seq!['\n'] + parts@[1]@,
{
    let mut out: Vec<char> = Vec::new();
    let mut i: usize = 0;
    while i < parts.len()
        invariant
            i <= parts@.len(),
            i == 0 ==> out@ == Seq::<char>::empty(),
            i == 1 ==> out@ == parts@[0]@,
            i == 2 ==> out@ == parts@[0]@ + seq!['\n'] + parts@[1]@,
            i == 3 ==> out@ == parts@[0]@ + seq!['\n'] + parts@[1]@ + seq!['\n'] + parts@[2]@,
        decreases parts@.len() - i,
    {
        let ghost before = out@;
        if i > 0 {
            out.push('\n');
        }
        let mut c = chars_of(parts[i]);
        out.append(&mut c);
        proof {
            if i == 0 {
                assert(out@ =~= parts@[0]@);
            } else {
                assert(out@ =~= before + seq!['\n'] + parts@[i as int]@);
            }
        }
        i = i + 1;
    }
    string_from_chars(out)
}

/// Encrypts `text` with the control plane's AES key and signs the
/// ciphertext with its ML-DSA-87 private key; `None` when the AES key has
/// the wrong length or signing fails (always so when the private key is
/// not of the ML-DSA-87 length; otherwise signing draws on the operating
/// system's randomness). The party that holds the AES key and the matching
/// public key opens the package to `text`.
pub fn seal_for_transport(text: &str, control_aes: &[u8], control_private: &[u8], payload: PayloadType) -> (r:
    Option<SignedCipherText>)
    ensures
        !valid_aes_key_len(control_aes@.len()) ==> r is None,
        r is Some ==> control_private@.len() == ML_DSA_87_SK_LEN,
        r matches Some(m) ==> {
            &&& m.ciphertext@ == aes_ecb_pkcs7_encrypt(control_aes@, text.spec_bytes())
            &&& m.payload == payload
            &&& opens_to(control_private@, control_aes@, m.ciphertext@, m.signature@, text@)
        },
{
    let ciphertext = match aes_ecb_encrypt(text.as_bytes(), control_aes) {
        Some(c) => c,
        None => {
            return None;
        },
    };
    let signature = match ml_dsa_87_sign(control_private, ciphertext.as_slice()) {
        Some(s) => s,
        None => {
            return None;
        },
    };
    proof {
        encode_utf8_valid_utf8(text@);
        encode_utf8_decode_utf8(text@);
    }
    Some(SignedCipherText { ciphertext, signature, payload })
}

/// The control plane's key distribution for a client: a fresh ML-DSA-44
/// key pair for the client, written as base64 text; the client's package
/// (private key, public key, id `one`) and the receiver's package (public
/// key, id), each encrypted with the control plane's AES key and signed
/// with its ML-DSA-87 key. `None` when the AES key has the wrong length,
/// or key generation or signing fails. Each package opens, for whoever
/// holds the AES key and the control plane's public key, to its text.
pub fn gen_keys_for_client(control_aes: &[u8], control_private: &[u8]) -> (r: Option<ClientKeyPackages>)
    ensures
        !valid_aes_key_len(control_aes@.len()) ==> r is None,
        r is Some ==> control_private@.len() == ML_DSA_87_SK_LEN,
        r matches Some(p) ==> exists|sk: Seq<u8>, pk: Seq<u8>|
            {
                &&& sk.len() == ML_DSA_44_SK_LEN
                &&& #[trigger] ml_dsa_44_key_pair(pk, sk)
                &&& p.for_client.payload == PayloadType::SenderKey
                &&& p.for_receiver.payload == PayloadType::VerifierKey
                &&& opens_to(
                    control_private@,
                    control_aes@,
                    p.for_client.ciphertext@,
                    p.for_client.signature@,
                    client_package_text(base64_encoding(sk), base64_encoding(pk), CLIENT_ID@),
                )
                &&& opens_to(
                    control_private@,
                    control_aes@,
                    p.for_receiver.ciphertext@,
                    p.for_receiver.signature@,
                    receiver_package_text(base64_encoding(pk), CLIENT_ID@),
                )
            },
{
    if !(control_aes.len() == 16 || control_aes.len() == 24 || control_aes.len() == 32) {
        return None;
    }
    let (pk, sk) = match ml_dsa_44_generate() {
        Some(k) => k,
        None => {
            return None;
        },
    };
    let private_key = base64_from_bytes(sk.as_slice());
    let public_key = base64_from_bytes(pk.as_slice());
    let mut parts: Vec<&str> = Vec::new();
    parts.push(private_key.as_str());
    parts.push(public_key.as_str());
    parts.push(CLIENT_ID);
    let client_text = join_lines(&parts);
    let mut parts: Vec<&str> = Vec::new();
    parts.push(public_key.as_str());
    parts.push(CLIENT_ID);
    let receiver_text = join_lines(&parts);
    let for_client = match seal_for_transport(
        client_text.as_str(),
        control_aes,
        control_private,
        PayloadType::SenderKey,
    ) {
        Some(m) => m,
        None => {
            return None;
        },
    };
    let for_receiver = match seal_for_transport(
        receiver_text.as_str(),
        control_aes,
        control_private,
        PayloadType::VerifierKey,
    ) {
        Some(m) => m,
        None => {
            return None;
        },
    };
    let r = ClientKeyPackages { for_client, for_receiver };
    assert(ml_dsa_44_key_pair(pk@, sk@));
    Some(r)
}

} // verus!
