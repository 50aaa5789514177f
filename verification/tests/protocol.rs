use fips204::ml_dsa_44;
use fips204::traits::SerDes;
use ml_kem::{Kem, KeyExport, MlKem512};
use pqc_telemetry::base64::base64_to_bytes;
use pqc_telemetry::control::{gen_aes256_key, gen_keys_for_client, gen_ml_dsa_key_pair, seal_for_transport, CLIENT_ID};
use pqc_telemetry::protocol::{
    accept_ml_key, encapsulate_shared_secret, get_ss_from_ct, ml_key_to_send, open_control_message, receive_message,
    receive_signed_rq, seal_message, sign_ready_request, ControlError, ControlKeys, MessageError, PayloadType,
    SessionError, SignatureKeys,
};

struct Control {
    aes: Vec<u8>,
    private: Vec<u8>,
    public: Vec<u8>,
}

fn control() -> Control {
    let aes = base64_to_bytes(&gen_aes256_key().unwrap()).unwrap();
    let k = gen_ml_dsa_key_pair().unwrap();
    Control {
        aes,
        private: base64_to_bytes(&k.private_key).unwrap(),
        public: base64_to_bytes(&k.public_key).unwrap(),
    }
}

fn ml_dsa_44_pair() -> (Vec<u8>, Vec<u8>) {
    let (pk, sk) = ml_dsa_44::try_keygen().unwrap();
    (pk.into_bytes().to_vec(), sk.into_bytes().to_vec())
}

fn party(signing: Option<(Vec<u8>, Vec<u8>)>, verifier: Vec<u8>) -> SignatureKeys {
    let mut keys = ControlKeys::new();
    if let Some((pk, sk)) = signing {
        keys.absorb_sender_key(sk, pk, "one".to_string()).unwrap();
    }
    keys.absorb_verifier_key(verifier);
    keys.into_signature_keys()
}

#[test]
fn control_aes_key_is_the_pi_key() {
    assert_eq!(gen_aes256_key().unwrap(), "jVCNTRnuzoN/F/Z0xamPd2k0zrBQMzCWHtDmdCI5VnU=");
    assert_eq!(base64_to_bytes(&gen_aes256_key().unwrap()).unwrap().len(), 32);
}

#[test]
fn control_key_pair_sizes() {
    let c = control();
    assert_eq!(c.private.len(), 4896);
    assert_eq!(c.public.len(), 2592);
}

#[test]
fn sealed_package_opens_to_its_text() {
    let c = control();
    let m = seal_for_transport("hello keys", &c.aes, &c.private, PayloadType::VerifierKey).unwrap();
    assert_eq!(m.payload, PayloadType::VerifierKey);
    assert_ne!(m.ciphertext, b"hello keys".to_vec());
    assert_eq!(m.ciphertext.len(), 16);
    assert_eq!(open_control_message(&m.ciphertext, &m.signature, &c.public, &c.aes), Ok("hello keys".to_string()));
}

#[test]
fn seal_needs_an_aes_key_length() {
    let c = control();
    assert!(seal_for_transport("x", &c.aes[..20], &c.private, PayloadType::SenderKey).is_none());
}

#[test]
fn control_message_errors() {
    let c = control();
    let m = seal_for_transport("payload", &c.aes, &c.private, PayloadType::SenderKey).unwrap();
    // a signature that does not verify
    let mut bad_sig = m.signature.clone();
    bad_sig[10] ^= 1;
    assert_eq!(open_control_message(&m.ciphertext, &bad_sig, &c.public, &c.aes), Err(ControlError::BadControlSignature));
    // a key that is not the control plane's
    let other = control();
    assert_eq!(open_control_message(&m.ciphertext, &m.signature, &other.public, &c.aes), Err(ControlError::BadControlSignature));
    // a ciphertext that does not decrypt (signed, but under another AES key)
    let wrong_aes = [7u8; 32];
    let r = open_control_message(&m.ciphertext, &m.signature, &c.public, &wrong_aes);
    assert!(r == Err(ControlError::DecryptFailed) || r == Err(ControlError::BadPayload));
    let not_aes = [7u8; 5];
    assert_eq!(open_control_message(&m.ciphertext, &m.signature, &c.public, &not_aes), Err(ControlError::DecryptFailed));
}

#[test]
fn control_payload_must_be_utf8() {
    let c = control();
    // encrypt bytes that are not UTF-8 and sign them as the control plane
    let bytes = soft_aes::aes::aes_enc_ecb(&[0xff, 0xfe, 0x00], &c.aes, Some("PKCS7")).unwrap();
    let sk = fips204::ml_dsa_87::PrivateKey::try_from_bytes(c.private.clone().try_into().unwrap()).unwrap();
    let sig = fips204::traits::Signer::try_sign(&sk, &bytes, &[]).unwrap();
    assert_eq!(open_control_message(&bytes, &sig, &c.public, &c.aes), Err(ControlError::BadPayload));
}

#[test]
fn client_packages_open_for_client_and_receiver() {
    let c = control();
    let p = gen_keys_for_client(&c.aes, &c.private).unwrap();
    assert_eq!(p.for_client.payload, PayloadType::SenderKey);
    assert_eq!(p.for_receiver.payload, PayloadType::VerifierKey);
    let client_text = open_control_message(&p.for_client.ciphertext, &p.for_client.signature, &c.public, &c.aes).unwrap();
    let receiver_text =
        open_control_message(&p.for_receiver.ciphertext, &p.for_receiver.signature, &c.public, &c.aes).unwrap();
    let lines: Vec<&str> = client_text.split('\n').collect();
    assert_eq!(lines.len(), 3);
    assert_eq!(lines[2], CLIENT_ID);
    assert_eq!(receiver_text, format!("{}\n{}", lines[1], CLIENT_ID));
    let sk = base64_to_bytes(lines[0]).unwrap();
    let pk = base64_to_bytes(lines[1]).unwrap();
    assert_eq!(sk.len(), 2560);
    assert_eq!(pk.len(), 1312);
    // the client's key pair works: what it signs verifies under the receiver's copy
    let client = party(Some((pk.clone(), sk)), Vec::new());
    let receiver = party(None, pk);
    let rq = sign_ready_request(&client).unwrap();
    assert_eq!(receive_signed_rq(&receiver, rq.text, &rq.signature), Ok("Ready to send".to_string()));
}

#[test]
fn client_packages_need_an_aes_key() {
    let c = control();
    assert!(gen_keys_for_client(&c.aes[..31], &c.private).is_none());
}

#[test]
fn sender_key_must_be_a_private_key() {
    let mut keys = ControlKeys::new();
    assert_eq!(keys.absorb_sender_key(vec![1, 2, 3], vec![4], "id".to_string()), Err(ControlError::BadSigningKey));
    assert!(keys.signing_key.is_none());
    assert!(!keys.is_complete());
    let (pk, sk) = ml_dsa_44_pair();
    assert_eq!(keys.absorb_sender_key(sk.clone(), pk.clone(), "id".to_string()), Ok(()));
    assert!(!keys.is_complete());
    keys.absorb_verifier_key(vec![9; 1312]);
    assert!(keys.is_complete());
    let k = keys.into_signature_keys();
    assert_eq!(k.private_key, sk);
    assert_eq!(k.public_key, pk);
    assert_eq!(k.signing_key, Some(sk));
    assert_eq!(k.verifier_key, vec![9; 1312]);
    assert_eq!(k.my_id, "id");
}

#[test]
fn whole_session() {
    let (client_pk, client_sk) = ml_dsa_44_pair();
    let (receiver_pk, receiver_sk) = ml_dsa_44_pair();
    let client = party(Some((client_pk.clone(), client_sk)), receiver_pk.clone());
    let receiver = party(Some((receiver_pk, receiver_sk)), client_pk);

    // step 3: the signed request
    let rq = sign_ready_request(&client).unwrap();
    assert_eq!(rq.text, b"Ready to send".to_vec());
    assert_eq!(receive_signed_rq(&receiver, rq.text.clone(), &rq.signature), Ok("Ready to send".to_string()));

    // step 4: the receiver's signed ML-KEM key
    let (dk, ek) = MlKem512::generate_keypair_from_rng(&mut rand::rng());
    let seed = dk.to_bytes().to_vec();
    let ek_bytes = ek.to_bytes().to_vec();
    let signed = ml_key_to_send(&receiver, ek_bytes.clone()).unwrap();
    assert_eq!(signed.text, ek_bytes);
    let accepted = accept_ml_key(&client, signed.text.clone(), &signed.signature).unwrap();
    assert_eq!(accepted, ek_bytes);

    // step 5: the shared secret
    let (ct, client_ss) = encapsulate_shared_secret(&accepted).unwrap();
    assert_eq!(ct.len(), 768);
    let receiver_ss = get_ss_from_ct(&ct, &seed).unwrap();
    assert_eq!(client_ss, receiver_ss);

    // step 7: messages
    let c = seal_message("{\"speed\": 42}", &client_ss).unwrap();
    assert_ne!(c, b"{\"speed\": 42}".to_vec());
    assert_eq!(c.len() % 16, 0);
    assert_eq!(receive_message(&receiver_ss, &c), Ok("{\"speed\": 42}".to_string()));
}

#[test]
fn session_errors() {
    let (client_pk, client_sk) = ml_dsa_44_pair();
    let (other_pk, _) = ml_dsa_44_pair();
    let client = party(Some((client_pk.clone(), client_sk)), other_pk.clone());
    let no_key = party(None, client_pk.clone());
    let receiver = party(None, client_pk);

    assert_eq!(sign_ready_request(&no_key).map(|_| ()), Err(SessionError::NoSigningKey));
    assert_eq!(ml_key_to_send(&no_key, vec![1, 2]).map(|_| ()), Err(SessionError::NoSigningKey));

    let rq = sign_ready_request(&client).unwrap();
    // a signature under another key
    let wrong = party(None, other_pk);
    assert_eq!(receive_signed_rq(&wrong, rq.text.clone(), &rq.signature), Err(SessionError::AuthorisationFailed));
    // a tampered text
    assert_eq!(receive_signed_rq(&receiver, b"Ready to sent".to_vec(), &rq.signature), Err(SessionError::AuthorisationFailed));
    // a signed text that is not UTF-8
    let signed = ml_key_to_send(&client, vec![0xff, 0xfe]).unwrap();
    assert_eq!(receive_signed_rq(&receiver, signed.text.clone(), &signed.signature), Err(SessionError::BadText));
    // an ML-KEM key whose signature does not verify
    assert_eq!(accept_ml_key(&client, signed.text, &signed.signature), Err(SessionError::AuthorisationFailed));
    // malformed ML-KEM material
    assert_eq!(encapsulate_shared_secret(&[1, 2, 3]), Err(SessionError::BadKey));
    assert_eq!(get_ss_from_ct(&[0u8; 768], &[0u8; 10]), Err(SessionError::BadKey));
    assert_eq!(get_ss_from_ct(&[0u8; 700], &[0u8; 64]), Err(SessionError::BadKey));
}

#[test]
fn message_errors() {
    let key = [3u8; 32];
    assert_eq!(seal_message("x", &key[..10]), None);
    assert_eq!(receive_message(&key, &[1, 2, 3]), Err(MessageError::DecryptFailed));
    assert_eq!(receive_message(&key[..7], &[0u8; 16]), Err(MessageError::DecryptFailed));
    let not_utf8 = soft_aes::aes::aes_enc_ecb(&[0xc3, 0x28], &key, Some("PKCS7")).unwrap();
    assert_eq!(receive_message(&key, &not_utf8), Err(MessageError::NotUtf8));
    // a message sealed under one key does not open under another
    let c = seal_message("hello", &key).unwrap();
    assert_ne!(receive_message(&[4u8; 32], &c), Ok("hello".to_string()));
}

#[test]
fn signing_fails_with_a_key_that_does_not_decode() {
    let mut keys = party(None, Vec::new());
    keys.signing_key = Some(vec![1, 2, 3]);
    assert_eq!(sign_ready_request(&keys).map(|_| ()), Err(SessionError::SigningFailed));
    assert_eq!(ml_key_to_send(&keys, vec![4, 5]).map(|_| ()), Err(SessionError::SigningFailed));
}
