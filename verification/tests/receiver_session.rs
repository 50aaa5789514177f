use fips204::ml_dsa_44;
use fips204::traits::SerDes;
use pqc_telemetry::framing::{frame_message, time_field};
use pqc_telemetry::protocol::{
    accept_ml_key, encapsulate_shared_secret, seal_message, sign_ready_request, ControlKeys, MessageError,
    SessionError, SignatureKeys,
};
use pqc_telemetry::session::{receiver_step, ReceiverAction, ReceiverEvent, ReceiverPhase, ReceiverSession};

fn pair() -> (Vec<u8>, Vec<u8>) {
    let (pk, sk) = ml_dsa_44::try_keygen().unwrap();
    (pk.into_bytes().to_vec(), sk.into_bytes().to_vec())
}

fn keys(own: Option<(Vec<u8>, Vec<u8>)>, other: Vec<u8>) -> SignatureKeys {
    let mut k = ControlKeys::new();
    if let Some((pk, sk)) = own {
        k.absorb_sender_key(sk, pk, "one".to_string()).unwrap();
    }
    k.absorb_verifier_key(other);
    k.into_signature_keys()
}

#[test]
fn receiver_runs_a_whole_session() {
    let (cpk, csk) = pair();
    let (rpk, rsk) = pair();
    let client = keys(Some((cpk.clone(), csk)), rpk.clone());
    let receiver = keys(Some((rpk, rsk)), cpk);

    let mut s = ReceiverSession::new();
    assert_eq!(s.phase, ReceiverPhase::AwaitRequest);
    let rq = sign_ready_request(&client).unwrap();
    let key = match receiver_step(&mut s, &receiver, ReceiverEvent::Request { text: rq.text, signature: rq.signature }) {
        ReceiverAction::SendKey { key, request } => {
            assert_eq!(request, "Ready to send".to_string());
            key
        }
        _ => panic!("expected the signed key"),
    };
    assert_eq!(s.phase, ReceiverPhase::AwaitCiphertext);
    assert_eq!(s.seed.len(), 64);
    assert_eq!(key.text.len(), 800);

    let ek = accept_ml_key(&client, key.text, &key.signature).unwrap();
    let (ct, ss) = encapsulate_shared_secret(&ek).unwrap();
    assert!(matches!(receiver_step(&mut s, &receiver, ReceiverEvent::Ciphertext(ct)), ReceiverAction::Wait));
    assert_eq!(s.phase, ReceiverPhase::Streaming);
    assert_eq!(s.shared_secret, ss);

    let frame = frame_message(1, &time_field(5), "{\"epoch\": 5}");
    let c = seal_message(&frame, &ss).unwrap();
    match receiver_step(&mut s, &receiver, ReceiverEvent::Message(c)) {
        ReceiverAction::Deliver(text) => assert_eq!(text, frame),
        _ => panic!("expected the message"),
    }
    assert_eq!(s.phase, ReceiverPhase::Streaming);

    match receiver_step(&mut s, &receiver, ReceiverEvent::Message(vec![1, 2, 3])) {
        ReceiverAction::Close(e) => assert_eq!(e, MessageError::DecryptFailed),
        _ => panic!("expected the connection to close"),
    }
    assert_eq!(s.phase, ReceiverPhase::Closed);
}

#[test]
fn receiver_refuses_a_bad_request_and_sends_no_key() {
    let (cpk, csk) = pair();
    let (rpk, rsk) = pair();
    let (other_pk, _) = pair();
    let client = keys(Some((cpk, csk)), rpk.clone());
    let receiver = keys(Some((rpk, rsk)), other_pk);
    let mut s = ReceiverSession::new();
    let rq = sign_ready_request(&client).unwrap();
    match receiver_step(&mut s, &receiver, ReceiverEvent::Request { text: rq.text, signature: rq.signature }) {
        ReceiverAction::Fail(e) => assert_eq!(e, SessionError::AuthorisationFailed),
        _ => panic!("expected the session to fail"),
    }
    assert_eq!(s.phase, ReceiverPhase::Closed);
    let mut s = ReceiverSession::new();
    match receiver_step(&mut s, &receiver, ReceiverEvent::Request { text: vec![], signature: vec![] }) {
        ReceiverAction::Fail(e) => assert_eq!(e, SessionError::AuthorisationFailed),
        _ => panic!("expected the session to fail"),
    }
    assert_eq!(s.phase, ReceiverPhase::Closed);
}

#[test]
fn receiver_ends_the_session_on_an_end_frame() {
    let (cpk, csk) = pair();
    let (rpk, rsk) = pair();
    let client = keys(Some((cpk.clone(), csk)), rpk.clone());
    let receiver = keys(Some((rpk, rsk)), cpk);
    let mut s = ReceiverSession::new();
    let rq = sign_ready_request(&client).unwrap();
    let key = match receiver_step(&mut s, &receiver, ReceiverEvent::Request { text: rq.text, signature: rq.signature }) {
        ReceiverAction::SendKey { key, .. } => key,
        _ => panic!("expected the signed key"),
    };
    let ek = accept_ml_key(&client, key.text, &key.signature).unwrap();
    let (ct, ss) = encapsulate_shared_secret(&ek).unwrap();
    assert!(matches!(receiver_step(&mut s, &receiver, ReceiverEvent::Ciphertext(ct)), ReceiverAction::Wait));
    let end = frame_message(2, &time_field(6), "END");
    let c = seal_message(&end, &ss).unwrap();
    assert!(matches!(receiver_step(&mut s, &receiver, ReceiverEvent::Message(c)), ReceiverAction::End));
    assert_eq!(s.phase, ReceiverPhase::Closed);
}

#[test]
fn receiver_without_signing_key_fails() {
    let (cpk, csk) = pair();
    let client = keys(Some((cpk.clone(), csk)), vec![0; 1312]);
    let receiver = keys(None, cpk);
    let mut s = ReceiverSession::new();
    let rq = sign_ready_request(&client).unwrap();
    match receiver_step(&mut s, &receiver, ReceiverEvent::Request { text: rq.text, signature: rq.signature }) {
        ReceiverAction::Fail(e) => assert_eq!(e, SessionError::NoSigningKey),
        _ => panic!("expected a failure"),
    }
    assert_eq!(s.phase, ReceiverPhase::Closed);
}

#[test]
fn receiver_refuses_a_bad_ciphertext() {
    let (rpk, rsk) = pair();
    let receiver = keys(Some((rpk.clone(), rsk)), rpk.clone());
    let mut s = ReceiverSession::new();
    let rq = sign_ready_request(&receiver).unwrap();
    assert!(matches!(
        receiver_step(&mut s, &receiver, ReceiverEvent::Request { text: rq.text, signature: rq.signature }),
        ReceiverAction::SendKey { .. }
    ));
    match receiver_step(&mut s, &receiver, ReceiverEvent::Ciphertext(vec![0; 10])) {
        ReceiverAction::Fail(e) => assert_eq!(e, SessionError::BadKey),
        _ => panic!("expected a failure"),
    }
    assert_eq!(s.phase, ReceiverPhase::Closed);
}

#[test]
fn events_out_of_order_close_the_connection() {
    let receiver = keys(None, vec![]);
    let mut s = ReceiverSession::new();
    assert!(matches!(receiver_step(&mut s, &receiver, ReceiverEvent::Message(vec![0; 16])), ReceiverAction::OutOfOrder));
    assert_eq!(s.phase, ReceiverPhase::Closed);
    let mut s = ReceiverSession::new();
    assert!(matches!(receiver_step(&mut s, &receiver, ReceiverEvent::Ciphertext(vec![])), ReceiverAction::OutOfOrder));
    s.close();
    assert_eq!(s.phase, ReceiverPhase::Closed);
}
