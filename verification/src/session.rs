//! The receiver's side of one connection, as a state machine: the
//! connection loop reads an event from the socket, hands it to
//! `receiver_step`, and performs the action that comes back.
//!
//! 1. The client's signed request arrives; the receiver checks it. A
//!    request whose signature does not verify (or whose text is not UTF-8)
//!    closes the connection, and no key is sent. Otherwise the receiver
//!    makes a fresh ML-KEM-512 key pair and sends the signed encapsulation
//!    key.
//! 2. The client's ciphertext arrives; the receiver decapsulates the
//!    shared secret.
//! 3. Encrypted messages arrive; each is decrypted with the shared secret
//!    and handed on for checking, until one fails to decrypt or the client
//!    ends the session with an `END` frame.
use vstd::prelude::*;
use vstd::utf8::{decode_utf8, encode_utf8, is_char_boundary};
use crate::framing::{
    end_marker, frame_is_well_formed, frame_nonce, frame_of, frame_well_formed, lemma_frame_roundtrip, parse_frame,
    time_field_of,
};
use crate::crypto::{ml_kem_512_decaps, ml_kem_512_ek_of, ml_kem_512_generate, seeded_std_rng, ML_KEM_SEED_LEN};
use crate::protocol::{
    get_ss_from_ct, message_outcome, ml_key_to_send, receive_message, receive_signed_rq, signed_by, signed_text_outcome,
    MessageError, SessionError, Signed, SignatureKeys,
};

verus! {

/// Where a connection stands.
#[derive(Clone, Copy, Debug, PartialEq, Eq)]
pub enum ReceiverPhase {
    /// Waiting for the client's signed request.
    AwaitRequest,
    /// Waiting for the client's ML-KEM ciphertext.
    AwaitCiphertext,
    /// Receiving encrypted messages.
    Streaming,
    /// The connection is over.
    Closed,
}

/// The receiver's state for one connection.
pub struct ReceiverSession {
    /// Where the connection stands.
    pub phase: ReceiverPhase,
    /// The seed of the ML-KEM decapsulation key (from the request on).
    pub seed: Vec<u8>,
    /// The shared secret, the session's AES key (from the ciphertext on).
    pub shared_secret: Vec<u8>,
}

/// What arrived from the client.
pub enum ReceiverEvent {
    /// The signed request.
    Request { text: Vec<u8>, signature: Vec<u8> },
    /// The ML-KEM ciphertext.
    Ciphertext(Vec<u8>),
    /// An encrypted message.
    Message(Vec<u8>),
}

/// What the receiver does next.
pub enum ReceiverAction {
    /// Send the signed encapsulation key; `request` is the text of the
    /// client's request, whose signature verified.
    SendKey { key: Signed, request: String },
    /// Nothing to send; wait for the next message.
    Wait,
    /// A decrypted message, to be checked and reported.
    Deliver(String),
    /// The client ended the session with an `END` frame; close the
    /// connection.
    End,
    /// Close the connection: a message did not decrypt.
    Close(MessageError),
    /// Close the connection with an error.
    Fail(SessionError),
    /// Close the connection: the event does not fit where the connection
    /// stands.
    OutOfOrder,
}

impl ReceiverSession {
    /// The state is consistent with the phase: from the request on, the
    /// seed is a decapsulation-key seed; while streaming, the shared secret
    /// is one that decapsulation gave.
    pub open spec fn wf(&self) -> bool {
        &&& (self.phase == ReceiverPhase::AwaitCiphertext ==> self.seed@.len() == ML_KEM_SEED_LEN)
        &&& (self.phase == ReceiverPhase::Streaming ==> self.shared_secret@.len() == crate::crypto::SHARED_SECRET_LEN)
    }

    /// A new connection, waiting for the client's request.
    pub fn new() -> (s: ReceiverSession)
        ensures
            s.phase == ReceiverPhase::AwaitRequest,
            s.wf(),
    {
        ReceiverSession { phase: ReceiverPhase::AwaitRequest, seed: Vec::new(), shared_secret: Vec::new() }
    }

    /// The client ended the session.
    pub fn close(&mut self)
        ensures
            final(self).phase == ReceiverPhase::Closed,
            old(self).wf() ==> final(self).wf(),
    {
        self.phase = ReceiverPhase::Closed;
    }
}

/// Whether the decrypted text is a frame that ends the session: one the
/// receiver can take apart whose payload starts with `END`.
pub open spec fn ends_session(text: Seq<char>) -> bool {
    frame_well_formed(encode_utf8(text)) && encode_utf8(text).subrange(40, 43) == end_marker()
}

/// One step of the receiver's side of a connection.
pub fn receiver_step(session: &mut ReceiverSession, keys: &SignatureKeys, event: ReceiverEvent) -> (action:
    ReceiverAction)
    ensures
        old(session).wf() ==> final(session).wf(),
        match (old(session).phase, event) {
            (ReceiverPhase::AwaitRequest, ReceiverEvent::Request { text, signature }) => match action {
                ReceiverAction::SendKey { key, request } => {
                    &&& final(session).phase == ReceiverPhase::AwaitCiphertext
                    &&& final(session).seed@.len() == ML_KEM_SEED_LEN
                    &&& key.text@ == ml_kem_512_ek_of(final(session).seed@)
                    &&& keys.signing_key is Some
                    &&& signed_by(keys.signing_key->0@, key.text@, key.signature@)
                    &&& signed_text_outcome(keys.verifier_key@, text@, signature@) == Ok::<Seq<char>, SessionError>(
                        request@,
                    )
                },
                ReceiverAction::Fail(e) => {
                    &&& final(session).phase == ReceiverPhase::Closed
                    &&& match signed_text_outcome(keys.verifier_key@, text@, signature@) {
                        Err(f) => e == f,
                        Ok(_) => {
                            &&& (e == SessionError::NoSigningKey || e == SessionError::SigningFailed || e
                                == SessionError::RandomnessFailed)
                            &&& keys.signing_key is None <==> e == SessionError::NoSigningKey
                        },
                    }
                },
                _ => false,
            },
            (ReceiverPhase::AwaitCiphertext, ReceiverEvent::Ciphertext(ct)) => match action {
                ReceiverAction::Wait => {
                    &&& final(session).phase == ReceiverPhase::Streaming
                    &&& final(session).shared_secret@ == ml_kem_512_decaps(old(session).seed@, ct@)
                },
                ReceiverAction::Fail(e) => {
                    &&& final(session).phase == ReceiverPhase::Closed
                    &&& e == SessionError::BadKey
                    &&& !(old(session).seed@.len() == ML_KEM_SEED_LEN && ct@.len() == crate::crypto::ML_KEM_512_CT_LEN)
                },
                _ => false,
            },
            (ReceiverPhase::Streaming, ReceiverEvent::Message(c)) => match action {
                ReceiverAction::Deliver(text) => {
                    &&& final(session).phase == ReceiverPhase::Streaming
                    &&& final(session).shared_secret == old(session).shared_secret
                    &&& message_outcome(old(session).shared_secret@, c@) == Ok::<Seq<char>, MessageError>(text@)
                    &&& !ends_session(text@)
                },
                ReceiverAction::End => {
                    &&& final(session).phase == ReceiverPhase::Closed
                    &&& message_outcome(old(session).shared_secret@, c@) matches Ok(t) && ends_session(t)
                },
                ReceiverAction::Close(e) => {
                    &&& final(session).phase == ReceiverPhase::Closed
                    &&& message_outcome(old(session).shared_secret@, c@) == Err::<Seq<char>, MessageError>(e)
                },
                _ => false,
            },
            _ => {
                &&& action is OutOfOrder
                &&& final(session).phase == ReceiverPhase::Closed
            },
        },
{
    match (session.phase, event) {
        (ReceiverPhase::AwaitRequest, ReceiverEvent::Request { text, signature }) => {
            let request = match receive_signed_rq(keys, text, signature.as_slice()) {
                Ok(t) => t,
                Err(e) => {
                    session.phase = ReceiverPhase::Closed;
                    return ReceiverAction::Fail(e);
                },
            };
            if keys.signing_key.is_none() {
                session.phase = ReceiverPhase::Closed;
                return ReceiverAction::Fail(SessionError::NoSigningKey);
            }
            let mut rng = match seeded_std_rng() {
                Some(g) => g,
                None => {
                    session.phase = ReceiverPhase::Closed;
                    return ReceiverAction::Fail(SessionError::RandomnessFailed);
                },
            };
            let (seed, ek) = ml_kem_512_generate(&mut rng);
            match ml_key_to_send(keys, ek) {
                Ok(key) => {
                    session.phase = ReceiverPhase::AwaitCiphertext;
                    session.seed = seed;
                    ReceiverAction::SendKey { key, request }
                },
                Err(e) => {
                    session.phase = ReceiverPhase::Closed;
                    ReceiverAction::Fail(e)
                },
            }
        },
        (ReceiverPhase::AwaitCiphertext, ReceiverEvent::Ciphertext(ct)) => {
            match get_ss_from_ct(ct.as_slice(), session.seed.as_slice()) {
                Ok(ss) => {
                    session.phase = ReceiverPhase::Streaming;
                    session.shared_secret = ss;
                    ReceiverAction::Wait
                },
                Err(e) => {
                    session.phase = ReceiverPhase::Closed;
                    ReceiverAction::Fail(e)
                },
            }
        },
        (ReceiverPhase::Streaming, ReceiverEvent::Message(c)) => {
            match receive_message(session.shared_secret.as_slice(), c.as_slice()) {
                Ok(text) => {
                    if frame_is_well_formed(text.as_str()) && parse_frame(text.as_str()).is_end {
                        session.phase = ReceiverPhase::Closed;
                        ReceiverAction::End
                    } else {
                        ReceiverAction::Deliver(text)
                    }
                },
                Err(e) => {
                    session.phase = ReceiverPhase::Closed;
                    ReceiverAction::Close(e)
                },
            }
        },
        _ => {
            session.phase = ReceiverPhase::Closed;
            ReceiverAction::OutOfOrder
        },
    }
}


/// What the client sends arrives: when a message decrypts, under the
/// session key, to a frame that the client made of a nonce, a time field
/// and a payload whose first three bytes are whole characters, the
/// receiver can take the delivered text apart, and it carries the client's
/// nonce and payload.
pub proof fn lemma_delivered_frame(key: Seq<u8>, c: Seq<u8>, nonce: u64, millis: u128, payload: Seq<char>)
    requires
        message_outcome(key, c) == Ok::<Seq<char>, MessageError>(frame_of(nonce, time_field_of(millis), payload)),
        encode_utf8(payload).len() >= 3,
        is_char_boundary(encode_utf8(payload), 3),
    ensures
        message_outcome(key, c) matches Ok(text) && {
            &&& frame_well_formed(encode_utf8(text))
            &&& frame_nonce(encode_utf8(text)) == Some(nonce)
            &&& decode_utf8(encode_utf8(text).subrange(40, encode_utf8(text).len() as int)) == payload
        },
{
    lemma_frame_roundtrip(nonce, millis, payload);
}

} // verus!
