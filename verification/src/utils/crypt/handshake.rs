//! The handshake that makes the portal accept the session's public key.
//!
//! The client asks for the portal's RSA public key, sends its own public
//! key encrypted under it, and receives a challenge: its own public key,
//! encrypted under itself as passphrase. Where the challenge decrypts to the
//! own key the handshake is accepted, and the encrypted own key is the
//! session's token. The requests themselves are made by the caller: this
//! module decides what to request next and what an answer means.

use super::blob::FormatError;
use super::cipher::{decrypt_lanis_string_with_key, decrypted_string, CryptorError};
use super::outside::{
    base64_encode, base64_text, is_rsa_public_pem, rsa_encrypt_under, rsa_modulus_len,
    rsa_public_from_pem, trim, trimmed,
};
use crate::utils::text::text_eq;
use vstd::prelude::*;
use vstd::utf8::encode_utf8;

verus! {

/// Where a handshake stands.
#[derive(Clone, Debug)]
pub enum HandshakeState {
    /// The portal's public key was asked for.
    AwaitingServerKey,
    /// The own key was sent under `token`; the challenge is awaited.
    AwaitingChallenge { token: String },
    /// The portal accepted the own key under `token`.
    Accepted { token: String },
    /// The handshake failed. A new one needs a new key pair.
    Failed { error: CryptorError },
}

/// What the caller reports back after a request.
#[derive(Clone, Debug)]
pub enum HandshakeEvent {
    /// The portal answered, and the field asked for holds this text: the
    /// portal's key as PEM after the key request, the challenge after the
    /// submission.
    Answered(String),
    /// The request did not go through.
    NetworkFailure,
    /// The answer was not JSON with the field asked for.
    MalformedAnswer,
}

/// What the caller is to do next.
#[derive(Clone, Debug)]
pub enum HandshakeAction {
    /// Ask the portal for its public key.
    RequestServerKey,
    /// Submit this text as the form field `key`.
    SubmitKey(String),
    /// Nothing: the handshake is over.
    Stop,
}

/// A request of the handshake: a POST to the portal's AJAX address, whose
/// answer is a JSON object.
#[derive(Clone, Debug)]
pub struct HandshakeRequest {
    /// The query parameter `f`: the function asked of the portal.
    pub function: &'static str,
    /// The query parameter `s`, where the function takes one.
    pub session: Option<&'static str>,
    /// The form field `key`, where the function takes one.
    pub key: Option<String>,
    /// The field of the answer that holds its text.
    pub answer: &'static str,
}

/// `HandshakeState` over sequences.
pub enum HandshakeStateView {
    AwaitingServerKey,
    AwaitingChallenge { token: Seq<char> },
    Accepted { token: Seq<char> },
    Failed { error: CryptorError },
}

/// `HandshakeEvent` over sequences.
pub enum HandshakeEventView {
    Answered(Seq<char>),
    NetworkFailure,
    MalformedAnswer,
}

/// `HandshakeAction` over sequences.
pub enum HandshakeActionView {
    RequestServerKey,
    SubmitKey(Seq<char>),
    Stop,
}

/// `HandshakeRequest` over sequences.
pub struct HandshakeRequestView {
    pub function: Seq<char>,
    pub session: Option<Seq<char>>,
    pub key: Option<Seq<char>>,
    pub answer: Seq<char>,
}

impl View for HandshakeState {
    type V = HandshakeStateView;

    open spec fn view(&self) -> HandshakeStateView {
        match self {
            HandshakeState::AwaitingServerKey => HandshakeStateView::AwaitingServerKey,
            HandshakeState::AwaitingChallenge { token } => HandshakeStateView::AwaitingChallenge {
                token: token@,
            },
            HandshakeState::Accepted { token } => HandshakeStateView::Accepted { token: token@ },
            HandshakeState::Failed { error } => HandshakeStateView::Failed { error: *error },
        }
    }
}

impl View for HandshakeEvent {
    type V = HandshakeEventView;

    open spec fn view(&self) -> HandshakeEventView {
        match self {
            HandshakeEvent::Answered(text) => HandshakeEventView::Answered(text@),
            HandshakeEvent::NetworkFailure => HandshakeEventView::NetworkFailure,
            HandshakeEvent::MalformedAnswer => HandshakeEventView::MalformedAnswer,
        }
    }
}

impl View for HandshakeAction {
    type V = HandshakeActionView;

    open spec fn view(&self) -> HandshakeActionView {
        match self {
            HandshakeAction::RequestServerKey => HandshakeActionView::RequestServerKey,
            HandshakeAction::SubmitKey(token) => HandshakeActionView::SubmitKey(token@),
            HandshakeAction::Stop => HandshakeActionView::Stop,
        }
    }
}

impl View for HandshakeRequest {
    type V = HandshakeRequestView;

    open spec fn view(&self) -> HandshakeRequestView {
        HandshakeRequestView {
            function: self.function@,
            session: match self.session {
                Some(session) => Some(session@),
                None => None,
            },
            key: match self.key {
                Some(key) => Some(key@),
                None => None,
            },
            answer: self.answer@,
        }
    }
}

/// The request that an action asks for: the portal's key is asked for with
/// `f=rsaPublicKey` and comes in the field `publickey`; the own key is
/// submitted with `f=rsaHandshake&s=1111` as the form field `key`, and the
/// challenge comes in the field `challenge`.
pub open spec fn request_for(action: HandshakeActionView) -> Option<HandshakeRequestView> {
    match action {
        HandshakeActionView::RequestServerKey => Some(
            HandshakeRequestView {
                function: "rsaPublicKey"@,
                session: None,
                key: None,
                answer: "publickey"@,
            },
        ),
        HandshakeActionView::SubmitKey(token) => Some(
            HandshakeRequestView {
                function: "rsaHandshake"@,
                session: Some("1111"@),
                key: Some(token),
                answer: "challenge"@,
            },
        ),
        HandshakeActionView::Stop => None,
    }
}

/// The view of an optional request.
pub open spec fn request_view(request: Option<HandshakeRequest>) -> Option<HandshakeRequestView> {
    match request {
        Some(request) => Some(request@),
        None => None,
    }
}

/// How far an RSA message may reach: the cipher adds 11 bytes of padding to
/// the length before it compares.
pub open spec fn fits_rsa(message: Seq<u8>) -> bool {
    message.len() + 11 <= usize::MAX
}

/// Whether a ciphertext is short enough to be encoded.
pub open spec fn fits_token(sealed: Seq<u8>) -> bool {
    sealed.len() / 3 * 4 + 4 <= usize::MAX / 2
}

/// Whether the challenge answers the own key: decrypted under the own key
/// as passphrase, without removing padding, and trimmed, it is the own key,
/// trimmed.
pub open spec fn challenge_answers(challenge: Seq<char>, own_key: Seq<char>) -> bool {
    decrypted_string(encode_utf8(challenge), encode_utf8(own_key)) == Ok::<
        Seq<char>,
        CryptorError,
    >(trimmed(own_key))
}

/// A failed handshake.
pub open spec fn failed(error: CryptorError) -> (HandshakeStateView, HandshakeActionView) {
    (HandshakeStateView::Failed { error }, HandshakeActionView::Stop)
}

/// What follows the portal's key: `Format(Pem)` where it is no RSA public
/// key; `Encryption` where the own key could not be encrypted under it;
/// otherwise the encoded ciphertext is submitted as the token.
pub open spec fn after_server_key(
    pem: Seq<char>,
    own_key: Seq<char>,
    sealed: Option<Seq<u8>>,
) -> (HandshakeStateView, HandshakeActionView) {
    if !is_rsa_public_pem(pem) {
        failed(CryptorError::Format(FormatError::Pem))
    } else if !fits_rsa(encode_utf8(own_key)) {
        failed(CryptorError::Encryption)
    } else {
        match sealed {
            Some(bytes) if fits_token(bytes) => (
                HandshakeStateView::AwaitingChallenge { token: base64_text(bytes) },
                HandshakeActionView::SubmitKey(base64_text(bytes)),
            ),
            _ => failed(CryptorError::Encryption),
        }
    }
}

/// What follows the challenge: the handshake is accepted under `token`
/// where the challenge answers the own key, and has failed otherwise.
pub open spec fn after_challenge(
    token: Seq<char>,
    challenge: Seq<char>,
    own_key: Seq<char>,
) -> (HandshakeStateView, HandshakeActionView) {
    if challenge_answers(challenge, own_key) {
        (HandshakeStateView::Accepted { token }, HandshakeActionView::Stop)
    } else {
        failed(CryptorError::HandshakeFailed)
    }
}

/// The handshake's transition. `sealed` is the own key encrypted under the
/// portal's key, which is read only where the portal's key has just
/// arrived.
///
/// A request that did not go through fails the handshake with `Network`,
/// an answer of the wrong shape with `Format(Json)`. An accepted or failed
/// handshake stays as it is.
pub open spec fn stepped(
    state: HandshakeStateView,
    event: HandshakeEventView,
    own_key: Seq<char>,
    sealed: Option<Seq<u8>>,
) -> (HandshakeStateView, HandshakeActionView) {
    match state {
        HandshakeStateView::Accepted { .. } | HandshakeStateView::Failed { .. } => (
            state,
            HandshakeActionView::Stop,
        ),
        HandshakeStateView::AwaitingServerKey => match event {
            HandshakeEventView::Answered(pem) => after_server_key(pem, own_key, sealed),
            HandshakeEventView::NetworkFailure => failed(CryptorError::Network),
            HandshakeEventView::MalformedAnswer => failed(CryptorError::Format(FormatError::Json)),
        },
        HandshakeStateView::AwaitingChallenge { token } => match event {
            HandshakeEventView::Answered(challenge) => after_challenge(token, challenge, own_key),
            HandshakeEventView::NetworkFailure => failed(CryptorError::Network),
            HandshakeEventView::MalformedAnswer => failed(CryptorError::Format(FormatError::Json)),
        },
    }
}

/// The view of an optional byte string.
pub open spec fn sealed_view(sealed: Option<Vec<u8>>) -> Option<Seq<u8>> {
    match sealed {
        Some(bytes) => Some(bytes@),
        None => None,
    }
}

/// The view of a state and an action.
pub open spec fn step_view(
    step: (HandshakeState, HandshakeAction),
) -> (HandshakeStateView, HandshakeActionView) {
    (step.0@, step.1@)
}

/// The handshake succeeds if and only if the challenge answers the own
/// key: from the state that awaits the challenge, an answer leads to
/// `Accepted`, under the token that was submitted, exactly where it
/// decrypts to the own key, and to `Failed` with `HandshakeFailed`
/// everywhere else.
pub proof fn lemma_accepted_iff_challenge_answers(
    token: Seq<char>,
    challenge: Seq<char>,
    own_key: Seq<char>,
    sealed: Option<Seq<u8>>,
)
    ensures
        challenge_answers(challenge, own_key) <==> stepped(
            HandshakeStateView::AwaitingChallenge { token },
            HandshakeEventView::Answered(challenge),
            own_key,
            sealed,
        ) == (HandshakeStateView::Accepted { token }, HandshakeActionView::Stop),
        !challenge_answers(challenge, own_key) <==> stepped(
            HandshakeStateView::AwaitingChallenge { token },
            HandshakeEventView::Answered(challenge),
            own_key,
            sealed,
        ) == failed(CryptorError::HandshakeFailed),
{
}

/// Whether the challenge answers the own key.
pub fn verify_challenge(challenge: &str, own_key: &String) -> (accepted: bool)
    ensures
        accepted == challenge_answers(challenge@, own_key@),
{
    match decrypt_lanis_string_with_key(challenge, own_key) {
        Ok(answer) => text_eq(answer.as_str(), trim(own_key.as_str())),
        Err(_) => false,
    }
}

/// Where a handshake begins: the portal's key is asked for.
pub fn handshake_start() -> (step: (HandshakeState, HandshakeAction))
    ensures
        step_view(step) == (
            HandshakeStateView::AwaitingServerKey,
            HandshakeActionView::RequestServerKey,
        ),
{
    (HandshakeState::AwaitingServerKey, HandshakeAction::RequestServerKey)
}

/// The request that `action` asks for, or `None` where the handshake is
/// over.
pub fn handshake_request(action: &HandshakeAction) -> (request: Option<HandshakeRequest>)
    ensures
        request_view(request) == request_for(action@),
{
    match action {
        HandshakeAction::RequestServerKey => Some(
            HandshakeRequest {
                function: "rsaPublicKey",
                session: None,
                key: None,
                answer: "publickey",
            },
        ),
        HandshakeAction::SubmitKey(token) => Some(
            HandshakeRequest {
                function: "rsaHandshake",
                session: Some("1111"),
                key: Some(token.clone()),
                answer: "challenge",
            },
        ),
        HandshakeAction::Stop => None,
    }
}

/// The failed handshake.
fn fail(error: CryptorError) -> (step: (HandshakeState, HandshakeAction))
    ensures
        step_view(step) == failed(error),
{
    (HandshakeState::Failed { error }, HandshakeAction::Stop)
}

/// The handshake's transition, with the outcome of encrypting the own key
/// handed in.
pub fn handshake_step_with(
    state: HandshakeState,
    event: HandshakeEvent,
    own_key: &String,
    sealed: Option<Vec<u8>>,
) -> (step: (HandshakeState, HandshakeAction))
    ensures
        step_view(step) == stepped(state@, event@, own_key@, sealed_view(sealed)),
{
    match state {
        HandshakeState::Accepted { token } => (
            HandshakeState::Accepted { token },
            HandshakeAction::Stop,
        ),
        HandshakeState::Failed { error } => (HandshakeState::Failed { error }, HandshakeAction::Stop),
        HandshakeState::AwaitingServerKey => match event {
            HandshakeEvent::Answered(pem) => {
                if rsa_public_from_pem(pem.as_str()).is_none() {
                    return fail(CryptorError::Format(FormatError::Pem));
                }
                if own_key.as_str().as_bytes().len() > usize::MAX - 11 {
                    return fail(CryptorError::Encryption);
                }
                match sealed {
                    Some(bytes) => {
                        if bytes.len() / 3 > (usize::MAX / 2 - 4) / 4 {
                            return fail(CryptorError::Encryption);
                        }
                        let token = base64_encode(bytes.as_slice());
                        (
                            HandshakeState::AwaitingChallenge { token: token.clone() },
                            HandshakeAction::SubmitKey(token),
                        )
                    },
                    None => fail(CryptorError::Encryption),
                }
            },
            HandshakeEvent::NetworkFailure => fail(CryptorError::Network),
            HandshakeEvent::MalformedAnswer => fail(CryptorError::Format(FormatError::Json)),
        },
        HandshakeState::AwaitingChallenge { token } => match event {
            HandshakeEvent::Answered(challenge) => {
                if verify_challenge(challenge.as_str(), own_key) {
                    (HandshakeState::Accepted { token }, HandshakeAction::Stop)
                } else {
                    fail(CryptorError::HandshakeFailed)
                }
            },
            HandshakeEvent::NetworkFailure => fail(CryptorError::Network),
            HandshakeEvent::MalformedAnswer => fail(CryptorError::Format(FormatError::Json)),
        },
    }
}

/// Whether the own key can be encrypted under the portal's key: the
/// portal's key is an RSA public key, and the own key's text, with the 11
/// bytes that PKCS#1 v1.5 padding takes at least, is no longer than its
/// modulus.
pub open spec fn can_seal(server_key: Seq<char>, own_key: Seq<char>) -> bool {
    &&& is_rsa_public_pem(server_key)
    &&& fits_rsa(encode_utf8(own_key))
    &&& encode_utf8(own_key).len() + 11 <= rsa_modulus_len(server_key)
}

/// Encrypts the own key under the portal's key, given as PEM text, with
/// PKCS#1 v1.5 padding. Succeeds exactly where the text is an RSA public
/// key whose modulus is at least 11 bytes longer than the own key's text;
/// the ciphertext is then as long as the modulus. Its bytes are random.
pub fn seal_own_key(server_key: &str, own_key: &String) -> (sealed: Option<Vec<u8>>)
    ensures
        sealed is Some <==> can_seal(server_key@, own_key@),
        sealed matches Some(bytes) ==> bytes@.len() == rsa_modulus_len(server_key@),
{
    let message = own_key.as_str().as_bytes();
    if message.len() > usize::MAX - 11 {
        None
    } else {
        rsa_encrypt_under(server_key, message)
    }
}

/// The handshake's transition. Where the portal's key has just arrived the
/// own key is encrypted under it, with random padding, so the token is one
/// of many; everything else is decided by state and event alone.
pub fn handshake_step(
    state: HandshakeState,
    event: HandshakeEvent,
    own_key: &String,
) -> (step: (HandshakeState, HandshakeAction))
    ensures
        exists|sealed: Option<Seq<u8>>| step_view(step) == stepped(state@, event@, own_key@, sealed),
{
    let sealed = match (&state, &event) {
        (HandshakeState::AwaitingServerKey, HandshakeEvent::Answered(pem)) => seal_own_key(
            pem.as_str(),
            own_key,
        ),
        _ => None,
    };
    let ghost outcome = sealed_view(sealed);
    let step = handshake_step_with(state, event, own_key, sealed);
    assert(step_view(step) == stepped(state@, event@, own_key@, outcome));
    step
}

} // verus!
