//! Signatures: a node signs what it publishes with its key, and a receiver
//! holds the signature against the sender's identity, which is the sender's
//! public key in its protobuf encoding.

use vstd::prelude::*;
use crate::codec::{bytes_view, Envelope, EnvelopeView};

verus! {

/// A key pair of libp2p; nothing of what it holds is visible here.
#[verifier::external_type_specification]
#[verifier::external_body]
pub struct ExKeypair(libp2p::identity::Keypair);

/// The error with which a key pair refuses to sign.
#[verifier::external_type_specification]
#[verifier::external_body]
pub struct ExSigningError(libp2p::identity::SigningError);

/// Whether `signature` is a signature of `message` under the public key
/// that `key` encodes, as `libp2p::identity::PublicKey::verify` says after
/// `try_decode_protobuf`; false where `key` encodes no key.
pub uninterp spec fn spec_signature_verifies(
    key: Seq<u8>,
    message: Seq<u8>,
    signature: Seq<u8>,
) -> bool;

/// Calls `libp2p::identity::Keypair::sign`. Nothing is claimed of the
/// signature that comes back.
#[verifier::external_body]
fn sign_bytes(key: &libp2p::identity::Keypair, message: &Vec<u8>) -> (r: Result<
    Vec<u8>,
    libp2p::identity::SigningError,
>) {
    key.sign(message)
}

/// The identity that goes with `key`: calls
/// `libp2p::identity::Keypair::public` and `PublicKey::encode_protobuf`.
/// Nothing is claimed of the bytes that come back.
#[verifier::external_body]
pub(crate) fn public_bytes(key: &libp2p::identity::Keypair) -> (r: Vec<u8>) {
    key.public().encode_protobuf()
}

/// Calls `libp2p::identity::PublicKey::try_decode_protobuf` on `key` and
/// `verify` on what it gives. Not proved: that the answer is the one named
/// by `spec_signature_verifies`, that is, that it depends on the three byte
/// strings alone.
#[verifier::external_body]
fn verify_bytes(key: &Vec<u8>, message: &Vec<u8>, signature: &Vec<u8>) -> (r: bool)
    ensures
        r == spec_signature_verifies(key@, message@, signature@),
{
    match libp2p::identity::PublicKey::try_decode_protobuf(key) {
        Ok(public) => public.verify(message, signature),
        Err(_) => false,
    }
}

/// Whether an envelope carries a signature of its payload that verifies
/// against its sender's identity.
pub open spec fn spec_verifies(e: EnvelopeView) -> bool {
    match e.signature {
        Some(s) => spec_signature_verifies(e.sender, e.payload, s),
        None => false,
    }
}

/// Whether a signature, if there is one, is a signature of `payload` that
/// verifies under `identity`.
pub open spec fn spec_own_signature(
    identity: Seq<u8>,
    payload: Seq<u8>,
    signature: Option<Seq<u8>>,
) -> bool {
    match signature {
        Some(s) => spec_signature_verifies(identity, payload, s),
        None => true,
    }
}

/// What is kept of an attempt to sign `payload`: the signature that came
/// back, if one did and it verifies under `identity`.
pub open spec fn spec_checked(
    identity: Seq<u8>,
    payload: Seq<u8>,
    signed: Option<Seq<u8>>,
) -> Option<Seq<u8>> {
    match signed {
        Some(s) => if spec_signature_verifies(identity, payload, s) {
            Some(s)
        } else {
            None
        },
        None => None,
    }
}

/// Holds what a key gave when it was asked to sign `payload` against
/// `identity`: a signature that verifies under `identity` is kept, one that
/// does not is dropped, and a refusal gives none.
pub fn checked_signature(
    identity: &Vec<u8>,
    payload: &Vec<u8>,
    signed: Result<Vec<u8>, libp2p::identity::SigningError>,
) -> (r: Option<Vec<u8>>)
    ensures
        bytes_view(r) == spec_checked(
            identity@,
            payload@,
            match signed {
                Ok(s) => Some(s@),
                Err(_) => None,
            },
        ),
{
    match signed {
        Ok(signature) => {
            if verify_bytes(identity, payload, &signature) {
                Some(signature)
            } else {
                None
            }
        },
        Err(_) => None,
    }
}

/// Signs `payload` with `key` for the sender `identity`. What comes back is
/// a signature of `payload` that verifies under `identity`, or none: where
/// the key refuses to sign, and where its signature does not verify under
/// `identity`, as when `identity` is not the identity of `key`.
pub fn sign_payload(key: &libp2p::identity::Keypair, identity: &Vec<u8>, payload: &Vec<u8>) -> (r:
    Option<Vec<u8>>)
    ensures
        spec_own_signature(identity@, payload@, bytes_view(r)),
{
    checked_signature(identity, payload, sign_bytes(key, payload))
}

/// Whether `e` carries a signature of its payload that verifies against its
/// sender's identity. An envelope without a signature does not.
pub fn envelope_verifies(e: &Envelope) -> (r: bool)
    ensures
        r == spec_verifies(e@),
{
    match &e.signature {
        Some(s) => verify_bytes(&e.sender.bytes, &e.payload, s),
        None => false,
    }
}

} // verus!
