//! Peer addresses as text, and their binary form.

use vstd::prelude::*;

verus! {

/// The error with which the multiaddr parser refuses a text.
#[verifier::external_type_specification]
#[verifier::external_body]
pub struct ExMultiaddrError(libp2p::multiaddr::Error);

/// The binary form of the multiaddr that `text` spells, as
/// `libp2p::Multiaddr`'s `FromStr` gives it; none where it refuses `text`.
pub uninterp spec fn spec_multiaddr(text: Seq<char>) -> Option<Seq<u8>>;

/// A text that is no peer address.
#[derive(Clone, Copy, Debug, PartialEq, Eq, Structural)]
pub enum AddressParseError {
    Invalid,
}

/// Calls `libp2p::Multiaddr`'s `FromStr` and, on success, `to_vec`. Not
/// proved: that the outcome is the one named by `spec_multiaddr` (the parser
/// reads nothing but its argument), and that a text which is not empty and
/// does not start with `/` is refused, which is the parser's first test.
#[verifier::external_body]
fn parse_multiaddr(text: &str) -> (r: Result<Vec<u8>, libp2p::multiaddr::Error>)
    ensures
        match r {
            Ok(b) => spec_multiaddr(text@) == Some(b@),
            Err(_) => spec_multiaddr(text@).is_none(),
        },
        text@.len() > 0 && text@[0] != '/' ==> r.is_err(),
{
    match text.parse::<libp2p::Multiaddr>() {
        Ok(a) => Ok(a.to_vec()),
        Err(e) => Err(e),
    }
}

/// The binary form of the address that `text` spells. A text that the
/// multiaddr parser refuses gives `AddressParseError`; one that is not empty
/// and does not start with `/` is always refused.
pub fn parse_address(text: &str) -> (r: Result<Vec<u8>, AddressParseError>)
    ensures
        match r {
            Ok(b) => spec_multiaddr(text@) == Some(b@),
            Err(e) => spec_multiaddr(text@).is_none() && e == AddressParseError::Invalid,
        },
        text@.len() > 0 && text@[0] != '/' ==> r.is_err(),
{
    match parse_multiaddr(text) {
        Ok(b) => Ok(b),
        Err(_) => Err(AddressParseError::Invalid),
    }
}

} // verus!
