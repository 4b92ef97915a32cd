//! Failures of the network transport's configuration.

use crate::text::{append, append_decimal, decimal_of};
use vstd::prelude::*;

verus! {

/// Why the transport could not be set up.
#[derive(Debug, PartialEq, Eq)]
pub enum TransportError {
    /// The listen address does not parse.
    InvalidListenAddr(String),
    /// The dialable address does not parse.
    InvalidDialableAddr(String),
    /// A bootstrap peer is not of the form `PUBLIC_KEY_HEX@HOST:PORT`.
    InvalidBootstrapPeer(String),
    /// A public key is not hexadecimal.
    InvalidPublicKeyHex(String),
    /// A public key has the wrong number of bytes.
    InvalidPublicKeyLength(usize),
    /// The bytes are no public key.
    InvalidPublicKey,
    /// The hostname does not parse.
    InvalidHostname(String),
    /// The port does not parse.
    InvalidPort(String),
}

/// `head` followed by `detail`.
fn prefixed(head: &str, detail: &str) -> (text: String)
    ensures
        text@ == head@ + detail@,
{
    let mut text = head.to_owned();
    append(&mut text, detail);
    text
}

impl TransportError {
    /// The failure in words.
    pub fn message(&self) -> (text: String)
        ensures
            text@ == (match *self {
                TransportError::InvalidListenAddr(detail) => "invalid listen address: "@ + detail@,
                TransportError::InvalidDialableAddr(detail) => "invalid dialable address: "@
                    + detail@,
                TransportError::InvalidBootstrapPeer(detail) => "invalid bootstrap peer format '"@
                    + detail@ + "': expected 'PUBLIC_KEY_HEX@HOST:PORT'"@,
                TransportError::InvalidPublicKeyHex(detail) => "invalid public key hex: "@ + detail@,
                TransportError::InvalidPublicKeyLength(length) =>
                    "invalid public key length: expected 32 bytes, got "@ + decimal_of(
                        length as nat,
                    ),
                TransportError::InvalidPublicKey => "invalid public key bytes"@,
                TransportError::InvalidHostname(detail) => "invalid hostname: "@ + detail@,
                TransportError::InvalidPort(detail) => "invalid port: "@ + detail@,
            }),
    {
        match self {
            TransportError::InvalidListenAddr(detail) => prefixed(
                "invalid listen address: ",
                detail.as_str(),
            ),
            TransportError::InvalidDialableAddr(detail) => prefixed(
                "invalid dialable address: ",
                detail.as_str(),
            ),
            TransportError::InvalidBootstrapPeer(detail) => {
                let mut text = prefixed("invalid bootstrap peer format '", detail.as_str());
                append(&mut text, "': expected 'PUBLIC_KEY_HEX@HOST:PORT'");
                text
            },
            TransportError::InvalidPublicKeyHex(detail) => prefixed(
                "invalid public key hex: ",
                detail.as_str(),
            ),
            TransportError::InvalidPublicKeyLength(length) => {
                let mut text = "invalid public key length: expected 32 bytes, got ".to_owned();
                append_decimal(&mut text, *length as u64);
                text
            },
            TransportError::InvalidPublicKey => "invalid public key bytes".to_owned(),
            TransportError::InvalidHostname(detail) => prefixed("invalid hostname: ", detail.as_str()),
            TransportError::InvalidPort(detail) => prefixed("invalid port: ", detail.as_str()),
        }
    }
}

} // verus!
