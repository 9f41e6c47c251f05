//! A store-and-forward messaging relay: clients register a cryptographic
//! identity, submit signed messages addressed to a recipient identity, and
//! later retrieve every message addressed to them.  The relay authenticates
//! senders by their packet signature and stores opaque signed payloads under
//! content-derived keys; it never inspects message content.

use vstd::prelude::*;

pub mod bytes_util;
pub mod codec;
pub mod crypto;
pub mod protocol;
pub mod store;

verus! {

/// The failure kinds of the relay.  Every fallible operation of the library
/// reports one of these; none of the library's verified functions panics.
#[derive(Clone, Copy, Debug, PartialEq, Eq, Structural)]
pub enum RelayError {
    /// A short read or write on the connection.
    Transport,
    /// A buffer of the wrong length handed to a decoder.
    Codec,
    /// A public key that does not decode from its binary form.
    KeyImport,
    /// A storage engine failure.
    Storage,
    /// A lookup for an id with no stored record.
    NotFound,
}

} // verus!
