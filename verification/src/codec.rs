//! Fixed-width binary codec for the two persisted entity types.
//!
//! An `Identity` encodes to exactly [`IDENTITY_LEN`] bytes as
//! `id ‖ fingerprint ‖ public_key`; a `Message` encodes to exactly
//! [`MESSAGE_LEN`] bytes as
//! `sender_id ‖ fingerprint ‖ message ‖ signature ‖ public_key ‖ recipient_id`.
//! Encoding and decoding are total inverses on well-formed values, which
//! [`lemma_identity_round_trip`] and [`lemma_message_round_trip`] prove.

use vstd::prelude::*;

use crate::bytes_util::{append_bytes, copy_range};
use crate::RelayError;

verus! {

/// Width of an identity id and of a recipient id.
pub const ID_LEN: usize = 32;

/// Width of a public-key fingerprint.
pub const FINGERPRINT_LEN: usize = 32;

/// Width of a message payload.
pub const PAYLOAD_LEN: usize = 1024;

/// Width of a signature.
pub const SIGNATURE_LEN: usize = 1024;

/// Width of the binary encoding of a public key.
pub const PUBLIC_KEY_LEN: usize = 1038;

/// Width of an encoded `Identity`: `32 + 32 + 1038`.
pub const IDENTITY_LEN: usize = 1102;

/// Width of an encoded `Message`: `32 + 32 + 1024 + 1024 + 1038 + 32`.
pub const MESSAGE_LEN: usize = 3182;

/// A registered participant: a stable 32-byte id, a key fingerprint kept for
/// display, and the binary encoding of the participant's public key.
pub struct Identity {
    pub id: Vec<u8>,
    pub fingerprint: Vec<u8>,
    pub public_key: Vec<u8>,
}

/// One signed, addressed payload.  The sender's public key travels with the
/// message so the relay can verify without a prior identity lookup.
pub struct Message {
    pub sender_id: Vec<u8>,
    pub fingerprint: Vec<u8>,
    pub message: Vec<u8>,
    pub signature: Vec<u8>,
    pub public_key: Vec<u8>,
    pub recipient_id: Vec<u8>,
}

/// The mathematical value of an `Identity`: its fields as byte sequences.
#[verifier::ext_equal]
pub struct IdentityView {
    pub id: Seq<u8>,
    pub fingerprint: Seq<u8>,
    pub public_key: Seq<u8>,
}

/// The mathematical value of a `Message`: its fields as byte sequences.
#[verifier::ext_equal]
pub struct MessageView {
    pub sender_id: Seq<u8>,
    pub fingerprint: Seq<u8>,
    pub message: Seq<u8>,
    pub signature: Seq<u8>,
    pub public_key: Seq<u8>,
    pub recipient_id: Seq<u8>,
}

impl View for Identity {
    type V = IdentityView;

    open spec fn view(&self) -> IdentityView {
        IdentityView {
            id: self.id@,
            fingerprint: self.fingerprint@,
            public_key: self.public_key@,
        }
    }
}

impl View for Message {
    type V = MessageView;

    open spec fn view(&self) -> MessageView {
        MessageView {
            sender_id: self.sender_id@,
            fingerprint: self.fingerprint@,
            message: self.message@,
            signature: self.signature@,
            public_key: self.public_key@,
            recipient_id: self.recipient_id@,
        }
    }
}

/// Every field has its canonical width.
pub open spec fn identity_wf(v: IdentityView) -> bool {
    &&& v.id.len() == ID_LEN
    &&& v.fingerprint.len() == FINGERPRINT_LEN
    &&& v.public_key.len() == PUBLIC_KEY_LEN
}

/// Every field has its canonical width.
pub open spec fn message_wf(v: MessageView) -> bool {
    &&& v.sender_id.len() == ID_LEN
    &&& v.fingerprint.len() == FINGERPRINT_LEN
    &&& v.message.len() == PAYLOAD_LEN
    &&& v.signature.len() == SIGNATURE_LEN
    &&& v.public_key.len() == PUBLIC_KEY_LEN
    &&& v.recipient_id.len() == ID_LEN
}

/// The encoded form of an identity: the concatenation of its fields.
pub open spec fn spec_encode_identity(v: IdentityView) -> Seq<u8> {
    v.id + v.fingerprint + v.public_key
}

/// The identity read back from an encoded buffer of the canonical length.
pub open spec fn spec_decode_identity(b: Seq<u8>) -> IdentityView {
    IdentityView {
        id: b.subrange(0, 32),
        fingerprint: b.subrange(32, 64),
        public_key: b.subrange(64, 1102),
    }
}

/// The encoded form of a message: the concatenation of its fields.
pub open spec fn spec_encode_message(v: MessageView) -> Seq<u8> {
    v.sender_id + v.fingerprint + v.message + v.signature + v.public_key + v.recipient_id
}

/// The message read back from an encoded buffer of the canonical length.
pub open spec fn spec_decode_message(b: Seq<u8>) -> MessageView {
    MessageView {
        sender_id: b.subrange(0, 32),
        fingerprint: b.subrange(32, 64),
        message: b.subrange(64, 1088),
        signature: b.subrange(1088, 2112),
        public_key: b.subrange(2112, 3150),
        recipient_id: b.subrange(3150, 3182),
    }
}

impl Identity {
    /// All fields at their canonical widths.
    pub open spec fn wf(&self) -> bool {
        identity_wf(self@)
    }

    /// Serialize to the fixed-width binary layout.
    pub fn encode(&self) -> (r: Vec<u8>)
        ensures
            r@ == spec_encode_identity(self@),
            self.wf() ==> r@.len() == IDENTITY_LEN,
    {
        let mut out: Vec<u8> = Vec::new();
        append_bytes(&mut out, &self.id);
        append_bytes(&mut out, &self.fingerprint);
        append_bytes(&mut out, &self.public_key);
        proof {
            assert(out@ =~= spec_encode_identity(self@));
        }
        out
    }

    /// Deserialize from the fixed-width binary layout; rejects every buffer
    /// whose length is not exactly [`IDENTITY_LEN`].
    pub fn decode(bytes: &Vec<u8>) -> (r: Result<Identity, RelayError>)
        ensures
            r is Ok <==> bytes@.len() == IDENTITY_LEN,
            r is Err <==> r == Result::<Identity, RelayError>::Err(RelayError::Codec)
                && bytes@.len() != IDENTITY_LEN,
            r matches Ok(ident) ==> ident@ == spec_decode_identity(bytes@) && ident.wf(),
    {
        if bytes.len() != IDENTITY_LEN {
            return Err(RelayError::Codec);
        }
        let ident = Identity {
            id: copy_range(bytes, 0, 32),
            fingerprint: copy_range(bytes, 32, 64),
            public_key: copy_range(bytes, 64, 1102),
        };
        Ok(ident)
    }
}

impl Message {
    /// All fields at their canonical widths.
    pub open spec fn wf(&self) -> bool {
        message_wf(self@)
    }

    /// Serialize to the fixed-width binary layout.
    pub fn encode(&self) -> (r: Vec<u8>)
        ensures
            r@ == spec_encode_message(self@),
            self.wf() ==> r@.len() == MESSAGE_LEN,
    {
        let mut out: Vec<u8> = Vec::new();
        append_bytes(&mut out, &self.sender_id);
        append_bytes(&mut out, &self.fingerprint);
        append_bytes(&mut out, &self.message);
        append_bytes(&mut out, &self.signature);
        append_bytes(&mut out, &self.public_key);
        append_bytes(&mut out, &self.recipient_id);
        proof {
            assert(out@ =~= spec_encode_message(self@));
        }
        out
    }

    /// Deserialize from the fixed-width binary layout; rejects every buffer
    /// whose length is not exactly [`MESSAGE_LEN`].
    pub fn decode(bytes: &Vec<u8>) -> (r: Result<Message, RelayError>)
        ensures
            r is Ok <==> bytes@.len() == MESSAGE_LEN,
            r is Err <==> r == Result::<Message, RelayError>::Err(RelayError::Codec)
                && bytes@.len() != MESSAGE_LEN,
            r matches Ok(m) ==> m@ == spec_decode_message(bytes@) && m.wf(),
    {
        if bytes.len() != MESSAGE_LEN {
            return Err(RelayError::Codec);
        }
        let m = Message {
            sender_id: copy_range(bytes, 0, 32),
            fingerprint: copy_range(bytes, 32, 64),
            message: copy_range(bytes, 64, 1088),
            signature: copy_range(bytes, 1088, 2112),
            public_key: copy_range(bytes, 2112, 3150),
            recipient_id: copy_range(bytes, 3150, 3182),
        };
        Ok(m)
    }
}

/// Round trip for identities: decoding an encoded well-formed identity gives
/// back the identity, field for field.
pub proof fn lemma_identity_round_trip(v: IdentityView)
    requires
        identity_wf(v),
    ensures
        spec_decode_identity(spec_encode_identity(v)) == v,
{
    let e = spec_encode_identity(v);
    assert(e.subrange(0, 32) =~= v.id);
    assert(e.subrange(32, 64) =~= v.fingerprint);
    assert(e.subrange(64, 1102) =~= v.public_key);
    assert(spec_decode_identity(e) =~= v);
}

/// Round trip for messages: decoding an encoded well-formed message gives
/// back the message, field for field.
pub proof fn lemma_message_round_trip(v: MessageView)
    requires
        message_wf(v),
    ensures
        spec_decode_message(spec_encode_message(v)) == v,
{
    let e = spec_encode_message(v);
    assert(e.subrange(0, 32) =~= v.sender_id);
    assert(e.subrange(32, 64) =~= v.fingerprint);
    assert(e.subrange(64, 1088) =~= v.message);
    assert(e.subrange(1088, 2112) =~= v.signature);
    assert(e.subrange(2112, 3150) =~= v.public_key);
    assert(e.subrange(3150, 3182) =~= v.recipient_id);
    assert(spec_decode_message(e) =~= v);
}

} // verus!
