//! The protocol engine: the fixed-size wire packet, the signature gate, the
//! three commands and the framing of the delivery handshake.
//!
//! One connection carries exactly one packet.  The packet is parsed, its
//! signature is checked against the embedded public key, and only a packet
//! that verifies reaches a command: an invalid signature answers with status
//! 9 and leaves both stores untouched, whatever the command byte said.

use vstd::prelude::*;

use crate::bytes_util::{bytes_equal, clone_bytes, copy_range};
use crate::codec::{
    spec_decode_identity, spec_encode_identity, spec_encode_message, Identity, IdentityView,
    Message, MessageView, IDENTITY_LEN,
};
use crate::crypto::{digest_of, hash, import_keypair_from_binary, key_decodes, sig_valid, verify};
use crate::store::{
    insert_identity, insert_message, retrieve_identity, retrieve_messages, spec_lookup,
    spec_message_key, spec_put, spec_selected_messages, KvStore,
};
use crate::RelayError;

verus! {

/// Width of a wire packet: a command byte followed by the six fixed-width
/// fields of a message.
pub const PACKET_LEN: usize = 3183;

/// Status byte: the command was carried out.
pub const STATUS_ACCEPTED: u8 = 0;

/// Status byte: the store refused the record.
pub const STATUS_STORE_REFUSED: u8 = 1;

/// Status byte: the packet's signature did not verify.
pub const STATUS_SIGNATURE_REJECTED: u8 = 9;

/// Terminator byte written after the last delivered message; distinct from
/// every status byte.
pub const DELIVERY_TERMINATOR: u8 = 97;

/// One inbound wire packet, already split into its fixed-width fields.
pub struct Packet {
    pub command: u8,
    pub identity: Vec<u8>,
    pub fingerprint: Vec<u8>,
    pub message: Vec<u8>,
    pub signature: Vec<u8>,
    pub public_key: Vec<u8>,
    pub recipient: Vec<u8>,
}

/// The mathematical value of a `Packet`.
#[verifier::ext_equal]
pub struct PacketView {
    pub command: u8,
    pub identity: Seq<u8>,
    pub fingerprint: Seq<u8>,
    pub message: Seq<u8>,
    pub signature: Seq<u8>,
    pub public_key: Seq<u8>,
    pub recipient: Seq<u8>,
}

impl View for Packet {
    type V = PacketView;

    open spec fn view(&self) -> PacketView {
        PacketView {
            command: self.command,
            identity: self.identity@,
            fingerprint: self.fingerprint@,
            message: self.message@,
            signature: self.signature@,
            public_key: self.public_key@,
            recipient: self.recipient@,
        }
    }
}

/// The packet read back from a raw buffer of the canonical length.
pub open spec fn spec_decode_packet(b: Seq<u8>) -> PacketView {
    PacketView {
        command: b[0],
        identity: b.subrange(1, 33),
        fingerprint: b.subrange(33, 65),
        message: b.subrange(65, 1089),
        signature: b.subrange(1089, 2113),
        public_key: b.subrange(2113, 3151),
        recipient: b.subrange(3151, 3183),
    }
}

/// The wire form of a packet: the command byte followed by its fields.
pub open spec fn spec_encode_packet(p: PacketView) -> Seq<u8> {
    seq![p.command] + p.identity + p.fingerprint + p.message + p.signature + p.public_key
        + p.recipient
}

/// Every field at its canonical width.
pub open spec fn packet_wf(p: PacketView) -> bool {
    &&& p.identity.len() == 32
    &&& p.fingerprint.len() == 32
    &&& p.message.len() == 1024
    &&& p.signature.len() == 1024
    &&& p.public_key.len() == 1038
    &&& p.recipient.len() == 32
}

impl Packet {
    /// All fields at their canonical widths.
    pub open spec fn wf(&self) -> bool {
        packet_wf(self@)
    }

    /// Split a raw buffer into a packet; rejects every buffer whose length
    /// is not exactly [`PACKET_LEN`].
    pub fn decode(bytes: &Vec<u8>) -> (r: Result<Packet, RelayError>)
        ensures
            r is Ok <==> bytes@.len() == PACKET_LEN,
            r is Err <==> r == Result::<Packet, RelayError>::Err(RelayError::Codec)
                && bytes@.len() != PACKET_LEN,
            r matches Ok(p) ==> p@ == spec_decode_packet(bytes@) && p.wf(),
    {
        if bytes.len() != PACKET_LEN {
            return Err(RelayError::Codec);
        }
        let p = Packet {
            command: bytes[0],
            identity: copy_range(bytes, 1, 33),
            fingerprint: copy_range(bytes, 33, 65),
            message: copy_range(bytes, 65, 1089),
            signature: copy_range(bytes, 1089, 2113),
            public_key: copy_range(bytes, 2113, 3151),
            recipient: copy_range(bytes, 3151, 3183),
        };
        Ok(p)
    }

    /// Serialize a packet to its wire form.
    pub fn encode(&self) -> (r: Vec<u8>)
        ensures
            r@ == spec_encode_packet(self@),
            self.wf() ==> r@.len() == PACKET_LEN,
    {
        let mut out: Vec<u8> = Vec::new();
        out.push(self.command);
        crate::bytes_util::append_bytes(&mut out, &self.identity);
        crate::bytes_util::append_bytes(&mut out, &self.fingerprint);
        crate::bytes_util::append_bytes(&mut out, &self.message);
        crate::bytes_util::append_bytes(&mut out, &self.signature);
        crate::bytes_util::append_bytes(&mut out, &self.public_key);
        crate::bytes_util::append_bytes(&mut out, &self.recipient);
        proof {
            assert(out@ =~= spec_encode_packet(self@));
        }
        out
    }
}

/// The three commands of the wire protocol; every other command byte is a
/// no-op answered with a neutral status.
#[derive(Clone, Copy, Debug, PartialEq, Eq, Structural)]
pub enum Command {
    SubmitIdentity,
    SendMessage,
    RetrieveMessages,
    Noop,
}

/// The command selected by a command byte.
pub open spec fn spec_command_of(c: u8) -> Command {
    if c == 0 {
        Command::SubmitIdentity
    } else if c == 1 {
        Command::SendMessage
    } else if c == 2 {
        Command::RetrieveMessages
    } else {
        Command::Noop
    }
}

/// Map a command byte to its command.
pub fn command_of(c: u8) -> (r: Command)
    ensures
        r == spec_command_of(c),
{
    if c == 0 {
        Command::SubmitIdentity
    } else if c == 1 {
        Command::SendMessage
    } else if c == 2 {
        Command::RetrieveMessages
    } else {
        Command::Noop
    }
}

/// Whether the packet's signature verifies against its embedded public key.
pub open spec fn packet_signed_ok(p: PacketView) -> bool {
    sig_valid(p.public_key, p.message, p.signature)
}

/// Check the packet's signature against its embedded public key.
pub fn verify_packet_signature(packet: &Packet) -> (r: bool)
    ensures
        r == packet_signed_ok(packet@),
{
    verify(&packet.public_key, &packet.message, &packet.signature)
}

/// The identity a submit-identity packet declares.
pub open spec fn spec_identity_of_packet(p: PacketView) -> IdentityView {
    IdentityView { id: p.identity, fingerprint: p.fingerprint, public_key: p.public_key }
}

/// The message a send-message packet carries.
pub open spec fn spec_message_of_packet(p: PacketView) -> MessageView {
    MessageView {
        sender_id: p.identity,
        fingerprint: p.fingerprint,
        message: p.message,
        signature: p.signature,
        public_key: p.public_key,
        recipient_id: p.recipient,
    }
}

/// Whether a stored message still passes the signature gate: its embedded
/// key decodes and its signature verifies.  Retrieval hands out only such
/// messages, a defense against a tampered store.
pub open spec fn message_admissible(m: MessageView) -> bool {
    key_decodes(m.public_key) && sig_valid(m.public_key, m.message, m.signature)
}

/// The encoded forms of the admissible messages, in order.
pub open spec fn spec_deliverable(msgs: Seq<MessageView>) -> Seq<Seq<u8>>
    decreases msgs.len(),
{
    if msgs.len() == 0 {
        Seq::empty()
    } else {
        let front = spec_deliverable(msgs.drop_last());
        if message_admissible(msgs.last()) {
            front.push(spec_encode_message(msgs.last()))
        } else {
            front
        }
    }
}

/// The response to a retrieve-messages packet: the stored identity is looked
/// up by the packet's id, and every stored message addressed to it that
/// passes the signature gate is handed out encoded.  An unknown id and an id
/// with no messages are answered alike, with the empty sequence.
pub open spec fn spec_get_messages(rv: RelayView, id: Seq<u8>) -> Seq<Seq<u8>> {
    match spec_lookup(rv.identities, id) {
        Option::None => Seq::empty(),
        Option::Some(v) => if v.len() == IDENTITY_LEN {
            spec_deliverable(spec_selected_messages(rv.messages, spec_decode_identity(v).id))
        } else {
            Seq::empty()
        },
    }
}

/// What the engine answers on one packet.
#[derive(Debug)]
pub enum Reply {
    /// A single status byte, for submit, send, a no-op and every rejection.
    Status(u8),
    /// The encoded messages to run the delivery handshake over.
    Delivery(Vec<Vec<u8>>),
}

/// The mathematical value of a `Relay`: the entries of its two stores.
#[verifier::ext_equal]
pub struct RelayView {
    pub identities: Seq<(Seq<u8>, Seq<u8>)>,
    pub messages: Seq<(Seq<u8>, Seq<u8>)>,
}

/// The relay: the identity store and the message store, driven one packet
/// at a time.
pub struct Relay {
    pub identities: KvStore,
    pub messages: KvStore,
}

impl View for Relay {
    type V = RelayView;

    open spec fn view(&self) -> RelayView {
        RelayView { identities: self.identities@, messages: self.messages@ }
    }
}

impl Relay {
    /// Both stores carry pairwise-distinct keys.
    pub open spec fn wf(&self) -> bool {
        self.identities.wf() && self.messages.wf()
    }

    /// A relay over two empty stores.
    pub fn new() -> (r: Relay)
        ensures
            r@.identities == Seq::<(Seq<u8>, Seq<u8>)>::empty(),
            r@.messages == Seq::<(Seq<u8>, Seq<u8>)>::empty(),
            r.wf(),
    {
        Relay { identities: KvStore::new(), messages: KvStore::new() }
    }

    /// Carry out a submit-identity command: store the identity the packet
    /// declares under its id, overwriting any prior record.
    pub fn submit_identity(&mut self, packet: &Packet) -> (status: u8)
        requires
            old(self).wf(),
        ensures
            final(self).wf(),
            status == STATUS_ACCEPTED,
            final(self)@.identities == spec_put(
                old(self)@.identities,
                packet@.identity,
                spec_encode_identity(spec_identity_of_packet(packet@)),
            ),
            final(self)@.messages == old(self)@.messages,
    {
        let ident = Identity {
            id: clone_bytes(&packet.identity),
            fingerprint: clone_bytes(&packet.fingerprint),
            public_key: clone_bytes(&packet.public_key),
        };
        proof {
            assert(ident@ =~= spec_identity_of_packet(packet@));
        }
        match insert_identity(&mut self.identities, &ident) {
            Ok(_) => STATUS_ACCEPTED,
            Err(_) => STATUS_STORE_REFUSED,
        }
    }

    /// Carry out a send-message command: re-check the sender's signature and
    /// store the carried message under its content-derived key.  A message
    /// whose signature does not verify is refused and nothing is stored.
    pub fn send_message(&mut self, packet: &Packet) -> (status: u8)
        requires
            old(self).wf(),
        ensures
            final(self).wf(),
            final(self)@.identities == old(self)@.identities,
            packet_signed_ok(packet@) ==> status == STATUS_ACCEPTED && final(self)@.messages
                == spec_put(
                old(self)@.messages,
                spec_message_key(spec_message_of_packet(packet@)),
                spec_encode_message(spec_message_of_packet(packet@)),
            ),
            !packet_signed_ok(packet@) ==> status == STATUS_STORE_REFUSED && final(self)@.messages
                == old(self)@.messages,
    {
        if verify(&packet.public_key, &packet.message, &packet.signature) {
            let m = Message {
                sender_id: clone_bytes(&packet.identity),
                fingerprint: clone_bytes(&packet.fingerprint),
                message: clone_bytes(&packet.message),
                signature: clone_bytes(&packet.signature),
                public_key: clone_bytes(&packet.public_key),
                recipient_id: clone_bytes(&packet.recipient),
            };
            proof {
                assert(m@ =~= spec_message_of_packet(packet@));
            }
            match insert_message(&mut self.messages, &m) {
                Ok(_) => STATUS_ACCEPTED,
                Err(_) => STATUS_STORE_REFUSED,
            }
        } else {
            STATUS_STORE_REFUSED
        }
    }

    /// Carry out a retrieve-messages command: look the identity up by the
    /// packet's id, collect every stored message addressed to it, and hand
    /// out the encoded form of each one that passes the signature gate.
    pub fn get_messages(&self, packet: &Packet) -> (r: Vec<Vec<u8>>)
        requires
            self.wf(),
        ensures
            r@.map_values(|v: Vec<u8>| v@) == spec_get_messages(self@, packet@.identity),
    {
        let ident = match retrieve_identity(&self.identities, &packet.identity) {
            Ok(ident) => ident,
            Err(_) => {
                let empty: Vec<Vec<u8>> = Vec::new();
                proof {
                    assert(empty@.map_values(|v: Vec<u8>| v@) =~= Seq::<Seq<u8>>::empty());
                }
                return empty;
            },
        };
        let msgs = retrieve_messages(&self.messages, &ident);
        let ghost selected = spec_selected_messages(self@.messages, spec_decode_identity(
            spec_lookup(self@.identities, packet@.identity).unwrap(),
        ).id);
        let mut out: Vec<Vec<u8>> = Vec::new();
        let mut i: usize = 0;
        while i < msgs.len()
            invariant
                i <= msgs@.len(),
                msgs@.map_values(|m: Message| m@) == selected,
                out@.map_values(|v: Vec<u8>| v@) == spec_deliverable(selected.take(i as int)),
            decreases msgs@.len() - i,
        {
            proof {
                assert(msgs@[i as int]@ == selected[i as int]);
            }
            if import_keypair_from_binary(&msgs[i].public_key).is_ok() && verify(
                &msgs[i].public_key,
                &msgs[i].message,
                &msgs[i].signature,
            ) {
                out.push(msgs[i].encode());
            }
            i = i + 1;
            proof {
                let taken = selected.take(i as int);
                assert(taken.drop_last() =~= selected.take(i - 1));
                assert(taken.last() == selected[i - 1]);
                assert(out@.map_values(|v: Vec<u8>| v@) =~= spec_deliverable(taken));
            }
        }
        proof {
            assert(selected.take(selected.len() as int) =~= selected);
        }
        out
    }

    /// Drive one packet through the whole engine: parse, gate, dispatch.
    ///
    /// A buffer of the wrong length and a packet whose signature does not
    /// verify are both rejected with status 9, and no command runs: the
    /// signature gates every command, submit-identity included.  A packet
    /// that verifies runs its command; an unknown command byte is a no-op
    /// answered with a neutral status byte.
    pub fn handle_packet(&mut self, raw: &Vec<u8>) -> (r: Reply)
        requires
            old(self).wf(),
        ensures
            final(self).wf(),
            raw@.len() != PACKET_LEN ==> r == Reply::Status(STATUS_SIGNATURE_REJECTED)
                && final(self)@ == old(self)@,
            raw@.len() == PACKET_LEN && !packet_signed_ok(spec_decode_packet(raw@)) ==> r
                == Reply::Status(STATUS_SIGNATURE_REJECTED) && final(self)@ == old(self)@,
            raw@.len() == PACKET_LEN && packet_signed_ok(spec_decode_packet(raw@)) ==> match
                spec_command_of(spec_decode_packet(raw@).command) {
                Command::SubmitIdentity => r == Reply::Status(STATUS_ACCEPTED)
                    && final(self)@.identities == spec_put(
                    old(self)@.identities,
                    spec_decode_packet(raw@).identity,
                    spec_encode_identity(spec_identity_of_packet(spec_decode_packet(raw@))),
                ) && final(self)@.messages == old(self)@.messages,
                Command::SendMessage => r == Reply::Status(STATUS_ACCEPTED) && final(self)@.messages
                    == spec_put(
                    old(self)@.messages,
                    spec_message_key(spec_message_of_packet(spec_decode_packet(raw@))),
                    spec_encode_message(spec_message_of_packet(spec_decode_packet(raw@))),
                ) && final(self)@.identities == old(self)@.identities,
                Command::RetrieveMessages => final(self)@ == old(self)@
                    && (r matches Reply::Delivery(list) && list@.map_values(|v: Vec<u8>| v@)
                    == spec_get_messages(old(self)@, spec_decode_packet(raw@).identity)),
                Command::Noop => r == Reply::Status(STATUS_ACCEPTED) && final(self)@ == old(self)@,
            },
    {
        let packet = match Packet::decode(raw) {
            Ok(packet) => packet,
            Err(_) => {
                return Reply::Status(STATUS_SIGNATURE_REJECTED);
            },
        };
        if !verify_packet_signature(&packet) {
            return Reply::Status(STATUS_SIGNATURE_REJECTED);
        }
        match command_of(packet.command) {
            Command::SubmitIdentity => Reply::Status(self.submit_identity(&packet)),
            Command::SendMessage => Reply::Status(self.send_message(&packet)),
            Command::RetrieveMessages => Reply::Delivery(self.get_messages(&packet)),
            Command::Noop => Reply::Status(STATUS_ACCEPTED),
        }
    }
}

/// The remaining-count byte that opens a delivery: the number of messages,
/// saturated to the single-byte range.
pub fn delivery_count(n: usize) -> (r: u8)
    ensures
        n <= 255 ==> r == n as u8,
        n > 255 ==> r == 255u8,
{
    if n > 255 {
        255
    } else {
        n as u8
    }
}

/// The count written with the item at position `idx`: how many items still
/// follow it, saturated to the single-byte range; 0 on the last item.
pub fn remaining_after(total: usize, idx: usize) -> (r: u8)
    requires
        idx < total,
    ensures
        total - idx - 1 <= 255 ==> r == (total - idx - 1) as u8,
        total - idx - 1 > 255 ==> r == 255u8,
{
    let rest = total - idx - 1;
    if rest > 255 {
        255
    } else {
        rest as u8
    }
}

/// The frame written for one delivered message: the remaining count, the
/// 64-byte content hash of the encoded message, then the message itself.
pub fn message_frame(remaining: u8, encoded: &Vec<u8>) -> (r: Vec<u8>)
    ensures
        r@ == seq![remaining] + digest_of(encoded@) + encoded@,
{
    let mut out: Vec<u8> = Vec::new();
    out.push(remaining);
    let digest = hash(encoded);
    crate::bytes_util::append_bytes(&mut out, &digest);
    crate::bytes_util::append_bytes(&mut out, encoded);
    proof {
        assert(out@ =~= seq![remaining] + digest_of(encoded@) + encoded@);
    }
    out
}

/// The per-item acknowledgment of the delivery handshake: 0 when the hash
/// the client echoed matches the server's, 1 when it does not.
pub fn ack_status(server_hash: &Vec<u8>, client_hash: &Vec<u8>) -> (r: u8)
    ensures
        server_hash@ == client_hash@ ==> r == 0u8,
        server_hash@ != client_hash@ ==> r == 1u8,
{
    if bytes_equal(server_hash, client_hash) {
        0
    } else {
        1
    }
}

} // verus!
