//! Content-addressed storage for identities and messages.
//!
//! [`KvStore`] is an in-memory key-value engine: a sequence of records with
//! pairwise-distinct keys, where `put` silently overwrites the record that
//! already holds the key (last write wins).  On top of it stand the four
//! storage operations of the relay: identities are stored under their 32-byte
//! id, messages under `recipient_id ‖ digest_of(encoded message)`, so two
//! identical messages for one recipient collapse to one record.

use vstd::prelude::*;

use crate::bytes_util::{append_bytes, bytes_equal, clone_bytes, has_prefix};
use crate::codec::{
    spec_decode_identity, spec_decode_message, spec_encode_identity, spec_encode_message,
    Identity, Message, IDENTITY_LEN, MESSAGE_LEN,
};
use crate::crypto::{digest_of, hash};
use crate::RelayError;

verus! {

/// Whether the entries carry pairwise-distinct keys.
pub open spec fn unique_keys(entries: Seq<(Seq<u8>, Seq<u8>)>) -> bool {
    forall|i: int, j: int|
        0 <= i < j < entries.len() ==> entries[i].0 != entries[j].0
}

/// Whether some entry carries `key`.
pub open spec fn spec_has_key(entries: Seq<(Seq<u8>, Seq<u8>)>, key: Seq<u8>) -> bool {
    exists|i: int| 0 <= i < entries.len() && entries[i].0 == key
}

/// The value stored under `key`, if any.  With pairwise-distinct keys the
/// witness is unique, so the choice is canonical.
pub open spec fn spec_lookup(entries: Seq<(Seq<u8>, Seq<u8>)>, key: Seq<u8>) -> Option<Seq<u8>> {
    if spec_has_key(entries, key) {
        let i = choose|i: int| 0 <= i < entries.len() && entries[i].0 == key;
        Some(entries[i].1)
    } else {
        None
    }
}

/// The entries with every record under `key` dropped, order kept.
pub open spec fn spec_remove_key(entries: Seq<(Seq<u8>, Seq<u8>)>, key: Seq<u8>) -> Seq<
    (Seq<u8>, Seq<u8>),
>
    decreases entries.len(),
{
    if entries.len() == 0 {
        Seq::empty()
    } else {
        let front = spec_remove_key(entries.drop_last(), key);
        if entries.last().0 == key {
            front
        } else {
            front.push(entries.last())
        }
    }
}

/// The entries after storing `value` under `key`: the old record for `key`
/// is dropped and the new one appended.
pub open spec fn spec_put(
    entries: Seq<(Seq<u8>, Seq<u8>)>,
    key: Seq<u8>,
    value: Seq<u8>,
) -> Seq<(Seq<u8>, Seq<u8>)> {
    spec_remove_key(entries, key).push((key, value))
}

/// No record of `spec_remove_key(entries, key)` carries `key`.
pub proof fn lemma_remove_key_no_key(entries: Seq<(Seq<u8>, Seq<u8>)>, key: Seq<u8>)
    ensures
        forall|i: int|
            0 <= i < spec_remove_key(entries, key).len()
                ==> #[trigger] spec_remove_key(entries, key)[i].0 != key,
    decreases entries.len(),
{
    if entries.len() > 0 {
        lemma_remove_key_no_key(entries.drop_last(), key);
        let front = spec_remove_key(entries.drop_last(), key);
        let r = spec_remove_key(entries, key);
        assert forall|i: int| 0 <= i < r.len() implies r[i].0 != key by {
            if i < front.len() {
                assert(front[i].0 != key);
            } else {
                assert(entries.last().0 != key);
                assert(r[i] == entries.last());
            }
        }
    }
}

/// Dropping a key that no record carries changes nothing.
pub proof fn lemma_remove_key_absent(entries: Seq<(Seq<u8>, Seq<u8>)>, key: Seq<u8>)
    requires
        forall|i: int| 0 <= i < entries.len() ==> #[trigger] entries[i].0 != key,
    ensures
        spec_remove_key(entries, key) == entries,
    decreases entries.len(),
{
    if entries.len() > 0 {
        assert(forall|i: int|
            0 <= i < entries.drop_last().len() ==> #[trigger] entries.drop_last()[i].0 != key);
        lemma_remove_key_absent(entries.drop_last(), key);
        assert(spec_remove_key(entries, key) =~= entries);
    } else {
        assert(spec_remove_key(entries, key) =~= entries);
    }
}

/// A record survives `spec_remove_key` exactly when it was present and does
/// not carry the dropped key.
pub proof fn lemma_remove_key_contains(entries: Seq<(Seq<u8>, Seq<u8>)>, key: Seq<u8>)
    ensures
        forall|x: (Seq<u8>, Seq<u8>)|
            #[trigger] spec_remove_key(entries, key).contains(x)
                <==> entries.contains(x) && x.0 != key,
    decreases entries.len(),
{
    let r = spec_remove_key(entries, key);
    if entries.len() == 0 {
        assert(forall|x: (Seq<u8>, Seq<u8>)| !(#[trigger] r.contains(x)));
        assert(forall|x: (Seq<u8>, Seq<u8>)| !(#[trigger] entries.contains(x)));
    } else {
        let front = entries.drop_last();
        lemma_remove_key_contains(front, key);
        assert forall|x: (Seq<u8>, Seq<u8>)|
            #[trigger] r.contains(x) <==> entries.contains(x) && x.0 != key by {
            let fr = spec_remove_key(front, key);
            if r.contains(x) {
                let i = choose|i: int| 0 <= i < r.len() && r[i] == x;
                if entries.last().0 == key {
                    assert(fr.contains(x));
                } else {
                    if i < fr.len() {
                        assert(fr.contains(x));
                    } else {
                        assert(x == entries.last());
                        assert(entries.contains(x)) by {
                            assert(entries[entries.len() - 1] == x);
                        }
                    }
                }
                if fr.contains(x) {
                    assert(front.contains(x));
                    let j = choose|j: int| 0 <= j < front.len() && front[j] == x;
                    assert(entries[j] == x);
                }
            }
            if entries.contains(x) && x.0 != key {
                let i = choose|i: int| 0 <= i < entries.len() && entries[i] == x;
                if i < entries.len() - 1 {
                    assert(front[i] == x);
                    assert(fr.contains(x));
                    let j = choose|j: int| 0 <= j < fr.len() && fr[j] == x;
                    if entries.last().0 == key {
                        assert(r[j] == x);
                    } else {
                        assert(r[j] == x);
                    }
                } else {
                    assert(x == entries.last());
                    assert(r[r.len() - 1] == x);
                }
            }
        }
    }
}

/// `spec_remove_key` keeps keys pairwise distinct.
pub proof fn lemma_remove_key_unique(entries: Seq<(Seq<u8>, Seq<u8>)>, key: Seq<u8>)
    requires
        unique_keys(entries),
    ensures
        unique_keys(spec_remove_key(entries, key)),
    decreases entries.len(),
{
    if entries.len() > 0 {
        let front = entries.drop_last();
        assert(unique_keys(front)) by {
            assert(forall|i: int, j: int|
                0 <= i < j < front.len() ==> front[i] == entries[i] && front[j] == entries[j]);
        }
        lemma_remove_key_unique(front, key);
        let fr = spec_remove_key(front, key);
        if entries.last().0 != key {
            lemma_remove_key_contains(front, key);
            assert forall|i: int| 0 <= i < fr.len() implies #[trigger] fr[i].0 != entries.last().0 by {
                if 0 <= i < fr.len() {
                    assert(fr.contains(fr[i]));
                    assert(front.contains(fr[i]));
                    let j = choose|j: int| 0 <= j < front.len() && front[j] == fr[i];
                    assert(entries[j] == fr[i]);
                    assert(entries[j].0 != entries[entries.len() - 1].0);
                }
            }
        }
    }
}

/// `spec_put` keeps keys pairwise distinct.
pub proof fn lemma_put_unique(entries: Seq<(Seq<u8>, Seq<u8>)>, key: Seq<u8>, value: Seq<u8>)
    requires
        unique_keys(entries),
    ensures
        unique_keys(spec_put(entries, key, value)),
{
    lemma_remove_key_unique(entries, key);
    lemma_remove_key_no_key(entries, key);
}

/// What a lookup finds after a put: the new value under the stored key, and
/// under every other key what it found before.
pub proof fn lemma_lookup_after_put(
    entries: Seq<(Seq<u8>, Seq<u8>)>,
    key: Seq<u8>,
    value: Seq<u8>,
    probe: Seq<u8>,
)
    requires
        unique_keys(entries),
    ensures
        spec_lookup(spec_put(entries, key, value), probe) == if probe == key {
            Some(value)
        } else {
            spec_lookup(entries, probe)
        },
{
    let r = spec_remove_key(entries, key);
    let p = spec_put(entries, key, value);
    lemma_remove_key_no_key(entries, key);
    lemma_remove_key_contains(entries, key);
    lemma_put_unique(entries, key, value);
    if probe == key {
        assert(p[p.len() - 1] == (key, value));
        assert(spec_has_key(p, probe));
        let i = choose|i: int| 0 <= i < p.len() && p[i].0 == probe;
        assert(i == p.len() - 1);
    } else {
        if spec_has_key(p, probe) {
            let i = choose|i: int| 0 <= i < p.len() && p[i].0 == probe;
            assert(i < r.len());
            assert(r.contains(r[i]));
            assert(entries.contains(r[i]));
            let j = choose|j: int| 0 <= j < entries.len() && entries[j] == r[i];
            assert(spec_has_key(entries, probe));
            let k = choose|k: int| 0 <= k < entries.len() && entries[k].0 == probe;
            assert(k == j);
            assert(spec_lookup(entries, probe) == Some(entries[k].1));
            let w = choose|w: int| 0 <= w < p.len() && p[w].0 == probe;
            assert(p[w].0 == p[i].0);
            assert(w == i);
            assert(spec_lookup(p, probe) == Some(p[i].1));
        } else {
            if spec_has_key(entries, probe) {
                let k = choose|k: int| 0 <= k < entries.len() && entries[k].0 == probe;
                assert(entries.contains(entries[k]));
                assert(r.contains(entries[k]));
                let i = choose|i: int| 0 <= i < r.len() && r[i] == entries[k];
                assert(p[i] == entries[k]);
                assert(spec_has_key(p, probe));
            }
        }
    }
}

/// Storing the same value under the same key twice is the same as storing it
/// once: insertion is idempotent.
pub proof fn lemma_put_idempotent(entries: Seq<(Seq<u8>, Seq<u8>)>, key: Seq<u8>, value: Seq<u8>)
    ensures
        spec_put(spec_put(entries, key, value), key, value) == spec_put(entries, key, value),
{
    let r = spec_remove_key(entries, key);
    lemma_remove_key_no_key(entries, key);
    let once = spec_put(entries, key, value);
    assert(once.drop_last() =~= r);
    assert(spec_remove_key(once, key) == spec_remove_key(r, key));
    lemma_remove_key_absent(r, key);
}

/// Whether a stored record is a message addressed to `id`: its key opens
/// with the id and its value has the width of an encoded message.
pub open spec fn message_match(kv: (Seq<u8>, Seq<u8>), id: Seq<u8>) -> bool {
    &&& kv.0.len() >= id.len()
    &&& kv.0.subrange(0, id.len() as int) == id
    &&& kv.1.len() == MESSAGE_LEN
}

/// The messages addressed to `id` among the entries, decoded, in store order.
pub open spec fn spec_selected_messages(
    entries: Seq<(Seq<u8>, Seq<u8>)>,
    id: Seq<u8>,
) -> Seq<crate::codec::MessageView>
    decreases entries.len(),
{
    if entries.len() == 0 {
        Seq::empty()
    } else {
        let front = spec_selected_messages(entries.drop_last(), id);
        if message_match(entries.last(), id) {
            front.push(spec_decode_message(entries.last().1))
        } else {
            front
        }
    }
}

/// Retrieval is exact: a message is selected for `id` precisely when some
/// stored record is addressed to `id` and decodes to it — no more, no fewer,
/// whatever the order of insertion was.
pub proof fn lemma_retrieval_exact(
    entries: Seq<(Seq<u8>, Seq<u8>)>,
    id: Seq<u8>,
    m: crate::codec::MessageView,
)
    ensures
        spec_selected_messages(entries, id).contains(m) <==> exists|i: int|
            0 <= i < entries.len() && #[trigger] message_match(entries[i], id)
                && spec_decode_message(entries[i].1) == m,
    decreases entries.len(),
{
    let s = spec_selected_messages(entries, id);
    if entries.len() == 0 {
        assert(!s.contains(m));
    } else {
        let front = entries.drop_last();
        lemma_retrieval_exact(front, id, m);
        let fs = spec_selected_messages(front, id);
        if s.contains(m) {
            let i = choose|i: int| 0 <= i < s.len() && s[i] == m;
            if i < fs.len() {
                assert(fs.contains(m));
                let j = choose|j: int|
                    0 <= j < front.len() && #[trigger] message_match(front[j], id)
                        && spec_decode_message(front[j].1) == m;
                assert(entries[j] == front[j]);
                assert(message_match(entries[j], id) && spec_decode_message(entries[j].1) == m);
            } else {
                assert(message_match(entries.last(), id)
                    && spec_decode_message(entries.last().1) == m);
                assert(message_match(entries[entries.len() - 1], id)
                    && spec_decode_message(entries[entries.len() - 1].1) == m);
            }
        }
        if exists|i: int|
            0 <= i < entries.len() && #[trigger] message_match(entries[i], id)
                && spec_decode_message(entries[i].1) == m {
            let i = choose|i: int|
                0 <= i < entries.len() && #[trigger] message_match(entries[i], id)
                    && spec_decode_message(entries[i].1) == m;
            if i < entries.len() - 1 {
                assert(front[i] == entries[i]);
                assert(message_match(front[i], id) && spec_decode_message(front[i].1) == m);
                assert(fs.contains(m));
                let j = choose|j: int| 0 <= j < fs.len() && fs[j] == m;
                assert(s[j] == m);
                assert(s.contains(m));
            } else {
                assert(message_match(entries.last(), id));
                assert(s[s.len() - 1] == m);
                assert(s.contains(m));
            }
        }
    }
}

/// The storage key of a message: its recipient's id followed by the content
/// hash of its encoded bytes.
pub open spec fn spec_message_key(v: crate::codec::MessageView) -> Seq<u8> {
    v.recipient_id + digest_of(spec_encode_message(v))
}

/// Compute the content-derived storage key of a message.
pub fn message_key(message: &Message) -> (r: Vec<u8>)
    ensures
        r@ == spec_message_key(message@),
{
    let encoded = message.encode();
    let digest = hash(&encoded);
    let mut key = clone_bytes(&message.recipient_id);
    append_bytes(&mut key, &digest);
    key
}

/// Store an identity under its id, overwriting any prior record for that id.
pub fn insert_identity(store: &mut KvStore, identity: &Identity) -> (r: Result<(), RelayError>)
    requires
        old(store).wf(),
    ensures
        final(store)@ == spec_put(old(store)@, identity@.id, spec_encode_identity(identity@)),
        final(store).wf(),
        r is Ok,
{
    let key = clone_bytes(&identity.id);
    let value = identity.encode();
    store.put(key, value);
    Ok(())
}

/// Read the identity stored under `id`.  Fails with `NotFound` when no
/// record holds the id, and with `Codec` when the stored bytes do not have
/// the width of an encoded identity.
pub fn retrieve_identity(store: &KvStore, id: &Vec<u8>) -> (r: Result<Identity, RelayError>)
    requires
        store.wf(),
    ensures
        match spec_lookup(store@, id@) {
            Option::None => r == Result::<Identity, RelayError>::Err(RelayError::NotFound),
            Option::Some(v) => if v.len() == IDENTITY_LEN {
                r matches Ok(ident) && ident@ == spec_decode_identity(v) && ident.wf()
            } else {
                r == Result::<Identity, RelayError>::Err(RelayError::Codec)
            },
        },
{
    match store.get(id) {
        Option::None => Err(RelayError::NotFound),
        Option::Some(value) => Identity::decode(&value),
    }
}

/// Store a message under its content-derived key.  Two byte-identical
/// messages for one recipient land on the same key, so the second insert
/// overwrites the first: insertion is idempotent.
pub fn insert_message(store: &mut KvStore, message: &Message) -> (r: Result<(), RelayError>)
    requires
        old(store).wf(),
    ensures
        final(store)@ == spec_put(
            old(store)@,
            spec_message_key(message@),
            spec_encode_message(message@),
        ),
        final(store).wf(),
        r is Ok,
{
    let key = message_key(message);
    let value = message.encode();
    store.put(key, value);
    Ok(())
}

/// Retrieve every stored message addressed to `identity`, in store order.
/// This is a linear scan of the whole keyspace by design: the store mixes
/// all recipients into one keyspace.
pub fn retrieve_messages(store: &KvStore, identity: &Identity) -> (r: Vec<Message>)
    ensures
        r@.map_values(|m: Message| m@) == spec_selected_messages(store@, identity@.id),
        forall|i: int| 0 <= i < r@.len() ==> (#[trigger] r@[i]).wf(),
{
    let mut found: Vec<Message> = Vec::new();
    let mut i: usize = 0;
    while i < store.len()
        invariant
            i <= store@.len(),
            found@.map_values(|m: Message| m@) == spec_selected_messages(
                store@.take(i as int),
                identity@.id,
            ),
            forall|j: int| 0 <= j < found@.len() ==> (#[trigger] found@[j]).wf(),
        decreases store@.len() - i,
    {
        let key = store.key_at(i);
        let value = store.value_at(i);
        let ghost before = found@.map_values(|m: Message| m@);
        if has_prefix(key, &identity.id) && value.len() == MESSAGE_LEN {
            match Message::decode(value) {
                Ok(m) => {
                    found.push(m);
                },
                Err(_) => {
                    proof {
                        assert(false);
                    }
                },
            }
        }
        i = i + 1;
        proof {
            let taken = store@.take(i as int);
            assert(taken.drop_last() =~= store@.take(i - 1));
            assert(taken.last() == store@[i - 1]);
            assert(found@.map_values(|m: Message| m@) =~= spec_selected_messages(
                taken,
                identity@.id,
            ));
        }
    }
    proof {
        assert(store@.take(store@.len() as int) =~= store@);
    }
    found
}

/// Content addressing: a message's storage key is derived from its encoded
/// bytes, so storing the same message twice for the same recipient leaves
/// exactly the records that one insert left.
pub proof fn lemma_message_insert_idempotent(
    entries: Seq<(Seq<u8>, Seq<u8>)>,
    m: crate::codec::MessageView,
)
    ensures
        spec_put(
            spec_put(entries, spec_message_key(m), spec_encode_message(m)),
            spec_message_key(m),
            spec_encode_message(m),
        ) == spec_put(entries, spec_message_key(m), spec_encode_message(m)),
{
    lemma_put_idempotent(entries, spec_message_key(m), spec_encode_message(m));
}

/// An in-memory key-value engine: ordered records, pairwise-distinct keys,
/// last write wins.
pub struct KvStore {
    records: Vec<(Vec<u8>, Vec<u8>)>,
}

impl View for KvStore {
    type V = Seq<(Seq<u8>, Seq<u8>)>;

    closed spec fn view(&self) -> Seq<(Seq<u8>, Seq<u8>)> {
        self.records@.map(|i: int, kv: (Vec<u8>, Vec<u8>)| (kv.0@, kv.1@))
    }
}

impl KvStore {
    /// The engine invariant: keys are pairwise distinct.
    pub closed spec fn wf(&self) -> bool {
        unique_keys(self@)
    }

    /// An empty store.
    pub fn new() -> (r: KvStore)
        ensures
            r@ == Seq::<(Seq<u8>, Seq<u8>)>::empty(),
            r.wf(),
    {
        let r = KvStore { records: Vec::new() };
        proof {
            assert(r@ =~= Seq::<(Seq<u8>, Seq<u8>)>::empty());
        }
        r
    }

    /// The number of stored records.
    pub fn len(&self) -> (n: usize)
        ensures
            n == self@.len(),
    {
        self.records.len()
    }

    /// The key of the record at a position, in store order.
    pub fn key_at(&self, i: usize) -> (k: &Vec<u8>)
        requires
            i < self@.len(),
        ensures
            k@ == self@[i as int].0,
    {
        &self.records[i].0
    }

    /// The value of the record at a position, in store order.
    pub fn value_at(&self, i: usize) -> (v: &Vec<u8>)
        requires
            i < self@.len(),
        ensures
            v@ == self@[i as int].1,
    {
        &self.records[i].1
    }

    /// Store `value` under `key`, overwriting any record that held the key.
    pub fn put(&mut self, key: Vec<u8>, value: Vec<u8>)
        requires
            old(self).wf(),
        ensures
            final(self)@ == spec_put(old(self)@, key@, value@),
            final(self).wf(),
    {
        let ghost entries = self@;
        let mut kept: Vec<(Vec<u8>, Vec<u8>)> = Vec::new();
        let mut i: usize = 0;
        while i < self.records.len()
            invariant
                i <= self.records@.len(),
                self@ == entries,
                kept@.map(|j: int, kv: (Vec<u8>, Vec<u8>)| (kv.0@, kv.1@))
                    == spec_remove_key(entries.take(i as int), key@),
            decreases self.records@.len() - i,
        {
            let ghost before = kept@.map(|j: int, kv: (Vec<u8>, Vec<u8>)| (kv.0@, kv.1@));
            if !bytes_equal(&self.records[i].0, &key) {
                let k = clone_bytes(&self.records[i].0);
                let v = clone_bytes(&self.records[i].1);
                kept.push((k, v));
            }
            i = i + 1;
            proof {
                let taken = entries.take(i as int);
                assert(taken.drop_last() =~= entries.take(i - 1));
                assert(taken.last() == entries[i - 1]);
                assert(kept@.map(|j: int, kv: (Vec<u8>, Vec<u8>)| (kv.0@, kv.1@))
                    =~= spec_remove_key(taken, key@));
            }
        }
        kept.push((key, value));
        proof {
            assert(entries.take(entries.len() as int) =~= entries);
        }
        self.records = kept;
        proof {
            assert(self@ =~= spec_put(entries, key@, value@));
            lemma_put_unique(entries, key@, value@);
        }
    }

    /// Read the value stored under `key`, if any.
    pub fn get(&self, key: &Vec<u8>) -> (r: Option<Vec<u8>>)
        requires
            self.wf(),
        ensures
            match r {
                Some(v) => spec_lookup(self@, key@) == Some(v@),
                None => spec_lookup(self@, key@) is None,
            },
    {
        let mut i: usize = 0;
        while i < self.records.len()
            invariant
                i <= self@.len(),
                self.wf(),
                forall|j: int| 0 <= j < i ==> self@[j].0 != key@,
            decreases self@.len() - i,
        {
            if bytes_equal(&self.records[i].0, key) {
                let v = clone_bytes(&self.records[i].1);
                proof {
                    assert(self@[i as int].0 == key@);
                    assert(spec_has_key(self@, key@));
                    let w = choose|w: int| 0 <= w < self@.len() && self@[w].0 == key@;
                    assert(self@[w].0 == self@[i as int].0);
                    assert(w == i as int);
                }
                return Some(v);
            }
            i = i + 1;
        }
        proof {
            assert(!spec_has_key(self@, key@));
        }
        None
    }
}

} // verus!
