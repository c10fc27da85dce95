//! The secure channel to the password manager: the key exchange, sealed
//! requests and responses, and the pairing.
//!
//! Nothing here touches the socket. Each step either makes the text of the
//! next record to send or reads the text of a record that came back.

use crate::codec::{base64_bytes, base64_text, decode, encode};
use crate::config::{Identity, IdentityView};
use crate::crypto::{
    box_key, box_opened, box_sealed, key_of, nonce_of, open, public_key, reciprocal, same_nonce,
    seal, shared_box, shared_key, x25519_public,
};
use crate::document::{
    json_dumped, parse_record, parsed_record, render, render_distinct, Json, Tree,
};
use vstd::prelude::*;
use vstd::utf8::encode_utf8;

verus! {

/// Why the channel could not do what was asked.
#[derive(Clone, Debug, PartialEq, Eq)]
pub enum ChannelError {
    /// The password manager is not listening.
    Connection,
    /// The answer to the key exchange is malformed, or the peer's key is not
    /// 32 bytes long, or the key exchange failed before in this run; with
    /// what was wrong, in the peer's words where it refused.
    Handshake(String),
    /// A response did not authenticate under the shared box.
    Decrypt,
    /// The peer did not grant the pairing; with what it said.
    Association(String),
    /// The peer answered in the clear, without a sealed message: it refused
    /// the request; with what it said.
    Refused(String),
    /// A response is not built as the protocol asks.
    Malformed,
    /// The request could not go out: its payload has no JSON text, its nonce
    /// was used before in this run, or the cipher refused.
    Seal,
}

/// What a `ChannelError` stands for.
pub enum Fault {
    Connection,
    Handshake(Seq<char>),
    Decrypt,
    Association(Seq<char>),
    Refused(Seq<char>),
    Malformed,
    Seal,
}

impl View for ChannelError {
    type V = Fault;

    open spec fn view(&self) -> Fault {
        match self {
            ChannelError::Connection => Fault::Connection,
            ChannelError::Handshake(text) => Fault::Handshake(text@),
            ChannelError::Decrypt => Fault::Decrypt,
            ChannelError::Association(text) => Fault::Association(text@),
            ChannelError::Refused(text) => Fault::Refused(text@),
            ChannelError::Malformed => Fault::Malformed,
            ChannelError::Seal => Fault::Seal,
        }
    }
}

/// The failure of a channel that holds no shared box: the key exchange was
/// not made, or it failed.
pub open spec fn no_box() -> Fault {
    Fault::Handshake("could not exchange key with keepassxc"@)
}

impl Fault {
    /// The failure in words: what the peer said, where it said something.
    pub open spec fn message(self) -> Seq<char> {
        match self {
            Fault::Connection => "could not connect to keepassxc"@,
            Fault::Handshake(text) => text,
            Fault::Decrypt => "could not decrypt message"@,
            Fault::Association(text) => text,
            Fault::Refused(text) => text,
            Fault::Malformed => "could not read the response of keepassxc"@,
            Fault::Seal => "could not seal message"@,
        }
    }
}

impl ChannelError {
    /// The failure in words: what the peer said, where it said something.
    pub fn message(&self) -> (r: String)
        ensures
            r@ == self@.message(),
    {
        match self {
            ChannelError::Connection => "could not connect to keepassxc".to_owned(),
            ChannelError::Handshake(text) => text.clone(),
            ChannelError::Decrypt => "could not decrypt message".to_owned(),
            ChannelError::Association(text) => text.clone(),
            ChannelError::Refused(text) => text.clone(),
            ChannelError::Malformed => "could not read the response of keepassxc".to_owned(),
            ChannelError::Seal => "could not seal message".to_owned(),
        }
    }
}

/// How far the channel has come. It only moves forward.
#[derive(Clone, Copy, Debug, PartialEq, Eq, Structural)]
pub enum Stage {
    Unconnected,
    Connected,
    KeyExchanged,
    Associated,
}

impl Stage {
    /// The position of a stage in the order of the stages.
    pub open spec fn rank(self) -> nat {
        match self {
            Stage::Unconnected => 0,
            Stage::Connected => 1,
            Stage::KeyExchanged => 2,
            Stage::Associated => 3,
        }
    }
}

/// The peer as the key exchange left it: its public key, and the box that was
/// derived from it then and serves every sealed record of the run.
struct Peer {
    public: [u8; 32],
    shared: ::crypto_box::SalsaBox,
}

/// The secure channel to the password manager: the keys of this run, the
/// pairing identity, and every nonce that a request went out with.
pub struct SecureChannel {
    stage: Stage,
    secret: [u8; 32],
    public: [u8; 32],
    peer: Option<Peer>,
    refused: bool,
    client_id: String,
    identity: Identity,
    nonces: Vec<[u8; 24]>,
}

/// What a `SecureChannel` stands for.
pub struct ChannelView {
    /// How far the channel has come.
    pub stage: Stage,
    /// The secret key of this run.
    pub secret: Seq<u8>,
    /// The public key of this run.
    pub public: Seq<u8>,
    /// The peer's public key, once the keys are exchanged.
    pub peer: Option<Seq<u8>>,
    /// The key of the shared box, once the keys are exchanged.
    pub shared: Option<Seq<u8>>,
    /// Whether a key exchange failed in this run. None is tried after that.
    pub refused: bool,
    /// The client id of this run.
    pub client_id: Seq<char>,
    /// The pairing identity.
    pub identity: IdentityView,
    /// The nonces that requests of this run went out with, in order: that of
    /// the key exchange and those that the sealed requests were sealed with.
    pub nonces: Seq<Seq<u8>>,
}

impl ChannelView {
    /// The invariant of a channel: the keys are 32 bytes long, and the public
    /// key belongs to the secret key;
    /// the peer's key and the shared box are there from the key exchange on,
    /// and not before; the box holds the key that the two sides share; a
    /// paired channel knows its pairing id; no nonce was used twice.
    pub open spec fn wf(self) -> bool {
        &&& self.secret.len() == 32
        &&& self.public.len() == 32
        &&& self.public == x25519_public(self.secret)
        &&& self.peer is Some <==> self.stage.rank() >= 2
        &&& self.peer is Some <==> self.shared is Some
        &&& self.peer matches Some(peer) ==> peer.len() == 32 && self.shared == Some(
            shared_key(self.secret, peer),
        ) && reciprocal(shared_key(self.secret, peer), self.public, peer)
        &&& self.stage == Stage::Associated ==> self.identity.id is Some
        &&& forall|i: int| 0 <= i < self.nonces.len() ==> (#[trigger] self.nonces[i]).len() == 24
        &&& forall|i: int, j: int|
            0 <= i < j < self.nonces.len() ==> #[trigger] self.nonces[i] != #[trigger] self.nonces[j]
    }
}

impl View for SecureChannel {
    type V = ChannelView;

    closed spec fn view(&self) -> ChannelView {
        ChannelView {
            stage: self.stage,
            secret: self.secret@,
            public: self.public@,
            peer: match self.peer {
                Some(p) => Some(p.public@),
                None => None,
            },
            shared: match self.peer {
                Some(p) => Some(box_key(p.shared)),
                None => None,
            },
            refused: self.refused,
            client_id: self.client_id@,
            identity: self.identity@,
            nonces: Seq::new(self.nonces@.len(), |i: int| self.nonces@[i]@),
        }
    }
}

/// A channel at the start of a run: not connected, with the public key of
/// `secret`, a client id made of `client_nonce`, and no nonce used.
pub open spec fn fresh_channel(
    identity: IdentityView,
    secret: Seq<u8>,
    client_nonce: Seq<u8>,
) -> ChannelView {
    ChannelView {
        stage: Stage::Unconnected,
        secret,
        public: x25519_public(secret),
        peer: None,
        shared: None,
        refused: false,
        client_id: base64_text(client_nonce),
        identity,
        nonces: Seq::empty(),
    }
}

/// The request that opens the key exchange. It travels in the clear.
pub open spec fn handshake_tree(public: Seq<u8>, nonce: Seq<u8>, client_id: Seq<char>) -> Tree {
    Tree::Record(
        seq![
            ("action"@, Tree::Text("change-public-keys"@)),
            ("publicKey"@, Tree::Text(base64_text(public))),
            ("nonce"@, Tree::Text(base64_text(nonce))),
            ("clientID"@, Tree::Text(client_id)),
        ],
    )
}

/// The text of the request that opens the key exchange, or why there is
/// none: the channel is not connected, a key exchange failed before in this
/// run, or the nonce went out with a request before.
pub open spec fn handshake_request(c: ChannelView, nonce: Seq<u8>) -> Result<Seq<char>, Fault> {
    if c.stage == Stage::Unconnected {
        Err(Fault::Connection)
    } else if c.refused {
        Err(no_box())
    } else if c.nonces.contains(nonce) {
        Err(Fault::Seal)
    } else {
        Ok(json_dumped(handshake_tree(c.public, nonce, c.client_id)))
    }
}

/// The channel once a request went out with `nonce`: the nonce is on record.
pub open spec fn spent(c: ChannelView, nonce: Seq<u8>) -> ChannelView {
    ChannelView { nonces: c.nonces.push(nonce), ..c }
}

/// What a record shows of itself where it is not what was asked for: a text
/// as it is, any other value in its JSON text.
pub open spec fn shown(doc: Tree) -> Seq<char> {
    match doc {
        Tree::Text(text) => text,
        _ => if doc.keys_distinct() {
            json_dumped(doc)
        } else {
            Seq::empty()
        },
    }
}

/// What the peer said in a record that refuses a request: the text under
/// `error`; where there is none, that the record holds a field that is not
/// valid, and the record.
pub open spec fn refusal_text(doc: Tree) -> Seq<char> {
    match doc.member_text("error"@) {
        Some(text) => text,
        None => "invalid field in "@ + shown(doc),
    }
}

/// The peer's public key in the answer to the key exchange, or what is
/// wrong with the answer: it must be UTF-8 and JSON; it must hold a text
/// under `publicKey`, else the peer refused and the answer says why; that
/// text must be base64, and the bytes must be 32.
pub open spec fn peer_key_of(response: Seq<u8>) -> Result<Seq<u8>, Seq<char>> {
    match parsed_record(response) {
        None => Err("could not read the response of keepassxc"@),
        Some(doc) => match doc.member_text("publicKey"@) {
            None => Err(refusal_text(doc)),
            Some(text) => match base64_bytes(text) {
                Some(key) => if key.len() == 32 {
                    Ok(key)
                } else {
                    Err("wrong format of public key"@)
                },
                None => Err("wrong format of public key"@),
            },
        },
    }
}

/// The channel once the peer's key is known: the keys are exchanged, and the
/// shared box is derived.
pub open spec fn keyed(c: ChannelView, key: Seq<u8>) -> ChannelView {
    ChannelView {
        stage: if c.stage == Stage::Connected {
            Stage::KeyExchanged
        } else {
            c.stage
        },
        peer: Some(key),
        shared: Some(shared_key(c.secret, key)),
        ..c
    }
}

/// What the answer to the key exchange does to the channel, and the failure
/// that it is, if any. A malformed answer leaves the channel at its stage and
/// marks the key exchange as failed for this run; no answer is taken after
/// that.
pub open spec fn exchanged(c: ChannelView, response: Seq<u8>) -> (ChannelView, Option<Fault>) {
    if c.stage == Stage::Unconnected {
        (c, Some(Fault::Connection))
    } else if c.refused {
        (c, Some(no_box()))
    } else {
        match peer_key_of(response) {
            Ok(key) => (keyed(c, key), None),
            Err(reason) => (ChannelView { refused: true, ..c }, Some(Fault::Handshake(reason))),
        }
    }
}

/// The record that carries a sealed request: the action and the client id in
/// the clear, the sealed message and its nonce in base64.
pub open spec fn envelope_tree(
    action: Seq<char>,
    sealed: Seq<u8>,
    nonce: Seq<u8>,
    client_id: Seq<char>,
) -> Tree {
    Tree::Record(
        seq![
            ("action"@, Tree::Text(action)),
            ("message"@, Tree::Text(base64_text(sealed))),
            ("nonce"@, Tree::Text(base64_text(nonce))),
            ("clientID"@, Tree::Text(client_id)),
        ],
    )
}

/// The text of the record that carries `payload`, sealed with `nonce`, or why
/// there is none: the key exchange has not been made, the payload holds a key
/// twice and so has no JSON text, the nonce was used before, or the cipher
/// refused.
pub open spec fn sealed_request(
    c: ChannelView,
    action: Seq<char>,
    payload: Tree,
    nonce: Seq<u8>,
) -> Result<Seq<char>, Fault> {
    match c.shared {
        None => Err(no_box()),
        Some(key) => if !payload.keys_distinct() || c.nonces.contains(nonce) {
            Err(Fault::Seal)
        } else {
            match box_sealed(key, nonce, encode_utf8(json_dumped(payload))) {
                Some(sealed) => Ok(json_dumped(envelope_tree(action, sealed, nonce, c.client_id))),
                None => Err(Fault::Seal),
            }
        },
    }
}

/// Whether `payload`, as this channel seals it with `nonce`, opens again:
/// under the key of the shared box and with the same nonce, what was sealed
/// gives the bytes of the payload's text.
pub open spec fn sealed_to_open(c: ChannelView, payload: Tree, nonce: Seq<u8>) -> bool {
    let plain = encode_utf8(json_dumped(payload));
    &&& c.shared matches Some(key)
    &&& box_sealed(key, nonce, plain) matches Some(sealed)
    &&& box_opened(key, nonce, sealed) == Some(plain)
}

/// Whether two channels are the two ends of one key exchange: each holds the
/// other's public key as its peer's.
pub open spec fn counterparts(a: ChannelView, b: ChannelView) -> bool {
    a.peer == Some(b.public) && b.peer == Some(a.public)
}

/// What a response record holds once opened, or why it cannot be opened. The
/// record must be UTF-8 and JSON; it must hold a text under `nonce` and one
/// under `message`, else the peer refused the request and the record says
/// why; both must be base64, the nonce 24 bytes long; the message must
/// authenticate under the shared box with that nonce; what comes out must be
/// UTF-8 and JSON.
pub open spec fn opened_response(c: ChannelView, response: Seq<u8>) -> Result<Tree, Fault> {
    match c.shared {
        None => Err(no_box()),
        Some(key) => match parsed_record(response) {
            None => Err(Fault::Malformed),
            Some(doc) => match (doc.member_text("nonce"@), doc.member_text("message"@)) {
                (Some(nonce_text), Some(message_text)) => match (
                    base64_bytes(nonce_text),
                    base64_bytes(message_text),
                ) {
                    (Some(nonce), Some(sealed)) => if nonce.len() != 24 {
                        Err(Fault::Malformed)
                    } else {
                        match box_opened(key, nonce, sealed) {
                            None => Err(Fault::Decrypt),
                            Some(plain) => match parsed_record(plain) {
                                Some(payload) => Ok(payload),
                                None => Err(Fault::Malformed),
                            },
                        }
                    },
                    _ => Err(Fault::Malformed),
                },
                _ => Err(Fault::Refused(refusal_text(doc))),
            },
        },
    }
}

/// The request that asks whether the pairing `id` with the secret `id_key` is
/// known to the peer.
pub open spec fn test_associate_tree(id: Seq<char>, id_key: Seq<char>) -> Tree {
    Tree::Record(
        seq![
            ("action"@, Tree::Text("test-associate"@)),
            ("id"@, Tree::Text(id)),
            ("key"@, Tree::Text(id_key)),
        ],
    )
}

/// The request that asks for a new pairing.
pub open spec fn associate_tree(public: Seq<u8>, id_key: Seq<char>) -> Tree {
    Tree::Record(
        seq![
            ("action"@, Tree::Text("associate"@)),
            ("key"@, Tree::Text(base64_text(public))),
            ("idKey"@, Tree::Text(id_key)),
        ],
    )
}

/// The request for the entries filed under the address of `keygrep`: a fixed
/// scheme in front of the identifier as it is.
pub open spec fn get_logins_tree(keygrep: Seq<char>, id: Seq<char>, id_key: Seq<char>) -> Tree {
    Tree::Record(
        seq![
            ("action"@, Tree::Text("get-logins"@)),
            ("url"@, Tree::Text("gpg://"@ + keygrep)),
            (
                "keys"@,
                Tree::List(
                    seq![Tree::Record(seq![("id"@, Tree::Text(id)), ("key"@, Tree::Text(id_key))])],
                ),
            ),
        ],
    )
}

/// The pairing id that the answer to a pairing request grants: the text under
/// `hash`. An answer without one grants nothing.
pub open spec fn pairing_of(payload: Tree) -> Option<Seq<char>> {
    payload.member_text("hash"@)
}

/// The passphrase in the answer to a lookup: the text under `password` in the
/// first of the `entries`, whatever follows it. Without a first entry, or
/// without such a text in it, there is none.
pub open spec fn passphrase_of(payload: Tree) -> Option<Seq<char>> {
    match payload.member("entries"@) {
        Some(entries) => match entries.element(0) {
            Some(first) => first.member_text("password"@),
            None => None,
        },
        None => None,
    }
}

/// The lengths of the keys that the protocol's records use. Keys of different
/// lengths differ.
proof fn lemma_key_lengths()
    ensures
        "action"@.len() == 6,
        "publicKey"@.len() == 9,
        "nonce"@.len() == 5,
        "clientID"@.len() == 8,
        "message"@.len() == 7,
        "id"@.len() == 2,
        "key"@.len() == 3,
        "idKey"@.len() == 5,
        "url"@.len() == 3,
        "keys"@.len() == 4,
{
    reveal_strlit("action");
    reveal_strlit("publicKey");
    reveal_strlit("nonce");
    reveal_strlit("clientID");
    reveal_strlit("message");
    reveal_strlit("id");
    reveal_strlit("key");
    reveal_strlit("idKey");
    reveal_strlit("url");
    reveal_strlit("keys");
}

/// A record whose keys differ in length, and whose values hold no key twice,
/// holds no key twice.
proof fn lemma_record_distinct(members: Seq<(Seq<char>, Tree)>)
    requires
        forall|i: int, j: int|
            0 <= i < j < members.len() ==> (#[trigger] members[i]).0.len() != (
            #[trigger] members[j]).0.len(),
        forall|i: int| 0 <= i < members.len() ==> (#[trigger] members[i]).1.keys_distinct(),
    ensures
        Tree::Record(members).keys_distinct(),
{
}

/// No two requests of a run went out with the same nonce.
pub proof fn lemma_nonces_never_repeat(c: ChannelView, i: int, j: int)
    requires
        c.wf(),
        0 <= i < c.nonces.len(),
        0 <= j < c.nonces.len(),
        i != j,
    ensures
        c.nonces[i] != c.nonces[j],
{
    if i < j {
        assert(c.nonces[i] != c.nonces[j]);
    } else {
        assert(c.nonces[j] != c.nonces[i]);
    }
}

/// The two ends of a key exchange hold the same shared key.
pub proof fn lemma_counterparts_share_the_key(a: ChannelView, b: ChannelView)
    requires
        a.wf(),
        b.wf(),
        counterparts(a, b),
    ensures
        a.shared is Some,
        a.shared == b.shared,
{
    assert(x25519_public(b.secret) == a.peer->0);
}

/// What one end of a key exchange seals, the other end opens: with the nonce
/// that the request was sealed with, the counterpart's box gives back the
/// bytes of the payload's text.
pub proof fn lemma_counterpart_opens(a: ChannelView, b: ChannelView, payload: Tree, nonce: Seq<u8>)
    requires
        a.wf(),
        b.wf(),
        counterparts(a, b),
        sealed_to_open(a, payload, nonce),
    ensures
        box_opened(
            b.shared->0,
            nonce,
            box_sealed(a.shared->0, nonce, encode_utf8(json_dumped(payload)))->0,
        ) == Some(encode_utf8(json_dumped(payload))),
{
    lemma_counterparts_share_the_key(a, b);
}

/// What one end of a key exchange seals, the other end opens to the payload,
/// wherever the record and the payload read back as they were written: the
/// record's bytes as the record, the base64 of the nonce and of the sealed
/// message as their bytes, the bytes of the payload's text as the payload.
/// That they do is the JSON crate's and the base64 crate's to keep; nothing
/// here states it.
pub proof fn lemma_counterpart_reads_where_it_reads_back(
    a: ChannelView,
    b: ChannelView,
    action: Seq<char>,
    payload: Tree,
    nonce: Seq<u8>,
)
    requires
        a.wf(),
        b.wf(),
        counterparts(a, b),
        nonce.len() == 24,
        sealed_to_open(a, payload, nonce),
        ({
            let plain = encode_utf8(json_dumped(payload));
            let sealed = box_sealed(a.shared->0, nonce, plain)->0;
            let record = envelope_tree(action, sealed, nonce, a.client_id);
            &&& parsed_record(encode_utf8(json_dumped(record))) == Some(record)
            &&& base64_bytes(base64_text(nonce)) == Some(nonce)
            &&& base64_bytes(base64_text(sealed)) == Some(sealed)
            &&& parsed_record(plain) == Some(payload)
        }),
    ensures
        ({
            let plain = encode_utf8(json_dumped(payload));
            let sealed = box_sealed(a.shared->0, nonce, plain)->0;
            let record = envelope_tree(action, sealed, nonce, a.client_id);
            opened_response(b, encode_utf8(json_dumped(record))) == Ok::<Tree, Fault>(payload)
        }),
{
    lemma_counterparts_share_the_key(a, b);
    lemma_key_lengths();
    let plain = encode_utf8(json_dumped(payload));
    let sealed = box_sealed(a.shared->0, nonce, plain)->0;
    let record = envelope_tree(action, sealed, nonce, a.client_id);
    let ms = record->Record_0;
    assert(ms[0].0 == "action"@ && ms[1].0 == "message"@ && ms[2].0 == "nonce"@ && ms[3].0
        == "clientID"@);
    reveal_with_fuel(crate::document::find_member, 5);
    assert(record.member_text("nonce"@) == Some(base64_text(nonce)));
    assert(record.member_text("message"@) == Some(base64_text(sealed)));
}

/// The key exchange request holds no key twice.
proof fn lemma_handshake_distinct(public: Seq<u8>, nonce: Seq<u8>, client_id: Seq<char>)
    ensures
        handshake_tree(public, nonce, client_id).keys_distinct(),
{
    lemma_key_lengths();
    let ms = handshake_tree(public, nonce, client_id)->Record_0;
    assert(ms[0].0 == "action"@ && ms[1].0 == "publicKey"@ && ms[2].0 == "nonce"@ && ms[3].0
        == "clientID"@);
    assert forall|i: int| 0 <= i < ms.len() implies (#[trigger] ms[i]).1.keys_distinct() by {
        assert(ms[i].1 is Text);
    }
    lemma_record_distinct(ms);
}

/// The record of a sealed request holds no key twice.
proof fn lemma_envelope_distinct(
    action: Seq<char>,
    sealed: Seq<u8>,
    nonce: Seq<u8>,
    client_id: Seq<char>,
)
    ensures
        envelope_tree(action, sealed, nonce, client_id).keys_distinct(),
{
    lemma_key_lengths();
    let ms = envelope_tree(action, sealed, nonce, client_id)->Record_0;
    assert(ms[0].0 == "action"@ && ms[1].0 == "message"@ && ms[2].0 == "nonce"@ && ms[3].0
        == "clientID"@);
    assert forall|i: int| 0 <= i < ms.len() implies (#[trigger] ms[i]).1.keys_distinct() by {
        assert(ms[i].1 is Text);
    }
    lemma_record_distinct(ms);
}

/// The pairing requests hold no key twice.
proof fn lemma_pairing_distinct(public: Seq<u8>, id: Seq<char>, id_key: Seq<char>)
    ensures
        test_associate_tree(id, id_key).keys_distinct(),
        associate_tree(public, id_key).keys_distinct(),
{
    lemma_key_lengths();
    let ts = test_associate_tree(id, id_key)->Record_0;
    assert(ts[0].0 == "action"@ && ts[1].0 == "id"@ && ts[2].0 == "key"@);
    assert forall|i: int| 0 <= i < ts.len() implies (#[trigger] ts[i]).1.keys_distinct() by {
        assert(ts[i].1 is Text);
    }
    lemma_record_distinct(ts);
    let ms = associate_tree(public, id_key)->Record_0;
    assert(ms[0].0 == "action"@ && ms[1].0 == "key"@ && ms[2].0 == "idKey"@);
    assert forall|i: int| 0 <= i < ms.len() implies (#[trigger] ms[i]).1.keys_distinct() by {
        assert(ms[i].1 is Text);
    }
    lemma_record_distinct(ms);
}

/// The lookup request holds no key twice.
proof fn lemma_get_logins_distinct(keygrep: Seq<char>, id: Seq<char>, id_key: Seq<char>)
    ensures
        get_logins_tree(keygrep, id, id_key).keys_distinct(),
{
    lemma_key_lengths();
    let pair = seq![("id"@, Tree::Text(id)), ("key"@, Tree::Text(id_key))];
    assert(pair[0].0 == "id"@ && pair[1].0 == "key"@);
    assert forall|i: int| 0 <= i < pair.len() implies (#[trigger] pair[i]).1.keys_distinct() by {
        assert(pair[i].1 is Text);
    }
    lemma_record_distinct(pair);
    let keys = seq![Tree::Record(pair)];
    assert forall|i: int| 0 <= i < keys.len() implies (#[trigger] keys[i]).keys_distinct() by {
        assert(keys[i] == Tree::Record(pair));
    }
    assert(Tree::List(keys).keys_distinct());
    let ms = get_logins_tree(keygrep, id, id_key)->Record_0;
    assert(ms[0].0 == "action"@ && ms[1].0 == "url"@ && ms[2].0 == "keys"@);
    assert(ms[2].1 == Tree::List(keys));
    assert forall|i: int| 0 <= i < ms.len() implies (#[trigger] ms[i]).1.keys_distinct() by {
        if i < 2 {
            assert(ms[i].1 is Text);
        }
    }
    lemma_record_distinct(ms);
}

/// What the peer said in a record that refuses a request.
pub fn refusal(doc: &Json) -> (r: String)
    ensures
        r@ == refusal_text(doc@),
{
    if let Some(text) = doc.member_text("error") {
        return text.clone();
    }
    let shown = match doc {
        Json::Text(text) => text.clone(),
        _ => match render(doc) {
            Some(text) => text,
            None => String::new(),
        },
    };
    String::from_str("invalid field in ").concat(shown.as_str())
}

impl SecureChannel {
    /// Whether the channel's invariant holds.
    pub open spec fn wf(&self) -> bool {
        self@.wf()
    }

    /// A channel for this run, not yet connected, with the given secret key
    /// and a client id made of the given nonce.
    pub fn new(identity: Identity, secret: [u8; 32], client_nonce: [u8; 24]) -> (r: SecureChannel)
        ensures
            r.wf(),
            r@ == fresh_channel(identity@, secret@, client_nonce@),
    {
        let public = public_key(&secret);
        let client_id = encode(client_nonce.as_slice());
        let r = SecureChannel {
            stage: Stage::Unconnected,
            secret,
            public,
            peer: None,
            refused: false,
            client_id,
            identity,
            nonces: Vec::new(),
        };
        assert(r@.nonces =~= Seq::empty());
        r
    }

    /// How far the channel has come.
    pub fn stage(&self) -> (r: Stage)
        ensures
            r == self@.stage,
    {
        self.stage
    }

    /// Whether a key exchange failed in this run.
    pub fn refused(&self) -> (r: bool)
        ensures
            r == self@.refused,
    {
        self.refused
    }

    /// The pairing identity as it stands.
    pub fn identity(&self) -> (r: &Identity)
        ensures
            r@ == self@.identity,
    {
        &self.identity
    }

    /// Records whether the socket to the password manager was opened. A
    /// channel that is connected already stays as it is.
    pub fn connect(&mut self, opened: bool) -> (r: Result<(), ChannelError>)
        requires
            old(self).wf(),
        ensures
            final(self).wf(),
            old(self)@.stage != Stage::Unconnected ==> r is Ok && final(self)@ == old(self)@,
            old(self)@.stage == Stage::Unconnected && opened ==> r is Ok && final(self)@ == (
                ChannelView { stage: Stage::Connected, ..old(self)@ }),
            old(self)@.stage == Stage::Unconnected && !opened ==> (r matches Err(e) && e@
                == Fault::Connection) && final(self)@ == old(self)@,
    {
        match self.stage {
            Stage::Unconnected => {
                if opened {
                    self.stage = Stage::Connected;
                    Ok(())
                } else {
                    Err(ChannelError::Connection)
                }
            },
            _ => Ok(()),
        }
    }

    /// The text of the request that opens the key exchange, with the given
    /// single-use nonce, which is then on record as used. A channel that is
    /// not connected has nobody to send it to; after a key exchange that
    /// failed none is tried again in this run; and a nonce that went out
    /// before opens no key exchange.
    pub fn exchange_key_request(&mut self, nonce: &[u8; 24]) -> (r: Result<String, ChannelError>)
        requires
            old(self).wf(),
        ensures
            final(self).wf(),
            match r {
                Ok(text) => handshake_request(old(self)@, nonce@) == Ok::<Seq<char>, Fault>(text@)
                    && final(self)@ == spent(old(self)@, nonce@),
                Err(e) => handshake_request(old(self)@, nonce@) == Err::<Seq<char>, Fault>(e@)
                    && final(self)@ == old(self)@,
            },
    {
        if let Stage::Unconnected = self.stage {
            return Err(ChannelError::Connection);
        }
        if self.refused {
            return Err(SecureChannel::no_box());
        }
        if self.used(nonce) {
            return Err(ChannelError::Seal);
        }
        let public = encode(self.public.as_slice());
        let once = encode(nonce.as_slice());
        let mut members: Vec<(String, Json)> = Vec::new();
        members.push(Json::entry("action", "change-public-keys"));
        members.push(Json::entry("publicKey", public.as_str()));
        members.push(Json::entry("nonce", once.as_str()));
        members.push(Json::entry("clientID", self.client_id.as_str()));
        let doc = Json::record(members);
        proof {
            let tree = handshake_tree(self@.public, nonce@, self@.client_id);
            lemma_handshake_distinct(self@.public, nonce@, self@.client_id);
            assert(doc@->Record_0 =~= tree->Record_0);
        }
        let text = render_distinct(&doc);
        self.nonces.push(*nonce);
        proof {
            assert(final(self)@.nonces =~= old(self)@.nonces.push(nonce@));
        }
        Ok(text)
    }

    /// Reads the answer to the key exchange, keeps the peer's public key and
    /// derives the shared box.
    pub fn exchange_key(&mut self, response: &[u8]) -> (r: Result<(), ChannelError>)
        requires
            old(self).wf(),
        ensures
            final(self).wf(),
            final(self)@ == exchanged(old(self)@, response@).0,
            match r {
                Ok(_) => exchanged(old(self)@, response@).1 is None,
                Err(e) => exchanged(old(self)@, response@).1 == Some(e@),
            },
    {
        if let Stage::Unconnected = self.stage {
            return Err(ChannelError::Connection);
        }
        if self.refused {
            return Err(SecureChannel::no_box());
        }
        let key = match self.read_peer_key(response) {
            Ok(key) => key,
            Err(reason) => {
                self.refused = true;
                return Err(ChannelError::Handshake(reason));
            },
        };
        let shared = shared_box(&self.secret, &key);
        self.peer = Some(Peer { public: key, shared });
        if let Stage::Connected = self.stage {
            self.stage = Stage::KeyExchanged;
        }
        Ok(())
    }

    /// The peer's public key in the answer to the key exchange, or what is
    /// wrong with the answer.
    fn read_peer_key(&self, response: &[u8]) -> (r: Result<[u8; 32], String>)
        ensures
            match r {
                Ok(key) => peer_key_of(response@) == Ok::<Seq<u8>, Seq<char>>(key@),
                Err(reason) => peer_key_of(response@) == Err::<Seq<u8>, Seq<char>>(reason@),
            },
    {
        let doc = match parse_record(response) {
            Some(doc) => doc,
            None => { return Err("could not read the response of keepassxc".to_owned()); },
        };
        let text = match doc.member_text("publicKey") {
            Some(text) => text,
            None => { return Err(refusal(&doc)); },
        };
        let bytes = match decode(text.as_str()) {
            Some(bytes) => bytes,
            None => { return Err("wrong format of public key".to_owned()); },
        };
        match key_of(&bytes) {
            Some(key) => Ok(key),
            None => Err("wrong format of public key".to_owned()),
        }
    }

    /// The failure of a channel that holds no shared box.
    fn no_box() -> (r: ChannelError)
        ensures
            r@ == no_box(),
    {
        ChannelError::Handshake("could not exchange key with keepassxc".to_owned())
    }

    /// Whether `nonce` went out with a request of this run before.
    fn used(&self, nonce: &[u8; 24]) -> (r: bool)
        ensures
            r == self@.nonces.contains(nonce@),
    {
        let mut i: usize = 0;
        while i < self.nonces.len()
            invariant
                i <= self.nonces.len(),
                forall|k: int| 0 <= k < i ==> self.nonces@[k]@ != nonce@,
            decreases self.nonces.len() - i,
        {
            if same_nonce(&self.nonces[i], nonce) {
                assert(self@.nonces[i as int] == nonce@);
                return true;
            }
            i += 1;
        }
        false
    }

    /// Seals `payload` with `nonce` and wraps it, with the action, the nonce
    /// and the client id in the clear, into the text of the record to send.
    /// The nonce is then on record as used. A nonce that was used before seals
    /// nothing.
    pub fn send_encrypt(&mut self, action: &str, payload: &Json, nonce: &[u8; 24]) -> (r: Result<
        String,
        ChannelError,
    >)
        requires
            old(self).wf(),
        ensures
            final(self).wf(),
            match r {
                Ok(text) => final(self)@ == spent(old(self)@, nonce@) && !old(
                    self,
                )@.nonces.contains(nonce@),
                Err(e) => final(self)@ == old(self)@,
            },
            r is Ok ==> sealed_to_open(old(self)@, payload@, nonce@),
            match r {
                Ok(text) => sealed_request(old(self)@, action@, payload@, nonce@) == Ok::<
                    Seq<char>,
                    Fault,
                >(text@),
                Err(e) => sealed_request(old(self)@, action@, payload@, nonce@) == Err::<
                    Seq<char>,
                    Fault,
                >(e@),
            },
    {
        if self.peer.is_none() {
            return Err(SecureChannel::no_box());
        }
        let plain = match render(payload) {
            Some(plain) => plain,
            None => { return Err(ChannelError::Seal); },
        };
        if self.used(nonce) {
            return Err(ChannelError::Seal);
        }
        let sealed = match &self.peer {
            Some(peer) => seal(&peer.shared, nonce, plain.as_str().as_bytes()),
            None => None,
        };
        let sealed = match sealed {
            Some(sealed) => sealed,
            None => { return Err(ChannelError::Seal); },
        };
        let message = encode(sealed.as_slice());
        let once = encode(nonce.as_slice());
        let mut members: Vec<(String, Json)> = Vec::new();
        members.push(Json::entry("action", action));
        members.push(Json::entry("message", message.as_str()));
        members.push(Json::entry("nonce", once.as_str()));
        members.push(Json::entry("clientID", self.client_id.as_str()));
        let doc = Json::record(members);
        proof {
            let tree = envelope_tree(action@, sealed@, nonce@, self@.client_id);
            lemma_envelope_distinct(action@, sealed@, nonce@, self@.client_id);
            assert(doc@->Record_0 =~= tree->Record_0);
        }
        let text = render_distinct(&doc);
        self.nonces.push(*nonce);
        proof {
            assert(final(self)@.nonces =~= old(self)@.nonces.push(nonce@));
        }
        Ok(text)
    }

    /// Opens the record that answers a sealed request.
    pub fn receive_encrypt(&self, response: &[u8]) -> (r: Result<Json, ChannelError>)
        requires
            self.wf(),
        ensures
            match r {
                Ok(payload) => opened_response(self@, response@) == Ok::<Tree, Fault>(payload@),
                Err(e) => opened_response(self@, response@) == Err::<Tree, Fault>(e@),
            },
    {
        let peer = match &self.peer {
            Some(peer) => peer,
            None => { return Err(SecureChannel::no_box()); },
        };
        let doc = match parse_record(response) {
            Some(doc) => doc,
            None => { return Err(ChannelError::Malformed); },
        };
        let nonce_text = match doc.member_text("nonce") {
            Some(text) => text,
            None => { return Err(ChannelError::Refused(refusal(&doc))); },
        };
        let message_text = match doc.member_text("message") {
            Some(text) => text,
            None => { return Err(ChannelError::Refused(refusal(&doc))); },
        };
        let nonce_bytes = match decode(nonce_text.as_str()) {
            Some(bytes) => bytes,
            None => { return Err(ChannelError::Malformed); },
        };
        let sealed = match decode(message_text.as_str()) {
            Some(bytes) => bytes,
            None => { return Err(ChannelError::Malformed); },
        };
        let nonce = match nonce_of(&nonce_bytes) {
            Some(nonce) => nonce,
            None => { return Err(ChannelError::Malformed); },
        };
        let plain = match open(&peer.shared, &nonce, sealed.as_slice()) {
            Some(plain) => plain,
            None => { return Err(ChannelError::Decrypt); },
        };
        match parse_record(plain.as_slice()) {
            Some(payload) => Ok(payload),
            None => Err(ChannelError::Malformed),
        }
    }

    /// The request that asks the peer whether it knows this pairing; nothing
    /// where no pairing was made yet.
    pub fn test_associate(&self) -> (r: Option<Json>)
        ensures
            match r {
                Some(payload) => self@.identity.id matches Some(id) && payload@
                    == test_associate_tree(id, self@.identity.id_key)
                    && payload@.keys_distinct(),
                None => self@.identity.id is None,
            },
    {
        match &self.identity.id {
            Some(id) => {
                let mut members: Vec<(String, Json)> = Vec::new();
                members.push(Json::entry("action", "test-associate"));
                members.push(Json::entry("id", id.as_str()));
                members.push(Json::entry("key", self.identity.id_key.as_str()));
                let payload = Json::record(members);
                proof {
                    let tree = test_associate_tree(id@, self@.identity.id_key);
                    assert(payload@->Record_0 =~= tree->Record_0);
                    lemma_pairing_distinct(self@.public, id@, self@.identity.id_key);
                }
                Some(payload)
            },
            None => None,
        }
    }

    /// The request that asks the peer for a new pairing.
    pub fn associate(&self) -> (r: Json)
        ensures
            r@ == associate_tree(self@.public, self@.identity.id_key),
            r@.keys_distinct(),
    {
        let public = encode(self.public.as_slice());
        let mut members: Vec<(String, Json)> = Vec::new();
        members.push(Json::entry("action", "associate"));
        members.push(Json::entry("key", public.as_str()));
        members.push(Json::entry("idKey", self.identity.id_key.as_str()));
        let payload = Json::record(members);
        proof {
            let tree = associate_tree(self@.public, self@.identity.id_key);
            assert(payload@->Record_0 =~= tree->Record_0);
            lemma_pairing_distinct(self@.public, Seq::empty(), self@.identity.id_key);
        }
        payload
    }

    /// The request for the entries filed under `keygrep`; nothing where no
    /// pairing was made yet.
    pub fn get_logins(&self, keygrep: &str) -> (r: Option<Json>)
        ensures
            match r {
                Some(payload) => self@.identity.id matches Some(id) && payload@ == get_logins_tree(
                    keygrep@,
                    id,
                    self@.identity.id_key,
                ) && payload@.keys_distinct(),
                None => self@.identity.id is None,
            },
    {
        match &self.identity.id {
            Some(id) => {
                let url = String::from_str("gpg://").concat(keygrep);
                let mut pair: Vec<(String, Json)> = Vec::new();
                pair.push(Json::entry("id", id.as_str()));
                pair.push(Json::entry("key", self.identity.id_key.as_str()));
                let pair = Json::record(pair);
                let mut keys: Vec<Json> = Vec::new();
                keys.push(pair);
                let keys = Json::list(keys);
                let mut members: Vec<(String, Json)> = Vec::new();
                members.push(Json::entry("action", "get-logins"));
                members.push(Json::entry("url", url.as_str()));
                members.push(("keys".to_owned(), keys));
                let payload = Json::record(members);
                proof {
                    let tree = get_logins_tree(keygrep@, id@, self@.identity.id_key);
                    let inner = seq![
                        ("id"@, Tree::Text(id@)),
                        ("key"@, Tree::Text(self@.identity.id_key)),
                    ];
                    assert(pair@->Record_0 =~= inner);
                    assert(keys@->List_0 =~= seq![Tree::Record(inner)]);
                    assert(payload@->Record_0 =~= tree->Record_0);
                    lemma_get_logins_distinct(keygrep@, id@, self@.identity.id_key);
                }
                Some(payload)
            },
            None => None,
        }
    }

    /// Takes the answer to `test_associate`: where it grants the pairing, the
    /// channel is paired from now on. The identity stays as it is.
    pub fn confirm_pairing(&mut self, payload: &Json) -> (r: bool)
        requires
            old(self).wf(),
        ensures
            final(self).wf(),
            r == (old(self)@.peer is Some && old(self)@.identity.id is Some && pairing_of(
                payload@,
            ) is Some),
            r ==> final(self)@ == (ChannelView { stage: Stage::Associated, ..old(self)@ }),
            !r ==> final(self)@ == old(self)@,
    {
        if self.peer.is_none() || self.identity.id.is_none() {
            return false;
        }
        match payload.member_text("hash") {
            Some(_) => {
                self.stage = Stage::Associated;
                true
            },
            None => false,
        }
    }

    /// Takes the answer to `associate`: where it grants a pairing, the
    /// identity learns the new pairing id and the channel is paired from now
    /// on. This is the one place where a pairing id is set.
    pub fn adopt_pairing(&mut self, payload: &Json) -> (r: bool)
        requires
            old(self).wf(),
        ensures
            final(self).wf(),
            r == (old(self)@.peer is Some && pairing_of(payload@) is Some),
            r ==> final(self)@ == (ChannelView {
                stage: Stage::Associated,
                identity: IdentityView { id: pairing_of(payload@), ..old(self)@.identity },
                ..old(self)@
            }),
            !r ==> final(self)@ == old(self)@,
    {
        if self.peer.is_none() {
            return false;
        }
        match payload.member_text("hash") {
            Some(hash) => {
                self.identity.id = Some(hash.clone());
                self.stage = Stage::Associated;
                true
            },
            None => false,
        }
    }

    /// The passphrase in the answer to `get_logins`.
    pub fn passphrase(payload: &Json) -> (r: Option<String>)
        ensures
            match r {
                Some(secret) => passphrase_of(payload@) == Some(secret@),
                None => passphrase_of(payload@) is None,
            },
    {
        let entries = match payload.member("entries") {
            Some(entries) => entries,
            None => { return None; },
        };
        let first = match entries.element(0) {
            Some(first) => first,
            None => { return None; },
        };
        match first.member_text("password") {
            Some(secret) => Some(secret.clone()),
            None => None,
        }
    }
}

} // verus!
