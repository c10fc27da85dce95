//! The pairing identity and its persisted form: a small JSON document with
//! the pairing secret under `idKey` and the pairing id under `id`.

use crate::codec::{base64_text, encode};
use crate::crypto::generate_nonce;
use crate::document::{json_dumped, parse, parsed, render_distinct, Json, Tree};
use vstd::prelude::*;

verus! {

/// The pairing between this agent and a database of the password manager.
#[derive(Debug, PartialEq, Eq)]
pub struct Identity {
    /// The password manager's handle for the pairing; absent until a pairing
    /// was made.
    pub id: Option<String>,
    /// The secret that this agent chose once and presents at every pairing.
    pub id_key: String,
}

/// What an `Identity` stands for.
pub struct IdentityView {
    pub id: Option<Seq<char>>,
    pub id_key: Seq<char>,
}

impl View for Identity {
    type V = IdentityView;

    open spec fn view(&self) -> IdentityView {
        IdentityView {
            id: match self.id {
                Some(s) => Some(s@),
                None => None,
            },
            id_key: self.id_key@,
        }
    }
}

/// The document that persists a paired identity.
pub open spec fn identity_tree(id: Seq<char>, id_key: Seq<char>) -> Tree {
    Tree::Record(seq![("idKey"@, Tree::Text(id_key)), ("id"@, Tree::Text(id))])
}

/// The identity that a document holds: its `idKey` must be a text; its `id` is
/// taken where it is a text.
pub open spec fn identity_of(doc: Tree) -> Option<IdentityView> {
    match doc.member_text("idKey"@) {
        Some(key) => Some(IdentityView { id: doc.member_text("id"@), id_key: key }),
        None => None,
    }
}

/// The identity that an identity file holds; nothing where there is no file,
/// the file is too long to be read or no JSON, or it holds no pairing secret.
pub open spec fn loaded(contents: Option<Seq<char>>) -> Option<IdentityView> {
    match contents {
        Some(text) => match parsed(text) {
            Some(doc) => identity_of(doc),
            None => None,
        },
        None => None,
    }
}

/// The keys of an identity document differ.
proof fn lemma_identity_keys()
    ensures
        "idKey"@ != "id"@,
        "idKey"@.len() == 5,
        "id"@.len() == 2,
{
    reveal_strlit("idKey");
    reveal_strlit("id");
    assert("idKey"@.len() == 5);
    assert("id"@.len() == 2);
}

/// The document that is written for a paired identity holds that identity,
/// pairing id and pairing secret as they were, and holds no key twice.
pub proof fn lemma_identity_round_trip(id: Seq<char>, id_key: Seq<char>)
    ensures
        identity_of(identity_tree(id, id_key)) == Some(
            IdentityView { id: Some(id), id_key: id_key },
        ),
        identity_tree(id, id_key).keys_distinct(),
{
    lemma_identity_keys();
    let ms = seq![("idKey"@, Tree::Text(id_key)), ("id"@, Tree::Text(id))];
    assert(ms[0].0 == "idKey"@);
    assert(ms[1].0 == "id"@);
    reveal_with_fuel(crate::document::find_member, 3);
    let tree = identity_tree(id, id_key);
    assert(tree->Record_0 == ms);
    assert forall|i: int| 0 <= i < ms.len() implies (#[trigger] ms[i]).1.keys_distinct() by {
        assert(ms[i].1 is Text);
    }
    assert(tree.keys_distinct());
}

/// What is written for a paired identity loads as that identity, wherever
/// the written text reads back as the document that it was written from.
/// That it does is the JSON crate's to keep; nothing here states it.
pub proof fn lemma_identity_loads_where_it_reads_back(id: Seq<char>, id_key: Seq<char>)
    requires
        parsed(json_dumped(identity_tree(id, id_key))) == Some(identity_tree(id, id_key)),
    ensures
        loaded(Some(json_dumped(identity_tree(id, id_key)))) == Some(
            IdentityView { id: Some(id), id_key: id_key },
        ),
{
    lemma_identity_round_trip(id, id_key);
}

/// A new identity: not paired, with a random pairing secret.
pub fn generate() -> (r: Identity)
    ensures
        r@.id is None,
        exists|nonce: Seq<u8>| nonce.len() == 24 && r@.id_key == base64_text(nonce),
{
    Identity { id: None, id_key: generate_idkey() }
}

/// A random pairing secret: a fresh nonce, in base64.
pub fn generate_idkey() -> (r: String)
    ensures
        exists|nonce: Seq<u8>| nonce.len() == 24 && r@ == base64_text(nonce),
{
    let nonce = generate_nonce();
    let r = encode(nonce.as_slice());
    assert(nonce@.len() == 24 && r@ == base64_text(nonce@));
    r
}

/// The identity to start a run with: the one that the identity file holds;
/// a new one where there is no file, or where the file cannot be read as an
/// identity. A file that is damaged never stands in the way.
pub fn load(contents: Option<&str>) -> (r: Identity)
    ensures
        match loaded(
            match contents {
                Some(text) => Some(text@),
                None => None,
            },
        ) {
            Some(identity) => r@ == identity,
            None => r@.id is None && exists|nonce: Seq<u8>|
                nonce.len() == 24 && r@.id_key == base64_text(nonce),
        },
{
    let found = match contents {
        Some(text) => read(text),
        None => None,
    };
    match found {
        Some(identity) => identity,
        None => generate(),
    }
}

/// The identity that the text of an identity file holds, or nothing where the
/// text is no JSON or holds no pairing secret.
pub fn read(text: &str) -> (r: Option<Identity>)
    ensures
        match r {
            Some(identity) => loaded(Some(text@)) == Some(identity@),
            None => loaded(Some(text@)) is None,
        },
{
    let doc = match parse(text) {
        Some(doc) => doc,
        None => { return None; },
    };
    let id_key = match doc.member_text("idKey") {
        Some(s) => s.clone(),
        None => { return None; },
    };
    let id = match doc.member_text("id") {
        Some(s) => Some(s.clone()),
        None => None,
    };
    Some(Identity { id, id_key })
}

/// The text to write to the identity file, or nothing where no pairing was
/// made yet: an identity that is not paired is never written.
pub fn store(identity: &Identity) -> (r: Option<String>)
    ensures
        match r {
            Some(text) => identity@.id matches Some(id) && text@ == json_dumped(
                identity_tree(id, identity@.id_key),
            ),
            None => identity@.id is None,
        },
{
    match &identity.id {
        Some(id) => {
            let mut members: Vec<(String, Json)> = Vec::new();
            members.push(Json::entry("idKey", identity.id_key.as_str()));
            members.push(Json::entry("id", id.as_str()));
            let doc = Json::record(members);
            proof {
                lemma_identity_round_trip(id@, identity@.id_key);
                assert(doc@->Record_0 =~= identity_tree(id@, identity@.id_key)->Record_0);
            }
            Some(render_distinct(&doc))
        },
        None => None,
    }
}

} // verus!
