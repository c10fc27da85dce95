use crypto_box::aead::Aead;
use pinentry_keepassxc::channel::{ChannelError, SecureChannel, Stage};
use pinentry_keepassxc::config::Identity;
use pinentry_keepassxc::document::{parse, render, Json};

const CLIENT_SECRET: [u8; 32] = [7u8; 32];
const PEER_SECRET: [u8; 32] = [9u8; 32];
const CLIENT_NONCE: [u8; 24] = [1u8; 24];

fn public_of(secret: [u8; 32]) -> [u8; 32] {
    *crypto_box::SecretKey::from(secret).public_key().as_bytes()
}

fn identity() -> Identity {
    Identity { id: Some("pairing".to_string()), id_key: "c2VjcmV0".to_string() }
}

fn object(members: &[(&str, &str)]) -> json::JsonValue {
    let mut o = json::JsonValue::new_object();
    for (k, v) in members {
        o.insert(k, *v).expect("this is an object");
    }
    o
}

/// The peer's answer to the key exchange.
fn peer_hello(secret: [u8; 32]) -> String {
    object(&[
        ("action", "change-public-keys"),
        ("publicKey", &base64::encode(public_of(secret))),
        ("success", "true"),
    ])
    .dump()
}

/// The peer's side of the box.
fn peer_box(secret: [u8; 32], client_public: [u8; 32]) -> crypto_box::Box {
    crypto_box::Box::new(
        &crypto_box::PublicKey::from(client_public),
        &crypto_box::SecretKey::from(secret),
    )
}

/// What the peer finds in a sealed request: the action in the clear, and the
/// text that was sealed.
fn peer_open(secret: [u8; 32], client_public: [u8; 32], record: &str) -> (String, String) {
    let envelope = json::parse(record).expect("the record is JSON");
    let nonce: [u8; 24] = base64::decode(envelope["nonce"].as_str().expect("a nonce"))
        .expect("base64")
        .try_into()
        .expect("24 bytes");
    let sealed = base64::decode(envelope["message"].as_str().expect("a message")).expect("base64");
    let plain = peer_box(secret, client_public)
        .decrypt(&xsalsa20poly1305::Nonce::from(nonce), sealed.as_slice())
        .expect("the peer opens what the channel sealed");
    (
        envelope["action"].as_str().expect("an action").to_string(),
        String::from_utf8(plain).expect("the payload is text"),
    )
}

/// A response of the peer, sealed with `nonce`.
fn peer_seal(secret: [u8; 32], client_public: [u8; 32], nonce: [u8; 24], payload: &str) -> String {
    let sealed = peer_box(secret, client_public)
        .encrypt(&xsalsa20poly1305::Nonce::from(nonce), payload.as_bytes())
        .expect("the peer seals");
    object(&[
        ("action", "any"),
        ("message", &base64::encode(sealed)),
        ("nonce", &base64::encode(nonce)),
    ])
    .dump()
}

fn keyed_channel() -> SecureChannel {
    let mut channel = SecureChannel::new(identity(), CLIENT_SECRET, CLIENT_NONCE);
    assert_eq!(channel.connect(true), Ok(()));
    assert_eq!(channel.exchange_key(peer_hello(PEER_SECRET).as_bytes()), Ok(()));
    channel
}

#[test]
fn a_new_channel_is_not_connected() {
    let channel = SecureChannel::new(identity(), CLIENT_SECRET, CLIENT_NONCE);
    assert_eq!(channel.stage(), Stage::Unconnected);
    assert_eq!(channel.identity(), &identity());
}

#[test]
fn the_stages_follow_each_other() {
    let mut channel = SecureChannel::new(identity(), CLIENT_SECRET, CLIENT_NONCE);
    assert_eq!(channel.connect(true), Ok(()));
    assert_eq!(channel.stage(), Stage::Connected);
    assert_eq!(channel.connect(true), Ok(()));
    assert_eq!(channel.stage(), Stage::Connected);
    assert_eq!(channel.exchange_key(peer_hello(PEER_SECRET).as_bytes()), Ok(()));
    assert_eq!(channel.stage(), Stage::KeyExchanged);
    assert_eq!(channel.connect(false), Ok(()));
    assert_eq!(channel.stage(), Stage::KeyExchanged);
    let granted = parse(r#"{"hash":"pairing","success":"true"}"#).expect("this is JSON");
    assert!(channel.confirm_pairing(&granted));
    assert_eq!(channel.stage(), Stage::Associated);
    assert_eq!(channel.exchange_key(peer_hello(PEER_SECRET).as_bytes()), Ok(()));
    assert_eq!(channel.stage(), Stage::Associated);
}

#[test]
fn a_socket_that_does_not_open_is_a_connection_error() {
    let mut channel = SecureChannel::new(identity(), CLIENT_SECRET, CLIENT_NONCE);
    assert_eq!(channel.connect(false), Err(ChannelError::Connection));
    assert_eq!(channel.stage(), Stage::Unconnected);
    assert_eq!(channel.exchange_key_request(&[2u8; 24]), Err(ChannelError::Connection));
    assert_eq!(channel.connect(true), Ok(()));
    assert!(channel.exchange_key_request(&[2u8; 24]).is_ok());
    let mut channel = SecureChannel::new(identity(), CLIENT_SECRET, CLIENT_NONCE);
    assert_eq!(channel.exchange_key(peer_hello(PEER_SECRET).as_bytes()), Err(ChannelError::Connection));
    assert_eq!(channel.stage(), Stage::Unconnected);
}

#[test]
fn the_key_exchange_announces_key_nonce_and_client() {
    let mut channel = SecureChannel::new(identity(), CLIENT_SECRET, CLIENT_NONCE);
    assert_eq!(channel.connect(true), Ok(()));
    let expected = format!(
        r#"{{"action":"change-public-keys","publicKey":"{}","nonce":"{}","clientID":"{}"}}"#,
        base64::encode(public_of(CLIENT_SECRET)),
        base64::encode([2u8; 24]),
        base64::encode(CLIENT_NONCE),
    );
    assert_eq!(channel.exchange_key_request(&[2u8; 24]), Ok(expected));
}

#[test]
fn a_malformed_answer_to_the_key_exchange_is_a_handshake_error() {
    let short = object(&[("publicKey", &base64::encode([5u8; 31]))]).dump();
    let long = object(&[("publicKey", &base64::encode([5u8; 33]))]).dump();
    let unread = "could not read the response of keepassxc";
    let format = "wrong format of public key";
    let answers = [
        ("", unread),
        ("not json", unread),
        (r#"{"action":"change-public-keys","error":"no","errorCode":"1"}"#, "no"),
        (r#"{"publicKey":12}"#, r#"invalid field in {"publicKey":12}"#),
        (r#"{"publicKey":"not base64!"}"#, format),
        (short.as_str(), format),
        (long.as_str(), format),
    ];
    let no_box = ChannelError::Handshake("could not exchange key with keepassxc".to_string());
    for (answer, reason) in answers {
        let mut channel = SecureChannel::new(identity(), CLIENT_SECRET, CLIENT_NONCE);
        assert_eq!(channel.connect(true), Ok(()));
        assert!(!channel.refused());
        let failure = channel.exchange_key(answer.as_bytes()).expect_err("no key in this");
        assert_eq!(failure, ChannelError::Handshake(reason.to_string()));
        assert_eq!(failure.message(), reason);
        assert_eq!(channel.stage(), Stage::Connected);
        assert!(channel.refused());
        let payload = Json::text("x");
        assert_eq!(channel.send_encrypt("test-associate", &payload, &[3u8; 24]), Err(no_box.clone()));
        assert_eq!(channel.receive_encrypt(b"{}"), Err(no_box.clone()));
    }
}

#[test]
fn what_the_channel_seals_the_peer_opens() {
    let mut channel = keyed_channel();
    let payload = channel.test_associate().expect("a pairing id is at hand");
    let record = channel
        .send_encrypt("test-associate", &payload, &[3u8; 24])
        .expect("the request is sealed");
    let (action, text) = peer_open(PEER_SECRET, public_of(CLIENT_SECRET), &record);
    assert_eq!(action, "test-associate");
    assert_eq!(Some(text.clone()), render(&payload));
    assert_eq!(text, r#"{"action":"test-associate","id":"pairing","key":"c2VjcmV0"}"#);
    let envelope = json::parse(&record).expect("the record is JSON");
    assert_eq!(envelope["nonce"].as_str(), Some(base64::encode([3u8; 24]).as_str()));
    assert_eq!(envelope["clientID"].as_str(), Some(base64::encode(CLIENT_NONCE).as_str()));
    assert_eq!(envelope.len(), 4);
}

#[test]
fn what_the_peer_seals_the_channel_opens() {
    let channel = keyed_channel();
    let answer = r#"{"hash":"abc","entries":[{"password":"hunter2"}]}"#;
    let record = peer_seal(PEER_SECRET, public_of(CLIENT_SECRET), [4u8; 24], answer);
    assert_eq!(channel.receive_encrypt(record.as_bytes()), Ok(parse(answer).expect("this is JSON")));
}

#[test]
fn a_channel_opens_what_its_counterpart_seals() {
    let mut here = keyed_channel();
    let mut there = SecureChannel::new(identity(), PEER_SECRET, [8u8; 24]);
    assert_eq!(there.connect(true), Ok(()));
    assert_eq!(there.exchange_key(peer_hello(CLIENT_SECRET).as_bytes()), Ok(()));
    let payload = here.get_logins("deadbeefcafebabe").expect("a pairing id is at hand");
    let record = here.send_encrypt("get-logins", &payload, &[3u8; 24]).expect("sealed");
    assert_eq!(there.receive_encrypt(record.as_bytes()), Ok(payload));
}

#[test]
fn a_nonce_seals_one_request_only() {
    let mut channel = keyed_channel();
    let payload = channel.associate();
    assert!(channel.send_encrypt("associate", &payload, &[3u8; 24]).is_ok());
    assert_eq!(
        channel.send_encrypt("associate", &payload, &[3u8; 24]),
        Err(ChannelError::Seal)
    );
    assert!(channel.send_encrypt("associate", &payload, &[4u8; 24]).is_ok());
    assert_eq!(
        channel.send_encrypt("associate", &payload, &[3u8; 24]),
        Err(ChannelError::Seal)
    );
    assert_eq!(
        channel.send_encrypt("associate", &payload, &[4u8; 24]),
        Err(ChannelError::Seal)
    );
}

#[test]
fn a_response_that_was_tampered_with_is_a_decrypt_error() {
    let channel = keyed_channel();
    let client_public = public_of(CLIENT_SECRET);
    let good = peer_seal(PEER_SECRET, client_public, [4u8; 24], r#"{"hash":"abc"}"#);
    let envelope = json::parse(&good).expect("the record is JSON");
    let mut sealed = base64::decode(envelope["message"].as_str().expect("a message")).expect("base64");
    sealed[20] ^= 1;
    let tampered = object(&[
        ("message", &base64::encode(&sealed)),
        ("nonce", envelope["nonce"].as_str().expect("a nonce")),
    ])
    .dump();
    assert_eq!(channel.receive_encrypt(tampered.as_bytes()), Err(ChannelError::Decrypt));
    let other_nonce = object(&[
        ("message", envelope["message"].as_str().expect("a message")),
        ("nonce", &base64::encode([5u8; 24])),
    ])
    .dump();
    assert_eq!(channel.receive_encrypt(other_nonce.as_bytes()), Err(ChannelError::Decrypt));
    let stranger = peer_seal([10u8; 32], client_public, [4u8; 24], r#"{"hash":"abc"}"#);
    assert_eq!(channel.receive_encrypt(stranger.as_bytes()), Err(ChannelError::Decrypt));
    let empty = object(&[("message", ""), ("nonce", &base64::encode([5u8; 24]))]).dump();
    assert_eq!(channel.receive_encrypt(empty.as_bytes()), Err(ChannelError::Decrypt));
}

#[test]
fn an_answer_in_the_clear_is_a_refusal_with_what_the_peer_said() {
    let channel = keyed_channel();
    let cases = [
        (
            r#"{"action":"get-logins","error":"Database not opened","errorCode":"1"}"#,
            "Database not opened",
        ),
        (
            r#"{"action":"test-associate","error":"Key not found","errorCode":"8"}"#,
            "Key not found",
        ),
        (r#"{"nonce":"AAAA","error":""}"#, ""),
        (r#"{"nonce":"AAAA"}"#, r#"invalid field in {"nonce":"AAAA"}"#),
        (r#"{"message":1,"nonce":2,"error":3}"#, r#"invalid field in {"message":1,"nonce":2,"error":3}"#),
        (r#"[]"#, "invalid field in []"),
        (r#""text""#, "invalid field in text"),
        ("null", "invalid field in null"),
    ];
    for (answer, said) in cases {
        let failure = channel.receive_encrypt(answer.as_bytes()).expect_err("nothing is sealed");
        assert_eq!(failure, ChannelError::Refused(said.to_string()));
        assert_eq!(failure.message(), said);
    }
}

#[test]
fn a_response_that_is_not_built_as_asked_is_malformed() {
    let channel = keyed_channel();
    let client_public = public_of(CLIENT_SECRET);
    let short_nonce = object(&[("message", "AAAA"), ("nonce", &base64::encode([5u8; 23]))]).dump();
    let not_text = peer_box(PEER_SECRET, client_public)
        .encrypt(&xsalsa20poly1305::Nonce::from([6u8; 24]), &[0xffu8, 0xfe][..])
        .expect("the peer seals");
    let not_text = object(&[
        ("message", &base64::encode(not_text)),
        ("nonce", &base64::encode([6u8; 24])),
    ])
    .dump();
    let not_json = peer_seal(PEER_SECRET, client_public, [6u8; 24], "hello");
    let answers = [
        "",
        "{",
        r#"{"message":"!!","nonce":"AAAA"}"#,
        r#"{"message":"AAAA","nonce":"!!"}"#,
        short_nonce.as_str(),
        not_text.as_str(),
        not_json.as_str(),
    ];
    for answer in answers {
        assert_eq!(channel.receive_encrypt(answer.as_bytes()), Err(ChannelError::Malformed));
    }
}

#[test]
fn the_pairing_requests() {
    let channel = keyed_channel();
    assert_eq!(
        channel.test_associate().and_then(|p| render(&p)),
        Some(r#"{"action":"test-associate","id":"pairing","key":"c2VjcmV0"}"#.to_string())
    );
    assert_eq!(
        render(&channel.associate()),
        Some(format!(
            r#"{{"action":"associate","key":"{}","idKey":"c2VjcmV0"}}"#,
            base64::encode(public_of(CLIENT_SECRET))
        ))
    );
    assert_eq!(
        channel.get_logins("deadbeefcafebabe").and_then(|p| render(&p)),
        Some(
            r#"{"action":"get-logins","url":"gpg://deadbeefcafebabe","keys":[{"id":"pairing","key":"c2VjcmV0"}]}"#
                .to_string()
        )
    );
}

#[test]
fn without_a_pairing_there_is_nothing_to_test_or_look_up() {
    let fresh = Identity { id: None, id_key: "c2VjcmV0".to_string() };
    let channel = SecureChannel::new(fresh, CLIENT_SECRET, CLIENT_NONCE);
    assert_eq!(channel.test_associate(), None);
    assert_eq!(channel.get_logins("deadbeefcafebabe"), None);
}

#[test]
fn a_pairing_id_is_learned_from_a_granted_pairing_only() {
    let fresh = Identity { id: None, id_key: "c2VjcmV0".to_string() };
    let mut channel = SecureChannel::new(fresh, CLIENT_SECRET, CLIENT_NONCE);
    let granted = parse(r#"{"hash":"new-pairing"}"#).expect("this is JSON");
    let denied = parse(r#"{"error":"denied"}"#).expect("this is JSON");
    assert!(!channel.adopt_pairing(&granted));
    assert_eq!(channel.identity().id, None);
    assert_eq!(channel.connect(true), Ok(()));
    assert_eq!(channel.exchange_key(peer_hello(PEER_SECRET).as_bytes()), Ok(()));
    assert!(!channel.confirm_pairing(&granted));
    assert!(!channel.adopt_pairing(&denied));
    assert_eq!(channel.identity().id, None);
    assert_eq!(channel.stage(), Stage::KeyExchanged);
    assert!(channel.adopt_pairing(&granted));
    assert_eq!(channel.identity().id, Some("new-pairing".to_string()));
    assert_eq!(channel.identity().id_key, "c2VjcmV0");
    assert_eq!(channel.stage(), Stage::Associated);
}

#[test]
fn the_first_entry_gives_the_passphrase() {
    let cases = [
        (r#"{"entries":[{"login":"me","password":"hunter2"}]}"#, Some("hunter2")),
        (r#"{"entries":[{"password":"first"},{"password":"second"}]}"#, Some("first")),
        (r#"{"entries":[{"password":""}]}"#, Some("")),
        (r#"{"entries":[]}"#, None),
        (r#"{"entries":[{"login":"me"},{"password":"second"}]}"#, None),
        (r#"{"entries":[{"password":7}]}"#, None),
        (r#"{"entries":{"password":"x"}}"#, None),
        (r#"{"count":0}"#, None),
        (r#"[]"#, None),
    ];
    for (answer, expected) in cases {
        let payload = parse(answer).expect("this is JSON");
        assert_eq!(SecureChannel::passphrase(&payload), expected.map(|s| s.to_string()));
    }
}

#[test]
fn after_a_failed_key_exchange_none_is_tried_again() {
    let mut channel = SecureChannel::new(identity(), CLIENT_SECRET, CLIENT_NONCE);
    assert_eq!(channel.connect(true), Ok(()));
    assert!(channel.exchange_key_request(&[2u8; 24]).is_ok());
    let no_box = ChannelError::Handshake("could not exchange key with keepassxc".to_string());
    assert_eq!(
        channel.exchange_key(b"{}"),
        Err(ChannelError::Handshake("invalid field in {}".to_string()))
    );
    assert_eq!(channel.exchange_key_request(&[3u8; 24]), Err(no_box.clone()));
    assert_eq!(channel.exchange_key(peer_hello(PEER_SECRET).as_bytes()), Err(no_box));
    assert_eq!(channel.stage(), Stage::Connected);
}

#[test]
fn a_payload_without_a_text_is_not_sealed() {
    let mut channel = keyed_channel();
    let twice = Json::Record(vec![
        ("action".to_string(), Json::text("a")),
        ("action".to_string(), Json::text("b")),
    ]);
    assert_eq!(channel.send_encrypt("a", &twice, &[3u8; 24]), Err(ChannelError::Seal));
    let once = Json::Record(vec![("action".to_string(), Json::text("a"))]);
    assert!(channel.send_encrypt("a", &once, &[3u8; 24]).is_ok());
}

#[test]
fn a_nonce_opens_one_key_exchange_only() {
    let mut channel = SecureChannel::new(identity(), CLIENT_SECRET, CLIENT_NONCE);
    assert_eq!(channel.connect(true), Ok(()));
    let first = channel.exchange_key_request(&[2u8; 24]).expect("a fresh nonce");
    assert_eq!(channel.exchange_key_request(&[2u8; 24]), Err(ChannelError::Seal));
    let second = channel.exchange_key_request(&[3u8; 24]).expect("a fresh nonce");
    let first = json::parse(&first).expect("the request is JSON");
    let second = json::parse(&second).expect("the request is JSON");
    assert_eq!(first["publicKey"], second["publicKey"]);
    assert_eq!(first["clientID"], second["clientID"]);
    assert_ne!(first["nonce"], second["nonce"]);
    assert_eq!(channel.exchange_key(peer_hello(PEER_SECRET).as_bytes()), Ok(()));
    let payload = channel.associate();
    assert_eq!(channel.send_encrypt("associate", &payload, &[2u8; 24]), Err(ChannelError::Seal));
    assert_eq!(channel.send_encrypt("associate", &payload, &[3u8; 24]), Err(ChannelError::Seal));
    assert!(channel.send_encrypt("associate", &payload, &[4u8; 24]).is_ok());
}

#[test]
fn a_record_that_is_not_utf8_is_not_read() {
    let mut channel = SecureChannel::new(identity(), CLIENT_SECRET, CLIENT_NONCE);
    assert_eq!(channel.connect(true), Ok(()));
    let mut hello = peer_hello(PEER_SECRET).into_bytes();
    hello.insert(2, 0xff);
    assert_eq!(
        channel.exchange_key(&hello),
        Err(ChannelError::Handshake("could not read the response of keepassxc".to_string()))
    );
    let channel = keyed_channel();
    let mut record =
        peer_seal(PEER_SECRET, public_of(CLIENT_SECRET), [4u8; 24], r#"{"hash":"abc"}"#).into_bytes();
    assert!(channel.receive_encrypt(&record).is_ok());
    let at = record.len() - 2;
    record.insert(at, 0xc3);
    assert_eq!(channel.receive_encrypt(&record), Err(ChannelError::Malformed));
}

#[test]
fn a_record_with_a_number_of_too_many_digits_is_not_read() {
    let number = format!("0.{}", "0".repeat(32769));
    let record = format!(r#"{{"publicKey":{}}}"#, number);
    let mut channel = SecureChannel::new(identity(), CLIENT_SECRET, CLIENT_NONCE);
    assert_eq!(channel.connect(true), Ok(()));
    assert_eq!(
        channel.exchange_key(record.as_bytes()),
        Err(ChannelError::Handshake("could not read the response of keepassxc".to_string()))
    );
    let channel = keyed_channel();
    assert_eq!(channel.receive_encrypt(record.as_bytes()), Err(ChannelError::Malformed));
    let sealed = peer_seal(PEER_SECRET, public_of(CLIENT_SECRET), [4u8; 24], &number);
    assert_eq!(channel.receive_encrypt(sealed.as_bytes()), Err(ChannelError::Malformed));
}

#[test]
fn every_failure_has_its_words() {
    assert_eq!(ChannelError::Connection.message(), "could not connect to keepassxc");
    assert_eq!(ChannelError::Handshake("wrong format of public key".to_string()).message(), "wrong format of public key");
    assert_eq!(ChannelError::Decrypt.message(), "could not decrypt message");
    assert_eq!(ChannelError::Association("denied".to_string()).message(), "denied");
    assert_eq!(ChannelError::Refused("Database not opened".to_string()).message(), "Database not opened");
    assert_eq!(ChannelError::Malformed.message(), "could not read the response of keepassxc");
    assert_eq!(ChannelError::Seal.message(), "could not seal message");
}
