//! Identities, keys and the encrypted link between two machines.

use inputshare::bytes::HexError;
use inputshare::crypto::{
    begin, begin_with, signature_from_hex, signature_to_hex, SignatureTextError, PROTOCOL_VERSION,
};
use inputshare::wire::{frame_length, read_frame, write_frame, Announcement, MAX_FRAME};
use inputshare::{now_ms, Error, Identity, NetError, PubKey};

/// The secret key, public key and signature of the first two test vectors of the
/// Ed25519 standard.
const SECRET: &str = "9d61b19deffd5a60ba844af492ec2cc44449c5697b326919703bac031cae7f60";
const PUBLIC: &str = "d75a980182b10ab7d54bfed3c964073a0ee172f3daa62325af021a68f707511a";
const SIGNATURE: &str = "e5564300c360ac729086e2cc806e828a84877f1eb8e5d974d873e065224901555fb8821590a33bacc61e39701cf9b46bd25bf5f0595bbe24655141438e7a100b";

fn hex(text: &str) -> Vec<u8> {
    (0..text.len() / 2)
        .map(|i| u8::from_str_radix(&text[2 * i..2 * i + 2], 16).unwrap())
        .collect()
}

#[test]
fn a_known_secret_has_its_known_public_key() {
    let identity = Identity::from_hex_secret(5, 77, SECRET).expect("a key");
    assert_eq!((identity.machine_id, identity.created_at_ms), (5, 77));
    assert_eq!(identity.public_key().to_hex(), PUBLIC);
    assert_eq!(identity.public_key().fingerprint(), "d75a9801");
    assert_eq!(identity.secret_to_hex(), SECRET);
}

#[test]
fn a_known_message_has_its_known_signature() {
    let identity = Identity::from_hex_secret(5, 77, SECRET).expect("a key");
    let signature = identity.sign(b"");
    assert_eq!(signature.to_vec(), hex(SIGNATURE));
    assert!(identity.public_key().verify(b"", &signature));
    assert!(!identity.public_key().verify(b"x", &signature));
    let mut spoiled = signature;
    spoiled[0] ^= 1;
    assert!(!identity.public_key().verify(b"", &spoiled));
}

#[test]
fn bytes_that_are_no_key_accept_nothing() {
    let identity = Identity::from_hex_secret(5, 77, SECRET).expect("a key");
    let signature = identity.sign(b"hello");
    let mut not_a_point = [0u8; 32];
    not_a_point[0] = 2;
    assert!(!PubKey::from_bytes(not_a_point).verify(b"hello", &signature));
    assert!(!PubKey::from_bytes([7; 32]).verify(b"hello", &signature));
}

#[test]
fn keys_are_written_in_hex_and_read_back() {
    let key = PubKey::from_hex(PUBLIC).expect("a key");
    assert_eq!(key.as_bytes().to_vec(), hex(PUBLIC));
    assert_eq!(key.to_hex(), PUBLIC);
    let upper = PubKey::from_hex(&PUBLIC.to_uppercase()).expect("either case");
    assert!(upper == key);
    assert!(PubKey::from_bytes(*key.as_bytes()) == key);
}

#[test]
fn texts_that_are_no_keys_are_refused() {
    assert!(matches!(
        PubKey::from_hex("abc"),
        Err(Error::Hex(HexError::OddLength))
    ));
    assert!(matches!(
        PubKey::from_hex("0g"),
        Err(Error::Hex(HexError::InvalidHexCharacter { c: 'g', index: 1 }))
    ));
    assert!(matches!(
        PubKey::from_hex("abcd"),
        Err(Error::KeyLength {
            expected: 32,
            got: 2
        })
    ));
    assert!(matches!(
        Identity::from_hex_secret(1, 2, ""),
        Err(Error::KeyLength {
            expected: 32,
            got: 0
        })
    ));
}

#[test]
fn every_identity_is_a_new_machine() {
    let before = now_ms();
    let a = Identity::generate();
    let b = Identity::generate();
    assert_ne!(a.machine_id, b.machine_id);
    assert!(a.public_key() != b.public_key());
    assert!(a.created_at_ms >= before && a.created_at_ms <= now_ms());
    assert!(before > 1_600_000_000_000);
    let copy = a.clone();
    assert_eq!(copy.secret_to_hex(), a.secret_to_hex());
}

#[test]
fn two_machines_talk_over_the_keys_they_agree_on() {
    let alice = Identity::generate();
    let bob = Identity::generate();
    let from_alice = begin(&alice);
    let from_bob = begin(&bob);
    assert!(from_alice.hello.verify() && from_bob.hello.verify());
    assert_eq!(from_alice.hello.protocol, PROTOCOL_VERSION);
    let alice_hello = from_alice.hello.clone();
    let bob_hello = from_bob.hello.clone();

    let alices = from_alice.complete(&bob_hello, true).expect("alice");
    let bobs = from_bob.complete(&alice_hello, false).expect("bob");
    assert_eq!(alices.peer_machine, bob.machine_id);
    assert!(bobs.peer_key == alice.public_key());

    let (mut alice_out, mut alice_in) = alices.split();
    let (mut bob_out, mut bob_in) = bobs.split();
    for message in ["first", "second", ""] {
        let frame = alice_out.seal(message.as_bytes()).expect("sealed");
        assert_ne!(frame, message.as_bytes());
        assert_eq!(frame.len(), message.len() + 16);
        assert_eq!(bob_in.open(&frame).expect("opened"), message.as_bytes());
    }
    let back = bob_out.seal(b"answer").expect("sealed");
    assert_eq!(alice_in.open(&back).expect("opened"), b"answer");
}

#[test]
fn the_same_secrets_give_the_same_link() {
    let alice = Identity::from_hex_secret(1, 0, SECRET).expect("a key");
    let bob = Identity::from_secret(2, 0, [9; 32]);
    let seal = || {
        let hello = begin_with(&bob, [4; 32], [5; 32]).hello;
        let session = begin_with(&alice, [1; 32], [2; 32])
            .complete(&hello, true)
            .expect("a link");
        let (mut out, _) = session.split();
        out.seal(b"x").expect("sealed")
    };
    assert_eq!(seal(), seal());
}

#[test]
fn a_frame_that_was_changed_or_replayed_does_not_open() {
    let alice = Identity::generate();
    let bob = Identity::generate();
    let a = begin(&alice);
    let b = begin(&bob);
    let (a_hello, b_hello) = (a.hello.clone(), b.hello.clone());
    let (mut out, _) = a.complete(&b_hello, true).expect("alice").split();
    let (_, mut inward) = b.complete(&a_hello, false).expect("bob").split();

    let first = out.seal(b"first").expect("sealed");
    let mut spoiled = first.clone();
    spoiled[0] ^= 1;
    assert!(matches!(
        inward.open(&spoiled),
        Err(NetError::Crypto("frame failed authentication"))
    ));
    let second = out.seal(b"second").expect("sealed");
    assert_eq!(inward.open(&second).expect("opened"), b"second");
    assert!(inward.open(&second).is_err());
}

#[test]
fn a_frame_out_of_turn_does_not_open() {
    let alice = Identity::generate();
    let bob = Identity::generate();
    let a = begin(&alice);
    let b = begin(&bob);
    let (a_hello, b_hello) = (a.hello.clone(), b.hello.clone());
    let (mut out, _) = a.complete(&b_hello, true).expect("alice").split();
    let (_, mut inward) = b.complete(&a_hello, false).expect("bob").split();

    let _dropped = out.seal(b"first").expect("sealed");
    let second = out.seal(b"second").expect("sealed");
    assert!(matches!(
        inward.open(&second),
        Err(NetError::Crypto("frame failed authentication"))
    ));
}

#[test]
fn a_hello_that_was_tampered_with_is_refused() {
    let alice = Identity::generate();
    let bob = Identity::generate();
    let mut hello = begin(&bob).hello;
    hello.machine_id ^= 1;
    assert!(!hello.verify());
    assert!(matches!(
        begin(&alice).complete(&hello, true),
        Err(NetError::Handshake(_))
    ));

    let mut old = begin(&bob).hello;
    old.protocol = PROTOCOL_VERSION + 1;
    assert!(matches!(
        begin(&alice).complete(&old, true),
        Err(NetError::Handshake(_))
    ));
}

#[test]
fn signatures_are_written_in_hex_and_read_back() {
    let identity = Identity::from_hex_secret(5, 77, SECRET).expect("a key");
    let signature = identity.sign(b"");
    assert_eq!(signature_to_hex(&signature), SIGNATURE);
    assert!(matches!(signature_from_hex(SIGNATURE), Ok(s) if s == signature));
    assert!(matches!(
        signature_from_hex("00"),
        Err(SignatureTextError::Length)
    ));
    assert!(matches!(
        signature_from_hex(&"zz".repeat(64)),
        Err(SignatureTextError::Digit)
    ));
}

#[test]
fn frames_carry_their_length_in_front() {
    let frame = write_frame(b"hello").expect("framed");
    assert_eq!(frame, b"\x00\x00\x00\x05hello");
    assert_eq!(frame_length(&frame[..4]).expect("a length"), 5);
    assert_eq!(
        read_frame(&frame).expect("readable").expect("whole"),
        b"hello"
    );
    assert!(read_frame(&frame[..8]).expect("readable").is_none());
    assert!(read_frame(&frame[..3]).expect("readable").is_none());
    assert_eq!(write_frame(b"").expect("framed"), [0, 0, 0, 0]);
}

#[test]
fn frames_that_are_too_large_are_refused() {
    let big = vec![0u8; MAX_FRAME + 1];
    assert!(matches!(
        write_frame(&big),
        Err(NetError::FrameTooLarge(n)) if n == MAX_FRAME + 1
    ));
    assert!(write_frame(&big[1..]).is_ok());
    assert!(matches!(
        frame_length(&[0xff, 0xff, 0xff, 0xff]),
        Err(NetError::FrameTooLarge(0xffff_ffff))
    ));
}

#[test]
fn an_announcement_says_who_is_invited() {
    let key = Identity::generate().public_key();
    let announcement =
        Announcement::describe(1, key, "Desk".into(), Some(9), 47452, vec![3, 4]);
    assert!(announcement.is_current() && !announcement.probe);
    assert!(announcement.invites(4) && !announcement.invites(5));
    assert_eq!(announcement.transport_port, 47452);
    let probe = announcement.into_probe();
    assert!(probe.probe && probe.is_current());
    let mut other = probe;
    other.protocol = PROTOCOL_VERSION + 1;
    assert!(!other.is_current());
}
