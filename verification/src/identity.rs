//! Permanent machine identity.
//!
//! The identity is generated once, on first launch, and then never changes. It
//! is deliberately independent of IP address, hostname, MAC address and network
//! interface: those are runtime metadata, and a machine that moves from Ethernet
//! to Wi-Fi is still the same machine.
//!
//! Alongside the ID, each installation holds an Ed25519 key pair. The public
//! half is what peers record when they pair, so a reconnecting machine proves it
//! is the machine it claims to be rather than merely asserting an ID.

use ed25519_dalek::{Signer, Verifier};
use vstd::prelude::*;

use crate::bytes;
use crate::clock::now_ms;
use crate::error::{Error, Result};
use crate::ids;
use crate::ids::MachineId;

verus! {

/// The Ed25519 public key of a secret key.
pub uninterp spec fn public_key_of(secret: Seq<u8>) -> Seq<u8>;

/// The Ed25519 signature that a secret key gives a message.
pub uninterp spec fn signature_of(secret: Seq<u8>, message: Seq<u8>) -> Seq<u8>;

/// Whether an Ed25519 public key accepts a signature on a message.
pub uninterp spec fn accepts(public_key: Seq<u8>, message: Seq<u8>, signature: Seq<u8>) -> bool;

/// `ed25519_dalek::SigningKey::generate` with the operating system's random
/// numbers: the bytes of a new secret key. Any thirty-two bytes can come back.
#[verifier::external_body]
fn generate_secret() -> (r: [u8; 32]) {
    ed25519_dalek::SigningKey::generate(&mut rand::rngs::OsRng).to_bytes()
}

/// `ed25519_dalek::SigningKey::verifying_key`: the public key of a secret key.
#[verifier::external_body]
fn derive_public_key(secret: &[u8; 32]) -> (r: [u8; 32])
    ensures
        r@ == public_key_of(secret@),
{
    ed25519_dalek::SigningKey::from_bytes(secret).verifying_key().to_bytes()
}

/// `ed25519_dalek::SigningKey::sign`: the signature that a secret key gives a
/// message. It depends on the two alone, and the public key of that secret key
/// accepts it.
#[verifier::external_body]
fn sign_message(secret: &[u8; 32], message: &[u8]) -> (r: [u8; 64])
    ensures
        r@ == signature_of(secret@, message@),
        accepts(public_key_of(secret@), message@, r@),
{
    ed25519_dalek::SigningKey::from_bytes(secret).sign(message).to_bytes()
}

/// `ed25519_dalek::VerifyingKey::verify`: whether a public key accepts a signature
/// on a message. Bytes that are no public key accept nothing.
#[verifier::external_body]
fn verify_signature(public_key: &[u8; 32], message: &[u8], signature: &[u8; 64]) -> (r: bool)
    ensures
        r == accepts(public_key@, message@, signature@),
{
    match ed25519_dalek::VerifyingKey::from_bytes(public_key) {
        Ok(key) => key.verify(message, &ed25519_dalek::Signature::from_bytes(signature)).is_ok(),
        Err(_) => false,
    }
}

/// An Ed25519 public key, written as hex.
#[derive(Clone, Copy, Debug)]
pub struct PubKey {
    bytes: [u8; 32],
}

impl View for PubKey {
    type V = Seq<u8>;

    closed spec fn view(&self) -> Seq<u8> {
        self.bytes@
    }
}

impl PartialEq for PubKey {
    fn eq(&self, other: &Self) -> (r: bool) {
        bytes::same_bytes(&self.bytes, &other.bytes)
    }
}

impl vstd::std_specs::cmp::PartialEqSpecImpl for PubKey {
    open spec fn obeys_eq_spec() -> bool {
        true
    }

    open spec fn eq_spec(&self, other: &Self) -> bool {
        self@ == other@
    }
}

impl Eq for PubKey {

}

/// What a text of hexadecimal digits gives as a key of thirty-two bytes.
pub open spec fn key_from_hex(text: Seq<char>, r: core::result::Result<Seq<u8>, Error>) -> bool {
    let coded = vstd::utf8::encode_utf8(text);
    exists|decoded: core::result::Result<Seq<u8>, bytes::HexError>|
        {
            &&& #[trigger] bytes::hex_decoded(coded, decoded)
            &&& r == match decoded {
                Ok(raw) => if raw.len() == 32 {
                    Ok::<Seq<u8>, Error>(raw)
                } else {
                    Err::<Seq<u8>, Error>(
                        Error::KeyLength { expected: 32, got: raw.len() as usize },
                    )
                },
                Err(e) => Err::<Seq<u8>, Error>(Error::Hex(e)),
            }
        }
}

/// Thirty-two bytes out of a text of hexadecimal digits.
fn decode_key(text: &str) -> (r: Result<[u8; 32]>)
    ensures
        key_from_hex(
            text@,
            match r {
                Ok(key) => Ok::<Seq<u8>, Error>(key@),
                Err(e) => Err::<Seq<u8>, Error>(e),
            },
        ),
{
    let decoded = bytes::hex_decode(text);
    let ghost coded = vstd::utf8::encode_utf8(text@);
    assert(bytes::hex_decoded(coded, bytes::result_view(decoded)));
    match decoded {
        Err(e) => Err(Error::Hex(e)),
        Ok(raw) => {
            if raw.len() != 32 {
                Err(Error::KeyLength { expected: 32, got: raw.len() })
            } else {
                Ok(bytes::to_array_32(raw.as_slice()))
            }
        },
    }
}

impl PubKey {
    pub fn from_bytes(bytes: [u8; 32]) -> (r: Self)
        ensures
            r@ == bytes@,
    {
        Self { bytes }
    }

    pub fn as_bytes(&self) -> (r: &[u8; 32])
        ensures
            r@ == self@,
    {
        &self.bytes
    }

    pub fn to_hex(&self) -> (r: String)
        ensures
            r@ == bytes::hex_text(self@),
    {
        bytes::hex_encode(&self.bytes)
    }

    pub fn from_hex(s: &str) -> (r: Result<Self>)
        ensures
            key_from_hex(
                s@,
                match r {
                    Ok(key) => Ok::<Seq<u8>, Error>(key@),
                    Err(e) => Err::<Seq<u8>, Error>(e),
                },
            ),
    {
        match decode_key(s) {
            Ok(bytes) => Ok(Self { bytes }),
            Err(e) => Err(e),
        }
    }

    /// Short form for logs and for the pairing dialog, where a human compares
    /// two screens.
    pub fn fingerprint(&self) -> (r: String)
        ensures
            r@ == bytes::hex_text(self@.take(4)),
    {
        let mut head: Vec<u8> = Vec::new();
        head.push(self.bytes[0]);
        head.push(self.bytes[1]);
        head.push(self.bytes[2]);
        head.push(self.bytes[3]);
        assert(head@ =~= self@.take(4));
        bytes::hex_encode(head.as_slice())
    }

    /// Whether `sig` is this key's signature over `msg`.
    pub fn verify(&self, msg: &[u8], sig: &[u8; 64]) -> (r: bool)
        ensures
            r == accepts(self@, msg@, sig@),
    {
        verify_signature(&self.bytes, msg, sig)
    }
}

/// The secret half of an identity's key pair. It has no printable form, so that it
/// cannot reach a log line.
#[derive(Clone, Copy)]
pub struct SecretKey {
    bytes: [u8; 32],
}

impl View for SecretKey {
    type V = Seq<u8>;

    closed spec fn view(&self) -> Seq<u8> {
        self.bytes@
    }
}

/// This installation's permanent identity. Written once, read every boot.
pub struct Identity {
    pub machine_id: MachineId,
    pub created_at_ms: u64,
    pub secret_key: SecretKey,
}

impl Clone for Identity {
    fn clone(&self) -> (r: Self)
        ensures
            r == *self,
    {
        Identity {
            machine_id: self.machine_id,
            created_at_ms: self.created_at_ms,
            secret_key: self.secret_key,
        }
    }
}

impl Identity {
    /// The secret half of the key pair.
    pub open spec fn secret(self) -> Seq<u8> {
        self.secret_key@
    }

    /// Mints a new identity. Called on first launch, and after a reinstall: a
    /// fresh install is a new machine rather than one that silently inherits the
    /// old one's trust.
    pub fn generate() -> (r: Self)
        ensures
            r.secret().len() == 32,
            ids::is_minted(r.machine_id),
    {
        Self::from_secret(ids::new_id(), now_ms(), generate_secret())
    }

    /// The identity that holds a given secret key.
    pub fn from_secret(machine_id: MachineId, created_at_ms: u64, secret_key: [u8; 32]) -> (r: Self)
        ensures
            r.machine_id == machine_id,
            r.created_at_ms == created_at_ms,
            r.secret() == secret_key@,
    {
        Self { machine_id, created_at_ms, secret_key: SecretKey { bytes: secret_key } }
    }

    /// The identity that was written down with its secret key in hex.
    pub fn from_hex_secret(machine_id: MachineId, created_at_ms: u64, secret: &str) -> (r: Result<
        Self,
    >)
        ensures
            key_from_hex(
                secret@,
                match r {
                    Ok(identity) => Ok::<Seq<u8>, Error>(identity.secret()),
                    Err(e) => Err::<Seq<u8>, Error>(e),
                },
            ),
            r matches Ok(identity) ==> identity.machine_id == machine_id && identity.created_at_ms
                == created_at_ms,
    {
        match decode_key(secret) {
            Ok(secret_key) => Ok(Self::from_secret(machine_id, created_at_ms, secret_key)),
            Err(e) => Err(e),
        }
    }

    /// The secret key in hex, for writing the identity down.
    pub fn secret_to_hex(&self) -> (r: String)
        ensures
            r@ == bytes::hex_text(self.secret()),
    {
        bytes::hex_encode(&self.secret_key.bytes)
    }

    pub fn public_key(&self) -> (r: PubKey)
        ensures
            r@ == public_key_of(self.secret()),
    {
        PubKey { bytes: derive_public_key(&self.secret_key.bytes) }
    }

    pub fn sign(&self, msg: &[u8]) -> (r: [u8; 64])
        ensures
            r@ == signature_of(self.secret(), msg@),
            accepts(public_key_of(self.secret()), msg@, r@),
    {
        sign_message(&self.secret_key.bytes, msg)
    }
}

/// A key written as hex and read again is the same key.
pub proof fn key_hex_round_trip(key: Seq<u8>, r: core::result::Result<Seq<u8>, Error>)
    requires
        key.len() == 32,
        key_from_hex(bytes::hex_text(key), r),
    ensures
        r == Ok::<Seq<u8>, Error>(key),
{
    let coded = vstd::utf8::encode_utf8(bytes::hex_text(key));
    bytes::hex_round_trip(key);
    let decoded = choose|decoded: core::result::Result<Seq<u8>, bytes::HexError>|
        {
            &&& #[trigger] bytes::hex_decoded(coded, decoded)
            &&& r == match decoded {
                Ok(raw) => if raw.len() == 32 {
                    Ok::<Seq<u8>, Error>(raw)
                } else {
                    Err::<Seq<u8>, Error>(
                        Error::KeyLength { expected: 32, got: raw.len() as usize },
                    )
                },
                Err(e) => Err::<Seq<u8>, Error>(Error::Hex(e)),
            }
        };
    assert(decoded == Ok::<Seq<u8>, bytes::HexError>(key));
}

} // verus!
