//! The handshake, and the cipher that protects everything after it.
//!
//! This link carries keystrokes. Plaintext on a LAN would be a keylogger anyone
//! on the same Wi-Fi could read, so the transport is encrypted from the first
//! frame after the handshake.
//!
//! The shape is standard and deliberately boring:
//!
//! 1. Each side sends a `Hello` in the clear carrying an **ephemeral** X25519
//!    public key, a random nonce, and its long-term Ed25519 identity key.
//! 2. The `Hello` is signed by that identity key over the ephemeral key and the
//!    nonce. Signing the ephemeral key is what stops a machine in the middle
//!    from swapping in its own: an attacker cannot forge the signature without
//!    the identity key, which never leaves the machine that owns it.
//! 3. Both sides derive the same secret with X25519, run it through HKDF along
//!    with both nonces, and split the output into one key per direction.
//!
//! Ephemeral keys mean a stolen identity key cannot decrypt yesterday's
//! recording of the link, only impersonate the machine from now on, which
//! unpairing fixes.
//!
//! What this does *not* do is authorise. The handshake proves "this really is
//! the holder of key K". Whether key K belongs in the workspace is a separate
//! question, answered against the paired records in the workspace document.

use chacha20poly1305::aead::{Aead, KeyInit, Payload};
use rand::RngCore;
use vstd::prelude::*;

use crate::bytes;
use crate::identity;
use crate::identity::{Identity, PubKey};
use crate::ids;
use crate::ids::MachineId;
use crate::net_error::{NetError, NetResult};

verus! {

/// Bumped whenever the wire format changes in a way older builds cannot read.
pub const PROTOCOL_VERSION: u16 = 1;

/// The longest plaintext that ChaCha20-Poly1305 can encrypt under one nonce: its
/// block counter numbers this many bytes.
pub const LONGEST_PLAINTEXT: u64 = 0x3f_ffff_ff80;

/// The longest ciphertext: the longest plaintext with its tag behind it.
pub const LONGEST_CIPHERTEXT: u64 = 0x3f_ffff_ff90;

/// The X25519 function: the point `u` multiplied by the clamped scalar `k`.
pub uninterp spec fn scalar_mult(k: Seq<u8>, u: Seq<u8>) -> Seq<u8>;

/// HKDF-SHA256 with sixty-four bytes of output.
pub uninterp spec fn derived(salt: Seq<u8>, secret: Seq<u8>, info: Seq<u8>) -> Seq<u8>;

/// ChaCha20-Poly1305 encryption without associated data: the ciphertext and its
/// tag.
pub uninterp spec fn encrypted(key: Seq<u8>, nonce: Seq<u8>, plaintext: Seq<u8>) -> Seq<u8>;

/// ChaCha20-Poly1305 decryption without associated data, `None` where the tag does
/// not fit.
pub uninterp spec fn decrypted(key: Seq<u8>, nonce: Seq<u8>, ciphertext: Seq<u8>) -> Option<Seq<u8>>;

/// The point that X25519 public keys are multiples of.
pub open spec fn base_point() -> Seq<u8> {
    Seq::new(
        32,
        |i: int|
            if i == 0 {
                9u8
            } else {
                0u8
            },
    )
}

/// `rand::rngs::OsRng`: thirty-two random bytes of the operating system. Any can
/// come back.
#[verifier::external_body]
fn random_bytes() -> (r: [u8; 32]) {
    let mut out = [0u8; 32];
    rand::rngs::OsRng.fill_bytes(&mut out);
    out
}

/// `x25519_dalek::x25519`: a point multiplied by a scalar. Of the base point,
/// whose multiples are the public keys, it is the Diffie-Hellman function: two
/// sides that multiply each other's public key get the same point.
#[verifier::external_body]
fn x25519(k: &[u8; 32], u: &[u8; 32]) -> (r: [u8; 32])
    ensures
        r@ == scalar_mult(k@, u@),
        u@ == base_point() ==> forall|other: Seq<u8>|
            other.len() == 32 ==> #[trigger] scalar_mult(other, r@) == scalar_mult(
                k@,
                scalar_mult(other, base_point()),
            ),
{
    x25519_dalek::x25519(*k, *u)
}

/// `hkdf::Hkdf::<Sha256>::expand` to sixty-four bytes, which is short enough for
/// it never to refuse.
#[verifier::external_body]
fn hkdf_sha256(salt: &[u8], secret: &[u8], info: &[u8]) -> (r: Option<[u8; 64]>)
    ensures
        r is Some,
        r->0@ == derived(salt@, secret@, info@),
{
    let mut out = [0u8; 64];
    match hkdf::Hkdf::<sha2::Sha256>::new(Some(salt), secret).expand(info, &mut out) {
        Ok(()) => Some(out),
        Err(_) => None,
    }
}

/// `ChaCha20Poly1305::encrypt` of a plaintext that the block counter can number,
/// which it never refuses. The tag makes the result sixteen bytes longer, and
/// decrypting it under the same key and nonce gives the plaintext back. A plaintext
/// that is slightly too long makes it panic.
#[verifier::external_body]
fn chacha_encrypt(key: &[u8; 32], nonce: &[u8; 12], plaintext: &[u8]) -> (r: Option<Vec<u8>>)
    requires
        plaintext@.len() + 16 <= isize::MAX,
        plaintext@.len() <= LONGEST_PLAINTEXT,
    ensures
        r is Some,
        r matches Some(c) ==> {
            &&& c@ == encrypted(key@, nonce@, plaintext@)
            &&& c@.len() == plaintext@.len() + 16
            &&& decrypted(key@, nonce@, c@) == Some(plaintext@)
        },
{
    let cipher = chacha20poly1305::ChaCha20Poly1305::new(chacha20poly1305::Key::from_slice(key));
    let nonce = chacha20poly1305::Nonce::from_slice(nonce);
    cipher.encrypt(nonce, Payload { msg: plaintext, aad: &[] }).ok()
}

/// `ChaCha20Poly1305::decrypt` of a ciphertext that the block counter can number: the
/// plaintext, sixteen bytes shorter than the ciphertext, or a refusal where the tag
/// does not fit. That it refuses a ciphertext which nobody encrypted is left unsaid:
/// forging one is hard, not impossible. A ciphertext that is slightly too long makes
/// it panic if its tag fits.
#[verifier::external_body]
fn chacha_decrypt(key: &[u8; 32], nonce: &[u8; 12], ciphertext: &[u8]) -> (r: Option<Vec<u8>>)
    requires
        ciphertext@.len() <= LONGEST_CIPHERTEXT,
    ensures
        (match r {
            Some(m) => Some(m@),
            None => None,
        }) == decrypted(key@, nonce@, ciphertext@),
        r matches Some(m) ==> m@.len() + 16 == ciphertext@.len(),
{
    let cipher = chacha20poly1305::ChaCha20Poly1305::new(chacha20poly1305::Key::from_slice(key));
    let nonce = chacha20poly1305::Nonce::from_slice(nonce);
    cipher.decrypt(nonce, Payload { msg: ciphertext, aad: &[] }).ok()
}

/// The base point.
fn base_point_bytes() -> (r: [u8; 32])
    ensures
        r@ == base_point(),
{
    let mut out = [0u8; 32];
    out[0] = 9;
    assert(out@ =~= base_point());
    out
}

/// The one message sent in the clear. Everything after it is encrypted.
#[derive(Clone, Copy, Debug)]
pub struct Hello {
    pub protocol: u16,
    pub machine_id: MachineId,
    pub identity_key: PubKey,
    /// Ephemeral X25519 public key, discarded when the connection ends.
    pub ephemeral: [u8; 32],
    pub nonce: [u8; 32],
    pub signature: [u8; 64],
}

/// What a `Hello` signs. The context in front makes sure that a signature made
/// here can never be replayed as a signature for something else.
pub open spec fn transcript_of(machine_id: MachineId, ephemeral: Seq<u8>, nonce: Seq<u8>) -> Seq<u8> {
    vstd::utf8::encode_utf8("inputshare-handshake-v1"@) + ids::id_bytes(machine_id) + ephemeral
        + nonce
}

impl Hello {
    /// Whether the `Hello` speaks our protocol and its key accepts its signature.
    pub open spec fn is_genuine(self) -> bool {
        self.protocol == PROTOCOL_VERSION && identity::accepts(
            self.identity_key@,
            transcript_of(self.machine_id, self.ephemeral@, self.nonce@),
            self.signature@,
        )
    }

    fn transcript(machine_id: MachineId, ephemeral: &[u8; 32], nonce: &[u8; 32]) -> (r: Vec<u8>)
        ensures
            r@ == transcript_of(machine_id, ephemeral@, nonce@),
    {
        let mut out: Vec<u8> = Vec::new();
        bytes::append(&mut out, "inputshare-handshake-v1".as_bytes());
        bytes::append(&mut out, ids::id_to_bytes(machine_id).as_slice());
        bytes::append(&mut out, ephemeral);
        bytes::append(&mut out, nonce);
        assert(out@ =~= transcript_of(machine_id, ephemeral@, nonce@));
        out
    }

    /// Whether this `Hello` was really produced by the holder of the key it
    /// claims. Says nothing about whether that key is trusted.
    pub fn verify(&self) -> (r: bool)
        ensures
            r == self.is_genuine(),
    {
        if self.protocol != PROTOCOL_VERSION {
            return false;
        }
        let transcript = Self::transcript(self.machine_id, &self.ephemeral, &self.nonce);
        self.identity_key.verify(transcript.as_slice(), &self.signature)
    }
}

/// The secret half of an ephemeral key pair.
pub struct EphemeralSecret {
    bytes: [u8; 32],
}

impl View for EphemeralSecret {
    type V = Seq<u8>;

    closed spec fn view(&self) -> Seq<u8> {
        self.bytes@
    }
}

/// Our half of a handshake in progress.
pub struct Initiation {
    pub hello: Hello,
    pub secret: EphemeralSecret,
}

impl Initiation {
    /// The `Hello` is genuine, and its ephemeral key is the public key of the
    /// secret that is kept back.
    pub open spec fn is_sound(self) -> bool {
        &&& self.hello.is_genuine()
        &&& self.secret@.len() == 32
        &&& self.hello.ephemeral@ == scalar_mult(self.secret@, base_point())
        &&& forall|other: Seq<u8>|
            other.len() == 32 ==> #[trigger] scalar_mult(other, self.hello.ephemeral@)
                == scalar_mult(self.secret@, scalar_mult(other, base_point()))
    }
}

/// Starts a handshake, minting a fresh ephemeral key for this connection.
pub fn begin(identity: &Identity) -> (r: Initiation)
    ensures
        r.is_sound(),
        r.hello.protocol == PROTOCOL_VERSION,
        r.hello.machine_id == identity.machine_id,
        r.hello.identity_key@ == identity::public_key_of(identity.secret()),
        r.hello.signature@ == identity::signature_of(
            identity.secret(),
            transcript_of(identity.machine_id, r.hello.ephemeral@, r.hello.nonce@),
        ),
{
    begin_with(identity, random_bytes(), random_bytes())
}

/// Starts a handshake with a given ephemeral secret and nonce. Each pair may be
/// used for one connection only.
pub fn begin_with(identity: &Identity, secret: [u8; 32], nonce: [u8; 32]) -> (r: Initiation)
    ensures
        r.is_sound(),
        r.secret@ == secret@,
        r.hello.protocol == PROTOCOL_VERSION,
        r.hello.machine_id == identity.machine_id,
        r.hello.identity_key@ == identity::public_key_of(identity.secret()),
        r.hello.ephemeral@ == scalar_mult(secret@, base_point()),
        r.hello.nonce@ == nonce@,
        r.hello.signature@ == identity::signature_of(
            identity.secret(),
            transcript_of(identity.machine_id, r.hello.ephemeral@, nonce@),
        ),
{
    let ephemeral = x25519(&secret, &base_point_bytes());
    let transcript = Hello::transcript(identity.machine_id, &ephemeral, &nonce);
    Initiation {
        hello: Hello {
            protocol: PROTOCOL_VERSION,
            machine_id: identity.machine_id,
            identity_key: identity.public_key(),
            ephemeral,
            nonce,
            signature: identity.sign(transcript.as_slice()),
        },
        secret: EphemeralSecret { bytes: secret },
    }
}

/// The sixty-four bytes of key material that one handshake gives: the dialling
/// side sends under the first half and the accepting side under the second.
pub open spec fn session_keys(
    secret: Seq<u8>,
    peer_ephemeral: Seq<u8>,
    dialler_nonce: Seq<u8>,
    acceptor_nonce: Seq<u8>,
) -> Seq<u8> {
    derived(
        dialler_nonce + acceptor_nonce,
        scalar_mult(secret, peer_ephemeral),
        vstd::utf8::encode_utf8("inputshare-session-v1"@),
    )
}

impl Initiation {
    /// The key material of a handshake with `peer`.
    pub open spec fn keys_with(self, peer: Hello, dialled: bool) -> Seq<u8> {
        if dialled {
            session_keys(self.secret@, peer.ephemeral@, self.hello.nonce@, peer.nonce@)
        } else {
            session_keys(self.secret@, peer.ephemeral@, peer.nonce@, self.hello.nonce@)
        }
    }

    /// Whether `session` is the one that a handshake with `peer` gives: the dialling
    /// side sends under the first half of the key material and receives under the
    /// second, the accepting side the other way round, and nothing has been sent.
    pub open spec fn gives(self, peer: Hello, dialled: bool, session: Session) -> bool {
        let keys = self.keys_with(peer, dialled);
        &&& session.peer_machine == peer.machine_id
        &&& session.peer_key@ == peer.identity_key@
        &&& session.send.key() == (if dialled {
            keys.take(32)
        } else {
            keys.skip(32)
        })
        &&& session.receive.key() == (if dialled {
            keys.skip(32)
        } else {
            keys.take(32)
        })
        &&& session.send.count() == 0
        &&& session.receive.count() == 0
    }

    /// Completes the handshake against the peer's `Hello`.
    ///
    /// `dialled` says whether we opened the connection. Both sides must agree,
    /// or they would pick the same key for both directions.
    pub fn complete(self, peer: &Hello, dialled: bool) -> (r: NetResult<Session>)
        ensures
            !peer.is_genuine() ==> r == Err::<Session, NetError>(
                NetError::Handshake("peer could not prove its identity key"),
            ),
            peer.is_genuine() && peer.machine_id == self.hello.machine_id ==> r == Err::<
                Session,
                NetError,
            >(NetError::Handshake("peer reports our own machine id")),
            peer.is_genuine() && peer.machine_id != self.hello.machine_id ==> (r matches Ok(s)
                && self.gives(*peer, dialled, s)),
    {
        if !peer.verify() {
            return Err(NetError::Handshake("peer could not prove its identity key"));
        }
        if peer.machine_id == self.hello.machine_id {
            return Err(NetError::Handshake("peer reports our own machine id"));
        }
        let shared = x25519(&self.secret.bytes, &peer.ephemeral);
        // Both nonces in a fixed order, so the two sides salt identically.
        let mut salt: Vec<u8> = Vec::new();
        if dialled {
            bytes::append(&mut salt, &self.hello.nonce);
            bytes::append(&mut salt, &peer.nonce);
            assert(salt@ =~= self.hello.nonce@ + peer.nonce@);
        } else {
            bytes::append(&mut salt, &peer.nonce);
            bytes::append(&mut salt, &self.hello.nonce);
            assert(salt@ =~= peer.nonce@ + self.hello.nonce@);
        }
        let keys = match hkdf_sha256(
            salt.as_slice(),
            &shared,
            "inputshare-session-v1".as_bytes(),
        ) {
            Some(keys) => keys,
            None => {
                return Err(NetError::Handshake("key derivation failed"));
            },
        };
        // The dialling side takes the first key to send with; the accepting
        // side takes it to receive with.
        let first = Direction::new(half(&keys, 0));
        let second = Direction::new(half(&keys, 32));
        let (send, receive) = if dialled {
            (first, second)
        } else {
            (second, first)
        };
        Ok(Session { peer_machine: peer.machine_id, peer_key: peer.identity_key, send, receive })
    }
}

/// Thirty-two of sixty-four bytes.
fn half(keys: &[u8; 64], from: usize) -> (r: [u8; 32])
    requires
        from == 0 || from == 32,
    ensures
        from == 0 ==> r@ == keys@.take(32),
        from == 32 ==> r@ == keys@.skip(32),
{
    let mut out = [0u8; 32];
    let mut i: usize = 0;
    while i < 32
        invariant
            i <= 32,
            from == 0 || from == 32,
            forall|k: int| 0 <= k < i ==> out@[k] == keys@[from + k],
        decreases 32 - i,
    {
        out[i] = keys[from + i];
        i = i + 1;
    }
    if from == 0 {
        assert(out@ =~= keys@.take(32));
    } else {
        assert(out@ =~= keys@.skip(32));
    }
    out
}

/// One direction of a channel: its key, and how many frames it has carried.
pub struct Direction {
    key: [u8; 32],
    counter: u64,
}

/// The nonce of the frame with the given number.
pub open spec fn nonce_of(count: u64) -> Seq<u8> {
    seq![0u8, 0u8, 0u8, 0u8] + bytes::big_endian(count as nat, 8)
}

impl Direction {
    pub closed spec fn key(self) -> Seq<u8> {
        self.key@
    }

    pub closed spec fn count(self) -> u64 {
        self.counter
    }

    fn new(key: [u8; 32]) -> (r: Self)
        ensures
            r.key() == key@,
            r.count() == 0,
    {
        Self { key, counter: 0 }
    }

    /// A counter nonce. Never reused, because each direction has its own key
    /// and the counter only moves forward within one connection.
    fn next_nonce(&mut self) -> (r: [u8; 12])
        requires
            old(self).count() < u64::MAX,
        ensures
            r@ == nonce_of(old(self).count()),
            final(self).count() == old(self).count() + 1,
            final(self).key() == old(self).key(),
    {
        let tail = bytes::to_be_bytes(self.counter as u128, 8);
        let mut out = [0u8; 12];
        let mut i: usize = 0;
        while i < 8
            invariant
                i <= 8,
                tail@.len() == 8,
                forall|k: int| 0 <= k < 4 ==> out@[k] == 0,
                forall|k: int| 0 <= k < i ==> out@[4 + k] == tail@[k],
            decreases 8 - i,
        {
            out[4 + i] = tail[i];
            i = i + 1;
        }
        self.counter = self.counter + 1;
        assert(out@ =~= nonce_of((self.counter - 1) as u64)) by {
            assert forall|k: int| 0 <= k < 12 implies out@[k] == nonce_of(
                (self.counter - 1) as u64,
            )[k] by {
                if k >= 4 {
                    assert(out@[4 + (k - 4)] == tail@[k - 4]);
                }
            }
        }
        out
    }
}

/// An established, mutually authenticated, encrypted channel.
pub struct Session {
    pub peer_machine: MachineId,
    pub peer_key: PubKey,
    pub send: Direction,
    pub receive: Direction,
}

impl Session {
    /// Splits into the two halves, so reading and writing can run as separate
    /// tasks.
    ///
    /// They have to be separate: framed reads are not cancellation-safe, so a
    /// single task selecting over "read a frame" and "write a frame" would lose
    /// half a frame the first time a write won the race.
    pub fn split(self) -> (r: (Sealer, Opener))
        ensures
            r.0.0 == self.send,
            r.1.0 == self.receive,
    {
        (Sealer(self.send), Opener(self.receive))
    }
}

/// The outbound half.
pub struct Sealer(pub Direction);

/// How the outbound half before and after, a plaintext and an answer relate if the
/// plaintext was sealed: it is encrypted under the next nonce, and refused only if it
/// is too long.
pub open spec fn seals(
    before: Sealer,
    plaintext: Seq<u8>,
    after: Sealer,
    r: NetResult<Vec<u8>>,
) -> bool {
    &&& after.0.key() == before.0.key()
    &&& after.0.count() == before.0.count() + 1
    &&& if plaintext.len() > LONGEST_PLAINTEXT {
        r == Err::<Vec<u8>, NetError>(NetError::Crypto("could not encrypt frame"))
    } else {
        &&& r matches Ok(c)
        &&& c@ == encrypted(before.0.key(), nonce_of(before.0.count()), plaintext)
        &&& c@.len() == plaintext.len() + 16
        &&& decrypted(before.0.key(), nonce_of(before.0.count()), c@) == Some(plaintext)
    }
}

impl Sealer {
    pub fn seal(&mut self, plaintext: &[u8]) -> (r: NetResult<Vec<u8>>)
        requires
            old(self).0.count() < u64::MAX,
            plaintext@.len() + 16 <= isize::MAX,
        ensures
            seals(*old(self), plaintext@, *final(self), r),
    {
        let nonce = self.0.next_nonce();
        if plaintext.len() as u64 > LONGEST_PLAINTEXT {
            return Err(NetError::Crypto("could not encrypt frame"));
        }
        match chacha_encrypt(&self.0.key, &nonce, plaintext) {
            Some(ciphertext) => Ok(ciphertext),
            None => Err(NetError::Crypto("could not encrypt frame")),
        }
    }
}

/// The inbound half.
pub struct Opener(pub Direction);

/// How the inbound half before and after, a ciphertext and an answer relate if the
/// ciphertext was opened: it is decrypted under the next nonce.
pub open spec fn opens(
    before: Opener,
    ciphertext: Seq<u8>,
    after: Opener,
    r: NetResult<Vec<u8>>,
) -> bool {
    let refused = Err::<Vec<u8>, NetError>(NetError::Crypto("frame failed authentication"));
    &&& after.0.key() == before.0.key()
    &&& after.0.count() == before.0.count() + 1
    &&& if ciphertext.len() > LONGEST_CIPHERTEXT {
        r == refused
    } else {
        match decrypted(before.0.key(), nonce_of(before.0.count()), ciphertext) {
            Some(m) => r matches Ok(plaintext) && plaintext@ == m,
            None => r == refused,
        }
    }
}

impl Opener {
    /// Opens the next frame. The counter has to line up exactly, so the stream is
    /// protected as a sequence and not merely frame by frame: a frame that was
    /// altered, replayed or reordered, or that follows a dropped one, is decrypted
    /// under a nonce or with a tag that it was not made for. That it fails then rests
    /// on the cipher.
    pub fn open(&mut self, ciphertext: &[u8]) -> (r: NetResult<Vec<u8>>)
        requires
            old(self).0.count() < u64::MAX,
        ensures
            opens(*old(self), ciphertext@, *final(self), r),
    {
        let nonce = self.0.next_nonce();
        if ciphertext.len() as u64 > LONGEST_CIPHERTEXT {
            return Err(NetError::Crypto("frame failed authentication"));
        }
        match chacha_decrypt(&self.0.key, &nonce, ciphertext) {
            Some(plaintext) => Ok(plaintext),
            None => Err(NetError::Crypto("frame failed authentication")),
        }
    }
}

/// Why a text is not a signature.
#[derive(Clone, Copy, Debug, PartialEq, Eq, Structural)]
pub enum SignatureTextError {
    /// It is not 128 bytes long.
    Length,
    /// A pair of characters is not a number in hexadecimal.
    Digit,
}

/// The number that two characters spell in base sixteen. A plus sign may stand in
/// front of a single digit.
pub open spec fn pair_value(first: u8, second: u8) -> Option<u8> {
    match (bytes::hex_value(first), bytes::hex_value(second)) {
        (Some(a), Some(b)) => Some((a * 16 + b) as u8),
        (None, Some(b)) => if first == '+' as u8 {
            Some(b as u8)
        } else {
            None
        },
        _ => None,
    }
}

/// The value of an ASCII hexadecimal digit of either case, if it is one.
fn digit_value(c: u8) -> (r: Option<u8>)
    ensures
        match r {
            Some(v) => bytes::hex_value(c) == Some(v as int) && v < 16,
            None => bytes::hex_value(c) is None,
        },
{
    if 65 <= c && c <= 70 {
        Some(c - 65 + 10)
    } else if 97 <= c && c <= 102 {
        Some(c - 97 + 10)
    } else if 48 <= c && c <= 57 {
        Some(c - 48)
    } else {
        None
    }
}

/// A signature as it is written in a message.
pub fn signature_to_hex(signature: &[u8; 64]) -> (r: String)
    ensures
        r@ == bytes::hex_text(signature@),
{
    bytes::hex_encode(signature)
}

/// A signature out of a message: 128 characters, each pair of them one byte.
pub fn signature_from_hex(text: &str) -> (r: core::result::Result<[u8; 64], SignatureTextError>)
    ensures
        ({
            let coded = vstd::utf8::encode_utf8(text@);
            let fits = forall|k: int|
                0 <= k < 64 ==> (#[trigger] pair_value(coded[2 * k], coded[2 * k + 1])) is Some;
            &&& coded.len() != 128 ==> r == Err::<[u8; 64], SignatureTextError>(
                SignatureTextError::Length,
            )
            &&& coded.len() == 128 && !fits ==> r == Err::<[u8; 64], SignatureTextError>(
                SignatureTextError::Digit,
            )
            &&& coded.len() == 128 && fits ==> r is Ok && (forall|k: int|
                0 <= k < 64 ==> Some(#[trigger] r->Ok_0@[k]) == pair_value(
                    coded[2 * k],
                    coded[2 * k + 1],
                ))
        }),
{
    let coded = text.as_bytes();
    if coded.len() != 128 {
        return Err(SignatureTextError::Length);
    }
    let mut out = [0u8; 64];
    let mut i: usize = 0;
    while i < 64
        invariant
            i <= 64,
            coded@ == vstd::utf8::encode_utf8(text@),
            coded@.len() == 128,
            forall|k: int|
                0 <= k < i ==> (#[trigger] pair_value(coded@[2 * k], coded@[2 * k + 1])) == Some(
                    out@[k],
                ),
        decreases 64 - i,
    {
        let first: u8 = coded[2 * i];
        let second: u8 = coded[2 * i + 1];
        let value: u8 = match (digit_value(first), digit_value(second)) {
            (Some(a), Some(b)) => a * 16 + b,
            (None, Some(b)) => if first == 43 {
                b
            } else {
                assert(pair_value(coded@[2 * (i as int)], coded@[2 * (i as int) + 1]) is None);
                return Err(SignatureTextError::Digit);
            },
            _ => {
                assert(pair_value(coded@[2 * (i as int)], coded@[2 * (i as int) + 1]) is None);
                return Err(SignatureTextError::Digit);
            },
        };
        out[i] = value;
        i = i + 1;
    }
    assert forall|k: int| 0 <= k < 64 implies Some(#[trigger] out@[k]) == pair_value(
        coded@[2 * k],
        coded@[2 * k + 1],
    ) by {
        assert(pair_value(coded@[2 * k], coded@[2 * k + 1]) == Some(out@[k]));
    }
    Ok(out)
}

/// What a machine signs binds its identifier, its ephemeral key and its nonce: two
/// transcripts are the same only if all three are.
pub proof fn transcript_binds_its_parts(
    a: MachineId,
    a_ephemeral: Seq<u8>,
    a_nonce: Seq<u8>,
    b: MachineId,
    b_ephemeral: Seq<u8>,
    b_nonce: Seq<u8>,
)
    requires
        a_ephemeral.len() == 32,
        a_nonce.len() == 32,
        b_ephemeral.len() == 32,
        b_nonce.len() == 32,
        transcript_of(a, a_ephemeral, a_nonce) == transcript_of(b, b_ephemeral, b_nonce),
    ensures
        a == b,
        a_ephemeral == b_ephemeral,
        a_nonce == b_nonce,
{
    let context = vstd::utf8::encode_utf8("inputshare-handshake-v1"@);
    let n = context.len() as int;
    let s = transcript_of(a, a_ephemeral, a_nonce);
    let t = transcript_of(b, b_ephemeral, b_nonce);
    bytes::big_endian_length(a as nat, 16);
    bytes::big_endian_length(b as nat, 16);
    bytes::byte_range_values();
    assert(s.subrange(n, n + 16) =~= ids::id_bytes(a));
    assert(t.subrange(n, n + 16) =~= ids::id_bytes(b));
    bytes::big_endian_is_injective(a as nat, b as nat, 16);
    assert(s.subrange(n + 16, n + 48) =~= a_ephemeral);
    assert(t.subrange(n + 16, n + 48) =~= b_ephemeral);
    assert(s.subrange(n + 48, n + 80) =~= a_nonce);
    assert(t.subrange(n + 48, n + 80) =~= b_nonce);
}

/// Both sides of a handshake derive the same key material, the dialling side
/// calling it one way round and the accepting side the other.
pub proof fn both_sides_derive_the_same_keys(dialler: Initiation, acceptor: Initiation)
    requires
        dialler.is_sound(),
        acceptor.is_sound(),
    ensures
        dialler.keys_with(acceptor.hello, true) == acceptor.keys_with(dialler.hello, false),
{
    assert(scalar_mult(acceptor.secret@, dialler.hello.ephemeral@) == scalar_mult(
        dialler.secret@,
        scalar_mult(acceptor.secret@, base_point()),
    ));
}

/// The two sessions that a handshake gives fit together: what the one sends under,
/// the other receives under, both ways, from the same count on; and each is with the
/// machine and the key of the other's `Hello`.
pub proof fn both_sessions_fit_together(
    dialler: Initiation,
    acceptor: Initiation,
    dialled: Session,
    accepted: Session,
)
    requires
        dialler.is_sound(),
        acceptor.is_sound(),
        dialler.gives(acceptor.hello, true, dialled),
        acceptor.gives(dialler.hello, false, accepted),
    ensures
        dialled.send.key() == accepted.receive.key(),
        dialled.receive.key() == accepted.send.key(),
        dialled.send.count() == accepted.receive.count(),
        dialled.receive.count() == accepted.send.count(),
        dialled.peer_machine == acceptor.hello.machine_id,
        accepted.peer_machine == dialler.hello.machine_id,
        dialled.peer_key@ == acceptor.hello.identity_key@,
        accepted.peer_key@ == dialler.hello.identity_key@,
{
    both_sides_derive_the_same_keys(dialler, acceptor);
}

/// What was sealed comes out as it went in, however many frames are opened, as long
/// as they are opened in the order they were sealed in by the half that fits.
pub proof fn frames_come_out_as_sealed(
    sealers: Seq<Sealer>,
    plaintexts: Seq<Seq<u8>>,
    frames: Seq<Vec<u8>>,
    openers: Seq<Opener>,
    opened: Seq<NetResult<Vec<u8>>>,
)
    requires
        plaintexts.len() == frames.len() == opened.len(),
        sealers.len() == openers.len() == frames.len() + 1,
        sealers[0].0.key() == openers[0].0.key(),
        sealers[0].0.count() == openers[0].0.count(),
        forall|i: int|
            0 <= i < frames.len() ==> seals(
                sealers[i],
                plaintexts[i],
                sealers[i + 1],
                Ok::<Vec<u8>, NetError>(#[trigger] frames[i]),
            ),
        forall|i: int|
            0 <= i < frames.len() ==> opens(
                openers[i],
                frames[i]@,
                openers[i + 1],
                #[trigger] opened[i],
            ),
    ensures
        forall|i: int|
            0 <= i < frames.len() ==> ((#[trigger] opened[i]) matches Ok(m) && m@
                == plaintexts[i]),
        sealers.last().0.key() == openers.last().0.key(),
        sealers.last().0.count() == openers.last().0.count(),
    decreases frames.len(),
{
    if frames.len() > 0 {
        let n = frames.len() - 1;
        assert forall|i: int| 0 <= i < n implies seals(
            sealers.drop_last()[i],
            plaintexts.drop_last()[i],
            sealers.drop_last()[i + 1],
            Ok::<Vec<u8>, NetError>(#[trigger] frames.drop_last()[i]),
        ) by {
            assert(frames.drop_last()[i] == frames[i]);
        }
        assert forall|i: int| 0 <= i < n implies opens(
            openers.drop_last()[i],
            frames.drop_last()[i]@,
            openers.drop_last()[i + 1],
            #[trigger] opened.drop_last()[i],
        ) by {
            assert(opened.drop_last()[i] == opened[i]);
        }
        frames_come_out_as_sealed(
            sealers.drop_last(),
            plaintexts.drop_last(),
            frames.drop_last(),
            openers.drop_last(),
            opened.drop_last(),
        );
        assert(sealers.drop_last().last() == sealers[n]);
        assert(openers.drop_last().last() == openers[n]);
        assert(frames[n] == frames.last());
        assert(opened[n] == opened.last());
        assert forall|i: int| 0 <= i < frames.len() implies ((#[trigger] opened[i]) matches Ok(m)
            && m@ == plaintexts[i]) by {
            if i < n {
                assert(opened.drop_last()[i] == opened[i]);
            }
        }
    }
}

/// Two frames of one direction never share a nonce.
pub proof fn nonces_never_repeat(a: u64, b: u64)
    requires
        nonce_of(a) == nonce_of(b),
    ensures
        a == b,
{
    bytes::big_endian_length(a as nat, 8);
    bytes::big_endian_length(b as nat, 8);
    bytes::byte_range_values();
    assert(nonce_of(a).skip(4) =~= bytes::big_endian(a as nat, 8));
    assert(nonce_of(b).skip(4) =~= bytes::big_endian(b as nat, 8));
    bytes::big_endian_is_injective(a as nat, b as nat, 8);
}

/// A signature written down and read again is the same signature.
pub proof fn signature_hex_round_trip(signature: Seq<u8>)
    requires
        signature.len() == 64,
    ensures
        ({
            let coded = vstd::utf8::encode_utf8(bytes::hex_text(signature));
            &&& coded.len() == 128
            &&& forall|k: int|
                0 <= k < 64 ==> #[trigger] pair_value(coded[2 * k], coded[2 * k + 1]) == Some(
                    signature[k],
                )
        }),
{
    let coded = vstd::utf8::encode_utf8(bytes::hex_text(signature));
    bytes::hex_round_trip(signature);
    assert forall|k: int| 0 <= k < 64 implies #[trigger] pair_value(coded[2 * k], coded[2 * k + 1])
        == Some(signature[k]) by {
        assert(bytes::hex_value(coded[2 * k]) is Some);
        assert(bytes::hex_value(coded[2 * k + 1]) is Some);
        assert(bytes::hex_bytes(coded)[k] == signature[k]);
    }
}

/// Each direction of a session has a key of its own: the two are the two halves of the
/// key material, the dialling side's sending half first, and together all of it.
pub proof fn each_direction_has_its_own_half(
    ours: Initiation,
    peer: Hello,
    dialled: bool,
    session: Session,
)
    requires
        ours.gives(peer, dialled, session),
        ours.keys_with(peer, dialled).len() == 64,
    ensures
        session.send.key().len() == 32,
        session.receive.key().len() == 32,
        dialled ==> session.send.key() + session.receive.key() == ours.keys_with(peer, dialled),
        !dialled ==> session.receive.key() + session.send.key() == ours.keys_with(peer, dialled),
        session.peer_machine == peer.machine_id,
        session.peer_key@ == peer.identity_key@,
{
    let keys = ours.keys_with(peer, dialled);
    assert(keys.take(32) + keys.skip(32) =~= keys);
}

/// The nonces of both sides go into the key material, the dialling side's first, so
/// that a `Hello` that is sent again gives other keys; and so does the secret that the
/// two ephemeral keys share.
pub proof fn both_nonces_go_into_the_keys(ours: Initiation, peer: Hello)
    ensures
        ours.keys_with(peer, true) == derived(
            ours.hello.nonce@ + peer.nonce@,
            scalar_mult(ours.secret@, peer.ephemeral@),
            vstd::utf8::encode_utf8("inputshare-session-v1"@),
        ),
        ours.keys_with(peer, false) == derived(
            peer.nonce@ + ours.hello.nonce@,
            scalar_mult(ours.secret@, peer.ephemeral@),
            vstd::utf8::encode_utf8("inputshare-session-v1"@),
        ),
{
}

/// A nonce is twelve bytes: four zeros, and the number of the frame in the other eight.
pub proof fn a_nonce_is_the_number_of_its_frame(count: u64, k: int)
    requires
        0 <= k < 4,
    ensures
        nonce_of(count).len() == 12,
        nonce_of(count)[k] == 0,
        bytes::from_big_endian(nonce_of(count).skip(4)) == count,
{
    bytes::big_endian_length(count as nat, 8);
    bytes::byte_range_values();
    bytes::big_endian_round_trip(count as nat, 8);
    assert(nonce_of(count).skip(4) =~= bytes::big_endian(count as nat, 8));
}

/// A `Hello` is genuine only if it speaks this protocol and its key accepts its signature
/// of just its own identifier, ephemeral key and nonce.
pub proof fn a_genuine_hello_is_signed_by_its_key(hello: Hello)
    ensures
        hello.protocol != 1 ==> !hello.is_genuine(),
        !identity::accepts(
            hello.identity_key@,
            transcript_of(hello.machine_id, hello.ephemeral@, hello.nonce@),
            hello.signature@,
        ) ==> !hello.is_genuine(),
{
}

} // verus!
