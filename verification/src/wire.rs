//! What goes over the wire, and how it is framed.

use vstd::prelude::*;

use crate::bytes;
use crate::crypto::PROTOCOL_VERSION;
use crate::identity::PubKey;
use crate::ids::{MachineId, WorkspaceId};
use crate::input::InputEvent;
use crate::model::{WorkspaceDoc, WorkspaceUpdate};
use crate::net_error::{NetError, NetResult};

verus! {

/// A whole workspace document has to fit in one frame, and documents grow with
/// the number of machines and displays. Generous, but bounded: an unbounded
/// length prefix is a way to ask a peer to allocate all of memory.
pub const MAX_FRAME: usize = 4194304;

/// Sent over UDP so machines can find each other.
///
/// Carries no trust whatsoever. Anyone on the network can send one claiming any
/// machine ID; all it does is prompt a connection attempt, and the handshake on
/// that connection is what actually decides who the peer is. It is a hint about
/// *where* to look, never about *who* is there.
#[derive(Debug)]
pub struct Announcement {
    pub protocol: u16,
    pub machine_id: MachineId,
    pub identity_key: PubKey,
    pub display_name: String,
    /// `None` for a machine that has not joined a workspace yet: it still
    /// announces, so it can show up as a pairing candidate.
    pub workspace_id: Option<WorkspaceId>,
    pub transport_port: u16,
    /// Set on an announcement sent straight to a typed-in address, asking the
    /// receiver to answer once so both machines learn about each other from a
    /// single entry.
    pub probe: bool,
    /// Machines this one has admitted but is not connected to.
    ///
    /// Pairing needs both sides to agree, and without this the second side has
    /// no idea it was asked: the person clicks Pair on one machine, nothing
    /// happens, and there is nothing on screen to explain why. Carrying the
    /// invitation turns that into "this computer invited you".
    ///
    /// Only ids of machines not currently connected, so the list stays short and
    /// stops being advertised once it has served its purpose.
    pub invitations: Vec<MachineId>,
}

impl Announcement {
    /// What this machine says of itself right now.
    pub fn describe(
        machine_id: MachineId,
        identity_key: PubKey,
        display_name: String,
        workspace_id: Option<WorkspaceId>,
        transport_port: u16,
        invitations: Vec<MachineId>,
    ) -> (r: Self)
        ensures
            r == (Announcement {
                protocol: PROTOCOL_VERSION,
                machine_id,
                identity_key,
                display_name,
                workspace_id,
                transport_port,
                probe: false,
                invitations,
            }),
    {
        Announcement {
            protocol: PROTOCOL_VERSION,
            machine_id,
            identity_key,
            display_name,
            workspace_id,
            transport_port,
            probe: false,
            invitations,
        }
    }

    /// The same announcement, asking for an answer.
    pub fn into_probe(self) -> (r: Self)
        ensures
            r == (Announcement { probe: true, ..self }),
    {
        Announcement { probe: true, ..self }
    }

    pub fn is_current(&self) -> (r: bool)
        ensures
            r == (self.protocol == PROTOCOL_VERSION),
    {
        self.protocol == PROTOCOL_VERSION
    }

    /// Whether the sender invites `machine`.
    pub fn invites(&self, machine: MachineId) -> (r: bool)
        ensures
            r == self.invitations@.contains(machine),
    {
        let mut i: usize = 0;
        while i < self.invitations.len()
            invariant
                i <= self.invitations@.len(),
                forall|k: int| 0 <= k < i ==> self.invitations@[k] != machine,
            decreases self.invitations@.len() - i,
        {
            if self.invitations[i] == machine {
                return true;
            }
            i = i + 1;
        }
        false
    }
}

/// Everything after the handshake, encrypted.
#[derive(Debug)]
pub enum Message {
    /// First message on a fresh session.
    Identify {
        display_name: String,
        workspace_id: Option<WorkspaceId>,
        /// How many machines the sender's configuration holds.
        ///
        /// Lets two machines that each set up on their own decide, without
        /// asking a person, which configuration survives: the bigger one, and
        /// the lower id when they are the same size. Both sides compute the same
        /// answer from the same two numbers.
        machines: u32,
    },
    /// The sender's whole document. Both sides send one on connect and merge
    /// what they receive, because neither can assume it holds the newer state.
    DocFull { doc: Box<WorkspaceDoc> },
    /// A single change, while both machines are connected.
    Update { update: Box<WorkspaceUpdate> },
    /// Keyboard and mouse events captured on the sender, to be replayed here.
    ///
    /// Batched because motion arrives in bursts, and one frame per mouse sample
    /// would spend more time on framing and encryption than on the event itself.
    Input { events: Vec<InputEvent> },
    /// "The cursor is on this machine now."
    ///
    /// Broadcast whenever ownership moves. Exactly one machine owns the pointer
    /// at a time and everyone has to agree which: without this each machine
    /// decides for itself, they drift into both believing they have it, and the
    /// result is a pointer that ping-pongs and a keyboard that goes dead for no
    /// visible reason.
    CursorOwner { machine: MachineId },
    Ping { nonce: u64 },
    Pong { nonce: u64 },
    Goodbye { reason: String },
}

/// A frame on the wire: its length as four big-endian bytes, then its content.
pub open spec fn framed(content: Seq<u8>) -> Seq<u8> {
    bytes::big_endian(content.len(), 4) + content
}

/// The frame that carries `content`, refused where it would be too long.
pub fn write_frame(content: &[u8]) -> (r: NetResult<Vec<u8>>)
    ensures
        content@.len() <= MAX_FRAME ==> r is Ok && r->Ok_0@ == framed(content@),
        content@.len() > MAX_FRAME ==> r == Err::<Vec<u8>, NetError>(
            NetError::FrameTooLarge(content@.len() as usize),
        ),
{
    if content.len() > MAX_FRAME {
        return Err(NetError::FrameTooLarge(content.len()));
    }
    let mut out = bytes::to_be_bytes(content.len() as u128, 4);
    bytes::append(&mut out, content);
    Ok(out)
}

/// How long the frame is whose first four bytes are `header`, refused where that
/// is too long.
pub fn frame_length(header: &[u8]) -> (r: NetResult<usize>)
    requires
        header@.len() >= 4,
    ensures
        ({
            let len = bytes::from_big_endian(header@.take(4));
            &&& len <= MAX_FRAME ==> r == Ok::<usize, NetError>(len as usize)
            &&& len > MAX_FRAME ==> r == Err::<usize, NetError>(
                NetError::FrameTooLarge(len as usize),
            )
        }),
{
    let len: usize = bytes::be_u32(header) as usize;
    if len > MAX_FRAME {
        return Err(NetError::FrameTooLarge(len));
    }
    Ok(len)
}

/// What the bytes received so far hold at their front.
pub open spec fn unframed(input: Seq<u8>) -> Option<Result<Seq<u8>, nat>> {
    if input.len() < 4 {
        None
    } else {
        let len = bytes::from_big_endian(input.take(4));
        if len > MAX_FRAME {
            Some(Err(len))
        } else if input.len() < 4 + len {
            None
        } else {
            Some(Ok(input.subrange(4, 4 + len as int)))
        }
    }
}

/// The content of the frame at the front of `input`, `None` until the whole of it
/// is there. A frame that announces too great a length is refused as soon as its
/// header is.
pub fn read_frame(input: &[u8]) -> (r: NetResult<Option<Vec<u8>>>)
    ensures
        match unframed(input@) {
            None => r == Ok::<Option<Vec<u8>>, NetError>(None),
            Some(Err(len)) => r == Err::<Option<Vec<u8>>, NetError>(
                NetError::FrameTooLarge(len as usize),
            ),
            Some(Ok(content)) => r is Ok && r->Ok_0 is Some && r->Ok_0->0@ == content,
        },
{
    if input.len() < 4 {
        return Ok(None);
    }
    let len: usize = match frame_length(input) {
        Ok(len) => len,
        Err(e) => {
            return Err(e);
        },
    };
    if input.len() - 4 < len {
        return Ok(None);
    }
    let mut out: Vec<u8> = Vec::new();
    let mut i: usize = 0;
    while i < len
        invariant
            i <= len,
            len <= MAX_FRAME,
            4 + len <= input@.len(),
            out@ == input@.subrange(4, 4 + i as int),
        decreases len - i,
    {
        out.push(input[4 + i]);
        assert(input@.subrange(4, 4 + i as int).push(input@[4 + i as int]) =~= input@.subrange(
            4,
            4 + i + 1,
        ));
        i = i + 1;
    }
    Ok(Some(out))
}

/// A frame that was written reads back as its content, whatever follows it on the
/// stream.
pub proof fn frame_round_trip(content: Seq<u8>, rest: Seq<u8>)
    requires
        content.len() <= MAX_FRAME,
    ensures
        unframed(framed(content) + rest) == Some(Ok::<Seq<u8>, nat>(content)),
        framed(content).len() == 4 + content.len(),
{
    let stream = framed(content) + rest;
    bytes::big_endian_length(content.len(), 4);
    bytes::byte_range_values();
    bytes::big_endian_round_trip(content.len(), 4);
    assert(stream.take(4) =~= bytes::big_endian(content.len(), 4));
    assert(stream.subrange(4, 4 + content.len() as int) =~= content);
}

/// A frame is never delivered in part: any proper prefix of it reads as not there
/// yet.
pub proof fn partial_frame_is_not_delivered(content: Seq<u8>, received: int)
    requires
        content.len() <= MAX_FRAME,
        0 <= received < framed(content).len(),
    ensures
        unframed(framed(content).take(received)) is None,
{
    let part = framed(content).take(received);
    bytes::big_endian_length(content.len(), 4);
    bytes::byte_range_values();
    bytes::big_endian_round_trip(content.len(), 4);
    if received >= 4 {
        assert(part.take(4) =~= bytes::big_endian(content.len(), 4));
    }
}

/// No frame read is longer than the limit.
pub proof fn frames_are_bounded(input: Seq<u8>)
    ensures
        unframed(input) matches Some(Ok(content)) ==> content.len() <= MAX_FRAME,
{
}

/// A frame says how long it is in its first four bytes, the most significant first, and
/// nothing of its content is changed or moved around.
pub proof fn a_frame_is_its_length_and_its_content(content: Seq<u8>, i: int)
    requires
        content.len() <= MAX_FRAME,
        0 <= i < content.len(),
    ensures
        framed(content)[4 + i] == content[i],
        framed(content)[0] * 0x100_0000 + framed(content)[1] * 0x1_0000 + framed(content)[2] * 0x100
            + framed(content)[3] == content.len(),
{
    let n = content.len();
    bytes::big_endian_length(n, 4);
    bytes::byte_range_values();
    bytes::big_endian_round_trip(n, 4);
    let head = bytes::big_endian(n, 4);
    assert(head.drop_last().drop_last().drop_last().drop_last() =~= Seq::<u8>::empty());
    reveal_with_fuel(bytes::from_big_endian, 5);
    assert(head.drop_last().len() == 3 && head.drop_last().drop_last().len() == 2);
    assert(bytes::from_big_endian(head) == n);
    assert(framed(content)[0] == head[0] && framed(content)[1] == head[1] && framed(content)[2]
        == head[2] && framed(content)[3] == head[3]);
}

} // verus!
