//! The peers of this machine: who was heard from, who is connected, and whom to
//! dial next.
//!
//! One table owns all peer state and every input to it is a call here: a
//! multicast sighting, a connection result, a command from the app, a timer. What
//! is left to do on the network comes back as a value.

use std::collections::BTreeMap;

use vstd::prelude::*;

use crate::addr;
use crate::addr::{Endpoint, Ip};
use crate::identity::{Identity, PubKey};
use crate::ids;
use crate::ids::{MachineId, WorkspaceId};
use crate::wire::Announcement;

verus! {

/// A moment on the monotonic clock, in nanoseconds since some fixed start.
pub type Moment = u64;

/// One second on that clock.
pub const SECOND: u64 = 1_000_000_000;

/// How long a machine can be silent before we stop believing the address we last
/// saw it at. Several announce intervals, so one dropped datagram is not treated
/// as a machine going away.
pub const HINT_TTL: u64 = 20_000_000_000;

/// The longest wait between two attempts to reach a machine.
pub const BACKOFF_CAP: u64 = 30_000_000_000;

/// How the network side of this machine is set up.
pub struct Config {
    pub identity: Identity,
    pub discovery_port: u16,
    /// `0` binds an available port, which is what lets two instances run on one
    /// machine during development.
    pub transport_port: u16,
    pub announce_interval: u64,
}

impl Config {
    pub fn new(identity: Identity) -> (r: Self)
        ensures
            r == (Config {
                identity,
                discovery_port: 47451,
                transport_port: 47452,
                announce_interval: 3_000_000_000,
            }),
    {
        Config {
            identity,
            discovery_port: 47451,
            transport_port: 47452,
            announce_interval: 3 * SECOND,
        }
    }
}

#[derive(Clone, Copy, PartialEq, Eq, Debug, Structural)]
pub enum Status {
    Offline,
    Connecting,
    Online,
}

/// What we know about one machine at runtime. None of this is persisted:
/// addresses and liveness are not part of the workspace.
#[derive(Debug)]
pub struct PeerSlot {
    pub display_name: String,
    pub addr: Option<Endpoint>,
    /// The workspace this peer last announced.
    ///
    /// Watched because a peer changing workspace is the one event that makes a
    /// backoff obsolete rather than merely early: a connection refused because
    /// the two were in different workspaces is worth retrying the instant either
    /// side leaves or joins one.
    pub last_workspace: Option<Option<WorkspaceId>>,
    pub last_seen: Option<Moment>,
    pub status: Status,
    /// Whether messages can be queued for this peer.
    pub outbound: bool,
    pub attempts: u32,
    pub next_attempt: Moment,
}

impl Clone for PeerSlot {
    fn clone(&self) -> (r: Self)
        ensures
            r == *self,
    {
        PeerSlot {
            display_name: self.display_name.clone(),
            addr: self.addr,
            last_workspace: self.last_workspace,
            last_seen: self.last_seen,
            status: self.status,
            outbound: self.outbound,
            attempts: self.attempts,
            next_attempt: self.next_attempt,
        }
    }
}

/// A machine that nothing is known of but its name.
pub open spec fn unknown_peer(display_name: String, now: Moment) -> PeerSlot {
    PeerSlot {
        display_name,
        addr: None,
        last_workspace: None,
        last_seen: None,
        status: Status::Offline,
        outbound: false,
        attempts: 0,
        next_attempt: now,
    }
}

impl PeerSlot {
    /// Heard from less than `HINT_TTL` ago.
    pub open spec fn is_fresh(self, now: Moment) -> bool {
        self.last_seen matches Some(seen) && now - seen < HINT_TTL
    }

    fn new(display_name: String, now: Moment) -> (r: Self)
        ensures
            r == unknown_peer(display_name, now),
    {
        Self {
            display_name,
            addr: None,
            last_workspace: None,
            last_seen: None,
            status: Status::Offline,
            outbound: false,
            attempts: 0,
            next_attempt: now,
        }
    }

    /// Whether we heard from this machine recently enough to believe its
    /// address.
    pub fn fresh(&self, now: Moment) -> (r: bool)
        ensures
            r == self.is_fresh(now),
    {
        match self.last_seen {
            Some(seen) => now < seen || now - seen < HINT_TTL,
            None => false,
        }
    }
}

/// What the app learns from the network.
#[derive(Debug)]
pub enum Event {
    /// A machine in our workspace was heard from.
    Sighted { machine_id: MachineId },
    /// A machine we have never paired with is on the network.
    Candidate {
        machine_id: MachineId,
        display_name: String,
        identity_key: PubKey,
        workspace_id: Option<WorkspaceId>,
        addr: Endpoint,
        /// It has already admitted us and is waiting for us to admit it back.
        invited_us: bool,
    },
    Connecting { machine_id: MachineId },
    Online { machine_id: MachineId },
    Offline { machine_id: MachineId, reason: String },
    /// A peer proved an identity we do not trust. Surfaced rather than logged
    /// away: it is either a machine that needs pairing, or someone trying to
    /// join a workspace they are not in.
    Rejected { machine_id: MachineId, identity_key: PubKey, addr: Endpoint },
    /// A paired machine turned out to be in a different workspace.
    ///
    /// Retrying cannot fix this, so it is reported once per attempt and the peer
    /// is backed off hard until somebody chooses which workspace to keep.
    DifferentWorkspaces {
        machine_id: MachineId,
        display_name: String,
        identity_key: PubKey,
        their_workspace: WorkspaceId,
        /// How many machines their configuration holds, so both sides can pick
        /// the same survivor without asking anybody.
        their_size: u32,
    },
    /// The document changed because of something a peer sent.
    WorkspaceChanged,
}

/// What a session tells the peer table about itself.
#[derive(Debug)]
pub enum SessionOutcome {
    Established { machine_id: MachineId, display_name: String },
    Closed { machine_id: MachineId, reason: String },
    Rejected { machine_id: MachineId, identity_key: PubKey, addr: Endpoint },
    /// Both machines are in a workspace, and they are not the same one.
    ///
    /// This cannot be resolved by retrying: two workspaces have different
    /// identifiers and the merge refuses to mix them, by design. Reported as its
    /// own outcome so it can be explained rather than looping forever as an
    /// unexplained failure to connect.
    DifferentWorkspaces {
        machine_id: MachineId,
        display_name: String,
        identity_key: PubKey,
        their_workspace: WorkspaceId,
        their_size: u32,
    },
    WorkspaceChanged,
}

/// What the listener saw.
#[derive(Debug)]
pub struct Sighting {
    pub announcement: Announcement,
    pub from: Endpoint,
}

/// What a sighting calls for.
#[derive(Debug)]
pub struct SightingResponse {
    /// Where to send a description of this machine, once.
    pub reply_to: Option<Ip>,
    pub event: Option<Event>,
}

/// `2^n` for `n` up to five, and 32 from there on.
pub open spec fn doubling(n: u32) -> nat {
    if n == 0 {
        1
    } else if n == 1 {
        2
    } else if n == 2 {
        4
    } else if n == 3 {
        8
    } else if n == 4 {
        16
    } else {
        32
    }
}

/// The wait after a number of failed attempts: a second, doubled for each, and
/// never more than the cap.
pub open spec fn backoff_after(attempts: u32) -> nat {
    let step = SECOND as nat * doubling(attempts);
    if step > BACKOFF_CAP {
        BACKOFF_CAP as nat
    } else {
        step
    }
}

/// Exponential with a hard cap. The cap matters: an unreachable-but-announcing
/// machine must settle into a slow poll rather than hammering forever.
pub fn backoff(attempts: u32) -> (r: u64)
    ensures
        r == backoff_after(attempts),
{
    let doubled: u64 = if attempts == 0 {
        1
    } else if attempts == 1 {
        2
    } else if attempts == 2 {
        4
    } else if attempts == 3 {
        8
    } else if attempts == 4 {
        16
    } else {
        32
    };
    let step: u64 = SECOND * doubled;
    if step > BACKOFF_CAP {
        BACKOFF_CAP
    } else {
        step
    }
}

/// A moment later on, the last one that can be told where that is too late.
pub open spec fn later(now: Moment, by: nat) -> Moment {
    if now + by > u64::MAX {
        u64::MAX
    } else {
        (now + by) as u64
    }
}

/// The slot of a trusted machine that has just been heard from.
pub open spec fn after_sighting(
    before: Option<PeerSlot>,
    a: Announcement,
    at: Endpoint,
    now: Moment,
) -> PeerSlot {
    let base = match before {
        Some(slot) => slot,
        None => unknown_peer(a.display_name, now),
    };
    let moved = base.last_workspace matches Some(seen) && seen != a.workspace_id;
    let forgiven = !base.is_fresh(now) || moved;
    PeerSlot {
        display_name: a.display_name,
        addr: Some(at),
        last_workspace: Some(a.workspace_id),
        last_seen: Some(now),
        status: base.status,
        outbound: base.outbound,
        attempts: if forgiven {
            0
        } else {
            base.attempts
        },
        next_attempt: if forgiven {
            now
        } else {
            base.next_attempt
        },
    }
}

/// The slot of a machine whose session has come up.
pub open spec fn after_connect(before: Option<PeerSlot>, display_name: String, now: Moment) -> PeerSlot {
    let base = match before {
        Some(slot) => slot,
        None => unknown_peer(display_name, now),
    };
    PeerSlot {
        display_name,
        status: Status::Online,
        outbound: true,
        attempts: 0,
        last_seen: Some(now),
        ..base
    }
}

/// The slot of a machine whose session has ended.
pub open spec fn after_close(before: PeerSlot, now: Moment) -> PeerSlot {
    let attempts = if before.attempts == u32::MAX {
        u32::MAX
    } else {
        (before.attempts + 1) as u32
    };
    PeerSlot {
        status: Status::Offline,
        outbound: false,
        attempts,
        next_attempt: later(now, backoff_after(attempts)),
        ..before
    }
}

/// The slot of a machine that turned out to be in another workspace.
pub open spec fn after_mismatch(before: PeerSlot, now: Moment) -> PeerSlot {
    PeerSlot {
        status: Status::Offline,
        outbound: false,
        attempts: if before.attempts < 5 {
            5
        } else {
            before.attempts
        },
        next_attempt: later(now, BACKOFF_CAP as nat),
        ..before
    }
}

/// Whether a machine is dialled now: it is not connected, we are the side that
/// dials, it was heard from recently, and its backoff has run out.
pub open spec fn is_due(me: MachineId, id: MachineId, slot: PeerSlot, now: Moment) -> bool {
    slot.status == Status::Offline && me < id && slot.is_fresh(now) && now >= slot.next_attempt
        && slot.addr is Some
}

/// Something that happens to every slot at once.
#[derive(Clone, Copy)]
pub enum Sweep {
    /// Somebody asked to look for peers now.
    Rescan { now: Moment },
    /// The timer, on the machine `me`.
    Tick { me: MachineId, now: Moment },
}

/// What a sweep makes of one slot.
pub open spec fn swept(id: MachineId, slot: PeerSlot, sweep: Sweep) -> PeerSlot {
    match sweep {
        Sweep::Rescan { now } => if slot.status == Status::Offline {
            PeerSlot { attempts: 0, next_attempt: now, ..slot }
        } else {
            slot
        },
        Sweep::Tick { me, now } => if is_due(me, id, slot, now) {
            PeerSlot { status: Status::Connecting, ..slot }
        } else if slot.status == Status::Offline && !slot.is_fresh(now) {
            PeerSlot { addr: None, ..slot }
        } else {
            slot
        },
    }
}

/// What a sweep makes of all slots.
pub open spec fn all_swept(peers: Map<MachineId, PeerSlot>, sweep: Sweep) -> Map<
    MachineId,
    PeerSlot,
> {
    Map::new(|id: MachineId| peers.contains_key(id), |id: MachineId| swept(id, peers[id], sweep))
}

/// Those of `order` that are dialled, and where.
pub open spec fn due_among(
    peers: Map<MachineId, PeerSlot>,
    order: Seq<MachineId>,
    me: MachineId,
    now: Moment,
) -> Seq<(MachineId, Endpoint)>
    decreases order.len(),
{
    if order.len() == 0 {
        Seq::empty()
    } else {
        let init = due_among(peers, order.drop_last(), me, now);
        let id = order.last();
        if is_due(me, id, peers[id], now) {
            init.push((id, peers[id].addr->0))
        } else {
            init
        }
    }
}

/// Those of `order` that messages can be queued for.
pub open spec fn linked_among(peers: Map<MachineId, PeerSlot>, order: Seq<MachineId>) -> Seq<
    MachineId,
>
    decreases order.len(),
{
    if order.len() == 0 {
        Seq::empty()
    } else {
        let init = linked_among(peers, order.drop_last());
        if peers[order.last()].outbound {
            init.push(order.last())
        } else {
            init
        }
    }
}

/// The peers once nothing more can be queued for one of them.
pub open spec fn cut_off(peers: Map<MachineId, PeerSlot>, to: MachineId) -> Map<
    MachineId,
    PeerSlot,
> {
    if peers.contains_key(to) {
        peers.insert(to, PeerSlot { outbound: false, ..peers[to] })
    } else {
        peers
    }
}

/// The peers of the machine `me`.
pub struct Peers {
    pub me: MachineId,
    pub slots: BTreeMap<MachineId, PeerSlot>,
}

/// The slot of a machine, if it has one.
pub open spec fn slot_in(peers: Map<MachineId, PeerSlot>, id: MachineId) -> Option<PeerSlot> {
    if peers.contains_key(id) {
        Some(peers[id])
    } else {
        None
    }
}

/// The peers and the event after a session has spoken.
pub open spec fn after_session(
    peers: Map<MachineId, PeerSlot>,
    outcome: SessionOutcome,
    now: Moment,
) -> (Map<MachineId, PeerSlot>, Event) {
    match outcome {
        SessionOutcome::Established { machine_id, display_name } => (
            peers.insert(
                machine_id,
                after_connect(slot_in(peers, machine_id), display_name, now),
            ),
            Event::Online { machine_id },
        ),
        SessionOutcome::Closed { machine_id, reason } => (
            if peers.contains_key(machine_id) {
                peers.insert(machine_id, after_close(peers[machine_id], now))
            } else {
                peers
            },
            Event::Offline { machine_id, reason },
        ),
        SessionOutcome::Rejected { machine_id, identity_key, addr } => (
            peers,
            Event::Rejected { machine_id, identity_key, addr },
        ),
        SessionOutcome::DifferentWorkspaces {
            machine_id,
            display_name,
            identity_key,
            their_workspace,
            their_size,
        } => (
            if peers.contains_key(machine_id) {
                peers.insert(machine_id, after_mismatch(peers[machine_id], now))
            } else {
                peers
            },
            Event::DifferentWorkspaces {
                machine_id,
                display_name,
                identity_key,
                their_workspace,
                their_size,
            },
        ),
        SessionOutcome::WorkspaceChanged => (peers, Event::WorkspaceChanged),
    }
}

/// How the peers of `me` before and after an announcement, and the response to it,
/// relate.
pub open spec fn sights(
    me: MachineId,
    before: Map<MachineId, PeerSlot>,
    sighting: Sighting,
    authorized: bool,
    now: Moment,
    after: Map<MachineId, PeerSlot>,
    r: SightingResponse,
) -> bool {
    let a = sighting.announcement;
    let at = addr::endpoint(sighting.from.ip, a.transport_port);
    if a.machine_id == me {
        &&& r.reply_to is None
        &&& r.event is None
        &&& after == before
    } else {
        &&& r.reply_to == (if a.probe {
            Some(sighting.from.ip)
        } else {
            None
        })
        &&& authorized ==> {
            &&& r.event == Some(Event::Sighted { machine_id: a.machine_id })
            &&& after == before.insert(
                a.machine_id,
                after_sighting(slot_in(before, a.machine_id), a, at, now),
            )
        }
        &&& !authorized ==> {
            &&& r.event == Some(
                Event::Candidate {
                    machine_id: a.machine_id,
                    display_name: a.display_name,
                    identity_key: a.identity_key,
                    workspace_id: a.workspace_id,
                    addr: at,
                    invited_us: a.invitations@.contains(me),
                },
            )
            &&& after == before
        }
    }
}

impl Peers {
    pub fn new(me: MachineId) -> (r: Self)
        ensures
            r.me == me,
            r.slots@ == Map::<MachineId, PeerSlot>::empty(),
    {
        Peers { me, slots: BTreeMap::new() }
    }

    /// A copy of the slot of a machine.
    fn slot(&self, id: MachineId) -> (r: Option<PeerSlot>)
        ensures
            r == slot_in(self.slots@, id),
    {
        match self.slots.get(&id) {
            Some(slot) => Some(slot.clone()),
            None => None,
        }
    }

    /// Takes in an announcement. `authorized` is whether the machine would be let
    /// in with the key that it announces.
    ///
    /// It is the same question the handshake will ask later, asked early so we
    /// know whether this is a peer to connect to or a machine to offer the user.
    /// It has to be that exact question. Checking the workspace document instead
    /// would leave out a machine that has been told to *join* one: it has no
    /// document yet, so it would never record the peer, never dial, and the pair
    /// would only connect when the other side happened to have the lower machine
    /// ID.
    pub fn on_sighting(&mut self, sighting: Sighting, authorized: bool, now: Moment) -> (r:
        SightingResponse)
        ensures
            final(self).me == old(self).me,
            sights(old(self).me, old(self).slots@, sighting, authorized, now, final(self).slots@, r),
    {
        let from = sighting.from;
        let announcement = sighting.announcement;
        let machine_id: MachineId = announcement.machine_id;
        if machine_id == self.me {
            // Our own multicast, looped back.
            return SightingResponse { reply_to: None, event: None };
        }
        let at = Endpoint::new(from.ip, announcement.transport_port);
        // Somebody typed our address in over there. Answer once, directly, so
        // they appear on this machine too instead of only the other way round.
        let reply_to = if announcement.probe {
            Some(from.ip)
        } else {
            None
        };
        if !authorized {
            // Not one of ours. Offer it for pairing and do nothing else: an
            // unpaired machine must not be able to make us open connections.
            let invited_us = announcement.invites(self.me);
            return SightingResponse {
                reply_to,
                event: Some(
                    Event::Candidate {
                        machine_id,
                        display_name: announcement.display_name,
                        identity_key: announcement.identity_key,
                        workspace_id: announcement.workspace_id,
                        addr: at,
                        invited_us,
                    },
                ),
            };
        }
        let mut slot = match self.slot(machine_id) {
            Some(slot) => slot,
            None => PeerSlot::new(announcement.display_name.clone(), now),
        };
        let was_stale = !slot.fresh(now);
        let changed_workspace = match slot.last_workspace {
            Some(seen) => seen != announcement.workspace_id,
            None => false,
        };
        slot.display_name = announcement.display_name;
        slot.addr = Some(at);
        slot.last_workspace = Some(announcement.workspace_id);
        slot.last_seen = Some(now);
        if was_stale || changed_workspace {
            // A machine that just came back should not wait out a backoff it
            // earned while it was away, and neither should one that just
            // resolved whatever made the last attempt pointless.
            slot.attempts = 0;
            slot.next_attempt = now;
        }
        let _ = self.slots.insert(machine_id, slot);
        SightingResponse { reply_to, event: Some(Event::Sighted { machine_id }) }
    }

    /// Takes in what a session says of itself.
    pub fn on_session(&mut self, outcome: SessionOutcome, now: Moment) -> (r: Event)
        ensures
            final(self).me == old(self).me,
            final(self).slots@ == after_session(old(self).slots@, outcome, now).0,
            r == after_session(old(self).slots@, outcome, now).1,
    {
        match outcome {
            SessionOutcome::Established { machine_id, display_name } => {
                let mut slot = match self.slot(machine_id) {
                    Some(slot) => slot,
                    None => PeerSlot::new(display_name.clone(), now),
                };
                slot.display_name = display_name;
                slot.status = Status::Online;
                slot.outbound = true;
                slot.attempts = 0;
                slot.last_seen = Some(now);
                let _ = self.slots.insert(machine_id, slot);
                Event::Online { machine_id }
            },
            SessionOutcome::Closed { machine_id, reason } => {
                if let Some(mut slot) = self.slot(machine_id) {
                    slot.status = Status::Offline;
                    slot.outbound = false;
                    slot.attempts = slot.attempts.saturating_add(1);
                    slot.next_attempt = now.saturating_add(backoff(slot.attempts));
                    let _ = self.slots.insert(machine_id, slot);
                }
                Event::Offline { machine_id, reason }
            },
            SessionOutcome::Rejected { machine_id, identity_key, addr } => Event::Rejected {
                machine_id,
                identity_key,
                addr,
            },
            SessionOutcome::DifferentWorkspaces {
                machine_id,
                display_name,
                identity_key,
                their_workspace,
                their_size,
            } => {
                if let Some(mut slot) = self.slot(machine_id) {
                    slot.status = Status::Offline;
                    slot.outbound = false;
                    // Nothing to gain from trying again soon: this needs a
                    // person to decide which workspace survives.
                    if slot.attempts < 5 {
                        slot.attempts = 5;
                    }
                    slot.next_attempt = now.saturating_add(BACKOFF_CAP);
                    let _ = self.slots.insert(machine_id, slot);
                }
                Event::DifferentWorkspaces {
                    machine_id,
                    display_name,
                    identity_key,
                    their_workspace,
                    their_size,
                }
            },
            SessionOutcome::WorkspaceChanged => Event::WorkspaceChanged,
        }
    }

    /// The machines that a change or a cursor announcement is queued for: all
    /// that can be sent to.
    pub fn on_broadcast(&self) -> (r: Vec<MachineId>)
        ensures
            r@ == linked_among(self.slots@, ids::ascending(self.slots@.dom())),
    {
        let order = ids::keys_in_order(&self.slots);
        let mut out: Vec<MachineId> = Vec::new();
        let mut i: usize = 0;
        assert(order@.take(0) =~= Seq::empty());
        while i < order.len()
            invariant
                i <= order@.len(),
                order@.to_set() == self.slots@.dom(),
                out@ == linked_among(self.slots@, order@.take(i as int)),
            decreases order@.len() - i,
        {
            assert(order@.take(i + 1).drop_last() =~= order@.take(i as int));
            assert(order@.to_set().contains(order@[i as int]));
            if self.can_send(order[i]) {
                out.push(order[i]);
            }
            i = i + 1;
        }
        assert(order@.take(i as int) =~= order@);
        out
    }

    /// Whether input captured here can be sent to a machine.
    ///
    /// It is dropped if not. Input is only meaningful the instant it happens:
    /// queueing keystrokes for a peer that might come back would replay them
    /// minutes later into whatever window happens to be focused then.
    pub fn can_send(&self, to: MachineId) -> (r: bool)
        ensures
            r == (self.slots@.contains_key(to) && self.slots@[to].outbound),
    {
        match self.slots.get(&to) {
            Some(slot) => slot.outbound,
            None => false,
        }
    }

    /// A peer's queue is full or gone: drop the connection.
    ///
    /// Never wait on a peer. Reconnecting re-exchanges whole documents, whereas
    /// quietly discarding an update would leave the two machines disagreeing with
    /// nothing to notice it; and a queue of stale keystrokes arriving late is
    /// worse than losing them.
    pub fn on_send_failed(&mut self, to: MachineId)
        ensures
            final(self).me == old(self).me,
            final(self).slots@ == cut_off(old(self).slots@, to),
    {
        if let Some(mut slot) = self.slot(to) {
            slot.outbound = false;
            let _ = self.slots.insert(to, slot);
        }
    }

    /// Applies a sweep to one slot.
    fn sweep_slot(id: MachineId, slot: &PeerSlot, sweep: Sweep) -> (r: PeerSlot)
        ensures
            r == swept(id, *slot, sweep),
    {
        let mut out = slot.clone();
        match sweep {
            Sweep::Rescan { now } => {
                if out.status == Status::Offline {
                    out.attempts = 0;
                    out.next_attempt = now;
                }
            },
            Sweep::Tick { me, now } => {
                if Self::due(me, id, slot, now) {
                    out.status = Status::Connecting;
                } else if out.status == Status::Offline && !slot.fresh(now) {
                    // Forget addresses for machines that stopped announcing, so a
                    // stale address is never dialled after a DHCP change.
                    out.addr = None;
                }
            },
        }
        out
    }

    fn due(me: MachineId, id: MachineId, slot: &PeerSlot, now: Moment) -> (r: bool)
        ensures
            r == is_due(me, id, *slot, now),
    {
        slot.status == Status::Offline && me < id && slot.fresh(now) && now >= slot.next_attempt
            && slot.addr.is_some()
    }

    /// Applies a sweep to every slot.
    fn sweep_all(&mut self, order: &Vec<MachineId>, sweep: Sweep)
        requires
            order@.to_set() == old(self).slots@.dom(),
            ids::is_ascending(order@),
        ensures
            final(self).me == old(self).me,
            final(self).slots@ == all_swept(old(self).slots@, sweep),
    {
        let ghost before = self.slots@;
        let mut i: usize = 0;
        while i < order.len()
            invariant
                i <= order@.len(),
                ids::is_ascending(order@),
                order@.to_set() == before.dom(),
                self.me == old(self).me,
                self.slots@.dom() == before.dom(),
                forall|k: int|
                    0 <= k < i ==> self.slots@[#[trigger] order@[k]] == swept(
                        order@[k],
                        before[order@[k]],
                        sweep,
                    ),
                forall|k: int|
                    i <= k < order@.len() ==> self.slots@[#[trigger] order@[k]]
                        == before[order@[k]],
            decreases order@.len() - i,
        {
            let id: MachineId = order[i];
            assert(order@.to_set().contains(id));
            let next = match self.slots.get(&id) {
                Some(slot) => Some(Self::sweep_slot(id, slot, sweep)),
                None => None,
            };
            match next {
                Some(slot) => {
                    let _ = self.slots.insert(id, slot);
                    assert(self.slots@.dom() =~= before.dom());
                },
                None => {
                    assert(false);
                },
            }
            i = i + 1;
        }
        assert(self.slots@ =~= all_swept(before, sweep)) by {
            assert forall|id: MachineId| #[trigger] before.contains_key(id) implies self.slots@[id]
                == swept(id, before[id], sweep) by {
                assert(order@.to_set().contains(id));
                let k = choose|k: int| 0 <= k < order@.len() && order@[k] == id;
                assert(self.slots@[order@[k]] == swept(order@[k], before[order@[k]], sweep));
            }
        }
    }

    /// Wipes the backoff on every peer that is not connected, so the next tick
    /// retries all of them at once.
    pub fn on_rescan(&mut self, now: Moment)
        ensures
            final(self).me == old(self).me,
            final(self).slots@ == all_swept(old(self).slots@, Sweep::Rescan { now }),
    {
        let order = ids::keys_in_order(&self.slots);
        self.sweep_all(&order, Sweep::Rescan { now });
    }

    /// Dials the peers that are due: returns whom, and where.
    ///
    /// Two rules keep this cheap. A machine is only dialled if it was heard from
    /// recently, so a powered-off machine costs nothing at all: no timeouts, no
    /// retry storm, no log spam. And of any two machines, only the one with the
    /// lower ID dials, so they never race into two connections that then have to
    /// be torn down.
    pub fn on_tick(&mut self, now: Moment) -> (r: Vec<(MachineId, Endpoint)>)
        ensures
            final(self).me == old(self).me,
            final(self).slots@ == all_swept(
                old(self).slots@,
                Sweep::Tick { me: old(self).me, now },
            ),
            r@ == due_among(
                old(self).slots@,
                ids::ascending(old(self).slots@.dom()),
                old(self).me,
                now,
            ),
    {
        let me: MachineId = self.me;
        let order = ids::keys_in_order(&self.slots);
        let mut due: Vec<(MachineId, Endpoint)> = Vec::new();
        let mut i: usize = 0;
        assert(order@.take(0) =~= Seq::empty());
        while i < order.len()
            invariant
                i <= order@.len(),
                order@.to_set() == self.slots@.dom(),
                due@ == due_among(self.slots@, order@.take(i as int), me, now),
            decreases order@.len() - i,
        {
            let id: MachineId = order[i];
            assert(order@.take(i + 1).drop_last() =~= order@.take(i as int));
            assert(order@.to_set().contains(id));
            if let Some(slot) = self.slots.get(&id) {
                if Self::due(me, id, slot, now) {
                    if let Some(at) = slot.addr {
                        due.push((id, at));
                    }
                }
            }
            i = i + 1;
        }
        assert(order@.take(i as int) =~= order@);
        self.sweep_all(&order, Sweep::Tick { me, now });
        due
    }
}

proof fn due_among_is_sound(
    peers: Map<MachineId, PeerSlot>,
    order: Seq<MachineId>,
    me: MachineId,
    now: Moment,
)
    ensures
        forall|k: int|
            0 <= k < due_among(peers, order, me, now).len() ==> {
                let dial = #[trigger] due_among(peers, order, me, now)[k];
                order.contains(dial.0) && is_due(me, dial.0, peers[dial.0], now)
                    && peers[dial.0].addr == Some(dial.1)
            },
    decreases order.len(),
{
    if order.len() > 0 {
        let init = order.drop_last();
        due_among_is_sound(peers, init, me, now);
        let before = due_among(peers, init, me, now);
        let after = due_among(peers, order, me, now);
        assert forall|k: int| 0 <= k < after.len() implies {
            let dial = #[trigger] after[k];
            order.contains(dial.0) && is_due(me, dial.0, peers[dial.0], now)
                && peers[dial.0].addr == Some(dial.1)
        } by {
            if k < before.len() {
                assert(before[k] == after[k]);
                let j = choose|j: int| 0 <= j < init.len() && init[j] == before[k].0;
                assert(order[j] == before[k].0);
            } else {
                assert(order[order.len() - 1] == after[k].0);
            }
        }
    }
}

/// A dial goes only to a machine with a higher identifier, heard from within the
/// last `HINT_TTL`, at the address it was last heard from, and not before its
/// backoff has run out. A machine that is switched off is never dialled.
pub proof fn only_live_higher_machines_are_dialled(
    peers: Map<MachineId, PeerSlot>,
    me: MachineId,
    now: Moment,
    k: int,
)
    requires
        0 <= k < due_among(peers, ids::ascending(peers.dom()), me, now).len(),
    ensures
        ({
            let dial = due_among(peers, ids::ascending(peers.dom()), me, now)[k];
            &&& me < dial.0
            &&& peers[dial.0].status == Status::Offline
            &&& peers[dial.0].is_fresh(now)
            &&& now >= peers[dial.0].next_attempt
            &&& peers[dial.0].addr == Some(dial.1)
        }),
{
    due_among_is_sound(peers, ids::ascending(peers.dom()), me, now);
}

/// Of two machines at most one dials the other.
pub proof fn only_one_side_dials(
    a: MachineId,
    b: MachineId,
    a_slot: PeerSlot,
    b_slot: PeerSlot,
    now: Moment,
    then: Moment,
)
    ensures
        !(is_due(a, b, b_slot, now) && is_due(b, a, a_slot, then)),
{
}

/// A machine that was dialled is not dialled again until its session has spoken,
/// whatever ticks and rescans come first.
pub proof fn dialled_machine_is_not_dialled_twice(
    me: MachineId,
    id: MachineId,
    slot: PeerSlot,
    now: Moment,
    sweep: Sweep,
    then: Moment,
)
    requires
        is_due(me, id, slot, now),
    ensures
        ({
            let dialled = swept(id, slot, Sweep::Tick { me, now });
            &&& dialled.status == Status::Connecting
            &&& swept(id, dialled, sweep) == dialled
            &&& !is_due(me, id, dialled, then)
        }),
{
}

/// No offline machine keeps an address past its time.
pub proof fn stale_addresses_are_forgotten(
    peers: Map<MachineId, PeerSlot>,
    me: MachineId,
    now: Moment,
    id: MachineId,
)
    requires
        peers.contains_key(id),
    ensures
        ({
            let slot = all_swept(peers, Sweep::Tick { me, now })[id];
            slot.status == Status::Offline && !slot.is_fresh(now) ==> slot.addr is None
        }),
{
}

/// The wait between attempts never shrinks with their number and never passes the
/// cap.
pub proof fn backoff_grows_to_its_cap(a: u32, b: u32)
    requires
        a <= b,
    ensures
        SECOND <= backoff_after(a) <= backoff_after(b) <= BACKOFF_CAP,
        b >= 5 ==> backoff_after(b) == BACKOFF_CAP,
{
}

/// A machine that comes back after a silence is due at once, if we are the side
/// that dials, however many attempts had failed.
pub proof fn returning_machine_is_due_at_once(
    before: Option<PeerSlot>,
    a: Announcement,
    at: Endpoint,
    now: Moment,
    me: MachineId,
)
    requires
        me < a.machine_id,
        before matches Some(slot) ==> slot.status == Status::Offline && (!slot.is_fresh(now) || (
        slot.last_workspace matches Some(seen) && seen != a.workspace_id)),
    ensures
        is_due(me, a.machine_id, after_sighting(before, a, at, now), now),
        after_sighting(before, a, at, now).attempts == 0,
{
}

/// After a rescan every offline machine that we dial and that was heard from is
/// due at once.
pub proof fn rescan_makes_everyone_due(me: MachineId, id: MachineId, slot: PeerSlot, now: Moment)
    requires
        slot.status == Status::Offline,
        me < id,
        slot.is_fresh(now),
        slot.addr is Some,
    ensures
        is_due(me, id, swept(id, slot, Sweep::Rescan { now }), now),
{
}

/// Hearing from a machine never makes it due later. Its next attempt is no later than
/// it was, or than now, and it loses nothing else that dialling it needs: if it would
/// have been due at some moment without being heard from, it is due then.
pub proof fn hearing_from_a_machine_never_delays_it(
    before: PeerSlot,
    a: Announcement,
    at: Endpoint,
    now: Moment,
    me: MachineId,
    then: Moment,
)
    requires
        now <= then,
        before.last_seen matches Some(seen) ==> seen <= now,
    ensures
        ({
            let after = after_sighting(Some(before), a, at, now);
            &&& after.next_attempt <= before.next_attempt || after.next_attempt <= now
            &&& after.attempts <= before.attempts
            &&& after.status == before.status
            &&& after.outbound == before.outbound
            &&& after.is_fresh(now)
            &&& is_due(me, a.machine_id, before, then) ==> is_due(me, a.machine_id, after, then)
            &&& then - now < HINT_TTL && then >= before.next_attempt && before.status
                == Status::Offline && me < a.machine_id ==> is_due(me, a.machine_id, after, then)
        }),
{
}

/// The slot of a machine after it was heard from some times, as it announced itself,
/// where and when.
pub open spec fn after_sightings(
    before: PeerSlot,
    heard: Seq<(Announcement, Endpoint, Moment)>,
) -> PeerSlot
    decreases heard.len(),
{
    if heard.len() == 0 {
        before
    } else {
        let (a, at, now) = heard.last();
        after_sighting(Some(after_sightings(before, heard.drop_last())), a, at, now)
    }
}

/// A machine that keeps announcing itself is dialled again once the wait counted from
/// the end of its session is over, however often it announces itself meanwhile.
pub proof fn an_announcing_machine_is_dialled_again(
    before: PeerSlot,
    closed: Moment,
    heard: Seq<(Announcement, Endpoint, Moment)>,
    me: MachineId,
    id: MachineId,
    then: Moment,
)
    requires
        me < id,
        heard.len() > 0,
        forall|k: int| 0 <= k < heard.len() ==> (#[trigger] heard[k]).2 <= then,
        then - heard.last().2 < HINT_TTL,
        closed + BACKOFF_CAP <= u64::MAX,
        before.attempts < u32::MAX,
        then >= closed + backoff_after((before.attempts + 1) as u32),
    ensures
        is_due(me, id, after_sightings(after_close(before, closed), heard), then),
        after_sightings(after_close(before, closed), heard).addr == Some(heard.last().1),
{
    let slot = after_close(before, closed);
    sightings_never_delay(slot, heard, then);
    assert(heard[heard.len() - 1] == heard.last());
}

proof fn sightings_never_delay(
    before: PeerSlot,
    heard: Seq<(Announcement, Endpoint, Moment)>,
    then: Moment,
)
    requires
        forall|k: int| 0 <= k < heard.len() ==> (#[trigger] heard[k]).2 <= then,
        before.next_attempt <= then,
    ensures
        after_sightings(before, heard).next_attempt <= then,
        after_sightings(before, heard).status == before.status,
    decreases heard.len(),
{
    if heard.len() > 0 {
        let init = heard.drop_last();
        assert forall|k: int| 0 <= k < init.len() implies (#[trigger] init[k]).2 <= then by {
            assert(init[k] == heard[k]);
        }
        assert(heard[heard.len() - 1] == heard.last());
        sightings_never_delay(before, init, then);
    }
}

/// Each failure in a row doubles the wait, from one second before the first to the cap
/// of thirty.
pub proof fn each_failure_doubles_the_wait(attempts: u32)
    requires
        attempts < u32::MAX,
    ensures
        backoff_after(0) == 1_000_000_000,
        2 * backoff_after(attempts) <= 30_000_000_000 ==> backoff_after((attempts + 1) as u32)
            == 2 * backoff_after(attempts),
        2 * backoff_after(attempts) > 30_000_000_000 ==> backoff_after((attempts + 1) as u32)
            == 30_000_000_000,
{
}

/// A session that ends is tried again after the wait for one more failure and not
/// before, and one that comes up makes the next failure the first one again.
pub proof fn a_session_that_ends_waits_its_turn(
    before: PeerSlot,
    display_name: String,
    up: Moment,
    down: Moment,
    me: MachineId,
    id: MachineId,
    then: Moment,
)
    requires
        before.attempts < u32::MAX,
        down + 30_000_000_000 <= u64::MAX,
    ensures
        ({
            let closed = after_close(before, down);
            &&& closed.status == Status::Offline
            &&& !closed.outbound
            &&& closed.attempts == before.attempts + 1
            &&& is_due(me, id, closed, then) ==> then - down >= backoff_after(closed.attempts)
            &&& closed.next_attempt - down == backoff_after(closed.attempts)
            &&& closed.addr == before.addr
            &&& closed.last_seen == before.last_seen
        }),
        ({
            let online = after_connect(Some(before), display_name, up);
            let closed = after_close(online, down);
            &&& online.status == Status::Online
            &&& online.outbound
            &&& online.is_fresh(up)
            &&& online.addr == before.addr
            &&& !is_due(me, id, online, then)
            &&& closed.next_attempt - down == 2_000_000_000
        }),
{
}

/// A machine in another workspace is left alone for half a minute, unless it announces
/// that it has changed workspace.
pub proof fn a_machine_in_another_workspace_is_left_alone(
    before: PeerSlot,
    now: Moment,
    me: MachineId,
    id: MachineId,
    then: Moment,
)
    requires
        now + 30_000_000_000 <= u64::MAX,
        then - now < 30_000_000_000,
    ensures
        !is_due(me, id, after_mismatch(before, now), then),
        after_mismatch(before, now).status == Status::Offline,
        after_mismatch(before, now).next_attempt == now + 30_000_000_000,
        !after_mismatch(before, now).outbound,
        after_mismatch(before, now).attempts >= before.attempts,
{
}

/// An announcement of a machine that is let in makes it a peer that is dialled at the
/// address it was heard from and the port it announced. One of any other machine
/// changes nothing here: it is offered to the user under the same address.
pub proof fn a_machine_is_reached_where_it_announced_itself(
    me: MachineId,
    before: Map<MachineId, PeerSlot>,
    sighting: Sighting,
    authorized: bool,
    now: Moment,
    after: Map<MachineId, PeerSlot>,
    r: SightingResponse,
    other: MachineId,
)
    requires
        sights(me, before, sighting, authorized, now, after, r),
        sighting.announcement.machine_id != me,
        other != sighting.announcement.machine_id,
    ensures
        ({
            let a = sighting.announcement;
            &&& authorized ==> {
                &&& after.contains_key(a.machine_id)
                &&& after[a.machine_id].addr is Some
                &&& (after[a.machine_id].addr->0).ip == sighting.from.ip
                &&& (after[a.machine_id].addr->0).port == a.transport_port
                &&& after[a.machine_id].last_seen == Some(now)
                &&& after[a.machine_id].last_workspace == Some(a.workspace_id)
                &&& after[a.machine_id].display_name == a.display_name
                &&& r.event matches Some(Event::Sighted { machine_id }) && machine_id
                    == a.machine_id
            }
            &&& !authorized ==> {
                &&& after == before
                &&& r.event matches Some(
                    Event::Candidate {
                        machine_id,
                        display_name,
                        identity_key,
                        workspace_id,
                        addr,
                        invited_us,
                    },
                ) && machine_id == a.machine_id && addr.ip == sighting.from.ip && addr.port
                    == a.transport_port && (invited_us <==> a.invitations@.contains(me))
            }
            &&& after.contains_key(other) == before.contains_key(other)
            &&& before.contains_key(other) ==> after[other] == before[other]
            &&& r.reply_to is Some <==> a.probe
            &&& r.reply_to matches Some(ip) ==> ip == sighting.from.ip
        }),
{
}

/// A dial is made for every machine that is due, where it is to be found.
pub proof fn every_due_machine_is_dialled(
    peers: Map<MachineId, PeerSlot>,
    me: MachineId,
    now: Moment,
    order: Seq<MachineId>,
    id: MachineId,
)
    requires
        order.contains(id),
        is_due(me, id, peers[id], now),
    ensures
        due_among(peers, order, me, now).contains((id, peers[id].addr->0)),
    decreases order.len(),
{
    let init = order.drop_last();
    let before = due_among(peers, init, me, now);
    let after = due_among(peers, order, me, now);
    let k = choose|k: int| 0 <= k < order.len() && order[k] == id;
    if k < init.len() {
        assert(init[k] == id);
        every_due_machine_is_dialled(peers, me, now, init, id);
        let j = choose|j: int| 0 <= j < before.len() && before[j] == (id, peers[id].addr->0);
        assert(after[j] == before[j]);
    } else {
        assert(after[before.len() as int] == (id, peers[id].addr->0));
    }
}

/// A change is queued for exactly the peers that can be sent to.
pub proof fn every_linked_machine_is_sent_to(
    peers: Map<MachineId, PeerSlot>,
    order: Seq<MachineId>,
    id: MachineId,
)
    ensures
        linked_among(peers, order).contains(id) <==> order.contains(id) && peers[id].outbound,
    decreases order.len(),
{
    if order.len() > 0 {
        let init = order.drop_last();
        let before = linked_among(peers, init);
        let after = linked_among(peers, order);
        every_linked_machine_is_sent_to(peers, init, id);
        if before.contains(id) {
            let j = choose|j: int| 0 <= j < before.len() && before[j] == id;
            assert(after[j] == id);
        }
        if after.contains(id) {
            let j = choose|j: int| 0 <= j < after.len() && after[j] == id;
            if j < before.len() {
                assert(before[j] == id);
            }
        }
        if order.contains(id) {
            let k = choose|k: int| 0 <= k < order.len() && order[k] == id;
            if k < init.len() {
                assert(init[k] == id);
            } else if peers[id].outbound {
                assert(after[before.len() as int] == id);
            }
        }
        if init.contains(id) {
            let k = choose|k: int| 0 <= k < init.len() && init[k] == id;
            assert(order[k] == id);
        }
        assert(order[order.len() - 1] == order.last());
    }
}

/// What a session says of itself touches the machine it was with and no other, and is
/// told on under that machine.
pub proof fn a_session_speaks_of_its_own_machine(
    peers: Map<MachineId, PeerSlot>,
    outcome: SessionOutcome,
    now: Moment,
    other: MachineId,
)
    ensures
        ({
            let (after, event) = after_session(peers, outcome, now);
            match outcome {
                SessionOutcome::Established { machine_id, display_name } => {
                    &&& event == (Event::Online { machine_id })
                    &&& after.contains_key(machine_id)
                    &&& after[machine_id].status == Status::Online
                    &&& after[machine_id].outbound
                    &&& after[machine_id].attempts == 0
                    &&& other != machine_id ==> slot_in(after, other) == slot_in(peers, other)
                },
                SessionOutcome::Closed { machine_id, reason } => {
                    &&& event == (Event::Offline { machine_id, reason })
                    &&& after.contains_key(machine_id) ==> after[machine_id].status
                        == Status::Offline && !after[machine_id].outbound
                    &&& after.dom() == peers.dom()
                    &&& other != machine_id ==> slot_in(after, other) == slot_in(peers, other)
                },
                SessionOutcome::Rejected { machine_id, identity_key, addr } => {
                    &&& event == (Event::Rejected { machine_id, identity_key, addr })
                    &&& after == peers
                },
                SessionOutcome::DifferentWorkspaces {
                    machine_id,
                    display_name,
                    identity_key,
                    their_workspace,
                    their_size,
                } => {
                    &&& event == (Event::DifferentWorkspaces {
                        machine_id,
                        display_name,
                        identity_key,
                        their_workspace,
                        their_size,
                    })
                    &&& after.dom() == peers.dom()
                    &&& other != machine_id ==> slot_in(after, other) == slot_in(peers, other)
                },
                SessionOutcome::WorkspaceChanged => event == Event::WorkspaceChanged && after
                    == peers,
            }
        }),
{
    let (after, event) = after_session(peers, outcome, now);
    match outcome {
        SessionOutcome::Closed { machine_id, reason } => {
            assert(after.dom() =~= peers.dom());
        },
        SessionOutcome::DifferentWorkspaces {
            machine_id,
            display_name,
            identity_key,
            their_workspace,
            their_size,
        } => {
            assert(after.dom() =~= peers.dom());
        },
        _ => {},
    }
}

/// The timer dials and forgets, and does nothing else: a machine that is due is being
/// connected to afterwards; one that has fallen silent loses its address; any other is
/// left as it was, and none loses its backoff, its name or its address while it is heard
/// from.
pub proof fn the_timer_only_dials_and_forgets(
    me: MachineId,
    id: MachineId,
    slot: PeerSlot,
    now: Moment,
)
    ensures
        ({
            let after = swept(id, slot, Sweep::Tick { me, now });
            &&& after.attempts == slot.attempts
            &&& after.next_attempt == slot.next_attempt
            &&& after.last_seen == slot.last_seen
            &&& after.display_name == slot.display_name
            &&& after.last_workspace == slot.last_workspace
            &&& after.outbound == slot.outbound
            &&& slot.is_fresh(now) || slot.status != Status::Offline ==> after.addr == slot.addr
            &&& !slot.is_fresh(now) && slot.status == Status::Offline ==> after.addr is None
            &&& after.status != slot.status <==> slot.status == Status::Offline && me < id && (
            slot.last_seen matches Some(seen) && now - seen < HINT_TTL) && now >= slot.next_attempt
                && slot.addr is Some
            &&& after.status != slot.status ==> after.status == Status::Connecting
        }),
{
}

/// A rescan forgives every machine that is not connected: the wait after its next
/// failure is that after a first one. It touches no connection and forgets nothing.
pub proof fn a_rescan_forgives(id: MachineId, slot: PeerSlot, now: Moment, then: Moment)
    requires
        then + 2_000_000_000 <= u64::MAX,
    ensures
        ({
            let after = swept(id, slot, Sweep::Rescan { now });
            &&& slot.status == Status::Offline ==> after_close(after, then).next_attempt == then
                + 2_000_000_000
            &&& slot.status != Status::Offline ==> after == slot
            &&& after.addr == slot.addr
            &&& after.last_seen == slot.last_seen
            &&& after.status == slot.status
            &&& after.outbound == slot.outbound
        }),
{
}

/// Nothing more is sent to a machine whose queue failed until it connects again; the
/// others go on being sent to.
pub proof fn a_failed_queue_is_cut_off(
    peers: Map<MachineId, PeerSlot>,
    order: Seq<MachineId>,
    to: MachineId,
    other: MachineId,
    display_name: String,
    now: Moment,
)
    ensures
        peers.contains_key(to) ==> !linked_among(cut_off(peers, to), order).contains(to),
        other != to ==> slot_in(cut_off(peers, to), other) == slot_in(peers, other),
        other != to && peers.contains_key(other) ==> (linked_among(
            cut_off(peers, to),
            order,
        ).contains(other) <==> linked_among(peers, order).contains(other)),
        slot_in(cut_off(peers, to), to) matches Some(slot) ==> slot.status == peers[to].status
            && slot.addr == peers[to].addr,
        after_connect(slot_in(cut_off(peers, to), to), display_name, now).outbound,
{
    every_linked_machine_is_sent_to(cut_off(peers, to), order, to);
    every_linked_machine_is_sent_to(cut_off(peers, to), order, other);
    every_linked_machine_is_sent_to(peers, order, other);
}

/// What is known of where a machine is counts for twenty seconds from when it was last
/// heard from, and not at all if it never was.
pub proof fn hints_last_twenty_seconds(slot: PeerSlot, seen: Moment, now: Moment)
    ensures
        slot.last_seen == Some(seen) ==> (slot.is_fresh(now) <==> now < seen + 20_000_000_000),
        slot.last_seen is None ==> !slot.is_fresh(now),
{
}

} // verus!
