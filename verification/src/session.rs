//! One connection to one peer, from handshake to teardown.
//!
//! The order here is the security-relevant part:
//!
//! 1. Handshake: proves the peer holds the private key for the identity key it
//!    presents. Encrypts everything after it.
//! 2. **Authorisation**: checks that key against the record we stored when the
//!    machines were paired. A peer that proves an identity we never paired with
//!    is refused here, before it can send us a single workspace message.
//! 3. Only then: identify, exchange documents, stream updates.
//!
//! The second step is the one that is easy to leave out and expensive to leave
//! out. The handshake alone proves *who* someone is, not that they belong here;
//! without the check, any machine on the network could hand us a document and
//! rewrite the workspace.
//!
//! A [`Link`] is told what happens on the connection and answers what to do.

use vstd::prelude::*;

use crate::addr::Endpoint;
use crate::crypto;
use crate::crypto::{Hello, Initiation, Session};
use crate::document;
use crate::identity::{Identity, PubKey};
use crate::ids::{MachineId, WorkspaceId};
use crate::input::InputEvent;
use crate::model::{WorkspaceDoc, WorkspaceUpdate};
use crate::net_error::NetError;
use crate::peers::SessionOutcome;
use crate::text::joined;
use crate::wire::Message;

verus! {

/// How often we prove we are still here, and how long we wait before deciding a
/// peer is not, in nanoseconds. Silence is the only reliable signal: a machine
/// that was suspended or unplugged never gets to send a goodbye.
pub const HEARTBEAT: u64 = 5_000_000_000;

pub const SILENCE_LIMIT: u64 = 15_000_000_000;

/// How long a peer may take for its `Hello`.
pub const HELLO_LIMIT: u64 = 10_000_000_000;

/// How long a connection may take to open.
pub const DIAL_LIMIT: u64 = 5_000_000_000;

/// How far a connection has come.
pub enum Phase {
    /// Our `Hello` is out; the peer's is awaited.
    Greeting { initiation: Initiation },
    /// The peer has proved its key; whether that key belongs here is being asked.
    Proven { session: Session },
    /// The peer was let in; it has to say who it is and what workspace it is in.
    Identifying { machine_id: MachineId, identity_key: PubKey, ours: Option<WorkspaceId> },
    /// The two fit; our document is on its way.
    Syncing { machine_id: MachineId },
    /// Updates, input and heartbeats.
    Live { machine_id: MachineId },
    Over,
}

/// One connection.
pub struct Link {
    /// Whether we opened it.
    pub dialled: bool,
    /// The machine that we meant to reach.
    pub expect: Option<MachineId>,
    pub addr: Endpoint,
    pub phase: Phase,
}

/// What a peer learns of our workspace before it gets the document.
#[derive(Clone, Copy, Debug, PartialEq, Eq, Structural)]
pub struct Summary {
    pub workspace_id: WorkspaceId,
    pub machines: u32,
}

/// What happens on a connection.
pub enum LinkEvent {
    Hello(Hello),
    /// The answer to [`LinkAction::Authorize`], with what we say of ourselves.
    Verdict { authorized: bool, display_name: String, ours: Option<Summary> },
    Message(Message),
    /// The answer to [`LinkAction::TakeSnapshot`].
    Snapshot(Option<WorkspaceDoc>),
    /// Our document is out.
    DocumentSent,
    /// The answer to [`LinkAction::Merge`]: whether anything changed, or why the
    /// document was refused.
    Merged(core::result::Result<bool, String>),
    /// The answer to [`LinkAction::Apply`].
    Applied(core::result::Result<bool, String>),
    /// Nothing arrived in time.
    Quiet,
    /// Reading, writing or understanding failed.
    Failed(String),
}

/// What to do on a connection.
pub enum LinkAction {
    /// Ask whether this machine may come in with this key.
    Authorize { machine_id: MachineId, identity_key: PubKey },
    /// Everything from here on goes through this session.
    Encrypt(Session),
    Send(Message),
    Report(SessionOutcome),
    /// Take our document as it is now.
    TakeSnapshot,
    Merge(Box<WorkspaceDoc>),
    Apply(Box<WorkspaceUpdate>),
    /// Replay a peer's input here.
    Replay { from: MachineId, events: Vec<InputEvent> },
    CursorOwner { from: MachineId, machine: MachineId },
    Close,
}

/// Whether `actions` end the connection and report that the session with `who`, if
/// anybody, closed for `reason`.
pub open spec fn ends(actions: Seq<LinkAction>, who: Option<MachineId>, reason: Seq<char>) -> bool {
    match who {
        Some(id) => {
            &&& actions.len() == 2
            &&& actions[0] matches LinkAction::Report(SessionOutcome::Closed {
                machine_id,
                reason: why,
            })
            &&& machine_id == id
            &&& why@ == reason
            &&& actions[1] == LinkAction::Close
        },
        None => actions =~= seq![LinkAction::Close],
    }
}

/// What a live peer's message calls for. `None` where the peer says goodbye.
pub open spec fn handled(from: MachineId, message: Message) -> Option<Seq<LinkAction>> {
    match message {
        Message::DocFull { doc } => Some(seq![LinkAction::Merge(doc)]),
        Message::Update { update } => Some(seq![LinkAction::Apply(update)]),
        Message::Input { events } => Some(seq![LinkAction::Replay { from, events }]),
        Message::CursorOwner { machine } => Some(seq![LinkAction::CursorOwner { from, machine }]),
        Message::Ping { nonce: _ } => Some(Seq::empty()),
        Message::Pong { nonce: _ } => Some(Seq::empty()),
        Message::Identify { display_name: _, workspace_id: _, machines: _ } => Some(Seq::empty()),
        Message::Goodbye { reason: _ } => None,
    }
}

/// Whether a connection that was at `before` is at `after` and does `actions` once
/// `event` happened.
pub open spec fn stepped(before: Link, event: LinkEvent, after: Link, actions: Seq<LinkAction>) -> bool {
    &&& after.dialled == before.dialled
    &&& after.expect == before.expect
    &&& after.addr == before.addr
    &&& match (before.phase, event) {
        (Phase::Greeting { initiation }, LinkEvent::Hello(hello)) => if !hello.is_genuine() {
            after.phase is Over && ends(
                actions,
                before.expect,
                "handshake refused: "@ + "peer could not prove its identity key"@,
            )
        } else if hello.machine_id == initiation.hello.machine_id {
            after.phase is Over && ends(
                actions,
                before.expect,
                "handshake refused: "@ + "peer reports our own machine id"@,
            )
        } else if before.expect matches Some(expected) && expected != hello.machine_id {
            after.phase is Over && ends(
                actions,
                before.expect,
                "handshake refused: "@ + "connected to a different machine"@,
            )
        } else {
            &&& after.phase matches Phase::Proven { session }
            &&& initiation.gives(hello, before.dialled, session)
            &&& actions =~= seq![
                LinkAction::Authorize {
                    machine_id: session.peer_machine,
                    identity_key: session.peer_key,
                },
            ]
        },
        (Phase::Proven { session }, LinkEvent::Verdict { authorized, display_name, ours }) => {
            if authorized {
                &&& after.phase == (Phase::Identifying {
                    machine_id: session.peer_machine,
                    identity_key: session.peer_key,
                    ours: match ours {
                        Some(summary) => Some(summary.workspace_id),
                        None => None,
                    },
                })
                &&& actions =~= seq![
                    LinkAction::Encrypt(session),
                    LinkAction::Send(
                        Message::Identify {
                            display_name,
                            workspace_id: match ours {
                                Some(summary) => Some(summary.workspace_id),
                                None => None,
                            },
                            machines: match ours {
                                Some(summary) => summary.machines,
                                None => 0,
                            },
                        },
                    ),
                ]
            } else {
                &&& after.phase is Over
                &&& actions =~= seq![
                    LinkAction::Report(
                        SessionOutcome::Rejected {
                            machine_id: session.peer_machine,
                            identity_key: session.peer_key,
                            addr: before.addr,
                        },
                    ),
                    LinkAction::Close,
                ]
            }
        },
        (
            Phase::Identifying { machine_id, identity_key, ours },
            LinkEvent::Message(Message::Identify { display_name, workspace_id, machines }),
        ) => if ours is Some && workspace_id is Some && ours != workspace_id {
            &&& after.phase is Over
            &&& actions.len() == 3
            &&& actions[0] == LinkAction::Report(
                SessionOutcome::DifferentWorkspaces {
                    machine_id,
                    display_name,
                    identity_key,
                    their_workspace: workspace_id->0,
                    their_size: machines,
                },
            )
            &&& actions[1] matches LinkAction::Send(Message::Goodbye { reason })
            &&& reason@ == "our configurations are separate; one of us will adopt the other"@
            &&& actions[2] == LinkAction::Close
        } else {
            &&& after.phase == (Phase::Syncing { machine_id })
            &&& actions =~= seq![
                LinkAction::Report(SessionOutcome::Established { machine_id, display_name }),
                LinkAction::TakeSnapshot,
            ]
        },
        (
            Phase::Identifying { machine_id: _, identity_key: _, ours: _ },
            LinkEvent::Message(_),
        ) => after.phase is Over && ends(
            actions,
            before.expect,
            "handshake refused: "@ + "peer did not identify itself"@,
        ),
        (Phase::Syncing { machine_id }, LinkEvent::Snapshot(snapshot)) => match snapshot {
            Some(doc) => {
                &&& after.phase == before.phase
                &&& actions =~= seq![LinkAction::Send(Message::DocFull { doc: Box::new(doc) })]
            },
            None => {
                &&& after.phase == (Phase::Live { machine_id })
                &&& actions =~= Seq::<LinkAction>::empty()
            },
        },
        (Phase::Syncing { machine_id }, LinkEvent::DocumentSent) => {
            &&& after.phase == (Phase::Live { machine_id })
            &&& actions =~= Seq::<LinkAction>::empty()
        },
        (Phase::Live { machine_id }, LinkEvent::Message(message)) => match handled(
            machine_id,
            message,
        ) {
            Some(called_for) => after.phase == before.phase && actions =~= called_for,
            None => after.phase is Over && ends(
                actions,
                Some(machine_id),
                message->Goodbye_reason@,
            ),
        },
        (Phase::Live { machine_id }, LinkEvent::Merged(result)) => match result {
            Ok(changed) => after.phase == before.phase && actions =~= news(changed),
            Err(why) => after.phase is Over && ends(
                actions,
                Some(machine_id),
                "incompatible workspace: "@ + why@,
            ),
        },
        (Phase::Live { machine_id }, LinkEvent::Applied(result)) => match result {
            Ok(changed) => after.phase == before.phase && actions =~= news(changed),
            Err(why) => after.phase is Over && ends(
                actions,
                Some(machine_id),
                "rejected update: "@ + why@,
            ),
        },
        (Phase::Live { machine_id }, LinkEvent::Quiet) => after.phase is Over && ends(
            actions,
            Some(machine_id),
            "peer went quiet"@,
        ),
        (Phase::Live { machine_id }, LinkEvent::Failed(why)) => after.phase is Over && ends(
            actions,
            Some(machine_id),
            why@,
        ),
        (Phase::Over, _) => after.phase is Over && actions =~= Seq::<LinkAction>::empty(),
        (_, LinkEvent::Quiet) => after.phase is Over && ends(
            actions,
            before.expect,
            "timed out"@,
        ),
        (_, LinkEvent::Failed(why)) => after.phase is Over && ends(actions, before.expect, why@),
        _ => after.phase == before.phase && actions =~= Seq::<LinkAction>::empty(),
    }
}

/// The report that a merge or an update changed something.
pub open spec fn news(changed: bool) -> Seq<LinkAction> {
    if changed {
        seq![LinkAction::Report(SessionOutcome::WorkspaceChanged)]
    } else {
        Seq::empty()
    }
}

/// Starts a connection: our half of the handshake, whose `Hello` is the first
/// thing to send.
pub fn open(identity: &Identity, dialled: bool, expect: Option<MachineId>, addr: Endpoint) -> (r: (
    Link,
    Hello,
))
    ensures
        r.0.dialled == dialled,
        r.0.expect == expect,
        r.0.addr == addr,
        r.0.phase matches Phase::Greeting { initiation } && initiation.is_sound() && initiation.hello
            == r.1,
        r.1.is_genuine(),
        r.1.machine_id == identity.machine_id,
        r.1.identity_key@ == crate::identity::public_key_of(identity.secret()),
{
    let initiation = crypto::begin(identity);
    let hello = initiation.hello;
    (Link { dialled, expect, addr, phase: Phase::Greeting { initiation } }, hello)
}

/// What a peer learns of our workspace before it gets the document.
pub fn summarize(doc: &WorkspaceDoc) -> (r: Summary)
    ensures
        r.workspace_id == doc.workspace_id,
        r.machines == doc@.present().len() as u32,
{
    let present = doc.machines_present();
    assert(document::records_view(present@).len() == present@.len());
    Summary { workspace_id: doc.workspace_id, machines: present.len() as u32 }
}

/// The heartbeat after `beat` others.
pub fn heartbeat(beat: u64) -> (r: (u64, Message))
    requires
        beat < u64::MAX,
    ensures
        r.0 == beat + 1,
        r.1 == (Message::Ping { nonce: r.0 }),
{
    let next: u64 = beat + 1;
    (next, Message::Ping { nonce: next })
}

impl Link {
    /// The connection ended before the peer was live.
    fn fail(
        dialled: bool,
        expect: Option<MachineId>,
        addr: Endpoint,
        reason: String,
    ) -> (r: (Link, Vec<LinkAction>))
        ensures
            r.0 == (Link { dialled, expect, addr, phase: Phase::Over }),
            ends(r.1@, expect, reason@),
    {
        let mut actions: Vec<LinkAction> = Vec::new();
        if let Some(machine_id) = expect {
            actions.push(LinkAction::Report(SessionOutcome::Closed { machine_id, reason }));
        }
        actions.push(LinkAction::Close);
        (Link { dialled, expect, addr, phase: Phase::Over }, actions)
    }

    /// A live connection ended.
    fn end(
        dialled: bool,
        expect: Option<MachineId>,
        addr: Endpoint,
        machine_id: MachineId,
        reason: String,
    ) -> (r: (Link, Vec<LinkAction>))
        ensures
            r.0 == (Link { dialled, expect, addr, phase: Phase::Over }),
            ends(r.1@, Some(machine_id), reason@),
    {
        let mut actions: Vec<LinkAction> = Vec::new();
        actions.push(LinkAction::Report(SessionOutcome::Closed { machine_id, reason }));
        actions.push(LinkAction::Close);
        (Link { dialled, expect, addr, phase: Phase::Over }, actions)
    }

    /// Goes on with the connection after something happened on it.
    pub fn step(self, event: LinkEvent) -> (r: (Link, Vec<LinkAction>))
        ensures
            stepped(self, event, r.0, r.1@),
    {
        let dialled = self.dialled;
        let expect = self.expect;
        let addr = self.addr;
        let mut actions: Vec<LinkAction> = Vec::new();
        match (self.phase, event) {
            (Phase::Greeting { initiation }, LinkEvent::Hello(hello)) => {
                let session = match initiation.complete(&hello, dialled) {
                    Ok(session) => session,
                    Err(NetError::Handshake(why)) => {
                        return Self::fail(
                            dialled,
                            expect,
                            addr,
                            joined("handshake refused: ", why),
                        );
                    },
                    Err(_) => {
                        assert(false);
                        return Self::fail(dialled, expect, addr, String::new());
                    },
                };
                if let Some(expected) = expect {
                    if expected != session.peer_machine {
                        return Self::fail(
                            dialled,
                            expect,
                            addr,
                            joined("handshake refused: ", "connected to a different machine"),
                        );
                    }
                }
                actions.push(
                    LinkAction::Authorize {
                        machine_id: session.peer_machine,
                        identity_key: session.peer_key,
                    },
                );
                (Link { dialled, expect, addr, phase: Phase::Proven { session } }, actions)
            },
            (Phase::Proven { session }, LinkEvent::Verdict { authorized, display_name, ours }) => {
                let machine_id: MachineId = session.peer_machine;
                let identity_key = session.peer_key;
                if !authorized {
                    actions.push(
                        LinkAction::Report(
                            SessionOutcome::Rejected { machine_id, identity_key, addr },
                        ),
                    );
                    actions.push(LinkAction::Close);
                    return (Link { dialled, expect, addr, phase: Phase::Over }, actions);
                }
                let (workspace_id, machines): (Option<WorkspaceId>, u32) = match ours {
                    Some(summary) => (Some(summary.workspace_id), summary.machines),
                    None => (None, 0),
                };
                actions.push(LinkAction::Encrypt(session));
                actions.push(
                    LinkAction::Send(Message::Identify { display_name, workspace_id, machines }),
                );
                (
                    Link {
                        dialled,
                        expect,
                        addr,
                        phase: Phase::Identifying { machine_id, identity_key, ours: workspace_id },
                    },
                    actions,
                )
            },
            (
                Phase::Identifying { machine_id, identity_key, ours },
                LinkEvent::Message(message),
            ) => {
                match message {
                    Message::Identify { display_name, workspace_id, machines } => {
                        // Checked here, before either side sends a document.
                        // Letting it reach the merge produces a rejected document
                        // and a dropped connection every few seconds, with
                        // nothing to say why.
                        if let (Some(mine), Some(theirs)) = (ours, workspace_id) {
                            if mine != theirs {
                                actions.push(
                                    LinkAction::Report(
                                        SessionOutcome::DifferentWorkspaces {
                                            machine_id,
                                            display_name,
                                            identity_key,
                                            their_workspace: theirs,
                                            their_size: machines,
                                        },
                                    ),
                                );
                                actions.push(
                                    LinkAction::Send(
                                        Message::Goodbye {
                                            reason: String::from_str(
                                                "our configurations are separate; one of us will adopt the other",
                                            ),
                                        },
                                    ),
                                );
                                actions.push(LinkAction::Close);
                                return (
                                    Link { dialled, expect, addr, phase: Phase::Over },
                                    actions,
                                );
                            }
                        }
                        actions.push(
                            LinkAction::Report(
                                SessionOutcome::Established { machine_id, display_name },
                            ),
                        );
                        actions.push(LinkAction::TakeSnapshot);
                        (
                            Link { dialled, expect, addr, phase: Phase::Syncing { machine_id } },
                            actions,
                        )
                    },
                    _ => Self::fail(
                        dialled,
                        expect,
                        addr,
                        joined("handshake refused: ", "peer did not identify itself"),
                    ),
                }
            },
            // Both sides send their whole document and merge what arrives. Neither
            // is treated as authoritative, so a machine that has been off for a
            // week cannot overwrite what happened while it was away.
            (Phase::Syncing { machine_id }, LinkEvent::Snapshot(snapshot)) => match snapshot {
                Some(doc) => {
                    actions.push(LinkAction::Send(Message::DocFull { doc: Box::new(doc) }));
                    (
                        Link { dialled, expect, addr, phase: Phase::Syncing { machine_id } },
                        actions,
                    )
                },
                None => (Link { dialled, expect, addr, phase: Phase::Live { machine_id } }, actions),
            },
            (Phase::Syncing { machine_id }, LinkEvent::DocumentSent) => (
                Link { dialled, expect, addr, phase: Phase::Live { machine_id } },
                actions,
            ),
            (Phase::Live { machine_id }, LinkEvent::Message(message)) => {
                match message {
                    Message::DocFull { doc } => {
                        actions.push(LinkAction::Merge(doc));
                    },
                    Message::Update { update } => {
                        actions.push(LinkAction::Apply(update));
                    },
                    Message::Input { events } => {
                        actions.push(LinkAction::Replay { from: machine_id, events });
                    },
                    Message::CursorOwner { machine } => {
                        actions.push(LinkAction::CursorOwner { from: machine_id, machine });
                    },
                    // Ping and Pong carry no information beyond arriving at all,
                    // which is the whole point: they keep the silence timer from
                    // firing.
                    Message::Ping { nonce: _ } | Message::Pong { nonce: _ } => {},
                    Message::Identify { display_name: _, workspace_id: _, machines: _ } => {},
                    Message::Goodbye { reason } => {
                        return Self::end(dialled, expect, addr, machine_id, reason);
                    },
                }
                (Link { dialled, expect, addr, phase: Phase::Live { machine_id } }, actions)
            },
            (Phase::Live { machine_id }, LinkEvent::Merged(result)) => match result {
                Ok(changed) => {
                    if changed {
                        actions.push(LinkAction::Report(SessionOutcome::WorkspaceChanged));
                    }
                    (Link { dialled, expect, addr, phase: Phase::Live { machine_id } }, actions)
                },
                Err(why) => Self::end(
                    dialled,
                    expect,
                    addr,
                    machine_id,
                    joined("incompatible workspace: ", why.as_str()),
                ),
            },
            (Phase::Live { machine_id }, LinkEvent::Applied(result)) => match result {
                Ok(changed) => {
                    if changed {
                        actions.push(LinkAction::Report(SessionOutcome::WorkspaceChanged));
                    }
                    (Link { dialled, expect, addr, phase: Phase::Live { machine_id } }, actions)
                },
                Err(why) => Self::end(
                    dialled,
                    expect,
                    addr,
                    machine_id,
                    joined("rejected update: ", why.as_str()),
                ),
            },
            (Phase::Live { machine_id }, LinkEvent::Quiet) => Self::end(
                dialled,
                expect,
                addr,
                machine_id,
                String::from_str("peer went quiet"),
            ),
            (Phase::Live { machine_id }, LinkEvent::Failed(why)) => Self::end(
                dialled,
                expect,
                addr,
                machine_id,
                why,
            ),
            (Phase::Over, _) => (Link { dialled, expect, addr, phase: Phase::Over }, actions),
            (_, LinkEvent::Quiet) => Self::fail(
                dialled,
                expect,
                addr,
                String::from_str("timed out"),
            ),
            (_, LinkEvent::Failed(why)) => Self::fail(dialled, expect, addr, why),
            (phase, _) => (Link { dialled, expect, addr, phase }, actions),
        }
    }
}

/// Whether an action lets the peer touch the workspace, the input or the cursor.
pub open spec fn is_privileged(action: LinkAction) -> bool {
    ||| action is Merge
    ||| action is Apply
    ||| action is Replay
    ||| action is CursorOwner
}

/// Whether the peer has been let in.
pub open spec fn is_admitted(phase: Phase) -> bool {
    phase is Identifying || phase is Syncing || phase is Live
}

/// A peer can touch the workspace, the input or the cursor only while it is live.
pub proof fn only_live_peers_are_obeyed(
    before: Link,
    event: LinkEvent,
    after: Link,
    actions: Seq<LinkAction>,
    k: int,
)
    requires
        stepped(before, event, after, actions),
        0 <= k < actions.len(),
        is_privileged(actions[k]),
    ensures
        before.phase is Live,
{
}

/// Nobody is let in but by a verdict on the key that they have proved: a peer
/// that proves an identity we never paired with is refused before it can send us
/// a single workspace message.
pub proof fn admission_takes_a_verdict(
    before: Link,
    event: LinkEvent,
    after: Link,
    actions: Seq<LinkAction>,
)
    requires
        stepped(before, event, after, actions),
        is_admitted(after.phase),
    ensures
        is_admitted(before.phase) || (before.phase is Proven && (event matches LinkEvent::Verdict {
            authorized,
            display_name,
            ours,
        } && authorized)),
{
}

/// A verdict is asked only of a key that the peer has proved, under the identifier
/// that it proved it for, and only if it is the machine that was dialled.
pub proof fn a_verdict_takes_a_proof(
    before: Link,
    event: LinkEvent,
    after: Link,
    actions: Seq<LinkAction>,
)
    requires
        stepped(before, event, after, actions),
        after.phase is Proven,
        !(before.phase is Proven),
    ensures
        before.phase is Greeting,
        event matches LinkEvent::Hello(hello) && {
            &&& hello.is_genuine()
            &&& hello.machine_id != before.phase->initiation.hello.machine_id
            &&& before.expect matches Some(expected) ==> expected == hello.machine_id
            &&& after.phase->session.peer_machine == hello.machine_id
            &&& after.phase->session.peer_key@ == hello.identity_key@
        },
{
}

/// Documents are exchanged only between machines of one workspace, or where one of
/// the two has none yet.
pub proof fn documents_stay_inside_a_workspace(
    before: Link,
    event: LinkEvent,
    after: Link,
    actions: Seq<LinkAction>,
)
    requires
        stepped(before, event, after, actions),
        before.phase is Identifying,
        after.phase is Syncing,
    ensures
        event matches LinkEvent::Message(Message::Identify {
            display_name,
            workspace_id,
            machines,
        }) && (before.phase->ours is None || workspace_id is None || before.phase->ours
            == workspace_id),
{
}

/// Once a connection is over nothing more comes of it.
pub proof fn over_is_over(before: Link, event: LinkEvent, after: Link, actions: Seq<LinkAction>)
    requires
        stepped(before, event, after, actions),
        before.phase is Over,
    ensures
        after.phase is Over,
        actions.len() == 0,
{
}

/// A live session that ends says so, once, under the machine it was with.
pub proof fn live_sessions_report_their_end(
    before: Link,
    event: LinkEvent,
    after: Link,
    actions: Seq<LinkAction>,
)
    requires
        stepped(before, event, after, actions),
        before.phase is Live,
    ensures
        after.phase is Over || after.phase == before.phase,
        after.phase is Over ==> actions.len() == 2 && (actions[0] matches LinkAction::Report(
            SessionOutcome::Closed { machine_id, reason },
        ) && machine_id == before.phase->Live_machine_id) && actions[1] == LinkAction::Close,
{
}

/// A peer that proves a key, under an identifier other than ours and, if we dialled,
/// the one that we dialled, is asked about; let in, it is spoken to in private and told
/// who we are; in our workspace, it is reported as connected and sent our document, and
/// from there on it is live, under that identifier throughout.
pub proof fn a_welcome_peer_gets_in(
    start: Link,
    hello: Hello,
    proven: Link,
    asks: Seq<LinkAction>,
    our_name: String,
    ours: Summary,
    identifying: Link,
    tells: Seq<LinkAction>,
    their_name: String,
    machines: u32,
    syncing: Link,
    reports: Seq<LinkAction>,
    doc: WorkspaceDoc,
    sending: Link,
    sends: Seq<LinkAction>,
    live: Link,
    done: Seq<LinkAction>,
)
    requires
        start.phase is Greeting,
        hello.is_genuine(),
        hello.machine_id != start.phase->initiation.hello.machine_id,
        start.expect matches Some(expected) ==> expected == hello.machine_id,
        stepped(start, LinkEvent::Hello(hello), proven, asks),
        stepped(
            proven,
            LinkEvent::Verdict { authorized: true, display_name: our_name, ours: Some(ours) },
            identifying,
            tells,
        ),
        stepped(
            identifying,
            LinkEvent::Message(
                Message::Identify {
                    display_name: their_name,
                    workspace_id: Some(ours.workspace_id),
                    machines,
                },
            ),
            syncing,
            reports,
        ),
        stepped(syncing, LinkEvent::Snapshot(Some(doc)), sending, sends),
        stepped(sending, LinkEvent::DocumentSent, live, done),
    ensures
        asks.len() == 1,
        asks[0] matches LinkAction::Authorize { machine_id, identity_key } && machine_id
            == hello.machine_id && identity_key@ == hello.identity_key@,
        tells.len() == 2,
        tells[0] matches LinkAction::Encrypt(session) && session.peer_machine
            == hello.machine_id,
        tells[1] == LinkAction::Send(
            Message::Identify {
                display_name: our_name,
                workspace_id: Some(ours.workspace_id),
                machines: ours.machines,
            },
        ),
        reports.len() == 2,
        reports[0] == LinkAction::Report(
            SessionOutcome::Established { machine_id: hello.machine_id, display_name: their_name },
        ),
        reports[1] == LinkAction::TakeSnapshot,
        sends.len() == 1,
        sends[0] matches LinkAction::Send(Message::DocFull { doc: sent }) && *sent == doc,
        done.len() == 0,
        live.phase == (Phase::Live { machine_id: hello.machine_id }),
{
}

/// What a live peer sends is done, once and as it was sent, in the name of that peer:
/// its document is merged, its change applied, its input replayed and its word on the
/// cursor taken. Only a goodbye ends the session, for the reason that it gives.
pub proof fn a_live_peer_is_obeyed(
    before: Link,
    message: Message,
    after: Link,
    actions: Seq<LinkAction>,
)
    requires
        before.phase is Live,
        stepped(before, LinkEvent::Message(message), after, actions),
    ensures
        ({
            let who = before.phase->Live_machine_id;
            &&& message matches Message::DocFull { doc } ==> actions.len() == 1 && actions[0]
                == LinkAction::Merge(doc)
            &&& message matches Message::Update { update } ==> actions.len() == 1 && actions[0]
                == LinkAction::Apply(update)
            &&& message matches Message::Input { events } ==> actions.len() == 1 && actions[0] == (
            LinkAction::Replay { from: who, events })
            &&& message matches Message::CursorOwner { machine } ==> actions.len() == 1
                && actions[0] == (LinkAction::CursorOwner { from: who, machine })
            &&& message is Ping || message is Pong || message is Identify ==> actions.len() == 0
            &&& after.phase is Over <==> message is Goodbye
            &&& message matches Message::Goodbye { reason } ==> (actions[0] matches
                LinkAction::Report(SessionOutcome::Closed { machine_id, reason: why })
                && machine_id == who && why@ == reason@)
        }),
{
}

/// Silence and failure end a connection whatever it has come to, and so does a document
/// or a change that does not belong; one that does is reported exactly if it changed
/// something.
pub proof fn silence_and_failure_end_a_connection(
    before: Link,
    event: LinkEvent,
    after: Link,
    actions: Seq<LinkAction>,
)
    requires
        stepped(before, event, after, actions),
        !(before.phase is Over),
    ensures
        event is Quiet || event is Failed ==> after.phase is Over && actions.last()
            == LinkAction::Close,
        before.phase is Live ==> {
            &&& event matches LinkEvent::Merged(Ok(changed)) ==> after.phase is Live && (
            actions.len() == 1 <==> changed) && (changed ==> actions[0] == LinkAction::Report(
                SessionOutcome::WorkspaceChanged,
            )) && (!changed ==> actions.len() == 0)
            &&& event matches LinkEvent::Applied(Ok(changed)) ==> after.phase is Live && (
            actions.len() == 1 <==> changed) && (changed ==> actions[0] == LinkAction::Report(
                SessionOutcome::WorkspaceChanged,
            )) && (!changed ==> actions.len() == 0)
            &&& event matches LinkEvent::Merged(Err(why)) ==> after.phase is Over
            &&& event matches LinkEvent::Applied(Err(why)) ==> after.phase is Over
        },
        event matches LinkEvent::Failed(why) ==> (actions[0] matches LinkAction::Report(
            SessionOutcome::Closed { machine_id, reason },
        ) ==> reason@ == why@),
{
}

/// A peer whose key was not let in is reported with that key and where it was reached,
/// and nothing is sent to it.
pub proof fn a_refused_peer_is_told_nothing(
    before: Link,
    display_name: String,
    ours: Option<Summary>,
    after: Link,
    actions: Seq<LinkAction>,
)
    requires
        before.phase is Proven,
        stepped(
            before,
            LinkEvent::Verdict { authorized: false, display_name, ours },
            after,
            actions,
        ),
    ensures
        after.phase is Over,
        forall|k: int| 0 <= k < actions.len() ==> !(#[trigger] actions[k] is Send),
        actions[0] == LinkAction::Report(
            SessionOutcome::Rejected {
                machine_id: before.phase->session.peer_machine,
                identity_key: before.phase->session.peer_key,
                addr: before.addr,
            },
        ),
        actions.last() == LinkAction::Close,
{
}

/// Two machines of different workspaces part before either sends a document, and what
/// the other one is becomes known: who, in which workspace, and how big that is.
pub proof fn strangers_part_knowing_each_other(
    before: Link,
    display_name: String,
    theirs: WorkspaceId,
    machines: u32,
    after: Link,
    actions: Seq<LinkAction>,
)
    requires
        before.phase is Identifying,
        before.phase->ours matches Some(mine) && mine != theirs,
        stepped(
            before,
            LinkEvent::Message(
                Message::Identify { display_name, workspace_id: Some(theirs), machines },
            ),
            after,
            actions,
        ),
    ensures
        after.phase is Over,
        actions[0] == LinkAction::Report(
            SessionOutcome::DifferentWorkspaces {
                machine_id: before.phase->Identifying_machine_id,
                display_name,
                identity_key: before.phase->identity_key,
                their_workspace: theirs,
                their_size: machines,
            },
        ),
        actions[1] matches LinkAction::Send(Message::Goodbye { .. }),
        actions.last() == LinkAction::Close,
        forall|k: int|
            0 <= k < actions.len() ==> !(#[trigger] actions[k] matches LinkAction::Send(
                Message::DocFull { .. },
            )),
{
}

/// A peer that keeps beating is not taken for silent, even if one or two of its beats
/// are lost.
pub proof fn lost_heartbeats_are_forgiven(last: u64, beat: int)
    requires
        beat == last + 2 * HEARTBEAT,
    ensures
        0 < HEARTBEAT,
        beat + HEARTBEAT <= last + SILENCE_LIMIT,
        SILENCE_LIMIT <= 15_000_000_000,
{
}

/// A connection that we opened and that comes to nothing is reported as closed under the
/// machine that was dialled, so that it is dialled again, unless something more is known
/// of it: that its key was refused, or that it is in another workspace.
pub proof fn a_failed_dial_is_reported(
    before: Link,
    event: LinkEvent,
    after: Link,
    actions: Seq<LinkAction>,
)
    requires
        stepped(before, event, after, actions),
        before.expect is Some,
        !(before.phase is Live),
        !(before.phase is Over),
        after.phase is Over,
    ensures
        actions.len() >= 2,
        actions[0] is Report,
        actions.last() == LinkAction::Close,
        actions[0] matches LinkAction::Report(outcome) && (outcome matches
            SessionOutcome::Closed { machine_id, reason } && before.expect == Some(machine_id)
            || outcome is Rejected || outcome is DifferentWorkspaces),
{
}

} // verus!
