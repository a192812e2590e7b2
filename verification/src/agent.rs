//! The agent: what this machine knows and does about its workspace.
//!
//! It holds the pieces that must not disagree (the document, who is reachable
//! right now, whom the user admitted) and it is the only thing that changes any
//! of them. Persisting the document and talking to the network is left to its
//! host, which is told when to.

use std::collections::{BTreeMap, HashSet};

use vstd::prelude::*;

use crate::addr::Endpoint;
use crate::clock::now_ms;
use crate::discovery;
use crate::displays;
use crate::document;
use crate::error::{Error, Result};
use crate::geometry;
use crate::geometry::Point;
use crate::identity;
use crate::identity::{Identity, PubKey};
use crate::ids;
use crate::ids::{MachineId, WorkspaceId};
use crate::model;
use crate::model::{
    DisplayInfo, DisplayView, DocView, InputAssignment, MachineRecord, Op, OpView, Platform,
    RecordView, Scale, SettingsView, UpdateView, WorkspaceDoc, WorkspaceSettings, WorkspaceUpdate,
};
use crate::net_error::NetError;
use crate::peers::Event;
use crate::stamp::Stamp;
use crate::store;
use crate::store::{ConfigFile, Disk, LocalPrefs, WriteJob, WriteStep};
use crate::text;

verus! {

/// Why the agent did not do what it was asked.
#[derive(Debug)]
pub enum AgentError {
    Core(Error),
    Net(NetError),
    /// This machine has not joined a workspace yet.
    NoWorkspace,
    UnknownMachine(MachineId),
    Refused(String),
}

pub type AgentResult<T> = core::result::Result<T, AgentError>;

/// A machine seen on the network that is not in our workspace.
#[derive(Debug)]
pub struct Candidate {
    pub machine_id: MachineId,
    pub display_name: String,
    pub identity_key: PubKey,
    /// It has already admitted this machine and is waiting to be admitted back.
    /// One click finishes the pairing instead of two blind ones.
    pub invited_us: bool,
    /// Where it was last heard from. Shown because "found nothing" and "found
    /// something on the wrong network" look identical without it.
    pub addr: Endpoint,
    pub last_seen_ms: u64,
    /// Whether it already belongs to some workspace. A machine that is in one
    /// and a machine that is fresh out of the box are different situations for
    /// the person looking at the screen.
    pub has_workspace: bool,
}

impl Clone for Candidate {
    fn clone(&self) -> (r: Self)
        ensures
            r == *self,
    {
        Candidate {
            machine_id: self.machine_id,
            display_name: self.display_name.clone(),
            identity_key: self.identity_key,
            invited_us: self.invited_us,
            addr: self.addr,
            last_seen_ms: self.last_seen_ms,
            has_workspace: self.has_workspace,
        }
    }
}

/// Something changed and any view should refresh.
#[derive(Clone, Copy, Debug, PartialEq, Eq, Structural)]
pub enum AgentEvent {
    Changed,
}

/// What the agent of the machine `me` knows.
pub struct Agent {
    pub me: MachineId,
    pub doc: Option<WorkspaceDoc>,
    /// Peers with a live authenticated session. Never persisted: liveness is not
    /// part of the workspace.
    pub online: HashSet<MachineId>,
    pub candidates: BTreeMap<MachineId, Candidate>,
    /// Machines the user admitted before this computer had a workspace to put
    /// them in: the "join an existing workspace" case.
    ///
    /// A machine joining cannot check a peer against a document it does not
    /// have yet, so until it adopts one it checks against this instead. Each
    /// entry is a deliberate decision by the person at the keyboard, and it is
    /// dropped as soon as the real record arrives.
    pub pending_trust: BTreeMap<MachineId, PubKey>,
    /// Addresses typed in by hand.
    pub manual_peers: Vec<Endpoint>,
    /// The last ownership announcement received, waiting to be applied by the
    /// sharing loop.
    pub announced_owner: Option<MachineId>,
    /// Which machine the pointer is actually on, as the sharing loop sees it.
    ///
    /// Worth publishing: with two mice in play, "where is the cursor" is the
    /// question a person asks first, and the alternative to showing it is
    /// waggling a mouse to find out.
    pub cursor_owner: Option<MachineId>,
    /// Whether this machine is sharing its keyboard and mouse.
    pub sharing: bool,
}

/// The agent as contracts speak of it.
#[verifier::ext_equal]
pub struct AgentView {
    pub me: MachineId,
    pub doc: Option<DocView>,
    pub online: Set<MachineId>,
    pub candidates: Map<MachineId, Candidate>,
    pub pending_trust: Map<MachineId, PubKey>,
    pub manual_peers: Seq<Endpoint>,
    pub announced_owner: Option<MachineId>,
    pub cursor_owner: Option<MachineId>,
    pub sharing: bool,
}

/// An optional document taken by its view.
pub open spec fn optional_doc(doc: Option<WorkspaceDoc>) -> Option<DocView> {
    match doc {
        Some(doc) => Some(doc@),
        None => None,
    }
}

impl View for Agent {
    type V = AgentView;

    open spec fn view(&self) -> AgentView {
        AgentView {
            me: self.me,
            doc: optional_doc(self.doc),
            online: self.online@,
            candidates: self.candidates@,
            pending_trust: self.pending_trust@,
            manual_peers: self.manual_peers@,
            announced_owner: self.announced_owner,
            cursor_owner: self.cursor_owner,
            sharing: self.sharing,
        }
    }
}

/// The provisional trust that is left once `doc` holds records of its own.
pub open spec fn still_pending(pending: Map<MachineId, PubKey>, doc: DocView) -> Map<
    MachineId,
    PubKey,
> {
    Map::new(
        |id: MachineId| pending.contains_key(id) && doc.record(id) is None,
        |id: MachineId| pending[id],
    )
}

/// Those of `records` that are neither this machine nor online.
pub open spec fn absent_among(records: Seq<RecordView>, me: MachineId, online: Set<MachineId>) -> Seq<
    MachineId,
>
    decreases records.len(),
{
    if records.len() == 0 {
        Seq::empty()
    } else {
        let init = absent_among(records.drop_last(), me, online);
        let id = records.last().id;
        if id != me && !online.contains(id) {
            init.push(id)
        } else {
            init
        }
    }
}

/// The rightmost edge of the machines that have a size.
pub open spec fn rightmost(records: Seq<RecordView>) -> Option<int>
    decreases records.len(),
{
    if records.len() == 0 {
        None
    } else {
        let init = rightmost(records.drop_last());
        match records.last().bounds() {
            Some(bounds) => match init {
                Some(right) => Some(geometry::max_int(right, bounds.right())),
                None => Some(bounds.right()),
            },
            None => init,
        }
    }
}

/// Whether of two configurations, given by their sizes and identifiers, the first
/// gives way: the smaller one, and the one with the higher identifier where both
/// are the same size.
pub open spec fn yields(
    our_size: u32,
    our_workspace: WorkspaceId,
    their_size: u32,
    their_workspace: WorkspaceId,
) -> bool {
    our_size < their_size || (our_size == their_size && our_workspace > their_workspace)
}

/// The values of a map by ascending key.
pub open spec fn values_in_order<V>(m: Map<MachineId, V>) -> Seq<V> {
    let order = ids::ascending(m.dom());
    Seq::new(order.len(), |i: int| m[order[i]])
}

/// How two states of the agent and an answer relate if the second state comes of a
/// local change.
pub open spec fn edits(
    before: AgentView,
    after: AgentView,
    r: AgentResult<WorkspaceUpdate>,
    op: OpView,
) -> bool {
    match before.doc {
        None => r == Err::<WorkspaceUpdate, AgentError>(AgentError::NoWorkspace) && after == before,
        Some(doc) => {
            &&& r matches Ok(update)
            &&& update.stamp.lamport == doc.lamport + 1
            &&& update.stamp.origin == before.me
            &&& update@ == (UpdateView {
                workspace_id: doc.workspace_id,
                prev_lamport: doc.lamport,
                stamp: update.stamp,
                op,
            })
            &&& after == (AgentView { doc: Some(doc.edited(update.stamp, op)), ..before })
        },
    }
}

/// How two states of the agent and an answer relate if the second state comes of
/// merging a peer's document.
pub open spec fn merges(
    before: AgentView,
    incoming: DocView,
    after: AgentView,
    r: Result<bool>,
) -> bool {
    match before.doc {
        None => {
            &&& r == Ok::<bool, Error>(true)
            &&& after == (AgentView {
                doc: Some(incoming),
                pending_trust: still_pending(before.pending_trust, incoming),
                ..before
            })
        },
        Some(doc) => if doc.workspace_id != incoming.workspace_id {
            &&& r == Err::<bool, Error>(
                Error::WorkspaceMismatch {
                    incoming: incoming.workspace_id,
                    local: doc.workspace_id,
                },
            )
            &&& after == before
        } else {
            &&& r == Ok::<bool, Error>(doc.learns_from(incoming))
            &&& after == (AgentView {
                doc: Some(doc.merged(incoming)),
                pending_trust: if doc.learns_from(incoming) {
                    still_pending(before.pending_trust, doc.merged(incoming))
                } else {
                    before.pending_trust
                },
                ..before
            })
        },
    }
}

/// How two states of the agent and an answer relate if the second state comes of
/// removing a machine.
pub open spec fn unpairs(
    before: AgentView,
    machine_id: MachineId,
    after: AgentView,
    r: AgentResult<WorkspaceUpdate>,
) -> bool {
    &&& machine_id == before.me ==> {
        &&& r matches Err(AgentError::Refused(why))
        &&& why@ == "a machine cannot remove itself from its own workspace"@
        &&& after == before
    }
    &&& machine_id != before.me ==> edits(
        before,
        AgentView {
            online: if r is Ok {
                before.online
            } else {
                after.online
            },
            ..after
        },
        r,
        OpView::RemoveMachine(machine_id),
    ) && (r is Ok ==> after.online == before.online.remove(machine_id))
}

/// How two states of the agent and an answer relate if the second state comes of a
/// peer's change.
pub open spec fn applies(
    before: AgentView,
    update: UpdateView,
    after: AgentView,
    r: Result<bool>,
) -> bool {
    match before.doc {
        None => r == Ok::<bool, Error>(false) && after == before,
        Some(doc) => if doc.workspace_id != update.workspace_id {
            &&& r == Err::<bool, Error>(
                Error::WorkspaceMismatch {
                    incoming: update.workspace_id,
                    local: doc.workspace_id,
                },
            )
            &&& after == before
        } else {
            &&& r == Ok::<bool, Error>(doc.is_news(update.stamp, update.op))
            &&& after == (AgentView {
                doc: Some(doc.applied(update.stamp, update.op)),
                ..before
            })
        },
    }
}

/// How two states of the agent and an answer relate if the second state comes of
/// renaming this machine.
pub open spec fn renames(
    before: AgentView,
    name: Seq<char>,
    after: AgentView,
    r: AgentResult<WorkspaceUpdate>,
) -> bool {
    let trimmed = text::trimmed(name);
    let record = match before.doc {
        Some(doc) => doc.record(before.me),
        None => None,
    };
    if trimmed.len() == 0 {
        &&& r matches Err(AgentError::Refused(why))
        &&& why@ == "a computer needs a name"@
        &&& after == before
    } else if record is None {
        &&& r == Err::<WorkspaceUpdate, AgentError>(AgentError::UnknownMachine(before.me))
        &&& after == before
    } else {
        edits(
            before,
            after,
            r,
            OpView::UpsertMachine(RecordView { display_name: trimmed, ..record->0 }),
        )
    }
}

/// What this machine is called on a computer with this name.
pub open spec fn known_as(agent: AgentView, computer_name: Seq<char>) -> Seq<char> {
    match agent.doc {
        Some(doc) => match doc.record(agent.me) {
            Some(record) => record.display_name,
            None => computer_name,
        },
        None => computer_name,
    }
}

/// The agent once a peer said who has the pointer.
pub open spec fn announced(agent: AgentView, machine: MachineId) -> AgentView {
    AgentView { announced_owner: Some(machine), ..agent }
}

/// The agent once the last such announcement was taken, and that announcement.
pub open spec fn announcement_taken(agent: AgentView) -> (AgentView, Option<MachineId>) {
    (AgentView { announced_owner: None, ..agent }, agent.announced_owner)
}

/// The agent once the sharing loop said who has the pointer, and whether that is new.
pub open spec fn owner_noted(agent: AgentView, owner: Option<MachineId>) -> (AgentView, bool) {
    (AgentView { cursor_owner: owner, ..agent }, agent.cursor_owner != owner)
}

/// The agent once it gave up its configuration for that of a machine.
pub open spec fn adopted(before: AgentView, machine_id: MachineId, key: PubKey) -> AgentView {
    AgentView {
        doc: None,
        online: before.online.remove(machine_id),
        pending_trust: before.pending_trust.insert(machine_id, key),
        ..before
    }
}

/// What a network event calls for.
#[derive(Debug)]
pub enum Reaction {
    Nothing,
    /// Any view should refresh.
    Changed,
    /// Give up this machine's configuration for the one that the machine is in.
    Adopt { machine_id: MachineId, identity_key: PubKey },
}

/// What becomes of a request to pair.
#[derive(Debug)]
pub enum Pairing {
    /// No workspace of our own yet: this machine waits to join theirs.
    Waiting,
    /// The machine is in our workspace; peers are to hear of it.
    Paired(WorkspaceUpdate),
}

/// The record of a machine that was just admitted. It reports its own platform and
/// displays once connected.
pub open spec fn admitted(candidate: Candidate, position: Point, now: u64) -> RecordView {
    RecordView {
        id: candidate.machine_id,
        display_name: candidate.display_name@,
        platform: Platform::Other,
        public_key: candidate.identity_key@,
        position,
        displays: Seq::empty(),
        input: InputAssignment { provides_keyboard: false, provides_mouse: false },
        paired_at_ms: now,
    }
}

/// Everything a view needs, in one snapshot.
pub struct Snapshot {
    pub doc: Option<WorkspaceDoc>,
    pub online: HashSet<MachineId>,
    pub candidates: Vec<Candidate>,
    /// Machines this computer has asked to join, still waiting to be admitted
    /// from the other end.
    pub awaiting_join: Vec<MachineId>,
    pub manual_peers: Vec<Endpoint>,
    /// The machine the pointer is on, when input is being shared.
    pub cursor_owner: Option<MachineId>,
}

/// What switching sharing on or off calls for.
#[derive(Clone, Copy, Debug, PartialEq, Eq, Structural)]
pub enum SharingChange {
    Keep,
    Start,
    Stop,
}

/// What the sharing switch calls for: first to write the preferences, then to start
/// or stop.
#[derive(Clone, Copy, Debug, PartialEq, Eq, Structural)]
pub struct SharingSwitch {
    pub remember: Option<LocalPrefs>,
    pub change: SharingChange,
}

/// How two states of the agent and an answer relate if the second state comes of
/// throwing the sharing switch.
pub open spec fn switches(
    before: AgentView,
    enabled: bool,
    prefs: LocalPrefs,
    after: AgentView,
    r: SharingSwitch,
) -> bool {
    &&& r.remember == store::to_remember(prefs, enabled)
    &&& r.change == (if enabled == before.sharing {
        SharingChange::Keep
    } else if enabled {
        SharingChange::Start
    } else {
        SharingChange::Stop
    })
    &&& after == (AgentView { sharing: before.sharing && enabled, ..before })
}

/// The agent once a change was acted on; `captured` is whether capture could be
/// started.
pub open spec fn settled(agent: AgentView, change: SharingChange, captured: bool) -> AgentView {
    if change == SharingChange::Start && captured {
        AgentView { sharing: true, ..agent }
    } else {
        agent
    }
}

/// The preferences file once the switch was remembered by writing `content`.
pub open spec fn remembered(disk: Disk, remember: Option<LocalPrefs>, content: Seq<u8>) -> Disk {
    match remember {
        Some(_) => store::disk_at(disk, content, WriteStep::Done),
        None => disk,
    }
}

/// The agent of the machine `me` that has just started with `doc`.
pub open spec fn started(me: MachineId, doc: Option<DocView>) -> AgentView {
    AgentView {
        me,
        doc,
        online: Set::empty(),
        candidates: Map::empty(),
        pending_trust: Map::empty(),
        manual_peers: Seq::empty(),
        announced_owner: None,
        cursor_owner: None,
        sharing: false,
    }
}

/// The screens of this machine, given what the platform found.
pub open spec fn screens(found: Option<Seq<DisplayView>>) -> Seq<DisplayView> {
    match found {
        Some(displays) if displays.len() > 0 => displays,
        _ => seq![assumed_display()],
    }
}

/// A list of displays that may be missing, taken by its view.
pub open spec fn optional_displays(found: Option<Vec<DisplayInfo>>) -> Option<Seq<DisplayView>> {
    match found {
        Some(displays) => Some(model::displays_view(displays@)),
        None => None,
    }
}

/// This machine as the record of a configuration of its own.
pub open spec fn own_record(
    id: MachineId,
    key: Seq<u8>,
    computer_name: Seq<char>,
    platform: Platform,
    displays: Seq<DisplayView>,
    now: u64,
) -> RecordView {
    RecordView {
        id,
        display_name: computer_name,
        platform,
        public_key: key,
        position: Point { x: 0, y: 0 },
        displays,
        input: InputAssignment { provides_keyboard: true, provides_mouse: true },
        paired_at_ms: now,
    }
}

impl Agent {
    /// The agent of this machine, given what reading its configuration gave, and the
    /// write that has to follow: on first launch a configuration is created.
    ///
    /// There is no setup step. A computer on its own is a perfectly good
    /// configuration of one machine, and asking somebody to name a "workspace"
    /// before anything works is a question about the data model rather than
    /// about what they want.
    pub fn load(
        identity: &Identity,
        stored: Result<Option<WorkspaceDoc>>,
        computer_name: String,
        platform: Platform,
        found: Option<Vec<DisplayInfo>>,
    ) -> (r: Result<(Self, Option<WriteJob>)>)
        ensures
            match stored {
                Err(e) => r == Err::<(Self, Option<WriteJob>), Error>(e),
                Ok(Some(doc)) => {
                    &&& r is Ok
                    &&& r->Ok_0.0@ == started(identity.machine_id, Some(doc@))
                    &&& r->Ok_0.1 is None
                },
                Ok(None) => {
                    &&& r is Ok
                    &&& r->Ok_0.1 == Some(store::writing(ConfigFile::Workspace))
                    &&& exists|workspace_id: WorkspaceId, stamp: Stamp, now: u64|
                        {
                            &&& ids::is_minted(workspace_id)
                            &&& stamp.lamport == 1
                            &&& stamp.origin == identity.machine_id
                            &&& r->Ok_0.0@ == started(
                                identity.machine_id,
                                Some(
                                    #[trigger] document::founded(
                                        workspace_id,
                                        computer_name@,
                                        own_record(
                                            identity.machine_id,
                                            identity::public_key_of(identity.secret()),
                                            computer_name@,
                                            platform,
                                            screens(optional_displays(found)),
                                            now,
                                        ),
                                        stamp,
                                    ),
                                ),
                            )
                        }
                },
            },
    {
        match stored {
            Err(e) => Err(e),
            Ok(Some(doc)) => Ok((Self::new(identity.machine_id, Some(doc)), None)),
            Ok(None) => {
                let now = now_ms();
                let displays = local_displays(found);
                let record = local_record(
                    identity,
                    computer_name.clone(),
                    platform,
                    displays,
                    now,
                );
                let doc = WorkspaceDoc::create(computer_name.as_str(), record);
                let ghost made = doc@;
                let ghost stamp = doc.name.stamp;
                assert(made == document::founded(
                    made.workspace_id,
                    computer_name@,
                    own_record(
                        identity.machine_id,
                        identity::public_key_of(identity.secret()),
                        computer_name@,
                        platform,
                        screens(optional_displays(found)),
                        now,
                    ),
                    stamp,
                ));
                let agent = Self::new(identity.machine_id, Some(doc));
                assert(agent@ == started(identity.machine_id, Some(made)));
                Ok((agent, Some(WriteJob::start(ConfigFile::Workspace))))
            },
        }
    }

    /// The agent of a machine that starts with a configuration, or without one.
    pub fn new(me: MachineId, doc: Option<WorkspaceDoc>) -> (r: Self)
        ensures
            r@ == started(me, optional_doc(doc)),
    {
        Agent {
            me,
            doc,
            online: HashSet::new(),
            candidates: BTreeMap::new(),
            pending_trust: BTreeMap::new(),
            manual_peers: Vec::new(),
            announced_owner: None,
            cursor_owner: None,
            sharing: false,
        }
    }

    /// Merges a peer's document. Returns whether anything changed, in which case
    /// the document is to be persisted and the change announced.
    pub fn merge(&mut self, incoming: &WorkspaceDoc) -> (r: Result<bool>)
        ensures
            merges(old(self)@, incoming@, final(self)@, r),
    {
        let changed = match &mut self.doc {
            Some(doc) => match doc.merge(incoming) {
                Ok(changed) => changed,
                Err(e) => {
                    return Err(e);
                },
            },
            None => {
                // A machine that was reinstalled, or paired from the other end,
                // adopts the workspace it is being told about.
                self.doc = Some(incoming.clone());
                true
            },
        };
        if changed {
            // Anything now recorded in the document is trusted on its own terms.
            self.drop_recorded_trust();
        }
        Ok(changed)
    }

    /// Drops the provisional trust in every machine that the document records.
    fn drop_recorded_trust(&mut self)
        ensures
            final(self)@ == (AgentView {
                pending_trust: match old(self)@.doc {
                    Some(doc) => still_pending(old(self)@.pending_trust, doc),
                    None => old(self)@.pending_trust,
                },
                ..old(self)@
            }),
    {
        let ghost before = self@;
        let order = ids::keys_in_order(&self.pending_trust);
        let mut i: usize = 0;
        if self.doc.is_none() {
            return;
        }
        proof {
            assert(order@.skip(0) =~= order@);
            assert forall|id: MachineId| #[trigger] before.pending_trust.contains_key(id) implies
            order@.contains(id) by {
                assert(order@.to_set().contains(id));
            }
        }
        while i < order.len()
            invariant
                i <= order@.len(),
                before.doc is Some,
                ids::is_ascending(order@),
                order@.to_set() == before.pending_trust.dom(),
                self@ == (AgentView { pending_trust: self.pending_trust@, ..before }),
                forall|id: MachineId| #[trigger]
                    self.pending_trust@.contains_key(id) <==> before.pending_trust.contains_key(id)
                        && ((before.doc->0).record(id) is None || order@.skip(i as int).contains(
                        id,
                    )),
                forall|id: MachineId| #[trigger]
                    self.pending_trust@.contains_key(id) ==> self.pending_trust@[id]
                        == before.pending_trust[id],
            decreases order@.len() - i,
        {
            let id: MachineId = order[i];
            proof {
                let rest = order@.skip(i as int);
                let tail = order@.skip(i + 1);
                assert(rest[0] == id);
                assert forall|x: MachineId| rest.contains(x) <==> (x == id || tail.contains(x)) by {
                    if rest.contains(x) {
                        let k = choose|k: int| 0 <= k < rest.len() && rest[k] == x;
                        if k > 0 {
                            assert(tail[k - 1] == x);
                        }
                    }
                    if tail.contains(x) {
                        let k = choose|k: int| 0 <= k < tail.len() && tail[k] == x;
                        assert(rest[k + 1] == x);
                    }
                }
                assert(!tail.contains(id)) by {
                    if tail.contains(id) {
                        let k = choose|k: int| 0 <= k < tail.len() && tail[k] == id;
                        assert(order@[i as int] < order@[i + 1 + k]);
                    }
                }
            }
            let recorded = match &self.doc {
                Some(doc) => doc.machine(id).is_some(),
                None => false,
            };
            if recorded {
                let _ = self.pending_trust.remove(&id);
            }
            i = i + 1;
        }
        assert(self.pending_trust@ =~= still_pending(before.pending_trust, before.doc->0)) by {
            assert forall|id: MachineId| self.pending_trust@.contains_key(id) implies (
            before.doc->0).record(id) is None by {
                assert(!order@.skip(i as int).contains(id)) by {
                    assert(order@.skip(i as int).len() == 0);
                }
            }
        }
    }

    /// Applies one change from a peer. Returns whether anything changed, in which
    /// case the document is to be persisted and the change announced.
    pub fn apply(&mut self, update: WorkspaceUpdate) -> (r: Result<bool>)
        ensures
            applies(old(self)@, update@, final(self)@, r),
    {
        match &mut self.doc {
            Some(doc) => doc.apply(update),
            None => Ok(false),
        }
    }

    /// This machine's name, for announcements and for the pairing dialog: the one
    /// that the workspace records, and what the computer is called otherwise.
    pub fn display_name(&self, computer_name: String) -> (r: String)
        ensures
            r@ == known_as(self@, computer_name@),
    {
        match &self.doc {
            Some(doc) => match doc.machine(self.me) {
                Some(record) => record.display_name.clone(),
                None => computer_name,
            },
            None => computer_name,
        }
    }

    /// A peer says where the pointer is.
    pub fn on_cursor_owner(&mut self, machine: MachineId)
        ensures
            final(self)@ == announced(old(self)@, machine),
    {
        self.announced_owner = Some(machine);
    }

    /// An ownership announcement that has arrived and not yet been applied.
    pub fn take_announced_owner(&mut self) -> (r: Option<MachineId>)
        ensures
            (final(self)@, r) == announcement_taken(old(self)@),
    {
        let announced: Option<MachineId> = self.announced_owner;
        self.announced_owner = None;
        announced
    }

    /// Records where the pointer is, for anything showing it. Returns whether that
    /// is news.
    pub fn note_cursor_owner(&mut self, owner: Option<MachineId>) -> (changed: bool)
        ensures
            (final(self)@, changed) == owner_noted(old(self)@, owner),
    {
        if self.cursor_owner != owner {
            self.cursor_owner = owner;
            true
        } else {
            false
        }
    }

    /// Machines in the workspace that are not connected right now.
    ///
    /// Advertised so a machine this one has admitted can see it was invited,
    /// rather than both people clicking Pair into the void and wondering which
    /// of them failed.
    pub fn pending_invitations(&self) -> (r: Vec<MachineId>)
        ensures
            r@ == (match self@.doc {
                Some(doc) => absent_among(doc.present(), self.me, self@.online),
                None => Seq::empty(),
            }),
    {
        let mut out: Vec<MachineId> = Vec::new();
        let doc = match &self.doc {
            Some(doc) => doc,
            None => {
                return out;
            },
        };
        let present = doc.machines_present();
        let ghost records = document::records_view(present@);
        let mut i: usize = 0;
        assert(records.take(0) =~= Seq::empty());
        while i < present.len()
            invariant
                i <= present@.len(),
                records == document::records_view(present@),
                out@ == absent_among(records.take(i as int), self.me, self.online@),
            decreases present@.len() - i,
        {
            assert(records.take(i + 1).drop_last() =~= records.take(i as int));
            let id: MachineId = present[i].id;
            if id != self.me && !self.online.contains(&id) {
                out.push(id);
            }
            i = i + 1;
        }
        assert(records.take(i as int) =~= records);
        out
    }

    /// Whether a peer that has *proved* it holds `key` is allowed in.
    ///
    /// Proving an identity and being allowed to use it are different questions,
    /// and this is the second one: only machines already in the workspace, with
    /// the key recorded when they were paired, and machines that the user decided
    /// to join before there was a document.
    pub fn authorize(&self, machine_id: MachineId, key: &PubKey) -> (r: bool)
        ensures
            r == trusts(self@, machine_id, key@),
    {
        if let Some(doc) = &self.doc {
            if let Some(record) = doc.machine(machine_id) {
                return record.public_key == *key;
            }
        }
        // No record for this machine: the only other way in is an explicit
        // decision to join it, made by the user before there was a document.
        match self.pending_trust.get(&machine_id) {
            Some(pending) => *pending == *key,
            None => false,
        }
    }

    /// Everything a view needs.
    pub fn snapshot(&self) -> (r: Snapshot)
        ensures
            optional_doc(r.doc) == self@.doc,
            r.online@ == self@.online,
            r.candidates@ == values_in_order(self@.candidates),
            r.awaiting_join@ == ids::ascending(self@.pending_trust.dom()),
            r.manual_peers@ == self@.manual_peers,
            r.cursor_owner == self@.cursor_owner,
    {
        let order = ids::keys_in_order(&self.candidates);
        let mut candidates: Vec<Candidate> = Vec::new();
        let mut i: usize = 0;
        while i < order.len()
            invariant
                i <= order@.len(),
                order@ == ids::ascending(self.candidates@.dom()),
                order@.to_set() == self.candidates@.dom(),
                candidates@ =~= values_in_order(self.candidates@).take(i as int),
            decreases order@.len() - i,
        {
            assert(order@.to_set().contains(order@[i as int]));
            let all = Ghost(values_in_order(self.candidates@));
            match self.candidates.get(&order[i]) {
                Some(candidate) => {
                    candidates.push(candidate.clone());
                    assert(all@.take(i + 1) =~= all@.take(i as int).push(all@[i as int]));
                },
                None => {
                    assert(false);
                },
            }
            i = i + 1;
        }
        assert(values_in_order(self.candidates@).take(i as int) =~= values_in_order(
            self.candidates@,
        ));
        let mut manual: Vec<Endpoint> = Vec::new();
        let mut j: usize = 0;
        while j < self.manual_peers.len()
            invariant
                j <= self.manual_peers@.len(),
                manual@ == self.manual_peers@.take(j as int),
            decreases self.manual_peers@.len() - j,
        {
            manual.push(self.manual_peers[j]);
            assert(self.manual_peers@.take(j + 1) =~= self.manual_peers@.take(j as int).push(
                self.manual_peers@[j as int],
            ));
            j = j + 1;
        }
        assert(self.manual_peers@.take(j as int) =~= self.manual_peers@);
        Snapshot {
            doc: match &self.doc {
                Some(doc) => Some(doc.clone()),
                None => None,
            },
            online: ids::copy_set(&self.online),
            candidates,
            awaiting_join: ids::keys_in_order(&self.pending_trust),
            manual_peers: manual,
            cursor_owner: self.cursor_owner,
        }
    }

    /// Applies a change locally. It is to be persisted, then pushed to every
    /// connected peer.
    fn mutate(&mut self, op: Op) -> (r: AgentResult<WorkspaceUpdate>)
        requires
            old(self)@.doc matches Some(doc) ==> doc.lamport < u64::MAX,
        ensures
            edits(old(self)@, final(self)@, r, op@),
    {
        let me: MachineId = self.me;
        match &mut self.doc {
            None => Err(AgentError::NoWorkspace),
            Some(doc) => Ok(
                match op {
                    Op::SetName(name) => doc.set_name(me, name.as_str()),
                    Op::SetSettings(settings) => doc.set_settings(me, settings),
                    Op::UpsertMachine(record) => doc.upsert_machine(me, record),
                    Op::RemoveMachine(id) => doc.remove_machine(me, id),
                },
            ),
        }
    }

    /// Renames this machine, as every other computer sees it.
    pub fn rename_this_machine(&mut self, name: &str) -> (r: AgentResult<WorkspaceUpdate>)
        requires
            old(self)@.doc matches Some(doc) ==> doc.lamport < u64::MAX,
        ensures
            renames(old(self)@, name@, final(self)@, r),
    {
        let name = text::trim(name);
        if name.as_str().unicode_len() == 0 {
            return Err(AgentError::Refused(String::from_str("a computer needs a name")));
        }
        let found = match &self.doc {
            Some(doc) => match doc.machine(self.me) {
                Some(record) => Some(record.clone()),
                None => None,
            },
            None => None,
        };
        match found {
            Some(mut record) => {
                record.display_name = name;
                self.mutate(Op::UpsertMachine(record))
            },
            None => Err(AgentError::UnknownMachine(self.me)),
        }
    }

    /// Admits a discovered machine into the workspace, now.
    pub fn pair(&mut self, machine_id: MachineId) -> (r: AgentResult<Pairing>)
        requires
            old(self)@.doc matches Some(doc) ==> doc.lamport < u64::MAX,
        ensures
            exists|now: u64| #[trigger] pairs(old(self)@, final(self)@, r, machine_id, now),
    {
        let now: u64 = now_ms();
        self.pair_at(machine_id, now)
    }

    /// Admits a discovered machine into the workspace.
    ///
    /// This records its public key, which is what every later connection is
    /// checked against. The other machine has to do the same for us: neither
    /// side will talk to a machine it has not been told to trust, and that is
    /// the property that makes an open network safe to run this on.
    pub fn pair_at(&mut self, machine_id: MachineId, now: u64) -> (r: AgentResult<Pairing>)
        requires
            old(self)@.doc matches Some(doc) ==> doc.lamport < u64::MAX,
        ensures
            pairs(old(self)@, final(self)@, r, machine_id, now),
    {
        let candidate = match self.candidates.get(&machine_id) {
            Some(candidate) => candidate.clone(),
            None => {
                return Err(AgentError::UnknownMachine(machine_id));
            },
        };
        // No workspace of our own yet: this is a join, not an admission. Trust
        // the machine provisionally and adopt its workspace when it connects,
        // rather than creating a second workspace that could never merge with
        // the first.
        if self.doc.is_none() {
            let _ = self.pending_trust.insert(candidate.machine_id, candidate.identity_key);
            return Ok(Pairing::Waiting);
        }
        let position = self.free_position();
        let record = MachineRecord {
            id: candidate.machine_id,
            display_name: candidate.display_name,
            platform: Platform::Other,
            public_key: candidate.identity_key,
            position,
            displays: Vec::new(),
            input: InputAssignment { provides_keyboard: false, provides_mouse: false },
            paired_at_ms: now,
        };
        assert(record@.displays =~= Seq::empty());
        match self.mutate(Op::UpsertMachine(record)) {
            Ok(update) => {
                let _ = self.candidates.remove(&machine_id);
                Ok(Pairing::Paired(update))
            },
            Err(e) => Err(e),
        }
    }

    pub fn unpair(&mut self, machine_id: MachineId) -> (r: AgentResult<WorkspaceUpdate>)
        requires
            old(self)@.doc matches Some(doc) ==> doc.lamport < u64::MAX,
        ensures
            unpairs(old(self)@, machine_id, final(self)@, r),
    {
        if machine_id == self.me {
            return Err(
                AgentError::Refused(
                    String::from_str("a machine cannot remove itself from its own workspace"),
                ),
            );
        }
        match self.mutate(Op::RemoveMachine(machine_id)) {
            Ok(update) => {
                let _ = self.online.remove(&machine_id);
                Ok(update)
            },
            Err(e) => Err(e),
        }
    }

    pub fn upsert_machine(&mut self, record: MachineRecord) -> (r: AgentResult<WorkspaceUpdate>)
        requires
            old(self)@.doc matches Some(doc) ==> doc.lamport < u64::MAX,
        ensures
            edits(old(self)@, final(self)@, r, OpView::UpsertMachine(record@)),
    {
        self.mutate(Op::UpsertMachine(record))
    }

    pub fn rename_workspace(&mut self, name: &str) -> (r: AgentResult<WorkspaceUpdate>)
        requires
            old(self)@.doc matches Some(doc) ==> doc.lamport < u64::MAX,
        ensures
            edits(old(self)@, final(self)@, r, OpView::SetName(name@)),
    {
        self.mutate(Op::SetName(name.to_owned()))
    }

    pub fn update_settings(&mut self, settings: WorkspaceSettings) -> (r: AgentResult<
        WorkspaceUpdate,
    >)
        requires
            old(self)@.doc matches Some(doc) ==> doc.lamport < u64::MAX,
        ensures
            edits(old(self)@, final(self)@, r, OpView::SetSettings(settings@)),
    {
        self.mutate(Op::SetSettings(settings))
    }

    /// Publishes the facts only this machine knows about itself: its screens and
    /// its platform.
    ///
    /// Both matter because a record created by *pairing* is written by the other
    /// computer, which knows neither. Until this runs, the machine sits in the
    /// workspace with no size and an unknown platform: invisible on the canvas
    /// and impossible to route a cursor to.
    ///
    /// It writes only when something actually differs. The document is shared,
    /// so a needless rewrite bumps the revision on every peer and costs a
    /// broadcast to all of them.
    pub fn publish_local_facts(&mut self, displays: Vec<DisplayInfo>, platform: Platform) -> (r:
        AgentResult<Option<WorkspaceUpdate>>)
        requires
            old(self)@.doc matches Some(doc) ==> doc.lamport < u64::MAX,
        ensures
            publishes(
                old(self)@,
                final(self)@,
                r,
                model::displays_view(displays@),
                platform,
            ),
    {
        let found = match &self.doc {
            Some(doc) => match doc.machine(self.me) {
                Some(record) => Some(record.clone()),
                None => None,
            },
            None => None,
        };
        let mut record = match found {
            Some(record) => record,
            None => {
                return Ok(None);
            },
        };
        let screens_changed = displays::differ(&record.displays, &displays);
        if !screens_changed && record.platform == platform {
            return Ok(None);
        }
        if screens_changed {
            record.displays = displays;
        }
        record.platform = platform;
        match self.mutate(Op::UpsertMachine(record)) {
            Ok(update) => Ok(Some(update)),
            Err(e) => Err(e),
        }
    }

    /// Somewhere to put a newly paired machine that does not sit on top of one
    /// that is already placed. The user drags it where it belongs.
    pub fn free_position(&self) -> (r: Point)
        ensures
            r == free_spot(self@.doc),
    {
        let doc = match &self.doc {
            Some(doc) => doc,
            None => {
                return Point::new(0, 0);
            },
        };
        let present = doc.machines_present();
        let ghost records = document::records_view(present@);
        let mut right: Option<i32> = None;
        let mut i: usize = 0;
        assert(records.take(0) =~= Seq::empty());
        while i < present.len()
            invariant
                i <= present@.len(),
                records == document::records_view(present@),
                match right {
                    Some(edge) => rightmost(records.take(i as int)) == Some(edge as int),
                    None => rightmost(records.take(i as int)) is None,
                },
            decreases present@.len() - i,
        {
            assert(records.take(i + 1).drop_last() =~= records.take(i as int));
            if let Some(bounds) = present[i].bounds() {
                let edge: i32 = bounds.max_x();
                right =
                match right {
                    Some(best) if best >= edge => Some(best),
                    _ => Some(edge),
                };
            }
            i = i + 1;
        }
        assert(records.take(i as int) =~= records);
        match right {
            Some(edge) => Point::new(edge, 0),
            None => Point::new(0, 0),
        }
    }

    /// Adds an address to contact directly, for networks where multicast does not
    /// get through.
    pub fn add_manual_peer(&mut self, at: Endpoint)
        ensures
            final(self)@ == (AgentView {
                manual_peers: discovery::with_address(old(self)@.manual_peers, at),
                ..old(self)@
            }),
    {
        discovery::add_manual_peer(&mut self.manual_peers, at);
    }

    pub fn forget_manual_peer(&mut self, at: Endpoint)
        ensures
            final(self)@ == (AgentView {
                manual_peers: discovery::without(old(self)@.manual_peers, at),
                ..old(self)@
            }),
    {
        discovery::forget_manual_peer(&mut self.manual_peers, at);
    }

    /// The port announcements go to. Needed when someone types in an address
    /// without one.
    pub fn discovery_port(&self) -> (r: u16)
        ensures
            r == settings_in_force(self@.doc).discovery_port,
    {
        match &self.doc {
            Some(doc) => doc.settings.value.discovery_port,
            None => 47451,
        }
    }

    /// The port that connections are accepted on.
    pub fn transport_port(&self) -> (r: u16)
        ensures
            r == settings_in_force(self@.doc).transport_port,
    {
        match &self.doc {
            Some(doc) => doc.settings.value.transport_port,
            None => 47452,
        }
    }

    /// Gives up this machine's configuration to join the one `machine_id` is in.
    ///
    /// The only way out when both computers created their own workspace and then
    /// paired: they can authenticate each other perfectly and still never
    /// connect, because two workspaces cannot merge.
    ///
    /// Destructive, and deliberately so: the local layout and settings are
    /// replaced by the other machine's.
    pub fn adopt_configuration_of(&mut self, machine_id: MachineId, their_key: PubKey)
        ensures
            final(self)@ == adopted(old(self)@, machine_id, their_key),
    {
        self.doc = None;
        let _ = self.online.remove(&machine_id);
        // Keep trusting them across the gap: with no document there is nothing to
        // check the next connection against, and this is the decision that says
        // they are welcome.
        let _ = self.pending_trust.insert(machine_id, their_key);
    }

    /// Switches input sharing on or off, given this machine's preferences. Returns
    /// the preferences to write and then what is to be started or stopped.
    ///
    /// The choice is written down before it is acted on, and whether or not it
    /// changes anything right now. If starting capture fails, the machine still
    /// wants to share, and should try again next launch rather than silently forget.
    ///
    /// Off by default. While it is on, this process can swallow the local
    /// keyboard. Sharing counts as on only once it was started: see
    /// [`Agent::sharing_started`].
    pub fn set_sharing(&mut self, enabled: bool, prefs: LocalPrefs) -> (r: SharingSwitch)
        ensures
            switches(old(self)@, enabled, prefs, final(self)@, r),
    {
        let remember = prefs.remember_sharing(enabled);
        let change = if enabled == self.sharing {
            SharingChange::Keep
        } else if enabled {
            SharingChange::Start
        } else {
            self.sharing = false;
            SharingChange::Stop
        };
        SharingSwitch { remember, change }
    }

    /// Capture and routing are running.
    pub fn sharing_started(&mut self)
        ensures
            final(self)@ == (AgentView { sharing: true, ..old(self)@ }),
    {
        self.sharing = true;
    }

    /// Whether this machine is sharing its keyboard and mouse.
    pub fn is_sharing(&self) -> (r: bool)
        ensures
            r == self@.sharing,
    {
        self.sharing
    }

    /// Takes in what the network says, at a given time.
    pub fn on_net_event(&mut self, event: Event, now: u64) -> (r: Reaction)
        ensures
            reacts(old(self)@, event, now, final(self)@, r),
    {
        match event {
            Event::DifferentWorkspaces {
                machine_id,
                display_name: _,
                identity_key,
                their_workspace,
                their_size,
            } => {
                let gives_way = match &self.doc {
                    Some(doc) => should_yield(doc, their_workspace, their_size),
                    None => false,
                };
                if gives_way {
                    Reaction::Adopt { machine_id, identity_key }
                } else {
                    Reaction::Nothing
                }
            },
            Event::Online { machine_id } => {
                let _ = self.online.insert(machine_id);
                let _ = self.candidates.remove(&machine_id);
                Reaction::Changed
            },
            Event::Offline { machine_id, reason: _ } => {
                let _ = self.online.remove(&machine_id);
                Reaction::Changed
            },
            Event::Candidate {
                machine_id,
                display_name,
                identity_key,
                workspace_id,
                addr,
                invited_us,
            } => {
                let _ = self.candidates.insert(
                    machine_id,
                    Candidate {
                        machine_id,
                        display_name,
                        identity_key,
                        invited_us,
                        addr,
                        last_seen_ms: now,
                        has_workspace: workspace_id.is_some(),
                    },
                );
                Reaction::Changed
            },
            Event::Rejected { machine_id, identity_key, addr } => {
                // Worth surfacing rather than burying: from the user's side this
                // is "the other computer has not paired me back yet".
                if !self.candidates.contains_key(&machine_id) {
                    let _ = self.candidates.insert(
                        machine_id,
                        Candidate {
                            machine_id,
                            display_name: String::from_str("Unknown computer"),
                            identity_key,
                            invited_us: false,
                            addr,
                            last_seen_ms: now,
                            has_workspace: true,
                        },
                    );
                }
                Reaction::Changed
            },
            // The merge was persisted and announced already; nothing to add here.
            Event::WorkspaceChanged => Reaction::Nothing,
            Event::Sighted { machine_id: _ } => Reaction::Nothing,
            Event::Connecting { machine_id: _ } => Reaction::Nothing,
        }
    }
}

/// Whether a machine is allowed in with a key.
pub open spec fn trusts(agent: AgentView, machine_id: MachineId, key: Seq<u8>) -> bool {
    let paired = match agent.doc {
        Some(doc) => doc.record(machine_id),
        None => None,
    };
    match paired {
        Some(record) => record.public_key == key,
        None => agent.pending_trust.contains_key(machine_id) && agent.pending_trust[machine_id]@
            == key,
    }
}

/// Where a newly paired machine is put: right of everything that is placed.
pub open spec fn free_spot(doc: Option<DocView>) -> Point {
    match doc {
        Some(doc) => match rightmost(doc.present()) {
            Some(right) => Point { x: right as i32, y: 0 },
            None => Point { x: 0, y: 0 },
        },
        None => Point { x: 0, y: 0 },
    }
}

/// The settings of the workspace, or those of a new one where there is none.
pub open spec fn settings_in_force(doc: Option<DocView>) -> SettingsView {
    match doc {
        Some(doc) => doc.settings.value,
        None => model::default_settings(),
    }
}

/// How two states of the agent and an answer relate if the second state comes of a
/// request to pair.
pub open spec fn pairs(
    before: AgentView,
    after: AgentView,
    r: AgentResult<Pairing>,
    machine_id: MachineId,
    now: u64,
) -> bool {
    if !before.candidates.contains_key(machine_id) {
        r == Err::<Pairing, AgentError>(AgentError::UnknownMachine(machine_id)) && after == before
    } else {
        let candidate = before.candidates[machine_id];
        if before.doc is None {
            &&& r == Ok::<Pairing, AgentError>(Pairing::Waiting)
            &&& after == (AgentView {
                pending_trust: before.pending_trust.insert(
                    candidate.machine_id,
                    candidate.identity_key,
                ),
                ..before
            })
        } else {
            &&& r matches Ok(Pairing::Paired(update))
            &&& after.candidates == before.candidates.remove(machine_id)
            &&& edits(
                before,
                AgentView { candidates: before.candidates, ..after },
                Ok::<WorkspaceUpdate, AgentError>(update),
                OpView::UpsertMachine(admitted(candidate, free_spot(before.doc), now)),
            )
        }
    }
}

/// How two states of the agent and an answer relate if the second state comes of
/// publishing this machine's displays and platform.
pub open spec fn publishes(
    before: AgentView,
    after: AgentView,
    r: AgentResult<Option<WorkspaceUpdate>>,
    displays: Seq<DisplayView>,
    platform: Platform,
) -> bool {
    let found = match before.doc {
        Some(doc) => doc.record(before.me),
        None => None,
    };
    match found {
        None => r == Ok::<Option<WorkspaceUpdate>, AgentError>(None) && after == before,
        Some(record) => {
            let same = model::displays_equal(record.displays, displays);
            if same && record.platform == platform {
                r == Ok::<Option<WorkspaceUpdate>, AgentError>(None) && after == before
            } else {
                &&& r matches Ok(Some(update))
                &&& edits(
                    before,
                    after,
                    Ok::<WorkspaceUpdate, AgentError>(update),
                    OpView::UpsertMachine(
                        RecordView {
                            displays: if same {
                                record.displays
                            } else {
                                displays
                            },
                            platform,
                            ..record
                        },
                    ),
                )
            }
        },
    }
}

/// How two states of the agent and a reaction relate if the second state comes of a
/// network event.
pub open spec fn reacts(
    before: AgentView,
    event: Event,
    now: u64,
    after: AgentView,
    r: Reaction,
) -> bool {
    match event {
        Event::DifferentWorkspaces {
            machine_id,
            display_name,
            identity_key,
            their_workspace,
            their_size,
        } => {
            &&& after == before
            &&& r == (match before.doc {
                Some(doc) if yields(
                    doc.present().len() as u32,
                    doc.workspace_id,
                    their_size,
                    their_workspace,
                ) => Reaction::Adopt { machine_id, identity_key },
                _ => Reaction::Nothing,
            })
        },
        Event::Online { machine_id } => {
            &&& after == (AgentView {
                online: before.online.insert(machine_id),
                candidates: before.candidates.remove(machine_id),
                ..before
            })
            &&& r == Reaction::Changed
        },
        Event::Offline { machine_id, reason } => {
            &&& after == (AgentView { online: before.online.remove(machine_id), ..before })
            &&& r == Reaction::Changed
        },
        Event::Candidate {
            machine_id,
            display_name,
            identity_key,
            workspace_id,
            addr,
            invited_us,
        } => {
            &&& after == (AgentView {
                candidates: before.candidates.insert(
                    machine_id,
                    Candidate {
                        machine_id,
                        display_name,
                        identity_key,
                        invited_us,
                        addr,
                        last_seen_ms: now,
                        has_workspace: workspace_id is Some,
                    },
                ),
                ..before
            })
            &&& r == Reaction::Changed
        },
        Event::Rejected { machine_id, identity_key, addr } => {
            let shown = after.candidates[machine_id];
            &&& before.candidates.contains_key(machine_id) ==> after == before
            &&& !before.candidates.contains_key(machine_id) ==> {
                &&& after == (AgentView {
                    candidates: before.candidates.insert(machine_id, shown),
                    ..before
                })
                &&& shown == (Candidate {
                    machine_id,
                    display_name: shown.display_name,
                    identity_key,
                    invited_us: false,
                    addr,
                    last_seen_ms: now,
                    has_workspace: true,
                })
                &&& shown.display_name@ == "Unknown computer"@
            }
            &&& r == Reaction::Changed
        },
        Event::WorkspaceChanged => after == before && r == Reaction::Nothing,
        Event::Sighted { machine_id } => after == before && r == Reaction::Nothing,
        Event::Connecting { machine_id } => after == before && r == Reaction::Nothing,
    }
}

/// Whether this machine should give up its configuration for the peer's.
///
/// Both sides run this on the same two numbers and exactly one of them yields:
/// the smaller configuration gives way, and an even split is broken by
/// identifier. It is arbitrary, which is the point: any rule works as long as
/// both compute it identically and neither asks a person to arbitrate something
/// that is an artifact of how the data is stored.
pub fn should_yield(ours: &WorkspaceDoc, their_workspace: WorkspaceId, their_size: u32) -> (r: bool)
    ensures
        r == yields(
            ours@.present().len() as u32,
            ours.workspace_id,
            their_size,
            their_workspace,
        ),
{
    let present = ours.machines_present();
    assert(document::records_view(present@).len() == present@.len());
    let our_size: u32 = present.len() as u32;
    our_size < their_size || (our_size == their_size && ours.workspace_id > their_workspace)
}

/// The screen of a machine that cannot say what screens it has.
pub open spec fn assumed_display() -> DisplayView {
    DisplayView {
        id: "assumed"@,
        name: "Screen (not detected)"@,
        x: 0,
        y: 0,
        width: 1920,
        height: 1080,
        scale: Scale { bits: 0x3f80_0000 },
        primary: true,
    }
}

/// This machine's screens, or one stand-in when the platform cannot say.
///
/// A machine with no screens has no size, and a machine with no size cannot be
/// placed on the canvas or have a pointer routed to it: it is in the workspace
/// and completely unusable. That is the state every platform without display
/// enumeration would be in, so they get a rectangle and an honest label instead.
pub fn local_displays(found: Option<Vec<DisplayInfo>>) -> (r: Vec<DisplayInfo>)
    ensures
        model::displays_view(r@) == screens(optional_displays(found)),
{
    if let Some(displays) = found {
        if displays.len() > 0 {
            return displays;
        }
    }
    let mut out: Vec<DisplayInfo> = Vec::new();
    out.push(
        DisplayInfo {
            id: String::from_str("assumed"),
            name: String::from_str("Screen (not detected)"),
            x: 0,
            y: 0,
            width: 1920,
            height: 1080,
            scale: Scale::one(),
            primary: true,
        },
    );
    assert(model::displays_view(out@) =~= seq![assumed_display()]);
    out
}

/// This machine as a record, with whatever the operating system can tell us about
/// it right now.
pub fn local_record(
    identity: &Identity,
    computer_name: String,
    platform: Platform,
    displays: Vec<DisplayInfo>,
    now: u64,
) -> (r: MachineRecord)
    ensures
        r@ == own_record(
            identity.machine_id,
            identity::public_key_of(identity.secret()),
            computer_name@,
            platform,
            model::displays_view(displays@),
            now,
        ),
{
    MachineRecord {
        id: identity.machine_id,
        display_name: computer_name,
        platform,
        public_key: identity.public_key(),
        position: Point::new(0, 0),
        displays,
        input: InputAssignment { provides_keyboard: true, provides_mouse: true },
        paired_at_ms: now,
    }
}

/// What this computer is called, given what the environment says: the first of the
/// two that is set, without the whitespace around it.
///
/// It ends up as the name the *other* machine records when it admits this one,
/// so a technical placeholder here becomes a permanent label over there.
pub fn computer_name(computer: Option<String>, host: Option<String>) -> (r: String)
    ensures
        r@ == called(
            first_set(
                match computer {
                    Some(name) => Some(name@),
                    None => None,
                },
                match host {
                    Some(name) => Some(name@),
                    None => None,
                },
            ),
        ),
{
    let set = match computer {
        Some(name) => Some(name),
        None => host,
    };
    match set {
        Some(name) => {
            let name = text::trim(name.as_str());
            if name.as_str().unicode_len() > 0 {
                name
            } else {
                String::from_str("Unnamed computer")
            }
        },
        None => String::from_str("Unnamed computer"),
    }
}

/// The first of two names that is set.
pub open spec fn first_set(computer: Option<Seq<char>>, host: Option<Seq<char>>) -> Option<
    Seq<char>,
> {
    match computer {
        Some(name) => Some(name),
        None => host,
    }
}

/// What a computer is called whose environment names it so.
pub open spec fn called(set: Option<Seq<char>>) -> Seq<char> {
    match set {
        Some(name) if text::trimmed(name).len() > 0 => text::trimmed(name),
        _ => "Unnamed computer"@,
    }
}

/// A fresh machine is usable without being set up: the configuration it starts with
/// holds this machine, under the computer's name, with somewhere for a cursor to
/// be.
pub proof fn a_fresh_machine_is_usable(
    workspace_id: WorkspaceId,
    stamp: Stamp,
    id: MachineId,
    key: Seq<u8>,
    set: Option<Seq<char>>,
    platform: Platform,
    found: Option<Seq<DisplayView>>,
    now: u64,
)
    ensures
        ({
            let record = own_record(id, key, called(set), platform, screens(found), now);
            let doc = document::founded(workspace_id, called(set), record, stamp);
            &&& doc.record(id) == Some(record)
            &&& record.display_name.len() > 0
            &&& record.bounds() is Some
        }),
{
    reveal_strlit("Unnamed computer");
    let shown = screens(found);
    assert(shown.len() > 0);
    reveal_with_fuel(model::bounds_of, 2);
}

/// The sharing switch is remembered, on this launch and on the next, whether or not
/// capture could be started. Sharing is on afterwards exactly if that was asked for
/// and capture runs, and asking for what is in force changes and starts nothing.
pub proof fn the_sharing_switch_is_remembered(
    parse: spec_fn(Seq<u8>) -> Result<LocalPrefs>,
    disk: Disk,
    before: AgentView,
    enabled: bool,
    after: AgentView,
    r: SharingSwitch,
    content: Seq<u8>,
    captured: bool,
)
    requires
        switches(before, enabled, store::preferred(store::loaded(parse, disk)), after, r),
        r.remember matches Some(prefs) ==> parse(content) == Ok::<LocalPrefs, Error>(prefs),
    ensures
        store::preferred(
            store::loaded(parse, remembered(disk, r.remember, content)),
        ).sharing == enabled,
        ({
            let end = settled(after, r.change, captured);
            let failed = r.change == SharingChange::Start && !captured;
            &&& !failed ==> end.sharing == enabled
            &&& failed ==> !end.sharing
            &&& before.sharing == enabled ==> r.change == SharingChange::Keep && end == before
        }),
{
}

/// Of two machines in different workspaces, both of which know the sizes and the
/// identifiers of both, exactly one gives way.
pub proof fn exactly_one_side_yields(
    a_size: u32,
    a_workspace: WorkspaceId,
    b_size: u32,
    b_workspace: WorkspaceId,
)
    requires
        a_workspace != b_workspace,
    ensures
        yields(a_size, a_workspace, b_size, b_workspace) != yields(
            b_size,
            b_workspace,
            a_size,
            a_workspace,
        ),
{
}

/// The bigger configuration always survives.
pub proof fn the_bigger_configuration_survives(
    a_size: u32,
    a_workspace: WorkspaceId,
    b_size: u32,
    b_workspace: WorkspaceId,
)
    requires
        a_size < b_size,
    ensures
        yields(a_size, a_workspace, b_size, b_workspace),
        !yields(b_size, b_workspace, a_size, a_workspace),
{
}

/// Nobody is let in but a machine of the workspace with the key that it was paired
/// with, or one that this computer decided to join, with the key that it had then.
pub proof fn only_admitted_keys_are_trusted(agent: AgentView, machine_id: MachineId, key: Seq<u8>)
    requires
        trusts(agent, machine_id, key),
    ensures
        (agent.doc matches Some(doc) && doc.record(machine_id) matches Some(record)
            && record.public_key == key) || (agent.pending_trust.contains_key(machine_id)
            && agent.pending_trust[machine_id]@ == key),
{
}

/// A machine that the workspace records is let in only with its recorded key,
/// whatever was provisionally trusted before.
pub proof fn the_record_outranks_provisional_trust(
    agent: AgentView,
    machine_id: MachineId,
    record: RecordView,
    key: Seq<u8>,
)
    requires
        agent.doc is Some,
        (agent.doc->0).record(machine_id) == Some(record),
    ensures
        trusts(agent, machine_id, key) <==> record.public_key == key,
{
}

/// A machine that was paired is trusted with the key it announced, and with no
/// other; one that was asked to be joined likewise.
pub proof fn pairing_trusts_the_announced_key(
    before: AgentView,
    after: AgentView,
    r: AgentResult<Pairing>,
    machine_id: MachineId,
    now: u64,
    key: Seq<u8>,
)
    requires
        pairs(before, after, r, machine_id, now),
        before.candidates.contains_key(machine_id),
        before.candidates[machine_id].machine_id == machine_id,
    ensures
        trusts(after, machine_id, key) <==> key == before.candidates[machine_id].identity_key@,
{
}

/// A machine that was removed from the workspace is not let in any more, unless
/// the user decides to join it.
pub proof fn a_removed_machine_is_not_trusted(agent: AgentView, machine_id: MachineId, key: Seq<u8>)
    requires
        agent.doc is Some,
        (agent.doc->0).removed(machine_id),
        !agent.pending_trust.contains_key(machine_id),
    ensures
        !trusts(agent, machine_id, key),
{
}

/// A machine going offline changes neither the document nor anybody's trust: it
/// keeps its place.
pub proof fn going_offline_changes_no_configuration(
    before: AgentView,
    machine_id: MachineId,
    reason: String,
    now: u64,
    after: AgentView,
    r: Reaction,
)
    requires
        reacts(before, Event::Offline { machine_id, reason }, now, after, r),
    ensures
        after.doc == before.doc,
        after.pending_trust == before.pending_trust,
        !after.online.contains(machine_id),
{
}

proof fn rightmost_bounds(records: Seq<RecordView>, k: int)
    requires
        0 <= k < records.len(),
        records[k].bounds() is Some,
    ensures
        rightmost(records) is Some,
        (records[k].bounds()->0).right() <= rightmost(records)->0,
    decreases records.len(),
{
    if k < records.len() - 1 {
        assert(records.drop_last()[k] == records[k]);
        rightmost_bounds(records.drop_last(), k);
    }
}

/// A newly paired machine is put clear of every machine that is placed already.
pub proof fn free_spot_is_clear(doc: DocView, k: int)
    requires
        0 <= k < doc.present().len(),
        doc.present()[k].bounds() is Some,
    ensures
        !(doc.present()[k].bounds()->0).covers(free_spot(Some(doc))),
{
    rightmost_bounds(doc.present(), k);
    rightmost_fits(doc.present());
}

proof fn rightmost_fits(records: Seq<RecordView>)
    ensures
        rightmost(records) matches Some(right) ==> i32::MIN <= right <= i32::MAX,
    decreases records.len(),
{
    if records.len() > 0 {
        rightmost_fits(records.drop_last());
    }
}

/// A newly paired machine is put next to the desk, not away from it: right where the
/// rightmost machine ends, or at the origin where none is placed.
pub proof fn free_spot_is_next_to_the_desk(doc: DocView)
    ensures
        free_spot(Some(doc)).y == 0,
        free_spot(Some(doc)).x == 0 || exists|k: int|
            0 <= k < doc.present().len() && ((#[trigger] doc.present()[k]).bounds() matches Some(b)
                && b.right() == free_spot(Some(doc)).x),
        free_spot(None) == (Point { x: 0, y: 0 }),
{
    rightmost_fits(doc.present());
    if rightmost(doc.present()) is Some {
        rightmost_is_an_edge(doc.present());
    }
}

proof fn rightmost_is_an_edge(records: Seq<RecordView>)
    requires
        rightmost(records) is Some,
    ensures
        exists|k: int|
            0 <= k < records.len() && ((#[trigger] records[k]).bounds() matches Some(b)
                && b.right() == rightmost(records)->0),
    decreases records.len(),
{
    let rest = records.drop_last();
    let last = records.len() - 1;
    assert(records[last] == records.last());
    if rightmost(rest) is Some {
        rightmost_is_an_edge(rest);
        let k = choose|k: int|
            0 <= k < rest.len() && ((#[trigger] rest[k]).bounds() matches Some(b) && b.right()
                == rightmost(rest)->0);
        assert(rest[k] == records[k]);
    }
}

/// Exactly the other machines of the workspace that are not connected are invited.
pub proof fn absent_members_are_invited(
    records: Seq<RecordView>,
    me: MachineId,
    online: Set<MachineId>,
    id: MachineId,
)
    ensures
        absent_among(records, me, online).contains(id) <==> id != me && !online.contains(id)
            && exists|k: int| 0 <= k < records.len() && (#[trigger] records[k]).id == id,
    decreases records.len(),
{
    let all = absent_among(records, me, online);
    if records.len() > 0 {
        let rest = records.drop_last();
        let last = records.len() - 1;
        let init = absent_among(rest, me, online);
        assert(records[last] == records.last());
        absent_members_are_invited(rest, me, online, id);
        if init.contains(id) {
            let k = choose|k: int| 0 <= k < init.len() && init[k] == id;
            assert(all[k] == id);
            let m = choose|m: int| 0 <= m < rest.len() && (#[trigger] rest[m]).id == id;
            assert(records[m].id == id);
        }
        if all.contains(id) {
            let k = choose|k: int| 0 <= k < all.len() && all[k] == id;
            if k < init.len() {
                assert(init[k] == id);
            } else {
                assert(records[last].id == id);
            }
        }
        if id != me && !online.contains(id) {
            if records.last().id == id {
                assert(all[init.len() as int] == id);
            }
            if exists|m: int| 0 <= m < records.len() && (#[trigger] records[m]).id == id {
                let m = choose|m: int| 0 <= m < records.len() && (#[trigger] records[m]).id == id;
                if m < last {
                    assert(rest[m].id == id);
                }
            }
        }
    }
}

/// A machine that connects is online and is no candidate any more; one that
/// disconnects is not online; nobody else's state is touched, and neither is the
/// configuration.
pub proof fn who_is_online_is_who_is_connected(
    before: AgentView,
    machine_id: MachineId,
    reason: String,
    now: u64,
    after: AgentView,
    r: Reaction,
    other: MachineId,
)
    ensures
        reacts(before, Event::Online { machine_id }, now, after, r) ==> {
            &&& after.online.contains(machine_id)
            &&& !after.candidates.contains_key(machine_id)
            &&& other != machine_id ==> (after.online.contains(other) <==> before.online.contains(
                other,
            )) && (after.candidates.contains_key(other) <==> before.candidates.contains_key(other))
            &&& after.doc == before.doc && after.pending_trust == before.pending_trust
            &&& r is Changed
        },
        reacts(before, Event::Offline { machine_id, reason }, now, after, r) ==> {
            &&& !after.online.contains(machine_id)
            &&& other != machine_id ==> (after.online.contains(other) <==> before.online.contains(
                other,
            ))
            &&& after.candidates == before.candidates
            &&& after.doc == before.doc
            &&& r is Changed
        },
{
}

/// A machine that announces itself without being paired can be paired with, under the
/// name and the key that it announced, and is trusted no more than before.
pub proof fn candidates_are_offered_as_they_announce_themselves(
    before: AgentView,
    machine_id: MachineId,
    display_name: String,
    identity_key: PubKey,
    workspace_id: Option<WorkspaceId>,
    addr: Endpoint,
    invited_us: bool,
    now: u64,
    after: AgentView,
    r: Reaction,
    who: MachineId,
    key: Seq<u8>,
)
    requires
        reacts(
            before,
            Event::Candidate {
                machine_id,
                display_name,
                identity_key,
                workspace_id,
                addr,
                invited_us,
            },
            now,
            after,
            r,
        ),
    ensures
        after.candidates.contains_key(machine_id),
        ({
            let shown = after.candidates[machine_id];
            &&& shown.machine_id == machine_id
            &&& shown.display_name@ == display_name@
            &&& shown.identity_key@ == identity_key@
            &&& shown.addr == addr
            &&& shown.last_seen_ms == now
            &&& shown.has_workspace <==> workspace_id is Some
            &&& shown.invited_us <==> invited_us
        }),
        trusts(after, who, key) <==> trusts(before, who, key),
        who != machine_id ==> (after.candidates.contains_key(who)
            <==> before.candidates.contains_key(who)),
        after.online == before.online && after.doc == before.doc,
{
}

/// A machine that was refused can be paired with from here, unless it was on offer
/// already, and is trusted no more than before.
pub proof fn a_refused_machine_can_be_paired_with(
    before: AgentView,
    machine_id: MachineId,
    identity_key: PubKey,
    addr: Endpoint,
    now: u64,
    after: AgentView,
    r: Reaction,
    who: MachineId,
    key: Seq<u8>,
)
    requires
        reacts(before, Event::Rejected { machine_id, identity_key, addr }, now, after, r),
    ensures
        after.candidates.contains_key(machine_id),
        before.candidates.contains_key(machine_id) ==> after.candidates[machine_id]
            == before.candidates[machine_id],
        !before.candidates.contains_key(machine_id) ==> after.candidates[machine_id].identity_key@
            == identity_key@ && after.candidates[machine_id].machine_id == machine_id
            && after.candidates[machine_id].addr == addr,
        trusts(after, who, key) <==> trusts(before, who, key),
        after.doc == before.doc && after.online == before.online,
{
}

/// Of two machines that set up on their own, the one that gives way ends up with the
/// other's configuration: it trusts the other with the key that it has proved, gives up
/// its own, and takes over the next document it is sent, whole.
pub proof fn giving_way_ends_in_the_other_workspace(
    before: AgentView,
    machine_id: MachineId,
    display_name: String,
    identity_key: PubKey,
    their_workspace: WorkspaceId,
    their_size: u32,
    now: u64,
    noted: AgentView,
    incoming: DocView,
    after: AgentView,
    merged: Result<bool>,
    key: Seq<u8>,
)
    requires
        before.doc is Some,
        (before.doc->0).present().len() < their_size,
        reacts(
            before,
            Event::DifferentWorkspaces {
                machine_id,
                display_name,
                identity_key,
                their_workspace,
                their_size,
            },
            now,
            noted,
            Reaction::Adopt { machine_id, identity_key },
        ),
        merges(adopted(noted, machine_id, identity_key), incoming, after, merged),
    ensures
        trusts(adopted(noted, machine_id, identity_key), machine_id, key) <==> key
            == identity_key@,
        !adopted(noted, machine_id, identity_key).online.contains(machine_id),
        merged == Ok::<bool, Error>(true),
        after.doc == Some(incoming),
        incoming.record(machine_id) matches Some(record) ==> (trusts(after, machine_id, key)
            <==> key == record.public_key),
        incoming.record(machine_id) is None ==> (trusts(after, machine_id, key) <==> key
            == identity_key@),
{
}

/// A document of another workspace never changes anything, and one of this workspace
/// never takes anybody's place: every machine it does not know of stays as it was.
pub proof fn documents_are_merged_inside_the_workspace(
    before: AgentView,
    incoming: DocView,
    after: AgentView,
    r: Result<bool>,
    id: MachineId,
)
    requires
        merges(before, incoming, after, r),
        before.doc is Some,
    ensures
        (before.doc->0).workspace_id != incoming.workspace_id <==> r is Err,
        r is Err ==> after == before,
        r is Ok ==> after.doc is Some && (after.doc->0).workspace_id == (
        before.doc->0).workspace_id,
        !incoming.machines.contains_key(id) ==> (after.doc->0).record(id) == (
        before.doc->0).record(id),
        r is Ok && !(before.doc->0).machines.contains_key(id) ==> (after.doc->0).record(id)
            == incoming.record(id),
        after.online == before.online && after.sharing == before.sharing,
{
}

/// A machine that is removed is out: it is not in the workspace, not online, and not
/// let in with any key unless the user asked to join it. The others stay, and this
/// machine cannot be removed from here.
pub proof fn a_machine_that_is_removed_is_out(
    before: AgentView,
    machine_id: MachineId,
    after: AgentView,
    r: AgentResult<WorkspaceUpdate>,
    key: Seq<u8>,
    other: MachineId,
)
    requires
        unpairs(before, machine_id, after, r),
        before.doc is Some,
    ensures
        r is Ok <==> machine_id != before.me,
        r is Ok ==> {
            &&& (after.doc->0).record(machine_id) is None
            &&& (after.doc->0).removed(machine_id)
            &&& !after.online.contains(machine_id)
            &&& !before.pending_trust.contains_key(machine_id) ==> !trusts(after, machine_id, key)
            &&& other != machine_id ==> (after.doc->0).record(other) == (before.doc->0).record(
                other,
            ) && (after.online.contains(other) <==> before.online.contains(other))
        },
        r is Err ==> after == before,
{
}

/// What is published of this machine is in the workspace afterwards, and nothing else of
/// it is changed: neither its name, its place, its key nor what it contributes. Where
/// nothing is new, nobody is told.
pub proof fn local_facts_are_published(
    before: AgentView,
    after: AgentView,
    r: AgentResult<Option<WorkspaceUpdate>>,
    displays: Seq<DisplayView>,
    platform: Platform,
    record: RecordView,
)
    requires
        publishes(before, after, r, displays, platform),
        before.doc matches Some(doc) && doc.record(before.me) == Some(record) && record.id
            == before.me,
    ensures
        r is Ok,
        after.doc is Some,
        (after.doc->0).record(before.me) is Some,
        ({
            let shown = (after.doc->0).record(before.me)->0;
            &&& shown.platform == platform
            &&& shown.displays == displays || (model::displays_equal(record.displays, displays)
                && shown.displays == record.displays)
            &&& shown.display_name == record.display_name
            &&& shown.position == record.position
            &&& shown.public_key == record.public_key
            &&& shown.input == record.input
            &&& shown.id == record.id
        }),
        r->Ok_0 is None <==> model::displays_equal(record.displays, displays) && record.platform
            == platform,
        r->Ok_0 is None ==> after == before,
{
}

/// A machine without a configuration announces itself on ports 47451 and 47452, as a new
/// one does; the pointer stops at an offline machine, and the clipboard is shared.
pub proof fn a_new_configuration_has_the_well_known_ports()
    ensures
        settings_in_force(None).discovery_port == 47451,
        settings_in_force(None).transport_port == 47452,
        settings_in_force(None).offline_edge is Block,
        settings_in_force(None).clipboard_sync,
        settings_in_force(None).autostart,
{
}

/// A computer always has a name: its own where that is set, the host's where only that
/// is, without whitespace around it, and one that says so where neither is or it is
/// blank.
pub proof fn a_computer_always_has_a_name(computer: Seq<char>, host: Option<Seq<char>>)
    ensures
        text::trimmed(computer).len() > 0 ==> called(first_set(Some(computer), host))
            == text::trimmed(computer),
        first_set(None, host) == host,
        called(first_set(Some(computer), host)).len() > 0,
        called(first_set(None, host)).len() > 0,
        called(None).len() > 0,
{
    reveal_strlit("Unnamed computer");
}

/// This machine's own record is of this machine: its key, its name, its screens; it
/// stands at the origin and contributes both its keyboard and its mouse.
pub proof fn this_machine_contributes_its_input(
    id: MachineId,
    key: Seq<u8>,
    name: Seq<char>,
    platform: Platform,
    displays: Seq<DisplayView>,
    now: u64,
)
    ensures
        ({
            let record = own_record(id, key, name, platform, displays, now);
            &&& record.id == id
            &&& record.public_key == key
            &&& record.display_name == name
            &&& record.platform == platform
            &&& record.displays == displays
            &&& record.input.provides_keyboard && record.input.provides_mouse
            &&& record.position.x == 0 && record.position.y == 0
        }),
{
}

/// A machine that was paired is in the workspace under the name and the key that it
/// announced, next to the desk, and is on offer no more; what it is and has it says
/// itself once connected, and until then nothing of it is taken as given. Everybody else
/// stays as they were.
pub proof fn a_paired_machine_is_taken_in_as_it_announced_itself(
    before: AgentView,
    after: AgentView,
    r: AgentResult<Pairing>,
    machine_id: MachineId,
    now: u64,
    other: MachineId,
)
    requires
        pairs(before, after, r, machine_id, now),
        before.candidates.contains_key(machine_id),
        before.candidates[machine_id].machine_id == machine_id,
        before.doc is Some,
        other != machine_id,
    ensures
        ({
            let candidate = before.candidates[machine_id];
            let record = (after.doc->0).record(machine_id)->0;
            &&& (after.doc->0).record(machine_id) is Some
            &&& record.id == machine_id
            &&& record.display_name == candidate.display_name@
            &&& record.public_key == candidate.identity_key@
            &&& record.platform is Other
            &&& record.displays.len() == 0
            &&& !record.input.provides_keyboard && !record.input.provides_mouse
            &&& record.position == free_spot(before.doc)
            &&& record.paired_at_ms == now
        }),
        !after.candidates.contains_key(machine_id),
        after.candidates.contains_key(other) <==> before.candidates.contains_key(other),
        (after.doc->0).record(other) == (before.doc->0).record(other),
        after.online == before.online,
        r matches Ok(Pairing::Paired(_)),
{
}

/// The last announcement of who has the pointer is taken, once.
pub proof fn the_last_announcement_is_taken_once(
    agent: AgentView,
    first: MachineId,
    last: MachineId,
)
    ensures
        announcement_taken(announced(announced(agent, first), last)).1 == Some(last),
        announcement_taken(announcement_taken(announced(agent, last)).0).1 is None,
        announced(agent, last).cursor_owner == agent.cursor_owner,
        announced(agent, last).doc == agent.doc && announced(agent, last).online == agent.online,
{
}

/// Where the pointer is shown to be is where the sharing loop last said it was, and a
/// view is refreshed exactly when that changes.
pub proof fn where_the_pointer_is_is_shown(agent: AgentView, owner: Option<MachineId>)
    ensures
        owner_noted(agent, owner).0.cursor_owner == owner,
        owner_noted(agent, owner).1 <==> agent.cursor_owner != owner,
        !owner_noted(owner_noted(agent, owner).0, owner).1,
        owner_noted(agent, owner).0.announced_owner == agent.announced_owner,
{
}

/// A machine is called what the workspace calls it, and by the computer's own name only
/// until it is in one.
pub proof fn the_workspace_names_this_machine(
    before: AgentView,
    name: Seq<char>,
    after: AgentView,
    r: AgentResult<WorkspaceUpdate>,
    computer_name: Seq<char>,
    record: RecordView,
)
    requires
        renames(before, name, after, r),
        before.doc matches Some(doc) && doc.record(before.me) == Some(record) && record.id
            == before.me,
    ensures
        known_as(before, computer_name) == record.display_name,
        known_as(AgentView { doc: None, ..before }, computer_name) == computer_name,
        r is Ok <==> text::trimmed(name).len() > 0,
        r is Ok ==> known_as(after, computer_name) == text::trimmed(name),
        r is Ok ==> ((after.doc->0).record(before.me) matches Some(renamed) && renamed == (
        RecordView { display_name: text::trimmed(name), ..record })),
        r is Err ==> after == before,
{
}

/// A peer's change is taken in only inside the workspace that it was made in, reported as
/// a change exactly if it is newer than what it is about, and touches nothing else.
pub proof fn changes_stay_inside_their_workspace(
    before: AgentView,
    update: UpdateView,
    after: AgentView,
    r: Result<bool>,
    id: MachineId,
)
    requires
        applies(before, update, after, r),
        before.doc is Some,
    ensures
        r is Err <==> (before.doc->0).workspace_id != update.workspace_id,
        r is Err ==> after == before,
        r is Ok ==> {
            &&& after.online == before.online && after.pending_trust == before.pending_trust
            &&& update.op matches OpView::SetName(name) ==> (r == Ok::<bool, Error>(true) ==> (
            after.doc->0).name.value == name) && (r == Ok::<bool, Error>(false) ==> (
            after.doc->0).name == (before.doc->0).name)
            &&& update.op matches OpView::SetSettings(settings) ==> (r == Ok::<bool, Error>(true)
                ==> (after.doc->0).settings.value == settings)
            &&& update.op matches OpView::UpsertMachine(record) ==> (r == Ok::<bool, Error>(true)
                ==> (after.doc->0).record(record.id) == Some(record)) && (id != record.id ==> (
            after.doc->0).record(id) == (before.doc->0).record(id))
            &&& update.op matches OpView::RemoveMachine(gone) ==> (r == Ok::<bool, Error>(true)
                ==> (after.doc->0).record(gone) is None) && (id != gone ==> (
            after.doc->0).record(id) == (before.doc->0).record(id))
        },
{
}

} // verus!
