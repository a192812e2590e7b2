//! Actually sharing the keyboard and mouse.
//!
//! One rule, and everything else follows from it:
//!
//! > **Exactly one machine owns the pointer, and every machine knows which.**
//!
//! - The owner moves its own pointer normally. Its keyboard types where it is.
//! - Every other machine swallows its local input and sends it to the owner
//!   instead, so *any* mouse and *any* keyboard drives the one pointer.
//! - Ownership only changes by announcement, never by a machine deciding on its
//!   own.
//!
//! If each machine tracked the cursor privately, after a crossing both would
//! believe they held it: one stays deaf to its own keyboard while the other
//! happily uses it, and the only way out is to walk the pointer back with the
//! mouse that appears dead.
//!
//! Input arriving from a peer goes through exactly the same path as local input.
//! Were it injected straight into the desktop, the owner would never see those
//! movements as movements, so a pointer being driven by the *other* machine's
//! mouse could never cross back.
//!
//! ## Why this module is careful
//!
//! While the pointer is on another machine, this process swallows every
//! keystroke on this one. If the loop around this module stops, the computer
//! stops responding to its own keyboard, and the user may not be able to click
//! the thing that would fix it. So the heartbeat is not bookkeeping. It is what
//! gives the keyboard back if the loop dies (see [`crate::watchdog`]), and it is
//! sent from inside the loop that would stop sending it.

use std::collections::HashSet;

use vstd::prelude::*;

use crate::geometry;
use crate::geometry::Point;
use crate::ids;
use crate::ids::MachineId;
use crate::input::InputEvent;
use crate::layout;
use crate::layout::Resolution;
use crate::model::{DocView, WorkspaceDoc};

verus! {

/// How often the loop tells the capture hook it is still alive, in milliseconds.
/// Comfortably under the hook's own limit, so a slow moment is not mistaken for a
/// crash.
pub const HEARTBEAT_MS: u64 = 400;

/// Motion is coalesced for this many milliseconds before being sent. Enough to
/// turn a burst of mouse samples into one frame, short enough that nobody feels
/// it.
pub const BATCH_MS: u64 = 4;

/// How far the tracked pointer may drift from the real one before it is
/// resynchronised. Something else moved it (a window taking focus, a game) and
/// the real one is right.
pub const DRIFT_LIMIT: i64 = 80;

/// Where an event came from. The routing is identical; only what happens to the
/// pointer afterwards differs.
#[derive(Clone, Copy, Debug, PartialEq, Eq, Structural)]
pub enum Source {
    /// This machine's own keyboard and mouse.
    Local,
    /// Another machine's, arriving over the network.
    Remote,
}

/// What routing calls for.
#[derive(Debug)]
pub enum RouterAction {
    /// Swallow this machine's own input, or let it through.
    Suppress(bool),
    /// Say where the pointer is to anything showing it.
    NoteOwner(MachineId),
    /// Tell every connected machine where the pointer is now.
    AnnounceOwner(MachineId),
    SendInput { to: MachineId, events: Vec<InputEvent> },
    /// Put the pointer at a point of this machine's own coordinates.
    PlaceCursor { x: i32, y: i32 },
    /// Replay an event on this machine.
    Inject(InputEvent),
    /// Look where the pointer is now, and say so with [`Router::on_pointer`].
    ReadPointer,
}

/// An action as contracts speak of it.
pub enum ActionView {
    Suppress(bool),
    NoteOwner(MachineId),
    AnnounceOwner(MachineId),
    SendInput { to: MachineId, events: Seq<InputEvent> },
    PlaceCursor { x: i32, y: i32 },
    Inject(InputEvent),
    ReadPointer,
}

impl View for RouterAction {
    type V = ActionView;

    open spec fn view(&self) -> ActionView {
        match self {
            RouterAction::Suppress(on) => ActionView::Suppress(*on),
            RouterAction::NoteOwner(id) => ActionView::NoteOwner(*id),
            RouterAction::AnnounceOwner(id) => ActionView::AnnounceOwner(*id),
            RouterAction::SendInput { to, events } => ActionView::SendInput {
                to: *to,
                events: events@,
            },
            RouterAction::PlaceCursor { x, y } => ActionView::PlaceCursor { x: *x, y: *y },
            RouterAction::Inject(event) => ActionView::Inject(*event),
            RouterAction::ReadPointer => ActionView::ReadPointer,
        }
    }
}

/// A list of actions as contracts speak of it.
pub open spec fn actions_view(actions: Seq<RouterAction>) -> Seq<ActionView> {
    Seq::new(actions.len(), |i: int| actions[i]@)
}

/// What this machine knows of the pointer.
#[derive(Debug)]
pub struct Router {
    pub local: MachineId,
    /// The machine that owns the pointer. Agreed by everybody.
    pub owner: MachineId,
    /// Where the pointer is, in workspace coordinates. Only meaningful on the
    /// owner; every other machine simply forwards.
    pub cursor: Point,
    /// Events waiting to go to the owner.
    pub pending: Vec<InputEvent>,
}

/// The router as contracts speak of it.
#[verifier::ext_equal]
pub struct RouterView {
    pub local: MachineId,
    pub owner: MachineId,
    pub cursor: Point,
    pub pending: Seq<InputEvent>,
}

impl View for Router {
    type V = RouterView;

    open spec fn view(&self) -> RouterView {
        RouterView {
            local: self.local,
            owner: self.owner,
            cursor: self.cursor,
            pending: self.pending@,
        }
    }
}

/// `p` moved by `(dx, dy)`, held inside the range of coordinates.
pub open spec fn shifted(p: Point, dx: int, dy: int) -> Point {
    Point {
        x: geometry::saturated(p.x + dx) as i32,
        y: geometry::saturated(p.y + dy) as i32,
    }
}

/// The workspace coordinates of the pointer of `local`, which stands at `pointer`
/// in that machine's own.
pub open spec fn pointer_in(
    doc: Option<DocView>,
    local: MachineId,
    pointer: Option<(i32, i32)>,
) -> Option<Point> {
    match (doc, pointer) {
        (Some(doc), Some((x, y))) => match doc.record(local) {
            Some(record) => Some(
                shifted(Point { x, y }, record.position.x as int, record.position.y as int),
            ),
            None => None,
        },
        _ => None,
    }
}

/// Whether two points are more than a nudge apart.
pub open spec fn drifted(a: Point, b: Point) -> bool {
    layout::abs(a.x - b.x) > DRIFT_LIMIT || layout::abs(a.y - b.y) > DRIFT_LIMIT
}

impl RouterView {
    /// The router of the machine `local` that has just started.
    pub open spec fn begun(local: MachineId, here: Option<Point>) -> RouterView {
        RouterView {
            local,
            owner: local,
            cursor: match here {
                Some(point) => point,
                None => Point { x: 0, y: 0 },
            },
            pending: Seq::empty(),
        }
    }

    /// The cursor where the pointer really is, if that is known.
    pub open spec fn at(self, here: Option<Point>) -> RouterView {
        match here {
            Some(point) => RouterView { cursor: point, ..self },
            None => self,
        }
    }

    /// Where motion starts from: the real pointer wins when it and the tracked one
    /// disagree by more than a nudge.
    pub open spec fn start(self, here: Option<Point>) -> Point {
        match here {
            Some(point) if drifted(point, self.cursor) => point,
            _ => self.cursor,
        }
    }

    /// The pointer taken for this machine.
    pub open spec fn taken(self, here: Option<Point>) -> RouterView {
        RouterView { owner: self.local, pending: Seq::empty(), ..self }.at(here)
    }

    /// After an announcement that the pointer is on `owner`.
    pub open spec fn told(self, owner: MachineId, here: Option<Point>) -> RouterView {
        if owner == self.owner {
            self
        } else if owner == self.local {
            RouterView { owner, ..self }.at(here)
        } else {
            RouterView { owner, pending: Seq::empty(), ..self }
        }
    }

    /// After events were sent on.
    pub open spec fn flushed(self) -> RouterView {
        RouterView { pending: Seq::empty(), ..self }
    }

    /// The events that are sent on, and to whom.
    pub open spec fn flush_actions(self) -> Seq<ActionView> {
        if self.pending.len() == 0 || self.owner == self.local {
            Seq::empty()
        } else {
            seq![ActionView::SendInput { to: self.owner, events: self.pending }]
        }
    }

    /// Where motion on the owner leads.
    pub open spec fn destination(
        self,
        doc: DocView,
        online: Set<MachineId>,
        here: Option<Point>,
        dx: i32,
        dy: i32,
    ) -> Resolution {
        layout::resolved(
            doc,
            online.insert(self.local),
            self.local,
            shifted(self.start(here), dx as int, dy as int),
        )
    }

    /// What is pending once the pointer crosses to `machine` at `point`: where it
    /// lands there comes last.
    pub open spec fn crossing(self, doc: DocView, machine: MachineId, point: Point) -> Seq<InputEvent> {
        match doc.record(machine) {
            Some(record) => {
                let at = shifted(point, -(record.position.x as int), -(record.position.y as int));
                self.pending.push(InputEvent::CursorEnter { x: at.x, y: at.y })
            },
            None => self.pending,
        }
    }

    /// After motion on the owner.
    pub open spec fn moved(
        self,
        doc: Option<DocView>,
        online: Set<MachineId>,
        here: Option<Point>,
        dx: i32,
        dy: i32,
    ) -> RouterView {
        match doc {
            None => self,
            Some(doc) => match self.destination(doc, online, here, dx, dy) {
                Resolution::Stay(point) => RouterView { cursor: point, ..self },
                Resolution::Move { machine, point } => RouterView {
                    cursor: point,
                    owner: machine,
                    pending: Seq::empty(),
                    ..self
                },
            },
        }
    }

    /// What motion on the owner calls for.
    pub open spec fn motion_actions(
        self,
        doc: Option<DocView>,
        online: Set<MachineId>,
        here: Option<Point>,
        dx: i32,
        dy: i32,
        source: Source,
    ) -> Seq<ActionView> {
        match doc {
            None => Seq::empty(),
            Some(doc) => match self.destination(doc, online, here, dx, dy) {
                Resolution::Stay(point) => match doc.record(self.local) {
                    Some(record) if source == Source::Remote => {
                        let at = shifted(
                            point,
                            -(record.position.x as int),
                            -(record.position.y as int),
                        );
                        seq![ActionView::PlaceCursor { x: at.x, y: at.y }]
                    },
                    _ => Seq::empty(),
                },
                Resolution::Move { machine, point } => {
                    let gone = RouterView {
                        owner: machine,
                        pending: self.crossing(doc, machine, point),
                        ..self
                    };
                    seq![ActionView::NoteOwner(machine), ActionView::Suppress(true)]
                        + gone.flush_actions() + seq![ActionView::AnnounceOwner(machine)]
                },
            },
        }
    }

    /// After one event.
    pub open spec fn after(
        self,
        event: InputEvent,
        source: Source,
        doc: Option<DocView>,
        online: Set<MachineId>,
        here: Option<Point>,
    ) -> RouterView {
        match event {
            InputEvent::CursorEnter { x: _, y: _ } if source == Source::Remote => if self.owner
                != self.local {
                RouterView { owner: self.local, pending: Seq::empty(), ..self }
            } else {
                self
            },
            _ => if self.owner != self.local {
                if source == Source::Local {
                    RouterView { pending: self.pending.push(event), ..self }
                } else {
                    self
                }
            } else {
                match event {
                    InputEvent::MouseMove { dx, dy } => self.moved(doc, online, here, dx, dy),
                    _ => self,
                }
            },
        }
    }

    /// What one event calls for.
    pub open spec fn actions(
        self,
        event: InputEvent,
        source: Source,
        doc: Option<DocView>,
        online: Set<MachineId>,
        here: Option<Point>,
    ) -> Seq<ActionView> {
        match event {
            InputEvent::CursorEnter { x, y } if source == Source::Remote => if self.owner
                != self.local {
                seq![
                    ActionView::Suppress(false),
                    ActionView::NoteOwner(self.local),
                    ActionView::PlaceCursor { x, y },
                    ActionView::ReadPointer,
                ]
            } else {
                seq![ActionView::PlaceCursor { x, y }, ActionView::ReadPointer]
            },
            _ => if self.owner != self.local {
                Seq::empty()
            } else {
                match event {
                    InputEvent::MouseMove { dx, dy } => self.motion_actions(
                        doc,
                        online,
                        here,
                        dx,
                        dy,
                        source,
                    ),
                    InputEvent::CursorEnter { x: _, y: _ } => Seq::empty(),
                    _ => if source == Source::Remote {
                        seq![ActionView::Inject(event)]
                    } else {
                        Seq::empty()
                    },
                }
            },
        }
    }
}

/// How two states of the router and its actions relate if the second state comes of a
/// heartbeat.
pub open spec fn beats(
    before: RouterView,
    online: Set<MachineId>,
    here: Option<Point>,
    after: RouterView,
    actions: Seq<ActionView>,
) -> bool {
    if before.owner != before.local && !online.contains(before.owner) {
        &&& after == before.taken(here)
        &&& actions == seq![
            ActionView::Suppress(false),
            ActionView::NoteOwner(before.local),
            ActionView::AnnounceOwner(before.local),
        ]
    } else {
        &&& after == before
        &&& actions == Seq::<ActionView>::empty()
    }
}

/// How two states of the router and its actions relate if the second state comes of
/// looking for an announcement.
pub open spec fn hears(
    before: RouterView,
    announced: Option<MachineId>,
    here: Option<Point>,
    after: RouterView,
    actions: Seq<ActionView>,
) -> bool {
    match announced {
        Some(owner) => {
            &&& after == before.told(owner, here)
            &&& actions == (if owner == before.owner {
                Seq::<ActionView>::empty()
            } else {
                seq![
                    ActionView::NoteOwner(owner),
                    ActionView::Suppress(owner != before.local),
                ]
            })
        },
        None => after == before && actions == Seq::<ActionView>::empty(),
    }
}

/// The document that an optional document is.
pub open spec fn doc_view(doc: Option<&WorkspaceDoc>) -> Option<DocView> {
    match doc {
        Some(doc) => Some(doc@),
        None => None,
    }
}

/// `p` moved by `(dx, dy)`, held inside the range of coordinates.
fn shift(p: Point, dx: i64, dy: i64) -> (r: Point)
    requires
        -0x8000_0000 <= dx <= 0x8000_0000,
        -0x8000_0000 <= dy <= 0x8000_0000,
    ensures
        r == shifted(p, dx as int, dy as int),
{
    Point::new(geometry::saturate(p.x as i64 + dx), geometry::saturate(p.y as i64 + dy))
}

/// Where this machine's pointer is, in workspace coordinates, given where it is in
/// its own.
pub fn pointer_now(doc: Option<&WorkspaceDoc>, local: MachineId, pointer: Option<(i32, i32)>) -> (r:
    Option<Point>)
    ensures
        r == pointer_in(doc_view(doc), local, pointer),
{
    match (doc, pointer) {
        (Some(doc), Some((x, y))) => match doc.machine(local) {
            Some(record) => Some(
                shift(Point::new(x, y), record.position.x as i64, record.position.y as i64),
            ),
            None => None,
        },
        _ => None,
    }
}

/// A copy of a set with one more member.
fn with_member(set: &HashSet<MachineId>, id: MachineId) -> (r: HashSet<MachineId>)
    ensures
        r@ == set@.insert(id),
{
    let mut out = ids::copy_set(set);
    let _ = out.insert(id);
    out
}

impl Router {
    /// The pointer starts on this machine, which lets its own input through.
    pub fn new(local: MachineId, here: Option<Point>) -> (r: Self)
        ensures
            r@ == RouterView::begun(local, here),
    {
        Router {
            local,
            owner: local,
            cursor: match here {
                Some(point) => point,
                None => Point::new(0, 0),
            },
            pending: Vec::new(),
        }
    }

    /// The pointer was looked for.
    pub fn on_pointer(&mut self, here: Option<Point>)
        ensures
            final(self)@ == old(self)@.at(here),
    {
        if let Some(point) = here {
            self.cursor = point;
        }
    }

    /// Time for a heartbeat. If the machine holding the pointer went away, takes it
    /// and says so: otherwise it is stranded somewhere unreachable and this
    /// keyboard stays swallowed for nothing.
    pub fn on_heartbeat(&mut self, online: &HashSet<MachineId>, here: Option<Point>) -> (r: Vec<
        RouterAction,
    >)
        ensures
            beats(old(self)@, online@, here, final(self)@, actions_view(r@)),
    {
        if self.owner != self.local && !online.contains(&self.owner) {
            self.take_ownership(here)
        } else {
            let none: Vec<RouterAction> = Vec::new();
            assert(actions_view(none@) =~= Seq::<ActionView>::empty());
            none
        }
    }

    /// Takes the pointer for this machine and tells everyone.
    fn take_ownership(&mut self, here: Option<Point>) -> (r: Vec<RouterAction>)
        ensures
            final(self)@ == old(self)@.taken(here),
            actions_view(r@) == seq![
                ActionView::Suppress(false),
                ActionView::NoteOwner(old(self).local),
                ActionView::AnnounceOwner(old(self).local),
            ],
    {
        self.owner = self.local;
        self.pending = Vec::new();
        if let Some(point) = here {
            self.cursor = point;
        }
        let mut actions: Vec<RouterAction> = Vec::new();
        actions.push(RouterAction::Suppress(false));
        actions.push(RouterAction::NoteOwner(self.local));
        actions.push(RouterAction::AnnounceOwner(self.local));
        assert(actions_view(actions@) =~= seq![
            ActionView::Suppress(false),
            ActionView::NoteOwner(old(self).local),
            ActionView::AnnounceOwner(old(self).local),
        ]);
        actions
    }

    /// Applies an ownership announcement from another machine.
    pub fn apply_announcement(&mut self, announced: Option<MachineId>, here: Option<Point>) -> (r:
        Vec<RouterAction>)
        ensures
            hears(old(self)@, announced, here, final(self)@, actions_view(r@)),
    {
        let mut actions: Vec<RouterAction> = Vec::new();
        let owner: MachineId = match announced {
            Some(owner) => owner,
            None => {
                assert(actions_view(actions@) =~= Seq::<ActionView>::empty());
                return actions;
            },
        };
        if owner == self.owner {
            assert(actions_view(actions@) =~= Seq::<ActionView>::empty());
            return actions;
        }
        self.owner = owner;
        actions.push(RouterAction::NoteOwner(owner));
        if owner == self.local {
            actions.push(RouterAction::Suppress(false));
            // Only trust the real pointer if the handoff did not already place
            // it: the entry point is the accurate answer, this is the fallback.
            if let Some(point) = here {
                self.cursor = point;
            }
        } else {
            self.pending = Vec::new();
            actions.push(RouterAction::Suppress(true));
        }
        assert(actions_view(actions@) =~= seq![
            ActionView::NoteOwner(owner),
            ActionView::Suppress(owner != old(self).local),
        ]);
        actions
    }

    /// Routes one event. `here` is where this machine's pointer is.
    pub fn handle(
        &mut self,
        event: InputEvent,
        source: Source,
        doc: Option<&WorkspaceDoc>,
        online: &HashSet<MachineId>,
        here: Option<Point>,
    ) -> (r: Vec<RouterAction>)
        ensures
            final(self)@ == old(self)@.after(event, source, doc_view(doc), online@, here),
            actions_view(r@) == old(self)@.actions(event, source, doc_view(doc), online@, here),
    {
        let mut actions: Vec<RouterAction> = Vec::new();
        assert(actions_view(actions@) =~= Seq::<ActionView>::empty());
        // The handoff itself, and it has to be handled before anything asks who
        // the owner is, because at this instant it is still the machine that
        // sent it. A machine only sends this to the one it is handing the
        // pointer to, so receiving it *is* becoming the owner.
        if let InputEvent::CursorEnter { x, y } = event {
            if source == Source::Remote {
                if self.owner != self.local {
                    self.owner = self.local;
                    self.pending = Vec::new();
                    actions.push(RouterAction::Suppress(false));
                    actions.push(RouterAction::NoteOwner(self.local));
                }
                actions.push(RouterAction::PlaceCursor { x, y });
                actions.push(RouterAction::ReadPointer);
                assert(actions_view(actions@) =~= old(self)@.actions(
                    event,
                    source,
                    doc_view(doc),
                    online@,
                    here,
                ));
                return actions;
            }
        }
        // Not the owner: this machine is a keyboard and a mouse, nothing more.
        // Everything it sees goes to whoever has the pointer.
        if self.owner != self.local {
            if source == Source::Local {
                self.pending.push(event);
            }
            return actions;
        }
        match event {
            InputEvent::MouseMove { dx, dy } => {
                return self.on_motion(dx, dy, source, doc, online, here);
            },
            // Already handled above when it came from a peer; one produced locally
            // means nothing.
            InputEvent::CursorEnter { x: _, y: _ } => {},
            // Local keys and clicks already acted on this machine; remote ones
            // have to be replayed.
            other => {
                if source == Source::Remote {
                    actions.push(RouterAction::Inject(other));
                    assert(actions_view(actions@) =~= seq![ActionView::Inject(event)]);
                }
            },
        }
        actions
    }

    /// Motion while this machine owns the pointer.
    fn on_motion(
        &mut self,
        dx: i32,
        dy: i32,
        source: Source,
        doc: Option<&WorkspaceDoc>,
        online: &HashSet<MachineId>,
        here: Option<Point>,
    ) -> (r: Vec<RouterAction>)
        ensures
            final(self)@ == old(self)@.moved(doc_view(doc), online@, here, dx, dy),
            actions_view(r@) == old(self)@.motion_actions(
                doc_view(doc),
                online@,
                here,
                dx,
                dy,
                source,
            ),
    {
        let mut actions: Vec<RouterAction> = Vec::new();
        assert(actions_view(actions@) =~= Seq::<ActionView>::empty());
        let doc = match doc {
            Some(doc) => doc,
            None => {
                return actions;
            },
        };
        let reachable = with_member(online, self.local);
        // Something else may have moved the pointer: a window taking focus, a
        // game warping it. The real one wins when they disagree by more than a
        // nudge.
        let start = match here {
            Some(point) => if self.has_drifted(point) {
                point
            } else {
                self.cursor
            },
            None => self.cursor,
        };
        let target = shift(start, dx as i64, dy as i64);
        match layout::resolve_cursor(doc, &reachable, self.local, target) {
            Resolution::Stay(point) => {
                self.cursor = point;
                // Local movement already moved the pointer; remote movement has
                // to be applied. Placing it outright rather than replaying the
                // delta keeps pointer acceleration out of it.
                if source == Source::Remote {
                    if let Some(record) = doc.machine(self.local) {
                        let at = shift(
                            point,
                            -(record.position.x as i64),
                            -(record.position.y as i64),
                        );
                        actions.push(RouterAction::PlaceCursor { x: at.x, y: at.y });
                        assert(actions_view(actions@) =~= seq![
                            ActionView::PlaceCursor { x: at.x, y: at.y },
                        ]);
                    }
                }
            },
            Resolution::Move { machine, point } => {
                self.cursor = point;
                self.owner = machine;
                actions.push(RouterAction::NoteOwner(machine));
                // Tell the receiving machine where the pointer lands, before any
                // movement reaches it.
                if let Some(record) = doc.machine(machine) {
                    let at = shift(point, -(record.position.x as i64), -(record.position.y as i64));
                    self.pending.push(InputEvent::CursorEnter { x: at.x, y: at.y });
                }
                actions.push(RouterAction::Suppress(true));
                let ghost lead = actions_view(actions@);
                assert(lead =~= seq![ActionView::NoteOwner(machine), ActionView::Suppress(true)]);
                let ghost gone = self@;
                if let Some(sent) = self.flush() {
                    actions.push(sent);
                    assert(actions_view(actions@) =~= lead + gone.flush_actions());
                } else {
                    assert(actions_view(actions@) =~= lead + gone.flush_actions());
                }
                let ghost sent = actions_view(actions@);
                actions.push(RouterAction::AnnounceOwner(machine));
                assert(actions_view(actions@) =~= sent + seq![ActionView::AnnounceOwner(machine)]);
            },
        }
        actions
    }

    fn has_drifted(&self, here: Point) -> (r: bool)
        ensures
            r == drifted(here, self.cursor),
    {
        let dx: i64 = here.x as i64 - self.cursor.x as i64;
        let dy: i64 = here.y as i64 - self.cursor.y as i64;
        dx > DRIFT_LIMIT || dx < -DRIFT_LIMIT || dy > DRIFT_LIMIT || dy < -DRIFT_LIMIT
    }

    /// Sends the pending events to the owner; drops them where that is this
    /// machine.
    pub fn flush(&mut self) -> (r: Option<RouterAction>)
        ensures
            final(self)@ == old(self)@.flushed(),
            match r {
                Some(action) => old(self)@.flush_actions() == seq![action@],
                None => old(self)@.flush_actions() == Seq::<ActionView>::empty(),
            },
    {
        let mut events: Vec<InputEvent> = Vec::new();
        std::mem::swap(&mut events, &mut self.pending);
        if events.len() == 0 || self.owner == self.local {
            return None;
        }
        Some(RouterAction::SendInput { to: self.owner, events })
    }
}

/// Whether this machine's input is swallowed once `actions` were taken, given
/// whether it was before.
pub open spec fn suppression_after(before: bool, actions: Seq<ActionView>) -> bool
    decreases actions.len(),
{
    if actions.len() == 0 {
        before
    } else {
        match actions.last() {
            ActionView::Suppress(on) => on,
            _ => suppression_after(before, actions.drop_last()),
        }
    }
}

proof fn suppression_of_two(before: bool, lead: Seq<ActionView>, tail: Seq<ActionView>)
    requires
        forall|k: int| 0 <= k < tail.len() ==> !((#[trigger] tail[k]) is Suppress),
    ensures
        suppression_after(before, lead + tail) == suppression_after(before, lead),
    decreases tail.len(),
{
    if tail.len() == 0 {
        assert(lead + tail =~= lead);
    } else {
        let init = tail.drop_last();
        assert forall|k: int| 0 <= k < init.len() implies !((#[trigger] init[k]) is Suppress) by {
            assert(init[k] == tail[k]);
        }
        suppression_of_two(before, lead, init);
        assert((lead + tail).drop_last() =~= lead + init);
        assert((lead + tail).last() == tail[tail.len() - 1]);
    }
}

/// This machine's own input is swallowed exactly while the pointer is elsewhere,
/// whatever event is routed.
pub proof fn events_keep_suppression_right(
    router: RouterView,
    event: InputEvent,
    source: Source,
    doc: Option<DocView>,
    online: Set<MachineId>,
    here: Option<Point>,
)
    ensures
        ({
            let after = router.after(event, source, doc, online, here);
            suppression_after(
                router.owner != router.local,
                router.actions(event, source, doc, online, here),
            ) == (after.owner != after.local)
        }),
{
    reveal_with_fuel(suppression_after, 5);
    let before = router.owner != router.local;
    let actions = router.actions(event, source, doc, online, here);
    let after = router.after(event, source, doc, online, here);
    if event is CursorEnter && source == Source::Remote {
        if before {
            let lead = seq![ActionView::Suppress(false)];
            let tail = seq![
                ActionView::NoteOwner(router.local),
                ActionView::PlaceCursor { x: event->x, y: event->y },
                ActionView::ReadPointer,
            ];
            assert(actions =~= lead + tail);
            suppression_of_two(before, lead, tail);
            assert(lead.last() == ActionView::Suppress(false));
        } else {
            assert(actions =~= Seq::<ActionView>::empty() + actions);
            suppression_of_two(before, Seq::empty(), actions);
        }
    } else if !before {
        if let InputEvent::MouseMove { dx, dy } = event {
            if let Some(d) = doc {
                match router.destination(d, online, here, dx, dy) {
                    Resolution::Stay(point) => {
                        assert(actions =~= Seq::<ActionView>::empty() + actions);
                        suppression_of_two(before, Seq::empty(), actions);
                    },
                    Resolution::Move { machine, point } => {
                        layout::cursor_only_moves_to_online_machines(
                            d,
                            online.insert(router.local),
                            router.local,
                            shifted(router.start(here), dx as int, dy as int),
                        );
                        let gone = RouterView {
                            owner: machine,
                            pending: router.crossing(d, machine, point),
                            ..router
                        };
                        let lead = seq![ActionView::NoteOwner(machine), ActionView::Suppress(true)];
                        let tail = gone.flush_actions() + seq![ActionView::AnnounceOwner(machine)];
                        assert(actions =~= lead + tail);
                        suppression_of_two(before, lead, tail);
                        assert(lead.last() == ActionView::Suppress(true));
                    },
                }
            }
        } else {
            assert(actions =~= Seq::<ActionView>::empty() + actions);
            suppression_of_two(before, Seq::empty(), actions);
        }
    }
}

/// The same holds of announcements.
pub proof fn announcements_keep_suppression_right(
    router: RouterView,
    owner: MachineId,
    here: Option<Point>,
)
    ensures
        ({
            let after = router.told(owner, here);
            let actions = if owner == router.owner {
                Seq::<ActionView>::empty()
            } else {
                seq![ActionView::NoteOwner(owner), ActionView::Suppress(owner != router.local)]
            };
            suppression_after(router.owner != router.local, actions) == (after.owner
                != after.local)
        }),
{
    if owner != router.owner {
        let actions = seq![ActionView::NoteOwner(owner), ActionView::Suppress(owner != router.local)];
        assert(actions.last() == ActionView::Suppress(owner != router.local));
    }
}

/// And of taking the pointer back: it gives this keyboard back.
pub proof fn taking_the_pointer_restores_input(router: RouterView, here: Option<Point>)
    ensures
        router.taken(here).owner == router.local,
        !suppression_after(
            true,
            seq![
                ActionView::Suppress(false),
                ActionView::NoteOwner(router.local),
                ActionView::AnnounceOwner(router.local),
            ],
        ),
{
    let lead = seq![ActionView::Suppress(false)];
    let tail = seq![
        ActionView::NoteOwner(router.local),
        ActionView::AnnounceOwner(router.local),
    ];
    assert(lead + tail =~= seq![
        ActionView::Suppress(false),
        ActionView::NoteOwner(router.local),
        ActionView::AnnounceOwner(router.local),
    ]);
    suppression_of_two(true, lead, tail);
    assert(lead.last() == ActionView::Suppress(false));
}

/// An event changes who owns the pointer in two ways only: a machine handed it to
/// this one, or this one's pointer crossed to another machine, which is online.
pub proof fn ownership_changes_only_by_handoff(
    router: RouterView,
    event: InputEvent,
    source: Source,
    doc: Option<DocView>,
    online: Set<MachineId>,
    here: Option<Point>,
)
    ensures
        ({
            let after = router.after(event, source, doc, online, here);
            after.owner != router.owner ==> {
                ||| after.owner == router.local && event is CursorEnter && source == Source::Remote
                ||| router.owner == router.local && online.contains(after.owner) && event
                    is MouseMove
            }
        }),
{
    if let InputEvent::MouseMove { dx, dy } = event {
        if let Some(d) = doc {
            layout::cursor_only_moves_to_online_machines(
                d,
                online.insert(router.local),
                router.local,
                shifted(router.start(here), dx as int, dy as int),
            );
        }
    }
}

/// A machine that does not own the pointer acts on nothing but a handoff: it keeps
/// its own input for the owner, in order, and drops what others send it.
pub proof fn bystanders_only_forward(
    router: RouterView,
    event: InputEvent,
    source: Source,
    doc: Option<DocView>,
    online: Set<MachineId>,
    here: Option<Point>,
)
    requires
        router.owner != router.local,
        !(event is CursorEnter && source == Source::Remote),
    ensures
        router.actions(event, source, doc, online, here) == Seq::<ActionView>::empty(),
        router.after(event, source, doc, online, here) == (RouterView {
            pending: if source == Source::Local {
                router.pending.push(event)
            } else {
                router.pending
            },
            ..router
        }),
{
}

/// Nothing is ever sent to the machine itself, and nothing stays behind.
pub proof fn input_goes_to_the_owner_only(router: RouterView, k: int)
    requires
        0 <= k < router.flush_actions().len(),
    ensures
        router.flush_actions()[k] matches ActionView::SendInput { to, events } && to
            == router.owner && to != router.local && events == router.pending,
        router.flushed().pending.len() == 0,
{
}

/// When the pointer crosses, the machine that gets it is told where it lands
/// before the crossing is announced to everyone: the last event sent is the entry
/// point, in that machine's own coordinates.
pub proof fn crossing_tells_where_the_pointer_lands(
    router: RouterView,
    doc: DocView,
    online: Set<MachineId>,
    here: Option<Point>,
    dx: i32,
    dy: i32,
    source: Source,
)
    requires
        router.owner == router.local,
        router.destination(doc, online, here, dx, dy) is Move,
        doc.record(router.destination(doc, online, here, dx, dy)->machine) is Some,
    ensures
        ({
            let machine = router.destination(doc, online, here, dx, dy)->machine;
            let point = router.destination(doc, online, here, dx, dy)->point;
            let position = (doc.record(machine)->0).position;
            let at = shifted(point, -(position.x as int), -(position.y as int));
            router.motion_actions(Some(doc), online, here, dx, dy, source) == seq![
                ActionView::NoteOwner(machine),
                ActionView::Suppress(true),
                ActionView::SendInput {
                    to: machine,
                    events: router.pending.push(InputEvent::CursorEnter { x: at.x, y: at.y }),
                },
                ActionView::AnnounceOwner(machine),
            ]
        }),
{
    layout::cursor_only_moves_to_online_machines(
        doc,
        online.insert(router.local),
        router.local,
        shifted(router.start(here), dx as int, dy as int),
    );
    let machine = router.destination(doc, online, here, dx, dy)->machine;
    let point = router.destination(doc, online, here, dx, dy)->point;
    let position = (doc.record(machine)->0).position;
    let at = shifted(point, -(position.x as int), -(position.y as int));
    assert(router.motion_actions(Some(doc), online, here, dx, dy, source) =~= seq![
        ActionView::NoteOwner(machine),
        ActionView::Suppress(true),
        ActionView::SendInput {
            to: machine,
            events: router.pending.push(InputEvent::CursorEnter { x: at.x, y: at.y }),
        },
        ActionView::AnnounceOwner(machine),
    ]);
}

/// A pointer of this machine reads as the point that lies as far from the machine's
/// place in the workspace as the pointer lies from its own origin.
pub proof fn a_pointer_reads_from_the_place_of_its_machine(
    doc: DocView,
    local: MachineId,
    x: i32,
    y: i32,
)
    requires
        doc.record(local) is Some,
        i32::MIN <= x + (doc.record(local)->0).position.x <= i32::MAX,
        i32::MIN <= y + (doc.record(local)->0).position.y <= i32::MAX,
    ensures
        pointer_in(Some(doc), local, Some((x, y))) matches Some(p) && p.x - x == (doc.record(
            local,
        )->0).position.x && p.y - y == (doc.record(local)->0).position.y,
{
}

/// Motion from another machine that leaves the pointer on this one puts it where the
/// router tracks it: the one action places the cursor, and the pointer then reads as
/// the tracked point. Where this machine has any screen, that is on it.
pub proof fn remote_motion_puts_the_pointer_where_it_is_tracked(
    router: RouterView,
    doc: DocView,
    online: Set<MachineId>,
    here: Option<Point>,
    dx: i32,
    dy: i32,
)
    requires
        router.owner == router.local,
        doc.record(router.local) is Some,
        ({
            let after = router.after(
                InputEvent::MouseMove { dx, dy },
                Source::Remote,
                Some(doc),
                online,
                here,
            );
            let position = (doc.record(router.local)->0).position;
            &&& after.owner == router.local
            &&& i32::MIN <= after.cursor.x - position.x <= i32::MAX
            &&& i32::MIN <= after.cursor.y - position.y <= i32::MAX
        }),
    ensures
        ({
            let event = InputEvent::MouseMove { dx, dy };
            let after = router.after(event, Source::Remote, Some(doc), online, here);
            let actions = router.actions(event, Source::Remote, Some(doc), online, here);
            let record = doc.record(router.local)->0;
            &&& actions.len() == 1
            &&& actions[0] is PlaceCursor
            &&& actions[0]->PlaceCursor_x + record.position.x == after.cursor.x
            &&& actions[0]->PlaceCursor_y + record.position.y == after.cursor.y
            &&& pointer_in(
                Some(doc),
                router.local,
                Some((actions[0]->PlaceCursor_x, actions[0]->PlaceCursor_y)),
            ) == Some(after.cursor)
            &&& record.bounds() matches Some(b) ==> (b.has_area() ==> {
                &&& b.x <= actions[0]->PlaceCursor_x + record.position.x < b.right()
                &&& b.y <= actions[0]->PlaceCursor_y + record.position.y < b.bottom()
            })
        }),
{
    let target = shifted(router.start(here), dx as int, dy as int);
    layout::cursor_only_moves_to_online_machines(
        doc,
        online.insert(router.local),
        router.local,
        target,
    );
    if layout::home(doc, router.local) is Some && (layout::home(
        doc,
        router.local,
    )->0).has_area() {
        layout::cursor_that_stays_stays_on_screen(
            doc,
            online.insert(router.local),
            router.local,
            target,
        );
    }
}

/// Motion on the owner adds up: as long as the pointer stays on this machine it moves
/// by exactly what the mouse reported, from where it is tracked, or from where it
/// really is if that is more than eighty pixels off along either axis. A mouse of this
/// machine has moved it already.
pub proof fn motion_on_the_owner_adds_up(
    router: RouterView,
    doc: DocView,
    online: Set<MachineId>,
    here: Option<Point>,
    dx: i32,
    dy: i32,
    from: Point,
    to: Point,
    source: Source,
)
    requires
        router.owner == router.local,
        doc.record(router.local) is Some,
        (doc.record(router.local)->0).bounds() is Some,
        here is None ==> from == router.cursor,
        here matches Some(p) ==> from == (if -80 <= p.x - router.cursor.x <= 80 && -80 <= p.y
            - router.cursor.y <= 80 {
            router.cursor
        } else {
            p
        }),
        to.x == from.x + dx,
        to.y == from.y + dy,
        ((doc.record(router.local)->0).bounds()->0).covers(to),
    ensures
        ({
            let event = InputEvent::MouseMove { dx, dy };
            let after = router.after(event, source, Some(doc), online, here);
            &&& after == (RouterView { cursor: to, ..router })
            &&& source == Source::Local ==> router.actions(
                event,
                source,
                Some(doc),
                online,
                here,
            ).len() == 0
        }),
{
}

/// Both sides of a crossing mean the same point: the machine that gets the pointer is
/// told a point of its own screens that reads, there, as the point where the pointer
/// left off here. It puts the pointer there, becomes the owner and uses its own input
/// again.
pub proof fn both_sides_of_a_crossing_agree(
    giver: RouterView,
    taker: RouterView,
    doc: DocView,
    online: Set<MachineId>,
    here: Option<Point>,
    dx: i32,
    dy: i32,
    source: Source,
)
    requires
        giver.owner == giver.local,
        giver.after(InputEvent::MouseMove { dx, dy }, source, Some(doc), online, here).owner
            == taker.local,
        taker.local != giver.local,
        taker.owner == giver.local,
        doc.record(taker.local) is Some,
        ({
            let after = giver.after(
                InputEvent::MouseMove { dx, dy },
                source,
                Some(doc),
                online,
                here,
            );
            let position = (doc.record(taker.local)->0).position;
            &&& i32::MIN <= after.cursor.x - position.x <= i32::MAX
            &&& i32::MIN <= after.cursor.y - position.y <= i32::MAX
        }),
    ensures
        ({
            let motion = InputEvent::MouseMove { dx, dy };
            let after = giver.after(motion, source, Some(doc), online, here);
            let actions = giver.actions(motion, source, Some(doc), online, here);
            let position = (doc.record(taker.local)->0).position;
            let sent = actions[2]->SendInput_events;
            let enter = sent.last();
            let taken = taker.after(enter, Source::Remote, Some(doc), online, here);
            let done = taker.actions(enter, Source::Remote, Some(doc), online, here);
            &&& actions.len() == 4
            &&& actions[1] == ActionView::Suppress(true)
            &&& actions[2] is SendInput
            &&& actions[2]->SendInput_to == taker.local
            &&& actions[3] == ActionView::AnnounceOwner(taker.local)
            &&& sent.len() == giver.pending.len() + 1
            &&& enter is CursorEnter
            &&& enter->x + position.x == after.cursor.x
            &&& enter->y + position.y == after.cursor.y
            &&& online.contains(taker.local)
            &&& taken.owner == taker.local
            &&& done.contains(ActionView::PlaceCursor { x: enter->x, y: enter->y })
            &&& done[0] == ActionView::Suppress(false)
            &&& pointer_in(Some(doc), taker.local, Some((enter->x, enter->y))) == Some(
                after.cursor,
            )
        }),
{
    layout::cursor_only_moves_to_online_machines(
        doc,
        online.insert(giver.local),
        giver.local,
        shifted(giver.start(here), dx as int, dy as int),
    );
    crossing_tells_where_the_pointer_lands(giver, doc, online, here, dx, dy, source);
    let motion = InputEvent::MouseMove { dx, dy };
    let actions = giver.actions(motion, source, Some(doc), online, here);
    let enter = actions[2]->SendInput_events.last();
    let done = taker.actions(enter, Source::Remote, Some(doc), online, here);
    assert(done[2] == ActionView::PlaceCursor { x: enter->x, y: enter->y });
}

/// The router after some local events, one after the other.
pub open spec fn after_all(
    router: RouterView,
    events: Seq<InputEvent>,
    doc: Option<DocView>,
    online: Set<MachineId>,
    here: Option<Point>,
) -> RouterView
    decreases events.len(),
{
    if events.len() == 0 {
        router
    } else {
        after_all(router, events.drop_last(), doc, online, here).after(
            events.last(),
            Source::Local,
            doc,
            online,
            here,
        )
    }
}

/// While the pointer is elsewhere nothing that this machine's keyboard and mouse do is
/// lost or put in another order: all of it is sent to the owner, once.
pub proof fn captured_input_is_sent_in_order(
    router: RouterView,
    events: Seq<InputEvent>,
    doc: Option<DocView>,
    online: Set<MachineId>,
    here: Option<Point>,
)
    requires
        router.owner != router.local,
        router.pending.len() == 0,
    ensures
        ({
            let held = after_all(router, events, doc, online, here);
            &&& held.owner == router.owner
            &&& held.local == router.local
            &&& held.pending == events
            &&& events.len() > 0 ==> held.flush_actions() == seq![
                ActionView::SendInput { to: router.owner, events },
            ]
            &&& held.flushed().flush_actions().len() == 0
        }),
    decreases events.len(),
{
    if events.len() > 0 {
        captured_input_is_sent_in_order(router, events.drop_last(), doc, online, here);
        assert(events.drop_last().push(events.last()) =~= events);
    } else {
        assert(router.pending =~= events);
    }
}

/// On the owner keys, buttons and the wheel act once: those of another machine are
/// replayed as they are, those of this machine have acted already.
pub proof fn the_owner_replays_what_others_press(
    router: RouterView,
    event: InputEvent,
    doc: Option<DocView>,
    online: Set<MachineId>,
    here: Option<Point>,
)
    requires
        router.owner == router.local,
        !(event is MouseMove),
        !(event is CursorEnter),
    ensures
        router.actions(event, Source::Remote, doc, online, here) == seq![
            ActionView::Inject(event),
        ],
        router.actions(event, Source::Local, doc, online, here).len() == 0,
        router.after(event, Source::Remote, doc, online, here) == router,
        router.after(event, Source::Local, doc, online, here) == router,
{
}

/// The pointer is never stranded: after a heartbeat its owner is this machine or one
/// that is online. If it had to be taken back, this machine's input is its own again
/// and everybody is told; if not, nothing happens.
pub proof fn the_pointer_is_never_stranded(
    before: RouterView,
    online: Set<MachineId>,
    here: Option<Point>,
    after: RouterView,
    actions: Seq<ActionView>,
)
    requires
        beats(before, online, here, after, actions),
    ensures
        after.owner == after.local || online.contains(after.owner),
        after.local == before.local,
        after.owner == before.owner ==> after == before && actions.len() == 0,
        after.owner != before.owner ==> {
            &&& actions.contains(ActionView::Suppress(false))
            &&& actions.contains(ActionView::AnnounceOwner(before.local))
            &&& after.pending.len() == 0
            &&& here matches Some(p) ==> after.cursor == p
        },
{
    if after.owner != before.owner {
        assert(actions[0] == ActionView::Suppress(false));
        assert(actions[2] == ActionView::AnnounceOwner(before.local));
    }
}

/// Everybody who hears an announcement agrees with it. What was kept for the machine
/// that has lost the pointer is not sent to the one that got it.
pub proof fn everybody_believes_an_announcement(
    before: RouterView,
    owner: MachineId,
    here: Option<Point>,
    after: RouterView,
    actions: Seq<ActionView>,
)
    requires
        hears(before, Some(owner), here, after, actions),
    ensures
        after.owner == owner,
        after.local == before.local,
        owner == before.owner ==> after == before && actions.len() == 0,
        owner != before.owner ==> actions.contains(ActionView::NoteOwner(owner)),
        owner != before.owner && owner != before.local ==> after.pending.len() == 0
            && actions.contains(ActionView::Suppress(true)) && after.cursor == before.cursor,
        owner != before.owner && owner == before.local ==> actions.contains(
            ActionView::Suppress(false),
        ) && (here matches Some(p) ==> after.cursor == p),
{
    if owner != before.owner {
        assert(actions[0] == ActionView::NoteOwner(owner));
        assert(actions[1] == ActionView::Suppress(owner != before.local));
    }
}

/// The pointer starts on this machine, where it really is, with nothing kept for
/// anybody; and whenever it is looked for it is where it was found.
pub proof fn the_pointer_starts_here(local: MachineId, p: Point, router: RouterView)
    ensures
        RouterView::begun(local, Some(p)).owner == local,
        RouterView::begun(local, Some(p)).local == local,
        RouterView::begun(local, Some(p)).cursor == p,
        RouterView::begun(local, None).owner == local,
        RouterView::begun(local, Some(p)).flush_actions().len() == 0,
        router.at(Some(p)).cursor == p,
        router.at(Some(p)).owner == router.owner && router.at(Some(p)).pending == router.pending,
        router.at(None) == router,
{
}

/// A machine that is handed the pointer puts it where it was told to and then looks
/// where it really is, last; if it was not the owner yet, it uses its own input again
/// and says that it is, and drops what it kept for the last owner.
pub proof fn a_handoff_is_carried_out(
    router: RouterView,
    x: i32,
    y: i32,
    doc: Option<DocView>,
    online: Set<MachineId>,
    here: Option<Point>,
)
    ensures
        ({
            let event = InputEvent::CursorEnter { x, y };
            let after = router.after(event, Source::Remote, doc, online, here);
            let done = router.actions(event, Source::Remote, doc, online, here);
            let n = done.len() as int;
            &&& n >= 2
            &&& done[n - 2] == (ActionView::PlaceCursor { x, y })
            &&& done[n - 1] == ActionView::ReadPointer
            &&& after.owner == router.local
            &&& after.local == router.local
            &&& router.owner != router.local ==> n == 4 && done[0] == ActionView::Suppress(false)
                && done[1] == ActionView::NoteOwner(router.local) && after.pending.len() == 0
            &&& router.owner == router.local ==> n == 2 && after == router
        }),
{
}

/// The sharing loop says that it is alive several times before the watchdog would give
/// the keyboard back: suppression that is asked for at one heartbeat holds past the next
/// four, and input goes out many times in between.
pub proof fn heartbeats_outrun_the_watchdog(asked: u64)
    requires
        asked + 4 * HEARTBEAT_MS <= u64::MAX,
    ensures
        0 < BATCH_MS < HEARTBEAT_MS,
        (crate::watchdog::Suppression { on: true, alive_ms: asked }).swallows(
            (asked + 4 * HEARTBEAT_MS) as u64,
        ),
{
}

} // verus!
