//! The synchronized workspace document.
//!
//! One document describes the whole workspace: which machines belong to it,
//! where their displays sit relative to each other, which machines contribute
//! input devices, and the shared settings. Every machine keeps a full copy and
//! persists it, so the workspace is a shared distributed configuration rather
//! than unrelated local ones.
//!
//! Two things follow from that, and they are the reason this module exists:
//!
//! - A machine being offline is not a change to the document. Peer liveness is
//!   runtime state and lives elsewhere.
//! - Reconnecting machines merge documents rather than overwrite them, so stale
//!   state can never clobber newer state.

use std::collections::BTreeMap;

use vstd::prelude::*;

use crate::geometry::{Point, Rect};
use crate::identity::PubKey;
use crate::ids;
use crate::ids::{MachineId, WorkspaceId};
use crate::stamp;
use crate::stamp::{Lww, Stamp};
use crate::text::same_text;

verus! {

#[derive(Clone, Copy, Debug, PartialEq, Eq, Structural)]
pub enum Platform {
    Windows,
    MacOs,
    Linux,
    Other,
}

impl Platform {
    /// The platform with the target name `os`, as the compiler spells it.
    pub open spec fn named(os: Seq<char>) -> Platform {
        if os == "windows"@ {
            Platform::Windows
        } else if os == "macos"@ {
            Platform::MacOs
        } else if os == "linux"@ {
            Platform::Linux
        } else {
            Platform::Other
        }
    }

    /// The platform that a program was built for, given the name of its target
    /// operating system.
    pub fn current(os: &str) -> (r: Self)
        ensures
            r == Platform::named(os@),
    {
        if same_text(os, "windows") {
            Platform::Windows
        } else if same_text(os, "macos") {
            Platform::MacOs
        } else if same_text(os, "linux") {
            Platform::Linux
        } else {
            Platform::Other
        }
    }
}

/// A display's scale factor, held as the bits of a 32-bit floating-point number.
#[derive(Clone, Copy, Debug)]
pub struct Scale {
    pub bits: u32,
}

impl Scale {
    /// The magnitude of the number, without its sign.
    pub open spec fn magnitude(self) -> int {
        self.bits as int % 0x8000_0000
    }

    /// Not a number: an exponent of all ones with a fraction behind it.
    pub open spec fn is_nan(self) -> bool {
        self.magnitude() > 0x7f80_0000
    }

    /// Equality of floating-point numbers: both zeros are the same number, and
    /// what is not a number equals nothing.
    pub open spec fn equals(self, other: Scale) -> bool {
        !self.is_nan() && !other.is_nan() && (self.bits == other.bits || (self.magnitude() == 0
            && other.magnitude() == 0))
    }

    /// The factor one.
    pub fn one() -> (r: Self)
        ensures
            r.bits == 0x3f80_0000,
    {
        Scale { bits: 0x3f80_0000 }
    }
}

impl PartialEq for Scale {
    fn eq(&self, other: &Self) -> (r: bool) {
        let a: u32 = self.bits % 0x8000_0000;
        let b: u32 = other.bits % 0x8000_0000;
        a <= 0x7f80_0000 && b <= 0x7f80_0000 && (self.bits == other.bits || (a == 0 && b == 0))
    }
}

impl vstd::std_specs::cmp::PartialEqSpecImpl for Scale {
    open spec fn obeys_eq_spec() -> bool {
        true
    }

    open spec fn eq_spec(&self, other: &Self) -> bool {
        self.equals(*other)
    }
}

/// One display, in the owning machine's local coordinates.
///
/// `scale` is carried because a 2x display and a 1x display of the same pixel
/// size are not the same physical size, and cursor handoff across that boundary
/// looks wrong if the difference is ignored.
#[derive(Debug)]
pub struct DisplayInfo {
    pub id: String,
    pub name: String,
    pub x: i32,
    pub y: i32,
    pub width: u32,
    pub height: u32,
    pub scale: Scale,
    pub primary: bool,
}

/// A display as contracts speak of it.
#[verifier::ext_equal]
pub struct DisplayView {
    pub id: Seq<char>,
    pub name: Seq<char>,
    pub x: i32,
    pub y: i32,
    pub width: u32,
    pub height: u32,
    pub scale: Scale,
    pub primary: bool,
}

impl DisplayView {
    pub open spec fn area(self) -> Rect {
        Rect { x: self.x, y: self.y, width: self.width, height: self.height }
    }

    /// Equality field by field, the scale compared as a number.
    pub open spec fn equals(self, other: DisplayView) -> bool {
        &&& self.id == other.id
        &&& self.name == other.name
        &&& self.x == other.x
        &&& self.y == other.y
        &&& self.width == other.width
        &&& self.height == other.height
        &&& self.scale.equals(other.scale)
        &&& self.primary == other.primary
    }
}

impl View for DisplayInfo {
    type V = DisplayView;

    open spec fn view(&self) -> DisplayView {
        DisplayView {
            id: self.id@,
            name: self.name@,
            x: self.x,
            y: self.y,
            width: self.width,
            height: self.height,
            scale: self.scale,
            primary: self.primary,
        }
    }
}

impl Clone for DisplayInfo {
    fn clone(&self) -> (r: Self)
        ensures
            r@ == self@,
    {
        DisplayInfo {
            id: self.id.clone(),
            name: self.name.clone(),
            x: self.x,
            y: self.y,
            width: self.width,
            height: self.height,
            scale: self.scale,
            primary: self.primary,
        }
    }
}

impl PartialEq for DisplayInfo {
    fn eq(&self, other: &Self) -> (r: bool) {
        self.id == other.id && self.name == other.name && self.x == other.x && self.y == other.y
            && self.width == other.width && self.height == other.height && self.scale
            == other.scale && self.primary == other.primary
    }
}

impl vstd::std_specs::cmp::PartialEqSpecImpl for DisplayInfo {
    open spec fn obeys_eq_spec() -> bool {
        true
    }

    open spec fn eq_spec(&self, other: &Self) -> bool {
        self@.equals(other@)
    }
}

impl DisplayInfo {
    pub fn rect(&self) -> (r: Rect)
        ensures
            r == self@.area(),
    {
        Rect::new(self.x, self.y, self.width, self.height)
    }
}

/// A list of displays as contracts speak of it.
pub open spec fn displays_view(displays: Seq<DisplayInfo>) -> Seq<DisplayView> {
    Seq::new(displays.len(), |i: int| displays[i]@)
}

/// Equality of two display lists, display by display.
pub open spec fn displays_equal(a: Seq<DisplayView>, b: Seq<DisplayView>) -> bool {
    a.len() == b.len() && forall|i: int| 0 <= i < a.len() ==> #[trigger] a[i].equals(b[i])
}

/// Copies a list of displays.
pub fn clone_displays(displays: &Vec<DisplayInfo>) -> (r: Vec<DisplayInfo>)
    ensures
        displays_view(r@) == displays_view(displays@),
{
    let out = displays.clone();
    assert(displays_view(out@) =~= displays_view(displays@));
    out
}

/// Whether two display lists are equal, display by display and in order.
pub fn same_displays(a: &Vec<DisplayInfo>, b: &Vec<DisplayInfo>) -> (r: bool)
    ensures
        r == displays_equal(displays_view(a@), displays_view(b@)),
{
    if a.len() != b.len() {
        return false;
    }
    let mut i: usize = 0;
    while i < a.len()
        invariant
            i <= a@.len(),
            a@.len() == b@.len(),
            forall|k: int| 0 <= k < i ==> (#[trigger] displays_view(a@)[k]).equals(displays_view(b@)[k]),
        decreases a@.len() - i,
    {
        if !(a[i] == b[i]) {
            assert(!displays_view(a@)[i as int].equals(displays_view(b@)[i as int]));
            return false;
        }
        i = i + 1;
    }
    true
}

/// Which physical input devices a machine contributes to the workspace.
#[derive(Clone, Copy, Debug, PartialEq, Eq, Structural)]
pub struct InputAssignment {
    pub provides_keyboard: bool,
    pub provides_mouse: bool,
}

impl Default for InputAssignment {
    fn default() -> (r: Self)
        ensures
            !r.provides_keyboard,
            !r.provides_mouse,
    {
        InputAssignment { provides_keyboard: false, provides_mouse: false }
    }
}

/// A machine as the workspace knows it.
///
/// Note what is absent: no IP address, no hostname, no interface. Those change
/// when a laptop moves from Ethernet to Wi-Fi, and they belong to runtime state
/// rather than to the persisted workspace.
#[derive(Debug)]
pub struct MachineRecord {
    pub id: MachineId,
    pub display_name: String,
    pub platform: Platform,
    /// Recorded at pairing time; peers authenticate against it on every
    /// reconnect.
    pub public_key: PubKey,
    /// Origin of this machine's display arrangement in workspace coordinates.
    pub position: Point,
    pub displays: Vec<DisplayInfo>,
    pub input: InputAssignment,
    pub paired_at_ms: u64,
}

/// A machine's record as contracts speak of it.
#[verifier::ext_equal]
pub struct RecordView {
    pub id: MachineId,
    pub display_name: Seq<char>,
    pub platform: Platform,
    pub public_key: Seq<u8>,
    pub position: Point,
    pub displays: Seq<DisplayView>,
    pub input: InputAssignment,
    pub paired_at_ms: u64,
}

/// The bounding box of `displays` once their origin is moved to `position`.
pub open spec fn bounds_of(displays: Seq<DisplayView>, position: Point) -> Option<Rect>
    decreases displays.len(),
{
    if displays.len() == 0 {
        None
    } else {
        let last = displays.last().area().translated(position);
        match bounds_of(displays.drop_last(), position) {
            None => Some(last),
            Some(r) => Some(r.joined(last)),
        }
    }
}

impl RecordView {
    /// Bounding box of the machine's displays in workspace coordinates, `None`
    /// for a machine that has reported no displays.
    pub open spec fn bounds(self) -> Option<Rect> {
        bounds_of(self.displays, self.position)
    }

    /// Equality field by field.
    pub open spec fn equals(self, other: RecordView) -> bool {
        &&& self.id == other.id
        &&& self.display_name == other.display_name
        &&& self.platform == other.platform
        &&& self.public_key == other.public_key
        &&& self.position == other.position
        &&& displays_equal(self.displays, other.displays)
        &&& self.input == other.input
        &&& self.paired_at_ms == other.paired_at_ms
    }
}

impl View for MachineRecord {
    type V = RecordView;

    open spec fn view(&self) -> RecordView {
        RecordView {
            id: self.id,
            display_name: self.display_name@,
            platform: self.platform,
            public_key: self.public_key@,
            position: self.position,
            displays: displays_view(self.displays@),
            input: self.input,
            paired_at_ms: self.paired_at_ms,
        }
    }
}

impl Clone for MachineRecord {
    fn clone(&self) -> (r: Self)
        ensures
            r@ == self@,
    {
        MachineRecord {
            id: self.id,
            display_name: self.display_name.clone(),
            platform: self.platform,
            public_key: self.public_key,
            position: self.position,
            displays: clone_displays(&self.displays),
            input: self.input,
            paired_at_ms: self.paired_at_ms,
        }
    }
}

impl PartialEq for MachineRecord {
    fn eq(&self, other: &Self) -> (r: bool) {
        self.id == other.id && self.display_name == other.display_name && self.platform
            == other.platform && self.public_key == other.public_key && self.position
            == other.position && same_displays(&self.displays, &other.displays) && self.input
            == other.input && self.paired_at_ms == other.paired_at_ms
    }
}

impl vstd::std_specs::cmp::PartialEqSpecImpl for MachineRecord {
    open spec fn obeys_eq_spec() -> bool {
        true
    }

    open spec fn eq_spec(&self, other: &Self) -> bool {
        self@.equals(other@)
    }
}

impl MachineRecord {
    /// Bounding box of this machine's displays in workspace coordinates.
    ///
    /// `None` for a machine that has not reported its displays yet: it is in the
    /// workspace, but there is nowhere to route a cursor to.
    pub fn bounds(&self) -> (r: Option<Rect>)
        ensures
            r == self@.bounds(),
    {
        let mut out: Option<Rect> = None;
        let ghost all = displays_view(self.displays@);
        let mut i: usize = 0;
        assert(all.take(0) =~= Seq::empty());
        while i < self.displays.len()
            invariant
                i <= self.displays@.len(),
                all == displays_view(self.displays@),
                out == bounds_of(all.take(i as int), self.position),
            decreases self.displays@.len() - i,
        {
            let next = self.displays[i].rect().translate(self.position);
            out =
            match out {
                None => Some(next),
                Some(r) => Some(r.union(next)),
            };
            assert(all.take(i + 1).drop_last() =~= all.take(i as int));
            i = i + 1;
        }
        assert(all.take(i as int) =~= all);
        out
    }
}

/// Whether a machine is in the workspace, or was explicitly removed from it.
#[derive(Debug)]
pub enum SlotState {
    Present(MachineRecord),
    /// A tombstone. Unpairing has to outlive a merge with a peer that still
    /// remembers the machine, otherwise the removal would be undone the moment
    /// that peer reconnects.
    Removed,
}

#[derive(Debug)]
pub struct MachineSlot {
    pub stamp: Stamp,
    pub state: SlotState,
}

/// A slot as contracts speak of it: a register that holds the record, or nothing
/// once the machine was removed.
pub type SlotView = Lww<Option<RecordView>>;

impl View for MachineSlot {
    type V = SlotView;

    open spec fn view(&self) -> SlotView {
        Lww {
            value: match self.state {
                SlotState::Present(record) => Some(record@),
                SlotState::Removed => None,
            },
            stamp: self.stamp,
        }
    }
}

impl Clone for MachineSlot {
    fn clone(&self) -> (r: Self)
        ensures
            r@ == self@,
    {
        MachineSlot {
            stamp: self.stamp,
            state: match &self.state {
                SlotState::Present(record) => SlotState::Present(record.clone()),
                SlotState::Removed => SlotState::Removed,
            },
        }
    }
}

/// What to do when the cursor reaches an edge leading to an offline machine.
#[derive(Clone, Copy, Debug, PartialEq, Eq, Structural)]
pub enum OfflineEdgeBehavior {
    /// Treat the offline machine as a wall: the cursor stops at the boundary.
    /// The default, because it is the behavior the user can always recover
    /// from, and because it keeps the geometry honest: the machine really is
    /// over there, it just cannot accept the cursor.
    Block,
    /// Treat the offline machine as temporarily non-existent and hand the
    /// cursor to the next machine beyond it along the same direction.
    SkipOver,
}

#[derive(Debug)]
pub struct WorkspaceSettings {
    pub clipboard_sync: bool,
    pub offline_edge: OfflineEdgeBehavior,
    pub discovery_port: u16,
    pub transport_port: u16,
    /// Interface names to prefer when several are usable. Empty means "any".
    pub preferred_interfaces: Vec<String>,
    pub autostart: bool,
}

/// Shared settings as contracts speak of them.
#[verifier::ext_equal]
pub struct SettingsView {
    pub clipboard_sync: bool,
    pub offline_edge: OfflineEdgeBehavior,
    pub discovery_port: u16,
    pub transport_port: u16,
    pub preferred_interfaces: Seq<Seq<char>>,
    pub autostart: bool,
}

/// The settings of a new workspace.
pub open spec fn default_settings() -> SettingsView {
    SettingsView {
        clipboard_sync: true,
        offline_edge: OfflineEdgeBehavior::Block,
        discovery_port: 47451,
        transport_port: 47452,
        preferred_interfaces: Seq::empty(),
        autostart: true,
    }
}

/// A list of texts as contracts speak of it.
pub open spec fn texts_view(texts: Seq<String>) -> Seq<Seq<char>> {
    Seq::new(texts.len(), |i: int| texts[i]@)
}

impl View for WorkspaceSettings {
    type V = SettingsView;

    open spec fn view(&self) -> SettingsView {
        SettingsView {
            clipboard_sync: self.clipboard_sync,
            offline_edge: self.offline_edge,
            discovery_port: self.discovery_port,
            transport_port: self.transport_port,
            preferred_interfaces: texts_view(self.preferred_interfaces@),
            autostart: self.autostart,
        }
    }
}

/// Copies a list of texts.
pub fn clone_texts(texts: &Vec<String>) -> (r: Vec<String>)
    ensures
        texts_view(r@) == texts_view(texts@),
{
    let out = texts.clone();
    assert(texts_view(out@) =~= texts_view(texts@));
    out
}

/// Whether two lists hold the same texts in the same order.
pub fn same_texts(a: &Vec<String>, b: &Vec<String>) -> (r: bool)
    ensures
        r == (texts_view(a@) == texts_view(b@)),
{
    if a.len() != b.len() {
        assert(texts_view(a@).len() != texts_view(b@).len());
        return false;
    }
    let mut i: usize = 0;
    while i < a.len()
        invariant
            i <= a@.len(),
            a@.len() == b@.len(),
            forall|k: int| 0 <= k < i ==> (#[trigger] texts_view(a@)[k]) == texts_view(b@)[k],
        decreases a@.len() - i,
    {
        if a[i] != b[i] {
            assert(texts_view(a@)[i as int] != texts_view(b@)[i as int]);
            return false;
        }
        i = i + 1;
    }
    assert(texts_view(a@) =~= texts_view(b@));
    true
}

impl Clone for WorkspaceSettings {
    fn clone(&self) -> (r: Self)
        ensures
            r@ == self@,
    {
        WorkspaceSettings {
            clipboard_sync: self.clipboard_sync,
            offline_edge: self.offline_edge,
            discovery_port: self.discovery_port,
            transport_port: self.transport_port,
            preferred_interfaces: clone_texts(&self.preferred_interfaces),
            autostart: self.autostart,
        }
    }
}

impl PartialEq for WorkspaceSettings {
    fn eq(&self, other: &Self) -> (r: bool) {
        self.clipboard_sync == other.clipboard_sync && self.offline_edge == other.offline_edge
            && self.discovery_port == other.discovery_port && self.transport_port
            == other.transport_port && same_texts(
            &self.preferred_interfaces,
            &other.preferred_interfaces,
        ) && self.autostart == other.autostart
    }
}

impl vstd::std_specs::cmp::PartialEqSpecImpl for WorkspaceSettings {
    open spec fn obeys_eq_spec() -> bool {
        true
    }

    open spec fn eq_spec(&self, other: &Self) -> bool {
        self@ == other@
    }
}

impl Default for WorkspaceSettings {
    fn default() -> (r: Self)
        ensures
            r@ == default_settings(),
    {
        let r = Self {
            clipboard_sync: true,
            offline_edge: OfflineEdgeBehavior::Block,
            discovery_port: 47451,
            transport_port: 47452,
            preferred_interfaces: Vec::new(),
            autostart: true,
        };
        assert(r@.preferred_interfaces =~= Seq::empty());
        r
    }
}

/// A single change to the workspace, carrying enough metadata to order it
/// against any other change.
#[derive(Debug)]
pub struct WorkspaceUpdate {
    pub workspace_id: WorkspaceId,
    /// The document clock before this change. Lets a peer notice it has missed
    /// updates and ask for a full document instead of applying a delta onto a
    /// document it cannot place.
    pub prev_lamport: u64,
    pub stamp: Stamp,
    pub op: Op,
}

#[derive(Debug)]
pub enum Op {
    SetName(String),
    UpsertMachine(MachineRecord),
    RemoveMachine(MachineId),
    SetSettings(WorkspaceSettings),
}

/// A change as contracts speak of it.
pub enum OpView {
    SetName(Seq<char>),
    UpsertMachine(RecordView),
    RemoveMachine(MachineId),
    SetSettings(SettingsView),
}

/// An update as contracts speak of it.
pub struct UpdateView {
    pub workspace_id: WorkspaceId,
    pub prev_lamport: u64,
    pub stamp: Stamp,
    pub op: OpView,
}

impl View for Op {
    type V = OpView;

    open spec fn view(&self) -> OpView {
        match self {
            Op::SetName(name) => OpView::SetName(name@),
            Op::UpsertMachine(record) => OpView::UpsertMachine(record@),
            Op::RemoveMachine(id) => OpView::RemoveMachine(*id),
            Op::SetSettings(settings) => OpView::SetSettings(settings@),
        }
    }
}

impl View for WorkspaceUpdate {
    type V = UpdateView;

    open spec fn view(&self) -> UpdateView {
        UpdateView {
            workspace_id: self.workspace_id,
            prev_lamport: self.prev_lamport,
            stamp: self.stamp,
            op: self.op@,
        }
    }
}

impl Clone for Op {
    fn clone(&self) -> (r: Self)
        ensures
            r@ == self@,
    {
        match self {
            Op::SetName(name) => Op::SetName(name.clone()),
            Op::UpsertMachine(record) => Op::UpsertMachine(record.clone()),
            Op::RemoveMachine(id) => Op::RemoveMachine(*id),
            Op::SetSettings(settings) => Op::SetSettings(settings.clone()),
        }
    }
}

impl Clone for WorkspaceUpdate {
    fn clone(&self) -> (r: Self)
        ensures
            r@ == self@,
    {
        WorkspaceUpdate {
            workspace_id: self.workspace_id,
            prev_lamport: self.prev_lamport,
            stamp: self.stamp,
            op: self.op.clone(),
        }
    }
}

#[derive(Debug)]
pub struct WorkspaceDoc {
    pub workspace_id: WorkspaceId,
    pub schema_version: u32,
    pub name: Lww<String>,
    /// Highest Lamport time this machine has seen. Local edits take
    /// `lamport + 1`, which is what makes them sort after everything known.
    pub lamport: u64,
    pub machines: BTreeMap<MachineId, MachineSlot>,
    pub settings: Lww<WorkspaceSettings>,
}

/// The document as contracts speak of it.
#[verifier::ext_equal]
pub struct DocView {
    pub workspace_id: WorkspaceId,
    pub schema_version: u32,
    pub name: Lww<Seq<char>>,
    pub lamport: u64,
    pub machines: Map<MachineId, SlotView>,
    pub settings: Lww<SettingsView>,
}

/// The slots of a document as contracts speak of them.
pub open spec fn slots_view(machines: Map<MachineId, MachineSlot>) -> Map<MachineId, SlotView> {
    machines.map_values(|slot: MachineSlot| slot@)
}

impl View for WorkspaceDoc {
    type V = DocView;

    open spec fn view(&self) -> DocView {
        DocView {
            workspace_id: self.workspace_id,
            schema_version: self.schema_version,
            name: Lww { value: self.name.value@, stamp: self.name.stamp },
            lamport: self.lamport,
            machines: slots_view(self.machines@),
            settings: Lww { value: self.settings.value@, stamp: self.settings.stamp },
        }
    }
}

impl Clone for WorkspaceDoc {
    fn clone(&self) -> (r: Self)
        ensures
            r@ == self@,
    {
        WorkspaceDoc {
            workspace_id: self.workspace_id,
            schema_version: self.schema_version,
            name: Lww::new(self.name.value.clone(), self.name.stamp),
            lamport: self.lamport,
            machines: self.machines.clone(),
            settings: Lww::new(self.settings.value.clone(), self.settings.stamp),
        }
    }
}

pub open spec fn max_u64(a: u64, b: u64) -> u64 {
    if a >= b {
        a
    } else {
        b
    }
}

/// The highest Lamport time among the slots of `ids`, zero where there are none.
pub open spec fn highest_slot(machines: Map<MachineId, SlotView>, ids: Seq<MachineId>) -> u64
    decreases ids.len(),
{
    if ids.len() == 0 {
        0
    } else {
        max_u64(highest_slot(machines, ids.drop_last()), machines[ids.last()].stamp.lamport)
    }
}

/// The records of those of `ids` whose machine is in the workspace, in order.
pub open spec fn present_among(
    machines: Map<MachineId, SlotView>,
    ids: Seq<MachineId>,
) -> Seq<RecordView>
    decreases ids.len(),
{
    if ids.len() == 0 {
        Seq::empty()
    } else {
        let init = present_among(machines, ids.drop_last());
        match machines[ids.last()].value {
            Some(record) => init.push(record),
            None => init,
        }
    }
}

/// `slot` merged into the slot of `id`: kept where that one is as new or newer.
pub open spec fn with_slot(
    machines: Map<MachineId, SlotView>,
    id: MachineId,
    slot: SlotView,
) -> Map<MachineId, SlotView> {
    if machines.contains_key(id) {
        machines.insert(id, stamp::newer(machines[id], slot))
    } else {
        machines.insert(id, slot)
    }
}

/// Whether merging `slot` into the slot of `id` changes anything.
pub open spec fn slot_is_news(
    machines: Map<MachineId, SlotView>,
    id: MachineId,
    slot: SlotView,
) -> bool {
    machines.contains_key(id) ==> machines[id].stamp.before(slot.stamp)
}

/// Every slot of `b` merged into the slots of `a`.
pub open spec fn merged_slots(
    a: Map<MachineId, SlotView>,
    b: Map<MachineId, SlotView>,
) -> Map<MachineId, SlotView> {
    Map::new(
        |id: MachineId| a.contains_key(id) || b.contains_key(id),
        |id: MachineId|
            if !b.contains_key(id) {
                a[id]
            } else if !a.contains_key(id) {
                b[id]
            } else {
                stamp::newer(a[id], b[id])
            },
    )
}

impl DocView {
    /// The record of `id`, where that machine is in the workspace.
    pub open spec fn record(self, id: MachineId) -> Option<RecordView> {
        if self.machines.contains_key(id) {
            self.machines[id].value
        } else {
            None
        }
    }

    /// Whether `id` was explicitly removed.
    pub open spec fn removed(self, id: MachineId) -> bool {
        self.machines.contains_key(id) && self.machines[id].value is None
    }

    /// The records of all machines in the workspace, by ascending slot.
    pub open spec fn present(self) -> Seq<RecordView> {
        present_among(self.machines, ids::ascending(self.machines.dom()))
    }

    /// The highest Lamport time that `self` shows to a machine merging it.
    pub open spec fn highest(self) -> u64 {
        max_u64(self.lamport, highest_slot(self.machines, ids::ascending(self.machines.dom())))
    }

    /// The clock of the document is past every write in it.
    pub open spec fn clock_is_ahead(self) -> bool {
        &&& self.name.stamp.lamport <= self.lamport
        &&& self.settings.stamp.lamport <= self.lamport
        &&& forall|id: MachineId| #[trigger]
            self.machines.contains_key(id) ==> self.machines[id].stamp.lamport <= self.lamport
    }

    /// Every record stands in the slot of its own machine.
    pub open spec fn slots_are_keyed(self) -> bool {
        forall|id: MachineId| #[trigger]
            self.machines.contains_key(id) ==> (self.machines[id].value matches Some(r) ==> r.id
                == id)
    }

    /// A document that this library made or received from one it made.
    pub open spec fn well_formed(self) -> bool {
        self.machines.dom().finite() && self.clock_is_ahead() && self.slots_are_keyed()
    }

    /// The document after a local change under `stamp`.
    pub open spec fn edited(self, stamp: Stamp, op: OpView) -> DocView {
        let ticked = DocView { lamport: stamp.lamport, ..self };
        match op {
            OpView::SetName(name) => DocView { name: Lww { value: name, stamp }, ..ticked },
            OpView::SetSettings(settings) => DocView {
                settings: Lww { value: settings, stamp },
                ..ticked
            },
            OpView::UpsertMachine(record) => DocView {
                machines: self.machines.insert(record.id, Lww { value: Some(record), stamp }),
                ..ticked
            },
            OpView::RemoveMachine(id) => DocView {
                machines: self.machines.insert(id, Lww { value: None, stamp }),
                ..ticked
            },
        }
    }

    /// The document after a peer's change under `stamp`.
    pub open spec fn applied(self, stamp: Stamp, op: OpView) -> DocView {
        let seen = DocView { lamport: max_u64(self.lamport, stamp.lamport), ..self };
        match op {
            OpView::SetName(name) => DocView {
                name: stamp::newer(self.name, Lww { value: name, stamp }),
                ..seen
            },
            OpView::SetSettings(settings) => DocView {
                settings: stamp::newer(self.settings, Lww { value: settings, stamp }),
                ..seen
            },
            OpView::UpsertMachine(record) => DocView {
                machines: with_slot(self.machines, record.id, Lww { value: Some(record), stamp }),
                ..seen
            },
            OpView::RemoveMachine(id) => DocView {
                machines: with_slot(self.machines, id, Lww { value: None, stamp }),
                ..seen
            },
        }
    }

    /// Whether a peer's change under `stamp` changes anything here.
    pub open spec fn is_news(self, stamp: Stamp, op: OpView) -> bool {
        match op {
            OpView::SetName(_) => self.name.stamp.before(stamp),
            OpView::SetSettings(_) => self.settings.stamp.before(stamp),
            OpView::UpsertMachine(record) => slot_is_news(
                self.machines,
                record.id,
                Lww { value: Some(record), stamp },
            ),
            OpView::RemoveMachine(id) => slot_is_news(
                self.machines,
                id,
                Lww { value: None, stamp },
            ),
        }
    }

    /// The document after merging a peer's whole document into it.
    pub open spec fn merged(self, other: DocView) -> DocView {
        DocView {
            workspace_id: self.workspace_id,
            schema_version: self.schema_version,
            name: stamp::newer(self.name, other.name),
            lamport: max_u64(self.lamport, other.highest()),
            machines: merged_slots(self.machines, other.machines),
            settings: stamp::newer(self.settings, other.settings),
        }
    }

    /// Whether merging `other` changes anything besides the clock.
    pub open spec fn learns_from(self, other: DocView) -> bool {
        ||| self.name.stamp.before(other.name.stamp)
        ||| self.settings.stamp.before(other.settings.stamp)
        ||| exists|id: MachineId| #[trigger]
            other.machines.contains_key(id) && slot_is_news(
                self.machines,
                id,
                other.machines[id],
            )
    }
}

/// Whether a display that is moved to `position` stays within a range of coordinates
/// that leaves room for any extent.
pub open spec fn is_placeable(d: DisplayView, position: Point) -> bool {
    &&& 0 < d.width
    &&& 0 < d.height
    &&& -0x3fff_ffff <= position.x + d.x
    &&& position.x + d.x + d.width <= 0x3fff_ffff
    &&& -0x3fff_ffff <= position.y + d.y
    &&& position.y + d.y + d.height <= 0x3fff_ffff
}

/// The bounding box of a machine reaches exactly as far as its displays do, each of
/// them moved by the machine's position: it covers every one, and each of its edges is
/// the edge of one.
pub proof fn bounds_reach_as_far_as_the_displays(displays: Seq<DisplayView>, position: Point)
    requires
        displays.len() > 0,
        forall|k: int| 0 <= k < displays.len() ==> is_placeable(#[trigger] displays[k], position),
    ensures
        bounds_of(displays, position) is Some,
        ({
            let b = bounds_of(displays, position)->0;
            &&& forall|k: int|
                0 <= k < displays.len() ==> {
                    let d = #[trigger] displays[k];
                    &&& b.x <= position.x + d.x
                    &&& b.y <= position.y + d.y
                    &&& position.x + d.x + d.width <= b.right()
                    &&& position.y + d.y + d.height <= b.bottom()
                }
            &&& exists|k: int|
                0 <= k < displays.len() && b.x == position.x + (#[trigger] displays[k]).x
            &&& exists|k: int|
                0 <= k < displays.len() && b.y == position.y + (#[trigger] displays[k]).y
            &&& exists|k: int|
                0 <= k < displays.len() && b.right() == position.x + (#[trigger] displays[k]).x
                    + displays[k].width
            &&& exists|k: int|
                0 <= k < displays.len() && b.bottom() == position.y + (#[trigger] displays[k]).y
                    + displays[k].height
        }),
    decreases displays.len(),
{
    let n = displays.len() - 1;
    let last = displays.last();
    assert(displays[n] == last);
    let r = last.area().translated(position);
    assert(r.x == position.x + last.x && r.right() == position.x + last.x + last.width);
    assert(r.y == position.y + last.y && r.bottom() == position.y + last.y + last.height);
    let init = displays.drop_last();
    if init.len() > 0 {
        assert forall|k: int| 0 <= k < init.len() implies is_placeable(
            #[trigger] init[k],
            position,
        ) by {
            assert(init[k] == displays[k]);
        }
        bounds_reach_as_far_as_the_displays(init, position);
        let b0 = bounds_of(init, position)->0;
        let b = bounds_of(displays, position)->0;
        assert(b == b0.joined(r));
        let kx = choose|k: int| 0 <= k < init.len() && b0.x == position.x + (#[trigger] init[k]).x;
        let ky = choose|k: int| 0 <= k < init.len() && b0.y == position.y + (#[trigger] init[k]).y;
        let kr = choose|k: int|
            0 <= k < init.len() && b0.right() == position.x + (#[trigger] init[k]).x
                + init[k].width;
        let kb = choose|k: int|
            0 <= k < init.len() && b0.bottom() == position.y + (#[trigger] init[k]).y
                + init[k].height;
        assert(init[kx] == displays[kx] && init[ky] == displays[ky] && init[kr] == displays[kr]
            && init[kb] == displays[kb]);
        assert(b.right() == crate::geometry::max_int(b0.right(), r.right()));
        assert(b.bottom() == crate::geometry::max_int(b0.bottom(), r.bottom()));
        assert forall|k: int| 0 <= k < displays.len() implies {
            let d = #[trigger] displays[k];
            &&& b.x <= position.x + d.x
            &&& b.y <= position.y + d.y
            &&& position.x + d.x + d.width <= b.right()
            &&& position.y + d.y + d.height <= b.bottom()
        } by {
            if k < n {
                assert(init[k] == displays[k]);
            }
        }
    } else {
        assert(bounds_of(displays, position) == Some(r));
    }
}

/// Whether two displays are the same as far as anybody can tell but for how their scales
/// are written down.
pub open spec fn look_alike(a: DisplayView, b: DisplayView) -> bool {
    a == (DisplayView { scale: a.scale, ..b })
}

/// Two layouts count as the same only if they look alike display by display: one that
/// was moved, resized, renamed or made the primary one is told apart, and so is one that
/// came or went. A layout counts as the same as itself unless a scale is not a number.
pub proof fn layouts_are_told_apart(a: Seq<DisplayView>, b: Seq<DisplayView>)
    ensures
        displays_equal(a, b) <==> displays_equal(b, a),
        displays_equal(a, b) ==> a.len() == b.len() && forall|i: int|
            0 <= i < a.len() ==> look_alike(#[trigger] a[i], b[i]),
        (forall|i: int| 0 <= i < a.len() ==> !(#[trigger] a[i]).scale.is_nan())
            ==> displays_equal(a, a),
{
    if displays_equal(a, b) {
        assert forall|i: int| 0 <= i < a.len() implies look_alike(#[trigger] a[i], b[i])
            && b[i].equals(a[i]) by {
            assert(a[i].equals(b[i]));
        }
    }
    if displays_equal(b, a) {
        assert forall|i: int| 0 <= i < a.len() implies #[trigger] a[i].equals(b[i]) by {
            assert(b[i].equals(a[i]));
        }
    }
}

/// Scales are compared as the numbers they stand for: the two zeros are one number, and
/// what is not a number is no number.
pub proof fn scales_are_compared_as_numbers(a: Scale, b: Scale)
    ensures
        a.equals(b) <==> b.equals(a),
        a.bits == 0x7fc0_0000 ==> !a.equals(a),
        a.bits == 0 && b.bits == 0x8000_0000 ==> a.equals(b),
        a.bits < 0x7f80_0000 && b.bits < 0x7f80_0000 ==> (a.equals(b) <==> a.bits == b.bits),
{
}

} // verus!
