//! What the window shows, and what its commands come to.
//!
//! The window is a view onto the agent, which owns the workspace, the peer
//! connections and what is reachable. Everything here is a translation: take the
//! agent and say what is on the screen, or take an intent from the screen and say
//! what it asks of the agent.

use std::collections::HashSet;

use vstd::prelude::*;

use crate::addr::{Endpoint, Ipv4};
use crate::agent;
use crate::agent::{Agent, AgentError, Candidate};
use crate::bytes;
use crate::discovery::Interface;
use crate::document;
use crate::geometry;
use crate::geometry::{saturate, Point};
use crate::identity;
use crate::identity::Identity;
use crate::ids;
use crate::ids::MachineId;
use crate::layout;
use crate::layout::{fallback_owner, resolve_cursor, Resolution};
use crate::model;
use crate::model::{
    DisplayInfo,
    DisplayView,
    DocView,
    InputAssignment,
    MachineRecord,
    OfflineEdgeBehavior,
    OpView,
    Platform,
    RecordView,
    SettingsView,
    WorkspaceDoc,
    WorkspaceSettings,
    WorkspaceUpdate,
};
use crate::order;
use crate::text;

verus! {

/// One physical screen, in workspace coordinates.
#[derive(Debug)]
pub struct UiScreen {
    pub name: String,
    pub x: i32,
    pub y: i32,
    pub width: u32,
    pub height: u32,
    pub primary: bool,
}

/// A screen as contracts speak of it.
#[verifier::ext_equal]
pub struct ScreenView {
    pub name: Seq<char>,
    pub x: i32,
    pub y: i32,
    pub width: u32,
    pub height: u32,
    pub primary: bool,
}

impl View for UiScreen {
    type V = ScreenView;

    open spec fn view(&self) -> ScreenView {
        ScreenView {
            name: self.name@,
            x: self.x,
            y: self.y,
            width: self.width,
            height: self.height,
            primary: self.primary,
        }
    }
}

/// One machine, as the canvas shows it.
#[derive(Debug)]
pub struct UiMachine {
    pub id: String,
    pub name: String,
    pub platform: String,
    pub fingerprint: String,
    pub x: i32,
    pub y: i32,
    pub width: u32,
    pub height: u32,
    pub keyboard: bool,
    pub mouse: bool,
    pub online: bool,
    pub is_local: bool,
    /// A machine that has connected at least once has told us its displays. One
    /// that has not is in the workspace but has no geometry yet.
    pub known_displays: bool,
    /// Every screen it has, so a machine with two monitors looks like one.
    pub screens: Vec<UiScreen>,
}

/// A machine on the canvas as contracts speak of it.
#[verifier::ext_equal]
pub struct CardView {
    pub id: Seq<char>,
    pub name: Seq<char>,
    pub platform: Seq<char>,
    pub fingerprint: Seq<char>,
    pub x: i32,
    pub y: i32,
    pub width: u32,
    pub height: u32,
    pub keyboard: bool,
    pub mouse: bool,
    pub online: bool,
    pub is_local: bool,
    pub known_displays: bool,
    pub screens: Seq<ScreenView>,
}

/// A list of screens as contracts speak of it.
pub open spec fn screens_view(screens: Seq<UiScreen>) -> Seq<ScreenView> {
    Seq::new(screens.len(), |i: int| screens[i]@)
}

impl View for UiMachine {
    type V = CardView;

    open spec fn view(&self) -> CardView {
        CardView {
            id: self.id@,
            name: self.name@,
            platform: self.platform@,
            fingerprint: self.fingerprint@,
            x: self.x,
            y: self.y,
            width: self.width,
            height: self.height,
            keyboard: self.keyboard,
            mouse: self.mouse,
            online: self.online,
            is_local: self.is_local,
            known_displays: self.known_displays,
            screens: screens_view(self.screens@),
        }
    }
}

/// A list of machines on the canvas as contracts speak of it.
pub open spec fn cards_view(machines: Seq<UiMachine>) -> Seq<CardView> {
    Seq::new(machines.len(), |i: int| machines[i]@)
}

/// The name of a platform on the screen.
pub open spec fn label(platform: Platform) -> Seq<char> {
    match platform {
        Platform::Windows => "Windows"@,
        Platform::MacOs => "macOS"@,
        Platform::Linux => "Linux"@,
        Platform::Other => "Unknown"@,
    }
}

/// The name of a platform on the screen.
pub fn platform_label(platform: Platform) -> (r: &'static str)
    ensures
        r@ == label(platform),
{
    match platform {
        Platform::Windows => "Windows",
        Platform::MacOs => "macOS",
        Platform::Linux => "Linux",
        Platform::Other => "Unknown",
    }
}

/// A display of a machine at `position`, as a screen in workspace coordinates.
pub open spec fn screen_of(display: DisplayView, position: Point) -> ScreenView {
    let area = display.area().translated(position);
    ScreenView {
        name: display.name,
        x: area.x,
        y: area.y,
        width: area.width,
        height: area.height,
        primary: display.primary,
    }
}

/// A machine on the canvas.
///
/// It is drawn at the corner of everything it covers. With one screen that equals
/// the machine's position; with a second screen to the left or above, it does
/// not, and drawing at the position would put the card in the wrong place.
pub open spec fn card(record: RecordView, me: MachineId, online: Set<MachineId>) -> CardView {
    CardView {
        id: ids::id_text(record.id),
        name: record.display_name,
        platform: label(record.platform),
        fingerprint: bytes::hex_text(record.public_key.take(4)),
        x: match record.bounds() {
            Some(b) => b.x,
            None => record.position.x,
        },
        y: match record.bounds() {
            Some(b) => b.y,
            None => record.position.y,
        },
        width: match record.bounds() {
            Some(b) => b.width,
            None => 0,
        },
        height: match record.bounds() {
            Some(b) => b.height,
            None => 0,
        },
        keyboard: record.input.provides_keyboard,
        mouse: record.input.provides_mouse,
        online: online.contains(record.id) || record.id == me,
        is_local: record.id == me,
        known_displays: record.displays.len() > 0,
        screens: Seq::new(
            record.displays.len(),
            |i: int| screen_of(record.displays[i], record.position),
        ),
    }
}

/// The cards of `records`, in their order.
pub open spec fn cards(records: Seq<RecordView>, me: MachineId, online: Set<MachineId>) -> Seq<
    CardView,
> {
    Seq::new(records.len(), |i: int| card(records[i], me, online))
}

/// Where the cards are.
pub open spec fn corners(cards: Seq<CardView>) -> Seq<Point> {
    Seq::new(cards.len(), |i: int| Point { x: cards[i].x, y: cards[i].y })
}

/// The cards in reading order.
pub open spec fn arranged(cards: Seq<CardView>) -> Seq<CardView> {
    let listed = order::reading_order(corners(cards), cards.len() as int);
    Seq::new(listed.len(), |i: int| cards[listed[i]])
}

fn screens_of(record: &MachineRecord) -> (r: Vec<UiScreen>)
    ensures
        screens_view(r@) == Seq::new(
            record@.displays.len(),
            |i: int| screen_of(record@.displays[i], record.position),
        ),
{
    let mut out: Vec<UiScreen> = Vec::new();
    let mut i: usize = 0;
    while i < record.displays.len()
        invariant
            i <= record.displays@.len(),
            out@.len() == i,
            forall|k: int|
                0 <= k < i ==> #[trigger] out@[k]@ == screen_of(
                    record@.displays[k],
                    record.position,
                ),
        decreases record.displays@.len() - i,
    {
        let display: &DisplayInfo = &record.displays[i];
        let area = display.rect().translate(record.position);
        out.push(
            UiScreen {
                name: display.name.clone(),
                x: area.x,
                y: area.y,
                width: area.width,
                height: area.height,
                primary: display.primary,
            },
        );
        i = i + 1;
    }
    assert(screens_view(out@) =~= Seq::new(
        record@.displays.len(),
        |i: int| screen_of(record@.displays[i], record.position),
    ));
    out
}

fn card_of(record: &MachineRecord, me: MachineId, online: &HashSet<MachineId>) -> (r: UiMachine)
    ensures
        r@ == card(record@, me, online@),
{
    let bounds = record.bounds();
    UiMachine {
        id: ids::format_id(record.id),
        name: record.display_name.clone(),
        platform: String::from_str(platform_label(record.platform)),
        fingerprint: record.public_key.fingerprint(),
        x: match bounds {
            Some(b) => b.x,
            None => record.position.x,
        },
        y: match bounds {
            Some(b) => b.y,
            None => record.position.y,
        },
        width: match bounds {
            Some(b) => b.width,
            None => 0,
        },
        height: match bounds {
            Some(b) => b.height,
            None => 0,
        },
        keyboard: record.input.provides_keyboard,
        mouse: record.input.provides_mouse,
        online: online.contains(&record.id) || record.id == me,
        is_local: record.id == me,
        known_displays: record.displays.len() > 0,
        screens: screens_of(record),
    }
}

/// The machines of the workspace on the canvas, in reading order.
pub fn machines_shown(doc: &WorkspaceDoc, me: MachineId, online: &HashSet<MachineId>) -> (r: Vec<
    UiMachine,
>)
    ensures
        cards_view(r@) == arranged(cards(doc@.present(), me, online@)),
{
    let present = doc.machines_present();
    let ghost records = document::records_view(present@);
    let ghost shown = cards(records, me, online@);
    let mut places: Vec<Point> = Vec::new();
    let mut i: usize = 0;
    while i < present.len()
        invariant
            i <= present@.len(),
            records == document::records_view(present@),
            shown == cards(records, me, online@),
            places@ =~= corners(shown).take(i as int),
        decreases present@.len() - i,
    {
        let one = card_of(present[i], me, online);
        assert(one@ == shown[i as int]);
        places.push(Point { x: one.x, y: one.y });
        i = i + 1;
    }
    assert(places@ =~= corners(shown));
    let listed = order::in_reading_order(&places);
    proof {
        order::reading_order_is_sorted_and_complete(places@, places@.len() as int);
    }
    let ghost list = order::indices(listed@);
    let mut out: Vec<UiMachine> = Vec::new();
    let mut j: usize = 0;
    while j < listed.len()
        invariant
            j <= listed@.len(),
            records == document::records_view(present@),
            shown == cards(records, me, online@),
            list == order::indices(listed@),
            list.len() == listed@.len(),
            forall|x: int| list.contains(x) ==> 0 <= x < present@.len(),
            out@.len() == j,
            forall|k: int| 0 <= k < j ==> #[trigger] out@[k]@ == shown[list[k]],
        decreases listed@.len() - j,
    {
        assert(list[j as int] == listed@[j as int]);
        assert(list.contains(list[j as int]));
        out.push(card_of(present[listed[j]], me, online));
        assert(out@[j as int]@ == shown[list[j as int]]);
        j = j + 1;
    }
    assert(cards_view(out@) =~= arranged(shown));
    out
}

/// The cards are in reading order and none is left out.
pub proof fn cards_resemble_the_desk(shown: Seq<CardView>)
    ensures
        arranged(shown).len() == shown.len(),
        forall|a: int, b: int|
            0 <= a < b < shown.len() ==> !order::reads_before(
                #[trigger] corners(arranged(shown))[b],
                #[trigger] corners(arranged(shown))[a],
            ),
        forall|c: CardView| arranged(shown).contains(c) <==> shown.contains(c),
{
    let places = corners(shown);
    let n = shown.len() as int;
    order::reading_order_is_sorted_and_complete(places, n);
    let listed = order::reading_order(places, n);
    assert forall|k: int| 0 <= k < n implies 0 <= #[trigger] listed[k] < n by {
        assert(listed.contains(listed[k]));
    }
    assert forall|a: int, b: int| 0 <= a < b < n implies !order::reads_before(
        #[trigger] corners(arranged(shown))[b],
        #[trigger] corners(arranged(shown))[a],
    ) by {
        assert(order::in_order(places, listed[a], listed[b]));
        assert(0 <= listed[a] < n && 0 <= listed[b] < n);
    }
    assert forall|c: CardView| arranged(shown).contains(c) <==> shown.contains(c) by {
        if arranged(shown).contains(c) {
            let k = choose|k: int| 0 <= k < n && arranged(shown)[k] == c;
            assert(shown[listed[k]] == c);
        }
        if shown.contains(c) {
            let k = choose|k: int| 0 <= k < n && shown[k] == c;
            assert(listed.contains(k));
            let m = choose|m: int| 0 <= m < n && listed[m] == k;
            assert(arranged(shown)[m] == c);
        }
    }
}

/// The settings, as the window shows and edits them.
#[derive(Debug)]
pub struct UiSettings {
    pub clipboard_sync: bool,
    pub offline_edge: String,
    pub discovery_port: u16,
    pub transport_port: u16,
    pub autostart: bool,
}

/// The name of an edge behaviour.
pub open spec fn edge_name(edge: OfflineEdgeBehavior) -> Seq<char> {
    match edge {
        OfflineEdgeBehavior::Block => "block"@,
        OfflineEdgeBehavior::SkipOver => "skip_over"@,
    }
}

/// Whether `r` shows the settings `s`.
pub open spec fn shows_settings(r: UiSettings, s: SettingsView) -> bool {
    &&& r.clipboard_sync == s.clipboard_sync
    &&& r.offline_edge@ == edge_name(s.offline_edge)
    &&& r.discovery_port == s.discovery_port
    &&& r.transport_port == s.transport_port
    &&& r.autostart == s.autostart
}

/// The workspace, as the window shows it.
#[derive(Debug)]
pub struct UiWorkspace {
    pub id: String,
    pub name: String,
    pub revision: u64,
    pub settings: UiSettings,
    pub machines: Vec<UiMachine>,
    pub cursor_owner: Option<String>,
}

/// The name of the machine that the pointer is on: the live one while input is
/// being shared; otherwise the machine that would take the pointer if it had to
/// be placed somewhere.
pub open spec fn pointer_holder(
    doc: DocView,
    me: MachineId,
    online: Set<MachineId>,
    live: Option<MachineId>,
) -> Option<Seq<char>> {
    let owner = match live {
        Some(id) => Some(id),
        None => layout::fallback(doc, online.insert(me), me),
    };
    match owner {
        Some(id) => match doc.record(id) {
            Some(record) => Some(record.display_name),
            None => None,
        },
        None => None,
    }
}

/// An optional text taken by its view.
pub open spec fn optional_text(text: Option<String>) -> Option<Seq<char>> {
    match text {
        Some(text) => Some(text@),
        None => None,
    }
}

/// Whether `r` shows the workspace `doc` to the machine `me`.
pub open spec fn shows_workspace(
    r: UiWorkspace,
    doc: DocView,
    me: MachineId,
    online: Set<MachineId>,
    live: Option<MachineId>,
) -> bool {
    &&& r.id@ == ids::id_text(doc.workspace_id)
    &&& r.name@ == doc.name.value
    &&& r.revision == doc.lamport
    &&& shows_settings(r.settings, doc.settings.value)
    &&& cards_view(r.machines@) == arranged(cards(doc.present(), me, online))
    &&& optional_text(r.cursor_owner) == pointer_holder(doc, me, online, live)
}

/// The workspace, as the window shows it.
pub fn workspace_shown(
    doc: &WorkspaceDoc,
    me: MachineId,
    online: &HashSet<MachineId>,
    live: Option<MachineId>,
) -> (r: UiWorkspace)
    ensures
        shows_workspace(r, doc@, me, online@, live),
{
    let machines = machines_shown(doc, me, online);
    let mut reachable = ids::copy_set(online);
    let _ = reachable.insert(me);
    let owner = match live {
        Some(id) => Some(id),
        None => fallback_owner(doc, &reachable, me),
    };
    let cursor_owner = match owner {
        Some(id) => name_of(doc, id),
        None => None,
    };
    let settings = &doc.settings.value;
    UiWorkspace {
        id: ids::format_id(doc.workspace_id),
        name: doc.name.value.clone(),
        revision: doc.lamport,
        settings: UiSettings {
            clipboard_sync: settings.clipboard_sync,
            offline_edge: String::from_str(
                match settings.offline_edge {
                    OfflineEdgeBehavior::Block => "block",
                    OfflineEdgeBehavior::SkipOver => "skip_over",
                },
            ),
            discovery_port: settings.discovery_port,
            transport_port: settings.transport_port,
            autostart: settings.autostart,
        },
        machines,
        cursor_owner,
    }
}

/// The name of a machine in the workspace.
fn name_of(doc: &WorkspaceDoc, id: MachineId) -> (r: Option<String>)
    ensures
        optional_text(r) == (match doc@.record(id) {
            Some(record) => Some(record.display_name),
            None => None::<Seq<char>>,
        }),
{
    match doc.machine(id) {
        Some(record) => Some(record.display_name.clone()),
        None => None,
    }
}

/// A machine that could be paired with, as the window shows it.
#[derive(Debug)]
pub struct UiCandidate {
    pub machine_id: String,
    pub display_name: String,
    pub fingerprint: String,
    pub addr: Endpoint,
    pub seconds_since_seen: u64,
    pub has_workspace: bool,
    /// It already admitted this computer; one click finishes the pairing.
    pub invited_us: bool,
}

/// Whether `r` shows the candidate `c` at the time `now`.
pub open spec fn shows_candidate(r: UiCandidate, c: Candidate, now: u64) -> bool {
    &&& r.machine_id@ == ids::id_text(c.machine_id)
    &&& r.display_name@ == c.display_name@
    &&& r.fingerprint@ == bytes::hex_text(c.identity_key@.take(4))
    &&& r.addr == c.addr
    &&& r.seconds_since_seen == (if now > c.last_seen_ms {
        (now - c.last_seen_ms) / 1000
    } else {
        0
    })
    &&& r.has_workspace == c.has_workspace
    &&& r.invited_us == c.invited_us
}

/// A machine that could be paired with, as the window shows it.
pub fn candidate_shown(c: &Candidate, now: u64) -> (r: UiCandidate)
    ensures
        shows_candidate(r, *c, now),
{
    UiCandidate {
        machine_id: ids::format_id(c.machine_id),
        display_name: c.display_name.clone(),
        fingerprint: c.identity_key.fingerprint(),
        addr: c.addr,
        seconds_since_seen: if now > c.last_seen_ms {
            (now - c.last_seen_ms) / 1000
        } else {
            0
        },
        has_workspace: c.has_workspace,
        invited_us: c.invited_us,
    }
}

/// One network card, as the scan view shows it.
#[derive(Debug)]
pub struct UiInterface {
    pub name: String,
    pub address: String,
    /// A `169.254.x.x` address: the adapter never got one from a router, so
    /// nothing is likely to be found on it.
    pub self_assigned: bool,
}

/// Whether `r` shows the interface `i`.
pub open spec fn shows_interface(r: UiInterface, i: Interface) -> bool {
    &&& r.name@ == i.name@
    &&& r.address@ == address_text(i.address)
    &&& r.self_assigned == i.self_assigned
}

/// An IPv4 address as text: its four bytes in decimal, with dots between them.
pub open spec fn address_text(address: Ipv4) -> Seq<char> {
    text::decimal((address / 0x100_0000) as nat) + "."@ + text::decimal(
        (address / 0x1_0000 % 0x100) as nat,
    ) + "."@ + text::decimal((address / 0x100 % 0x100) as nat) + "."@ + text::decimal(
        (address % 0x100) as nat,
    )
}

/// An IPv4 address as text.
pub fn ipv4_text(address: Ipv4) -> (r: String)
    ensures
        r@ == address_text(address),
{
    let mut out = text::decimal_text((address / 0x100_0000) as u64);
    out.append(".");
    out.append(text::decimal_text((address / 0x1_0000 % 0x100) as u64).as_str());
    out.append(".");
    out.append(text::decimal_text((address / 0x100 % 0x100) as u64).as_str());
    out.append(".");
    out.append(text::decimal_text((address % 0x100) as u64).as_str());
    out
}

/// Everything on the screen.
#[derive(Debug)]
pub struct UiState {
    pub machine_id: String,
    pub fingerprint: String,
    pub config_dir: String,
    pub transport_port: Option<u16>,
    pub autostart: bool,
    pub sharing: bool,
    /// Suggested name for this machine, from the computer's own name.
    pub computer_name: String,
    pub discovery_port: u16,
    pub interfaces: Vec<UiInterface>,
    pub manual_peers: Vec<Endpoint>,
    pub candidates: Vec<UiCandidate>,
    /// Machines this computer asked to join, still waiting to be admitted from
    /// the other end.
    pub awaiting_join: Vec<String>,
    pub workspace: Option<UiWorkspace>,
}

/// What the screen shows of the computer rather than of the agent.
#[derive(Debug)]
pub struct Surroundings {
    pub config_dir: String,
    /// The port that connections are accepted on, once they are.
    pub transport_port: Option<u16>,
    /// Whether the program starts at login.
    pub autostart: bool,
    pub computer_name: String,
    pub interfaces: Vec<Interface>,
    /// The time of day, in milliseconds.
    pub now: u64,
}

/// Everything on the screen, for the agent of the machine with `identity`.
pub fn view(agent: &Agent, identity: &Identity, around: Surroundings) -> (r: UiState)
    ensures
        r.machine_id@ == ids::id_text(identity.machine_id),
        r.fingerprint@ == bytes::hex_text(
            identity::public_key_of(identity.secret()).take(4),
        ),
        r.config_dir == around.config_dir,
        r.transport_port == around.transport_port,
        r.autostart == around.autostart,
        r.sharing == agent@.sharing,
        r.computer_name == around.computer_name,
        r.discovery_port == agent::settings_in_force(agent@.doc).discovery_port,
        r.interfaces@.len() == around.interfaces@.len(),
        forall|i: int|
            0 <= i < r.interfaces@.len() ==> shows_interface(
                #[trigger] r.interfaces@[i],
                around.interfaces@[i],
            ),
        r.manual_peers@ == agent@.manual_peers,
        r.candidates@.len() == agent::values_in_order(agent@.candidates).len(),
        forall|i: int|
            0 <= i < r.candidates@.len() ==> shows_candidate(
                #[trigger] r.candidates@[i],
                agent::values_in_order(agent@.candidates)[i],
                around.now,
            ),
        r.awaiting_join@.len() == ids::ascending(agent@.pending_trust.dom()).len(),
        forall|i: int|
            0 <= i < r.awaiting_join@.len() ==> (#[trigger] r.awaiting_join@[i])@ == ids::id_text(
                ids::ascending(agent@.pending_trust.dom())[i],
            ),
        r.workspace is Some == agent@.doc is Some,
        agent@.doc matches Some(doc) ==> shows_workspace(
            r.workspace->0,
            doc,
            identity.machine_id,
            agent@.online,
            agent@.cursor_owner,
        ),
{
    let snapshot = agent.snapshot();
    let me: MachineId = identity.machine_id;
    let workspace = match &snapshot.doc {
        Some(doc) => Some(workspace_shown(doc, me, &snapshot.online, snapshot.cursor_owner)),
        None => None,
    };
    let mut interfaces: Vec<UiInterface> = Vec::new();
    let mut i: usize = 0;
    while i < around.interfaces.len()
        invariant
            i <= around.interfaces@.len(),
            interfaces@.len() == i,
            forall|k: int|
                0 <= k < i ==> shows_interface(
                    #[trigger] interfaces@[k],
                    around.interfaces@[k],
                ),
        decreases around.interfaces@.len() - i,
    {
        let one = &around.interfaces[i];
        interfaces.push(
            UiInterface {
                name: one.name.clone(),
                address: ipv4_text(one.address),
                self_assigned: one.self_assigned,
            },
        );
        i = i + 1;
    }
    let mut candidates: Vec<UiCandidate> = Vec::new();
    let mut j: usize = 0;
    while j < snapshot.candidates.len()
        invariant
            j <= snapshot.candidates@.len(),
            candidates@.len() == j,
            forall|k: int|
                0 <= k < j ==> shows_candidate(
                    #[trigger] candidates@[k],
                    snapshot.candidates@[k],
                    around.now,
                ),
        decreases snapshot.candidates@.len() - j,
    {
        candidates.push(candidate_shown(&snapshot.candidates[j], around.now));
        j = j + 1;
    }
    let mut awaiting_join: Vec<String> = Vec::new();
    let mut k: usize = 0;
    while k < snapshot.awaiting_join.len()
        invariant
            k <= snapshot.awaiting_join@.len(),
            awaiting_join@.len() == k,
            forall|m: int|
                0 <= m < k ==> (#[trigger] awaiting_join@[m])@ == ids::id_text(
                    snapshot.awaiting_join@[m],
                ),
        decreases snapshot.awaiting_join@.len() - k,
    {
        awaiting_join.push(ids::format_id(snapshot.awaiting_join[k]));
        k = k + 1;
    }
    UiState {
        machine_id: ids::format_id(me),
        fingerprint: identity.public_key().fingerprint(),
        config_dir: around.config_dir,
        transport_port: around.transport_port,
        autostart: around.autostart,
        sharing: agent.is_sharing(),
        computer_name: around.computer_name,
        discovery_port: agent.discovery_port(),
        interfaces,
        manual_peers: snapshot.manual_peers,
        candidates,
        awaiting_join,
        workspace,
    }
}

/// Why a command was not carried out.
#[derive(Debug)]
pub enum CommandError {
    /// The request makes no sense, for this reason.
    Refused(String),
    Agent(AgentError),
}

/// The machine that a text names.
pub fn parse_machine_id(id: &str) -> (r: core::result::Result<MachineId, String>)
    ensures
        match ids::id_parsed(id@) {
            Some(machine_id) => r == Ok::<MachineId, String>(machine_id),
            None => r is Err && r->Err_0@ == "not a machine id: "@ + id@,
        },
{
    match ids::parse_id(id) {
        Some(machine_id) => Ok(machine_id),
        None => Err(text::joined("not a machine id: ", id)),
    }
}

/// A change to one field of a machine's record.
#[derive(Debug)]
pub enum MachineEdit {
    /// Move the machine so that the corner of everything it covers lands here.
    ///
    /// The canvas works in that corner, not in the machine's own origin: with
    /// two screens the two are different, and asking the interface to know the
    /// difference is how a card ends up somewhere other than where it was
    /// dropped.
    Place { x: i32, y: i32 },
    Rename(String),
    Input { keyboard: bool, mouse: bool },
}

/// The position that puts the corner of a machine at `corner`.
pub open spec fn placed(record: RecordView, corner: Point) -> Point {
    match record.bounds() {
        Some(b) => Point {
            x: geometry::saturated(corner.x - (b.x - record.position.x)) as i32,
            y: geometry::saturated(corner.y - (b.y - record.position.y)) as i32,
        },
        None => corner,
    }
}

/// The record once it is edited.
pub open spec fn edited_record(record: RecordView, edit: MachineEdit) -> RecordView {
    match edit {
        MachineEdit::Place { x, y } => RecordView {
            position: placed(record, Point { x, y }),
            ..record
        },
        MachineEdit::Rename(name) => RecordView { display_name: name@, ..record },
        MachineEdit::Input { keyboard, mouse } => RecordView {
            input: InputAssignment { provides_keyboard: keyboard, provides_mouse: mouse },
            ..record
        },
    }
}

/// Replaces a field on a machine record and writes the whole record back.
///
/// Coarse on purpose: the document's merge is per machine, so a partial update
/// would still have to become a whole record before it could be shared.
pub fn edit_machine(agent: &mut Agent, id: &str, edit: MachineEdit) -> (r: core::result::Result<
    WorkspaceUpdate,
    CommandError,
>)
    requires
        old(agent)@.doc matches Some(doc) ==> doc.lamport < u64::MAX,
    ensures
        ({
            let machine = ids::id_parsed(id@);
            let record = match old(agent)@.doc {
                Some(doc) if machine is Some => doc.record(machine->0),
                _ => None,
            };
            if machine is None {
                &&& r matches Err(CommandError::Refused(why))
                &&& why@ == "not a machine id: "@ + id@
                &&& final(agent)@ == old(agent)@
            } else if record is None {
                &&& r matches Err(CommandError::Refused(why))
                &&& why@ == "no such machine"@
                &&& final(agent)@ == old(agent)@
            } else {
                &&& r matches Ok(update)
                &&& agent::edits(
                    old(agent)@,
                    final(agent)@,
                    Ok(update),
                    OpView::UpsertMachine(edited_record(record->0, edit)),
                )
            }
        }),
{
    let machine: MachineId = match parse_machine_id(id) {
        Ok(machine) => machine,
        Err(why) => {
            return Err(CommandError::Refused(why));
        },
    };
    let found = match &agent.doc {
        Some(doc) => match doc.machine(machine) {
            Some(record) => Some(record.clone()),
            None => None,
        },
        None => None,
    };
    let mut record = match found {
        Some(record) => record,
        None => {
            return Err(CommandError::Refused(String::from_str("no such machine")));
        },
    };
    let ghost was = record@;
    let ghost change = edit;
    match edit {
        MachineEdit::Place { x, y } => {
            let position = match record.bounds() {
                Some(b) => Point {
                    x: saturate(x as i64 - (b.x as i64 - record.position.x as i64)),
                    y: saturate(y as i64 - (b.y as i64 - record.position.y as i64)),
                },
                None => Point { x, y },
            };
            record.position = position;
        },
        MachineEdit::Rename(name) => {
            record.display_name = name;
        },
        MachineEdit::Input { keyboard, mouse } => {
            record.input = InputAssignment { provides_keyboard: keyboard, provides_mouse: mouse };
        },
    }
    assert(record@ =~= edited_record(was, change));
    match agent.upsert_machine(record) {
        Ok(update) => Ok(update),
        Err(e) => Err(CommandError::Agent(e)),
    }
}

/// Whether all displays of a machine at `position` are where they should be, with
/// none pushed back by the end of the coordinates.
pub open spec fn fits(displays: Seq<DisplayView>, position: Point) -> bool {
    forall|i: int|
        0 <= i < displays.len() ==> {
            &&& i32::MIN <= (#[trigger] displays[i]).x + position.x <= i32::MAX
            &&& i32::MIN <= displays[i].y + position.y <= i32::MAX
        }
}

/// Moving the origin of displays moves the corner of their bounding box with it.
proof fn corner_follows_the_origin(displays: Seq<DisplayView>, from: Point, to: Point)
    requires
        fits(displays, from),
        fits(displays, to),
    ensures
        model::bounds_of(displays, from) is Some == model::bounds_of(displays, to) is Some,
        displays.len() > 0 ==> {
            &&& model::bounds_of(displays, from) is Some
            &&& model::bounds_of(displays, to)->0.x - to.x == model::bounds_of(displays, from)->0.x
                - from.x
            &&& model::bounds_of(displays, to)->0.y - to.y == model::bounds_of(displays, from)->0.y
                - from.y
        },
    decreases displays.len(),
{
    if displays.len() > 0 {
        let init = displays.drop_last();
        assert(displays.last() == displays[displays.len() - 1]);
        assert forall|i: int| 0 <= i < init.len() implies {
            &&& i32::MIN <= (#[trigger] init[i]).x + from.x <= i32::MAX
            &&& i32::MIN <= init[i].y + from.y <= i32::MAX
            &&& i32::MIN <= init[i].x + to.x <= i32::MAX
            &&& i32::MIN <= init[i].y + to.y <= i32::MAX
        } by {
            assert(init[i] == displays[i]);
        }
        corner_follows_the_origin(init, from, to);
    }
}

/// A card that is dropped somewhere is there afterwards: placing a machine puts the
/// corner of everything it covers at the place, so long as no display is pushed
/// back by the end of the coordinates.
pub proof fn a_card_stays_where_it_was_dropped(
    record: RecordView,
    x: i32,
    y: i32,
    me: MachineId,
    online: Set<MachineId>,
)
    requires
        fits(record.displays, record.position),
        fits(record.displays, placed(record, Point { x, y })),
        record.bounds() matches Some(b) ==> {
            &&& i32::MIN <= x - (b.x - record.position.x) <= i32::MAX
            &&& i32::MIN <= y - (b.y - record.position.y) <= i32::MAX
        },
    ensures
        card(edited_record(record, MachineEdit::Place { x, y }), me, online).x == x,
        card(edited_record(record, MachineEdit::Place { x, y }), me, online).y == y,
{
    let to = placed(record, Point { x, y });
    corner_follows_the_origin(record.displays, record.position, to);
}

/// The settings that the window asks for; the interfaces that are preferred stay as
/// they are.
pub open spec fn asked(r: UiSettings, edge: OfflineEdgeBehavior, now: SettingsView) -> SettingsView {
    SettingsView {
        clipboard_sync: r.clipboard_sync,
        offline_edge: edge,
        discovery_port: r.discovery_port,
        transport_port: r.transport_port,
        preferred_interfaces: now.preferred_interfaces,
        autostart: r.autostart,
    }
}

/// The edge behaviour with a name.
pub open spec fn edge_named(name: Seq<char>) -> Option<OfflineEdgeBehavior> {
    if name == "skip_over"@ {
        Some(OfflineEdgeBehavior::SkipOver)
    } else if name == "block"@ {
        Some(OfflineEdgeBehavior::Block)
    } else {
        None
    }
}

/// Changes the shared settings to what the window asks for.
pub fn update_settings(agent: &mut Agent, settings: UiSettings) -> (r: core::result::Result<
    WorkspaceUpdate,
    CommandError,
>)
    requires
        old(agent)@.doc matches Some(doc) ==> doc.lamport < u64::MAX,
    ensures
        match edge_named(settings.offline_edge@) {
            None => {
                &&& r matches Err(CommandError::Refused(why))
                &&& why@ == "unknown offline edge behaviour: "@ + settings.offline_edge@
                &&& final(agent)@ == old(agent)@
            },
            Some(edge) => match old(agent)@.doc {
                None => r == Err::<WorkspaceUpdate, CommandError>(
                    CommandError::Agent(AgentError::NoWorkspace),
                ) && final(agent)@ == old(agent)@,
                Some(doc) => r is Ok && agent::edits(
                    old(agent)@,
                    final(agent)@,
                    Ok(r->Ok_0),
                    OpView::SetSettings(asked(settings, edge, doc.settings.value)),
                ),
            },
        },
{
    let edge = if text::same_text(settings.offline_edge.as_str(), "skip_over") {
        OfflineEdgeBehavior::SkipOver
    } else if text::same_text(settings.offline_edge.as_str(), "block") {
        OfflineEdgeBehavior::Block
    } else {
        return Err(
            CommandError::Refused(
                text::joined("unknown offline edge behaviour: ", settings.offline_edge.as_str()),
            ),
        );
    };
    let preferred_interfaces = match &agent.doc {
        Some(doc) => model::clone_texts(&doc.settings.value.preferred_interfaces),
        None => Vec::new(),
    };
    let wanted = WorkspaceSettings {
        clipboard_sync: settings.clipboard_sync,
        offline_edge: edge,
        discovery_port: settings.discovery_port,
        transport_port: settings.transport_port,
        preferred_interfaces,
        autostart: settings.autostart,
    };
    proof {
        if let Some(doc) = agent@.doc {
            assert(wanted@ =~= asked(settings, edge, doc.settings.value));
        }
    }
    match agent.update_settings(wanted) {
        Ok(update) => Ok(update),
        Err(e) => Err(CommandError::Agent(e)),
    }
}

/// Where the pointer would go.
#[derive(Debug)]
pub struct RouteResult {
    pub outcome: String,
    pub machine: Option<String>,
    pub x: i32,
    pub y: i32,
    pub explanation: String,
}

/// Whether `r` tells what becomes of a pointer on the machine `from` that heads for
/// `target`.
pub open spec fn tells_route(
    r: RouteResult,
    doc: DocView,
    online: Set<MachineId>,
    from: MachineId,
    target: Point,
) -> bool {
    let inside = match doc.record(from) {
        Some(record) => match record.bounds() {
            Some(bounds) => bounds.covers(target),
            None => false,
        },
        None => false,
    };
    match layout::resolved(doc, online, from, target) {
        Resolution::Stay(point) => {
            &&& r.outcome@ == if inside {
                "same"@
            } else {
                "blocked"@
            }
            &&& r.explanation@ == if inside {
                "still on the same machine"@
            } else {
                "held at the boundary \u{2014} nothing online over there"@
            }
            &&& optional_text(r.machine) == match doc.record(from) {
                Some(record) => Some(record.display_name),
                None => None,
            }
            &&& r.x == point.x
            &&& r.y == point.y
        },
        Resolution::Move { machine, point } => {
            &&& r.outcome@ == "handoff"@
            &&& r.explanation@ == "crosses over"@
            &&& optional_text(r.machine) == match doc.record(machine) {
                Some(record) => Some(record.display_name),
                None => None,
            }
            &&& r.x == point.x
            &&& r.y == point.y
        },
    }
}

/// Where a pointer on the machine `from` would go if it headed for a point. This
/// machine, `me`, counts as online.
pub fn resolve_route(agent: &Agent, me: MachineId, from: &str, x: i32, y: i32) -> (r:
    core::result::Result<RouteResult, String>)
    ensures
        match agent@.doc {
            None => r is Err && r->Err_0@ == "no workspace"@,
            Some(doc) => match ids::id_parsed(from@) {
                None => r is Err && r->Err_0@ == "not a machine id: "@ + from@,
                Some(id) => r is Ok && tells_route(
                    r->Ok_0,
                    doc,
                    agent@.online.insert(me),
                    id,
                    Point { x, y },
                ),
            },
        },
{
    let doc = match &agent.doc {
        Some(doc) => doc,
        None => {
            return Err(String::from_str("no workspace"));
        },
    };
    let from: MachineId = match parse_machine_id(from) {
        Ok(id) => id,
        Err(why) => {
            return Err(why);
        },
    };
    let mut online = ids::copy_set(&agent.online);
    let _ = online.insert(me);
    let target = Point { x, y };
    Ok(route_shown(doc, &online, from, target))
}

/// Where a pointer on the machine `from` would go if it headed for `target`.
pub fn route_shown(
    doc: &WorkspaceDoc,
    online: &HashSet<MachineId>,
    from: MachineId,
    target: Point,
) -> (r: RouteResult)
    ensures
        tells_route(r, doc@, online@, from, target),
{
    match resolve_cursor(doc, online, from, target) {
        Resolution::Stay(point) => {
            let inside = match doc.machine(from) {
                Some(record) => match record.bounds() {
                    Some(bounds) => bounds.contains(target),
                    None => false,
                },
                None => false,
            };
            RouteResult {
                outcome: String::from_str(
                    if inside {
                        "same"
                    } else {
                        "blocked"
                    },
                ),
                machine: name_of(doc, from),
                x: point.x,
                y: point.y,
                explanation: String::from_str(
                    if inside {
                        "still on the same machine"
                    } else {
                        "held at the boundary \u{2014} nothing online over there"
                    },
                ),
            }
        },
        Resolution::Move { machine, point } => RouteResult {
            outcome: String::from_str("handoff"),
            machine: name_of(doc, machine),
            x: point.x,
            y: point.y,
            explanation: String::from_str("crosses over"),
        },
    }
}

/// The texts to read as an address, in turn, when someone types `address`: it as it
/// stands, and it with the port that announcements go to. The bare form gets that
/// port because it is the number nobody should have to know.
pub fn address_attempts(address: &str, discovery_port: u16) -> (r: core::result::Result<
    (String, String),
    String,
>)
    ensures
        ({
            let trimmed = text::trimmed(address@);
            if trimmed.len() == 0 {
                r is Err && r->Err_0@ == "enter an address"@
            } else {
                &&& r is Ok
                &&& r->Ok_0.0@ == trimmed
                &&& r->Ok_0.1@ == trimmed + ":"@ + text::decimal(discovery_port as nat)
            }
        }),
{
    let trimmed = text::trim(address);
    if trimmed.as_str().unicode_len() == 0 {
        return Err(String::from_str("enter an address"));
    }
    let mut with_port = text::joined(trimmed.as_str(), ":");
    with_port.append(text::decimal_text(discovery_port as u64).as_str());
    Ok((trimmed, with_port))
}

/// The address that is meant, given what reading it as it stands and with the port that
/// announcements go to gave.
pub open spec fn address_meant(as_given: Option<Endpoint>, with_port: Option<Endpoint>) -> Option<
    Endpoint,
> {
    match as_given {
        Some(at) => Some(at),
        None => with_port,
    }
}

/// The address that someone typed, given what each of the attempts to read it gave.
pub fn address_read(
    address: &str,
    as_given: Option<Endpoint>,
    with_port: Option<Endpoint>,
) -> (r: core::result::Result<Endpoint, String>)
    ensures
        match address_meant(as_given, with_port) {
            Some(at) => r == Ok::<Endpoint, String>(at),
            None => r is Err && r->Err_0@ == "\""@ + text::trimmed(address@)
                + "\" is not an address like 192.168.1.20"@,
        },
{
    match as_given {
        Some(at) => Ok(at),
        None => match with_port {
            Some(at) => Ok(at),
            None => {
                let mut why = text::joined("\"", text::trim(address).as_str());
                why.append("\" is not an address like 192.168.1.20");
                Err(why)
            },
        },
    }
}

/// The settings are shown as they are: asking for just what is shown changes nothing.
pub proof fn settings_are_shown_as_they_are(r: UiSettings, s: SettingsView)
    requires
        shows_settings(r, s),
    ensures
        edge_named(r.offline_edge@) == Some(s.offline_edge),
        asked(r, s.offline_edge, s) == s,
        edge_named(edge_name(OfflineEdgeBehavior::Block)) == Some(OfflineEdgeBehavior::Block),
        edge_named(edge_name(OfflineEdgeBehavior::SkipOver)) == Some(
            OfflineEdgeBehavior::SkipOver,
        ),
{
    reveal_strlit("block");
    reveal_strlit("skip_over");
    assert("block"@.len() != "skip_over"@.len());
}

/// What is asked for is what is set: the settings that come of it show as they were
/// asked for.
pub proof fn settings_become_what_was_asked_for(
    r: UiSettings,
    edge: OfflineEdgeBehavior,
    now: SettingsView,
)
    requires
        edge_named(r.offline_edge@) == Some(edge),
    ensures
        shows_settings(r, asked(r, edge, now)),
        asked(r, edge, now).preferred_interfaces == now.preferred_interfaces,
{
}

/// An address is shown with its four bytes in decimal, the most significant first.
pub proof fn addresses_are_shown_byte_by_byte(a: u8, b: u8, c: u8, d: u8, address: Ipv4)
    requires
        address == crate::addr::dotted(a, b, c, d),
    ensures
        address_text(address) == text::decimal(a as nat) + "."@ + text::decimal(b as nat) + "."@
            + text::decimal(c as nat) + "."@ + text::decimal(d as nat),
{
    crate::addr::bytes_of_an_address(a, b, c, d);
}

/// The cards go down the canvas: one that comes later is never higher up, and never
/// further left in the same row.
pub proof fn cards_go_down_the_canvas(shown: Seq<CardView>, a: int, b: int)
    requires
        0 <= a < b < shown.len(),
    ensures
        arranged(shown).len() == shown.len(),
        arranged(shown)[a].y <= arranged(shown)[b].y,
        arranged(shown)[a].y == arranged(shown)[b].y ==> arranged(shown)[a].x <= arranged(
            shown,
        )[b].x,
{
    let places = corners(shown);
    order::reading_order_is_sorted_and_complete(places, shown.len() as int);
    order::reading_order_goes_down_the_desk(places, a, b);
    let listed = order::reading_order(places, shown.len() as int);
    assert(listed.contains(listed[a]) && listed.contains(listed[b]));
}

/// A card is drawn around its screens: each of them lies on it, where its display is
/// once the machine is put at its position, and as big as it is. This machine's own
/// card is always shown as online, and exactly this machine's as local.
pub proof fn a_card_is_drawn_around_its_screens(
    record: RecordView,
    me: MachineId,
    online: Set<MachineId>,
    i: int,
)
    requires
        0 <= i < record.displays.len(),
        forall|k: int|
            0 <= k < record.displays.len() ==> model::is_placeable(
                #[trigger] record.displays[k],
                record.position,
            ),
    ensures
        ({
            let shown = card(record, me, online);
            let screen = shown.screens[i];
            let display = record.displays[i];
            &&& shown.screens.len() == record.displays.len()
            &&& screen.x == record.position.x + display.x
            &&& screen.y == record.position.y + display.y
            &&& screen.width == display.width
            &&& screen.height == display.height
            &&& screen.primary == display.primary
            &&& shown.x <= screen.x
            &&& shown.y <= screen.y
            &&& screen.x + screen.width <= shown.x + shown.width
            &&& screen.y + screen.height <= shown.y + shown.height
            &&& shown.online <==> online.contains(record.id) || record.id == me
            &&& shown.is_local <==> record.id == me
            &&& shown.known_displays
        }),
{
    model::bounds_reach_as_far_as_the_displays(record.displays, record.position);
    assert(model::is_placeable(record.displays[i], record.position));
}

/// An edit changes what it is about and nothing else of a machine.
pub proof fn an_edit_changes_one_thing(record: RecordView, edit: MachineEdit)
    ensures
        ({
            let after = edited_record(record, edit);
            &&& after.id == record.id
            &&& after.public_key == record.public_key
            &&& after.displays == record.displays
            &&& after.platform == record.platform
            &&& edit matches MachineEdit::Rename(name) ==> after.display_name == name@
            &&& !(edit is Rename) ==> after.display_name == record.display_name
            &&& !(edit is Place) ==> after.position == record.position
            &&& edit matches MachineEdit::Input { keyboard, mouse } ==> (
            after.input.provides_keyboard <==> keyboard) && (after.input.provides_mouse <==> mouse)
            &&& !(edit is Input) ==> after.input == record.input
        }),
{
}

/// How long ago a candidate was seen is shown in whole seconds that have passed.
pub proof fn candidates_age_in_whole_seconds(r: UiCandidate, c: Candidate, now: u64)
    requires
        shows_candidate(r, c, now),
    ensures
        now >= c.last_seen_ms ==> r.seconds_since_seen * 1000 <= now - c.last_seen_ms < (
        r.seconds_since_seen + 1) * 1000,
        now < c.last_seen_ms ==> r.seconds_since_seen == 0,
{
}

/// What is told of a route is what the pointer would do: a handoff names the machine
/// that it goes to, and a pointer that is held is told apart from one that never left.
pub proof fn a_route_is_told_as_it_goes(
    r: RouteResult,
    doc: DocView,
    online: Set<MachineId>,
    from: MachineId,
    target: Point,
)
    requires
        tells_route(r, doc, online, from, target),
    ensures
        r.outcome@ == "handoff"@ <==> layout::resolved(doc, online, from, target) is Move,
        layout::resolved(doc, online, from, target) matches Resolution::Move { machine, point }
            ==> r.x == point.x && r.y == point.y && optional_text(r.machine) == (match doc.record(
            machine,
        ) {
            Some(record) => Some(record.display_name),
            None => None,
        }),
        r.outcome@ == "same"@ ==> (doc.record(from) matches Some(record) && record.bounds() matches
            Some(b) && b.x <= target.x < b.right() && b.y <= target.y < b.bottom()),
{
    reveal_strlit("handoff");
    reveal_strlit("same");
    reveal_strlit("blocked");
    assert("handoff"@[0] != "blocked"@[0]);
    assert("same"@.len() != "blocked"@.len());
    assert("same"@.len() != "handoff"@.len());
}

/// An address that is typed in with a port keeps it; only a bare one gets the port that
/// announcements go to; and what is neither is no address.
pub proof fn a_typed_in_port_counts(at: Endpoint, with_port: Option<Endpoint>)
    ensures
        address_meant(Some(at), with_port) == Some(at),
        address_meant(None, with_port) == with_port,
{
}

/// The window says where the pointer is: on the machine that the sharing loop put it on,
/// and on this machine where nothing is shared and this machine is in the workspace.
pub proof fn the_window_says_where_the_pointer_is(
    doc: DocView,
    me: MachineId,
    online: Set<MachineId>,
    live: MachineId,
)
    ensures
        doc.record(live) matches Some(record) ==> pointer_holder(doc, me, online, Some(live))
            == Some(record.display_name),
        doc.record(live) is None ==> pointer_holder(doc, me, online, Some(live)) is None,
        doc.record(me) matches Some(record) ==> pointer_holder(doc, me, online, None) == Some(
            record.display_name,
        ),
{
}

/// Every platform is shown under a name of its own.
pub proof fn platforms_are_named_apart(a: Platform, b: Platform)
    requires
        label(a) == label(b),
    ensures
        a == b,
        a is Windows <==> label(a) == "Windows"@,
        a is MacOs <==> label(a) == "macOS"@,
        a is Linux <==> label(a) == "Linux"@,
{
    reveal_strlit("Windows");
    reveal_strlit("macOS");
    reveal_strlit("Linux");
    reveal_strlit("Unknown");
    assert("Windows"@[0] != "Unknown"@[0]);
    assert("macOS"@[0] != "Linux"@[0]);
    assert("Windows"@.len() == 7 && "Unknown"@.len() == 7 && "macOS"@.len() == 5 && "Linux"@.len()
        == 5);
}

} // verus!
