//! A walk through what a workspace promises without a network: it is created and
//! persisted, survives a simulated reboot, keeps offline machines in its topology,
//! refuses to strand the cursor on one, and converges after a stale peer reconnects.
//!
//! Each part says what is printed; what is stored and loaded between the parts is
//! left to the caller.

use std::collections::HashSet;

use vstd::prelude::*;

use crate::bytes;
use crate::cli;
use crate::cli::{describe_route, record, say, say_all, topology_lines};
use crate::document;
use crate::error::{Error, Result};
use crate::geometry::Point;
use crate::identity;
use crate::identity::Identity;
use crate::ids;
use crate::ids::MachineId;
use crate::layout;
use crate::layout::fallback_owner;
use crate::model;
use crate::model::{
    DocView,
    MachineRecord,
    OfflineEdgeBehavior,
    OpView,
    Platform,
    RecordView,
    SettingsView,
    WorkspaceDoc,
    WorkspaceSettings,
};
use crate::stamp::Stamp;
use crate::text;

verus! {

/// First launch: the identity is minted once and then fixed. `again` is the machine
/// ID that a second launch found.
pub fn identity_part(identity: &Identity, again: MachineId) -> (r: Vec<String>)
    ensures
        model::texts_view(r@) == seq![
            "1. machine identity"@,
            "   id          "@ + ids::id_text(identity.machine_id),
            "   key         "@ + bytes::hex_text(
                identity::public_key_of(identity.secret()).take(4),
            ),
            if identity.machine_id == again {
                "   stable      true\n"@
            } else {
                "   stable      false\n"@
            },
        ],
{
    let mut out: Vec<String> = Vec::new();
    assert(model::texts_view(out@) =~= Seq::empty());
    say(&mut out, String::from_str("1. machine identity"));
    say(&mut out, text::joined("   id          ", ids::format_id(identity.machine_id).as_str()));
    say(
        &mut out,
        text::joined("   key         ", identity.public_key().fingerprint().as_str()),
    );
    say(
        &mut out,
        String::from_str(
            if identity.machine_id == again {
                "   stable      true\n"
            } else {
                "   stable      false\n"
            },
        ),
    );
    assert(model::texts_view(out@) =~= seq![
        "1. machine identity"@,
        "   id          "@ + ids::id_text(identity.machine_id),
        "   key         "@ + bytes::hex_text(
            identity::public_key_of(identity.secret()).take(4),
        ),
        if identity.machine_id == again {
            "   stable      true\n"@
        } else {
            "   stable      false\n"@
        },
    ]);
    out
}

/// Three machines and the workspace they form.
pub struct Desk {
    pub pc1: MachineRecord,
    pub mac: MachineRecord,
    pub pc2: MachineRecord,
    pub doc: WorkspaceDoc,
}

/// The workspace that the founder `pc1` made and put the two others into.
pub open spec fn desk_doc(
    doc: DocView,
    pc1: RecordView,
    mac: RecordView,
    pc2: RecordView,
    first: Stamp,
    second: Stamp,
) -> bool {
    &&& doc.name.stamp.lamport == 1
    &&& doc.name.stamp.origin == pc1.id
    &&& first.lamport == 2
    &&& first.origin == pc1.id
    &&& second.lamport == 3
    &&& second.origin == pc1.id
    &&& doc == document::founded(
        doc.workspace_id,
        "My Desk"@,
        pc1,
        doc.name.stamp,
    ).edited(first, OpView::UpsertMachine(mac)).edited(second, OpView::UpsertMachine(pc2))
}

/// A desk of three: a Mac left of this machine, and another PC above it.
pub fn lay_out(identity: &Identity, platform: Platform) -> (r: Desk)
    ensures
        r.pc1@ == cli::member(
            identity.machine_id,
            "PC1"@,
            Point { x: 0, y: 0 },
            identity::public_key_of(identity.secret()),
            platform,
            r.pc1.paired_at_ms,
        ),
        ids::is_minted(r.mac.id),
        r.mac@ == cli::member(
            r.mac.id,
            "Mac"@,
            Point { x: (-1920) as i32, y: 0 },
            r.mac.public_key@,
            Platform::MacOs,
            r.mac.paired_at_ms,
        ),
        cli::is_public_key(r.mac.public_key@),
        ids::is_minted(r.pc2.id),
        r.pc2@ == cli::member(
            r.pc2.id,
            "PC2"@,
            Point { x: 0, y: (-1080) as i32 },
            r.pc2.public_key@,
            Platform::Windows,
            r.pc2.paired_at_ms,
        ),
        cli::is_public_key(r.pc2.public_key@),
        ids::is_minted(r.doc.workspace_id),
        exists|first: Stamp, second: Stamp|
            desk_doc(r.doc@, r.pc1@, r.mac@, r.pc2@, first, second),
{
    let pc1 = record(
        identity.machine_id,
        "PC1",
        Point::new(0, 0),
        identity.public_key(),
        platform,
    );
    let mac_identity = Identity::generate();
    let pc2_identity = Identity::generate();
    proof {
        let mac_secret = mac_identity.secret();
        let pc2_secret = pc2_identity.secret();
        assert(cli::is_secret_of(mac_secret, identity::public_key_of(mac_secret)));
        assert(cli::is_secret_of(pc2_secret, identity::public_key_of(pc2_secret)));
    }
    let mac = record(
        mac_identity.machine_id,
        "Mac",
        Point::new(-1920, 0),
        mac_identity.public_key(),
        Platform::MacOs,
    );
    let pc2 = record(
        pc2_identity.machine_id,
        "PC2",
        Point::new(0, -1080),
        pc2_identity.public_key(),
        Platform::Windows,
    );
    let mut doc = WorkspaceDoc::create("My Desk", pc1.clone());
    let first = doc.upsert_machine(pc1.id, mac.clone());
    let second = doc.upsert_machine(pc1.id, pc2.clone());
    let desk = Desk { pc1, mac, pc2, doc };
    assert(desk_doc(desk.doc@, desk.pc1@, desk.mac@, desk.pc2@, first.stamp, second.stamp));
    desk
}

/// The set of some machines.
fn those(a: MachineId, b: MachineId) -> (r: HashSet<MachineId>)
    ensures
        r@ == set![a, b],
{
    let mut out: HashSet<MachineId> = HashSet::new();
    let _ = out.insert(a);
    let _ = out.insert(b);
    assert(out@ =~= set![a, b]);
    out
}

/// The workspace as it was made.
pub fn workspace_part(doc: &WorkspaceDoc, online: &HashSet<MachineId>, local: MachineId) -> (r: Vec<
    String,
>)
    ensures
        model::texts_view(r@) == seq![
            "2. workspace \""@ + doc@.name.value + "\" at revision "@ + text::decimal(
                doc@.lamport as nat,
            ),
        ] + cli::topology(doc@, online@, local),
{
    let mut out: Vec<String> = Vec::new();
    assert(model::texts_view(out@) =~= Seq::empty());
    let mut head = text::joined("2. workspace \"", doc.name.value.as_str());
    head.append("\" at revision ");
    head.append(text::decimal_text(doc.lamport).as_str());
    let ghost first = head@;
    say(&mut out, head);
    assert(model::texts_view(out@) =~= seq![first]);
    say_all(&mut out, topology_lines(doc, online, local));
    out
}

/// Reboot: nothing in memory, everything from disk.
pub fn reboot_part(loaded: &WorkspaceDoc) -> (r: Vec<String>)
    ensures
        model::texts_view(r@) == seq![
            "\n3. after a reboot (reloaded from disk)"@,
            "   workspace   "@ + cli::titled(loaded@),
            "   revision    "@ + text::decimal(loaded@.lamport as nat),
            "   machines    "@ + text::decimal(loaded@.present().len()),
        ],
{
    let mut out: Vec<String> = Vec::new();
    assert(model::texts_view(out@) =~= Seq::empty());
    say(&mut out, String::from_str("\n3. after a reboot (reloaded from disk)"));
    say(&mut out, text::joined("   workspace   ", cli::title(loaded).as_str()));
    say(&mut out, text::joined("   revision    ", text::decimal_text(loaded.lamport).as_str()));
    let present = loaded.machines_present();
    assert(present@.len() == document::records_view(present@).len());
    say(
        &mut out,
        text::joined("   machines    ", text::decimal_text(present.len() as u64).as_str()),
    );
    assert(model::texts_view(out@) =~= seq![
        "\n3. after a reboot (reloaded from disk)"@,
        "   workspace   "@ + cli::titled(loaded@),
        "   revision    "@ + text::decimal(loaded@.lamport as nat),
        "   machines    "@ + text::decimal(loaded@.present().len()),
    ]);
    out
}

/// What is printed while PC2 is off and when it is back.
pub open spec fn outage(
    doc: DocView,
    pc1: MachineId,
    without_pc2: Set<MachineId>,
    everyone: Set<MachineId>,
) -> Seq<Seq<char>> {
    seq!["\n4. PC2 powered off"@] + cli::topology(doc, without_pc2, pc1) + seq![
        "   routing from PC1:"@,
        cli::route_line(doc, without_pc2, pc1, Point { x: 800, y: (-10) as i32 }),
        cli::route_line(doc, without_pc2, pc1, Point { x: (-5) as i32, y: 400 }),
        "\n5. PC2 back online"@,
    ] + cli::topology(doc, everyone, pc1) + seq![
        "   routing from PC1:"@,
        cli::route_line(doc, everyone, pc1, Point { x: 800, y: (-10) as i32 }),
    ]
}

/// PC2 is off: it keeps its place, and the cursor is not sent to it. When it
/// returns, the configured route comes back untouched.
pub fn outage_part(
    doc: &WorkspaceDoc,
    pc1: MachineId,
    mac: MachineId,
    everyone: &HashSet<MachineId>,
) -> (r: Vec<String>)
    ensures
        model::texts_view(r@) == outage(doc@, pc1, set![pc1, mac], everyone@),
{
    let without_pc2 = those(pc1, mac);
    let mut out: Vec<String> = Vec::new();
    assert(model::texts_view(out@) =~= Seq::empty());
    say(&mut out, String::from_str("\n4. PC2 powered off"));
    assert(model::texts_view(out@) =~= seq!["\n4. PC2 powered off"@]);
    say_all(&mut out, topology_lines(doc, &without_pc2, pc1));
    let ghost so_far = model::texts_view(out@);
    say(&mut out, String::from_str("   routing from PC1:"));
    say(&mut out, describe_route(doc, &without_pc2, pc1, Point::new(800, -10)));
    say(&mut out, describe_route(doc, &without_pc2, pc1, Point::new(-5, 400)));
    say(&mut out, String::from_str("\n5. PC2 back online"));
    assert(model::texts_view(out@) =~= so_far + seq![
        "   routing from PC1:"@,
        cli::route_line(doc@, without_pc2@, pc1, Point { x: 800, y: (-10) as i32 }),
        cli::route_line(doc@, without_pc2@, pc1, Point { x: (-5) as i32, y: 400 }),
        "\n5. PC2 back online"@,
    ]);
    say_all(&mut out, topology_lines(doc, everyone, pc1));
    let ghost up_to_here = model::texts_view(out@);
    say(&mut out, String::from_str("   routing from PC1:"));
    say(&mut out, describe_route(doc, everyone, pc1, Point::new(800, -10)));
    assert(model::texts_view(out@) =~= up_to_here + seq![
        "   routing from PC1:"@,
        cli::route_line(doc@, everyone@, pc1, Point { x: 800, y: (-10) as i32 }),
    ]);
    out
}

/// The default settings, except that the cursor skips over machines that are off.
pub open spec fn skipping() -> SettingsView {
    SettingsView { offline_edge: OfflineEdgeBehavior::SkipOver, ..model::default_settings() }
}

/// Whether `after` and the lines come of trying the other behaviour on `before`, set
/// at `on` and put back at `off`.
pub open spec fn skipped(
    before: DocView,
    after: DocView,
    lines: Seq<Seq<char>>,
    pc1: MachineId,
    mac: MachineId,
    on: Stamp,
    off: Stamp,
) -> bool {
    let during = before.edited(on, OpView::SetSettings(skipping()));
    &&& on.lamport == before.lamport + 1
    &&& on.origin == pc1
    &&& off.lamport == before.lamport + 2
    &&& off.origin == pc1
    &&& after == during.edited(off, OpView::SetSettings(model::default_settings()))
    &&& lines =~= seq![
        "\n6. same edge with offline_edge = skip_over"@,
        cli::route_line(during, set![pc1, mac], pc1, Point { x: 800, y: (-10) as i32 }),
        "   (nothing is configured beyond PC2, so it still stops)"@,
    ]
}

/// The same edge with the other behaviour, which is put back afterwards.
pub fn skipping_part(doc: &mut WorkspaceDoc, pc1: MachineId, mac: MachineId) -> (r: Vec<String>)
    requires
        old(doc).lamport < u64::MAX - 1,
    ensures
        exists|on: Stamp, off: Stamp|
            skipped(old(doc)@, final(doc)@, model::texts_view(r@), pc1, mac, on, off),
{
    let without_pc2 = those(pc1, mac);
    let ghost before = doc@;
    let wanted = WorkspaceSettings {
        offline_edge: OfflineEdgeBehavior::SkipOver,
        ..WorkspaceSettings::default()
    };
    assert(wanted@ =~= skipping());
    let on = doc.set_settings(pc1, wanted);
    let ghost during = doc@;
    let mut out: Vec<String> = Vec::new();
    assert(model::texts_view(out@) =~= Seq::empty());
    say(&mut out, String::from_str("\n6. same edge with offline_edge = skip_over"));
    say(&mut out, describe_route(doc, &without_pc2, pc1, Point::new(800, -10)));
    say(
        &mut out,
        String::from_str("   (nothing is configured beyond PC2, so it still stops)"),
    );
    assert(model::texts_view(out@) =~= seq![
        "\n6. same edge with offline_edge = skip_over"@,
        cli::route_line(during, set![pc1, mac], pc1, Point { x: 800, y: (-10) as i32 }),
        "   (nothing is configured beyond PC2, so it still stops)"@,
    ]);
    let off = doc.set_settings(pc1, WorkspaceSettings::default());
    assert(skipped(before, doc@, model::texts_view(out@), pc1, mac, on.stamp, off.stamp));
    out
}

/// Whether `after` comes of moving the machine `mac` below this one at `stamp`.
pub open spec fn moved_below(
    before: DocView,
    after: DocView,
    mac: RecordView,
    pc1: MachineId,
    stamp: Stamp,
) -> bool {
    &&& stamp.lamport == before.lamport + 1
    &&& stamp.origin == pc1
    &&& after == before.edited(
        stamp,
        OpView::UpsertMachine(RecordView { position: Point { x: 0, y: 1080 }, ..mac }),
    )
}

/// The user moves the Mac below this machine while PC2 is off.
pub fn moving_part(doc: &mut WorkspaceDoc, pc1: MachineId, mac: &MachineRecord) -> (r: String)
    requires
        old(doc).lamport < u64::MAX,
    ensures
        exists|stamp: Stamp| moved_below(old(doc)@, final(doc)@, mac@, pc1, stamp),
        r@ == "\n7. Mac moved from left-of-PC1 to below-PC1, revision "@ + text::decimal(
            final(doc)@.lamport as nat,
        ),
{
    let ghost before = doc@;
    let mut moved = mac.clone();
    moved.position = Point::new(0, 1080);
    assert(moved@ =~= RecordView { position: Point { x: 0, y: 1080 }, ..mac@ });
    let update = doc.upsert_machine(pc1, moved);
    assert(moved_below(before, doc@, mac@, pc1, update.stamp));
    text::joined(
        "\n7. Mac moved from left-of-PC1 to below-PC1, revision ",
        text::decimal_text(doc.lamport).as_str(),
    )
}

/// What is printed once PC2 has come back with the copy `stale`, which left `doc`.
pub open spec fn reconnected(
    doc: DocView,
    stale: DocView,
    changed: bool,
    pc1: MachineId,
    mac: MachineId,
    pc2: MachineId,
) -> Seq<Seq<char>> {
    seq![
        "   PC2 reconnects with revision "@ + text::decimal(stale.lamport as nat),
        if changed {
            "   stale copy changed anything: true"@
        } else {
            "   stale copy changed anything: false"@
        },
        "   Mac position stays "@ + cli::point_text(doc.record(mac)->0.position),
        "\n8. cursor ownership"@,
        "   PC2 held the cursor and went offline -> "@ + match layout::fallback(
            doc,
            set![pc1, mac],
            pc2,
        ) {
            Some(id) => match doc.record(id) {
                Some(record) => record.display_name,
                None => "nobody online"@,
            },
            None => "nobody online"@,
        },
    ]
}

/// PC2 reconnects with a stale copy and must not undo the change; and the cursor
/// never sits on a machine that is down.
pub fn reconnecting_part(
    doc: &mut WorkspaceDoc,
    stale: &WorkspaceDoc,
    pc1: MachineId,
    mac: MachineId,
    pc2: MachineId,
) -> (r: Result<Vec<String>>)
    requires
        old(doc)@.merged(stale@).record(mac) is Some,
    ensures
        if stale.workspace_id == old(doc).workspace_id {
            &&& final(doc)@ == old(doc)@.merged(stale@)
            &&& r is Ok
            &&& model::texts_view(r->Ok_0@) == reconnected(
                final(doc)@,
                stale@,
                old(doc)@.learns_from(stale@),
                pc1,
                mac,
                pc2,
            )
        } else {
            &&& final(doc)@ == old(doc)@
            &&& r == Err::<Vec<String>, Error>(
                Error::WorkspaceMismatch {
                    incoming: stale.workspace_id,
                    local: old(doc).workspace_id,
                },
            )
        },
{
    let changed = match doc.merge(stale) {
        Ok(changed) => changed,
        Err(e) => {
            return Err(e);
        },
    };
    let mut out: Vec<String> = Vec::new();
    assert(model::texts_view(out@) =~= Seq::empty());
    say(
        &mut out,
        text::joined(
            "   PC2 reconnects with revision ",
            text::decimal_text(stale.lamport).as_str(),
        ),
    );
    say(
        &mut out,
        String::from_str(
            if changed {
                "   stale copy changed anything: true"
            } else {
                "   stale copy changed anything: false"
            },
        ),
    );
    let position = match doc.machine(mac) {
        Some(record) => record.position,
        None => {
            assert(false);
            Point::new(0, 0)
        },
    };
    say(&mut out, text::joined("   Mac position stays ", cli::show_point(position).as_str()));
    say(&mut out, String::from_str("\n8. cursor ownership"));
    let without_pc2 = those(pc1, mac);
    let holder = match fallback_owner(doc, &without_pc2, pc2) {
        Some(id) => match doc.machine(id) {
            Some(record) => record.display_name.clone(),
            None => String::from_str("nobody online"),
        },
        None => String::from_str("nobody online"),
    };
    say(
        &mut out,
        text::joined("   PC2 held the cursor and went offline -> ", holder.as_str()),
    );
    assert(model::texts_view(out@) =~= reconnected(doc@, stale@, changed, pc1, mac, pc2));
    Ok(out)
}

} // verus!
