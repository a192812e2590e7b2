//! Reconnecting machines must converge, and stale state must never overwrite newer
//! state.

use inputshare::{
    DisplayInfo, Error, Identity, InputAssignment, Lww, MachineRecord, OfflineEdgeBehavior,
    Platform, Point, Scale, Stamp, WorkspaceDoc, WorkspaceSettings,
};

fn display(width: u32, height: u32) -> DisplayInfo {
    DisplayInfo {
        id: "display-0".into(),
        name: "Built-in".into(),
        x: 0,
        y: 0,
        width,
        height,
        scale: Scale::one(),
        primary: true,
    }
}

/// A machine with one 1920x1080 display, positioned at `position`.
fn machine(name: &str, position: Point) -> MachineRecord {
    let identity = Identity::generate();
    MachineRecord {
        id: identity.machine_id,
        display_name: name.into(),
        platform: Platform::current("linux"),
        public_key: identity.public_key(),
        position,
        displays: vec![display(1920, 1080)],
        input: InputAssignment {
            provides_keyboard: true,
            provides_mouse: true,
        },
        paired_at_ms: 0,
    }
}

/// Comparable form of a document, for asserting that two replicas converged.
fn snapshot(doc: &WorkspaceDoc) -> String {
    format!("{doc:?}")
}

#[test]
fn update_order_does_not_matter() {
    let mac = machine("Mac", Point::new(-1920, 0));
    let pc1 = machine("PC1", Point::new(0, 0));
    let pc2 = machine("PC2", Point::new(0, -1080));

    // PC1 founds the workspace. Two replicas branch off before any change, then
    // receive the same three updates in opposite orders.
    let mut author = WorkspaceDoc::create("My Desk", pc1.clone());
    let mut forward = author.clone();
    let mut reverse = author.clone();

    let add_mac = author.upsert_machine(pc1.id, mac.clone());
    let add_pc2 = author.upsert_machine(mac.id, pc2.clone());
    let rename = author.set_name(pc2.id, "Studio");

    for update in [add_mac.clone(), add_pc2.clone(), rename.clone()] {
        forward.apply(update).expect("same workspace");
    }
    for update in [rename, add_pc2, add_mac] {
        reverse.apply(update).expect("same workspace");
    }

    assert_eq!(snapshot(&forward), snapshot(&reverse));
    assert_eq!(forward.name.value, "Studio");
    assert_eq!(forward.machines_present().len(), 3);
}

#[test]
fn updates_may_arrive_in_any_order_and_more_than_once() {
    let pc1 = machine("PC1", Point::new(0, 0));
    let mac = machine("Mac", Point::new(-1920, 0));
    let mut moved = mac.clone();
    moved.position = Point::new(0, 1080);

    let mut author = WorkspaceDoc::create("My Desk", pc1.clone());
    let mut shuffled = author.clone();
    let add_mac = author.upsert_machine(pc1.id, mac.clone());
    let move_mac = author.upsert_machine(pc1.id, moved);
    let removal = author.remove_machine(mac.id, mac.id);
    let rename = author.set_name(mac.id, "Studio");

    for update in [&rename, &removal, &add_mac, &rename, &add_mac, &removal] {
        shuffled.apply(update.clone()).expect("same workspace");
    }
    let late = shuffled.apply(move_mac).expect("same workspace");

    assert!(!late, "the removal is newer");
    assert_eq!(snapshot(&author), snapshot(&shuffled));
    assert!(shuffled.machine(mac.id).is_none());
}

#[test]
fn merging_twice_changes_nothing() {
    let pc1 = machine("PC1", Point::new(0, 0));
    let mac = machine("Mac", Point::new(-1920, 0));

    let mut a = WorkspaceDoc::create("My Desk", pc1.clone());
    let mut b = a.clone();
    a.upsert_machine(pc1.id, mac);

    assert!(b.merge(&a).expect("same workspace"), "first merge applies");
    assert!(
        !b.merge(&a).expect("same workspace"),
        "second merge is a no-op"
    );
    assert_eq!(snapshot(&a), snapshot(&b));
}

#[test]
fn stale_document_cannot_clobber_newer_state() {
    let pc1 = machine("PC1", Point::new(0, 0));
    let mut current = WorkspaceDoc::create("My Desk", pc1.clone());

    // PC2 has been powered off since before the rename.
    let stale = current.clone();
    current.set_name(pc1.id, "Studio");

    let mut reconnecting = current.clone();
    reconnecting.merge(&stale).expect("same workspace");

    assert_eq!(
        reconnecting.name.value, "Studio",
        "the week-old copy must not win"
    );
}

#[test]
fn offline_machine_stays_in_the_workspace() {
    let pc1 = machine("PC1", Point::new(0, 0));
    let pc2 = machine("PC2", Point::new(0, -1080));

    let mut doc = WorkspaceDoc::create("My Desk", pc1.clone());
    doc.upsert_machine(pc1.id, pc2.clone());

    // PC2 is powered off and never heard from again. Liveness is not part of the
    // document, so repeated syncs between the machines that are up cannot drop
    // it.
    let peer_view = doc.clone();
    doc.merge(&peer_view).expect("same workspace");

    assert!(doc.machine(pc2.id).is_some());
    assert!(!doc.is_removed(pc2.id));
    assert_eq!(doc.machines_present().len(), 2);
}

#[test]
fn unpairing_survives_a_merge_with_a_peer_that_still_remembers() {
    let pc1 = machine("PC1", Point::new(0, 0));
    let pc2 = machine("PC2", Point::new(0, -1080));

    let mut pc1_doc = WorkspaceDoc::create("My Desk", pc1.clone());
    pc1_doc.upsert_machine(pc1.id, pc2.clone());
    let pc2_doc = pc1_doc.clone();

    pc1_doc.remove_machine(pc1.id, pc2.id);

    // PC2 reconnects still carrying itself as present.
    pc1_doc.merge(&pc2_doc).expect("same workspace");

    assert!(
        pc1_doc.is_removed(pc2.id),
        "tombstone must outlive the merge, or unpairing never sticks"
    );
    assert!(pc1_doc.machine(pc2.id).is_none());
}

#[test]
fn concurrent_edits_resolve_the_same_way_on_both_machines() {
    let pc1 = machine("PC1", Point::new(0, 0));
    let mac = machine("Mac", Point::new(-1920, 0));

    let mut base = WorkspaceDoc::create("My Desk", pc1.clone());
    base.upsert_machine(pc1.id, mac.clone());

    // Both machines rename the workspace at the same logical time, each unaware
    // of the other.
    let mut from_pc1 = base.clone();
    let mut from_mac = base.clone();
    let pc1_update = from_pc1.set_name(pc1.id, "Desk A");
    let mac_update = from_mac.set_name(mac.id, "Desk B");

    from_pc1.apply(mac_update).expect("same workspace");
    from_mac.apply(pc1_update).expect("same workspace");

    assert_eq!(
        from_pc1.name.value, from_mac.name.value,
        "machine ID breaks the tie identically on both sides"
    );
    assert_eq!(snapshot(&from_pc1), snapshot(&from_mac));
}

#[test]
fn settings_changes_propagate_and_converge() {
    let pc1 = machine("PC1", Point::new(0, 0));
    let mut a = WorkspaceDoc::create("My Desk", pc1.clone());
    let mut b = a.clone();

    let update = a.set_settings(
        pc1.id,
        WorkspaceSettings {
            offline_edge: OfflineEdgeBehavior::SkipOver,
            clipboard_sync: false,
            ..WorkspaceSettings::default()
        },
    );
    b.apply(update).expect("same workspace");

    assert_eq!(b.settings.value.offline_edge, OfflineEdgeBehavior::SkipOver);
    assert!(!b.settings.value.clipboard_sync);
    assert_eq!(snapshot(&a), snapshot(&b));
}

#[test]
fn updates_from_another_workspace_are_rejected() {
    let pc1 = machine("PC1", Point::new(0, 0));
    let mut mine = WorkspaceDoc::create("My Desk", pc1.clone());
    let mut theirs = WorkspaceDoc::create("Their Desk", machine("Other", Point::default()));

    let first = theirs.machines.keys().next().copied().unwrap();
    let foreign = theirs.set_name(first, "Nope");

    assert!(mine.apply(foreign).is_err());
    assert!(mine.merge(&theirs).is_err());
    assert_eq!(mine.name.value, "My Desk");
}

#[test]
fn a_foreign_document_is_named_in_the_refusal() {
    let mut mine = WorkspaceDoc::create_as(7, "Mine", machine("PC1", Point::new(0, 0)), 0);
    let theirs = WorkspaceDoc::create_as(8, "Theirs", machine("PC2", Point::new(0, 0)), 0);
    assert!(matches!(
        mine.merge(&theirs),
        Err(Error::WorkspaceMismatch {
            incoming: 8,
            local: 7
        })
    ));
}

#[test]
fn merges_commute_and_associate() {
    let pc1 = machine("PC1", Point::new(0, 0));
    let mac = machine("Mac", Point::new(-1920, 0));
    let pc2 = machine("PC2", Point::new(0, -1080));
    let base = WorkspaceDoc::create("My Desk", pc1.clone());

    let mut a = base.clone();
    a.upsert_machine(pc1.id, mac.clone());
    let mut b = base.clone();
    b.upsert_machine(mac.id, pc2.clone());
    b.set_name(mac.id, "Studio");
    let mut c = base.clone();
    c.remove_machine(pc2.id, pc1.id);

    let mut ab_c = a.clone();
    ab_c.merge(&b).expect("same workspace");
    ab_c.merge(&c).expect("same workspace");
    let mut bc = b.clone();
    bc.merge(&c).expect("same workspace");
    let mut a_bc = a.clone();
    a_bc.merge(&bc).expect("same workspace");
    let mut cb_a = c.clone();
    cb_a.merge(&b).expect("same workspace");
    cb_a.merge(&a).expect("same workspace");

    assert_eq!(snapshot(&ab_c), snapshot(&a_bc));
    assert_eq!(snapshot(&ab_c), snapshot(&cb_a));
    assert!(ab_c.is_removed(pc1.id));
    assert_eq!(ab_c.machines_present().len(), 2);
    assert_eq!(ab_c.lamport, 3);
}

#[test]
fn a_local_edit_sorts_after_everything_seen() {
    let pc1 = machine("PC1", Point::new(0, 0));
    let mut a = WorkspaceDoc::create("My Desk", pc1.clone());
    let mut b = a.clone();
    for _ in 0..5 {
        b.set_name(pc1.id, "Busy");
    }
    a.merge(&b).expect("same workspace");
    assert_eq!(a.lamport, 6);
    let update = a.set_name(pc1.id, "Calm");
    assert_eq!(update.stamp.lamport, 7);
    assert_eq!(update.prev_lamport, 6);
    assert!(b.apply(update).expect("same workspace"));
    assert_eq!(b.name.value, "Calm");
    assert_eq!(b.lamport, 7);
}

#[test]
fn an_update_that_was_applied_is_no_news() {
    let pc1 = machine("PC1", Point::new(0, 0));
    let mut a = WorkspaceDoc::create("My Desk", pc1.clone());
    let mut b = a.clone();
    let update = a.set_name(pc1.id, "Studio");
    assert!(b.apply(update.clone()).expect("same workspace"));
    assert!(!b.apply(update).expect("same workspace"));
    assert_eq!(snapshot(&a), snapshot(&b));
}

#[test]
fn the_clock_never_runs_backwards() {
    let pc1 = machine("PC1", Point::new(0, 0));
    let mut doc = WorkspaceDoc::create("My Desk", pc1.clone());
    assert_eq!(doc.lamport, 1);
    let stamp = doc.tick(pc1.id);
    assert_eq!((stamp.lamport, stamp.origin), (2, pc1.id));
    assert_eq!(doc.lamport, 2);
}

#[test]
fn a_new_workspace_has_the_default_settings() {
    let doc = WorkspaceDoc::create_as(9, "My Desk", machine("PC1", Point::new(0, 0)), 55);
    assert_eq!(doc.workspace_id, 9);
    assert_eq!(doc.schema_version, 1);
    assert_eq!(doc.name.stamp.wall_clock_ms, 55);
    let settings = &doc.settings.value;
    assert!(settings.clipboard_sync && settings.autostart);
    assert_eq!(settings.offline_edge, OfflineEdgeBehavior::Block);
    assert_eq!((settings.discovery_port, settings.transport_port), (47451, 47452));
    assert!(settings.preferred_interfaces.is_empty());
}

#[test]
fn a_workspace_is_made_with_a_fresh_identifier() {
    let a = WorkspaceDoc::create("One", machine("PC1", Point::new(0, 0)));
    let b = WorkspaceDoc::create("Two", machine("PC1", Point::new(0, 0)));
    assert_ne!(a.workspace_id, b.workspace_id);
    assert_eq!((a.workspace_id >> 76) & 0xf, 4);
    assert_eq!((a.workspace_id >> 62) & 0x3, 2);
}

#[test]
fn the_later_write_wins_and_ties_go_to_the_higher_origin() {
    let early = Stamp::at(3, 1, 900);
    let late = Stamp::at(4, 0, 100);
    let tie = Stamp::at(3, 2, 0);
    assert!(early < late && early < tie && tie < late);
    // The wall clock is for people and orders nothing.
    assert!(Stamp::at(3, 1, 5) == early);

    let mut register = Lww::new("a", early);
    assert!(register.merge(Lww::new("b", tie)));
    assert_eq!(register.value, "b");
    assert!(!register.merge(Lww::new("c", early)));
    assert_eq!(register.value, "b");
}
