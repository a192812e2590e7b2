//! The command line and the demonstration.

use std::collections::HashSet;

use inputshare::cli::{
    add, added_line, created_lines, describe_route, init, local_name, parse_command,
    parse_integer, record, status, topology_lines, Command, Founding,
};
use inputshare::demo;
use inputshare::{Identity, Op, Platform, Point, WorkspaceDoc};

fn asked(words: &[&str]) -> Command {
    parse_command(&words.iter().map(|w| w.to_string()).collect())
}

#[test]
fn commands_are_understood() {
    assert!(matches!(asked(&[]), Command::Demo));
    assert!(matches!(asked(&["demo"]), Command::Demo));
    assert!(matches!(asked(&["status"]), Command::Status));
    assert!(matches!(asked(&["init", "Desk"]), Command::Init(name) if name == "Desk"));
    assert!(matches!(
        asked(&["add", "Mac", "-1920", "+5"]),
        Command::Add { name, at } if name == "Mac" && at == Point::new(-1920, 5)
    ));
    assert!(matches!(asked(&["route", "1", "2"]), Command::Route(at) if at == Point::new(1, 2)));
}

#[test]
fn commands_that_make_no_sense_are_explained() {
    let problem = |words: &[&str]| match asked(words) {
        Command::Usage(problem) => problem,
        other => panic!("expected usage, got {other:?}"),
    };
    assert_eq!(problem(&["init"]), "init needs a workspace name");
    assert_eq!(problem(&["add", "x", "1"]), "add needs a name, an x and a y");
    assert_eq!(
        problem(&["add", "x", "1", "two"]),
        "add needs integer x and y"
    );
    assert_eq!(problem(&["route", "1"]), "route needs an x and a y");
    assert_eq!(problem(&["route", "1", ""]), "route needs integer x and y");
    assert_eq!(problem(&["help"]), "");
    assert_eq!(problem(&["-h"]), "");
    assert_eq!(problem(&["dance"]), "unknown command: dance");
}

#[test]
fn integers_are_read_as_the_standard_library_reads_them() {
    for text in [
        "0", "-0", "+7", "00012", "2147483647", "2147483648", "-2147483648", "-2147483649", "",
        "-", "+", "+-1", "1 ", " 1", "1.5", "\u{0661}", "99999999999999999999", "0x10",
    ] {
        assert_eq!(parse_integer(text), text.parse::<i32>().ok(), "{text:?}");
    }
}

fn member(name: &str, position: Point) -> inputshare::MachineRecord {
    let identity = Identity::generate();
    record(
        identity.machine_id,
        name,
        position,
        identity.public_key(),
        Platform::Linux,
    )
}

#[test]
fn the_topology_is_listed_from_top_to_bottom() {
    let pc1 = member("PC1", Point::new(0, 0));
    let mac = member("Mac", Point::new(-1920, 0));
    let mut bare = member("A rather long name", Point::new(0, -1080));
    bare.displays.clear();
    let mut doc = WorkspaceDoc::create("Desk", pc1.clone());
    doc.upsert_machine(pc1.id, mac.clone());
    doc.upsert_machine(pc1.id, bare);
    let lines = topology_lines(&doc, &HashSet::from([pc1.id]), pc1.id);
    assert_eq!(
        lines,
        [
            "   \u{25cb} A rather long name offline  no displays reported".to_string(),
            "   \u{25cb} Mac            offline  x -1920..0, y 0..1080".to_string(),
            "   \u{25cf} PC1            online   x 0..1920, y 0..1080  (this machine)".to_string(),
        ]
    );
}

#[test]
fn routes_are_described_in_a_line() {
    let pc1 = member("PC1", Point::new(0, 0));
    let mac = member("Mac", Point::new(-1920, 0));
    let mut doc = WorkspaceDoc::create("Desk", pc1.clone());
    doc.upsert_machine(pc1.id, mac.clone());
    let alone = HashSet::from([pc1.id]);
    assert_eq!(
        describe_route(&doc, &alone, pc1.id, Point::new(-5, 400)),
        "   cursor to (-5, 400) -> stays on PC1 at (0, 400)"
    );
    let both = HashSet::from([pc1.id, mac.id]);
    assert_eq!(
        describe_route(&doc, &both, pc1.id, Point::new(-5, 400)),
        "   cursor to (-5, 400) -> hands off to Mac at (-1, 400)"
    );
    // A machine that is not in the workspace goes by its identifier.
    assert_eq!(
        describe_route(&doc, &both, 3, Point::new(1, 2)),
        "   cursor to (1, 2) -> stays on 00000000-0000-0000-0000-000000000003 at (1, 2)"
    );
}

#[test]
fn a_workspace_is_made_once() {
    let identity = Identity::generate();
    let made = match init("Desk", None, &identity, "host", Platform::Linux) {
        Founding::Created(doc) => doc,
        Founding::Already(line) => panic!("there was none: {line}"),
    };
    let me = made.machine(identity.machine_id).expect("a member");
    assert_eq!((me.display_name.as_str(), me.displays.len()), ("host", 1));
    assert_eq!(me.displays[0].name, "Primary (placeholder)");
    let lines = created_lines(&made, "/config");
    assert!(lines[0].starts_with("created workspace \"Desk\" ("));
    assert_eq!(lines[1], "stored in /config");
    match init("Other", Some(&made), &identity, "host", Platform::Linux) {
        Founding::Already(line) => {
            assert!(line.starts_with("already in workspace \"Desk\" ("));
            assert!(line.ends_with("). Nothing to do."));
        }
        Founding::Created(_) => panic!("it is in one already"),
    }
}

#[test]
fn a_machine_can_be_added_before_it_is_there() {
    let identity = Identity::generate();
    let mut doc = match init("Desk", None, &identity, "host", Platform::Linux) {
        Founding::Created(doc) => doc,
        Founding::Already(line) => panic!("there was none: {line}"),
    };
    let update = add(&mut doc, identity.machine_id, "Mac", Point::new(5, 6));
    let added = match update.op {
        Op::UpsertMachine(record) => record,
        other => panic!("expected a machine, got {other:?}"),
    };
    assert_eq!(added.platform, Platform::Other);
    assert_eq!(
        doc.machine(added.id).map(|m| m.position),
        Some(Point::new(5, 6))
    );
    assert_eq!(
        added_line("Mac", Point::new(5, -6)),
        "added \"Mac\" at (5, -6)"
    );
}

#[test]
fn the_status_names_this_machine() {
    let identity = Identity::from_secret(10, 0, [1; 32]);
    let lines = status(&identity, "/config", None);
    assert_eq!(
        lines,
        [
            "machine   00000000-0000-0000-0000-00000000000a".to_string(),
            format!("key       {}", identity.public_key().fingerprint()),
            "config    /config".to_string(),
            "\nnot in a workspace yet \u{2014} run `inputshare init <name>`".to_string(),
        ]
    );
    let me = record(
        10,
        "PC1",
        Point::new(0, 0),
        identity.public_key(),
        Platform::Linux,
    );
    let doc = WorkspaceDoc::create_as(11, "Desk", me, 0);
    let lines = status(&identity, "/config", Some(&doc));
    assert_eq!(
        lines[3],
        "\nworkspace \"Desk\" (00000000-0000-0000-0000-00000000000b), revision 1"
    );
    assert!(lines[4].contains("online") && lines[4].ends_with("(this machine)"));
    assert_eq!(lines.len(), 6);
}

#[test]
fn a_machine_without_a_name_gets_a_phrase() {
    assert_eq!(local_name(Some("a".into()), Some("b".into())), "a");
    assert_eq!(local_name(None, Some("b".into())), "b");
    assert_eq!(local_name(None, None), "This machine");
}

#[test]
fn the_demonstration_tells_what_the_workspace_promises() {
    let identity = Identity::from_secret(1, 0, [1; 32]);
    let first = demo::identity_part(&identity, 1);
    assert_eq!(first[0], "1. machine identity");
    assert_eq!(
        first[1],
        "   id          00000000-0000-0000-0000-000000000001"
    );
    assert_eq!(first[3], "   stable      true\n");

    let desk = demo::lay_out(&identity, Platform::Linux);
    let (pc1, mac, pc2) = (desk.pc1.id, desk.mac.id, desk.pc2.id);
    let everyone = HashSet::from([pc1, mac, pc2]);
    let second = demo::workspace_part(&desk.doc, &everyone, pc1);
    assert_eq!(second[0], "2. workspace \"My Desk\" at revision 3");
    assert!(second[1].contains("PC2") && second[2].contains("Mac") && second[3].contains("PC1"));

    let mut doc = desk.doc.clone();
    let third = demo::reboot_part(&doc);
    assert_eq!(third[3], "   machines    3");

    let outage = demo::outage_part(&doc, pc1, mac, &everyone);
    assert_eq!(outage.len(), 13);
    assert_eq!(
        outage[5],
        "   cursor to (800, -10) -> stays on PC1 at (800, 0)"
    );
    assert_eq!(
        outage[6],
        "   cursor to (-5, 400) -> hands off to Mac at (-1, 400)"
    );
    assert_eq!(
        outage[12],
        "   cursor to (800, -10) -> hands off to PC2 at (800, -1)"
    );

    let skipping = demo::skipping_part(&mut doc, pc1, mac);
    assert_eq!(
        skipping[1],
        "   cursor to (800, -10) -> stays on PC1 at (800, 0)"
    );
    assert_eq!(doc.lamport, 5);

    let stale = doc.clone();
    let moved = demo::moving_part(&mut doc, pc1, &desk.mac);
    assert_eq!(
        moved,
        "\n7. Mac moved from left-of-PC1 to below-PC1, revision 6"
    );
    let last = demo::reconnecting_part(&mut doc, &stale, pc1, mac, pc2).expect("same workspace");
    let holder = if pc1 < mac { "PC1" } else { "Mac" };
    assert_eq!(
        last,
        [
            "   PC2 reconnects with revision 5".to_string(),
            "   stale copy changed anything: false".to_string(),
            "   Mac position stays (0, 1080)".to_string(),
            "\n8. cursor ownership".to_string(),
            format!("   PC2 held the cursor and went offline -> {holder}"),
        ]
    );
}
