//! The agent: whom it trusts, what it shows, and what it changes.

use std::collections::HashSet;

use inputshare::addr::{ipv4, Endpoint, Ip};
use inputshare::agent::{
    computer_name, local_displays, should_yield, Pairing, Reaction, SharingChange,
};
use inputshare::peers::Event;
use inputshare::store::{ConfigFile, WriteJob};
use inputshare::ui::{self, CommandError, MachineEdit, Surroundings, UiSettings};
use inputshare::{
    Agent, AgentError, DisplayInfo, Error, Identity, InputAssignment, LocalPrefs, MachineId,
    MachineRecord, OfflineEdgeBehavior, Platform, Point, PubKey, Scale, Store, WorkspaceDoc,
    WorkspaceSettings,
};

fn display(width: u32) -> DisplayInfo {
    DisplayInfo {
        id: "display-0".into(),
        name: "Built-in".into(),
        x: 0,
        y: 0,
        width,
        height: 1080,
        scale: Scale::one(),
        primary: true,
    }
}

fn key_of(id: MachineId) -> PubKey {
    Identity::from_secret(id, 0, [id as u8; 32]).public_key()
}

fn machine(id: MachineId, name: &str, position: Point) -> MachineRecord {
    MachineRecord {
        id,
        display_name: name.into(),
        platform: Platform::Linux,
        public_key: key_of(id),
        position,
        displays: vec![display(1920)],
        input: InputAssignment::default(),
        paired_at_ms: 0,
    }
}

fn identity() -> Identity {
    Identity::from_secret(1, 0, [1; 32])
}

fn at(last: u8) -> Endpoint {
    Endpoint::new(Ip::V4(ipv4(192, 168, 1, last)), 47452)
}

/// An agent that is alone in its workspace.
fn solo() -> Agent {
    let doc = WorkspaceDoc::create_as(9, "Desk", machine(1, "PC1", Point::new(0, 0)), 0);
    Agent::new(1, Some(doc))
}

fn announce(agent: &mut Agent, id: MachineId) {
    let reaction = agent.on_net_event(
        Event::Candidate {
            machine_id: id,
            display_name: format!("Peer {id}"),
            identity_key: key_of(id),
            workspace_id: Some(5),
            addr: at(id as u8),
            invited_us: true,
        },
        1_000,
    );
    assert!(matches!(reaction, Reaction::Changed));
}

#[test]
fn a_fresh_machine_is_usable_without_being_set_up() {
    let me = identity();
    let name = computer_name(None, Some("  desk \n".into()));
    let (agent, job) =
        Agent::load(&me, Ok(None), name, Platform::Linux, None).expect("agent loads");

    // No setup step. A computer on its own is already a complete configuration
    // of one machine, and it knows its own screens.
    let doc = agent
        .doc
        .as_ref()
        .expect("a fresh machine already has a configuration");
    let record = doc.machine(1).expect("it contains this machine");
    assert_eq!(record.display_name, "desk", "it has a name to show");
    assert!(
        record.bounds().is_some_and(|b| b.width > 0),
        "it has somewhere for a cursor to be"
    );

    // And it is written down, so the next launch is not a first launch.
    assert_eq!(job, Some(WriteJob::start(ConfigFile::Workspace)));
    let stored = doc.clone();
    let (again, job) = Agent::load(&me, Ok(Some(stored)), "x".into(), Platform::Linux, None)
        .expect("agent loads");
    assert!(job.is_none());
    assert_eq!(again.display_name("fallback".into()), "desk");
    assert!(matches!(
        Agent::load(
            &me,
            Err(Error::NoConfigDir),
            "x".into(),
            Platform::Linux,
            None
        ),
        Err(Error::NoConfigDir)
    ));
}

#[test]
fn a_reboot_remembers_that_this_machine_was_sharing() {
    let store = Store::at("/somewhere".into());
    assert!(
        !store.load_prefs(Ok(None)).sharing,
        "off until somebody asks"
    );
    let written = store
        .load_prefs(Ok(None))
        .remember_sharing(true)
        .expect("saved");
    assert_eq!(written, LocalPrefs { sharing: true });
    let agent = solo();
    assert!(
        store.load_prefs(Ok(Some(written))).sharing,
        "a reboot must not silently stop sharing this machine's keyboard"
    );
    assert!(
        !agent.is_sharing(),
        "loading must not install hooks on its own; the app asks once it is online"
    );
}

#[test]
fn a_computer_is_named_by_its_environment() {
    assert_eq!(computer_name(Some("PC".into()), Some("host".into())), "PC");
    assert_eq!(computer_name(None, Some("host".into())), "host");
    assert_eq!(
        computer_name(Some(" \t ".into()), Some("host".into())),
        "Unnamed computer"
    );
    assert_eq!(computer_name(None, None), "Unnamed computer");
}

#[test]
fn a_platform_that_sees_no_screens_gets_a_stand_in() {
    let assumed = local_displays(None);
    assert_eq!(assumed.len(), 1);
    assert_eq!(assumed[0].id, "assumed");
    assert_eq!((assumed[0].width, assumed[0].height), (1920, 1080));
    assert_eq!(local_displays(Some(vec![]))[0].id, "assumed");
    assert_eq!(local_displays(Some(vec![display(800)]))[0].width, 800);
}

#[test]
fn pairing_admits_the_key_that_was_announced() {
    let mut agent = solo();
    assert!(matches!(
        agent.pair(2),
        Err(AgentError::UnknownMachine(2))
    ));
    announce(&mut agent, 2);
    assert!(!agent.authorize(2, &key_of(2)));
    match agent.pair_at(2, 77).expect("paired") {
        Pairing::Paired(update) => assert_eq!(update.stamp.origin, 1),
        Pairing::Waiting => panic!("there is a workspace to pair into"),
    }
    assert!(agent.authorize(2, &key_of(2)));
    assert!(!agent.authorize(2, &key_of(3)));
    assert!(!agent.authorize(4, &key_of(2)));
    let record = agent.doc.as_ref().unwrap().machine(2).expect("a member");
    assert_eq!(record.position, Point::new(1920, 0), "beside what is there");
    assert_eq!(record.paired_at_ms, 77);
    assert_eq!(agent.pending_invitations(), [2]);

    agent.on_net_event(Event::Online { machine_id: 2 }, 0);
    assert!(agent.pending_invitations().is_empty());
    agent.unpair(2).expect("unpaired");
    assert!(!agent.authorize(2, &key_of(2)));
}

#[test]
fn a_machine_without_a_workspace_waits_to_join_one() {
    let mut agent = Agent::new(1, None);
    announce(&mut agent, 2);
    assert!(matches!(agent.pair(2), Ok(Pairing::Waiting)));
    assert!(agent.authorize(2, &key_of(2)) && !agent.authorize(2, &key_of(3)));
    assert_eq!(agent.snapshot().awaiting_join, [2]);

    // The other machine's document arrives and holds its record.
    let mut theirs = WorkspaceDoc::create_as(5, "Theirs", machine(2, "Bob", Point::new(0, 0)), 0);
    theirs.upsert_machine(2, machine(1, "Alice", Point::new(1920, 0)));
    assert!(agent.merge(&theirs).expect("adopted"));
    assert!(agent.snapshot().awaiting_join.is_empty());
    assert!(agent.authorize(2, &key_of(2)));
    assert!(!agent.merge(&theirs).expect("no news"));
}

#[test]
fn an_agent_without_a_workspace_changes_nothing() {
    let mut agent = Agent::new(1, None);
    assert!(matches!(
        agent.rename_workspace("x"),
        Err(AgentError::NoWorkspace)
    ));
    let mut author = WorkspaceDoc::create_as(9, "D", machine(2, "B", Point::new(0, 0)), 0);
    let update = author.set_name(2, "N");
    assert!(!agent.apply(update).expect("ignored"));
    assert_eq!(agent.display_name("fallback".into()), "fallback");
    assert_eq!((agent.discovery_port(), agent.transport_port()), (47451, 47452));
    assert_eq!(agent.free_position(), Point::new(0, 0));
}

#[test]
fn updates_of_another_workspace_are_refused() {
    let mut agent = solo();
    let mut other = WorkspaceDoc::create_as(8, "D", machine(2, "B", Point::new(0, 0)), 0);
    let update = other.set_name(2, "N");
    assert!(matches!(
        agent.apply(update),
        Err(Error::WorkspaceMismatch { .. })
    ));
    assert!(agent.merge(&other).is_err());
}

#[test]
fn every_kind_of_whitespace_is_trimmed() {
    let around = "\u{9}\u{d}\u{85}\u{a0}\u{1680}\u{2000}\u{200a}\u{2028}\u{202f}\u{205f}\u{3000} ";
    let name = format!("{around}Studio Mac{around}");
    assert_eq!(computer_name(Some(name), None), "Studio Mac");
    // A zero-width space is no whitespace.
    let joined = "\u{200b}Mac".to_string();
    assert_eq!(computer_name(Some(joined.clone()), None), joined);
}

#[test]
fn a_name_is_trimmed_and_must_not_be_empty() {
    let mut agent = solo();
    agent.rename_this_machine("  Desk \n").expect("renamed");
    assert_eq!(agent.display_name("x".into()), "Desk");
    assert!(matches!(
        agent.rename_this_machine(" \u{3000}"),
        Err(AgentError::Refused(why)) if why == "a computer needs a name"
    ));
    assert!(matches!(
        Agent::new(3, None).rename_this_machine("x"),
        Err(AgentError::UnknownMachine(3))
    ));
}

#[test]
fn local_facts_are_published_only_when_they_change() {
    let mut agent = solo();
    let same = agent.publish_local_facts(vec![display(1920)], Platform::Linux);
    assert!(matches!(same, Ok(None)));
    let screens = agent
        .publish_local_facts(vec![display(2560)], Platform::Linux)
        .expect("published");
    assert!(screens.is_some());
    let record = agent.doc.as_ref().unwrap().machine(1).unwrap();
    assert_eq!(record.displays[0].width, 2560);
    let platform = agent
        .publish_local_facts(vec![display(2560)], Platform::MacOs)
        .expect("published");
    assert!(platform.is_some());
    let nobody = Agent::new(1, None).publish_local_facts(vec![], Platform::Linux);
    assert!(matches!(nobody, Ok(None)));
}

#[test]
fn exactly_one_of_two_configurations_gives_way() {
    let small = WorkspaceDoc::create_as(7, "S", machine(1, "A", Point::new(0, 0)), 0);
    let mut big = WorkspaceDoc::create_as(3, "B", machine(2, "B", Point::new(0, 0)), 0);
    big.upsert_machine(2, machine(4, "C", Point::new(1920, 0)));
    assert!(should_yield(&small, 3, 2) && !should_yield(&big, 7, 1));
    // The same size: the lower identifier survives.
    assert!(should_yield(&small, 3, 1) && !should_yield(&small, 8, 1));
}

#[test]
fn the_smaller_configuration_adopts_the_other() {
    let mut agent = solo();
    let event = |size| Event::DifferentWorkspaces {
        machine_id: 2,
        display_name: "Bob".into(),
        identity_key: key_of(2),
        their_workspace: 100,
        their_size: size,
    };
    assert!(matches!(agent.on_net_event(event(1), 0), Reaction::Nothing));
    match agent.on_net_event(event(2), 0) {
        Reaction::Adopt {
            machine_id,
            identity_key,
        } => {
            assert_eq!(machine_id, 2);
            agent.adopt_configuration_of(machine_id, identity_key);
        }
        other => panic!("expected to adopt, got {other:?}"),
    }
    assert!(agent.doc.is_none());
    assert!(agent.authorize(2, &key_of(2)), "still trusted across the gap");
}

#[test]
fn a_machine_that_went_offline_keeps_its_place() {
    let mut agent = solo();
    announce(&mut agent, 2);
    agent.pair_at(2, 0).expect("paired");
    agent.on_net_event(Event::Online { machine_id: 2 }, 0);
    assert!(agent.online.contains(&2) && agent.candidates.is_empty());
    agent.on_net_event(
        Event::Offline {
            machine_id: 2,
            reason: "gone".into(),
        },
        0,
    );
    assert!(!agent.online.contains(&2));
    assert!(agent.doc.as_ref().unwrap().machine(2).is_some());
}

#[test]
fn a_refused_machine_is_surfaced_once() {
    let mut agent = solo();
    let rejected = || Event::Rejected {
        machine_id: 6,
        identity_key: key_of(6),
        addr: at(6),
    };
    agent.on_net_event(rejected(), 50);
    let candidate = &agent.candidates[&6];
    assert_eq!(candidate.display_name, "Unknown computer");
    assert!(candidate.has_workspace && !candidate.invited_us);
    agent.on_net_event(rejected(), 99);
    assert_eq!(agent.candidates[&6].last_seen_ms, 50);
    for quiet in [
        Event::WorkspaceChanged,
        Event::Sighted { machine_id: 6 },
        Event::Connecting { machine_id: 6 },
    ] {
        assert!(matches!(agent.on_net_event(quiet, 0), Reaction::Nothing));
    }
}

#[test]
fn the_sharing_switch_starts_and_stops() {
    let mut agent = solo();
    let (off, on) = (LocalPrefs { sharing: false }, LocalPrefs { sharing: true });
    assert_eq!(agent.set_sharing(false, off).change, SharingChange::Keep);
    assert_eq!(agent.set_sharing(true, off).change, SharingChange::Start);
    assert!(!agent.is_sharing(), "not until capture has started");
    agent.sharing_started();
    assert_eq!(agent.set_sharing(true, on).change, SharingChange::Keep);
    agent.note_cursor_owner(Some(2));
    assert_eq!(agent.set_sharing(false, on).change, SharingChange::Stop);
    assert!(!agent.is_sharing());
}

#[test]
fn the_sharing_switch_is_remembered_even_if_capture_fails() {
    let mut agent = solo();
    let (off, on) = (LocalPrefs { sharing: false }, LocalPrefs { sharing: true });
    let switch = agent.set_sharing(true, off);
    assert_eq!(switch.remember, Some(on));
    assert_eq!(switch.change, SharingChange::Start);
    // Capture could not be started: nothing is shared, and the choice stands.
    assert!(!agent.is_sharing());
    let again = agent.set_sharing(true, on);
    assert_eq!(again.remember, None);
    assert_eq!(again.change, SharingChange::Start);
    // Switched off before it ever ran: there is nothing to stop, but it is noted.
    let switch = agent.set_sharing(false, on);
    assert_eq!(switch.remember, Some(off));
    assert_eq!(switch.change, SharingChange::Keep);
}

#[test]
fn announcements_of_the_pointer_are_taken_once() {
    let mut agent = solo();
    assert_eq!(agent.take_announced_owner(), None);
    agent.on_cursor_owner(4);
    agent.on_cursor_owner(5);
    assert_eq!(agent.take_announced_owner(), Some(5));
    assert_eq!(agent.take_announced_owner(), None);
    assert!(agent.note_cursor_owner(Some(5)));
    assert!(!agent.note_cursor_owner(Some(5)));
}

#[test]
fn typed_addresses_are_shown() {
    let mut agent = solo();
    agent.add_manual_peer(at(3));
    agent.add_manual_peer(at(4));
    agent.add_manual_peer(at(3));
    assert_eq!(agent.snapshot().manual_peers, [at(3), at(4)]);
    agent.forget_manual_peer(at(3));
    assert_eq!(agent.snapshot().manual_peers, [at(4)]);
    agent
        .update_settings(WorkspaceSettings {
            discovery_port: 4,
            ..WorkspaceSettings::default()
        })
        .expect("updated");
    assert_eq!(agent.discovery_port(), 4);
}

fn around() -> Surroundings {
    Surroundings {
        config_dir: "/config".into(),
        transport_port: Some(47452),
        autostart: true,
        computer_name: "host".into(),
        interfaces: vec![inputshare::discovery::Interface {
            name: "wifi".into(),
            address: ipv4(192, 168, 0, 7),
            broadcast: None,
            self_assigned: false,
        }],
        now: 5_500,
    }
}

const ID_1: &str = "00000000-0000-0000-0000-000000000001";
const ID_2: &str = "00000000-0000-0000-0000-000000000002";

#[test]
fn the_screen_shows_the_desk_in_reading_order() {
    let mut agent = solo();
    let mut above = machine(3, "Above", Point::new(0, -1080));
    above.platform = Platform::MacOs;
    agent.upsert_machine(above).expect("added");
    let mut bare = machine(2, "Left", Point::new(-1920, 0));
    bare.displays.clear();
    agent.upsert_machine(bare).expect("added");
    agent.on_net_event(Event::Online { machine_id: 3 }, 0);
    announce(&mut agent, 7);

    let state = ui::view(&agent, &identity(), around());
    assert_eq!(state.machine_id, ID_1);
    assert_eq!(state.fingerprint, key_of(1).fingerprint());
    assert_eq!(state.interfaces[0].address, "192.168.0.7");
    assert_eq!(state.candidates[0].seconds_since_seen, 4);
    assert!(state.candidates[0].invited_us && state.candidates[0].has_workspace);
    assert_eq!(
        state.candidates[0].machine_id,
        "00000000-0000-0000-0000-000000000007"
    );
    let workspace = state.workspace.expect("a workspace");
    assert_eq!(workspace.id, "00000000-0000-0000-0000-000000000009");
    assert_eq!((workspace.name.as_str(), workspace.revision), ("Desk", 3));
    assert_eq!(workspace.settings.offline_edge, "block");
    assert_eq!(workspace.cursor_owner.as_deref(), Some("PC1"));
    let names: Vec<&str> = workspace.machines.iter().map(|m| m.name.as_str()).collect();
    assert_eq!(names, ["Above", "Left", "PC1"]);
    let above = &workspace.machines[0];
    assert_eq!(above.platform, "macOS");
    assert!(above.online && !above.is_local && above.known_displays);
    assert_eq!((above.screens[0].x, above.screens[0].y), (0, -1080));
    let left = &workspace.machines[1];
    assert!(!left.online && !left.known_displays);
    assert_eq!((left.x, left.width), (-1920, 0));
    assert!(workspace.machines[2].is_local && workspace.machines[2].online);
}

#[test]
fn the_live_pointer_is_shown_where_it_is() {
    let mut agent = solo();
    agent
        .upsert_machine(machine(3, "Above", Point::new(0, -1080)))
        .expect("added");
    agent.note_cursor_owner(Some(3));
    let state = ui::view(&agent, &identity(), around());
    let owner = state.workspace.expect("a workspace").cursor_owner;
    assert_eq!(owner.as_deref(), Some("Above"));
    let none = ui::view(&Agent::new(1, None), &identity(), around());
    assert!(none.workspace.is_none());
}

#[test]
fn a_card_lands_where_it_was_dropped() {
    let mut agent = solo();
    let mut wide = machine(2, "Wide", Point::new(3000, 0));
    wide.displays.push(DisplayInfo {
        x: -800,
        y: -50,
        ..display(800)
    });
    agent.upsert_machine(wide).expect("added");
    ui::edit_machine(&mut agent, ID_2, MachineEdit::Place { x: 100, y: 200 }).expect("moved");
    let record = agent.doc.as_ref().unwrap().machine(2).unwrap();
    assert_eq!(record.position, Point::new(900, 250));
    let bounds = record.bounds().unwrap();
    assert_eq!((bounds.x, bounds.y), (100, 200));
}

#[test]
fn machines_are_edited_by_identifier() {
    let mut agent = solo();
    ui::edit_machine(&mut agent, ID_1, MachineEdit::Rename("New".into())).expect("renamed");
    ui::edit_machine(
        &mut agent,
        ID_1,
        MachineEdit::Input {
            keyboard: true,
            mouse: false,
        },
    )
    .expect("assigned");
    let record = agent.doc.as_ref().unwrap().machine(1).unwrap();
    assert_eq!(record.display_name, "New");
    assert!(record.input.provides_keyboard && !record.input.provides_mouse);
    assert!(matches!(
        ui::edit_machine(&mut agent, "nonsense", MachineEdit::Rename("x".into())),
        Err(CommandError::Refused(why)) if why == "not a machine id: nonsense"
    ));
    assert!(matches!(
        ui::edit_machine(&mut agent, ID_2, MachineEdit::Rename("x".into())),
        Err(CommandError::Refused(why)) if why == "no such machine"
    ));
}

#[test]
fn identifiers_are_read_in_every_form_they_are_written() {
    assert_eq!(ui::parse_machine_id(ID_2), Ok(2));
    assert_eq!(
        ui::parse_machine_id("{00000000-0000-0000-0000-0000000000FF}"),
        Ok(255)
    );
    assert_eq!(
        ui::parse_machine_id(""),
        Err("not a machine id: ".to_string())
    );
}

fn settings(edge: &str) -> UiSettings {
    UiSettings {
        clipboard_sync: false,
        offline_edge: edge.into(),
        discovery_port: 1,
        transport_port: 2,
        autostart: false,
    }
}

#[test]
fn settings_are_taken_over_from_the_screen() {
    let mut agent = solo();
    agent
        .update_settings(WorkspaceSettings {
            preferred_interfaces: vec!["eth0".into()],
            ..WorkspaceSettings::default()
        })
        .expect("updated");
    ui::update_settings(&mut agent, settings("skip_over")).expect("updated");
    let now = &agent.doc.as_ref().unwrap().settings.value;
    assert_eq!(now.offline_edge, OfflineEdgeBehavior::SkipOver);
    assert_eq!((now.discovery_port, now.transport_port), (1, 2));
    assert_eq!(now.preferred_interfaces, ["eth0"]);
    assert!(matches!(
        ui::update_settings(&mut agent, settings("wrap")),
        Err(CommandError::Refused(why)) if why == "unknown offline edge behaviour: wrap"
    ));
    assert!(matches!(
        ui::update_settings(&mut Agent::new(1, None), settings("block")),
        Err(CommandError::Agent(AgentError::NoWorkspace))
    ));
}

#[test]
fn routes_are_explained() {
    let mut agent = solo();
    agent
        .upsert_machine(machine(2, "Left", Point::new(-1920, 0)))
        .expect("added");
    let route = |agent: &Agent, x| ui::resolve_route(agent, 1, ID_1, x, 400).expect("a route");
    let same = route(&agent, 5);
    assert_eq!(
        (same.outcome.as_str(), same.explanation.as_str()),
        ("same", "still on the same machine")
    );
    let blocked = route(&agent, -5);
    assert_eq!((blocked.outcome.as_str(), blocked.x), ("blocked", 0));
    assert_eq!(
        blocked.explanation,
        "held at the boundary \u{2014} nothing online over there"
    );
    agent.online = HashSet::from([2]);
    let handoff = route(&agent, -5);
    assert_eq!(
        (handoff.outcome.as_str(), handoff.explanation.as_str()),
        ("handoff", "crosses over")
    );
    assert_eq!(handoff.machine.as_deref(), Some("Left"));
    assert!(matches!(
        ui::resolve_route(&agent, 1, "x", 0, 0),
        Err(why) if why == "not a machine id: x"
    ));
    assert!(matches!(
        ui::resolve_route(&Agent::new(1, None), 1, "x", 0, 0),
        Err(why) if why == "no workspace"
    ));
}

#[test]
fn a_typed_address_may_leave_out_the_port() {
    let (as_given, with_port) = ui::address_attempts(" 192.168.1.20 ", 47451).expect("attempts");
    assert_eq!(as_given, "192.168.1.20");
    assert_eq!(with_port, "192.168.1.20:47451");
    assert_eq!(
        ui::address_attempts("  ", 1),
        Err("enter an address".to_string())
    );
    assert_eq!(ui::address_read("x", None, Some(at(3))), Ok(at(3)));
    assert_eq!(ui::address_read("x", Some(at(4)), Some(at(3))), Ok(at(4)));
    assert_eq!(
        ui::address_read(" nope ", None, None),
        Err("\"nope\" is not an address like 192.168.1.20".to_string())
    );
}
