//! Finding peers, connecting to them, and what is said on a connection.

use inputshare::addr::{ipv4, Endpoint, Ip};
use inputshare::discovery::{
    add_manual_peer, bind_transport, forget_manual_peer, interfaces, listen, same_interfaces,
    same_subnet, send_unicast, Announcer, FoundAddress, Interface, ListenAction, ListenEvent,
    Route, GROUP, REJOIN, RETRY_BIND,
};
use inputshare::peers::{
    backoff, Config, Event, Moment, Peers, SessionOutcome, Sighting, Status, HINT_TTL, SECOND,
};
use inputshare::session::{
    heartbeat, open, summarize, Link, LinkAction, LinkEvent, Phase, Summary,
};
use inputshare::wire::{Announcement, Message};
use inputshare::{
    Identity, InputAssignment, InputEvent, MachineId, MachineRecord, Platform, Point, WorkspaceDoc,
};

fn v4(a: u8, b: u8, c: u8, d: u8, port: u16) -> Endpoint {
    Endpoint::new(Ip::V4(ipv4(a, b, c, d)), port)
}

fn hello_from(machine_id: MachineId, workspace: Option<u128>) -> Sighting {
    let key = Identity::from_secret(machine_id, 0, [machine_id as u8; 32]).public_key();
    Sighting {
        announcement: Announcement::describe(
            machine_id,
            key,
            "Peer".into(),
            workspace,
            4000,
            vec![1],
        ),
        from: v4(192, 168, 1, machine_id as u8, 50000),
    }
}

const START: Moment = 1_000 * SECOND;

#[test]
fn a_paired_machine_is_dialled_once_it_is_heard() {
    let mut peers = Peers::new(1);
    let response = peers.on_sighting(hello_from(2, Some(9)), true, START);
    assert!(matches!(
        response.event,
        Some(Event::Sighted { machine_id: 2 })
    ));
    assert!(response.reply_to.is_none());
    assert_eq!(peers.on_tick(START), [(2, v4(192, 168, 1, 2, 4000))]);
    // It is being dialled; it is not dialled twice.
    assert!(peers.on_tick(START).is_empty());
    assert_eq!(peers.slots[&2].status, Status::Connecting);
}

#[test]
fn of_two_machines_only_the_lower_one_dials() {
    let mut high = Peers::new(7);
    high.on_sighting(hello_from(2, None), true, START);
    assert!(high.on_tick(START).is_empty());
    let mut low = Peers::new(1);
    low.on_sighting(hello_from(7, None), true, START);
    assert_eq!(low.on_tick(START).len(), 1);
}

#[test]
fn a_stranger_is_offered_for_pairing_and_nothing_more() {
    let mut peers = Peers::new(1);
    let response = peers.on_sighting(hello_from(2, Some(9)), false, START);
    match response.event {
        Some(Event::Candidate {
            machine_id,
            display_name,
            workspace_id,
            addr,
            invited_us,
            ..
        }) => {
            assert_eq!((machine_id, workspace_id, invited_us), (2, Some(9), true));
            assert_eq!(display_name, "Peer");
            assert_eq!(addr, v4(192, 168, 1, 2, 4000));
        }
        other => panic!("expected a candidate, got {other:?}"),
    }
    assert!(peers.on_tick(START).is_empty());
    assert!(peers.slots.is_empty());
}

#[test]
fn our_own_announcement_is_ignored_and_a_probe_is_answered() {
    let mut peers = Peers::new(2);
    let own = peers.on_sighting(hello_from(2, None), true, START);
    assert!(own.event.is_none() && own.reply_to.is_none());
    let mut probe = hello_from(3, None);
    probe.announcement.probe = true;
    let answered = peers.on_sighting(probe, false, START);
    assert_eq!(answered.reply_to, Some(Ip::V4(ipv4(192, 168, 1, 3))));
}

#[test]
fn failures_back_off_up_to_a_cap() {
    let seconds: Vec<u64> = (0..8).map(|n| backoff(n) / SECOND).collect();
    assert_eq!(seconds, [1, 2, 4, 8, 16, 30, 30, 30]);

    let mut peers = Peers::new(1);
    peers.on_sighting(hello_from(2, None), true, START);
    peers.on_tick(START);
    let closed = peers.on_session(
        SessionOutcome::Closed {
            machine_id: 2,
            reason: "gone".into(),
        },
        START,
    );
    assert!(matches!(closed, Event::Offline { machine_id: 2, reason } if reason == "gone"));
    assert!(peers.on_tick(START + SECOND).is_empty());
    assert_eq!(peers.on_tick(START + 2 * SECOND).len(), 1);
}

#[test]
fn a_rescan_makes_everyone_due() {
    let mut peers = Peers::new(1);
    peers.on_sighting(hello_from(2, None), true, START);
    peers.on_tick(START);
    peers.on_session(
        SessionOutcome::Closed {
            machine_id: 2,
            reason: "gone".into(),
        },
        START,
    );
    peers.on_rescan(START);
    assert_eq!(peers.on_tick(START).len(), 1);
}

#[test]
fn a_machine_that_changed_its_workspace_is_due_again() {
    let mut peers = Peers::new(1);
    peers.on_sighting(hello_from(2, Some(8)), true, START);
    peers.on_tick(START);
    peers.on_session(
        SessionOutcome::DifferentWorkspaces {
            machine_id: 2,
            display_name: "Peer".into(),
            identity_key: Identity::generate().public_key(),
            their_workspace: 8,
            their_size: 1,
        },
        START,
    );
    assert_eq!(peers.slots[&2].attempts, 5);
    peers.on_sighting(hello_from(2, Some(8)), true, START + SECOND);
    assert!(peers.on_tick(START + SECOND).is_empty());
    peers.on_sighting(hello_from(2, Some(9)), true, START + 2 * SECOND);
    assert_eq!(peers.on_tick(START + 2 * SECOND).len(), 1);
}

#[test]
fn a_silent_machine_is_not_dialled_and_its_address_is_forgotten() {
    let mut peers = Peers::new(1);
    peers.on_sighting(hello_from(2, None), true, START);
    let late = START + HINT_TTL;
    assert!(peers.on_tick(late).is_empty());
    assert!(peers.slots[&2].addr.is_none());
    // Back again, after a silence: due at once.
    peers.on_sighting(hello_from(2, None), true, late + SECOND);
    assert_eq!(peers.on_tick(late + SECOND).len(), 1);
}

#[test]
fn changes_go_to_everyone_connected() {
    let mut peers = Peers::new(1);
    for id in [3, 2, 4] {
        peers.on_sighting(hello_from(id, None), true, START);
        let online = peers.on_session(
            SessionOutcome::Established {
                machine_id: id,
                display_name: "Peer".into(),
            },
            START,
        );
        assert!(matches!(online, Event::Online { machine_id } if machine_id == id));
    }
    assert_eq!(peers.on_broadcast(), [2, 3, 4]);
    assert!(peers.can_send(3));
    peers.on_send_failed(3);
    assert!(!peers.can_send(3) && !peers.can_send(9));
    assert_eq!(peers.on_broadcast(), [2, 4]);
}

#[test]
fn outcomes_that_change_no_peer_are_passed_on() {
    let mut peers = Peers::new(1);
    let key = Identity::generate().public_key();
    let at = v4(10, 0, 0, 9, 1);
    let rejected = peers.on_session(
        SessionOutcome::Rejected {
            machine_id: 6,
            identity_key: key,
            addr: at,
        },
        START,
    );
    assert!(matches!(rejected, Event::Rejected { machine_id: 6, addr, .. } if addr == at));
    let changed = peers.on_session(SessionOutcome::WorkspaceChanged, START);
    assert!(matches!(changed, Event::WorkspaceChanged));
}

#[test]
fn networking_starts_on_the_well_known_ports() {
    let config = Config::new(Identity::from_secret(4, 0, [1; 32]));
    assert_eq!((config.discovery_port, config.transport_port), (47451, 47452));
    assert_eq!(config.announce_interval, 3 * SECOND);
    assert_eq!(config.identity.machine_id, 4);
    assert_eq!(bind_transport(47452, true), Some(0));
    assert_eq!(bind_transport(47452, false), None);
    assert_eq!(bind_transport(0, true), None);
}

fn found(name: &str, loopback: bool, address: Option<u32>) -> FoundAddress {
    FoundAddress {
        name: name.into(),
        loopback,
        v4: address.map(|a| (a, Some(a | 255))),
    }
}

#[test]
fn every_usable_interface_is_listed_by_address() {
    let list = interfaces(&vec![
        found("wifi", false, Some(ipv4(192, 168, 1, 5))),
        found("lo", true, Some(ipv4(127, 0, 0, 1))),
        found("six", false, None),
        found("eth", false, Some(ipv4(169, 254, 3, 4))),
        found("again", false, Some(ipv4(192, 168, 1, 5))),
    ]);
    let names: Vec<&str> = list.iter().map(|i| i.name.as_str()).collect();
    assert_eq!(names, ["eth", "wifi"]);
    assert!(list[0].self_assigned && !list[1].self_assigned);
    assert_eq!(list[1].broadcast, Some(ipv4(192, 168, 1, 255)));
    assert!(same_interfaces(&list, &list));
    assert!(same_subnet(&list[1], ipv4(192, 168, 1, 200)));
    assert!(!same_subnet(&list[1], ipv4(192, 168, 2, 5)));
}

fn card(name: &str, address: u32, broadcast: Option<u32>) -> Interface {
    Interface {
        name: name.into(),
        address,
        broadcast,
        self_assigned: false,
    }
}

#[test]
fn an_announcement_leaves_by_every_card() {
    let a = ipv4(10, 0, 0, 1);
    let b = ipv4(192, 168, 1, 5);
    let mut announcer = Announcer::new();
    let wanted = announcer.refresh(vec![
        card("a", a, None),
        card("b", b, Some(ipv4(192, 168, 1, 255))),
    ]);
    assert_eq!(wanted, [a, b]);
    for address in wanted {
        announcer.opened(address);
    }
    // Nothing to open when nothing changed.
    assert!(announcer
        .refresh(vec![
            card("a", a, None),
            card("b", b, Some(ipv4(192, 168, 1, 255)))
        ])
        .is_empty());

    let typed = v4(192, 168, 1, 77, 47451);
    let out = announcer.round(47451, &vec![typed]);
    let sent: Vec<(u32, Endpoint, bool)> = out.iter().map(|d| (d.from, d.to, d.probe)).collect();
    assert_eq!(
        sent,
        [
            (a, Endpoint::new(Ip::V4(GROUP), 47451), false),
            (b, Endpoint::new(Ip::V4(GROUP), 47451), false),
            (b, v4(192, 168, 1, 255, 47451), false),
            (b, typed, true),
        ]
    );
    assert_eq!(GROUP, ipv4(239, 255, 42, 98));
}

#[test]
fn a_typed_address_goes_out_where_it_belongs() {
    let a = ipv4(10, 0, 0, 1);
    let b = ipv4(192, 168, 1, 5);
    let cards = vec![card("a", a, None), card("b", b, None)];
    let both = vec![a, b];
    assert_eq!(
        send_unicast(&cards, &both, v4(192, 168, 1, 9, 1)),
        Route::From(b)
    );
    assert_eq!(
        send_unicast(&cards, &both, v4(172, 16, 0, 9, 1)),
        Route::Everywhere
    );
    assert_eq!(
        send_unicast(&cards, &vec![a], v4(192, 168, 1, 9, 1)),
        Route::Everywhere
    );
    assert_eq!(
        send_unicast(&cards, &both, Endpoint::new(Ip::V6(1), 1)),
        Route::Nowhere
    );
}

#[test]
fn typed_addresses_are_kept_once() {
    let mut manual = Vec::new();
    let first = v4(10, 0, 0, 1, 1);
    let second = v4(10, 0, 0, 2, 1);
    add_manual_peer(&mut manual, first);
    add_manual_peer(&mut manual, second);
    add_manual_peer(&mut manual, first);
    assert_eq!(manual, [first, second]);
    forget_manual_peer(&mut manual, first);
    assert_eq!(manual, [second]);
}

#[test]
fn listening_rebinds_when_the_interfaces_change() {
    let on = vec![card("a", ipv4(10, 0, 0, 1), None)];
    let sighting = hello_from(3, None);
    let heard = ListenEvent::Received {
        announcement: Some(sighting.announcement),
        from: sighting.from,
    };
    assert!(
        matches!(listen(&on, heard), ListenAction::Forward(s) if s.announcement.machine_id == 3)
    );
    let garbage = ListenEvent::Received {
        announcement: None,
        from: v4(1, 2, 3, 4, 5),
    };
    assert!(matches!(listen(&on, garbage), ListenAction::Continue));
    let mut old = hello_from(3, None);
    old.announcement.protocol = 99;
    let outdated = ListenEvent::Received {
        announcement: Some(old.announcement),
        from: old.from,
    };
    assert!(matches!(listen(&on, outdated), ListenAction::Continue));
    assert!(matches!(
        listen(&on, ListenEvent::BindFailed),
        ListenAction::Rebind { after: RETRY_BIND }
    ));
    assert!(matches!(
        listen(&on, ListenEvent::ReceiveFailed),
        ListenAction::Rebind { after: REJOIN }
    ));
    assert!(matches!(
        listen(&on, ListenEvent::Recheck { current: on.clone() }),
        ListenAction::Continue
    ));
    assert!(matches!(
        listen(&on, ListenEvent::Recheck { current: vec![] }),
        ListenAction::Rebind { after: REJOIN }
    ));
    assert!(matches!(
        listen(&on, ListenEvent::SinkClosed),
        ListenAction::Stop
    ));
}

fn document(workspace: u128) -> WorkspaceDoc {
    let identity = Identity::generate();
    WorkspaceDoc::create_as(
        workspace,
        "Desk",
        MachineRecord {
            id: identity.machine_id,
            display_name: "PC1".into(),
            platform: Platform::Linux,
            public_key: identity.public_key(),
            position: Point::new(0, 0),
            displays: vec![],
            input: InputAssignment::default(),
            paired_at_ms: 0,
        },
        0,
    )
}

fn at() -> Endpoint {
    v4(192, 168, 1, 9, 4000)
}

/// A dialled link to a peer, up to the peer having proved its key.
fn proven(peer: &Identity) -> Link {
    let me = Identity::generate();
    let (link, _) = open(&me, true, Some(peer.machine_id), at());
    let (_, hello) = open(peer, false, None, at());
    let (link, actions) = link.step(LinkEvent::Hello(hello));
    assert!(matches!(
        &actions[..],
        [LinkAction::Authorize { machine_id, identity_key }]
            if *machine_id == peer.machine_id && *identity_key == peer.public_key()
    ));
    link
}

fn admitted(peer: &Identity, ours: Option<Summary>) -> Link {
    let (link, actions) = proven(peer).step(LinkEvent::Verdict {
        authorized: true,
        display_name: "Me".into(),
        ours,
    });
    assert!(matches!(
        &actions[..],
        [LinkAction::Encrypt(_), LinkAction::Send(Message::Identify { machines, .. })]
            if *machines == ours.map(|s| s.machines).unwrap_or(0)
    ));
    link
}

fn live(peer: &Identity) -> Link {
    let (link, actions) = admitted(peer, None).step(LinkEvent::Message(Message::Identify {
        display_name: "Peer".into(),
        workspace_id: Some(3),
        machines: 1,
    }));
    assert!(matches!(
        &actions[..],
        [
            LinkAction::Report(SessionOutcome::Established { .. }),
            LinkAction::TakeSnapshot
        ]
    ));
    let (link, actions) = link.step(LinkEvent::Snapshot(None));
    assert!(actions.is_empty());
    assert!(matches!(link.phase, Phase::Live { .. }));
    link
}

fn closes_with(actions: &[LinkAction], machine: MachineId, why: &str) -> bool {
    matches!(
        actions,
        [LinkAction::Report(SessionOutcome::Closed { machine_id, reason }), LinkAction::Close]
            if *machine_id == machine && reason == why
    )
}

#[test]
fn an_unpaired_machine_is_turned_away() {
    let peer = Identity::generate();
    let (link, actions) = proven(&peer).step(LinkEvent::Verdict {
        authorized: false,
        display_name: "Me".into(),
        ours: None,
    });
    assert!(matches!(link.phase, Phase::Over));
    assert!(matches!(
        &actions[..],
        [LinkAction::Report(SessionOutcome::Rejected { machine_id, addr, .. }), LinkAction::Close]
            if *machine_id == peer.machine_id && *addr == at()
    ));
}

#[test]
fn a_different_machine_than_expected_is_refused() {
    let me = Identity::generate();
    let peer = Identity::generate();
    let (link, _) = open(&me, true, Some(77), at());
    let (_, hello) = open(&peer, false, None, at());
    let (link, actions) = link.step(LinkEvent::Hello(hello));
    assert!(matches!(link.phase, Phase::Over));
    assert!(closes_with(
        &actions,
        77,
        "handshake refused: connected to a different machine"
    ));
}

#[test]
fn a_forged_hello_is_refused() {
    let me = Identity::generate();
    let peer = Identity::generate();
    let (link, _) = open(&me, false, None, at());
    let (_, mut hello) = open(&peer, false, None, at());
    hello.ephemeral[0] ^= 1;
    let (link, actions) = link.step(LinkEvent::Hello(hello));
    assert!(matches!(link.phase, Phase::Over));
    // An accepted connection has nobody to report about.
    assert!(matches!(&actions[..], [LinkAction::Close]));

    let (link, own) = open(&me, true, None, at());
    let (link, _) = link.step(LinkEvent::Hello(own));
    assert!(matches!(link.phase, Phase::Over));
}

#[test]
fn machines_in_different_workspaces_part_again() {
    let peer = Identity::generate();
    let link = admitted(
        &peer,
        Some(Summary {
            workspace_id: 1,
            machines: 4,
        }),
    );
    let (link, actions) = link.step(LinkEvent::Message(Message::Identify {
        display_name: "Peer".into(),
        workspace_id: Some(2),
        machines: 3,
    }));
    assert!(matches!(link.phase, Phase::Over));
    assert!(matches!(
        &actions[..],
        [
            LinkAction::Report(SessionOutcome::DifferentWorkspaces {
                their_workspace: 2,
                their_size: 3,
                ..
            }),
            LinkAction::Send(Message::Goodbye { .. }),
            LinkAction::Close
        ]
    ));
}

#[test]
fn a_peer_has_to_say_who_it_is_first() {
    let peer = Identity::generate();
    let (_, actions) = admitted(&peer, None).step(LinkEvent::Message(Message::Ping { nonce: 1 }));
    assert!(closes_with(
        &actions,
        peer.machine_id,
        "handshake refused: peer did not identify itself"
    ));
}

#[test]
fn both_sides_send_their_document() {
    let peer = Identity::generate();
    let (link, _) = admitted(&peer, None).step(LinkEvent::Message(Message::Identify {
        display_name: "Peer".into(),
        workspace_id: None,
        machines: 0,
    }));
    let (link, actions) = link.step(LinkEvent::Snapshot(Some(document(3))));
    assert!(matches!(
        &actions[..],
        [LinkAction::Send(Message::DocFull { doc })] if doc.workspace_id == 3
    ));
    let (link, actions) = link.step(LinkEvent::DocumentSent);
    assert!(actions.is_empty());
    assert!(matches!(link.phase, Phase::Live { .. }));
}

#[test]
fn a_live_peer_is_obeyed() {
    let peer = Identity::generate();
    let link = live(&peer);
    let (link, actions) = link.step(LinkEvent::Message(Message::DocFull {
        doc: Box::new(document(3)),
    }));
    assert!(matches!(&actions[..], [LinkAction::Merge(doc)] if doc.workspace_id == 3));
    let (link, actions) = link.step(LinkEvent::Merged(Ok(true)));
    assert!(matches!(
        &actions[..],
        [LinkAction::Report(SessionOutcome::WorkspaceChanged)]
    ));
    let (link, actions) = link.step(LinkEvent::Merged(Ok(false)));
    assert!(actions.is_empty());
    let mut author = document(3);
    let update = author.set_name(1, "New");
    let (link, actions) = link.step(LinkEvent::Message(Message::Update {
        update: Box::new(update),
    }));
    assert!(matches!(&actions[..], [LinkAction::Apply(_)]));
    let (link, actions) = link.step(LinkEvent::Applied(Ok(true)));
    assert_eq!(actions.len(), 1);
    let (link, actions) = link.step(LinkEvent::Message(Message::Input {
        events: vec![InputEvent::MouseMove { dx: 1, dy: 2 }],
    }));
    assert!(matches!(
        &actions[..],
        [LinkAction::Replay { from, events }]
            if *from == peer.machine_id && events.len() == 1
    ));
    let (link, actions) = link.step(LinkEvent::Message(Message::CursorOwner { machine: 5 }));
    assert!(matches!(
        &actions[..],
        [LinkAction::CursorOwner { from, machine: 5 }] if *from == peer.machine_id
    ));
    let (link, actions) = link.step(LinkEvent::Message(Message::Pong { nonce: 1 }));
    assert!(actions.is_empty());
    assert!(matches!(link.phase, Phase::Live { .. }));
}

#[test]
fn every_end_of_a_live_session_is_reported() {
    let peer = Identity::generate();
    let id = peer.machine_id;
    let (_, actions) = live(&peer).step(LinkEvent::Quiet);
    assert!(closes_with(&actions, id, "peer went quiet"));
    let (_, actions) = live(&peer).step(LinkEvent::Failed("broken pipe".into()));
    assert!(closes_with(&actions, id, "broken pipe"));
    let (_, actions) = live(&peer).step(LinkEvent::Merged(Err("no".into())));
    assert!(closes_with(&actions, id, "incompatible workspace: no"));
    let (_, actions) = live(&peer).step(LinkEvent::Applied(Err("no".into())));
    assert!(closes_with(&actions, id, "rejected update: no"));
    let (link, actions) = live(&peer).step(LinkEvent::Message(Message::Goodbye {
        reason: "bye".into(),
    }));
    assert!(closes_with(&actions, id, "bye"));
    // Over is over.
    let (_, actions) = link.step(LinkEvent::Message(Message::Input { events: vec![] }));
    assert!(actions.is_empty());
}

#[test]
fn a_peer_that_never_answers_times_out() {
    let me = Identity::generate();
    let (link, _) = open(&me, true, Some(5), at());
    let (_, actions) = link.step(LinkEvent::Quiet);
    assert!(closes_with(&actions, 5, "timed out"));
}

#[test]
fn heartbeats_count_up() {
    assert!(matches!(heartbeat(0), (1, Message::Ping { nonce: 1 })));
    assert!(matches!(heartbeat(41), (42, Message::Ping { nonce: 42 })));
    let summary = summarize(&document(6));
    assert_eq!((summary.workspace_id, summary.machines), (6, 1));
}
