//! Sharing the keyboard and mouse: exactly one machine owns the pointer, and every
//! machine knows which.

use std::collections::HashSet;

use inputshare::router::{pointer_now, Router, RouterAction, Source};
use inputshare::watchdog::Suppression;
use inputshare::{
    DisplayInfo, Identity, InputAssignment, InputEvent, MachineId, MachineRecord, MouseButton,
    Platform, Point, Scale, WorkspaceDoc,
};

const ME: MachineId = 1;
const MAC: MachineId = 2;

fn machine(id: MachineId, position: Point) -> MachineRecord {
    MachineRecord {
        id,
        display_name: format!("machine {id}"),
        platform: Platform::Linux,
        public_key: Identity::from_secret(id, 0, [id as u8; 32]).public_key(),
        position,
        displays: vec![DisplayInfo {
            id: "display-0".into(),
            name: "Built-in".into(),
            x: 0,
            y: 0,
            width: 1920,
            height: 1080,
            scale: Scale::one(),
            primary: true,
        }],
        input: InputAssignment::default(),
        paired_at_ms: 0,
    }
}

/// The Mac left of this machine.
fn desk() -> WorkspaceDoc {
    let mut doc = WorkspaceDoc::create_as(9, "Desk", machine(ME, Point::new(0, 0)), 0);
    doc.upsert_machine(ME, machine(MAC, Point::new(-1920, 0)));
    doc
}

fn both() -> HashSet<MachineId> {
    HashSet::from([ME, MAC])
}

fn shown(actions: &[RouterAction]) -> Vec<String> {
    actions.iter().map(|a| format!("{a:?}")).collect()
}

#[test]
fn crossing_an_edge_hands_the_pointer_over() {
    let doc = desk();
    let mut router = Router::new(ME, Some(Point::new(3, 400)));
    let actions = router.handle(
        InputEvent::MouseMove { dx: -10, dy: 0 },
        Source::Local,
        Some(&doc),
        &both(),
        Some(Point::new(3, 400)),
    );
    assert_eq!(
        shown(&actions),
        shown(&[
            RouterAction::NoteOwner(MAC),
            RouterAction::Suppress(true),
            RouterAction::SendInput {
                to: MAC,
                events: vec![InputEvent::CursorEnter { x: 1919, y: 400 }],
            },
            RouterAction::AnnounceOwner(MAC),
        ])
    );
    assert_eq!(router.owner, MAC);
    assert!(router.pending.is_empty());
}

#[test]
fn local_motion_on_the_owner_is_only_tracked() {
    let doc = desk();
    let mut router = Router::new(ME, Some(Point::new(100, 100)));
    let actions = router.handle(
        InputEvent::MouseMove { dx: 5, dy: -5 },
        Source::Local,
        Some(&doc),
        &both(),
        Some(Point::new(100, 100)),
    );
    assert!(actions.is_empty());
    assert_eq!(router.cursor, Point::new(105, 95));
}

#[test]
fn remote_motion_on_the_owner_places_the_pointer() {
    let doc = desk();
    let mut router = Router::new(ME, Some(Point::new(100, 100)));
    let actions = router.handle(
        InputEvent::MouseMove { dx: 5, dy: -5 },
        Source::Remote,
        Some(&doc),
        &both(),
        None,
    );
    assert_eq!(
        shown(&actions),
        shown(&[RouterAction::PlaceCursor { x: 105, y: 95 }])
    );
}

#[test]
fn a_pointer_that_something_else_moved_is_believed() {
    let doc = desk();
    let mut router = Router::new(ME, Some(Point::new(100, 100)));
    let far = Some(Point::new(181, 100));
    router.handle(
        InputEvent::MouseMove { dx: 1, dy: 0 },
        Source::Local,
        Some(&doc),
        &both(),
        far,
    );
    assert_eq!(router.cursor, Point::new(182, 100));
    let near = Some(Point::new(102, 100));
    router.handle(
        InputEvent::MouseMove { dx: 1, dy: 0 },
        Source::Local,
        Some(&doc),
        &both(),
        near,
    );
    assert_eq!(router.cursor, Point::new(183, 100));
}

#[test]
fn keys_on_the_owner_act_where_they_are() {
    let doc = desk();
    let mut router = Router::new(ME, None);
    let click = InputEvent::MouseButton {
        button: MouseButton::Left,
        down: true,
    };
    let local = router.handle(click, Source::Local, Some(&doc), &both(), None);
    assert!(local.is_empty());
    let remote = router.handle(click, Source::Remote, Some(&doc), &both(), None);
    assert_eq!(shown(&remote), shown(&[RouterAction::Inject(click)]));
}

#[test]
fn a_bystander_forwards_what_it_sees() {
    let doc = desk();
    let mut router = Router::new(ME, None);
    let told = router.apply_announcement(Some(MAC), None);
    assert_eq!(
        shown(&told),
        shown(&[RouterAction::NoteOwner(MAC), RouterAction::Suppress(true)])
    );
    let key = InputEvent::Key {
        vk: 0x41,
        scan: 0x1e,
        down: true,
        extended: false,
    };
    assert!(router
        .handle(key, Source::Local, Some(&doc), &both(), None)
        .is_empty());
    // What arrives from a third machine goes to the owner by itself.
    assert!(router
        .handle(key, Source::Remote, Some(&doc), &both(), None)
        .is_empty());
    match router.flush() {
        Some(RouterAction::SendInput { to, events }) => {
            assert_eq!(to, MAC);
            assert_eq!(events, [key]);
        }
        other => panic!("expected input for the owner, got {other:?}"),
    }
    assert!(router.flush().is_none());
}

#[test]
fn being_handed_the_pointer_restores_the_keyboard() {
    let doc = desk();
    let mut router = Router::new(ME, None);
    router.apply_announcement(Some(MAC), None);
    let actions = router.handle(
        InputEvent::CursorEnter { x: 10, y: 20 },
        Source::Remote,
        Some(&doc),
        &both(),
        None,
    );
    assert_eq!(
        shown(&actions),
        shown(&[
            RouterAction::Suppress(false),
            RouterAction::NoteOwner(ME),
            RouterAction::PlaceCursor { x: 10, y: 20 },
            RouterAction::ReadPointer,
        ])
    );
    router.on_pointer(Some(Point::new(10, 20)));
    assert_eq!((router.owner, router.cursor), (ME, Point::new(10, 20)));
}

#[test]
fn an_owner_that_vanished_loses_the_pointer() {
    let mut router = Router::new(ME, None);
    router.apply_announcement(Some(MAC), None);
    assert!(router.on_heartbeat(&both(), None).is_empty());
    let alone = HashSet::from([ME]);
    let actions = router.on_heartbeat(&alone, Some(Point::new(7, 7)));
    assert_eq!(
        shown(&actions),
        shown(&[
            RouterAction::Suppress(false),
            RouterAction::NoteOwner(ME),
            RouterAction::AnnounceOwner(ME),
        ])
    );
    assert_eq!((router.owner, router.cursor), (ME, Point::new(7, 7)));
}

#[test]
fn an_announcement_that_is_no_news_changes_nothing() {
    let mut router = Router::new(ME, None);
    assert!(router.apply_announcement(None, None).is_empty());
    assert!(router.apply_announcement(Some(ME), None).is_empty());
    router.apply_announcement(Some(MAC), None);
    let back = router.apply_announcement(Some(ME), Some(Point::new(1, 2)));
    assert_eq!(
        shown(&back),
        shown(&[RouterAction::NoteOwner(ME), RouterAction::Suppress(false)])
    );
    assert_eq!(router.cursor, Point::new(1, 2));
}

#[test]
fn without_a_workspace_nothing_moves() {
    let mut router = Router::new(ME, Some(Point::new(5, 5)));
    let actions = router.handle(
        InputEvent::MouseMove { dx: 50, dy: 0 },
        Source::Local,
        None,
        &both(),
        None,
    );
    assert!(actions.is_empty());
    assert_eq!(router.cursor, Point::new(5, 5));
}

#[test]
fn the_pointer_is_read_in_workspace_coordinates() {
    let doc = desk();
    assert_eq!(
        pointer_now(Some(&doc), MAC, Some((10, 20))),
        Some(Point::new(-1910, 20))
    );
    assert_eq!(pointer_now(Some(&doc), 77, Some((10, 20))), None);
    assert_eq!(pointer_now(Some(&doc), MAC, None), None);
    assert_eq!(pointer_now(None, MAC, Some((1, 2))), None);
}

#[test]
fn a_quiet_owner_gives_the_keyboard_back() {
    let mut suppression = Suppression::start(10_000);
    assert!(!suppression.is_suppressing());
    suppression.set_suppressing(true, 10_000);
    assert!(suppression.suppressing_now(12_000));
    suppression.heartbeat(12_000);
    assert!(suppression.suppressing_now(14_000));
    assert!(!suppression.suppressing_now(14_001));
    // Released for good, not just this once.
    assert!(!suppression.suppressing_now(12_000));
    suppression.set_suppressing(true, 20_000);
    assert!(suppression.release());
    assert!(!suppression.release());
    // A clock that jumped back does not release.
    suppression.set_suppressing(true, 30_000);
    assert!(suppression.suppressing_now(1));
}
