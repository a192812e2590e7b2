//! What each platform makes of an event, and what it reports.

use std::collections::BTreeMap;

use inputshare::autostart::{self, entry, entry_path, is_enabled, EntryChange, ENTRY_NAME};
use inputshare::macos::{
    desktop_bounds, event_mask, follow_suppression, is_switched_off, reattaches, tap_callback,
    Desktop, Injector, MacInput, TapEvent,
};
use inputshare::unsupported::{self, InputError};
use inputshare::watchdog::Suppression;
use inputshare::windows::{
    self, keyboard_hook, mouse_hook, raw_input, raw_size_is_sane, KeyReport, NativeInput,
    RawReport,
};
use inputshare::{DisplayInfo, InputEvent, MouseButton, Platform, Scale};

fn button(button: MouseButton, down: bool) -> InputEvent {
    InputEvent::MouseButton { button, down }
}

fn key(vk: u16, scan: u16, down: bool, extended: bool) -> InputEvent {
    InputEvent::Key {
        vk,
        scan,
        down,
        extended,
    }
}

#[test]
fn windows_injects_each_event_as_itself() {
    let mouse = |flags, data| NativeInput::Mouse {
        dx: 0,
        dy: 0,
        data,
        flags,
    };
    assert_eq!(
        windows::inject(InputEvent::MouseMove { dx: 3, dy: -4 }),
        NativeInput::Mouse {
            dx: 3,
            dy: -4,
            data: 0,
            flags: 1
        }
    );
    assert_eq!(
        windows::inject(InputEvent::CursorEnter { x: 5, y: 6 }),
        NativeInput::Place { x: 5, y: 6 }
    );
    assert_eq!(
        windows::inject(button(MouseButton::Left, true)),
        mouse(0x0002, 0)
    );
    assert_eq!(
        windows::inject(button(MouseButton::Middle, false)),
        mouse(0x0040, 0)
    );
    assert_eq!(
        windows::inject(button(MouseButton::X2, false)),
        mouse(0x0100, 2)
    );
    assert_eq!(
        windows::inject(InputEvent::Wheel {
            delta: -120,
            horizontal: false
        }),
        mouse(0x0800, (-120i32) as u32)
    );
    assert_eq!(
        windows::inject(InputEvent::Wheel {
            delta: 120,
            horizontal: true
        }),
        mouse(0x1000, 120)
    );
    assert_eq!(
        windows::inject(key(0x24, 0x47, false, true)),
        NativeInput::Key {
            vk: 0x24,
            scan: 0x47,
            flags: 0x0008 | 0x0002 | 0x0001
        }
    );
}

#[test]
fn the_mouse_hook_reports_buttons_and_wheels() {
    let mut s = Suppression::start(0);
    let left = mouse_hook(&mut s, 0x0201, 0, 0, 0);
    assert_eq!(left.report, Some(button(MouseButton::Left, true)));
    assert!(!left.swallow);
    let x1 = mouse_hook(&mut s, 0x020c, 1 << 16, 0, 0);
    assert_eq!(x1.report, Some(button(MouseButton::X1, false)));
    let x2 = mouse_hook(&mut s, 0x020b, 2 << 16, 0, 0);
    assert_eq!(x2.report, Some(button(MouseButton::X2, true)));
    let wheel = mouse_hook(&mut s, 0x020a, 0xff88_0000, 0, 0);
    assert_eq!(
        wheel.report,
        Some(InputEvent::Wheel {
            delta: -120,
            horizontal: false
        })
    );
    // Motion is swallowed while suppressing, and never reported from here.
    s.set_suppressing(true, 0);
    let moved = mouse_hook(&mut s, 0x0200, 0, 0, 0);
    assert!(moved.report.is_none() && moved.swallow);
    // Our own replay passes through untouched.
    let ours = mouse_hook(&mut s, 0x0201, 0, windows::INJECTED_MARKER, 0);
    assert!(ours.report.is_none() && !ours.swallow);
}

fn report(vk: u32, held: bool) -> KeyReport {
    KeyReport {
        message: 0x0100,
        vk_code: vk,
        scan_code: 0x1e,
        flags: 1,
        extra: 0,
        control_held: held,
        alt_held: held,
    }
}

#[test]
fn the_keyboard_hook_has_an_escape_hatch() {
    let mut s = Suppression::start(0);
    s.set_suppressing(true, 0);
    let typed = keyboard_hook(&mut s, report(0x41, false), 0);
    assert_eq!(typed.report, Some(key(0x41, 0x1e, true, true)));
    assert!(typed.swallow);
    let released = keyboard_hook(&mut s, report(0x7b, true), 0);
    assert!(released.report.is_none() && !released.swallow);
    assert!(!s.is_suppressing());
    let up = keyboard_hook(
        &mut s,
        KeyReport {
            message: 0x0105,
            ..report(0x41, false)
        },
        0,
    );
    assert_eq!(up.report, Some(key(0x41, 0x1e, false, true)));
    let other = keyboard_hook(
        &mut s,
        KeyReport {
            message: 0x0102,
            ..report(0x41, false)
        },
        0,
    );
    assert!(other.report.is_none() && !other.swallow);
    let ours = keyboard_hook(
        &mut s,
        KeyReport {
            extra: windows::INJECTED_MARKER,
            ..report(0x41, false)
        },
        0,
    );
    assert!(ours.report.is_none());
}

#[test]
fn raw_motion_is_reported_unless_it_is_ours_or_absolute() {
    let moved = RawReport {
        device_type: 0,
        extra: 0,
        flags: 0,
        last_x: 4,
        last_y: -2,
    };
    assert_eq!(raw_input(moved), Some(InputEvent::MouseMove { dx: 4, dy: -2 }));
    let cases = [
        RawReport {
            device_type: 1,
            ..moved
        },
        RawReport {
            extra: windows::INJECTED_MARKER,
            ..moved
        },
        RawReport { flags: 3, ..moved },
        RawReport {
            last_x: 0,
            last_y: 0,
            ..moved
        },
    ];
    for case in cases {
        assert_eq!(raw_input(case), None);
    }
    assert!(raw_size_is_sane(192, 48) && !raw_size_is_sane(193, 48) && !raw_size_is_sane(0, 48));
    assert!(raw_size_is_sane(u32::MAX, usize::MAX));
}

const DESKTOP: Desktop = Desktop {
    min_x: -100,
    min_y: 0,
    max_x: 1920,
    max_y: 1080,
};

#[test]
fn a_mac_moves_the_pointer_and_stays_on_the_desktop() {
    let mut injector = Injector::new();
    injector.remember(10, 10);
    match injector.inject(InputEvent::MouseMove { dx: -500, dy: 5 }, None, Some(DESKTOP)) {
        MacInput::Move(event) => {
            assert_eq!((event.x, event.y), (-100, 15));
            assert_eq!((event.delta_x, event.delta_y), (-110, 5));
            assert_eq!((event.kind, event.button), (5, 0));
            injector.remember(event.x, event.y);
        }
        other => panic!("expected motion, got {other:?}"),
    }
    assert_eq!(injector.last, Some((-100, 15)));
    // With nothing remembered, the real pointer counts.
    injector.forget();
    match injector.inject(InputEvent::MouseMove { dx: 1, dy: 1 }, Some((50, 60)), None) {
        MacInput::Move(event) => assert_eq!((event.x, event.y), (51, 61)),
        other => panic!("expected motion, got {other:?}"),
    }
}

#[test]
fn a_mac_drags_while_a_button_is_held() {
    let mut injector = Injector::new();
    let pressed = injector.inject(button(MouseButton::Right, true), Some((1, 2)), None);
    assert!(matches!(pressed, MacInput::Button(e) if e.kind == 3 && e.button == 1 && e.x == 1));
    let dragged = injector.inject(InputEvent::MouseMove { dx: 1, dy: 0 }, Some((1, 2)), None);
    assert!(matches!(dragged, MacInput::Move(e) if e.kind == 7 && e.button == 1));
    injector.inject(button(MouseButton::Right, false), None, None);
    injector.inject(button(MouseButton::X1, true), None, None);
    let other = injector.inject(InputEvent::MouseMove { dx: 1, dy: 0 }, None, None);
    assert!(matches!(other, MacInput::Move(e) if e.kind == 27 && e.button == 2));
}

#[test]
fn every_scroll_on_a_mac_moves_something() {
    let mut injector = Injector::new();
    let mut scroll = |delta, horizontal| {
        injector.inject(InputEvent::Wheel { delta, horizontal }, None, None)
    };
    assert!(matches!(
        scroll(240, false),
        MacInput::Scroll(e) if e.wheel_count == 1 && e.wheel1 == 2 && e.axis2.is_none()
    ));
    assert!(matches!(scroll(-7, false), MacInput::Scroll(e) if e.wheel1 == -1));
    assert!(matches!(
        scroll(-360, true),
        MacInput::Scroll(e) if e.wheel_count == 2 && e.wheel1 == 0 && e.axis2 == Some(-3)
    ));
    assert!(matches!(scroll(0, false), MacInput::Nothing));
}

#[test]
fn a_mac_carries_the_modifiers_of_the_remote_keyboard() {
    let mut injector = Injector::new();
    let shift = injector.inject(key(0xa0, 0x2a, true, false), None, None);
    assert!(matches!(
        shift,
        MacInput::Key {
            keycode: 56,
            down: true
        }
    ));
    assert_eq!(injector.modifiers.flags(), 0x0002_0000);
    injector.inject(key(0x5b, 0x5b, true, true), None, None);
    assert_eq!(injector.modifiers.flags(), 0x0012_0000);
    injector.inject(key(0xa1, 0x36, false, false), None, None);
    assert_eq!(injector.modifiers.flags(), 0x0010_0000);
    // A key this Mac does not have is dropped.
    let unknown = injector.inject(key(0xff, 0x7f, true, false), None, None);
    assert!(matches!(unknown, MacInput::Nothing));
    let place = injector.inject(InputEvent::CursorEnter { x: 8, y: 9 }, None, None);
    assert!(matches!(place, MacInput::Place { x: 8, y: 9 }));
}

fn tapped(kind: u32) -> TapEvent {
    TapEvent {
        kind,
        user_data: 0,
        flags: 0,
        delta_x: 0,
        delta_y: 0,
        button_number: 0,
        scroll_axis1: 0,
        scroll_axis2: 0,
        keycode: 0,
    }
}

#[test]
fn the_tap_reports_what_the_devices_did() {
    let mut s = Suppression::start(0);
    let moved = TapEvent {
        delta_x: 3,
        delta_y: -1,
        ..tapped(6)
    };
    assert_eq!(
        tap_callback(&mut s, moved, 0).report,
        Some(InputEvent::MouseMove { dx: 3, dy: -1 })
    );
    assert_eq!(tap_callback(&mut s, tapped(5), 0).report, None);
    let other = TapEvent {
        button_number: 3,
        ..tapped(25)
    };
    assert_eq!(
        tap_callback(&mut s, other, 0).report,
        Some(button(MouseButton::X1, true))
    );
    let scrolled = TapEvent {
        scroll_axis2: -2,
        ..tapped(22)
    };
    assert_eq!(
        tap_callback(&mut s, scrolled, 0).report,
        Some(InputEvent::Wheel {
            delta: -240,
            horizontal: true
        })
    );
    let shift = TapEvent {
        keycode: 56,
        flags: 0x0002_0000,
        ..tapped(12)
    };
    assert_eq!(
        tap_callback(&mut s, shift, 0).report,
        Some(key(0xa0, 0x2a, true, false))
    );
}

#[test]
fn the_tap_has_an_escape_hatch_and_ignores_its_own_replay() {
    let mut s = Suppression::start(0);
    s.set_suppressing(true, 0);
    let swallowed = tap_callback(&mut s, tapped(1), 0);
    assert!(swallowed.swallow && !swallowed.reenable);
    let ours = TapEvent {
        user_data: 0x14e5055,
        ..tapped(1)
    };
    let passed = tap_callback(&mut s, ours, 0);
    assert!(!passed.swallow && passed.report.is_none());
    let escape = TapEvent {
        keycode: 111,
        flags: 0x000c_0000,
        ..tapped(10)
    };
    let released = tap_callback(&mut s, escape, 0);
    assert!(!released.swallow && released.report.is_none() && !s.is_suppressing());
    let disabled = tap_callback(&mut s, tapped(0xffff_fffe), 0);
    assert!(disabled.reenable && !disabled.swallow);
    assert!(reattaches(false) && !reattaches(true));
}

#[test]
fn the_tap_asks_for_every_kind_it_handles() {
    let expected = [1, 2, 3, 4, 5, 6, 7, 10, 11, 12, 22, 25, 26, 27]
        .iter()
        .fold(0u64, |mask, kind| mask | (1 << kind));
    assert_eq!(event_mask(), expected);
}

#[test]
fn the_desktop_covers_every_display() {
    let display = |x, y, width, height| DisplayInfo {
        id: "d".into(),
        name: "d".into(),
        x,
        y,
        width,
        height,
        scale: Scale::one(),
        primary: false,
    };
    assert!(desktop_bounds(&vec![]).is_none());
    let bounds = desktop_bounds(&vec![display(0, 0, 1920, 1080), display(-800, 100, 800, 1200)])
        .expect("displays");
    assert_eq!(
        (bounds.min_x, bounds.min_y, bounds.max_x, bounds.max_y),
        (-800, 0, 1920, 1300)
    );
}

#[test]
fn an_unsupported_platform_says_so() {
    assert!(matches!(
        unsupported::enumerate_displays(),
        Err(InputError::Unsupported("display enumeration"))
    ));
    assert!(matches!(
        unsupported::inject(InputEvent::MouseMove { dx: 0, dy: 0 }),
        Err(InputError::Unsupported("input injection"))
    ));
    assert!(matches!(
        unsupported::cursor_position(),
        Err(InputError::Unsupported("reading the cursor position"))
    ));
    assert!(matches!(
        unsupported::set_cursor_position(1, 2),
        Err(InputError::Unsupported("moving the cursor"))
    ));
    assert!(matches!(
        unsupported::Capture::start(),
        Err(InputError::Unsupported("input capture"))
    ));
}

#[test]
fn login_entries_run_the_executable() {
    assert_eq!(entry(Platform::Windows, "C:\\a b.exe"), "\"C:\\a b.exe\"");
    assert_eq!(
        entry(Platform::Linux, "/opt/inputshare"),
        "[Desktop Entry]\nType=Application\nName=InputShare\nExec=/opt/inputshare\nX-GNOME-Autostart-enabled=true\n"
    );
    let plist = entry(Platform::MacOs, "/Applications/InputShare");
    assert!(plist.starts_with("<?xml version=\"1.0\" encoding=\"UTF-8\"?>\n<!DOCTYPE plist"));
    assert!(plist.contains("        <string>/Applications/InputShare</string>\n    </array>\n"));
    assert!(plist.ends_with("<key>KeepAlive</key>\n    <true/>\n</dict>\n</plist>\n"));
    assert!(matches!(
        autostart::set(true, Platform::Windows, "x"),
        EntryChange::Write(content) if content == "\"x\""
    ));
    assert!(matches!(
        autostart::set(false, Platform::Windows, "x"),
        EntryChange::Remove
    ));
    assert_eq!(ENTRY_NAME, "InputShare");
}

#[test]
fn login_entries_go_where_the_platform_looks() {
    let path = |p, c, h| entry_path(p, c, h);
    assert_eq!(
        path(Platform::Linux, Some("/x"), Some("/h")).as_deref(),
        Some("/x/autostart/inputshare.desktop")
    );
    assert_eq!(
        path(Platform::Linux, None, Some("/h/")).as_deref(),
        Some("/h/.config/autostart/inputshare.desktop")
    );
    assert_eq!(
        path(Platform::Linux, Some(""), None).as_deref(),
        Some("autostart/inputshare.desktop")
    );
    assert_eq!(
        path(Platform::MacOs, None, Some("/Users/a")).as_deref(),
        Some("/Users/a/Library/LaunchAgents/dev.inputshare.agent.plist")
    );
    assert_eq!(path(Platform::MacOs, Some("/x"), None), None);
    assert_eq!(path(Platform::Windows, Some("/x"), Some("/h")), None);
    assert!(is_enabled(true, true) && !is_enabled(true, false) && !is_enabled(false, true));
}

#[test]
fn a_tap_that_was_switched_off_says_so() {
    assert!(is_switched_off(0xffff_fffe));
    assert!(is_switched_off(0xffff_ffff));
    assert!(!is_switched_off(0));
    assert!(!is_switched_off(10));
}

#[test]
fn the_mouse_is_attached_whenever_nothing_is_suppressed() {
    assert_eq!(follow_suppression(false, false), None);
    assert_eq!(follow_suppression(false, true), Some(false));
    assert_eq!(follow_suppression(true, true), None);
    assert_eq!(follow_suppression(true, false), Some(true));
}

/// The login entries of a user, by their places.
fn settle(entries: &mut BTreeMap<String, String>, place: &str, change: EntryChange) {
    match change {
        EntryChange::Write(content) => {
            entries.insert(place.into(), content);
        }
        EntryChange::Remove => {
            entries.remove(place);
        }
    }
}

#[test]
fn toggling_the_login_entry_leaves_no_trail() {
    let mut entries = BTreeMap::from([("/x/other".to_string(), "kept".to_string())]);
    let before = entries.clone();
    let place = entry_path(Platform::Linux, Some("/x"), None).expect("a place");
    for executable in ["/old", "/new", "/new"] {
        let change = autostart::set(true, Platform::Linux, executable);
        settle(&mut entries, &place, change);
    }
    assert_eq!(entries.len(), 2);
    assert!(entries[&place].contains("Exec=/new\n"));
    assert!(is_enabled(true, entries.contains_key(&place)));
    for _ in 0..2 {
        let change = autostart::set(false, Platform::Linux, "/new");
        settle(&mut entries, &place, change);
        assert!(!is_enabled(true, entries.contains_key(&place)));
    }
    assert_eq!(entries, before);
}
