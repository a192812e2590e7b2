//! Windows: what a replayed event is as native input, and what the low-level hooks
//! and raw input reports mean.
//!
//! The calls themselves are made by the host of this library; what to call them
//! with and what to do with what they say is decided here.

use vstd::prelude::*;

use crate::input::{InputEvent, MouseButton};
use crate::watchdog::Suppression;

verus! {

/// Stamped on everything this process injects, so the capture hook can tell its
/// own replay apart from a real key press. Without it, injecting on a machine
/// that is also capturing would feed every event straight back into the loop.
pub const INJECTED_MARKER: u64 = 0x14e5055;

pub const MOUSEEVENTF_MOVE: u32 = 0x0001;

pub const MOUSEEVENTF_LEFTDOWN: u32 = 0x0002;

pub const MOUSEEVENTF_LEFTUP: u32 = 0x0004;

pub const MOUSEEVENTF_RIGHTDOWN: u32 = 0x0008;

pub const MOUSEEVENTF_RIGHTUP: u32 = 0x0010;

pub const MOUSEEVENTF_MIDDLEDOWN: u32 = 0x0020;

pub const MOUSEEVENTF_MIDDLEUP: u32 = 0x0040;

pub const MOUSEEVENTF_XDOWN: u32 = 0x0080;

pub const MOUSEEVENTF_XUP: u32 = 0x0100;

pub const MOUSEEVENTF_WHEEL: u32 = 0x0800;

pub const MOUSEEVENTF_HWHEEL: u32 = 0x1000;

pub const KEYEVENTF_EXTENDEDKEY: u32 = 0x0001;

pub const KEYEVENTF_KEYUP: u32 = 0x0002;

pub const KEYEVENTF_SCANCODE: u32 = 0x0008;

pub const WM_KEYDOWN: u32 = 0x0100;

pub const WM_KEYUP: u32 = 0x0101;

pub const WM_SYSKEYDOWN: u32 = 0x0104;

pub const WM_SYSKEYUP: u32 = 0x0105;

pub const WM_MOUSEMOVE: u32 = 0x0200;

pub const WM_LBUTTONDOWN: u32 = 0x0201;

pub const WM_LBUTTONUP: u32 = 0x0202;

pub const WM_RBUTTONDOWN: u32 = 0x0204;

pub const WM_RBUTTONUP: u32 = 0x0205;

pub const WM_MBUTTONDOWN: u32 = 0x0207;

pub const WM_MBUTTONUP: u32 = 0x0208;

pub const WM_MOUSEWHEEL: u32 = 0x020a;

pub const WM_XBUTTONDOWN: u32 = 0x020b;

pub const WM_XBUTTONUP: u32 = 0x020c;

pub const WM_MOUSEHWHEEL: u32 = 0x020e;

pub const XBUTTON1: u32 = 1;

pub const VK_F12: u16 = 0x7b;

/// The raw report carried absolute coordinates rather than a movement.
pub const MOUSE_MOVE_ABSOLUTE: u16 = 0x01;

pub const RIM_TYPEMOUSE: u32 = 0;

/// What replaying an event comes to.
#[derive(Clone, Copy, Debug, PartialEq, Eq, Structural)]
pub enum NativeInput {
    /// A direct move of the cursor, which is not an injected event.
    Place { x: i32, y: i32 },
    Mouse { dx: i32, dy: i32, data: u32, flags: u32 },
    Key { vk: u16, scan: u16, flags: u32 },
}

/// A signed number as the unsigned one with the same bits.
pub open spec fn as_unsigned(v: i32) -> int {
    if v >= 0 {
        v as int
    } else {
        v + 0x1_0000_0000
    }
}

/// The flags and the data that a button is pressed or released with.
pub open spec fn button_input(button: MouseButton, down: bool) -> (u32, u32) {
    match (button, down) {
        (MouseButton::Left, true) => (MOUSEEVENTF_LEFTDOWN, 0),
        (MouseButton::Left, false) => (MOUSEEVENTF_LEFTUP, 0),
        (MouseButton::Right, true) => (MOUSEEVENTF_RIGHTDOWN, 0),
        (MouseButton::Right, false) => (MOUSEEVENTF_RIGHTUP, 0),
        (MouseButton::Middle, true) => (MOUSEEVENTF_MIDDLEDOWN, 0),
        (MouseButton::Middle, false) => (MOUSEEVENTF_MIDDLEUP, 0),
        (MouseButton::X1, true) => (MOUSEEVENTF_XDOWN, 1),
        (MouseButton::X1, false) => (MOUSEEVENTF_XUP, 1),
        (MouseButton::X2, true) => (MOUSEEVENTF_XDOWN, 2),
        (MouseButton::X2, false) => (MOUSEEVENTF_XUP, 2),
    }
}

/// The native input that replays an event.
pub open spec fn native(event: InputEvent) -> NativeInput {
    match event {
        InputEvent::CursorEnter { x, y } => NativeInput::Place { x, y },
        InputEvent::MouseMove { dx, dy } => NativeInput::Mouse {
            dx,
            dy,
            data: 0,
            flags: MOUSEEVENTF_MOVE,
        },
        InputEvent::MouseButton { button, down } => NativeInput::Mouse {
            dx: 0,
            dy: 0,
            data: button_input(button, down).1,
            flags: button_input(button, down).0,
        },
        InputEvent::Wheel { delta, horizontal } => NativeInput::Mouse {
            dx: 0,
            dy: 0,
            data: as_unsigned(delta) as u32,
            flags: if horizontal {
                MOUSEEVENTF_HWHEEL
            } else {
                MOUSEEVENTF_WHEEL
            },
        },
        InputEvent::Key { vk, scan, down, extended } => NativeInput::Key {
            vk,
            scan,
            flags: (KEYEVENTF_SCANCODE + (if down {
                0
            } else {
                KEYEVENTF_KEYUP as int
            }) + (if extended {
                KEYEVENTF_EXTENDEDKEY as int
            } else {
                0
            })) as u32,
        },
    }
}

/// What to send for one event.
pub fn inject(event: InputEvent) -> (r: NativeInput)
    ensures
        r == native(event),
{
    match event {
        // Placing the cursor is not an injected event; it is a direct move, and
        // it has to happen before the motion that follows it.
        InputEvent::CursorEnter { x, y } => NativeInput::Place { x, y },
        InputEvent::MouseMove { dx, dy } => NativeInput::Mouse {
            dx,
            dy,
            data: 0,
            flags: MOUSEEVENTF_MOVE,
        },
        InputEvent::MouseButton { button, down } => {
            let (flags, data): (u32, u32) = match (button, down) {
                (MouseButton::Left, true) => (MOUSEEVENTF_LEFTDOWN, 0),
                (MouseButton::Left, false) => (MOUSEEVENTF_LEFTUP, 0),
                (MouseButton::Right, true) => (MOUSEEVENTF_RIGHTDOWN, 0),
                (MouseButton::Right, false) => (MOUSEEVENTF_RIGHTUP, 0),
                (MouseButton::Middle, true) => (MOUSEEVENTF_MIDDLEDOWN, 0),
                (MouseButton::Middle, false) => (MOUSEEVENTF_MIDDLEUP, 0),
                (MouseButton::X1, true) => (MOUSEEVENTF_XDOWN, 1),
                (MouseButton::X1, false) => (MOUSEEVENTF_XUP, 1),
                (MouseButton::X2, true) => (MOUSEEVENTF_XDOWN, 2),
                (MouseButton::X2, false) => (MOUSEEVENTF_XUP, 2),
            };
            NativeInput::Mouse { dx: 0, dy: 0, data, flags }
        },
        InputEvent::Wheel { delta, horizontal } => {
            let data: u32 = if delta >= 0 {
                delta as u32
            } else {
                (delta as i64 + 0x1_0000_0000) as u32
            };
            NativeInput::Mouse {
                dx: 0,
                dy: 0,
                data,
                flags: if horizontal {
                    MOUSEEVENTF_HWHEEL
                } else {
                    MOUSEEVENTF_WHEEL
                },
            }
        },
        InputEvent::Key { vk, scan, down, extended } => {
            // Scan codes rather than virtual keys: the two machines may have
            // different keyboard layouts, and the user pressed a physical key.
            let mut flags: u32 = KEYEVENTF_SCANCODE;
            if !down {
                flags = flags + KEYEVENTF_KEYUP;
            }
            if extended {
                flags = flags + KEYEVENTF_EXTENDEDKEY;
            }
            NativeInput::Key { vk, scan, flags }
        },
    }
}

/// What a hook does with an event.
#[derive(Clone, Copy, Debug, PartialEq, Eq, Structural)]
pub struct HookDecision {
    /// What is reported to the sharing loop.
    pub report: Option<InputEvent>,
    /// Whether this machine never sees the event.
    pub swallow: bool,
}

/// A sixteen-bit number read as a signed one.
pub open spec fn as_signed_16(v: int) -> int {
    if v < 0x8000 {
        v
    } else {
        v - 0x1_0000
    }
}

/// What a mouse message means. Movement does not come from the hook.
pub open spec fn mouse_event(message: u32, data: u32) -> Option<InputEvent> {
    let high = data as int / 0x1_0000;
    if message == WM_LBUTTONDOWN || message == WM_LBUTTONUP {
        Some(
            InputEvent::MouseButton {
                button: MouseButton::Left,
                down: message == WM_LBUTTONDOWN,
            },
        )
    } else if message == WM_RBUTTONDOWN || message == WM_RBUTTONUP {
        Some(
            InputEvent::MouseButton {
                button: MouseButton::Right,
                down: message == WM_RBUTTONDOWN,
            },
        )
    } else if message == WM_MBUTTONDOWN || message == WM_MBUTTONUP {
        Some(
            InputEvent::MouseButton {
                button: MouseButton::Middle,
                down: message == WM_MBUTTONDOWN,
            },
        )
    } else if message == WM_XBUTTONDOWN || message == WM_XBUTTONUP {
        Some(
            InputEvent::MouseButton {
                button: if high == XBUTTON1 {
                    MouseButton::X1
                } else {
                    MouseButton::X2
                },
                down: message == WM_XBUTTONDOWN,
            },
        )
    } else if message == WM_MOUSEWHEEL || message == WM_MOUSEHWHEEL {
        Some(
            InputEvent::Wheel {
                delta: as_signed_16(high) as i32,
                horizontal: message == WM_MOUSEHWHEEL,
            },
        )
    } else {
        None
    }
}

/// How suppression before and after, a mouse message and what the hook does with it
/// relate.
pub open spec fn mouse_hooked(
    before: Suppression,
    message: u32,
    data: u32,
    extra: u64,
    now: u64,
    after: Suppression,
    r: HookDecision,
) -> bool {
    if extra == INJECTED_MARKER {
        &&& r == (HookDecision { report: None, swallow: false })
        &&& after == before
    } else {
        &&& r == (HookDecision {
            report: mouse_event(message, data),
            swallow: before.swallows(now),
        })
        &&& after == before.after_event(now)
    }
}

/// What the mouse hook does with a message. `extra` is the stamp that the event
/// carries.
///
/// Movement deliberately does not come from here. The hook reports where the
/// pointer *is*, and Windows stops the pointer at the edge of the screen.
/// Measuring motion from it means that the moment somebody pushes towards another
/// computer, the numbers go to zero, the exact instant the reading is needed. Raw
/// input reports what the device did instead, and is unaffected by the pointer
/// being pinned. The hook still handles the message, because swallowing it is how
/// local input is suppressed while the pointer is on another machine.
pub fn mouse_hook(
    suppression: &mut Suppression,
    message: u32,
    data: u32,
    extra: u64,
    now: u64,
) -> (r: HookDecision)
    ensures
        mouse_hooked(*old(suppression), message, data, extra, now, *final(suppression), r),
{
    if extra == INJECTED_MARKER {
        // Our own replay. Never capture it, or the two machines feed each other.
        return HookDecision { report: None, swallow: false };
    }
    let high: u32 = data / 0x1_0000;
    let report = if message == WM_LBUTTONDOWN || message == WM_LBUTTONUP {
        Some(button(MouseButton::Left, message == WM_LBUTTONDOWN))
    } else if message == WM_RBUTTONDOWN || message == WM_RBUTTONUP {
        Some(button(MouseButton::Right, message == WM_RBUTTONDOWN))
    } else if message == WM_MBUTTONDOWN || message == WM_MBUTTONUP {
        Some(button(MouseButton::Middle, message == WM_MBUTTONDOWN))
    } else if message == WM_XBUTTONDOWN || message == WM_XBUTTONUP {
        let which = if high == XBUTTON1 {
            MouseButton::X1
        } else {
            MouseButton::X2
        };
        Some(button(which, message == WM_XBUTTONDOWN))
    } else if message == WM_MOUSEWHEEL || message == WM_MOUSEHWHEEL {
        let delta: i32 = if high < 0x8000 {
            high as i32
        } else {
            high as i32 - 0x1_0000
        };
        Some(InputEvent::Wheel { delta, horizontal: message == WM_MOUSEHWHEEL })
    } else {
        None
    };
    let swallow = suppression.suppressing_now(now);
    HookDecision { report, swallow }
}

fn button(which: MouseButton, down: bool) -> (r: InputEvent)
    ensures
        r == (InputEvent::MouseButton { button: which, down }),
{
    InputEvent::MouseButton { button: which, down }
}

/// Whether a message is about a key.
pub open spec fn is_key_message(message: u32) -> bool {
    message == WM_KEYDOWN || message == WM_KEYUP || message == WM_SYSKEYDOWN || message
        == WM_SYSKEYUP
}

/// Whether a key message is a press.
pub open spec fn is_press(message: u32) -> bool {
    message == WM_KEYDOWN || message == WM_SYSKEYDOWN
}

/// A key as the keyboard hook is told of it.
#[derive(Clone, Copy, Debug, PartialEq, Eq, Structural)]
pub struct KeyReport {
    pub message: u32,
    pub vk_code: u32,
    pub scan_code: u32,
    pub flags: u32,
    /// The stamp that the event carries.
    pub extra: u64,
    /// Whether Control and Alt are held.
    pub control_held: bool,
    pub alt_held: bool,
}

/// Whether a key is the way out: Ctrl+Alt+F12.
pub open spec fn is_emergency(key: KeyReport) -> bool {
    is_press(key.message) && key.vk_code as u16 == VK_F12 && key.control_held && key.alt_held
}

/// How suppression before and after, a key and what the hook does with it relate.
pub open spec fn key_hooked(
    before: Suppression,
    key: KeyReport,
    now: u64,
    after: Suppression,
    r: HookDecision,
) -> bool {
    if key.extra == INJECTED_MARKER || !is_key_message(key.message) {
        &&& r == (HookDecision { report: None, swallow: false })
        &&& after == before
    } else if is_emergency(key) {
        &&& r == (HookDecision { report: None, swallow: false })
        &&& after == (Suppression { on: false, ..before })
    } else {
        &&& r == (HookDecision {
            report: Some(
                InputEvent::Key {
                    vk: key.vk_code as u16,
                    scan: key.scan_code as u16,
                    down: is_press(key.message),
                    extended: key.flags % 2 == 1,
                },
            ),
            swallow: before.swallows(now),
        })
        &&& after == before.after_event(now)
    }
}

/// What the keyboard hook does with a key.
pub fn keyboard_hook(suppression: &mut Suppression, key: KeyReport, now: u64) -> (r: HookDecision)
    ensures
        key_hooked(*old(suppression), key, now, *final(suppression), r),
{
    if key.extra == INJECTED_MARKER {
        return HookDecision { report: None, swallow: false };
    }
    let down = key.message == WM_KEYDOWN || key.message == WM_SYSKEYDOWN;
    if !down && key.message != WM_KEYUP && key.message != WM_SYSKEYUP {
        return HookDecision { report: None, swallow: false };
    }
    let vk: u16 = key.vk_code as u16;
    // The escape hatch. Checked inside the hook itself, so it works even when
    // everything above this function has stopped responding: Ctrl+Alt+F12 hands
    // the keyboard and mouse straight back.
    if down && vk == VK_F12 && key.control_held && key.alt_held {
        let _ = suppression.release();
        return HookDecision { report: None, swallow: false };
    }
    let report = Some(
        InputEvent::Key {
            vk,
            scan: key.scan_code as u16,
            down,
            extended: key.flags % 2 == 1,
        },
    );
    let swallow = suppression.suppressing_now(now);
    HookDecision { report, swallow }
}

/// A raw report of a device.
#[derive(Clone, Copy, Debug, PartialEq, Eq, Structural)]
pub struct RawReport {
    pub device_type: u32,
    /// The stamp that the report carries.
    pub extra: u64,
    pub flags: u16,
    pub last_x: i32,
    pub last_y: i32,
}

/// The motion that a raw report stands for: a relative movement of a mouse that is
/// not our own replay.
pub open spec fn raw_motion(raw: RawReport) -> Option<InputEvent> {
    if raw.device_type == RIM_TYPEMOUSE && raw.extra != INJECTED_MARKER && raw.flags % 2 == 0 && (
    raw.last_x != 0 || raw.last_y != 0) {
        Some(InputEvent::MouseMove { dx: raw.last_x, dy: raw.last_y })
    } else {
        None
    }
}

/// What a raw report is reported as.
pub fn raw_input(raw: RawReport) -> (r: Option<InputEvent>)
    ensures
        r == raw_motion(raw),
{
    // Our own replay comes back here too; the marker is what tells it apart. The
    // lowest flag marks absolute coordinates.
    if raw.device_type == RIM_TYPEMOUSE && raw.extra != INJECTED_MARKER && raw.flags % 2 == 0 && (
    raw.last_x != 0 || raw.last_y != 0) {
        Some(InputEvent::MouseMove { dx: raw.last_x, dy: raw.last_y })
    } else {
        None
    }
}

/// Whether a raw report of `size` bytes is read at all, where one of a mouse has
/// `expected`.
pub fn raw_size_is_sane(size: u32, expected: usize) -> (r: bool)
    ensures
        r == (0 < size <= expected * 4),
{
    size != 0 && size as u128 <= expected as u128 * 4
}

/// Nothing that this process replays is ever captured or swallowed.
pub proof fn own_replay_is_never_captured(raw: RawReport)
    requires
        raw.extra == INJECTED_MARKER,
    ensures
        raw_motion(raw) is None,
{
}

/// A button that was captured and replayed is pressed or released as it was: no
/// two of them are replayed alike.
pub proof fn buttons_are_replayed_apart(a: MouseButton, a_down: bool, b: MouseButton, b_down: bool)
    requires
        button_input(a, a_down) == button_input(b, b_down),
    ensures
        a == b,
        a_down == b_down,
{
}

/// A replayed key is the key of the event, by its scan code: it is released exactly if
/// the event is a release, and extended exactly if the key is. The flags are the ones
/// that the system defines: 1 for extended, 2 for a release, 8 for a scan code.
pub proof fn a_replayed_key_does_what_the_event_says(
    vk: u16,
    scan: u16,
    down: bool,
    extended: bool,
)
    ensures
        native(InputEvent::Key { vk, scan, down, extended }) matches NativeInput::Key {
            vk: v,
            scan: s,
            flags,
        } && v == vk && s == scan && (flags & 2u32 != 0 <==> !down) && (flags & 1u32 != 0
            <==> extended) && flags & 8u32 != 0 && flags < 16 && flags & 4u32 == 0,
{
    assert(8u32 & 1 == 0 && 9u32 & 1 != 0 && 10u32 & 1 == 0 && 11u32 & 1 != 0) by (bit_vector);
    assert(8u32 & 2 == 0 && 9u32 & 2 == 0 && 10u32 & 2 != 0 && 11u32 & 2 != 0) by (bit_vector);
    assert(8u32 & 8 != 0 && 9u32 & 8 != 0 && 10u32 & 8 != 0 && 11u32 & 8 != 0) by (bit_vector);
    assert(8u32 & 4 == 0 && 9u32 & 4 == 0 && 10u32 & 4 == 0 && 11u32 & 4 == 0) by (bit_vector);
}

/// Motion is replayed as the motion it was, a handoff as a direct move to its point,
/// and neither presses nor scrolls anything.
pub proof fn motion_is_replayed_as_it_was(x: i32, y: i32)
    ensures
        native(InputEvent::MouseMove { dx: x, dy: y }) matches NativeInput::Mouse {
            dx,
            dy,
            data,
            flags,
        } && dx == x && dy == y && data == 0 && flags == 1,
        native(InputEvent::CursorEnter { x, y }) matches NativeInput::Place { x: px, y: py } && px
            == x && py == y,
{
}

/// Each button is pressed by its own flag and released by the next one, without moving
/// the pointer: 2, 8 and 32 press the left, the right and the middle one, 128 one of
/// the two on the side, which its number tells apart.
pub proof fn buttons_are_replayed_as_they_were(button: MouseButton, down: bool)
    ensures
        native(InputEvent::MouseButton { button, down }) matches NativeInput::Mouse {
            dx,
            dy,
            data,
            flags,
        } && dx == 0 && dy == 0 && flags == (if down {
            1int
        } else {
            2int
        }) * (match button {
            MouseButton::Left => 2int,
            MouseButton::Right => 8int,
            MouseButton::Middle => 32int,
            _ => 128int,
        }) && data == (match button {
            MouseButton::X1 => 1int,
            MouseButton::X2 => 2int,
            _ => 0int,
        }),
{
}

/// The wheel is turned by what the event says: the number that is sent is the same one
/// in thirty-two bits, whichever way it goes, and tilting is told apart from turning.
pub proof fn the_wheel_is_replayed_as_it_was(delta: i32, horizontal: bool)
    ensures
        native(InputEvent::Wheel { delta, horizontal }) matches NativeInput::Mouse {
            dx,
            dy,
            data,
            flags,
        } && dx == 0 && dy == 0 && (data - delta == 0 || data - delta == 0x1_0000_0000) && flags
            == (if horizontal {
            0x1000int
        } else {
            0x800int
        }),
{
}

/// Whether a report says that a button went down or up.
pub open spec fn tells_of(
    report: Option<InputEvent>,
    button: MouseButton,
    down: bool,
) -> bool {
    report matches Some(InputEvent::MouseButton { button: b, down: d }) && b == button && d == down
}

/// Each message of a button is reported as that button: the message after a press is
/// its release.
pub proof fn buttons_are_captured_as_they_were(data: u32)
    ensures
        tells_of(mouse_event(0x201, data), MouseButton::Left, true),
        tells_of(mouse_event(0x202, data), MouseButton::Left, false),
        tells_of(mouse_event(0x204, data), MouseButton::Right, true),
        tells_of(mouse_event(0x205, data), MouseButton::Right, false),
        tells_of(mouse_event(0x207, data), MouseButton::Middle, true),
        tells_of(mouse_event(0x208, data), MouseButton::Middle, false),
        0x1_0000 <= data < 0x2_0000 ==> tells_of(mouse_event(0x20b, data), MouseButton::X1, true)
            && tells_of(mouse_event(0x20c, data), MouseButton::X1, false),
        0x2_0000 <= data < 0x3_0000 ==> tells_of(mouse_event(0x20b, data), MouseButton::X2, true)
            && tells_of(mouse_event(0x20c, data), MouseButton::X2, false),
{
}

/// The wheel is reported as the signed number in the upper half of its message, turning
/// and tilting apart; movement and anything else is not reported by the hook.
pub proof fn the_wheel_is_captured_as_it_was(delta: i32, low: u32, data: u32, message: u32)
    requires
        -0x8000 <= delta < 0x8000,
        low < 0x1_0000,
        data == delta * 0x1_0000 + low || data == (delta + 0x1_0000) * 0x1_0000 + low,
    ensures
        mouse_event(0x20a, data) == Some(InputEvent::Wheel { delta, horizontal: false }),
        mouse_event(0x20e, data) == Some(InputEvent::Wheel { delta, horizontal: true }),
        !(0x201 <= message <= 0x20e) ==> mouse_event(message, data) is None,
        message == 0x200 ==> mouse_event(message, data) is None,
{
}

/// What the mouse does reaches the sharing loop, unless this process did it, and acts
/// on this machine exactly if it is not swallowed; what this process replays always
/// does.
pub proof fn the_mouse_is_captured_unless_replayed(
    before: Suppression,
    message: u32,
    data: u32,
    extra: u64,
    now: u64,
    after: Suppression,
    r: HookDecision,
)
    requires
        mouse_hooked(before, message, data, extra, now, after, r),
    ensures
        extra == 0x14e5055 ==> r.report is None && !r.swallow && after == before,
        extra != 0x14e5055 ==> r.report == mouse_event(message, data),
        r.swallow ==> before.on && after.on,
        extra != 0x14e5055 && before.on && now <= before.alive_ms + 2_000 ==> r.swallow
            && after == before,
        extra != 0x14e5055 && now > before.alive_ms + 2_000 ==> !r.swallow && !after.on,
        after.on ==> before.on,
        after.alive_ms == before.alive_ms,
{
}

/// A key that the user presses or lets go of is reported as that key, by its codes, and
/// replaying the report does the same to that key. What this process replays is left
/// alone.
pub proof fn keys_are_captured_as_they_were(
    before: Suppression,
    key: KeyReport,
    now: u64,
    after: Suppression,
    r: HookDecision,
)
    requires
        key_hooked(before, key, now, after, r),
        key.message == 0x100 || key.message == 0x101 || key.message == 0x104 || key.message
            == 0x105,
        key.vk_code <= 0xffff,
        key.scan_code <= 0xffff,
        !(key.vk_code == 0x7b && key.control_held && key.alt_held),
    ensures
        key.extra == 0x14e5055 ==> r.report is None && !r.swallow && after == before,
        key.extra != 0x14e5055 ==> {
            &&& r.report is Some
            &&& r.report->0 is Key
            &&& r.report->0->vk == key.vk_code
            &&& r.report->0->scan == key.scan_code
            &&& (r.report->0)->Key_down <==> key.message % 2 == 0
            &&& r.report->0->extended <==> key.flags % 2 == 1
            &&& native(r.report->0)->Key_vk == key.vk_code
            &&& native(r.report->0)->Key_scan == key.scan_code
            &&& native(r.report->0)->Key_flags & 2u32 != 0 <==> key.message % 2 == 1
            &&& native(r.report->0)->Key_flags & 1u32 != 0 <==> key.flags % 2 == 1
        },
        key.extra != 0x14e5055 && before.on && now <= before.alive_ms + 2_000 ==> r.swallow
            && after == before,
        key.extra != 0x14e5055 && now > before.alive_ms + 2_000 ==> !r.swallow && !after.on,
        r.swallow ==> before.on,
{
    if key.extra != INJECTED_MARKER {
        a_replayed_key_does_what_the_event_says(
            r.report->0->vk,
            r.report->0->scan,
            r.report->0->Key_down,
            r.report->0->extended,
        );
    }
}

/// Ctrl+Alt+F12 gives the keyboard and the mouse back, whatever state suppression is
/// in; it is neither reported nor swallowed. No other key does.
pub proof fn the_escape_hatch_always_works(
    before: Suppression,
    key: KeyReport,
    now: u64,
    after: Suppression,
    r: HookDecision,
)
    requires
        key_hooked(before, key, now, after, r),
        key.extra != 0x14e5055,
        key.vk_code <= 0xffff,
    ensures
        (key.message == 0x100 || key.message == 0x104) && key.vk_code == 0x7b && key.control_held
            && key.alt_held ==> !after.on && !r.swallow && r.report is None,
        before.on && !after.on && now <= before.alive_ms + 2_000 ==> key.vk_code == 0x7b
            && key.control_held && key.alt_held,
{
}

/// A mouse that moved is reported as moving by exactly that, unless this process moved
/// it; a report of an absolute position, of another device or of no movement is none.
pub proof fn raw_motion_is_captured_as_it_was(raw: RawReport)
    ensures
        raw.device_type == 0 && raw.extra != 0x14e5055 && raw.flags % 2 == 0 && (raw.last_x != 0
            || raw.last_y != 0) ==> (raw_motion(raw) matches Some(
            InputEvent::MouseMove { dx, dy },
        ) && dx == raw.last_x && dy == raw.last_y),
        raw.device_type != 0 || raw.extra == 0x14e5055 || raw.flags % 2 == 1 || (raw.last_x == 0
            && raw.last_y == 0) ==> raw_motion(raw) is None,
{
}

} // verus!
