//! macOS: what a replayed event is as a CoreGraphics event, and what the event tap
//! does with what it sees.
//!
//! The shape mirrors the Windows module, because the difficult parts are the same
//! difficult parts:
//!
//! - Motion is read from the event's *delta* fields, not from where the cursor
//!   ended up. macOS stops the cursor at the edge of the screen exactly like
//!   Windows does, so a reading taken from the cursor goes to zero at the one
//!   moment it is needed, when somebody is pushing towards the next computer.
//! - Everything injected is stamped, and the tap ignores anything stamped, or a
//!   machine that both captures and injects feeds its own replay back into the
//!   loop.
//! - Suppression starts off, is watched by a watchdog, and has an escape hatch
//!   checked inside the callback itself.

use vstd::prelude::*;

use crate::geometry;
use crate::input::{InputEvent, MouseButton};
use crate::keys;
use crate::model;
use crate::model::{DisplayInfo, DisplayView};
use crate::watchdog::{Suppression, WATCHDOG_LIMIT_MS};

verus! {

// Event types.
pub const LEFT_MOUSE_DOWN: u32 = 1;

pub const LEFT_MOUSE_UP: u32 = 2;

pub const RIGHT_MOUSE_DOWN: u32 = 3;

pub const RIGHT_MOUSE_UP: u32 = 4;

pub const MOUSE_MOVED: u32 = 5;

pub const LEFT_MOUSE_DRAGGED: u32 = 6;

pub const RIGHT_MOUSE_DRAGGED: u32 = 7;

pub const KEY_DOWN: u32 = 10;

pub const KEY_UP: u32 = 11;

pub const FLAGS_CHANGED: u32 = 12;

pub const SCROLL_WHEEL: u32 = 22;

pub const OTHER_MOUSE_DOWN: u32 = 25;

pub const OTHER_MOUSE_UP: u32 = 26;

pub const OTHER_MOUSE_DRAGGED: u32 = 27;

/// The system switched the tap off because a callback took too long, or because
/// the user did something that invalidated it. Both are recoverable by turning
/// it back on, and both are silent if nobody does.
pub const TAP_DISABLED_BY_TIMEOUT: u32 = 0xffff_fffe;

pub const TAP_DISABLED_BY_USER_INPUT: u32 = 0xffff_ffff;

// Flags.
pub const FLAG_SHIFT: u64 = 0x0002_0000;

pub const FLAG_CONTROL: u64 = 0x0004_0000;

pub const FLAG_ALTERNATE: u64 = 0x0008_0000;

pub const FLAG_COMMAND: u64 = 0x0010_0000;

pub const BUTTON_LEFT: u32 = 0;

pub const BUTTON_RIGHT: u32 = 1;

pub const BUTTON_CENTER: u32 = 2;

/// Stamped on everything this process injects, so the tap can tell its own
/// replay apart from a real key press.
pub const INJECTED_MARKER: i64 = 0x14e5055;

/// A wheel notch, in the units the wire uses, which are Windows' units, since
/// that is what the protocol was defined in. macOS counts in lines instead.
pub const WHEEL_NOTCH: i64 = 120;

/// How long the extent of the desktop is believed, in seconds.
///
/// Re-read now and then rather than on every movement: somebody plugging in a
/// monitor can wait a second.
pub const DESKTOP_TTL_SECS: u64 = 2;

/// The code of F12.
pub const KEY_F12: u16 = 111;

/// The rectangle covering every display.
#[derive(Clone, Copy, Debug, PartialEq, Eq, Structural)]
pub struct Desktop {
    pub min_x: i32,
    pub min_y: i32,
    pub max_x: i32,
    pub max_y: i32,
}

/// The rectangle covering one display.
pub open spec fn desktop_of_one(d: DisplayView) -> Desktop {
    Desktop {
        min_x: d.x,
        min_y: d.y,
        max_x: d.area().right() as i32,
        max_y: d.area().bottom() as i32,
    }
}

/// The rectangle covering every display.
pub open spec fn desktop_of(displays: Seq<DisplayView>) -> Option<Desktop>
    decreases displays.len(),
{
    if displays.len() == 0 {
        None
    } else {
        let one = desktop_of_one(displays.last());
        match desktop_of(displays.drop_last()) {
            None => Some(one),
            Some(all) => Some(
                Desktop {
                    min_x: geometry::min_int(all.min_x as int, one.min_x as int) as i32,
                    min_y: geometry::min_int(all.min_y as int, one.min_y as int) as i32,
                    max_x: geometry::max_int(all.max_x as int, one.max_x as int) as i32,
                    max_y: geometry::max_int(all.max_y as int, one.max_y as int) as i32,
                },
            ),
        }
    }
}

/// The rectangle covering every display, used to keep injected motion on screen.
pub fn desktop_bounds(displays: &Vec<DisplayInfo>) -> (r: Option<Desktop>)
    ensures
        r == desktop_of(model::displays_view(displays@)),
{
    let ghost all = model::displays_view(displays@);
    let mut out: Option<Desktop> = None;
    let mut i: usize = 0;
    assert(all.take(0) =~= Seq::empty());
    while i < displays.len()
        invariant
            i <= displays@.len(),
            all == model::displays_view(displays@),
            out == desktop_of(all.take(i as int)),
        decreases displays@.len() - i,
    {
        assert(all.take(i + 1).drop_last() =~= all.take(i as int));
        let area = displays[i].rect();
        let one = Desktop {
            min_x: area.x,
            min_y: area.y,
            max_x: area.max_x(),
            max_y: area.max_y(),
        };
        out =
        match out {
            None => Some(one),
            Some(all_so_far) => Some(
                Desktop {
                    min_x: if all_so_far.min_x <= one.min_x {
                        all_so_far.min_x
                    } else {
                        one.min_x
                    },
                    min_y: if all_so_far.min_y <= one.min_y {
                        all_so_far.min_y
                    } else {
                        one.min_y
                    },
                    max_x: if all_so_far.max_x >= one.max_x {
                        all_so_far.max_x
                    } else {
                        one.max_x
                    },
                    max_y: if all_so_far.max_y >= one.max_y {
                        all_so_far.max_y
                    } else {
                        one.max_y
                    },
                },
            ),
        };
        i = i + 1;
    }
    assert(all.take(i as int) =~= all);
    out
}

/// Which buttons this machine is holding down on behalf of a remote mouse.
/// Movement while a button is held has to be a drag, or nothing drags.
#[derive(Clone, Copy, Debug, PartialEq, Eq, Structural)]
pub struct HeldButtons {
    pub left: bool,
    pub right: bool,
    pub middle: bool,
    pub x1: bool,
    pub x2: bool,
}

/// Modifier state as the remote keyboard has left it. macOS carries modifiers on
/// every event rather than inferring them, so each injected event has to say.
#[derive(Clone, Copy, Debug, PartialEq, Eq, Structural)]
pub struct Modifiers {
    pub shift: bool,
    pub control: bool,
    pub alternate: bool,
    pub command: bool,
}

impl Modifiers {
    /// The flags that an event carries for these.
    pub open spec fn bits(self) -> int {
        (if self.shift {
            FLAG_SHIFT as int
        } else {
            0
        }) + (if self.control {
            FLAG_CONTROL as int
        } else {
            0
        }) + (if self.alternate {
            FLAG_ALTERNATE as int
        } else {
            0
        }) + (if self.command {
            FLAG_COMMAND as int
        } else {
            0
        })
    }

    /// The flags that an event carries for these.
    pub fn flags(&self) -> (r: u64)
        ensures
            r == self.bits(),
    {
        let mut out: u64 = 0;
        if self.shift {
            out = out + FLAG_SHIFT;
        }
        if self.control {
            out = out + FLAG_CONTROL;
        }
        if self.alternate {
            out = out + FLAG_ALTERNATE;
        }
        if self.command {
            out = out + FLAG_COMMAND;
        }
        out
    }
}

/// The modifier that a key is.
#[derive(Clone, Copy, Debug, PartialEq, Eq, Structural)]
pub enum Modifier {
    Shift,
    Control,
    Alternate,
    Command,
}

/// The modifier that a key is, left or right.
pub open spec fn modifier_of(keycode: u16) -> Option<Modifier> {
    if keycode == 56 || keycode == 60 {
        Some(Modifier::Shift)
    } else if keycode == 59 || keycode == 62 {
        Some(Modifier::Control)
    } else if keycode == 58 || keycode == 61 {
        Some(Modifier::Alternate)
    } else if keycode == 55 || keycode == 54 {
        Some(Modifier::Command)
    } else {
        None
    }
}

fn modifier(keycode: u16) -> (r: Option<Modifier>)
    ensures
        r == modifier_of(keycode),
{
    if keycode == 56 || keycode == 60 {
        Some(Modifier::Shift)
    } else if keycode == 59 || keycode == 62 {
        Some(Modifier::Control)
    } else if keycode == 58 || keycode == 61 {
        Some(Modifier::Alternate)
    } else if keycode == 55 || keycode == 54 {
        Some(Modifier::Command)
    } else {
        None
    }
}

/// What this machine remembers of what it injected.
#[derive(Clone, Copy, Debug)]
pub struct Injector {
    /// Where this machine believes the cursor is, so movement given as a delta can
    /// be turned into the absolute point macOS wants.
    pub last: Option<(i32, i32)>,
    pub held: HeldButtons,
    pub modifiers: Modifiers,
}

/// A mouse event to create and post.
#[derive(Clone, Copy, Debug, PartialEq, Eq, Structural)]
pub struct MouseEvent {
    pub kind: u32,
    pub button: u32,
    pub x: i32,
    pub y: i32,
    /// How far it moves. Applications that read motion rather than position need
    /// the delta as well as the destination.
    pub delta_x: i64,
    pub delta_y: i64,
}

/// A scroll event to create and post.
#[derive(Clone, Copy, Debug, PartialEq, Eq, Structural)]
pub struct ScrollEvent {
    pub wheel_count: u32,
    pub wheel1: i32,
    /// The value of the second axis, where that is set.
    pub axis2: Option<i64>,
}

/// What to do for one event.
#[derive(Clone, Copy, Debug, PartialEq, Eq, Structural)]
pub enum MacInput {
    Nothing,
    /// A direct move of the cursor.
    Place { x: i32, y: i32 },
    /// Post a motion; [`Injector::remember`] where it ends once it was created.
    Move(MouseEvent),
    /// Post a press or a release.
    Button(MouseEvent),
    Scroll(ScrollEvent),
    Key { keycode: u16, down: bool },
}

/// The number of lines that a wheel delta scrolls: whole notches, and one line for
/// any fraction of a notch. A fraction of a notch still has to move something, or
/// a trackpad's small steps all round down to nothing.
pub open spec fn lines_of(delta: i32) -> int {
    let notches = crate::layout::abs(delta as int) / WHEEL_NOTCH as int;
    let lines = if notches == 0 && delta != 0 {
        1
    } else {
        notches
    };
    if delta < 0 {
        -lines
    } else {
        lines
    }
}

/// The kind of a motion event and its button, by what is held.
pub open spec fn motion_kind(held: HeldButtons) -> (u32, u32) {
    if held.left {
        (LEFT_MOUSE_DRAGGED, BUTTON_LEFT)
    } else if held.right {
        (RIGHT_MOUSE_DRAGGED, BUTTON_RIGHT)
    } else if held.middle || held.x1 || held.x2 {
        (OTHER_MOUSE_DRAGGED, BUTTON_CENTER)
    } else {
        (MOUSE_MOVED, BUTTON_LEFT)
    }
}

/// The kind of a press or release and its button number.
pub open spec fn button_kind(button: MouseButton, down: bool) -> (u32, u32) {
    match button {
        MouseButton::Left => (
            if down {
                LEFT_MOUSE_DOWN
            } else {
                LEFT_MOUSE_UP
            },
            BUTTON_LEFT,
        ),
        MouseButton::Right => (
            if down {
                RIGHT_MOUSE_DOWN
            } else {
                RIGHT_MOUSE_UP
            },
            BUTTON_RIGHT,
        ),
        MouseButton::Middle => (
            if down {
                OTHER_MOUSE_DOWN
            } else {
                OTHER_MOUSE_UP
            },
            BUTTON_CENTER,
        ),
        MouseButton::X1 => (
            if down {
                OTHER_MOUSE_DOWN
            } else {
                OTHER_MOUSE_UP
            },
            3,
        ),
        MouseButton::X2 => (
            if down {
                OTHER_MOUSE_DOWN
            } else {
                OTHER_MOUSE_UP
            },
            4,
        ),
    }
}

/// The held buttons after a press or a release.
pub open spec fn held_after(held: HeldButtons, button: MouseButton, down: bool) -> HeldButtons {
    match button {
        MouseButton::Left => HeldButtons { left: down, ..held },
        MouseButton::Right => HeldButtons { right: down, ..held },
        MouseButton::Middle => HeldButtons { middle: down, ..held },
        MouseButton::X1 => HeldButtons { x1: down, ..held },
        MouseButton::X2 => HeldButtons { x2: down, ..held },
    }
}

/// The modifiers after a key went down or up.
pub open spec fn modifiers_after(modifiers: Modifiers, keycode: u16, down: bool) -> Modifiers {
    match modifier_of(keycode) {
        Some(Modifier::Shift) => Modifiers { shift: down, ..modifiers },
        Some(Modifier::Control) => Modifiers { control: down, ..modifiers },
        Some(Modifier::Alternate) => Modifiers { alternate: down, ..modifiers },
        Some(Modifier::Command) => Modifiers { command: down, ..modifiers },
        None => modifiers,
    }
}

/// One axis of a motion: from `at` by `by`, held on the desktop where its extent is
/// known.
pub open spec fn moved_axis(at: i32, by: i32, span: Option<(i32, i32)>) -> int {
    let to = geometry::saturated(at + by);
    match span {
        Some((min, max)) => geometry::between(to, min as int, max - 1),
        None => to,
    }
}

/// The extent of a desktop along the horizontal axis.
pub open spec fn across(desktop: Option<Desktop>) -> Option<(i32, i32)> {
    match desktop {
        Some(d) => Some((d.min_x, d.max_x)),
        None => None,
    }
}

/// The extent of a desktop along the vertical axis.
pub open spec fn along(desktop: Option<Desktop>) -> Option<(i32, i32)> {
    match desktop {
        Some(d) => Some((d.min_y, d.max_y)),
        None => None,
    }
}

impl Injector {
    /// Where the cursor is believed to be: where it was last put, or where it is
    /// seen to be.
    pub open spec fn here(self, cursor: Option<(i32, i32)>) -> (i32, i32) {
        match self.last {
            Some(point) => point,
            None => match cursor {
                Some(point) => point,
                None => (0i32, 0i32),
            },
        }
    }

    /// The event that moves the cursor.
    pub open spec fn motion(
        self,
        dx: i32,
        dy: i32,
        cursor: Option<(i32, i32)>,
        desktop: Option<Desktop>,
    ) -> MouseEvent {
        let (x, y) = self.here(cursor);
        let nx = moved_axis(x, dx, across(desktop));
        let ny = moved_axis(y, dy, along(desktop));
        MouseEvent {
            kind: motion_kind(self.held).0,
            button: motion_kind(self.held).1,
            x: nx as i32,
            y: ny as i32,
            delta_x: (nx - x) as i64,
            delta_y: (ny - y) as i64,
        }
    }

    /// What is remembered after an event was handed over.
    pub open spec fn after(self, event: InputEvent) -> Injector {
        match event {
            InputEvent::MouseButton { button, down } => Injector {
                held: held_after(self.held, button, down),
                ..self
            },
            InputEvent::Key { vk, scan, down, extended } => match key_for(scan, vk, extended) {
                Some(keycode) => Injector {
                    modifiers: modifiers_after(self.modifiers, keycode, down),
                    ..self
                },
                None => self,
            },
            _ => self,
        }
    }

    /// What is done for an event.
    pub open spec fn input(
        self,
        event: InputEvent,
        cursor: Option<(i32, i32)>,
        desktop: Option<Desktop>,
    ) -> MacInput {
        match event {
            InputEvent::CursorEnter { x, y } => MacInput::Place { x, y },
            InputEvent::MouseMove { dx, dy } => MacInput::Move(
                self.motion(dx, dy, cursor, desktop),
            ),
            InputEvent::MouseButton { button, down } => MacInput::Button(
                MouseEvent {
                    kind: button_kind(button, down).0,
                    button: button_kind(button, down).1,
                    x: self.here(cursor).0,
                    y: self.here(cursor).1,
                    delta_x: 0,
                    delta_y: 0,
                },
            ),
            InputEvent::Wheel { delta, horizontal } => if delta == 0 {
                MacInput::Nothing
            } else if horizontal {
                MacInput::Scroll(
                    ScrollEvent {
                        wheel_count: 2,
                        wheel1: 0,
                        axis2: Some(lines_of(delta) as i64),
                    },
                )
            } else {
                MacInput::Scroll(
                    ScrollEvent { wheel_count: 1, wheel1: lines_of(delta) as i32, axis2: None },
                )
            },
            InputEvent::Key { vk, scan, down, extended } => match key_for(scan, vk, extended) {
                Some(keycode) => MacInput::Key { keycode, down },
                None => MacInput::Nothing,
            },
        }
    }

    /// What capture begins with: nothing held, nothing remembered.
    pub fn new() -> (r: Self)
        ensures
            r == (Injector {
                last: None,
                held: HeldButtons { left: false, right: false, middle: false, x1: false, x2: false },
                modifiers: Modifiers {
                    shift: false,
                    control: false,
                    alternate: false,
                    command: false,
                },
            }),
    {
        Injector {
            last: None,
            held: HeldButtons { left: false, right: false, middle: false, x1: false, x2: false },
            modifiers: Modifiers { shift: false, control: false, alternate: false, command: false },
        }
    }

    /// The cursor is at a point now.
    pub fn remember(&mut self, x: i32, y: i32)
        ensures
            *final(self) == (Injector { last: Some((x, y)), ..*old(self) }),
    {
        self.last = Some((x, y));
    }

    /// Where the cursor is has to be looked up again: the local mouse has it.
    pub fn forget(&mut self)
        ensures
            *final(self) == (Injector { last: None, ..*old(self) }),
    {
        self.last = None;
    }

    fn current_point(&self, cursor: Option<(i32, i32)>) -> (r: (i32, i32))
        ensures
            r == self.here(cursor),
    {
        match self.last {
            Some(point) => point,
            None => match cursor {
                Some(point) => point,
                None => (0i32, 0i32),
            },
        }
    }

    /// What to do for one event. `cursor` is where the cursor is seen to be and
    /// `desktop` is the extent of the desktop, where they are known.
    pub fn inject(
        &mut self,
        event: InputEvent,
        cursor: Option<(i32, i32)>,
        desktop: Option<Desktop>,
    ) -> (r: MacInput)
        requires
            desktop matches Some(d) ==> d.min_x < d.max_x && d.min_y < d.max_y,
        ensures
            r == old(self).input(event, cursor, desktop),
            *final(self) == old(self).after(event),
    {
        match event {
            // Placing the cursor is not an injected event; it is a direct move,
            // and it has to happen before the motion that follows it.
            InputEvent::CursorEnter { x, y } => MacInput::Place { x, y },
            InputEvent::MouseMove { dx, dy } => MacInput::Move(
                self.inject_move(dx, dy, cursor, desktop),
            ),
            InputEvent::MouseButton { button, down } => MacInput::Button(
                self.inject_button(button, down, cursor),
            ),
            InputEvent::Wheel { delta, horizontal } => inject_wheel(delta, horizontal),
            InputEvent::Key { vk, scan, down, extended } => self.inject_key(
                vk,
                scan,
                down,
                extended,
            ),
        }
    }

    fn inject_move(
        &self,
        dx: i32,
        dy: i32,
        cursor: Option<(i32, i32)>,
        desktop: Option<Desktop>,
    ) -> (r: MouseEvent)
        requires
            desktop matches Some(d) ==> d.min_x < d.max_x && d.min_y < d.max_y,
        ensures
            r == self.motion(dx, dy, cursor, desktop),
    {
        let (x, y): (i32, i32) = self.current_point(cursor);
        let mut nx: i32 = geometry::saturate(x as i64 + dx as i64);
        let mut ny: i32 = geometry::saturate(y as i64 + dy as i64);
        // Clamped to the desktop. Without this the remembered position drifts off
        // the screen while the cursor stays pinned at the edge, and coming back
        // takes as many movements as it took to leave.
        if let Some(d) = desktop {
            nx = held_between(nx, d.min_x, d.max_x - 1);
            ny = held_between(ny, d.min_y, d.max_y - 1);
        }
        let (kind, button): (u32, u32) = if self.held.left {
            (LEFT_MOUSE_DRAGGED, BUTTON_LEFT)
        } else if self.held.right {
            (RIGHT_MOUSE_DRAGGED, BUTTON_RIGHT)
        } else if self.held.middle || self.held.x1 || self.held.x2 {
            (OTHER_MOUSE_DRAGGED, BUTTON_CENTER)
        } else {
            (MOUSE_MOVED, BUTTON_LEFT)
        };
        MouseEvent {
            kind,
            button,
            x: nx,
            y: ny,
            delta_x: nx as i64 - x as i64,
            delta_y: ny as i64 - y as i64,
        }
    }

    fn inject_button(&mut self, button: MouseButton, down: bool, cursor: Option<(i32, i32)>) -> (r:
        MouseEvent)
        ensures
            r == (MouseEvent {
                kind: button_kind(button, down).0,
                button: button_kind(button, down).1,
                x: old(self).here(cursor).0,
                y: old(self).here(cursor).1,
                delta_x: 0,
                delta_y: 0,
            }),
            *final(self) == (Injector {
                held: held_after(old(self).held, button, down),
                ..*old(self)
            }),
    {
        let (x, y): (i32, i32) = self.current_point(cursor);
        let (press, release, number): (u32, u32, u32) = match button {
            MouseButton::Left => {
                self.held.left = down;
                (LEFT_MOUSE_DOWN, LEFT_MOUSE_UP, BUTTON_LEFT)
            },
            MouseButton::Right => {
                self.held.right = down;
                (RIGHT_MOUSE_DOWN, RIGHT_MOUSE_UP, BUTTON_RIGHT)
            },
            MouseButton::Middle => {
                self.held.middle = down;
                (OTHER_MOUSE_DOWN, OTHER_MOUSE_UP, BUTTON_CENTER)
            },
            MouseButton::X1 => {
                self.held.x1 = down;
                (OTHER_MOUSE_DOWN, OTHER_MOUSE_UP, 3)
            },
            MouseButton::X2 => {
                self.held.x2 = down;
                (OTHER_MOUSE_DOWN, OTHER_MOUSE_UP, 4)
            },
        };
        MouseEvent {
            kind: if down {
                press
            } else {
                release
            },
            button: number,
            x,
            y,
            delta_x: 0,
            delta_y: 0,
        }
    }

    fn inject_key(&mut self, vk: u16, scan: u16, down: bool, extended: bool) -> (r: MacInput)
        ensures
            match key_for(scan, vk, extended) {
                Some(keycode) => {
                    &&& r == (MacInput::Key { keycode, down })
                    &&& *final(self) == (Injector {
                        modifiers: modifiers_after(old(self).modifiers, keycode, down),
                        ..*old(self)
                    })
                },
                None => r == MacInput::Nothing && *final(self) == *old(self),
            },
    {
        let keycode: u16 = match keys::from_pc(scan, vk, extended) {
            Some(keycode) => keycode,
            // Unmapped keys are dropped rather than guessed: pressing an arbitrary
            // key is worse than pressing none.
            None => {
                return MacInput::Nothing;
            },
        };
        // Modifiers are state on this side, not events. Track what the remote
        // keyboard is holding so the next letter arrives capitalised.
        match modifier(keycode) {
            Some(Modifier::Shift) => {
                self.modifiers.shift = down;
            },
            Some(Modifier::Control) => {
                self.modifiers.control = down;
            },
            Some(Modifier::Alternate) => {
                self.modifiers.alternate = down;
            },
            Some(Modifier::Command) => {
                self.modifiers.command = down;
            },
            None => {},
        }
        MacInput::Key { keycode, down }
    }
}

/// `v` held between `lo` and `hi`.
fn held_between(v: i32, lo: i32, hi: i32) -> (r: i32)
    requires
        lo <= hi,
    ensures
        r == geometry::between(v as int, lo as int, hi as int),
{
    if v < lo {
        lo
    } else if v > hi {
        hi
    } else {
        v
    }
}

/// The Mac key that is pressed for a key of another machine.
pub open spec fn key_for(scan: u16, vk: u16, extended: bool) -> Option<u16> {
    match keys::mac_key_at(scan, extended) {
        Some(mac) => Some(mac),
        None => keys::mac_key_named(vk),
    }
}

fn inject_wheel(delta: i32, horizontal: bool) -> (r: MacInput)
    ensures
        delta == 0 ==> r == MacInput::Nothing,
        delta != 0 && horizontal ==> r == MacInput::Scroll(
            ScrollEvent { wheel_count: 2, wheel1: 0, axis2: Some(lines_of(delta) as i64) },
        ),
        delta != 0 && !horizontal ==> r == MacInput::Scroll(
            ScrollEvent { wheel_count: 1, wheel1: lines_of(delta) as i32, axis2: None },
        ),
{
    if delta == 0 {
        return MacInput::Nothing;
    }
    let size: u64 = if delta < 0 {
        (-(delta as i64)) as u64
    } else {
        delta as u64
    };
    let notches: u64 = size / 120;
    let lines: i64 = if notches == 0 {
        1
    } else {
        notches as i64
    };
    let signed: i64 = if delta < 0 {
        -lines
    } else {
        lines
    };
    assert(signed == lines_of(delta));
    if horizontal {
        MacInput::Scroll(ScrollEvent { wheel_count: 2, wheel1: 0, axis2: Some(signed) })
    } else {
        MacInput::Scroll(ScrollEvent { wheel_count: 1, wheel1: signed as i32, axis2: None })
    }
}

/// The kinds of event that the tap asks for.
pub open spec fn is_of_interest(kind: u64) -> bool {
    1 <= kind <= 7 || 10 <= kind <= 12 || kind == 22 || 25 <= kind <= 27
}

/// The kinds of event that the tap asks for, one bit each.
pub fn event_mask() -> (r: u64)
    ensures
        forall|kind: u64|
            kind < 64 ==> (#[trigger] (r >> kind) & 1 == 1) == is_of_interest(kind),
{
    let mask: u64 = 0xe401cfe;
    assert forall|kind: u64| kind < 64 implies (#[trigger] (mask >> kind) & 1 == 1)
        == is_of_interest(kind) by {
        assert(kind < 64 ==> (((0xe401cfeu64 >> kind) & 1 == 1) == (1 <= kind && kind <= 7 || 10
            <= kind && kind <= 12 || kind == 22 || 25 <= kind && kind <= 27))) by (bit_vector);
    }
    mask
}

/// An event as the tap sees it. Fields that its kind does not have are zero.
#[derive(Clone, Copy, Debug, PartialEq, Eq, Structural)]
pub struct TapEvent {
    pub kind: u32,
    /// The stamp that the event carries.
    pub user_data: i64,
    pub flags: u64,
    pub delta_x: i64,
    pub delta_y: i64,
    pub button_number: i64,
    pub scroll_axis1: i64,
    pub scroll_axis2: i64,
    pub keycode: i64,
}

/// What the tap does with an event.
#[derive(Clone, Copy, Debug, PartialEq, Eq, Structural)]
pub struct TapDecision {
    /// The system switched the tap off: switch it back on.
    pub reenable: bool,
    /// What is reported to the sharing loop.
    pub report: Option<InputEvent>,
    /// Whether nothing downstream ever sees the event.
    pub swallow: bool,
}

/// Whether a flag is set.
pub open spec fn is_flagged(flags: u64, mask: u64) -> bool {
    flags & mask != 0
}

/// Whether a key is down. A modifier does not report up or down; it reports that
/// the set of modifiers changed, and whether this one is held now is in the flags.
/// Caps lock and fn are reported, never held in the usual sense.
pub open spec fn is_down(kind: u32, keycode: u16, flags: u64) -> bool {
    if kind == KEY_DOWN {
        true
    } else if kind == KEY_UP {
        false
    } else {
        match modifier_of(keycode) {
            Some(Modifier::Shift) => is_flagged(flags, FLAG_SHIFT),
            Some(Modifier::Control) => is_flagged(flags, FLAG_CONTROL),
            Some(Modifier::Alternate) => is_flagged(flags, FLAG_ALTERNATE),
            Some(Modifier::Command) => is_flagged(flags, FLAG_COMMAND),
            None => false,
        }
    }
}

/// Whether an event is about a key.
pub open spec fn is_key(kind: u32) -> bool {
    kind == KEY_DOWN || kind == KEY_UP || kind == FLAGS_CHANGED
}

/// Whether an event is the way out: Control+Option+F12.
pub open spec fn is_emergency(event: TapEvent) -> bool {
    is_key(event.kind) && is_down(event.kind, event.keycode as u16, event.flags)
        && event.keycode as u16 == KEY_F12 && is_flagged(event.flags, FLAG_CONTROL) && is_flagged(
        event.flags,
        FLAG_ALTERNATE,
    )
}

/// A scroll of some lines in the units of the wire, held inside their range.
pub open spec fn notches(lines: i32) -> i32 {
    geometry::saturated(lines * WHEEL_NOTCH) as i32
}

/// What an event means.
pub open spec fn meaning(event: TapEvent) -> Option<InputEvent> {
    let kind = event.kind;
    if kind == MOUSE_MOVED || kind == LEFT_MOUSE_DRAGGED || kind == RIGHT_MOUSE_DRAGGED || kind
        == OTHER_MOUSE_DRAGGED {
        let dx = event.delta_x as i32;
        let dy = event.delta_y as i32;
        if dx == 0 && dy == 0 {
            None
        } else {
            Some(InputEvent::MouseMove { dx, dy })
        }
    } else if kind == LEFT_MOUSE_DOWN || kind == LEFT_MOUSE_UP {
        Some(
            InputEvent::MouseButton { button: MouseButton::Left, down: kind == LEFT_MOUSE_DOWN },
        )
    } else if kind == RIGHT_MOUSE_DOWN || kind == RIGHT_MOUSE_UP {
        Some(
            InputEvent::MouseButton { button: MouseButton::Right, down: kind == RIGHT_MOUSE_DOWN },
        )
    } else if kind == OTHER_MOUSE_DOWN || kind == OTHER_MOUSE_UP {
        Some(
            InputEvent::MouseButton {
                button: if event.button_number == 2 {
                    MouseButton::Middle
                } else if event.button_number == 3 {
                    MouseButton::X1
                } else {
                    MouseButton::X2
                },
                down: kind == OTHER_MOUSE_DOWN,
            },
        )
    } else if kind == SCROLL_WHEEL {
        let vertical = event.scroll_axis1 as i32;
        let horizontal = event.scroll_axis2 as i32;
        if vertical != 0 {
            Some(InputEvent::Wheel { delta: notches(vertical), horizontal: false })
        } else if horizontal != 0 {
            Some(InputEvent::Wheel { delta: notches(horizontal), horizontal: true })
        } else {
            None
        }
    } else if is_key(kind) {
        match keys::pc_key(event.keycode as u16) {
            Some((scan, vk, extended)) => Some(
                InputEvent::Key {
                    vk,
                    scan,
                    down: is_down(kind, event.keycode as u16, event.flags),
                    extended,
                },
            ),
            None => None,
        }
    } else {
        None
    }
}

/// Whether the system says that it switched the tap off.
pub open spec fn is_disabled(kind: u32) -> bool {
    kind == TAP_DISABLED_BY_TIMEOUT || kind == TAP_DISABLED_BY_USER_INPUT
}

/// Whether a call of the tap only says that the system switched it off. Such a call
/// brings no event.
pub fn is_switched_off(kind: u32) -> (r: bool)
    ensures
        r == is_disabled(kind),
{
    kind == TAP_DISABLED_BY_TIMEOUT || kind == TAP_DISABLED_BY_USER_INPUT
}

/// How suppression before and after, an event and what the tap does with it relate.
pub open spec fn taps(
    before: Suppression,
    event: TapEvent,
    now: u64,
    after: Suppression,
    r: TapDecision,
) -> bool {
    if is_disabled(event.kind) {
        &&& r == (TapDecision { reenable: true, report: None, swallow: false })
        &&& after == before
    } else if event.user_data == INJECTED_MARKER {
        &&& r == (TapDecision { reenable: false, report: None, swallow: false })
        &&& after == before
    } else if is_emergency(event) {
        &&& r == (TapDecision { reenable: false, report: None, swallow: false })
        &&& after == (Suppression { on: false, ..before })
    } else {
        &&& r == (TapDecision {
            reenable: false,
            report: meaning(event),
            swallow: before.swallows(now),
        })
        &&& after == before.after_event(now)
    }
}

/// What the tap does with an event.
pub fn tap_callback(suppression: &mut Suppression, event: TapEvent, now: u64) -> (r: TapDecision)
    ensures
        taps(*old(suppression), event, now, *final(suppression), r),
{
    let kind: u32 = event.kind;
    // macOS switches a tap off if a callback is ever too slow, and says so exactly
    // once. Not turning it back on means input sharing stops working with no error
    // anywhere.
    if is_switched_off(kind) {
        return TapDecision { reenable: true, report: None, swallow: false };
    }
    // Our own replay. Never capture it, or the two machines feed each other.
    if event.user_data == INJECTED_MARKER {
        return TapDecision { reenable: false, report: None, swallow: false };
    }
    let report: Option<InputEvent> = if kind == MOUSE_MOVED || kind == LEFT_MOUSE_DRAGGED || kind
        == RIGHT_MOUSE_DRAGGED || kind == OTHER_MOUSE_DRAGGED {
        // Deliberately the delta fields rather than the location: the cursor stops
        // at the edge of the screen, and a reading taken from it goes to zero at
        // the exact moment somebody is pushing towards the next computer.
        let dx: i32 = event.delta_x as i32;
        let dy: i32 = event.delta_y as i32;
        if dx == 0 && dy == 0 {
            None
        } else {
            Some(InputEvent::MouseMove { dx, dy })
        }
    } else if kind == LEFT_MOUSE_DOWN || kind == LEFT_MOUSE_UP {
        Some(button(MouseButton::Left, kind == LEFT_MOUSE_DOWN))
    } else if kind == RIGHT_MOUSE_DOWN || kind == RIGHT_MOUSE_UP {
        Some(button(MouseButton::Right, kind == RIGHT_MOUSE_DOWN))
    } else if kind == OTHER_MOUSE_DOWN || kind == OTHER_MOUSE_UP {
        let which = if event.button_number == 2 {
            MouseButton::Middle
        } else if event.button_number == 3 {
            MouseButton::X1
        } else {
            MouseButton::X2
        };
        Some(button(which, kind == OTHER_MOUSE_DOWN))
    } else if kind == SCROLL_WHEEL {
        let vertical: i32 = event.scroll_axis1 as i32;
        let horizontal: i32 = event.scroll_axis2 as i32;
        if vertical != 0 {
            Some(
                InputEvent::Wheel {
                    delta: geometry::saturate(vertical as i64 * WHEEL_NOTCH),
                    horizontal: false,
                },
            )
        } else if horizontal != 0 {
            Some(
                InputEvent::Wheel {
                    delta: geometry::saturate(horizontal as i64 * WHEEL_NOTCH),
                    horizontal: true,
                },
            )
        } else {
            None
        }
    } else if kind == KEY_DOWN || kind == KEY_UP || kind == FLAGS_CHANGED {
        let keycode: u16 = event.keycode as u16;
        let flags: u64 = event.flags;
        let down = if kind == KEY_DOWN {
            true
        } else if kind == KEY_UP {
            false
        } else {
            match modifier(keycode) {
                Some(Modifier::Shift) => flags & FLAG_SHIFT != 0,
                Some(Modifier::Control) => flags & FLAG_CONTROL != 0,
                Some(Modifier::Alternate) => flags & FLAG_ALTERNATE != 0,
                Some(Modifier::Command) => flags & FLAG_COMMAND != 0,
                None => false,
            }
        };
        // The escape hatch. Checked inside the callback itself, so it works even
        // when everything above this function has stopped responding:
        // Control+Option+F12 hands the keyboard and mouse straight back.
        if down && keycode == KEY_F12 && flags & FLAG_CONTROL != 0 && flags & FLAG_ALTERNATE != 0 {
            let _ = suppression.release();
            return TapDecision { reenable: false, report: None, swallow: false };
        }
        match keys::to_pc(keycode) {
            Some((scan, vk, extended)) => Some(InputEvent::Key { vk, scan, down, extended }),
            None => None,
        }
    } else {
        None
    };
    let swallow = suppression.suppressing_now(now);
    TapDecision { reenable: false, report, swallow }
}

fn button(which: MouseButton, down: bool) -> (r: InputEvent)
    ensures
        r == (InputEvent::MouseButton { button: which, down }),
{
    InputEvent::MouseButton { button: which, down }
}

/// Whether the mouse is attached again after the cursor was put somewhere.
pub open spec fn is_reattached(detached: bool) -> bool {
    !detached
}

/// Whether the mouse is attached to this machine's cursor again after the cursor
/// was put somewhere, given whether the pointer is detached on purpose.
///
/// Warping decouples the cursor from the mouse for a quarter of a second, during
/// which the local mouse appears dead. Reconnecting them immediately is the
/// documented way out. Unless the pointer is deliberately detached because it is
/// on another computer, in which case reattaching here would undo the suppression
/// the sharing loop asked for.
pub fn reattaches(detached: bool) -> (r: bool)
    ensures
        r == is_reattached(detached),
{
    !detached
}

/// What the mouse has to be told so that it is unhooked from the cursor exactly while
/// input is suppressed: whether to attach it, or nothing where it is as it should be.
pub open spec fn following(detached: bool, suppressing: bool) -> Option<bool> {
    if detached == suppressing {
        None
    } else {
        Some(!suppressing)
    }
}

/// Whether the mouse is unhooked from the cursor once it was told so.
pub open spec fn detached_after(detached: bool, told: Option<bool>) -> bool {
    match told {
        Some(attach) => !attach,
        None => detached,
    }
}

/// Unhooks the physical mouse from this Mac's cursor, or hooks it back up: returns
/// whether to attach it, or nothing where it is as it should be.
///
/// A tap sees an event after the cursor has already moved with it, so swallowing is
/// not enough: the mouse is detached for as long as input is suppressed. The two are
/// halves of one thing, and changing only one of them would either leak input or
/// freeze the cursor.
pub fn follow_suppression(detached: bool, suppressing: bool) -> (r: Option<bool>)
    ensures
        r == following(detached, suppressing),
{
    if detached == suppressing {
        None
    } else {
        Some(!suppressing)
    }
}

/// The mouse follows suppression: it is attached exactly while nothing is suppressed,
/// however it was before.
pub proof fn the_mouse_follows_suppression(detached: bool, suppressing: bool)
    ensures
        detached_after(detached, following(detached, suppressing)) == suppressing,
{
}

/// Every path that stops suppressing attaches the mouse again: an event that the tap
/// lets through, the emergency release, an owner that fell silent, and being told to.
pub proof fn every_way_out_attaches_the_mouse(
    detached: bool,
    before: Suppression,
    event: TapEvent,
    now: u64,
    after: Suppression,
    r: TapDecision,
)
    requires
        taps(before, event, now, after, r),
        !is_disabled(event.kind),
        event.user_data != INJECTED_MARKER,
    ensures
        !r.swallow ==> !detached_after(detached, following(detached, after.on)),
        is_emergency(event) ==> !detached_after(detached, following(detached, after.on)),
        now > before.alive_ms + WATCHDOG_LIMIT_MS ==> !detached_after(
            detached,
            following(detached, after.on),
        ),
        !detached_after(detached, following(detached, (Suppression { on: false, ..before }).on)),
{
}

/// What is injected stays on the desktop, and what is remembered with it: the
/// remembered point never drifts off while the cursor is pinned at the edge.
pub proof fn motion_stays_on_the_desktop(
    injector: Injector,
    dx: i32,
    dy: i32,
    cursor: Option<(i32, i32)>,
    d: Desktop,
)
    requires
        d.min_x < d.max_x,
        d.min_y < d.max_y,
    ensures
        ({
            let m = injector.motion(dx, dy, cursor, Some(d));
            &&& d.min_x <= m.x < d.max_x
            &&& d.min_y <= m.y < d.max_y
            &&& m.delta_x == m.x - injector.here(cursor).0
            &&& m.delta_y == m.y - injector.here(cursor).1
        }),
{
}

/// A button that is held makes every motion a drag, and motion is plain again once
/// every button was released.
pub proof fn held_buttons_drag(held: HeldButtons, button: MouseButton)
    ensures
        motion_kind(held_after(held, button, true)).0 != MOUSE_MOVED,
        motion_kind(
            held_after(
                HeldButtons { left: false, right: false, middle: false, x1: false, x2: false },
                button,
                false,
            ),
        ) == (MOUSE_MOVED, BUTTON_LEFT),
{
}

/// Any scroll scrolls at least a line, in its own direction, and never more lines
/// than the notches it came in.
pub proof fn every_scroll_moves_something(delta: i32)
    ensures
        delta > 0 ==> 1 <= lines_of(delta) <= delta,
        delta < 0 ==> delta <= lines_of(delta) <= -1,
        delta == 0 ==> lines_of(delta) == 0,
{
}

/// A whole number of lines scrolled on one Mac is the same number of lines on
/// another.
pub proof fn lines_survive_the_wire(lines: i32)
    requires
        i32::MIN <= lines * WHEEL_NOTCH <= i32::MAX,
    ensures
        lines_of(notches(lines)) == lines,
{
}

/// Whether a kind of event is a movement of the mouse: moved, or dragged with the left,
/// the right or another button.
pub open spec fn is_motion(kind: u32) -> bool {
    kind == 5 || kind == 6 || kind == 7 || kind == 27
}

/// Every movement of the mouse that this process did not make is reported as exactly
/// that movement, whether or not a button is held; only one that goes nowhere is not.
pub proof fn every_movement_is_reported(
    before: Suppression,
    event: TapEvent,
    now: u64,
    after: Suppression,
    r: TapDecision,
)
    requires
        taps(before, event, now, after, r),
        is_motion(event.kind),
        event.user_data != 0x14e5055,
        i32::MIN <= event.delta_x <= i32::MAX,
        i32::MIN <= event.delta_y <= i32::MAX,
    ensures
        event.delta_x != 0 || event.delta_y != 0 ==> (r.report matches Some(
            InputEvent::MouseMove { dx, dy },
        ) && dx == event.delta_x && dy == event.delta_y),
        event.delta_x == 0 && event.delta_y == 0 ==> r.report is None,
{
}

/// Every press and release of a button is reported as that button going that way: odd
/// kinds are presses and the kind after one is its release.
pub proof fn every_button_is_reported(
    before: Suppression,
    event: TapEvent,
    now: u64,
    after: Suppression,
    r: TapDecision,
)
    requires
        taps(before, event, now, after, r),
        1 <= event.kind <= 4 || event.kind == 25 || event.kind == 26,
        event.user_data != 0x14e5055,
    ensures
        r.report matches Some(InputEvent::MouseButton { button, down }) && (down <==> event.kind
            % 2 == 1) && (button == MouseButton::Left <==> event.kind <= 2) && (button
            == MouseButton::Right <==> 3 <= event.kind <= 4) && (button == MouseButton::Middle
            <==> event.kind >= 25 && event.button_number == 2) && (button == MouseButton::X1
            <==> event.kind >= 25 && event.button_number == 3),
{
}

/// Every scroll is reported along its own axis and in its own direction, a notch of
/// a hundred and twenty for each line, as far as the wire reaches. The vertical axis
/// goes first.
pub proof fn every_scroll_is_reported(
    before: Suppression,
    event: TapEvent,
    now: u64,
    after: Suppression,
    r: TapDecision,
)
    requires
        taps(before, event, now, after, r),
        event.kind == 22,
        event.user_data != 0x14e5055,
        i32::MIN <= event.scroll_axis1 <= i32::MAX,
        i32::MIN <= event.scroll_axis2 <= i32::MAX,
    ensures
        ({
            let lines = if event.scroll_axis1 != 0 {
                event.scroll_axis1
            } else {
                event.scroll_axis2
            };
            &&& lines == 0 <==> r.report is None
            &&& lines != 0 ==> (r.report matches Some(InputEvent::Wheel { delta, horizontal })
                && (horizontal <==> event.scroll_axis1 == 0) && (delta > 0 <==> lines > 0) && (
            i32::MIN <= lines * 120 <= i32::MAX ==> delta == lines * 120) && (lines * 120
                > i32::MAX ==> delta == i32::MAX) && (lines * 120 < i32::MIN ==> delta
                == i32::MIN))
        }),
{
}

/// Every key that has a place on another machine is reported as the key in that place,
/// pressed, released or changed, unless it is the way out.
pub proof fn every_key_is_reported(
    before: Suppression,
    event: TapEvent,
    now: u64,
    after: Suppression,
    r: TapDecision,
)
    requires
        taps(before, event, now, after, r),
        10 <= event.kind <= 12,
        event.user_data != 0x14e5055,
        0 <= event.keycode <= 0xffff,
        event.keycode != 111,
    ensures
        r.report is Some <==> keys::pc_key(event.keycode as u16) is Some,
        r.report is Some ==> (r.report->0 matches InputEvent::Key { vk, scan, down, extended }
            && keys::mac_key_at(scan, extended) == Some(event.keycode as u16) && (event.kind == 10
            ==> down) && (event.kind == 11 ==> !down)),
{
    keys::every_key_comes_back(event.keycode as u16);
}

/// The tap asks for exactly the kinds that it can report, and hears of the others
/// nothing.
pub proof fn the_tap_asks_for_what_it_reports(event: TapEvent)
    requires
        event.kind < 64,
    ensures
        is_of_interest(event.kind as u64) <==> is_motion(event.kind) || 1 <= event.kind <= 4
            || event.kind == 25 || event.kind == 26 || event.kind == 22 || 10 <= event.kind <= 12,
        !is_of_interest(event.kind as u64) ==> meaning(event) is None,
{
}

/// A flag is set exactly if its binary digit is one.
proof fn flags_are_binary_digits(flags: u64)
    ensures
        is_flagged(flags, FLAG_SHIFT) <==> (flags / 0x2_0000) % 2 == 1,
        is_flagged(flags, FLAG_CONTROL) <==> (flags / 0x4_0000) % 2 == 1,
        is_flagged(flags, FLAG_ALTERNATE) <==> (flags / 0x8_0000) % 2 == 1,
        is_flagged(flags, FLAG_COMMAND) <==> (flags / 0x10_0000) % 2 == 1,
{
    assert(flags & 0x2_0000 != 0 <==> (flags / 0x2_0000) % 2 == 1) by (bit_vector);
    assert(flags & 0x4_0000 != 0 <==> (flags / 0x4_0000) % 2 == 1) by (bit_vector);
    assert(flags & 0x8_0000 != 0 <==> (flags / 0x8_0000) % 2 == 1) by (bit_vector);
    assert(flags & 0x10_0000 != 0 <==> (flags / 0x10_0000) % 2 == 1) by (bit_vector);
}

/// A modifier key whose event says only that modifiers changed is reported as pressed
/// exactly if the event carries that modifier: shift by either shift key, control by
/// either control key, and so on.
pub proof fn a_changed_modifier_is_reported_as_it_is(event: TapEvent)
    requires
        event.kind == 12,
        event.keycode == 54 || event.keycode == 55 || event.keycode == 56 || event.keycode == 58
            || event.keycode == 59 || event.keycode == 60 || event.keycode == 61 || event.keycode
            == 62,
    ensures
        meaning(event) matches Some(InputEvent::Key { vk, scan, down, extended }) && (
        event.keycode == 56 || event.keycode == 60 ==> (down <==> (event.flags / 0x2_0000) % 2
            == 1) && (vk == 0xa0 || vk == 0xa1)) && (event.keycode == 59 || event.keycode == 62 ==> (
        down <==> (event.flags / 0x4_0000) % 2 == 1) && (vk == 0xa2 || vk == 0xa3)) && (
        event.keycode == 58 || event.keycode == 61 ==> (down <==> (event.flags / 0x8_0000) % 2
            == 1) && (vk == 0xa4 || vk == 0xa5)) && (event.keycode == 55 || event.keycode == 54 ==> (
        down <==> (event.flags / 0x10_0000) % 2 == 1) && (vk == 0x5b || vk == 0x5c)),
{
    flags_are_binary_digits(event.flags);
}

/// Control+Option+F12 gives the keyboard and the mouse back, whatever state suppression
/// is in; it is neither reported nor swallowed. Nothing else does while the owner is
/// heard from.
pub proof fn the_escape_hatch_always_works(
    before: Suppression,
    event: TapEvent,
    now: u64,
    after: Suppression,
    r: TapDecision,
)
    requires
        taps(before, event, now, after, r),
        event.user_data != 0x14e5055,
        0 <= event.keycode <= 0xffff,
    ensures
        event.kind == 10 && event.keycode == 111 && (event.flags / 0x4_0000) % 2 == 1 && (
        event.flags / 0x8_0000) % 2 == 1 ==> !after.on && !r.swallow && r.report is None,
        before.on && !after.on && now <= before.alive_ms + 2_000 ==> event.kind == 10
            && event.keycode == 111 && (event.flags / 0x4_0000) % 2 == 1 && (event.flags
            / 0x8_0000) % 2 == 1,
{
    flags_are_binary_digits(event.flags);
}

/// What this process replays acts on this machine and is never reported; what the user
/// does acts on it exactly while input is not suppressed. The tap is switched back on
/// exactly if the system says that it is off.
pub proof fn the_tap_swallows_while_suppressing(
    before: Suppression,
    event: TapEvent,
    now: u64,
    after: Suppression,
    r: TapDecision,
)
    requires
        taps(before, event, now, after, r),
    ensures
        event.user_data == 0x14e5055 ==> r.report is None && !r.swallow && after == before,
        r.reenable <==> event.kind == 0xffff_fffe || event.kind == 0xffff_ffff,
        r.reenable ==> r.report is None && !r.swallow && after == before,
        !r.reenable && event.user_data != 0x14e5055 && event.keycode as u16 != 111 && before.on
            && now <= before.alive_ms + 2_000 ==> r.swallow && after == before,
        r.swallow ==> before.on && now <= before.alive_ms + 2_000,
        after.on ==> before.on,
        after.alive_ms == before.alive_ms,
{
}

/// An event as a tap sees it that this injector posted, with modifiers, on a machine
/// that does not know it for its own.
pub open spec fn as_seen(posted: MacInput, flags: u64) -> TapEvent {
    let blank = TapEvent {
        kind: 0,
        user_data: 0,
        flags,
        delta_x: 0,
        delta_y: 0,
        button_number: 0,
        scroll_axis1: 0,
        scroll_axis2: 0,
        keycode: 0,
    };
    match posted {
        MacInput::Move(m) | MacInput::Button(m) => TapEvent {
            kind: m.kind,
            delta_x: m.delta_x,
            delta_y: m.delta_y,
            button_number: m.button as i64,
            ..blank
        },
        MacInput::Scroll(s) => TapEvent {
            kind: 22,
            scroll_axis1: s.wheel1 as i64,
            scroll_axis2: match s.axis2 {
                Some(lines) => lines,
                None => 0,
            },
            ..blank
        },
        MacInput::Key { keycode, down } => TapEvent {
            kind: if down {
                10
            } else {
                11
            },
            keycode: keycode as i64,
            ..blank
        },
        _ => blank,
    }
}

/// Capture and replay agree on buttons: what is posted for a press or a release, at the
/// place where the cursor is, reads as that press or release.
pub proof fn replayed_buttons_read_back(
    injector: Injector,
    button: MouseButton,
    down: bool,
    cursor: Option<(i32, i32)>,
    desktop: Option<Desktop>,
    flags: u64,
)
    ensures
        ({
            let event = InputEvent::MouseButton { button, down };
            let posted = injector.input(event, cursor, desktop);
            &&& posted matches MacInput::Button(m) && (injector.last matches Some(at) ==> (m.x, m.y)
                == at) && (injector.last is None ==> (cursor matches Some(at) ==> (m.x, m.y) == at))
            &&& meaning(as_seen(posted, flags)) == Some(event)
        }),
{
}

/// Capture and replay agree on motion: what is posted moves the cursor by what the
/// event says, and reads as that, wherever the desktop leaves room for it; where it does
/// not, the cursor goes to the edge and no further, never the other way.
pub proof fn replayed_motion_reads_back(
    injector: Injector,
    dx: i32,
    dy: i32,
    cursor: Option<(i32, i32)>,
    d: Desktop,
    flags: u64,
)
    requires
        d.min_x <= injector.here(cursor).0 < d.max_x,
        d.min_y <= injector.here(cursor).1 < d.max_y,
    ensures
        ({
            let event = InputEvent::MouseMove { dx, dy };
            let posted = injector.input(event, cursor, Some(d));
            let at = injector.here(cursor);
            &&& posted is Move
            &&& is_motion((posted->Move_0).kind)
            &&& d.min_x <= at.0 + dx < d.max_x ==> (posted->Move_0).x == at.0 + dx && (
            posted->Move_0).delta_x == dx
            &&& d.min_y <= at.1 + dy < d.max_y ==> (posted->Move_0).y == at.1 + dy && (
            posted->Move_0).delta_y == dy
            &&& at.0 + dx < d.min_x ==> (posted->Move_0).x == d.min_x
            &&& at.0 + dx >= d.max_x ==> (posted->Move_0).x == d.max_x - 1
            &&& at.1 + dy < d.min_y ==> (posted->Move_0).y == d.min_y
            &&& at.1 + dy >= d.max_y ==> (posted->Move_0).y == d.max_y - 1
            &&& d.min_x <= at.0 + dx < d.max_x && d.min_y <= at.1 + dy < d.max_y && (dx != 0 || dy
                != 0) ==> meaning(as_seen(posted, flags)) == Some(event)
        }),
{
}

/// Without a known desktop the cursor moves by what the event says, as far as a point
/// can lie.
pub proof fn motion_is_unbounded_without_a_desktop(
    injector: Injector,
    dx: i32,
    dy: i32,
    cursor: Option<(i32, i32)>,
)
    requires
        i32::MIN <= injector.here(cursor).0 + dx <= i32::MAX,
        i32::MIN <= injector.here(cursor).1 + dy <= i32::MAX,
    ensures
        ({
            let m = injector.motion(dx, dy, cursor, None);
            &&& m.x == injector.here(cursor).0 + dx && m.y == injector.here(cursor).1 + dy
            &&& m.delta_x == dx && m.delta_y == dy
        }),
{
}

/// Capture and replay agree on the wheel: whole notches read back as they were, and any
/// scroll along its own axis and in its own direction.
pub proof fn replayed_scrolls_read_back(
    injector: Injector,
    delta: i32,
    horizontal: bool,
    cursor: Option<(i32, i32)>,
    desktop: Option<Desktop>,
    flags: u64,
)
    requires
        delta != 0,
    ensures
        ({
            let event = InputEvent::Wheel { delta, horizontal };
            let posted = injector.input(event, cursor, desktop);
            &&& meaning(as_seen(posted, flags)) matches Some(InputEvent::Wheel {
                delta: back,
                horizontal: across,
            }) && across == horizontal && (back > 0 <==> delta > 0) && (delta % 120 == 0 ==> back
                == delta) && -120 < back - delta < 120
        }),
{
    let event = InputEvent::Wheel { delta, horizontal };
    let posted = injector.input(event, cursor, desktop);
    every_scroll_moves_something(delta);
    assert(-17895698 <= lines_of(delta) <= 17895698);
    assert(posted is Scroll);
}

/// Capture and replay agree on keys: the key that is pressed for a physical key of
/// another machine reads as that physical key, going the same way.
pub proof fn replayed_keys_read_back(
    injector: Injector,
    vk: u16,
    scan: u16,
    down: bool,
    extended: bool,
    cursor: Option<(i32, i32)>,
    desktop: Option<Desktop>,
    flags: u64,
)
    requires
        keys::mac_key_at(scan, extended) is Some,
    ensures
        ({
            let posted = injector.input(
                InputEvent::Key { vk, scan, down, extended },
                cursor,
                desktop,
            );
            meaning(as_seen(posted, flags)) matches Some(InputEvent::Key {
                vk: v,
                scan: s,
                down: d,
                extended: e,
            }) && s == scan && d == down && e == extended
        }),
{
    keys::physical_keys_match_one_to_one(scan, extended);
}

/// What a Mac reports of a key is replayed by another Mac as the same key going the
/// same way; a handoff is replayed as a direct move to its point.
pub proof fn keys_are_the_same_on_every_mac(
    injector: Injector,
    event: TapEvent,
    x: i32,
    y: i32,
    cursor: Option<(i32, i32)>,
    desktop: Option<Desktop>,
)
    requires
        event.kind == 10 || event.kind == 11,
        0 <= event.keycode <= 0xffff,
    ensures
        meaning(event) matches Some(key) ==> (injector.input(key, cursor, desktop) matches
            MacInput::Key { keycode, down } && keycode == event.keycode && (down <==> event.kind
            == 10)),
        injector.input(InputEvent::CursorEnter { x, y }, cursor, desktop) matches
            MacInput::Place { x: px, y: py } && px == x && py == y,
{
    keys::every_key_comes_back(event.keycode as u16);
}

/// Whether a button is held.
pub open spec fn holds(held: HeldButtons, button: MouseButton) -> bool {
    match button {
        MouseButton::Left => held.left,
        MouseButton::Right => held.right,
        MouseButton::Middle => held.middle,
        MouseButton::X1 => held.x1,
        MouseButton::X2 => held.x2,
    }
}

/// A button is held from its press to its release, and no other button's press or
/// release touches it; neither do motion, the wheel, keys or a handoff.
pub proof fn buttons_are_held_until_released(
    injector: Injector,
    event: InputEvent,
    button: MouseButton,
)
    ensures
        event matches InputEvent::MouseButton { button: b, down } ==> (b == button ==> holds(
            injector.after(event).held,
            button,
        ) == down),
        !(event matches InputEvent::MouseButton { button: b, .. } && b == button) ==> holds(
            injector.after(event).held,
            button,
        ) == holds(injector.held, button),
        injector.after(event).last == injector.last,
{
}

/// Motion is plain exactly while no button is held, and otherwise a drag of a button
/// that is held.
pub proof fn motion_drags_a_held_button(injector: Injector, button: MouseButton)
    ensures
        ({
            let kind = motion_kind(injector.held).0;
            &&& is_motion(kind)
            &&& kind == 5 ==> !holds(injector.held, button)
            &&& holds(injector.held, MouseButton::Left) <==> kind == 6
            &&& kind == 7 ==> holds(injector.held, MouseButton::Right)
            &&& kind == 27 ==> holds(injector.held, MouseButton::Middle) || holds(
                injector.held,
                MouseButton::X1,
            ) || holds(injector.held, MouseButton::X2)
        }),
{
}

/// A modifier is carried by what is posted from the press of its key to its release:
/// either key of a pair sets its own flag as the key went and leaves the others alone.
pub proof fn modifiers_are_carried_while_held(modifiers: Modifiers, keycode: u16, down: bool)
    ensures
        ({
            let before = modifiers.bits();
            let after = modifiers_after(modifiers, keycode, down).bits();
            &&& (keycode == 56 || keycode == 60) ==> ((after / 0x2_0000) % 2 == 1 <==> down)
            &&& (keycode == 59 || keycode == 62) ==> ((after / 0x4_0000) % 2 == 1 <==> down)
            &&& (keycode == 58 || keycode == 61) ==> ((after / 0x8_0000) % 2 == 1 <==> down)
            &&& (keycode == 54 || keycode == 55) ==> ((after / 0x10_0000) % 2 == 1 <==> down)
            &&& keycode != 56 && keycode != 60 ==> (after / 0x2_0000) % 2 == (before / 0x2_0000)
                % 2
            &&& keycode != 59 && keycode != 62 ==> (after / 0x4_0000) % 2 == (before / 0x4_0000)
                % 2
            &&& keycode != 58 && keycode != 61 ==> (after / 0x8_0000) % 2 == (before / 0x8_0000)
                % 2
            &&& keycode != 54 && keycode != 55 ==> (after / 0x10_0000) % 2 == (before
                / 0x10_0000) % 2
            &&& after % 0x2_0000 == 0 && after < 0x20_0000
        }),
{
}

/// Whether the right and bottom edges of a display are points.
pub open spec fn has_sound_extent(d: DisplayView) -> bool {
    &&& d.width <= i32::MAX
    &&& d.height <= i32::MAX
    &&& d.x + d.width <= i32::MAX
    &&& d.y + d.height <= i32::MAX
}

/// The desktop reaches exactly as far as the displays: it covers each of them, and each
/// of its sides is the side of one.
pub proof fn the_desktop_is_where_the_displays_are(displays: Seq<DisplayView>, i: int)
    requires
        0 <= i < displays.len(),
        forall|k: int| 0 <= k < displays.len() ==> has_sound_extent(#[trigger] displays[k]),
    ensures
        desktop_of(displays) matches Some(d) && d.min_x <= displays[i].x && d.min_y
            <= displays[i].y && displays[i].x + displays[i].width <= d.max_x && displays[i].y
            + displays[i].height <= d.max_y && (exists|k: int|
            0 <= k < displays.len() && d.min_x == #[trigger] displays[k].x) && (exists|k: int|
            0 <= k < displays.len() && d.min_y == #[trigger] displays[k].y) && (exists|k: int|
            0 <= k < displays.len() && d.max_x == #[trigger] displays[k].x + displays[k].width)
            && (exists|k: int|
            0 <= k < displays.len() && d.max_y == #[trigger] displays[k].y + displays[k].height),
    decreases displays.len(),
{
    let rest = displays.drop_last();
    let last = displays.len() - 1;
    assert(displays[last] == displays.last());
    if rest.len() > 0 {
        assert forall|k: int| 0 <= k < rest.len() implies has_sound_extent(
            #[trigger] rest[k],
        ) by {
            assert(rest[k] == displays[k]);
        }
        let j = if i < last {
            i
        } else {
            0
        };
        the_desktop_is_where_the_displays_are(rest, j);
        let d = desktop_of(rest)->0;
        let a = choose|k: int| 0 <= k < rest.len() && d.min_x == #[trigger] rest[k].x;
        let b = choose|k: int| 0 <= k < rest.len() && d.min_y == #[trigger] rest[k].y;
        let c = choose|k: int|
            0 <= k < rest.len() && d.max_x == #[trigger] rest[k].x + rest[k].width;
        let e = choose|k: int|
            0 <= k < rest.len() && d.max_y == #[trigger] rest[k].y + rest[k].height;
        assert(rest[a] == displays[a] && rest[b] == displays[b] && rest[c] == displays[c]
            && rest[e] == displays[e] && rest[j] == displays[j]);
        let all = desktop_of(displays)->0;
        assert(all.min_x == displays[a].x || all.min_x == displays[last].x);
        assert(all.min_y == displays[b].y || all.min_y == displays[last].y);
        assert(all.max_x == displays[c].x + displays[c].width || all.max_x == displays[last].x
            + displays[last].width);
        assert(all.max_y == displays[e].y + displays[e].height || all.max_y == displays[last].y
            + displays[last].height);
    } else {
        assert(desktop_of(rest) is None);
        assert(i == last);
    }
}

/// A drag names the button that it drags: the left one, the right one, or the middle one
/// for any other; plain motion names the left one. A scroll has one axis if it is
/// vertical and two if it is not, and scrolls along just one.
pub proof fn replayed_events_name_their_button_and_axes(
    injector: Injector,
    dx: i32,
    dy: i32,
    delta: i32,
    cursor: Option<(i32, i32)>,
    desktop: Option<Desktop>,
)
    requires
        delta != 0,
    ensures
        ({
            let m = injector.motion(dx, dy, cursor, desktop);
            &&& m.button == 0 <==> m.kind == 5 || m.kind == 6
            &&& m.button == 1 <==> m.kind == 7
            &&& m.button == 2 <==> m.kind == 27
        }),
        injector.input(
            InputEvent::Wheel { delta, horizontal: false },
            cursor,
            desktop,
        ) matches MacInput::Scroll(s) && s.wheel_count == 1 && s.axis2 is None && s.wheel1 != 0,
        injector.input(
            InputEvent::Wheel { delta, horizontal: true },
            cursor,
            desktop,
        ) matches MacInput::Scroll(s) && s.wheel_count == 2 && s.axis2 is Some && s.wheel1 == 0,
        injector.input(
            InputEvent::Wheel { delta: 0, horizontal: true },
            cursor,
            desktop,
        ) == MacInput::Nothing,
{
}

/// Putting the cursor somewhere leaves the mouse as it was meant to be: attached again if
/// it was, and still detached if that is on purpose, although the system lets go of it
/// for a moment either way.
pub proof fn placing_the_cursor_leaves_the_mouse_as_it_was(detached: bool)
    ensures
        ({
            let told = if is_reattached(detached) {
                Some(true)
            } else {
                None
            };
            detached_after(true, told) == detached
        }),
{
}

} // verus!
