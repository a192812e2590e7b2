//! Cursor routing across the workspace, and the offline-machine guard.
//!
//! The topology is geometric: each machine occupies a rectangle in workspace
//! coordinates, and the cursor crosses to whichever machine owns the space it
//! is heading into. The topology is part of the persisted document, so it
//! survives a machine going offline.
//!
//! Routing, however, is computed against the set of machines that are online
//! right now: keep the configured layout, but never hand the cursor to a machine
//! that cannot take it, otherwise the pointer vanishes and the user has no way to
//! get it back.

use std::collections::HashSet;

use vstd::prelude::*;

use crate::convergence;
use crate::document;
use crate::geometry::{Point, Rect};
use crate::ids::MachineId;
use crate::model::{
    DocView, MachineRecord, OfflineEdgeBehavior, OpView, RecordView, WorkspaceDoc,
};
use crate::stamp::Stamp;

verus! {

#[derive(Clone, Copy, Debug, PartialEq, Eq, Structural)]
pub enum Direction {
    Left,
    Right,
    Up,
    Down,
}

impl Direction {
    fn is_horizontal(self) -> (r: bool)
        ensures
            r == (self == Direction::Left || self == Direction::Right),
    {
        match self {
            Direction::Left | Direction::Right => true,
            Direction::Up | Direction::Down => false,
        }
    }
}

/// Where the cursor ends up.
#[derive(Clone, Copy, Debug, PartialEq, Eq, Structural)]
pub enum Resolution {
    /// The cursor stays on the machine it is already on, at this point.
    Stay(Point),
    /// The cursor hands off, entering `machine` at `point`.
    Move { machine: MachineId, point: Point },
}

/// A machine whose rectangle lies along the ray leaving the current machine.
#[derive(Clone, Copy, Debug)]
pub struct Candidate {
    pub machine: MachineId,
    pub bounds: Rect,
    /// Gap between the exit point and this machine's near edge, in pixels.
    pub distance: i64,
}

pub open spec fn abs(v: int) -> int {
    if v < 0 {
        -v
    } else {
        v
    }
}

/// Dominant axis of travel from `exit` to `target`, the horizontal one where both
/// are the same; `None` where the two are one point.
pub open spec fn heading(exit: Point, target: Point) -> Option<Direction> {
    let dx = target.x - exit.x;
    let dy = target.y - exit.y;
    if dx == 0 && dy == 0 {
        None
    } else if abs(dx) >= abs(dy) {
        Some(
            if dx > 0 {
                Direction::Right
            } else {
                Direction::Left
            },
        )
    } else {
        Some(
            if dy > 0 {
                Direction::Down
            } else {
                Direction::Up
            },
        )
    }
}

/// The gap between `exit` and a rectangle that the cursor would run into along
/// `direction`: one that lies ahead and whose perpendicular span covers the exit
/// point.
pub open spec fn gap(bounds: Rect, exit: Point, direction: Direction) -> Option<int> {
    let level = bounds.y <= exit.y < bounds.bottom();
    let plumb = bounds.x <= exit.x < bounds.right();
    match direction {
        Direction::Right => if level && bounds.x > exit.x {
            Some(bounds.x - exit.x)
        } else {
            None
        },
        Direction::Left => if level && bounds.right() <= exit.x {
            Some(exit.x - bounds.right())
        } else {
            None
        },
        Direction::Down => if plumb && bounds.y > exit.y {
            Some(bounds.y - exit.y)
        } else {
            None
        },
        Direction::Up => if plumb && bounds.bottom() <= exit.y {
            Some(exit.y - bounds.bottom())
        } else {
            None
        },
    }
}

/// A machine other than the current one, if it lies on the ray.
pub open spec fn candidate(
    record: RecordView,
    current: MachineId,
    exit: Point,
    direction: Direction,
) -> Option<Candidate> {
    match record.bounds() {
        Some(bounds) => match gap(bounds, exit, direction) {
            Some(distance) => if record.id != current {
                Some(Candidate { machine: record.id, bounds, distance: distance as i64 })
            } else {
                None
            },
            None => None,
        },
        None => None,
    }
}

/// Those of `records` that lie on the ray, in their order.
pub open spec fn on_ray(
    records: Seq<RecordView>,
    current: MachineId,
    exit: Point,
    direction: Direction,
) -> Seq<Candidate>
    decreases records.len(),
{
    if records.len() == 0 {
        Seq::empty()
    } else {
        let init = on_ray(records.drop_last(), current, exit, direction);
        match candidate(records.last(), current, exit, direction) {
            Some(c) => init.push(c),
            None => init,
        }
    }
}

/// Nearer first; the machine breaks distance ties, so that every peer resolves a
/// crossing the same way when two machines are configured at the same offset.
pub open spec fn no_farther(a: Candidate, b: Candidate) -> bool {
    a.distance < b.distance || (a.distance == b.distance && a.machine <= b.machine)
}

/// `c` put behind all candidates of an ordered list that are no farther.
pub open spec fn inserted(s: Seq<Candidate>, c: Candidate) -> Seq<Candidate>
    decreases s.len(),
{
    if s.len() == 0 || no_farther(s.last(), c) {
        s.push(c)
    } else {
        inserted(s.drop_last(), c).push(s.last())
    }
}

/// The candidates, nearest first; those alike keep their order.
pub open spec fn nearest_first(s: Seq<Candidate>) -> Seq<Candidate>
    decreases s.len(),
{
    if s.len() == 0 {
        s
    } else {
        inserted(nearest_first(s.drop_last()), s.last())
    }
}

/// Machines lying on the ray from `exit` along `direction`, nearest first.
pub open spec fn ahead(
    doc: DocView,
    current: MachineId,
    exit: Point,
    direction: Direction,
) -> Seq<Candidate> {
    nearest_first(on_ray(doc.present(), current, exit, direction))
}

/// The first candidate that is online.
pub open spec fn first_online(s: Seq<Candidate>, online: Set<MachineId>) -> Option<Candidate>
    decreases s.len(),
{
    if s.len() == 0 {
        None
    } else if online.contains(s[0].machine) {
        Some(s[0])
    } else {
        first_online(s.drop_first(), online)
    }
}

/// The candidate that gets the cursor: the nearest one if it is online, or the
/// nearest one that is online.
pub open spec fn chosen(
    candidates: Seq<Candidate>,
    online: Set<MachineId>,
    behavior: OfflineEdgeBehavior,
) -> Option<Candidate> {
    match behavior {
        OfflineEdgeBehavior::Block => if candidates.len() > 0 && online.contains(
            candidates[0].machine,
        ) {
            Some(candidates[0])
        } else {
            None
        },
        OfflineEdgeBehavior::SkipOver => first_online(candidates, online),
    }
}

/// Where the cursor appears on the machine it crosses into: just inside the near
/// edge, keeping its position along the other axis.
pub open spec fn entry(bounds: Rect, exit: Point, direction: Direction) -> Point {
    bounds.clamped(
        match direction {
            Direction::Right => Point { x: bounds.x, y: exit.y },
            Direction::Left => Point {
                x: crate::geometry::saturated(bounds.right() - 1) as i32,
                y: exit.y,
            },
            Direction::Down => Point { x: exit.x, y: bounds.y },
            Direction::Up => Point {
                x: exit.x,
                y: crate::geometry::saturated(bounds.bottom() - 1) as i32,
            },
        },
    )
}

/// Where a cursor on `current` that wants to go to `target` ends up.
pub open spec fn resolved(
    doc: DocView,
    online: Set<MachineId>,
    current: MachineId,
    target: Point,
) -> Resolution {
    match home(doc, current) {
        None => Resolution::Stay(target),
        Some(bounds) => if bounds.covers(target) {
            Resolution::Stay(target)
        } else {
            let exit = bounds.clamped(target);
            match heading(exit, target) {
                None => Resolution::Stay(exit),
                Some(direction) => match chosen(
                    ahead(doc, current, exit, direction),
                    online,
                    doc.settings.value.offline_edge,
                ) {
                    Some(c) => Resolution::Move {
                        machine: c.machine,
                        point: entry(c.bounds, exit, direction),
                    },
                    None => Resolution::Stay(exit),
                },
            }
        },
    }
}

/// The bounding box of a machine in the workspace that has reported displays.
pub open spec fn home(doc: DocView, machine: MachineId) -> Option<Rect> {
    match doc.record(machine) {
        Some(record) => record.bounds(),
        None => None,
    }
}

/// The lowest identifier among those of `records` that are online.
pub open spec fn lowest_online(records: Seq<RecordView>, online: Set<MachineId>) -> Option<MachineId>
    decreases records.len(),
{
    if records.len() == 0 {
        None
    } else {
        let init = lowest_online(records.drop_last(), online);
        let id = records.last().id;
        if online.contains(id) {
            Some(crate::ids::least(init, id))
        } else {
            init
        }
    }
}

/// The machine that holds the cursor when its owner is not available.
pub open spec fn fallback(
    doc: DocView,
    online: Set<MachineId>,
    preferred: MachineId,
) -> Option<MachineId> {
    if online.contains(preferred) && doc.record(preferred) is Some {
        Some(preferred)
    } else {
        lowest_online(doc.present(), online)
    }
}

/// Resolves a cursor move that would leave the current machine.
///
/// `target` is where the accumulated mouse motion wants to put the cursor, in
/// workspace coordinates. `online` is the set of machines with a live
/// authenticated connection; the current machine is expected to be in it.
pub fn resolve_cursor(
    doc: &WorkspaceDoc,
    online: &HashSet<MachineId>,
    current: MachineId,
    target: Point,
) -> (r: Resolution)
    ensures
        r == resolved(doc@, online@, current, target),
{
    let bounds = match doc.machine(current) {
        Some(record) => match record.bounds() {
            Some(bounds) => bounds,
            // The current machine has not reported displays, so there is no
            // geometry to route against. Leave the cursor alone.
            None => {
                return Resolution::Stay(target);
            },
        },
        None => {
            return Resolution::Stay(target);
        },
    };
    if bounds.contains(target) {
        return Resolution::Stay(target);
    }
    let exit = bounds.clamp(target);
    let direction = match direction_of(exit, target) {
        Some(direction) => direction,
        None => {
            return Resolution::Stay(exit);
        },
    };
    let candidates = candidates_along(doc, current, exit, direction);
    let choice = match doc.settings.value.offline_edge {
        // The nearest machine in that direction is offline: stop at the boundary
        // rather than sending the cursor somewhere it cannot come back from.
        OfflineEdgeBehavior::Block => {
            if candidates.len() > 0 && online.contains(&candidates[0].machine) {
                Some(candidates[0])
            } else {
                None
            }
        },
        OfflineEdgeBehavior::SkipOver => nearest_online(&candidates, online),
    };
    match choice {
        Some(c) => Resolution::Move {
            machine: c.machine,
            point: entry_point(c.bounds, exit, direction),
        },
        None => Resolution::Stay(exit),
    }
}

/// The first candidate that is online.
fn nearest_online(candidates: &Vec<Candidate>, online: &HashSet<MachineId>) -> (r: Option<
    Candidate,
>)
    ensures
        r == first_online(candidates@, online@),
{
    let mut i: usize = 0;
    assert(candidates@.skip(0) =~= candidates@);
    while i < candidates.len()
        invariant
            i <= candidates@.len(),
            first_online(candidates@, online@) == first_online(
                candidates@.skip(i as int),
                online@,
            ),
        decreases candidates@.len() - i,
    {
        assert(candidates@.skip(i as int).drop_first() =~= candidates@.skip(i + 1));
        if online.contains(&candidates[i].machine) {
            return Some(candidates[i]);
        }
        i = i + 1;
    }
    None
}

/// The machine that should hold the cursor when its current owner is not
/// available: after that machine goes offline, or on startup.
///
/// Prefers `preferred` (normally the local machine, which by definition can
/// always display a cursor) and otherwise takes the lowest-ID online machine so
/// that every peer independently picks the same one.
pub fn fallback_owner(
    doc: &WorkspaceDoc,
    online: &HashSet<MachineId>,
    preferred: MachineId,
) -> (r: Option<MachineId>)
    ensures
        r == fallback(doc@, online@, preferred),
{
    if online.contains(&preferred) && doc.machine(preferred).is_some() {
        return Some(preferred);
    }
    let present = doc.machines_present();
    let ghost records = document::records_view(present@);
    let mut lowest: Option<MachineId> = None;
    let mut i: usize = 0;
    assert(records.take(0) =~= Seq::empty());
    while i < present.len()
        invariant
            i <= present@.len(),
            records == document::records_view(present@),
            lowest == lowest_online(records.take(i as int), online@),
        decreases present@.len() - i,
    {
        assert(records.take(i + 1).drop_last() =~= records.take(i as int));
        let id: MachineId = present[i].id;
        if online.contains(&id) {
            lowest =
            match lowest {
                Some(best) if best <= id => Some(best),
                _ => Some(id),
            };
        }
        i = i + 1;
    }
    assert(records.take(i as int) =~= records);
    lowest
}

/// Dominant axis of travel out of the current machine. `None` when the target
/// is not actually outside, which the caller has already ruled out.
fn direction_of(exit: Point, target: Point) -> (r: Option<Direction>)
    ensures
        r == heading(exit, target),
{
    let dx: i64 = target.x as i64 - exit.x as i64;
    let dy: i64 = target.y as i64 - exit.y as i64;
    if dx == 0 && dy == 0 {
        return None;
    }
    let across: i64 = if dx < 0 { -dx } else { dx };
    let along: i64 = if dy < 0 { -dy } else { dy };
    if across >= along {
        Some(
            if dx > 0 {
                Direction::Right
            } else {
                Direction::Left
            },
        )
    } else {
        Some(
            if dy > 0 {
                Direction::Down
            } else {
                Direction::Up
            },
        )
    }
}

/// The candidate that a machine is, if the cursor would actually run into it: its
/// perpendicular span has to cover the exit point. A monitor stacked above the
/// one the cursor is leaving from is not on the path.
fn candidate_for(record: &MachineRecord, current: MachineId, exit: Point, direction: Direction) -> (r:
    Option<Candidate>)
    ensures
        r == candidate(record@, current, exit, direction),
{
    let bounds = match record.bounds() {
        Some(bounds) => bounds,
        None => {
            return None;
        },
    };
    if record.id == current {
        return None;
    }
    let level = exit.y >= bounds.y && exit.y < bounds.max_y();
    let plumb = exit.x >= bounds.x && exit.x < bounds.max_x();
    let distance: Option<i64> = match direction {
        Direction::Right => if level && bounds.x > exit.x {
            Some(bounds.x as i64 - exit.x as i64)
        } else {
            None
        },
        Direction::Left => if level && bounds.max_x() <= exit.x {
            Some(exit.x as i64 - bounds.max_x() as i64)
        } else {
            None
        },
        Direction::Down => if plumb && bounds.y > exit.y {
            Some(bounds.y as i64 - exit.y as i64)
        } else {
            None
        },
        Direction::Up => if plumb && bounds.max_y() <= exit.y {
            Some(exit.y as i64 - bounds.max_y() as i64)
        } else {
            None
        },
    };
    match distance {
        Some(distance) => Some(Candidate { machine: record.id, bounds, distance }),
        None => None,
    }
}

/// Where inserting lands: everything up to `at` is no farther, everything behind
/// it is.
proof fn inserted_at(s: Seq<Candidate>, c: Candidate, at: int)
    requires
        0 <= at <= s.len(),
        at > 0 ==> no_farther(s[at - 1], c),
        forall|k: int| at <= k < s.len() ==> !no_farther(#[trigger] s[k], c),
    ensures
        inserted(s, c) == s.insert(at, c),
    decreases s.len(),
{
    if s.len() == 0 || at == s.len() {
        assert(s.insert(at, c) =~= s.push(c));
    } else {
        let init = s.drop_last();
        inserted_at(init, c, at);
        assert(init.insert(at, c).push(s.last()) =~= s.insert(at, c));
    }
}

/// Machines lying on the ray from `exit` along `direction`, nearest first.
fn candidates_along(doc: &WorkspaceDoc, current: MachineId, exit: Point, direction: Direction) -> (r:
    Vec<Candidate>)
    ensures
        r@ == ahead(doc@, current, exit, direction),
{
    let present = doc.machines_present();
    let ghost records = document::records_view(present@);
    let mut found: Vec<Candidate> = Vec::new();
    let mut i: usize = 0;
    assert(records.take(0) =~= Seq::empty());
    while i < present.len()
        invariant
            i <= present@.len(),
            records == document::records_view(present@),
            found@ == nearest_first(on_ray(records.take(i as int), current, exit, direction)),
        decreases present@.len() - i,
    {
        assert(records.take(i + 1).drop_last() =~= records.take(i as int));
        if let Some(c) = candidate_for(present[i], current, exit, direction) {
            let ghost so_far = on_ray(records.take(i as int), current, exit, direction);
            let mut at: usize = found.len();
            while at > 0 && !(found[at - 1].distance < c.distance || (found[at - 1].distance
                == c.distance && found[at - 1].machine <= c.machine))
                invariant
                    at <= found@.len(),
                    forall|k: int| at <= k < found@.len() ==> !no_farther(#[trigger] found@[k], c),
                decreases at,
            {
                at = at - 1;
            }
            proof {
                inserted_at(found@, c, at as int);
                assert(so_far.push(c).drop_last() =~= so_far);
            }
            found.insert(at, c);
        }
        i = i + 1;
    }
    assert(records.take(i as int) =~= records);
    found
}

/// Where the cursor appears on the machine it crosses into: just inside the
/// near edge, keeping its position along the other axis.
fn entry_point(bounds: Rect, exit: Point, direction: Direction) -> (r: Point)
    ensures
        r == entry(bounds, exit, direction),
{
    let point = if direction.is_horizontal() {
        let x: i32 = match direction {
            Direction::Right => bounds.x,
            _ => crate::geometry::saturate(bounds.max_x() as i64 - 1),
        };
        Point::new(x, exit.y)
    } else {
        let y: i32 = match direction {
            Direction::Down => bounds.y,
            _ => crate::geometry::saturate(bounds.max_y() as i64 - 1),
        };
        Point::new(exit.x, y)
    };
    bounds.clamp(point)
}

/// Whatever is on the ray comes from a machine in the workspace other than the
/// current one.
proof fn on_ray_members(
    records: Seq<RecordView>,
    current: MachineId,
    exit: Point,
    direction: Direction,
)
    ensures
        forall|k: int|
            0 <= k < on_ray(records, current, exit, direction).len() ==> is_candidate(
                records,
                current,
                exit,
                direction,
                #[trigger] on_ray(records, current, exit, direction)[k],
            ),
        forall|j: int|
            0 <= j < records.len() && candidate(
                #[trigger] records[j],
                current,
                exit,
                direction,
            ) is Some ==> on_ray(records, current, exit, direction).contains(
                candidate(records[j], current, exit, direction)->0,
            ),
    decreases records.len(),
{
    if records.len() > 0 {
        let init = records.drop_last();
        on_ray_members(init, current, exit, direction);
        let found = on_ray(records, current, exit, direction);
        let before = on_ray(init, current, exit, direction);
        assert forall|k: int| 0 <= k < found.len() implies is_candidate(
            records,
            current,
            exit,
            direction,
            #[trigger] found[k],
        ) by {
            if k < before.len() {
                assert(before[k] == found[k]);
                let j = choose|j: int|
                    0 <= j < init.len() && candidate(
                        #[trigger] init[j],
                        current,
                        exit,
                        direction,
                    ) == Some(before[k]);
                assert(records[j] == init[j]);
            } else {
                assert(records[records.len() - 1] == records.last());
            }
        }
        assert forall|j: int|
            0 <= j < records.len() && candidate(
                #[trigger] records[j],
                current,
                exit,
                direction,
            ) is Some implies found.contains(candidate(records[j], current, exit, direction)->0) by {
            let c = candidate(records[j], current, exit, direction)->0;
            if j < init.len() {
                assert(init[j] == records[j]);
                assert(before.contains(c));
                let k = choose|k: int| 0 <= k < before.len() && before[k] == c;
                assert(found[k] == c);
            } else {
                assert(found[found.len() - 1] == c);
            }
        }
    }
}

/// Whether `c` is what one of `records` amounts to on the ray.
pub open spec fn is_candidate(
    records: Seq<RecordView>,
    current: MachineId,
    exit: Point,
    direction: Direction,
    c: Candidate,
) -> bool {
    exists|j: int|
        0 <= j < records.len() && candidate(#[trigger] records[j], current, exit, direction)
            == Some(c)
}

/// Ordering the candidates neither adds one nor drops one.
proof fn inserted_members(s: Seq<Candidate>, c: Candidate)
    ensures
        forall|x: Candidate| #[trigger]
            inserted(s, c).contains(x) <==> s.contains(x) || x == c,
    decreases s.len(),
{
    if s.len() == 0 || no_farther(s.last(), c) {
        assert forall|x: Candidate| #[trigger]
            s.push(c).contains(x) <==> s.contains(x) || x == c by {
            if s.contains(x) {
                let k = choose|k: int| 0 <= k < s.len() && s[k] == x;
                assert(s.push(c)[k] == x);
            }
            if x == c {
                assert(s.push(c)[s.len() as int] == x);
            }
        }
    } else {
        let init = s.drop_last();
        inserted_members(init, c);
        let t = inserted(init, c);
        assert forall|x: Candidate| #[trigger]
            t.push(s.last()).contains(x) <==> s.contains(x) || x == c by {
            if t.push(s.last()).contains(x) {
                let k = choose|k: int| 0 <= k < t.len() + 1 && t.push(s.last())[k] == x;
                if k < t.len() {
                    assert(t[k] == x);
                    assert(t.contains(x));
                    if init.contains(x) {
                        let j = choose|j: int| 0 <= j < init.len() && init[j] == x;
                        assert(s[j] == x);
                    }
                } else {
                    assert(s[s.len() - 1] == x);
                }
            }
            if s.contains(x) {
                let j = choose|j: int| 0 <= j < s.len() && s[j] == x;
                if j < init.len() {
                    assert(init[j] == x);
                    assert(t.contains(x));
                    let k = choose|k: int| 0 <= k < t.len() && t[k] == x;
                    assert(t.push(s.last())[k] == x);
                } else {
                    assert(t.push(s.last())[t.len() as int] == x);
                }
            }
            if x == c {
                assert(t.contains(x));
                let k = choose|k: int| 0 <= k < t.len() && t[k] == x;
                assert(t.push(s.last())[k] == x);
            }
        }
    }
}

/// Whether a list of candidates goes from near to far.
pub open spec fn is_ordered(s: Seq<Candidate>) -> bool {
    forall|i: int, j: int| 0 <= i < j < s.len() ==> no_farther(#[trigger] s[i], #[trigger] s[j])
}

proof fn inserted_keeps_order(s: Seq<Candidate>, c: Candidate)
    requires
        is_ordered(s),
    ensures
        is_ordered(inserted(s, c)),
    decreases s.len(),
{
    if s.len() == 0 || no_farther(s.last(), c) {
        let t = s.push(c);
        assert forall|i: int, j: int| 0 <= i < j < t.len() implies no_farther(
            #[trigger] t[i],
            #[trigger] t[j],
        ) by {
            if j == s.len() {
                if i < s.len() - 1 {
                    assert(no_farther(s[i], s[s.len() - 1]));
                }
            }
        }
    } else {
        let init = s.drop_last();
        inserted_keeps_order(init, c);
        inserted_members(init, c);
        let u = inserted(init, c);
        let t = u.push(s.last());
        assert forall|i: int, j: int| 0 <= i < j < t.len() implies no_farther(
            #[trigger] t[i],
            #[trigger] t[j],
        ) by {
            if j == u.len() {
                assert(u.contains(u[i]));
                if init.contains(u[i]) {
                    let k = choose|k: int| 0 <= k < init.len() && init[k] == u[i];
                    assert(no_farther(s[k], s[s.len() - 1]));
                }
            }
        }
    }
}

proof fn nearest_first_is_sound(s: Seq<Candidate>)
    ensures
        is_ordered(nearest_first(s)),
        forall|x: Candidate| #[trigger] nearest_first(s).contains(x) <==> s.contains(x),
    decreases s.len(),
{
    if s.len() > 0 {
        let init = s.drop_last();
        nearest_first_is_sound(init);
        inserted_keeps_order(nearest_first(init), s.last());
        inserted_members(nearest_first(init), s.last());
        assert forall|x: Candidate| #[trigger]
            nearest_first(s).contains(x) <==> s.contains(x) by {
            if init.contains(x) {
                let k = choose|k: int| 0 <= k < init.len() && init[k] == x;
                assert(s[k] == x);
            }
            if s.contains(x) {
                let k = choose|k: int| 0 <= k < s.len() && s[k] == x;
                if k < init.len() {
                    assert(init[k] == x);
                }
            }
            if x == s.last() {
                assert(s[s.len() - 1] == x);
            }
        }
    }
}

/// The candidates ahead are exactly the machines on the ray, and they go from
/// near to far.
pub proof fn ahead_is_ordered_and_complete(
    doc: DocView,
    current: MachineId,
    exit: Point,
    direction: Direction,
)
    ensures
        is_ordered(ahead(doc, current, exit, direction)),
        forall|c: Candidate| #[trigger]
            ahead(doc, current, exit, direction).contains(c) <==> is_candidate(
                doc.present(),
                current,
                exit,
                direction,
                c,
            ),
{
    let found = on_ray(doc.present(), current, exit, direction);
    on_ray_members(doc.present(), current, exit, direction);
    nearest_first_is_sound(found);
    assert forall|c: Candidate| #[trigger]
        ahead(doc, current, exit, direction).contains(c) <==> is_candidate(
            doc.present(),
            current,
            exit,
            direction,
            c,
        ) by {
        if found.contains(c) {
            let k = choose|k: int| 0 <= k < found.len() && found[k] == c;
            assert(is_candidate(doc.present(), current, exit, direction, found[k]));
        }
    }
}

proof fn first_online_is_sound(s: Seq<Candidate>, online: Set<MachineId>)
    ensures
        first_online(s, online) matches Some(c) ==> s.contains(c) && online.contains(c.machine),
        first_online(s, online) is None ==> forall|k: int|
            0 <= k < s.len() ==> !online.contains((#[trigger] s[k]).machine),
        is_ordered(s) && first_online(s, online) is Some ==> forall|k: int|
            0 <= k < s.len() && online.contains((#[trigger] s[k]).machine) ==> no_farther(
                first_online(s, online)->0,
                s[k],
            ),
    decreases s.len(),
{
    if s.len() > 0 {
        let rest = s.drop_first();
        first_online_is_sound(rest, online);
        if online.contains(s[0].machine) {
            assert(s.contains(s[0]));
        } else {
            if let Some(c) = first_online(rest, online) {
                let k = choose|k: int| 0 <= k < rest.len() && rest[k] == c;
                assert(s[k + 1] == c);
            }
            assert forall|k: int| 0 <= k < s.len() && first_online(s, online) is None implies
            !online.contains((#[trigger] s[k]).machine) by {
                if k > 0 {
                    assert(rest[k - 1] == s[k]);
                }
            }
            if is_ordered(s) && first_online(s, online) is Some {
                assert(is_ordered(rest)) by {
                    assert forall|i: int, j: int| 0 <= i < j < rest.len() implies no_farther(
                        #[trigger] rest[i],
                        #[trigger] rest[j],
                    ) by {
                        assert(no_farther(s[i + 1], s[j + 1]));
                    }
                }
                assert forall|k: int|
                    0 <= k < s.len() && online.contains((#[trigger] s[k]).machine) implies no_farther(
                    first_online(s, online)->0,
                    s[k],
                ) by {
                    if k > 0 {
                        assert(rest[k - 1] == s[k]);
                    }
                }
            }
        }
    }
}

/// The cursor is never handed to a machine that is offline, nor to the machine it
/// is on, and it lands inside the machine that gets it.
pub proof fn cursor_only_moves_to_online_machines(
    doc: DocView,
    online: Set<MachineId>,
    current: MachineId,
    target: Point,
)
    ensures
        resolved(doc, online, current, target) matches Resolution::Move { machine, point } ==> {
            &&& online.contains(machine)
            &&& machine != current
            &&& exists|k: int|
                0 <= k < doc.present().len() && (#[trigger] doc.present()[k]).id == machine
                    && doc.present()[k].bounds() is Some && ((
                doc.present()[k].bounds()->0).has_area() ==> (
                doc.present()[k].bounds()->0).covers(point))
        },
{
    if let Resolution::Move { machine, point } = resolved(doc, online, current, target) {
        let bounds = home(doc, current)->0;
        let exit = bounds.clamped(target);
        let direction = heading(exit, target)->0;
        let candidates = ahead(doc, current, exit, direction);
        ahead_is_ordered_and_complete(doc, current, exit, direction);
        first_online_is_sound(candidates, online);
        let c = chosen(candidates, online, doc.settings.value.offline_edge)->0;
        assert(candidates.contains(c));
        let k = choose|k: int|
            0 <= k < doc.present().len() && candidate(
                #[trigger] doc.present()[k],
                current,
                exit,
                direction,
            ) == Some(c);
        assert(doc.present()[k].id == machine && doc.present()[k].bounds() == Some(c.bounds));
    }
}

/// A cursor that stays, stays on screen: at its target where that is inside, and
/// at the nearest point of its own machine otherwise.
pub proof fn cursor_that_stays_stays_on_screen(
    doc: DocView,
    online: Set<MachineId>,
    current: MachineId,
    target: Point,
)
    requires
        home(doc, current) is Some,
        (home(doc, current)->0).has_area(),
    ensures
        resolved(doc, online, current, target) matches Resolution::Stay(p) ==> {
            &&& (home(doc, current)->0).covers(p)
            &&& p == (home(doc, current)->0).clamped(target)
        },
{
}

/// With blocking edges the nearest machine ahead decides: the cursor goes there if
/// it is online, and stops at the boundary if it is not.
pub proof fn blocking_stops_at_an_offline_neighbour(
    doc: DocView,
    online: Set<MachineId>,
    current: MachineId,
    target: Point,
)
    requires
        doc.settings.value.offline_edge == OfflineEdgeBehavior::Block,
        home(doc, current) is Some,
        !(home(doc, current)->0).covers(target),
        heading((home(doc, current)->0).clamped(target), target) is Some,
    ensures
        ({
            let exit = (home(doc, current)->0).clamped(target);
            let direction = heading(exit, target)->0;
            let candidates = ahead(doc, current, exit, direction);
            resolved(doc, online, current, target) == if candidates.len() > 0 && online.contains(
                candidates[0].machine,
            ) {
                Resolution::Move {
                    machine: candidates[0].machine,
                    point: entry(candidates[0].bounds, exit, direction),
                }
            } else {
                Resolution::Stay(exit)
            }
        }),
{
}

/// With skipping edges the cursor goes to the nearest machine ahead that is
/// online, and stays only where none is.
pub proof fn skipping_finds_the_nearest_online_machine(
    doc: DocView,
    online: Set<MachineId>,
    current: MachineId,
    target: Point,
    c: Candidate,
)
    requires
        doc.settings.value.offline_edge == OfflineEdgeBehavior::SkipOver,
        home(doc, current) is Some,
        !(home(doc, current)->0).covers(target),
        heading((home(doc, current)->0).clamped(target), target) is Some,
        online.contains(c.machine),
        ahead(
            doc,
            current,
            (home(doc, current)->0).clamped(target),
            heading((home(doc, current)->0).clamped(target), target)->0,
        ).contains(c),
    ensures
        ({
            let exit = (home(doc, current)->0).clamped(target);
            let direction = heading(exit, target)->0;
            exists|nearest: Candidate|
                {
                    &&& #[trigger] ahead(doc, current, exit, direction).contains(nearest)
                    &&& online.contains(nearest.machine)
                    &&& no_farther(nearest, c)
                    &&& resolved(doc, online, current, target) == Resolution::Move {
                        machine: nearest.machine,
                        point: entry(nearest.bounds, exit, direction),
                    }
                }
        }),
{
    let exit = (home(doc, current)->0).clamped(target);
    let direction = heading(exit, target)->0;
    let candidates = ahead(doc, current, exit, direction);
    ahead_is_ordered_and_complete(doc, current, exit, direction);
    first_online_is_sound(candidates, online);
    let k = choose|k: int| 0 <= k < candidates.len() && candidates[k] == c;
    assert(online.contains(candidates[k].machine));
    let nearest = first_online(candidates, online)->0;
    assert(candidates.contains(nearest));
}

proof fn first_online_without(s: Seq<Candidate>, online: Set<MachineId>, other: MachineId)
    requires
        first_online(s, online) matches Some(c) ==> c.machine != other,
    ensures
        first_online(s, online.remove(other)) == first_online(s, online),
    decreases s.len(),
{
    if s.len() > 0 && !online.contains(s[0].machine) {
        first_online_without(s.drop_first(), online, other);
    }
}

/// A machine that is switched off disturbs no crossing but those into it: the
/// cursor goes on moving between the others as before.
pub proof fn other_machines_do_not_matter(
    doc: DocView,
    online: Set<MachineId>,
    current: MachineId,
    target: Point,
    other: MachineId,
)
    requires
        resolved(doc, online, current, target) matches Resolution::Move { machine, point }
            ==> machine != other,
    ensures
        resolved(doc, online.remove(other), current, target) == resolved(
            doc,
            online,
            current,
            target,
        ),
{
    if home(doc, current) is Some {
        let exit = (home(doc, current)->0).clamped(target);
        if heading(exit, target) is Some && !(home(doc, current)->0).covers(target)
            && doc.settings.value.offline_edge == OfflineEdgeBehavior::SkipOver {
            let direction = heading(exit, target)->0;
            first_online_without(ahead(doc, current, exit, direction), online, other);
        }
    }
}

/// A machine that goes away and comes back gets its old routes back, with nothing
/// set up anew.
pub proof fn a_returning_machine_restores_its_routes(
    doc: DocView,
    online: Set<MachineId>,
    current: MachineId,
    target: Point,
    machine: MachineId,
)
    requires
        online.contains(machine),
    ensures
        resolved(doc, online.remove(machine).insert(machine), current, target) == resolved(
            doc,
            online,
            current,
            target,
        ),
{
    assert(online.remove(machine).insert(machine) =~= online);
}

/// Whatever is on the ray but the removed machine is still on it.
proof fn candidates_survive_a_removal(
    doc: DocView,
    after: DocView,
    removed: MachineId,
    current: MachineId,
    exit: Point,
    direction: Direction,
    c: Candidate,
)
    requires
        doc.well_formed(),
        after.well_formed(),
        forall|id: MachineId| id != removed ==> #[trigger] after.record(id) == doc.record(id),
        is_candidate(doc.present(), current, exit, direction, c),
        c.machine != removed,
    ensures
        is_candidate(after.present(), current, exit, direction, c),
        doc.record(c.machine) is Some,
        (doc.record(c.machine)->0).bounds() == Some(c.bounds),
{
    convergence::the_members_are_listed(doc);
    convergence::the_members_are_listed(after);
    let j = choose|j: int|
        0 <= j < doc.present().len() && candidate(
            #[trigger] doc.present()[j],
            current,
            exit,
            direction,
        ) == Some(c);
    let r = doc.present()[j];
    assert(doc.record(r.id) == Some(r));
    assert(after.record(r.id) == Some(r));
    assert(after.present().contains(r));
    let k = choose|k: int| 0 <= k < after.present().len() && after.present()[k] == r;
    assert(candidate(after.present()[k], current, exit, direction) == Some(c));
}

/// With skipping edges a machine that is offline plays no part in routing: the
/// cursor goes where it would go if that machine had been removed.
pub proof fn skipping_treats_offline_machines_as_absent(
    doc: DocView,
    online: Set<MachineId>,
    current: MachineId,
    target: Point,
    offline: MachineId,
    stamp: Stamp,
)
    requires
        doc.well_formed(),
        doc.settings.value.offline_edge == OfflineEdgeBehavior::SkipOver,
        !online.contains(offline),
        offline != current,
        stamp.lamport == doc.lamport + 1,
    ensures
        resolved(doc, online, current, target) == resolved(
            doc.edited(stamp, OpView::RemoveMachine(offline)),
            online,
            current,
            target,
        ),
{
    let after = doc.edited(stamp, OpView::RemoveMachine(offline));
    convergence::edit_keeps_well_formed(doc, stamp, OpView::RemoveMachine(offline));
    assert(home(after, current) == home(doc, current));
    if home(doc, current) is Some && !(home(doc, current)->0).covers(target) {
        let exit = (home(doc, current)->0).clamped(target);
        if heading(exit, target) is Some {
            let direction = heading(exit, target)->0;
            let whole = ahead(doc, current, exit, direction);
            let rest = ahead(after, current, exit, direction);
            ahead_is_ordered_and_complete(doc, current, exit, direction);
            ahead_is_ordered_and_complete(after, current, exit, direction);
            first_online_is_sound(whole, online);
            first_online_is_sound(rest, online);
            if let Some(c) = first_online(whole, online) {
                candidates_survive_a_removal(doc, after, offline, current, exit, direction, c);
                assert(rest.contains(c));
                let k = choose|k: int| 0 <= k < rest.len() && rest[k] == c;
                assert(online.contains(rest[k].machine));
            }
            if let Some(c) = first_online(rest, online) {
                candidates_survive_a_removal(after, doc, offline, current, exit, direction, c);
                assert(whole.contains(c));
                let k = choose|k: int| 0 <= k < whole.len() && whole[k] == c;
                assert(online.contains(whole[k].machine));
            }
            assert(first_online(whole, online) == first_online(rest, online));
        }
    }
}

/// Whether a push towards `target` leaves a machine with the bounds `b` at the point
/// `exit`, going in `direction`: `exit` is the nearest point of the machine, and the
/// push goes farther that way than sideways, sideways being up and down where it goes
/// as far both ways.
pub open spec fn leaves(b: Rect, target: Point, exit: Point, direction: Direction) -> bool {
    &&& b.x <= exit.x < b.right()
    &&& b.y <= exit.y < b.bottom()
    &&& target.x < b.x ==> exit.x == b.x
    &&& b.x <= target.x < b.right() ==> exit.x == target.x
    &&& b.right() <= target.x ==> exit.x == b.right() - 1
    &&& target.y < b.y ==> exit.y == b.y
    &&& b.y <= target.y < b.bottom() ==> exit.y == target.y
    &&& b.bottom() <= target.y ==> exit.y == b.bottom() - 1
    &&& match direction {
        Direction::Right => {
            &&& b.right() <= target.x
            &&& target.x - exit.x >= target.y - exit.y
            &&& target.x - exit.x >= exit.y - target.y
        },
        Direction::Left => {
            &&& target.x < b.x
            &&& exit.x - target.x >= target.y - exit.y
            &&& exit.x - target.x >= exit.y - target.y
        },
        Direction::Down => {
            &&& b.bottom() <= target.y
            &&& target.y - exit.y > target.x - exit.x
            &&& target.y - exit.y > exit.x - target.x
        },
        Direction::Up => {
            &&& target.y < b.y
            &&& exit.y - target.y > target.x - exit.x
            &&& exit.y - target.y > exit.x - target.x
        },
    }
}

/// Whether a machine with the bounds `r` stands in the way of a cursor that leaves
/// another one at `exit`: it lies wholly beyond that point in the direction of travel,
/// and reaches across the line of travel.
pub open spec fn stands_in_the_way(r: Rect, exit: Point, direction: Direction) -> bool {
    match direction {
        Direction::Right => exit.x < r.x && r.y <= exit.y < r.bottom(),
        Direction::Left => r.right() <= exit.x && r.y <= exit.y < r.bottom(),
        Direction::Down => exit.y < r.y && r.x <= exit.x < r.right(),
        Direction::Up => r.bottom() <= exit.y && r.x <= exit.x < r.right(),
    }
}

/// Whether a cursor that goes in `direction` meets the machine `a` with the bounds `r`
/// before the machine `b` with the bounds `s`, the lower identifier coming first where
/// both begin at the same place.
pub open spec fn is_met_first(
    direction: Direction,
    a: MachineId,
    r: Rect,
    b: MachineId,
    s: Rect,
) -> bool {
    match direction {
        Direction::Right => r.x < s.x || (r.x == s.x && a < b),
        Direction::Left => s.right() < r.right() || (s.right() == r.right() && a < b),
        Direction::Down => r.y < s.y || (r.y == s.y && a < b),
        Direction::Up => s.bottom() < r.bottom() || (s.bottom() == r.bottom() && a < b),
    }
}

/// Whether the machine `id` of a workspace is one with the bounds `r` that stands in
/// the way of a cursor that leaves `current`.
pub open spec fn is_in_the_way(
    doc: DocView,
    current: MachineId,
    exit: Point,
    direction: Direction,
    id: MachineId,
    r: Rect,
) -> bool {
    &&& id != current
    &&& doc.record(id) is Some
    &&& (doc.record(id)->0).bounds() == Some(r)
    &&& stands_in_the_way(r, exit, direction)
}

proof fn leaving_is_heading(b: Rect, target: Point, exit: Point, direction: Direction)
    requires
        leaves(b, target, exit, direction),
    ensures
        !b.covers(target),
        b.clamped(target) == exit,
        heading(exit, target) == Some(direction),
{
}

proof fn candidates_stand_in_the_way(
    doc: DocView,
    current: MachineId,
    exit: Point,
    direction: Direction,
)
    requires
        doc.well_formed(),
    ensures
        forall|c: Candidate| #[trigger]
            ahead(doc, current, exit, direction).contains(c) ==> is_in_the_way(
                doc,
                current,
                exit,
                direction,
                c.machine,
                c.bounds,
            ) && gap(c.bounds, exit, direction) == Some(c.distance as int),
        forall|id: MachineId, r: Rect| #[trigger]
            is_in_the_way(doc, current, exit, direction, id, r) ==> ahead(
                doc,
                current,
                exit,
                direction,
            ).contains(
                Candidate {
                    machine: id,
                    bounds: r,
                    distance: (gap(r, exit, direction)->0) as i64,
                },
            ),
{
    ahead_is_ordered_and_complete(doc, current, exit, direction);
    convergence::the_members_are_listed(doc);
    assert forall|c: Candidate| #[trigger]
        ahead(doc, current, exit, direction).contains(c) implies is_in_the_way(
        doc,
        current,
        exit,
        direction,
        c.machine,
        c.bounds,
    ) && gap(c.bounds, exit, direction) == Some(c.distance as int) by {
        let j = choose|j: int|
            0 <= j < doc.present().len() && candidate(
                #[trigger] doc.present()[j],
                current,
                exit,
                direction,
            ) == Some(c);
        assert(doc.record(doc.present()[j].id) == Some(doc.present()[j]));
    }
    assert forall|id: MachineId, r: Rect| #[trigger]
        is_in_the_way(doc, current, exit, direction, id, r) implies ahead(
        doc,
        current,
        exit,
        direction,
    ).contains(
        Candidate { machine: id, bounds: r, distance: (gap(r, exit, direction)->0) as i64 },
    ) by {
        let record = doc.record(id)->0;
        assert(doc.present().contains(record));
        let j = choose|j: int| 0 <= j < doc.present().len() && doc.present()[j] == record;
        assert(doc.machines.contains_key(id));
        assert(record.id == id);
        let c = Candidate { machine: id, bounds: r, distance: (gap(r, exit, direction)->0) as i64 };
        assert(candidate(doc.present()[j], current, exit, direction) == Some(c));
        assert(is_candidate(doc.present(), current, exit, direction, c));
    }
}

/// The cursor enters the machine that it meets: pushed off an edge, it goes to the
/// first machine that stands in its way if that one is online, whatever the direction.
/// Machines that are offline count as well, unless edges skip them. It lands on the
/// near edge of that machine, at the height or in the column where it left.
pub proof fn the_first_machine_in_the_way_is_entered(
    doc: DocView,
    online: Set<MachineId>,
    current: MachineId,
    target: Point,
    exit: Point,
    direction: Direction,
    id: MachineId,
    r: Rect,
)
    requires
        doc.well_formed(),
        doc.record(current) is Some,
        (doc.record(current)->0).bounds() is Some,
        leaves((doc.record(current)->0).bounds()->0, target, exit, direction),
        is_in_the_way(doc, current, exit, direction, id, r),
        online.contains(id),
        r.x < r.right(),
        r.y < r.bottom(),
        forall|other: MachineId, s: Rect|
            other != id && #[trigger] is_in_the_way(doc, current, exit, direction, other, s) && (
            online.contains(other) || doc.settings.value.offline_edge
                == OfflineEdgeBehavior::Block) ==> is_met_first(direction, id, r, other, s),
    ensures
        resolved(doc, online, current, target) == (Resolution::Move {
            machine: id,
            point: match direction {
                Direction::Right => Point { x: r.x, y: exit.y },
                Direction::Left => Point { x: (r.right() - 1) as i32, y: exit.y },
                Direction::Down => Point { x: exit.x, y: r.y },
                Direction::Up => Point { x: exit.x, y: (r.bottom() - 1) as i32 },
            },
        }),
{
    leaving_is_heading((doc.record(current)->0).bounds()->0, target, exit, direction);
    let candidates = ahead(doc, current, exit, direction);
    ahead_is_ordered_and_complete(doc, current, exit, direction);
    candidates_stand_in_the_way(doc, current, exit, direction);
    let mine = Candidate {
        machine: id,
        bounds: r,
        distance: (gap(r, exit, direction)->0) as i64,
    };
    assert(candidates.contains(mine));
    let k = choose|k: int| 0 <= k < candidates.len() && candidates[k] == mine;
    match doc.settings.value.offline_edge {
        OfflineEdgeBehavior::Block => {
            let first = candidates[0];
            assert(candidates.contains(first));
            assert(is_in_the_way(doc, current, exit, direction, first.machine, first.bounds));
            if first.machine != id {
                assert(is_met_first(direction, id, r, first.machine, first.bounds));
                assert(k != 0);
                assert(no_farther(candidates[0], candidates[k]));
                assert(false);
            }
            assert(first == mine);
        },
        OfflineEdgeBehavior::SkipOver => {
            first_online_is_sound(candidates, online);
            assert(online.contains(candidates[k].machine));
            let first = first_online(candidates, online)->0;
            assert(candidates.contains(first));
            assert(is_in_the_way(doc, current, exit, direction, first.machine, first.bounds));
            if first.machine != id {
                assert(is_met_first(direction, id, r, first.machine, first.bounds));
                assert(no_farther(first, candidates[k]));
                assert(false);
            }
            assert(first == mine);
        },
    }
}

/// The cursor stops at the edge where it has nowhere to go: nobody stands in its way
/// that it could be handed to.
pub proof fn nobody_in_the_way_stops_the_cursor(
    doc: DocView,
    online: Set<MachineId>,
    current: MachineId,
    target: Point,
    exit: Point,
    direction: Direction,
)
    requires
        doc.well_formed(),
        doc.record(current) is Some,
        (doc.record(current)->0).bounds() is Some,
        leaves((doc.record(current)->0).bounds()->0, target, exit, direction),
        forall|other: MachineId, s: Rect| #[trigger]
            is_in_the_way(doc, current, exit, direction, other, s) ==> !online.contains(other),
    ensures
        resolved(doc, online, current, target) == Resolution::Stay(exit),
{
    leaving_is_heading((doc.record(current)->0).bounds()->0, target, exit, direction);
    let candidates = ahead(doc, current, exit, direction);
    candidates_stand_in_the_way(doc, current, exit, direction);
    first_online_is_sound(candidates, online);
    if candidates.len() > 0 {
        assert(candidates.contains(candidates[0]));
        assert(is_in_the_way(
            doc,
            current,
            exit,
            direction,
            candidates[0].machine,
            candidates[0].bounds,
        ));
    }
    if let Some(c) = first_online(candidates, online) {
        assert(candidates.contains(c));
        assert(is_in_the_way(doc, current, exit, direction, c.machine, c.bounds));
    }
}

/// With blocking edges a machine that is offline and met first stops the cursor at the
/// edge, whoever stands behind it.
pub proof fn an_offline_machine_met_first_stops_the_cursor(
    doc: DocView,
    online: Set<MachineId>,
    current: MachineId,
    target: Point,
    exit: Point,
    direction: Direction,
    id: MachineId,
    r: Rect,
)
    requires
        doc.well_formed(),
        doc.settings.value.offline_edge == OfflineEdgeBehavior::Block,
        doc.record(current) is Some,
        (doc.record(current)->0).bounds() is Some,
        leaves((doc.record(current)->0).bounds()->0, target, exit, direction),
        is_in_the_way(doc, current, exit, direction, id, r),
        !online.contains(id),
        forall|other: MachineId, s: Rect|
            other != id && #[trigger] is_in_the_way(doc, current, exit, direction, other, s)
                ==> is_met_first(direction, id, r, other, s),
    ensures
        resolved(doc, online, current, target) == Resolution::Stay(exit),
{
    leaving_is_heading((doc.record(current)->0).bounds()->0, target, exit, direction);
    let candidates = ahead(doc, current, exit, direction);
    ahead_is_ordered_and_complete(doc, current, exit, direction);
    candidates_stand_in_the_way(doc, current, exit, direction);
    let mine = Candidate {
        machine: id,
        bounds: r,
        distance: (gap(r, exit, direction)->0) as i64,
    };
    assert(candidates.contains(mine));
    let k = choose|k: int| 0 <= k < candidates.len() && candidates[k] == mine;
    let first = candidates[0];
    assert(candidates.contains(first));
    assert(is_in_the_way(doc, current, exit, direction, first.machine, first.bounds));
    if first.machine != id {
        assert(is_met_first(direction, id, r, first.machine, first.bounds));
        assert(no_farther(candidates[0], candidates[k]));
        assert(false);
    }
}

/// Two machines on top of each other, edge to edge, can be crossed both ways: a push
/// off the bottom of the upper one lands in the top row of the lower one, and a push
/// off the top of the lower one in the bottom row of the upper one, in the same column.
pub proof fn stacked_machines_are_crossed_both_ways(
    doc: DocView,
    online: Set<MachineId>,
    upper: MachineId,
    lower: MachineId,
    u: Rect,
    l: Rect,
    x: i32,
    down: i32,
    up: i32,
)
    requires
        doc.well_formed(),
        upper != lower,
        doc.record(upper) is Some,
        doc.record(lower) is Some,
        (doc.record(upper)->0).bounds() == Some(u),
        (doc.record(lower)->0).bounds() == Some(l),
        forall|id: MachineId|
            id != upper && id != lower ==> (#[trigger] doc.record(id)) is None,
        online.contains(upper),
        online.contains(lower),
        u.y < u.bottom(),
        l.y < l.bottom(),
        u.bottom() == l.y,
        u.x <= x < u.right(),
        l.x <= x < l.right(),
        u.bottom() <= down,
        up < l.y,
    ensures
        resolved(doc, online, upper, Point { x, y: down }) == (Resolution::Move {
            machine: lower,
            point: Point { x, y: l.y },
        }),
        resolved(doc, online, lower, Point { x, y: up }) == (Resolution::Move {
            machine: upper,
            point: Point { x, y: (u.bottom() - 1) as i32 },
        }),
{
    let bottom = Point { x, y: (u.bottom() - 1) as i32 };
    let top = Point { x, y: l.y };
    assert(is_in_the_way(doc, upper, bottom, Direction::Down, lower, l));
    assert(is_in_the_way(doc, lower, top, Direction::Up, upper, u));
    the_first_machine_in_the_way_is_entered(
        doc,
        online,
        upper,
        Point { x, y: down },
        bottom,
        Direction::Down,
        lower,
        l,
    );
    the_first_machine_in_the_way_is_entered(
        doc,
        online,
        lower,
        Point { x, y: up },
        top,
        Direction::Up,
        upper,
        u,
    );
}

/// Two machines side by side, edge to edge, can be crossed both ways as well.
pub proof fn machines_side_by_side_are_crossed_both_ways(
    doc: DocView,
    online: Set<MachineId>,
    left: MachineId,
    right: MachineId,
    l: Rect,
    r: Rect,
    y: i32,
    rightwards: i32,
    leftwards: i32,
)
    requires
        doc.well_formed(),
        left != right,
        doc.record(left) is Some,
        doc.record(right) is Some,
        (doc.record(left)->0).bounds() == Some(l),
        (doc.record(right)->0).bounds() == Some(r),
        forall|id: MachineId| id != left && id != right ==> (#[trigger] doc.record(id)) is None,
        online.contains(left),
        online.contains(right),
        l.x < l.right(),
        r.x < r.right(),
        l.right() == r.x,
        l.y <= y < l.bottom(),
        r.y <= y < r.bottom(),
        l.right() <= rightwards,
        leftwards < r.x,
    ensures
        resolved(doc, online, left, Point { x: rightwards, y }) == (Resolution::Move {
            machine: right,
            point: Point { x: r.x, y },
        }),
        resolved(doc, online, right, Point { x: leftwards, y }) == (Resolution::Move {
            machine: left,
            point: Point { x: (l.right() - 1) as i32, y },
        }),
{
    let out = Point { x: (l.right() - 1) as i32, y };
    let back = Point { x: r.x, y };
    assert(is_in_the_way(doc, left, out, Direction::Right, right, r));
    assert(is_in_the_way(doc, right, back, Direction::Left, left, l));
    the_first_machine_in_the_way_is_entered(
        doc,
        online,
        left,
        Point { x: rightwards, y },
        out,
        Direction::Right,
        right,
        r,
    );
    the_first_machine_in_the_way_is_entered(
        doc,
        online,
        right,
        Point { x: leftwards, y },
        back,
        Direction::Left,
        left,
        l,
    );
}

proof fn lowest_online_is_sound(records: Seq<RecordView>, online: Set<MachineId>)
    ensures
        lowest_online(records, online) matches Some(id) ==> online.contains(id) && exists|k: int|
            0 <= k < records.len() && (#[trigger] records[k]).id == id,
        forall|k: int|
            0 <= k < records.len() && online.contains((#[trigger] records[k]).id) ==> lowest_online(
                records,
                online,
            ) is Some && lowest_online(records, online)->0 <= records[k].id,
    decreases records.len(),
{
    if records.len() > 0 {
        let init = records.drop_last();
        lowest_online_is_sound(init, online);
        if let Some(id) = lowest_online(init, online) {
            let k = choose|k: int| 0 <= k < init.len() && (#[trigger] init[k]).id == id;
            assert(records[k] == init[k]);
        }
        assert(records[records.len() - 1] == records.last());
        assert forall|k: int|
            0 <= k < records.len() && online.contains(
                (#[trigger] records[k]).id,
            ) implies lowest_online(records, online) is Some && lowest_online(records, online)->0
            <= records[k].id by {
            if k < init.len() {
                assert(init[k] == records[k]);
            }
        }
    }
}

/// The fallback owner is always an online machine of the workspace; there is one
/// whenever any member is online; and where the preferred machine is not
/// available it is the online member with the lowest identifier, so every peer
/// picks the same one.
pub proof fn fallback_owner_is_online_and_agreed(
    doc: DocView,
    online: Set<MachineId>,
    preferred: MachineId,
)
    ensures
        fallback(doc, online, preferred) matches Some(id) ==> online.contains(id) && (id
            == preferred && doc.record(id) is Some || exists|k: int|
            0 <= k < doc.present().len() && (#[trigger] doc.present()[k]).id == id),
        forall|k: int|
            0 <= k < doc.present().len() && online.contains((#[trigger] doc.present()[k]).id)
                ==> fallback(doc, online, preferred) is Some,
        !(online.contains(preferred) && doc.record(preferred) is Some) ==> forall|k: int|
            0 <= k < doc.present().len() && online.contains((#[trigger] doc.present()[k]).id)
                ==> fallback(doc, online, preferred)->0 <= doc.present()[k].id,
{
    lowest_online_is_sound(doc.present(), online);
}

/// The machine that is preferred holds the cursor whenever it can: it is in the
/// workspace and online. If not, no online machine of the workspace has a lower
/// identifier than the one that does.
pub proof fn the_preferred_machine_holds_the_cursor(
    doc: DocView,
    online: Set<MachineId>,
    preferred: MachineId,
    k: int,
)
    requires
        0 <= k < doc.present().len(),
    ensures
        online.contains(preferred) && doc.record(preferred) is Some ==> fallback(
            doc,
            online,
            preferred,
        ) == Some(preferred),
        !online.contains(preferred) && online.contains(doc.present()[k].id) ==> (fallback(
            doc,
            online,
            preferred,
        ) matches Some(id) && id <= doc.present()[k].id && online.contains(id)),
{
    lowest_is_lowest(doc.present(), online, k);
}

proof fn lowest_is_lowest(records: Seq<RecordView>, online: Set<MachineId>, k: int)
    requires
        0 <= k < records.len(),
    ensures
        online.contains(records[k].id) ==> (lowest_online(records, online) matches Some(id) && id
            <= records[k].id),
        lowest_online(records, online) matches Some(id) ==> online.contains(id),
    decreases records.len(),
{
    let rest = records.drop_last();
    if rest.len() > 0 {
        let j = if k < rest.len() {
            k
        } else {
            0
        };
        lowest_is_lowest(rest, online, j);
        assert(rest[j] == records[j]);
    } else {
        assert(lowest_online(rest, online) is None);
    }
}

/// A machine that has no place or no screens yet routes nothing: its pointer goes where
/// it wants to.
pub proof fn a_machine_without_screens_routes_nothing(
    doc: DocView,
    online: Set<MachineId>,
    current: MachineId,
    target: Point,
)
    requires
        doc.record(current) matches Some(record) ==> record.bounds() is None,
    ensures
        resolved(doc, online, current, target) == Resolution::Stay(target),
{
}

} // verus!
