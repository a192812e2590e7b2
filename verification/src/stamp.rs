//! Lamport stamps and last-writer-wins registers.
//!
//! Every synchronized value in the workspace carries a [`Stamp`]. Merging two
//! values is "keep the one with the higher stamp", and because stamps are
//! totally ordered, every machine reaches the same answer regardless of the
//! order updates arrive in.

use vstd::prelude::*;

use crate::ids::MachineId;
use crate::now_ms;

verus! {

/// A Lamport counter tagged with the machine that produced it.
///
/// Ordering is `(lamport, origin)` and nothing else. `wall_clock_ms` is kept for
/// display and audit; it never participates in comparison, because clocks on
/// machines that boot hours apart are not a reliable ordering.
#[derive(Clone, Copy, Debug)]
pub struct Stamp {
    pub lamport: u64,
    pub origin: MachineId,
    pub wall_clock_ms: u64,
}

impl Stamp {
    /// Whether `self` orders strictly before `other`. The machine breaks ties, so
    /// that two concurrent edits at the same logical time resolve the same way
    /// everywhere.
    pub open spec fn before(self, other: Stamp) -> bool {
        self.lamport < other.lamport || (self.lamport == other.lamport && self.origin
            < other.origin)
    }

    /// Whether both name the same write.
    pub open spec fn same_write(self, other: Stamp) -> bool {
        self.lamport == other.lamport && self.origin == other.origin
    }

    /// A stamp that carries the current time.
    pub fn new(lamport: u64, origin: MachineId) -> (r: Self)
        ensures
            r.lamport == lamport,
            r.origin == origin,
    {
        Self::at(lamport, origin, now_ms())
    }

    /// A stamp that carries a given time.
    pub fn at(lamport: u64, origin: MachineId, wall_clock_ms: u64) -> (r: Self)
        ensures
            r == (Stamp { lamport, origin, wall_clock_ms }),
    {
        Self { lamport, origin, wall_clock_ms }
    }
}

impl PartialEq for Stamp {
    fn eq(&self, other: &Self) -> (r: bool) {
        self.lamport == other.lamport && self.origin == other.origin
    }
}

impl vstd::std_specs::cmp::PartialEqSpecImpl for Stamp {
    open spec fn obeys_eq_spec() -> bool {
        true
    }

    open spec fn eq_spec(&self, other: &Self) -> bool {
        self.same_write(*other)
    }
}

impl Eq for Stamp {

}

impl PartialOrd for Stamp {
    fn partial_cmp(&self, other: &Self) -> (r: Option<core::cmp::Ordering>) {
        if self.lamport < other.lamport {
            Some(core::cmp::Ordering::Less)
        } else if self.lamport > other.lamport {
            Some(core::cmp::Ordering::Greater)
        } else if self.origin < other.origin {
            Some(core::cmp::Ordering::Less)
        } else if self.origin > other.origin {
            Some(core::cmp::Ordering::Greater)
        } else {
            Some(core::cmp::Ordering::Equal)
        }
    }
}

impl vstd::std_specs::cmp::PartialOrdSpecImpl for Stamp {
    open spec fn obeys_partial_cmp_spec() -> bool {
        true
    }

    open spec fn partial_cmp_spec(&self, other: &Self) -> Option<core::cmp::Ordering> {
        if self.before(*other) {
            Some(core::cmp::Ordering::Less)
        } else if other.before(*self) {
            Some(core::cmp::Ordering::Greater)
        } else {
            Some(core::cmp::Ordering::Equal)
        }
    }
}

/// A value plus the stamp that last wrote it.
#[derive(Clone, Debug)]
pub struct Lww<T> {
    pub value: T,
    pub stamp: Stamp,
}

/// The newer of two registers; the first where both hold the same write.
pub open spec fn newer<T>(a: Lww<T>, b: Lww<T>) -> Lww<T> {
    if a.stamp.before(b.stamp) {
        b
    } else {
        a
    }
}

/// Whether two registers agree on the write that their stamp names, if it is the
/// same write. A stamp is issued once, so any two copies of a register do.
pub open spec fn agree<T>(a: Lww<T>, b: Lww<T>) -> bool {
    a.stamp.same_write(b.stamp) ==> a == b
}

impl<T> Lww<T> {
    pub fn new(value: T, stamp: Stamp) -> (r: Self)
        ensures
            r == (Lww { value, stamp }),
    {
        Self { value, stamp }
    }

    /// Adopts `incoming` if it is newer. Returns whether `self` changed.
    ///
    /// Equal stamps mean the same write seen twice, so the incoming copy is
    /// dropped and the merge stays idempotent.
    pub fn merge(&mut self, incoming: Lww<T>) -> (changed: bool)
        ensures
            *final(self) == newer(*old(self), incoming),
            changed == old(self).stamp.before(incoming.stamp),
    {
        if incoming.stamp > self.stamp {
            *self = incoming;
            true
        } else {
            false
        }
    }
}

/// Any two stamps are ordered one way or name the same write, and never two of
/// the three.
pub proof fn stamps_are_totally_ordered(a: Stamp, b: Stamp)
    ensures
        a.before(b) || b.before(a) || a.same_write(b),
        !(a.before(b) && b.before(a)),
        !(a.before(b) && a.same_write(b)),
{
}

/// The order of stamps is transitive.
pub proof fn stamp_order_is_transitive(a: Stamp, b: Stamp, c: Stamp)
    requires
        a.before(b),
        b.before(c),
    ensures
        a.before(c),
{
}

/// The time that a stamp carries never decides an order.
pub proof fn wall_clock_orders_nothing(a: Stamp, b: Stamp, a_clock: u64, b_clock: u64)
    ensures
        (Stamp { wall_clock_ms: a_clock, ..a }).before(Stamp { wall_clock_ms: b_clock, ..b })
            == a.before(b),
{
}

/// Merging the same copy again changes nothing.
pub proof fn register_merge_is_idempotent<T>(a: Lww<T>, b: Lww<T>)
    ensures
        newer(a, a) == a,
        newer(newer(a, b), b) == newer(a, b),
{
}

/// Two machines that merge each other's copies end up with the same register.
pub proof fn register_merge_is_commutative<T>(a: Lww<T>, b: Lww<T>)
    requires
        agree(a, b),
    ensures
        newer(a, b) == newer(b, a),
{
}

/// The order in which copies are merged in does not matter.
pub proof fn register_merge_is_associative<T>(a: Lww<T>, b: Lww<T>, c: Lww<T>)
    ensures
        newer(newer(a, b), c) == newer(a, newer(b, c)),
{
}

/// An older write never replaces a newer one.
pub proof fn stale_write_is_dropped<T>(a: Lww<T>, b: Lww<T>)
    requires
        b.stamp.before(a.stamp),
    ensures
        newer(a, b) == a,
{
}

/// The later of two writes wins, whoever made them; of two at the same time, the one of
/// the machine with the higher identifier does, on every machine alike.
pub proof fn the_later_write_wins<T>(a: Lww<T>, b: Lww<T>)
    ensures
        a.stamp.lamport < b.stamp.lamport ==> newer(a, b) == b && newer(b, a) == b,
        a.stamp.lamport == b.stamp.lamport && a.stamp.origin < b.stamp.origin ==> newer(a, b) == b
            && newer(b, a) == b,
        a.stamp.lamport < b.stamp.lamport ==> a.stamp.before(b.stamp) && !b.stamp.before(a.stamp),
{
}

} // verus!
