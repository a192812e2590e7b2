//! What holds of the workspace document whatever the machines do: copies of it
//! converge, nothing newer is lost, and nothing comes back that was removed.

use vstd::prelude::*;

use crate::document;
use crate::ids;
use crate::ids::{MachineId, WorkspaceId};
use crate::model;
use crate::model::{DocView, OpView, RecordView, SlotView};
use crate::stamp;
use crate::stamp::Stamp;

verus! {

/// Whether two copies of a document hold the same value wherever they hold the
/// same write. A stamp is issued once, so any two copies of a workspace do.
pub open spec fn copies_agree(a: DocView, b: DocView) -> bool {
    &&& a.workspace_id == b.workspace_id
    &&& a.schema_version == b.schema_version
    &&& stamp::agree(a.name, b.name)
    &&& stamp::agree(a.settings, b.settings)
    &&& forall|id: MachineId|
        #![trigger a.machines.contains_key(id)]
        #![trigger b.machines.contains_key(id)]
        a.machines.contains_key(id) && b.machines.contains_key(id) ==> stamp::agree(
            a.machines[id],
            b.machines[id],
        )
}

/// The highest slot is no lower than any slot it was taken over.
proof fn highest_slot_bounds(machines: Map<MachineId, SlotView>, ids: Seq<MachineId>)
    ensures
        forall|k: int|
            0 <= k < ids.len() ==> machines[#[trigger] ids[k]].stamp.lamport
                <= model::highest_slot(machines, ids),
        forall|bound: u64|
            (forall|k: int|
                0 <= k < ids.len() ==> machines[#[trigger] ids[k]].stamp.lamport <= bound)
                ==> #[trigger] model::max_u64(bound, model::highest_slot(machines, ids)) == bound,
    decreases ids.len(),
{
    if ids.len() > 0 {
        let init = ids.drop_last();
        highest_slot_bounds(machines, init);
        assert forall|k: int| 0 <= k < ids.len() implies machines[#[trigger] ids[k]].stamp.lamport
            <= model::highest_slot(machines, ids) by {
            if k < ids.len() - 1 {
                assert(init[k] == ids[k]);
            }
        }
        assert forall|bound: u64|
            (forall|k: int|
                0 <= k < ids.len() ==> machines[#[trigger] ids[k]].stamp.lamport
                    <= bound) implies #[trigger] model::max_u64(
            bound,
            model::highest_slot(machines, ids),
        ) == bound by {
            assert forall|k: int| 0 <= k < init.len() implies machines[#[trigger] init[k]].stamp.lamport
                <= bound by {
                assert(init[k] == ids[k]);
            }
            assert(model::max_u64(bound, model::highest_slot(machines, init)) == bound);
            assert(ids[ids.len() - 1] == ids.last());
        }
    }
}

/// A finite set of identifiers has an ascending order.
proof fn ascending_exists(s: Set<u128>)
    requires
        s.finite(),
    ensures
        ids::is_ascending(ids::ascending(s)),
        ids::ascending(s).to_set() == s,
    decreases s.len(),
{
    let ordered = ordering_of(s);
    ids::ascending_of(ordered, s);
}

/// An ascending order of a finite set, found by taking its greatest member off.
proof fn ordering_of(s: Set<u128>) -> (r: Seq<u128>)
    requires
        s.finite(),
    ensures
        ids::is_ascending(r),
        r.to_set() == s,
    decreases s.len(),
{
    if s.len() == 0 {
        assert(s =~= Set::empty());
        let r = Seq::<u128>::empty();
        assert(r.to_set() =~= s);
        r
    } else {
        let top = greatest(s);
        let init = ordering_of(s.remove(top));
        let r = init.push(top);
        init.lemma_push_to_set_commute(top);
        assert(r.to_set() =~= s);
        assert forall|i: int, j: int| 0 <= i < j < r.len() implies r[i] < r[j] by {
            assert(init.to_set().contains(init[i]));
            assert(s.contains(init[i]) && init[i] != top);
        }
        r
    }
}

/// The greatest member of a set that is not empty.
proof fn greatest(s: Set<u128>) -> (r: u128)
    requires
        s.finite(),
        s.len() > 0,
    ensures
        s.contains(r),
        forall|x: u128| s.contains(x) ==> x <= r,
    decreases s.len(),
{
    let x = s.choose();
    if s.len() == 1 {
        let rest = s.remove(x);
        assert(rest =~= Set::empty());
        assert forall|y: u128| s.contains(y) implies y <= x by {
            if y != x {
                assert(rest.contains(y));
            }
        }
        x
    } else {
        let r = greatest(s.remove(x));
        if x <= r {
            assert forall|y: u128| s.contains(y) implies y <= r by {
                if y != x {
                    assert(s.remove(x).contains(y));
                }
            }
            r
        } else {
            assert forall|y: u128| s.contains(y) implies y <= x by {
                if y != x {
                    assert(s.remove(x).contains(y));
                }
            }
            x
        }
    }
}

/// A well-formed document shows no time higher than its own clock.
pub proof fn clock_is_the_highest_time(d: DocView)
    requires
        d.well_formed(),
    ensures
        d.highest() == d.lamport,
{
    let order = ids::ascending(d.machines.dom());
    ascending_exists(d.machines.dom());
    highest_slot_bounds(d.machines, order);
    assert forall|k: int| 0 <= k < order.len() implies d.machines[#[trigger] order[k]].stamp.lamport
        <= d.lamport by {
        assert(order.to_set().contains(order[k]));
        assert(d.machines.contains_key(order[k]));
    }
}

/// A new workspace is well-formed, and its founder is its only member.
pub proof fn founded_is_well_formed(
    workspace_id: WorkspaceId,
    name: Seq<char>,
    founder: RecordView,
    stamp: Stamp,
)
    requires
        stamp.lamport == 1,
    ensures
        document::founded(workspace_id, name, founder, stamp).well_formed(),
        document::founded(workspace_id, name, founder, stamp).record(founder.id) == Some(founder),
        forall|id: MachineId|
            id != founder.id ==> document::founded(workspace_id, name, founder, stamp).record(id)
                is None,
{
}

/// A local edit, stamped one past the clock, keeps a document well-formed.
pub proof fn edit_keeps_well_formed(d: DocView, stamp: Stamp, op: OpView)
    requires
        d.well_formed(),
        stamp.lamport == d.lamport + 1,
    ensures
        d.edited(stamp, op).well_formed(),
{
}

/// Applying a peer's update keeps a document well-formed.
pub proof fn apply_keeps_well_formed(d: DocView, stamp: Stamp, op: OpView)
    requires
        d.well_formed(),
    ensures
        d.applied(stamp, op).well_formed(),
{
}

/// Merging two well-formed documents gives a well-formed one.
pub proof fn merge_keeps_well_formed(a: DocView, b: DocView)
    requires
        a.well_formed(),
        b.well_formed(),
    ensures
        a.merged(b).well_formed(),
{
    clock_is_the_highest_time(b);
    let m = a.merged(b);
    assert(m.machines.dom() =~= a.machines.dom().union(b.machines.dom()));
}

/// Merging a document with itself changes nothing.
pub proof fn merge_with_itself(d: DocView)
    requires
        d.well_formed(),
    ensures
        d.merged(d) == d,
        !d.learns_from(d),
{
    clock_is_the_highest_time(d);
    assert(d.merged(d) =~= d);
}

/// Merging the same document a second time changes nothing.
pub proof fn merge_is_idempotent(a: DocView, b: DocView)
    ensures
        a.merged(b).merged(b) == a.merged(b),
        !a.merged(b).learns_from(b),
{
    assert(a.merged(b).merged(b) =~= a.merged(b));
}

/// Two machines that merge each other's copies hold the same document.
pub proof fn merge_is_commutative(a: DocView, b: DocView)
    requires
        a.well_formed(),
        b.well_formed(),
        copies_agree(a, b),
    ensures
        a.merged(b) == b.merged(a),
{
    clock_is_the_highest_time(a);
    clock_is_the_highest_time(b);
    assert(a.merged(b) =~= b.merged(a));
}

/// The order in which the copies of three machines meet does not matter.
pub proof fn merge_is_associative(a: DocView, b: DocView, c: DocView)
    requires
        b.well_formed(),
        c.well_formed(),
    ensures
        a.merged(b).merged(c) == a.merged(b.merged(c)),
{
    clock_is_the_highest_time(b);
    clock_is_the_highest_time(c);
    merge_keeps_well_formed(b, c);
    clock_is_the_highest_time(b.merged(c));
    assert(a.merged(b).merged(c) =~= a.merged(b.merged(c)));
}

/// A merge reports a change exactly when it changes something besides the clock.
pub proof fn merge_reports_changes(a: DocView, b: DocView)
    ensures
        !a.learns_from(b) ==> a.merged(b) == (DocView { lamport: a.merged(b).lamport, ..a }),
{
    if !a.learns_from(b) {
        let m = a.merged(b);
        assert forall|id: MachineId| #[trigger]
            m.machines.contains_key(id) implies a.machines.contains_key(id) && m.machines[id]
            == a.machines[id] by {
            if b.machines.contains_key(id) {
                assert(!model::slot_is_news(a.machines, id, b.machines[id]));
            }
        }
        assert(m =~= DocView { lamport: m.lamport, ..a });
    }
}

/// No merge takes a slot away or replaces one by an older write: a machine that
/// was away for any length of time can bring only news.
pub proof fn merge_never_loses_a_newer_slot(a: DocView, b: DocView, id: MachineId)
    requires
        a.machines.contains_key(id),
    ensures
        a.merged(b).machines.contains_key(id),
        !a.merged(b).machines[id].stamp.before(a.machines[id].stamp),
        b.machines.contains_key(id) && !a.machines[id].stamp.before(b.machines[id].stamp)
            ==> a.merged(b).machines[id] == a.machines[id],
        !b.machines.contains_key(id) ==> a.merged(b).machines[id] == a.machines[id],
{
}

/// A machine that the peer has not heard of, or knows only from older writes, is
/// still in the workspace after the merge. Being offline changes nothing.
pub proof fn merge_keeps_members(a: DocView, b: DocView, id: MachineId)
    requires
        a.record(id) is Some,
        b.machines.contains_key(id) ==> !a.machines[id].stamp.before(b.machines[id].stamp),
    ensures
        a.merged(b).record(id) == a.record(id),
{
}

/// A removal outlives a merge with any peer that remembers the machine from
/// before the removal.
pub proof fn removal_survives_merge(a: DocView, b: DocView, id: MachineId)
    requires
        a.removed(id),
        b.machines.contains_key(id) ==> !a.machines[id].stamp.before(b.machines[id].stamp),
    ensures
        a.merged(b).removed(id),
        copies_agree(a, b) ==> b.merged(a).removed(id),
{
}

/// A local edit sorts after every write that the document holds.
pub proof fn local_edit_sorts_last(d: DocView, stamp: Stamp)
    requires
        d.clock_is_ahead(),
        stamp.lamport == d.lamport + 1,
    ensures
        d.name.stamp.before(stamp),
        d.settings.stamp.before(stamp),
        forall|id: MachineId| #[trigger]
            d.machines.contains_key(id) ==> d.machines[id].stamp.before(stamp),
{
}

/// A peer that held the same document and applies the update of a local edit
/// holds the edited document.
pub proof fn update_reproduces_the_edit(d: DocView, stamp: Stamp, op: OpView)
    requires
        d.well_formed(),
        stamp.lamport == d.lamport + 1,
    ensures
        d.applied(stamp, op) == d.edited(stamp, op),
        d.is_news(stamp, op),
{
    local_edit_sorts_last(d, stamp);
    assert(d.applied(stamp, op) =~= d.edited(stamp, op));
}

/// Whether two changes write the same part of a document.
pub open spec fn same_target(a: OpView, b: OpView) -> bool {
    match (a, b) {
        (OpView::SetName(_), OpView::SetName(_)) => true,
        (OpView::SetSettings(_), OpView::SetSettings(_)) => true,
        (OpView::UpsertMachine(x), OpView::UpsertMachine(y)) => x.id == y.id,
        (OpView::UpsertMachine(x), OpView::RemoveMachine(y)) => x.id == y,
        (OpView::RemoveMachine(x), OpView::UpsertMachine(y)) => x == y.id,
        (OpView::RemoveMachine(x), OpView::RemoveMachine(y)) => x == y,
        _ => false,
    }
}

/// Two updates can arrive in either order.
pub proof fn updates_commute(d: DocView, s1: Stamp, op1: OpView, s2: Stamp, op2: OpView)
    requires
        same_target(op1, op2) && s1.same_write(s2) ==> s1 == s2 && op1 == op2,
    ensures
        d.applied(s1, op1).applied(s2, op2) == d.applied(s2, op2).applied(s1, op1),
{
    assert(d.applied(s1, op1).applied(s2, op2) =~= d.applied(s2, op2).applied(s1, op1));
}

/// The same update seen twice counts once.
pub proof fn apply_is_idempotent(d: DocView, stamp: Stamp, op: OpView)
    ensures
        d.applied(stamp, op).applied(stamp, op) == d.applied(stamp, op),
        !d.applied(stamp, op).is_news(stamp, op),
{
    assert(d.applied(stamp, op).applied(stamp, op) =~= d.applied(stamp, op));
}

/// An update that arrives after a newer one to the same place changes nothing
/// but the clock.
pub proof fn stale_update_changes_nothing(d: DocView, stamp: Stamp, op: OpView)
    requires
        !d.is_news(stamp, op),
    ensures
        d.applied(stamp, op) == (DocView { lamport: model::max_u64(d.lamport, stamp.lamport), ..d }),
{
    assert(d.applied(stamp, op) =~= DocView {
        lamport: model::max_u64(d.lamport, stamp.lamport),
        ..d
    });
}

/// Receiving a peer's update or receiving the peer's whole document comes to the
/// same, for a machine that held the document the peer edited.
pub proof fn update_and_merge_agree(d: DocView, stamp: Stamp, op: OpView)
    requires
        d.well_formed(),
        stamp.lamport == d.lamport + 1,
    ensures
        d.merged(d.edited(stamp, op)) == d.applied(stamp, op),
{
    edit_keeps_well_formed(d, stamp, op);
    clock_is_the_highest_time(d.edited(stamp, op));
    local_edit_sorts_last(d, stamp);
    assert(d.merged(d.edited(stamp, op)) =~= d.applied(stamp, op));
}

/// A change and the stamp it was made under.
pub type Change = (Stamp, OpView);

/// The document after the updates arrived one by one.
pub open spec fn delivered(d: DocView, updates: Seq<Change>) -> DocView
    decreases updates.len(),
{
    if updates.len() == 0 {
        d
    } else {
        let last = updates.last();
        delivered(d, updates.drop_last()).applied(last.0, last.1)
    }
}

/// Whether two updates are the same wherever they carry the same write to the same
/// place. A stamp is issued once, so any two updates of a workspace are.
pub open spec fn issued_once(a: Change, b: Change) -> bool {
    same_target(a.1, b.1) && a.0.same_write(b.0) ==> a == b
}

/// An update that arrives last might as well have arrived first.
proof fn last_can_come_first(d: DocView, updates: Seq<Change>, u: Change)
    requires
        forall|i: int| 0 <= i < updates.len() ==> issued_once(#[trigger] updates[i], u),
    ensures
        delivered(d, updates).applied(u.0, u.1) == delivered(d.applied(u.0, u.1), updates),
    decreases updates.len(),
{
    if updates.len() > 0 {
        let init = updates.drop_last();
        let last = updates.last();
        assert(updates[updates.len() - 1] == last);
        assert forall|i: int| 0 <= i < init.len() implies issued_once(#[trigger] init[i], u) by {
            assert(init[i] == updates[i]);
        }
        last_can_come_first(d, init, u);
        updates_commute(delivered(d, init), last.0, last.1, u.0, u.1);
    }
}

/// An update that is among the others changes nothing if it arrives before them too.
proof fn early_copy_changes_nothing(d: DocView, updates: Seq<Change>, u: Change)
    requires
        forall|i: int| 0 <= i < updates.len() ==> issued_once(#[trigger] updates[i], u),
        updates.contains(u),
    ensures
        delivered(d.applied(u.0, u.1), updates) == delivered(d, updates),
    decreases updates.len(),
{
    let init = updates.drop_last();
    let last = updates.last();
    assert forall|i: int| 0 <= i < init.len() implies issued_once(#[trigger] init[i], u) by {
        assert(init[i] == updates[i]);
    }
    if last == u {
        last_can_come_first(d, init, u);
        apply_is_idempotent(delivered(d, init), u.0, u.1);
    } else {
        let k = choose|k: int| 0 <= k < updates.len() && updates[k] == u;
        assert(init[k] == u);
        early_copy_changes_nothing(d, init, u);
    }
}

/// Updates that arrived already change nothing when they arrive again.
proof fn late_copies_change_nothing(d: DocView, updates: Seq<Change>, again: Seq<Change>)
    requires
        forall|i: int, j: int|
            0 <= i < updates.len() && 0 <= j < updates.len() ==> issued_once(
                #[trigger] updates[i],
                #[trigger] updates[j],
            ),
        forall|j: int| 0 <= j < again.len() ==> updates.contains(#[trigger] again[j]),
    ensures
        delivered(delivered(d, updates), again) == delivered(d, updates),
    decreases again.len(),
{
    if again.len() > 0 {
        let init = again.drop_last();
        let u = again.last();
        assert(again[again.len() - 1] == u);
        assert forall|j: int| 0 <= j < init.len() implies updates.contains(
            #[trigger] init[j],
        ) by {
            assert(init[j] == again[j]);
        }
        late_copies_change_nothing(d, updates, init);
        let k = choose|k: int| 0 <= k < updates.len() && updates[k] == u;
        assert forall|i: int| 0 <= i < updates.len() implies issued_once(
            #[trigger] updates[i],
            u,
        ) by {
            assert(issued_once(updates[i], updates[k]));
        }
        last_can_come_first(d, updates, u);
        early_copy_changes_nothing(d, updates, u);
    }
}

/// Updates that arrive in full later change nothing if some of them arrive before.
proof fn early_copies_change_nothing(d: DocView, early: Seq<Change>, updates: Seq<Change>)
    requires
        forall|i: int, j: int|
            0 <= i < updates.len() && 0 <= j < updates.len() ==> issued_once(
                #[trigger] updates[i],
                #[trigger] updates[j],
            ),
        forall|j: int| 0 <= j < early.len() ==> updates.contains(#[trigger] early[j]),
    ensures
        delivered(delivered(d, early), updates) == delivered(d, updates),
    decreases early.len(),
{
    if early.len() > 0 {
        let init = early.drop_last();
        let u = early.last();
        assert(early[early.len() - 1] == u);
        assert forall|j: int| 0 <= j < init.len() implies updates.contains(
            #[trigger] init[j],
        ) by {
            assert(init[j] == early[j]);
        }
        early_copies_change_nothing(d, init, updates);
        let k = choose|k: int| 0 <= k < updates.len() && updates[k] == u;
        assert forall|i: int| 0 <= i < updates.len() implies issued_once(
            #[trigger] updates[i],
            u,
        ) by {
            assert(issued_once(updates[i], updates[k]));
        }
        early_copy_changes_nothing(delivered(d, init), updates, u);
    }
}

/// All machines reach the same document, regardless of the order in which updates
/// arrive and of how many times they arrive.
pub proof fn delivery_order_does_not_matter(d: DocView, a: Seq<Change>, b: Seq<Change>)
    requires
        forall|i: int, j: int|
            0 <= i < a.len() && 0 <= j < a.len() ==> issued_once(
                #[trigger] a[i],
                #[trigger] a[j],
            ),
        a.to_set() == b.to_set(),
    ensures
        delivered(d, a) == delivered(d, b),
{
    assert forall|j: int| 0 <= j < b.len() implies a.contains(#[trigger] b[j]) by {
        assert(b.to_set().contains(b[j]));
        assert(a.to_set().contains(b[j]));
    }
    assert forall|j: int| 0 <= j < a.len() implies b.contains(#[trigger] a[j]) by {
        assert(a.to_set().contains(a[j]));
        assert(b.to_set().contains(a[j]));
    }
    assert forall|i: int, j: int| 0 <= i < b.len() && 0 <= j < b.len() implies issued_once(
        #[trigger] b[i],
        #[trigger] b[j],
    ) by {
        let m = choose|m: int| 0 <= m < a.len() && a[m] == b[i];
        let n = choose|n: int| 0 <= n < a.len() && a[n] == b[j];
        assert(issued_once(a[m], a[n]));
    }
    late_copies_change_nothing(d, a, b);
    early_copies_change_nothing(d, a, b);
}

proof fn present_among_members(machines: Map<MachineId, SlotView>, order: Seq<MachineId>)
    requires
        ids::is_ascending(order),
        forall|k: int| 0 <= k < order.len() ==> (machines[#[trigger] order[k]].value matches Some(r)
            ==> r.id == order[k]),
    ensures
        ({
            let records = model::present_among(machines, order);
            &&& forall|i: int, j: int|
                0 <= i < j < records.len() ==> (#[trigger] records[i]).id < (
                #[trigger] records[j]).id
            &&& forall|i: int|
                0 <= i < records.len() ==> order.contains((#[trigger] records[i]).id)
                    && machines[records[i].id].value == Some(records[i])
            &&& forall|k: int|
                0 <= k < order.len() ==> (machines[#[trigger] order[k]].value matches Some(r)
                    ==> records.contains(r))
        }),
    decreases order.len(),
{
    if order.len() > 0 {
        let init = order.drop_last();
        assert forall|k: int| 0 <= k < init.len() implies (machines[#[trigger] init[k]].value
            matches Some(r) ==> r.id == init[k]) by {
            assert(init[k] == order[k]);
        }
        present_among_members(machines, init);
        let before = model::present_among(machines, init);
        let records = model::present_among(machines, order);
        let last = order.last();
        assert(last == order[order.len() - 1]);
        assert forall|i: int| 0 <= i < before.len() implies (#[trigger] before[i]).id < last
            && order.contains(before[i].id) by {
            let k = choose|k: int| 0 <= k < init.len() && init[k] == before[i].id;
            assert(order[k] == before[i].id);
            assert(order[k] < order[order.len() - 1]);
        }
        assert forall|i: int| 0 <= i < records.len() implies order.contains(
            (#[trigger] records[i]).id,
        ) && machines[records[i].id].value == Some(records[i]) by {
            if i < before.len() {
                assert(records[i] == before[i]);
            }
        }
        assert forall|i: int, j: int| 0 <= i < j < records.len() implies (
        #[trigger] records[i]).id < (#[trigger] records[j]).id by {
            assert(records[i] == before[i]);
            if j < before.len() {
                assert(records[j] == before[j]);
            }
        }
        assert forall|k: int| 0 <= k < order.len() implies (machines[#[trigger] order[k]].value
            matches Some(r) ==> records.contains(r)) by {
            if let Some(r) = machines[order[k]].value {
                if k < init.len() {
                    assert(init[k] == order[k]);
                    assert(before.contains(r));
                    let m = choose|m: int| 0 <= m < before.len() && before[m] == r;
                    assert(records[m] == r);
                } else {
                    assert(records[before.len() as int] == r);
                }
            }
        }
    }
}

/// The machines that a document lists are exactly its members, each of them once and
/// by ascending identifier. Whether one is online plays no part.
pub proof fn the_members_are_listed(d: DocView)
    requires
        d.well_formed(),
    ensures
        forall|i: int, j: int|
            0 <= i < j < d.present().len() ==> (#[trigger] d.present()[i]).id < (
            #[trigger] d.present()[j]).id,
        forall|i: int|
            0 <= i < d.present().len() ==> d.record((#[trigger] d.present()[i]).id) == Some(
                d.present()[i],
            ),
        forall|id: MachineId|
            (#[trigger] d.record(id)) matches Some(r) ==> d.present().contains(r),
{
    let order = ids::ascending(d.machines.dom());
    ascending_exists(d.machines.dom());
    assert forall|k: int| 0 <= k < order.len() implies d.machines.contains_key(
        #[trigger] order[k],
    ) by {
        assert(order.to_set().contains(order[k]));
    }
    present_among_members(d.machines, order);
    assert forall|i: int| 0 <= i < d.present().len() implies d.record(
        (#[trigger] d.present()[i]).id,
    ) == Some(d.present()[i]) by {
        let id = d.present()[i].id;
        let k = choose|k: int| 0 <= k < order.len() && order[k] == id;
        assert(d.machines.contains_key(order[k]));
    }
    assert forall|id: MachineId| (#[trigger] d.record(id)) matches Some(r) implies d.present()
        .contains(d.record(id)->0) by {
        assert(order.to_set().contains(id));
        let k = choose|k: int| 0 <= k < order.len() && order[k] == id;
        assert(d.machines[order[k]].value == d.record(id));
    }
}

/// A change does what it says and nothing else: what it sets is set, a machine it puts
/// in is in, one it takes out is out, and everything else stays as it was. The clock
/// goes to the time of the change.
pub proof fn a_change_does_what_it_says(doc: DocView, stamp: Stamp, op: OpView, other: MachineId)
    ensures
        ({
            let after = doc.edited(stamp, op);
            &&& after.workspace_id == doc.workspace_id
            &&& after.lamport == stamp.lamport
            &&& op matches OpView::SetName(name) ==> after.name.value == name
            &&& !(op is SetName) ==> after.name == doc.name
            &&& op matches OpView::SetSettings(settings) ==> after.settings.value == settings
            &&& !(op is SetSettings) ==> after.settings == doc.settings
            &&& op matches OpView::UpsertMachine(record) ==> after.record(record.id) == Some(record)
                && (other != record.id ==> after.record(other) == doc.record(other))
            &&& op matches OpView::RemoveMachine(id) ==> after.record(id) is None && after.removed(
                id,
            ) && (other != id ==> after.record(other) == doc.record(other))
            &&& op is SetName || op is SetSettings ==> after.record(other) == doc.record(other)
        }),
{
}

/// A new workspace is called what it was asked to be called, holds its founder and
/// nobody else, and starts with the settings of a new one.
pub proof fn a_new_workspace_holds_its_founder(
    workspace_id: WorkspaceId,
    name: Seq<char>,
    founder: RecordView,
    stamp: Stamp,
    other: MachineId,
)
    ensures
        ({
            let doc = document::founded(workspace_id, name, founder, stamp);
            &&& doc.workspace_id == workspace_id
            &&& doc.name.value == name
            &&& doc.record(founder.id) == Some(founder)
            &&& other != founder.id ==> doc.record(other) is None && !doc.removed(other)
            &&& doc.lamport == 1
            &&& doc.settings.value.discovery_port == 47451
            &&& doc.settings.value.transport_port == 47452
            &&& doc.settings.value.offline_edge is Block
        }),
{
}

} // verus!
