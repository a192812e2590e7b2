//! Editing, merging and reading the workspace document.

use std::collections::BTreeMap;

use vstd::prelude::*;

use crate::clock::now_ms;
use crate::error::{Error, Result};
use crate::ids;
use crate::ids::{MachineId, WorkspaceId};
use crate::model;
use crate::model::{
    DocView, MachineRecord, MachineSlot, Op, OpView, RecordView, SlotState, UpdateView, WorkspaceDoc,
    WorkspaceSettings, WorkspaceUpdate,
};
use crate::stamp;
use crate::stamp::{Lww, Stamp};

verus! {

/// An optional record taken by its view.
pub open spec fn record_view(r: Option<&MachineRecord>) -> Option<RecordView> {
    match r {
        Some(record) => Some(record@),
        None => None,
    }
}

/// A list of records taken by its view.
pub open spec fn records_view(records: Seq<&MachineRecord>) -> Seq<RecordView> {
    Seq::new(records.len(), |i: int| records[i]@)
}

/// A document with nothing in it but its first member.
pub open spec fn founded(
    workspace_id: WorkspaceId,
    name: Seq<char>,
    founder: RecordView,
    stamp: Stamp,
) -> DocView {
    DocView {
        workspace_id,
        schema_version: WorkspaceDoc::SCHEMA_VERSION,
        name: Lww { value: name, stamp },
        lamport: 1,
        machines: Map::empty().insert(founder.id, Lww { value: Some(founder), stamp }),
        settings: Lww { value: model::default_settings(), stamp },
    }
}

impl WorkspaceDoc {
    pub const SCHEMA_VERSION: u32 = 1;

    /// Creates a workspace whose first member is `founder`, under a fresh
    /// identifier and the current time.
    pub fn create(name: &str, founder: MachineRecord) -> (r: Self)
        ensures
            r.name.stamp.lamport == 1,
            r.name.stamp.origin == founder.id,
            r@ == founded(r.workspace_id, name@, founder@, r.name.stamp),
            ids::is_minted(r.workspace_id),
    {
        Self::create_as(ids::new_id(), name, founder, now_ms())
    }

    /// Creates a workspace whose first member is `founder`.
    pub fn create_as(
        workspace_id: WorkspaceId,
        name: &str,
        founder: MachineRecord,
        wall_clock_ms: u64,
    ) -> (r: Self)
        ensures
            r.name.stamp == (Stamp { lamport: 1, origin: founder.id, wall_clock_ms }),
            r@ == founded(workspace_id, name@, founder@, r.name.stamp),
    {
        let ghost record = founder@;
        let origin: MachineId = founder.id;
        let stamp = Stamp::at(1, origin, wall_clock_ms);
        let mut machines: BTreeMap<MachineId, MachineSlot> = BTreeMap::new();
        let _ = machines.insert(origin, MachineSlot { stamp, state: SlotState::Present(founder) });
        let r = Self {
            workspace_id,
            schema_version: Self::SCHEMA_VERSION,
            name: Lww::new(name.to_owned(), stamp),
            lamport: 1,
            machines,
            settings: Lww::new(WorkspaceSettings::default(), stamp),
        };
        assert(r@.machines =~= founded(workspace_id, name@, record, stamp).machines);
        r
    }

    /// Advances the clock and returns a stamp for a local change.
    pub fn tick(&mut self, origin: MachineId) -> (r: Stamp)
        requires
            old(self).lamport < u64::MAX,
        ensures
            r.lamport == old(self).lamport + 1,
            r.origin == origin,
            final(self)@ == (DocView { lamport: r.lamport, ..old(self)@ }),
    {
        self.lamport = self.lamport + 1;
        Stamp::new(self.lamport, origin)
    }

    /// Pulls the clock past anything seen from a peer, so the next local edit
    /// sorts after it.
    fn observe(&mut self, lamport: u64)
        ensures
            final(self)@ == (DocView {
                lamport: model::max_u64(old(self).lamport, lamport),
                ..old(self)@
            }),
            final(self).machines@ == old(self).machines@,
    {
        if self.lamport < lamport {
            self.lamport = lamport;
        }
    }

    pub fn set_name(&mut self, origin: MachineId, name: &str) -> (r: WorkspaceUpdate)
        requires
            old(self).lamport < u64::MAX,
        ensures
            r.stamp.lamport == old(self).lamport + 1,
            r.stamp.origin == origin,
            r@ == (UpdateView {
                workspace_id: old(self).workspace_id,
                prev_lamport: old(self).lamport,
                stamp: r.stamp,
                op: OpView::SetName(name@),
            }),
            final(self)@ == old(self)@.edited(r.stamp, r@.op),
    {
        let prev_lamport: u64 = self.lamport;
        let stamp = self.tick(origin);
        self.name = Lww::new(name.to_owned(), stamp);
        WorkspaceUpdate {
            workspace_id: self.workspace_id,
            prev_lamport,
            stamp,
            op: Op::SetName(name.to_owned()),
        }
    }

    pub fn set_settings(&mut self, origin: MachineId, settings: WorkspaceSettings) -> (r:
        WorkspaceUpdate)
        requires
            old(self).lamport < u64::MAX,
        ensures
            r.stamp.lamport == old(self).lamport + 1,
            r.stamp.origin == origin,
            r@ == (UpdateView {
                workspace_id: old(self).workspace_id,
                prev_lamport: old(self).lamport,
                stamp: r.stamp,
                op: OpView::SetSettings(settings@),
            }),
            final(self)@ == old(self)@.edited(r.stamp, r@.op),
    {
        let prev_lamport: u64 = self.lamport;
        let stamp = self.tick(origin);
        self.settings = Lww::new(settings.clone(), stamp);
        WorkspaceUpdate {
            workspace_id: self.workspace_id,
            prev_lamport,
            stamp,
            op: Op::SetSettings(settings),
        }
    }

    /// Puts a slot in place, whatever stood there.
    fn put_slot(&mut self, id: MachineId, slot: MachineSlot)
        ensures
            final(self)@ == (DocView {
                machines: old(self)@.machines.insert(id, slot@),
                ..old(self)@
            }),
    {
        let ghost before = self.machines@;
        let ghost slot_at = slot@;
        let _ = self.machines.insert(id, slot);
        assert(model::slots_view(self.machines@) =~= model::slots_view(before).insert(id, slot_at));
    }

    /// Adds a machine, or replaces what is known about one. Also the path a
    /// machine takes to publish its own display layout after a resolution
    /// change.
    pub fn upsert_machine(&mut self, origin: MachineId, record: MachineRecord) -> (r:
        WorkspaceUpdate)
        requires
            old(self).lamport < u64::MAX,
        ensures
            r.stamp.lamport == old(self).lamport + 1,
            r.stamp.origin == origin,
            r@ == (UpdateView {
                workspace_id: old(self).workspace_id,
                prev_lamport: old(self).lamport,
                stamp: r.stamp,
                op: OpView::UpsertMachine(record@),
            }),
            final(self)@ == old(self)@.edited(r.stamp, r@.op),
    {
        let prev_lamport: u64 = self.lamport;
        let stamp = self.tick(origin);
        self.put_slot(
            record.id,
            MachineSlot { stamp, state: SlotState::Present(record.clone()) },
        );
        WorkspaceUpdate {
            workspace_id: self.workspace_id,
            prev_lamport,
            stamp,
            op: Op::UpsertMachine(record),
        }
    }

    /// Unpairs a machine, leaving a tombstone behind.
    pub fn remove_machine(&mut self, origin: MachineId, id: MachineId) -> (r: WorkspaceUpdate)
        requires
            old(self).lamport < u64::MAX,
        ensures
            r.stamp.lamport == old(self).lamport + 1,
            r.stamp.origin == origin,
            r@ == (UpdateView {
                workspace_id: old(self).workspace_id,
                prev_lamport: old(self).lamport,
                stamp: r.stamp,
                op: OpView::RemoveMachine(id),
            }),
            final(self)@ == old(self)@.edited(r.stamp, r@.op),
    {
        let prev_lamport: u64 = self.lamport;
        let stamp = self.tick(origin);
        self.put_slot(id, MachineSlot { stamp, state: SlotState::Removed });
        WorkspaceUpdate {
            workspace_id: self.workspace_id,
            prev_lamport,
            stamp,
            op: Op::RemoveMachine(id),
        }
    }

    /// Applies a peer's single update. Returns whether local state changed.
    pub fn apply(&mut self, update: WorkspaceUpdate) -> (r: Result<bool>)
        ensures
            update.workspace_id == old(self).workspace_id ==> {
                &&& r == Ok::<bool, Error>(old(self)@.is_news(update.stamp, update@.op))
                &&& final(self)@ == old(self)@.applied(update.stamp, update@.op)
            },
            update.workspace_id != old(self).workspace_id ==> {
                &&& r == Err::<bool, Error>(
                    Error::WorkspaceMismatch {
                        incoming: update.workspace_id,
                        local: old(self).workspace_id,
                    },
                )
                &&& final(self)@ == old(self)@
            },
    {
        match self.check_workspace(update.workspace_id) {
            Ok(()) => {},
            Err(e) => {
                return Err(e);
            },
        }
        self.observe(update.stamp.lamport);
        let stamp = update.stamp;
        let changed = match update.op {
            Op::SetName(name) => self.name.merge(Lww::new(name, stamp)),
            Op::SetSettings(settings) => self.settings.merge(Lww::new(settings, stamp)),
            Op::UpsertMachine(record) => {
                let id: MachineId = record.id;
                self.merge_slot(id, MachineSlot { stamp, state: SlotState::Present(record) })
            },
            Op::RemoveMachine(id) => self.merge_slot(
                id,
                MachineSlot { stamp, state: SlotState::Removed },
            ),
        };
        Ok(changed)
    }

    /// Merges a peer's whole document: the reconnection path.
    ///
    /// Neither side is assumed to be authoritative. The result is the same
    /// whichever machine merges first, and merging twice changes nothing.
    pub fn merge(&mut self, other: &WorkspaceDoc) -> (r: Result<bool>)
        ensures
            other.workspace_id == old(self).workspace_id ==> {
                &&& r == Ok::<bool, Error>(old(self)@.learns_from(other@))
                &&& final(self)@ == old(self)@.merged(other@)
            },
            other.workspace_id != old(self).workspace_id ==> {
                &&& r == Err::<bool, Error>(
                    Error::WorkspaceMismatch {
                        incoming: other.workspace_id,
                        local: old(self).workspace_id,
                    },
                )
                &&& final(self)@ == old(self)@
            },
    {
        match self.check_workspace(other.workspace_id) {
            Ok(()) => {},
            Err(e) => {
                return Err(e);
            },
        }
        let ghost start = self@;
        let ghost theirs = other@.machines;
        self.observe(other.lamport);
        let renamed = self.name.merge(
            Lww::new(other.name.value.clone(), other.name.stamp),
        );
        let reset = self.settings.merge(
            Lww::new(other.settings.value.clone(), other.settings.stamp),
        );
        let order = ids::keys_in_order(&other.machines);
        let mut news = false;
        let mut i: usize = 0;
        let ghost base = self@;
        proof {
            assert(order@.take(0) =~= Seq::empty());
            assert(model::merged_slots(start.machines, theirs.restrict(order@.take(0).to_set()))
                =~= start.machines);
        }
        while i < order.len()
            invariant
                i <= order@.len(),
                order@ == ids::ascending(other.machines@.dom()),
                ids::is_ascending(order@),
                order@.to_set() == other.machines@.dom(),
                theirs == other@.machines,
                base.lamport == model::max_u64(start.lamport, other.lamport),
                self@ == (DocView {
                    lamport: model::max_u64(
                        base.lamport,
                        model::highest_slot(theirs, order@.take(i as int)),
                    ),
                    machines: model::merged_slots(
                        start.machines,
                        theirs.restrict(order@.take(i as int).to_set()),
                    ),
                    ..base
                }),
                news == exists|k: int|
                    0 <= k < i && model::slot_is_news(
                        start.machines,
                        #[trigger] order@[k],
                        theirs[order@[k]],
                    ),
            decreases order@.len() - i,
        {
            let id: MachineId = order[i];
            proof {
                assert(order@.to_set().contains(id));
                assert(order@.take(i + 1).drop_last() =~= order@.take(i as int));
                assert(!order@.take(i as int).to_set().contains(id)) by {
                    if order@.take(i as int).to_set().contains(id) {
                        let k = choose|k: int| 0 <= k < i && order@.take(i as int)[k] == id;
                        assert(order@[k] < order@[i as int]);
                    }
                }
                assert(order@.take(i + 1).to_set() =~= order@.take(i as int).to_set().insert(id))
                    by {
                    assert(order@.take(i + 1) =~= order@.take(i as int).push(id));
                    order@.take(i as int).lemma_push_to_set_commute(id);
                }
            }
            match other.machines.get(&id) {
                Some(slot) => {
                    let ghost before = self@.machines;
                    self.observe(slot.stamp.lamport);
                    let fresh = self.merge_slot(id, slot.clone());
                    assert(slot@ == theirs[id]);
                    assert(before.contains_key(id) == start.machines.contains_key(id));
                    assert(fresh == model::slot_is_news(start.machines, id, theirs[id]));
                    assert(self@.machines =~= model::merged_slots(
                        start.machines,
                        theirs.restrict(order@.take(i + 1).to_set()),
                    ));
                    if fresh {
                        assert(model::slot_is_news(
                            start.machines,
                            order@[i as int],
                            theirs[order@[i as int]],
                        ));
                        news = true;
                    }
                },
                None => {
                    assert(false);
                },
            }
            i = i + 1;
        }
        proof {
            assert(order@.take(i as int) =~= order@);
            assert(theirs.dom() =~= other.machines@.dom());
            assert(theirs.restrict(order@.to_set()) =~= theirs);
            if news {
                let k = choose|k: int|
                    0 <= k < i && model::slot_is_news(
                        start.machines,
                        #[trigger] order@[k],
                        theirs[order@[k]],
                    );
                assert(order@.to_set().contains(order@[k]));
                assert(theirs.contains_key(order@[k]));
            }
            if exists|id: MachineId| #[trigger]
                theirs.contains_key(id) && model::slot_is_news(start.machines, id, theirs[id]) {
                let id = choose|id: MachineId| #[trigger]
                    theirs.contains_key(id) && model::slot_is_news(
                        start.machines,
                        id,
                        theirs[id],
                    );
                assert(order@.to_set().contains(id));
                let k = choose|k: int| 0 <= k < order@.len() && order@[k] == id;
                assert(model::slot_is_news(start.machines, order@[k], theirs[order@[k]]));
            }
        }
        Ok(renamed || reset || news)
    }

    fn merge_slot(&mut self, id: MachineId, incoming: MachineSlot) -> (changed: bool)
        ensures
            changed == model::slot_is_news(old(self)@.machines, id, incoming@),
            final(self)@ == (DocView {
                machines: model::with_slot(old(self)@.machines, id, incoming@),
                ..old(self)@
            }),
    {
        let ghost before = self.machines@;
        let newer = match self.machines.get(&id) {
            Some(existing) => incoming.stamp > existing.stamp,
            None => true,
        };
        if newer {
            self.put_slot(id, incoming);
        } else {
            assert(self@.machines.insert(id, self@.machines[id]) =~= self@.machines);
        }
        newer
    }

    fn check_workspace(&self, incoming: WorkspaceId) -> (r: Result<()>)
        ensures
            incoming == self.workspace_id ==> r == Ok::<(), Error>(()),
            incoming != self.workspace_id ==> r == Err::<(), Error>(
                Error::WorkspaceMismatch { incoming, local: self.workspace_id },
            ),
    {
        if incoming == self.workspace_id {
            Ok(())
        } else {
            Err(Error::WorkspaceMismatch { incoming, local: self.workspace_id })
        }
    }

    pub fn machine(&self, id: MachineId) -> (r: Option<&MachineRecord>)
        ensures
            record_view(r) == self@.record(id),
    {
        match self.machines.get(&id) {
            Some(slot) => match &slot.state {
                SlotState::Present(record) => Some(record),
                SlotState::Removed => None,
            },
            None => None,
        }
    }

    /// Machines that belong to the workspace, online or not, by ascending slot.
    pub fn machines_present(&self) -> (r: Vec<&MachineRecord>)
        ensures
            records_view(r@) == self@.present(),
    {
        let order = ids::keys_in_order(&self.machines);
        let mut out: Vec<&MachineRecord> = Vec::new();
        let mut i: usize = 0;
        assert(order@.take(0) =~= Seq::empty());
        assert(records_view(out@) =~= Seq::empty());
        while i < order.len()
            invariant
                i <= order@.len(),
                order@.to_set() == self.machines@.dom(),
                records_view(out@) == model::present_among(self@.machines, order@.take(i as int)),
            decreases order@.len() - i,
        {
            let id: MachineId = order[i];
            assert(order@.to_set().contains(id));
            assert(order@.take(i + 1).drop_last() =~= order@.take(i as int));
            let ghost before = out@;
            match self.machines.get(&id) {
                Some(slot) => match &slot.state {
                    SlotState::Present(record) => {
                        out.push(record);
                        assert(records_view(out@) =~= records_view(before).push(record@));
                    },
                    SlotState::Removed => {},
                },
                None => {
                    assert(false);
                },
            }
            i = i + 1;
        }
        assert(order@.take(i as int) =~= order@);
        assert(self@.machines.dom() =~= self.machines@.dom());
        out
    }

    pub fn is_removed(&self, id: MachineId) -> (r: bool)
        ensures
            r == self@.removed(id),
    {
        match self.machines.get(&id) {
            Some(slot) => match &slot.state {
                SlotState::Present(_) => false,
                SlotState::Removed => true,
            },
            None => false,
        }
    }
}

} // verus!
