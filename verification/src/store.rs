//! A store held in memory: the primary entity table and the configuration
//! table that references it, with the three statements carried out on them.

use crate::codec::{record_view, AgentRecord, AgentRecordView};
use crate::ids::Id;
use crate::rows::{rows_view, ConfigRow, ConfigRowView, RtcObject};
use crate::table::{
    distinct_entities, lemma_rows_after_upsert_each, spec_joined_rows, spec_returned_rows,
    spec_upsert_bulk, spec_upsert_each, writes_agree, writes_to, ConfigTable,
};
use crate::upsert::{spec_entity_ids, spec_rtc_ids, BulkUpsertQuery, UpsertView};
use vstd::prelude::*;

verus! {

/// Why the store refused a statement.
#[derive(Debug, Clone, Copy, PartialEq, Eq, Structural)]
pub enum StoreError {
    /// A configuration row names an entity that the primary table lacks.
    ForeignKeyViolation,
}

/// What a store is in contracts: the ids of the primary entities in the
/// order they are listed, and the configuration table.
pub struct StoreView {
    pub entities: Seq<Id>,
    pub config: Map<Id, Option<AgentRecordView>>,
}

/// Every pending write is for an entity of the primary table.
pub open spec fn writes_known_entities(entities: Seq<Id>, units: Seq<UpsertView>) -> bool {
    forall|i: int| 0 <= i < units.len() ==> entities.contains((#[trigger] units[i]).rtc_id)
}

/// The store's constraints: an entity is listed once, and a configuration
/// row belongs to a listed entity.
pub open spec fn store_wf(store: StoreView) -> bool {
    &&& store.entities.no_duplicates()
    &&& forall|id: Id| #[trigger] store.config.contains_key(id) ==> store.entities.contains(id)
}

/// The primary entity table and the configuration table, in memory.
pub struct MemoryStore {
    entities: Vec<RtcObject>,
    config: ConfigTable,
}

impl View for MemoryStore {
    type V = StoreView;

    closed spec fn view(&self) -> StoreView {
        StoreView { entities: spec_entity_ids(self.entities@), config: self.config@ }
    }
}

impl MemoryStore {
    /// Whether the store's constraints hold.
    pub open spec fn wf(&self) -> bool {
        store_wf(self@)
    }

    /// The store without entities and without configuration rows.
    pub fn new() -> (r: Self)
        ensures
            r.wf(),
            r@.entities == Seq::<Id>::empty(),
            r@.config == Map::<Id, Option<AgentRecordView>>::empty(),
    {
        let r = MemoryStore { entities: Vec::new(), config: ConfigTable::new() };
        assert(r@.entities =~= Seq::<Id>::empty());
        r
    }

    /// Whether the primary table lists the entity.
    pub fn has_entity(&self, id: Id) -> (r: bool)
        ensures
            r == self@.entities.contains(id),
    {
        let n: usize = self.entities.len();
        let mut i: usize = 0;
        while i < n
            invariant
                n == self.entities.len(),
                i <= n,
                forall|j: int| 0 <= j < i ==> spec_entity_ids(self.entities@)[j] != id,
            decreases n - i,
        {
            if self.entities[i].id == id {
                assert(spec_entity_ids(self.entities@)[i as int] == id);
                return true;
            }
            i += 1;
        }
        false
    }

    /// Adds an entity to the primary table, after those it lists, unless it
    /// is listed already. Returns whether it was added.
    pub fn add_entity(&mut self, id: Id) -> (added: bool)
        requires
            old(self).wf(),
        ensures
            final(self).wf(),
            added == !old(self)@.entities.contains(id),
            added ==> final(self)@.entities == old(self)@.entities.push(id),
            !added ==> final(self)@.entities == old(self)@.entities,
            final(self)@.config == old(self)@.config,
    {
        if self.has_entity(id) {
            false
        } else {
            self.entities.push(RtcObject { id });
            assert(self@.entities =~= old(self)@.entities.push(id));
            assert forall|k: Id| #[trigger] self@.config.contains_key(k) implies self@.entities.contains(
                k,
            ) by {
                assert(old(self)@.config.contains_key(k));
                assert(old(self)@.entities.contains(k));
                let j = choose|j: int|
                    0 <= j < old(self)@.entities.len() && old(self)@.entities[j] == k;
                assert(self@.entities[j] == k);
            }
            true
        }
    }

    /// Stores `raw` as the value of the entity's configuration row, as a
    /// writer other than the bulk statement would. Refused, with the store
    /// unchanged, exactly where the entity is not listed.
    pub fn put_config(&mut self, rtc_id: Id, raw: Option<AgentRecord>) -> (r: Result<
        (),
        StoreError,
    >)
        requires
            old(self).wf(),
        ensures
            final(self).wf(),
            final(self)@.entities == old(self)@.entities,
            r is Ok <==> old(self)@.entities.contains(rtc_id),
            r is Ok ==> final(self)@.config == old(self)@.config.insert(
                rtc_id,
                record_view(raw),
            ),
            r is Err ==> r == Err::<(), StoreError>(StoreError::ForeignKeyViolation)
                && final(self)@.config == old(self)@.config,
    {
        if self.has_entity(rtc_id) {
            self.config.put(rtc_id, raw);
            assert forall|k: Id| #[trigger] self@.config.contains_key(k) implies self@.entities.contains(
                k,
            ) by {
                if k != rtc_id {
                    assert(old(self)@.config.contains_key(k));
                }
            }
            Ok(())
        } else {
            Err(StoreError::ForeignKeyViolation)
        }
    }

    /// The configuration row of the entity, if it has one.
    pub fn config_row(&self, rtc_id: Id) -> (r: Option<ConfigRow>)
        ensures
            r.is_some() == self@.config.contains_key(rtc_id),
            r.is_some() ==> r.unwrap()@ == (ConfigRowView {
                rtc_id,
                send_audio_updated_by: self@.config[rtc_id],
            }),
    {
        self.config.get(rtc_id)
    }

    /// The list statement: every primary entity, in the order listed.
    pub fn select_entities(&self) -> (ids: Vec<Id>)
        ensures
            ids@ == self@.entities,
    {
        let mut ids: Vec<Id> = Vec::new();
        let n: usize = self.entities.len();
        let mut i: usize = 0;
        while i < n
            invariant
                n == self.entities.len(),
                i <= n,
                ids.len() == i,
                forall|j: int| 0 <= j < i ==> ids[j] == (#[trigger] self.entities[j]).id,
            decreases n - i,
        {
            ids.push(self.entities[i].id);
            i += 1;
        }
        assert(ids@ =~= self@.entities);
        ids
    }

    /// The bulk statement. Where every pending write is for a listed entity
    /// it is carried out whole: one insert-or-update per write, in array
    /// order, each storing the incoming value, an absent one too; one row is
    /// returned per write. Where some write is for an unknown entity the
    /// whole batch is refused and the store is as before.
    pub fn bulk_upsert(&mut self, batch: &BulkUpsertQuery) -> (r: Result<Vec<ConfigRow>, StoreError>)
        requires
            old(self).wf(),
        ensures
            final(self).wf(),
            final(self)@.entities == old(self)@.entities,
            r is Ok <==> writes_known_entities(old(self)@.entities, batch@),
            r is Ok ==> {
                &&& final(self)@.config == spec_upsert_each(old(self)@.config, batch@)
                &&& writes_agree(batch@) ==> final(self)@.config == spec_upsert_bulk(
                    old(self)@.config,
                    batch@,
                )
                &&& distinct_entities(batch@) ==> final(self)@.config == spec_upsert_bulk(
                    old(self)@.config,
                    batch@,
                )
                &&& rows_view(r.unwrap()@) == spec_returned_rows(batch@)
            },
            r is Err ==> r == Err::<Vec<ConfigRow>, StoreError>(StoreError::ForeignKeyViolation)
                && final(self)@.config == old(self)@.config,
    {
        let (rtc_ids, _agents) = batch.parameters();
        let n: usize = rtc_ids.len();
        let mut i: usize = 0;
        while i < n
            invariant
                *self == *old(self),
                self.wf(),
                n == rtc_ids.len(),
                rtc_ids@ == spec_rtc_ids(batch@),
                i <= n,
                forall|j: int| 0 <= j < i ==> self@.entities.contains((#[trigger] batch@[j]).rtc_id),
            decreases n - i,
        {
            if !self.has_entity(rtc_ids[i]) {
                assert(!self@.entities.contains(batch@[i as int].rtc_id));
                return Err(StoreError::ForeignKeyViolation);
            }
            i += 1;
        }
        let rows = self.config.execute(batch);
        proof {
            lemma_rows_after_upsert_each(old(self)@.config, batch@);
            assert forall|id: Id| #[trigger] self@.config.contains_key(id) implies self@.entities.contains(
                id,
            ) by {
                if old(self)@.config.contains_key(id) {
                    assert(old(self)@.entities.contains(id));
                } else {
                    assert(writes_to(batch@, id));
                    let k = choose|k: int| 0 <= k < batch@.len() && (#[trigger] batch@[k]).rtc_id == id;
                    assert(self@.entities.contains(batch@[k].rtc_id));
                }
            }
        }
        Ok(rows)
    }

    /// The join statement: for each listed entity that has a configuration
    /// row, in the order listed, the row.
    pub fn select_joined(&self) -> (rows: Vec<ConfigRow>)
        ensures
            rows_view(rows@) == spec_joined_rows(self@.config, self@.entities),
    {
        self.config.list_with_rtc(&self.entities)
    }
}

} // verus!
