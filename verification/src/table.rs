//! The configuration table as contracts see it, a map from entity to the
//! stored composite value, with what the bulk statement does to it; and a
//! table in memory that carries the statement out.

use crate::codec::{
    agent_ref_view, encode, record_view, spec_decode, spec_encode, AgentRecord, AgentRecordView,
};
use crate::ids::{AgentIdView, Id};
use crate::rows::{rows_view, ConfigRow, ConfigRowView, RtcObject};
use crate::upsert::{
    agent_refs_view, spec_agents, spec_clearing_batch, spec_entity_ids, spec_rtc_ids,
    BulkUpsertQuery, UpsertView,
};
use std::collections::HashMap;
use vstd::prelude::*;

verus! {

broadcast use vstd::std_specs::hash::group_hash_axioms;

/// The table after one insert-or-update: the entity's row holds the encoded
/// incoming value, whatever it held before and whether or not the value is
/// absent.
pub open spec fn spec_upsert(
    table: Map<Id, Option<AgentRecordView>>,
    unit: UpsertView,
) -> Map<Id, Option<AgentRecordView>> {
    table.insert(unit.rtc_id, spec_encode(unit.send_audio_updated_by))
}

/// The table after one insert-or-update per pending write, in array order.
pub open spec fn spec_upsert_each(
    table: Map<Id, Option<AgentRecordView>>,
    units: Seq<UpsertView>,
) -> Map<Id, Option<AgentRecordView>>
    decreases units.len(),
{
    if units.len() == 0 {
        table
    } else {
        spec_upsert(spec_upsert_each(table, units.drop_last()), units.last())
    }
}

/// Whether some pending write is for the entity.
pub open spec fn writes_to(units: Seq<UpsertView>, id: Id) -> bool {
    exists|i: int| 0 <= i < units.len() && (#[trigger] units[i]).rtc_id == id
}

/// No two pending writes are for the same entity.
pub open spec fn distinct_entities(units: Seq<UpsertView>) -> bool {
    forall|i: int, j: int|
        0 <= i < j < units.len() ==> (#[trigger] units[i]).rtc_id != (#[trigger] units[j]).rtc_id
}

/// Pending writes for the same entity carry the same agent.
pub open spec fn writes_agree(units: Seq<UpsertView>) -> bool {
    forall|i: int, j: int|
        0 <= i < units.len() && 0 <= j < units.len() && (#[trigger] units[i]).rtc_id == (
        #[trigger] units[j]).rtc_id ==> units[i].send_audio_updated_by
            == units[j].send_audio_updated_by
}

/// The table after the bulk statement, stated over the batch as a set: an
/// entity that the batch writes to holds the encoded value of a write for
/// it, every other row is as it was.
pub open spec fn spec_upsert_bulk(
    table: Map<Id, Option<AgentRecordView>>,
    units: Seq<UpsertView>,
) -> Map<Id, Option<AgentRecordView>> {
    Map::new(
        |id: Id| table.contains_key(id) || writes_to(units, id),
        |id: Id|
            if writes_to(units, id) {
                let i = choose|i: int| 0 <= i < units.len() && (#[trigger] units[i]).rtc_id == id;
                spec_encode(units[i].send_audio_updated_by)
            } else {
                table[id]
            },
    )
}

/// The rows that the bulk statement returns: one per pending write, with the
/// value as stored.
pub open spec fn spec_returned_rows(units: Seq<UpsertView>) -> Seq<ConfigRowView> {
    units.map_values(
        |u: UpsertView|
            ConfigRowView {
                rtc_id: u.rtc_id,
                send_audio_updated_by: spec_encode(u.send_audio_updated_by),
            },
    )
}

/// The table after one reconciliation pass over the given entities.
pub open spec fn spec_reconcile(
    table: Map<Id, Option<AgentRecordView>>,
    rtc_ids: Seq<Id>,
) -> Map<Id, Option<AgentRecordView>> {
    spec_upsert_bulk(table, spec_clearing_batch(rtc_ids))
}

/// The rows of the join in the order of the entities: for each entity that
/// has a row, the row.
pub open spec fn spec_joined_rows(
    table: Map<Id, Option<AgentRecordView>>,
    rtc_ids: Seq<Id>,
) -> Seq<ConfigRowView>
    decreases rtc_ids.len(),
{
    if rtc_ids.len() == 0 {
        Seq::empty()
    } else if table.contains_key(rtc_ids.last()) {
        spec_joined_rows(table, rtc_ids.drop_last()).push(
            ConfigRowView {
                rtc_id: rtc_ids.last(),
                send_audio_updated_by: table[rtc_ids.last()],
            },
        )
    } else {
        spec_joined_rows(table, rtc_ids.drop_last())
    }
}

/// For a batch whose writes agree wherever they name the same entity, the
/// bulk statement leaves the table as one insert-or-update per pending
/// write, applied in array order, does.
pub proof fn lemma_bulk_is_sequential_where_writes_agree(
    table: Map<Id, Option<AgentRecordView>>,
    units: Seq<UpsertView>,
)
    requires
        writes_agree(units),
    ensures
        spec_upsert_bulk(table, units) == spec_upsert_each(table, units),
    decreases units.len(),
{
    if units.len() == 0 {
        assert(spec_upsert_bulk(table, units) =~= table);
    } else {
        let prefix = units.drop_last();
        let last = units.last();
        assert(writes_agree(prefix)) by {
            assert forall|i: int, j: int|
                0 <= i < prefix.len() && 0 <= j < prefix.len() && (#[trigger] prefix[i]).rtc_id == (
                #[trigger] prefix[j]).rtc_id implies prefix[i].send_audio_updated_by
                == prefix[j].send_audio_updated_by by {
                assert(units[i].rtc_id == units[j].rtc_id);
            }
        }
        lemma_bulk_is_sequential_where_writes_agree(table, prefix);
        let bulk = spec_upsert_bulk(table, units);
        let step = spec_upsert(spec_upsert_bulk(table, prefix), last);
        assert forall|id: Id| bulk.contains_key(id) == step.contains_key(id) by {
            if writes_to(units, id) {
                let i = choose|i: int| 0 <= i < units.len() && (#[trigger] units[i]).rtc_id == id;
                if i < prefix.len() {
                    assert(prefix[i].rtc_id == id);
                }
            }
            if writes_to(prefix, id) {
                let i = choose|i: int| 0 <= i < prefix.len() && (#[trigger] prefix[i]).rtc_id == id;
                assert(units[i].rtc_id == id);
            }
            if id == last.rtc_id {
                assert(units[units.len() - 1].rtc_id == id);
            }
        }
        assert forall|id: Id| bulk.contains_key(id) implies bulk[id] == step[id] by {
            if id == last.rtc_id {
                assert(units[units.len() - 1].rtc_id == id);
                let i = choose|i: int| 0 <= i < units.len() && (#[trigger] units[i]).rtc_id == id;
                assert(units[i].send_audio_updated_by == units[units.len() - 1].send_audio_updated_by);
            } else if writes_to(units, id) {
                let i = choose|i: int| 0 <= i < units.len() && (#[trigger] units[i]).rtc_id == id;
                assert(i < prefix.len());
                assert(prefix[i].rtc_id == id);
                let j = choose|j: int| 0 <= j < prefix.len() && (#[trigger] prefix[j]).rtc_id == id;
                assert(units[j].rtc_id == id);
                assert(units[i].send_audio_updated_by == units[j].send_audio_updated_by);
            } else {
                if writes_to(prefix, id) {
                    let j = choose|j: int|
                        0 <= j < prefix.len() && (#[trigger] prefix[j]).rtc_id == id;
                    assert(units[j].rtc_id == id);
                }
            }
        }
        assert(bulk =~= step);
    }
}

/// For a batch of distinct entities the bulk statement leaves the table as
/// one insert-or-update per pending write, applied in array order, does.
pub proof fn lemma_bulk_is_sequential(
    table: Map<Id, Option<AgentRecordView>>,
    units: Seq<UpsertView>,
)
    requires
        distinct_entities(units),
    ensures
        spec_upsert_bulk(table, units) == spec_upsert_each(table, units),
{
    assert(writes_agree(units)) by {
        assert forall|i: int, j: int|
            0 <= i < units.len() && 0 <= j < units.len() && (#[trigger] units[i]).rtc_id == (
            #[trigger] units[j]).rtc_id implies units[i].send_audio_updated_by
            == units[j].send_audio_updated_by by {
            if i < j {
                assert(units[i].rtc_id != units[j].rtc_id);
            } else if j < i {
                assert(units[j].rtc_id != units[i].rtc_id);
            }
        }
    }
    lemma_bulk_is_sequential_where_writes_agree(table, units);
}

/// A reconciliation pass is the same whether its writes are taken as a set
/// or one by one, also where an entity is listed twice: every one of its
/// writes records no agent.
pub proof fn lemma_reconcile_is_sequential(
    table: Map<Id, Option<AgentRecordView>>,
    rtc_ids: Seq<Id>,
)
    ensures
        spec_upsert_each(table, spec_clearing_batch(rtc_ids)) == spec_reconcile(table, rtc_ids),
{
    lemma_bulk_is_sequential_where_writes_agree(table, spec_clearing_batch(rtc_ids));
}

/// In a table where each of the given entities has a row without a value,
/// the join lists exactly those entities, in order, each without a value.
pub proof fn lemma_joined_rows_of_cleared(
    table: Map<Id, Option<AgentRecordView>>,
    rtc_ids: Seq<Id>,
)
    requires
        forall|i: int|
            0 <= i < rtc_ids.len() ==> table.contains_key(#[trigger] rtc_ids[i])
                && table[rtc_ids[i]] == None::<AgentRecordView>,
    ensures
        spec_joined_rows(table, rtc_ids) == rtc_ids.map_values(
            |id: Id| ConfigRowView { rtc_id: id, send_audio_updated_by: None },
        ),
    decreases rtc_ids.len(),
{
    let expected = rtc_ids.map_values(
        |id: Id| ConfigRowView { rtc_id: id, send_audio_updated_by: None },
    );
    if rtc_ids.len() == 0 {
        assert(spec_joined_rows(table, rtc_ids) =~= expected);
    } else {
        let prefix = rtc_ids.drop_last();
        assert forall|i: int| 0 <= i < prefix.len() implies table.contains_key(
            #[trigger] prefix[i],
        ) && table[prefix[i]] == None::<AgentRecordView> by {
            assert(prefix[i] == rtc_ids[i]);
        }
        lemma_joined_rows_of_cleared(table, prefix);
        assert(table.contains_key(rtc_ids[rtc_ids.len() - 1]));
        assert(spec_joined_rows(table, rtc_ids) =~= expected);
    }
}

/// After a reconciliation pass the join lists every given entity, in order,
/// each without an agent.
pub proof fn lemma_joined_rows_after_reconcile(
    table: Map<Id, Option<AgentRecordView>>,
    rtc_ids: Seq<Id>,
)
    ensures
        spec_joined_rows(spec_reconcile(table, rtc_ids), rtc_ids) == rtc_ids.map_values(
            |id: Id| ConfigRowView { rtc_id: id, send_audio_updated_by: None },
        ),
{
    let units = spec_clearing_batch(rtc_ids);
    let after = spec_reconcile(table, rtc_ids);
    assert forall|i: int| 0 <= i < rtc_ids.len() implies after.contains_key(
        #[trigger] rtc_ids[i],
    ) && after[rtc_ids[i]] == None::<AgentRecordView> by {
        let id = rtc_ids[i];
        assert(units[i].rtc_id == id);
        assert(writes_to(units, id));
        let k = choose|k: int| 0 <= k < units.len() && (#[trigger] units[k]).rtc_id == id;
        assert(units[k].send_audio_updated_by == None::<AgentIdView>);
    }
    lemma_joined_rows_of_cleared(after, rtc_ids);
}

/// After one insert-or-update per pending write, the entities with a row
/// are those that had one and those that the batch writes to.
pub proof fn lemma_rows_after_upsert_each(
    table: Map<Id, Option<AgentRecordView>>,
    units: Seq<UpsertView>,
)
    ensures
        forall|id: Id|
            #[trigger] spec_upsert_each(table, units).contains_key(id) <==> (table.contains_key(id)
                || writes_to(units, id)),
    decreases units.len(),
{
    if units.len() > 0 {
        let prefix = units.drop_last();
        lemma_rows_after_upsert_each(table, prefix);
        let before_last = spec_upsert_each(table, prefix);
        assert(spec_upsert_each(table, units) == spec_upsert(before_last, units.last()));
        assert forall|id: Id| #[trigger]
            spec_upsert_each(table, units).contains_key(id) <==> (table.contains_key(id)
                || writes_to(units, id)) by {
            assert(before_last.contains_key(id) <==> (table.contains_key(id) || writes_to(
                prefix,
                id,
            )));
            if writes_to(units, id) {
                let i = choose|i: int| 0 <= i < units.len() && (#[trigger] units[i]).rtc_id == id;
                if i < prefix.len() {
                    assert(prefix[i].rtc_id == id);
                }
            }
            if writes_to(prefix, id) {
                let i = choose|i: int| 0 <= i < prefix.len() && (#[trigger] prefix[i]).rtc_id == id;
                assert(units[i].rtc_id == id);
            }
            if id == units.last().rtc_id {
                assert(units[units.len() - 1].rtc_id == id);
            }
        }
    }
}

/// The empty batch leaves the table as it was and returns no row.
pub proof fn lemma_empty_batch(table: Map<Id, Option<AgentRecordView>>)
    ensures
        spec_upsert_bulk(table, Seq::empty()) == table,
        spec_upsert_each(table, Seq::empty()) == table,
        spec_returned_rows(Seq::empty()) == Seq::<ConfigRowView>::empty(),
{
    assert(spec_upsert_bulk(table, Seq::empty()) =~= table);
    assert(spec_returned_rows(Seq::empty()) =~= Seq::<ConfigRowView>::empty());
}

/// After the bulk statement on a batch of distinct entities, the row of each
/// written entity decodes to the incoming agent, whatever the table held: a
/// write without an agent leaves the entity without one.
pub proof fn lemma_incoming_value_overwrites(
    table: Map<Id, Option<AgentRecordView>>,
    units: Seq<UpsertView>,
    i: int,
)
    requires
        distinct_entities(units),
        0 <= i < units.len(),
    ensures
        spec_upsert_bulk(table, units).contains_key(units[i].rtc_id),
        spec_upsert_bulk(table, units)[units[i].rtc_id] == spec_encode(
            units[i].send_audio_updated_by,
        ),
        spec_decode(spec_upsert_bulk(table, units)[units[i].rtc_id])
            == units[i].send_audio_updated_by,
        units[i].send_audio_updated_by is None ==> spec_upsert_bulk(
            table,
            units,
        )[units[i].rtc_id] is None,
{
    let id = units[i].rtc_id;
    assert(writes_to(units, id));
    let k = choose|k: int| 0 <= k < units.len() && (#[trigger] units[k]).rtc_id == id;
    assert(k == i);
}

/// The bulk statement touches no row of an entity that the batch does not
/// write to.
pub proof fn lemma_other_rows_stay(
    table: Map<Id, Option<AgentRecordView>>,
    units: Seq<UpsertView>,
    id: Id,
)
    requires
        !writes_to(units, id),
    ensures
        spec_upsert_bulk(table, units).contains_key(id) == table.contains_key(id),
        table.contains_key(id) ==> spec_upsert_bulk(table, units)[id] == table[id],
{
}

/// A second reconciliation pass over the same entities changes nothing: the
/// table is what the first pass left, and so is the joined state, which
/// lists every given entity, in order, without an agent.
pub proof fn lemma_reconcile_idempotent(table: Map<Id, Option<AgentRecordView>>, rtc_ids: Seq<Id>)
    ensures
        spec_reconcile(spec_reconcile(table, rtc_ids), rtc_ids) == spec_reconcile(table, rtc_ids),
        spec_joined_rows(spec_reconcile(spec_reconcile(table, rtc_ids), rtc_ids), rtc_ids)
            == spec_joined_rows(spec_reconcile(table, rtc_ids), rtc_ids),
        spec_joined_rows(spec_reconcile(table, rtc_ids), rtc_ids) == rtc_ids.map_values(
            |id: Id| ConfigRowView { rtc_id: id, send_audio_updated_by: None },
        ),
{
    let units = spec_clearing_batch(rtc_ids);
    let once = spec_reconcile(table, rtc_ids);
    let twice = spec_reconcile(once, rtc_ids);
    assert forall|id: Id| writes_to(units, id) implies (#[trigger] once[id])
        == None::<AgentRecordView> by {
        let k = choose|k: int| 0 <= k < units.len() && (#[trigger] units[k]).rtc_id == id;
        assert(units[k].send_audio_updated_by == None::<AgentIdView>);
    }
    assert(twice =~= once);
    lemma_joined_rows_after_reconcile(table, rtc_ids);
}

/// The configuration table held in memory: at most one row per entity, each
/// with the composite value as the store would hold it.
pub struct ConfigTable {
    rows: HashMap<u128, Option<AgentRecord>>,
}

impl View for ConfigTable {
    type V = Map<Id, Option<AgentRecordView>>;

    closed spec fn view(&self) -> Map<Id, Option<AgentRecordView>> {
        Map::new(
            |id: Id| self.rows@.contains_key(id.0),
            |id: Id| record_view(self.rows@[id.0]),
        )
    }
}

fn clone_record(raw: &Option<AgentRecord>) -> (r: Option<AgentRecord>)
    ensures
        record_view(r) == record_view(*raw),
{
    match raw {
        Some(record) => Some(record.clone()),
        None => None,
    }
}

impl ConfigTable {
    /// The table without rows.
    pub fn new() -> (r: Self)
        ensures
            r@ == Map::<Id, Option<AgentRecordView>>::empty(),
    {
        let r = ConfigTable { rows: HashMap::new() };
        assert(r@ =~= Map::<Id, Option<AgentRecordView>>::empty());
        r
    }

    /// Stores `raw` as the value of the entity's row, as a writer other than
    /// the bulk statement would.
    pub fn put(&mut self, rtc_id: Id, raw: Option<AgentRecord>)
        ensures
            final(self)@ == old(self)@.insert(rtc_id, record_view(raw)),
    {
        self.rows.insert(rtc_id.0, raw);
        assert(self@ =~= old(self)@.insert(rtc_id, record_view(raw)));
    }

    /// The row of the entity, if it has one.
    pub fn get(&self, rtc_id: Id) -> (r: Option<ConfigRow>)
        ensures
            r.is_some() == self@.contains_key(rtc_id),
            r.is_some() ==> r.unwrap()@ == (ConfigRowView {
                rtc_id,
                send_audio_updated_by: self@[rtc_id],
            }),
    {
        match self.rows.get(&rtc_id.0) {
            Some(raw) => Some(ConfigRow { rtc_id, send_audio_updated_by: clone_record(raw) }),
            None => None,
        }
    }

    /// Carries out the bulk statement: one insert-or-update per pending
    /// write, in array order, each storing the encoded incoming value
    /// whether or not it is absent. Returns one row per pending write.
    pub fn execute(&mut self, batch: &BulkUpsertQuery) -> (rows: Vec<ConfigRow>)
        ensures
            final(self)@ == spec_upsert_each(old(self)@, batch@),
            distinct_entities(batch@) ==> final(self)@ == spec_upsert_bulk(old(self)@, batch@),
            writes_agree(batch@) ==> final(self)@ == spec_upsert_bulk(old(self)@, batch@),
            rows_view(rows@) == spec_returned_rows(batch@),
    {
        let ghost before = self@;
        let ghost units = batch@;
        let (rtc_ids, agents) = batch.parameters();
        let mut rows: Vec<ConfigRow> = Vec::new();
        let n: usize = rtc_ids.len();
        assert(agents.len() == n) by {
            assert(agent_refs_view(agents@).len() == agents@.len());
        }
        let mut i: usize = 0;
        while i < n
            invariant
                n == units.len(),
                rtc_ids.len() == n,
                agents.len() == n,
                rtc_ids@ == spec_rtc_ids(units),
                agent_refs_view(agents@) == spec_agents(units),
                i <= n,
                rows.len() == i,
                self@ == spec_upsert_each(before, units.take(i as int)),
                forall|j: int| 0 <= j < i ==> (#[trigger] rows[j])@ == spec_returned_rows(units)[j],
            decreases n - i,
        {
            let ghost prev = self@;
            let rtc_id = rtc_ids[i];
            assert(rtc_id == units[i as int].rtc_id);
            assert(agent_ref_view(agents[i as int])
                == units[i as int].send_audio_updated_by) by {
                assert(agent_refs_view(agents@)[i as int]
                    == spec_agents(units)[i as int]);
            }
            let stored = encode(agents[i]);
            let returned = encode(agents[i]);
            self.rows.insert(rtc_id.0, stored);
            rows.push(ConfigRow { rtc_id, send_audio_updated_by: returned });
            proof {
                assert(self@ =~= spec_upsert(prev, units[i as int]));
                assert(units.take(i + 1).drop_last() =~= units.take(i as int));
                assert(units.take(i + 1).last() == units[i as int]);
            }
            i += 1;
        }
        proof {
            assert(units.take(n as int) =~= units);
            assert(rows_view(rows@) =~= spec_returned_rows(units));
            if distinct_entities(units) {
                lemma_bulk_is_sequential(before, units);
            }
            if writes_agree(units) {
                lemma_bulk_is_sequential_where_writes_agree(before, units);
            }
        }
        rows
    }

    /// The rows of the join of the table with the given entities, in the
    /// order of the entities; an entity without a row gives none.
    pub fn list_with_rtc(&self, rtcs: &Vec<RtcObject>) -> (rows: Vec<ConfigRow>)
        ensures
            rows_view(rows@) == spec_joined_rows(self@, spec_entity_ids(rtcs@)),
    {
        let ghost ids = spec_entity_ids(rtcs@);
        let mut rows: Vec<ConfigRow> = Vec::new();
        let n: usize = rtcs.len();
        let mut i: usize = 0;
        assert(rows_view(rows@) =~= spec_joined_rows(self@, ids.take(0)));
        while i < n
            invariant
                n == rtcs.len(),
                ids == spec_entity_ids(rtcs@),
                i <= n,
                rows_view(rows@) == spec_joined_rows(self@, ids.take(i as int)),
            decreases n - i,
        {
            let ghost so_far = rows@;
            proof {
                assert(ids.take(i + 1).drop_last() =~= ids.take(i as int));
                assert(ids.take(i + 1).last() == rtcs[i as int].id);
            }
            match self.get(rtcs[i].id) {
                Some(row) => {
                    rows.push(row);
                    assert(rows_view(rows@) =~= rows_view(so_far).push(row@));
                },
                None => {},
            }
            i += 1;
        }
        assert(ids.take(n as int) =~= ids);
        rows
    }
}

} // verus!
