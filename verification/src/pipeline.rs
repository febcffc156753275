//! The reconciliation pass: list the entities, write a configuration row
//! for each in one batch, read the joined state back.

use crate::list::{ListQuery, ListWithRtcQuery};
use crate::rows::{Object, ObjectView, RtcObject};
use crate::store::{writes_known_entities, MemoryStore, StoreError};
use crate::table::{lemma_joined_rows_after_reconcile, spec_reconcile, writes_agree};
use crate::upsert::{spec_entity_ids, BulkUpsertQuery};
use vstd::prelude::*;

verus! {

/// One reconciliation pass on a store in memory. Every listed entity has a
/// configuration row without an agent afterwards, whatever its row held,
/// and the rows of other entities are untouched; the pass reports each
/// listed entity, in order, with that configuration. The pass itself never
/// writes for an entity that the store lacks, so the store refuses nothing.
pub fn reconcile(store: &mut MemoryStore) -> (r: Result<Vec<(Object, RtcObject)>, StoreError>)
    requires
        old(store).wf(),
    ensures
        final(store).wf(),
        final(store)@.entities == old(store)@.entities,
        final(store)@.config == spec_reconcile(old(store)@.config, old(store)@.entities),
        r is Ok,
        r.unwrap().len() == old(store)@.entities.len(),
        forall|j: int|
            0 <= j < r.unwrap().len() ==> ((#[trigger] r.unwrap()[j]).0@, r.unwrap()[j].1) == (
                ObjectView { rtc_id: old(store)@.entities[j], send_audio_updated_by: None },
                RtcObject { id: old(store)@.entities[j] },
            ),
{
    let ghost entities = store@.entities;
    let ghost before = store@.config;
    let rtcs = match ListQuery::new().execute(store) {
        Ok(rtcs) => rtcs,
        Err(e) => {
            return Err(e);
        },
    };
    let batch = BulkUpsertQuery::for_entities(&rtcs);
    proof {
        assert(spec_entity_ids(rtcs@) =~= entities);
        assert forall|i: int| 0 <= i < batch@.len() implies entities.contains(
            (#[trigger] batch@[i]).rtc_id,
        ) by {
            assert(entities[i] == batch@[i].rtc_id);
        }
        assert(writes_known_entities(entities, batch@));
        assert(writes_agree(batch@));
        lemma_joined_rows_after_reconcile(before, entities);
    }
    match batch.execute(store) {
        Ok(_) => {},
        Err(e) => {
            return Err(e);
        },
    }
    ListWithRtcQuery::new().execute(store)
}

} // verus!
