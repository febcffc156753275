//! The two list queries: every primary entity, and every configuration
//! joined with its entity. The store is read elsewhere; what is here turns
//! the rows it returned into domain objects.

use crate::codec::{agent_view, decode};
use crate::ids::{AgentId, Id};
use crate::rows::{
    rows_view, spec_decode_row, ConfigRow, ConfigRowView, Object, ObjectView, RtcObject,
};
use crate::store::{MemoryStore, StoreError};
use crate::table::spec_joined_rows;
use vstd::prelude::*;

verus! {

/// The query that lists every primary entity.
#[derive(Debug)]
pub struct ListQuery {}

impl Default for ListQuery {
    fn default() -> (r: Self)
        ensures
            r == (ListQuery {  }),
    {
        ListQuery {  }
    }
}

impl ListQuery {
    /// The query; it has no parameters.
    pub fn new() -> (r: Self)
        ensures
            r == (ListQuery {  }),
    {
        ListQuery {  }
    }

    /// Runs the query on a store in memory: every primary entity, in the
    /// order the store lists them. Reading memory does not fail.
    pub fn execute(&self, store: &MemoryStore) -> (r: Result<Vec<RtcObject>, StoreError>)
        ensures
            r is Ok,
            r.unwrap()@ == store@.entities.map_values(|id: Id| RtcObject { id }),
    {
        let ids = store.select_entities();
        Ok(self.decode_results(&ids))
    }

    /// The entities of the ids that the store returned, one per id and in
    /// the order of the ids.
    pub fn decode_results(&self, ids: &Vec<Id>) -> (rtcs: Vec<RtcObject>)
        ensures
            rtcs@ == ids@.map_values(|id: Id| RtcObject { id }),
    {
        let mut rtcs: Vec<RtcObject> = Vec::new();
        let n: usize = ids.len();
        let mut i: usize = 0;
        while i < n
            invariant
                n == ids.len(),
                i <= n,
                rtcs.len() == i,
                forall|j: int| 0 <= j < i ==> (#[trigger] rtcs[j]).id == ids[j],
            decreases n - i,
        {
            rtcs.push(RtcObject { id: ids[i] });
            i += 1;
        }
        assert(rtcs@ =~= ids@.map_values(|id: Id| RtcObject { id }));
        rtcs
    }
}

/// One row of the join of a configuration with its entity, decoded.
#[derive(Debug)]
pub struct ListWithRtcRow {
    rtc_id: Id,
    send_audio_updated_by: Option<AgentId>,
}

impl ListWithRtcRow {
    /// The row of `rtc_id` with this agent, or none.
    pub fn new(rtc_id: Id, send_audio_updated_by: Option<AgentId>) -> (r: Self)
        ensures
            r.spec_split() == (
                ObjectView { rtc_id, send_audio_updated_by: agent_view(send_audio_updated_by) },
                RtcObject { id: rtc_id },
            ),
    {
        ListWithRtcRow { rtc_id, send_audio_updated_by }
    }

    /// Decodes one row of the join as the store returned it.
    pub fn from_row(row: ConfigRow) -> (r: Self)
        ensures
            r.spec_split() == spec_joined_pair(row@),
    {
        ListWithRtcRow {
            rtc_id: row.rtc_id,
            send_audio_updated_by: decode(row.send_audio_updated_by),
        }
    }

    /// The configuration and the entity that the row holds.
    pub closed spec fn spec_split(self) -> (ObjectView, RtcObject) {
        (
            ObjectView {
                rtc_id: self.rtc_id,
                send_audio_updated_by: agent_view(self.send_audio_updated_by),
            },
            RtcObject { id: self.rtc_id },
        )
    }

    /// Splits the row into the configuration and the entity that owns it.
    pub fn split(self) -> (r: (Object, RtcObject))
        ensures
            (r.0@, r.1) == self.spec_split(),
    {
        (Object::new(self.rtc_id, self.send_audio_updated_by), RtcObject { id: self.rtc_id })
    }
}

/// The pair that a row of the join decodes into: the configuration of the
/// row, and the entity with the row's id.
pub open spec fn spec_joined_pair(row: ConfigRowView) -> (ObjectView, RtcObject) {
    (spec_decode_row(row), RtcObject { id: row.rtc_id })
}

/// The query that lists every configuration with the entity that owns it.
#[derive(Debug)]
pub struct ListWithRtcQuery {}

impl ListWithRtcQuery {
    /// The query; it has no parameters.
    pub fn new() -> (r: Self)
        ensures
            r == (ListWithRtcQuery {  }),
    {
        ListWithRtcQuery {  }
    }

    /// Runs the query on a store in memory: for each entity that has a
    /// configuration row, in the order the store lists the entities, the
    /// decoded configuration and the entity. Reading memory does not fail.
    pub fn execute(&self, store: &MemoryStore) -> (r: Result<Vec<(Object, RtcObject)>, StoreError>)
        ensures
            r is Ok,
            r.unwrap().len() == spec_joined_rows(store@.config, store@.entities).len(),
            forall|j: int|
                0 <= j < r.unwrap().len() ==> ((#[trigger] r.unwrap()[j]).0@, r.unwrap()[j].1)
                    == spec_joined_pair(spec_joined_rows(store@.config, store@.entities)[j]),
    {
        let rows = store.select_joined();
        assert(rows@.len() == rows_view(rows@).len());
        assert forall|j: int| 0 <= j < rows.len() implies (#[trigger] rows[j])@ == spec_joined_rows(
            store@.config,
            store@.entities,
        )[j] by {
            assert(rows_view(rows@)[j] == rows[j]@);
        }
        Ok(self.decode_results(rows))
    }

    /// Decodes the rows of the join, one pair per row and in the order of
    /// the rows.
    pub fn decode_results(&self, rows: Vec<ConfigRow>) -> (pairs: Vec<(Object, RtcObject)>)
        ensures
            pairs.len() == rows.len(),
            forall|j: int|
                0 <= j < rows.len() ==> ((#[trigger] pairs[j]).0@, pairs[j].1) == spec_joined_pair(
                    rows[j]@,
                ),
    {
        let ghost all = rows@;
        let mut pairs: Vec<(Object, RtcObject)> = Vec::new();
        for row in it: rows
            invariant
                it.seq() == all,
                pairs.len() == it.index(),
                forall|j: int|
                    0 <= j < pairs.len() ==> ((#[trigger] pairs[j]).0@, pairs[j].1)
                        == spec_joined_pair(all[j]@),
        {
            pairs.push(ListWithRtcRow::from_row(row).split());
        }
        pairs
    }
}

} // verus!
