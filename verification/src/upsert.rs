//! The bulk upsert: pending writes, the batch that gathers them, and the two
//! parallel arrays that the batch is sent as.

use crate::codec::agent_ref_view;
use crate::ids::{AgentId, AgentIdView, Id};
use crate::rows::{
    decode_rows, objects_view, rows_view, spec_decode_rows, ConfigRow, Object, ObjectView, RtcObject,
};
use crate::store::{writes_known_entities, MemoryStore, StoreError};
use crate::table::{
    distinct_entities, spec_returned_rows, spec_upsert_bulk, spec_upsert_each, writes_agree,
};
use vstd::prelude::*;

verus! {

/// One pending write: the entity, and the agent to record for it, if any.
#[derive(Clone, Copy, Debug)]
pub struct UpsertQuery<'a> {
    rtc_id: Id,
    send_audio_updated_by: Option<&'a AgentId>,
}

/// What a pending write is in contracts.
pub struct UpsertView {
    pub rtc_id: Id,
    pub send_audio_updated_by: Option<AgentIdView>,
}

impl<'a> View for UpsertQuery<'a> {
    type V = UpsertView;

    closed spec fn view(&self) -> UpsertView {
        UpsertView {
            rtc_id: self.rtc_id,
            send_audio_updated_by: agent_ref_view(self.send_audio_updated_by),
        }
    }
}

impl<'a> UpsertQuery<'a> {
    /// A write for `rtc_id` that records no agent.
    pub fn new(rtc_id: Id) -> (r: Self)
        ensures
            r@ == (UpsertView { rtc_id, send_audio_updated_by: None }),
    {
        UpsertQuery { rtc_id, send_audio_updated_by: None }
    }

    /// The same write, recording `send_audio_updated_by`.
    pub fn send_audio_updated_by(self, send_audio_updated_by: &'a AgentId) -> (r: Self)
        ensures
            r@ == (UpsertView {
                rtc_id: self@.rtc_id,
                send_audio_updated_by: Some(send_audio_updated_by@),
            }),
    {
        UpsertQuery { rtc_id: self.rtc_id, send_audio_updated_by: Some(send_audio_updated_by) }
    }

    /// The entity that the write is for.
    pub fn rtc_id(&self) -> (r: Id)
        ensures
            r == self@.rtc_id,
    {
        self.rtc_id
    }

    /// The agent that the write records, if any.
    pub fn agent(&self) -> (r: Option<&'a AgentId>)
        ensures
            agent_ref_view(r) == self@.send_audio_updated_by,
    {
        self.send_audio_updated_by
    }
}

/// The entity of each pending write, in order.
pub open spec fn spec_rtc_ids(units: Seq<UpsertView>) -> Seq<Id> {
    units.map_values(|u: UpsertView| u.rtc_id)
}

/// The agent of each pending write, in order.
pub open spec fn spec_agents(units: Seq<UpsertView>) -> Seq<Option<AgentIdView>> {
    units.map_values(|u: UpsertView| u.send_audio_updated_by)
}

/// The views of a sequence of optional borrowed agents.
pub open spec fn agent_refs_view(agents: Seq<Option<&AgentId>>) -> Seq<Option<AgentIdView>> {
    agents.map_values(|a: Option<&AgentId>| agent_ref_view(a))
}

/// The batch that writes no agent for each of the given entities, in order.
pub open spec fn spec_clearing_batch(rtc_ids: Seq<Id>) -> Seq<UpsertView> {
    rtc_ids.map_values(|id: Id| UpsertView { rtc_id: id, send_audio_updated_by: None })
}

/// The ids of a sequence of entities.
pub open spec fn spec_entity_ids(rtcs: Seq<RtcObject>) -> Seq<Id> {
    rtcs.map_values(|rtc: RtcObject| rtc.id)
}

/// The configurations that a batch reports once written: for each pending
/// write, in order, its entity with its agent.
pub open spec fn spec_written(units: Seq<UpsertView>) -> Seq<ObjectView> {
    units.map_values(
        |u: UpsertView|
            ObjectView { rtc_id: u.rtc_id, send_audio_updated_by: u.send_audio_updated_by },
    )
}

/// Decoding the rows that the statement returns gives each pending write
/// back: its entity, and its agent or none.
pub proof fn lemma_returned_rows_decode_to_writes(units: Seq<UpsertView>)
    ensures
        spec_decode_rows(spec_returned_rows(units)) == spec_written(units),
{
    assert(spec_decode_rows(spec_returned_rows(units)) =~= spec_written(units));
}

/// A batch of pending writes, sent to the store as one statement.
#[derive(Debug)]
pub struct BulkUpsertQuery<'a> {
    queries: Vec<UpsertQuery<'a>>,
}

impl<'a> View for BulkUpsertQuery<'a> {
    type V = Seq<UpsertView>;

    closed spec fn view(&self) -> Seq<UpsertView> {
        self.queries@.map_values(|q: UpsertQuery<'a>| q@)
    }
}

impl<'a> Clone for BulkUpsertQuery<'a> {
    fn clone(&self) -> (r: Self)
        ensures
            r@ == self@,
    {
        let mut queries: Vec<UpsertQuery<'a>> = Vec::new();
        let n: usize = self.queries.len();
        let mut i: usize = 0;
        while i < n
            invariant
                n == self.queries.len(),
                i <= n,
                queries@ == self.queries@.take(i as int),
            decreases n - i,
        {
            queries.push(self.queries[i]);
            assert(self.queries@.take(i + 1) =~= self.queries@.take(i as int).push(
                self.queries[i as int],
            ));
            i += 1;
        }
        assert(self.queries@.take(n as int) =~= self.queries@);
        BulkUpsertQuery { queries }
    }
}

impl<'a> BulkUpsertQuery<'a> {
    /// The empty batch.
    pub fn new() -> (r: Self)
        ensures
            r@ == Seq::<UpsertView>::empty(),
    {
        let r = BulkUpsertQuery { queries: Vec::new() };
        assert(r@ =~= Seq::<UpsertView>::empty());
        r
    }

    /// Appends one pending write and hands the batch back.
    pub fn query(&mut self, query: UpsertQuery<'a>) -> (r: &mut Self)
        ensures
            r@ == old(self)@.push(query@),
            *final(self) == *final(r),
    {
        self.queries.push(query);
        assert(self@ =~= old(self)@.push(query@));
        self
    }

    /// The number of pending writes.
    pub fn len(&self) -> (n: usize)
        ensures
            n == self@.len(),
    {
        self.queries.len()
    }

    /// The two parallel arrays of the statement: the entity of each pending
    /// write, and at the same index its agent.
    pub fn parameters(&self) -> (r: (Vec<Id>, Vec<Option<&'a AgentId>>))
        ensures
            r.0@ == spec_rtc_ids(self@),
            agent_refs_view(r.1@) == spec_agents(self@),
    {
        let mut rtc_ids: Vec<Id> = Vec::new();
        let mut agents: Vec<Option<&'a AgentId>> = Vec::new();
        let n: usize = self.queries.len();
        let mut i: usize = 0;
        while i < n
            invariant
                n == self.queries.len(),
                i <= n,
                rtc_ids.len() == i,
                agents.len() == i,
                forall|j: int| 0 <= j < i ==> rtc_ids[j] == (#[trigger] self.queries[j])@.rtc_id,
                forall|j: int|
                    0 <= j < i ==> agent_ref_view(agents[j]) == (#[trigger]
                    self.queries[j])@.send_audio_updated_by,
            decreases n - i,
        {
            rtc_ids.push(self.queries[i].rtc_id);
            agents.push(self.queries[i].send_audio_updated_by);
            i += 1;
        }
        assert(rtc_ids@ =~= spec_rtc_ids(self@));
        assert(agent_refs_view(agents@) =~= spec_agents(self@));
        (rtc_ids, agents)
    }

    /// Runs the batch on a store in memory as one statement. Where every
    /// write is for an entity that the store lists, each entity's row holds
    /// the incoming value afterwards, an absent one too, and the written
    /// configurations come back in the order of the writes. Else the store
    /// refuses the whole batch and is left as it was.
    pub fn execute(&self, store: &mut MemoryStore) -> (r: Result<Vec<Object>, StoreError>)
        requires
            old(store).wf(),
        ensures
            final(store).wf(),
            final(store)@.entities == old(store)@.entities,
            r is Ok <==> writes_known_entities(old(store)@.entities, self@),
            r is Ok ==> {
                &&& final(store)@.config == spec_upsert_each(old(store)@.config, self@)
                &&& writes_agree(self@) ==> final(store)@.config == spec_upsert_bulk(
                    old(store)@.config,
                    self@,
                )
                &&& distinct_entities(self@) ==> final(store)@.config == spec_upsert_bulk(
                    old(store)@.config,
                    self@,
                )
                &&& objects_view(r.unwrap()@) == spec_written(self@)
            },
            r is Err ==> r == Err::<Vec<Object>, StoreError>(StoreError::ForeignKeyViolation)
                && final(store)@.config == old(store)@.config,
    {
        match store.bulk_upsert(self) {
            Ok(rows) => {
                proof {
                    lemma_returned_rows_decode_to_writes(self@);
                }
                Ok(self.decode_results(rows))
            },
            Err(e) => Err(e),
        }
    }

    /// Decodes the rows that the statement returned into configurations.
    pub fn decode_results(&self, rows: Vec<ConfigRow>) -> (objects: Vec<Object>)
        ensures
            objects_view(objects@) == spec_decode_rows(rows_view(rows@)),
    {
        decode_rows(rows)
    }

    /// The batch of one reconciliation pass: for each entity, in order, a
    /// write that records no agent.
    pub fn for_entities(rtcs: &Vec<RtcObject>) -> (r: Self)
        ensures
            r@ == spec_clearing_batch(spec_entity_ids(rtcs@)),
    {
        let mut batch = BulkUpsertQuery::new();
        let n: usize = rtcs.len();
        let mut i: usize = 0;
        while i < n
            invariant
                n == rtcs.len(),
                i <= n,
                batch@ == spec_clearing_batch(spec_entity_ids(rtcs@.take(i as int))),
            decreases n - i,
        {
            batch.query(UpsertQuery::new(rtcs[i].id));
            assert(rtcs@.take(i + 1) =~= rtcs@.take(i as int).push(rtcs[i as int]));
            assert(batch@ =~= spec_clearing_batch(spec_entity_ids(rtcs@.take(i + 1))));
            i += 1;
        }
        assert(rtcs@.take(n as int) =~= rtcs@);
        batch
    }
}

} // verus!
