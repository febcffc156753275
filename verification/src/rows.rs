//! The rows the store hands back and the domain objects they decode into.

use crate::codec::{
    agent_ref_view, agent_view, decode, record_view, spec_decode, AgentRecord, AgentRecordView,
};
use crate::ids::{AgentId, AgentIdView, Id};
use vstd::prelude::*;

verus! {

/// The projection of one primary entity.
#[derive(Debug, Clone, Copy)]
pub struct RtcObject {
    pub id: Id,
}

/// One row of the configuration table as the store returns it: the entity
/// and the composite agent value, undecoded.
#[derive(Debug)]
pub struct ConfigRow {
    pub rtc_id: Id,
    pub send_audio_updated_by: Option<AgentRecord>,
}

/// What a `ConfigRow` is in contracts.
pub struct ConfigRowView {
    pub rtc_id: Id,
    pub send_audio_updated_by: Option<AgentRecordView>,
}

impl View for ConfigRow {
    type V = ConfigRowView;

    open spec fn view(&self) -> ConfigRowView {
        ConfigRowView {
            rtc_id: self.rtc_id,
            send_audio_updated_by: record_view(self.send_audio_updated_by),
        }
    }
}

/// The writer configuration of one entity: which agent, if any, last updated
/// its permission to send audio.
#[derive(Debug)]
pub struct Object {
    rtc_id: Id,
    send_audio_updated_by: Option<AgentId>,
}

/// What an `Object` is in contracts.
pub struct ObjectView {
    pub rtc_id: Id,
    pub send_audio_updated_by: Option<AgentIdView>,
}

impl View for Object {
    type V = ObjectView;

    closed spec fn view(&self) -> ObjectView {
        ObjectView {
            rtc_id: self.rtc_id,
            send_audio_updated_by: agent_view(self.send_audio_updated_by),
        }
    }
}

/// The configuration that a row of the store decodes into.
pub open spec fn spec_decode_row(row: ConfigRowView) -> ObjectView {
    ObjectView {
        rtc_id: row.rtc_id,
        send_audio_updated_by: spec_decode(row.send_audio_updated_by),
    }
}

impl Object {
    /// The configuration of `rtc_id` with this agent, or none.
    pub fn new(rtc_id: Id, send_audio_updated_by: Option<AgentId>) -> (r: Self)
        ensures
            r@ == (ObjectView { rtc_id, send_audio_updated_by: agent_view(send_audio_updated_by) }),
    {
        Object { rtc_id, send_audio_updated_by }
    }

    /// Decodes one row of the store.
    pub fn from_row(row: ConfigRow) -> (r: Self)
        ensures
            r@ == spec_decode_row(row@),
    {
        Object { rtc_id: row.rtc_id, send_audio_updated_by: decode(row.send_audio_updated_by) }
    }

    /// The entity that the configuration belongs to.
    pub fn rtc_id(&self) -> (r: Id)
        ensures
            r == self@.rtc_id,
    {
        self.rtc_id
    }

    /// The agent that last updated the permission to send audio, if any.
    pub fn send_audio_updated_by(&self) -> (r: Option<&AgentId>)
        ensures
            agent_ref_view(r) == self@.send_audio_updated_by,
    {
        self.send_audio_updated_by.as_ref()
    }
}

/// The views of a sequence of rows.
pub open spec fn rows_view(rows: Seq<ConfigRow>) -> Seq<ConfigRowView> {
    rows.map_values(|row: ConfigRow| row@)
}

/// The views of a sequence of configurations.
pub open spec fn objects_view(objects: Seq<Object>) -> Seq<ObjectView> {
    objects.map_values(|o: Object| o@)
}

/// The configurations that a sequence of rows decodes into, in order.
pub open spec fn spec_decode_rows(rows: Seq<ConfigRowView>) -> Seq<ObjectView> {
    rows.map_values(|row: ConfigRowView| spec_decode_row(row))
}

/// Decodes the rows that a statement returned, one configuration per row and
/// in the order of the rows.
pub fn decode_rows(rows: Vec<ConfigRow>) -> (objects: Vec<Object>)
    ensures
        objects_view(objects@) == spec_decode_rows(rows_view(rows@)),
{
    let ghost all = rows@;
    let mut objects: Vec<Object> = Vec::new();
    for row in it: rows
        invariant
            it.seq() == all,
            objects.len() == it.index(),
            forall|j: int| 0 <= j < objects.len() ==> (#[trigger] objects[j])@ == spec_decode_row(
                all[j]@,
            ),
    {
        objects.push(Object::from_row(row));
    }
    assert(objects_view(objects@) =~= spec_decode_rows(rows_view(all)));
    objects
}

} // verus!
