//! The composite-value codec: an optional agent id as the store holds it,
//! a record of two nullable fields or no value at all, and back.

use crate::ids::{AccountId, AccountIdView, AgentId, AgentIdView};
use vstd::prelude::*;

verus! {

/// The store's composite value for an agent: the account, then the label,
/// each of which the store may hold as NULL.
#[derive(Debug)]
pub struct AgentRecord {
    pub account_id: Option<AccountId>,
    pub label: Option<String>,
}

/// What an `AgentRecord` is in contracts.
pub struct AgentRecordView {
    pub account_id: Option<AccountIdView>,
    pub label: Option<Seq<char>>,
}

impl View for AgentRecord {
    type V = AgentRecordView;

    open spec fn view(&self) -> AgentRecordView {
        AgentRecordView {
            account_id: match self.account_id {
                Some(a) => Some(a@),
                None => None,
            },
            label: match self.label {
                Some(l) => Some(l@),
                None => None,
            },
        }
    }
}

impl Clone for AgentRecord {
    fn clone(&self) -> (r: Self)
        ensures
            r@ == self@,
    {
        AgentRecord {
            account_id: match &self.account_id {
                Some(a) => Some(a.clone()),
                None => None,
            },
            label: match &self.label {
                Some(l) => Some(l.clone()),
                None => None,
            },
        }
    }
}

/// The view of a nullable composite value.
pub open spec fn record_view(raw: Option<AgentRecord>) -> Option<AgentRecordView> {
    match raw {
        Some(r) => Some(r@),
        None => None,
    }
}

/// The view of an optional agent id.
pub open spec fn agent_view(agent: Option<AgentId>) -> Option<AgentIdView> {
    match agent {
        Some(a) => Some(a@),
        None => None,
    }
}

/// The view of an optional borrowed agent id.
pub open spec fn agent_ref_view(agent: Option<&AgentId>) -> Option<AgentIdView> {
    match agent {
        Some(a) => Some(a@),
        None => None,
    }
}

/// The composite value that stands for an optional agent: no value for none,
/// else the record of the account and the label, both present.
pub open spec fn spec_encode(agent: Option<AgentIdView>) -> Option<AgentRecordView> {
    match agent {
        Some(a) => Some(AgentRecordView { account_id: Some(a.account_id), label: Some(a.label) }),
        None => None,
    }
}

/// The agent that a composite value stands for: one only where the value is
/// there and both of its fields are. A record with a single field present
/// is read as no agent, not as an error.
pub open spec fn spec_decode(raw: Option<AgentRecordView>) -> Option<AgentIdView> {
    match raw {
        Some(r) => match (r.account_id, r.label) {
            (Some(account_id), Some(label)) => Some(AgentIdView { account_id, label }),
            _ => None,
        },
        None => None,
    }
}

/// The store's name for the composite type of one agent value.
pub fn agent_type_name() -> (name: &'static str)
    ensures
        name@ == "agent_id"@,
{
    "agent_id"
}

/// The store's name for the type of an array of agent values, under which
/// the second parameter of the bulk statement is sent.
pub fn agent_array_type_name() -> (name: &'static str)
    ensures
        name@ == "_agent_id"@,
{
    "_agent_id"
}

/// The store's name for the type of an array of entity ids, under which the
/// first parameter of the bulk statement is sent.
pub fn entity_array_type_name() -> (name: &'static str)
    ensures
        name@ == "_uuid"@,
{
    "_uuid"
}

/// Encodes an optional agent as the composite value sent to the store.
pub fn encode(agent: Option<&AgentId>) -> (raw: Option<AgentRecord>)
    ensures
        record_view(raw) == spec_encode(agent_ref_view(agent)),
{
    match agent {
        Some(a) => Some(
            AgentRecord {
                account_id: Some(a.account_id().clone()),
                label: Some(a.label().to_owned()),
            },
        ),
        None => None,
    }
}

/// Decodes a composite value read from the store. Anything but a record with
/// both fields present yields `None`; a half-filled record is deliberately
/// not told apart from an absent one.
pub fn decode(raw: Option<AgentRecord>) -> (agent: Option<AgentId>)
    ensures
        agent_view(agent) == spec_decode(record_view(raw)),
{
    match raw {
        Some(AgentRecord { account_id: Some(account_id), label: Some(label) }) => Some(
            AgentId::from_parts(account_id, label),
        ),
        _ => None,
    }
}

/// Encoding an agent and decoding the result gives the agent back.
pub proof fn lemma_round_trip(agent: AgentIdView)
    ensures
        spec_decode(spec_encode(Some(agent))) == Some(agent),
{
}

/// Encoding no agent and decoding the result gives no agent.
pub proof fn lemma_round_trip_none()
    ensures
        spec_decode(spec_encode(None)) == None::<AgentIdView>,
{
}

/// A composite value decodes to an agent exactly where the value is present
/// with both fields present, and then to the agent made of the two; an
/// absent value, or one with either field missing, decodes to none.
pub proof fn lemma_absence_collapse(raw: Option<AgentRecordView>)
    ensures
        spec_decode(raw).is_some() <==> (raw.is_some() && raw.unwrap().account_id.is_some()
            && raw.unwrap().label.is_some()),
        spec_decode(raw).is_some() ==> spec_decode(raw).unwrap() == (AgentIdView {
            account_id: raw.unwrap().account_id.unwrap(),
            label: raw.unwrap().label.unwrap(),
        }),
        spec_decode(None) == None::<AgentIdView>,
        forall|a: AccountIdView| #[trigger]
            spec_decode(Some(AgentRecordView { account_id: Some(a), label: None }))
                == None::<AgentIdView>,
        forall|l: Seq<char>| #[trigger]
            spec_decode(Some(AgentRecordView { account_id: None, label: Some(l) }))
                == None::<AgentIdView>,
        spec_decode(Some(AgentRecordView { account_id: None, label: None }))
            == None::<AgentIdView>,
{
}

} // verus!
