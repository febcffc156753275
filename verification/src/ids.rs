//! Identifier types: the entity id, the account id and the agent id.

use vstd::prelude::*;
use vstd::std_specs::convert::IntoSpec;

verus! {

/// The 128-bit identifier of one primary entity.
#[derive(Debug, Copy, Clone, Hash, PartialEq, Eq, Structural)]
pub struct Id(pub u128);

impl Id {
    /// Wraps the 128 bits of an identifier.
    pub fn from_u128(bits: u128) -> (r: Self)
        ensures
            r == Id(bits),
    {
        Id(bits)
    }

    /// The 128 bits of the identifier.
    pub fn as_u128(&self) -> (r: u128)
        ensures
            r == self.0,
    {
        self.0
    }
}

/// What an `AccountId` is in contracts.
pub struct AccountIdView {
    pub label: Seq<char>,
    pub audience: Seq<char>,
}

/// What an `AgentId` is in contracts.
pub struct AgentIdView {
    pub account_id: AccountIdView,
    pub label: Seq<char>,
}

/// An account: a label and the audience it belongs to.
#[derive(Debug, Hash)]
pub struct AccountId {
    label: String,
    audience: String,
}

impl View for AccountId {
    type V = AccountIdView;

    closed spec fn view(&self) -> AccountIdView {
        AccountIdView { label: self.label@, audience: self.audience@ }
    }
}

impl AccountId {
    /// The account with this label in this audience.
    pub fn new(label: String, audience: String) -> (r: Self)
        ensures
            r@ == (AccountIdView { label: label@, audience: audience@ }),
    {
        AccountId { label, audience }
    }

    /// The account's label.
    pub fn label(&self) -> (r: &str)
        ensures
            r@ == self@.label,
    {
        self.label.as_str()
    }

    /// The audience the account belongs to.
    pub fn audience(&self) -> (r: &str)
        ensures
            r@ == self@.audience,
    {
        self.audience.as_str()
    }

    /// Takes the account apart: the label, then the audience.
    pub fn into_parts(self) -> (r: (String, String))
        ensures
            r.0@ == self@.label,
            r.1@ == self@.audience,
    {
        (self.label, self.audience)
    }
}

impl Clone for AccountId {
    fn clone(&self) -> (r: Self)
        ensures
            r@ == self@,
    {
        AccountId { label: self.label.clone(), audience: self.audience.clone() }
    }
}

impl PartialEq for AccountId {
    fn eq(&self, other: &Self) -> (r: bool) {
        self.label == other.label && self.audience == other.audience
    }
}

impl vstd::std_specs::cmp::PartialEqSpecImpl for AccountId {
    open spec fn obeys_eq_spec() -> bool {
        true
    }

    open spec fn eq_spec(&self, other: &Self) -> bool {
        self@ == other@
    }
}

impl Eq for AccountId {

}

/// One connected actor: the account it belongs to and its label within it.
#[derive(Debug, Hash)]
pub struct AgentId {
    account_id: AccountId,
    label: String,
}

impl View for AgentId {
    type V = AgentIdView;

    closed spec fn view(&self) -> AgentIdView {
        AgentIdView { account_id: self.account_id@, label: self.label@ }
    }
}

impl AgentId {
    /// The agent of `account_id` with the label that `label` converts into.
    pub fn new<S: Into<String>>(label: S, account_id: AccountId) -> (r: Self)
        ensures
            r@.account_id == account_id@,
            S::obeys_into_spec() ==> r@.label == label.into_spec()@,
            exists|converted: String|
                call_ensures(<S as Into<String>>::into, (label,), converted) && r@.label
                    == converted@,
    {
        let converted: String = label.into();
        AgentId { label: converted, account_id }
    }

    /// The agent of `account_id` with exactly this label.
    pub fn from_parts(account_id: AccountId, label: String) -> (r: Self)
        ensures
            r@ == (AgentIdView { account_id: account_id@, label: label@ }),
    {
        AgentId { account_id, label }
    }

    /// The agent's label within its account.
    pub fn label(&self) -> (r: &str)
        ensures
            r@ == self@.label,
    {
        self.label.as_str()
    }

    /// The account the agent belongs to.
    pub fn account_id(&self) -> (r: &AccountId)
        ensures
            r@ == self@.account_id,
    {
        &self.account_id
    }
}

impl Clone for AgentId {
    fn clone(&self) -> (r: Self)
        ensures
            r@ == self@,
    {
        AgentId { account_id: self.account_id.clone(), label: self.label.clone() }
    }
}

impl PartialEq for AgentId {
    fn eq(&self, other: &Self) -> (r: bool) {
        self.account_id == other.account_id && self.label == other.label
    }
}

impl vstd::std_specs::cmp::PartialEqSpecImpl for AgentId {
    open spec fn obeys_eq_spec() -> bool {
        true
    }

    open spec fn eq_spec(&self, other: &Self) -> bool {
        self@ == other@
    }
}

impl Eq for AgentId {

}

} // verus!
