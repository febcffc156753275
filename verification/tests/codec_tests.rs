use rtc_writer_config::codec::{
    agent_array_type_name, agent_type_name, decode, encode, entity_array_type_name, AgentRecord,
};
use rtc_writer_config::ids::{AccountId, AgentId, Id};

fn account(label: &str, audience: &str) -> AccountId {
    AccountId::new(label.to_string(), audience.to_string())
}

fn agent(label: &str, account_label: &str, audience: &str) -> AgentId {
    AgentId::new(label, account(account_label, audience))
}

#[test]
fn id_keeps_its_bits() {
    let id = Id::from_u128(0x1234_5678_9abc_def0_0fed_cba9_8765_4321);
    assert_eq!(id.as_u128(), 0x1234_5678_9abc_def0_0fed_cba9_8765_4321);
    assert_eq!(id, Id(0x1234_5678_9abc_def0_0fed_cba9_8765_4321));
    assert_ne!(id, Id(1));
}

#[test]
fn account_id_holds_label_and_audience() {
    let a = account("svc", "example.org");
    assert_eq!(a.label(), "svc");
    assert_eq!(a.audience(), "example.org");
    assert_eq!(a.clone(), a);
    assert_ne!(a, account("svc", "example.com"));
    assert_ne!(a, account("web", "example.org"));
    let (label, audience) = a.into_parts();
    assert_eq!(label, "svc");
    assert_eq!(audience, "example.org");
}

#[test]
fn agent_id_new_takes_str_and_string() {
    let a = AgentId::new("inst01", account("svc", "example.org"));
    let b = AgentId::new(String::from("inst01"), account("svc", "example.org"));
    assert_eq!(a, b);
    assert_eq!(a.label(), "inst01");
    assert_eq!(a.account_id(), &account("svc", "example.org"));
    assert_eq!(a.clone(), a);
}

#[test]
fn agent_id_from_parts_equals_new() {
    let a = AgentId::from_parts(account("svc", "example.org"), "inst01".to_string());
    assert_eq!(a, agent("inst01", "svc", "example.org"));
}

#[test]
fn agents_of_one_account_differ_by_label() {
    assert_ne!(agent("inst01", "svc", "example.org"), agent("inst02", "svc", "example.org"));
    assert_ne!(agent("inst01", "svc", "example.org"), agent("inst01", "web", "example.org"));
}

#[test]
fn encode_none_is_no_value() {
    assert!(encode(None).is_none());
}

#[test]
fn encode_some_fills_both_fields_in_order() {
    let a = agent("inst01", "svc", "example.org");
    let raw = encode(Some(&a)).expect("a record");
    assert_eq!(raw.account_id, Some(account("svc", "example.org")));
    assert_eq!(raw.label, Some("inst01".to_string()));
}

#[test]
fn round_trip_gives_the_agent_back() {
    let a = agent("inst01", "svc", "example.org");
    assert_eq!(decode(encode(Some(&a))), Some(a));
    let b = agent("", "", "");
    assert_eq!(decode(encode(Some(&b))), Some(b));
    assert_eq!(decode(encode(None)), None);
}

#[test]
fn decode_absent_value_is_none() {
    assert_eq!(decode(None), None);
}

#[test]
fn decode_both_fields_absent_is_none() {
    assert_eq!(decode(Some(AgentRecord { account_id: None, label: None })), None);
}

#[test]
fn decode_account_without_label_collapses_to_none() {
    let raw = AgentRecord { account_id: Some(account("svc", "example.org")), label: None };
    assert_eq!(decode(Some(raw)), None);
}

#[test]
fn decode_label_without_account_collapses_to_none() {
    let raw = AgentRecord { account_id: None, label: Some("inst01".to_string()) };
    assert_eq!(decode(Some(raw)), None);
}

#[test]
fn decode_both_fields_present_is_the_agent() {
    let raw = AgentRecord {
        account_id: Some(account("svc", "example.org")),
        label: Some("inst01".to_string()),
    };
    assert_eq!(decode(Some(raw)), Some(agent("inst01", "svc", "example.org")));
}

#[test]
fn record_clone_keeps_both_fields() {
    let raw = AgentRecord { account_id: Some(account("svc", "example.org")), label: None };
    let copy = raw.clone();
    assert_eq!(copy.account_id, raw.account_id);
    assert_eq!(copy.label, None);
}

#[test]
fn type_names_of_the_bulk_parameters() {
    assert_eq!(agent_type_name(), "agent_id");
    assert_eq!(agent_array_type_name(), "_agent_id");
    assert_eq!(entity_array_type_name(), "_uuid");
}
