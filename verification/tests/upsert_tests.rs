use rtc_writer_config::codec::AgentRecord;
use rtc_writer_config::ids::{AccountId, AgentId, Id};
use rtc_writer_config::list::{ListQuery, ListWithRtcQuery, ListWithRtcRow};
use rtc_writer_config::rows::{decode_rows, ConfigRow, Object, RtcObject};
use rtc_writer_config::sql::{bulk_upsert_statement, list_statement, list_with_rtc_statement};
use rtc_writer_config::upsert::{BulkUpsertQuery, UpsertQuery};

fn svc_agent(label: &str) -> AgentId {
    AgentId::new(label, AccountId::new("svc".to_string(), "example.org".to_string()))
}

fn full_record(label: &str) -> AgentRecord {
    AgentRecord {
        account_id: Some(AccountId::new("svc".to_string(), "example.org".to_string())),
        label: Some(label.to_string()),
    }
}

#[test]
fn upsert_query_new_has_no_agent() {
    let q = UpsertQuery::new(Id(7));
    assert_eq!(q.rtc_id(), Id(7));
    assert_eq!(q.agent(), None);
}

#[test]
fn upsert_query_builder_sets_the_agent() {
    let a = svc_agent("inst01");
    let q = UpsertQuery::new(Id(7)).send_audio_updated_by(&a);
    assert_eq!(q.rtc_id(), Id(7));
    assert_eq!(q.agent(), Some(&a));
}

#[test]
fn empty_batch_has_empty_parameters() {
    let batch = BulkUpsertQuery::new();
    assert_eq!(batch.len(), 0);
    let (ids, agents) = batch.parameters();
    assert!(ids.is_empty());
    assert!(agents.is_empty());
}

#[test]
fn query_appends_and_chains() {
    let a = svc_agent("inst01");
    let mut batch = BulkUpsertQuery::new();
    batch
        .query(UpsertQuery::new(Id(1)))
        .query(UpsertQuery::new(Id(2)).send_audio_updated_by(&a))
        .query(UpsertQuery::new(Id(3)));
    assert_eq!(batch.len(), 3);
    let (ids, agents) = batch.parameters();
    assert_eq!(ids, vec![Id(1), Id(2), Id(3)]);
    assert_eq!(agents, vec![None, Some(&a), None]);
}

#[test]
fn parameters_are_parallel_arrays() {
    let a = svc_agent("inst01");
    let b = svc_agent("inst02");
    let mut batch = BulkUpsertQuery::new();
    batch.query(UpsertQuery::new(Id(10)).send_audio_updated_by(&a));
    batch.query(UpsertQuery::new(Id(20)).send_audio_updated_by(&b));
    let (ids, agents) = batch.parameters();
    assert_eq!(ids.len(), agents.len());
    assert_eq!(ids[0], Id(10));
    assert_eq!(agents[0], Some(&a));
    assert_eq!(ids[1], Id(20));
    assert_eq!(agents[1], Some(&b));
}

#[test]
fn batch_clone_holds_the_same_writes() {
    let a = svc_agent("inst01");
    let mut batch = BulkUpsertQuery::new();
    batch.query(UpsertQuery::new(Id(1)).send_audio_updated_by(&a));
    let copy = batch.clone();
    batch.query(UpsertQuery::new(Id(2)));
    assert_eq!(copy.len(), 1);
    let (ids, agents) = copy.parameters();
    assert_eq!(ids, vec![Id(1)]);
    assert_eq!(agents, vec![Some(&a)]);
}

#[test]
fn for_entities_writes_no_agent_for_each() {
    let rtcs = vec![RtcObject { id: Id(1) }, RtcObject { id: Id(2) }];
    let batch = BulkUpsertQuery::for_entities(&rtcs);
    let (ids, agents) = batch.parameters();
    assert_eq!(ids, vec![Id(1), Id(2)]);
    assert_eq!(agents, vec![None, None]);
    assert_eq!(BulkUpsertQuery::for_entities(&Vec::new()).len(), 0);
}

#[test]
fn decode_results_decodes_each_row_in_order() {
    let rows = vec![
        ConfigRow { rtc_id: Id(1), send_audio_updated_by: None },
        ConfigRow { rtc_id: Id(2), send_audio_updated_by: Some(full_record("inst01")) },
        ConfigRow {
            rtc_id: Id(3),
            send_audio_updated_by: Some(AgentRecord { account_id: None, label: None }),
        },
        ConfigRow {
            rtc_id: Id(4),
            send_audio_updated_by: Some(AgentRecord {
                account_id: None,
                label: Some("inst01".to_string()),
            }),
        },
    ];
    let objects = BulkUpsertQuery::new().decode_results(rows);
    assert_eq!(objects.len(), 4);
    assert_eq!(objects[0].rtc_id(), Id(1));
    assert_eq!(objects[0].send_audio_updated_by(), None);
    assert_eq!(objects[1].rtc_id(), Id(2));
    assert_eq!(objects[1].send_audio_updated_by(), Some(&svc_agent("inst01")));
    assert_eq!(objects[2].rtc_id(), Id(3));
    assert_eq!(objects[2].send_audio_updated_by(), None);
    assert_eq!(objects[3].rtc_id(), Id(4));
    assert_eq!(objects[3].send_audio_updated_by(), None);
}

#[test]
fn decode_rows_of_nothing_is_nothing() {
    assert!(decode_rows(Vec::new()).is_empty());
    assert!(BulkUpsertQuery::new().decode_results(Vec::new()).is_empty());
}

#[test]
fn object_from_row_and_new_agree() {
    let from_row =
        Object::from_row(ConfigRow { rtc_id: Id(9), send_audio_updated_by: Some(full_record("x")) });
    let made = Object::new(Id(9), Some(svc_agent("x")));
    assert_eq!(from_row.rtc_id(), made.rtc_id());
    assert_eq!(from_row.send_audio_updated_by(), made.send_audio_updated_by());
}

#[test]
fn list_query_wraps_each_id() {
    let rtcs = ListQuery::new().decode_results(&vec![Id(5), Id(6), Id(5)]);
    assert_eq!(rtcs.len(), 3);
    assert_eq!(rtcs[0].id, Id(5));
    assert_eq!(rtcs[1].id, Id(6));
    assert_eq!(rtcs[2].id, Id(5));
    assert!(ListQuery::default().decode_results(&Vec::new()).is_empty());
}

#[test]
fn list_with_rtc_row_splits_into_config_and_entity() {
    let (object, rtc) = ListWithRtcRow::new(Id(3), Some(svc_agent("inst01"))).split();
    assert_eq!(object.rtc_id(), Id(3));
    assert_eq!(object.send_audio_updated_by(), Some(&svc_agent("inst01")));
    assert_eq!(rtc.id, Id(3));
}

#[test]
fn list_with_rtc_decodes_pairs_in_order() {
    let rows = vec![
        ConfigRow { rtc_id: Id(1), send_audio_updated_by: Some(full_record("inst01")) },
        ConfigRow {
            rtc_id: Id(2),
            send_audio_updated_by: Some(AgentRecord {
                account_id: Some(AccountId::new("svc".to_string(), "example.org".to_string())),
                label: None,
            }),
        },
    ];
    let pairs = ListWithRtcQuery::new().decode_results(rows);
    assert_eq!(pairs.len(), 2);
    assert_eq!(pairs[0].0.rtc_id(), Id(1));
    assert_eq!(pairs[0].0.send_audio_updated_by(), Some(&svc_agent("inst01")));
    assert_eq!(pairs[0].1.id, Id(1));
    assert_eq!(pairs[1].0.rtc_id(), Id(2));
    assert_eq!(pairs[1].0.send_audio_updated_by(), None);
    assert_eq!(pairs[1].1.id, Id(2));
}

#[test]
fn statements_name_their_tables_and_parameters() {
    assert_eq!(list_statement(), "SELECT id AS rtc_id FROM rtc");
    assert!(list_with_rtc_statement().contains("INNER JOIN rtc AS r ON rwc.rtc_id = r.id"));
    let sql = bulk_upsert_statement();
    assert!(sql.contains("UNNEST ($1::uuid[], $2::agent_id[])"));
    assert!(sql.contains("ON CONFLICT (rtc_id) DO UPDATE SET send_audio_updated_by = excluded.send_audio_updated_by"));
    assert!(sql.ends_with("RETURNING rtc_id, send_audio_updated_by"));
}
