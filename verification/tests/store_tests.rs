use rtc_writer_config::codec::encode;
use rtc_writer_config::ids::{AccountId, AgentId, Id};
use rtc_writer_config::list::{ListQuery, ListWithRtcQuery};
use rtc_writer_config::pipeline::reconcile;
use rtc_writer_config::rows::{Object, RtcObject};
use rtc_writer_config::store::{MemoryStore, StoreError};
use rtc_writer_config::upsert::{BulkUpsertQuery, UpsertQuery};

fn svc_agent(label: &str) -> AgentId {
    AgentId::new(label, AccountId::new("svc".to_string(), "example.org".to_string()))
}

fn store_with(ids: &[u128]) -> MemoryStore {
    let mut store = MemoryStore::new();
    for id in ids {
        assert!(store.add_entity(Id(*id)));
    }
    store
}

fn flat(pairs: Vec<(Object, RtcObject)>) -> Vec<(Id, Option<AgentId>, Id)> {
    pairs.into_iter().map(|(o, r)| (o.rtc_id(), o.send_audio_updated_by().cloned(), r.id)).collect()
}

fn joined(store: &MemoryStore) -> Vec<(Id, Option<AgentId>, Id)> {
    flat(ListWithRtcQuery::new().execute(store).expect("the join"))
}

#[test]
fn new_store_lists_nothing() {
    let store = MemoryStore::new();
    assert!(ListQuery::new().execute(&store).expect("the list").is_empty());
    assert!(ListWithRtcQuery::new().execute(&store).expect("the join").is_empty());
    assert!(!store.has_entity(Id(1)));
    assert!(store.config_row(Id(1)).is_none());
}

#[test]
fn add_entity_lists_each_entity_once() {
    let mut store = MemoryStore::new();
    assert!(store.add_entity(Id(2)));
    assert!(store.add_entity(Id(1)));
    assert!(!store.add_entity(Id(2)));
    let rtcs = ListQuery::new().execute(&store).expect("the list");
    assert_eq!(rtcs.len(), 2);
    assert_eq!(rtcs[0].id, Id(2));
    assert_eq!(rtcs[1].id, Id(1));
    assert_eq!(store.select_entities(), vec![Id(2), Id(1)]);
}

#[test]
fn put_config_needs_a_listed_entity() {
    let a = svc_agent("inst01");
    let mut store = store_with(&[1]);
    assert_eq!(store.put_config(Id(2), encode(Some(&a))), Err(StoreError::ForeignKeyViolation));
    assert!(store.config_row(Id(2)).is_none());
    assert_eq!(store.put_config(Id(1), encode(Some(&a))), Ok(()));
    assert_eq!(joined(&store), vec![(Id(1), Some(a), Id(1))]);
}

#[test]
fn execute_writes_every_unit_and_reports_it() {
    let a = svc_agent("inst01");
    let mut store = store_with(&[1, 2, 3]);
    let mut batch = BulkUpsertQuery::new();
    batch.query(UpsertQuery::new(Id(3)).send_audio_updated_by(&a)).query(UpsertQuery::new(Id(1)));
    let objects = batch.execute(&mut store).expect("the batch");
    assert_eq!(objects.len(), 2);
    assert_eq!(objects[0].rtc_id(), Id(3));
    assert_eq!(objects[0].send_audio_updated_by(), Some(&a));
    assert_eq!(objects[1].rtc_id(), Id(1));
    assert_eq!(objects[1].send_audio_updated_by(), None);
    assert_eq!(joined(&store), vec![(Id(1), None, Id(1)), (Id(3), Some(a), Id(3))]);
}

#[test]
fn execute_with_unknown_entity_refuses_the_whole_batch() {
    let a = svc_agent("inst01");
    let mut store = store_with(&[1]);
    assert_eq!(store.put_config(Id(1), encode(Some(&a))), Ok(()));
    let mut batch = BulkUpsertQuery::new();
    batch.query(UpsertQuery::new(Id(1))).query(UpsertQuery::new(Id(2)));
    let refused = batch.execute(&mut store);
    assert_eq!(refused.err(), Some(StoreError::ForeignKeyViolation));
    assert_eq!(joined(&store), vec![(Id(1), Some(a), Id(1))]);
    assert!(store.config_row(Id(2)).is_none());
}

#[test]
fn execute_of_empty_batch_is_ok_and_changes_nothing() {
    let a = svc_agent("inst01");
    let mut store = store_with(&[1, 2]);
    assert_eq!(store.put_config(Id(1), encode(Some(&a))), Ok(()));
    let objects = BulkUpsertQuery::new().execute(&mut store).expect("the empty batch");
    assert!(objects.is_empty());
    assert_eq!(joined(&store), vec![(Id(1), Some(a), Id(1))]);
    let empty = MemoryStore::new();
    let mut empty = empty;
    assert!(BulkUpsertQuery::new().execute(&mut empty).expect("the empty batch").is_empty());
}

#[test]
fn execute_overwrites_with_none() {
    let a = svc_agent("inst01");
    let mut store = store_with(&[1]);
    assert_eq!(store.put_config(Id(1), encode(Some(&a))), Ok(()));
    let mut batch = BulkUpsertQuery::new();
    batch.query(UpsertQuery::new(Id(1)));
    let objects = batch.execute(&mut store).expect("the batch");
    assert_eq!(objects[0].send_audio_updated_by(), None);
    assert_eq!(joined(&store), vec![(Id(1), None, Id(1))]);
}

#[test]
fn bulk_execute_equals_sequential_executes() {
    let a = svc_agent("inst01");
    let b = svc_agent("inst02");
    let mut bulk = store_with(&[1, 2, 3, 4]);
    let mut each = store_with(&[1, 2, 3, 4]);
    assert_eq!(bulk.put_config(Id(2), encode(Some(&a))), Ok(()));
    assert_eq!(each.put_config(Id(2), encode(Some(&a))), Ok(()));
    let units = vec![
        UpsertQuery::new(Id(3)).send_audio_updated_by(&b),
        UpsertQuery::new(Id(2)),
        UpsertQuery::new(Id(1)).send_audio_updated_by(&a),
    ];
    let mut batch = BulkUpsertQuery::new();
    for unit in &units {
        batch.query(*unit);
    }
    batch.execute(&mut bulk).expect("the batch");
    for unit in &units {
        let mut single = BulkUpsertQuery::new();
        single.query(*unit);
        single.execute(&mut each).expect("one write");
    }
    assert_eq!(joined(&bulk), joined(&each));
    assert_eq!(
        joined(&bulk),
        vec![(Id(1), Some(a), Id(1)), (Id(2), None, Id(2)), (Id(3), Some(b), Id(3))]
    );
}

#[test]
fn reconcile_gives_every_entity_a_row_without_agent() {
    let a = svc_agent("inst01");
    let mut store = store_with(&[5, 6, 7]);
    assert_eq!(store.put_config(Id(6), encode(Some(&a))), Ok(()));
    let reported = flat(reconcile(&mut store).expect("the pass"));
    assert_eq!(reported, vec![(Id(5), None, Id(5)), (Id(6), None, Id(6)), (Id(7), None, Id(7))]);
    assert_eq!(joined(&store), reported);
}

#[test]
fn reconcile_twice_reports_the_same_state() {
    let a = svc_agent("inst01");
    let mut store = store_with(&[5, 6]);
    assert_eq!(store.put_config(Id(5), encode(Some(&a))), Ok(()));
    let first = flat(reconcile(&mut store).expect("the first pass"));
    let second = flat(reconcile(&mut store).expect("the second pass"));
    assert_eq!(first, second);
}

#[test]
fn reconcile_of_empty_store_reports_nothing() {
    let mut store = MemoryStore::new();
    assert!(reconcile(&mut store).expect("the pass").is_empty());
}

#[test]
fn end_to_end_scenario() {
    let e1 = Id(0xe1);
    let e2 = Id(0xe2);
    let mut store = store_with(&[0xe1, 0xe2]);
    assert!(joined(&store).is_empty());

    let reported = flat(reconcile(&mut store).expect("the first run"));
    assert_eq!(reported, vec![(e1, None, e1), (e2, None, e2)]);
    assert!(store.config_row(e1).expect("a row").send_audio_updated_by.is_none());
    assert!(store.config_row(e2).expect("a row").send_audio_updated_by.is_none());
    assert_eq!(joined(&store), vec![(e1, None, e1), (e2, None, e2)]);

    let agent =
        AgentId::new("inst01", AccountId::new("svc".to_string(), "example.org".to_string()));
    assert_eq!(store.put_config(e1, encode(Some(&agent))), Ok(()));
    assert_eq!(joined(&store), vec![(e1, Some(agent.clone()), e1), (e2, None, e2)]);

    let mut batch = BulkUpsertQuery::new();
    batch.query(UpsertQuery::new(e1));
    let written = batch.execute(&mut store).expect("the batch");
    assert_eq!(written.len(), 1);
    assert_eq!(written[0].rtc_id(), e1);
    assert_eq!(written[0].send_audio_updated_by(), None);
    assert_eq!(joined(&store), vec![(e1, None, e1), (e2, None, e2)]);
}
