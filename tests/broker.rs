use celery_producer::broker::{keep_decoded, Broker, BrokerError, TaskQueue, TrackerTable};
use celery_producer::envelope::{create_task, decode_body, Payload};
use serde_json::Value;

fn add_payload() -> Payload {
    let args = vec![Value::Number(1.into()), Value::Number(2.into())];
    let kwargs = serde_json::Map::new();
    let task = "src-py.main.add";
    create_task(task, args, kwargs)
}

fn empty_queue() -> TaskQueue {
    TaskQueue::from_entries(Vec::new())
}

#[test]
fn broker_keeps_connection_string() {
    let broker = Broker::new("redis://localhost:6379");
    assert_eq!(broker.connection_string(), "redis://localhost:6379");
}

#[test]
fn broker_test_push_task() {
    let _broker = Broker::new("redis://localhost:6379");
    let payload = add_payload();
    let mut queue = empty_queue();
    queue.push_task(payload);
    assert_eq!(queue.len(), 1);
}

#[test]
fn broker_test_list_tasks() {
    let _broker = Broker::new("redis://localhost:6379");
    let mut queue = empty_queue();
    let first = add_payload();
    let second = add_payload();
    let (a, b) = (first.headers.id.clone(), second.headers.id.clone());
    queue.push_task(first);
    queue.push_task(second);
    let listed = queue.list_tasks();
    assert_eq!(listed.len(), 2);
    assert_eq!(listed[0].headers.id, b);
    assert_eq!(listed[1].headers.id, a);
}

#[test]
fn list_skips_entries_that_did_not_decode() {
    let p = add_payload();
    let q = add_payload();
    let (a, b) = (p.headers.id.clone(), q.headers.id.clone());
    let listed = keep_decoded(vec![None, Some(p), None, Some(q), None]);
    assert_eq!(listed.len(), 2);
    assert_eq!(listed[0].headers.id, a);
    assert_eq!(listed[1].headers.id, b);
    assert!(keep_decoded(vec![None, None]).is_empty());
}

#[test]
fn broker_test_get_task() {
    let _broker = Broker::new("redis://localhost:6379");
    let payload = add_payload();
    let id = payload.headers.id.clone();
    let body = payload.body.clone();
    let mut queue = empty_queue();
    queue.push_task(add_payload());
    queue.push_task(payload);
    let found = queue.get_task(&id);
    assert!(found.is_ok());
    let found = found.unwrap();
    assert_eq!(found.headers.id, id);
    assert_eq!(found.body, body);
    let bytes = decode_body(&found.body).unwrap();
    assert_eq!(
        String::from_utf8(bytes).unwrap(),
        r#"[[1,2],{},{"callbacks":null,"errbacks":null,"chain":null,"chord":null}]"#
    );
}

#[test]
fn get_task_finds_first_from_head_and_skips_undecoded() {
    let older = add_payload();
    let id = older.headers.id.clone();
    let mut newer = add_payload();
    newer.headers.id = id.clone();
    newer.headers.task = "newer".to_string();
    let queue = TaskQueue::from_entries(vec![None, Some(newer), Some(older)]);
    assert_eq!(queue.get_task(&id).unwrap().headers.task, "newer");
}

#[test]
fn get_unknown_task_is_not_found() {
    let mut queue = empty_queue();
    queue.push_task(add_payload());
    assert_eq!(queue.get_task("missing").err(), Some(BrokerError::NotFound));
    assert_eq!(empty_queue().get_task("missing").err(), Some(BrokerError::NotFound));
}

#[test]
fn push_delete_then_get_is_not_found() {
    let mut queue = empty_queue();
    queue.push_task(add_payload());
    let payload = add_payload();
    let id = payload.headers.id.clone();
    queue.push_task(payload);
    assert_eq!(queue.delete_task(&id), Ok(0));
    assert_eq!(queue.len(), 1);
    assert_eq!(queue.get_task(&id).err(), Some(BrokerError::NotFound));
    assert_eq!(queue.delete_task(&id), Err(BrokerError::NotFound));
    assert_eq!(queue.len(), 1);
}

#[test]
fn delete_removes_one_occurrence_at_its_position() {
    let a = add_payload();
    let id = a.headers.id.clone();
    let mut b = add_payload();
    b.headers.id = id.clone();
    let mut queue = TaskQueue::from_entries(vec![None, Some(a), Some(b)]);
    assert_eq!(queue.delete_task(&id), Ok(1));
    assert_eq!(queue.len(), 2);
    assert!(queue.get_task(&id).is_ok());
    assert_eq!(queue.delete_task(&id), Ok(1));
    assert!(queue.get_task(&id).is_err());
}

#[test]
fn test_create_task_tracker() {
    let _broker = Broker::new("redis://localhost:6379");
    let payload = add_payload();
    let mut table = TrackerTable::new();
    table.create_task_tracker(payload);
    assert_eq!(table.list_task_trackers().len(), 1);
}

#[test]
fn test_get_task_tracker() {
    let _broker = Broker::new("redis://localhost:6379");
    let payload = add_payload();
    let id = payload.headers.id.clone();
    let mut table = TrackerTable::new();
    table.create_task_tracker(payload);
    let result = table.get_task_tracker(&id);
    assert!(result.is_ok());
    assert_eq!(result.unwrap().headers.id, id);
    assert_eq!(table.get_task_tracker("missing").err(), Some(BrokerError::NotFound));
}

#[test]
fn test_delete_task_tracker() {
    let _broker = Broker::new("redis://localhost:6379");
    let payload = add_payload();
    let id = payload.headers.id.clone();
    let mut table = TrackerTable::new();
    table.create_task_tracker(payload);
    assert!(table.delete_task_tracker(&id));
    assert!(table.get_task_tracker(&id).is_err());
    assert!(!table.delete_task_tracker(&id));
}

#[test]
fn test_list_task_trackers() {
    let _broker = Broker::new("redis://localhost:6379");
    let table = TrackerTable::new();
    assert!(table.list_task_trackers().is_empty());
}

#[test]
fn distinct_trackers_are_all_listed() {
    let mut table = TrackerTable::new();
    let mut ids = Vec::new();
    for _ in 0..25 {
        let p = add_payload();
        ids.push(p.headers.id.clone());
        table.create_task_tracker(p);
    }
    let listed = table.list_task_trackers();
    assert_eq!(listed.len(), 25);
    let mut got: Vec<String> = listed.iter().map(|p| p.headers.id.clone()).collect();
    got.sort();
    ids.sort();
    assert_eq!(got, ids);
}

#[test]
fn tracker_with_same_id_is_replaced() {
    let mut table = TrackerTable::new();
    let first = add_payload();
    let id = first.headers.id.clone();
    let mut second = add_payload();
    second.headers.id = id.clone();
    second.headers.task = "replacement".to_string();
    table.create_task_tracker(first);
    table.create_task_tracker(add_payload());
    table.create_task_tracker(second);
    assert_eq!(table.get_task_tracker(&id).unwrap().headers.task, "replacement");
    let listed = table.list_task_trackers();
    assert_eq!(listed.len(), 2);
    assert_eq!(listed[0].headers.id, id);
}
