use nature::common::error::{ErrorKind, NatureError};
use nature::common::instance::{IDAndFrom, Instance, KeyCondition};
use nature::common::meta::{Meta, MetaSetting, MetaType};
use nature::common::mission::Relation;
use nature::common::task::{RawTask, TaskError, TaskType};
use nature::db::cache::{MetaCache, RelationCache};
use nature::db::instance_store::InstanceStore;
use nature::db::task_log::{backoff, time_after, TaskLog};
use nature::fg_service::convert::verify;

fn task(data: &str, execute_time: i64) -> RawTask {
    let mut t = RawTask::new(data, "B:a:1", TaskType::Store, 1000);
    t.execute_time = execute_time;
    t
}

#[test]
fn task_id_is_the_hash_of_the_body() {
    let a = RawTask::new("python.org", "B:a:1", TaskType::Store, 1);
    assert_eq!("6fa459eaee8a3ca4894edb77e160355e", a.task_id);
    assert_eq!("python.org", a.data);
    assert_eq!("B:a:1", a.task_key);
    assert_eq!(TaskType::Store, a.task_type);
    assert_eq!(1, a.create_time);
    assert_eq!(1, a.execute_time);
    assert_eq!(0, a.retried_times);
    let b = RawTask::new("python.org", "B:b:1", TaskType::Convert, 999);
    assert_eq!(a.task_id, b.task_id);
    let c = RawTask::new("python.org ", "B:a:1", TaskType::Store, 1);
    assert_ne!(a.task_id, c.task_id);
    let expected = uuid::Uuid::new_v3(&uuid::Uuid::NAMESPACE_DNS, "{\"x\":1}".as_bytes());
    assert_eq!(
        format!("{:x}", expected.as_u128()),
        RawTask::new("{\"x\":1}", "", TaskType::Store, 0).task_id
    );
}

#[test]
fn log_refuses_a_second_task_with_the_same_id() {
    let mut log = TaskLog::new();
    assert_eq!(0, log.len());
    assert!(log.insert(task("a", 5)).is_ok());
    assert_eq!(Err(NatureError::Duplicated), log.insert(task("a", 9)));
    assert_eq!(1, log.len());
    let id = task("a", 0).task_id;
    assert!(log.contains(&id));
    assert_eq!(5, log.get(&id).unwrap().execute_time);
    assert!(log.get("nothing").is_none());
    assert_eq!(0, log.delete("nothing"));
    assert_eq!(1, log.delete(&id));
    assert_eq!(0, log.len());
}

#[test]
fn batch_replaces_the_parent_by_its_children() {
    let mut log = TaskLog::new();
    let parent = task("parent", 1);
    let other = task("other", 1);
    log.insert(parent.clone()).unwrap();
    log.insert(other.clone()).unwrap();
    let children = vec![task("c1", 2), task("c2", 3)];
    log.save_batch(&children, &parent.task_id);
    assert!(!log.contains(&parent.task_id));
    assert!(log.contains(&children[0].task_id));
    assert!(log.contains(&children[1].task_id));
    assert!(log.contains(&other.task_id));
    assert_eq!(3, log.len());
    assert_eq!(0, log.error_count());
}

#[test]
fn replaying_a_batch_changes_nothing() {
    let mut log = TaskLog::new();
    let parent = task("parent", 1);
    log.insert(parent.clone()).unwrap();
    let children = vec![task("c1", 2), task("c2", 3), task("c1", 7)];
    log.save_batch(&children, &parent.task_id);
    assert_eq!(2, log.len());
    assert_eq!(2, log.get(&children[0].task_id).unwrap().execute_time);
    let mut later = vec![task("c1", 50), task("c2", 60)];
    later[0].retried_times = 4;
    log.save_batch(&later, &parent.task_id);
    assert_eq!(2, log.len());
    assert_eq!(2, log.get(&children[0].task_id).unwrap().execute_time);
    assert_eq!(0, log.get(&children[0].task_id).unwrap().retried_times);
    assert_eq!(3, log.get(&children[1].task_id).unwrap().execute_time);
    assert!(!log.contains(&parent.task_id));
}

#[test]
fn a_child_with_the_id_of_its_parent_leaves_with_it() {
    let mut log = TaskLog::new();
    let parent = task("same", 1);
    log.insert(parent.clone()).unwrap();
    log.save_batch(&vec![task("same", 2), task("c", 3)], &parent.task_id);
    assert_eq!(1, log.len());
    assert!(!log.contains(&parent.task_id));
}

#[test]
fn backoff_doubles_up_to_the_cap() {
    let expected = [1u32, 2, 4, 8, 16, 32, 64, 128, 256, 300, 300, 300];
    for (n, want) in expected.iter().enumerate() {
        assert_eq!(*want, backoff(n as i16), "after {} tries", n);
    }
    assert_eq!(1, backoff(-3));
    assert_eq!(300, backoff(i16::MAX));
    assert_eq!(4_000, time_after(1_000, 3));
    assert_eq!(i64::MAX, time_after(i64::MAX - 5, 1));
    assert_eq!(-999_000, time_after(-1_000_000, 1));
}

#[test]
fn transient_failure_reschedules_and_keeps_the_task() {
    let mut log = TaskLog::new();
    let t = task("store me", 1_000);
    log.insert(t.clone()).unwrap();
    assert!(log.increase_retry(&t.task_id, 10_000));
    let after = log.get(&t.task_id).unwrap();
    assert_eq!(1, after.retried_times);
    assert_eq!(11_000, after.execute_time);
    assert!(log.increase_retry(&t.task_id, 20_000));
    let after = log.get(&t.task_id).unwrap();
    assert_eq!(2, after.retried_times);
    assert_eq!(22_000, after.execute_time);
    assert!(log.increase_retry(&t.task_id, 30_000));
    assert_eq!(34_000, log.get(&t.task_id).unwrap().execute_time);
    assert_eq!(0, log.error_count());
    assert_eq!(1, log.len());
    assert!(!log.increase_retry("nothing", 1));
}

#[test]
fn delay_moves_the_time_but_counts_no_try() {
    let mut log = TaskLog::new();
    let t = task("wait", 1_000);
    log.insert(t.clone()).unwrap();
    assert!(log.update_execute_time(&t.task_id, 77_000));
    let after = log.get(&t.task_id).unwrap();
    assert_eq!(77_000, after.execute_time);
    assert_eq!(0, after.retried_times);
    assert_eq!(1000, after.create_time);
    assert!(!log.update_execute_time("nothing", 1));
}

#[test]
fn failed_task_moves_to_the_error_table() {
    let mut log = TaskLog::new();
    let t = task("broken", 1);
    let kept = task("fine", 1);
    log.insert(t.clone()).unwrap();
    log.insert(kept.clone()).unwrap();
    log.move_to_error(&NatureError::LogicalError("meta mismatch".to_string()), &t);
    assert!(!log.contains(&t.task_id));
    assert!(log.contains(&kept.task_id));
    assert_eq!(1, log.error_count());
    assert!(log.get_error(1).is_none());
    let record = log.get_error(0).unwrap();
    assert_eq!(t.task_id, record.task.task_id);
    assert_eq!(ErrorKind::Logical, record.err_code);
    assert_eq!("meta mismatch", record.err_msg);
    let direct = TaskError::new(&NatureError::Break, &t);
    assert_eq!(ErrorKind::Break, direct.err_code);
    assert_eq!("", direct.err_msg);
}

#[test]
fn overdue_tasks_come_earliest_first() {
    let mut log = TaskLog::new();
    for (data, at) in [("a", 50), ("b", 10), ("c", 99), ("d", 30), ("e", 10), ("f", 40)] {
        log.insert(task(data, at)).unwrap();
    }
    let times = |list: Vec<RawTask>| list.iter().map(|t| t.execute_time).collect::<Vec<i64>>();
    assert_eq!(vec![10, 10, 30, 40, 50], times(log.get_overdue(50, 10)));
    assert_eq!(vec![10, 10, 30], times(log.get_overdue(50, 3)));
    assert_eq!(vec![10], times(log.get_overdue(1000, 1)));
    assert_eq!(Vec::<i64>::new(), times(log.get_overdue(1000, 0)));
    assert_eq!(Vec::<i64>::new(), times(log.get_overdue(9, 10)));
    assert_eq!(vec![10, 10, 30, 40, 50, 99], times(log.get_overdue(99, 6)));
    let due = log.get_overdue(10, 5);
    let mut data: Vec<&str> = due.iter().map(|t| t.data.as_str()).collect();
    data.sort();
    assert_eq!(vec!["b", "e"], data);
}

fn version(meta: &str, id: u64, para: &str, v: i32, from_key: &str) -> Instance {
    let mut ins = Instance::default();
    ins.meta = meta.to_string();
    ins.id = id;
    ins.para = para.to_string();
    ins.state_version = v;
    ins.from_key = from_key.to_string();
    ins
}

#[test]
fn store_takes_versions_in_order_only() {
    let mut store = InstanceStore::new();
    assert!(store.insert(version("B:o:1", 1, "", 0, "")).is_ok());
    assert!(store.insert(version("B:o:1", 1, "", 1, "")).is_ok());
    assert_eq!(Err(NatureError::Duplicated), store.insert(version("B:o:1", 1, "", 1, "x")));
    assert_eq!(
        Err(NatureError::LogicalError("state version must follow the last one".to_string())),
        store.insert(version("B:o:1", 1, "", 3, ""))
    );
    assert_eq!(
        Err(NatureError::LogicalError("state version must follow the last one".to_string())),
        store.insert(version("B:o:1", 2, "", 1, ""))
    );
    assert_eq!(
        Err(NatureError::LogicalError("state version must follow the last one".to_string())),
        store.insert(version("B:o:1", 1, "p", -1, ""))
    );
    assert!(store.insert(version("B:o:1", 1, "p", 0, "")).is_ok());
    assert!(store.insert(version("B:o:1", 1, "", 2, "")).is_ok());
    assert_eq!(4, store.len());
}

#[test]
fn store_finds_by_key_last_state_and_origin() {
    let mut store = InstanceStore::new();
    store.insert(version("B:o:1", 1, "", 0, "up|1||0")).unwrap();
    store.insert(version("B:o:1", 1, "", 1, "up|2||0")).unwrap();
    store.insert(version("B:o:1", 1, "", 2, "up|1||0")).unwrap();
    store.insert(version("B:o:1", 1, "p", 0, "up|1||0")).unwrap();
    store.insert(version("B:x:1", 1, "", 0, "up|9||0")).unwrap();
    let got = store.get_by_id(&KeyCondition::new(1, "B:o:1", "", 1)).unwrap();
    assert_eq!("up|2||0", got.from_key);
    assert!(store.get_by_id(&KeyCondition::new(1, "B:o:1", "", 3)).is_none());
    assert!(store.get_by_id(&KeyCondition::new(2, "B:o:1", "", 0)).is_none());
    let last = store.get_last_state(&KeyCondition::new(1, "B:o:1", "", 0)).unwrap();
    assert_eq!(2, last.state_version);
    let last = store.get_last_state(&KeyCondition::new(1, "B:o:1", "p", 0)).unwrap();
    assert_eq!(0, last.state_version);
    assert!(store.get_last_state(&KeyCondition::new(1, "B:o:1", "q", 0)).is_none());
    let from = |key: &str| IDAndFrom { id: 1, meta: "B:o:1".to_string(), from_key: key.to_string() };
    assert_eq!(2, store.get_by_from(&from("up|1||0")).unwrap().state_version);
    assert_eq!(1, store.get_by_from(&from("up|2||0")).unwrap().state_version);
    assert!(store.get_by_from(&from("up|3||0")).is_none());
}

fn stateful(key: &str) -> Meta {
    Meta {
        key: key.to_string(),
        meta_type: MetaType::Business,
        states: Some("new|paid".to_string()),
        setting: None,
    }
}

#[test]
fn racing_conversions_end_up_one_version_apart() {
    let to = stateful("B:order:1");
    let mut store = InstanceStore::new();
    store.insert(version("B:order:1", 7, "", 0, "")).unwrap();
    let condition = KeyCondition::new(7, "B:order:1", "", 0);
    let upstream_a = version("B:pay:1", 1, "", 0, "");
    let upstream_b = version("B:pay:1", 2, "", 0, "");
    let seen = store.get_last_state(&condition);
    let first = verify(&to, &upstream_a, &seen, &vec![Instance::default()]).unwrap();
    let second = verify(&to, &upstream_b, &seen, &vec![Instance::default()]).unwrap();
    assert_eq!(1, first[0].state_version);
    assert_eq!(1, second[0].state_version);
    assert_eq!(7, second[0].id);
    assert!(store.insert(first[0].clone()).is_ok());
    assert_eq!(Err(NatureError::Duplicated), store.insert(second[0].clone()));
    let reloaded = store.get_last_state(&condition);
    let again = verify(&to, &upstream_b, &reloaded, &vec![Instance::default()]).unwrap();
    assert_eq!(2, again[0].state_version);
    assert!(store.insert(again[0].clone()).is_ok());
    let versions: Vec<i32> = (0..3)
        .map(|v| store.get_by_id(&KeyCondition::new(7, "B:order:1", "", v)).unwrap().state_version)
        .collect();
    assert_eq!(vec![0, 1, 2], versions);
    assert_eq!(3, store.len());
}

fn meta(key: &str) -> Meta {
    Meta { key: key.to_string(), meta_type: MetaType::Business, states: None, setting: None }
}

#[test]
fn cache_trusts_an_entry_for_its_time_only() {
    let mut cache = MetaCache::new(3600);
    assert!(cache.get("B:a:1", 0).is_none());
    cache.put("B:a:1".to_string(), meta("B:a:1"), 1_000);
    assert_eq!("B:a:1", cache.get("B:a:1", 1_000).unwrap().key);
    assert_eq!("B:a:1", cache.get("B:a:1", 3_601_000).unwrap().key);
    assert!(cache.get("B:a:1", 3_601_001).is_none());
    assert!(cache.get("B:a:1", 999).is_none());
    assert!(cache.get("B:b:1", 1_000).is_none());
    let mut newer = meta("B:a:1");
    newer.meta_type = MetaType::Loop;
    cache.put("B:a:1".to_string(), newer, 4_000_000);
    assert_eq!(MetaType::Loop, cache.get("B:a:1", 4_000_001).unwrap().meta_type);
    cache.forget("B:a:1");
    assert!(cache.get("B:a:1", 4_000_001).is_none());
}

#[test]
fn cache_reads_through_and_forgets_what_is_missing() {
    let mut cache = MetaCache::new(10);
    let got = cache.read_through("B:a:1", Ok(meta("B:a:1")), 5_000).unwrap();
    assert_eq!("B:a:1", got.key);
    assert!(cache.get("B:a:1", 5_001).is_some());
    let err = cache
        .read_through("B:a:1", Err(NatureError::EnvError("down".to_string())), 20_000)
        .unwrap_err();
    assert_eq!(NatureError::EnvError("down".to_string()), err);
    assert!(cache.get("B:a:1", 5_001).is_none());
    let mut relations = RelationCache::new(1);
    let none: Vec<Relation> = vec![];
    relations.put("B:a:1".to_string(), none, 0);
    assert_eq!(0, relations.get("B:a:1", 1_000).unwrap().len());
    assert!(relations.get("B:a:1", 1_001).is_none());
}

#[test]
fn multi_meta_stands_for_the_metas_it_lists() {
    let mut multi = meta("M:all:1");
    assert_eq!(vec!["M:all:1".to_string()], multi.relation_sources());
    multi.meta_type = MetaType::Multi;
    assert_eq!(Vec::<String>::new(), multi.relation_sources());
    multi.setting = Some(MetaSetting {
        is_state: false,
        master: None,
        multi_meta: vec!["B:a:1".to_string(), "B:b:1".to_string()],
        cache_saved: true,
        only_one: false,
    });
    assert_eq!(vec!["B:a:1".to_string(), "B:b:1".to_string()], multi.relation_sources());
    assert!(multi.need_cache());
    assert!(!multi.is_state());
    assert!(!multi.check_master("B:a:1"));
    assert_eq!(MetaType::Multi, multi.get_meta_type());
    assert_eq!("M:all:1", multi.meta_string());
    assert!(multi.get_setting().unwrap().cache_saved);
    assert!(stateful("B:s:1").is_state());
    assert!(stateful("B:s:1").get_setting().is_none());
}

#[test]
fn meta_key_names_the_kind() {
    let m = Meta::from_string("B:sale/order:1").unwrap();
    assert_eq!("B:sale/order:1", m.key);
    assert_eq!(MetaType::Business, m.meta_type);
    assert!(m.states.is_none());
    assert!(m.setting.is_none());
    assert_eq!(MetaType::Dynamic, Meta::from_string("D:x:0").unwrap().meta_type);
    assert_eq!(MetaType::Multi, Meta::from_string("M:x:+7").unwrap().meta_type);
    assert_eq!(MetaType::Loop, Meta::from_string("L:x:4294967295").unwrap().meta_type);
    assert_eq!(MetaType::Null, Meta::from_string("N::1").unwrap().meta_type);
    for bad in ["", "B:x", "B:x:1:2", "X:x:1", "b:x:1", "BB:x:1", ":x:1", "B:x:", "B:x:v1", "B:x:4294967296"] {
        assert_eq!(
            Err(NatureError::VerifyError("illegal format for meta key".to_string())),
            Meta::from_string(bad).map(|m| m.key),
            "{:?}",
            bad
        );
    }
}

#[test]
fn task_type_codes_read_back() {
    for (t, code) in [
        (TaskType::Store, 1i8),
        (TaskType::Convert, 2),
        (TaskType::BatchParallel, 11),
        (TaskType::BatchSerial, 12),
    ] {
        assert_eq!(code, t.code());
        assert_eq!(Some(t), TaskType::from_code(code));
    }
    assert_eq!(None, TaskType::from_code(0));
    assert_eq!(None, TaskType::from_code(-1));
    assert_eq!(None, TaskType::from_code(3));
}
