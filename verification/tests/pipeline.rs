use nature::common::collections::TextSet;
use nature::common::converter::{ConverterParameter, ConverterReturned, SelfRouteInstance};
use nature::common::error::{ErrorKind, NatureError};
use nature::common::instance::{Instance, KeyCondition};
use nature::common::meta::{Meta, MetaSetting, MetaType};
use nature::common::mission::{
    Executor, FlowSelector, LastStatusDemand, Mission, Protocol, Relation, TargetDemand,
};
use nature::common::task::{RawTask, TaskType};
use nature::controller::act_batch::{channel_batch, inner_batch};
use nature::db::instance_dao::{InstanceDaoImpl, LastTarget};
use nature::db::task_log::TaskLog;
use nature::fg_service::convert::{
    verify, CallOutParameter, CallbackResult, ConvertServiceImpl, ConvertServiceTrait,
    ConverterInfo, DelayedInstances,
};
use nature::flow::inner_controller::{prepare_to_store, InnerController, SerialStep};
use nature::flow::planner::{context_check, state_check};
use nature::mock::{InstanceServiceTrait, MockInstanceTrait};
use nature::task::command::{Command, Converted, Message};
use nature::task::draft::{build_convert_tasks, build_store_tasks, Built, ConvertDraft, Draft};
use nature::task::process_line::ProcessLine;
use nature::task::store::{
    ParallelBatchInstance, PlanInfo, SerialBatchInstance, StoreTaskInfo,
};

fn meta(key: &str) -> Meta {
    Meta { key: key.to_string(), meta_type: MetaType::Business, states: None, setting: None }
}

fn stateful(key: &str) -> Meta {
    let mut m = meta(key);
    m.states = Some("new|paid".to_string());
    m
}

fn setting() -> MetaSetting {
    MetaSetting {
        is_state: false,
        master: None,
        multi_meta: vec![],
        cache_saved: false,
        only_one: false,
    }
}

fn demand() -> TargetDemand {
    TargetDemand { append_para: vec![], state_include: vec![], state_exclude: vec![] }
}

fn relation(to: Meta) -> Relation {
    Relation {
        from: "B:from:1".to_string(),
        to,
        selector: None,
        executor: Some(Executor {
            protocol: Protocol::BuiltIn,
            url: "dimensionSplit".to_string(),
            settings: "{}".to_string(),
        }),
        use_upstream_id: false,
        target_demand: demand(),
        last_status_demand: None,
    }
}

fn selector() -> FlowSelector {
    FlowSelector {
        state_all: vec![],
        state_any: vec![],
        state_none: vec![],
        context_all: vec![],
        context_any: vec![],
        context_none: vec![],
    }
}

fn upstream() -> Instance {
    let mut ins = Instance::default();
    ins.meta = "B:from:1".to_string();
    ins.id = 42;
    ins.para = "2020/05/13".to_string();
    ins.sys_context.insert("trace".to_string(), "t1".to_string());
    ins
}

fn mission(to: Meta) -> Mission {
    Mission::from_relation(&relation(to), &Instance::default())
}

fn texts(list: &[&str]) -> Vec<String> {
    list.iter().map(|s| s.to_string()).collect()
}

fn states(list: &[&str]) -> TextSet {
    let mut set = TextSet::new();
    for s in list {
        set.insert(s.to_string());
    }
    set
}

#[test]
fn selector_checks_states() {
    let mut s = selector();
    assert!(state_check(&s, &states(&[])));
    s.state_all = texts(&["a", "b"]);
    assert!(state_check(&s, &states(&["b", "a", "c"])));
    assert!(!state_check(&s, &states(&["a"])));
    s.state_any = texts(&["x", "y"]);
    assert!(!state_check(&s, &states(&["a", "b"])));
    assert!(state_check(&s, &states(&["a", "b", "y"])));
    s.state_none = texts(&["z"]);
    assert!(state_check(&s, &states(&["a", "b", "y"])));
    assert!(!state_check(&s, &states(&["a", "b", "y", "z"])));
}

#[test]
fn selector_checks_context_keys() {
    let mut ins = Instance::default();
    ins.context.insert("vip".to_string(), "no".to_string());
    let mut s = selector();
    assert!(context_check(&s, &ins.context));
    s.context_all = texts(&["vip"]);
    assert!(context_check(&s, &ins.context));
    s.context_all = texts(&["vip", "gold"]);
    assert!(!context_check(&s, &ins.context));
    s.context_all = vec![];
    s.context_any = texts(&["gold", "vip"]);
    assert!(context_check(&s, &ins.context));
    s.context_any = texts(&["gold"]);
    assert!(!context_check(&s, &ins.context));
    s.context_any = vec![];
    s.context_none = texts(&["vip"]);
    assert!(!context_check(&s, &ins.context));
}

#[test]
fn planner_emits_missions_in_stored_order() {
    let mut from = upstream();
    from.states.insert("paid".to_string());
    let plain = relation(meta("B:a:1"));
    let mut skipped = relation(meta("B:b:1"));
    let mut sel = selector();
    sel.state_none = texts(&["paid"]);
    skipped.selector = Some(sel);
    let mut kept = relation(meta("B:c:1"));
    let mut sel = selector();
    sel.state_all = texts(&["paid"]);
    kept.selector = Some(sel);
    let missions = Mission::get_by_instance(&from, &vec![plain, skipped, kept]);
    let targets: Vec<&str> = missions.iter().map(|m| m.to.key.as_str()).collect();
    assert_eq!(vec!["B:a:1", "B:c:1"], targets);
    assert_eq!(Some("t1".to_string()), missions[0].sys_context.get("trace"));
    assert_eq!(None, missions[0].sys_context.get("sys.target_instance_id"));
    assert_eq!(None, missions[0].sys_context.get("sys.target_instance_para"));
    assert_eq!("dimensionSplit", missions[0].executor.as_ref().unwrap().url);
    assert_eq!(0, Mission::get_by_instance(&from, &vec![]).len());
}

#[test]
fn planner_records_target_para_and_id() {
    let from = upstream();
    let mut r = relation(meta("B:a:1"));
    r.target_demand.append_para = vec![0, 2];
    r.use_upstream_id = true;
    let m = Mission::from_relation(&r, &from);
    assert_eq!(Some("2020/13".to_string()), m.sys_context.get("sys.target_instance_para"));
    assert_eq!(Some("42".to_string()), m.sys_context.get("sys.target_instance_id"));
    assert_eq!(Some("t1".to_string()), m.sys_context.get("trace"));
    assert!(m.use_upstream_id);
    assert_eq!(vec![0, 2], m.target_demand.append_para);
    let mut by_master = relation(meta("B:a:1"));
    let mut s = setting();
    s.master = Some("B:from:1".to_string());
    by_master.to.setting = Some(s);
    let m = Mission::from_relation(&by_master, &from);
    assert_eq!(Some("42".to_string()), m.sys_context.get("sys.target_instance_id"));
    let mut beyond = relation(meta("B:a:1"));
    beyond.target_demand.append_para = vec![3];
    let m = Mission::from_relation(&beyond, &from);
    assert_eq!(None, m.sys_context.get("sys.target_instance_para"));
}

#[test]
fn last_target_of_a_loop_is_the_upstream_itself() {
    let from = upstream();
    let mut to = meta("B:from:1");
    to.meta_type = MetaType::Loop;
    let mut s = setting();
    s.only_one = true;
    to.setting = Some(s);
    let mut m = mission(to);
    match InstanceDaoImpl::get_last_target(&from, &mut m).unwrap() {
        LastTarget::Upstream(i) => assert_eq!(42, i.id),
        other => panic!("unexpected: {:?}", other),
    }
    assert_eq!(0, m.sys_context.len());
}

#[test]
fn last_target_of_a_stateless_meta_is_none() {
    let from = upstream();
    let mut m = mission(meta("B:a:1"));
    m.target_demand.append_para = vec![0];
    match InstanceDaoImpl::get_last_target(&from, &mut m).unwrap() {
        LastTarget::Stateless => {},
        other => panic!("unexpected: {:?}", other),
    }
    assert_eq!(0, m.sys_context.len());
    let mut to = meta("B:other:1");
    to.meta_type = MetaType::Loop;
    let mut s = setting();
    s.only_one = true;
    to.setting = Some(s);
    let mut m = mission(to);
    match InstanceDaoImpl::get_last_target(&from, &mut m).unwrap() {
        LastTarget::Stateless => {},
        other => panic!("unexpected: {:?}", other),
    }
}

#[test]
fn last_target_is_looked_up_by_meta_id_and_para() {
    let from = upstream();
    let mut m = mission(stateful("B:order:1"));
    match InstanceDaoImpl::get_last_target(&from, &mut m).unwrap() {
        LastTarget::Lookup(c) => {
            assert_eq!(0, c.id);
            assert_eq!("B:order:1", c.meta);
            assert_eq!("", c.para);
            assert_eq!(0, c.state_version);
            assert_eq!(1, c.limit);
        },
        other => panic!("unexpected: {:?}", other),
    }
    assert_eq!(0, m.sys_context.len());
    let mut m = mission(stateful("B:order:1"));
    m.use_upstream_id = true;
    m.target_demand.append_para = vec![1, 0];
    match InstanceDaoImpl::get_last_target(&from, &mut m).unwrap() {
        LastTarget::Lookup(c) => {
            assert_eq!(42, c.id);
            assert_eq!("05/2020", c.para);
        },
        other => panic!("unexpected: {:?}", other),
    }
    assert_eq!(Some("05/2020".to_string()), m.sys_context.get("sys.target_instance_para"));
    assert_eq!(Some("42".to_string()), m.sys_context.get("sys.target_instance_id"));
    let mut m = mission(stateful("B:order:1"));
    m.use_upstream_id = true;
    m.sys_context.insert("sys.target_instance_id".to_string(), "777".to_string());
    match InstanceDaoImpl::get_last_target(&from, &mut m).unwrap() {
        LastTarget::Lookup(c) => assert_eq!(777, c.id),
        other => panic!("unexpected: {:?}", other),
    }
    assert_eq!(Some("777".to_string()), m.sys_context.get("sys.target_instance_id"));
}

#[test]
fn last_target_refuses_bad_para_index_and_bad_id() {
    let from = upstream();
    let mut m = mission(stateful("B:order:1"));
    m.target_demand.append_para = vec![3];
    assert_eq!(
        NatureError::VerifyError("index out of range".to_string()),
        InstanceDaoImpl::get_last_target(&from, &mut m).unwrap_err()
    );
    assert_eq!(0, m.sys_context.len());
    let mut m = mission(stateful("B:order:1"));
    m.sys_context.insert("sys.target_instance_id".to_string(), "12x".to_string());
    assert_eq!(
        NatureError::VerifyError("target instance id is not a number".to_string()),
        InstanceDaoImpl::get_last_target(&from, &mut m).unwrap_err()
    );
}

fn converted(id: u64, para: &str) -> Instance {
    let mut ins = Instance::default();
    ins.meta = "whatever".to_string();
    ins.id = id;
    ins.para = para.to_string();
    ins.state_version = 9;
    ins
}

#[test]
fn verify_settles_instances_of_a_stateless_target() {
    let out = verify(&meta("B:a:1"), &upstream(), &None, &vec![converted(1, "x"), converted(2, "")])
        .unwrap();
    assert_eq!(2, out.len());
    for one in &out {
        assert_eq!("B:a:1", one.meta);
        assert_eq!("B:from:1|42|2020/05/13|0", one.from_key);
        assert_eq!(9, one.state_version);
    }
    assert_eq!(1, out[0].id);
    assert_eq!("x", out[0].para);
    assert_eq!(2, out[1].id);
    assert_eq!(0, verify(&meta("B:a:1"), &upstream(), &None, &vec![]).unwrap().len());
}

#[test]
fn verify_gives_a_state_its_next_version() {
    let to = stateful("B:order:1");
    let first = verify(&to, &upstream(), &None, &vec![converted(5, "p")]).unwrap();
    assert_eq!(0, first[0].state_version);
    assert_eq!(5, first[0].id);
    assert_eq!("p", first[0].para);
    assert_eq!("B:order:1", first[0].meta);
    let mut last = converted(7, "q");
    last.state_version = 3;
    let next = verify(&to, &upstream(), &Some(last.clone()), &vec![converted(0, "")]).unwrap();
    assert_eq!(4, next[0].state_version);
    assert_eq!(7, next[0].id);
    assert_eq!("q", next[0].para);
    assert_eq!("B:from:1|42|2020/05/13|0", next[0].from_key);
    let own = verify(&to, &upstream(), &Some(last.clone()), &vec![converted(8, "r")]).unwrap();
    assert_eq!(8, own[0].id);
    assert_eq!("r", own[0].para);
    assert_eq!(0, verify(&to, &upstream(), &Some(last), &vec![]).unwrap().len());
}

#[test]
fn verify_refuses_two_states_and_a_full_version() {
    let to = stateful("B:order:1");
    assert_eq!(
        NatureError::LogicalError("a stateful target must return less than 2 instances".to_string()),
        verify(&to, &upstream(), &None, &vec![converted(1, ""), converted(2, "")]).unwrap_err()
    );
    let mut last = converted(7, "q");
    last.state_version = i32::MAX;
    assert_eq!(
        NatureError::LogicalError("the state version can not grow any further".to_string()),
        verify(&to, &upstream(), &Some(last), &vec![converted(1, "")]).unwrap_err()
    );
}

#[test]
fn last_state_is_held_against_the_demand() {
    let d = LastStatusDemand {
        target_status_include: texts(&["paid", "packed"]),
        target_status_exclude: texts(&["cancelled", "lost"]),
    };
    assert!(ConverterInfo::check_last(&states(&["packed", "paid", "x"]), &d).is_ok());
    assert_eq!(
        NatureError::TargetInstanceNotIncludeStatus("packed".to_string()),
        ConverterInfo::check_last(&states(&["paid"]), &d).unwrap_err()
    );
    assert_eq!(
        NatureError::TargetInstanceNotIncludeStatus("paid".to_string()),
        ConverterInfo::check_last(&states(&["lost"]), &d).unwrap_err()
    );
    assert_eq!(
        NatureError::TargetInstanceContainsExcludeStatus("lost".to_string()),
        ConverterInfo::check_last(&states(&["paid", "packed", "lost"]), &d).unwrap_err()
    );
    assert_eq!(
        NatureError::TargetInstanceContainsExcludeStatus("cancelled".to_string()),
        ConverterInfo::check_last(&states(&["paid", "lost", "packed", "cancelled"]), &d)
            .unwrap_err()
    );
    let nothing = LastStatusDemand { target_status_include: vec![], target_status_exclude: vec![] };
    assert!(ConverterInfo::check_last(&states(&[]), &nothing).is_ok());
}

#[test]
fn converter_info_needs_an_allowed_last_state() {
    let mut m = mission(stateful("B:order:1"));
    m.last_status_demand = Some(LastStatusDemand {
        target_status_include: texts(&["paid"]),
        target_status_exclude: vec![],
    });
    let mut last = converted(7, "");
    assert_eq!(
        NatureError::TargetInstanceNotIncludeStatus("paid".to_string()),
        ConverterInfo::new(&upstream(), &m, Some(last.clone())).unwrap_err()
    );
    last.states.insert("paid".to_string());
    let info = ConverterInfo::new(&upstream(), &m, Some(last)).unwrap();
    assert_eq!(42, info.from.id);
    assert_eq!("B:order:1", info.target.to.key);
    assert_eq!(7, info.last_status.as_ref().unwrap().id);
    let info = ConverterInfo::new(&upstream(), &m, None).unwrap();
    assert!(info.last_status.is_none());
    let task = RawTask::new("body", "B:order:1", TaskType::Convert, 5);
    let call = CallOutParameter::new(&info, &task);
    assert_eq!(task.task_id, call.carrier_id);
    assert_eq!(42, call.from.id);
    assert!(call.last_status.is_none());
    assert_eq!(42, info.duplicate().from.id);
}

fn convert_task(to: Meta) -> (ConverterInfo, RawTask) {
    let info = ConverterInfo::new(&upstream(), &mission(to), None).unwrap();
    (info, RawTask::new("convert body", "B:a:1", TaskType::Convert, 1_000))
}

#[test]
fn converter_outcomes_map_to_commands() {
    let id = convert_task(meta("B:a:1")).1.task_id;
    match InnerController::channel_convert(
        convert_task(meta("B:a:1")),
        ConverterReturned::Delay(30),
        5_000,
    ) {
        Command::Delay { task_id, execute_time } => {
            assert_eq!(id, task_id);
            assert_eq!(35_000, execute_time);
        },
        other => panic!("unexpected: {:?}", other),
    }
    match InnerController::channel_convert(
        convert_task(meta("B:a:1")),
        ConverterReturned::EnvError("timeout".to_string()),
        5_000,
    ) {
        Command::Retry { task_id, now } => {
            assert_eq!(id, task_id);
            assert_eq!(5_000, now);
        },
        other => panic!("unexpected: {:?}", other),
    }
    match InnerController::channel_convert(
        convert_task(meta("B:a:1")),
        ConverterReturned::LogicalError("bad input".to_string()),
        5_000,
    ) {
        Command::ToError { error, task } => {
            assert_eq!(NatureError::LogicalError("bad input".to_string()), error);
            assert_eq!(id, task.task_id);
        },
        other => panic!("unexpected: {:?}", other),
    }
    match ConvertServiceImpl::do_convert_task(
        convert_task(meta("B:a:1")),
        ConverterReturned::Instances(vec![converted(1, "x")]),
        5_000,
    ) {
        Command::Forward(Message::Converted(info, done)) => {
            assert_eq!(42, info.from.id);
            assert_eq!(id, done.done_task.task_id);
            assert_eq!(1, done.converted.len());
            assert_eq!("B:a:1", done.converted[0].meta);
            assert_eq!("B:from:1|42|2020/05/13|0", done.converted[0].from_key);
            assert!(done.self_route.is_none());
        },
        other => panic!("unexpected: {:?}", other),
    }
    match ConvertServiceImpl::do_convert_task(
        convert_task(stateful("B:order:1")),
        ConverterReturned::Instances(vec![converted(1, "x"), converted(2, "y")]),
        5_000,
    ) {
        Command::ToError { error, .. } => assert_eq!(ErrorKind::Logical, error.kind()),
        other => panic!("unexpected: {:?}", other),
    }
}

#[test]
fn self_routed_instances_keep_their_missions() {
    let routed = vec![
        SelfRouteInstance { instance: converted(1, "x"), converter: vec![mission(meta("B:n:1"))] },
        SelfRouteInstance { instance: converted(2, "y"), converter: vec![] },
    ];
    match ConvertServiceImpl::do_convert_task(
        convert_task(meta("B:a:1")),
        ConverterReturned::SelfRoute(routed),
        0,
    ) {
        Command::Forward(Message::Converted(_, done)) => {
            assert_eq!(2, done.converted.len());
            assert_eq!("B:a:1", done.converted[1].meta);
            let routes = done.self_route.unwrap();
            assert_eq!(2, routes.len());
            assert_eq!("B:n:1", routes[0][0].to.key);
            assert_eq!(0, routes[1].len());
        },
        other => panic!("unexpected: {:?}", other),
    }
}

#[test]
fn callback_is_handled_like_an_answer() {
    let id = convert_task(meta("B:a:1")).1.task_id;
    let failed = DelayedInstances {
        carrier_id: id.clone(),
        result: CallbackResult::Failure("refused".to_string()),
    };
    match ConvertServiceImpl::submit_callback(failed.clone(), Ok(convert_task(meta("B:a:1"))))
        .unwrap()
    {
        Command::ToError { error, task } => {
            assert_eq!(NatureError::LogicalError("refused".to_string()), error);
            assert_eq!(id, task.task_id);
        },
        other => panic!("unexpected: {:?}", other),
    }
    assert_eq!(
        NatureError::EnvError("down".to_string()),
        ConvertServiceImpl::submit_callback(failed, Err(NatureError::EnvError("down".to_string())))
            .unwrap_err()
    );
    let answered = DelayedInstances {
        carrier_id: id,
        result: CallbackResult::Instances(vec![converted(1, "")]),
    };
    match ConvertServiceImpl::submit_callback(answered, Ok(convert_task(meta("B:a:1")))).unwrap() {
        Command::Forward(Message::Converted(_, done)) => assert_eq!(1, done.converted.len()),
        other => panic!("unexpected: {:?}", other),
    }
}

fn store_task(id: u64) -> StoreTaskInfo {
    let mut ins = Instance::default();
    ins.meta = "B:a:1".to_string();
    ins.id = id;
    StoreTaskInfo::new(ins, vec![], None, false)
}

fn store_pair(id: u64) -> (StoreTaskInfo, RawTask) {
    (store_task(id), RawTask::new("store body", "B:a:1", TaskType::Store, 1_000))
}

#[test]
fn store_stage_forwards_retries_or_fails() {
    let id = store_pair(1).1.task_id;
    match InnerController::channel_store(store_pair(1), Ok(1), 9_000) {
        Command::Forward(Message::Stored(info, task)) => {
            assert_eq!(1, info.instance.id);
            assert_eq!(id, task.task_id);
        },
        other => panic!("unexpected: {:?}", other),
    }
    match InnerController::channel_store(store_pair(1), Err(NatureError::Duplicated), 9_000) {
        Command::Forward(Message::Stored(_, _)) => {},
        other => panic!("unexpected: {:?}", other),
    }
    match InnerController::channel_store(
        store_pair(1),
        Err(NatureError::EnvError("connection refused".to_string())),
        9_000,
    ) {
        Command::Retry { task_id, now } => {
            assert_eq!(id, task_id);
            assert_eq!(9_000, now);
        },
        other => panic!("unexpected: {:?}", other),
    }
    match InnerController::channel_store(
        store_pair(1),
        Err(NatureError::LogicalError("meta mismatch".to_string())),
        9_000,
    ) {
        Command::ToError { error, task } => {
            assert_eq!(NatureError::LogicalError("meta mismatch".to_string()), error);
            assert_eq!(id, task.task_id);
        },
        other => panic!("unexpected: {:?}", other),
    }
}

#[test]
fn store_failure_of_the_connection_keeps_the_task_in_the_log() {
    let pair = store_pair(1);
    let id = pair.1.task_id.clone();
    let mut log = TaskLog::new();
    log.insert(pair.1.clone()).unwrap();
    let command = InnerController::channel_store(
        pair,
        Err(NatureError::EnvError("connection refused".to_string())),
        60_000,
    );
    let sent = command.perform(&mut log);
    assert_eq!(0, sent.len());
    let kept = log.get(&id).unwrap();
    assert_eq!(61_000, kept.execute_time);
    assert_eq!(1, kept.retried_times);
    assert_eq!(0, log.error_count());
}

fn info_for(to: &str) -> ConverterInfo {
    ConverterInfo::new(&upstream(), &mission(meta(to)), None).unwrap()
}

#[test]
fn stored_stage_saves_convert_tasks_in_one_batch() {
    let mut pair = store_pair(1);
    pair.0.mission = vec![mission(meta("B:x:1")), mission(meta("B:y:1"))];
    let parent = pair.1.task_id.clone();
    let drafts = vec![
        ConvertDraft::Ready(info_for("B:x:1"), "body x".to_string()),
        ConvertDraft::Ready(info_for("B:y:1"), "body y".to_string()),
    ];
    let command = InnerController::channel_stored(pair, drafts, 2_000);
    match &command {
        Command::SaveAndSend { batch, parent_id, send } => {
            assert_eq!(&parent, parent_id);
            assert_eq!(2, batch.len());
            assert_eq!(RawTask::new("body x", "", TaskType::Store, 0).task_id, batch[0].task_id);
            assert_eq!("B:x:1", batch[0].task_key);
            assert_eq!(TaskType::Convert, batch[0].task_type);
            assert_eq!(2_000, batch[1].create_time);
            assert_eq!("B:y:1", batch[1].task_key);
            assert_eq!(2, send.len());
            match &send[1] {
                Message::Convert(info, task) => {
                    assert_eq!("B:y:1", info.target.to.key);
                    assert_eq!(batch[1].task_id, task.task_id);
                },
                other => panic!("unexpected: {:?}", other),
            }
        },
        other => panic!("unexpected: {:?}", other),
    }
    let mut log = TaskLog::new();
    log.insert(RawTask::new("store body", "B:a:1", TaskType::Store, 1_000)).unwrap();
    let sent = command.perform(&mut log);
    assert_eq!(2, sent.len());
    assert_eq!(2, log.len());
    assert!(!log.contains(&parent));
}

#[test]
fn stored_stage_without_missions_finishes_the_task() {
    let parent = store_pair(1).1.task_id;
    let command = InnerController::channel_stored(store_pair(1), vec![], 0);
    match &command {
        Command::SaveAndSend { batch, parent_id, send } => {
            assert_eq!(0, batch.len());
            assert_eq!(&parent, parent_id);
            assert_eq!(0, send.len());
        },
        other => panic!("unexpected: {:?}", other),
    }
    let mut log = TaskLog::new();
    log.insert(store_pair(1).1).unwrap();
    assert_eq!(0, command.perform(&mut log).len());
    assert_eq!(0, log.len());
    assert_eq!(0, log.error_count());
    let mut pair = store_pair(1);
    pair.0.mission = vec![mission(meta("B:x:1"))];
    let drafts = vec![
        ConvertDraft::Ready(info_for("B:x:1"), "body".to_string()),
        ConvertDraft::Failed(NatureError::TargetInstanceNotIncludeStatus("paid".to_string())),
        ConvertDraft::Unwritten(info_for("B:x:1"), NatureError::SystemError("big".to_string())),
    ];
    match InnerController::channel_stored(pair, drafts, 0) {
        Command::ToError { error, .. } => {
            assert_eq!(NatureError::TargetInstanceNotIncludeStatus("paid".to_string()), error)
        },
        other => panic!("unexpected: {:?}", other),
    }
    let mut pair = store_pair(1);
    pair.0.mission = vec![mission(meta("B:x:1"))];
    match InnerController::channel_stored(pair, vec![ConvertDraft::Failed(NatureError::Break)], 0) {
        Command::SaveAndSend { batch, send, .. } => {
            assert_eq!(0, batch.len());
            assert_eq!(0, send.len());
        },
        other => panic!("unexpected: {:?}", other),
    }
    let mut pair = store_pair(1);
    pair.0.mission = vec![mission(meta("B:x:1"))];
    let id = pair.1.task_id.clone();
    let drafts = vec![
        ConvertDraft::Failed(NatureError::EnvError("last state not loadable".to_string())),
        ConvertDraft::Failed(NatureError::LogicalError("later".to_string())),
    ];
    match InnerController::channel_stored(pair, drafts, 8_000) {
        Command::Retry { task_id, now } => {
            assert_eq!(id, task_id);
            assert_eq!(8_000, now);
        },
        other => panic!("unexpected: {:?}", other),
    }
    assert_eq!(
        NatureError::Break,
        ConvertServiceImpl::generate(&store_task(1), vec![], 0).unwrap_err()
    );
}

fn plan() -> PlanInfo {
    PlanInfo { from_key: "B:from:1|42||0".to_string(), to: meta("B:to:1"), plan: vec![] }
}

#[test]
fn prepare_files_store_tasks_under_the_target_meta() {
    let carrier = RawTask::new("convert body", "B:to:1", TaskType::Convert, 1);
    let drafts = vec![
        Draft::Ready(store_task(1), "one".to_string()),
        Draft::Ready(store_task(2), "two".to_string()),
    ];
    match prepare_to_store(&carrier, &plan(), drafts, 3_000) {
        Command::SaveAndSend { batch, parent_id, send } => {
            assert_eq!(carrier.task_id, parent_id);
            assert_eq!(2, batch.len());
            assert_eq!("B:to:1", batch[0].task_key);
            assert_eq!(TaskType::Store, batch[0].task_type);
            assert_eq!("two", batch[1].data);
            assert_eq!(3_000, batch[1].execute_time);
            match &send[0] {
                Message::Store(info, task) => {
                    assert_eq!(1, info.instance.id);
                    assert_eq!(batch[0].task_id, task.task_id);
                },
                other => panic!("unexpected: {:?}", other),
            }
        },
        other => panic!("unexpected: {:?}", other),
    }
    match prepare_to_store(&carrier, &plan(), vec![], 0) {
        Command::SaveAndSend { batch, send, .. } => {
            assert_eq!(0, batch.len());
            assert_eq!(0, send.len());
        },
        other => panic!("unexpected: {:?}", other),
    }
}

#[test]
fn prepare_retries_on_an_unreachable_collaborator_and_fails_otherwise() {
    let carrier = RawTask::new("convert body", "B:to:1", TaskType::Convert, 1);
    let drafts = vec![
        Draft::Ready(store_task(1), "one".to_string()),
        Draft::Failed(NatureError::EnvError("cache down".to_string())),
        Draft::Unwritten(store_task(3), NatureError::SystemError("too big".to_string())),
    ];
    match prepare_to_store(&carrier, &plan(), drafts, 4_000) {
        Command::Retry { task_id, now } => {
            assert_eq!(carrier.task_id, task_id);
            assert_eq!(4_000, now);
        },
        other => panic!("unexpected: {:?}", other),
    }
    let drafts = vec![Draft::Failed(NatureError::LogicalError("no such meta".to_string()))];
    match prepare_to_store(&carrier, &plan(), drafts, 0) {
        Command::ToError { error, task } => {
            assert_eq!(NatureError::LogicalError("no such meta".to_string()), error);
            assert_eq!(carrier.task_id, task.task_id);
        },
        other => panic!("unexpected: {:?}", other),
    }
    let drafts = vec![
        Draft::Unwritten(store_task(3), NatureError::SystemError("too big".to_string())),
        Draft::Failed(NatureError::EnvError("cache down".to_string())),
    ];
    match prepare_to_store(&carrier, &plan(), drafts, 0) {
        Command::ToError { error, task } => {
            assert_eq!(NatureError::SystemError("too big".to_string()), error);
            assert_eq!(carrier.task_id, task.task_id);
        },
        other => panic!("unexpected: {:?}", other),
    }
    match ConvertServiceImpl::do_store(
        &carrier,
        "B:to:1",
        vec![Draft::Unwritten(store_task(3), NatureError::SystemError("too big".to_string()))],
        0,
    ) {
        Command::ToError { error, task } => {
            assert_eq!(NatureError::SystemError("too big".to_string()), error);
            assert_eq!(carrier.task_id, task.task_id);
        },
        other => panic!("unexpected: {:?}", other),
    }
    match ConvertServiceImpl::do_store(
        &carrier,
        "B:to:1",
        vec![Draft::Failed(NatureError::EnvError("down".to_string()))],
        6_000,
    ) {
        Command::Retry { task_id, now } => {
            assert_eq!(carrier.task_id, task_id);
            assert_eq!(6_000, now);
        },
        other => panic!("unexpected: {:?}", other),
    }
    match ConvertServiceImpl::do_store(
        &carrier,
        "B:to:1",
        vec![Draft::Ready(store_task(3), "three".to_string())],
        0,
    ) {
        Command::SaveAndSend { batch, .. } => assert_eq!("B:to:1", batch[0].task_key),
        other => panic!("unexpected: {:?}", other),
    }
}

#[test]
fn converted_stage_needs_a_saved_plan() {
    let (info, task) = convert_task(meta("B:to:1"));
    let done = Converted { done_task: task.clone(), converted: vec![], self_route: None };
    match InnerController::channel_converted(
        (info.duplicate(), done.clone()),
        Err(NatureError::EnvError("down".to_string())),
        vec![Draft::Ready(store_task(1), "one".to_string())],
        3_000,
    ) {
        Command::Retry { task_id, now } => {
            assert_eq!(task.task_id, task_id);
            assert_eq!(3_000, now);
        },
        other => panic!("unexpected: {:?}", other),
    }
    match InnerController::channel_converted(
        (info.duplicate(), done.clone()),
        Err(NatureError::LogicalError("plan refused".to_string())),
        vec![],
        0,
    ) {
        Command::ToError { error, task: failed } => {
            assert_eq!(NatureError::LogicalError("plan refused".to_string()), error);
            assert_eq!(task.task_id, failed.task_id);
        },
        other => panic!("unexpected: {:?}", other),
    }
    match InnerController::channel_converted(
        (info, done),
        Ok(plan()),
        vec![Draft::Ready(store_task(1), "one".to_string())],
        0,
    ) {
        Command::SaveAndSend { batch, parent_id, .. } => {
            assert_eq!(task.task_id, parent_id);
            assert_eq!(1, batch.len());
        },
        other => panic!("unexpected: {:?}", other),
    }
}

#[test]
fn parallel_batch_files_each_task_under_its_own_meta() {
    let raw = RawTask::new("batch body", "", TaskType::BatchParallel, 1);
    let batch_of = || ParallelBatchInstance { instances: vec![] };
    let mut other = store_task(2);
    other.instance.meta = "B:b:1".to_string();
    let drafts =
        vec![Draft::Ready(store_task(1), "one".to_string()), Draft::Ready(other, "two".to_string())];
    match InnerController::channel_parallel((batch_of(), raw.clone()), drafts, 0) {
        Command::SaveAndSend { batch, parent_id, send } => {
            assert_eq!(raw.task_id, parent_id);
            assert_eq!("B:a:1", batch[0].task_key);
            assert_eq!("B:b:1", batch[1].task_key);
            assert_eq!(2, send.len());
        },
        other => panic!("unexpected: {:?}", other),
    }
    match InnerController::channel_parallel(
        (batch_of(), raw.clone()),
        vec![Draft::Failed(NatureError::LogicalError("x".to_string()))],
        0,
    ) {
        Command::ToError { error, task } => {
            assert_eq!(NatureError::LogicalError("x".to_string()), error);
            assert_eq!(raw.task_id, task.task_id);
        },
        other => panic!("unexpected: {:?}", other),
    }
    match InnerController::channel_parallel(
        (batch_of(), raw.clone()),
        vec![Draft::Failed(NatureError::EnvError("down".to_string()))],
        2_000,
    ) {
        Command::Retry { task_id, now } => {
            assert_eq!(raw.task_id, task_id);
            assert_eq!(2_000, now);
        },
        other => panic!("unexpected: {:?}", other),
    }
}

#[test]
fn batch_is_retried_or_ends_in_failure_where_it_can_not_be_carried_out() {
    let raw = RawTask::new("batch body", "", TaskType::BatchParallel, 1);
    let mut log = TaskLog::new();
    log.insert(raw.clone()).unwrap();
    let command = channel_batch(
        raw.clone(),
        vec![
            Draft::Ready(store_task(1), "one".to_string()),
            Draft::Failed(NatureError::EnvError("meta cache down".to_string())),
        ],
        5_000,
    );
    match &command {
        Command::Retry { task_id, now } => {
            assert_eq!(&raw.task_id, task_id);
            assert_eq!(5_000, *now);
        },
        other => panic!("unexpected: {:?}", other),
    }
    assert_eq!(0, command.perform(&mut log).len());
    assert_eq!(1, log.get(&raw.task_id).unwrap().retried_times);
    assert_eq!(6_000, log.get(&raw.task_id).unwrap().execute_time);
    assert_eq!(0, log.error_count());
    match channel_batch(
        raw.clone(),
        vec![Draft::Failed(NatureError::LogicalError("meta not defined".to_string()))],
        0,
    ) {
        Command::ToError { error, task } => {
            assert_eq!(NatureError::LogicalError("meta not defined".to_string()), error);
            assert_eq!(raw.task_id, task.task_id);
        },
        other => panic!("unexpected: {:?}", other),
    }
    match channel_batch(
        raw.clone(),
        vec![Draft::Ready(store_task(1), "one".to_string())],
        7,
    ) {
        Command::SaveAndSend { batch, parent_id, .. } => {
            assert_eq!(raw.task_id, parent_id);
            assert_eq!("B:a:1", batch[0].task_key);
            assert_eq!(7, batch[0].create_time);
        },
        other => panic!("unexpected: {:?}", other),
    }
    assert_eq!(
        NatureError::SystemError("big".to_string()),
        inner_batch(
            &raw,
            vec![Draft::Unwritten(store_task(1), NatureError::SystemError("big".to_string()))],
            0
        )
        .unwrap_err()
    );
}

fn serial(ids: &[u64]) -> (SerialBatchInstance, RawTask) {
    let instances = ids
        .iter()
        .map(|id| {
            let mut ins = Instance::default();
            ins.id = *id;
            ins
        })
        .collect();
    (
        SerialBatchInstance { context_for_finish: "done".to_string(), instances },
        RawTask::new("serial body", "/serial", TaskType::BatchSerial, 1),
    )
}

#[test]
fn serial_batch_stores_one_instance_after_the_other() {
    let task = serial(&[11, 12, 13]);
    let mut outcomes: Vec<Result<u64, NatureError>> = vec![];
    match InnerController::channel_serial(&task, &outcomes, 0) {
        SerialStep::StoreNext(i) => assert_eq!(0, i),
        other => panic!("unexpected: {:?}", other),
    }
    outcomes.push(Ok(1));
    match InnerController::channel_serial(&task, &outcomes, 0) {
        SerialStep::StoreNext(i) => assert_eq!(1, i),
        other => panic!("unexpected: {:?}", other),
    }
    outcomes.push(Err(NatureError::Duplicated));
    match InnerController::channel_serial(&task, &outcomes, 0) {
        SerialStep::StoreNext(i) => assert_eq!(2, i),
        other => panic!("unexpected: {:?}", other),
    }
    outcomes.push(Ok(1));
    match InnerController::channel_serial(&task, &outcomes, 0) {
        SerialStep::Finished(f) => assert_eq!(vec![11, 12, 13], f.succeeded_id),
        other => panic!("unexpected: {:?}", other),
    }
    match InnerController::channel_serial(&serial(&[]), &vec![], 0) {
        SerialStep::Finished(f) => assert_eq!(0, f.succeeded_id.len()),
        other => panic!("unexpected: {:?}", other),
    }
}

#[test]
fn serial_batch_ends_at_the_first_instance_that_is_not_stored() {
    let task = serial(&[11, 12, 13]);
    let outcomes = vec![Ok(1), Err(NatureError::LogicalError("bad".to_string()))];
    match InnerController::channel_serial(&task, &outcomes, 0) {
        SerialStep::Stop(Command::ToError { error, task: failed }) => {
            assert_eq!(NatureError::LogicalError("bad".to_string()), error);
            assert_eq!(task.1.task_id, failed.task_id);
        },
        other => panic!("unexpected: {:?}", other),
    }
    let outcomes = vec![
        Err(NatureError::VerifyError("first".to_string())),
        Err(NatureError::EnvError("second".to_string())),
    ];
    match InnerController::channel_serial(&task, &outcomes, 0) {
        SerialStep::Stop(Command::ToError { error, .. }) => {
            assert_eq!(NatureError::VerifyError("first".to_string()), error)
        },
        other => panic!("unexpected: {:?}", other),
    }
}

#[test]
fn serial_batch_is_retried_when_the_store_is_unreachable() {
    let task = serial(&[11, 12, 13]);
    let outcomes = vec![Ok(1), Err(NatureError::EnvError("down".to_string()))];
    match InnerController::channel_serial(&task, &outcomes, 7_000) {
        SerialStep::Stop(Command::Retry { task_id, now }) => {
            assert_eq!(task.1.task_id, task_id);
            assert_eq!(7_000, now);
        },
        other => panic!("unexpected: {:?}", other),
    }
    let outcomes =
        vec![Ok(1), Ok(1), Ok(1), Err(NatureError::EnvError("never asked for".to_string()))];
    match InnerController::channel_serial(&task, &outcomes, 0) {
        SerialStep::Finished(f) => assert_eq!(vec![11, 12, 13], f.succeeded_id),
        other => panic!("unexpected: {:?}", other),
    }
}

#[test]
fn single_input_becomes_a_store_task() {
    let mut ins = Instance::default();
    ins.meta = "B:sale/order:1".to_string();
    ins.id = 5;
    let (task, carrier) = ProcessLine::single_input(ins.clone(), Ok("the body".to_string()), 123)
        .unwrap();
    assert_eq!(5, task.instance.id);
    assert_eq!(0, task.mission.len());
    assert!(task.upstream.is_none());
    assert!(!task.need_cache);
    assert_eq!("B:sale/order:1", carrier.task_key);
    assert_eq!(TaskType::Store, carrier.task_type);
    assert_eq!("the body", carrier.data);
    assert_eq!(123, carrier.create_time);
    assert_eq!(RawTask::new("the body", "", TaskType::Convert, 0).task_id, carrier.task_id);
    assert_eq!(
        NatureError::SystemError("can not write".to_string()),
        ProcessLine::single_input(ins, Err(NatureError::SystemError("can not write".to_string())), 1)
            .unwrap_err()
    );
}

#[test]
fn received_task_that_fails_is_retried_or_goes_to_the_error_table() {
    let carrier = RawTask::new("body", "B:a:1", TaskType::Store, 1);
    match ProcessLine::store_for_receive(carrier.clone(), Ok(1), 0) {
        Command::Rest => {},
        other => panic!("unexpected: {:?}", other),
    }
    let mut log = TaskLog::new();
    log.insert(carrier.clone()).unwrap();
    let retry = ProcessLine::store_for_receive(
        carrier.clone(),
        Err(NatureError::EnvError("database unreachable".to_string())),
        20_000,
    );
    match &retry {
        Command::Retry { task_id, now } => {
            assert_eq!(&carrier.task_id, task_id);
            assert_eq!(20_000, *now);
        },
        other => panic!("unexpected: {:?}", other),
    }
    assert_eq!(0, retry.perform(&mut log).len());
    assert_eq!(1, log.len());
    assert_eq!(0, log.error_count());
    assert_eq!(21_000, log.get(&carrier.task_id).unwrap().execute_time);
    let command = ProcessLine::store_for_receive(
        carrier.clone(),
        Err(NatureError::VerifyError("no meta".to_string())),
        0,
    );
    assert_eq!(0, command.perform(&mut log).len());
    assert_eq!(0, log.len());
    assert_eq!(1, log.error_count());
    assert_eq!(ErrorKind::Verify, log.get_error(0).unwrap().err_code);
    match ProcessLine::move_to_err(NatureError::Break, carrier.clone()) {
        Command::ToError { error, task } => {
            assert_eq!(NatureError::Break, error);
            assert_eq!(carrier.task_id, task.task_id);
        },
        other => panic!("unexpected: {:?}", other),
    }
}

#[test]
fn commands_act_on_the_log() {
    let mut log = TaskLog::new();
    let t = RawTask::new("body", "B:a:1", TaskType::Convert, 1_000);
    log.insert(t.clone()).unwrap();
    assert_eq!(0, Command::Rest.perform(&mut log).len());
    assert_eq!(1, log.len());
    let delay = Command::Delay { task_id: t.task_id.clone(), execute_time: 9_000 };
    assert_eq!(0, delay.perform(&mut log).len());
    assert_eq!(9_000, log.get(&t.task_id).unwrap().execute_time);
    assert_eq!(0, log.get(&t.task_id).unwrap().retried_times);
    let forward = Command::Forward(Message::Store(store_task(1), t.clone()));
    assert_eq!(1, forward.perform(&mut log).len());
    assert_eq!(1, log.len());
}

#[test]
fn drafts_become_tasks_until_one_fails() {
    match build_store_tasks(vec![], None, 0) {
        Built::Tasks(raws, messages) => {
            assert_eq!(0, raws.len());
            assert_eq!(0, messages.len());
        },
        _ => panic!("unexpected"),
    }
    match build_store_tasks(
        vec![
            Draft::Ready(store_task(1), "a".to_string()),
            Draft::Unwritten(store_task(2), NatureError::SystemError("u".to_string())),
            Draft::Failed(NatureError::EnvError("f".to_string())),
        ],
        Some("key"),
        0,
    ) {
        Built::Unwritable(e) => assert_eq!(NatureError::SystemError("u".to_string()), e),
        _ => panic!("unexpected"),
    }
    match build_convert_tasks(
        vec![
            ConvertDraft::Ready(info_for("B:x:1"), "a".to_string()),
            ConvertDraft::Failed(NatureError::EnvError("f".to_string())),
        ],
        0,
    ) {
        Built::Stopped(e) => assert_eq!(NatureError::EnvError("f".to_string()), e),
        _ => panic!("unexpected"),
    }
}

#[test]
fn store_task_plans_the_missions_of_its_instance() {
    let mut m = meta("B:from:1");
    let mut s = setting();
    s.cache_saved = true;
    m.setting = Some(s);
    let task = StoreTaskInfo::gen_task(&upstream(), &m, &vec![relation(meta("B:a:1"))]);
    assert_eq!(42, task.instance.id);
    assert_eq!(1, task.mission.len());
    assert_eq!("B:a:1", task.mission[0].to.key);
    assert!(task.need_cache);
    assert!(task.upstream.is_none());
    assert_eq!(1, task.duplicate().mission.len());
}

#[test]
fn mock_answers_what_it_was_told() {
    let mut ins = upstream();
    let ok = MockInstanceTrait { result: Ok(5) };
    assert_eq!(Ok(5), ok.verify(&mut ins));
    assert_eq!(42, ins.id);
    let bad = MockInstanceTrait { result: Err(NatureError::VerifyError("no".to_string())) };
    assert_eq!(Err(NatureError::VerifyError("no".to_string())), bad.verify(&mut ins));
    assert_eq!("B:from:1", ins.meta);
}

#[test]
fn exact_conditions_feed_the_lookup() {
    let c = KeyCondition::new(0, "B:score/trainee/all-subject:1", "002", 0);
    let q = InstanceDaoImpl::get_last_state(&c);
    assert_eq!(3, q.params.len());
    assert_eq!("para", q.params[2].0);
}

#[test]
fn converter_is_called_with_the_task_and_the_settings() {
    let (info, task) = convert_task(meta("B:a:1"));
    let para = ConverterParameter::new(&info, &task, Some(converted(3, "")));
    assert_eq!(42, para.from.id);
    assert!(para.last_state.is_none());
    assert_eq!(task.task_id, para.task_id);
    assert_eq!(3, para.master.unwrap().id);
    assert_eq!("{}", para.cfg);
    let mut bare = info.duplicate();
    bare.target.executor = None;
    assert_eq!("", ConverterParameter::new(&bare, &task, None).cfg);
}

#[test]
fn replayed_drafts_give_the_same_task_ids() {
    let drafts = || {
        vec![
            Draft::Ready(store_task(1), "one".to_string()),
            Draft::Ready(store_task(2), "two".to_string()),
        ]
    };
    let ids = |built: Built| match built {
        Built::Tasks(raws, messages) => {
            assert_eq!(raws.len(), messages.len());
            for (raw, message) in raws.iter().zip(messages.iter()) {
                match message {
                    Message::Store(_, carried) => assert_eq!(raw.task_id, carried.task_id),
                    other => panic!("unexpected: {:?}", other),
                }
            }
            raws.into_iter().map(|r| r.task_id).collect::<Vec<String>>()
        },
        _ => panic!("unexpected"),
    };
    let first = ids(build_store_tasks(drafts(), Some("B:to:1"), 1_000));
    let second = ids(build_store_tasks(drafts(), None, 9_999_000));
    assert_eq!(first, second);
    assert_eq!(2, first.len());
    assert_ne!(first[0], first[1]);
    let convert = |now: i64| {
        ids_of_convert(build_convert_tasks(
            vec![ConvertDraft::Ready(info_for("B:x:1"), "body".to_string())],
            now,
        ))
    };
    assert_eq!(convert(1), convert(2));
}

fn ids_of_convert(built: Built) -> Vec<String> {
    match built {
        Built::Tasks(raws, _) => raws.into_iter().map(|r| r.task_id).collect(),
        _ => panic!("unexpected"),
    }
}
