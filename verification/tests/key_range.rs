use nature::common::collections::TextSet;
use nature::common::error::{ErrorKind, NatureError};
use nature::common::instance::{IDAndFrom, Instance, KeyCondition};
use nature::db::instance_dao::{build_for_part, key_to_part, InstanceDaoImpl, KeyRange};
use nature::db::query::ParamValue;

#[test]
fn key_to_part_test() {
    let vec = key_to_part("a||b");
    assert_eq!(1, vec.len());
    assert_eq!("a", vec[0]);

    let vec = key_to_part("a|b|");
    assert_eq!(2, vec.len());
    assert_eq!("a", vec[0]);
    assert_eq!("b", vec[1]);

    let vec = key_to_part("a|b");
    assert_eq!(2, vec.len());
    assert_eq!("a", vec[0]);
    assert_eq!("b", vec[1]);
}

#[test]
fn error_input_test() {
    let mut list: Vec<String> = vec![];
    let mut set = TextSet::new();
    let result = build_for_part(&mut set, &mut list, "dfafdf|fdfa'fdsa|dfsadfasu", "");
    assert_eq!(true, result.is_err());
}

#[test]
fn empty_input_test() {
    let mut list: Vec<String> = vec![];
    let mut set = TextSet::new();
    let result = build_for_part(&mut set, &mut list, "", "");
    assert_eq!(true, result.is_ok());
    assert_eq!(0, list.len());
    assert_eq!(0, set.len());
}

#[test]
fn meta_test() {
    let mut list: Vec<String> = vec![];
    let mut set = TextSet::new();
    let _ = build_for_part(&mut set, &mut list, "a", ">");
    let _ = build_for_part(&mut set, &mut list, "b", "<");
    assert_eq!(0, set.len());
    assert_eq!(2, list.len());
    assert_eq!(" and meta > 'a'", list[0]);
    assert_eq!(" and meta < 'b'", list[1]);
}

#[test]
fn id_test() {
    let mut list: Vec<String> = vec![];
    let mut set = TextSet::new();
    let _ = build_for_part(&mut set, &mut list, "m|1", ">");
    let _ = build_for_part(&mut set, &mut list, "m|5", "<");
    assert_eq!(1, set.len());
    assert_eq!(true, set.contains("m"));
    assert_eq!(3, list.len());
    assert_eq!(" and meta = 'm'", list[0]);
    assert_eq!(" and ins_id > 1", list[1]);
    assert_eq!(" and ins_id < 5", list[2]);
}

#[test]
fn para_test() {
    let mut list: Vec<String> = vec![];
    let mut set = TextSet::new();
    let _ = build_for_part(&mut set, &mut list, "m|0|a", ">");
    let _ = build_for_part(&mut set, &mut list, "m|0|b", "<");
    assert_eq!(2, set.len());
    assert_eq!(true, set.contains("m"));
    assert_eq!(true, set.contains("m|0"));
    assert_eq!(4, list.len());
    assert_eq!(" and meta = 'm'", list[0]);
    assert_eq!(" and ins_id = 0", list[1]);
    assert_eq!(" and para > 'a'", list[2]);
    assert_eq!(" and para < 'b'", list[3]);
}

#[test]
fn more_than_three_part_test() {
    let mut list: Vec<String> = vec![];
    let mut set = TextSet::new();
    let _ = build_for_part(&mut set, &mut list, "m|0|a|dfdfd", ">");
    let _ = build_for_part(&mut set, &mut list, "m|0|b|eeefddi", "<");
    assert_eq!(2, set.len());
    assert_eq!(true, set.contains("m"));
    assert_eq!(true, set.contains("m|0"));
    assert_eq!(4, list.len());
    assert_eq!(" and meta = 'm'", list[0]);
    assert_eq!(" and ins_id = 0", list[1]);
    assert_eq!(" and para > 'a'", list[2]);
    assert_eq!(" and para < 'b'", list[3]);
}

fn range_condition() -> KeyCondition {
    KeyCondition {
        id: 0,
        meta: "".to_string(),
        key_gt: "".to_string(),
        key_ge: "".to_string(),
        key_lt: "".to_string(),
        key_le: "".to_string(),
        para: "".to_string(),
        state_version: 0,
        time_ge: None,
        time_lt: None,
        limit: 20,
    }
}

const SELECT: &str = "SELECT meta, ins_id, para, content, context, states, state_version, create_time, sys_context, from_key FROM instances";

#[test]
fn key_to_part_of_nothing_is_nothing() {
    assert_eq!(0, key_to_part("").len());
    assert_eq!(0, key_to_part("|a").len());
}

#[test]
fn quote_in_the_middle_changes_nothing() {
    let mut list: Vec<String> = vec!["kept".to_string()];
    let mut set = TextSet::new();
    set.insert("seen".to_string());
    let result = build_for_part(&mut set, &mut list, "m|0|a'b", ">");
    match result {
        Err(NatureError::VerifyError(msg)) => assert_eq!("illegal query condition!", msg),
        other => panic!("unexpected: {:?}", other),
    }
    assert_eq!(vec!["kept".to_string()], list);
    assert_eq!(1, set.len());
}

#[test]
fn range_scan_decomposes_keys() {
    let mut para = range_condition();
    para.key_gt = "m|0|a".to_string();
    para.key_lt = "m|0|b".to_string();
    let dao = InstanceDaoImpl::new(1000);
    let query = dao.get_by_key_range(&para).unwrap();
    let expected = format!(
        "{} where 1=1 and meta = 'm' and ins_id = 0 and para > 'a' and para < 'b' order by meta, ins_id, para limit :limit",
        SELECT
    );
    assert_eq!(expected, query.sql);
}

#[test]
fn range_scan_with_time_window_and_meta() {
    let mut para = range_condition();
    para.meta = "B:sale/order:1".to_string();
    para.key_ge = "B:sale/order:1|".to_string();
    para.key_le = "B:sale/order:2|7".to_string();
    para.time_ge = Some(1596115430000);
    para.time_lt = Some(1596115431000);
    let dao = InstanceDaoImpl::new(1000);
    let query = dao.get_by_key_range(&para).unwrap();
    let expected = format!(
        "{} where 1=1 and create_time >= :time_ge and create_time < :time_lt and meta >= 'B:sale/order:1' and meta = 'B:sale/order:2' and ins_id <= 7 and meta = :meta order by meta, ins_id, para limit :limit",
        SELECT
    );
    assert_eq!(expected, query.sql);
    assert_eq!(4, query.params.len());
    assert_eq!("meta", query.params[0].0);
    match &query.params[0].1 {
        ParamValue::Text(t) => assert_eq!("B:sale/order:1", t),
        other => panic!("unexpected: {:?}", other),
    }
    match &query.params[1].1 {
        ParamValue::Time(t) => assert_eq!(1596115430000, *t),
        other => panic!("unexpected: {:?}", other),
    }
    match &query.params[2].1 {
        ParamValue::Time(t) => assert_eq!(1596115431000, *t),
        other => panic!("unexpected: {:?}", other),
    }
    match &query.params[3].1 {
        ParamValue::Signed(n) => assert_eq!(20, *n),
        other => panic!("unexpected: {:?}", other),
    }
}

#[test]
fn range_scan_limit_is_clamped() {
    let mut para = range_condition();
    para.limit = 5000;
    let dao = InstanceDaoImpl::new(1000);
    let query = dao.get_by_key_range(&para).unwrap();
    match &query.params[3].1 {
        ParamValue::Signed(n) => assert_eq!(1000, *n),
        other => panic!("unexpected: {:?}", other),
    }
    assert_eq!(
        format!("{} where 1=1 order by meta, ins_id, para limit :limit", SELECT),
        query.sql
    );
}

#[test]
fn range_scan_rejects_quote_in_every_bound() {
    let dao = InstanceDaoImpl::new(1000);
    for which in 0..4 {
        let mut para = range_condition();
        let bad = "m|1|it's".to_string();
        match which {
            0 => para.key_gt = bad,
            1 => para.key_ge = bad,
            2 => para.key_lt = bad,
            _ => para.key_le = bad,
        }
        let err = dao.get_by_key_range(&para).unwrap_err();
        assert_eq!(ErrorKind::Verify, err.kind());
        assert_eq!(NatureError::VerifyError("illegal query condition!".to_string()), err);
    }
}

#[test]
fn lookups_bind_their_keys() {
    let para = KeyCondition::new(12345, "B:sale/order:1", "p", 3);
    let query = InstanceDaoImpl::get_by_id(para.clone());
    assert_eq!(
        format!(
            "{} where meta = :meta and ins_id = :ins_id and para = :para and state_version = :state_version order by state_version desc limit 1",
            SELECT
        ),
        query.sql
    );
    assert_eq!(4, query.params.len());
    match &query.params[1].1 {
        ParamValue::Unsigned(n) => assert_eq!(12345, *n),
        other => panic!("unexpected: {:?}", other),
    }
    match &query.params[3].1 {
        ParamValue::Signed(n) => assert_eq!(3, *n),
        other => panic!("unexpected: {:?}", other),
    }
    let last = InstanceDaoImpl::get_last_state(&para);
    assert_eq!(
        format!(
            "{} where meta = :meta and ins_id = :ins_id and para = :para order by state_version desc limit 1",
            SELECT
        ),
        last.sql
    );
    let from = InstanceDaoImpl::get_by_from(&IDAndFrom {
        id: 7,
        meta: "B:a:1".to_string(),
        from_key: "B:b:1|3||0".to_string(),
    });
    assert_eq!(
        format!(
            "{} where meta = :meta and ins_id = :ins_id and from_key = :from_key order by state_version desc limit 1",
            SELECT
        ),
        from.sql
    );
    match &from.params[2].1 {
        ParamValue::Text(t) => assert_eq!("B:b:1|3||0", t),
        other => panic!("unexpected: {:?}", other),
    }
}

#[test]
fn insert_and_delete_bind_the_instance() {
    let mut ins = Instance::default();
    ins.meta = "B:sale/order:1".to_string();
    ins.id = 760228;
    ins.para = "x".to_string();
    ins.content = "{}".to_string();
    ins.state_version = 2;
    ins.create_time = 1588508143000;
    ins.context.insert("k".to_string(), "v".to_string());
    ins.states.insert("paid".to_string());
    let query = InstanceDaoImpl::insert(&ins);
    assert!(query.sql.starts_with("INSERT INTO instances (meta, ins_id, para,"));
    assert_eq!(10, query.params.len());
    let names: Vec<&str> = query.params.iter().map(|p| p.0.as_str()).collect();
    assert_eq!(
        vec![
            "meta", "ins_id", "para", "content", "context", "states", "state_version",
            "create_time", "sys_context", "from_key"
        ],
        names
    );
    match &query.params[4].1 {
        ParamValue::Entries(m) => assert_eq!(Some("v".to_string()), m.get("k")),
        other => panic!("unexpected: {:?}", other),
    }
    match &query.params[5].1 {
        ParamValue::Flags(s) => assert!(s.contains("paid")),
        other => panic!("unexpected: {:?}", other),
    }
    match &query.params[7].1 {
        ParamValue::Time(t) => assert_eq!(1588508143000, *t),
        other => panic!("unexpected: {:?}", other),
    }
    let delete = InstanceDaoImpl::delete(&ins);
    assert_eq!(
        "DELETE FROM instances WHERE meta = :meta and ins_id = :ins_id and para = :para",
        delete.sql
    );
    assert_eq!(3, delete.params.len());
}

#[test]
fn one_row_means_one_instance() {
    assert!(InstanceDaoImpl::one_row(vec![]).unwrap().is_none());
    let mut ins = Instance::default();
    ins.id = 9;
    let got = InstanceDaoImpl::one_row(vec![ins.clone()]).unwrap().unwrap();
    assert_eq!(9, got.id);
    let err = InstanceDaoImpl::one_row(vec![ins.clone(), ins]).unwrap_err();
    assert_eq!(
        NatureError::LogicalError("should not return more than one rows".to_string()),
        err
    );
}
