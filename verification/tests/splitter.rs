use nature::builtin_executor::dimension_splitter::{
    default_para_separator, dimension_split, groups_to_instances, is_default_para_separator,
    parse_records, split_records, write_items, MiddleResult, Output, Setting,
};
use nature::builtin_executor::BuiltIn;
use nature::common::converter::{ConverterParameter, ConverterReturned};
use nature::common::error::NatureError;
use nature::common::instance::Instance;

fn kv(key: &str, value: i32) -> serde_json::Value {
    let mut map = serde_json::Map::new();
    map.insert("key".to_string(), serde_json::Value::from(key));
    map.insert("value".to_string(), serde_json::Value::from(value));
    serde_json::Value::Object(map)
}

fn scores() -> String {
    let content = vec![
        kv("class5|name1|subject1", 92),
        kv("class5|name1|subject2", 85),
        kv("class5|name1|subject3", 99),
        kv("class5|name2|subject1", 67),
        kv("class5|name2|subject2", 81),
        kv("class5|name2|subject3", 75),
        kv("class2|name1|subject1", 100),
        kv("class2|name1|subject2", 98),
        kv("class2|name1|subject3", 73),
    ];
    serde_json::to_string(&serde_json::Value::Array(content)).unwrap()
}

fn parameter(content: String, cfg: String) -> ConverterParameter {
    let mut input_instance = Instance::default();
    input_instance.content = content;
    ConverterParameter {
        from: input_instance,
        last_state: None,
        task_id: "".to_string(),
        master: None,
        cfg,
    }
}

#[test]
fn split_1() {
    let dimentions = vec![("B:person/score_temp:1".to_string(), vec![0, 1])];
    let setting = Setting {
        dimension_separator: "|".to_string(),
        wanted_dimension: dimentions,
    };
    let para = parameter(scores(), setting.to_json());
    let rtn = dimension_split(&para);
    if let ConverterReturned::Instances(ins) = rtn {
        assert_eq!(ins.len(), 3);
    };
}

#[test]
fn split_2() {
    let dimentions = vec![("B:subject/class_score_temp:1".to_string(), vec![0, 2])];
    let setting = Setting {
        dimension_separator: "|".to_string(),
        wanted_dimension: dimentions,
    };
    let para = parameter(scores(), setting.to_json());
    let rtn = dimension_split(&para);
    if let ConverterReturned::Instances(ins) = rtn {
        assert_eq!(ins.len(), 6);
    };
}

#[test]
fn split_3() {
    let dimentions = vec![
        ("B:person/score_temp:1".to_string(), vec![0, 1]),
        ("B:subject/class_score_temp:1".to_string(), vec![0, 2]),
    ];
    let setting = Setting {
        dimension_separator: "|".to_string(),
        wanted_dimension: dimentions,
    };
    let para = parameter(scores(), setting.to_json());
    let rtn = dimension_split(&para);
    if let ConverterReturned::Instances(ins) = rtn {
        assert_eq!(ins.len(), 9);
    };
}

#[test]
fn setting_default() {
    let set = Setting {
        dimension_separator: "/".to_string(),
        wanted_dimension: vec![("a".to_string(), vec![1])],
    };
    let json = set.to_json();
    let cmp = r#"{"wanted_dimension":[["a",[1]]]}"#;
    assert_eq!(json, cmp);
    let set = Setting::from_json(&json).unwrap();
    assert_eq!(set.dimension_separator, "/")
}

fn instances(rtn: ConverterReturned) -> Vec<Instance> {
    match rtn {
        ConverterReturned::Instances(ins) => ins,
        other => panic!("unexpected: {:?}", other),
    }
}

fn logical_error(rtn: ConverterReturned) -> String {
    match rtn {
        ConverterReturned::LogicalError(msg) => msg,
        other => panic!("unexpected: {:?}", other),
    }
}

#[test]
fn single_dimension_regroups_by_person() {
    let cfg = r#"{"dimension_separator":"|","wanted_dimension":[["B:person/score_temp:1",[0,1]]]}"#;
    let ins = instances(dimension_split(&parameter(scores(), cfg.to_string())));
    let paras: Vec<&str> = ins.iter().map(|i| i.para.as_str()).collect();
    assert_eq!(vec!["class5|name1", "class5|name2", "class2|name1"], paras);
    for one in &ins {
        assert_eq!("B:person/score_temp:1", one.meta);
        assert_eq!(0, one.id);
        assert_eq!(0, one.state_version);
        assert_eq!("", one.from_key);
    }
    assert_eq!(
        r#"[{"key":"subject1","value":92},{"key":"subject2","value":85},{"key":"subject3","value":99}]"#,
        ins[0].content
    );
    assert_eq!(
        r#"[{"key":"subject1","value":100},{"key":"subject2","value":98},{"key":"subject3","value":73}]"#,
        ins[2].content
    );
}

#[test]
fn cross_dimension_regroups_by_class_and_subject() {
    let cfg = r#"{"dimension_separator":"|","wanted_dimension":[["B:subject/class_score_temp:1",[0,2]]]}"#;
    let ins = instances(dimension_split(&parameter(scores(), cfg.to_string())));
    let paras: Vec<&str> = ins.iter().map(|i| i.para.as_str()).collect();
    assert_eq!(
        vec![
            "class5|subject1",
            "class5|subject2",
            "class5|subject3",
            "class2|subject1",
            "class2|subject2",
            "class2|subject3"
        ],
        paras
    );
    assert_eq!(
        r#"[{"key":"name1","value":92},{"key":"name2","value":67}]"#,
        ins[0].content
    );
    assert_eq!(r#"[{"key":"name1","value":100}]"#, ins[3].content);
}

#[test]
fn both_dimensions_give_nine_groups_and_lose_nothing() {
    let cfg = r#"{"dimension_separator":"|","wanted_dimension":[["B:person/score_temp:1",[0,1]],["B:subject/class_score_temp:1",[0,2]]]}"#;
    let ins = instances(dimension_split(&parameter(scores(), cfg.to_string())));
    assert_eq!(9, ins.len());
    let mut paras: Vec<&str> = ins.iter().map(|i| i.para.as_str()).collect();
    paras.sort();
    paras.dedup();
    assert_eq!(9, paras.len());
    let mut items = 0;
    for one in &ins {
        let parsed = parse_records(&one.content).unwrap();
        items += parsed.len();
    }
    assert_eq!(18, items);
}

#[test]
fn values_are_copied_as_they_were_written() {
    let content = r#"[{"value": {"b": [1, 2.50], "a": "x y"}, "key": "k1/k2", "more": null}]"#;
    let cfg = r#"{"wanted_dimension":[["m",[1]]],"comment":"ignored"}"#;
    let ins = instances(dimension_split(&parameter(content.to_string(), cfg.to_string())));
    assert_eq!(1, ins.len());
    assert_eq!("k2", ins[0].para);
    assert_eq!(
        r#"[{"key":"k1","value":{"b": [1, 2.50], "a": "x y"}}]"#,
        ins[0].content
    );
}

#[test]
fn keys_are_quoted_with_escapes() {
    let content = r#"[{"key":"say \"hi\"/b\\c","value":1}]"#;
    let cfg = r#"{"wanted_dimension":[["m",[1]]]}"#;
    let ins = instances(dimension_split(&parameter(content.to_string(), cfg.to_string())));
    assert_eq!("b\\c", ins[0].para);
    assert_eq!(r#"[{"key":"say \"hi\"","value":1}]"#, ins[0].content);
}

#[test]
fn repeated_index_repeats_the_dimension() {
    let records = vec![Output { key: "a/b/c".to_string(), value: "1".to_string() }];
    let setting = Setting {
        dimension_separator: "/".to_string(),
        wanted_dimension: vec![("m".to_string(), vec![2, 0, 2])],
    };
    let groups = split_records(&setting, &records).unwrap();
    assert_eq!(1, groups.len());
    assert_eq!("c/a/c", groups[0].para);
    assert_eq!("m", groups[0].meta);
    assert_eq!("b", groups[0].items[0].key);
    assert_eq!("1", groups[0].items[0].value);
}

#[test]
fn same_para_under_two_metas_is_two_groups() {
    let records = vec![
        Output { key: "x/x".to_string(), value: "1".to_string() },
        Output { key: "x/y".to_string(), value: "2".to_string() },
    ];
    let setting = Setting {
        dimension_separator: "/".to_string(),
        wanted_dimension: vec![("first".to_string(), vec![0]), ("second".to_string(), vec![1])],
    };
    let groups = split_records(&setting, &records).unwrap();
    let keys: Vec<(&str, &str)> =
        groups.iter().map(|g| (g.meta.as_str(), g.para.as_str())).collect();
    assert_eq!(vec![("first", "x"), ("second", "x"), ("second", "y")], keys);
    let values = |at: usize| -> Vec<&str> {
        groups[at].items.iter().map(|i| i.value.as_str()).collect()
    };
    assert_eq!(vec!["1", "2"], values(0));
    assert_eq!(vec!["1"], values(1));
    assert_eq!(vec!["2"], values(2));
}

#[test]
fn every_wanted_meta_gets_its_own_instance() {
    let cfg = r#"{"dimension_separator":"|","wanted_dimension":[["a",[0]],["b",[0]]]}"#;
    let content = r#"[{"key":"x|1","value":7}]"#;
    let ins = instances(dimension_split(&parameter(content.to_string(), cfg.to_string())));
    assert_eq!(2, ins.len());
    assert_eq!("a", ins[0].meta);
    assert_eq!("b", ins[1].meta);
    for one in &ins {
        assert_eq!("x", one.para);
        assert_eq!(r#"[{"key":"1","value":7}]"#, one.content);
    }
}

#[test]
fn same_meta_wanted_twice_is_one_group() {
    let records = vec![Output { key: "x/1".to_string(), value: "7".to_string() }];
    let setting = Setting {
        dimension_separator: "/".to_string(),
        wanted_dimension: vec![("a".to_string(), vec![0]), ("a".to_string(), vec![0])],
    };
    let groups = split_records(&setting, &records).unwrap();
    assert_eq!(1, groups.len());
    assert_eq!(2, groups[0].items.len());
}

#[test]
fn every_character_is_quoted_as_json_asks() {
    let mut key = String::new();
    for code in 0u32..0x80 {
        if let Some(c) = char::from_u32(code) {
            if c != '/' {
                key.push(c);
            }
        }
    }
    key.push_str("é→\u{7f}\u{80}\u{2028}😀");
    let records = vec![Output { key: key.clone(), value: "0".to_string() }];
    let expected = format!("[{{\"key\":{},\"value\":0}}]", serde_json::to_string(&key).unwrap());
    assert_eq!(expected, write_items(&records));
    let small = vec![Output { key: "\u{0}\u{8}\t\n\u{b}\u{c}\r\u{1f} \"\\".to_string(), value: "1".to_string() }];
    assert_eq!(
        "[{\"key\":\"\\u0000\\b\\t\\n\\u000b\\f\\r\\u001f \\\"\\\\\",\"value\":1}]",
        write_items(&small)
    );
    assert_eq!("[]", write_items(&vec![]));
}

#[test]
fn no_records_give_no_instances() {
    let cfg = r#"{"wanted_dimension":[["m",[5]]]}"#;
    let ins = instances(dimension_split(&parameter("[]".to_string(), cfg.to_string())));
    assert_eq!(0, ins.len());
}

#[test]
fn out_of_range_index_fails_the_whole_split() {
    let cfg = r#"{"dimension_separator":"|","wanted_dimension":[["m",[0,3]]]}"#;
    let msg = logical_error(dimension_split(&parameter(scores(), cfg.to_string())));
    assert_eq!("VerifyError: index out of range", msg);
    let records = vec![
        Output { key: "a/b".to_string(), value: "1".to_string() },
        Output { key: "a".to_string(), value: "2".to_string() },
    ];
    let setting = Setting {
        dimension_separator: "/".to_string(),
        wanted_dimension: vec![("m".to_string(), vec![1])],
    };
    assert_eq!(
        NatureError::VerifyError("index out of range".to_string()),
        split_records(&setting, &records).unwrap_err()
    );
}

#[test]
fn empty_wanted_dimension_is_refused() {
    let cfg = r#"{"wanted_dimension":[]}"#;
    let msg = logical_error(dimension_split(&parameter(scores(), cfg.to_string())));
    assert_eq!("wanted_dimension does not defined", msg);
}

#[test]
fn broken_setting_is_refused() {
    let msg = logical_error(dimension_split(&parameter(scores(), "{".to_string())));
    assert!(msg.starts_with("setting error : \""), "{}", msg);
    assert!(msg.ends_with('"'), "{}", msg);
    let msg = logical_error(dimension_split(&parameter(scores(), "{}".to_string())));
    assert_eq!("setting error : \"missing field `wanted_dimension`\"", msg);
    let cfg = r#"{"wanted_dimension":[["m",[256]]]}"#;
    let msg = logical_error(dimension_split(&parameter(scores(), cfg.to_string())));
    assert!(msg.starts_with("setting error : "), "{}", msg);
    let cfg = r#"{"dimension_separator":7,"wanted_dimension":[["m",[1]]]}"#;
    let msg = logical_error(dimension_split(&parameter(scores(), cfg.to_string())));
    assert!(msg.starts_with("setting error : "), "{}", msg);
}

#[test]
fn broken_content_is_refused() {
    let cfg = r#"{"wanted_dimension":[["m",[0]]]}"#;
    let msg = logical_error(dimension_split(&parameter("not json".to_string(), cfg.to_string())));
    assert!(msg.starts_with("instance content error : \""), "{}", msg);
    let msg = logical_error(dimension_split(&parameter(
        r#"[{"value":1}]"#.to_string(),
        cfg.to_string(),
    )));
    assert_eq!("instance content error : \"missing field `key`\"", msg);
    let msg = logical_error(dimension_split(&parameter(
        r#"[{"key":"a"}]"#.to_string(),
        cfg.to_string(),
    )));
    assert_eq!("instance content error : \"missing field `value`\"", msg);
    let msg = logical_error(dimension_split(&parameter(
        r#"[{"key":1,"value":1}]"#.to_string(),
        cfg.to_string(),
    )));
    assert!(msg.starts_with("instance content error : "), "{}", msg);
}

#[test]
fn setting_with_separator_round_trips() {
    let set = Setting {
        dimension_separator: "|".to_string(),
        wanted_dimension: vec![
            ("B:score/trainee/original:1".to_string(), vec![0, 1]),
            ("B:score/subject/original:1".to_string(), vec![0, 2]),
            ("none".to_string(), vec![]),
        ],
    };
    let json = set.to_json();
    assert_eq!(
        r#"{"dimension_separator":"|","wanted_dimension":[["B:score/trainee/original:1",[0,1]],["B:score/subject/original:1",[0,2]],["none",[]]]}"#,
        json
    );
    let back = Setting::from_json(&json).unwrap();
    assert_eq!("|", back.dimension_separator);
    assert_eq!(set.wanted_dimension, back.wanted_dimension);
}

#[test]
fn default_separator_is_a_slash() {
    assert_eq!("/", default_para_separator());
    assert!(is_default_para_separator("/"));
    assert!(!is_default_para_separator("|"));
    assert!(!is_default_para_separator(""));
}

#[test]
fn records_are_read_in_order() {
    let records = parse_records(r#"[{"key":"a","value":[1, 2]},{"key":"b","value":null}]"#).unwrap();
    assert_eq!(2, records.len());
    assert_eq!("a", records[0].key);
    assert_eq!("[1, 2]", records[0].value);
    assert_eq!("b", records[1].key);
    assert_eq!("null", records[1].value);
    assert!(parse_records(r#"{"key":"a","value":1}"#).is_err());
}

#[test]
fn registry_finds_the_splitter_by_name() {
    assert_eq!(Some(BuiltIn::DimensionSplit), BuiltIn::resolve("dimensionSplit"));
    assert_eq!(None, BuiltIn::resolve("dimensionsplit"));
    assert_eq!(None, BuiltIn::resolve(""));
    let cfg = r#"{"wanted_dimension":[["m",[0]]]}"#;
    let para = parameter(r#"[{"key":"a/b","value":1}]"#.to_string(), cfg.to_string());
    let ins = instances(BuiltIn::DimensionSplit.convert(&para));
    assert_eq!("a", ins[0].para);
    assert_eq!(r#"[{"key":"b","value":1}]"#, ins[0].content);
}

#[test]
fn groups_become_instances_in_order() {
    let groups = vec![
        MiddleResult {
            para: "p1".to_string(),
            meta: "m1".to_string(),
            items: vec![Output { key: "k".to_string(), value: "[1]".to_string() }],
        },
        MiddleResult { para: "p2".to_string(), meta: "m2".to_string(), items: vec![] },
    ];
    let ins = groups_to_instances(&groups);
    assert_eq!(2, ins.len());
    assert_eq!("m1", ins[0].meta);
    assert_eq!("p1", ins[0].para);
    assert_eq!(r#"[{"key":"k","value":[1]}]"#, ins[0].content);
    assert_eq!("m2", ins[1].meta);
    assert_eq!("[]", ins[1].content);
}
