use nature::common::collections::{TextMap, TextSet};
use nature::common::error::{ErrorKind, NatureError};
use nature::common::instance::{Instance, KeyCondition};
use nature::common::para::{get_para_and_key_from_para, make_key_and_para};
use nature::text::{
    chars_of, concat_texts, contains_char, copy_bytes, copy_texts, decimal_text, hexadecimal_text, join,
    parse_u64, same_text, signed_decimal_text, split,
};

fn texts(list: &[&str]) -> Vec<String> {
    list.iter().map(|s| s.to_string()).collect()
}

#[test]
fn split_behaves_like_std() {
    for (s, sep) in [
        ("a|b|c", "|"),
        ("a||b", "|"),
        ("|a|", "|"),
        ("", "|"),
        ("abc", "|"),
        ("aaa", "aa"),
        ("a::b::", "::"),
        ("a:b", "::"),
        ("héllo→wörld→", "→"),
        ("rust", ""),
        ("", ""),
    ] {
        let expected: Vec<String> = s.split(sep).map(|p| p.to_string()).collect();
        assert_eq!(expected, split(s, sep), "{:?} by {:?}", s, sep);
    }
    assert_eq!(texts(&["", "r", "u", "s", "t", ""]), split("rust", ""));
    assert_eq!(texts(&["", "a"]), split("aaa", "aa"));
}

#[test]
fn join_behaves_like_std() {
    assert_eq!("", join(&texts(&[]), "/"));
    assert_eq!("a", join(&texts(&["a"]), "/"));
    assert_eq!("a/b//c", join(&texts(&["a", "b", "", "c"]), "/"));
    assert_eq!("a, b", join(&texts(&["a", "b"]), ", "));
    assert_eq!("ab", join(&texts(&["a", "b"]), ""));
    assert_eq!("abc", concat_texts(&texts(&["a", "", "bc"])));
    assert_eq!("", concat_texts(&texts(&[])));
}

#[test]
fn split_then_join_gives_the_text_back() {
    for (s, sep) in [("a|b||c|", "|"), ("x", "::"), ("::x::", "::"), ("", "/")] {
        assert_eq!(s, join(&split(s, sep), sep));
    }
}

#[test]
fn characters_are_found_and_copied() {
    assert!(contains_char("it's", '\''));
    assert!(!contains_char("its", '\''));
    assert!(!contains_char("", 'a'));
    assert_eq!(vec!['a', 'é', '→'], chars_of("aé→"));
    assert!(same_text("abc", "abc"));
    assert!(!same_text("abc", "abd"));
    assert_eq!(texts(&["a", "b"]), copy_texts(&texts(&["a", "b"])));
    assert_eq!(vec![1u8, 2, 255], copy_bytes(&vec![1u8, 2, 255]));
}

#[test]
fn numbers_are_written_as_format_writes_them() {
    for n in [0u64, 7, 9, 10, 12, 99, 100, 760228, u64::MAX] {
        assert_eq!(format!("{}", n), decimal_text(n));
    }
    for i in [0i64, 1, -1, -10, 42, i64::MAX, i64::MIN, i32::MIN as i64] {
        assert_eq!(format!("{}", i), signed_decimal_text(i));
    }
    for n in [0u128, 9, 10, 15, 16, 255, 256, 0xdeadbeef, u128::MAX] {
        assert_eq!(format!("{:x}", n), hexadecimal_text(n));
    }
    assert_eq!("18446744073709551615", decimal_text(u64::MAX));
    assert_eq!("-9223372036854775808", signed_decimal_text(i64::MIN));
    assert_eq!("ff", hexadecimal_text(255));
}

#[test]
fn numbers_are_read_as_from_str_reads_them() {
    for s in [
        "0",
        "7",
        "007",
        "+7",
        "+",
        "",
        "-7",
        "-0",
        "7a",
        " 7",
        "7 ",
        "1.0",
        "18446744073709551615",
        "18446744073709551616",
        "99999999999999999999999",
        "++1",
        "٣",
    ] {
        assert_eq!(s.parse::<u64>().ok(), parse_u64(s), "{:?}", s);
    }
    assert_eq!(Some(760228), parse_u64("760228"));
    assert_eq!(None, parse_u64("18446744073709551616"));
}

#[test]
fn text_set_keeps_each_text_once() {
    let mut set = TextSet::new();
    assert_eq!(0, set.len());
    assert!(set.insert("b".to_string()));
    assert!(set.insert("a".to_string()));
    assert!(!set.insert("b".to_string()));
    assert_eq!(2, set.len());
    assert!(set.contains("a"));
    assert!(!set.contains("c"));
    assert_eq!(Some("b".to_string()), set.get(0));
    assert_eq!(Some("a".to_string()), set.get(1));
    assert_eq!(None, set.get(2));
    let copy = set.duplicate();
    assert_eq!(2, copy.len());
    assert!(copy.contains("b"));
    let copy = set.clone();
    assert_eq!(Some("a".to_string()), copy.get(1));
}

#[test]
fn text_map_replaces_in_place() {
    let mut map = TextMap::new();
    assert_eq!(0, map.len());
    assert_eq!(None, map.get("k"));
    map.insert("k".to_string(), "1".to_string());
    map.insert("l".to_string(), "2".to_string());
    map.insert("k".to_string(), "3".to_string());
    assert_eq!(2, map.len());
    assert_eq!(Some("3".to_string()), map.get("k"));
    assert_eq!(Some("2".to_string()), map.get("l"));
    assert!(map.contains_key("l"));
    assert!(!map.contains_key("m"));
    assert_eq!(Some(("k".to_string(), "3".to_string())), map.entry(0));
    assert_eq!(Some(("l".to_string(), "2".to_string())), map.entry(1));
    assert_eq!(None, map.entry(2));
    let copy = map.duplicate();
    assert_eq!(Some("3".to_string()), copy.get("k"));
    let copy = map.clone();
    assert_eq!(2, copy.len());
}

#[test]
fn dimensions_are_picked_in_the_order_named() {
    let keys = texts(&["class5", "name1", "subject1"]);
    let (para, key) = make_key_and_para(&keys, &vec![0, 1], "|").unwrap();
    assert_eq!("class5|name1", para);
    assert_eq!("subject1", key);
    let (para, key) = make_key_and_para(&keys, &vec![2, 0], "|").unwrap();
    assert_eq!("subject1|class5", para);
    assert_eq!("name1", key);
    let (para, key) = make_key_and_para(&keys, &vec![], "|").unwrap();
    assert_eq!("", para);
    assert_eq!("class5|name1|subject1", key);
    let (para, key) = make_key_and_para(&keys, &vec![0, 1, 2], "|").unwrap();
    assert_eq!("class5|name1|subject1", para);
    assert_eq!("", key);
    let (para, key) = make_key_and_para(&keys, &vec![1, 1], "::").unwrap();
    assert_eq!("name1::name1", para);
    assert_eq!("class5::subject1", key);
}

#[test]
fn index_beyond_the_dimensions_is_refused() {
    let keys = texts(&["a", "b"]);
    let err = make_key_and_para(&keys, &vec![0, 2], "/").unwrap_err();
    assert_eq!(NatureError::VerifyError("index out of range".to_string()), err);
    assert_eq!(ErrorKind::Verify, err.kind());
    assert!(make_key_and_para(&vec![], &vec![0], "/").is_err());
    assert!(get_para_and_key_from_para("a/b", &vec![2]).is_err());
}

#[test]
fn para_is_split_on_slashes() {
    let (para, key) = get_para_and_key_from_para("2020/05/13", &vec![0, 1]).unwrap();
    assert_eq!("2020/05", para);
    assert_eq!("13", key);
    let (para, key) = get_para_and_key_from_para("", &vec![0]).unwrap();
    assert_eq!("", para);
    assert_eq!("", key);
}

#[test]
fn errors_are_written_with_their_kind() {
    assert_eq!("VerifyError: bad", NatureError::VerifyError("bad".to_string()).to_text());
    assert_eq!("LogicalError: bad", NatureError::LogicalError("bad".to_string()).to_text());
    assert_eq!("EnvError: down", NatureError::EnvError("down".to_string()).to_text());
    assert_eq!("SystemError: big", NatureError::SystemError("big".to_string()).to_text());
    assert_eq!("Duplicated", NatureError::Duplicated.to_text());
    assert_eq!("Break", NatureError::Break.to_text());
    assert_eq!(
        "TargetInstanceNotIncludeStatus: s",
        NatureError::TargetInstanceNotIncludeStatus("s".to_string()).to_text()
    );
    assert_eq!(
        "TargetInstanceContainsExcludeStatus: s",
        NatureError::TargetInstanceContainsExcludeStatus("s".to_string()).to_text()
    );
    assert_eq!(ErrorKind::Env, NatureError::EnvError("x".to_string()).kind());
    assert_eq!(ErrorKind::Break, NatureError::Break.kind());
    assert_eq!(400, NatureError::VerifyError("x".to_string()).http_status());
    assert_eq!(503, NatureError::EnvError("x".to_string()).http_status());
    assert_eq!(500, NatureError::LogicalError("x".to_string()).http_status());
    assert_eq!(500, NatureError::Duplicated.http_status());
    assert_eq!(
        NatureError::EnvError("x".to_string()),
        NatureError::EnvError("x".to_string()).duplicate()
    );
}

#[test]
fn instance_key_joins_meta_id_para_and_version() {
    let mut ins = Instance::default();
    assert_eq!("|0||0", ins.get_key());
    ins.meta = "B:sale/order:1".to_string();
    ins.id = 760228;
    ins.para = "a/b".to_string();
    ins.state_version = 3;
    assert_eq!("B:sale/order:1|760228|a/b|3", ins.get_key());
    ins.state_version = -2;
    assert_eq!("B:sale/order:1|760228|a/b|-2", ins.get_key());
    let copy = ins.duplicate();
    assert_eq!(ins.get_key(), copy.get_key());
}

#[test]
fn exact_condition_has_no_bounds() {
    let c = KeyCondition::new(5, "B:a:1", "p", 2);
    assert_eq!(5, c.id);
    assert_eq!("B:a:1", c.meta);
    assert_eq!("p", c.para);
    assert_eq!(2, c.state_version);
    assert_eq!("", c.key_gt);
    assert_eq!("", c.key_ge);
    assert_eq!("", c.key_lt);
    assert_eq!("", c.key_le);
    assert_eq!(None, c.time_ge);
    assert_eq!(None, c.time_lt);
    assert_eq!(1, c.limit);
}
