//! Text, JSON, base64 and the build stamp.
use nobilis::build_stamp::{git_dir, stamp, watched_reference};
use nobilis::bytes::decode_standard;
use nobilis::json::{parse, Json};
use nobilis::text::{
    after_last, blank, contains_text, decimal, hexadecimal, join, pad_zeros, parse_hex, parse_u64, replace,
    replace_once, same_ignoring_case, split, starts_with, trim,
};
use nobilis::text_map::TextMap;

#[test]
fn text_is_cut_and_joined() {
    assert_eq!(trim("\u{2003} a b\n"), "a b");
    assert!(blank(" \t\n"));
    assert!(!blank(" x "));
    assert_eq!(split("a:b:", ':'), vec!["a", "b", ""]);
    assert_eq!(join(&vec!["a".into(), "b".into()], ", "), "a, b");
    assert!(starts_with("guild:1", "guild:"));
    assert!(contains_text("a👍b", "👍"));
    assert_eq!(replace("aXbX", "X", "yy"), "ayybyy");
    assert_eq!(replace_once("aXbX", "X", "y"), "aybX");
    assert_eq!(after_last("a|guild:1|guild:2", "|guild:").as_deref(), Some("2"));
    assert!(same_ignoring_case("EveryOne", "everyone"));
    assert!(!same_ignoring_case("É", "é"));
}

#[test]
fn numbers_are_written_and_read() {
    assert_eq!(decimal(0), "0");
    assert_eq!(decimal(u64::MAX), "18446744073709551615");
    assert_eq!(hexadecimal(255), "ff");
    assert_eq!(pad_zeros("ff".into(), 4), "00ff");
    assert_eq!(parse_u64("18446744073709551615"), Some(u64::MAX));
    assert_eq!(parse_u64("18446744073709551616"), None);
    assert_eq!(parse_u64("+7"), Some(7));
    assert_eq!(parse_u64(""), None);
    assert_eq!(parse_hex("386d4380"), Some(0x386d4380));
    assert_eq!(parse_hex("xyz"), None);
}

#[test]
fn json_is_read_and_written() {
    let value = parse(r#"{ "a": [1, -2, 1.5, true, null, "x"], "b": { } }"#).unwrap();
    assert_eq!(value.at("a").list_items().unwrap().len(), 6);
    assert_eq!(value.at("a").list_items().unwrap()[1].as_i64(), Some(-2));
    assert_eq!(value.at("a").list_items().unwrap()[1].as_u64(), None);
    assert!(value.at("missing").at("deeper").is_null());
    assert_eq!(parse(&value.write()).as_ref(), Some(&value));
    assert!(parse("{").is_none());
    assert_eq!(Json::object().put("a", Json::string("x")).write(), r#"{"a":"x"}"#);
    assert_eq!(Json::object().put("a", Json::Null).set("a", Json::Bool(true)).at("a").flag(), Some(true));
}

#[test]
fn base64_is_read_only_when_it_is_whole() {
    assert_eq!(decode_standard("aGVsbG8="), Some(b"hello".to_vec()));
    assert_eq!(decode_standard("aGVsbG8"), None);
    assert_eq!(decode_standard("-_-_"), None);
    assert_eq!(decode_standard(""), Some(vec![]));
}

#[test]
fn a_map_keeps_one_value_for_a_key() {
    let mut map: TextMap<u32> = TextMap::new();
    map.insert("a", 1);
    map.insert("b", 2);
    map.insert("a", 3);
    assert_eq!(map.len(), 2);
    assert_eq!(map.get("a"), Some(&3));
    assert_eq!(map.remove("a"), Some(3));
    assert_eq!(map.remove("a"), None);
    assert!(!map.contains("a"));
}

#[test]
fn a_build_is_stamped_with_its_commit() {
    let clean = stamp(Some("abc1234"), Some(""));
    let dirty = stamp(Some("abc1234"), Some(" M src/lib.rs"));
    assert!(clean.contains("abc1234"));
    assert_ne!(clean, dirty);
    assert_ne!(stamp(None, None), clean);
    assert_eq!(watched_reference("ref: refs/heads/main\n").as_deref(), Some("refs/heads/main"));
    assert_eq!(watched_reference("abc1234\n"), None);
    assert_eq!(git_dir("gitdir: ../.git/worktrees/x\n").as_deref(), Some("../.git/worktrees/x"));
    assert_eq!(git_dir("nothing"), None);
}
