use std::collections::BTreeMap;
use std::num::ParseIntError;

use cli_utils::inline_map::{parse_map, parse_pairs, split_pair, ParseMapError, PARSE_MAP_SYNTAX_MSG};

fn text(s: &str) -> Result<String, ()> {
    Ok(s.to_string())
}

fn number(s: &str) -> Result<u64, ParseIntError> {
    s.parse::<u64>()
}

fn texts(s: &str) -> Result<BTreeMap<String, String>, ParseMapError<(), ()>> {
    parse_map(s, text, text)
}

fn map_of(pairs: &[(&str, &str)]) -> BTreeMap<String, String> {
    let mut map = BTreeMap::new();
    for (key, value) in pairs {
        map.insert(key.to_string(), value.to_string());
    }
    map
}

#[test]
fn example_of_a_map() {
    let map = texts("Name=Value,Name2=Value").unwrap();
    assert_eq!(map, map_of(&[("Name", "Value"), ("Name2", "Value")]));
}

#[test]
fn empty_text_is_an_empty_map() {
    assert!(texts("").unwrap().is_empty());
    assert!(parse_map("", number, number).unwrap().is_empty());
}

#[test]
fn spacing_is_trimmed() {
    let map = texts(" a = 1 ,\tb=\u{a0}2 3 ").unwrap();
    assert_eq!(map, map_of(&[("a", "1"), ("b", "2 3")]));
}

#[test]
fn last_comma_changes_nothing() {
    assert_eq!(texts("a=1,b=2,").unwrap(), texts("a=1,b=2").unwrap());
}

#[test]
fn one_equals_sign_behind_a_value_is_taken() {
    assert_eq!(texts("a=1=").unwrap(), map_of(&[("a", "1")]));
}

#[test]
fn last_value_stays() {
    assert_eq!(texts("a=1,b=2,a=3").unwrap(), map_of(&[("a", "3"), ("b", "2")]));
}

#[test]
fn malformed_pairs() {
    for s in ["a", "a=", "=b", "a= ", " =b", "a=b=c", "a==", "a==b", ",", "a=b,,c=d", "a=b,c", "a=b,,"] {
        let res = texts(s);
        assert!(matches!(res, Err(ParseMapError::Syntax)), "{}", s);
        assert_eq!(res.unwrap_err().syntax_message(), Some(PARSE_MAP_SYNTAX_MSG));
    }
    assert_eq!(PARSE_MAP_SYNTAX_MSG, "Invalid syntax for map. Example: Name=Value,Name2=Value");
}

#[test]
fn numbers_are_parsed() {
    let map = parse_map("2=20,1=10", number, number).unwrap();
    let entries: Vec<(u64, u64)> = map.into_iter().collect();
    assert_eq!(entries, vec![(1, 10), (2, 20)]);
}

#[test]
fn refused_name() {
    let res = parse_map("x=1", number, number);
    assert!(matches!(res, Err(ParseMapError::Key(_))));
    assert_eq!(res.unwrap_err().syntax_message(), None);
}

#[test]
fn refused_value() {
    let res = parse_map("1=x", number, number);
    assert!(matches!(res, Err(ParseMapError::Value(_))));
    assert_eq!(res.unwrap_err().syntax_message(), None);
}

#[test]
fn first_error_is_returned() {
    assert!(matches!(parse_map("x=y", number, number), Err(ParseMapError::Key(_))));
    assert!(matches!(parse_map("x=1,broken", number, number), Err(ParseMapError::Key(_))));
    assert!(matches!(parse_map("1=x,broken", number, number), Err(ParseMapError::Value(_))));
    assert!(matches!(parse_map("1=1,broken,x=1", number, number), Err(ParseMapError::Syntax)));
}

#[test]
fn pairs_in_their_order() {
    let pairs = parse_pairs("b=2, a = 1,b=3", text, number).unwrap();
    assert_eq!(
        pairs,
        vec![("b".to_string(), 2), ("a".to_string(), 1), ("b".to_string(), 3)],
    );
    assert!(matches!(parse_pairs("b=2,a", text, number), Err(ParseMapError::Syntax)));
    assert!(matches!(parse_pairs("b=x", text, number), Err(ParseMapError::Value(_))));
}

#[test]
fn one_pair() {
    assert_eq!(split_pair(" a = b "), Some(("a", "b")));
    assert_eq!(split_pair("a"), None);
    assert_eq!(split_pair("a=b=c"), None);
}

#[test]
fn joined_texts_extend_the_map() {
    for (a, b) in [("x=1,y=2", "y=3,z=4"), ("x=1", ""), (" x = 1", "x=2,"), ("x=1,y=2", "y=3,y=4")] {
        let mut expected = texts(a).unwrap();
        expected.extend(texts(b).unwrap());
        assert_eq!(texts(&format!("{},{}", a, b)).unwrap(), expected);
    }
    assert!(matches!(texts("x=1,,y=2"), Err(ParseMapError::Syntax)));
    assert!(matches!(texts(",y=2"), Err(ParseMapError::Syntax)));
}

#[test]
fn written_map_is_read_back() {
    let pairs = [("alpha", "1"), ("beta", "two words"), ("\u{e9}", "x:y")];
    let written: Vec<String> = pairs.iter().map(|(k, v)| format!("{}={}", k, v)).collect();
    assert_eq!(texts(&written.join(",")).unwrap(), map_of(&pairs));
}
