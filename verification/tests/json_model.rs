use apyee::json::Json;

fn object(members: Vec<(&str, Json)>) -> Json {
    Json::Object(members.into_iter().map(|(key, value)| (key.to_string(), value)).collect())
}

#[test]
fn text_is_parsed_into_a_tree() {
    let parsed = Json::from_bytes(br#" {"b":[1,-2,true,null,"x"],"a":{"c":false}} "#).unwrap();
    let expected = object(vec![
        ("a", object(vec![("c", Json::Bool(false))])),
        (
            "b",
            Json::Array(vec![
                Json::Int(1),
                Json::Int(-2),
                Json::Bool(true),
                Json::Null,
                Json::Str("x".to_string()),
            ]),
        ),
    ]);
    assert_eq!(parsed, expected);
}

#[test]
fn what_is_no_document_is_not_parsed() {
    assert_eq!(Json::from_bytes(b""), None);
    assert_eq!(Json::from_bytes(b"{"), None);
    assert_eq!(Json::from_bytes(b"{} {}"), None);
    assert_eq!(Json::from_bytes(b"{'a':1}"), None);
    assert_eq!(Json::from_bytes(&[b'"', 0xff, b'"']), None);
    assert_eq!(Json::from_bytes(b"nul"), None);
}

#[test]
fn numbers_are_whole_where_they_fit() {
    assert_eq!(Json::from_bytes(b"9223372036854775807"), Some(Json::Int(i64::MAX)));
    assert_eq!(Json::from_bytes(b"-9223372036854775808"), Some(Json::Int(i64::MIN)));
    assert_eq!(Json::from_bytes(b"0"), Some(Json::Int(0)));
    match Json::from_bytes(b"9223372036854775808") {
        Some(Json::Real(number)) => assert_eq!(number.as_u64(), Some(9223372036854775808)),
        other => panic!("not carried through: {:?}", other),
    }
    match Json::from_bytes(b"1.5") {
        Some(Json::Real(number)) => assert_eq!(number.to_string(), "1.5"),
        other => panic!("not carried through: {:?}", other),
    }
    assert_eq!(Json::from_bytes(b"1.0").unwrap().as_i32(), None);
}

#[test]
fn a_tree_is_written_as_compact_text() {
    let tree = object(vec![
        ("id", Json::Int(-7)),
        ("flag", Json::Bool(true)),
        ("none", Json::Null),
        ("text", Json::Str("line\r\nbreak \"quoted\"".to_string())),
        ("list", Json::Array(vec![Json::Int(1), Json::Array(vec![])])),
    ]);
    assert_eq!(
        String::from_utf8(tree.to_bytes()).unwrap(),
        r#"{"flag":true,"id":-7,"list":[1,[]],"none":null,"text":"line\r\nbreak \"quoted\""}"#
    );
}

#[test]
fn numbers_that_are_carried_through_are_written_as_they_came() {
    let parsed = Json::from_bytes(b"[2.25,18446744073709551615]").unwrap();
    assert_eq!(String::from_utf8(parsed.to_bytes()).unwrap(), "[2.25,18446744073709551615]");
}

#[test]
fn written_text_parses_to_the_same_tree() {
    let tree = object(vec![
        ("method", Json::Str("props".to_string())),
        ("params", object(vec![("bright", Json::Int(10)), ("power", Json::Str("on".to_string()))])),
    ]);
    assert_eq!(Json::from_bytes(&tree.to_bytes()), Some(tree));
}

#[test]
fn of_two_members_with_one_name_the_later_counts() {
    let tree = Json::Object(vec![
        ("id".to_string(), Json::Int(1)),
        ("id".to_string(), Json::Int(2)),
    ]);
    assert_eq!(tree.get("id"), Some(&Json::Int(2)));
    assert_eq!(String::from_utf8(tree.to_bytes()).unwrap(), r#"{"id":2}"#);
    assert_eq!(Json::from_bytes(br#"{"id":1,"id":2}"#).unwrap().get("id"), Some(&Json::Int(2)));
}

#[test]
fn members_are_found_by_name() {
    let tree = object(vec![("a", Json::Int(1)), ("b", Json::Null)]);
    assert_eq!(tree.get("a"), Some(&Json::Int(1)));
    assert_eq!(tree.get("b"), Some(&Json::Null));
    assert_eq!(tree.get("c"), None);
    assert_eq!(tree.get(""), None);
    assert_eq!(Json::Array(vec![]).get("a"), None);
    assert_eq!(Json::Str("a".to_string()).get("a"), None);
}

#[test]
fn a_node_is_read_as_what_it_is() {
    assert_eq!(Json::Int(5).as_i32(), Some(5));
    assert_eq!(Json::Int(2147483647).as_i32(), Some(i32::MAX));
    assert_eq!(Json::Int(2147483648).as_i32(), None);
    assert_eq!(Json::Int(-2147483648).as_i32(), Some(i32::MIN));
    assert_eq!(Json::Int(-2147483649).as_i32(), None);
    assert_eq!(Json::Str("5".to_string()).as_i32(), None);
    assert_eq!(Json::Str("5".to_string()).as_text(), Some(&"5".to_string()));
    assert_eq!(Json::Int(5).as_text(), None);
    assert_eq!(Json::Array(vec![Json::Null]).as_items(), Some(&vec![Json::Null]));
    assert_eq!(Json::Null.as_items(), None);
    assert_eq!(Json::text("abc"), Json::Str("abc".to_string()));
}

#[test]
fn a_copy_holds_the_same_document() {
    let tree = Json::from_bytes(br#"{"a":[1,2.5,{"b":"c"}],"d":null,"e":true}"#).unwrap();
    assert_eq!(tree.duplicate(), tree);
}
