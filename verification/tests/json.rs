use sub2api_operator::chunks::{chunk_ids, chunk_texts};
use sub2api_operator::json::{
    array_doc, integer_doc, integers_doc, number_doc, object1, object2, parse, parse_or_null,
    put_field, put_fields, quoted, string_doc, strings_doc, Json,
};

#[test]
fn documents_are_parsed_and_shown() {
    let v = parse(r#" {"b":[1,-2,3.5,true,null],"a":"x\n"} "#).unwrap();
    assert_eq!(v.show(), r#"{"a":"x\n","b":[1,-2,3.5,true,null]}"#);
    assert_eq!(v.get_str("a"), Some("x\n"));
    let list = v.get_array("b").unwrap();
    assert_eq!(list[0].as_i64(), Some(1));
    assert_eq!(list[1].as_i64(), Some(-2));
    assert_eq!(list[2].as_i64(), None);
    assert!(list[4].is_null());
    assert!(v.is_object() && !list[0].is_object());
    assert!(v.get("c").is_none());
    assert_eq!(v.get_text("c"), "");
}

#[test]
fn numbers_keep_their_notation() {
    for text in ["0", "-7", "18446744073709551615", "1e300", "0.1"] {
        let v = parse(text).unwrap();
        assert_eq!(v.show(), serde_json::from_str::<serde_json::Value>(text).unwrap().to_string());
    }
    assert_eq!(parse("9223372036854775808").unwrap().as_i64(), None);
    assert_eq!(parse("-9223372036854775808").unwrap().as_i64(), Some(i64::MIN));
}

#[test]
fn what_is_not_json_is_refused() {
    assert!(parse("{").is_err());
    assert!(!parse("{").unwrap_err().is_empty());
    assert!(parse("").is_err());
    assert!(parse_or_null("<html>").is_null());
}

#[test]
fn the_last_of_equal_keys_counts() {
    assert_eq!(parse(r#"{"a":1,"a":2}"#).unwrap().get_i64("a"), Some(2));
}

#[test]
fn strings_are_quoted() {
    assert_eq!(quoted("a\"b\\\n"), r#""a\"b\\\n""#);
    assert_eq!(quoted("</script>验"), "\"</script>验\"");
    assert_eq!(quoted("\u{1}"), "\"\\u0001\"");
    assert_eq!(quoted("\0\u{b}\u{1f}"), r#""\u0000\u000b\u001f""#);
    assert_eq!(quoted("\u{8}\t\u{c}\r/"), r#""\b\t\f\r/""#);
    assert_eq!(quoted(" \u{7f}\u{2028}"), "\" \u{7f}\u{2028}\"");
}

#[test]
fn fields_are_put_in_order() {
    let mut o: Vec<(String, Json)> = Vec::new();
    put_field(&mut o, "b".into(), integer_doc(1));
    put_field(&mut o, "a".into(), integer_doc(2));
    put_field(&mut o, "b".into(), integer_doc(3));
    let more = vec![("c".to_string(), string_doc("x")), ("a".to_string(), Json::Null)];
    put_fields(&mut o, &more);
    assert_eq!(Json::Obj(o).show(), r#"{"a":null,"b":3,"c":"x"}"#);
}

#[test]
fn documents_are_built() {
    let d = object2(
        "ids",
        integers_doc(&[1, -2]),
        "names",
        strings_doc(&vec!["x".into(), "y".into()]),
    );
    assert_eq!(d.show(), r#"{"ids":[1,-2],"names":["x","y"]}"#);
    assert_eq!(object1("n", number_doc(u64::MAX)).show(), r#"{"n":18446744073709551615}"#);
    assert_eq!(array_doc(vec![Json::Bool(true), d.copy()]).show(), r#"[true,{"ids":[1,-2],"names":["x","y"]}]"#);
    assert_eq!(integer_doc(-5).as_i64(), Some(-5));
}

#[test]
fn lists_are_cut_into_chunks() {
    assert_eq!(chunk_ids(&vec![1, 2, 3, 4, 5], 2), vec![vec![1, 2], vec![3, 4], vec![5]]);
    assert_eq!(chunk_ids(&vec![1, 2], 2), vec![vec![1, 2]]);
    assert_eq!(chunk_ids(&vec![], 3), Vec::<Vec<i64>>::new());
    let names: Vec<String> = vec!["a".into(), "b".into(), "c".into()];
    assert_eq!(chunk_texts(&names, 2), vec![vec!["a", "b"], vec!["c"]]);
}
