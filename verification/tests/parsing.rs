use ctl10n::{from_document, parse_toml, Error, Document, Item, StringTable};

fn pairs_of(table: &StringTable) -> Vec<(String, String)> {
    let mut pairs = Vec::new();
    let mut index = 0;
    while let Some((key, value)) = table.entry(index) {
        pairs.push((key.to_string(), value.to_string()));
        index += 1;
    }
    assert_eq!(index, table.len());
    pairs
}

fn owned(pairs: &[(&str, &str)]) -> Vec<(String, String)> {
    pairs.iter().map(|(k, v)| (k.to_string(), v.to_string())).collect()
}

#[test]
fn parse_flat_table_keeps_keys_and_messages() {
    let table = parse_toml(
        "message = \"Some message\"\nmessage-with-args = \"Some message with {arg}\"\n",
    )
    .unwrap();
    assert_eq!(table.len(), 2);
    assert_eq!(table.get("message"), Some("Some message"));
    assert_eq!(table.get("message-with-args"), Some("Some message with {arg}"));
    assert_eq!(table.get("missing"), None);
}

#[test]
fn parse_entries_come_in_the_order_of_the_keys() {
    let table = parse_toml("zeta = \"last\"\nalpha = \"first\"\nmiddle = \"between\"\n").unwrap();
    assert_eq!(
        pairs_of(&table),
        owned(&[("alpha", "first"), ("middle", "between"), ("zeta", "last")])
    );
}

#[test]
fn parse_empty_input_is_the_empty_table() {
    let table = parse_toml("").unwrap();
    assert_eq!(table.len(), 0);
    assert_eq!(table.entry(0), None);
    let table = parse_toml("# only a comment\n\n").unwrap();
    assert_eq!(table.len(), 0);
}

#[test]
fn parse_does_not_trim_or_reinterpret_messages() {
    let table = parse_toml(
        "spaced = \"  two spaces  \"\nbraces = \"{0} and {{literal}}\"\nquote = \"say \\\"hi\\\"\"\nraw = 'C:\\dir\\n'\nuni = \"gr\\u00FC\\u00DFe \u{1F600}\"\nlines = \"\"\"\nfirst\nsecond\"\"\"\n",
    )
    .unwrap();
    assert_eq!(table.get("spaced"), Some("  two spaces  "));
    assert_eq!(table.get("braces"), Some("{0} and {{literal}}"));
    assert_eq!(table.get("quote"), Some("say \"hi\""));
    assert_eq!(table.get("raw"), Some("C:\\dir\\n"));
    assert_eq!(table.get("uni"), Some("gr\u{fc}\u{df}e \u{1F600}"));
    assert_eq!(table.get("lines"), Some("first\nsecond"));
}

#[test]
fn parse_quoted_keys_are_kept_as_parsed() {
    let table = parse_toml("\"key with space\" = \"a\"\n'dotted.key' = \"b\"\n").unwrap();
    assert_eq!(table.get("key with space"), Some("a"));
    assert_eq!(table.get("dotted.key"), Some("b"));
    assert_eq!(table.len(), 2);
}

#[test]
fn parse_number_among_strings_is_a_structure_error() {
    let r = parse_toml("a = \"x\"\nb = 5\n");
    assert!(matches!(r, Err(Error::TOMLStructureError)));
}

#[test]
fn parse_every_other_kind_of_value_is_a_structure_error() {
    for input in [
        "a = 1",
        "a = 1.5",
        "a = true",
        "a = 1979-05-27T07:32:00Z",
        "a = [\"x\", \"y\"]",
        "a = []",
        "a = { b = \"x\" }",
        "[section]\nkey = \"value\"",
        "[section]",
        "[[list]]\nkey = \"value\"",
        "a.b = \"dotted\"",
        "first = \"fine\"\nsecond = \"fine\"\nthird = false",
    ] {
        let r = parse_toml(input);
        assert!(matches!(r, Err(Error::TOMLStructureError)), "{}", input);
    }
}

#[test]
fn parse_malformed_text_is_a_parse_error() {
    for input in [
        "a = \"unterminated",
        "a = ",
        "= \"no key\"",
        "a \"no equals\"",
        "a = \"x\" b = \"y\"",
        "a = \"x\"\na = \"y\"",
        "a = [1, 2",
        "[section",
        "a = \"bad \\q escape\"",
        "{}",
        "{\"greet\": \"Hello {name}\"}",
    ] {
        let r = parse_toml(input);
        assert!(matches!(r, Err(Error::TOMLParseError(_))), "{}", input);
    }
}

#[test]
fn parse_error_carries_the_parsers_own_error() {
    let expected = toml::from_str::<toml::Value>("a = \"unterminated").unwrap_err();
    match parse_toml("a = \"unterminated") {
        Err(Error::TOMLParseError(e)) => assert_eq!(e, expected),
        _ => panic!("a parse error was due"),
    }
}

#[test]
fn parse_malformed_text_with_a_number_is_still_a_parse_error() {
    let r = parse_toml("a = 5\nb = \"unterminated");
    assert!(matches!(r, Err(Error::TOMLParseError(_))));
}

#[test]
fn from_document_that_is_no_table_is_a_structure_error() {
    let r = from_document(Document::Other);
    assert!(matches!(r, Err(Error::TOMLStructureError)));
}

#[test]
fn from_document_empty_table() {
    let table = from_document(Document::Table(Vec::new())).unwrap();
    assert_eq!(table.len(), 0);
}

#[test]
fn from_document_table_of_strings() {
    let doc = Document::Table(vec![
        ("b".to_string(), Item::Text("second".to_string())),
        ("a".to_string(), Item::Text("first".to_string())),
    ]);
    let table = from_document(doc).unwrap();
    assert_eq!(pairs_of(&table), owned(&[("b", "second"), ("a", "first")]));
}

#[test]
fn from_document_one_other_item_refuses_the_whole_table() {
    for at in 0..3 {
        let mut entries = vec![
            ("a".to_string(), Item::Text("x".to_string())),
            ("b".to_string(), Item::Text("y".to_string())),
            ("c".to_string(), Item::Text("z".to_string())),
        ];
        entries[at].1 = Item::Other;
        let r = from_document(Document::Table(entries));
        assert!(matches!(r, Err(Error::TOMLStructureError)));
    }
    let r = from_document(Document::Table(vec![("only".to_string(), Item::Other)]));
    assert!(matches!(r, Err(Error::TOMLStructureError)));
}

#[test]
fn from_document_a_repeated_key_keeps_its_place_and_takes_the_last_message() {
    let doc = Document::Table(vec![
        ("a".to_string(), Item::Text("one".to_string())),
        ("b".to_string(), Item::Text("two".to_string())),
        ("a".to_string(), Item::Text("three".to_string())),
    ]);
    let table = from_document(doc).unwrap();
    assert_eq!(pairs_of(&table), owned(&[("a", "three"), ("b", "two")]));
}

#[test]
fn parse_agrees_with_toml_on_a_larger_file() {
    let mut input = String::new();
    for i in 0..200 {
        input.push_str(&format!("key-{} = \"message {{arg}} number {}\"\n", i, i));
    }
    let table = parse_toml(&input).unwrap();
    assert_eq!(table.len(), 200);
    let value = toml::from_str::<toml::Value>(&input).unwrap();
    let reference = value.as_table().unwrap();
    let mut index = 0;
    for (key, item) in reference.iter() {
        assert_eq!(table.entry(index), Some((key.as_str(), item.as_str().unwrap())));
        assert_eq!(table.get(key), item.as_str());
        index += 1;
    }
    assert_eq!(index, 200);
}

#[test]
fn parse_nesting_beyond_the_parsers_limit_is_a_parse_error() {
    for depth in [1_000, 100_000] {
        let mut arrays = String::from("a = ");
        arrays.push_str(&"[".repeat(depth));
        arrays.push_str(&"]".repeat(depth));
        assert!(matches!(parse_toml(&arrays), Err(Error::TOMLParseError(_))));
        let mut open = String::from("a = ");
        open.push_str(&"[".repeat(depth));
        assert!(matches!(parse_toml(&open), Err(Error::TOMLParseError(_))));
        let mut tables = String::from("a = ");
        tables.push_str(&"{ a = ".repeat(depth));
        tables.push_str("1");
        tables.push_str(&" }".repeat(depth));
        assert!(matches!(parse_toml(&tables), Err(Error::TOMLParseError(_))));
        let mut dotted = String::from("a");
        dotted.push_str(&".a".repeat(depth));
        dotted.push_str(" = \"x\"");
        assert!(matches!(parse_toml(&dotted), Err(Error::TOMLParseError(_))));
    }
}

#[test]
fn parse_shallow_nesting_is_a_structure_error() {
    let mut arrays = String::from("a = ");
    arrays.push_str(&"[".repeat(10));
    arrays.push_str(&"]".repeat(10));
    assert!(matches!(parse_toml(&arrays), Err(Error::TOMLStructureError)));
}

#[test]
fn parse_top_level_value_that_is_no_table_is_a_structure_error() {
    let input = "\"$__toml_private_datetime\" = \"1979-05-27T07:32:00Z\"\n";
    let value = toml::from_str::<toml::Value>(input).unwrap();
    assert!(!value.is_table());
    assert!(matches!(parse_toml(input), Err(Error::TOMLStructureError)));
}
