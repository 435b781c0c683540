use rtoml::document::parse_document;
use rtoml::render::{decimal_text, render, RenderError};
use rtoml::resolve::{resolve, split_key, ResolveError};
use rtoml::run::{choose_action, exit_code, extract, Action, Failure, IoError, UsageError, SUCCESS};
use rtoml::value::{table_get, DocValue};

fn table(entries: Vec<(&str, DocValue)>) -> DocValue {
    DocValue::Table(entries.into_iter().map(|(k, v)| (k.to_string(), v)).collect())
}

fn segs(key: &str) -> Vec<String> {
    split_key(key)
}

fn nested() -> DocValue {
    table(vec![("a", table(vec![("b", DocValue::Integer(5))]))])
}

#[test]
fn split_key_on_dots() {
    assert_eq!(split_key("a.b.c"), vec!["a", "b", "c"]);
    assert_eq!(split_key("plain"), vec!["plain"]);
}

#[test]
fn split_key_edges() {
    assert_eq!(split_key(""), vec![""]);
    assert_eq!(split_key("a."), vec!["a", ""]);
    assert_eq!(split_key(".a"), vec!["", "a"]);
    assert_eq!(split_key("é.ü"), vec!["é", "ü"]);
}

#[test]
fn nested_key_resolves_to_integer() {
    let doc = nested();
    assert!(matches!(resolve(&doc, &segs("a.b")), Ok(DocValue::Integer(5))));
}

#[test]
fn table_key_resolves_but_does_not_render() {
    let doc = nested();
    let v = resolve(&doc, &segs("a")).unwrap();
    assert!(matches!(v, DocValue::Table(_)));
    assert_eq!(render(v, false), Err(RenderError::UnprintableTable { within_array: false }));
    match extract(&doc, "a") {
        Err(f) => {
            assert_eq!(exit_code(&f), 6);
            assert_eq!(f.message("doc.toml", "https://example.org/rtoml"), "value is a table");
        }
        Ok(_) => panic!("a table was rendered"),
    }
}

#[test]
fn scalar_in_the_middle_is_not_a_table() {
    let doc = table(vec![("a", DocValue::Integer(1))]);
    assert!(matches!(resolve(&doc, &segs("a.b")), Err(ResolveError::NotATable)));
    assert!(matches!(resolve(&doc, &segs("a.b.c")), Err(ResolveError::NotATable)));
}

#[test]
fn absent_last_segment_is_not_found() {
    let doc = table(vec![("a", table(vec![]))]);
    match resolve(&doc, &segs("a.z")) {
        Err(ResolveError::KeyNotFound(k)) => assert_eq!(k, "z"),
        other => panic!("unexpected {:?}", other),
    }
}

#[test]
fn absent_first_segment_is_not_found() {
    let doc = nested();
    match resolve(&doc, &segs("x.b")) {
        Err(ResolveError::KeyNotFound(k)) => assert_eq!(k, "x"),
        other => panic!("unexpected {:?}", other),
    }
}

#[test]
fn lookup_is_case_sensitive() {
    let doc = table(vec![("Key", DocValue::Integer(1))]);
    assert!(matches!(resolve(&doc, &segs("key")), Err(ResolveError::KeyNotFound(_))));
    assert!(matches!(resolve(&doc, &segs("Key")), Ok(DocValue::Integer(1))));
}

#[test]
fn empty_path_is_refused() {
    let doc = nested();
    assert!(matches!(resolve(&doc, &Vec::new()), Err(ResolveError::EmptyKey)));
}

#[test]
fn empty_segment_names_an_empty_key() {
    let doc = table(vec![("", DocValue::Boolean(true))]);
    assert_eq!(extract(&doc, "").unwrap(), vec!["true"]);
}

#[test]
fn array_renders_one_line_per_element() {
    let v = DocValue::Array(vec![DocValue::Integer(1), DocValue::Integer(2), DocValue::Integer(3)]);
    assert_eq!(render(&v, false).unwrap(), vec!["1", "2", "3"]);
}

#[test]
fn nested_arrays_flatten_in_order() {
    let v = DocValue::Array(vec![
        DocValue::Array(vec![DocValue::Str("x".to_string()), DocValue::Boolean(false)]),
        DocValue::Array(vec![]),
        DocValue::Float("2.5".to_string()),
    ]);
    assert_eq!(render(&v, false).unwrap(), vec!["x", "false", "2.5"]);
}

#[test]
fn table_inside_array_is_unprintable() {
    let v = DocValue::Array(vec![DocValue::Integer(1), table(vec![]), DocValue::Integer(3)]);
    assert_eq!(render(&v, false), Err(RenderError::UnprintableTable { within_array: true }));
    let doc = table(vec![("list", v)]);
    match extract(&doc, "list") {
        Err(f) => {
            assert_eq!(exit_code(&f), 6);
            assert_eq!(
                f.message("doc.toml", "https://example.org/rtoml"),
                "table in an array? how did you do this?\nplease open an issue at https://example.org/rtoml"
            );
        }
        Ok(_) => panic!("a table was rendered"),
    }
}

#[test]
fn scalars_render_as_their_text() {
    let s = DocValue::Str("hello world".to_string());
    assert_eq!(render(&s, false).unwrap(), vec!["hello world"]);
    let d = DocValue::Datetime("1979-05-27T07:32:00Z".to_string());
    assert_eq!(render(&d, false).unwrap(), vec!["1979-05-27T07:32:00Z"]);
    assert_eq!(render(&DocValue::Boolean(true), false).unwrap(), vec!["true"]);
    assert_eq!(render(&DocValue::Integer(-42), false).unwrap(), vec!["-42"]);
}

#[test]
fn alike_scalars_render_alike() {
    let a = DocValue::Str("same".to_string());
    let b = DocValue::Str("same".to_string());
    assert_eq!(render(&a, true).unwrap(), render(&b, false).unwrap());
}

#[test]
fn decimal_text_matches_std() {
    for i in [0i64, 7, 10, 99, 100, -1, -10, 123456789, i64::MAX, i64::MIN] {
        assert_eq!(decimal_text(i), i.to_string());
    }
}

#[test]
fn extract_prints_leaf() {
    let doc = nested();
    assert_eq!(extract(&doc, "a.b").unwrap(), vec!["5"]);
}

#[test]
fn navigation_and_io_exit_codes_differ() {
    let doc = nested();
    let nav = extract(&doc, "missing").unwrap_err();
    assert_eq!(exit_code(&nav), 1);
    assert_eq!(nav.message("doc.toml", "https://example.org/rtoml"), "key not found: missing");
    let io = Failure::Io(IoError::Missing);
    assert_eq!(exit_code(&io), 5);
    assert_eq!(io.message("nope.toml", "https://example.org/rtoml"), "nope.toml file does not exist");
    assert_ne!(exit_code(&io), exit_code(&nav));
    assert_ne!(exit_code(&io), SUCCESS);
}

#[test]
fn every_failure_has_its_status_and_message() {
    let cases: Vec<(Failure, i32, &str)> = vec![
        (Failure::Usage(UsageError::MissingInputAndKey), 2, "input file and key are required"),
        (Failure::Usage(UsageError::MissingInput), 2, "input file is required"),
        (Failure::Usage(UsageError::MissingKey), 2, "key is required"),
        (Failure::Io(IoError::Open("denied".to_string())), 5, "error opening f.toml: denied"),
        (Failure::Io(IoError::Read("bad utf-8".to_string())), 5, "error reading f.toml: bad utf-8"),
        (Failure::Navigation(ResolveError::EmptyKey), 1, "key has no segment"),
        (Failure::Navigation(ResolveError::NotATable), 1, "value does not seem to be a TOML table"),
    ];
    for (f, code, text) in cases {
        assert_eq!(exit_code(&f), code);
        assert_eq!(f.message("f.toml", "https://example.org/rtoml"), text);
    }
}

#[test]
fn version_wins_over_everything() {
    assert_eq!(choose_action(true, "", ""), Ok(Action::ShowVersion));
    assert_eq!(choose_action(true, "/no/such/file.toml", "..bad..key"), Ok(Action::ShowVersion));
}

#[test]
fn missing_arguments_are_usage_errors() {
    assert_eq!(choose_action(false, "", ""), Err(UsageError::MissingInputAndKey));
    assert_eq!(choose_action(false, "", "a"), Err(UsageError::MissingInput));
    assert_eq!(choose_action(false, "f.toml", ""), Err(UsageError::MissingKey));
    assert_eq!(choose_action(false, "f.toml", "a"), Ok(Action::Lookup));
}

#[test]
fn parse_accepts_a_document() {
    let v = parse_document("[a]\nb = 5\n").unwrap();
    assert_eq!(v.get("a").and_then(|t| t.get("b")).and_then(|b| b.as_integer()), Some(5));
}

#[test]
fn parse_rejects_bad_text() {
    let e = parse_document("a = = 1").unwrap_err();
    assert!(!e.detail.is_empty());
    let f = Failure::Parse(e);
    assert_eq!(exit_code(&f), 5);
    assert!(f.message("x.toml", "https://example.org/rtoml").starts_with("error parsing x.toml: "));
}

#[test]
fn table_get_finds_exact_key() {
    let entries = vec![("x".to_string(), DocValue::Integer(1)), ("y".to_string(), DocValue::Integer(2))];
    assert!(matches!(table_get(&entries, &"y".to_string()), Some(DocValue::Integer(2))));
    assert!(table_get(&entries, &"z".to_string()).is_none());
    assert!(table_get(&Vec::new(), &"x".to_string()).is_none());
}
