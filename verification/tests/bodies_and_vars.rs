use gitlab_cli::bodies::{build_play_body, build_retry_body, build_retry_request, job_gid_exec, RETRY_JOB_QUERY};
use gitlab_cli::error::CliError;
use gitlab_cli::json::{list, member, object, quote};
use gitlab_cli::vars::{parse_variables, split_assignment_exec, VarMap};

fn strings(items: &[&str]) -> Vec<String> {
    items.iter().map(|s| s.to_string()).collect()
}

fn map(pairs: &[(&str, &str)]) -> VarMap {
    let mut m = VarMap::new();
    for (k, v) in pairs {
        m.insert(k.to_string(), v.to_string());
    }
    m
}

fn entries(m: &VarMap) -> Vec<(String, String)> {
    (0..m.len()).map(|i| (m.get(i).key.clone(), m.get(i).value.clone())).collect()
}

#[test]
fn json_strings_are_escaped() {
    assert_eq!(quote("plain"), "\"plain\"");
    assert_eq!(quote("a\"b\\c\n"), "\"a\\\"b\\\\c\\n\"");
    assert_eq!(quote("\t\r\u{8}\u{c}\u{1}\u{1f}"), "\"\\t\\r\\b\\f\\u0001\\u001f\"");
    assert_eq!(quote("é/ü"), "\"é/ü\"");
    assert_eq!(quote(""), "\"\"");
}

#[test]
fn json_framing() {
    assert_eq!(member("k", "1"), "\"k\":1");
    assert_eq!(object(&vec![]), "{}");
    assert_eq!(object(&strings(&["\"a\":1", "\"b\":2"])), "{\"a\":1,\"b\":2}");
    assert_eq!(list(&strings(&["1", "2", "3"])), "[1,2,3]");
    assert_eq!(list(&vec![]), "[]");
}

#[test]
fn split_at_first_equals_sign() {
    assert_eq!(split_assignment_exec("FOO=bar"), Some(("FOO".to_string(), "bar".to_string())));
    assert_eq!(split_assignment_exec("A=b=c"), Some(("A".to_string(), "b=c".to_string())));
    assert_eq!(split_assignment_exec("=x"), Some(("".to_string(), "x".to_string())));
    assert_eq!(split_assignment_exec("EMPTY="), Some(("EMPTY".to_string(), "".to_string())));
    assert_eq!(split_assignment_exec("novalue"), None);
}

#[test]
fn variables_are_parsed_in_order() {
    let m = parse_variables(&strings(&["FOO=bar", "BAZ=qux", "A=b=c"])).unwrap();
    assert_eq!(
        entries(&m),
        vec![
            ("FOO".to_string(), "bar".to_string()),
            ("BAZ".to_string(), "qux".to_string()),
            ("A".to_string(), "b=c".to_string())
        ]
    );
    assert!(parse_variables(&vec![]).unwrap().is_empty());
}

#[test]
fn last_assignment_wins_law() {
    let m = parse_variables(&strings(&["X=1", "Y=2", "X=3"])).unwrap();
    assert_eq!(entries(&m), vec![("X".to_string(), "3".to_string()), ("Y".to_string(), "2".to_string())]);
}

#[test]
fn insert_replaces_in_place_law() {
    let mut m = map(&[("a", "1"), ("b", "2")]);
    m.insert("a".to_string(), "9".to_string());
    m.insert("c".to_string(), "3".to_string());
    assert_eq!(
        entries(&m),
        vec![("a".to_string(), "9".to_string()), ("b".to_string(), "2".to_string()), ("c".to_string(), "3".to_string())]
    );
    assert_eq!(m.len(), 3);
}

#[test]
fn first_malformed_variable_is_reported() {
    let err = parse_variables(&strings(&["OK=1", "broken", "also-broken"])).unwrap_err();
    assert_eq!(err, CliError::InvalidVariable { item: "broken".to_string() });
    assert_eq!(err.message(), "Invalid variable format 'broken', expected KEY=VALUE");
}

#[test]
fn play_body_shapes() {
    let empty = VarMap::new();
    assert_eq!(build_play_body(&empty, &empty), "{}");
    assert_eq!(
        build_play_body(&map(&[("FOO", "bar"), ("BAZ", "qux")]), &empty),
        "{\"job_variables_attributes\":[{\"key\":\"FOO\",\"value\":\"bar\"},{\"key\":\"BAZ\",\"value\":\"qux\"}]}"
    );
    assert_eq!(
        build_play_body(&empty, &map(&[("environment", "staging")])),
        "{\"job_inputs\":{\"environment\":\"staging\"}}"
    );
    assert_eq!(
        build_play_body(&map(&[("K", "v\"q")]), &map(&[("version", "v2.1.0")])),
        "{\"job_variables_attributes\":[{\"key\":\"K\",\"value\":\"v\\\"q\"}],\"job_inputs\":{\"version\":\"v2.1.0\"}}"
    );
}

#[test]
fn play_body_is_valid_json() {
    let body = build_play_body(&map(&[("A", "x\ny"), ("B", "\\")]), &map(&[("i", "é")]));
    let value: serde_json::Value = serde_json::from_str(&body).unwrap();
    assert_eq!(value["job_variables_attributes"][0]["key"], "A");
    assert_eq!(value["job_variables_attributes"][0]["value"], "x\ny");
    assert_eq!(value["job_variables_attributes"][1]["value"], "\\");
    assert_eq!(value["job_inputs"]["i"], "é");
}

#[test]
fn retry_body_shapes() {
    assert_eq!(build_retry_body(&VarMap::new()), "{}");
    assert_eq!(build_retry_body(&map(&[("filter", "xml")])), "{\"inputs\":{\"filter\":\"xml\"}}");
}

#[test]
fn retry_request_shape() {
    let body = build_retry_request(42, &map(&[("FOO", "bar")]), &VarMap::new());
    let value: serde_json::Value = serde_json::from_str(&body).unwrap();
    assert_eq!(value["operationName"], "retryJobWithVariables");
    assert_eq!(value["query"], RETRY_JOB_QUERY);
    assert_eq!(value["variables"]["id"], "gid://gitlab/Ci::Build/42");
    assert_eq!(value["variables"]["variables"][0]["key"], "FOO");
    assert_eq!(value["variables"]["variables"][0]["value"], "bar");
    assert!(value["variables"].get("inputs").is_none());
    assert!(body.starts_with("{\"operationName\":\"retryJobWithVariables\",\"query\":\"mutation retryJobWithVariables("));
    assert!(body.ends_with(",\"variables\":{\"id\":\"gid://gitlab/Ci::Build/42\",\"variables\":[{\"key\":\"FOO\",\"value\":\"bar\"}]}}"));

    let with_inputs = build_retry_request(7, &map(&[("A", "1")]), &map(&[("filter", "xml")]));
    assert!(with_inputs.ends_with(",\"inputs\":[{\"name\":\"filter\",\"value\":\"xml\"}]}}"));
}

#[test]
fn job_global_id() {
    assert_eq!(job_gid_exec(123), "gid://gitlab/Ci::Build/123");
}

#[test]
fn parsing_succeeds_exactly_when_every_item_assigns_law() {
    let ok = parse_variables(&strings(&["A=1", "B==2", "=empty-key", "A=3"])).unwrap();
    let keys: Vec<String> = entries(&ok).into_iter().map(|(k, _)| k).collect();
    assert_eq!(keys, vec!["A".to_string(), "B".to_string(), "".to_string()]);
    assert_eq!(entries(&ok)[1].1, "=2");
    assert!(parse_variables(&strings(&["A=1", "B"])).is_err());
    assert!(parse_variables(&strings(&[])).unwrap().is_empty());
}
