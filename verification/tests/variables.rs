//! GraphQL variables, mutation errors, result paths and redaction.

use gitlab_mcp::gitlab::ApiResponse;
use gitlab_mcp::interop::parse;
use gitlab_mcp::json::{Json, JsonMap};
use gitlab_mcp::registry::{Endpoint, Kind, VariableSource};
use gitlab_mcp::shape::{check_mutation_errors, redact, shape, unwrap_path};
use gitlab_mcp::strmap::StrMap;
use gitlab_mcp::variables::{apply_transform, build_variables, vulnerability_gid};

fn json(text: &str) -> Json {
    parse(text).expect("the text is JSON")
}

fn args(text: &str) -> JsonMap {
    match json(text) {
        Json::Object(map) => map,
        _ => panic!("arguments are an object"),
    }
}

fn transform(
    name: &str,
    raw: &str,
    arguments: &str,
    resolved: &str,
    default: &str,
) -> Result<Option<Json>, String> {
    let fallback = parse(default);
    apply_transform(
        name,
        parse(raw),
        &args(arguments),
        &args(resolved),
        Some("project_id"),
        fallback.as_ref(),
    )
    .map_err(|e| e.0)
}

fn shaped(name: &str, raw: &str) -> Option<Json> {
    transform(name, raw, "{}", "{}", "").unwrap()
}

#[test]
fn redaction_strips_secrets_from_objects_and_arrays() {
    let mut v = json(r#"[{"id": 1, "token": "glptt-secret"}, {"id": 2, "token": "x"}]"#);
    redact(&mut v, &vec!["token".to_string()]);
    assert_eq!(v, json(r#"[{"id": 1}, {"id": 2}]"#));
}

#[test]
fn graphql_variables_apply_defaults_and_transforms() {
    let mut spec = StrMap::new();
    spec.insert(
        "first".to_string(),
        VariableSource {
            from: Some("limit".into()),
            default: Some(json("20")),
            transform: None,
            value: None,
        },
    );
    spec.insert(
        "fullPath".to_string(),
        VariableSource {
            from: Some("group_id".into()),
            default: None,
            transform: Some("resolved_full_path".into()),
            value: None,
        },
    );
    let mut resolved = JsonMap::new();
    resolved.put("group_id", json(r#""acme/platform""#));
    let vars = build_variables(&spec, &args(r#"{"group_id": 42}"#), &resolved).unwrap();
    assert_eq!(vars.field("first"), Some(&json("20")), "default applies when the arg is absent");
    assert_eq!(
        vars.field("fullPath"),
        Some(&json(r#""acme/platform""#)),
        "transform wins over the raw arg"
    );
}

#[test]
fn redaction_looks_into_arrays_but_not_into_objects() {
    let mut v = json(r#"[[{"token": 1, "a": {"token": 2}}], "token"]"#);
    redact(&mut v, &vec!["token".to_string(), "absent".to_string()]);
    assert_eq!(v, json(r#"[[{"a": {"token": 2}}], "token"]"#));
    let before = json(r#"{"a": 1}"#);
    let mut after = json(r#"{"a": 1}"#);
    redact(&mut after, &vec!["token".to_string()]);
    assert_eq!(after, before);
}

#[test]
fn variables_that_have_no_value_are_left_out() {
    let source = |from: Option<&str>, default: &str, value: &str| VariableSource {
        from: from.map(|f| f.to_string()),
        default: parse(default),
        transform: None,
        value: parse(value),
    };
    let mut spec = StrMap::new();
    spec.insert("a".to_string(), source(Some("x"), "", ""));
    spec.insert("b".to_string(), source(Some("n"), "1", ""));
    spec.insert("c".to_string(), source(Some("x"), "", r#"{"fixed": null}"#));
    spec.insert("d".to_string(), source(None, "", ""));
    spec.insert("e".to_string(), source(None, "2", ""));
    spec.insert("f".to_string(), source(Some("y"), "3", ""));
    let vars = build_variables(&spec, &args(r#"{"n": null, "y": [1]}"#), &JsonMap::new()).unwrap();
    assert_eq!(Json::Object(vars), json(r#"{"b": 1, "c": {"fixed": null}, "e": 2, "f": [1]}"#));
}

#[test]
fn the_first_variable_that_fails_is_reported() {
    let source = |transform: &str| VariableSource {
        from: None,
        default: None,
        transform: Some(transform.to_string()),
        value: None,
    };
    let mut spec = StrMap::new();
    spec.insert("b".to_string(), source("no\"such"));
    spec.insert("a".to_string(), source("string"));
    spec.insert("c".to_string(), source("vulnerability_gid"));
    let e = build_variables(&spec, &JsonMap::new(), &JsonMap::new()).unwrap_err();
    assert_eq!(e.0, "unknown variable transform \"no\\\"such\"");
}

#[test]
fn full_paths_are_resolved_by_argument() {
    let t = |raw, resolved, default| {
        transform("resolved_full_path", raw, "{}", resolved, default).unwrap()
    };
    assert_eq!(t("1", r#"{"project_id": "a/b"}"#, "9"), Some(json(r#""a/b""#)));
    assert_eq!(t("1", r#"{"group_id": "a/b"}"#, "9"), Some(json("1")));
    assert_eq!(t("", "{}", "9"), Some(json("9")));
    assert_eq!(t("", "{}", ""), None);
}

#[test]
fn simple_transforms_shape_one_value() {
    assert_eq!(shaped("string", "7"), Some(json(r#""7""#)));
    assert_eq!(shaped("string", "[7]"), None);
    assert_eq!(transform("string", "", "{}", "{}", "1").unwrap(), Some(json("1")));
    assert_eq!(shaped("state_passthrough", "[7]"), Some(json("[7]")));
    assert_eq!(transform("state_passthrough", "", "{}", "{}", "1").unwrap(), Some(json("1")));
    assert_eq!(shaped("work_item_type_enum", r#""straße""#), Some(json(r#""STRASSE""#)));
    assert_eq!(shaped("work_item_type_enum", "1"), None);
    assert_eq!(shaped("work_item_type_enums", r#"["a", 1, "b"]"#), Some(json(r#"["A", "B"]"#)));
    assert_eq!(shaped("work_item_type_enums", r#""a""#), None);
    assert_eq!(shaped("upper_single_array", r#""a""#), Some(json(r#"["A"]"#)));
    assert_eq!(shaped("upper_single_array", ""), None);
}

#[test]
fn page_sizes_are_capped() {
    assert_eq!(shaped("min_100", "99"), Some(json("99")));
    assert_eq!(shaped("min_100", "101"), Some(json("100")));
    assert_eq!(shaped("min_100", r#""50""#), Some(json("20")));
    assert_eq!(transform("min_100", "", "{}", "{}", "500").unwrap(), Some(json("100")));
    assert_eq!(transform("min_100", "-1", "{}", "{}", "30").unwrap(), Some(json("30")));
}

#[test]
fn global_ids_come_from_what_was_resolved() {
    let resolved = r#"{"__work_item_gid": "gid://gitlab/WorkItem/7", "__work_item_type_gid": "t"}"#;
    let t = |name| transform(name, "", "{}", resolved, "").unwrap();
    assert_eq!(t("work_item_gid"), Some(json(r#""gid://gitlab/WorkItem/7""#)));
    assert_eq!(t("work_item_type_gid"), Some(json(r#""t""#)));
    assert_eq!(t("issue_gid_from_work_item"), Some(json(r#""gid://gitlab/Issue/7""#)));
    assert_eq!(shaped("work_item_gid", "1"), None);
    assert_eq!(shaped("issue_gid_from_work_item", "1"), None);
}

#[test]
fn timeline_events_need_an_incident_and_a_note() {
    let t = |arguments, resolved| {
        transform("timeline_event_create_input", "", arguments, resolved, "")
    };
    let found = r#"{"__work_item_gid": "gid://gitlab/WorkItem/7"}"#;
    assert_eq!(t("{}", "{}").unwrap_err(), "the incident could not be resolved");
    assert_eq!(t("{}", found).unwrap_err(), "note is required");
    assert_eq!(
        t(r#"{"note": null, "occurred_at": null, "tag_names": ["x"]}"#, found).unwrap(),
        Some(json(
            r#"{"incidentId": "gid://gitlab/Issue/7", "note": null, "tagNames": ["x"]}"#
        ))
    );
    assert_eq!(
        t(r#"{"note": "n", "occurred_at": "now"}"#, found).unwrap(),
        Some(json(
            r#"{"incidentId": "gid://gitlab/Issue/7", "note": "n", "occurredAt": "now"}"#
        ))
    );
}

#[test]
fn proxy_settings_need_a_group_and_a_change() {
    let t = |raw, arguments, resolved| {
        transform("dependency_proxy_settings_input", raw, arguments, resolved, "")
    };
    assert_eq!(t("", "{}", "{}").unwrap_err(), "group_id is required");
    assert_eq!(
        t("1", r#"{"enabled": null}"#, "{}").unwrap_err(),
        "At least one of enabled, identity, or secret must be provided"
    );
    assert_eq!(
        t("1", r#"{"enabled": false, "secret": "s"}"#, "{}").unwrap(),
        Some(json(r#"{"groupPath": 1, "enabled": false, "secret": "s"}"#))
    );
    assert_eq!(
        t("1", r#"{"identity": "i"}"#, r#"{"project_id": "g"}"#).unwrap(),
        Some(json(r#"{"groupPath": "g", "identity": "i"}"#))
    );
    assert_eq!(
        t("1", r#"{"identity": "i"}"#, r#"{"resolved_full_path": "g"}"#).unwrap(),
        Some(json(r#"{"groupPath": 1, "identity": "i"}"#))
    );
}

#[test]
fn proxy_settings_name_the_group_by_its_resolved_path() {
    let input = apply_transform(
        "dependency_proxy_settings_input",
        parse("42"),
        &args(r#"{"group_id": 42, "enabled": true}"#),
        &args(r#"{"group_id": "acme/platform"}"#),
        Some("group_id"),
        None,
    )
    .unwrap();
    assert_eq!(input, Some(json(r#"{"groupPath": "acme/platform", "enabled": true}"#)));
    let input = apply_transform(
        "dependency_proxy_settings_input",
        parse("42"),
        &args(r#"{"group_id": 42, "enabled": true}"#),
        &args(r#"{"group_id": "acme/platform"}"#),
        None,
        None,
    )
    .unwrap();
    assert_eq!(input, Some(json(r#"{"groupPath": 42, "enabled": true}"#)));
}

#[test]
fn vulnerabilities_are_numbers_or_global_ids() {
    assert_eq!(vulnerability_gid("12").unwrap(), "gid://gitlab/Vulnerability/12");
    assert_eq!(
        vulnerability_gid("gid://gitlab/Vulnerability/12").unwrap(),
        "gid://gitlab/Vulnerability/12"
    );
    for id in ["", "1a", "gid://gitlab/Issue/1"] {
        assert_eq!(
            vulnerability_gid(id).unwrap_err().0,
            format!(
                "vulnerability_id must be a number or a gid://gitlab/Vulnerability/<n>, got {id:?}"
            )
        );
    }
    assert_eq!(
        transform("vulnerability_gid", "3", "{}", "{}", "").unwrap(),
        Some(json(r#""gid://gitlab/Vulnerability/3""#))
    );
    assert_eq!(
        transform("vulnerability_gid", "[]", "{}", "{}", "").unwrap_err(),
        "vulnerability_id is required"
    );
}

#[test]
fn a_dismissal_needs_a_reason_and_a_confirmation_does_not() {
    let dismiss = |arguments| transform("vulnerability_dismiss_input", "3", arguments, "{}", "");
    let confirm = |raw, arguments| {
        transform("vulnerability_confirm_input", raw, arguments, "{}", "")
    };
    assert_eq!(dismiss("{}").unwrap_err(), "reason is required");
    assert_eq!(
        dismiss(r#"{"reason": "false_positive", "comment": ""}"#).unwrap(),
        Some(json(
            r#"{"id": "gid://gitlab/Vulnerability/3", "dismissalReason": "FALSE_POSITIVE"}"#
        ))
    );
    assert_eq!(
        confirm(r#""3""#, r#"{"reason": "r", "comment": "c"}"#).unwrap(),
        Some(json(r#"{"id": "gid://gitlab/Vulnerability/3", "comment": "c"}"#))
    );
    assert_eq!(confirm("null", "{}").unwrap_err(), "vulnerability_id is required");
    assert!(confirm(r#""x""#, "{}").unwrap_err().starts_with("vulnerability_id must be"));
}

#[test]
fn mutation_errors_are_found_in_the_payload() {
    let check = |text: &str| check_mutation_errors(&json(text)).map_err(|e| e.0);
    assert!(check(r#"{"data": {"a": {"errors": []}, "b": 1, "c": {"errors": [null]}}}"#).is_ok());
    assert!(check(r#"{"data": null}"#).is_ok());
    assert!(check("[]").is_ok());
    assert_eq!(
        check(r#"{"data": {"z": {"errors": ["q"]}, "b": {"errors": ["x", 2]}}}"#).unwrap_err(),
        "b failed: x, 2"
    );
}

#[test]
fn result_paths_lead_as_far_as_they_can() {
    let path = |list: &[&str]| list.iter().map(|s| s.to_string()).collect::<Vec<String>>();
    let at = |keys: &[&str]| unwrap_path(json(r#"{"a": {"b": [1]}}"#), &path(keys));
    assert_eq!(at(&[]), json(r#"{"a": {"b": [1]}}"#));
    assert_eq!(at(&["a", "b"]), json("[1]"));
    assert_eq!(at(&["a", "x", "b"]), json(r#"{"b": [1]}"#));
    assert_eq!(at(&["a", "b", "c"]), json("[1]"));
}

#[test]
fn lists_are_wrapped_as_the_endpoint_wants() {
    let endpoint = |wrap: Option<&str>| Endpoint {
        kind: Kind::Rest,
        category: "c".into(),
        read_only: true,
        destructive: false,
        method: None,
        path: None,
        path_params: vec![],
        path_variants: vec![],
        query: None,
        variables: Default::default(),
        pre_step: None,
        result_path: vec![],
        query_params: vec![],
        redact: vec!["token".into()],
        wrap: wrap.map(|w| w.to_string()),
    };
    let response = |token: Option<&str>| ApiResponse {
        status: 200,
        body: json(r#"[{"id": 1, "token": "t"}]"#),
        next_page: Some("2".into()),
        total: None,
        next_page_token: token.map(|t| t.to_string()),
    };
    assert_eq!(shape(&endpoint(None), response(None)), json(r#"[{"id": 1}]"#));
    assert_eq!(shape(&endpoint(Some("other")), response(None)), json(r#"[{"id": 1}]"#));
    assert_eq!(
        shape(&endpoint(Some("pagination")), response(Some("t"))),
        json(r#"{"items": [{"id": 1}], "pagination": {"next_page": "2", "total": null}}"#)
    );
    let note = "pass the token back as page_token to continue";
    assert_eq!(
        shape(&endpoint(Some("keyset")), response(Some("t"))),
        json(&format!(
            r#"{{"items": [{{"id": 1}}], "next_page_token": "t", "pagination_note": "{note}"}}"#
        ))
    );
    assert_eq!(
        shape(&endpoint(Some("keyset")), response(None)),
        json(&format!(
            r#"{{"items": [{{"id": 1}}], "next_page_token": "2", "pagination_note": "{note}"}}"#
        ))
    );
}
