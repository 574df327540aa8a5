//! Routes, paths, query strings and bodies.

use gitlab_mcp::args::{is_present, number_arg, required_str};
use gitlab_mcp::interop::parse;
use gitlab_mcp::json::{Json, JsonMap};
use gitlab_mcp::registry::{Endpoint, Kind, PathVariant, VariantCondition};
use gitlab_mcp::route::{parse_method, push_query, render_path, select_route, split_args};

fn json(text: &str) -> Json {
    parse(text).expect("the text is JSON")
}

fn args(text: &str) -> JsonMap {
    match json(text) {
        Json::Object(map) => map,
        _ => panic!("arguments are an object"),
    }
}

fn strings(list: &[&str]) -> Vec<String> {
    list.iter().map(|s| s.to_string()).collect()
}

fn pair(key: &str, value: &str) -> (String, String) {
    (key.to_string(), value.to_string())
}

fn endpoint(method: Option<&str>, path: Option<&str>, path_params: &[&str]) -> Endpoint {
    Endpoint {
        kind: Kind::Rest,
        category: "issues".into(),
        read_only: true,
        destructive: false,
        method: method.map(|m| m.to_string()),
        path: path.map(|p| p.to_string()),
        path_params: strings(path_params),
        path_variants: vec![],
        query: None,
        variables: Default::default(),
        pre_step: None,
        result_path: vec![],
        query_params: vec![],
        redact: vec![],
        wrap: None,
    }
}

#[test]
fn encodes_slashes_in_project_paths() {
    let a = args(r#"{"project_id": "group/sub/project", "issue_iid": 7}"#);
    let path = render_path(
        "/projects/{project_id}/issues/{issue_iid}",
        &vec!["project_id".into(), "issue_iid".into()],
        &a,
    )
    .unwrap();
    assert_eq!(path, "/projects/group%2Fsub%2Fproject/issues/7");
}

#[test]
fn keeps_slashes_in_multi_segment_params() {
    let a = args(r#"{"direct_asset_path": "bin/linux/tool.tar.gz"}"#);
    let path =
        render_path("/x/{direct_asset_path}", &vec!["direct_asset_path".into()], &a).unwrap();
    assert_eq!(path, "/x/bin/linux/tool.tar.gz");
}

#[test]
fn missing_path_parameter_is_reported_by_name() {
    let e = render_path("/p/{project_id}", &vec!["project_id".into()], &JsonMap::new())
        .unwrap_err();
    assert!(e.0.contains("project_id is required"));
}

#[test]
fn get_puts_everything_in_the_query_string() {
    let ep = endpoint(Some("GET"), Some("/projects/{project_id}/issues"), &["project_id"]);
    let a = args(
        r#"{"project_id": "x/y", "state": "opened", "labels": ["bug", "p1"], "full_response": true}"#,
    );
    let (q, b) = split_args(&ep, "GET", &vec!["project_id".into()], &a).unwrap();
    assert!(b.is_none(), "GET must not carry a body");
    assert!(q.contains(&("state".into(), "opened".into())));
    assert!(q.contains(&("labels".into(), "bug,p1".into())));
    assert!(!q.iter().any(|(k, _)| k == "full_response"), "meta args are stripped");
    assert!(!q.iter().any(|(k, _)| k == "project_id"), "path args are not repeated");
}

#[test]
fn post_puts_everything_in_the_body_except_forced_query_params() {
    let mut ep = endpoint(Some("POST"), Some("/p/{project_id}/e"), &["project_id"]);
    ep.query_params = vec!["force".into()];
    let a = args(r#"{"project_id": 1, "name": "prod", "force": true}"#);
    let (q, b) = split_args(&ep, "POST", &vec!["project_id".into()], &a).unwrap();
    assert_eq!(q, vec![("force".to_string(), "true".to_string())]);
    let body = b.expect("body present");
    assert_eq!(body.get("name"), Some(&json(r#""prod""#)));
    assert!(body.get("force").is_none(), "forced query params leave the body");
}

#[test]
fn nested_filters_become_bracketed_query_keys() {
    let mut q = Vec::new();
    push_query(&mut q, "filter", &json(r#"{"environment_scope": "prod"}"#));
    assert_eq!(q, vec![("filter[environment_scope]".to_string(), "prod".to_string())]);
}

#[test]
fn variant_selection_follows_argument_presence() {
    let mut ep = endpoint(None, None, &[]);
    ep.path_variants = vec![
        PathVariant {
            when: VariantCondition { param: "project_id".into(), present: true },
            method: Some("GET".into()),
            path: "/projects/{project_id}/hooks".into(),
            path_params: vec!["project_id".into()],
        },
        PathVariant {
            when: VariantCondition { param: "project_id".into(), present: false },
            method: Some("GET".into()),
            path: "/groups/{group_id}/hooks".into(),
            path_params: vec!["group_id".into()],
        },
    ];
    let (_, p, _) = select_route(&ep, &args(r#"{"group_id": "g"}"#)).unwrap();
    assert_eq!(p, "/groups/{group_id}/hooks");
    let (_, p, _) = select_route(&ep, &args(r#"{"project_id": "p"}"#)).unwrap();
    assert_eq!(p, "/projects/{project_id}/hooks");
}

#[test]
fn a_variant_falls_back_to_the_endpoint_and_then_to_get() {
    let mut ep = endpoint(Some("DELETE"), Some("/own"), &["x"]);
    ep.path_variants = vec![PathVariant {
        when: VariantCondition { param: "id".into(), present: true },
        method: None,
        path: "/v/{id}".into(),
        path_params: vec!["id".into()],
    }];
    let route = select_route(&ep, &args(r#"{"id": 7}"#)).unwrap();
    assert_eq!(route, ("DELETE".to_string(), "/v/{id}".to_string(), strings(&["id"])));
    ep.method = None;
    assert_eq!(select_route(&ep, &args(r#"{"id": 7}"#)).unwrap().0, "GET");
    for absent in [r#"{"id": false}"#, r#"{"id": 0}"#] {
        let e = select_route(&ep, &args(absent)).unwrap_err();
        assert_eq!(e.0, "no path variant matched the supplied arguments");
    }
}

#[test]
fn an_endpoint_without_a_route_says_so() {
    let e = select_route(&endpoint(Some("GET"), None, &[]), &JsonMap::new()).unwrap_err();
    assert_eq!(e.0, "this tool has no REST route");
    let e = select_route(&endpoint(None, Some("/p"), &[]), &JsonMap::new()).unwrap_err();
    assert_eq!(e.0, "this tool has no REST route");
}

#[test]
fn arguments_are_present_when_they_are_set_and_not_falsy() {
    let a = args(r#"{"n": null, "f": false, "t": true, "e": "", "s": "x", "z": 0, "l": []}"#);
    for key in ["n", "f", "e", "z", "missing"] {
        assert!(!is_present(&a, key), "{}", key);
    }
    for key in ["t", "s", "l"] {
        assert!(is_present(&a, key), "{}", key);
    }
}

#[test]
fn zero_is_falsy_however_it_is_written() {
    for zero in ["0", "-0", "0.0", "-0.0", "0e7", "0.00E-3"] {
        let a = args(&format!("{{\"id\": {zero}}}"));
        assert!(!is_present(&a, "id"), "{}", zero);
    }
    for number in ["1", "-1", "10", "0.5", "-0.02", "1e7", "5e-9", "18446744073709551615", "1e300"] {
        let a = args(&format!("{{\"id\": {number}}}"));
        assert!(is_present(&a, "id"), "{}", number);
    }
    assert!(is_present(&args(r#"{"id": "0"}"#), "id"));
}

#[test]
fn a_path_that_is_not_filled_is_refused() {
    let a = args(r#"{"a": "1", "b": "{a}"}"#);
    let e = render_path("/{a}/{c}", &strings(&["a"]), &a).unwrap_err();
    assert_eq!(e.0, "path /1/{c} still has unfilled parameters");
    assert_eq!(render_path("/{a}/{b}/{a}", &strings(&["b", "a"]), &a).unwrap(), "/1/%7Ba%7D/1");
}

#[test]
fn values_add_no_segment_to_a_path() {
    let a = args(r#"{"p": "a/b?c#d e%../é"}"#);
    let path = render_path("/x/{p}/y", &strings(&["p"]), &a).unwrap();
    assert_eq!(path, "/x/a%2Fb%3Fc%23d%20e%25..%2F%C3%A9/y");
    assert_eq!(path.matches('/').count(), 3);
}

#[test]
fn values_do_not_end_a_path() {
    let a = args(r#"{"direct_asset_path": "a/b?c#d"}"#);
    let names = strings(&["direct_asset_path"]);
    let path = render_path("/x/{direct_asset_path}?y#z", &names, &a).unwrap();
    assert_eq!(path, "/x/a/b%3Fc%23d?y#z");
}

#[test]
fn methods_are_tokens() {
    assert_eq!(parse_method("PATCH").unwrap(), "PATCH");
    assert_eq!(parse_method("x-Custom_1").unwrap(), "x-Custom_1");
    assert_eq!(parse_method("").unwrap_err().0, "unsupported HTTP method ");
    assert_eq!(parse_method("GE T").unwrap_err().0, "unsupported HTTP method GE T");
    assert_eq!(parse_method("GÉT").unwrap_err().0, "unsupported HTTP method GÉT");
}

#[test]
fn every_character_of_a_method_is_judged_alike() {
    let other = "!#$%&'*+-.^_`|~";
    for code in 0u32..0x250 {
        let c = char::from_u32(code).unwrap();
        let fits = c.is_ascii_alphanumeric() || other.contains(c);
        assert_eq!(parse_method(&c.to_string()).is_ok(), fits, "{:?}", c);
    }
}

#[test]
fn query_values_are_written_by_their_shape() {
    let mut q = Vec::new();
    push_query(&mut q, "list", &json(r#"[1, "two", true, null, {"x": 1}]"#));
    push_query(&mut q, "none", &json(r#"[null, []]"#));
    push_query(&mut q, "map", &json(r#"{"b": 2, "a": "x", "c": null, "d": [1]}"#));
    push_query(&mut q, "null", &json("null"));
    push_query(&mut q, "neg", &json("-1.5"));
    assert_eq!(
        q,
        vec![
            pair("list", "1,two,true"),
            pair("map[a]", "x"),
            pair("map[b]", "2"),
            pair("neg", "-1.5"),
        ]
    );
}

#[test]
fn nothing_to_send_is_no_body() {
    let ep = endpoint(Some("PUT"), Some("/p/{id}"), &["id"]);
    let a = args(r#"{"id": 1, "full_response": true, "title": null}"#);
    let (q, b) = split_args(&ep, "PUT", &strings(&["id"]), &a).unwrap();
    assert!(q.is_empty());
    assert!(b.is_none());
}

#[test]
fn a_meta_argument_changes_nothing() {
    let ep = endpoint(Some("PATCH"), Some("/p"), &[]);
    let plain = split_args(&ep, "PATCH", &vec![], &args(r#"{"a": [1], "z": {"k": 1}}"#)).unwrap();
    let meta = split_args(
        &ep,
        "PATCH",
        &vec![],
        &args(r#"{"a": [1], "full_response": "x", "z": {"k": 1}}"#),
    )
    .unwrap();
    assert_eq!(plain, meta);
    assert_eq!(plain.1, Some(json(r#"{"a": [1], "z": {"k": 1}}"#)));
}

#[test]
fn a_delete_carries_no_body() {
    let ep = endpoint(Some("DELETE"), Some("/p"), &[]);
    let (q, b) = split_args(&ep, "DELETE", &vec![], &args(r#"{"a": 1}"#)).unwrap();
    assert_eq!(q, vec![pair("a", "1")]);
    assert!(b.is_none());
}

#[test]
fn numbers_come_as_numbers_or_text() {
    let a = args(r#"{"n": 7, "t": "+8", "neg": -1, "f": 1.5, "s": "x", "max": 18446744073709551615}"#);
    assert_eq!(number_arg(&a, "n", 5), 7);
    assert_eq!(number_arg(&a, "t", 5), 8);
    assert_eq!(number_arg(&a, "neg", 5), 5);
    assert_eq!(number_arg(&a, "f", 5), 5);
    assert_eq!(number_arg(&a, "s", 5), 5);
    assert_eq!(number_arg(&a, "missing", 5), 5);
    assert_eq!(number_arg(&a, "max", 5), u64::MAX);
}

#[test]
fn scalars_are_required_as_text() {
    let a = args(r#"{"s": "x", "n": 7, "b": false, "z": null}"#);
    assert_eq!(required_str(&a, "s").unwrap(), "x");
    assert_eq!(required_str(&a, "n").unwrap(), "7");
    assert_eq!(required_str(&a, "b").unwrap(), "false");
    assert_eq!(required_str(&a, "z").unwrap_err().0, "z is required");
    assert_eq!(required_str(&a, "q").unwrap_err().0, "q is required");
}
