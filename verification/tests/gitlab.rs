//! Requests to GitLab and what is made of its replies.

use gitlab_mcp::config::{AuthKind, Config, ToolsetSelection};
use gitlab_mcp::gitlab::{
    extract_error_message, ApiCall, ApiError, GitLabClient, HttpReply,
};
use gitlab_mcp::http::truncate;
use gitlab_mcp::interop::{parse, print};
use gitlab_mcp::json::Json;

fn json(text: &str) -> Json {
    parse(text).expect("the text is JSON")
}

fn config(token: &str, auth: AuthKind, max: usize) -> Config {
    Config {
        api_url: "https://gitlab.example.com/api/v4".into(),
        graphql_url: "https://gitlab.example.com/api/graphql".into(),
        token: token.into(),
        auth,
        default_project_id: None,
        read_only: false,
        denied_tools: None,
        allowed_project_ids: Default::default(),
        toolsets: ToolsetSelection::Defaults,
        use_wiki: false,
        use_milestone: false,
        use_pipeline: false,
        timeout_ms: 30000,
        max_response_bytes: max,
        insecure_tls: false,
    }
}

fn client() -> GitLabClient {
    GitLabClient::new(&config("t", AuthKind::PrivateToken, 10)).unwrap()
}

fn reply(status: u16, text: &str) -> HttpReply {
    HttpReply {
        status,
        next_page: None,
        total: None,
        next_page_token: None,
        text: Ok(text.to_string()),
    }
}

fn rest() -> ApiCall {
    ApiCall::Rest { method: "GET".into(), path: "/x".into(), query: vec![], body: None }
}

fn document() -> ApiCall {
    ApiCall::Graphql { document: "query { a }".into(), variables: json("{}") }
}

#[test]
fn reads_gitlab_message_field() {
    let m = extract_error_message(r#"{"message":"404 Project Not Found"}"#, 404);
    assert_eq!(m, "404 Project Not Found");
}

#[test]
fn reads_gitlab_error_field() {
    let m = extract_error_message(r#"{"error":"insufficient_scope"}"#, 403);
    assert_eq!(m, "insufficient_scope");
}

#[test]
fn keeps_field_error_maps_intact() {
    let m = extract_error_message(r#"{"message":{"title":["can't be blank"]}}"#, 400);
    assert!(m.contains("can't be blank"));
}

#[test]
fn falls_back_to_status_reason_on_empty_body() {
    let m = extract_error_message("", 401);
    assert_eq!(m, "Unauthorized");
}

#[test]
fn truncate_respects_char_boundaries() {
    let s = "привет мир".repeat(50);
    let t = truncate(s, 21);
    assert!(t.ends_with("[truncated]"));
}

#[test]
fn a_cut_keeps_what_fits() {
    assert_eq!(truncate("héllo".into(), 6), "héllo");
    assert_eq!(truncate("héllo".into(), 5), "héll\n… [truncated]");
    assert_eq!(truncate("héllo".into(), 2), "h\n… [truncated]");
    assert_eq!(truncate("€".into(), 2), "\n… [truncated]");
    assert_eq!(truncate("😀😀".into(), 7), "😀\n… [truncated]");
    assert_eq!(truncate("".into(), 0), "");
}

#[test]
fn the_first_field_with_a_message_counts() {
    let m = |text| extract_error_message(text, 400);
    assert_eq!(m(r#"{"error": "b", "message": "a"}"#), "a");
    assert_eq!(m(r#"{"message": 1, "error": ["x", 2]}"#), r#"["x",2]"#);
    assert_eq!(m(r#"{"message": null, "error_description": "d"}"#), "d");
    assert_eq!(m(r#"{"message": true}"#), r#"{"message": true}"#);
    assert_eq!(m(r#"["message"]"#), r#"["message"]"#);
    assert_eq!(m("<html>"), "<html>");
}

#[test]
fn an_unknown_status_has_words_too() {
    assert_eq!(extract_error_message(" \n", 799), "request failed");
    assert_eq!(extract_error_message("", 404), "Not Found");
    let long = "x".repeat(2001);
    assert_eq!(
        extract_error_message(&long, 500),
        format!("{}\n… [truncated]", "x".repeat(2000))
    );
}

#[test]
fn errors_name_their_status() {
    let text = |status: u16| ApiError { status, message: "m".into() }.text();
    assert_eq!(text(404), "GitLab 404 Not Found: m");
    assert_eq!(text(502), "GitLab 502 Bad Gateway: m");
    assert_eq!(text(799), "GitLab 799 <unknown status code>: m");
    assert_eq!(text(7), "GitLab 7 <unknown status code>: m");
}

#[test]
fn tokens_travel_in_their_own_header() {
    let c = GitLabClient::new(&config("abc", AuthKind::PrivateToken, 1)).unwrap();
    assert_eq!(c.auth(), ("PRIVATE-TOKEN", "abc"));
    let c = GitLabClient::new(&config("abc", AuthKind::Bearer, 1)).unwrap();
    assert_eq!(c.auth(), ("Authorization", "Bearer abc"));
}

#[test]
fn a_token_that_no_header_carries_is_refused() {
    assert!(GitLabClient::new(&config("a\nb", AuthKind::PrivateToken, 1)).is_err());
    assert!(GitLabClient::new(&config("a\u{7f}", AuthKind::Bearer, 1)).is_err());
    assert!(GitLabClient::new(&config("a\tb é", AuthKind::PrivateToken, 1)).is_ok());
}

#[test]
fn requests_go_to_the_instance() {
    let call = ApiCall::Rest {
        method: "POST".into(),
        path: "/projects/1".into(),
        query: vec![("a".into(), "b".into())],
        body: Some(json(r#"{"k": 1}"#)),
    };
    let r = client().request(&call);
    assert_eq!(r.method, "POST");
    assert_eq!(r.url, "https://gitlab.example.com/api/v4/projects/1");
    assert_eq!(r.query, vec![("a".to_string(), "b".to_string())]);
    assert_eq!(r.body, Some(json(r#"{"k": 1}"#)));

    let call = ApiCall::Graphql { document: "q".into(), variables: json(r#"{"v": null}"#) };
    let r = client().request(&call);
    assert_eq!(r.method, "POST");
    assert_eq!(r.url, "https://gitlab.example.com/api/graphql");
    assert!(r.query.is_empty());
    assert_eq!(r.body, Some(json(r#"{"query": "q", "variables": {"v": null}}"#)));
}

#[test]
fn a_json_body_is_read() {
    let mut r = reply(200, r#"[1, {"a": "b"}]"#);
    r.next_page = Some("2".into());
    r.total = Some("".into());
    let out = client().receive(&rest(), Ok(r)).unwrap();
    assert_eq!(out.status, 200);
    assert_eq!(out.body, json(r#"[1, {"a": "b"}]"#));
    assert_eq!(out.next_page.as_deref(), Some("2"));
    assert_eq!(out.total, None);
    assert_eq!(out.next_page_token, None);
}

#[test]
fn an_empty_success_says_so() {
    let out = client().receive(&rest(), Ok(reply(204, " \n"))).unwrap();
    assert_eq!(out.body, json(r#"{"success": true, "status": 204}"#));
}

#[test]
fn a_body_that_is_not_json_is_text() {
    let out = client().receive(&rest(), Ok(reply(299, "line one\nline two"))).unwrap();
    assert_eq!(out.body, Json::Str("line one\nl\n… [truncated]".into()));
}

#[test]
fn other_statuses_are_errors() {
    for status in [199u16, 300, 404, 500] {
        let e = client().receive(&rest(), Ok(reply(status, r#"{"message": "m"}"#))).unwrap_err();
        assert_eq!(e.status, status);
        assert_eq!(e.message, "m");
    }
}

#[test]
fn a_body_that_cannot_be_read_is_an_error() {
    let mut r = reply(200, "");
    r.text = Err("cut off".into());
    let e = client().receive(&rest(), Ok(r)).unwrap_err();
    assert_eq!(e.status, 200);
    assert_eq!(e.message, "could not read the response body: cut off");
}

#[test]
fn a_request_that_fails_is_a_bad_gateway() {
    let e = client().receive(&rest(), Err("no route".into())).unwrap_err();
    assert_eq!(e.status, 502);
    assert_eq!(e.message, "request to https://gitlab.example.com/api/v4/x failed: no route");
    let e = client().receive(&document(), Err("no route".into())).unwrap_err();
    assert_eq!(e.status, 502);
    assert_eq!(e.message, "GraphQL request failed: no route");
}

#[test]
fn graphql_failures_are_errors() {
    let failure = |text: &str| client().receive(&document(), Ok(reply(200, text)));
    let e = failure(r#"{"errors": [{"message": "a"}, {"x": 1}, {"message": "b"}]}"#).unwrap_err();
    assert_eq!(e.status, 400);
    assert_eq!(e.message, "a; b");
    let e = failure(r#"{"errors": [{"code": 1}]}"#).unwrap_err();
    assert_eq!(e.message, r#"[{"code":1}]"#);
    assert!(failure(r#"{"errors": [], "data": 1}"#).is_ok());
    assert!(failure(r#"{"errors": "x"}"#).is_ok());
    let plain = client().receive(&rest(), Ok(reply(200, r#"{"errors": [{"message": "a"}]}"#)));
    assert!(plain.is_ok(), "only GraphQL reports failures this way");
}

#[test]
fn json_prints_compactly_and_in_order() {
    let j = json(r#"{ "b": [1, -2, 2.5, true, null], "a": "x\"yé" }"#);
    assert_eq!(print(&j), r#"{"a":"x\"yé","b":[1,-2,2.5,true,null]}"#);
    assert_eq!(parse(&print(&j)), Some(j));
    assert_eq!(parse("{"), None);
    assert_eq!(parse(""), None);
}
