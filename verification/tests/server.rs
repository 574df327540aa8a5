//! What the client is told, and which calls are refused.

use std::sync::Arc;

use gitlab_mcp::config::{AuthKind, Config, ToolsetSelection};
use gitlab_mcp::error::ToolError;
use gitlab_mcp::exec::Executor;
use gitlab_mcp::flow::Step;
use gitlab_mcp::gitlab::HttpReply;
use gitlab_mcp::interop::parse;
use gitlab_mcp::json::{Json, JsonMap};
use gitlab_mcp::registry::{Endpoint, Kind, Registry, ToolMeta, Toolset};
use gitlab_mcp::server::{render_result, GitLabMcp};
use gitlab_mcp::strmap::StrMap;

fn config(read_only: bool) -> Config {
    Config {
        api_url: "https://gitlab.example.com/api/v4".into(),
        graphql_url: "https://gitlab.example.com/api/graphql".into(),
        token: "t".into(),
        auth: AuthKind::Bearer,
        default_project_id: None,
        read_only,
        denied_tools: Some(regex::Regex::new("^forbidden$").unwrap()),
        allowed_project_ids: Default::default(),
        toolsets: ToolsetSelection::Defaults,
        use_wiki: false,
        use_milestone: false,
        use_pipeline: false,
        timeout_ms: 30000,
        max_response_bytes: 1000,
        insecure_tls: false,
    }
}

fn endpoint(kind: Kind, category: &str, method: Option<&str>, read_only: bool) -> Endpoint {
    Endpoint {
        kind,
        category: category.into(),
        read_only,
        destructive: !read_only,
        method: method.map(|m| m.to_string()),
        path: Some("/things".into()),
        path_params: vec![],
        path_variants: vec![],
        query: None,
        variables: Default::default(),
        pre_step: None,
        result_path: vec![],
        query_params: vec![],
        redact: vec![],
        wrap: None,
    }
}

fn server(read_only: bool) -> GitLabMcp {
    let tools = [
        ("discover_tools", endpoint(Kind::Local, "core", None, true)),
        ("list_things", endpoint(Kind::Rest, "issues", Some("GET"), true)),
        ("make_thing", endpoint(Kind::Rest, "issues", Some("POST"), false)),
        ("drop_thing", endpoint(Kind::Rest, "issues", Some("DELETE"), false)),
        ("forbidden", endpoint(Kind::Rest, "issues", Some("GET"), true)),
        ("list_releases", endpoint(Kind::Rest, "releases", Some("PUT"), true)),
    ];
    let mut endpoints = StrMap::new();
    let mut metas = Vec::new();
    for (name, ep) in tools {
        endpoints.insert(name.to_string(), Arc::new(ep));
        metas.push(ToolMeta {
            name: name.into(),
            description: format!("about {name}"),
            input_schema: JsonMap::new(),
        });
    }
    let toolsets = vec![
        Toolset { id: "issues".into(), is_default: true, tools: vec![] },
        Toolset { id: "releases".into(), is_default: false, tools: vec![] },
        Toolset { id: "wiki".into(), is_default: false, tools: vec![] },
    ];
    let cfg = config(read_only);
    let registry = Registry::load(&cfg, metas, toolsets, &endpoints).ok().unwrap();
    GitLabMcp::new(registry, Executor::new(&cfg).ok().unwrap())
}

fn refusal(step: Step) -> String {
    match step {
        Step::Done(Err(e)) => e.0,
        other => panic!("not refused: {:?}", other),
    }
}

#[test]
fn the_client_sees_the_tools_on_offer() {
    let tools = server(false).list_tools();
    let names: Vec<&str> = tools.iter().map(|t| t.name.as_str()).collect();
    assert_eq!(names, ["discover_tools", "drop_thing", "list_things", "make_thing"]);
    let hints: Vec<(bool, bool, bool, bool)> = tools
        .iter()
        .map(|t| (t.read_only, t.destructive, t.idempotent, t.open_world))
        .collect();
    assert_eq!(
        hints,
        [
            (true, false, false, true),
            (false, true, true, true),
            (true, false, true, true),
            (false, true, false, true),
        ]
    );
    assert_eq!(tools[2].description, "about list_things");
}

#[test]
fn a_tool_can_be_described_without_being_on_offer() {
    let s = server(true);
    assert_eq!(s.get_tool("list_releases").unwrap().name, "list_releases");
    assert!(s.get_tool("list_releases").unwrap().idempotent);
    assert!(s.get_tool("nothing").is_none());
}

#[test]
fn instructions_tell_what_is_hidden() {
    assert_eq!(
        server(true).instructions(),
        "GitLab API access. 2 tools are active. Project arguments accept either a numeric id or \
         a URL-encoded path such as group/subgroup/project. The server runs in read-only mode, \
         so no tool can change GitLab state. Further categories are available on request via \
         discover_tools: releases, wiki."
    );
    let mut s = server(false);
    for category in ["releases", "wiki"] {
        let mut args = JsonMap::new();
        args.put("category", Json::Str(category.into()));
        assert!(matches!(s.call_tool("discover_tools", args, 0), Step::Done(Ok(_))));
    }
    assert_eq!(
        s.instructions(),
        "GitLab API access. 5 tools are active. Project arguments accept either a numeric id or \
         a URL-encoded path such as group/subgroup/project."
    );
}

#[test]
fn refused_tools_send_nothing() {
    let mut s = server(true);
    let call = |s: &mut GitLabMcp, name: &str| refusal(s.call_tool(name, JsonMap::new(), 0));
    assert_eq!(call(&mut s, "no \"such\""), "unknown tool \"no \\\"such\\\"\"");
    assert_eq!(
        call(&mut s, "make_thing"),
        "make_thing changes GitLab state and the server is in read-only mode"
    );
    assert_eq!(
        call(&mut s, "list_releases"),
        "list_releases belongs to the inactive category \"releases\"; call discover_tools with \
         that category to enable it"
    );
    assert_eq!(
        call(&mut s, "forbidden"),
        "forbidden belongs to the inactive category \"issues\"; call discover_tools with that \
         category to enable it"
    );
}

#[test]
fn a_call_goes_out_and_comes_back() {
    let mut s = server(false);
    assert_eq!(s.auth(), ("Authorization", "Bearer t"));
    let mut args = JsonMap::new();
    args.put("page", Json::from_u64(2));
    let (call, task) = match s.call_tool("list_things", args, 0) {
        Step::Send(call, task) => (call, task),
        other => panic!("not sent: {:?}", other),
    };
    let request = s.request(&call);
    assert_eq!(request.method, "GET");
    assert_eq!(request.url, "https://gitlab.example.com/api/v4/things");
    assert_eq!(request.query, vec![("page".to_string(), "2".to_string())]);
    let reply = HttpReply {
        status: 200,
        next_page: None,
        total: None,
        next_page_token: None,
        text: Ok("[1]".into()),
    };
    match s.resume(&call, task, Ok(reply), 0) {
        Step::Done(Ok(v)) => assert_eq!(v, parse("[1]").unwrap()),
        other => panic!("not done: {:?}", other),
    }
}

#[test]
fn results_are_text() {
    assert_eq!(render_result(Ok(Json::Str("plain".into()))), ("plain".to_string(), false));
    assert_eq!(
        render_result(Ok(parse(r#"{"a": [1, null]}"#).unwrap())),
        (r#"{"a":[1,null]}"#.to_string(), false)
    );
    assert_eq!(render_result(Err(ToolError("no".into()))), ("no".to_string(), true));
}
