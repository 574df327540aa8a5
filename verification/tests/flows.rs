//! Tool calls from the first step to the last, against a scripted GitLab.

use std::sync::Arc;

use gitlab_mcp::config::{AuthKind, Config, ToolsetSelection};
use gitlab_mcp::exec::{is_implemented, Executor};
use gitlab_mcp::flow::Step;
use gitlab_mcp::gitlab::{ApiCall, ApiError, ApiResponse};
use gitlab_mcp::interop::{parse, print};
use gitlab_mcp::json::{Json, JsonMap};
use gitlab_mcp::registry::{
    Endpoint, Kind, PreStep, Registry, ToolEntry, ToolMeta, Toolset, VariableSource,
};
use gitlab_mcp::strmap::StrMap;

const SECOND: u64 = 1_000_000_000;

fn json(text: &str) -> Json {
    parse(text).expect("the text is JSON")
}

fn args(text: &str) -> JsonMap {
    match json(text) {
        Json::Object(map) => map,
        _ => panic!("arguments are an object"),
    }
}

fn config() -> Config {
    Config {
        api_url: "https://gitlab.example.com/api/v4".into(),
        graphql_url: "https://gitlab.example.com/api/graphql".into(),
        token: "t".into(),
        auth: AuthKind::PrivateToken,
        default_project_id: None,
        read_only: false,
        denied_tools: None,
        allowed_project_ids: Default::default(),
        toolsets: ToolsetSelection::Defaults,
        use_wiki: false,
        use_milestone: false,
        use_pipeline: false,
        timeout_ms: 30000,
        max_response_bytes: 1000,
        insecure_tls: false,
    }
}

fn endpoint(kind: Kind) -> Endpoint {
    Endpoint {
        kind,
        category: "core".into(),
        read_only: true,
        destructive: false,
        method: None,
        path: None,
        path_params: vec![],
        path_variants: vec![],
        query: None,
        variables: Default::default(),
        pre_step: None,
        result_path: vec![],
        query_params: vec![],
        redact: vec![],
        wrap: None,
    }
}

fn tool(name: &str, endpoint: Endpoint) -> Arc<ToolEntry> {
    let schema = r#"{"properties": {"project_id": {}}}"#;
    Arc::new(ToolEntry {
        meta: ToolMeta {
            name: name.into(),
            description: "d".into(),
            input_schema: args(schema),
        },
        endpoint: Arc::new(endpoint),
    })
}

fn composite(name: &str) -> Arc<ToolEntry> {
    tool(name, endpoint(Kind::Composite))
}

fn registry(tools: Vec<(&str, Endpoint)>) -> Registry {
    let mut endpoints = StrMap::new();
    let mut metas = Vec::new();
    for (name, ep) in tools {
        endpoints.insert(name.to_string(), Arc::new(ep));
        metas.push(ToolMeta {
            name: name.into(),
            description: "d".into(),
            input_schema: JsonMap::new(),
        });
    }
    let toolsets = vec![
        Toolset { id: "issues".into(), is_default: true, tools: vec!["a".into(), "b".into()] },
        Toolset { id: "releases".into(), is_default: false, tools: vec![] },
    ];
    Registry::load(&config(), metas, toolsets, &endpoints).ok().unwrap()
}

fn source(from: Option<&str>, transform: Option<&str>) -> VariableSource {
    VariableSource {
        from: from.map(|f| f.to_string()),
        default: None,
        transform: transform.map(|t| t.to_string()),
        value: None,
    }
}

/// A call as one line of text.
fn line(call: &ApiCall) -> String {
    match call {
        ApiCall::Rest { method, path, query, body } => {
            let mut out = format!("{method} {path}");
            for (i, (k, v)) in query.iter().enumerate() {
                out.push_str(if i == 0 { "?" } else { "&" });
                out.push_str(&format!("{k}={v}"));
            }
            if let Some(b) = body {
                out.push_str(&format!(" {}", print(b)));
            }
            out
        }
        ApiCall::Graphql { document: query, variables } => format!("graphql {query} {}", print(variables)),
    }
}

fn ok(text: &str) -> Result<ApiResponse, ApiError> {
    Ok(ApiResponse {
        status: 200,
        body: json(text),
        next_page: None,
        total: None,
        next_page_token: None,
    })
}

fn refused(status: u16) -> Result<ApiResponse, ApiError> {
    Err(ApiError { status, message: "no".into() })
}

/// Runs a call against replies in order and writes down what was sent, with pauses in
/// seconds, and how it ended. Every reply takes a second.
fn run_with(
    cfg: &Config,
    reg: &mut Registry,
    entry: &Arc<ToolEntry>,
    arguments: &str,
    replies: Vec<Result<ApiResponse, ApiError>>,
) -> Vec<String> {
    let executor = Executor::new(cfg).ok().unwrap();
    let mut now = 100 * SECOND;
    let mut log = Vec::new();
    let mut replies = replies.into_iter();
    let mut step = executor.call(reg, entry, args(arguments), now);
    loop {
        let (call, task) = match step {
            Step::Done(Ok(v)) => {
                log.push(format!("ok {}", print(&v)));
                break;
            }
            Step::Done(Err(e)) => {
                log.push(format!("error {}", e.0));
                break;
            }
            Step::Sleep(nanos, call, task) => {
                log.push(format!("wait {}", nanos / SECOND as u128));
                now += nanos as u64;
                (call, task)
            }
            Step::Send(call, task) => (call, task),
        };
        log.push(line(&call));
        now += SECOND;
        let reply = replies.next().expect("no more calls than replies");
        step = executor.resume(reg, task, reply, now);
    }
    assert!(replies.next().is_none(), "every reply was asked for");
    log
}

fn run(
    entry: &Arc<ToolEntry>,
    arguments: &str,
    replies: Vec<Result<ApiResponse, ApiError>>,
) -> Vec<String> {
    run_with(&config(), &mut registry(vec![]), entry, arguments, replies)
}

fn rest_tool(method: &str, path: &str, params: &[&str]) -> Arc<ToolEntry> {
    let mut ep = endpoint(Kind::Rest);
    ep.method = Some(method.into());
    ep.path = Some(path.into());
    ep.path_params = params.iter().map(|p| p.to_string()).collect();
    tool("rest", ep)
}

#[test]
fn a_rest_tool_makes_one_call() {
    let t = rest_tool("PUT", "/projects/{project_id}/issues/{iid}", &["project_id", "iid"]);
    assert_eq!(
        run(&t, r#"{"project_id": "a/b", "iid": 7, "title": "x"}"#, vec![ok(r#"{"id": 1}"#)]),
        [r#"PUT /projects/a%2Fb/issues/7 {"title":"x"}"#, r#"ok {"id":1}"#]
    );
    assert_eq!(
        run(&t, r#"{"project_id": 1, "iid": 7}"#, vec![refused(403)]),
        ["PUT /projects/1/issues/7", "error GitLab 403 Forbidden: no"]
    );
    assert_eq!(run(&t, r#"{"iid": 7}"#, vec![]), ["error project_id is required"]);
}

#[test]
fn a_rest_tool_without_a_sound_route_sends_nothing() {
    assert_eq!(
        run(&rest_tool("GE T", "/x", &[]), "{}", vec![]),
        ["error unsupported HTTP method GE T"]
    );
    assert_eq!(
        run(&rest_tool("GET", "/{x}", &[]), "{}", vec![]),
        ["error path /{x} still has unfilled parameters"]
    );
    assert_eq!(
        run(&tool("rest", endpoint(Kind::Rest)), "{}", vec![]),
        ["error this tool has no REST route"]
    );
}

#[test]
fn a_branch_stands_for_its_merge_request() {
    let t = rest_tool(
        "GET",
        "/projects/{project_id}/merge_requests/{merge_request_iid}",
        &["project_id", "merge_request_iid"],
    );
    let lookup = "GET /projects/1/merge_requests?source_branch=f/x&per_page=1";
    assert_eq!(
        run(
            &t,
            r#"{"project_id": 1, "source_branch": "f/x"}"#,
            vec![ok(r#"[{"iid": 5}, {"iid": 6}]"#), ok("{}")]
        ),
        [lookup, "GET /projects/1/merge_requests/5?source_branch=f/x", "ok {}"]
    );
    assert_eq!(
        run(&t, r#"{"project_id": 1, "source_branch": "f/x"}"#, vec![ok("[]")]),
        [lookup, "error no merge request was found for source branch \"f/x\""]
    );
    assert_eq!(
        run(&t, r#"{"project_id": 1, "source_branch": "f/x"}"#, vec![refused(500)]),
        [lookup, "error GitLab 500 Internal Server Error: no"]
    );
    assert_eq!(
        run(&t, r#"{"project_id": 1, "source_branch": "b", "merge_request_iid": 2}"#, vec![ok("1")]),
        ["GET /projects/1/merge_requests/2?source_branch=b", "ok 1"]
    );
    assert_eq!(run(&t, r#"{"source_branch": "b"}"#, vec![]), ["error project_id is required"]);
    assert_eq!(
        run(&t, r#"{"project_id": 1}"#, vec![]),
        ["error merge_request_iid is required"]
    );
}

#[test]
fn a_default_project_fills_only_a_gap() {
    let mut cfg = config();
    cfg.default_project_id = Some("d/p".into());
    let t = rest_tool("GET", "/projects/{project_id}", &["project_id"]);
    let mut reg = registry(vec![]);
    assert_eq!(
        run_with(&cfg, &mut reg, &t, "{}", vec![ok("1")]),
        ["GET /projects/d%2Fp", "ok 1"]
    );
    assert_eq!(
        run_with(&cfg, &mut reg, &t, r#"{"project_id": 3}"#, vec![ok("1")]),
        ["GET /projects/3", "ok 1"]
    );
    assert_eq!(
        run_with(&cfg, &mut reg, &t, r#"{"project_id": null}"#, vec![]),
        ["error project_id is required"]
    );
    let bare = Arc::new(ToolEntry {
        meta: ToolMeta {
            name: "rest".into(),
            description: "d".into(),
            input_schema: args(r#"{"properties": {"other": {}}}"#),
        },
        endpoint: t.endpoint.clone(),
    });
    assert_eq!(run_with(&cfg, &mut reg, &bare, "{}", vec![]), ["error project_id is required"]);
}

#[test]
fn only_allowed_projects_are_addressed() {
    let mut cfg = config();
    cfg.allowed_project_ids.insert("b".into());
    cfg.allowed_project_ids.insert("7".into());
    let t = rest_tool("GET", "/projects", &[]);
    let mut reg = registry(vec![]);
    assert_eq!(
        run_with(&cfg, &mut reg, &t, r#"{"project_id": "x"}"#, vec![]),
        ["error project x is not in GITLAB_ALLOWED_PROJECT_IDS; allowed: 7, b"]
    );
    assert_eq!(
        run_with(&cfg, &mut reg, &t, r#"{"project_id": 7}"#, vec![ok("1")]),
        ["GET /projects?project_id=7", "ok 1"]
    );
    assert_eq!(
        run_with(&cfg, &mut reg, &t, "{}", vec![ok("1")]),
        ["GET /projects", "ok 1"]
    );
    cfg.default_project_id = Some("x".into());
    assert_eq!(
        run_with(&cfg, &mut reg, &t, "{}", vec![]),
        ["error project x is not in GITLAB_ALLOWED_PROJECT_IDS; allowed: 7, b"]
    );
}

#[test]
fn a_callers_document_is_passed_on() {
    let t = tool("execute_graphql", endpoint(Kind::Graphql));
    assert_eq!(
        run(&t, r#"{"query": "q", "variables": [1]}"#, vec![ok(r#"{"data": {"errors": [1]}}"#)]),
        ["graphql q [1]", r#"ok {"data":{"errors":[1]}}"#]
    );
    assert_eq!(run(&t, r#"{"query": "q"}"#, vec![ok("1")]), ["graphql q {}", "ok 1"]);
    assert_eq!(
        run(&t, r#"{"query": 1}"#, vec![]),
        ["error execute_graphql requires a `query` string"]
    );
    assert_eq!(
        run(&tool("bare", endpoint(Kind::Graphql)), "{}", vec![]),
        ["error bare is a GraphQL tool but carries no query document"]
    );
}

fn moving_tool(when: Option<&str>) -> Arc<ToolEntry> {
    let mut ep = endpoint(Kind::Graphql);
    ep.query = Some("move".into());
    ep.result_path = vec!["data".into(), "move".into()];
    ep.variables.insert("from".into(), source(Some("project_id"), Some("resolved_full_path")));
    ep.variables.insert("to".into(), source(Some("target_id"), Some("resolved_full_path")));
    ep.variables.insert("again".into(), source(Some("target_id"), Some("resolved_full_path")));
    ep.pre_step = Some(PreStep {
        when: when.map(|w| w.to_string()),
        arg: "project_id".into(),
        method: "GET".into(),
        path: "/projects/{project_id}".into(),
        field: "path_with_namespace".into(),
        into: "resolved_full_path".into(),
    });
    tool("move", ep)
}

#[test]
fn both_projects_of_a_move_are_resolved() {
    assert_eq!(
        run(
            &moving_tool(Some("numeric")),
            r#"{"project_id": 1, "target_id": "2"}"#,
            vec![
                ok(r#"{"path_with_namespace": "a/b"}"#),
                ok(r#"{"path_with_namespace": "c/d"}"#),
                ok(r#"{"data": {"move": {"x": 1}}}"#),
            ]
        ),
        [
            "GET /projects/1",
            "GET /projects/2",
            r#"graphql move {"again":"c/d","from":"a/b","to":"c/d"}"#,
            r#"ok {"x":1}"#,
        ]
    );
    assert_eq!(
        run(
            &moving_tool(Some("numeric")),
            r#"{"project_id": "a/b", "target_id": null}"#,
            vec![ok(r#"{"data": {}}"#)]
        ),
        [r#"graphql move {"from":"a/b"}"#, "ok {}"]
    );
    assert_eq!(
        run(&moving_tool(None), r#"{"project_id": "a/b"}"#, vec![ok(r#"{"id": 1}"#)]),
        ["GET /projects/a%2Fb", "error /projects/a%2Fb did not return a path_with_namespace"]
    );
    assert_eq!(
        run(&moving_tool(None), r#"{"project_id": 1}"#, vec![refused(404)]),
        ["GET /projects/1", "error GitLab 404 Not Found: no"]
    );
}

#[test]
fn a_mutation_that_reports_errors_fails() {
    let mut ep = endpoint(Kind::Graphql);
    ep.query = Some("q".into());
    let t = tool("mutate", ep);
    assert_eq!(
        run(&t, "{}", vec![ok(r#"{"data": {"m": {"errors": ["bad", "worse"]}}}"#)]),
        ["graphql q {}", "error m failed: bad, worse"]
    );
}

fn work_item_tool(transforms: &[&str]) -> Arc<ToolEntry> {
    let mut ep = endpoint(Kind::Graphql);
    ep.query = Some("q".into());
    for t in transforms {
        ep.variables.insert(t.to_string(), source(None, Some(t)));
    }
    ep.pre_step = Some(PreStep {
        when: Some("numeric".into()),
        arg: "project_id".into(),
        method: "GET".into(),
        path: "/projects/{project_id}".into(),
        field: "path_with_namespace".into(),
        into: "resolved_full_path".into(),
    });
    tool("work_item", ep)
}

const ITEM: &str = "graphql query($path: ID!, $iid: String!) { namespace(fullPath: $path) { workItem(iid: $iid) { id } } }";
const TYPES: &str = "graphql query($path: ID!) { namespace(fullPath: $path) { workItemTypes { nodes { id name } } } }";

#[test]
fn work_items_are_addressed_by_global_id() {
    let t = work_item_tool(&["work_item_gid"]);
    let asked = format!(r#"{ITEM} {{"iid":"9","path":"a/b"}}"#);
    assert_eq!(
        run(
            &t,
            r#"{"project_id": "a/b", "iid": 9}"#,
            vec![
                ok(r#"{"data": {"namespace": {"workItem": {"id": "gid://gitlab/WorkItem/3"}}}}"#),
                ok(r#"{"data": 1}"#),
            ]
        ),
        [
            asked.as_str(),
            r#"graphql q {"work_item_gid":"gid://gitlab/WorkItem/3"}"#,
            r#"ok {"data":1}"#,
        ]
    );
    assert_eq!(
        run(
            &t,
            r#"{"project_id": "a/b", "incident_iid": "9"}"#,
            vec![ok(r#"{"data": {"namespace": null}}"#)]
        ),
        [asked.as_str(), "error work item #9 was not found in a/b"]
    );
    assert_eq!(
        run(&t, r#"{"project_id": "a/b", "iid": null, "incident_iid": 9}"#, vec![]),
        ["error iid is required"]
    );
    assert_eq!(
        run(&t, r#"{"iid": 9}"#, vec![]),
        ["error the project path could not be resolved"]
    );
}

#[test]
fn work_item_types_are_named_by_the_caller() {
    let t = work_item_tool(&["issue_gid_from_work_item", "work_item_type_gid"]);
    let item = format!(r#"{ITEM} {{"iid":"9","path":"a/b"}}"#);
    let types = format!(r#"{TYPES} {{"path":"a/b"}}"#);
    let found = r#"{"data": {"namespace": {"workItem": {"id": "gid://gitlab/WorkItem/3"}}}}"#;
    let listed = r#"{"data": {"namespace": {"workItemTypes": {"nodes": [
        {"name": "Issue", "id": "t1"}, {"x": 1}, {"name": "Key Result", "id": "t2"}]}}}}"#;
    let given = r#"{"project_id": "a/b", "iid": 9, "new_type": "key_RESULT"}"#;
    assert_eq!(
        run(&t, given, vec![ok(found), ok(listed), ok("1")]),
        [
            item.as_str(),
            types.as_str(),
            r#"graphql q {"issue_gid_from_work_item":"gid://gitlab/Issue/3","work_item_type_gid":"t2"}"#,
            "ok 1",
        ]
    );
    let t = work_item_tool(&["work_item_type_gid"]);
    assert_eq!(
        run(&t, r#"{"project_id": "a/b"}"#, vec![ok(listed), ok("1")]),
        [types.as_str(), r#"graphql q {"work_item_type_gid":"t1"}"#, "ok 1"]
    );
    assert_eq!(
        run(&t, r#"{"project_id": "a/b", "type": "epic"}"#, vec![ok(listed)]),
        [
            types.as_str(),
            "error unknown work item type \"epic\"; a/b offers: Issue, Key Result",
        ]
    );
    assert_eq!(
        run(&t, r#"{"project_id": "a/b"}"#, vec![ok("{}")]),
        [types.as_str(), "error a/b exposes no work item types"]
    );
    assert_eq!(run(&t, "{}", vec![]), ["error the project path could not be resolved"]);
}

#[test]
fn changed_proxy_settings_are_read_again() {
    let mut ep = endpoint(Kind::Graphql);
    ep.query = Some("update".into());
    ep.variables.insert("path".into(), source(Some("group_id"), None));
    let t = tool("update_dependency_proxy_settings", ep);
    let mut read = endpoint(Kind::Graphql);
    read.query = Some("read".into());
    read.variables.insert("full".into(), source(Some("group_id"), None));
    read.result_path = vec!["data".into()];
    let mut reg = registry(vec![("get_dependency_proxy_settings", read)]);
    assert_eq!(
        run_with(
            &config(),
            &mut reg,
            &t,
            r#"{"group_id": "g"}"#,
            vec![ok(r#"{"data": {}}"#), ok(r#"{"data": {"s": 1}}"#)]
        ),
        [
            r#"graphql update {"path":"g"}"#,
            r#"graphql read {"full":"g"}"#,
            r#"ok {"s":1}"#,
        ]
    );
    assert_eq!(
        run(&t, r#"{"group_id": "g"}"#, vec![ok("{}")]),
        [r#"graphql update {"path":"g"}"#, "error get_dependency_proxy_settings is missing"]
    );
    let mut reg = registry(vec![("get_dependency_proxy_settings", endpoint(Kind::Graphql))]);
    assert_eq!(
        run_with(&config(), &mut reg, &t, "{}", vec![ok("{}")]),
        ["graphql update {}", "error the settings query is missing"]
    );
}

#[test]
fn a_numeric_group_is_changed_by_its_full_path() {
    let step = PreStep {
        when: Some("numeric".into()),
        arg: "group_id".into(),
        method: "GET".into(),
        path: "/groups/{group_id}".into(),
        field: "full_path".into(),
        into: "resolved_full_path".into(),
    };
    let mut ep = endpoint(Kind::Graphql);
    ep.query = Some("update".into());
    ep.variables.insert(
        "input".into(),
        source(Some("group_id"), Some("dependency_proxy_settings_input")),
    );
    ep.pre_step = Some(step);
    let t = tool("update_dependency_proxy_settings", ep);
    let mut read = endpoint(Kind::Graphql);
    read.query = Some("read".into());
    read.variables.insert("path".into(), source(Some("group_id"), Some("resolved_full_path")));
    let mut reg = registry(vec![("get_dependency_proxy_settings", read)]);
    assert_eq!(
        run_with(
            &config(),
            &mut reg,
            &t,
            r#"{"group_id": 42, "enabled": true}"#,
            vec![ok(r#"{"full_path": "acme/platform"}"#), ok(r#"{"data": {}}"#), ok("1")]
        ),
        [
            "GET /groups/42",
            r#"graphql update {"input":{"enabled":true,"groupPath":"acme/platform"}}"#,
            r#"graphql read {"path":"acme/platform"}"#,
            "ok 1",
        ]
    );
}

#[test]
fn a_pipeline_is_watched_until_it_ends() {
    let t = composite("wait_for_pipeline");
    let poll = "GET /projects/a%2Fb/pipelines/9";
    let given = r#"{"project_id": "a/b", "pipeline_id": 9, "timeout_seconds": 10, "poll_interval_seconds": "4"}"#;
    let running = || ok(r#"{"status": "running"}"#);
    assert_eq!(
        run(&t, given, vec![running(), ok(r#"{"status": "manual"}"#)]),
        [poll, "wait 4", poll, r#"ok {"status":"manual"}"#]
    );
    assert_eq!(
        run(&t, given, vec![running(), running(), running()]),
        [
            poll,
            "wait 4",
            poll,
            "wait 4",
            poll,
            "error Timed out waiting for terminal status; last status: running",
        ]
    );
    assert_eq!(run(&t, given, vec![ok(r#"{"id": 1}"#)]), [poll, r#"ok {"id":1}"#]);
    assert_eq!(run(&t, given, vec![refused(404)]), [poll, "error Pipeline not found"]);
    assert_eq!(
        run(&t, given, vec![refused(401)]),
        [poll, "error GitLab 401 Unauthorized: no"]
    );
    assert_eq!(run(&t, r#"{"project_id": 1}"#, vec![]), ["error pipeline_id is required"]);
}

#[test]
fn a_pause_ends_by_the_deadline_and_lasts_a_second_at_least() {
    let t = composite("wait_for_job");
    let poll = "GET /projects/1/jobs/2";
    let running = || ok(r#"{"status": "running"}"#);
    assert_eq!(
        run(
            &t,
            r#"{"project_id": 1, "job_id": 2, "timeout_seconds": 3}"#,
            vec![running(), running()]
        ),
        [
            poll,
            "wait 2",
            poll,
            "error Timed out waiting for terminal status; last status: running",
        ]
    );
    assert_eq!(
        run(
            &t,
            r#"{"project_id": 1, "job_id": 2, "poll_interval_seconds": 0}"#,
            vec![running(), ok(r#"{"status": "failed"}"#)]
        ),
        [poll, "wait 1", poll, r#"ok {"status":"failed"}"#]
    );
    assert_eq!(
        run(&t, r#"{"project_id": 1, "job_id": 2}"#, vec![refused(404)]),
        [poll, "error Job not found"]
    );
}

#[test]
fn a_very_long_wait_is_no_harm() {
    let t = composite("wait_for_job");
    let given = r#"{"project_id": 1, "job_id": 2, "timeout_seconds": 18446744073709551615, "poll_interval_seconds": 3}"#;
    assert_eq!(
        run(&t, given, vec![ok(r#"{"status": "x"}"#), ok(r#"{"status": "success"}"#)]),
        [
            "GET /projects/1/jobs/2",
            "wait 3",
            "GET /projects/1/jobs/2",
            r#"ok {"status":"success"}"#,
        ]
    );
}

#[test]
fn jobs_are_played_one_after_the_other() {
    let t = composite("play_pipeline_jobs");
    assert_eq!(
        run(
            &t,
            r#"{"project_id": 1, "job_ids": [4, "5"], "job_variables_attributes": [{"key": "k"}]}"#,
            vec![
                ok(r#"{"id": 40}"#),
                ok(r#"{"status": "running"}"#),
                ok(r#"{"status": "success"}"#),
                ok("{}"),
                ok(r#"{"status": "failed"}"#),
            ]
        ),
        [
            r#"POST /projects/1/jobs/4/play {"job_variables_attributes":[{"key":"k"}]}"#,
            "GET /projects/1/jobs/40",
            "wait 5",
            "GET /projects/1/jobs/40",
            r#"POST /projects/1/jobs/5/play {"job_variables_attributes":[{"key":"k"}]}"#,
            "GET /projects/1/jobs/5",
            r#"ok [{"status":"success"},{"status":"failed"}]"#,
        ]
    );
    assert_eq!(run(&t, r#"{"project_id": 1, "job_ids": []}"#, vec![]), ["ok []"]);
    assert_eq!(
        run(&t, r#"{"project_id": 1, "job_ids": 4}"#, vec![]),
        ["error job_ids must be an array of job ids"]
    );
    assert_eq!(
        run(
            &t,
            r#"{"project_id": 1, "job_ids": [4, null], "job_variables_attributes": []}"#,
            vec![ok("{}"), ok(r#"{"status": "skipped"}"#)]
        ),
        [
            "POST /projects/1/jobs/4/play",
            "GET /projects/1/jobs/4",
            "error job_ids entries must be numbers or strings",
        ]
    );
    assert_eq!(
        run(&t, r#"{"project_id": 1, "job_ids": [4]}"#, vec![ok("{}"), refused(404)]),
        [
            "POST /projects/1/jobs/4/play",
            "GET /projects/1/jobs/4",
            "error Job not found",
        ]
    );
    assert_eq!(run(&t, "{}", vec![]), ["error project_id is required"]);
}

fn page(from: u64, count: u64) -> Result<ApiResponse, ApiError> {
    let items: Vec<String> = (from..from + count).map(|id| format!(r#"{{"id":{id}}}"#)).collect();
    ok(&format!("[{}]", items.join(",")))
}

#[test]
fn webhook_events_are_paged_through() {
    let t = composite("get_webhook_event");
    let base = "GET /projects/1/hooks/2/events";
    let given = r#"{"project_id": 1, "hook_id": 2, "event_id": "25"}"#;
    assert_eq!(
        run(&t, given, vec![page(1, 20), page(21, 20)]),
        [
            format!("{base}?page=1&per_page=20"),
            format!("{base}?page=2&per_page=20"),
            r#"ok {"id":25}"#.to_string(),
        ]
    );
    assert_eq!(
        run(&t, given, vec![page(1, 19)]),
        [
            format!("{base}?page=1&per_page=20"),
            "error webhook event 25 was not found in the 500 most recent events".to_string(),
        ]
    );
    assert_eq!(
        run(&t, given, vec![ok(r#"{"x": 1}"#)]),
        [format!("{base}?page=1&per_page=20"), r#"ok {"x":1}"#.to_string()]
    );
    let single = r#"{"group_id": "g", "hook_id": 2, "event_id": 999, "page": "3x"}"#;
    assert_eq!(
        run(&t, single, vec![page(1, 20)]),
        [
            "GET /groups/g/hooks/2/events?page=1&per_page=20",
            "error webhook event 999 was not found on page 3x",
        ]
    );
    assert_eq!(run(&t, "{}", vec![]), ["error hook_id is required"]);
    assert_eq!(run(&t, r#"{"hook_id": 2}"#, vec![]), ["error group_id is required"]);
    assert_eq!(
        run(&t, r#"{"hook_id": 2, "group_id": 1}"#, vec![]),
        ["error event_id is required"]
    );
}

#[test]
fn a_webhook_search_gives_up_after_its_last_page() {
    let t = composite("get_webhook_event");
    let replies = (0..25).map(|n| page(n * 20, 20)).collect();
    let log = run(&t, r#"{"project_id": 1, "hook_id": 2, "event_id": 5000}"#, replies);
    assert_eq!(log.len(), 26);
    assert_eq!(log[24], "GET /projects/1/hooks/2/events?page=25&per_page=20");
    assert_eq!(log[25], "error webhook event 5000 was not found in the 500 most recent events");
}

#[test]
fn a_branch_is_cut_from_a_ref_or_the_default() {
    let t = composite("create_branch");
    let create = |from: &str| {
        format!(r#"POST /projects/a%2Fb/repository/branches {{"branch":"n","ref":"{from}"}}"#)
    };
    assert_eq!(
        run(&t, r#"{"project_id": "a/b", "branch": "n", "ref": "v1"}"#, vec![ok("1")]),
        [create("v1").as_str(), "ok 1"]
    );
    let given = r#"{"project_id": "a/b", "branch": "n", "ref": ""}"#;
    assert_eq!(
        run(&t, given, vec![ok(r#"{"default_branch": "trunk"}"#), ok("1")]),
        ["GET /projects/a%2Fb", create("trunk").as_str(), "ok 1"]
    );
    assert_eq!(
        run(&t, given, vec![ok("{}"), ok("1")]),
        ["GET /projects/a%2Fb", create("main").as_str(), "ok 1"]
    );
    assert_eq!(
        run(&t, given, vec![refused(404)]),
        ["GET /projects/a%2Fb", "error GitLab 404 Not Found: no"]
    );
    assert_eq!(run(&t, r#"{"project_id": 1}"#, vec![]), ["error branch is required"]);
}

#[test]
fn a_file_is_created_or_updated() {
    let t = composite("create_or_update_file");
    let given = r#"{"project_id": 1, "file_path": "a/b.txt", "branch": "m", "content": "c", "encoding": null, "commit_id": "mine", "other": 1}"#;
    let probe = "GET /projects/1/repository/files/a%2Fb.txt?ref=m";
    assert_eq!(
        run(
            &t,
            given,
            vec![ok(r#"{"commit_id": "x", "last_commit_id": "y"}"#), ok("1")]
        ),
        [
            probe,
            r#"PUT /projects/1/repository/files/a%2Fb.txt {"branch":"m","commit_id":"mine","content":"c","last_commit_id":"y"}"#,
            "ok 1",
        ]
    );
    assert_eq!(
        run(&t, given, vec![refused(404), ok("1")]),
        [
            probe,
            r#"POST /projects/1/repository/files/a%2Fb.txt {"branch":"m","commit_id":"mine","content":"c"}"#,
            "ok 1",
        ]
    );
    assert_eq!(
        run(&t, given, vec![refused(403)]),
        [probe, "error GitLab 403 Forbidden: no"]
    );
    assert_eq!(
        run(&t, r#"{"project_id": 1, "file_path": "x"}"#, vec![]),
        ["error branch is required"]
    );
}

#[test]
fn my_issues_are_those_of_the_token() {
    let t = composite("my_issues");
    assert_eq!(
        run(
            &t,
            r#"{"project_id": "a/b", "labels": ["x", 1, null], "search": "s", "page": 2, "milestone": null}"#,
            vec![ok(r#"{"username": "u", "id": 3}"#), ok("[]")]
        ),
        [
            "GET /user",
            "GET /projects/a%2Fb/issues?assignee_username[]=u&state=opened&labels[]=x&labels[]=1&search=s&page=2",
            "ok []",
        ]
    );
    assert_eq!(
        run(
            &t,
            r#"{"project_id": "", "state": "closed", "labels": "x,y"}"#,
            vec![ok(r#"{"id": 3}"#), ok("[]")]
        ),
        ["GET /user", "GET /issues?assignee_id=3&state=closed&labels=x,y", "ok []"]
    );
    assert_eq!(
        run(&t, "{}", vec![ok("{}"), ok("[]")]),
        ["GET /user", "GET /issues?state=opened", "ok []"]
    );
    assert_eq!(
        run(&t, "{}", vec![refused(401)]),
        ["GET /user", "error GitLab 401 Unauthorized: no"]
    );
}

const BLOCK: &str = r#"<<<<<<< SEARCH\nold\n=======\nnew\n>>>>>>> REPLACE"#;

fn edit(more: &str) -> String {
    format!(r#"{{"project_id": 1, "issue_iid": 2, "patch": "{BLOCK}"{more}}}"#)
}

#[test]
fn a_description_is_edited_and_saved() {
    let t = composite("update_issue_description_patch");
    let issue = r#"{"description": "old text"}"#;
    let read = "GET /projects/1/issues/2";
    let save = r#"PUT /projects/1/issues/2 {"description":"new text"}"#;
    assert_eq!(
        run(&t, &edit(""), vec![ok(issue), ok(r#"{"iid": 2}"#)]),
        [read, save, r#"ok {"changed":true,"issue":{"iid":2}}"#]
    );
    assert_eq!(
        run(&t, &edit(r#", "dry_run": true"#), vec![ok(issue)]),
        [read, r#"ok {"changed":true,"description":"new text","dry_run":true}"#]
    );
    let note = r#"POST /projects/1/issues/2/notes {"body":"Updated issue description using patch-based tool."}"#;
    assert_eq!(
        run(&t, &edit(r#", "create_note": true"#), vec![ok(issue), ok("1"), ok(r#"{"id": 9}"#)]),
        [
            read,
            save,
            note,
            r#"ok {"changed":true,"issue":1,"note":{"note":{"id":9},"status":"created"}}"#,
        ]
    );
    assert_eq!(
        run(&t, &edit(r#", "create_note": true"#), vec![ok(issue), ok("1"), refused(403)]),
        [
            read,
            save,
            note,
            r#"ok {"changed":true,"issue":1,"note":{"error":"GitLab 403 Forbidden: no","status":"failed"}}"#,
        ]
    );
}

#[test]
fn an_edit_that_does_not_apply_saves_nothing() {
    let t = composite("update_issue_description_patch");
    let read = "GET /projects/1/issues/2";
    assert_eq!(
        run(&t, &edit(""), vec![ok(r#"{"description": null}"#)]),
        [read, "error the search block was not found in the description: \"old\""]
    );
    assert_eq!(
        run(&t, &edit(r#", "patch_type": "sed""#), vec![ok("{}")]),
        [read, "error unknown patch_type \"sed\""]
    );
    assert_eq!(
        run(&t, &edit(r#", "patch_type": "unified_diff""#), vec![ok("{}")]),
        [read, "error the unified diff contained no hunks"]
    );
    assert_eq!(
        run(&t, &edit(r#", "allow_multiple": true"#), vec![ok(r#"{"description": "old old"}"#), ok("1")]),
        [
            read,
            r#"PUT /projects/1/issues/2 {"description":"new new"}"#,
            r#"ok {"changed":true,"issue":1}"#,
        ]
    );
    assert_eq!(
        run(&t, r#"{"project_id": 1, "issue_iid": 2, "patch": 1}"#, vec![]),
        ["error patch is required"]
    );
}

#[test]
fn users_are_looked_up_one_by_one() {
    let t = composite("get_users");
    assert_eq!(
        run(
            &t,
            r#"{"usernames": ["b", "a", "c"]}"#,
            vec![
                ok(r#"[{"username": "bb"}, {"username": "b", "id": 1}]"#),
                refused(500),
                ok(r#"{"username": "c"}"#),
            ]
        ),
        [
            "GET /users?username=b",
            "GET /users?username=a",
            "GET /users?username=c",
            r#"ok {"a":null,"b":{"id":1,"username":"b"},"c":null}"#,
        ]
    );
    assert_eq!(
        run(&t, r#"{"usernames": ["a", 1]}"#, vec![ok("[]")]),
        ["GET /users?username=a", "error usernames entries must be strings"]
    );
    assert_eq!(run(&t, r#"{"usernames": []}"#, vec![]), ["ok {}"]);
    assert_eq!(run(&t, "{}", vec![]), ["error usernames must be an array of strings"]);
}

#[test]
fn health_is_always_reported() {
    let t = composite("health_check");
    let url = r#""gitlab_url":"https://gitlab.example.com/api/v4""#;
    assert_eq!(
        run(
            &t,
            "{}",
            vec![ok("{}"), ok(r#"{"version": "17", "enterprise": null, "x": 1}"#)]
        ),
        [
            "GET /user".to_string(),
            "GET /version".to_string(),
            format!(
                r#"ok {{"authenticated":true,"enterprise":null,{url},"status":"ok","version":"17"}}"#
            ),
        ]
    );
    assert_eq!(
        run(&t, "{}", vec![refused(403), ok("{}"), refused(404)]),
        [
            "GET /user".to_string(),
            "GET /job".to_string(),
            "GET /version".to_string(),
            format!(r#"ok {{"authenticated":true,{url},"status":"ok"}}"#),
        ]
    );
    assert_eq!(
        run(&t, "{}", vec![refused(401), refused(500)]),
        [
            "GET /user".to_string(),
            "GET /job".to_string(),
            format!(
                r#"ok {{"authenticated":false,"error":"GitLab 401 Unauthorized: no",{url},"status":"error"}}"#
            ),
        ]
    );
    assert_eq!(
        run(&t, "{}", vec![refused(502)]),
        [
            "GET /user".to_string(),
            format!(
                r#"ok {{"authenticated":false,"error":"GitLab 502 Bad Gateway: no",{url},"status":"error"}}"#
            ),
        ]
    );
}

#[test]
fn a_composite_that_is_not_implemented_refuses() {
    assert_eq!(
        run(&composite("update_work_item"), "{}", vec![]),
        ["error update_work_item is not implemented in this server; it needs a multi-step mutation sequence that the reference implementation performs client-side"]
    );
    assert!(!is_implemented("update_work_item"));
    for name in [
        "wait_for_pipeline",
        "wait_for_job",
        "play_pipeline_jobs",
        "get_webhook_event",
        "create_branch",
        "create_or_update_file",
        "my_issues",
        "update_issue_description_patch",
        "get_users",
        "health_check",
    ] {
        assert!(is_implemented(name));
    }
}

#[test]
fn discovery_lists_and_opens_categories() {
    let t = tool("discover_tools", endpoint(Kind::Local));
    let mut release = endpoint(Kind::Rest);
    release.category = "releases".into();
    let mut reg = registry(vec![("discover_tools", endpoint(Kind::Local)), ("list_releases", release)]);
    let cfg = config();
    assert_eq!(
        run_with(&cfg, &mut reg, &t, "{}", vec![]),
        [concat_lines(&[
            r#"ok {"categories":[{"active":true,"id":"issues","isDefault":true,"toolCount":2},"#,
            r#"{"active":false,"id":"releases","isDefault":false,"toolCount":0}],"#,
            r#""hint":"call discover_tools again with a category id to expose that group of tools"}"#,
        ])]
    );
    assert_eq!(
        run_with(&cfg, &mut reg, &t, r#"{"category": "wikis"}"#, vec![]),
        ["error unknown category \"wikis\"; valid categories: issues, releases"]
    );
    assert_eq!(reg.visible().len(), 1);
    assert_eq!(
        run_with(&cfg, &mut reg, &t, r#"{"category": "releases"}"#, vec![]),
        [r#"ok {"activated":"releases","activeCategories":["core","issues","releases"],"toolCount":2}"#]
    );
    assert_eq!(reg.visible().len(), 2);
    assert_eq!(
        run_with(&cfg, &mut reg, &tool("other", endpoint(Kind::Local)), "{}", vec![]),
        ["error other has no local implementation"]
    );
}

fn concat_lines(parts: &[&str]) -> String {
    parts.join("")
}
