//! The catalogue: which tools are offered, and which never are.

use std::collections::BTreeSet;
use std::sync::Arc;

use gitlab_mcp::config::{AuthKind, Config, ToolsetSelection};
use gitlab_mcp::json::JsonMap;
use gitlab_mcp::registry::{Endpoint, Kind, Registry, ToolMeta, Toolset, UnmappedTool};
use gitlab_mcp::strmap::StrMap;
use gitlab_mcp::strset::StrSet;

fn test_config() -> Config {
    Config {
        api_url: "https://gitlab.example.com/api/v4".into(),
        graphql_url: "https://gitlab.example.com/api/graphql".into(),
        token: "t".into(),
        auth: AuthKind::PrivateToken,
        default_project_id: None,
        read_only: false,
        denied_tools: None,
        allowed_project_ids: Default::default(),
        toolsets: ToolsetSelection::Defaults,
        use_wiki: false,
        use_milestone: false,
        use_pipeline: false,
        timeout_ms: 30000,
        max_response_bytes: 1_000_000,
        insecure_tls: false,
    }
}

/// Name, category, and whether the tool only reads.
const TOOLS: [(&str, &str, bool); 9] = [
    ("create_issue", "issues", false),
    ("delete_branch", "branches", false),
    ("delete_release", "releases", false),
    ("discover_tools", "core", true),
    ("get_issue", "issues", true),
    ("get_wiki_page", "wiki", true),
    ("list_milestones", "milestones", true),
    ("list_pipelines", "pipelines", true),
    ("list_releases", "releases", true),
];

/// Category, and whether it is offered by default.
const CATEGORIES: [(&str, bool); 6] = [
    ("issues", true),
    ("branches", true),
    ("releases", false),
    ("wiki", false),
    ("milestones", false),
    ("pipelines", false),
];

fn endpoint(category: &str, read_only: bool) -> Endpoint {
    Endpoint {
        kind: Kind::Rest,
        category: category.into(),
        read_only,
        destructive: false,
        method: None,
        path: None,
        path_params: vec![],
        path_variants: vec![],
        query: None,
        variables: Default::default(),
        pre_step: None,
        result_path: vec![],
        query_params: vec![],
        redact: vec![],
        wrap: None,
    }
}

fn meta(name: &str, description: &str) -> ToolMeta {
    ToolMeta {
        name: name.into(),
        description: description.into(),
        input_schema: JsonMap::new(),
    }
}

fn toolsets() -> Vec<Toolset> {
    CATEGORIES
        .iter()
        .map(|(id, is_default)| Toolset {
            id: id.to_string(),
            is_default: *is_default,
            tools: TOOLS.iter().filter(|t| t.1 == *id).map(|t| t.0.to_string()).collect(),
        })
        .collect()
}

fn endpoints() -> StrMap<Arc<Endpoint>> {
    let mut map = StrMap::new();
    for (name, category, read_only) in TOOLS {
        map.insert(name.to_string(), Arc::new(endpoint(category, read_only)));
    }
    map
}

fn load(cfg: &Config) -> Result<Registry, UnmappedTool> {
    let tools = TOOLS.iter().rev().map(|t| meta(t.0, "d")).collect();
    Registry::load(cfg, tools, toolsets(), &endpoints())
}

fn names(reg: &Registry) -> BTreeSet<String> {
    reg.visible().iter().map(|e| e.meta.name.clone()).collect()
}

#[test]
fn defaults_hide_opt_in_categories() {
    let reg = load(&test_config()).unwrap();
    let names = names(&reg);
    assert!(names.contains("get_issue"), "issues are a default category");
    assert!(!names.contains("list_releases"), "releases are opt-in");
    assert!(names.contains("discover_tools"), "the discovery tool is always offered");
}

#[test]
fn read_only_mode_hides_mutations() {
    let mut cfg = test_config();
    cfg.read_only = true;
    cfg.toolsets = ToolsetSelection::All;
    let reg = load(&cfg).unwrap();
    let names = names(&reg);
    assert!(names.contains("get_issue"));
    assert!(!names.contains("create_issue"));
    assert!(!names.contains("delete_branch"));
}

#[test]
fn denied_regex_removes_matching_tools() {
    let mut cfg = test_config();
    cfg.denied_tools = Some(regex::Regex::new("^delete_").unwrap());
    cfg.toolsets = ToolsetSelection::All;
    let reg = load(&cfg).unwrap();
    let names = names(&reg);
    assert!(!names.iter().any(|n| n.starts_with("delete_")));
    assert_eq!(names.len(), TOOLS.len() - 2);
}

#[test]
fn activate_widens_the_visible_set() {
    let mut reg = load(&test_config()).unwrap();
    let before = reg.visible().len();
    assert!(reg.activate("releases"));
    assert!(!reg.activate("no_such_category"));
    assert!(reg.visible().len() > before);
}

#[test]
fn every_category_can_be_selected_at_once() {
    let mut cfg = test_config();
    cfg.toolsets = ToolsetSelection::All;
    let reg = load(&cfg).unwrap();
    let listed: Vec<String> = reg.visible().iter().map(|e| e.meta.name.clone()).collect();
    assert_eq!(listed, TOOLS.map(|t| t.0), "in the order of their names");
}

#[test]
fn an_explicit_selection_keeps_to_known_categories() {
    let mut cfg = test_config();
    let mut ids = StrSet::new();
    ids.insert("wiki".to_string());
    ids.insert("unheard_of".to_string());
    cfg.toolsets = ToolsetSelection::Explicit(ids);
    let reg = load(&cfg).unwrap();
    assert_eq!(reg.active_categories().to_list(), ["core", "wiki"]);
    assert_eq!(names(&reg).into_iter().collect::<Vec<_>>(), ["discover_tools", "get_wiki_page"]);
}

#[test]
fn switches_open_categories_of_their_own() {
    let mut cfg = test_config();
    cfg.use_wiki = true;
    cfg.use_milestone = true;
    cfg.use_pipeline = true;
    let reg = load(&cfg).unwrap();
    assert_eq!(
        reg.active_categories().to_list(),
        ["branches", "core", "issues", "milestones", "pipelines", "wiki"]
    );
}

#[test]
fn a_tool_is_listed_just_when_it_may_be_called() {
    let mut cfg = test_config();
    cfg.read_only = true;
    cfg.denied_tools = Some(regex::Regex::new("issue").unwrap());
    let mut reg = load(&cfg).unwrap();
    reg.activate("releases");
    let listed = names(&reg);
    for (name, _, _) in TOOLS {
        let entry = reg.get(name).unwrap();
        assert_eq!(reg.is_callable(&entry), listed.contains(name), "{}", name);
    }
    assert_eq!(listed.into_iter().collect::<Vec<_>>(), ["discover_tools", "list_releases"]);
}

#[test]
fn a_tool_without_an_endpoint_stops_the_load() {
    let tools = vec![meta("get_issue", "d"), meta("lost", "d"), meta("also_lost", "d")];
    let e = Registry::load(&test_config(), tools, toolsets(), &endpoints()).err().unwrap();
    assert_eq!(e.message(), "no endpoint mapping for tool lost");
}

#[test]
fn the_later_of_two_tools_of_one_name_counts() {
    let tools = vec![meta("get_issue", "first"), meta("get_issue", "second")];
    let reg = Registry::load(&test_config(), tools, toolsets(), &endpoints()).ok().unwrap();
    assert_eq!(reg.get("get_issue").unwrap().meta.description, "second");
    assert!(reg.get("create_issue").is_none());
    assert_eq!(reg.toolsets().len(), CATEGORIES.len());
    assert!(!reg.read_only());
}
