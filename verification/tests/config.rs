//! Settings from the command line and the environment.

use gitlab_mcp::config::{
    env_bool, env_opt, normalize_urls, parse_cli, AuthKind, CliOverrides, Config, ConfigError,
    Environment, ToolsetSelection,
};

fn environment(pairs: &[(&str, &str)]) -> Environment {
    let mut env = Environment::new();
    for (key, value) in pairs {
        env.insert(key.to_string(), value.to_string());
    }
    env
}

fn line(args: &[&str]) -> CliOverrides {
    parse_cli(args.iter().map(|a| a.to_string()).collect())
}

fn settle(args: &[&str], env: &[(&str, &str)]) -> Result<Config, ConfigError> {
    Config::from_env_and_cli(line(args), &environment(env))
}

#[test]
fn normalizes_bare_host() {
    let (rest, gql) = normalize_urls("https://gitlab.example.com").unwrap();
    assert_eq!(rest, "https://gitlab.example.com/api/v4");
    assert_eq!(gql, "https://gitlab.example.com/api/graphql");
}

#[test]
fn normalizes_url_that_already_has_api_suffix() {
    let (rest, gql) = normalize_urls("https://git.example.com/api/v4/").unwrap();
    assert_eq!(rest, "https://git.example.com/api/v4");
    assert_eq!(gql, "https://git.example.com/api/graphql");
}

#[test]
fn rejects_url_without_scheme() {
    assert!(normalize_urls("gitlab.example.com").is_err());
}

#[test]
fn parses_inline_and_separate_cli_values() {
    let cli = parse_cli(
        ["--token=abc", "--api-url", "https://x.example/api/v4", "--read-only"]
            .map(String::from)
            .to_vec(),
    );
    assert_eq!(cli.token.as_deref(), Some("abc"));
    assert_eq!(cli.api_url.as_deref(), Some("https://x.example/api/v4"));
    assert!(cli.read_only);
}

#[test]
fn normalizing_again_changes_nothing() {
    let first = normalize_urls(" http://h/x/api/graphql// ").unwrap();
    assert_eq!(first.0, "http://h/x/api/v4");
    assert_eq!(normalize_urls(&first.0).unwrap(), first);
    assert_eq!(normalize_urls(&first.1).unwrap(), first);
}

#[test]
fn a_url_problem_is_told_in_words() {
    assert_eq!(normalize_urls(" /// ").unwrap_err().message(), "GitLab API URL is empty");
    assert_eq!(
        normalize_urls("ftp://\"h\"").unwrap_err().message(),
        "GitLab API URL must start with http:// or https://, got \"ftp://\\\"h\\\"\""
    );
}

#[test]
fn a_later_flag_counts_and_a_dangling_one_takes_the_value_away() {
    assert_eq!(line(&["--token=a", "--gitlab-token", "b"]).token.as_deref(), Some("b"));
    assert_eq!(line(&["--token=a", "--token"]).token, None);
    assert_eq!(line(&["--token", "--token=a"]).token.as_deref(), Some("--token=a"));
    assert_eq!(line(&["--url=u=v", "stray", "--toolsets=all"]).api_url.as_deref(), Some("u=v"));
    assert!(line(&["--read-only=no"]).read_only);
}

#[test]
fn an_inline_value_is_as_good_as_a_separate_one() {
    let a = line(&["--toolsets", "wiki,issues", "--read-only"]);
    let b = line(&["--toolsets=wiki,issues", "--read-only"]);
    assert_eq!(a.toolsets, b.toolsets);
    assert_eq!(a.read_only, b.read_only);
}

#[test]
fn variables_are_trimmed_and_empty_ones_are_unset() {
    let env = environment(&[("A", "  x y\u{3000}"), ("B", " \t ")]);
    assert_eq!(env_opt(&env, "A").as_deref(), Some("x y"));
    assert_eq!(env_opt(&env, "B"), None);
    assert_eq!(env_opt(&env, "C"), None);
}

#[test]
fn four_words_switch_something_on() {
    let env = environment(&[("A", "TRUE"), ("B", "On "), ("C", "1"), ("D", "yes"), ("E", "y")]);
    for key in ["A", "B", "C", "D"] {
        assert!(env_bool(&env, key, false));
    }
    assert!(!env_bool(&env, "E", true));
    assert!(env_bool(&env, "F", true));
}

#[test]
fn defaults_apply_where_nothing_is_said() {
    let c = settle(&[], &[("GITLAB_TOKEN", "t")]).unwrap();
    assert_eq!(c.token, "t");
    assert_eq!(c.api_url, "https://gitlab.com/api/v4");
    assert_eq!(c.graphql_url, "https://gitlab.com/api/graphql");
    assert_eq!(c.auth, AuthKind::PrivateToken);
    assert_eq!(c.default_project_id, None);
    assert!(!c.read_only);
    assert!(c.denied_tools.is_none());
    assert!(c.allowed_project_ids.is_empty());
    assert!(matches!(c.toolsets, ToolsetSelection::Defaults));
    assert_eq!(c.timeout_ms, 60000);
    assert_eq!(c.max_response_bytes, 1000000);
    assert!(!c.insecure_tls);
}

#[test]
fn the_command_line_goes_before_the_environment() {
    let env = [
        ("GITLAB_PERSONAL_ACCESS_TOKEN", "env"),
        ("GITLAB_TOKEN", "other"),
        ("GITLAB_API_URL", "https://env.example"),
        ("GITLAB_TOOLSETS", "default"),
    ];
    let c = settle(&[], &env).unwrap();
    assert_eq!(c.token, "env");
    assert_eq!(c.api_url, "https://env.example/api/v4");
    let c = settle(&["--token=cli", "--url=http://cli", "--toolsets=ALL", "--read-only"], &env)
        .unwrap();
    assert_eq!(c.token, "cli");
    assert_eq!(c.api_url, "http://cli/api/v4");
    assert!(matches!(c.toolsets, ToolsetSelection::All));
    assert!(c.read_only);
}

#[test]
fn lists_are_split_trimmed_and_folded() {
    let c = settle(
        &["--token=t", "--toolsets", "Wiki, ,ISSUES,É"],
        &[("GITLAB_ALLOWED_PROJECT_IDS", "b, A,,b ")],
    )
    .unwrap();
    assert_eq!(c.allowed_project_ids.to_list(), ["A", "b"]);
    match c.toolsets {
        ToolsetSelection::Explicit(ids) => assert_eq!(ids.to_list(), ["issues", "wiki", "é"]),
        _ => panic!("an explicit list was given"),
    }
}

#[test]
fn numbers_that_do_not_parse_fall_back() {
    let c = settle(
        &["--token=t"],
        &[("GITLAB_REQUEST_TIMEOUT_MS", "+250"), ("GITLAB_MAX_RESPONSE_BYTES", "-1")],
    )
    .unwrap();
    assert_eq!(c.timeout_ms, 250);
    assert_eq!(c.max_response_bytes, 1000000);
    let c = settle(
        &["--token=t"],
        &[("GITLAB_REQUEST_TIMEOUT_MS", "18446744073709551616"), ("GITLAB_MAX_RESPONSE_BYTES", "7")],
    )
    .unwrap();
    assert_eq!(c.timeout_ms, 60000);
    assert_eq!(c.max_response_bytes, 7);
}

#[test]
fn the_token_decides_how_it_is_presented_unless_told() {
    let auth = |token: &str, mode: &str| {
        settle(&["--token", token], &[("GITLAB_AUTH_MODE", mode)]).unwrap().auth
    };
    assert_eq!(auth("gloas-1", ""), AuthKind::Bearer);
    assert_eq!(auth("gloas-1", "token"), AuthKind::PrivateToken);
    assert_eq!(auth("glpat-1", "oauth"), AuthKind::Bearer);
    assert_eq!(auth("glpat-1", "Bearer"), AuthKind::PrivateToken);
}

#[test]
fn a_job_token_is_a_bearer_token_unless_told() {
    let c = settle(&[], &[("CI_JOB_TOKEN", "job")]).unwrap();
    assert_eq!(c.token, "job");
    assert_eq!(c.auth, AuthKind::Bearer);
    let auth = |vars: &[(&str, &str)]| settle(&[], vars).unwrap().auth;
    assert_eq!(
        auth(&[("CI_JOB_TOKEN", "job"), ("GITLAB_AUTH_MODE", "private")]),
        AuthKind::PrivateToken
    );
    assert_eq!(
        auth(&[("CI_JOB_TOKEN", "job"), ("GITLAB_AUTH_MODE", "other")]),
        AuthKind::Bearer
    );
    // A token that goes before it is no job token, even where it reads the same.
    assert_eq!(
        auth(&[("CI_JOB_TOKEN", "job"), ("GITLAB_TOKEN", "job")]),
        AuthKind::PrivateToken
    );
    assert_eq!(
        auth(&[("CI_JOB_TOKEN", "job"), ("GITLAB_TOKEN", " ")]),
        AuthKind::Bearer
    );
    let c = settle(&["--token=t"], &[("CI_JOB_TOKEN", "job")]).unwrap();
    assert_eq!(c.auth, AuthKind::PrivateToken);
}

#[test]
fn what_stands_in_the_way_is_told_in_order() {
    let bad = [("GITLAB_DENIED_TOOLS_REGEX", "("), ("GITLAB_URL", "x")];
    assert_eq!(
        settle(&[], &bad).unwrap_err().message(),
        "no GitLab token: set GITLAB_PERSONAL_ACCESS_TOKEN (preferred) or pass --token"
    );
    assert_eq!(
        settle(&["--token=t"], &bad).unwrap_err().message(),
        "GitLab API URL must start with http:// or https://, got \"x\""
    );
    assert_eq!(
        settle(&["--token=t", "--url=http://x"], &bad).unwrap_err().message(),
        "GITLAB_DENIED_TOOLS_REGEX is not a valid regex: ("
    );
}

#[test]
fn the_denied_pattern_is_compiled() {
    let c = settle(&["--token=t"], &[("GITLAB_DENIED_TOOLS_REGEX", "^delete_|merge$")]).unwrap();
    let re = c.denied_tools.unwrap();
    assert!(re.is_match("delete_branch"));
    assert!(re.is_match("merge"));
    assert!(!re.is_match("undelete_branch"));
}
