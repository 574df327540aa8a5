//! Runtime configuration, assembled from environment variables and CLI flags.

use crate::pattern::{compiled_from, pattern_valid};
use crate::strmap::StrMap;
use crate::strset::StrSet;
use crate::text::{ascii_lower, begins_with, lowered, opt_str, parse_number, parse_unsigned,
    part_once, pieces, same, same_ignoring_case, split, split_once, strip_suffix, strs, trim,
    trim_end_char, trimmed, trimmed_end_char, without_suffix};
use crate::unicode::{lowercase, quote, quoted};
use vstd::prelude::*;
use vstd::string::*;

verus! {

/// How the access token is presented to GitLab.
#[derive(Debug, Clone, Copy, PartialEq, Eq, Structural)]
pub enum AuthKind {
    /// Personal / project / group access token via the `PRIVATE-TOKEN` header.
    PrivateToken,
    /// OAuth or CI job token via `Authorization: Bearer`.
    Bearer,
}

/// Which tool categories are exposed at startup.
#[derive(Debug)]
pub enum ToolsetSelection {
    /// Only the categories marked `is_default` in the tool data.
    Defaults,
    /// Every category, opt-in ones too.
    All,
    /// An explicit list of category ids.
    Explicit(StrSet),
}

/// A selection of categories as a mathematical value.
pub enum SelectionView {
    Defaults,
    All,
    Explicit(Set<Seq<char>>),
}

impl View for ToolsetSelection {
    type V = SelectionView;

    open spec fn view(&self) -> SelectionView {
        match self {
            ToolsetSelection::Defaults => SelectionView::Defaults,
            ToolsetSelection::All => SelectionView::All,
            ToolsetSelection::Explicit(ids) => SelectionView::Explicit(ids@),
        }
    }
}

/// The settings that the server runs with.
#[derive(Debug)]
pub struct Config {
    /// Fully qualified REST base, e.g. `https://gitlab.example.com/api/v4`.
    pub api_url: String,
    /// GraphQL endpoint derived from the same instance root.
    pub graphql_url: String,
    pub token: String,
    pub auth: AuthKind,
    /// Injected when a tool argument omits `project_id`.
    pub default_project_id: Option<String>,
    /// Reject every tool that is not marked read-only.
    pub read_only: bool,
    /// Tools whose name matches are hidden and refused.
    pub denied_tools: Option<regex::Regex>,
    /// When non-empty, only these projects may be addressed.
    pub allowed_project_ids: StrSet,
    pub toolsets: ToolsetSelection,
    /// Per-category switches.
    pub use_wiki: bool,
    pub use_milestone: bool,
    pub use_pipeline: bool,
    /// How long a request may take, in milliseconds.
    pub timeout_ms: u64,
    /// Truncate tool output beyond this many bytes to protect the context window.
    pub max_response_bytes: usize,
    pub insecure_tls: bool,
}

/// Settings as a mathematical value, but for the pattern of denied tools.
pub struct ConfigView {
    pub api_url: Seq<char>,
    pub graphql_url: Seq<char>,
    pub token: Seq<char>,
    pub auth: AuthKind,
    pub default_project_id: Option<Seq<char>>,
    pub read_only: bool,
    pub allowed_project_ids: Set<Seq<char>>,
    pub toolsets: SelectionView,
    pub use_wiki: bool,
    pub use_milestone: bool,
    pub use_pipeline: bool,
    pub timeout_ms: u64,
    pub max_response_bytes: usize,
    pub insecure_tls: bool,
}

impl View for Config {
    type V = ConfigView;

    open spec fn view(&self) -> ConfigView {
        ConfigView {
            api_url: self.api_url@,
            graphql_url: self.graphql_url@,
            token: self.token@,
            auth: self.auth,
            default_project_id: opt_str(self.default_project_id),
            read_only: self.read_only,
            allowed_project_ids: self.allowed_project_ids@,
            toolsets: self.toolsets@,
            use_wiki: self.use_wiki,
            use_milestone: self.use_milestone,
            use_pipeline: self.use_pipeline,
            timeout_ms: self.timeout_ms,
            max_response_bytes: self.max_response_bytes,
            insecure_tls: self.insecure_tls,
        }
    }
}

/// Why no settings could be made.
#[derive(Debug)]
pub enum ConfigError {
    /// No token was given.
    NoToken,
    /// The instance URL holds nothing.
    EmptyUrl,
    /// The instance URL, here as it was given, has neither `http` nor `https`.
    UrlScheme(String),
    /// The pattern of denied tools does not compile, and why.
    DeniedPattern(String, regex::Error),
}

/// Why no settings could be made, as a mathematical value.
pub enum ConfigProblem {
    NoToken,
    EmptyUrl,
    UrlScheme(Seq<char>),
    DeniedPattern(Seq<char>),
}

impl View for ConfigError {
    type V = ConfigProblem;

    open spec fn view(&self) -> ConfigProblem {
        match self {
            ConfigError::NoToken => ConfigProblem::NoToken,
            ConfigError::EmptyUrl => ConfigProblem::EmptyUrl,
            ConfigError::UrlScheme(raw) => ConfigProblem::UrlScheme(raw@),
            ConfigError::DeniedPattern(pattern, _cause) => ConfigProblem::DeniedPattern(pattern@),
        }
    }
}

impl ConfigProblem {
    /// The problem in words.
    pub open spec fn message(self) -> Seq<char> {
        match self {
            ConfigProblem::NoToken =>
                "no GitLab token: set GITLAB_PERSONAL_ACCESS_TOKEN (preferred) or pass --token"@,
            ConfigProblem::EmptyUrl => "GitLab API URL is empty"@,
            ConfigProblem::UrlScheme(raw) =>
                "GitLab API URL must start with http:// or https://, got "@ + quote(raw),
            ConfigProblem::DeniedPattern(pattern) =>
                "GITLAB_DENIED_TOOLS_REGEX is not a valid regex: "@ + pattern,
        }
    }
}

impl ConfigError {
    /// The problem in words.
    pub fn message(&self) -> (r: String)
        ensures
            r@ == self@.message(),
    {
        match self {
            ConfigError::NoToken =>
                "no GitLab token: set GITLAB_PERSONAL_ACCESS_TOKEN (preferred) or pass --token".to_string(),
            ConfigError::EmptyUrl => "GitLab API URL is empty".to_string(),
            ConfigError::UrlScheme(raw) =>
                "GitLab API URL must start with http:// or https://, got ".to_string().concat(
                quoted(raw.as_str()).as_str(),
            ),
            ConfigError::DeniedPattern(pattern, _cause) =>
                "GITLAB_DENIED_TOOLS_REGEX is not a valid regex: ".to_string().concat(
                pattern.as_str(),
            ),
        }
    }
}

// ------------------------------------------------------------- environment

/// The environment: the value of each variable that is set.
pub type Environment = StrMap<String>;

/// A variable as it is used: trimmed, and as good as unset when nothing is left.
pub open spec fn variable(env: Map<Seq<char>, String>, key: Seq<char>) -> Option<Seq<char>> {
    if env.dom().contains(key) && trim(env[key]@).len() > 0 {
        Some(trim(env[key]@))
    } else {
        None
    }
}

/// The first of two optional values that is there.
pub open spec fn either(a: Option<Seq<char>>, b: Option<Seq<char>>) -> Option<Seq<char>> {
    if a is Some {
        a
    } else {
        b
    }
}

/// The words that switch something on.
pub open spec fn affirmative(value: Seq<char>) -> bool {
    let v = ascii_lower(value);
    v == "1"@ || v == "true"@ || v == "yes"@ || v == "on"@
}

/// Whether a variable switches something on.
pub open spec fn switched(env: Map<Seq<char>, String>, key: Seq<char>, default: bool) -> bool {
    match variable(env, key) {
        None => default,
        Some(v) => affirmative(v),
    }
}

/// A variable, trimmed; an empty one counts as unset.
pub fn env_opt(env: &Environment, key: &str) -> (r: Option<String>)
    ensures
        opt_str(r) == variable(env@, key@),
{
    match env.get(key) {
        Some(v) => {
            let t = trimmed(v.as_str());
            if t.as_str().is_empty() {
                None
            } else {
                Some(t)
            }
        },
        None => None,
    }
}

/// A switch; only `1`, `true`, `yes` and `on` turn it on, in any case.
pub fn env_bool(env: &Environment, key: &str, default: bool) -> (r: bool)
    ensures
        r == switched(env@, key@, default),
{
    match env_opt(env, key) {
        None => default,
        Some(v) => {
            let low = lowered(v.as_str());
            same(low.as_str(), "1") || same(low.as_str(), "true") || same(low.as_str(), "yes") || same(
                low.as_str(),
                "on",
            )
        },
    }
}

/// The first of two optional strings that is there.
fn or_else(a: Option<String>, b: Option<String>) -> (r: Option<String>)
    ensures
        opt_str(r) == either(opt_str(a), opt_str(b)),
{
    match a {
        Some(x) => Some(x),
        None => b,
    }
}

// -------------------------------------------------------------------- URLs

/// The instance root in a URL: without the API suffix and trailing slashes.
pub open spec fn url_root(trimmed: Seq<char>) -> Seq<char> {
    trim_end_char(
        match strip_suffix(trimmed, "/api/v4"@) {
            Some(root) => root,
            None => match strip_suffix(trimmed, "/api/graphql"@) {
                Some(root) => root,
                None => trimmed,
            },
        },
        '/',
    )
}

/// The REST and GraphQL bases for a URL.
pub open spec fn url_bases(raw: Seq<char>) -> Result<(Seq<char>, Seq<char>), ConfigProblem> {
    let trimmed = trim_end_char(trim(raw), '/');
    let root = url_root(trimmed);
    if trimmed.len() == 0 {
        Err(ConfigProblem::EmptyUrl)
    } else if !"http://"@.is_prefix_of(root) && !"https://"@.is_prefix_of(root) {
        Err(ConfigProblem::UrlScheme(raw))
    } else {
        Ok((root + "/api/v4"@, root + "/api/graphql"@))
    }
}

/// Two URLs, or the problem that came instead.
pub open spec fn bases_seen(r: Result<(String, String), ConfigError>) -> Result<
    (Seq<char>, Seq<char>),
    ConfigProblem,
> {
    match r {
        Ok(p) => Ok((p.0@, p.1@)),
        Err(e) => Err(e@),
    }
}

/// Turns whatever the user configured into a REST base ending in `/api/v4`,
/// and a GraphQL base ending in `/api/graphql`.
pub fn normalize_urls(raw: &str) -> (r: Result<(String, String), ConfigError>)
    ensures
        bases_seen(r) == url_bases(raw@),
{
    let spaceless = trimmed(raw);
    let trimmed = trimmed_end_char(spaceless.as_str(), '/');
    if trimmed.as_str().is_empty() {
        return Err(ConfigError::EmptyUrl);
    }
    let cut = match without_suffix(trimmed.as_str(), "/api/v4") {
        Some(root) => root,
        None => match without_suffix(trimmed.as_str(), "/api/graphql") {
            Some(root) => root,
            None => trimmed,
        },
    };
    let root = trimmed_end_char(cut.as_str(), '/');
    if !begins_with(root.as_str(), "http://") && !begins_with(root.as_str(), "https://") {
        return Err(ConfigError::UrlScheme(raw.to_string()));
    }
    Ok((root.clone().concat("/api/v4"), root.concat("/api/graphql")))
}

// ------------------------------------------------------------ command line

/// Values recognised on the command line.
#[derive(Debug)]
pub struct CliOverrides {
    pub token: Option<String>,
    pub api_url: Option<String>,
    pub toolsets: Option<String>,
    pub read_only: bool,
}

/// What the command line says, as a mathematical value.
pub struct CliView {
    pub token: Option<Seq<char>>,
    pub api_url: Option<Seq<char>>,
    pub toolsets: Option<Seq<char>>,
    pub read_only: bool,
}

impl View for CliOverrides {
    type V = CliView;

    open spec fn view(&self) -> CliView {
        CliView {
            token: opt_str(self.token),
            api_url: opt_str(self.api_url),
            toolsets: opt_str(self.toolsets),
            read_only: self.read_only,
        }
    }
}

/// A command line that says nothing.
pub open spec fn no_overrides() -> CliView {
    CliView { token: None, api_url: None, toolsets: None, read_only: false }
}

impl Default for CliOverrides {
    fn default() -> (r: Self)
        ensures
            r@ == no_overrides(),
    {
        CliOverrides { token: None, api_url: None, toolsets: None, read_only: false }
    }
}

/// The flags of the command line.
#[derive(Debug, Clone, Copy, PartialEq, Eq, Structural)]
pub enum Flag {
    Token,
    ApiUrl,
    Toolsets,
    ReadOnly,
    Unknown,
}

/// The flag of a name.
pub open spec fn flag_named(key: Seq<char>) -> Flag {
    if key == "--token"@ || key == "--gitlab-token"@ {
        Flag::Token
    } else if key == "--api-url"@ || key == "--gitlab-api-url"@ || key == "--url"@ {
        Flag::ApiUrl
    } else if key == "--toolsets"@ {
        Flag::Toolsets
    } else if key == "--read-only"@ {
        Flag::ReadOnly
    } else {
        Flag::Unknown
    }
}

/// The flags that are followed by a value.
pub open spec fn takes_value(flag: Flag) -> bool {
    flag == Flag::Token || flag == Flag::ApiUrl || flag == Flag::Toolsets
}

/// What the command line says after one more flag, with the value that belongs to
/// it.
pub open spec fn said(cli: CliView, flag: Flag, value: Option<Seq<char>>) -> CliView {
    match flag {
        Flag::Token => CliView { token: value, ..cli },
        Flag::ApiUrl => CliView { api_url: value, ..cli },
        Flag::Toolsets => CliView { toolsets: value, ..cli },
        Flag::ReadOnly => CliView { read_only: true, ..cli },
        Flag::Unknown => cli,
    }
}

/// What stands before the first equals sign of an argument.
pub open spec fn flag_key(arg: Seq<char>) -> Seq<char> {
    match part_once(arg, '=') {
        Some(p) => p.0,
        None => arg,
    }
}

/// What stands behind the first equals sign of an argument.
pub open spec fn flag_value(arg: Seq<char>) -> Option<Seq<char>> {
    match part_once(arg, '=') {
        Some(p) => Some(p.1),
        None => None,
    }
}

/// What a row of arguments adds to a command line. A value stands behind an equals
/// sign or is the next argument, whatever that looks like.
pub open spec fn arguments(args: Seq<Seq<char>>, cli: CliView) -> CliView
    decreases args.len(),
{
    if args.len() == 0 {
        cli
    } else {
        let flag = flag_named(flag_key(args[0]));
        let inline = flag_value(args[0]);
        if !takes_value(flag) || inline is Some {
            arguments(args.skip(1), said(cli, flag, inline))
        } else if args.len() == 1 {
            said(cli, flag, None)
        } else {
            arguments(args.skip(2), said(cli, flag, Some(args[1])))
        }
    }
}

/// The flag of a name.
fn flag_of(key: &str) -> (r: Flag)
    ensures
        r == flag_named(key@),
{
    if same(key, "--token") || same(key, "--gitlab-token") {
        Flag::Token
    } else if same(key, "--api-url") || same(key, "--gitlab-api-url") || same(key, "--url") {
        Flag::ApiUrl
    } else if same(key, "--toolsets") {
        Flag::Toolsets
    } else if same(key, "--read-only") {
        Flag::ReadOnly
    } else {
        Flag::Unknown
    }
}

/// Reads the arguments behind the program's name. Unknown arguments are passed
/// over; where a flag comes twice, the later one counts.
pub fn parse_cli(args: Vec<String>) -> (r: CliOverrides)
    ensures
        r@ == arguments(strs(args@), no_overrides()),
{
    let mut out = CliOverrides::default();
    let mut i: usize = 0;
    let ghost all = strs(args@);
    assert(all.skip(0) == all);
    while i < args.len()
        invariant
            all == strs(args@),
            i <= args@.len(),
            arguments(all.skip(i as int), out@) == arguments(all, no_overrides()),
        decreases args@.len() - i,
    {
        let ghost rest = all.skip(i as int);
        assert(rest[0] == args@[i as int]@);
        assert(rest.skip(1) == all.skip(i + 1));
        let (key, inline) = match split_once(args[i].as_str(), '=') {
            Some((k, v)) => (k, Some(v)),
            None => (args[i].clone(), None),
        };
        let flag = flag_of(key.as_str());
        i = i + 1;
        let value = match inline {
            Some(v) => Some(v),
            None => if (flag == Flag::Token || flag == Flag::ApiUrl || flag == Flag::Toolsets) && i
                < args.len() {
                assert(rest.skip(2) == all.skip(i + 1));
                assert(rest[1] == args@[i as int]@);
                i = i + 1;
                Some(args[i - 1].clone())
            } else {
                None
            },
        };
        match flag {
            Flag::Token => {
                out.token = value;
            },
            Flag::ApiUrl => {
                out.api_url = value;
            },
            Flag::Toolsets => {
                out.toolsets = value;
            },
            Flag::ReadOnly => {
                out.read_only = true;
            },
            Flag::Unknown => {},
        }
    }
    assert(all.skip(i as int) == Seq::<Seq<char>>::empty());
    out
}

// ---------------------------------------------------------------- settings

/// The parts of a comma-separated list, each trimmed.
pub open spec fn list_parts(v: Seq<char>) -> Seq<Seq<char>> {
    pieces(v, ',').map_values(|p: Seq<char>| trim(p))
}

/// The members of a comma-separated list; empty ones do not count.
pub open spec fn listed_ids(v: Seq<char>) -> Set<Seq<char>> {
    list_parts(v).to_set().remove(Seq::<char>::empty())
}

/// The members of a comma-separated list in small letters; empty ones do not
/// count.
pub open spec fn listed_categories(v: Seq<char>) -> Set<Seq<char>> {
    list_parts(v).map_values(|p: Seq<char>| lowercase(p)).to_set().remove(Seq::<char>::empty())
}

/// The non-empty strings of a list as a set.
pub fn gather(parts: &Vec<String>) -> (r: StrSet)
    ensures
        r@ == strs(parts@).to_set().remove(Seq::<char>::empty()),
{
    let mut out = StrSet::new();
    for i in 0..parts.len()
        invariant
            out@ == strs(parts@).take(i as int).to_set().remove(Seq::<char>::empty()),
    {
        let ghost held = out@;
        let ghost shorter = strs(parts@).take(i as int);
        let ghost longer = strs(parts@).take(i + 1);
        assert(longer == shorter.push(parts@[i as int]@));
        proof {
            assert(longer.to_set() =~= shorter.to_set().insert(parts@[i as int]@)) by {
                assert forall|k: Seq<char>| longer.contains(k) implies shorter.contains(k) || k
                    == parts@[i as int]@ by {
                    let j = choose|j: int| 0 <= j < longer.len() && longer[j] == k;
                    if j < shorter.len() {
                        assert(shorter[j] == k);
                    }
                }
                assert forall|k: Seq<char>| shorter.contains(k) implies longer.contains(k) by {
                    let j = choose|j: int| 0 <= j < shorter.len() && shorter[j] == k;
                    assert(longer[j] == k);
                }
                assert(longer[i as int] == parts@[i as int]@);
            }
        }
        if !parts[i].as_str().is_empty() {
            out.insert(parts[i].clone());
            assert(out@ == longer.to_set().remove(Seq::<char>::empty()));
        } else {
            assert(parts@[i as int]@ == Seq::<char>::empty());
            assert(out@ == longer.to_set().remove(Seq::<char>::empty()));
        }
    }
    assert(strs(parts@).take(parts@.len() as int) == strs(parts@));
    out
}

/// The parts of a comma-separated list, each trimmed and, where asked for, in small
/// letters.
fn split_list(v: &str, lower: bool) -> (r: Vec<String>)
    ensures
        strs(r@) == (if lower {
            list_parts(v@).map_values(|p: Seq<char>| lowercase(p))
        } else {
            list_parts(v@)
        }),
{
    let raw = split(v, ',');
    let mut out: Vec<String> = Vec::new();
    let ghost wanted = if lower {
        list_parts(v@).map_values(|p: Seq<char>| lowercase(p))
    } else {
        list_parts(v@)
    };
    for i in 0..raw.len()
        invariant
            strs(raw@) == pieces(v@, ','),
            wanted == (if lower {
                list_parts(v@).map_values(|p: Seq<char>| lowercase(p))
            } else {
                list_parts(v@)
            }),
            strs(out@) == wanted.take(i as int),
    {
        let ghost held = out@;
        assert(strs(raw@)[i as int] == raw@[i as int]@);
        let t = trimmed(raw[i].as_str());
        let part = if lower {
            t.as_str().to_lowercase()
        } else {
            t
        };
        assert(wanted[i as int] == part@);
        out.push(part);
        assert(strs(out@) == strs(held).push(part@));
        assert(wanted.take(i + 1) == wanted.take(i as int).push(part@));
    }
    assert(wanted.len() == raw@.len()) by {
        assert(strs(raw@).len() == raw@.len());
    }
    assert(wanted.take(raw@.len() as int) == wanted);
    out
}

/// The token: the command line's, or that of the first variable that has one.
pub open spec fn token_of(cli: CliView, env: Map<Seq<char>, String>) -> Option<Seq<char>> {
    either(
        cli.token,
        either(
            variable(env, "GITLAB_PERSONAL_ACCESS_TOKEN"@),
            either(variable(env, "GITLAB_TOKEN"@), variable(env, "CI_JOB_TOKEN"@)),
        ),
    )
}

/// The instance URL: the command line's, that of the first variable that has one,
/// or that of gitlab.com.
pub open spec fn url_of(cli: CliView, env: Map<Seq<char>, String>) -> Seq<char> {
    match either(
        cli.api_url,
        either(variable(env, "GITLAB_API_URL"@), variable(env, "GITLAB_URL"@)),
    ) {
        Some(u) => u,
        None => "https://gitlab.com"@,
    }
}

/// Whether the token is that of a CI job: nothing that goes before it is set.
pub open spec fn job_token(cli: CliView, env: Map<Seq<char>, String>) -> bool {
    cli.token is None && variable(env, "GITLAB_PERSONAL_ACCESS_TOKEN"@) is None && variable(
        env,
        "GITLAB_TOKEN"@,
    ) is None && variable(env, "CI_JOB_TOKEN"@) is Some
}

/// How the token is presented: as configured, else as its kind asks for. Tokens of
/// OAuth and of CI jobs are bearer tokens.
pub open spec fn auth_of(mode: Option<Seq<char>>, token: Seq<char>, of_job: bool) -> AuthKind {
    if mode == Some("bearer"@) || mode == Some("oauth"@) {
        AuthKind::Bearer
    } else if mode == Some("private"@) || mode == Some("token"@) {
        AuthKind::PrivateToken
    } else if of_job || "gloas-"@.is_prefix_of(token) {
        AuthKind::Bearer
    } else {
        AuthKind::PrivateToken
    }
}

/// The categories that a setting selects.
pub open spec fn selection_of(setting: Option<Seq<char>>) -> SelectionView {
    match setting {
        None => SelectionView::Defaults,
        Some(v) => if ascii_lower(v) == ascii_lower("all"@) {
            SelectionView::All
        } else if ascii_lower(v) == ascii_lower("default"@) {
            SelectionView::Defaults
        } else {
            SelectionView::Explicit(listed_categories(v))
        },
    }
}

/// A number in a variable that is not above `max`, or the default.
pub open spec fn number_of(value: Option<Seq<char>>, max: nat, default: nat) -> nat {
    match value {
        Some(v) => match parse_unsigned(v, max) {
            Some(n) => n,
            None => default,
        },
        None => default,
    }
}

/// The pattern of denied tools.
pub open spec fn denied_pattern(env: Map<Seq<char>, String>) -> Option<Seq<char>> {
    variable(env, "GITLAB_DENIED_TOOLS_REGEX"@)
}

/// The settings for a command line and an environment, or what stands in their
/// way.
pub open spec fn settings(cli: CliView, env: Map<Seq<char>, String>) -> Result<
    ConfigView,
    ConfigProblem,
> {
    match token_of(cli, env) {
        None => Err(ConfigProblem::NoToken),
        Some(token) => match url_bases(url_of(cli, env)) {
            Err(e) => Err(e),
            Ok(bases) => if denied_pattern(env) is Some && !pattern_valid(denied_pattern(env)->0) {
                Err(ConfigProblem::DeniedPattern(denied_pattern(env)->0))
            } else {
                Ok(
                    ConfigView {
                        api_url: bases.0,
                        graphql_url: bases.1,
                        token,
                        auth: auth_of(
                            variable(env, "GITLAB_AUTH_MODE"@),
                            token,
                            job_token(cli, env),
                        ),
                        default_project_id: variable(env, "GITLAB_PROJECT_ID"@),
                        read_only: cli.read_only || switched(env, "GITLAB_READ_ONLY_MODE"@, false),
                        allowed_project_ids: match variable(env, "GITLAB_ALLOWED_PROJECT_IDS"@) {
                            Some(v) => listed_ids(v),
                            None => Set::empty(),
                        },
                        toolsets: selection_of(
                            either(cli.toolsets, variable(env, "GITLAB_TOOLSETS"@)),
                        ),
                        use_wiki: switched(env, "USE_GITLAB_WIKI"@, false),
                        use_milestone: switched(env, "USE_MILESTONE"@, false),
                        use_pipeline: switched(env, "USE_PIPELINE"@, false),
                        timeout_ms: number_of(
                            variable(env, "GITLAB_REQUEST_TIMEOUT_MS"@),
                            u64::MAX as nat,
                            60_000,
                        ) as u64,
                        max_response_bytes: number_of(
                            variable(env, "GITLAB_MAX_RESPONSE_BYTES"@),
                            usize::MAX as nat,
                            1_000_000,
                        ) as usize,
                        insecure_tls: switched(env, "GITLAB_INSECURE_TLS"@, false),
                    },
                )
            },
        },
    }
}

/// A number in an optional text that is not above `max`, or the default.
fn number_or(value: Option<String>, max: u64, default: u64) -> (r: u64)
    requires
        default <= max,
    ensures
        r == number_of(opt_str(value), max as nat, default as nat),
        r <= max,
{
    match value {
        Some(v) => match parse_number(v.as_str(), max) {
            Some(n) => n,
            None => default,
        },
        None => default,
    }
}

/// How the token is presented.
fn auth_kind(mode: Option<String>, token: &str, of_job: bool) -> (r: AuthKind)
    ensures
        r == auth_of(opt_str(mode), token@, of_job),
{
    let by_token = if of_job || begins_with(token, "gloas-") {
        AuthKind::Bearer
    } else {
        AuthKind::PrivateToken
    };
    match mode {
        Some(m) => {
            if same(m.as_str(), "bearer") || same(m.as_str(), "oauth") {
                AuthKind::Bearer
            } else if same(m.as_str(), "private") || same(m.as_str(), "token") {
                AuthKind::PrivateToken
            } else {
                by_token
            }
        },
        None => by_token,
    }
}

/// The categories that a setting selects.
fn select_toolsets(setting: Option<String>) -> (r: ToolsetSelection)
    ensures
        r@ == selection_of(opt_str(setting)),
{
    match setting {
        None => ToolsetSelection::Defaults,
        Some(v) => if same_ignoring_case(v.as_str(), "all") {
            ToolsetSelection::All
        } else if same_ignoring_case(v.as_str(), "default") {
            ToolsetSelection::Defaults
        } else {
            ToolsetSelection::Explicit(gather(&split_list(v.as_str(), true)))
        },
    }
}

impl Config {
    /// Assembles the settings; the command line goes before the environment.
    pub fn from_env_and_cli(cli: CliOverrides, env: &Environment) -> (r: Result<Self, ConfigError>)
        ensures
            match r {
                Ok(c) => settings(cli@, env@) == Ok::<ConfigView, ConfigProblem>(c@)
                    && compiled_from(c.denied_tools, denied_pattern(env@)),
                Err(e) => settings(cli@, env@) == Err::<ConfigView, ConfigProblem>(e@),
            },
    {
        let own_token = or_else(
            cli.token,
            or_else(env_opt(env, "GITLAB_PERSONAL_ACCESS_TOKEN"), env_opt(env, "GITLAB_TOKEN")),
        );
        let of_job = own_token.is_none();
        let token = match or_else(own_token, env_opt(env, "CI_JOB_TOKEN")) {
            Some(t) => t,
            None => {
                return Err(ConfigError::NoToken);
            },
        };
        let raw_url = match or_else(
            cli.api_url,
            or_else(env_opt(env, "GITLAB_API_URL"), env_opt(env, "GITLAB_URL")),
        ) {
            Some(u) => u,
            None => "https://gitlab.com".to_string(),
        };
        let (api_url, graphql_url) = match normalize_urls(raw_url.as_str()) {
            Ok(bases) => bases,
            Err(e) => {
                return Err(e);
            },
        };
        let auth = auth_kind(env_opt(env, "GITLAB_AUTH_MODE"), token.as_str(), of_job);
        let denied_tools = match env_opt(env, "GITLAB_DENIED_TOOLS_REGEX") {
            Some(p) => match regex::Regex::new(p.as_str()) {
                Ok(re) => Some(re),
                Err(cause) => {
                    return Err(ConfigError::DeniedPattern(p, cause));
                },
            },
            None => None,
        };
        let allowed_project_ids = match env_opt(env, "GITLAB_ALLOWED_PROJECT_IDS") {
            Some(v) => gather(&split_list(v.as_str(), false)),
            None => StrSet::new(),
        };
        let toolsets = select_toolsets(or_else(cli.toolsets, env_opt(env, "GITLAB_TOOLSETS")));
        let timeout_ms: u64 = number_or(
            env_opt(env, "GITLAB_REQUEST_TIMEOUT_MS"),
            u64::MAX,
            60_000,
        );
        let max_response_bytes: u64 = number_or(
            env_opt(env, "GITLAB_MAX_RESPONSE_BYTES"),
            usize::MAX as u64,
            1_000_000,
        );
        Ok(
            Config {
                api_url,
                graphql_url,
                token,
                auth,
                default_project_id: env_opt(env, "GITLAB_PROJECT_ID"),
                read_only: cli.read_only || env_bool(env, "GITLAB_READ_ONLY_MODE", false),
                denied_tools,
                allowed_project_ids,
                toolsets,
                use_wiki: env_bool(env, "USE_GITLAB_WIKI", false),
                use_milestone: env_bool(env, "USE_MILESTONE", false),
                use_pipeline: env_bool(env, "USE_PIPELINE", false),
                timeout_ms,
                max_response_bytes: max_response_bytes as usize,
                insecure_tls: env_bool(env, "GITLAB_INSECURE_TLS", false),
            },
        )
    }
}

// -------------------------------------------------------------------- laws

/// Stripping trailing characters leaves none of them at the end, and the rest is
/// how the text began.
proof fn lemma_trim_end_char(s: Seq<char>, c: char)
    ensures
        trim_end_char(s, c).len() > 0 ==> trim_end_char(s, c).last() != c,
        trim_end_char(s, c).is_prefix_of(s),
    decreases s.len(),
{
    if s.len() > 0 && s.last() == c {
        lemma_trim_end_char(s.drop_last(), c);
        let t = trim_end_char(s, c);
        assert(t == s.subrange(0, t.len() as int));
    } else {
        assert(s == s.subrange(0, s.len() as int));
    }
}

/// A root with an API suffix has that root, and is its own trimmed form.
proof fn lemma_suffixed_root(root: Seq<char>, suffix: Seq<char>)
    requires
        root.len() > 0,
        root[0] == 'h',
        root.last() != '/',
        suffix == "/api/v4"@ || suffix == "/api/graphql"@,
    ensures
        trim_end_char(trim(root + suffix), '/') == root + suffix,
        url_root(root + suffix) == root,
{
    reveal_strlit("/api/v4");
    reveal_strlit("/api/graphql");
    let a = root + suffix;
    assert(a[0] == 'h');
    assert(a.last() == suffix.last());
    assert(a.subrange((a.len() - suffix.len()) as int, a.len() as int) =~= suffix);
    assert(a.take(a.len() - suffix.len()) =~= root);
    if suffix == "/api/graphql"@ {
        let v4 = "/api/v4"@;
        assert(v4.last() == '4');
        assert(a.last() == 'l');
        if v4.is_suffix_of(a) {
            let tail = a.subrange((a.len() - v4.len()) as int, a.len() as int);
            assert(tail.last() == a.last());
        }
    }
}

/// The bases of an instance end in `/api/v4` and `/api/graphql`, behind one root
/// that names its scheme and has no trailing slash.
pub proof fn law_bases_share_a_root(raw: Seq<char>)
    requires
        url_bases(raw) is Ok,
    ensures
        ({
            let root = url_root(trim_end_char(trim(raw), '/'));
            &&& url_bases(raw)->Ok_0 == (root + "/api/v4"@, root + "/api/graphql"@)
            &&& "http://"@.is_prefix_of(root) || "https://"@.is_prefix_of(root)
            &&& root.last() != '/'
        }),
{
    let trimmed = trim_end_char(trim(raw), '/');
    let cut = match strip_suffix(trimmed, "/api/v4"@) {
        Some(root) => root,
        None => match strip_suffix(trimmed, "/api/graphql"@) {
            Some(root) => root,
            None => trimmed,
        },
    };
    lemma_trim_end_char(cut, '/');
    reveal_strlit("http://");
    reveal_strlit("https://");
}

/// Bases that were normalised once stay as they are, whichever of the two is given.
pub proof fn law_normalising_twice(raw: Seq<char>)
    requires
        url_bases(raw) is Ok,
    ensures
        url_bases(url_bases(raw)->Ok_0.0) == url_bases(raw),
        url_bases(url_bases(raw)->Ok_0.1) == url_bases(raw),
{
    law_bases_share_a_root(raw);
    let root = url_root(trim_end_char(trim(raw), '/'));
    reveal_strlit("http://");
    reveal_strlit("https://");
    assert(root[0] == 'h') by {
        if "http://"@.is_prefix_of(root) {
            assert(root.subrange(0, "http://"@.len() as int)[0] == "http://"@[0]);
        } else {
            assert(root.subrange(0, "https://"@.len() as int)[0] == "https://"@[0]);
        }
    }
    lemma_suffixed_root(root, "/api/v4"@);
    lemma_suffixed_root(root, "/api/graphql"@);
}

/// The position of the first equals sign behind a name without one.
proof fn lemma_name_ends(name: Seq<char>, value: Seq<char>, from: int)
    requires
        0 <= from <= name.len(),
        forall|i: int| 0 <= i < name.len() ==> name[i] != '=',
    ensures
        crate::text::next_char(name.push('=') + value, '=', from) == name.len(),
        crate::text::next_char(name, '=', from) == name.len(),
    decreases name.len() - from,
{
    if from < name.len() {
        lemma_name_ends(name, value, from + 1);
    }
}

/// A flag may be followed by its value, or carry it behind an equals sign.
pub proof fn law_inline_and_separate_values(
    name: Seq<char>,
    value: Seq<char>,
    rest: Seq<Seq<char>>,
    cli: CliView,
)
    requires
        takes_value(flag_named(name)),
    ensures
        arguments(seq![name, value] + rest, cli) == arguments(
            seq![name.push('=') + value] + rest,
            cli,
        ),
{
    reveal_strlit("--token");
    reveal_strlit("--gitlab-token");
    reveal_strlit("--api-url");
    reveal_strlit("--gitlab-api-url");
    reveal_strlit("--url");
    reveal_strlit("--toolsets");
    assert forall|i: int| 0 <= i < name.len() implies name[i] != '=' by {}
    lemma_name_ends(name, value, 0);
    let joined = name.push('=') + value;
    assert(joined.take(name.len() as int) =~= name);
    assert(joined.skip(name.len() as int + 1) =~= value);
    assert((seq![name, value] + rest).skip(2) =~= rest);
    assert((seq![joined] + rest).skip(1) =~= rest);
}

/// What the command line says goes before what the environment says.
pub proof fn law_command_line_first(cli: CliView, env: Map<Seq<char>, String>)
    requires
        settings(cli, env) is Ok,
    ensures
        cli.token is Some ==> settings(cli, env)->Ok_0.token == cli.token->0,
        cli.api_url is Some ==> url_bases(cli.api_url->0) == Ok::<
            (Seq<char>, Seq<char>),
            ConfigProblem,
        >((settings(cli, env)->Ok_0.api_url, settings(cli, env)->Ok_0.graphql_url)),
        cli.toolsets is Some ==> settings(cli, env)->Ok_0.toolsets == selection_of(cli.toolsets),
        cli.read_only ==> settings(cli, env)->Ok_0.read_only,
{
}

/// The token of a CI job is a bearer token, unless it is said to be a private one.
pub proof fn law_job_token_is_a_bearer_token(cli: CliView, env: Map<Seq<char>, String>)
    requires
        settings(cli, env) is Ok,
        job_token(cli, env),
        variable(env, "GITLAB_AUTH_MODE"@) != Some("private"@),
        variable(env, "GITLAB_AUTH_MODE"@) != Some("token"@),
    ensures
        Some(settings(cli, env)->Ok_0.token) == variable(env, "CI_JOB_TOKEN"@),
        settings(cli, env)->Ok_0.auth == AuthKind::Bearer,
{
}

} // verus!
