//! Laws of the settings: what each variable and each flag does.

use crate::config::{AuthKind, CliView, ConfigProblem, ConfigView, arguments, denied_pattern,
    no_overrides, settings, switched, url_bases, variable};
use crate::laws::texts::{blank, law_suffix, law_trimmed, law_trimmed_row};
use crate::pattern::pattern_valid;
use crate::text::{ascii_lower, parse_unsigned, pieces, strip_suffix, trim, trim_end_char, white};
use crate::unicode::{lowercase, quote};
use vstd::prelude::*;
use vstd::string::*;

verus! {

/// The value of each environment variable that is set.
pub type Env = Map<Seq<char>, String>;

// --------------------------------------------------------------- variables

/// A variable counts by its text without the white space around it; one that holds
/// nothing else is as good as unset.
pub proof fn law_variables_are_trimmed(
    env: Env,
    key: Seq<char>,
    head: Seq<char>,
    text: Seq<char>,
    tail: Seq<char>,
)
    requires
        blank(head),
        blank(tail),
        text.len() > 0 ==> !white(text[0]) && !white(text.last()),
    ensures
        !env.dom().contains(key) ==> variable(env, key) is None,
        env.dom().contains(key) && env[key]@ == head + text + tail ==> variable(env, key) == (
        if text.len() > 0 {
            Some(text)
        } else {
            None
        }),
{
    law_trimmed(head, text, tail);
}

/// Whether a word switches something on: `1`, `true`, `yes` or `on`, in any case.
pub open spec fn on_word(value: Option<Seq<char>>) -> bool {
    value matches Some(v) && {
        ||| ascii_lower(v) == "1"@
        ||| ascii_lower(v) == "true"@
        ||| ascii_lower(v) == "yes"@
        ||| ascii_lower(v) == "on"@
    }
}

/// A switch is on just when its variable says so in one of four words; unset, it is
/// what it is by default.
pub proof fn law_switches(env: Env, key: Seq<char>, default: bool)
    ensures
        variable(env, key) is Some ==> switched(env, key, default) == on_word(variable(env, key)),
        variable(env, key) is None ==> switched(env, key, default) == default,
{
}

// ---------------------------------------------------------------- settings

/// Settings can be made just when there is a token, a usable URL, and no pattern of
/// denied tools that does not compile; the first of these that is missing is named.
pub proof fn law_what_settings_need(cli: CliView, env: Env)
    ensures
        ({
            let token = cli.token is Some || variable(env, "GITLAB_PERSONAL_ACCESS_TOKEN"@) is Some
                || variable(env, "GITLAB_TOKEN"@) is Some || variable(env, "CI_JOB_TOKEN"@) is Some;
            let url = url_bases(chosen_url(cli, env));
            let pattern = variable(env, "GITLAB_DENIED_TOOLS_REGEX"@);
            &&& !token ==> settings(cli, env) == Err::<ConfigView, ConfigProblem>(
                ConfigProblem::NoToken,
            )
            &&& token && url is Err ==> settings(cli, env) == Err::<ConfigView, ConfigProblem>(
                url->Err_0,
            )
            &&& token && url is Ok && pattern is Some && !pattern_valid(pattern->0) ==> settings(
                cli,
                env,
            ) == Err::<ConfigView, ConfigProblem>(ConfigProblem::DeniedPattern(pattern->0))
            &&& token && url is Ok && (pattern is Some ==> pattern_valid(pattern->0)) ==> settings(
                cli,
                env,
            ) is Ok
        }),
        denied_pattern(env) == variable(env, "GITLAB_DENIED_TOOLS_REGEX"@),
{
}

/// The URL that is configured: that of the command line, of `GITLAB_API_URL`, of
/// `GITLAB_URL`, in this order, or that of gitlab.com.
pub open spec fn chosen_url(cli: CliView, env: Env) -> Seq<char> {
    if cli.api_url is Some {
        cli.api_url->0
    } else if variable(env, "GITLAB_API_URL"@) is Some {
        variable(env, "GITLAB_API_URL"@)->0
    } else if variable(env, "GITLAB_URL"@) is Some {
        variable(env, "GITLAB_URL"@)->0
    } else {
        "https://gitlab.com"@
    }
}

/// The token is that of the command line, of `GITLAB_PERSONAL_ACCESS_TOKEN`, of
/// `GITLAB_TOKEN` or of `CI_JOB_TOKEN`, in this order. It is a bearer token where the
/// mode says so; where no known mode is set, where it is an OAuth or a job token; and
/// a private token otherwise.
pub proof fn law_token_settings(cli: CliView, env: Env)
    requires
        settings(cli, env) is Ok,
    ensures
        ({
            let s = settings(cli, env)->Ok_0;
            let personal = variable(env, "GITLAB_PERSONAL_ACCESS_TOKEN"@);
            let plain = variable(env, "GITLAB_TOKEN"@);
            let job = variable(env, "CI_JOB_TOKEN"@);
            let mode = variable(env, "GITLAB_AUTH_MODE"@);
            let own = cli.token is Some || personal is Some || plain is Some;
            let known = mode == Some("bearer"@) || mode == Some("oauth"@) || mode == Some(
                "private"@,
            ) || mode == Some("token"@);
            &&& cli.token is Some ==> s.token == cli.token->0
            &&& cli.token is None && personal is Some ==> s.token == personal->0
            &&& cli.token is None && personal is None && plain is Some ==> s.token == plain->0
            &&& !own ==> job == Some(s.token)
            &&& mode == Some("bearer"@) || mode == Some("oauth"@) ==> s.auth == AuthKind::Bearer
            &&& mode == Some("private"@) || mode == Some("token"@) ==> s.auth
                == AuthKind::PrivateToken
            &&& !known ==> (s.auth == AuthKind::Bearer <==> !own || "gloas-"@.is_prefix_of(s.token))
        }),
{
    reveal_strlit("bearer");
    reveal_strlit("oauth");
    reveal_strlit("private");
    reveal_strlit("token");
    assert("bearer"@[0] == 'b' && "oauth"@[0] == 'o');
    assert("private"@[0] == 'p' && "token"@[0] == 't');
}

/// Both bases are those of the configured URL.
pub proof fn law_url_settings(cli: CliView, env: Env)
    requires
        settings(cli, env) is Ok,
    ensures
        url_bases(chosen_url(cli, env)) == Ok::<(Seq<char>, Seq<char>), ConfigProblem>(
            (settings(cli, env)->Ok_0.api_url, settings(cli, env)->Ok_0.graphql_url),
        ),
{
}

/// The server is read-only just when the command line or `GITLAB_READ_ONLY_MODE` says
/// so; the other switches have a variable each.
pub proof fn law_switch_settings(cli: CliView, env: Env)
    requires
        settings(cli, env) is Ok,
    ensures
        ({
            let s = settings(cli, env)->Ok_0;
            &&& s.read_only <==> cli.read_only || on_word(variable(env, "GITLAB_READ_ONLY_MODE"@))
            &&& s.use_wiki <==> on_word(variable(env, "USE_GITLAB_WIKI"@))
            &&& s.use_milestone <==> on_word(variable(env, "USE_MILESTONE"@))
            &&& s.use_pipeline <==> on_word(variable(env, "USE_PIPELINE"@))
            &&& s.insecure_tls <==> on_word(variable(env, "GITLAB_INSECURE_TLS"@))
        }),
{
}

/// Numbers are read where they are numbers that fit; otherwise a request may take a
/// minute, and a million bytes are kept.
pub proof fn law_number_settings(cli: CliView, env: Env)
    requires
        settings(cli, env) is Ok,
    ensures
        ({
            let s = settings(cli, env)->Ok_0;
            let timeout = variable(env, "GITLAB_REQUEST_TIMEOUT_MS"@);
            let limit = variable(env, "GITLAB_MAX_RESPONSE_BYTES"@);
            &&& match timeout {
                Some(v) => match parse_unsigned(v, u64::MAX as nat) {
                    Some(n) => s.timeout_ms == n,
                    None => s.timeout_ms == 60000,
                },
                None => s.timeout_ms == 60000,
            }
            &&& match limit {
                Some(v) => match parse_unsigned(v, usize::MAX as nat) {
                    Some(n) => s.max_response_bytes == n,
                    None => s.max_response_bytes == 1000000,
                },
                None => s.max_response_bytes == 1000000,
            }
        }),
{
}

/// Whether a text is the entry at some place of a comma-separated list, without the
/// white space around it.
pub open spec fn entry_at(list: Seq<char>, i: int, id: Seq<char>) -> bool {
    0 <= i < pieces(list, ',').len() && trim(pieces(list, ',')[i]) == id
}

/// Whether a text is the entry at some place of a comma-separated list, without the
/// white space around it and in small letters.
pub open spec fn small_entry_at(list: Seq<char>, i: int, id: Seq<char>) -> bool {
    0 <= i < pieces(list, ',').len() && lowercase(trim(pieces(list, ',')[i])) == id
}

/// The default project is the one that is configured. The allowed projects are those of
/// a comma-separated list, each without the white space around it.
pub proof fn law_project_settings(cli: CliView, env: Env, id: Seq<char>)
    requires
        settings(cli, env) is Ok,
    ensures
        ({
            let s = settings(cli, env)->Ok_0;
            &&& s.default_project_id == variable(env, "GITLAB_PROJECT_ID"@)
            &&& match variable(env, "GITLAB_ALLOWED_PROJECT_IDS"@) {
                None => !s.allowed_project_ids.contains(id),
                Some(list) => s.allowed_project_ids.contains(id) <==> id.len() > 0 && exists|
                    i: int,
                | #[trigger] entry_at(list, i, id),
            }
        }),
{
    if let Some(v) = variable(env, "GITLAB_ALLOWED_PROJECT_IDS"@) {
        let parts = crate::config::list_parts(v);
        if settings(cli, env)->Ok_0.allowed_project_ids.contains(id) {
            assert(parts.contains(id));
            let i = choose|i: int| 0 <= i < parts.len() && parts[i] == id;
            assert(entry_at(v, i, id));
            assert(id != Seq::<char>::empty());
            if id.len() == 0 {
                assert(id =~= Seq::<char>::empty());
            }
        }
        if id.len() > 0 && exists|i: int| #[trigger] entry_at(v, i, id) {
            let i = choose|i: int| #[trigger] entry_at(v, i, id);
            assert(parts[i] == id);
            assert(parts.to_set().contains(id));
        }
    }
}

/// What chooses the categories: the command line, else `GITLAB_TOOLSETS`.
pub open spec fn chosen_toolsets(cli: CliView, env: Env) -> Option<Seq<char>> {
    match cli.toolsets {
        Some(v) => Some(v),
        None => variable(env, "GITLAB_TOOLSETS"@),
    }
}

/// A choice of categories is `all` of them, the `default` ones, or those of a
/// comma-separated list, in small letters. Where nothing is chosen it is the default
/// ones.
pub proof fn law_toolset_settings(cli: CliView, env: Env, id: Seq<char>)
    requires
        settings(cli, env) is Ok,
    ensures
        ({
            let s = settings(cli, env)->Ok_0.toolsets;
            match chosen_toolsets(cli, env) {
                None => s is Defaults,
                Some(v) => {
                    &&& ascii_lower(v) == "all"@ ==> s is All
                    &&& ascii_lower(v) == "default"@ ==> s is Defaults
                    &&& ascii_lower(v) != "all"@ && ascii_lower(v) != "default"@ ==> s is Explicit
                        && (s->Explicit_0.contains(id) <==> id.len() > 0 && exists|i: int| #[trigger]
                        small_entry_at(v, i, id))
                },
            }
        }),
{
    reveal_strlit("all");
    reveal_strlit("default");
    assert(ascii_lower("all"@) =~= "all"@);
    assert(ascii_lower("default"@) =~= "default"@);
    assert("all"@.len() == 3 && "default"@.len() == 7);
    if let Some(v) = chosen_toolsets(cli, env) {
        let parts = crate::config::list_parts(v).map_values(|p: Seq<char>| lowercase(p));
        let ids = crate::config::listed_categories(v);
        if ids.contains(id) {
            assert(parts.contains(id));
            let i = choose|i: int| 0 <= i < parts.len() && parts[i] == id;
            assert(small_entry_at(v, i, id));
            if id.len() == 0 {
                assert(id =~= Seq::<char>::empty());
            }
        }
        if id.len() > 0 && exists|i: int| #[trigger] small_entry_at(v, i, id) {
            let i = choose|i: int| #[trigger] small_entry_at(v, i, id);
            assert(parts[i] == id);
            assert(parts.to_set().contains(id));
        }
    }
}

/// What stands in the way is said in words.
pub proof fn law_problems_in_words(raw: Seq<char>)
    ensures
        ConfigProblem::NoToken.message()
            == "no GitLab token: set GITLAB_PERSONAL_ACCESS_TOKEN (preferred) or pass --token"@,
        ConfigProblem::EmptyUrl.message() == "GitLab API URL is empty"@,
        ConfigProblem::UrlScheme(raw).message()
            == "GitLab API URL must start with http:// or https://, got "@ + quote(raw),
        ConfigProblem::DeniedPattern(raw).message()
            == "GITLAB_DENIED_TOOLS_REGEX is not a valid regex: "@ + raw,
{
}

// -------------------------------------------------------------------- URLs

/// Whether a text is the root of an instance: it names its scheme, and nothing that
/// would be cut off stands at its end.
pub open spec fn instance_root(root: Seq<char>) -> bool {
    &&& "http://"@.is_prefix_of(root) || "https://"@.is_prefix_of(root)
    &&& root.last() != '/'
    &&& !white(root.last())
    &&& !"/api/v4"@.is_suffix_of(root)
    &&& !"/api/graphql"@.is_suffix_of(root)
}

/// The root of an instance, bare or with an API suffix, slashes and white space behind
/// it, gives the REST base that ends in `/api/v4` and the GraphQL base that ends in
/// `/api/graphql`.
pub proof fn law_urls_are_normalised(
    head: Seq<char>,
    root: Seq<char>,
    suffix: Seq<char>,
    slashes: Seq<char>,
    tail: Seq<char>,
)
    requires
        instance_root(root),
        suffix.len() == 0 || suffix == "/api/v4"@ || suffix == "/api/graphql"@,
        forall|i: int| 0 <= i < slashes.len() ==> #[trigger] slashes[i] == '/',
        blank(head),
        blank(tail),
    ensures
        url_bases(head + (root + suffix + slashes) + tail) == Ok::<
            (Seq<char>, Seq<char>),
            ConfigProblem,
        >((root + "/api/v4"@, root + "/api/graphql"@)),
{
    reveal_strlit("http://");
    reveal_strlit("https://");
    reveal_strlit("/api/v4");
    reveal_strlit("/api/graphql");
    let url = root + suffix;
    let text = url + slashes;
    if "http://"@.is_prefix_of(root) {
        assert(root.subrange(0, 7)[0] == "http://"@[0]);
        assert(root.len() >= 7);
    } else {
        assert(root.subrange(0, 8)[0] == "https://"@[0]);
        assert(root.len() >= 8);
    }
    assert(root[0] == 'h');
    assert(text[0] == 'h');
    if slashes.len() > 0 {
        assert(text.last() == slashes[slashes.len() - 1]);
    } else {
        assert(text =~= url);
        if suffix.len() > 0 {
            assert(text.last() == suffix.last());
        } else {
            assert(text =~= root);
        }
    }
    assert("/api/v4"@.last() == '4' && "/api/graphql"@.last() == 'l');
    assert(!white(text.last()));
    law_trimmed(head, text, tail);
    if suffix.len() > 0 {
        assert(url.last() == suffix.last());
    } else {
        assert(url =~= root);
    }
    law_trimmed_row(url, '/', slashes);
    law_suffix(root, suffix, url);
    let none = Seq::<char>::empty();
    assert(root + none =~= root);
    law_trimmed_row(root, '/', none);
    if suffix == "/api/graphql"@ {
        if "/api/v4"@.is_suffix_of(url) {
            let t = url.subrange(url.len() - "/api/v4"@.len(), url.len() as int);
            assert(t.last() == url.last());
        }
    }
}

/// A URL that holds nothing but white space and slashes is empty.
pub proof fn law_empty_url(head: Seq<char>, slashes: Seq<char>, tail: Seq<char>)
    requires
        forall|i: int| 0 <= i < slashes.len() ==> #[trigger] slashes[i] == '/',
        blank(head),
        blank(tail),
    ensures
        url_bases(head + slashes + tail) == Err::<(Seq<char>, Seq<char>), ConfigProblem>(
            ConfigProblem::EmptyUrl,
        ),
{
    if slashes.len() > 0 {
        assert(slashes[0] == '/' && slashes[slashes.len() - 1] == '/');
    }
    law_trimmed(head, slashes, tail);
    let none = Seq::<char>::empty();
    assert(none + slashes =~= slashes);
    law_trimmed_row(none, '/', slashes);
}

/// A URL that names no scheme is refused, and quoted as it was given.
pub proof fn law_url_without_scheme(raw: Seq<char>)
    requires
        trim_end_char(trim(raw), '/').len() > 0,
        !"http://"@.is_prefix_of(trim(raw)),
        !"https://"@.is_prefix_of(trim(raw)),
    ensures
        url_bases(raw) == Err::<(Seq<char>, Seq<char>), ConfigProblem>(
            ConfigProblem::UrlScheme(raw),
        ),
{
    let whole = trim(raw);
    let t = trim_end_char(whole, '/');
    let cut = match strip_suffix(t, "/api/v4"@) {
        Some(root) => root,
        None => match strip_suffix(t, "/api/graphql"@) {
            Some(root) => root,
            None => t,
        },
    };
    let root = trim_end_char(cut, '/');
    lemma_row_is_beginning(whole, '/');
    lemma_row_is_beginning(cut, '/');
    lemma_shorter_beginning(whole, t, cut, root, "http://"@);
    lemma_shorter_beginning(whole, t, cut, root, "https://"@);
}

proof fn lemma_row_is_beginning(s: Seq<char>, c: char)
    ensures
        trim_end_char(s, c).is_prefix_of(s),
    decreases s.len(),
{
    if s.len() > 0 && s.last() == c {
        lemma_row_is_beginning(s.drop_last(), c);
        let t = trim_end_char(s, c);
        assert(s.subrange(0, t.len() as int) =~= s.drop_last().subrange(0, t.len() as int));
    } else {
        assert(s.subrange(0, s.len() as int) =~= s);
    }
}

proof fn lemma_shorter_beginning(
    whole: Seq<char>,
    t: Seq<char>,
    cut: Seq<char>,
    root: Seq<char>,
    scheme: Seq<char>,
)
    requires
        t.is_prefix_of(whole),
        cut == t || (exists|n: int| 0 <= n <= t.len() && cut == #[trigger] t.take(n)),
        root.is_prefix_of(cut),
        !scheme.is_prefix_of(whole),
    ensures
        !scheme.is_prefix_of(root),
{
    if scheme.is_prefix_of(root) {
        let n = scheme.len() as int;
        assert(root.subrange(0, n) == scheme);
        assert(cut.subrange(0, root.len() as int) == root);
        assert(whole.subrange(0, t.len() as int) == t);
        assert(whole.subrange(0, n) =~= scheme) by {
            assert forall|i: int| 0 <= i < n implies whole[i] == scheme[i] by {
                assert(root.subrange(0, n)[i] == root[i]);
                assert(cut.subrange(0, root.len() as int)[i] == cut[i]);
                assert(whole.subrange(0, t.len() as int)[i] == whole[i]);
            }
        }
    }
}

// ------------------------------------------------------------ command line

/// The names that a token, a URL and a choice of categories are given under.
pub open spec fn token_flag(name: Seq<char>) -> bool {
    name == "--token"@ || name == "--gitlab-token"@
}

/// The names of the flag that sets the address of the API.
pub open spec fn url_flag(name: Seq<char>) -> bool {
    name == "--api-url"@ || name == "--gitlab-api-url"@ || name == "--url"@
}

/// A flag is followed by its value, or carries it behind an equals sign; it sets what
/// it is named after and nothing else. What comes later counts.
pub proof fn law_flags(name: Seq<char>, value: Seq<char>, rest: Seq<Seq<char>>, cli: CliView)
    ensures
        token_flag(name) ==> {
            &&& arguments(seq![name, value] + rest, cli) == arguments(
                rest,
                CliView { token: Some(value), ..cli },
            )
            &&& arguments(seq![name + "="@ + value] + rest, cli) == arguments(
                rest,
                CliView { token: Some(value), ..cli },
            )
        },
        url_flag(name) ==> {
            &&& arguments(seq![name, value] + rest, cli) == arguments(
                rest,
                CliView { api_url: Some(value), ..cli },
            )
            &&& arguments(seq![name + "="@ + value] + rest, cli) == arguments(
                rest,
                CliView { api_url: Some(value), ..cli },
            )
        },
        name == "--toolsets"@ ==> {
            &&& arguments(seq![name, value] + rest, cli) == arguments(
                rest,
                CliView { toolsets: Some(value), ..cli },
            )
            &&& arguments(seq![name + "="@ + value] + rest, cli) == arguments(
                rest,
                CliView { toolsets: Some(value), ..cli },
            )
        },
        name == "--read-only"@ ==> arguments(seq![name] + rest, cli) == arguments(
            rest,
            CliView { read_only: true, ..cli },
        ),
        name == "--read-only"@ ==> arguments(seq![name + "="@ + value] + rest, cli) == arguments(
            rest,
            CliView { read_only: true, ..cli },
        ),
        token_flag(name) ==> arguments(seq![name], cli) == (CliView { token: None, ..cli }),
        url_flag(name) ==> arguments(seq![name], cli) == (CliView { api_url: None, ..cli }),
        name == "--toolsets"@ ==> arguments(seq![name], cli) == (CliView {
            toolsets: None,
            ..cli
        }),
        !name.contains('=') && !token_flag(name) && !url_flag(name) && name != "--toolsets"@ && name
            != "--read-only"@ ==> {
            &&& arguments(seq![name] + rest, cli) == arguments(rest, cli)
            &&& arguments(seq![name + "="@ + value] + rest, cli) == arguments(rest, cli)
        },
        arguments(Seq::<Seq<char>>::empty(), cli) == cli,
        no_overrides().token is None,
        no_overrides().api_url is None,
        no_overrides().toolsets is None,
        !no_overrides().read_only,
{
    reveal_strlit("--token");
    reveal_strlit("--gitlab-token");
    reveal_strlit("--api-url");
    reveal_strlit("--gitlab-api-url");
    reveal_strlit("--url");
    reveal_strlit("--toolsets");
    reveal_strlit("--read-only");
    reveal_strlit("=");
    assert("--token"@.len() == 7 && "--gitlab-token"@.len() == 14 && "--api-url"@.len() == 9);
    assert("--gitlab-api-url"@.len() == 16 && "--url"@.len() == 5 && "--toolsets"@.len() == 10);
    assert("--read-only"@.len() == 11);
    let joined = name + "="@ + value;
    assert("="@ =~= seq!['=']);
    let known = token_flag(name) || url_flag(name) || name == "--toolsets"@ || name
        == "--read-only"@;
    if known {
        assert forall|i: int| 0 <= i < name.len() implies name[i] != '=' by {}
        assert(!name.contains('='));
    }
    if !name.contains('=') {
        crate::laws::texts::law_parted(name, '=', value);
    }
    assert((seq![name, value] + rest).skip(2) =~= rest);
    assert((seq![name] + rest).skip(1) =~= rest);
    assert((seq![joined] + rest).skip(1) =~= rest);
}

} // verus!
